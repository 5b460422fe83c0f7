//! Size-checked views of a buffer's bytes.
//!
//! A view is taken only of a buffer whose length is the size of the layout.
//! A read-only view borrows the buffer; an exclusive view borrows it mutably,
//! so that the borrow checker keeps any other view of the same buffer from
//! being alive beside it.

use vstd::prelude::*;
use vstd::slice::slice_subrange;
use crate::account::RawBuffer;
use crate::error::AccessError;
use crate::layout::field_bytes;
use crate::layout::lemma_offsets_ordered;
use crate::layout::offset_of;
use crate::layout::LayoutDescriptor;

verus! {

/// The number of bytes in a discriminator where the caller names none.
pub const DISCRIMINATOR_LEN: usize = 8;

/// The prefix length that `load_discriminator` reads for `len`.
pub open spec fn discriminator_len(len: Option<usize>) -> nat {
    match len {
        Some(n) => n as nat,
        None => 8,
    }
}

/// Whether field `i` of a record laid out by `sizes` lies inside `len` bytes.
/// It does for every field of a record whose length is the total size.
pub open spec fn field_in_reach(len: nat, sizes: Seq<nat>, i: int) -> bool {
    0 <= i < sizes.len() && offset_of(sizes, i) + sizes[i] <= len
}

/// Every field of a layout lies inside a record of the layout's size.
pub proof fn lemma_fields_in_reach(sizes: Seq<nat>, i: int)
    requires
        0 <= i < sizes.len(),
    ensures
        field_in_reach(crate::layout::total_size(sizes), sizes, i),
{
    lemma_offsets_ordered(sizes, i, sizes.len() as int);
}

/// A read-only view of a buffer's bytes as a record of a given layout.
pub struct TypedView<'a> {
    layout: &'a LayoutDescriptor,
    bytes: &'a [u8],
}

impl<'a> TypedView<'a> {
    #[verifier::type_invariant]
    spec fn inv(self) -> bool {
        self.bytes@.len() == self.layout.spec_size()
    }

    /// The bytes that the view reads.
    pub closed spec fn bytes(self) -> Seq<u8> {
        self.bytes@
    }

    /// The layout by which it reads them.
    pub closed spec fn layout(self) -> LayoutDescriptor {
        *self.layout
    }

    /// The value of field `i`: the bytes at its declared offset.
    pub open spec fn field_spec(self, i: int) -> Seq<u8> {
        field_bytes(self.bytes(), self.layout()@, i)
    }

    /// The number of fields in the record.
    pub fn field_count(&self) -> (r: usize)
        ensures
            r == self.layout()@.len(),
    {
        self.layout.field_count()
    }

    /// The bytes of the whole record.
    pub fn as_bytes(&self) -> (r: &'a [u8])
        ensures
            r@ == self.bytes(),
            r@.len() == self.layout().spec_size(),
    {
        proof {
            use_type_invariant(self);
        }
        self.bytes
    }

    /// The value of field `i`, or `None` where the record has no such field.
    pub fn field(&self, i: usize) -> (r: Option<&'a [u8]>)
        ensures
            i >= self.layout()@.len() ==> r is None,
            i < self.layout()@.len() ==> (r matches Some(s) && s@ == self.field_spec(i as int)),
    {
        proof {
            use_type_invariant(self);
        }
        match self.layout.field_span(i) {
            None => None,
            Some(span) => Some(slice_subrange(self.bytes, span.offset, span.offset + span.len)),
        }
    }
}

/// Takes a read-only view of `bytes` as a record of the layout `layout`. No
/// byte is copied: the view borrows `bytes`. Fails with `SizeMismatch`
/// exactly when the number of bytes differs from the layout's size.
pub fn view_readonly<'a>(bytes: &'a [u8], layout: &'a LayoutDescriptor) -> (r: Result<
    TypedView<'a>,
    AccessError,
>)
    ensures
        bytes@.len() != layout.spec_size() ==> r == Err::<TypedView<'a>, AccessError>(
            AccessError::SizeMismatch,
        ),
        bytes@.len() == layout.spec_size() ==> (r matches Ok(v) && v.bytes() == bytes@
            && v.layout() == *layout),
{
    if bytes.len() != layout.size() {
        return Err(AccessError::SizeMismatch);
    }
    Ok(TypedView { layout, bytes })
}

/// Takes a read-only view of the buffer's bytes as a record of the layout
/// `layout`. No byte is copied. Fails with `SizeMismatch` exactly when the
/// buffer's length differs from the layout's size.
pub fn load<'a>(account: &'a RawBuffer, layout: &'a LayoutDescriptor) -> (r: Result<
    TypedView<'a>,
    AccessError,
>)
    ensures
        account.data@.len() != layout.spec_size() ==> r == Err::<TypedView<'a>, AccessError>(
            AccessError::SizeMismatch,
        ),
        account.data@.len() == layout.spec_size() ==> (r matches Ok(v) && v.bytes()
            == account.data@ && v.layout() == *layout),
{
    view_readonly(account.data.as_slice(), layout)
}

/// Two views that read the same bytes by the same layout show the same value
/// in every field: taking a view again of an unchanged buffer changes nothing
/// that can be observed.
pub proof fn lemma_views_agree(a: TypedView<'_>, b: TypedView<'_>, i: int)
    requires
        a.bytes() == b.bytes(),
        a.layout()@ == b.layout()@,
    ensures
        a.field_spec(i) == b.field_spec(i),
{
}

/// `bytes` with the range of field `i` replaced by `value`.
pub open spec fn written(bytes: Seq<u8>, sizes: Seq<nat>, i: int, value: Seq<u8>) -> Seq<u8> {
    Seq::new(
        bytes.len(),
        |k: int|
            if offset_of(sizes, i) <= k < offset_of(sizes, i) + sizes[i] {
                value[k - offset_of(sizes, i)]
            } else {
                bytes[k]
            },
    )
}

/// Whether `value` can be written to field `i` of a record of `len` bytes laid
/// out by `sizes`: the field exists, lies inside the record, and `value` has
/// its size.
pub open spec fn writable(len: nat, sizes: Seq<nat>, i: int, value: Seq<u8>) -> bool {
    field_in_reach(len, sizes, i) && value.len() == sizes[i]
}

/// Single-field-write isolation: after a write to field `i`, field `i` holds
/// the value written, every other field holds what it held, and the record
/// has the length it had.
pub proof fn lemma_write_isolated(bytes: Seq<u8>, sizes: Seq<nat>, i: int, value: Seq<u8>, j: int)
    requires
        writable(bytes.len(), sizes, i, value),
        field_in_reach(bytes.len(), sizes, j),
    ensures
        written(bytes, sizes, i, value).len() == bytes.len(),
        j == i ==> field_bytes(written(bytes, sizes, i, value), sizes, j) == value,
        j != i ==> field_bytes(written(bytes, sizes, i, value), sizes, j) == field_bytes(
            bytes,
            sizes,
            j,
        ),
{
    let after = written(bytes, sizes, i, value);
    if j == i {
        assert(field_bytes(after, sizes, j) =~= value);
    } else {
        if j < i {
            lemma_offsets_ordered(sizes, j, i);
        } else {
            lemma_offsets_ordered(sizes, i, j);
        }
        assert(field_bytes(after, sizes, j) =~= field_bytes(bytes, sizes, j));
    }
}

/// An exclusive view of a buffer's bytes as a record of a given layout.
///
/// The fields are public because the contract of `load_mut` has to name the
/// bytes as they are when the view is given up. A view made by `load_mut` is
/// well formed, and the methods keep it so.
pub struct TypedViewMut<'a> {
    /// The layout by which the view reads and writes.
    pub layout: &'a LayoutDescriptor,
    /// The bytes of the record.
    pub bytes: &'a mut [u8],
}

impl<'a> TypedViewMut<'a> {
    /// The bytes of the record as they are now.
    pub open spec fn bytes(&self) -> Seq<u8> {
        self.bytes@
    }

    /// Whether the view holds as many bytes as its layout asks for.
    pub open spec fn wf(&self) -> bool {
        self.bytes().len() == self.layout.spec_size()
    }

    /// The value of field `i`: the bytes at its declared offset.
    pub open spec fn field_spec(&self, i: int) -> Seq<u8> {
        field_bytes(self.bytes(), self.layout@, i)
    }

    /// The value of field `i`, or `None` where the record has no such field
    /// (or, in a view that is not well formed, where the field lies beyond
    /// the bytes).
    pub fn field(&self, i: usize) -> (r: Option<&[u8]>)
        ensures
            !field_in_reach(self.bytes().len(), self.layout@, i as int) ==> r is None,
            field_in_reach(self.bytes().len(), self.layout@, i as int) ==> (r matches Some(s)
                && s@ == self.field_spec(i as int)),
            self.wf() && i < self.layout@.len() ==> r is Some,
    {
        proof {
            if i < self.layout@.len() {
                lemma_fields_in_reach(self.layout@, i as int);
            }
        }
        match self.layout.field_span(i) {
            None => None,
            Some(span) => {
                let len = self.bytes.len();
                if span.offset + span.len > len {
                    None
                } else {
                    Some(slice_subrange(self.bytes, span.offset, span.offset + span.len))
                }
            },
        }
    }

    /// Writes `value` to field `i` and to nothing else. Fails with
    /// `InvalidUpdate`, and writes nothing, exactly when the record has no
    /// such field or `value` has another size than the field.
    pub fn write_field(&mut self, i: usize, value: &[u8]) -> (r: Result<(), AccessError>)
        ensures
            final(self).layout == old(self).layout,
            final(final(self).bytes)@ == final(old(self).bytes)@,
            writable(old(self).bytes().len(), old(self).layout@, i as int, value@) ==> r == Ok::<
                (),
                AccessError,
            >(()) && final(self).bytes() == written(
                old(self).bytes(),
                old(self).layout@,
                i as int,
                value@,
            ),
            !writable(old(self).bytes().len(), old(self).layout@, i as int, value@) ==> r == Err::<
                (),
                AccessError,
            >(AccessError::InvalidUpdate) && final(self).bytes() == old(self).bytes(),
            old(self).wf() ==> final(self).wf(),
    {
        let span = match self.layout.field_span(i) {
            None => {
                return Err(AccessError::InvalidUpdate);
            },
            Some(span) => span,
        };
        let len = self.bytes.len();
        if value.len() != span.len || span.offset + span.len > len {
            return Err(AccessError::InvalidUpdate);
        }
        let ghost before = self.bytes@;
        let ghost sizes = self.layout@;
        let mut k: usize = 0;
        while k < span.len
            invariant
                k <= span.len,
                span.offset + span.len <= self.bytes@.len() <= usize::MAX,
                value@.len() == span.len,
                self.bytes@.len() == before.len(),
                self.layout == old(self).layout,
                final(self.bytes)@ == final(old(self).bytes)@,
                forall|p: int|
                    0 <= p < before.len() ==> #[trigger] self.bytes@[p] == (if span.offset <= p
                        < span.offset + k {
                        value@[p - span.offset]
                    } else {
                        before[p]
                    }),
            decreases span.len - k,
        {
            let at: usize = span.offset + k;
            self.bytes[at] = value[k];
            k += 1;
        }
        assert(self.bytes@ =~= written(before, sizes, i as int, value@));
        Ok(())
    }
}

/// Takes an exclusive view of `bytes` as a record of the layout `layout`. No
/// byte is copied: what is written through the view is written to `bytes`,
/// which cannot be reached otherwise while the view lives. Fails with
/// `SizeMismatch`, leaving the bytes as they were, exactly when their number
/// differs from the layout's size.
pub fn view_exclusive<'a>(bytes: &'a mut [u8], layout: &'a LayoutDescriptor) -> (r: Result<
    TypedViewMut<'a>,
    AccessError,
>)
    ensures
        old(bytes)@.len() != layout.spec_size() ==> r is Err && r->Err_0
            == AccessError::SizeMismatch && final(bytes)@ == old(bytes)@,
        old(bytes)@.len() == layout.spec_size() ==> (r matches Ok(v) && v.wf()
            && v.bytes() == old(bytes)@
            && *v.layout == *layout
            && final(bytes)@ == final(v.bytes)@),
{
    if bytes.len() != layout.size() {
        return Err(AccessError::SizeMismatch);
    }
    Ok(TypedViewMut { layout, bytes })
}

/// Takes an exclusive view of the buffer's bytes as a record of the layout
/// `layout`. No byte is copied: what is written through the view is written
/// to the buffer, and the buffer cannot be reached otherwise while the view
/// lives. Fails with `SizeMismatch`, leaving the buffer as it was, exactly
/// when the buffer's length differs from the layout's size.
pub fn load_mut<'a>(account: &'a mut RawBuffer, layout: &'a LayoutDescriptor) -> (r: Result<
    TypedViewMut<'a>,
    AccessError,
>)
    ensures
        old(account).data@.len() != layout.spec_size() ==> r is Err && r->Err_0
            == AccessError::SizeMismatch && *final(account) == *old(account),
        old(account).data@.len() == layout.spec_size() ==> (r matches Ok(v) && v.wf()
            && v.bytes() == old(account).data@
            && *v.layout == *layout
            && final(account).data@ == final(v.bytes)@
            && final(account).key == old(account).key
            && final(account).is_signer == old(account).is_signer
            && final(account).is_executable == old(account).is_executable),
{
    if account.data.len() != layout.size() {
        return Err(AccessError::SizeMismatch);
    }
    view_exclusive(account.data.as_mut_slice(), layout)
}

/// The bytes of `s` as an array of `N` bytes, or `None` where `s` has another
/// length.
pub fn array_of<const N: usize>(s: &[u8]) -> (r: Option<[u8; N]>)
    ensures
        s@.len() != N ==> r is None,
        s@.len() == N ==> (r matches Some(a) && a@ == s@),
{
    if s.len() != N {
        return None;
    }
    let mut out: [u8; N] = [0u8; N];
    let mut i: usize = 0;
    while i < N
        invariant
            i <= N,
            s@.len() == N,
            forall|k: int| 0 <= k < i ==> out@[k] == s@[k],
        decreases N - i,
    {
        out[i] = s[i];
        i += 1;
    }
    assert(out@ =~= s@);
    Some(out)
}

/// Copies the first `len` bytes of `bytes`, eight where `len` is `None`. The
/// prefix tells record kinds apart before a view is taken. Fails with
/// `SizeMismatch` exactly when there are fewer bytes than the prefix has.
pub fn read_discriminator(bytes: &[u8], len: Option<usize>) -> (r: Result<Vec<u8>, AccessError>)
    ensures
        bytes@.len() < discriminator_len(len) ==> r == Err::<Vec<u8>, AccessError>(
            AccessError::SizeMismatch,
        ),
        bytes@.len() >= discriminator_len(len) ==> (r matches Ok(v) && v@ == bytes@.take(
            discriminator_len(len) as int,
        )),
{
    let n: usize = match len {
        Some(n) => n,
        None => DISCRIMINATOR_LEN,
    };
    if bytes.len() < n {
        return Err(AccessError::SizeMismatch);
    }
    let mut out: Vec<u8> = Vec::with_capacity(n);
    let mut i: usize = 0;
    while i < n
        invariant
            i <= n <= bytes@.len(),
            out@ == bytes@.take(i as int),
        decreases n - i,
    {
        out.push(bytes[i]);
        assert(out@ =~= bytes@.take(i + 1));
        i += 1;
    }
    Ok(out)
}

/// Copies the first `len` bytes of the buffer, eight where `len` is `None`.
/// Fails with `SizeMismatch` exactly when the buffer is shorter than that.
pub fn load_discriminator(account: &RawBuffer, len: Option<usize>) -> (r: Result<
    Vec<u8>,
    AccessError,
>)
    ensures
        account.data@.len() < discriminator_len(len) ==> r == Err::<Vec<u8>, AccessError>(
            AccessError::SizeMismatch,
        ),
        account.data@.len() >= discriminator_len(len) ==> (r matches Ok(v) && v@
            == account.data@.take(discriminator_len(len) as int)),
{
    read_discriminator(account.data.as_slice(), len)
}

} // verus!
