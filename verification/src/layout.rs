//! Field types, their sizes, and the layout descriptor of a record.

use vstd::prelude::*;
use crate::decl::FieldDecl;
use crate::decl::ItemDecl;
use crate::decl::ItemKind;
use crate::error::SchemaError;
use crate::order::first_some;
use crate::order::lemma_first_some_all_none;
use crate::order::lemma_first_some_is;
use crate::text::text_is;

verus! {

/// A primitive of fixed size.
#[derive(Debug, Clone, Copy, PartialEq, Eq, Structural)]
pub enum Primitive {
    U8,
    I8,
    Bool,
    U16,
    I16,
    U32,
    I32,
    U64,
    I64,
    U128,
    I128,
}

impl Primitive {
    /// The bytes that a value of the primitive takes.
    pub open spec fn byte_size(self) -> nat {
        match self {
            Primitive::U8 | Primitive::I8 | Primitive::Bool => 1,
            Primitive::U16 | Primitive::I16 => 2,
            Primitive::U32 | Primitive::I32 => 4,
            Primitive::U64 | Primitive::I64 => 8,
            Primitive::U128 | Primitive::I128 => 16,
        }
    }

    /// The primitive that is written `name`, if there is one.
    pub open spec fn named(name: Seq<char>) -> Option<Primitive> {
        if name == "u8"@ {
            Some(Primitive::U8)
        } else if name == "i8"@ {
            Some(Primitive::I8)
        } else if name == "bool"@ {
            Some(Primitive::Bool)
        } else if name == "u16"@ {
            Some(Primitive::U16)
        } else if name == "i16"@ {
            Some(Primitive::I16)
        } else if name == "u32"@ {
            Some(Primitive::U32)
        } else if name == "i32"@ {
            Some(Primitive::I32)
        } else if name == "u64"@ {
            Some(Primitive::U64)
        } else if name == "i64"@ {
            Some(Primitive::I64)
        } else if name == "u128"@ {
            Some(Primitive::U128)
        } else if name == "i128"@ {
            Some(Primitive::I128)
        } else {
            None
        }
    }

    /// The primitive that is written `name`, if there is one.
    pub fn from_name(name: &str) -> (r: Option<Primitive>)
        ensures
            r == Self::named(name@),
    {
        if text_is(name, "u8") {
            Some(Primitive::U8)
        } else if text_is(name, "i8") {
            Some(Primitive::I8)
        } else if text_is(name, "bool") {
            Some(Primitive::Bool)
        } else if text_is(name, "u16") {
            Some(Primitive::U16)
        } else if text_is(name, "i16") {
            Some(Primitive::I16)
        } else if text_is(name, "u32") {
            Some(Primitive::U32)
        } else if text_is(name, "i32") {
            Some(Primitive::I32)
        } else if text_is(name, "u64") {
            Some(Primitive::U64)
        } else if text_is(name, "i64") {
            Some(Primitive::I64)
        } else if text_is(name, "u128") {
            Some(Primitive::U128)
        } else if text_is(name, "i128") {
            Some(Primitive::I128)
        } else {
            None
        }
    }

    /// The bytes that a value of the primitive takes.
    pub fn size(self) -> (r: usize)
        ensures
            r == self.byte_size(),
    {
        match self {
            Primitive::U8 | Primitive::I8 | Primitive::Bool => 1,
            Primitive::U16 | Primitive::I16 => 2,
            Primitive::U32 | Primitive::I32 => 4,
            Primitive::U64 | Primitive::I64 => 8,
            Primitive::U128 | Primitive::I128 => 16,
        }
    }
}

/// The declared type of a field.
#[derive(Debug, PartialEq, Eq)]
pub enum FieldType {
    /// A primitive of fixed size.
    Primitive(Primitive),
    /// An array of so many elements of one type.
    Array(Box<FieldType>, usize),
    /// A nested record, known by the size of its own layout.
    Record(usize),
    /// Anything without a fixed size: a slice, a string, a reference.
    Unsupported,
}

impl FieldType {
    /// Whether a value of the type has a fixed size.
    pub open spec fn fixed(self) -> bool
        decreases self,
    {
        match self {
            FieldType::Primitive(_) => true,
            FieldType::Array(elem, _) => elem.fixed(),
            FieldType::Record(_) => true,
            FieldType::Unsupported => false,
        }
    }

    /// The bytes that a value of the type takes: the elements of an array lie
    /// side by side. Zero where the type has no fixed size.
    pub open spec fn byte_size(self) -> nat
        decreases self,
    {
        match self {
            FieldType::Primitive(p) => p.byte_size(),
            FieldType::Array(elem, n) => elem.byte_size() * (n as nat),
            FieldType::Record(n) => n as nat,
            FieldType::Unsupported => 0,
        }
    }

    /// A copy of the type.
    pub fn duplicate(&self) -> (r: FieldType)
        ensures
            r == *self,
        decreases self,
    {
        match self {
            FieldType::Primitive(p) => FieldType::Primitive(*p),
            FieldType::Array(elem, n) => FieldType::Array(Box::new(elem.duplicate()), *n),
            FieldType::Record(n) => FieldType::Record(*n),
            FieldType::Unsupported => FieldType::Unsupported,
        }
    }

    /// Whether a value of the type has a fixed size.
    pub fn is_fixed(&self) -> (r: bool)
        ensures
            r == self.fixed(),
        decreases self,
    {
        match self {
            FieldType::Primitive(_) => true,
            FieldType::Array(elem, _) => elem.is_fixed(),
            FieldType::Record(_) => true,
            FieldType::Unsupported => false,
        }
    }

    /// The size of the type in bytes, where it has a fixed size that an index
    /// can hold.
    pub fn size(&self) -> (r: Option<usize>)
        ensures
            r is Some <==> self.fixed() && self.byte_size() <= usize::MAX,
            r matches Some(n) ==> n == self.byte_size(),
        decreases self,
    {
        match self {
            FieldType::Primitive(p) => Some(p.size()),
            FieldType::Array(elem, n) => {
                if !elem.is_fixed() {
                    None
                } else if *n == 0 {
                    assert(elem.byte_size() * 0 == 0) by (nonlinear_arith);
                    Some(0)
                } else {
                    match elem.size() {
                        None => {
                            assert(elem.byte_size() * (*n as nat) > usize::MAX)
                                by (nonlinear_arith)
                                requires
                                    elem.byte_size() > usize::MAX,
                                    *n >= 1,
                            ;
                            None
                        },
                        Some(s) => s.checked_mul(*n),
                    }
                }
            },
            FieldType::Record(n) => Some(*n),
            FieldType::Unsupported => None,
        }
    }
}

/// The sum of the sizes in `sizes`.
pub open spec fn total_size(sizes: Seq<nat>) -> nat
    decreases sizes.len(),
{
    if sizes.len() == 0 {
        0
    } else {
        total_size(sizes.drop_last()) + sizes.last()
    }
}

/// The offset of field `i` in a record whose fields have the sizes `sizes`:
/// the sum of the sizes of the fields declared before it.
pub open spec fn offset_of(sizes: Seq<nat>, i: int) -> nat {
    total_size(sizes.take(i))
}

/// The bytes of field `i` in `bytes`, laid out by `sizes`.
pub open spec fn field_bytes(bytes: Seq<u8>, sizes: Seq<nat>, i: int) -> Seq<u8> {
    bytes.subrange(offset_of(sizes, i) as int, (offset_of(sizes, i) + sizes[i]) as int)
}

/// The offset of a field is the offset of the field before it plus that
/// field's size.
pub proof fn lemma_offset_step(sizes: Seq<nat>, i: int)
    requires
        0 <= i < sizes.len(),
    ensures
        offset_of(sizes, i + 1) == offset_of(sizes, i) + sizes[i],
{
    assert(sizes.take(i + 1).drop_last() =~= sizes.take(i));
    assert(sizes.take(i + 1).last() == sizes[i]);
}

/// Fields lie in declaration order without overlap, and all of them inside
/// the record: a field ends where a later one begins or before, and no field
/// ends beyond the total size.
pub proof fn lemma_offsets_ordered(sizes: Seq<nat>, i: int, j: int)
    requires
        0 <= i <= j <= sizes.len(),
    ensures
        offset_of(sizes, i) <= offset_of(sizes, j),
        i < j ==> offset_of(sizes, i) + sizes[i] <= offset_of(sizes, j),
        offset_of(sizes, sizes.len() as int) == total_size(sizes),
    decreases j - i,
{
    assert(sizes.take(sizes.len() as int) =~= sizes);
    if i < j {
        lemma_offset_step(sizes, i);
        lemma_offsets_ordered(sizes, i + 1, j);
    }
}

/// The sizes in `sizes` as mathematical numbers.
pub open spec fn as_nats(sizes: Seq<usize>) -> Seq<nat> {
    sizes.map_values(|n: usize| n as nat)
}

/// The byte range of one field inside its record.
#[derive(Debug, Clone, Copy, PartialEq, Eq, Structural)]
pub struct FieldSpan {
    /// Where the field begins.
    pub offset: usize,
    /// How many bytes it takes.
    pub len: usize,
}

/// The layout of a record: the size of each field in declaration order, with
/// the offsets and the total that follow from them.
///
/// A buffer is taken for a record of this layout only where its length is the
/// total size.
#[derive(Debug, PartialEq, Eq)]
pub struct LayoutDescriptor {
    size: usize,
    offsets: Vec<usize>,
    sizes: Vec<usize>,
}

impl View for LayoutDescriptor {
    type V = Seq<nat>;

    /// The sizes of the fields, in declaration order.
    closed spec fn view(&self) -> Seq<nat> {
        as_nats(self.sizes@)
    }
}

impl LayoutDescriptor {
    #[verifier::type_invariant]
    spec fn inv(self) -> bool {
        &&& self.offsets@.len() == self.sizes@.len()
        &&& forall|i: int|
            0 <= i < self.sizes@.len() ==> #[trigger] self.offsets@[i] as nat == offset_of(
                as_nats(self.sizes@),
                i,
            )
        &&& self.size as nat == total_size(as_nats(self.sizes@))
    }

    /// The size of a record of this layout: the sum of the sizes of its
    /// fields.
    pub open spec fn spec_size(&self) -> nat {
        total_size(self@)
    }

    /// The layout of a record whose fields have the sizes `sizes`, in that
    /// order. Fails exactly when the sizes add up to more than an index can
    /// hold.
    pub fn new(sizes: &[usize]) -> (r: Result<LayoutDescriptor, crate::error::SchemaError>)
        ensures
            total_size(as_nats(sizes@)) > usize::MAX ==> r == Err::<
                LayoutDescriptor,
                crate::error::SchemaError,
            >(crate::error::SchemaError::LayoutTooLarge),
            total_size(as_nats(sizes@)) <= usize::MAX ==> (r matches Ok(l) && l@ == as_nats(
                sizes@,
            )),
    {
        let ghost all = as_nats(sizes@);
        let mut offsets: Vec<usize> = Vec::new();
        let mut kept: Vec<usize> = Vec::new();
        let mut acc: usize = 0;
        let mut i: usize = 0;
        while i < sizes.len()
            invariant
                i <= sizes@.len(),
                all == as_nats(sizes@),
                kept@ == sizes@.take(i as int),
                offsets@.len() == i,
                forall|k: int| 0 <= k < i ==> #[trigger] offsets@[k] as nat == offset_of(all, k),
                acc as nat == offset_of(all, i as int),
            decreases sizes@.len() - i,
        {
            proof {
                lemma_offset_step(all, i as int);
                lemma_offsets_ordered(all, i as int + 1, all.len() as int);
            }
            let next = match acc.checked_add(sizes[i]) {
                Some(n) => n,
                None => {
                    return Err(crate::error::SchemaError::LayoutTooLarge);
                },
            };
            offsets.push(acc);
            kept.push(sizes[i]);
            assert(kept@ =~= sizes@.take(i + 1));
            acc = next;
            i += 1;
        }
        proof {
            lemma_offsets_ordered(all, 0, all.len() as int);
            assert(kept@ =~= sizes@);
        }
        Ok(LayoutDescriptor { size: acc, offsets, sizes: kept })
    }

    /// The layout of a record without fields.
    pub fn empty() -> (r: LayoutDescriptor)
        ensures
            r@ == Seq::<nat>::empty(),
    {
        let r = LayoutDescriptor { size: 0, offsets: Vec::new(), sizes: Vec::new() };
        assert(r@ =~= Seq::<nat>::empty());
        r
    }

    /// The size of a record of this layout in bytes.
    pub fn size(&self) -> (r: usize)
        ensures
            r == self.spec_size(),
            r == total_size(self@),
    {
        proof {
            use_type_invariant(self);
        }
        self.size
    }

    /// The number of fields.
    pub fn field_count(&self) -> (r: usize)
        ensures
            r == self@.len(),
    {
        self.sizes.len()
    }

    /// The byte range of field `i`, or `None` where the layout has no such
    /// field.
    pub fn field_span(&self, i: usize) -> (r: Option<FieldSpan>)
        ensures
            i >= self@.len() ==> r is None,
            i < self@.len() ==> r == Some(
                FieldSpan { offset: offset_of(self@, i as int) as usize, len: self@[i as int] as usize },
            ),
            i < self@.len() ==> offset_of(self@, i as int) + self@[i as int] <= self.spec_size()
                <= usize::MAX,
    {
        proof {
            use_type_invariant(self);
        }
        if i >= self.sizes.len() {
            return None;
        }
        proof {
            lemma_offsets_ordered(self@, i as int, self@.len() as int);
        }
        Some(FieldSpan { offset: self.offsets[i], len: self.sizes[i] })
    }
}

/// What is wrong with the type of field `i`, if anything.
pub open spec fn type_fault(field: FieldDecl, i: int) -> Option<SchemaError> {
    if field.ty.fixed() {
        None
    } else {
        Some(SchemaError::UnsupportedFieldType { field: i as usize })
    }
}

/// What is wrong with the type of each field, by position.
pub open spec fn type_faults(fields: Seq<FieldDecl>) -> Seq<Option<SchemaError>> {
    Seq::new(fields.len(), |i: int| type_fault(fields[i], i))
}

/// The sizes of the declared fields, in declaration order.
pub open spec fn declared_sizes(fields: Seq<FieldDecl>) -> Seq<nat> {
    Seq::new(fields.len(), |i: int| fields[i].ty.byte_size())
}

/// Why no layout can be made for `input`, if there is a reason. In this
/// order: it is no struct; one of its fields has a type without a fixed size
/// (the first such field is reported); the sizes of the fields add up to more
/// than an index can hold.
pub open spec fn layout_fault(input: ItemDecl) -> Option<SchemaError> {
    if input.kind != ItemKind::Struct {
        Some(SchemaError::NotAStruct)
    } else {
        match first_some(type_faults(input.fields@)) {
            Some(e) => Some(e),
            None => if total_size(declared_sizes(input.fields@)) > usize::MAX {
                Some(SchemaError::LayoutTooLarge)
            } else {
                None
            },
        }
    }
}

/// Compiles a record declaration into its layout descriptor. The descriptor
/// holds the size of each field in declaration order, and its size is their
/// sum: nothing lies between two fields. Only the declared types are read.
/// Fails where `layout_fault` gives a reason, with that reason.
pub fn derive_data_len(input: &ItemDecl) -> (r: Result<LayoutDescriptor, SchemaError>)
    ensures
        layout_fault(*input) matches Some(e) ==> r == Err::<LayoutDescriptor, SchemaError>(e),
        layout_fault(*input) is None ==> (r matches Ok(layout) && layout@ == declared_sizes(
            input.fields@,
        ) && layout.spec_size() == total_size(declared_sizes(input.fields@))),
{
    match input.kind {
        ItemKind::Struct => {},
        _ => {
            return Err(SchemaError::NotAStruct);
        },
    }
    let ghost faults = type_faults(input.fields@);
    let ghost declared = declared_sizes(input.fields@);
    let mut i: usize = 0;
    while i < input.fields.len()
        invariant
            i <= input.fields@.len(),
            input.kind == ItemKind::Struct,
            faults == type_faults(input.fields@),
            forall|j: int| 0 <= j < i ==> faults[j] is None,
        decreases input.fields@.len() - i,
    {
        assert(faults[i as int] == type_fault(input.fields@[i as int], i as int));
        if !input.fields[i].ty.is_fixed() {
            proof {
                lemma_first_some_is(faults, i as int);
            }
            return Err(SchemaError::UnsupportedFieldType { field: i });
        }
        i += 1;
    }
    proof {
        lemma_first_some_all_none(faults);
    }
    let mut sizes: Vec<usize> = Vec::new();
    let mut k: usize = 0;
    while k < input.fields.len()
        invariant
            k <= input.fields@.len(),
            input.kind == ItemKind::Struct,
            first_some(type_faults(input.fields@)) is None,
            declared == declared_sizes(input.fields@),
            forall|j: int| 0 <= j < input.fields@.len() ==> type_faults(input.fields@)[j] is None,
            sizes@.len() == k,
            forall|j: int| 0 <= j < k ==> #[trigger] sizes@[j] as nat == declared[j],
        decreases input.fields@.len() - k,
    {
        assert(type_faults(input.fields@)[k as int] is None);
        assert(declared[k as int] == input.fields@[k as int].ty.byte_size());
        match input.fields[k].ty.size() {
            Some(n) => {
                sizes.push(n);
            },
            None => {
                proof {
                    lemma_offsets_ordered(declared, k as int, declared.len() as int);
                }
                return Err(SchemaError::LayoutTooLarge);
            },
        }
        k += 1;
    }
    assert(as_nats(sizes@) =~= declared);
    LayoutDescriptor::new(sizes.as_slice())
}

/// A record type of fixed size.
///
/// `LEN` is the size of the record in bytes. It is the sum of the sizes of
/// the record's fields, which `layout_proof` has every implementor show.
pub trait DataLen {
    /// The size of a record in bytes.
    const LEN: usize;

    /// The sizes of the record's fields, in declaration order.
    spec fn field_sizes() -> Seq<nat>;

    /// `LEN` is the sum of the sizes of the fields.
    proof fn layout_proof()
        ensures
            Self::LEN == total_size(Self::field_sizes()),
    ;

    /// The record's layout descriptor.
    fn layout() -> (r: LayoutDescriptor)
        ensures
            r@ == Self::field_sizes(),
            r.spec_size() == Self::LEN,
    ;
}

} // verus!
