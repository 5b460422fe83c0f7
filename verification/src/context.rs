//! The context of an invocation: a list of buffers bound, by position, to the
//! declared slots.

use vstd::prelude::*;
use crate::account::RawBuffer;
use crate::account::RawBufferView;
use crate::decl::checked_name;
use crate::decl::name_fault;
use crate::decl::ItemDecl;
use crate::decl::ItemKind;
use crate::error::AccessError;
use crate::error::SchemaError;
use crate::order::first_some;
use crate::order::lemma_first_some_all_none;
use crate::order::lemma_first_some_is;
use crate::text::text_is;
use crate::updates::name_faults;

verus! {

/// The buffers in `accounts` as mathematical values.
pub open spec fn views_of(accounts: Seq<RawBuffer>) -> Seq<RawBufferView> {
    Seq::new(accounts.len(), |i: int| accounts[i]@)
}

/// The slots of a context: their names, in declaration order. The number of
/// names is the number of buffers that an invocation has to supply.
#[derive(Debug, Clone, PartialEq, Eq)]
pub struct ContextLayout {
    /// The names of the slots.
    pub slots: Vec<String>,
}

/// The name of the one lifetime parameter that a context declaration has.
pub open spec fn context_lifetime() -> Seq<char> {
    seq!['i', 'n', 'f', 'o']
}

/// Why no context layout can be made for `input`, if there is a reason. In
/// this order: it has not exactly one lifetime parameter; that parameter is
/// not named `info`; it is no struct; one of its fields has no name to go by
/// (the first such field is reported).
pub open spec fn context_fault(input: ItemDecl) -> Option<SchemaError> {
    if input.lifetimes@.len() != 1 {
        Some(SchemaError::LifetimeCount)
    } else if input.lifetimes@[0]@ != context_lifetime() {
        Some(SchemaError::LifetimeName)
    } else if input.kind != ItemKind::Struct {
        Some(SchemaError::NotAStruct)
    } else {
        first_some(name_faults(input.fields@))
    }
}

/// Compiles a context declaration into its layout: one slot per field, named
/// after the field, in declaration order. Fails where `context_fault` gives a
/// reason, with that reason.
pub fn derive_context(input: &ItemDecl) -> (r: Result<ContextLayout, SchemaError>)
    ensures
        context_fault(*input) matches Some(e) ==> r == Err::<ContextLayout, SchemaError>(e),
        context_fault(*input) is None ==> (r matches Ok(layout) && layout.slots@.len()
            == input.fields@.len() && forall|i: int|
            0 <= i < input.fields@.len() ==> input.fields@[i].name == Some(
                #[trigger] layout.slots@[i],
            )),
{
    if input.lifetimes.len() != 1 {
        return Err(SchemaError::LifetimeCount);
    }
    proof {
        reveal_strlit("info");
        assert("info"@ =~= context_lifetime());
    }
    if !text_is(input.lifetimes[0].as_str(), "info") {
        return Err(SchemaError::LifetimeName);
    }
    match input.kind {
        ItemKind::Struct => {},
        _ => {
            return Err(SchemaError::NotAStruct);
        },
    }
    let ghost faults = name_faults(input.fields@);
    let mut slots: Vec<String> = Vec::new();
    let mut i: usize = 0;
    while i < input.fields.len()
        invariant
            i <= input.fields@.len(),
            faults == name_faults(input.fields@),
            context_fault(*input) == first_some(faults),
            forall|j: int| 0 <= j < i ==> faults[j] is None,
            slots@.len() == i,
            forall|j: int| 0 <= j < i ==> input.fields@[j].name == Some(#[trigger] slots@[j]),
        decreases input.fields@.len() - i,
    {
        let field = &input.fields[i];
        assert(faults[i as int] == name_fault(*field, i as int));
        match checked_name(field, i) {
            Err(e) => {
                proof {
                    lemma_first_some_is(faults, i as int);
                }
                return Err(e);
            },
            Ok(name) => {
                slots.push(name.clone());
            },
        }
        i += 1;
    }
    proof {
        lemma_first_some_all_none(faults);
    }
    Ok(ContextLayout { slots })
}

impl ContextLayout {
    /// The number of buffers that an invocation has to supply: the number of
    /// declared slots.
    pub fn accounts_len(&self) -> (r: usize)
        ensures
            r == self.slots@.len(),
    {
        self.slots.len()
    }

    /// The position of the first slot named `name`, if there is one.
    pub fn position(&self, name: &str) -> (r: Option<usize>)
        ensures
            r matches Some(i) ==> i < self.slots@.len() && self.slots@[i as int]@ == name@
                && forall|j: int| 0 <= j < i ==> self.slots@[j]@ != name@,
            r is None ==> forall|j: int| 0 <= j < self.slots@.len() ==> self.slots@[j]@ != name@,
    {
        let mut i: usize = 0;
        while i < self.slots.len()
            invariant
                i <= self.slots@.len(),
                forall|j: int| 0 <= j < i ==> self.slots@[j]@ != name@,
            decreases self.slots@.len() - i,
        {
            if text_is(self.slots[i].as_str(), name) {
                return Some(i);
            }
            i += 1;
        }
        None
    }
}

/// A context bound to the buffers of one invocation: slot `i` holds a borrow
/// of the `i`-th buffer.
#[derive(Debug, Clone, PartialEq, Eq)]
pub struct BoundContext<'a> {
    /// The buffers, by slot.
    pub slots: Vec<&'a RawBuffer>,
}

impl<'a> BoundContext<'a> {
    /// The bound buffers as mathematical values, by slot.
    pub open spec fn bound(&self) -> Seq<RawBufferView> {
        Seq::new(self.slots@.len(), |i: int| self.slots@[i]@)
    }

    /// The number of bound slots.
    pub fn len(&self) -> (r: usize)
        ensures
            r == self.slots@.len(),
    {
        self.slots.len()
    }

    /// The buffer bound to slot `i`, or `None` where the context has no such
    /// slot.
    pub fn slot(&self, i: usize) -> (r: Option<&'a RawBuffer>)
        ensures
            i >= self.slots@.len() ==> r is None,
            i < self.slots@.len() ==> r == Some(self.slots@[i as int]),
    {
        if i < self.slots.len() {
            Some(self.slots[i])
        } else {
            None
        }
    }
}

/// Binds a list of buffers to the slots of `layout`, by position: the `i`-th
/// buffer to the `i`-th slot. Fails with `ArityMismatch`, binding nothing,
/// exactly when the number of buffers differs from the number of slots; no
/// list is cut short or filled up.
pub fn build<'a>(layout: &ContextLayout, accounts: &'a [RawBuffer]) -> (r: Result<
    BoundContext<'a>,
    AccessError,
>)
    ensures
        accounts@.len() != layout.slots@.len() ==> r == Err::<BoundContext<'a>, AccessError>(
            AccessError::ArityMismatch,
        ),
        accounts@.len() == layout.slots@.len() ==> (r matches Ok(ctx) && ctx.slots@.len()
            == accounts@.len() && (forall|i: int|
            0 <= i < accounts@.len() ==> *#[trigger] ctx.slots@[i] == accounts@[i])
            && ctx.bound() == views_of(accounts@)),
{
    if accounts.len() != layout.accounts_len() {
        return Err(AccessError::ArityMismatch);
    }
    let mut slots: Vec<&'a RawBuffer> = Vec::with_capacity(accounts.len());
    let mut i: usize = 0;
    while i < accounts.len()
        invariant
            i <= accounts@.len(),
            slots@.len() == i,
            forall|j: int| 0 <= j < i ==> *#[trigger] slots@[j] == accounts@[j],
        decreases accounts@.len() - i,
    {
        slots.push(&accounts[i]);
        i += 1;
    }
    let ctx = BoundContext { slots };
    assert(ctx.bound() =~= views_of(accounts@));
    Ok(ctx)
}

/// A context type with a fixed number of named slots.
///
/// `build` binds a list of buffers to the slots by position, after checking
/// that the list has `ACCOUNTS_LEN` buffers.
pub trait Context<'info>: Sized {
    /// The number of declared slots.
    const ACCOUNTS_LEN: usize;

    /// The buffers bound to the slots, in declaration order.
    spec fn bound(&self) -> Seq<RawBufferView>;

    /// Binds `accounts` to the slots. Succeeds exactly when there are
    /// `ACCOUNTS_LEN` of them, and then slot `i` holds the `i`-th buffer.
    fn build(accounts: &'info [RawBuffer]) -> (r: Result<Self, AccessError>)
        ensures
            accounts@.len() != Self::ACCOUNTS_LEN ==> r is Err && r->Err_0
                == AccessError::ArityMismatch,
            accounts@.len() == Self::ACCOUNTS_LEN ==> (r matches Ok(ctx) && ctx.bound()
                == views_of(accounts@)),
    ;
}

} // verus!
