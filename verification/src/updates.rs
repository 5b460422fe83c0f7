//! The update set of a record: one command per field, and the one routine
//! that applies a command.

use vstd::prelude::*;
use crate::access::field_in_reach;
use crate::access::lemma_write_isolated;
use crate::access::writable;
use crate::access::TypedViewMut;
use crate::decl::name_fault;
use crate::decl::FieldDecl;
use crate::decl::ItemDecl;
use crate::decl::ItemKind;
use crate::error::AccessError;
use crate::error::SchemaError;
use crate::layout::field_bytes;
use crate::layout::FieldType;
use crate::layout::LayoutDescriptor;
use crate::order::first_some;
use crate::order::lemma_first_some_all_none;
use crate::order::lemma_first_some_is;
use crate::text::update_set_name;
use crate::text::update_set_name_of;
use crate::text::update_variant_name;
use crate::text::variant_name;

verus! {

/// One variant of an update set: the command that sets one field.
#[derive(Debug, PartialEq, Eq)]
pub struct UpdateVariant {
    /// The variant's name.
    pub name: String,
    /// The position of the field that it sets.
    pub field: usize,
    /// The type of the value that it carries: the field's type.
    pub ty: FieldType,
}

/// The update set of a record: a closed set of commands, one per field, in
/// declaration order.
#[derive(Debug, PartialEq, Eq)]
pub struct UpdateSet {
    /// The name of the set.
    pub name: String,
    /// Its variants.
    pub variants: Vec<UpdateVariant>,
}

/// What is wrong with the name of each field, by position.
pub open spec fn name_faults(fields: Seq<FieldDecl>) -> Seq<Option<SchemaError>> {
    Seq::new(fields.len(), |i: int| name_fault(fields[i], i))
}

/// Why no update set can be made for `input`, if there is a reason: it is no
/// struct, or else the first of its fields that has no name to go by.
pub open spec fn updates_fault(input: ItemDecl) -> Option<SchemaError> {
    if input.kind != ItemKind::Struct {
        Some(SchemaError::NotAStruct)
    } else {
        first_some(name_faults(input.fields@))
    }
}

/// Whether `variant` is the update variant of the field `field` declared at
/// position `i`.
pub open spec fn is_variant_of(variant: UpdateVariant, field: FieldDecl, i: int) -> bool {
    &&& field.name is Some
    &&& variant.name@ == variant_name(field.name->0@)
    &&& variant.field == i
    &&& variant.ty == field.ty
}

/// Compiles a record declaration into its update set. The set is named after
/// the record, with `Update` behind the name, and holds for each field, in
/// declaration order, the variant that sets it. Fails where `updates_fault`
/// gives a reason, with that reason.
pub fn derive_updates(input: &ItemDecl) -> (r: Result<UpdateSet, SchemaError>)
    ensures
        updates_fault(*input) matches Some(e) ==> r == Err::<UpdateSet, SchemaError>(e),
        updates_fault(*input) is None ==> (r matches Ok(set) && set.name@ == update_set_name(
            input.name@,
        ) && set.variants@.len() == input.fields@.len() && forall|i: int|
            0 <= i < input.fields@.len() ==> is_variant_of(
                #[trigger] set.variants@[i],
                input.fields@[i],
                i,
            )),
{
    match input.kind {
        ItemKind::Struct => {},
        _ => {
            return Err(SchemaError::NotAStruct);
        },
    }
    let ghost faults = name_faults(input.fields@);
    let mut variants: Vec<UpdateVariant> = Vec::new();
    let mut i: usize = 0;
    while i < input.fields.len()
        invariant
            i <= input.fields@.len(),
            input.kind == ItemKind::Struct,
            faults == name_faults(input.fields@),
            forall|j: int| 0 <= j < i ==> faults[j] is None,
            variants@.len() == i,
            forall|j: int|
                0 <= j < i ==> is_variant_of(#[trigger] variants@[j], input.fields@[j], j),
        decreases input.fields@.len() - i,
    {
        let field = &input.fields[i];
        assert(faults[i as int] == name_fault(*field, i as int));
        let named = match &field.name {
            None => None,
            Some(name) => update_variant_name(name.as_str()),
        };
        let variant = match named {
            Some(variant) => variant,
            None => {
                proof {
                    lemma_first_some_is(faults, i as int);
                }
                return match &field.name {
                    None => Err(SchemaError::UnnamedField { field: i }),
                    Some(_) => Err(SchemaError::EmptyFieldName { field: i }),
                };
            },
        };
        variants.push(UpdateVariant { name: variant, field: i, ty: field.ty.duplicate() });
        i += 1;
    }
    proof {
        lemma_first_some_all_none(faults);
    }
    Ok(UpdateSet { name: update_set_name_of(input.name.as_str()), variants })
}

/// A record that can be changed one field at a time.
///
/// `updates` takes one command of the record's own closed set and writes the
/// value that it carries to the field that it names. No other field changes.
pub trait AccountUpdates {
    /// The record's update commands.
    type Update;

    /// The record's fields as bytes, in declaration order.
    spec fn fields(&self) -> Seq<Seq<u8>>;

    /// The position of the field that `update` sets.
    spec fn target(update: &Self::Update) -> int;

    /// The value that `update` carries, as bytes.
    spec fn payload(update: &Self::Update) -> Seq<u8>;

    /// Whether `update` is a command for a field that the record has, with a
    /// value of that field's size. Every command of a closed set is.
    spec fn accepts(&self, update: &Self::Update) -> bool;

    /// Applies one command. Where the record accepts it, the targeted field
    /// becomes the payload and every other field is as before. Where it does
    /// not, nothing changes and the result is `InvalidUpdate`.
    fn updates(&mut self, updates: Self::Update) -> (r: Result<(), AccessError>)
        ensures
            old(self).accepts(&updates) ==> r == Ok::<(), AccessError>(()) && final(self).fields()
                == old(self).fields().update(Self::target(&updates), Self::payload(&updates)),
            !old(self).accepts(&updates) ==> r == Err::<(), AccessError>(
                AccessError::InvalidUpdate,
            ) && final(self).fields() == old(self).fields(),
    ;
}

/// "Set field `field` to `value`", for a record known by its layout.
#[derive(Debug, Clone, PartialEq, Eq)]
pub struct UpdateCommand {
    /// The position of the field to set.
    pub field: usize,
    /// The field's new value, as bytes.
    pub value: Vec<u8>,
}

impl UpdateCommand {
    /// Whether the command names a field of `layout` and carries a value of
    /// that field's size.
    pub open spec fn fits(&self, layout: &LayoutDescriptor) -> bool {
        self.field < layout@.len() && self.value@.len() == layout@[self.field as int]
    }

    /// The command that sets field `field` of a record of the layout `layout`
    /// to `value`. Fails with `InvalidUpdate` exactly when the layout has no
    /// such field or the field has another size than `value`.
    pub fn new(layout: &LayoutDescriptor, field: usize, value: Vec<u8>) -> (r: Result<
        UpdateCommand,
        AccessError,
    >)
        ensures
            (UpdateCommand { field, value }).fits(layout) ==> r == Ok::<
                UpdateCommand,
                AccessError,
            >(UpdateCommand { field, value }),
            !(UpdateCommand { field, value }).fits(layout) ==> r == Err::<
                UpdateCommand,
                AccessError,
            >(AccessError::InvalidUpdate),
    {
        match layout.field_span(field) {
            None => Err(AccessError::InvalidUpdate),
            Some(span) => {
                if value.len() != span.len {
                    Err(AccessError::InvalidUpdate)
                } else {
                    Ok(UpdateCommand { field, value })
                }
            },
        }
    }
}

impl<'a> AccountUpdates for TypedViewMut<'a> {
    type Update = UpdateCommand;

    /// The fields that lie inside the bytes, each by the bytes at its
    /// declared offset. In a well-formed view that is every field.
    open spec fn fields(&self) -> Seq<Seq<u8>> {
        Seq::new(
            self.layout@.len(),
            |i: int|
                if field_in_reach(self.bytes().len(), self.layout@, i) {
                    field_bytes(self.bytes(), self.layout@, i)
                } else {
                    Seq::empty()
                },
        )
    }

    open spec fn target(update: &UpdateCommand) -> int {
        update.field as int
    }

    open spec fn payload(update: &UpdateCommand) -> Seq<u8> {
        update.value@
    }

    open spec fn accepts(&self, update: &UpdateCommand) -> bool {
        writable(self.bytes().len(), self.layout@, update.field as int, update.value@)
    }

    fn updates(&mut self, updates: UpdateCommand) -> (r: Result<(), AccessError>)
        ensures
            final(self).layout == old(self).layout,
            final(final(self).bytes)@ == final(old(self).bytes)@,
            old(self).wf() ==> final(self).wf(),
    {
        let ghost before = self.bytes();
        let ghost sizes = self.layout@;
        let r = self.write_field(updates.field, updates.value.as_slice());
        proof {
            if r is Ok {
                let i = updates.field as int;
                assert forall|j: int| 0 <= j < sizes.len() implies #[trigger] self.fields()[j]
                    == old(self).fields().update(i, updates.value@)[j] by {
                    if field_in_reach(before.len(), sizes, j) {
                        lemma_write_isolated(before, sizes, i, updates.value@, j);
                    }
                }
                assert(self.fields() =~= old(self).fields().update(i, updates.value@));
            }
        }
        r
    }
}

/// Applies one update command to a record: the single mutation entry point.
/// What it does is what the record's `updates` does.
pub fn apply<R: AccountUpdates>(record: &mut R, cmd: R::Update) -> (r: Result<(), AccessError>)
    ensures
        old(record).accepts(&cmd) ==> r == Ok::<(), AccessError>(()) && final(record).fields()
            == old(record).fields().update(R::target(&cmd), R::payload(&cmd)),
        !old(record).accepts(&cmd) ==> r == Err::<(), AccessError>(AccessError::InvalidUpdate)
            && final(record).fields() == old(record).fields(),
{
    record.updates(cmd)
}

} // verus!
