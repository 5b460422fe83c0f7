//! A declaration as its author wrote it: the item, its fields, and the
//! attributes on them.
//!
//! These are plain values. Whoever reads the declaration from source text
//! fills them in; the compilers in this crate take them from there.

use vstd::prelude::*;
use crate::layout::FieldType;

verus! {

/// What kind of item was declared.
#[derive(Debug, Clone, Copy, PartialEq, Eq, Structural)]
pub enum ItemKind {
    Struct,
    Enum,
    Union,
}

/// The right-hand side of `name = value` in an attribute.
#[derive(Debug, Clone, PartialEq, Eq)]
pub enum MetaValue {
    /// An integer literal, by its digits in base ten.
    Int(String),
    /// Any other expression, by its text.
    Expr(String),
}

impl MetaValue {
    /// The text of the value.
    pub open spec fn text(self) -> Seq<char> {
        match self {
            MetaValue::Int(digits) => digits@,
            MetaValue::Expr(text) => text@,
        }
    }
}

/// One argument of an attribute. Each carries the path it begins with, as
/// text: a single identifier where the path is one.
#[derive(Debug, Clone, PartialEq, Eq)]
pub enum Meta {
    /// A bare path, as `non_empty`.
    Path(String),
    /// A path with a value, as `len = 64`.
    NameValue(String, MetaValue),
    /// A path with a list of its own, as `any(a, b)`.
    List(String),
}

/// An attribute on a field.
#[derive(Debug, Clone, PartialEq, Eq)]
pub struct Attribute {
    /// The attribute's path, as text.
    pub name: String,
    /// The arguments between the attribute's parentheses, or `None` where it
    /// has no parentheses or they hold something other than a list of
    /// arguments separated by commas.
    pub args: Option<Vec<Meta>>,
}

/// A declared field of a record, or a declared slot of a context.
#[derive(Debug, PartialEq, Eq)]
pub struct FieldDecl {
    /// The field's name; `None` for a field of a tuple struct.
    pub name: Option<String>,
    /// The field's type.
    pub ty: FieldType,
    /// The attributes on the field, in source order.
    pub attrs: Vec<Attribute>,
}

/// A declared item.
#[derive(Debug, PartialEq, Eq)]
pub struct ItemDecl {
    /// The item's name.
    pub name: String,
    /// Whether it is a struct.
    pub kind: ItemKind,
    /// The names of its lifetime parameters, without the quote.
    pub lifetimes: Vec<String>,
    /// Its fields, in declaration order. The order decides each field's
    /// offset, the order of the update variants and the slot that a buffer is
    /// bound to.
    pub fields: Vec<FieldDecl>,
}

/// What is wrong with the name of field `i`, if anything.
pub open spec fn name_fault(field: FieldDecl, i: int) -> Option<crate::error::SchemaError> {
    match field.name {
        None => Some(crate::error::SchemaError::UnnamedField { field: i as usize }),
        Some(name) => if name@.len() == 0 {
            Some(crate::error::SchemaError::EmptyFieldName { field: i as usize })
        } else {
            None
        },
    }
}

/// The name of field `field`, where it has one that is not empty.
pub fn checked_name(field: &FieldDecl, i: usize) -> (r: Result<&String, crate::error::SchemaError>)
    ensures
        name_fault(*field, i as int) matches Some(e) ==> r == Err::<
            &String,
            crate::error::SchemaError,
        >(e),
        name_fault(*field, i as int) is None ==> r == Ok::<&String, crate::error::SchemaError>(
            &field.name->0,
        ),
{
    match &field.name {
        None => Err(crate::error::SchemaError::UnnamedField { field: i }),
        Some(name) => {
            if name.as_str().unicode_len() == 0 {
                Err(crate::error::SchemaError::EmptyFieldName { field: i })
            } else {
                Ok(name)
            }
        },
    }
}

} // verus!
