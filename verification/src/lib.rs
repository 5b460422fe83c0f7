//! Schema-driven, size-checked access to fixed-size records held in raw account
//! buffers.
//!
//! A program receives its state as a flat list of untyped buffers. This crate
//! turns a declaration of a record or of an invocation context into the tables
//! that govern access to those buffers (a layout descriptor, an update set, a
//! validation plan, a context layout), and interprets the tables at run time:
//! it takes typed views of a buffer, applies single-field updates, binds a
//! buffer list to named slots and checks the declared rules in order.
//!
//! The modules, leaves first:
//!
//! - `error`: the failures, at build time and at run time.
//! - `account`: a buffer as the host hands it in.
//! - `decl`: a declaration as its author wrote it.
//! - `text`, `order`: names and digits; the first failure in a sequence.
//! - `layout`: field types, the layout descriptor, `derive_data_len`.
//! - `access`: `load`, `load_mut`, `load_discriminator` and the views.
//! - `updates`: `derive_updates`, update commands, `apply`.
//! - `attr`, `validate`: the `validate` attribute, `derive_validate`, the
//!   validation routine.
//! - `context`: `derive_context`, `build`.
//! - `example`: a small program written with all of it.
//!
//! Every failure is a value. Nothing here retries, and nothing panics.
//!
//! # Aliasing
//!
//! A buffer has either any number of read-only views or one exclusive view.
//! An exclusive view is taken through `&mut`, so the borrow checker holds
//! callers to this.
//!
//! # Positional binding
//!
//! Binding is positional. Nothing at run time confirms that a buffer belongs
//! in the slot it was bound to; a misordered list is caught only where a
//! declared rule happens to fail.

pub mod access;
pub mod account;
pub mod attr;
pub mod context;
pub mod decl;
pub mod error;
pub mod example;
pub mod layout;
pub mod order;
pub mod text;
pub mod updates;
pub mod validate;

pub use crate::access::load;
pub use crate::access::load_discriminator;
pub use crate::access::load_mut;
pub use crate::access::read_discriminator;
pub use crate::access::view_exclusive;
pub use crate::access::view_readonly;
pub use crate::access::TypedView;
pub use crate::access::TypedViewMut;
pub use crate::account::same_key;
pub use crate::account::Pubkey;
pub use crate::account::RawBuffer;
pub use crate::account::RawBufferView;
pub use crate::attr::ValidationAttr;
pub use crate::context::build;
pub use crate::context::derive_context;
pub use crate::context::BoundContext;
pub use crate::context::Context;
pub use crate::context::ContextLayout;
pub use crate::error::AccessError;
pub use crate::error::ProgramError;
pub use crate::error::RuleKind;
pub use crate::error::SchemaError;
pub use crate::layout::derive_data_len;
pub use crate::layout::DataLen;
pub use crate::layout::FieldSpan;
pub use crate::layout::FieldType;
pub use crate::layout::LayoutDescriptor;
pub use crate::layout::Primitive;
pub use crate::updates::apply;
pub use crate::updates::derive_updates;
pub use crate::updates::AccountUpdates;
pub use crate::updates::UpdateCommand;
pub use crate::updates::UpdateSet;
pub use crate::updates::UpdateVariant;
pub use crate::validate::derive_validate;
pub use crate::validate::validate;
pub use crate::validate::Check;
pub use crate::validate::NamedKey;
pub use crate::validate::Validate;
pub use crate::validate::ValidationPlan;
pub use crate::validate::ValidationRule;
