//! The failures that the crate reports.

use vstd::prelude::*;

verus! {

/// A validation rule named without its argument.
#[derive(Debug, Clone, Copy, PartialEq, Eq, Structural)]
pub enum RuleKind {
    /// The buffer holds at least one byte.
    NonEmpty,
    /// The buffer carries the signer flag.
    IsSigner,
    /// The buffer carries the executable flag.
    IsExecutable,
    /// The buffer holds exactly the declared number of bytes.
    ExactLength,
    /// The buffer's key is the declared key.
    IdentityEquals,
}

/// A failure at run time. None is retried: the same inputs fail the same way.
#[derive(Debug, Clone, Copy, PartialEq, Eq, Structural)]
pub enum AccessError {
    /// A buffer's length differs from the size of the layout, or a buffer is
    /// shorter than the prefix asked of it.
    SizeMismatch,
    /// The number of buffers differs from the number of declared slots.
    ArityMismatch,
    /// The rule `rule` declared on slot `slot` does not hold.
    RuleViolated { slot: usize, rule: RuleKind },
    /// An update names no field of the layout, or carries a value of another
    /// size than the field's. A command built by `UpdateCommand::new` over the
    /// same layout never gives this.
    InvalidUpdate,
}

/// A fault in a declaration, found when the declaration is compiled. There is
/// no recovery: the author has to mend the declaration.
#[derive(Debug, Clone, Copy, PartialEq, Eq, Structural)]
pub enum SchemaError {
    /// The declared item is an enum or a union.
    NotAStruct,
    /// Field `field` has no name.
    UnnamedField { field: usize },
    /// Field `field` has the empty name.
    EmptyFieldName { field: usize },
    /// Field `field` has a type without a fixed size.
    UnsupportedFieldType { field: usize },
    /// The sizes of the fields add up to more than an index can hold.
    LayoutTooLarge,
    /// The first `validate` attribute of field `field` holds no list of rules.
    MalformedAttribute { field: usize },
    /// The `len` rule of field `field` has digits that name no length.
    InvalidLength { field: usize },
    /// The `id` rule of field `field` names a constant that is not in the table.
    UnknownConstant { field: usize },
    /// The declaration has no lifetime parameter, or more than one.
    LifetimeCount,
    /// The declaration's lifetime parameter is not named `info`.
    LifetimeName,
}

/// The error that a program hands back to the host.
#[derive(Debug, Clone, Copy, PartialEq, Eq, Structural)]
pub enum ProgramError {
    /// An error of the program's own, by its code.
    Custom(u32),
    /// An argument was not what the program takes.
    InvalidArgument,
    /// The instruction's data was not what the program takes.
    InvalidInstructionData,
    /// A buffer was not what the program takes.
    InvalidAccountData,
}

impl AccessError {
    /// The error that the host sees for this failure: a refused update is an
    /// invalid argument, every other failure is invalid data in a buffer.
    pub open spec fn to_program_error(self) -> ProgramError {
        match self {
            AccessError::InvalidUpdate => ProgramError::InvalidArgument,
            _ => ProgramError::InvalidAccountData,
        }
    }
}

impl From<AccessError> for ProgramError {
    fn from(e: AccessError) -> (r: ProgramError) {
        match e {
            AccessError::InvalidUpdate => ProgramError::InvalidArgument,
            _ => ProgramError::InvalidAccountData,
        }
    }
}

impl vstd::std_specs::convert::FromSpecImpl<AccessError> for ProgramError {
    open spec fn obeys_from_spec() -> bool {
        true
    }

    open spec fn from_spec(e: AccessError) -> ProgramError {
        e.to_program_error()
    }
}

} // verus!
