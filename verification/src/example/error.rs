//! The program's own errors.

use vstd::prelude::*;
use crate::error::ProgramError;

verus! {

/// An error of the program's own. Each has a code by which the host knows it.
#[derive(Debug, Clone, Copy, PartialEq, Eq, Structural)]
pub enum ProcessError {
    /// The instruction's tag names no instruction.
    InvalidInstruction,
    /// The invocation supplied too few buffers.
    NotEnoughAccounts,
}

/// The code of `InvalidInstruction`.
pub const INVALID_INSTRUCTION: u32 = 6001;

/// The code of `NotEnoughAccounts`.
pub const NOT_ENOUGH_ACCOUNTS: u32 = 6002;

impl ProcessError {
    /// The error's code.
    pub open spec fn code(self) -> u32 {
        match self {
            ProcessError::InvalidInstruction => 6001,
            ProcessError::NotEnoughAccounts => 6002,
        }
    }

    /// The error with the code `code`, if there is one.
    pub open spec fn with_code(code: u32) -> Option<ProcessError> {
        if code == 6001 {
            Some(ProcessError::InvalidInstruction)
        } else if code == 6002 {
            Some(ProcessError::NotEnoughAccounts)
        } else {
            None
        }
    }

    /// The error with the code `number`, if there is one.
    pub fn try_from_primitive(number: u32) -> (r: Option<ProcessError>)
        ensures
            r == Self::with_code(number),
    {
        if number == INVALID_INSTRUCTION {
            Some(ProcessError::InvalidInstruction)
        } else if number == NOT_ENOUGH_ACCOUNTS {
            Some(ProcessError::NotEnoughAccounts)
        } else {
            None
        }
    }

    /// Every error is the one error with its code, and a code that names an
    /// error is that error's code.
    pub proof fn lemma_code_round_trip(e: ProcessError, code: u32)
        ensures
            Self::with_code(e.code()) == Some(e),
            Self::with_code(code) matches Some(found) ==> found.code() == code,
    {
    }
}

impl From<ProcessError> for u32 {
    fn from(e: ProcessError) -> (r: u32) {
        match e {
            ProcessError::InvalidInstruction => INVALID_INSTRUCTION,
            ProcessError::NotEnoughAccounts => NOT_ENOUGH_ACCOUNTS,
        }
    }
}

impl vstd::std_specs::convert::FromSpecImpl<ProcessError> for u32 {
    open spec fn obeys_from_spec() -> bool {
        true
    }

    open spec fn from_spec(e: ProcessError) -> u32 {
        e.code()
    }
}

impl From<ProcessError> for ProgramError {
    fn from(e: ProcessError) -> (r: ProgramError) {
        ProgramError::Custom(u32::from(e))
    }
}

impl vstd::std_specs::convert::FromSpecImpl<ProcessError> for ProgramError {
    open spec fn obeys_from_spec() -> bool {
        true
    }

    open spec fn from_spec(e: ProcessError) -> ProgramError {
        ProgramError::Custom(e.code())
    }
}

} // verus!
