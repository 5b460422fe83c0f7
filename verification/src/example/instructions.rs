//! The program's instructions.

use vstd::prelude::*;

verus! {

/// The instructions that the program takes. The first byte of an
/// instruction's data is the tag that selects one.
#[derive(Debug, Clone, Copy, PartialEq, Eq, Structural)]
pub enum ProgramInstruction {
    /// Move an amount from one buffer's owner to another's.
    Basic,
}

/// The tag of `Basic`.
pub const BASIC: u8 = 0;

impl ProgramInstruction {
    /// The instruction's tag.
    pub open spec fn tag(self) -> u8 {
        match self {
            ProgramInstruction::Basic => 0,
        }
    }

    /// The instruction with the tag `tag`, if there is one.
    pub open spec fn with_tag(tag: u8) -> Option<ProgramInstruction> {
        if tag == 0 {
            Some(ProgramInstruction::Basic)
        } else {
            None
        }
    }

    /// The instruction with the tag `number`, if there is one.
    pub fn try_from_primitive(number: u8) -> (r: Option<ProgramInstruction>)
        ensures
            r == Self::with_tag(number),
    {
        if number == BASIC {
            Some(ProgramInstruction::Basic)
        } else {
            None
        }
    }

    /// Every instruction is the one instruction with its tag.
    pub proof fn lemma_tag_round_trip(i: ProgramInstruction, tag: u8)
        ensures
            Self::with_tag(i.tag()) == Some(i),
            Self::with_tag(tag) matches Some(found) ==> found.tag() == tag,
    {
    }
}

impl From<ProgramInstruction> for u8 {
    fn from(i: ProgramInstruction) -> (r: u8) {
        match i {
            ProgramInstruction::Basic => BASIC,
        }
    }
}

impl vstd::std_specs::convert::FromSpecImpl<ProgramInstruction> for u8 {
    open spec fn obeys_from_spec() -> bool {
        true
    }

    open spec fn from_spec(i: ProgramInstruction) -> u8 {
        i.tag()
    }
}

/// The arguments of `Basic`.
#[derive(Debug, Clone, Copy, PartialEq, Eq, Structural)]
pub struct BasicInstruction {
    /// The amount to move.
    pub amount: u64,
}

} // verus!
