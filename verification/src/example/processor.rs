//! The program's one instruction, from the raw invocation to the transfer
//! that it asks for.

use vstd::prelude::*;
use vstd::bytes::spec_u64_from_le_bytes;
use vstd::bytes::u64_from_le_bytes;
use vstd::slice::slice_subrange;
use crate::account::Pubkey;
use crate::account::RawBuffer;
use crate::context::views_of;
use crate::context::Context;
use crate::error::ProgramError;
use crate::example::context::BasicContext;
use crate::example::error::ProcessError;
use crate::example::instructions::BasicInstruction;
use crate::example::instructions::ProgramInstruction;

verus! {

/// A transfer for the host to carry out.
#[derive(Debug, Clone, Copy, PartialEq, Eq)]
pub struct TransferOrder<'info> {
    /// Who pays.
    pub from: &'info RawBuffer,
    /// Who is paid.
    pub to: &'info RawBuffer,
    /// How much.
    pub lamports: u64,
}

/// The `Basic` instruction with its context bound and its arguments read.
#[derive(Debug, Clone, Copy, PartialEq, Eq)]
pub struct Basic<'info> {
    pub accounts: BasicContext<'info>,
    pub data: BasicInstruction,
}

impl<'info> Basic<'info> {
    /// What `load` gives for `accounts` and `data`. The context is bound
    /// first: where there are not three buffers the result is
    /// `InvalidArgument`. Then the amount is read: where `data` is not eight
    /// bytes the result is `InvalidInstructionData`, and else the amount is
    /// what the eight bytes write, least significant byte first.
    pub open spec fn loaded(accounts: Seq<RawBuffer>, data: Seq<u8>) -> Result<
        (Seq<crate::account::RawBufferView>, u64),
        ProgramError,
    > {
        if accounts.len() != 3 {
            Err(ProgramError::InvalidArgument)
        } else if data.len() != 8 {
            Err(ProgramError::InvalidInstructionData)
        } else {
            Ok((views_of(accounts), spec_u64_from_le_bytes(data)))
        }
    }

    /// Binds the context and reads the amount.
    pub fn load(accounts: &'info [RawBuffer], data: &[u8]) -> (r: Result<Self, ProgramError>)
        ensures
            Self::loaded(accounts@, data@) matches Err(e) ==> r is Err && r->Err_0 == e,
            Self::loaded(accounts@, data@) matches Ok(expected) ==> (r matches Ok(basic)
                && basic.accounts.bound() == expected.0 && basic.data.amount == expected.1
                && *basic.accounts.from == accounts@[0] && *basic.accounts.to == accounts@[1]
                && *basic.accounts.system_program == accounts@[2]),
    {
        let ctx = match BasicContext::build(accounts) {
            Ok(ctx) => ctx,
            Err(_) => {
                return Err(ProgramError::InvalidArgument);
            },
        };
        if data.len() != 8 {
            return Err(ProgramError::InvalidInstructionData);
        }
        let amount = u64_from_le_bytes(data);
        Ok(Basic { accounts: ctx, data: BasicInstruction { amount } })
    }

    /// The transfer that the instruction asks for: the amount, from the
    /// buffer in the `from` slot to the buffer in the `to` slot.
    pub fn handle(params: Self) -> (r: TransferOrder<'info>)
        ensures
            r.from == params.accounts.from,
            r.to == params.accounts.to,
            r.lamports == params.data.amount,
    {
        TransferOrder {
            from: params.accounts.from,
            to: params.accounts.to,
            lamports: params.data.amount,
        }
    }
}

/// What an invocation with the buffers `accounts` and the data `data` comes
/// to, in the order in which it is decided: data without a tag is an invalid
/// argument; a tag that names no instruction is the program's own
/// `InvalidInstruction`; and else what `Basic::load` makes of the buffers and
/// of the data after the tag.
pub open spec fn processed(accounts: Seq<RawBuffer>, data: Seq<u8>) -> Result<
    (Seq<crate::account::RawBufferView>, u64),
    ProgramError,
> {
    if data.len() == 0 {
        Err(ProgramError::InvalidArgument)
    } else if ProgramInstruction::with_tag(data[0]) is None {
        Err(ProgramError::Custom(ProcessError::InvalidInstruction.code()))
    } else {
        Basic::loaded(accounts, data.skip(1))
    }
}

/// Decides one invocation: reads the tag, binds the context, reads the
/// arguments, and says which transfer the host is to carry out.
pub fn process_instruction<'info>(
    _program_id: &Pubkey,
    accounts: &'info [RawBuffer],
    instruction_data: &[u8],
) -> (r: Result<TransferOrder<'info>, ProgramError>)
    ensures
        processed(accounts@, instruction_data@) matches Err(e) ==> r is Err && r->Err_0 == e,
        processed(accounts@, instruction_data@) matches Ok(expected) ==> (r matches Ok(order)
            && *order.from == accounts@[0] && *order.to == accounts@[1] && order.lamports
            == expected.1),
{
    if instruction_data.len() == 0 {
        return Err(ProgramError::InvalidArgument);
    }
    let discriminator = instruction_data[0];
    let data = slice_subrange(instruction_data, 1, instruction_data.len());
    assert(data@ =~= instruction_data@.skip(1));
    match ProgramInstruction::try_from_primitive(discriminator) {
        Some(ProgramInstruction::Basic) => {
            let params = match Basic::load(accounts, data) {
                Ok(params) => params,
                Err(e) => {
                    return Err(e);
                },
            };
            Ok(Basic::handle(params))
        },
        None => Err(ProgramError::from(ProcessError::InvalidInstruction)),
    }
}

} // verus!
