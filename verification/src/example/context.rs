//! The program's record and its context.

use vstd::prelude::*;
use crate::access::array_of;
use crate::access::lemma_fields_in_reach;
use crate::access::lemma_write_isolated;
use crate::access::writable;
use crate::access::written;
use crate::access::TypedView;
use crate::account::Pubkey;
use crate::account::RawBuffer;
use crate::account::RawBufferView;
use crate::context::views_of;
use crate::context::Context;
use crate::error::AccessError;
use crate::error::RuleKind;
use crate::layout::field_bytes;
use crate::layout::total_size;
use crate::layout::DataLen;
use crate::layout::LayoutDescriptor;
use crate::order::lemma_first_some_all_none;
use crate::order::lemma_first_some_is;
use crate::updates::AccountUpdates;
use crate::updates::UpdateCommand;
use crate::validate::first_violation;
use crate::validate::outcome;
use crate::validate::outcomes;
use crate::validate::Check;
use crate::validate::Validate;
use crate::validate::ValidationRule;

verus! {

/// The key that the `to` slot of `BasicContext` has to have.
pub const RANDOM_ID: Pubkey = [
    137, 7, 125, 85, 165, 187, 19, 48, 118, 62, 183, 103, 245, 94, 192, 119,
    180, 26, 13, 7, 95, 125, 225, 215, 63, 186, 202, 60, 99, 213, 84, 113,
];

/// The key of the system program.
pub const SYSTEM_PROGRAM_ID: Pubkey = [
    0, 0, 0, 0, 0, 0, 0, 0, 0, 0, 0, 0, 0, 0, 0, 0,
    0, 0, 0, 0, 0, 0, 0, 0, 0, 0, 0, 0, 0, 0, 0, 0,
];

/// The program's record: forty-one bytes.
#[derive(Debug, Clone, Copy, PartialEq, Eq)]
pub struct IWantToBeARealBoy {
    pub discriminator: [u8; 8],
    pub data: [u8; 32],
    pub bump: u8,
}

/// The update set of `IWantToBeARealBoy`: one command per field.
#[derive(Debug, Clone, Copy, PartialEq, Eq)]
pub enum IWantToBeARealBoyUpdate {
    SetDiscriminator([u8; 8]),
    SetData([u8; 32]),
    SetBump(u8),
}

impl IWantToBeARealBoyUpdate {
    /// The same command for a record known by its layout: the field's
    /// position and the value as bytes.
    pub fn command(&self) -> (r: UpdateCommand)
        ensures
            r.field == IWantToBeARealBoy::target(self),
            r.value@ == IWantToBeARealBoy::payload(self),
    {
        match self {
            IWantToBeARealBoyUpdate::SetDiscriminator(discriminator) => {
                let mut value: Vec<u8> = Vec::new();
                let mut i: usize = 0;
                while i < 8
                    invariant
                        i <= 8,
                        value@ == discriminator@.take(i as int),
                    decreases 8 - i,
                {
                    value.push(discriminator[i]);
                    assert(value@ =~= discriminator@.take(i + 1));
                    i += 1;
                }
                assert(discriminator@.take(8) =~= discriminator@);
                UpdateCommand { field: 0, value }
            },
            IWantToBeARealBoyUpdate::SetData(data) => {
                let mut value: Vec<u8> = Vec::new();
                let mut i: usize = 0;
                while i < 32
                    invariant
                        i <= 32,
                        value@ == data@.take(i as int),
                    decreases 32 - i,
                {
                    value.push(data[i]);
                    assert(value@ =~= data@.take(i + 1));
                    i += 1;
                }
                assert(data@.take(32) =~= data@);
                UpdateCommand { field: 1, value }
            },
            IWantToBeARealBoyUpdate::SetBump(bump) => {
                let mut value: Vec<u8> = Vec::new();
                value.push(*bump);
                assert(value@ =~= seq![*bump]);
                UpdateCommand { field: 2, value }
            },
        }
    }
}

impl DataLen for IWantToBeARealBoy {
    const LEN: usize = 41;

    open spec fn field_sizes() -> Seq<nat> {
        seq![8, 32, 1]
    }

    proof fn layout_proof() {
        let s = Self::field_sizes();
        assert(s.drop_last() =~= seq![8nat, 32nat]);
        assert(s.drop_last().drop_last() =~= seq![8nat]);
        assert(s.drop_last().drop_last().drop_last() =~= Seq::<nat>::empty());
        reveal_with_fuel(total_size, 4);
    }

    fn layout() -> (r: LayoutDescriptor) {
        let sizes: [usize; 3] = [8, 32, 1];
        proof {
            Self::layout_proof();
            assert(crate::layout::as_nats(sizes@) =~= Self::field_sizes());
        }
        match LayoutDescriptor::new(sizes.as_slice()) {
            Ok(layout) => layout,
            Err(_) => LayoutDescriptor::empty(),
        }
    }
}

impl AccountUpdates for IWantToBeARealBoy {
    type Update = IWantToBeARealBoyUpdate;

    open spec fn fields(&self) -> Seq<Seq<u8>> {
        seq![self.discriminator@, self.data@, seq![self.bump]]
    }

    open spec fn target(update: &IWantToBeARealBoyUpdate) -> int {
        match update {
            IWantToBeARealBoyUpdate::SetDiscriminator(_) => 0,
            IWantToBeARealBoyUpdate::SetData(_) => 1,
            IWantToBeARealBoyUpdate::SetBump(_) => 2,
        }
    }

    open spec fn payload(update: &IWantToBeARealBoyUpdate) -> Seq<u8> {
        match update {
            IWantToBeARealBoyUpdate::SetDiscriminator(discriminator) => discriminator@,
            IWantToBeARealBoyUpdate::SetData(data) => data@,
            IWantToBeARealBoyUpdate::SetBump(bump) => seq![*bump],
        }
    }

    /// The update set is closed: every command is accepted.
    open spec fn accepts(&self, update: &IWantToBeARealBoyUpdate) -> bool {
        true
    }

    fn updates(&mut self, updates: IWantToBeARealBoyUpdate) -> (r: Result<(), AccessError>) {
        match updates {
            IWantToBeARealBoyUpdate::SetDiscriminator(discriminator) => {
                self.discriminator = discriminator;
            },
            IWantToBeARealBoyUpdate::SetData(data) => {
                self.data = data;
            },
            IWantToBeARealBoyUpdate::SetBump(bump) => {
                self.bump = bump;
            },
        }
        assert(self.fields() =~= old(self).fields().update(
            Self::target(&updates),
            Self::payload(&updates),
        ));
        Ok(())
    }
}

impl IWantToBeARealBoy {
    /// Reads the record out of a view: each field from the bytes at its
    /// declared offset. `None` exactly when the view is of another layout
    /// than the record's.
    pub fn from_view(view: &TypedView<'_>) -> (r: Option<IWantToBeARealBoy>)
        ensures
            view.layout()@ != Self::field_sizes() ==> r is None,
            view.layout()@ == Self::field_sizes() ==> (r matches Some(record) && record.fields()
                == Self::fields_in(view.bytes())),
    {
        if view.field_count() != 3 {
            return None;
        }
        let whole = view.as_bytes();
        proof {
            let sizes = view.layout()@;
            lemma_fields_in_reach(sizes, 0);
            lemma_fields_in_reach(sizes, 1);
            lemma_fields_in_reach(sizes, 2);
        }
        let (first, second, third) = match (view.field(0), view.field(1), view.field(2)) {
            (Some(first), Some(second), Some(third)) => (first, second, third),
            _ => {
                return None;
            },
        };
        assert(first@.len() == view.layout()@[0]);
        assert(second@.len() == view.layout()@[1]);
        assert(third@.len() == view.layout()@[2]);
        let discriminator = match array_of::<8>(first) {
            Some(a) => a,
            None => {
                return None;
            },
        };
        let data = match array_of::<32>(second) {
            Some(a) => a,
            None => {
                return None;
            },
        };
        if third.len() != 1 {
            return None;
        }
        assert(view.layout()@ =~= Self::field_sizes());
        let record = IWantToBeARealBoy { discriminator, data, bump: third[0] };
        assert(seq![record.bump] =~= third@);
        assert(record.fields() =~= Self::fields_in(view.bytes()));
        Some(record)
    }

    /// The record after `update`: the one field that `update` names holds the
    /// value that it carries, and the other two are as in `self`.
    pub open spec fn updated(self, update: IWantToBeARealBoyUpdate) -> IWantToBeARealBoy {
        match update {
            IWantToBeARealBoyUpdate::SetDiscriminator(discriminator) => IWantToBeARealBoy {
                discriminator,
                ..self
            },
            IWantToBeARealBoyUpdate::SetData(data) => IWantToBeARealBoy { data, ..self },
            IWantToBeARealBoyUpdate::SetBump(bump) => IWantToBeARealBoy { bump, ..self },
        }
    }

    /// The fields of a record of this type as they lie in `bytes`.
    pub open spec fn fields_in(bytes: Seq<u8>) -> Seq<Seq<u8>> {
        seq![
            field_bytes(bytes, Self::field_sizes(), 0),
            field_bytes(bytes, Self::field_sizes(), 1),
            field_bytes(bytes, Self::field_sizes(), 2),
        ]
    }

    /// An update on the record and its command on the record's bytes do the
    /// same: where `record` is what `bytes` hold, the record after `update`
    /// is what the bytes hold after the command is written to them.
    pub proof fn lemma_update_matches_command(
        bytes: Seq<u8>,
        record: IWantToBeARealBoy,
        update: IWantToBeARealBoyUpdate,
    )
        requires
            bytes.len() == Self::LEN,
            record.fields() == Self::fields_in(bytes),
        ensures
            writable(bytes.len(), Self::field_sizes(), Self::target(&update), Self::payload(&update)),
            record.updated(update).fields() == Self::fields_in(
                written(bytes, Self::field_sizes(), Self::target(&update), Self::payload(&update)),
            ),
    {
        let sizes = Self::field_sizes();
        let i = Self::target(&update);
        let value = Self::payload(&update);
        Self::layout_proof();
        lemma_fields_in_reach(sizes, 0);
        lemma_fields_in_reach(sizes, 1);
        lemma_fields_in_reach(sizes, 2);
        lemma_write_isolated(bytes, sizes, i, value, 0);
        lemma_write_isolated(bytes, sizes, i, value, 1);
        lemma_write_isolated(bytes, sizes, i, value, 2);
        let after = Self::fields_in(written(bytes, sizes, i, value));
        assert(Self::fields_in(bytes)[0] == record.fields()[0]);
        assert(Self::fields_in(bytes)[1] == record.fields()[1]);
        assert(Self::fields_in(bytes)[2] == record.fields()[2]);
        assert(record.updated(update).fields() =~= after);
    }

    /// Applies one update command. It always succeeds: the update set is
    /// closed, so there is no command that the record does not know, and the
    /// error in the signature is never returned.
    pub fn maybe_update(&mut self, update: IWantToBeARealBoyUpdate) -> (r: Result<(), AccessError>)
        ensures
            r == Ok::<(), AccessError>(()),
            *final(self) == old(self).updated(update),
    {
        match update {
            IWantToBeARealBoyUpdate::SetDiscriminator(discriminator) => {
                self.discriminator = discriminator;
            },
            IWantToBeARealBoyUpdate::SetData(data) => {
                self.data = data;
            },
            IWantToBeARealBoyUpdate::SetBump(bump) => {
                self.bump = bump;
            },
        }
        Ok(())
    }
}

/// The program's context: three slots.
#[derive(Debug, Clone, Copy, PartialEq, Eq)]
pub struct BasicContext<'info> {
    /// Who pays. Has to be a signer.
    pub from: &'info RawBuffer,
    /// Who is paid. Has to have the key `RANDOM_ID`.
    pub to: &'info RawBuffer,
    /// The system program. Has to be executable and to have the system
    /// program's key.
    pub system_program: &'info RawBuffer,
}

impl<'info> Context<'info> for BasicContext<'info> {
    const ACCOUNTS_LEN: usize = 3;

    open spec fn bound(&self) -> Seq<RawBufferView> {
        seq![self.from@, self.to@, self.system_program@]
    }

    fn build(accounts: &'info [RawBuffer]) -> (r: Result<Self, AccessError>)
        ensures
            r is Ok <==> accounts@.len() == 3,
            r matches Ok(ctx) ==> *ctx.from == accounts@[0] && *ctx.to == accounts@[1]
                && *ctx.system_program == accounts@[2],
    {
        if accounts.len() != 3 {
            return Err(AccessError::ArityMismatch);
        }
        let ctx = BasicContext { from: &accounts[0], to: &accounts[1], system_program: &accounts[2] };
        assert(ctx.bound() =~= views_of(accounts@));
        Ok(ctx)
    }
}

impl<'info> Validate<'info> for BasicContext<'info> {
    open spec fn declared() -> Seq<Check> {
        seq![
            Check { slot: 0, rule: ValidationRule::IsSigner },
            Check { slot: 1, rule: ValidationRule::IdentityEquals(RANDOM_ID) },
            Check { slot: 2, rule: ValidationRule::IsExecutable },
            Check { slot: 2, rule: ValidationRule::IdentityEquals(SYSTEM_PROGRAM_ID) },
        ]
    }

    open spec fn validated(&self) -> Seq<RawBufferView> {
        seq![self.from@, self.to@, self.system_program@]
    }

    fn validate(&self) -> (r: Result<(), AccessError>) {
        let ghost o = outcomes(Self::declared(), self.validated());
        proof {
            assert(o[0] == outcome(Self::declared()[0], self.validated()));
            assert(o[1] == outcome(Self::declared()[1], self.validated()));
            assert(o[2] == outcome(Self::declared()[2], self.validated()));
            assert(o[3] == outcome(Self::declared()[3], self.validated()));
        }
        if !self.from.is_signer() {
            proof {
                lemma_first_some_is(o, 0);
            }
            return Err(AccessError::RuleViolated { slot: 0, rule: RuleKind::IsSigner });
        }
        if !ValidationRule::IdentityEquals(RANDOM_ID).check(self.to) {
            proof {
                lemma_first_some_is(o, 1);
            }
            return Err(AccessError::RuleViolated { slot: 1, rule: RuleKind::IdentityEquals });
        }
        if !self.system_program.executable() {
            proof {
                lemma_first_some_is(o, 2);
            }
            return Err(AccessError::RuleViolated { slot: 2, rule: RuleKind::IsExecutable });
        }
        if !ValidationRule::IdentityEquals(SYSTEM_PROGRAM_ID).check(self.system_program) {
            proof {
                lemma_first_some_is(o, 3);
            }
            return Err(AccessError::RuleViolated { slot: 2, rule: RuleKind::IdentityEquals });
        }
        proof {
            lemma_first_some_all_none(o);
        }
        Ok(())
    }
}

} // verus!
