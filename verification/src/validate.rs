//! Validation rules, the plan that a declaration compiles to, and the routine
//! that checks a plan against a bound context.
//!
//! The checks run in declaration order and the first one that fails ends the
//! run: its failure is what the caller gets, and nothing declared after it is
//! looked at.

use vstd::prelude::*;
use crate::account::same_key;
use crate::account::Pubkey;
use crate::account::RawBuffer;
use crate::account::RawBufferView;
use crate::attr::declared_attr;
use crate::attr::has_bad_length;
use crate::attr::rules_of;
use crate::attr::AttrView;
use crate::attr::ValidationAttr;
use crate::context::BoundContext;
use crate::decl::checked_name;
use crate::decl::name_fault;
use crate::decl::Attribute;
use crate::decl::FieldDecl;
use crate::decl::ItemDecl;
use crate::decl::ItemKind;
use crate::error::SchemaError;
use crate::text::text_is;
use crate::error::AccessError;
use crate::error::RuleKind;
use crate::order::first_some;
use crate::order::first_some_at;
use crate::order::lemma_first_some;
use crate::order::lemma_first_some_all_none;
use crate::order::lemma_first_some_is;

verus! {

/// A rule on one buffer.
#[derive(Debug, Clone, Copy, PartialEq, Eq)]
pub enum ValidationRule {
    /// The buffer holds at least one byte.
    NonEmpty,
    /// The buffer carries the signer flag.
    IsSigner,
    /// The buffer carries the executable flag.
    IsExecutable,
    /// The buffer holds exactly so many bytes.
    ExactLength(usize),
    /// The buffer's key is this key.
    IdentityEquals(Pubkey),
}

impl ValidationRule {
    /// The rule without its argument.
    pub open spec fn kind(self) -> RuleKind {
        match self {
            ValidationRule::NonEmpty => RuleKind::NonEmpty,
            ValidationRule::IsSigner => RuleKind::IsSigner,
            ValidationRule::IsExecutable => RuleKind::IsExecutable,
            ValidationRule::ExactLength(_) => RuleKind::ExactLength,
            ValidationRule::IdentityEquals(_) => RuleKind::IdentityEquals,
        }
    }

    /// Whether the rule holds of `buffer`.
    pub open spec fn holds(self, buffer: RawBufferView) -> bool {
        match self {
            ValidationRule::NonEmpty => buffer.data.len() > 0,
            ValidationRule::IsSigner => buffer.is_signer,
            ValidationRule::IsExecutable => buffer.is_executable,
            ValidationRule::ExactLength(n) => buffer.data.len() == n,
            ValidationRule::IdentityEquals(key) => buffer.key == key@,
        }
    }

    /// The rule without its argument.
    pub fn rule_kind(&self) -> (r: RuleKind)
        ensures
            r == self.kind(),
    {
        match self {
            ValidationRule::NonEmpty => RuleKind::NonEmpty,
            ValidationRule::IsSigner => RuleKind::IsSigner,
            ValidationRule::IsExecutable => RuleKind::IsExecutable,
            ValidationRule::ExactLength(_) => RuleKind::ExactLength,
            ValidationRule::IdentityEquals(_) => RuleKind::IdentityEquals,
        }
    }

    /// Whether the rule holds of `buffer`. Nothing is written.
    pub fn check(&self, buffer: &RawBuffer) -> (r: bool)
        ensures
            r == self.holds(buffer@),
    {
        match self {
            ValidationRule::NonEmpty => buffer.data.len() > 0,
            ValidationRule::IsSigner => buffer.is_signer,
            ValidationRule::IsExecutable => buffer.is_executable,
            ValidationRule::ExactLength(n) => buffer.data.len() == *n,
            ValidationRule::IdentityEquals(key) => same_key(&buffer.key, key),
        }
    }
}

/// One step of a validation plan: a rule, and the slot whose buffer it is
/// checked on.
#[derive(Debug, Clone, Copy, PartialEq, Eq)]
pub struct Check {
    /// The position of the slot.
    pub slot: usize,
    /// The rule.
    pub rule: ValidationRule,
}

/// What `check` reports on the buffers `slots`: nothing where its rule holds
/// of the buffer in its slot, and else the violation, which names the slot
/// and the rule.
pub open spec fn outcome(check: Check, slots: Seq<RawBufferView>) -> Option<AccessError> {
    if check.rule.holds(slots[check.slot as int]) {
        None
    } else {
        Some(AccessError::RuleViolated { slot: check.slot, rule: check.rule.kind() })
    }
}

/// What each of `checks` reports on `slots`, by position.
pub open spec fn outcomes(checks: Seq<Check>, slots: Seq<RawBufferView>) -> Seq<
    Option<AccessError>,
> {
    Seq::new(checks.len(), |i: int| outcome(checks[i], slots))
}

/// The result of running `checks` in order on `slots`: the violation that the
/// first failing check reports, or success where none fails.
pub open spec fn first_violation(checks: Seq<Check>, slots: Seq<RawBufferView>) -> Result<
    (),
    AccessError,
> {
    match first_some(outcomes(checks, slots)) {
        Some(e) => Err(e),
        None => Ok(()),
    }
}

/// Short-circuit on the first failure. Running `checks` in order succeeds
/// exactly when every rule holds. Where it fails, there is a failing check
/// before which every check holds, and the violation reported is that
/// check's: whatever fails later is not reported.
pub proof fn lemma_first_violation(checks: Seq<Check>, slots: Seq<RawBufferView>)
    ensures
        first_violation(checks, slots) is Ok <==> (forall|i: int|
            0 <= i < checks.len() ==> (#[trigger] checks[i]).rule.holds(
                slots[checks[i].slot as int],
            )),
        first_violation(checks, slots) matches Err(e) ==> {
            let k = first_some_at(outcomes(checks, slots));
            &&& 0 <= k < checks.len()
            &&& !checks[k].rule.holds(slots[checks[k].slot as int])
            &&& forall|j: int|
                0 <= j < k ==> (#[trigger] checks[j]).rule.holds(slots[checks[j].slot as int])
            &&& e == AccessError::RuleViolated { slot: checks[k].slot, rule: checks[k].rule.kind() }
        },
{
    let o = outcomes(checks, slots);
    lemma_first_some(o);
    let k = first_some_at(o);
    assert forall|j: int| 0 <= j < k implies (#[trigger] checks[j]).rule.holds(
        slots[checks[j].slot as int],
    ) by {
        assert(o[j] is None);
    }
    if k < o.len() {
        assert(o[k] is Some);
        assert(!checks[k].rule.holds(slots[checks[k].slot as int]));
    }
}

/// A validation plan: the checks to run, in order, on a context with a given
/// number of slots. Every check names one of those slots.
#[derive(Debug, PartialEq, Eq)]
pub struct ValidationPlan {
    slot_count: usize,
    checks: Vec<Check>,
}

impl ValidationPlan {
    #[verifier::type_invariant]
    spec fn inv(self) -> bool {
        forall|i: int| 0 <= i < self.checks@.len() ==> (#[trigger] self.checks@[i]).slot
            < self.slot_count
    }

    /// The number of slots in the context that the plan is for.
    pub closed spec fn slot_count(&self) -> nat {
        self.slot_count as nat
    }

    /// The checks, in the order in which they run.
    pub closed spec fn checks(&self) -> Seq<Check> {
        self.checks@
    }

    /// What the plan makes of the buffers `slots`: `ArityMismatch` where
    /// there are not as many as the plan has slots, and else what running
    /// the checks in order gives.
    pub open spec fn verdict(&self, slots: Seq<RawBufferView>) -> Result<(), AccessError> {
        if slots.len() != self.slot_count() {
            Err(AccessError::ArityMismatch)
        } else {
            first_violation(self.checks(), slots)
        }
    }

    /// The plan that runs `checks` in order on a context with `slot_count`
    /// slots, or `None` where some check names a slot that the context does
    /// not have.
    pub fn new(slot_count: usize, checks: Vec<Check>) -> (r: Option<ValidationPlan>)
        ensures
            r is Some <==> (forall|i: int|
                0 <= i < checks@.len() ==> (#[trigger] checks@[i]).slot < slot_count),
            r matches Some(plan) ==> plan.slot_count() == slot_count && plan.checks() == checks@,
    {
        let mut i: usize = 0;
        while i < checks.len()
            invariant
                i <= checks@.len(),
                forall|j: int| 0 <= j < i ==> (#[trigger] checks@[j]).slot < slot_count,
            decreases checks@.len() - i,
        {
            if checks[i].slot >= slot_count {
                return None;
            }
            i += 1;
        }
        Some(ValidationPlan { slot_count, checks })
    }

    /// The number of slots in the context that the plan is for.
    pub fn slots(&self) -> (r: usize)
        ensures
            r == self.slot_count(),
    {
        self.slot_count
    }

    /// The number of checks.
    pub fn len(&self) -> (r: usize)
        ensures
            r == self.checks().len(),
    {
        self.checks.len()
    }

    /// Check `i`, or `None` where the plan has no such check.
    pub fn check_at(&self, i: usize) -> (r: Option<Check>)
        ensures
            i >= self.checks().len() ==> r is None,
            i < self.checks().len() ==> r == Some(self.checks()[i as int]),
            r matches Some(c) ==> c.slot < self.slot_count(),
    {
        proof {
            use_type_invariant(self);
        }
        if i < self.checks.len() {
            Some(self.checks[i])
        } else {
            None
        }
    }
}

/// Checks the plan's rules against the buffers bound in `context`, in order,
/// and stops at the first that fails. Reads only. Fails with `ArityMismatch`
/// where the context has another number of slots than the plan, and else with
/// the violation of the first failing check; succeeds where every rule holds.
pub fn validate(plan: &ValidationPlan, context: &BoundContext<'_>) -> (r: Result<(), AccessError>)
    ensures
        r == plan.verdict(context.bound()),
{
    if context.len() != plan.slots() {
        return Err(AccessError::ArityMismatch);
    }
    let ghost slots = context.bound();
    let ghost o = outcomes(plan.checks(), slots);
    let mut i: usize = 0;
    while i < plan.len()
        invariant
            i <= plan.checks().len(),
            slots == context.bound(),
            context.slots@.len() == plan.slot_count(),
            o == outcomes(plan.checks(), slots),
            forall|j: int| 0 <= j < i ==> o[j] is None,
        decreases plan.checks().len() - i,
    {
        proof {
            use_type_invariant(plan);
        }
        let check = plan.checks[i];
        let buffer = context.slots[check.slot];
        assert(slots[check.slot as int] == buffer@);
        assert(o[i as int] == outcome(check, slots));
        if !check.rule.check(buffer) {
            proof {
                lemma_first_some_is(o, i as int);
            }
            return Err(AccessError::RuleViolated { slot: check.slot, rule: check.rule.rule_kind() });
        }
        i += 1;
    }
    proof {
        lemma_first_some_all_none(o);
    }
    Ok(())
}

/// A bound context that knows the rules declared on its slots.
///
/// `validate` checks them in declaration order and stops at the first that
/// fails.
pub trait Validate<'info> {
    /// The checks declared on the slots, in the order in which they run.
    spec fn declared() -> Seq<Check>;

    /// The buffers bound to the slots, in declaration order.
    spec fn validated(&self) -> Seq<RawBufferView>;

    /// Runs the declared checks in order. Reads only.
    fn validate(&self) -> (r: Result<(), AccessError>)
        ensures
            r == first_violation(Self::declared(), self.validated()),
    ;
}

/// A constant key by its name: what an `id = ..` rule can refer to.
#[derive(Debug, Clone, PartialEq, Eq)]
pub struct NamedKey {
    /// The text by which declarations refer to the key.
    pub name: String,
    /// The key.
    pub key: Pubkey,
}

/// For each entry of `constants`, its key where it is named `name`.
pub open spec fn keys_named(constants: Seq<NamedKey>, name: Seq<char>) -> Seq<Option<Pubkey>> {
    Seq::new(
        constants.len(),
        |i: int|
            if constants[i].name@ == name {
                Some(constants[i].key)
            } else {
                None
            },
    )
}

/// The key of the first entry of `constants` that is named `name`.
pub open spec fn lookup(constants: Seq<NamedKey>, name: Seq<char>) -> Option<Pubkey> {
    first_some(keys_named(constants, name))
}

/// The key of the first entry of `constants` that is named `name`.
pub fn find_key(constants: &[NamedKey], name: &str) -> (r: Option<Pubkey>)
    ensures
        r == lookup(constants@, name@),
{
    let ghost entries = keys_named(constants@, name@);
    let mut i: usize = 0;
    while i < constants.len()
        invariant
            i <= constants@.len(),
            entries == keys_named(constants@, name@),
            forall|j: int| 0 <= j < i ==> entries[j] is None,
        decreases constants@.len() - i,
    {
        assert(entries[i as int] == (if constants@[i as int].name@ == name@ {
            Some(constants@[i as int].key)
        } else {
            None
        }));
        if text_is(constants[i].name.as_str(), name) {
            proof {
                lemma_first_some_is(entries, i as int);
            }
            return Some(constants[i].key);
        }
        i += 1;
    }
    proof {
        lemma_first_some_all_none(entries);
    }
    None
}

/// For each of `attrs`, the attribute itself where it is named `validate`.
pub open spec fn validate_attrs(attrs: Seq<Attribute>) -> Seq<Option<Attribute>> {
    Seq::new(
        attrs.len(),
        |i: int|
            if attrs[i].name@ == "validate"@ {
                Some(attrs[i])
            } else {
                None
            },
    )
}

/// The first of `attrs` that is named `validate`. Only this one is read:
/// further `validate` attributes on the same field declare nothing.
pub open spec fn first_validate(attrs: Seq<Attribute>) -> Option<Attribute> {
    first_some(validate_attrs(attrs))
}

/// The first of `attrs` that is named `validate`.
pub fn find_validate(attrs: &[Attribute]) -> (r: Option<&Attribute>)
    ensures
        r matches Some(a) ==> first_validate(attrs@) == Some(*a),
        r is None ==> first_validate(attrs@) is None,
{
    let ghost entries = validate_attrs(attrs@);
    let mut i: usize = 0;
    while i < attrs.len()
        invariant
            i <= attrs@.len(),
            entries == validate_attrs(attrs@),
            forall|j: int| 0 <= j < i ==> entries[j] is None,
        decreases attrs@.len() - i,
    {
        assert(entries[i as int] == (if attrs@[i as int].name@ == "validate"@ {
            Some(attrs@[i as int])
        } else {
            None
        }));
        if text_is(attrs[i].name.as_str(), "validate") {
            proof {
                lemma_first_some_is(entries, i as int);
            }
            return Some(&attrs[i]);
        }
        i += 1;
    }
    proof {
        lemma_first_some_all_none(entries);
    }
    None
}

/// What field `i` declares in its first `validate` attribute, or why that
/// cannot be had. In this order: the field has no name to go by; the
/// attribute holds no list of arguments; a `len` in it names no length. A
/// field without a `validate` attribute declares nothing.
pub open spec fn field_attr(field: FieldDecl, i: int) -> Result<Option<AttrView>, SchemaError> {
    match name_fault(field, i) {
        Some(e) => Err(e),
        None => match first_validate(field.attrs@) {
            None => Ok(None),
            Some(attr) => match attr.args {
                None => Err(SchemaError::MalformedAttribute { field: i as usize }),
                Some(args) => if has_bad_length(args@) {
                    Err(SchemaError::InvalidLength { field: i as usize })
                } else {
                    Ok(Some(declared_attr(args@)))
                },
            },
        },
    }
}

/// Reads what field `i` declares in its first `validate` attribute.
pub fn read_field_attr(field: &FieldDecl, i: usize) -> (r: Result<
    Option<ValidationAttr>,
    SchemaError,
>)
    ensures
        field_attr(*field, i as int) matches Err(e) ==> r == Err::<
            Option<ValidationAttr>,
            SchemaError,
        >(e),
        field_attr(*field, i as int) matches Ok(None) ==> r == Ok::<
            Option<ValidationAttr>,
            SchemaError,
        >(None),
        field_attr(*field, i as int) matches Ok(Some(declared)) ==> (r matches Ok(Some(attr))
            && attr@ == declared),
{
    match checked_name(field, i) {
        Err(e) => {
            return Err(e);
        },
        Ok(_) => {},
    }
    let attr = match find_validate(field.attrs.as_slice()) {
        None => {
            return Ok(None);
        },
        Some(attr) => attr,
    };
    let args = match &attr.args {
        None => {
            return Err(SchemaError::MalformedAttribute { field: i });
        },
        Some(args) => args,
    };
    match ValidationAttr::parse(args.as_slice()) {
        None => Err(SchemaError::InvalidLength { field: i }),
        Some(parsed) => Ok(Some(parsed)),
    }
}

/// What keeps `field_attr` from reading each field, by position.
pub open spec fn attr_faults(fields: Seq<FieldDecl>) -> Seq<Option<SchemaError>> {
    Seq::new(
        fields.len(),
        |i: int|
            match field_attr(fields[i], i) {
                Err(e) => Some(e),
                Ok(_) => None,
            },
    )
}

/// Why the `validate` attributes of `input` cannot be read, if there is a
/// reason: it is no struct, or else what is wrong with the first field that
/// has a fault.
pub open spec fn attrs_fault(input: ItemDecl) -> Option<SchemaError> {
    if input.kind != ItemKind::Struct {
        Some(SchemaError::NotAStruct)
    } else {
        first_some(attr_faults(input.fields@))
    }
}

/// Reads, for every field in declaration order, what its first `validate`
/// attribute declares. The `id` rules keep their text: no table of constants
/// is needed. Fails where `attrs_fault` gives a reason, with that reason.
pub fn read_attrs(input: &ItemDecl) -> (r: Result<Vec<Option<ValidationAttr>>, SchemaError>)
    ensures
        attrs_fault(*input) matches Some(e) ==> r == Err::<
            Vec<Option<ValidationAttr>>,
            SchemaError,
        >(e),
        attrs_fault(*input) is None ==> (r matches Ok(attrs) && attrs@.len()
            == input.fields@.len() && forall|i: int|
            0 <= i < input.fields@.len() ==> match field_attr(input.fields@[i], i) {
                Ok(Some(declared)) => (#[trigger] attrs@[i]) matches Some(attr) && attr@
                    == declared,
                _ => attrs@[i] is None,
            }),
{
    match input.kind {
        ItemKind::Struct => {},
        _ => {
            return Err(SchemaError::NotAStruct);
        },
    }
    let ghost faults = attr_faults(input.fields@);
    let mut attrs: Vec<Option<ValidationAttr>> = Vec::new();
    let mut i: usize = 0;
    while i < input.fields.len()
        invariant
            i <= input.fields@.len(),
            input.kind == ItemKind::Struct,
            faults == attr_faults(input.fields@),
            forall|j: int| 0 <= j < i ==> faults[j] is None,
            attrs@.len() == i,
            forall|j: int|
                0 <= j < i ==> match field_attr(input.fields@[j], j) {
                    Ok(Some(declared)) => (#[trigger] attrs@[j]) matches Some(attr) && attr@
                        == declared,
                    _ => attrs@[j] is None,
                },
        decreases input.fields@.len() - i,
    {
        assert(faults[i as int] == (match field_attr(input.fields@[i as int], i as int) {
            Err(e) => Some(e),
            Ok(_) => None,
        }));
        match read_field_attr(&input.fields[i], i) {
            Err(e) => {
                proof {
                    lemma_first_some_is(faults, i as int);
                }
                return Err(e);
            },
            Ok(attr) => {
                attrs.push(attr);
            },
        }
        i += 1;
    }
    proof {
        lemma_first_some_all_none(faults);
    }
    Ok(attrs)
}

/// The rules declared on field `i`, in the order in which they are checked,
/// or why they cannot be had: what keeps `field_attr` from reading the
/// attribute, or else that its `id` names no constant of `constants`.
pub open spec fn field_rules(field: FieldDecl, i: int, constants: Seq<NamedKey>) -> Result<
    Seq<ValidationRule>,
    SchemaError,
> {
    match field_attr(field, i) {
        Err(e) => Err(e),
        Ok(None) => Ok(seq![]),
        Ok(Some(attr)) => match attr.id {
            None => Ok(rules_of(attr, None)),
            Some(text) => match lookup(constants, text) {
                None => Err(SchemaError::UnknownConstant { field: i as usize }),
                Some(key) => Ok(rules_of(attr, Some(key))),
            },
        },
    }
}

/// Compiles the rules declared on field `i`.
pub fn compile_field_rules(field: &FieldDecl, i: usize, constants: &[NamedKey]) -> (r: Result<
    Vec<ValidationRule>,
    SchemaError,
>)
    ensures
        field_rules(*field, i as int, constants@) matches Err(e) ==> r == Err::<
            Vec<ValidationRule>,
            SchemaError,
        >(e),
        field_rules(*field, i as int, constants@) matches Ok(rules) ==> (r matches Ok(v) && v@
            == rules),
{
    let parsed = match read_field_attr(field, i) {
        Err(e) => {
            return Err(e);
        },
        Ok(None) => {
            return Ok(Vec::new());
        },
        Ok(Some(parsed)) => parsed,
    };
    match &parsed.id {
        None => Ok(parsed.rules(None)),
        Some(text) => match find_key(constants, text.as_str()) {
            None => Err(SchemaError::UnknownConstant { field: i }),
            Some(key) => Ok(parsed.rules(Some(key))),
        },
    }
}

/// What is wrong with the rules of each field, by position.
pub open spec fn rule_faults(fields: Seq<FieldDecl>, constants: Seq<NamedKey>) -> Seq<
    Option<SchemaError>,
> {
    Seq::new(
        fields.len(),
        |i: int|
            match field_rules(fields[i], i, constants) {
                Err(e) => Some(e),
                Ok(_) => None,
            },
    )
}

/// The checks that field `i` contributes to the plan: its rules, in order,
/// each on slot `i`.
pub open spec fn field_checks(field: FieldDecl, i: int, constants: Seq<NamedKey>) -> Seq<Check> {
    match field_rules(field, i, constants) {
        Ok(rules) => Seq::new(rules.len(), |k: int| Check { slot: i as usize, rule: rules[k] }),
        Err(_) => seq![],
    }
}

/// The checks of the first `n` fields, field by field in declaration order.
pub open spec fn checks_before(fields: Seq<FieldDecl>, constants: Seq<NamedKey>, n: int) -> Seq<
    Check,
>
    decreases n,
{
    if n <= 0 {
        seq![]
    } else {
        checks_before(fields, constants, n - 1) + field_checks(fields[n - 1], n - 1, constants)
    }
}

/// Checks stand in declaration order: each of the checks of the first `n`
/// fields names one of those fields, and no check names an earlier field than
/// a check before it.
pub proof fn lemma_checks_in_declaration_order(
    fields: Seq<FieldDecl>,
    constants: Seq<NamedKey>,
    n: int,
)
    requires
        0 <= n <= fields.len(),
        n <= usize::MAX,
    ensures
        forall|a: int|
            0 <= a < checks_before(fields, constants, n).len() ==> (#[trigger] checks_before(
                fields,
                constants,
                n,
            )[a]).slot < n,
        forall|a: int, b: int|
            0 <= a <= b < checks_before(fields, constants, n).len() ==> (#[trigger] checks_before(
                fields,
                constants,
                n,
            )[a]).slot <= (#[trigger] checks_before(fields, constants, n)[b]).slot,
    decreases n,
{
    if n > 0 {
        lemma_checks_in_declaration_order(fields, constants, n - 1);
        let before = checks_before(fields, constants, n - 1);
        let own = field_checks(fields[n - 1], n - 1, constants);
        let all = checks_before(fields, constants, n);
        assert(all == before + own);
        assert forall|a: int| 0 <= a < all.len() implies (#[trigger] all[a]).slot < n by {
            if a < before.len() {
                assert(all[a] == before[a]);
            } else {
                assert(all[a] == own[a - before.len()]);
            }
        }
        assert forall|a: int, b: int| 0 <= a <= b < all.len() implies (#[trigger] all[a]).slot <= (
        #[trigger] all[b]).slot by {
            if b < before.len() {
                assert(all[a] == before[a]);
                assert(all[b] == before[b]);
            } else {
                assert(all[b] == own[b - before.len()]);
                if a < before.len() {
                    assert(all[a] == before[a]);
                } else {
                    assert(all[a] == own[a - before.len()]);
                }
            }
        }
    }
}

/// Why no validation plan can be made for `input`, if there is a reason: it
/// is no struct, or else what is wrong with the first field that has a fault.
pub open spec fn validate_fault(input: ItemDecl, constants: Seq<NamedKey>) -> Option<
    SchemaError,
> {
    if input.kind != ItemKind::Struct {
        Some(SchemaError::NotAStruct)
    } else {
        first_some(rule_faults(input.fields@, constants))
    }
}

/// Compiles a context declaration into its validation plan: for every field
/// in declaration order, the rules of its first `validate` attribute, in the
/// order non-empty, signer, executable, exact length, identity. `constants`
/// gives the keys that `id` rules refer to. Fails where `validate_fault`
/// gives a reason, with that reason.
pub fn derive_validate(input: &ItemDecl, constants: &[NamedKey]) -> (r: Result<
    ValidationPlan,
    SchemaError,
>)
    ensures
        validate_fault(*input, constants@) matches Some(e) ==> r == Err::<
            ValidationPlan,
            SchemaError,
        >(e),
        validate_fault(*input, constants@) is None ==> (r matches Ok(plan) && plan.slot_count()
            == input.fields@.len() && plan.checks() == checks_before(
            input.fields@,
            constants@,
            input.fields@.len() as int,
        )),
{
    match input.kind {
        ItemKind::Struct => {},
        _ => {
            return Err(SchemaError::NotAStruct);
        },
    }
    let ghost faults = rule_faults(input.fields@, constants@);
    let mut checks: Vec<Check> = Vec::new();
    let mut i: usize = 0;
    while i < input.fields.len()
        invariant
            i <= input.fields@.len(),
            input.kind == ItemKind::Struct,
            faults == rule_faults(input.fields@, constants@),
            forall|j: int| 0 <= j < i ==> faults[j] is None,
            checks@ == checks_before(input.fields@, constants@, i as int),
            forall|j: int| 0 <= j < checks@.len() ==> (#[trigger] checks@[j]).slot < i,
        decreases input.fields@.len() - i,
    {
        let ghost field = input.fields@[i as int];
        assert(faults[i as int] == (match field_rules(field, i as int, constants@) {
            Err(e) => Some(e),
            Ok(_) => None,
        }));
        let rules = match compile_field_rules(&input.fields[i], i, constants) {
            Err(e) => {
                proof {
                    lemma_first_some_is(faults, i as int);
                }
                return Err(e);
            },
            Ok(rules) => rules,
        };
        let ghost before = checks@;
        let ghost own = field_checks(field, i as int, constants@);
        let mut k: usize = 0;
        while k < rules.len()
            invariant
                k <= rules@.len(),
                i < input.fields@.len(),
                own.len() == rules@.len(),
                forall|j: int|
                    0 <= j < rules@.len() ==> own[j] == (Check { slot: i, rule: rules@[j] }),
                checks@ == before + own.take(k as int),
                forall|j: int| 0 <= j < before.len() ==> (#[trigger] before[j]).slot < i,
            decreases rules@.len() - k,
        {
            checks.push(Check { slot: i, rule: rules[k] });
            assert(checks@ =~= before + own.take(k + 1));
            k += 1;
        }
        assert(own.take(k as int) =~= own);
        i += 1;
    }
    proof {
        lemma_first_some_all_none(faults);
    }
    Ok(ValidationPlan { slot_count: input.fields.len(), checks })
}

} // verus!
