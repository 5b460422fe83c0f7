use pinocchio_util::decl::{Attribute, FieldDecl, ItemDecl, ItemKind, Meta, MetaValue};
use pinocchio_util::validate::{
    compile_field_rules, find_key, find_validate, read_attrs, read_field_attr,
};
use pinocchio_util::{
    build, derive_context, derive_validate, validate, AccessError, BoundContext, Check,
    FieldType, NamedKey, RawBuffer, RuleKind, SchemaError, ValidationAttr, ValidationPlan,
    ValidationRule,
};

const KEY_A: [u8; 32] = [0xA1; 32];
const KEY_B: [u8; 32] = [0xB2; 32];

fn buffer(key: [u8; 32], is_signer: bool, is_executable: bool, len: usize) -> RawBuffer {
    RawBuffer::new(key, is_signer, is_executable, vec![0u8; len])
}

fn attribute(name: &str, args: Vec<Meta>) -> Attribute {
    Attribute { name: name.to_string(), args: Some(args) }
}

fn path(name: &str) -> Meta {
    Meta::Path(name.to_string())
}

fn literal(name: &str, digits: &str) -> Meta {
    Meta::NameValue(name.to_string(), MetaValue::Int(digits.to_string()))
}

fn expr(name: &str, text: &str) -> Meta {
    Meta::NameValue(name.to_string(), MetaValue::Expr(text.to_string()))
}

fn slot(name: &str, attrs: Vec<Attribute>) -> FieldDecl {
    FieldDecl { name: Some(name.to_string()), ty: FieldType::Unsupported, attrs }
}

fn context(fields: Vec<FieldDecl>) -> ItemDecl {
    ItemDecl {
        name: "Ctx".to_string(),
        kind: ItemKind::Struct,
        lifetimes: vec!["info".to_string()],
        fields,
    }
}

fn constants() -> Vec<NamedKey> {
    vec![
        NamedKey { name: "KEY_A".to_string(), key: KEY_A },
        NamedKey { name: "KEY_B".to_string(), key: KEY_B },
        NamedKey { name: "KEY_A".to_string(), key: [0u8; 32] },
    ]
}

fn check(slot: usize, rule: ValidationRule) -> Check {
    Check { slot, rule }
}

fn violated(slot: usize, rule: RuleKind) -> Result<(), AccessError> {
    Err(AccessError::RuleViolated { slot, rule })
}

#[test]
fn each_rule_reads_what_it_is_about() {
    assert!(ValidationRule::NonEmpty.check(&buffer(KEY_A, false, false, 1)));
    assert!(!ValidationRule::NonEmpty.check(&buffer(KEY_A, true, true, 0)));
    assert!(ValidationRule::IsSigner.check(&buffer(KEY_A, true, false, 0)));
    assert!(!ValidationRule::IsSigner.check(&buffer(KEY_A, false, true, 9)));
    assert!(ValidationRule::IsExecutable.check(&buffer(KEY_A, false, true, 0)));
    assert!(!ValidationRule::IsExecutable.check(&buffer(KEY_A, true, false, 9)));
    assert!(ValidationRule::ExactLength(64).check(&buffer(KEY_A, false, false, 64)));
    assert!(!ValidationRule::ExactLength(64).check(&buffer(KEY_A, false, false, 63)));
    assert!(!ValidationRule::ExactLength(64).check(&buffer(KEY_A, false, false, 65)));
    assert!(ValidationRule::ExactLength(0).check(&buffer(KEY_A, false, false, 0)));
    assert!(ValidationRule::IdentityEquals(KEY_A).check(&buffer(KEY_A, false, false, 0)));
    assert!(!ValidationRule::IdentityEquals(KEY_A).check(&buffer(KEY_B, true, true, 5)));
}

#[test]
fn each_rule_has_its_kind() {
    assert_eq!(ValidationRule::NonEmpty.rule_kind(), RuleKind::NonEmpty);
    assert_eq!(ValidationRule::IsSigner.rule_kind(), RuleKind::IsSigner);
    assert_eq!(ValidationRule::IsExecutable.rule_kind(), RuleKind::IsExecutable);
    assert_eq!(ValidationRule::ExactLength(3).rule_kind(), RuleKind::ExactLength);
    assert_eq!(ValidationRule::IdentityEquals(KEY_A).rule_kind(), RuleKind::IdentityEquals);
}

#[test]
fn a_plan_names_slots_that_exist() {
    assert!(ValidationPlan::new(0, vec![]).is_some());
    assert!(ValidationPlan::new(2, vec![check(1, ValidationRule::NonEmpty)]).is_some());
    assert!(ValidationPlan::new(1, vec![check(1, ValidationRule::NonEmpty)]).is_none());
    assert!(ValidationPlan::new(
        3,
        vec![check(0, ValidationRule::NonEmpty), check(3, ValidationRule::IsSigner)]
    )
    .is_none());
    let plan = ValidationPlan::new(
        3,
        vec![check(2, ValidationRule::NonEmpty), check(0, ValidationRule::IsSigner)],
    )
    .unwrap();
    assert_eq!(plan.slots(), 3);
    assert_eq!(plan.len(), 2);
    assert_eq!(plan.check_at(0), Some(check(2, ValidationRule::NonEmpty)));
    assert_eq!(plan.check_at(1), Some(check(0, ValidationRule::IsSigner)));
    assert_eq!(plan.check_at(2), None);
}

#[test]
fn validation_passes_where_every_rule_holds() {
    let buffers = vec![buffer(KEY_A, true, false, 4), buffer(KEY_B, false, true, 0)];
    let ctx = BoundContext { slots: buffers.iter().collect() };
    let plan = ValidationPlan::new(
        2,
        vec![
            check(0, ValidationRule::NonEmpty),
            check(0, ValidationRule::IsSigner),
            check(0, ValidationRule::ExactLength(4)),
            check(0, ValidationRule::IdentityEquals(KEY_A)),
            check(1, ValidationRule::IsExecutable),
            check(1, ValidationRule::IdentityEquals(KEY_B)),
        ],
    )
    .unwrap();
    assert_eq!(validate(&plan, &ctx), Ok(()));
    assert_eq!(validate(&ValidationPlan::new(2, vec![]).unwrap(), &ctx), Ok(()));
}

#[test]
fn validation_reports_the_first_failure_only() {
    let buffers = vec![buffer(KEY_A, false, false, 4), buffer(KEY_B, false, false, 0)];
    let ctx = BoundContext { slots: buffers.iter().collect() };
    let plan = ValidationPlan::new(
        2,
        vec![
            check(0, ValidationRule::NonEmpty),
            check(0, ValidationRule::IsSigner),
            check(1, ValidationRule::IsExecutable),
            check(1, ValidationRule::NonEmpty),
        ],
    )
    .unwrap();
    assert_eq!(validate(&plan, &ctx), violated(0, RuleKind::IsSigner));
    let later_first = ValidationPlan::new(
        2,
        vec![
            check(1, ValidationRule::NonEmpty),
            check(0, ValidationRule::IsSigner),
            check(1, ValidationRule::IsExecutable),
        ],
    )
    .unwrap();
    assert_eq!(validate(&later_first, &ctx), violated(1, RuleKind::NonEmpty));
}

#[test]
fn validation_reports_each_kind_of_rule() {
    let buffers = vec![buffer(KEY_A, false, false, 0)];
    let ctx = BoundContext { slots: buffers.iter().collect() };
    let cases = [
        (ValidationRule::NonEmpty, RuleKind::NonEmpty),
        (ValidationRule::IsSigner, RuleKind::IsSigner),
        (ValidationRule::IsExecutable, RuleKind::IsExecutable),
        (ValidationRule::ExactLength(1), RuleKind::ExactLength),
        (ValidationRule::IdentityEquals(KEY_B), RuleKind::IdentityEquals),
    ];
    for (rule, kind) in cases {
        let plan = ValidationPlan::new(1, vec![check(0, rule)]).unwrap();
        assert_eq!(validate(&plan, &ctx), violated(0, kind));
    }
}

#[test]
fn validation_needs_the_plans_number_of_slots() {
    let buffers = vec![buffer(KEY_A, true, false, 4), buffer(KEY_B, false, true, 0)];
    let plan = ValidationPlan::new(3, vec![check(0, ValidationRule::IsSigner)]).unwrap();
    let ctx = BoundContext { slots: buffers.iter().collect() };
    assert_eq!(validate(&plan, &ctx), Err(AccessError::ArityMismatch));
    let empty = BoundContext { slots: vec![] };
    assert_eq!(validate(&plan, &empty), Err(AccessError::ArityMismatch));
    assert_eq!(validate(&ValidationPlan::new(0, vec![]).unwrap(), &empty), Ok(()));
}

#[test]
fn validation_leaves_the_buffers_alone() {
    let buffers = vec![buffer(KEY_A, false, false, 4)];
    let before = buffers.clone();
    {
        let ctx = BoundContext { slots: buffers.iter().collect() };
        let plan = ValidationPlan::new(1, vec![check(0, ValidationRule::IsSigner)]).unwrap();
        let _ = validate(&plan, &ctx);
    }
    assert_eq!(buffers, before);
}

#[test]
fn a_key_is_found_by_its_first_name() {
    let table = constants();
    assert_eq!(find_key(&table, "KEY_A"), Some(KEY_A));
    assert_eq!(find_key(&table, "KEY_B"), Some(KEY_B));
    assert_eq!(find_key(&table, "KEY_C"), None);
    assert_eq!(find_key(&table, "key_a"), None);
    assert_eq!(find_key(&[], "KEY_A"), None);
}

#[test]
fn only_the_first_validate_attribute_is_read() {
    let attrs = vec![
        Attribute { name: "doc".to_string(), args: None },
        attribute("validate", vec![path("non_empty")]),
        attribute("validate", vec![path("is_signer")]),
    ];
    assert_eq!(find_validate(&attrs), Some(&attrs[1]));
    assert_eq!(find_validate(&attrs[..1]), None);
    assert_eq!(find_validate(&[]), None);
    let field = slot("a", attrs);
    assert_eq!(compile_field_rules(&field, 0, &[]), Ok(vec![ValidationRule::NonEmpty]));
}

#[test]
fn derive_validate_keeps_declaration_order() {
    let decl = context(vec![
        slot("first", vec![attribute("validate", vec![expr("id", "KEY_B"), path("non_empty")])]),
        slot("second", vec![]),
        slot(
            "third",
            vec![attribute(
                "validate",
                vec![literal("len", "64"), path("is_executable"), path("is_signer")],
            )],
        ),
    ]);
    let plan = derive_validate(&decl, &constants()).unwrap();
    assert_eq!(
        plan,
        ValidationPlan::new(
            3,
            vec![
                check(0, ValidationRule::NonEmpty),
                check(0, ValidationRule::IdentityEquals(KEY_B)),
                check(2, ValidationRule::IsSigner),
                check(2, ValidationRule::IsExecutable),
                check(2, ValidationRule::ExactLength(64)),
            ]
        )
        .unwrap()
    );
}

#[test]
fn derive_validate_without_attributes_checks_nothing() {
    let decl = context(vec![slot("a", vec![]), slot("b", vec![])]);
    let plan = derive_validate(&decl, &[]).unwrap();
    assert_eq!(plan, ValidationPlan::new(2, vec![]).unwrap());
    assert_eq!(derive_validate(&context(vec![]), &[]).unwrap(), ValidationPlan::new(0, vec![]).unwrap());
}

#[test]
fn derive_validate_takes_any_lifetimes() {
    let mut decl = context(vec![slot("a", vec![attribute("validate", vec![path("is_signer")])])]);
    decl.lifetimes.clear();
    assert_eq!(
        derive_validate(&decl, &[]).unwrap(),
        ValidationPlan::new(1, vec![check(0, ValidationRule::IsSigner)]).unwrap()
    );
}

#[test]
fn derive_validate_refuses_what_is_no_struct() {
    let mut decl = context(vec![slot("a", vec![])]);
    decl.kind = ItemKind::Enum;
    assert_eq!(derive_validate(&decl, &[]), Err(SchemaError::NotAStruct));
}

#[test]
fn derive_validate_reports_each_fault() {
    let unnamed = context(vec![
        slot("a", vec![]),
        FieldDecl { name: None, ty: FieldType::Unsupported, attrs: vec![] },
    ]);
    assert_eq!(derive_validate(&unnamed, &[]), Err(SchemaError::UnnamedField { field: 1 }));
    let empty = context(vec![slot("", vec![])]);
    assert_eq!(derive_validate(&empty, &[]), Err(SchemaError::EmptyFieldName { field: 0 }));
    let malformed = context(vec![
        slot("a", vec![]),
        slot("b", vec![]),
        slot("c", vec![Attribute { name: "validate".to_string(), args: None }]),
    ]);
    assert_eq!(derive_validate(&malformed, &[]), Err(SchemaError::MalformedAttribute { field: 2 }));
    let bad_len = context(vec![slot(
        "a",
        vec![attribute("validate", vec![literal("len", "340282366920938463463374607431768211456")])],
    )]);
    assert_eq!(derive_validate(&bad_len, &[]), Err(SchemaError::InvalidLength { field: 0 }));
    let unknown = context(vec![
        slot("a", vec![attribute("validate", vec![expr("id", "KEY_A")])]),
        slot("b", vec![attribute("validate", vec![expr("id", "KEY_C")])]),
    ]);
    assert_eq!(
        derive_validate(&unknown, &constants()),
        Err(SchemaError::UnknownConstant { field: 1 })
    );
}

#[test]
fn derive_validate_reports_the_first_faulty_field() {
    let decl = context(vec![
        slot("a", vec![attribute("validate", vec![expr("id", "KEY_C")])]),
        slot("b", vec![Attribute { name: "validate".to_string(), args: None }]),
        FieldDecl { name: None, ty: FieldType::Unsupported, attrs: vec![] },
    ]);
    assert_eq!(
        derive_validate(&decl, &constants()),
        Err(SchemaError::UnknownConstant { field: 0 })
    );
}

#[test]
fn a_field_s_faults_come_in_a_fixed_order() {
    let no_name = FieldDecl {
        name: None,
        ty: FieldType::Unsupported,
        attrs: vec![Attribute { name: "validate".to_string(), args: None }],
    };
    assert_eq!(compile_field_rules(&no_name, 4, &[]), Err(SchemaError::UnnamedField { field: 4 }));
    let bad_len_and_unknown = slot(
        "a",
        vec![attribute("validate", vec![expr("id", "NOWHERE"), literal("len", "x")])],
    );
    assert_eq!(
        compile_field_rules(&bad_len_and_unknown, 7, &[]),
        Err(SchemaError::InvalidLength { field: 7 })
    );
    let later_attribute_is_bad = slot(
        "a",
        vec![
            attribute("validate", vec![path("non_empty")]),
            Attribute { name: "validate".to_string(), args: None },
        ],
    );
    assert_eq!(
        compile_field_rules(&later_attribute_is_bad, 0, &[]),
        Ok(vec![ValidationRule::NonEmpty])
    );
}

#[test]
fn a_compiled_plan_runs_on_a_built_context() {
    let decl = context(vec![
        slot("payer", vec![attribute("validate", vec![path("is_signer")])]),
        slot("target", vec![attribute("validate", vec![expr("id", "KEY_A"), path("non_empty")])]),
    ]);
    let plan = derive_validate(&decl, &constants()).unwrap();
    let layout = derive_context(&decl).unwrap();
    let good = vec![buffer(KEY_B, true, false, 0), buffer(KEY_A, false, false, 1)];
    assert_eq!(validate(&plan, &build(&layout, &good).unwrap()), Ok(()));
    let both_fail = vec![buffer(KEY_B, false, false, 0), buffer(KEY_B, false, false, 0)];
    assert_eq!(
        validate(&plan, &build(&layout, &both_fail).unwrap()),
        violated(0, RuleKind::IsSigner)
    );
    let second_fails_twice = vec![buffer(KEY_B, true, false, 0), buffer(KEY_B, false, false, 0)];
    assert_eq!(
        validate(&plan, &build(&layout, &second_fails_twice).unwrap()),
        violated(1, RuleKind::NonEmpty)
    );
    let swapped = vec![buffer(KEY_A, false, false, 1), buffer(KEY_B, true, false, 0)];
    assert_eq!(
        validate(&plan, &build(&layout, &swapped).unwrap()),
        violated(0, RuleKind::IsSigner)
    );
}

#[test]
fn a_field_s_attribute_is_read_without_the_constants() {
    assert_eq!(read_field_attr(&slot("a", vec![]), 0), Ok(None));
    let declared = slot(
        "a",
        vec![attribute("validate", vec![expr("id", "NOWHERE"), literal("len", "12")])],
    );
    assert_eq!(
        read_field_attr(&declared, 3),
        Ok(Some(ValidationAttr {
            non_empty: false,
            is_signer: false,
            is_executable: false,
            len: Some(12),
            id: Some("NOWHERE".to_string()),
        }))
    );
    let unnamed = FieldDecl { name: None, ty: FieldType::Unsupported, attrs: vec![] };
    assert_eq!(read_field_attr(&unnamed, 3), Err(SchemaError::UnnamedField { field: 3 }));
    let malformed = slot("a", vec![Attribute { name: "validate".to_string(), args: None }]);
    assert_eq!(read_field_attr(&malformed, 5), Err(SchemaError::MalformedAttribute { field: 5 }));
    let bad = slot("a", vec![attribute("validate", vec![literal("len", "")])]);
    assert_eq!(read_field_attr(&bad, 6), Err(SchemaError::InvalidLength { field: 6 }));
}

#[test]
fn the_attributes_of_a_declaration_are_read_field_by_field() {
    let decl = context(vec![
        slot("a", vec![attribute("validate", vec![path("is_signer")])]),
        slot("b", vec![]),
        slot("c", vec![attribute("validate", vec![expr("id", "NOWHERE")])]),
    ]);
    let attrs = read_attrs(&decl).unwrap();
    assert_eq!(attrs.len(), 3);
    assert_eq!(attrs[0].as_ref().map(|a| a.is_signer), Some(true));
    assert_eq!(attrs[1], None);
    assert_eq!(attrs[2].as_ref().and_then(|a| a.id.clone()), Some("NOWHERE".to_string()));
    assert_eq!(read_attrs(&context(vec![])), Ok(vec![]));
}

#[test]
fn reading_the_attributes_reports_the_first_fault() {
    let mut decl = context(vec![
        slot("a", vec![attribute("validate", vec![literal("len", "1")])]),
        slot("b", vec![Attribute { name: "validate".to_string(), args: None }]),
        slot("", vec![]),
    ]);
    assert_eq!(read_attrs(&decl), Err(SchemaError::MalformedAttribute { field: 1 }));
    decl.fields[0] = slot("a", vec![attribute("validate", vec![literal("len", "1x")])]);
    assert_eq!(read_attrs(&decl), Err(SchemaError::InvalidLength { field: 0 }));
    decl.kind = ItemKind::Union;
    assert_eq!(read_attrs(&decl), Err(SchemaError::NotAStruct));
}
