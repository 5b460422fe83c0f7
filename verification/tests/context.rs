use pinocchio_util::decl::{FieldDecl, ItemDecl, ItemKind};
use pinocchio_util::example::context::BasicContext;
use pinocchio_util::{
    build, derive_context, AccessError, Context, ContextLayout, FieldType, RawBuffer, SchemaError,
};

fn buffer(tag: u8) -> RawBuffer {
    RawBuffer::new([tag; 32], false, false, vec![tag])
}

fn slot(name: &str) -> FieldDecl {
    FieldDecl { name: Some(name.to_string()), ty: FieldType::Unsupported, attrs: vec![] }
}

fn basic_decl() -> ItemDecl {
    ItemDecl {
        name: "BasicContext".to_string(),
        kind: ItemKind::Struct,
        lifetimes: vec!["info".to_string()],
        fields: vec![slot("from"), slot("to"), slot("system_program")],
    }
}

fn names(layout: &ContextLayout) -> Vec<&str> {
    layout.slots.iter().map(|s| s.as_str()).collect()
}

#[test]
fn derive_context_names_the_slots_in_order() {
    let layout = derive_context(&basic_decl()).unwrap();
    assert_eq!(names(&layout), vec!["from", "to", "system_program"]);
    assert_eq!(layout.accounts_len(), 3);
    assert_eq!(layout.position("from"), Some(0));
    assert_eq!(layout.position("system_program"), Some(2));
    assert_eq!(layout.position("nobody"), None);
}

#[test]
fn derive_context_of_no_fields_has_no_slots() {
    let mut decl = basic_decl();
    decl.fields.clear();
    let layout = derive_context(&decl).unwrap();
    assert_eq!(layout.accounts_len(), 0);
    assert_eq!(layout.position("from"), None);
}

#[test]
fn position_gives_the_first_slot_of_a_name() {
    let layout = ContextLayout { slots: vec!["a".to_string(), "b".to_string(), "a".to_string()] };
    assert_eq!(layout.position("a"), Some(0));
    assert_eq!(layout.position("b"), Some(1));
}

#[test]
fn derive_context_wants_exactly_one_lifetime() {
    let mut decl = basic_decl();
    decl.lifetimes.clear();
    assert_eq!(derive_context(&decl), Err(SchemaError::LifetimeCount));
    decl.lifetimes = vec!["info".to_string(), "other".to_string()];
    assert_eq!(derive_context(&decl), Err(SchemaError::LifetimeCount));
}

#[test]
fn derive_context_wants_the_lifetime_named_info() {
    let mut decl = basic_decl();
    decl.lifetimes = vec!["a".to_string()];
    assert_eq!(derive_context(&decl), Err(SchemaError::LifetimeName));
    decl.lifetimes = vec!["Info".to_string()];
    assert_eq!(derive_context(&decl), Err(SchemaError::LifetimeName));
    decl.lifetimes = vec!["'info".to_string()];
    assert_eq!(derive_context(&decl), Err(SchemaError::LifetimeName));
}

#[test]
fn derive_context_checks_lifetimes_before_the_rest() {
    let mut decl = basic_decl();
    decl.kind = ItemKind::Enum;
    decl.fields[0].name = None;
    decl.lifetimes = vec!["a".to_string()];
    assert_eq!(derive_context(&decl), Err(SchemaError::LifetimeName));
    decl.lifetimes.clear();
    assert_eq!(derive_context(&decl), Err(SchemaError::LifetimeCount));
    decl.lifetimes = vec!["info".to_string()];
    assert_eq!(derive_context(&decl), Err(SchemaError::NotAStruct));
    decl.kind = ItemKind::Struct;
    assert_eq!(derive_context(&decl), Err(SchemaError::UnnamedField { field: 0 }));
}

#[test]
fn derive_context_reports_the_first_field_without_a_name() {
    let mut decl = basic_decl();
    decl.fields[2].name = None;
    decl.fields[1].name = Some(String::new());
    assert_eq!(derive_context(&decl), Err(SchemaError::EmptyFieldName { field: 1 }));
}

#[test]
fn build_binds_by_position() {
    let layout = derive_context(&basic_decl()).unwrap();
    let buffers = vec![buffer(1), buffer(2), buffer(3)];
    let ctx = build(&layout, &buffers).unwrap();
    assert_eq!(ctx.len(), 3);
    for i in 0..3 {
        assert!(std::ptr::eq(ctx.slot(i).unwrap(), &buffers[i]));
    }
    assert_eq!(ctx.slot(3), None);
    let to = layout.position("to").unwrap();
    assert_eq!(ctx.slot(to), Some(&buffer(2)));
}

#[test]
fn three_slots_do_not_take_two_buffers() {
    let layout = derive_context(&basic_decl()).unwrap();
    assert_eq!(layout.accounts_len(), 3);
    let two = vec![buffer(1), buffer(2)];
    assert_eq!(build(&layout, &two), Err(AccessError::ArityMismatch));
    assert_eq!(BasicContext::build(&two), Err(AccessError::ArityMismatch));
}

#[test]
fn build_neither_cuts_nor_fills() {
    let layout = derive_context(&basic_decl()).unwrap();
    let four = vec![buffer(1), buffer(2), buffer(3), buffer(4)];
    assert_eq!(build(&layout, &four), Err(AccessError::ArityMismatch));
    assert_eq!(build(&layout, &[]), Err(AccessError::ArityMismatch));
    assert_eq!(BasicContext::build(&four), Err(AccessError::ArityMismatch));
    assert_eq!(BasicContext::build(&[]), Err(AccessError::ArityMismatch));
    let none = ContextLayout { slots: vec![] };
    assert_eq!(build(&none, &[]).unwrap().len(), 0);
    assert_eq!(build(&none, &four[..1]), Err(AccessError::ArityMismatch));
}

#[test]
fn the_example_context_binds_by_position() {
    assert_eq!(<BasicContext as Context>::ACCOUNTS_LEN, 3);
    let buffers = vec![buffer(1), buffer(2), buffer(3)];
    let ctx = BasicContext::build(&buffers).unwrap();
    assert!(std::ptr::eq(ctx.from, &buffers[0]));
    assert!(std::ptr::eq(ctx.to, &buffers[1]));
    assert!(std::ptr::eq(ctx.system_program, &buffers[2]));
}
