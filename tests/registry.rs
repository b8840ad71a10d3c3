use field_projection::{
    field_name_hash, AggregateDecl, DeclShape, Field, FieldDecl, FieldName, GenError,
    PinCapability, PinField, Registry, TypeKind, WrapperKind, FNV_OFFSET_BASIS,
};

fn decl(name: &str, ty: usize, pinned: bool) -> FieldDecl {
    FieldDecl { name: name.to_string(), ty, pinned, public: true }
}

fn strukt(fields: Vec<FieldDecl>, has_drop: bool, pin_support: bool) -> AggregateDecl {
    AggregateDecl { shape: DeclShape::Struct, fields, has_drop, pin_support }
}

#[test]
fn name_hash_is_fnv1a_64() {
    assert_eq!(field_name_hash("foobar"), 0x85944171f73967e8);
    assert_eq!(FieldName::of("foobar").hash, 0x85944171f73967e8);
    assert_eq!(field_name_hash(""), FNV_OFFSET_BASIS);
    assert_eq!(field_name_hash("a"), 0xaf63dc4c8601ec8c);
    assert_ne!(FieldName::of("a"), FieldName::of("b"));
}

#[test]
fn layout_places_fields_in_order_with_padding() {
    let mut reg = Registry::new();
    let byte = reg.scalar(1, 1, true).unwrap();
    let word = reg.scalar(8, 8, true).unwrap();
    let s = reg
        .field(&strukt(vec![decl("x", byte, false), decl("y", word, false), decl("z", byte, false)], false, false))
        .unwrap();
    let t = &reg.types[s];
    assert_eq!(t.kind, TypeKind::Aggregate);
    assert_eq!(t.fields.iter().map(|f| f.offset).collect::<Vec<_>>(), vec![0, 8, 16]);
    assert_eq!(t.size, 24);
    assert_eq!(t.align, 8);
    assert_eq!(t.fields[1].name, "y");
    assert_eq!(t.fields[1].id, FieldName::of("y"));
    assert_eq!(t.fields[1].ty, word);
}

#[test]
fn empty_struct_has_size_zero() {
    let mut reg = Registry::new();
    let s = reg.field(&strukt(vec![], false, true)).unwrap();
    assert_eq!(reg.types[s].size, 0);
    assert_eq!(reg.types[s].align, 1);
    assert!(reg.types[s].unpin);
}

#[test]
fn layout_that_does_not_fit_is_refused() {
    let mut reg = Registry::new();
    let big = reg.scalar(usize::MAX - 7, 8, true).unwrap();
    let r = reg.field(&strukt(vec![decl("a", big, false), decl("b", big, false)], false, false));
    assert_eq!(r, Err(GenError::LayoutOverflow));
    assert_eq!(reg.types.len(), 1);
    assert!(reg.field(&strukt(vec![decl("a", big, false)], false, false)).is_ok());
}

#[test]
fn enum_and_union_are_refused() {
    let mut reg = Registry::new();
    let word = reg.scalar(8, 8, true).unwrap();
    for shape in [DeclShape::Enum, DeclShape::Union] {
        let d = AggregateDecl { shape, fields: vec![decl("a", word, false)], has_drop: false, pin_support: false };
        assert_eq!(reg.field(&d), Err(GenError::NotAStruct(shape)));
    }
    assert_eq!(reg.types.len(), 1);
}

#[test]
fn pin_support_on_enum_or_union_is_refused() {
    let mut reg = Registry::new();
    let word = reg.scalar(8, 8, true).unwrap();
    let wide = reg.scalar(4, 4, true).unwrap();
    let u = AggregateDecl {
        shape: DeclShape::Union,
        fields: vec![decl("a", wide, false), decl("b", word, false)],
        has_drop: false,
        pin_support: true,
    };
    assert_eq!(reg.pin_field(&u), Err(GenError::NotAStruct(DeclShape::Union)));
    let e = AggregateDecl { shape: DeclShape::Enum, fields: vec![], has_drop: false, pin_support: true };
    assert_eq!(reg.pin_field(&e), Err(GenError::NotAStruct(DeclShape::Enum)));
}

#[test]
fn refusals_carry_their_messages() {
    let mut reg = Registry::new();
    let e = AggregateDecl { shape: DeclShape::Enum, fields: vec![], has_drop: false, pin_support: false };
    let err = reg.field(&e).unwrap_err();
    assert_eq!(err.message(), "#[derive(Field)] cannot be applied to enum");
    let u = AggregateDecl { shape: DeclShape::Union, fields: vec![], has_drop: false, pin_support: true };
    let err = reg.field(&u).unwrap_err();
    assert_eq!(err.message(), "#[derive(Field)] cannot be applied to union");
    assert_eq!(reg.pin_field(&u).unwrap_err().message(), "#[derive(Field)] cannot be applied to union");
    assert_eq!(
        GenError::DropWithPinnedField.message(),
        "a struct with a pinned field cannot implement Drop"
    );
}

#[test]
fn unknown_field_type_is_refused() {
    let mut reg = Registry::new();
    let word = reg.scalar(8, 8, true).unwrap();
    let r = reg.field(&strukt(vec![decl("a", word, false), decl("b", 7, false)], false, false));
    assert_eq!(r, Err(GenError::UnknownFieldType));
}

#[test]
fn destructor_beside_pinned_field_is_refused() {
    let mut reg = Registry::new();
    let word = reg.scalar(8, 8, true).unwrap();
    let pinned = strukt(vec![decl("a", word, true), decl("b", word, false)], true, true);
    assert_eq!(reg.pin_field(&pinned), Err(GenError::DropWithPinnedField));
    assert_eq!(reg.field(&pinned), Err(GenError::DropWithPinnedField));
    assert_eq!(reg.types.len(), 1);
    // no pinned field, or no pin projection asked for: accepted
    assert!(reg.field(&strukt(vec![decl("a", word, false)], true, true)).is_ok());
    assert!(reg.field(&strukt(vec![decl("a", word, true)], true, false)).is_ok());
}

#[test]
fn bad_scalar_layout_is_refused() {
    let mut reg = Registry::new();
    assert_eq!(reg.scalar(12, 3, true), Err(GenError::BadScalarLayout));
    assert_eq!(reg.scalar(12, 8, true), Err(GenError::BadScalarLayout));
    assert_eq!(reg.scalar(4, 0, true), Err(GenError::BadScalarLayout));
    assert_eq!(reg.types.len(), 0);
    assert_eq!(reg.scalar(0, 1, false), Ok(0));
    assert_eq!(reg.scalar(16, 4, true), Ok(1));
}

#[test]
fn relocatability_follows_pinned_fields_only() {
    let mut reg = Registry::new();
    let word = reg.scalar(8, 8, true).unwrap();
    let stuck = reg.scalar(0, 1, false).unwrap();
    let pinned = reg.field(&strukt(vec![decl("w", word, false), decl("p", stuck, true)], false, true)).unwrap();
    assert!(!reg.types[pinned].unpin);
    let unpinned = reg.field(&strukt(vec![decl("w", word, false), decl("p", stuck, false)], false, true)).unwrap();
    assert!(reg.types[unpinned].unpin);
    let plain = reg.field(&strukt(vec![decl("w", word, false), decl("p", stuck, false)], false, false)).unwrap();
    assert!(!reg.types[plain].unpin);
    let outer = reg.field(&strukt(vec![decl("inner", pinned, true)], false, true)).unwrap();
    assert!(!reg.types[outer].unpin);
    let loose = reg.field(&strukt(vec![decl("inner", pinned, false)], false, true)).unwrap();
    assert!(reg.types[loose].unpin);
    assert_eq!(reg.pin_field(&strukt(vec![decl("p", stuck, false)], false, true)), Ok(true));
    assert_eq!(reg.pin_field(&strukt(vec![decl("p", stuck, true)], false, true)), Ok(false));
}

#[test]
fn field_records_map_and_pin() {
    let mut reg = Registry::new();
    let word = reg.scalar(8, 8, true).unwrap();
    let s = reg.field(&strukt(vec![decl("a", word, true), decl("b", word, false)], false, true)).unwrap();
    let a = &reg.types[s].fields[0];
    let b = &reg.types[s].fields[1];
    assert_eq!(a.map(100), 100);
    assert_eq!(b.map(100), 108);
    assert_eq!(a.pin, PinCapability::Pinned);
    assert_eq!(b.pin, PinCapability::Unpinned);
    assert_eq!(a.pin_wrapper(), WrapperKind::PinMut);
    assert_eq!(b.pin_wrapper(), WrapperKind::Mut);
}

#[test]
fn lookup_takes_the_first_field_of_a_name() {
    let mut reg = Registry::new();
    let word = reg.scalar(8, 8, true).unwrap();
    let s = reg.field(&strukt(vec![decl("a", word, false), decl("b", word, false), decl("b", word, false)], false, false)).unwrap();
    assert_eq!(reg.lookup_field(s, FieldName::of("b")), Some(1));
    assert_eq!(reg.lookup_field(s, FieldName::of("a")), Some(0));
    assert_eq!(reg.lookup_field(s, FieldName::of("c")), None);
    assert_eq!(reg.lookup_field(word, FieldName::of("a")), None);
}
