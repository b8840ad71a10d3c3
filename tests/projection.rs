use field_projection::{
    AggregateDecl, DeclShape, FieldDecl, FieldName, Handle, ProjectError, Projectable, Registry,
    Storage, WrapperKind,
};

fn decl(name: &str, ty: usize, pinned: bool, public: bool) -> FieldDecl {
    FieldDecl { name: name.to_string(), ty, pinned, public }
}

/// `Foo { #[pin] a, b }` and `Bar { #[pin] foo: Foo, pub c }`, all words.
fn setup(pin_support: bool) -> (Registry, usize, usize, usize) {
    let mut reg = Registry::new();
    let word = reg.scalar(8, 8, true).unwrap();
    let foo = reg
        .field(&AggregateDecl {
            shape: DeclShape::Struct,
            fields: vec![decl("a", word, true, false), decl("b", word, false, false)],
            has_drop: false,
            pin_support,
        })
        .unwrap();
    let bar = reg
        .field(&AggregateDecl {
            shape: DeclShape::Struct,
            fields: vec![decl("foo", foo, true, false), decl("c", word, false, true)],
            has_drop: false,
            pin_support,
        })
        .unwrap();
    (reg, word, foo, bar)
}

fn at(kind: WrapperKind, ty: usize, addr: usize) -> Handle {
    Handle { kind, ty, addr }
}

#[test]
fn projection_adds_the_field_offset() {
    let (reg, word, foo, bar) = setup(true);
    let root = at(WrapperKind::Ref, bar, 64);
    let f = root.project(&reg, FieldName::of("foo"), true).unwrap();
    assert_eq!(f, at(WrapperKind::Ref, foo, 64));
    let c = root.project(&reg, FieldName::of("c"), true).unwrap();
    assert_eq!(c, at(WrapperKind::Ref, word, 80));
    let b = f.project(&reg, FieldName::of("b"), true).unwrap();
    assert_eq!(b, at(WrapperKind::Ref, word, 72));
    let m = at(WrapperKind::Mut, bar, 64).project(&reg, FieldName::of("c"), true).unwrap();
    assert_eq!(m, at(WrapperKind::Mut, word, 80));
}

#[test]
fn uninit_kinds_are_kept() {
    let (reg, word, _foo, bar) = setup(true);
    let u = at(WrapperKind::Uninit, bar, 0).project(&reg, FieldName::of("c"), true).unwrap();
    assert_eq!(u, at(WrapperKind::Uninit, word, 16));
    let p = at(WrapperKind::PinMut, bar, 0).project(&reg, FieldName::of("c"), true).unwrap();
    assert_eq!(p.kind, WrapperKind::Mut);
    let q = at(WrapperKind::PinMut, bar, 0).project(&reg, FieldName::of("foo"), true).unwrap();
    let b = q.project(&reg, FieldName::of("b"), true).unwrap();
    assert_eq!(b, at(WrapperKind::Mut, word, 8));
}

#[test]
fn missing_field_is_refused() {
    let (reg, word, _foo, bar) = setup(true);
    let r = at(WrapperKind::Mut, bar, 0).project(&reg, FieldName::of("d"), true);
    assert_eq!(r, Err(ProjectError::NoSuchField));
    let s = at(WrapperKind::Mut, word, 0).project(&reg, FieldName::of("a"), true);
    assert_eq!(s, Err(ProjectError::NoSuchField));
}

#[test]
fn private_field_is_refused_from_outside() {
    let (reg, _word, _foo, bar) = setup(true);
    let root = at(WrapperKind::Mut, bar, 0);
    assert_eq!(root.project(&reg, FieldName::of("foo"), false), Err(ProjectError::NotVisible));
    assert!(root.project(&reg, FieldName::of("c"), false).is_ok());
}

#[test]
fn pin_projection_needs_pin_support() {
    let (reg, word, _foo, bar) = setup(false);
    let r = at(WrapperKind::PinMut, bar, 0).project(&reg, FieldName::of("c"), true);
    assert_eq!(r, Err(ProjectError::NoPinSupport));
    let m = at(WrapperKind::Mut, bar, 0).project(&reg, FieldName::of("c"), true);
    assert_eq!(m, Ok(at(WrapperKind::Mut, word, 16)));
}

#[test]
fn written_value_reads_back_through_a_new_projection() {
    let (reg, _word, _foo, bar) = setup(true);
    let mut mem = Storage::uninit(reg.types[bar].size);
    let root = at(WrapperKind::Mut, bar, 0);
    let c = root.project(&reg, FieldName::of("c"), true).unwrap();
    mem.write(&reg, c, &0xdead_beef_u64.to_le_bytes());
    let again = root.project(&reg, FieldName::of("c"), true).unwrap();
    assert_eq!(mem.read(&reg, again), Some(0xdead_beef_u64.to_le_bytes().to_vec()));
}

#[test]
fn uninit_write_leaves_siblings_unwritten() {
    let (reg, _word, _foo, bar) = setup(true);
    let mut mem = Storage::uninit(reg.types[bar].size);
    let root = at(WrapperKind::UninitMut, bar, 0);
    assert_eq!(mem.read(&reg, root), None);
    let c = root.project(&reg, FieldName::of("c"), true).unwrap();
    mem.write(&reg, c, &7u64.to_le_bytes());
    let foo = root.project(&reg, FieldName::of("foo"), true).unwrap();
    assert_eq!(mem.read(&reg, foo), None);
    assert!(mem.bytes[..16].iter().all(|b| b.is_none()));
    assert_eq!(mem.read(&reg, c), Some(7u64.to_le_bytes().to_vec()));
    assert_eq!(mem.read(&reg, root), None);
}
