use vstd::prelude::*;
use crate::field::{fnv1a_64_of, FieldInfo, FieldName, PinCapability};
use crate::layout::{
    align_up, check_pow2, checked_align_up, is_pow2, lemma_align_up, lemma_pow2_divides,
    lemma_pow2_positive, max_int,
};

verus! {

/// Whether a registered type is a leaf value or an aggregate of fields.
#[derive(Clone, Copy, Debug, PartialEq, Eq, Structural)]
pub enum TypeKind {
    Scalar,
    Aggregate,
}

/// What the registry records of one type.
#[derive(Debug)]
pub struct TypeInfo {
    pub kind: TypeKind,
    pub size: usize,
    pub align: usize,
    /// Whether a value of the type may be relocated before it is pinned.
    pub unpin: bool,
    /// Whether the aggregate asked for pin projection.
    pub pin_support: bool,
    /// Whether the aggregate defines a destructor.
    pub has_drop: bool,
    /// The aggregate's fields, in declaration order; none for a scalar.
    pub fields: Vec<FieldInfo>,
}

/// The declared shape of a type that asks for projection support.
#[derive(Clone, Copy, Debug, PartialEq, Eq, Structural)]
pub enum DeclShape {
    Struct,
    Enum,
    Union,
}

/// One field as it is declared.
#[derive(Clone, Debug)]
pub struct FieldDecl {
    pub name: String,
    /// Index of the field's type in the registry.
    pub ty: usize,
    /// Whether the field is marked pinned.
    pub pinned: bool,
    pub public: bool,
}

/// A type declaration that asks for projection support.
#[derive(Clone, Debug)]
pub struct AggregateDecl {
    pub shape: DeclShape,
    pub fields: Vec<FieldDecl>,
    pub has_drop: bool,
    /// Whether pin projection is asked for too.
    pub pin_support: bool,
}

/// Why the generation step refuses a declaration.
#[derive(Clone, Copy, Debug, PartialEq, Eq, Structural)]
pub enum GenError {
    /// Projection asked for on an enum or a union; holds the shape refused.
    NotAStruct(DeclShape),
    /// A field names a type that is not registered.
    UnknownFieldType,
    /// Pin projection asked for on a type with a destructor and a pinned field.
    DropWithPinnedField,
    /// The aggregate's size does not fit in `usize`.
    LayoutOverflow,
    /// A scalar's alignment is not a power of two, or its size not a multiple of it.
    BadScalarLayout,
}

impl GenError {
    /// The diagnostic that the generation step reports for this error.
    pub fn message(&self) -> (r: &'static str)
        ensures
            *self == GenError::NotAStruct(DeclShape::Enum) ==> r@
                == "#[derive(Field)] cannot be applied to enum"@,
            *self == GenError::NotAStruct(DeclShape::Union) ==> r@
                == "#[derive(Field)] cannot be applied to union"@,
            *self == GenError::NotAStruct(DeclShape::Struct) ==> r@
                == "#[derive(Field)] can only be applied to a struct"@,
            *self == GenError::UnknownFieldType ==> r@
                == "a field of the struct names a type that is not registered"@,
            *self == GenError::DropWithPinnedField ==> r@
                == "a struct with a pinned field cannot implement Drop"@,
            *self == GenError::LayoutOverflow ==> r@ == "the size of the struct does not fit in usize"@,
            *self == GenError::BadScalarLayout ==> r@
                == "the alignment must be a power of two that divides the size"@,
    {
        match self {
            GenError::NotAStruct(DeclShape::Enum) => "#[derive(Field)] cannot be applied to enum",
            GenError::NotAStruct(DeclShape::Union) => "#[derive(Field)] cannot be applied to union",
            GenError::NotAStruct(DeclShape::Struct) => "#[derive(Field)] can only be applied to a struct",
            GenError::UnknownFieldType => "a field of the struct names a type that is not registered",
            GenError::DropWithPinnedField => "a struct with a pinned field cannot implement Drop",
            GenError::LayoutOverflow => "the size of the struct does not fit in usize",
            GenError::BadScalarLayout => "the alignment must be a power of two that divides the size",
        }
    }
}

/// The table of registered types; a field may only name a type registered
/// before its aggregate.
pub struct Registry {
    pub types: Vec<TypeInfo>,
}

pub open spec fn pin_of(pinned: bool) -> PinCapability {
    if pinned {
        PinCapability::Pinned
    } else {
        PinCapability::Unpinned
    }
}

/// A field record is consistent with aggregate `i` of `types`.
pub open spec fn field_wf(types: Seq<TypeInfo>, i: int, f: FieldInfo) -> bool {
    &&& 0 <= f.ty < i
    &&& f.id.hash == fnv1a_64_of(f.name@)
    &&& f.offset as int % types[f.ty as int].align as int == 0
    &&& types[i].align as int % types[f.ty as int].align as int == 0
    &&& f.offset + types[f.ty as int].size <= types[i].size
}

/// Each field ends before the next one starts.
pub open spec fn fields_disjoint(types: Seq<TypeInfo>, fs: Seq<FieldInfo>) -> bool {
    forall|j: int, k: int|
        0 <= j < k < fs.len() ==> #[trigger] fs[j].offset + types[fs[j].ty as int].size
            <= #[trigger] fs[k].offset
}

/// All fields, or only the pinned ones, have relocatable types.
pub open spec fn fields_relocatable(types: Seq<TypeInfo>, fs: Seq<FieldInfo>, pinned_only: bool) -> bool {
    forall|j: int|
        0 <= j < fs.len() && (!pinned_only || fs[j].pin == PinCapability::Pinned)
            ==> types[#[trigger] fs[j].ty as int].unpin
}

pub open spec fn has_pinned_field(fs: Seq<FieldInfo>) -> bool {
    exists|j: int| 0 <= j < fs.len() && #[trigger] fs[j].pin == PinCapability::Pinned
}

/// Type `i` of `types` is consistent with the types before it.
pub open spec fn type_wf(types: Seq<TypeInfo>, i: int) -> bool {
    let t = types[i];
    &&& is_pow2(t.align as int)
    &&& t.size as int % t.align as int == 0
    &&& match t.kind {
        TypeKind::Scalar => t.fields@.len() == 0 && !t.pin_support && !t.has_drop,
        TypeKind::Aggregate => {
            &&& forall|j: int| 0 <= j < t.fields@.len() ==> field_wf(types, i, #[trigger] t.fields@[j])
            &&& fields_disjoint(types, t.fields@)
            &&& t.unpin == fields_relocatable(types, t.fields@, t.pin_support)
            &&& !(t.pin_support && t.has_drop && has_pinned_field(t.fields@))
        },
    }
}

/// Where the fields of a declaration end when laid out in order, each at the
/// first offset aligned for its type, up to (not including) field `k`.
pub open spec fn decl_end(types: Seq<TypeInfo>, fs: Seq<FieldDecl>, k: int) -> int
    decreases k,
{
    if k <= 0 {
        0
    } else {
        align_up(decl_end(types, fs, k - 1), types[fs[k - 1].ty as int].align as int)
            + types[fs[k - 1].ty as int].size
    }
}

/// The offset of field `k` of a declaration.
pub open spec fn decl_offset(types: Seq<TypeInfo>, fs: Seq<FieldDecl>, k: int) -> int {
    align_up(decl_end(types, fs, k), types[fs[k].ty as int].align as int)
}

/// The largest alignment among the first `k` fields, and at least one.
pub open spec fn decl_align(types: Seq<TypeInfo>, fs: Seq<FieldDecl>, k: int) -> int
    decreases k,
{
    if k <= 0 {
        1
    } else {
        max_int(decl_align(types, fs, k - 1), types[fs[k - 1].ty as int].align as int)
    }
}

/// The size of the laid-out aggregate: its end rounded up to its alignment.
pub open spec fn decl_size(types: Seq<TypeInfo>, fs: Seq<FieldDecl>) -> int {
    align_up(decl_end(types, fs, fs.len() as int), decl_align(types, fs, fs.len() as int))
}

pub open spec fn decl_types_known(types: Seq<TypeInfo>, fs: Seq<FieldDecl>) -> bool {
    forall|j: int| 0 <= j < fs.len() ==> (#[trigger] fs[j]).ty < types.len()
}

pub open spec fn decl_has_pinned(fs: Seq<FieldDecl>) -> bool {
    exists|j: int| 0 <= j < fs.len() && (#[trigger] fs[j]).pinned
}

/// The derived relocatability of a declared aggregate. With pin support it is
/// the conjunction over the pinned fields only, the others standing as always
/// relocatable; without, over all fields.
pub open spec fn decl_unpin(types: Seq<TypeInfo>, fs: Seq<FieldDecl>, pin_support: bool) -> bool {
    forall|j: int|
        0 <= j < fs.len() && (!pin_support || fs[j].pinned) ==> types[(#[trigger] fs[j]).ty as int].unpin
}

/// The outcome of the pin policy on a declaration whose field types are known.
pub open spec fn pin_outcome(types: Seq<TypeInfo>, decl: AggregateDecl) -> Result<bool, GenError> {
    if decl.shape != DeclShape::Struct {
        Err(GenError::NotAStruct(decl.shape))
    } else if decl.pin_support && decl.has_drop && decl_has_pinned(decl.fields@) {
        Err(GenError::DropWithPinnedField)
    } else {
        Ok(decl_unpin(types, decl.fields@, decl.pin_support))
    }
}

/// Which error, if any, the generation step gives for a declaration.
pub open spec fn field_outcome(types: Seq<TypeInfo>, decl: AggregateDecl) -> Result<(), GenError> {
    if decl.shape != DeclShape::Struct {
        Err(GenError::NotAStruct(decl.shape))
    } else if !decl_types_known(types, decl.fields@) {
        Err(GenError::UnknownFieldType)
    } else if pin_outcome(types, decl) is Err {
        Err(GenError::DropWithPinnedField)
    } else if decl_size(types, decl.fields@) > usize::MAX {
        Err(GenError::LayoutOverflow)
    } else {
        Ok(())
    }
}

/// Every type of the table is consistent with those before it.
pub open spec fn types_wf(types: Seq<TypeInfo>) -> bool {
    forall|i: int| 0 <= i < types.len() ==> type_wf(types, i)
}

impl Registry {
    /// Every registered type is consistent with those before it.
    pub open spec fn wf(&self) -> bool {
        types_wf(self.types@)
    }

    /// An empty registry.
    pub fn new() -> (r: Registry)
        ensures
            r.wf(),
            r.types@.len() == 0,
    {
        Registry { types: Vec::new() }
    }

    /// Registers a scalar type of the given size, alignment and relocatability.
    pub fn scalar(&mut self, size: usize, align: usize, unpin: bool) -> (r: Result<usize, GenError>)
        requires
            old(self).wf(),
        ensures
            final(self).wf(),
            r is Err <==> !is_pow2(align as int) || size as int % align as int != 0,
            r matches Err(e) ==> e == GenError::BadScalarLayout && *final(self) == *old(self),
            r matches Ok(i) ==> {
                &&& i == old(self).types@.len()
                &&& final(self).types@.len() == i + 1
                &&& final(self).types@.subrange(0, i as int) == old(self).types@
                &&& final(self).types@[i as int].kind == TypeKind::Scalar
                &&& final(self).types@[i as int].size == size
                &&& final(self).types@[i as int].align == align
                &&& final(self).types@[i as int].unpin == unpin
            },
    {
        if !check_pow2(align) || size % align != 0 {
            return Err(GenError::BadScalarLayout);
        }
        let i = self.types.len();
        let ghost before = self.types@;
        self.types.push(
            TypeInfo {
                kind: TypeKind::Scalar,
                size,
                align,
                unpin,
                pin_support: false,
                has_drop: false,
                fields: Vec::new(),
            },
        );
        proof {
            lemma_push_keeps_wf(before, self.types@);
            assert(self.types@.subrange(0, i as int) =~= before);
        }
        Ok(i)
    }

    /// The pin policy for a declaration: refuses an enum or a union, and a
    /// destructor beside a pinned field when pin projection is asked for, and
    /// otherwise derives the aggregate's relocatability from its fields.
    pub fn pin_field(&self, decl: &AggregateDecl) -> (r: Result<bool, GenError>)
        requires
            decl_types_known(self.types@, decl.fields@),
        ensures
            r == pin_outcome(self.types@, *decl),
    {
        if decl.shape != DeclShape::Struct {
            return Err(GenError::NotAStruct(decl.shape));
        }
        let n = decl.fields.len();
        let mut any_pinned = false;
        let mut unpin = true;
        let mut j: usize = 0;
        while j < n
            invariant
                j <= n,
                n == decl.fields@.len(),
                decl_types_known(self.types@, decl.fields@),
                any_pinned == exists|k: int| 0 <= k < j && (#[trigger] decl.fields@[k]).pinned,
                unpin == forall|k: int|
                    0 <= k < j && (!decl.pin_support || decl.fields@[k].pinned)
                        ==> self.types@[(#[trigger] decl.fields@[k]).ty as int].unpin,
            decreases n - j,
        {
            let fd = &decl.fields[j];
            if fd.pinned {
                any_pinned = true;
            }
            if !decl.pin_support || fd.pinned {
                // an unpinned field stands as always relocatable
                unpin = unpin && self.types[fd.ty].unpin;
            }
            j += 1;
        }
        if decl.pin_support && decl.has_drop && any_pinned {
            Err(GenError::DropWithPinnedField)
        } else {
            Ok(unpin)
        }
    }

    /// The generation step: registers an aggregate with a mapping record for
    /// each field, laid out in declaration order, each field at the first
    /// offset aligned for its type.
    pub fn field(&mut self, decl: &AggregateDecl) -> (r: Result<usize, GenError>)
        requires
            old(self).wf(),
        ensures
            final(self).wf(),
            r is Ok <==> field_outcome(old(self).types@, *decl) is Ok,
            r matches Err(e) ==> field_outcome(old(self).types@, *decl) == Err::<(), GenError>(e)
                && *final(self) == *old(self),
            r matches Ok(i) ==> {
                let types = old(self).types@;
                let fs = decl.fields@;
                let t = final(self).types@[i as int];
                &&& i == types.len()
                &&& final(self).types@.len() == i + 1
                &&& final(self).types@.subrange(0, i as int) == types
                &&& t.kind == TypeKind::Aggregate
                &&& t.size == decl_size(types, fs)
                &&& t.align == decl_align(types, fs, fs.len() as int)
                &&& t.unpin == decl_unpin(types, fs, decl.pin_support)
                &&& t.pin_support == decl.pin_support
                &&& t.has_drop == decl.has_drop
                &&& t.fields@.len() == fs.len()
                &&& forall|j: int| 0 <= j < fs.len() ==> {
                    let f = #[trigger] t.fields@[j];
                    &&& f.name@ == fs[j].name@
                    &&& f.id.hash == fnv1a_64_of(fs[j].name@)
                    &&& f.ty == fs[j].ty
                    &&& f.offset == decl_offset(types, fs, j)
                    &&& f.pin == pin_of(fs[j].pinned)
                    &&& f.public == fs[j].public
                }
            },
    {
        if decl.shape != DeclShape::Struct {
            return Err(GenError::NotAStruct(decl.shape));
        }
        let n = decl.fields.len();
        let mut j: usize = 0;
        while j < n
            invariant
                j <= n,
                n == decl.fields@.len(),
                *self == *old(self),
                old(self).wf(),
                decl.shape == DeclShape::Struct,
                forall|k: int| 0 <= k < j ==> (#[trigger] decl.fields@[k]).ty < self.types@.len(),
            decreases n - j,
        {
            if decl.fields[j].ty >= self.types.len() {
                assert(!decl_types_known(self.types@, decl.fields@));
                return Err(GenError::UnknownFieldType);
            }
            j += 1;
        }
        let unpin = match self.pin_field(decl) {
            Ok(u) => u,
            Err(e) => {
                return Err(e);
            },
        };
        let ghost types = self.types@;
        let ghost fs = decl.fields@;
        let mut fields: Vec<FieldInfo> = Vec::new();
        let mut end: usize = 0;
        let mut max_align: usize = 1;
        let mut j: usize = 0;
        while j < n
            invariant
                j <= n,
                n == fs.len(),
                fs == decl.fields@,
                types == self.types@,
                old(self).wf(),
                *self == *old(self),
                decl.shape == DeclShape::Struct,
                pin_outcome(types, *decl) is Ok,
                decl_types_known(types, fs),
                end == decl_end(types, fs, j as int),
                max_align == decl_align(types, fs, j as int),
                fields@.len() == j,
                forall|k: int| 0 <= k < j ==> {
                    let f = #[trigger] fields@[k];
                    &&& f.name@ == fs[k].name@
                    &&& f.id.hash == fnv1a_64_of(fs[k].name@)
                    &&& f.ty == fs[k].ty
                    &&& f.offset == decl_offset(types, fs, k)
                    &&& f.pin == pin_of(fs[k].pinned)
                    &&& f.public == fs[k].public
                },
            decreases n - j,
        {
            let fd = &decl.fields[j];
            let size = self.types[fd.ty].size;
            let align = self.types[fd.ty].align;
            proof {
                assert(fs[j as int].ty < types.len());
                assert(type_wf(types, fd.ty as int));
                lemma_decl_end_mono(types, fs, j as int + 1, n as int);
                lemma_decl_size_covers_end(types, fs);
                assert(decl_end(types, fs, j as int + 1) == decl_offset(types, fs, j as int) + size);
            }
            let offset = match checked_align_up(end, align) {
                Some(o) => o,
                None => {
                    return Err(GenError::LayoutOverflow);
                },
            };
            let next = match offset.checked_add(size) {
                Some(e) => e,
                None => {
                    return Err(GenError::LayoutOverflow);
                },
            };
            if align > max_align {
                max_align = align;
            }
            let pin = if fd.pinned {
                PinCapability::Pinned
            } else {
                PinCapability::Unpinned
            };
            let id = FieldName::of(fd.name.as_str());
            fields.push(
                FieldInfo { name: fd.name.clone(), id, ty: fd.ty, offset, pin, public: fd.public },
            );
            end = next;
            j += 1;
        }
        proof {
            lemma_decl_size_covers_end(types, fs);
        }
        let size = match checked_align_up(end, max_align) {
            Some(s) => s,
            None => {
                return Err(GenError::LayoutOverflow);
            },
        };
        let i = self.types.len();
        self.types.push(
            TypeInfo {
                kind: TypeKind::Aggregate,
                size,
                align: max_align,
                unpin,
                pin_support: decl.pin_support,
                has_drop: decl.has_drop,
                fields,
            },
        );
        proof {
            let after = self.types@;
            lemma_new_aggregate_wf(types, after, fs, decl.pin_support, decl.has_drop);
            lemma_push_keeps_wf(types, after);
            assert(after.subrange(0, i as int) =~= types);
        }
        Ok(i)
    }
}

/// The laid-out end only grows from one field to the next.
proof fn lemma_decl_end_mono(types: Seq<TypeInfo>, fs: Seq<FieldDecl>, a: int, b: int)
    requires
        0 <= a <= b <= fs.len(),
        decl_types_known(types, fs),
        forall|i: int| 0 <= i < types.len() ==> type_wf(types, i),
    ensures
        0 <= decl_end(types, fs, a) <= decl_end(types, fs, b),
    decreases b,
{
    if a < b {
        lemma_decl_end_mono(types, fs, a, b - 1);
        assert(fs[b - 1].ty < types.len());
        assert(type_wf(types, fs[b - 1].ty as int));
        lemma_align_up(decl_end(types, fs, b - 1), types[fs[b - 1].ty as int].align as int);
    } else if a > 0 {
        assert(fs[a - 1].ty < types.len());
        assert(type_wf(types, fs[a - 1].ty as int));
        lemma_decl_end_mono(types, fs, a - 1, a - 1);
        lemma_align_up(decl_end(types, fs, a - 1), types[fs[a - 1].ty as int].align as int);
    }
}

/// The combined alignment is a power of two that every field's alignment divides.
proof fn lemma_decl_align(types: Seq<TypeInfo>, fs: Seq<FieldDecl>, k: int)
    requires
        0 <= k <= fs.len(),
        decl_types_known(types, fs),
        forall|i: int| 0 <= i < types.len() ==> type_wf(types, i),
    ensures
        is_pow2(decl_align(types, fs, k)),
        forall|j: int|
            0 <= j < k ==> decl_align(types, fs, k) % types[(#[trigger] fs[j]).ty as int].align as int
                == 0,
    decreases k,
{
    if k > 0 {
        lemma_decl_align(types, fs, k - 1);
        assert(fs[k - 1].ty < types.len());
        assert(type_wf(types, fs[k - 1].ty as int));
        let m = decl_align(types, fs, k);
        assert forall|j: int| 0 <= j < k implies m % types[(#[trigger] fs[j]).ty as int].align as int
            == 0 by {
            assert(fs[j].ty < types.len());
            assert(type_wf(types, fs[j].ty as int));
            let a = types[fs[j].ty as int].align as int;
            if j < k - 1 {
                assert(decl_align(types, fs, k - 1) % a == 0);
                assert(decl_align(types, fs, k - 1) >= a) by {
                    lemma_pow2_positive(decl_align(types, fs, k - 1));
                    lemma_pow2_positive(a);
                    vstd::arithmetic::div_mod::lemma_mod_is_zero(decl_align(types, fs, k - 1) as nat, a as nat);
                }
            }
            lemma_pow2_divides(a, m);
        }
    }
}

/// The laid-out size is at least where the last field ends.
proof fn lemma_decl_size_covers_end(types: Seq<TypeInfo>, fs: Seq<FieldDecl>)
    requires
        decl_types_known(types, fs),
        forall|i: int| 0 <= i < types.len() ==> type_wf(types, i),
    ensures
        decl_end(types, fs, fs.len() as int) <= decl_size(types, fs),
        decl_size(types, fs) % decl_align(types, fs, fs.len() as int) == 0,
        decl_align(types, fs, fs.len() as int) > 0,
{
    lemma_decl_align(types, fs, fs.len() as int);
    lemma_decl_end_mono(types, fs, 0, fs.len() as int);
    lemma_align_up(decl_end(types, fs, fs.len() as int), decl_align(types, fs, fs.len() as int));
}

/// An aggregate laid out from a declaration is consistent with the types before it.
proof fn lemma_new_aggregate_wf(
    types: Seq<TypeInfo>,
    after: Seq<TypeInfo>,
    fs: Seq<FieldDecl>,
    pin_support: bool,
    has_drop: bool,
)
    requires
        forall|i: int| 0 <= i < types.len() ==> type_wf(types, i),
        decl_types_known(types, fs),
        after.len() == types.len() + 1,
        forall|i: int| 0 <= i < types.len() ==> after[i] == types[i],
        ({
            let t = after[types.len() as int];
            &&& t.kind == TypeKind::Aggregate
            &&& t.size == decl_size(types, fs)
            &&& t.align == decl_align(types, fs, fs.len() as int)
            &&& t.unpin == decl_unpin(types, fs, pin_support)
            &&& t.pin_support == pin_support
            &&& t.has_drop == has_drop
            &&& !(pin_support && has_drop && decl_has_pinned(fs))
            &&& t.fields@.len() == fs.len()
            &&& forall|k: int| 0 <= k < fs.len() ==> {
                let f = #[trigger] t.fields@[k];
                &&& f.id.hash == fnv1a_64_of(f.name@)
                &&& f.name@ == fs[k].name@
                &&& f.ty == fs[k].ty
                &&& f.offset == decl_offset(types, fs, k)
                &&& f.pin == pin_of(fs[k].pinned)
            }
        }),
    ensures
        type_wf(after, types.len() as int),
{
    let i = types.len() as int;
    let t = after[i];
    let n = fs.len() as int;
    lemma_decl_size_covers_end(types, fs);
    lemma_decl_align(types, fs, n);
    assert forall|j: int| 0 <= j < n implies field_wf(after, i, #[trigger] t.fields@[j]) by {
        assert(fs[j].ty < types.len());
        assert(type_wf(types, fs[j].ty as int));
        lemma_decl_end_mono(types, fs, 0, j);
        lemma_align_up(decl_end(types, fs, j), types[fs[j].ty as int].align as int);
        lemma_decl_end_mono(types, fs, j + 1, n);
    }
    assert forall|j: int, k: int|
        0 <= j < k < n implies #[trigger] t.fields@[j].offset + after[t.fields@[j].ty as int].size
        <= #[trigger] t.fields@[k].offset by {
        assert(fs[k].ty < types.len());
        assert(type_wf(types, fs[k].ty as int));
        lemma_decl_end_mono(types, fs, j + 1, k);
        lemma_align_up(decl_end(types, fs, k), types[fs[k].ty as int].align as int);
    }
    assert forall|j: int| 0 <= j < n implies #[trigger] after[t.fields@[j].ty as int] == types[fs[j].ty as int] by {
        assert(fs[j].ty < types.len());
    }
    assert(t.unpin == fields_relocatable(after, t.fields@, pin_support)) by {
        if t.unpin {
            assert forall|j: int|
                0 <= j < n && (!pin_support || t.fields@[j].pin == PinCapability::Pinned) implies after[(
                #[trigger] t.fields@[j]).ty as int].unpin by {
                assert(types[fs[j].ty as int].unpin);
            }
        } else {
            let j = choose|j: int|
                0 <= j < n && (!pin_support || fs[j].pinned) && !types[(#[trigger] fs[j]).ty as int].unpin;
            assert(!after[t.fields@[j].ty as int].unpin);
        }
    }
    if pin_support && has_drop {
        assert(!has_pinned_field(t.fields@)) by {
            if has_pinned_field(t.fields@) {
                let j = choose|j: int| 0 <= j < n && #[trigger] t.fields@[j].pin == PinCapability::Pinned;
                assert(fs[j].pinned);
            }
        }
    }
}

/// A struct that asks for pin projection, defines a destructor and has a
/// pinned field is refused, whatever its layout.
pub proof fn lemma_drop_with_pinned_field_refused(types: Seq<TypeInfo>, decl: AggregateDecl)
    requires
        decl.shape == DeclShape::Struct,
        decl_types_known(types, decl.fields@),
        decl.pin_support,
        decl.has_drop,
        decl_has_pinned(decl.fields@),
    ensures
        field_outcome(types, decl) == Err::<(), GenError>(GenError::DropWithPinnedField),
{
}

/// Types already registered stay consistent when another is added after them.
proof fn lemma_push_keeps_wf(before: Seq<TypeInfo>, after: Seq<TypeInfo>)
    requires
        forall|i: int| 0 <= i < before.len() ==> type_wf(before, i),
        after.len() == before.len() + 1,
        forall|i: int| 0 <= i < before.len() ==> after[i] == before[i],
        type_wf(after, before.len() as int),
    ensures
        forall|i: int| 0 <= i < after.len() ==> type_wf(after, i),
{
    assert forall|i: int| 0 <= i < after.len() implies type_wf(after, i) by {
        if i < before.len() {
            assert(type_wf(before, i));
            let t = after[i];
            if t.kind == TypeKind::Aggregate {
                assert forall|j: int| 0 <= j < t.fields@.len() implies field_wf(
                    after,
                    i,
                    #[trigger] t.fields@[j],
                ) by {
                    assert(field_wf(before, i, t.fields@[j]));
                }
                assert forall|j: int, k: int|
                    0 <= j < k < t.fields@.len() implies #[trigger] t.fields@[j].offset
                    + after[t.fields@[j].ty as int].size <= #[trigger] t.fields@[k].offset by {
                    assert(field_wf(before, i, t.fields@[j]));
                }
                assert forall|j: int|
                    0 <= j < t.fields@.len() implies #[trigger] after[t.fields@[j].ty as int]
                    == before[t.fields@[j].ty as int] by {
                    assert(field_wf(before, i, t.fields@[j]));
                }
                assert(fields_relocatable(after, t.fields@, t.pin_support) == fields_relocatable(
                    before,
                    t.fields@,
                    t.pin_support,
                ));
            }
        }
    }
}

} // verus!
