use vstd::prelude::*;
use crate::field::{Field, FieldInfo, FieldName, PinCapability, PinField};
use crate::layout::{lemma_aligned_sum, lemma_pow2_positive};
use crate::registry::{field_wf, type_wf, types_wf, Registry, TypeInfo, TypeKind};

verus! {

/// The kinds of handle that can be projected.
#[derive(Clone, Copy, Debug, PartialEq, Eq, Structural)]
pub enum WrapperKind {
    /// A shared reference.
    Ref,
    /// An exclusive reference.
    Mut,
    /// An exclusive reference whose referent will not move again.
    PinMut,
    /// A shared handle to storage that may not hold a value yet.
    Uninit,
    /// An exclusive handle to storage that may not hold a value yet.
    UninitMut,
}

/// A typed handle: a wrapper kind, the registry index of the type it points
/// to, and the address.
#[derive(Clone, Copy, Debug, PartialEq, Eq, Structural)]
pub struct Handle {
    pub kind: WrapperKind,
    pub ty: usize,
    pub addr: usize,
}

/// Why a projection is refused.
#[derive(Clone, Copy, Debug, PartialEq, Eq, Structural)]
pub enum ProjectError {
    /// The type has no field of that name.
    NoSuchField,
    /// The field may not be named from where the projection is asked for.
    NotVisible,
    /// Pin projection was asked for on a type that did not ask for it.
    NoPinSupport,
}

/// The handle points to storage sized and aligned for its type, and the whole
/// of that storage is addressable.
pub open spec fn handle_valid(types: Seq<TypeInfo>, h: Handle) -> bool {
    &&& h.ty < types.len()
    &&& h.addr + types[h.ty as int].size <= usize::MAX
    &&& h.addr as int % types[h.ty as int].align as int == 0
}

/// The first field from index `k` on whose name has the given hash.
pub open spec fn lookup_from(fs: Seq<FieldInfo>, hash: u64, k: int) -> Option<int>
    decreases fs.len() - k,
{
    if k < 0 || k >= fs.len() {
        None
    } else if fs[k].id.hash == hash {
        Some(k)
    } else {
        lookup_from(fs, hash, k + 1)
    }
}

/// The first field whose name has the given hash.
pub open spec fn lookup(fs: Seq<FieldInfo>, hash: u64) -> Option<int> {
    lookup_from(fs, hash, 0)
}

/// The kind of handle a projection gives: a pin guarantee survives only into
/// a pinned field, and every other kind is kept.
pub open spec fn kind_after(kind: WrapperKind, pin: PinCapability) -> WrapperKind {
    if kind == WrapperKind::PinMut && pin == PinCapability::Unpinned {
        WrapperKind::Mut
    } else {
        kind
    }
}

/// The outcome of projecting handle `h` to the field named by `f`, asked for
/// from inside the aggregate's own module or not.
pub open spec fn projected(types: Seq<TypeInfo>, h: Handle, f: FieldName, inside: bool) -> Result<
    Handle,
    ProjectError,
> {
    let t = types[h.ty as int];
    match lookup(t.fields@, f.hash) {
        None => Err(ProjectError::NoSuchField),
        Some(j) => {
            let fd = t.fields@[j];
            if !fd.public && !inside {
                Err(ProjectError::NotVisible)
            } else if h.kind == WrapperKind::PinMut && !t.pin_support {
                Err(ProjectError::NoPinSupport)
            } else {
                Ok(Handle { kind: kind_after(h.kind, fd.pin), ty: fd.ty, addr: (h.addr + fd.offset) as usize })
            }
        },
    }
}

proof fn lemma_lookup_from_range(fs: Seq<FieldInfo>, hash: u64, k: int)
    requires
        0 <= k,
    ensures
        lookup_from(fs, hash, k) matches Some(j) ==> k <= j < fs.len() && fs[j].id.hash == hash,
    decreases fs.len() - k,
{
    if k < fs.len() && fs[k].id.hash != hash {
        lemma_lookup_from_range(fs, hash, k + 1);
    }
}

impl Registry {
    /// The index of the first field of type `ty` whose name is `name`.
    pub fn lookup_field(&self, ty: usize, name: FieldName) -> (r: Option<usize>)
        requires
            ty < self.types@.len(),
        ensures
            r matches Some(j) ==> lookup(self.types@[ty as int].fields@, name.hash) == Some(j as int),
            r is None ==> lookup(self.types@[ty as int].fields@, name.hash) is None,
    {
        let fields = &self.types[ty].fields;
        let n = fields.len();
        let mut j: usize = 0;
        while j < n
            invariant
                j <= n,
                n == fields@.len(),
                *fields == self.types@[ty as int].fields,
                lookup(fields@, name.hash) == lookup_from(fields@, name.hash, j as int),
            decreases n - j,
        {
            if fields[j].id.hash == name.hash {
                return Some(j);
            }
            j += 1;
        }
        None
    }
}

/// A field of a consistent aggregate lies inside it and is aligned for its
/// own type, wherever the aggregate is validly placed.
proof fn lemma_field_handle_valid(types: Seq<TypeInfo>, h: Handle, j: int, kind: WrapperKind)
    requires
        forall|i: int| 0 <= i < types.len() ==> type_wf(types, i),
        handle_valid(types, h),
        0 <= j < types[h.ty as int].fields@.len(),
    ensures
        ({
            let t = types[h.ty as int];
            let fd = t.fields@[j];
            let p = Handle { kind, ty: fd.ty, addr: (h.addr + fd.offset) as usize };
            &&& h.addr + fd.offset + types[fd.ty as int].size <= h.addr + t.size
            &&& handle_valid(types, p)
            &&& h.addr <= p.addr
            &&& p.addr + types[p.ty as int].size <= h.addr + t.size
        }),
{
    let t = types[h.ty as int];
    assert(type_wf(types, h.ty as int));
    let fd = t.fields@[j];
    if t.kind == TypeKind::Scalar {
        assert(false);
    }
    assert(field_wf(types, h.ty as int, fd));
    assert(type_wf(types, fd.ty as int));
    assert(t.align > 0) by {
        lemma_pow2_positive(t.align as int);
    }
    assert(types[fd.ty as int].align > 0) by {
        lemma_pow2_positive(types[fd.ty as int].align as int);
    }
    lemma_aligned_sum(
        h.addr as int,
        fd.offset as int,
        t.align as int,
        types[fd.ty as int].align as int,
    );
}

/// A handle that can be turned into a handle to a field of what it points to.
pub trait Projectable: Sized {
    /// The handle points to storage of the registered types that it may
    /// be projected from.
    spec fn valid_in(self, types: Seq<TypeInfo>) -> bool;

    /// The outcome of projecting to the field named `name`.
    spec fn projected_spec(self, types: Seq<TypeInfo>, name: FieldName, inside: bool) -> Result<
        Self,
        ProjectError,
    >;

    /// Projects to the field named `name`. `inside` tells whether the request
    /// comes from the aggregate's own module, where private fields may be
    /// named.
    fn project(self, reg: &Registry, name: FieldName, inside: bool) -> (r: Result<Self, ProjectError>)
        requires
            reg.wf(),
            self.valid_in(reg.types@),
        ensures
            r == self.projected_spec(reg.types@, name, inside),
            r matches Ok(p) ==> p.valid_in(reg.types@),
    ;
}

impl Projectable for Handle {
    open spec fn valid_in(self, types: Seq<TypeInfo>) -> bool {
        handle_valid(types, self)
    }

    open spec fn projected_spec(self, types: Seq<TypeInfo>, name: FieldName, inside: bool) -> Result<
        Handle,
        ProjectError,
    > {
        projected(types, self, name, inside)
    }

    /// The new address is found by arithmetic alone; nothing is read.
    fn project(self, reg: &Registry, name: FieldName, inside: bool) -> (r: Result<Handle, ProjectError>) {
        let t = &reg.types[self.ty];
        match reg.lookup_field(self.ty, name) {
            None => Err(ProjectError::NoSuchField),
            Some(j) => {
                proof {
                    lemma_lookup_from_range(t.fields@, name.hash, 0);
                    lemma_field_handle_valid(reg.types@, self, j as int, self.kind);
                }
                let fd = &t.fields[j];
                if !fd.public && !inside {
                    Err(ProjectError::NotVisible)
                } else if self.kind == WrapperKind::PinMut && !t.pin_support {
                    Err(ProjectError::NoPinSupport)
                } else {
                    let kind = if self.kind == WrapperKind::PinMut {
                        fd.pin_wrapper()
                    } else {
                        self.kind
                    };
                    Ok(Handle { kind, ty: fd.ty, addr: fd.map(self.addr) })
                }
            },
        }
    }
}

/// The index of the field that a successful projection reaches.
pub open spec fn projected_index(types: Seq<TypeInfo>, h: Handle, f: FieldName) -> int {
    lookup(types[h.ty as int].fields@, f.hash)->0
}

/// A projection moves the handle by the field's static offset, to storage
/// that lies inside the aggregate and is aligned for the field's type.
pub proof fn lemma_projection_address(types: Seq<TypeInfo>, h: Handle, f: FieldName, inside: bool)
    requires
        types_wf(types),
        handle_valid(types, h),
        projected(types, h, f, inside) is Ok,
    ensures
        ({
            let fd = types[h.ty as int].fields@[projected_index(types, h, f)];
            let p = projected(types, h, f, inside)->Ok_0;
            &&& 0 <= projected_index(types, h, f) < types[h.ty as int].fields@.len()
            &&& fd.id.hash == f.hash
            &&& p.ty == fd.ty
            &&& p.addr == h.addr + fd.offset
            &&& fd.offset + types[p.ty as int].size <= types[h.ty as int].size
            &&& p.addr as int % types[p.ty as int].align as int == 0
            &&& handle_valid(types, p)
        }),
{
    let fs = types[h.ty as int].fields@;
    lemma_lookup_from_range(fs, f.hash, 0);
    let j = projected_index(types, h, f);
    lemma_field_handle_valid(types, h, j, projected(types, h, f, inside)->Ok_0.kind);
}

/// A pin guarantee survives two nested projections exactly when both fields
/// are pinned; otherwise the result is a plain exclusive reference.
pub proof fn lemma_pin_projection_nested(
    types: Seq<TypeInfo>,
    h: Handle,
    outer: FieldName,
    inner: FieldName,
    inside: bool,
)
    requires
        types_wf(types),
        handle_valid(types, h),
        h.kind == WrapperKind::PinMut,
        projected(types, h, outer, inside) is Ok,
        projected(types, projected(types, h, outer, inside)->Ok_0, inner, inside) is Ok,
    ensures
        ({
            let p1 = projected(types, h, outer, inside)->Ok_0;
            let p2 = projected(types, p1, inner, inside)->Ok_0;
            let pin1 = types[h.ty as int].fields@[projected_index(types, h, outer)].pin;
            let pin2 = types[p1.ty as int].fields@[projected_index(types, p1, inner)].pin;
            &&& p1.kind == (if pin1 == PinCapability::Pinned {
                WrapperKind::PinMut
            } else {
                WrapperKind::Mut
            })
            &&& p2.kind == (if pin1 == PinCapability::Pinned && pin2 == PinCapability::Pinned {
                WrapperKind::PinMut
            } else {
                WrapperKind::Mut
            })
        }),
{
}

} // verus!
