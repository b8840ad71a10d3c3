use vstd::prelude::*;
use crate::field::FieldName;
use crate::project::{
    handle_valid, lemma_projection_address, projected, projected_index, Handle, WrapperKind,
};
use crate::registry::{type_wf, types_wf, Registry, TypeInfo, TypeKind};

verus! {

/// Memory addressed from zero, one entry per byte: `None` for a byte that was
/// never written.
pub struct Storage {
    pub bytes: Vec<Option<u8>>,
}

/// The memory after writing the bytes `v` from address `addr` on.
pub open spec fn write_spec(mem: Seq<Option<u8>>, addr: int, v: Seq<u8>) -> Seq<Option<u8>> {
    Seq::new(
        mem.len(),
        |a: int|
            if addr <= a < addr + v.len() {
                Some(v[a - addr])
            } else {
                mem[a]
            },
    )
}

/// Every byte of the `n` from address `addr` on was written.
pub open spec fn initialized(mem: Seq<Option<u8>>, addr: int, n: int) -> bool {
    forall|a: int| addr <= a < addr + n ==> (#[trigger] mem[a]) is Some
}

/// The `n` bytes from address `addr` on, where all of them were written.
pub open spec fn read_spec(mem: Seq<Option<u8>>, addr: int, n: int) -> Option<Seq<u8>> {
    if initialized(mem, addr, n) {
        Some(Seq::new(n as nat, |k: int| mem[addr + k]->0))
    } else {
        None
    }
}

/// Handles of this kind may be written through.
pub open spec fn writable(kind: WrapperKind) -> bool {
    kind == WrapperKind::Mut || kind == WrapperKind::PinMut || kind == WrapperKind::UninitMut
}

impl Storage {
    /// Storage of `size` bytes, none of them written.
    pub fn uninit(size: usize) -> (r: Storage)
        ensures
            r.bytes@.len() == size,
            forall|a: int| 0 <= a < size ==> (#[trigger] r.bytes@[a]) is None,
    {
        let mut bytes: Vec<Option<u8>> = Vec::new();
        let mut k: usize = 0;
        while k < size
            invariant
                k <= size,
                bytes@.len() == k,
                forall|a: int| 0 <= a < k ==> (#[trigger] bytes@[a]) is None,
            decreases size - k,
        {
            bytes.push(None);
            k += 1;
        }
        Storage { bytes }
    }

    /// Writes the bytes of a value of the handle's type through the handle.
    ///
    /// No byte is read, and no byte outside the handle's type is touched.
    pub fn write(&mut self, reg: &Registry, h: Handle, v: &[u8])
        requires
            writable(h.kind),
            h.ty < reg.types@.len(),
            v@.len() == reg.types@[h.ty as int].size,
            h.addr + v@.len() <= old(self).bytes@.len(),
        ensures
            final(self).bytes@ == write_spec(old(self).bytes@, h.addr as int, v@),
    {
        let n = v.len();
        let total = self.bytes.len();
        let mut k: usize = 0;
        while k < n
            invariant
                k <= n,
                n == v@.len(),
                h.addr + n <= old(self).bytes@.len(),
                self.bytes@.len() == old(self).bytes@.len(),
                total == self.bytes@.len(),
                forall|a: int|
                    0 <= a < self.bytes@.len() ==> #[trigger] self.bytes@[a] == if h.addr <= a < h.addr
                        + k {
                        Some(v@[a - h.addr])
                    } else {
                        old(self).bytes@[a]
                    },
            decreases n - k,
        {
            self.bytes[h.addr + k] = Some(v[k]);
            k += 1;
        }
        assert(self.bytes@ =~= write_spec(old(self).bytes@, h.addr as int, v@));
    }

    /// Reads the bytes of the value the handle points to, or `None` where
    /// some of them were never written.
    pub fn read(&self, reg: &Registry, h: Handle) -> (r: Option<Vec<u8>>)
        requires
            h.ty < reg.types@.len(),
            h.addr + reg.types@[h.ty as int].size <= self.bytes@.len(),
        ensures
            r matches Some(v) ==> read_spec(self.bytes@, h.addr as int, reg.types@[h.ty as int].size as int)
                == Some(v@),
            r is None ==> read_spec(self.bytes@, h.addr as int, reg.types@[h.ty as int].size as int)
                is None,
    {
        let n = reg.types[h.ty].size;
        let total = self.bytes.len();
        let mut out: Vec<u8> = Vec::new();
        let mut k: usize = 0;
        while k < n
            invariant
                k <= n,
                h.ty < reg.types@.len(),
                n == reg.types@[h.ty as int].size,
                h.addr + n <= self.bytes@.len(),
                total == self.bytes@.len(),
                out@.len() == k,
                forall|a: int| h.addr <= a < h.addr + k ==> (#[trigger] self.bytes@[a]) is Some,
                forall|i: int| 0 <= i < k ==> out@[i] == self.bytes@[h.addr + i]->0,
            decreases n - k,
        {
            match self.bytes[h.addr + k] {
                Some(b) => out.push(b),
                None => {
                    assert(!initialized(self.bytes@, h.addr as int, n as int));
                    return None;
                },
            }
            k += 1;
        }
        assert(out@ =~= Seq::new(n as nat, |i: int| self.bytes@[h.addr + i]->0));
        Some(out)
    }
}

/// Writing a value through a projected handle and projecting the same field
/// again reads that value back.
pub proof fn lemma_write_then_read_back(
    types: Seq<TypeInfo>,
    mem: Seq<Option<u8>>,
    h: Handle,
    f: FieldName,
    inside: bool,
    v: Seq<u8>,
)
    requires
        types_wf(types),
        handle_valid(types, h),
        h.addr + types[h.ty as int].size <= mem.len(),
        writable(h.kind),
        projected(types, h, f, inside) is Ok,
        v.len() == types[projected(types, h, f, inside)->Ok_0.ty as int].size,
    ensures
        writable(projected(types, h, f, inside)->Ok_0.kind),
        read_spec(
            write_spec(mem, projected(types, h, f, inside)->Ok_0.addr as int, v),
            projected(types, h, f, inside)->Ok_0.addr as int,
            v.len() as int,
        ) == Some(v),
{
    let p = projected(types, h, f, inside)->Ok_0;
    lemma_projection_address(types, h, f, inside);
    let w = write_spec(mem, p.addr as int, v);
    assert(initialized(w, p.addr as int, v.len() as int));
    assert(Seq::new(v.len(), |k: int| w[p.addr + k]->0) =~= v);
}

/// Projecting out of storage that may hold nothing yet gives a handle of the
/// same kind, and writing through it touches the field's bytes alone: every
/// sibling field reads as before, and the outcome does not depend on what the
/// field's bytes held, so nothing unwritten is read.
pub proof fn lemma_uninit_write_is_local(
    types: Seq<TypeInfo>,
    mem: Seq<Option<u8>>,
    h: Handle,
    f: FieldName,
    inside: bool,
    v: Seq<u8>,
)
    requires
        types_wf(types),
        handle_valid(types, h),
        h.addr + types[h.ty as int].size <= mem.len(),
        h.kind == WrapperKind::UninitMut,
        projected(types, h, f, inside) is Ok,
        v.len() == types[projected(types, h, f, inside)->Ok_0.ty as int].size,
    ensures
        ({
            let p = projected(types, h, f, inside)->Ok_0;
            let fs = types[h.ty as int].fields@;
            let j = projected_index(types, h, f);
            let w = write_spec(mem, p.addr as int, v);
            &&& p.kind == WrapperKind::UninitMut
            &&& forall|a: int|
                0 <= a < mem.len() && !(p.addr <= a < p.addr + v.len()) ==> #[trigger] w[a] == mem[a]
            &&& forall|k: int|
                0 <= k < fs.len() && k != j ==> read_spec(
                    w,
                    h.addr + (#[trigger] fs[k]).offset,
                    types[fs[k].ty as int].size as int,
                ) == read_spec(mem, h.addr + fs[k].offset, types[fs[k].ty as int].size as int)
            &&& forall|other: Seq<Option<u8>>|
                other.len() == mem.len() && (forall|a: int|
                    0 <= a < mem.len() && !(p.addr <= a < p.addr + v.len()) ==> #[trigger] other[a]
                        == mem[a]) ==> #[trigger] write_spec(other, p.addr as int, v) == w
        }),
{
    let p = projected(types, h, f, inside)->Ok_0;
    let t = types[h.ty as int];
    let fs = t.fields@;
    let j = projected_index(types, h, f);
    let w = write_spec(mem, p.addr as int, v);
    lemma_projection_address(types, h, f, inside);
    assert(type_wf(types, h.ty as int));
    if t.kind == TypeKind::Scalar {
        assert(false);
    }
    assert forall|k: int| 0 <= k < fs.len() && k != j implies read_spec(
        w,
        h.addr + (#[trigger] fs[k]).offset,
        types[fs[k].ty as int].size as int,
    ) == read_spec(mem, h.addr + fs[k].offset, types[fs[k].ty as int].size as int) by {
        let lo = h.addr + fs[k].offset;
        let n = types[fs[k].ty as int].size as int;
        assert(crate::registry::field_wf(types, h.ty as int, fs[k]));
        if k < j {
            assert(fs[k].offset + types[fs[k].ty as int].size <= fs[j].offset);
        } else {
            assert(fs[j].offset + types[fs[j].ty as int].size <= fs[k].offset);
        }
        assert forall|a: int| lo <= a < lo + n implies #[trigger] w[a] == mem[a] by {}
        if initialized(mem, lo, n) {
            assert forall|a: int| lo <= a < lo + n implies (#[trigger] w[a]) is Some by {
                assert(mem[a] is Some);
            }
        }
        if initialized(w, lo, n) {
            assert forall|a: int| lo <= a < lo + n implies (#[trigger] mem[a]) is Some by {
                assert(w[a] is Some);
            }
        }
        assert(Seq::new(n as nat, |i: int| w[lo + i]->0) =~= Seq::new(n as nat, |i: int| mem[lo + i]->0));
    }
    assert forall|other: Seq<Option<u8>>|
        other.len() == mem.len() && (forall|a: int|
            0 <= a < mem.len() && !(p.addr <= a < p.addr + v.len()) ==> #[trigger] other[a]
                == mem[a]) implies #[trigger] write_spec(other, p.addr as int, v) == w by {
        assert(write_spec(other, p.addr as int, v) =~= w);
    }
}

} // verus!
