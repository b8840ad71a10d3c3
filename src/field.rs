use vstd::prelude::*;
use crate::project::WrapperKind;

verus! {

/// The 64-bit FNV-1a hash of a text, taken over its UTF-8 bytes.
pub uninterp spec fn fnv1a_64_of(name: Seq<char>) -> u64;

/// Starting value of the 64-bit FNV-1a hash: the hash of the empty text.
pub const FNV_OFFSET_BASIS: u64 = 0xcbf29ce484222325;

/// Relies on `const_fnv1a_hash::fnv1a_hash_str_64`: the 64-bit FNV-1a hash of
/// the text's bytes, which depends on the text alone; with no bytes to fold in,
/// the result is the offset basis.
#[verifier::external_body]
fn fnv1a_hash_str_64(name: &str) -> (r: u64)
    ensures
        r == fnv1a_64_of(name@),
        name@.len() == 0 ==> r == FNV_OFFSET_BASIS,
{
    const_fnv1a_hash::fnv1a_hash_str_64(name)
}

/// The stable identity of a field name, used as the lookup key of a field.
pub fn field_name_hash(name: &str) -> (r: u64)
    ensures
        r == fnv1a_64_of(name@),
        name@.len() == 0 ==> r == FNV_OFFSET_BASIS,
{
    fnv1a_hash_str_64(name)
}

/// Representation of a field name: the hash of its text.
///
/// Two distinct names with one hash cannot be told apart at this level.
#[derive(Clone, Copy, Debug, PartialEq, Eq, Structural)]
pub struct FieldName {
    pub hash: u64,
}

impl FieldName {
    /// The descriptor of the field called `name`.
    pub fn of(name: &str) -> (r: FieldName)
        ensures
            r.hash == fnv1a_64_of(name@),
    {
        FieldName { hash: field_name_hash(name) }
    }
}

/// Whether a pin guarantee on an aggregate carries over to one of its fields.
#[derive(Clone, Copy, Debug, PartialEq, Eq, Structural)]
pub enum PinCapability {
    Pinned,
    Unpinned,
}

/// Mapping record of one field of an aggregate: its name, its type, where it
/// lies inside the aggregate, and whether it is structurally pinned.
#[derive(Clone, Debug)]
pub struct FieldInfo {
    pub name: String,
    pub id: FieldName,
    /// Index of the field's type in the registry.
    pub ty: usize,
    /// Byte offset of the field from the start of the aggregate.
    pub offset: usize,
    pub pin: PinCapability,
    /// Whether code outside the aggregate's own module may name the field.
    pub public: bool,
}

/// How a field is reached from the aggregate that holds it.
pub trait Field {
    /// The byte offset of the field from the start of the aggregate.
    spec fn offset_spec(&self) -> int;

    /// The address of the field inside an aggregate placed at `base`.
    ///
    /// Pure address arithmetic: no byte of the aggregate is read.
    fn map(&self, base: usize) -> (r: usize)
        requires
            base + self.offset_spec() <= usize::MAX,
        ensures
            r == base + self.offset_spec(),
    ;
}

/// What a field does with a pin guarantee on its aggregate.
pub trait PinField: Field {
    /// Whether the field is structurally pinned.
    spec fn pin_spec(&self) -> PinCapability;

    /// The kind of handle that projecting a pin-guaranteed handle to this
    /// field gives: pin-guaranteed for a pinned field, a plain exclusive
    /// reference otherwise.
    fn pin_wrapper(&self) -> (r: WrapperKind)
        ensures
            r == (if self.pin_spec() == PinCapability::Pinned {
                WrapperKind::PinMut
            } else {
                WrapperKind::Mut
            }),
    ;
}

impl Field for FieldInfo {
    open spec fn offset_spec(&self) -> int {
        self.offset as int
    }

    fn map(&self, base: usize) -> (r: usize) {
        base + self.offset
    }
}

impl PinField for FieldInfo {
    open spec fn pin_spec(&self) -> PinCapability {
        self.pin
    }

    fn pin_wrapper(&self) -> (r: WrapperKind) {
        match self.pin {
            PinCapability::Pinned => WrapperKind::PinMut,
            PinCapability::Unpinned => WrapperKind::Mut,
        }
    }
}

} // verus!
