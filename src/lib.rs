//! Field projection over a registry of aggregate layouts.
//!
//! A handle to an aggregate is turned into a handle to one of its fields by
//! address arithmetic alone, following per-field mapping records produced once
//! by a generation step. Pin guarantees survive projection exactly for the
//! fields nominated as pinned.

mod field;
mod layout;
mod registry;
mod project;
mod storage;

pub use field::{
    field_name_hash, fnv1a_64_of, Field, FieldInfo, FieldName, PinCapability, PinField,
    FNV_OFFSET_BASIS,
};
pub use layout::{
    align_up, check_pow2, checked_align_up, is_pow2, lemma_align_up, lemma_aligned_sum,
    lemma_pow2_divides, lemma_pow2_positive, max_int,
};
pub use registry::{
    decl_align, decl_end, decl_has_pinned, decl_offset, decl_size, decl_types_known, decl_unpin,
    field_outcome, field_wf, fields_disjoint, fields_relocatable, has_pinned_field,
    lemma_drop_with_pinned_field_refused, pin_of, pin_outcome, type_wf, types_wf, AggregateDecl,
    DeclShape, FieldDecl, GenError, Registry, TypeInfo, TypeKind,
};
pub use project::{
    handle_valid, kind_after, lemma_pin_projection_nested, lemma_projection_address, lookup,
    lookup_from, projected, projected_index, Handle, ProjectError, Projectable, WrapperKind,
};
pub use storage::{
    initialized, lemma_uninit_write_is_local, lemma_write_then_read_back, read_spec, writable,
    write_spec, Storage,
};
