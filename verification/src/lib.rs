//! Object-safe value inspection.
//!
//! A producer exposes its internal structure (fields, list items, map
//! entries, enum variants, tuples, primitives) through a small closed set of
//! interfaces, and a consumer walks that structure without the two sharing
//! generic type parameters.

mod enumerable;
pub use enumerable::{EnumDef, Enumerable, Variant, VariantDef};

mod field;
pub use field::{Fields, NamedField, Names};

mod json;
pub use json::{json_key, json_model, to_vec, to_vec_pretty, JsonError, Serializer};

mod laws;
pub use laws::{
    lemma_lookup_consistency, lemma_pointer_equivalence, lemma_round_trip_fidelity,
    lemma_shape_consistency, lemma_slice_batching, lemma_slice_iter_symmetry,
    lemma_static_dynamic_equivalence,
    pointer_step,
};

mod listable;
pub use listable::Listable;

mod mappable;
pub use mappable::Mappable;

mod model;
pub use model::{
    EnumModel, FieldsModel, Model, StructModel, TupleModel, entries_model, field_values_model,
    list_model, map_model, named_values_model, pairs_model, slice_elem_model, slice_model,
    lemma_entries_model, lemma_named_batches_model, lemma_pairs_model, lemma_pairs_model_congruence,
    lemma_unnamed_batches_model, lemma_values_model, struct_model, tuple_model, value_model,
    values_model,
};

mod named_values;
pub use named_values::{NamedValues, spec_name_index};

mod pointer;
pub use pointer::{
    pointee_events, pointer_ok, spec_pointee, visit_pointer, Pointer, Segment,
};

mod render;
pub use render::{
    dec_digits, digit_char, esc_char, esc_seq, int_str, render, render_model,
};

mod slice;
pub use slice::Slice;

mod strings;

mod visit;
pub use visit::{
    all_elem_events, all_entry_events, events_elems, events_entries, slice_visited, visit, Visit,
    VisitEvent,
};

mod structable;
pub use structable::{StructDef, Structable};

mod tuplable;
pub use tuplable::{Tuplable, TupleDef};

mod valuable;
pub use valuable::Valuable;

mod value;
pub use value::{
    clone_value, spec_num, EnumValue, FieldValues, ListValue, MapValue, StructValue, TupleValue,
    Value,
};
