//! Self-describing decoding: a type-info sequence describes the shape of a type,
//! recursive types included, and a decoder walks that sequence together with the
//! encoded bytes of a value.

mod type_info;
mod footprint;
mod primitive;
mod decode;
mod laws;
mod reflection;

pub use type_info::{TypeInfo, refs_backward};
pub use footprint::{DecodeError, footprint, fields_footprint, variants_footprint, skip_type};
pub use primitive::{le_u32, compact_u32};
pub use decode::{
    Item, MAX_DEPTH, Decoded, tag_rank, decode_tag, decode_fields, decode_elements, variant_decoded,
    decode_all, view_decoded, decode, decode_type_info, decode_struct, decode_list, decode_variant,
};
pub use laws::{
    lemma_consumed_is_footprint, lemma_fields_consumed_is_footprint, lemma_absent_optional_skips,
    lemma_back_reference_resolves, lemma_back_reference_out_of_range, lemma_footprint_fails_malformed,
    lemma_backward_refs_in_range, lemma_fields_refs_in_range, lemma_elements_refs_in_range,
    lemma_variant_refs_in_range,
};
pub use reflection::{Reflection, extends, refs_to_ancestors, parents_within, first_parent, appended};
mod chain;

pub use chain::{list_node_sequence, chain_bytes, chain_items, groups_of_four, lemma_chain_decodes, lemma_chain_round_trip};
