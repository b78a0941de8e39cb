//! Resolution engine for a loosely typed, JSON-shaped instance-tree
//! description: maps untyped raw values to schema-correct typed property
//! values, infers classes for well-known service names, builds the typed
//! instance tree, and resolves synthetic cross-references in a second pass.

mod laws;
mod refs;
mod resolve;
mod schema;
mod strutil;
mod tree;
mod value;

pub use laws::lemma_bad_property_omitted;
pub use laws::lemma_bool_passthrough;
pub use laws::lemma_color3_quantization;
pub use laws::lemma_finalize_preserves_values;
pub use laws::lemma_instance_has_no_name_entry;
pub use laws::lemma_name_override_wins;
pub use laws::lemma_no_name_property;
pub use laws::lemma_root_never_emitted;
pub use laws::lemma_rotation_layout;
pub use laws::lemma_service_class_inference;
pub use laws::lemma_vector3_components;

pub use refs::apply_pending;
pub use refs::finalize_references;
pub use refs::first_ref_index;
pub use refs::is_ref_entry;
pub use refs::lemma_registry_lookup_valid;
pub use refs::patch_props;
pub use refs::props_views;
pub use refs::instance_patched;
pub use refs::registry_find;
pub use refs::registry_lookup;
pub use refs::unresolved_warnings;
pub use refs::value_patched;

pub use resolve::channel_of;
pub use resolve::clamp_unit;
pub use resolve::color_channel;
pub use resolve::is_synthetic_ref;
pub use resolve::pending_record;
pub use resolve::pending_view;
pub use resolve::ref_marker;
pub use resolve::registers_pending;
pub use resolve::resolve;
pub use resolve::resolve_spec;
pub use resolve::resolve_typed;
pub use resolve::resolve_unambiguous;
pub use resolve::resolve_unambiguous_spec;
pub use resolve::synthetic_ref_target;
pub use resolve::to_whole_units;
pub use resolve::whole_units;
pub use resolve::PendingReference;
pub use resolve::PendingReferenceS;

pub use schema::db_declared_type_of;
pub use schema::db_enum_item_id;
pub use schema::db_superclass_of;
pub use schema::enum_item_id;
pub use schema::lookup;
pub use schema::schema_lookup;
pub use schema::schema_lookup_fueled;
pub use schema::MAX_ANCESTRY;

pub use strutil::str_eq;
pub use strutil::str_starts_with;
pub use strutil::str_suffix;

pub use tree::build_node;
pub use tree::built_node_exact;
pub use tree::build_project;
pub use tree::built_node_ok;
pub use tree::effective_class_spec;
pub use tree::effective_name;
pub use tree::effective_name_spec;
pub use tree::infer_class_from_name;
pub use tree::is_known_service;
pub use tree::children_count_to;
pub use tree::children_pending_to;
pub use tree::children_registry_to;
pub use tree::children_warnings_to;
pub use tree::lemma_built_node_exact_extend;
pub use tree::lemma_built_node_exact_implies_ok;
pub use tree::lemma_children_count_nonneg;
pub use tree::lemma_node_count_pos;
pub use tree::name_override;
pub use tree::node_count;
pub use tree::node_pending;
pub use tree::node_registry;
pub use tree::node_warnings;
pub use tree::pending_additions;
pub use tree::pending_valid;
pub use tree::property_warnings;
pub use tree::props_match;
pub use tree::props_view;
pub use tree::reg_valid;
pub use tree::reg_view;
pub use tree::resolve_props;
pub use tree::resolved_props;
pub use tree::root_key_spec;
pub use tree::top_level_indices;
pub use tree::value_matches;
pub use tree::warn_view;
pub use tree::BuildResult;
pub use tree::Dom;
pub use tree::Instance;
pub use tree::Project;
pub use tree::ProjectNode;
pub use tree::Warning;
pub use tree::WarningS;

pub use value::MICROS_PER_UNIT;
pub use value::PropertyType;
pub use value::PropertyTypeS;
pub use value::RawValue;
pub use value::RawValueS;
pub use value::ResolutionError;
pub use value::ResolvedValue;
pub use value::ResolvedValueS;
pub use value::Rotation;
pub use value::Vector3;
