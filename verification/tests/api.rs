use lib::declaration::EntityKind;
use lib::limits::{CompileLimitDimension, CompileLimits};
use lib::model::{RoadEditingProvenance, RoadEditingProvenanceKind};
use lib::policy::PolicyGapProfileInput;
use lib::reader::{root_vector_site, verifier_budget};
use lib::source_location::{
    RoadEditingAddressKind, RoadEditingLocationContext, RoadEditingPropertyPath, RoadEditingPropertyStep,
    RoadEditingRootVectorKind, RoadEditingSourceAddress, RoadEditingTableKind,
};
use lib::writer::RoadEditingSourceWriter;

#[test]
fn generated_provenance_keeps_its_inputs() {
    let p = RoadEditingProvenance::generated("tool-7", [1; 32], [2; 32], Some(9), "batch run").unwrap();
    assert_eq!(p.kind(), RoadEditingProvenanceKind::Generated);
    assert_eq!(p.generator_build_id(), "tool-7");
    assert_eq!(p.parameters_and_inputs_digest(), &[1; 32]);
    assert_eq!(p.frontend_options_digest(), &[2; 32]);
    assert_eq!(p.random_seed(), Some(9));
    assert_eq!(p.description(), "batch run");
    assert!(RoadEditingProvenance::generated("tool 7", [0; 32], [0; 32], None, "x").is_err());
    assert!(RoadEditingProvenance::generated("tool", [0; 32], [0; 32], None, "").is_err());
}

#[test]
fn root_vectors_are_found_by_their_field_name() {
    assert_eq!(
        root_vector_site("road_sections"),
        Some((RoadEditingRootVectorKind::RoadSection, RoadEditingTableKind::RoadSection))
    );
    assert_eq!(root_vector_site("road_section"), None);
}

#[test]
fn verifier_budget_leaves_room_for_the_root_and_provenance() {
    let limits = CompileLimits::p100_initial_v1();
    let (tables, apparent) = verifier_budget(100, &limits, 10, "roads/main").unwrap();
    assert_eq!(tables, 1_000_000 - 10 + 2);
    assert_eq!(apparent, 1_600);
    let (tables, _) = verifier_budget(100, &limits, 2_000_000, "roads/main").unwrap();
    assert_eq!(tables, 2);
}

#[test]
fn writer_reserves_the_bound_within_the_module_limit() {
    let limits = CompileLimits::p100_initial_v1();
    let writer = RoadEditingSourceWriter::new(&limits);
    assert_eq!(writer.reserved_capacity(1_000).unwrap(), 1_000);
    let limit = limits.value(CompileLimitDimension::SourceBytesPerModule);
    assert_eq!(writer.reserved_capacity(limit).unwrap() as u64, limit);
    assert!(writer.reserved_capacity(limit + 1).is_err());
}

#[test]
fn gap_profiles_keep_their_milliseconds() {
    let g = PolicyGapProfileInput::try_new("gap", "v1", 1_500, 2_000, 250).unwrap();
    assert_eq!(g.gap_milliseconds(), (1_500, 2_000, 250));
}

#[test]
fn location_context_resolves_shared_ordinals() {
    let path = RoadEditingPropertyPath::new(vec![RoadEditingPropertyStep::TableField {
        table: RoadEditingTableKind::RoadSection,
        field_id: 1,
    }]);
    let context = RoadEditingLocationContext::new(
        vec!["ns".to_string(), "k".to_string(), "o".to_string()],
        vec![path.clone()],
        vec!["c1".to_string()],
    );
    assert_eq!(context.source_map_logical_bytes(), 46);
    let ns = context.string_ordinal_for("ns");
    let key = context.string_ordinal_for("k");
    let owner = context.string_ordinal_for("o");
    assert_eq!(key, context.string_ordinal(1));
    assert_eq!(context.resolve_string(owner), "o");
    let p = context.property_path_ordinal_for(&path);
    assert_eq!(p, context.property_path_ordinal(0));
    assert_eq!(context.resolve_property_path(p), &path);
    let c = context.canvas_selection_ordinal_for("c1");
    assert_eq!(c, context.canvas_selection_ordinal(0));
    assert_eq!(context.resolve_canvas_selection(c), "c1");

    let address = RoadEditingSourceAddress::new(ns, RoadEditingAddressKind::Declaration(EntityKind::RoadSection), &[owner], key);
    assert_eq!(address.entity_kind(), Some(EntityKind::RoadSection));
    assert_eq!(address.module_namespace(&context), "ns");
    assert_eq!(address.owner_local_keys(&context), vec!["o"]);
    assert_eq!(address.local_key(&context), "k");
    let alignment = RoadEditingSourceAddress::new(ns, RoadEditingAddressKind::RoadAlignment, &[], key);
    assert_eq!(alignment.entity_kind(), None);
}
