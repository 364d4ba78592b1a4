use lib::declaration::{FacilityKindCategory, MAX_PORTABLE_SIGNAL_TIME_MS};
use lib::limits::{CompileLimitDimension, CompileLimits};
use lib::preflight::{
    references_equal, validate_corridor_owned_reference, validate_facility_kind_category,
    validate_portable_signal_time, RoadEditingPreflightCounts,
};

#[test]
fn relation_capacity_is_checked_before_usage_is_mutated() {
    let limits = CompileLimits::p100_initial_v1()
        .with_test_admission_limit(CompileLimitDimension::RelationOccurrenceCount, 2);
    let mut usage = RoadEditingPreflightCounts {
        relation_occurrence_count: 1,
        ..RoadEditingPreflightCounts::default()
    };

    assert!(usage.require_relation_capacity(2, &limits).is_err());
    assert_eq!(usage.relation_occurrence_count, 1);
    usage
        .require_relation_capacity(1, &limits)
        .expect("remaining relation capacity");
    usage.charge_relation(1);
    assert_eq!(usage.relation_occurrence_count, 2);
}

#[test]
fn generated_build_id_uses_the_token_rule() {
    let limits = CompileLimits::p100_initial_v1();
    let mut usage = RoadEditingPreflightCounts::default();

    assert!(usage
        .charge_token(
            "generator build",
            "moduleHeader.provenance.generatorBuildId",
            &limits,
            "roads/main",
        )
        .is_err());
    assert_eq!(usage.string_item_count, 0);
    assert_eq!(usage.total_string_bytes, 0);
}

#[test]
fn facility_kind_categories_match_the_first_party_model() {
    let expected_key = "roads/main";

    validate_facility_kind_category(
        "motorLane",
        FacilityKindCategory::LaneBearing,
        "roadSection.kindId",
        expected_key,
    )
    .expect("lane-bearing section kind");
    validate_facility_kind_category(
        "sidewalk",
        FacilityKindCategory::NonTraversable,
        "facilityBand.kindId",
        expected_key,
    )
    .expect("non-traversable band kind");

    assert!(validate_facility_kind_category(
        "sidewalk",
        FacilityKindCategory::LaneBearing,
        "roadSection.kindId",
        expected_key,
    )
    .is_err());
    assert!(validate_facility_kind_category(
        "motorLane",
        FacilityKindCategory::NonTraversable,
        "facilityBand.kindId",
        expected_key,
    )
    .is_err());
    assert!(validate_facility_kind_category(
        "unknown",
        FacilityKindCategory::NonTraversable,
        "facilityBand.kindId",
        expected_key,
    )
    .is_err());
}

#[test]
fn portable_signal_time_matches_the_first_party_model() {
    let expected_key = "roads/main";

    validate_portable_signal_time(
        MAX_PORTABLE_SIGNAL_TIME_MS,
        true,
        "signalController.offsetMilliseconds",
        expected_key,
    )
    .expect("maximum controller offset");
    validate_portable_signal_time(
        MAX_PORTABLE_SIGNAL_TIME_MS,
        false,
        "signalPhase.durationMilliseconds",
        expected_key,
    )
    .expect("maximum phase duration");
    assert!(validate_portable_signal_time(0, false, "signalPhase.durationMilliseconds", expected_key).is_err());
    assert!(validate_portable_signal_time(
        MAX_PORTABLE_SIGNAL_TIME_MS + 1,
        true,
        "signalController.offsetMilliseconds",
        expected_key,
    )
    .is_err());
}

#[test]
fn regulation_text_accepts_bounded_unicode_and_rejects_empty_values() {
    let limits = CompileLimits::p100_initial_v1();
    let mut usage = RoadEditingPreflightCounts::default();

    usage
        .charge_non_empty_text("中国", "accessRegulation.jurisdiction", &limits, "roads/main")
        .expect("bounded unicode");
    assert_eq!(usage.string_item_count(), 1);
    assert!(usage
        .charge_non_empty_text("", "accessRegulation.jurisdiction", &limits, "roads/main")
        .is_err());
}

#[test]
fn corridor_owned_references_require_the_local_corridor_key() {
    validate_corridor_owned_reference(
        "corridor-a>section",
        2,
        "corridor-a",
        "roadCorridor.referenceSection",
        "roads/main",
    )
    .expect("matching local owner");
    assert!(validate_corridor_owned_reference(
        "corridor-b>section",
        2,
        "corridor-a",
        "roadCorridor.referenceSection",
        "roads/main",
    )
    .is_err());
    assert!(validate_corridor_owned_reference(
        "city/base::corridor-a>section",
        2,
        "corridor-a",
        "roadCorridor.referenceSection",
        "roads/main",
    )
    .is_err());
}

#[test]
fn local_reference_matching_distinguishes_missing_section_owners() {
    assert!(references_equal("corridor-a", "corridor-a", "city"));
    assert!(!references_equal("corridor-missing", "corridor-a", "city"));
    assert!(!references_equal("other::corridor-a", "corridor-a", "city"));
}
