use lib::diagnostic::{RoadEditingInputViolation, SourceTextViolation};
use lib::rules::validate_wire_reference;

#[test]
fn wire_reference_preserves_borrowed_components_and_excludes_delimiters_from_bytes() {
    let parsed = validate_wire_reference("other::junction>movement>path", 3, true).expect("qualified owner reference");

    assert_eq!(parsed.namespace(), Some("other"));
    assert_eq!(parsed.key_components(), ["junction", "movement", "path"]);
    assert_eq!(parsed.key_components().len(), 3);
    assert_eq!(
        parsed.namespace().map_or(0, str::len) + parsed.key_components().iter().map(|c| c.len()).sum::<usize>(),
        5 + 8 + 8 + 4
    );
}

#[test]
fn wire_reference_rejects_depth_qualification_and_component_boundaries() {
    assert!(matches!(
        validate_wire_reference("junction>movement", 3, true),
        Err(RoadEditingInputViolation::InvalidReferenceDepth { expected: 3, actual: 2 })
    ));
    assert!(matches!(
        validate_wire_reference("other::edge", 1, false),
        Err(RoadEditingInputViolation::InvalidCombination)
    ));
    let oversized = "x".repeat(54);
    assert!(matches!(
        validate_wire_reference(&oversized, 1, true),
        Err(RoadEditingInputViolation::InvalidText(SourceTextViolation::TooLong { limit: 53, observed: 54 }))
    ));
}
