use lib::diagnostic::{DiagnosticPayload, DiagnosticSeverity, SourceHeaderField, SourceTextViolation};
use lib::limits::{CompileLimitDimension, CompileLimits};
use lib::source::{SourceModuleHeader, SourceModuleHeaderInput};

fn valid_input() -> SourceModuleHeaderInput<'static> {
    SourceModuleHeaderInput {
        authoring_namespace_id: "city.example/corridor",
        source_document_key: "generator.main",
        generator_build_id: "git:0123456789abcdef",
        parameters_and_inputs_digest: [0x11; 32],
        frontend_options_digest: [0x22; 32],
        random_seed: Some(42),
        provenance: "repository:laneflow",
    }
}

#[test]
fn valid_header_is_owned_without_a_self_reported_content_digest() {
    let input = valid_input();
    let header = SourceModuleHeader::new(input, &CompileLimits::p100_initial_v1()).unwrap();

    assert_eq!(header.authoring_namespace_id(), input.authoring_namespace_id);
    assert_eq!(header.source_document_key(), input.source_document_key);
    assert_eq!(header.generator_build_id(), input.generator_build_id);
    assert_eq!(header.parameters_and_inputs_digest(), &input.parameters_and_inputs_digest);
    assert_eq!(header.frontend_options_digest(), &input.frontend_options_digest);
    assert_eq!(header.random_seed(), Some(42));
    assert_eq!(header.provenance(), input.provenance);
}

#[test]
fn invalid_header_returns_all_safe_candidates_in_canonical_order() {
    let input = SourceModuleHeaderInput {
        authoring_namespace_id: "_bad",
        source_document_key: "bad key",
        generator_build_id: "",
        provenance: "bad\nprovenance",
        ..valid_input()
    };

    let bundle = match SourceModuleHeader::new(input, &CompileLimits::p100_initial_v1()) {
        Ok(_) => panic!("invalid source module header must fail"),
        Err(bundle) => bundle,
    };
    assert!(!bundle.diagnostics_truncated());
    assert!(bundle.has_errors());
    assert_eq!(bundle.diagnostics().len(), 4);
    assert!(bundle.diagnostics().windows(2).all(|pair| pair[0] < pair[1]));
    assert!(bundle
        .diagnostics()
        .iter()
        .all(|diagnostic| diagnostic.severity() == DiagnosticSeverity::Error));
    assert!(bundle.diagnostics().iter().any(|diagnostic| matches!(
        diagnostic.payload(),
        DiagnosticPayload::InvalidSourceHeaderField {
            field: SourceHeaderField::GeneratorBuildId,
            violation: SourceTextViolation::Empty,
        }
    )));
}

#[test]
fn fifty_three_bytes_is_inclusive_and_plus_one_is_rejected_before_copy() {
    let at_bound = "a".repeat(53);
    let over_bound = "a".repeat(54);
    let mut input = valid_input();
    input.generator_build_id = &at_bound;
    assert!(SourceModuleHeader::new(input, &CompileLimits::p100_initial_v1()).is_ok());

    input.generator_build_id = &over_bound;
    let bundle = match SourceModuleHeader::new(input, &CompileLimits::p100_initial_v1()) {
        Ok(_) => panic!("over-limit source module header must fail"),
        Err(bundle) => bundle,
    };
    assert!(matches!(
        bundle.diagnostics()[0].payload(),
        DiagnosticPayload::InvalidSourceHeaderField {
            field: SourceHeaderField::GeneratorBuildId,
            violation: SourceTextViolation::TooLong { limit: 53, observed: 54 },
        }
    ));
}

#[test]
fn million_profile_keeps_identity_namespace_at_53_without_narrowing_metadata() {
    let at_bound = "a".repeat(53);
    let over_bound = "a".repeat(54);
    let limits = CompileLimits::single_network_1m_v2();
    let mut input = valid_input();
    input.authoring_namespace_id = &at_bound;
    input.provenance = &over_bound;
    assert!(SourceModuleHeader::new(input, &limits).is_ok());

    input.authoring_namespace_id = &over_bound;
    let bundle = match SourceModuleHeader::new(input, &limits) {
        Ok(_) => panic!("over-limit identity namespace must fail"),
        Err(bundle) => bundle,
    };
    assert!(bundle.diagnostics().iter().any(|diagnostic| matches!(
        diagnostic.payload(),
        DiagnosticPayload::InvalidSourceHeaderField {
            field: SourceHeaderField::AuthoringNamespaceId,
            violation: SourceTextViolation::TooLong { limit: 53, observed: 54 },
        }
    )));
    assert!(!bundle.diagnostics().iter().any(|diagnostic| matches!(
        diagnostic.payload(),
        DiagnosticPayload::InvalidSourceHeaderField { field: SourceHeaderField::Provenance, .. }
    )));
}

#[test]
fn aggregate_limit_payload_keeps_dimension_limit_and_observed_order() {
    let limits = CompileLimits::p100_initial_v1().with_test_string_limits(1, 1);
    let bundle = match SourceModuleHeader::new(valid_input(), &limits) {
        Ok(_) => panic!("aggregate over-limit source module header must fail"),
        Err(bundle) => bundle,
    };

    assert!(bundle.diagnostics().iter().any(|diagnostic| matches!(
        diagnostic.payload(),
        DiagnosticPayload::CompileLimitExceeded {
            dimension: CompileLimitDimension::TotalStringBytes,
            limit: 1,
            observed,
        } if *observed > 1
    )));
    assert!(bundle.diagnostics().iter().any(|diagnostic| matches!(
        diagnostic.payload(),
        DiagnosticPayload::CompileLimitExceeded {
            dimension: CompileLimitDimension::CompilerControlledLiveBytes,
            limit: 1,
            observed,
        } if *observed > 1
    )));
}
