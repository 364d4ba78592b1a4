use lib::diagnostic::{DiagnosticPayload, RoadEditingInputViolation, RoadEditingSourceViolation};
use lib::limits::{CompileLimitDimension, CompileLimits};
use lib::preflight::{ensure_unique_references, ensure_unique_strings, first_duplicate_index, semantic_error};
use lib::scratch::PreflightScratch;

#[test]
fn budget_rejects_before_reading_or_allocating_entries() {
    let limits = CompileLimits::p100_initial_v1().with_test_admission_limit(CompileLimitDimension::StageScratchBytes, 15);
    let mut scratch = PreflightScratch::new(&limits, 0);
    let error = match scratch.reserve::<u64>(2) {
        Ok(_) => panic!("sixteen requested bytes exceed the scratch budget"),
        Err(error) => error,
    };
    assert_eq!(scratch.live_bytes(), 0);
    assert_eq!(scratch.peak_bytes(), 0);
    assert!(matches!(
        error.diagnostics()[0].payload(),
        DiagnosticPayload::CompileLimitExceeded { dimension: CompileLimitDimension::StageScratchBytes, limit: 15, observed: 16 }
    ));
    let values = [0_u64, 0_u64];
    assert!(scratch.collect(&values).is_err());
    assert_eq!(scratch.live_bytes(), 0);
}

#[test]
fn simultaneous_requests_count_until_their_scopes_end() {
    let limits = CompileLimits::p100_initial_v1().with_test_admission_limit(CompileLimitDimension::StageScratchBytes, 48);
    let mut scratch = PreflightScratch::new(&limits, 0);
    let first = scratch.collect(&[0_u64, 1, 2, 3]).unwrap();
    let second = scratch.collect(&[0_u64, 1]).unwrap();
    assert_eq!(scratch.live_bytes(), 48);
    assert!(scratch.collect(&[0_u64]).is_err());
    assert_eq!(scratch.live_bytes(), 48);
    scratch.release_vec(second);
    let retry = scratch.collect(&[0_u64, 1]).unwrap();
    scratch.release_vec(first);
    scratch.release_vec(retry);
    assert_eq!(scratch.live_bytes(), 0);
    assert_eq!(scratch.peak_bytes(), 48);
}

#[test]
fn existing_modules_consume_the_same_live_budget() {
    let limits =
        CompileLimits::p100_initial_v1().with_test_admission_limit(CompileLimitDimension::CompilerControlledLiveBytes, 35);
    let mut scratch = PreflightScratch::new(&limits, 20);
    let error = match scratch.collect(&[0_u64, 1]) {
        Ok(_) => panic!("existing modules and scratch exceed the live budget"),
        Err(error) => error,
    };
    assert!(matches!(
        error.diagnostics()[0].payload(),
        DiagnosticPayload::CompileLimitExceeded {
            dimension: CompileLimitDimension::CompilerControlledLiveBytes,
            limit: 35,
            observed: 36,
        }
    ));
    assert_eq!(scratch.peak_bytes(), 0);
    let mut exact = PreflightScratch::new(&limits, 19);
    assert!(exact.collect(&[0_u64, 1]).is_ok());
}

#[test]
fn unrepresentable_capacity_is_rejected_before_allocation() {
    let limits = CompileLimits::single_network_1m_v2();
    let mut scratch = PreflightScratch::new(&limits, 0);
    assert!(scratch.reserve::<u64>(usize::MAX).is_err());
    assert!(scratch.reserve::<u8>(isize::MAX as usize + 1).is_err());
    assert_eq!(scratch.peak_bytes(), 0);
}

#[test]
fn duplicate_witness_keeps_the_first_source_index() {
    let limits = CompileLimits::p100_initial_v1();
    let mut scratch = PreflightScratch::new(&limits, 0);
    let names = ["0", "1", "2", "3"];
    for mut seed in 0..1_024 {
        let values: Vec<usize> = (0..5)
            .map(|_| {
                let value = seed % 4;
                seed /= 4;
                value
            })
            .collect();
        let expected = values.iter().enumerate().find_map(|(index, left)| {
            if values[index + 1..].contains(left) {
                Some(index)
            } else {
                None
            }
        });
        let keys: Vec<(&str, &str)> = values.iter().map(|v| (names[*v], "")).collect();
        assert_eq!(first_duplicate_index::<(&str, &str)>(&keys, &mut scratch).unwrap(), expected);
        assert_eq!(scratch.live_bytes(), 0);
    }
}

#[test]
fn scratch_budget_precedes_duplicate_only_when_the_index_cannot_fit() {
    let limits = CompileLimits::p100_initial_v1().with_test_admission_limit(CompileLimitDimension::StageScratchBytes, 0);
    let mut scratch = PreflightScratch::new(&limits, 0);
    let error = ensure_unique_strings(&["a", "a"], "keys", "source", &mut scratch).unwrap_err();
    assert!(matches!(
        error.diagnostics()[0].payload(),
        DiagnosticPayload::CompileLimitExceeded { dimension: CompileLimitDimension::StageScratchBytes, .. }
    ));
    let exact = limits
        .with_test_admission_limit(CompileLimitDimension::StageScratchBytes, (2 * std::mem::size_of::<&str>()) as u64);
    let mut scratch = PreflightScratch::new(&exact, 0);
    let error = ensure_unique_strings(&["a", "a"], "keys", "source", &mut scratch).unwrap_err();
    assert!(matches!(
        error.diagnostics()[0].payload(),
        DiagnosticPayload::InvalidRoadEditingSource {
            violation: RoadEditingSourceViolation::InvalidSemanticValue(RoadEditingInputViolation::DuplicateValue),
            ..
        }
    ));
}

#[test]
fn sorted_duplicates_match_pairwise_spelling_and_namespace_rules() {
    let limits = CompileLimits::p100_initial_v1();
    let mut scratch = PreflightScratch::new(&limits, 0);
    let alphabet = ["a", "city::a", "other::a", "b", "", "::a", "a::b::c"];
    for size in 0..=4_u32 {
        for mut seed in 0..alphabet.len().pow(size) {
            let values: Vec<&str> = (0..size)
                .map(|_| {
                    let value = alphabet[seed % alphabet.len()];
                    seed /= alphabet.len();
                    value
                })
                .collect();
            let mut duplicate_string = false;
            let mut duplicate_reference = false;
            for (index, left) in values.iter().enumerate() {
                for right in &values[index + 1..] {
                    duplicate_string |= left == right;
                    let left_parts = left.split_once("::").unwrap_or(("city", left));
                    let right_parts = right.split_once("::").unwrap_or(("city", right));
                    duplicate_reference |= left_parts == right_parts;
                }
            }
            let spelling = ensure_unique_strings(&values, "keys", "source", &mut scratch);
            let references = ensure_unique_references(&values, "city", "keys", "source", &mut scratch);
            assert_eq!(spelling.is_err(), duplicate_string, "{values:?}");
            assert_eq!(references.is_err(), duplicate_reference, "{values:?}");
            for error in [spelling.err(), references.err()].into_iter().flatten() {
                assert_eq!(
                    format!("{error:?}"),
                    format!("{:?}", semantic_error("keys", RoadEditingInputViolation::DuplicateValue, "source",))
                );
            }
        }
    }
}
