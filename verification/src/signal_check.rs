//! Field preflight of the signal tables of a verified source: stop lines,
//! signal groups, signal controllers and signal phases are checked in order
//! and charged into the usage counts before any domain allocation.

use vstd::prelude::*;
use vstd::string::StringSliceAdditionalSpecFns;

use crate::declaration::EntityKind;
use crate::diagnostic::{DiagnosticBundle, RoadEditingInputViolation};
use crate::limits::{CompileLimitDimension, CompileLimits};
use crate::links::{SignalControllerLinks, SignalPhaseLinks, SignalPhaseStateLinks, WireSignalAspect};
use crate::preflight::{
    lemma_reference_vector_step_restored,
    canvas_step, ensure_unique_by, ensure_unique_strings, fold_steps, has_duplicate, invalid_combination,
    lemma_fold_all, lemma_fold_extend, lemma_fold_stops, reference_parts_spec, reference_step,
    reference_vector_step, references_equal, sat_add, scratch_restored, semantic_error, signal_time_step,
    stage_reports, strs_repeat, token_step, unique_need, unique_step, reference_vector_need, validate_portable_signal_time, validate_reference_vector,
    RoadEditingPreflightCounts, StageFailure,
};
use crate::scratch::{lemma_max_need_all, lemma_max_need_extend, max_nat, max_need, peak_lifted, scratch_request, PreflightScratch};
use crate::text::{find_double_colon, has_double_colon};

verus! {

/// A stop line: its key, its lane edge and its canvas selection.
#[derive(Clone, Copy, Debug)]
pub struct StopLineLinks<'a> {
    pub stop_line_key: &'a str,
    pub lane_edge: &'a str,
    pub canvas_selection: Option<&'a str>,
}

/// A signal group: its key and its canvas selection.
#[derive(Clone, Copy, Debug)]
pub struct SignalGroupLinks<'a> {
    pub signal_group_key: &'a str,
    pub canvas_selection: Option<&'a str>,
}

/// The single-string limit of a scratch pass.
pub open spec fn string_limit(scratch: PreflightScratch) -> u64 {
    scratch.spec_limits().spec_value(CompileLimitDimension::SingleStringBytes)
}

/// Then `f` after `r`, unless `r` failed.
pub open spec fn and_then(
    r: Result<RoadEditingPreflightCounts, StageFailure>,
    f: spec_fn(RoadEditingPreflightCounts) -> Result<RoadEditingPreflightCounts, StageFailure>,
) -> Result<RoadEditingPreflightCounts, StageFailure> {
    match r {
        Err(e) => Err(e),
        Ok(c) => f(c),
    }
}

/// Checks and charges one stop line.
pub open spec fn stop_line_step(
    c: RoadEditingPreflightCounts,
    s: StopLineLinks,
    namespace: Seq<u8>,
    imports: Seq<&str>,
    limit: u64,
) -> Result<RoadEditingPreflightCounts, StageFailure> {
    let c1 = c.with_declaration(EntityKind::StopLine);
    and_then(
        and_then(
            token_step(c1, s.stop_line_key.spec_bytes(), limit, "stopLine.stopLineKey"@),
            |c2: RoadEditingPreflightCounts|
                reference_step(c2, s.lane_edge.spec_bytes(), 1, true, namespace, imports, limit, "stopLine.laneEdge"@),
        ),
        |c3: RoadEditingPreflightCounts| canvas_step(c3, s.canvas_selection, limit),
    )
}

/// Checks and charges one signal group.
pub open spec fn signal_group_step(c: RoadEditingPreflightCounts, g: SignalGroupLinks, limit: u64) -> Result<
    RoadEditingPreflightCounts,
    StageFailure,
> {
    let c1 = c.with_declaration(EntityKind::SignalGroup);
    and_then(
        token_step(c1, g.signal_group_key.spec_bytes(), limit, "signalGroup.signalGroupKey"@),
        |c2: RoadEditingPreflightCounts| canvas_step(c2, g.canvas_selection, limit),
    )
}

/// The keys of the stop lines.
pub open spec fn stop_line_keys<'a>(s: Seq<StopLineLinks<'a>>) -> Seq<&'a str> {
    s.map_values(|x: StopLineLinks<'a>| x.stop_line_key)
}

/// The keys of the signal groups.
pub open spec fn signal_group_keys<'a>(g: Seq<SignalGroupLinks<'a>>) -> Seq<&'a str> {
    g.map_values(|x: SignalGroupLinks<'a>| x.signal_group_key)
}

/// The outcome of the stop line and signal group stage: distinct stop line
/// keys, each stop line, distinct signal group keys, each signal group.
#[verifier::opaque]
pub open spec fn stop_lines_and_groups_outcome(
    c: RoadEditingPreflightCounts,
    stop_lines: Seq<StopLineLinks>,
    groups: Seq<SignalGroupLinks>,
    namespace: Seq<u8>,
    imports: Seq<&str>,
    scratch: PreflightScratch,
) -> Result<RoadEditingPreflightCounts, StageFailure> {
    let limit = string_limit(scratch);
    match unique_step::<&str>(stop_lines.len(), strs_repeat(stop_line_keys(stop_lines)), scratch, "stopLines.stopLineKey"@) {
        Some(f) => Err(f),
        None => match fold_steps(
            c,
            stop_lines,
            |c: RoadEditingPreflightCounts, i: int, s: StopLineLinks| stop_line_step(c, s, namespace, imports, limit),
        ) {
            Err(f) => Err(f),
            Ok(c1) => match unique_step::<&str>(
                groups.len(),
                strs_repeat(signal_group_keys(groups)),
                scratch,
                "signalGroups.signalGroupKey"@,
            ) {
                Some(f) => Err(f),
                None => fold_steps(
                    c1,
                    groups,
                    |c: RoadEditingPreflightCounts, i: int, g: SignalGroupLinks| signal_group_step(c, g, limit),
                ),
            },
        },
    }
}

/// Checks and charges the stop lines, then the signal groups.
pub fn validate_stop_lines_and_signal_groups(
    usage: &mut RoadEditingPreflightCounts,
    stop_lines: &[StopLineLinks],
    groups: &[SignalGroupLinks],
    namespace: &str,
    imports: &[&str],
    scratch: &mut PreflightScratch,
    expected_key: &str,
) -> (r: Result<(), DiagnosticBundle>)
    ensures
        match stop_lines_and_groups_outcome(*old(usage), stop_lines@, groups@, namespace.spec_bytes(), imports@, *old(scratch)) {
            Ok(c) => r is Ok && *final(usage) == c,
            Err(f) => r matches Err(b) && stage_reports(b, f, expected_key@),
        },
        scratch_restored(*old(scratch), *final(scratch)),
        r is Ok ==> peak_lifted(*old(scratch), *final(scratch), max_nat(unique_need::<&str>(stop_lines@.len()), unique_need::<&str>(groups@.len()))),
{
    proof {
        reveal(stop_lines_and_groups_outcome);
    }
    let limits = *scratch.limits();
    let ghost limit = string_limit(*scratch);
    let mut keys: Vec<&str> = Vec::new();
    let mut i: usize = 0;
    while i < stop_lines.len()
        invariant
            i <= stop_lines@.len(),
            keys@ == stop_line_keys(stop_lines@.take(i as int)),
        decreases stop_lines@.len() - i,
    {
        keys.push(stop_lines[i].stop_line_key);
        proof {
            assert(stop_line_keys(stop_lines@.take(i + 1)) =~= stop_line_keys(stop_lines@.take(i as int)).push(
                stop_lines@[i as int].stop_line_key,
            ));
        }
        i = i + 1;
    }
    proof {
        assert(stop_lines@.take(i as int) =~= stop_lines@);
    }
    ensure_unique_strings(keys.as_slice(), "stopLines.stopLineKey", expected_key, scratch)?;
    let ghost s1 = *scratch;
    let ghost step = |c: RoadEditingPreflightCounts, i: int, s: StopLineLinks|
        stop_line_step(c, s, namespace.spec_bytes(), imports@, limit);
    let ghost start = *usage;
    let mut i: usize = 0;
    while i < stop_lines.len()
        invariant
            i <= stop_lines@.len(),
            *scratch == s1,
            scratch_restored(*old(scratch), s1),
            start == *old(usage),
            limit == string_limit(*old(scratch)),
            limits == old(scratch).spec_limits(),
            unique_step::<&str>(stop_lines@.len(), strs_repeat(stop_line_keys(stop_lines@)), *old(scratch), "stopLines.stopLineKey"@) is None,
            step == (|c: RoadEditingPreflightCounts, i: int, s: StopLineLinks|
                stop_line_step(c, s, namespace.spec_bytes(), imports@, limit)),
            fold_steps(start, stop_lines@.take(i as int), step) == Ok::<RoadEditingPreflightCounts, StageFailure>(*usage),
        decreases stop_lines@.len() - i,
    {
        proof {
            lemma_fold_extend(start, stop_lines@, step, i as int);
        }
        let s = stop_lines[i];
        usage.charge_declaration(EntityKind::StopLine);
        let r1 = usage.charge_token(s.stop_line_key, "stopLine.stopLineKey", &limits, expected_key);
        let r2 = match r1 {
            Ok(()) => usage.charge_reference(s.lane_edge, 1, true, "stopLine.laneEdge", namespace, imports, &limits, expected_key),
            Err(e) => Err(e),
        };
        let r3 = match r2 {
            Ok(()) => usage.charge_canvas(s.canvas_selection, &limits, expected_key),
            Err(e) => Err(e),
        };
        match r3 {
            Ok(()) => {},
            Err(e) => {
                proof {
                    reveal(stop_lines_and_groups_outcome);
                    lemma_fold_stops(start, stop_lines@, step, i + 1);
                }
                return Err(e);
            },
        }
        i = i + 1;
    }
    proof {
        lemma_fold_all(start, stop_lines@, step);
    }
    let mut group_keys: Vec<&str> = Vec::new();
    let mut j: usize = 0;
    while j < groups.len()
        invariant
            j <= groups@.len(),
            group_keys@ == signal_group_keys(groups@.take(j as int)),
        decreases groups@.len() - j,
    {
        group_keys.push(groups[j].signal_group_key);
        proof {
            assert(signal_group_keys(groups@.take(j + 1)) =~= signal_group_keys(groups@.take(j as int)).push(
                groups@[j as int].signal_group_key,
            ));
        }
        j = j + 1;
    }
    proof {
        assert(groups@.take(j as int) =~= groups@);
    }
    ensure_unique_strings(group_keys.as_slice(), "signalGroups.signalGroupKey", expected_key, scratch)?;
    let ghost s2 = *scratch;
    let ghost gstep = |c: RoadEditingPreflightCounts, i: int, g: SignalGroupLinks| signal_group_step(c, g, limit);
    let ghost middle = *usage;
    let mut i: usize = 0;
    while i < groups.len()
        invariant
            i <= groups@.len(),
            *scratch == s2,
            scratch_restored(*old(scratch), s2),
            limit == string_limit(*old(scratch)),
            limits == old(scratch).spec_limits(),
            stop_lines_and_groups_outcome(*old(usage), stop_lines@, groups@, namespace.spec_bytes(), imports@, *old(scratch))
                == fold_steps(middle, groups@, gstep),
            gstep == (|c: RoadEditingPreflightCounts, i: int, g: SignalGroupLinks| signal_group_step(c, g, limit)),
            fold_steps(middle, groups@.take(i as int), gstep) == Ok::<RoadEditingPreflightCounts, StageFailure>(*usage),
        decreases groups@.len() - i,
    {
        proof {
            lemma_fold_extend(middle, groups@, gstep, i as int);
        }
        let g = groups[i];
        usage.charge_declaration(EntityKind::SignalGroup);
        let r1 = usage.charge_token(g.signal_group_key, "signalGroup.signalGroupKey", &limits, expected_key);
        let r2 = match r1 {
            Ok(()) => usage.charge_canvas(g.canvas_selection, &limits, expected_key),
            Err(e) => Err(e),
        };
        match r2 {
            Ok(()) => {},
            Err(e) => {
                proof {
                    reveal(stop_lines_and_groups_outcome);
                    lemma_fold_stops(middle, groups@, gstep, i + 1);
                }
                return Err(e);
            },
        }
        i = i + 1;
    }
    proof {
        lemma_fold_all(middle, groups@, gstep);
    }
    Ok(())
}

/// Some later signal group of `groups` names the same target as the one at `i`.
pub open spec fn later_same_target(groups: Seq<&str>, namespace: Seq<u8>, i: int) -> bool {
    exists|j: int|
        i < j < groups.len() && reference_parts_spec((#[trigger] groups[j]).spec_bytes(), namespace)
            == reference_parts_spec(groups[i].spec_bytes(), namespace)
}

/// `i` is the earliest position whose target occurs again later.
pub open spec fn is_first_same_target(groups: Seq<&str>, namespace: Seq<u8>, i: int) -> bool {
    &&& 0 <= i < groups.len()
    &&& later_same_target(groups, namespace, i)
    &&& forall|p: int| 0 <= p < i ==> !#[trigger] later_same_target(groups, namespace, p)
}

/// The earliest position whose target occurs again later, if any.
pub open spec fn first_same_target(groups: Seq<&str>, namespace: Seq<u8>) -> Option<int> {
    if exists|i: int| 0 <= i < groups.len() && #[trigger] later_same_target(groups, namespace, i) {
        Some(choose|i: int| is_first_same_target(groups, namespace, i))
    } else {
        None
    }
}

/// The duplicate index of the states of a phase: none for fewer than two
/// states; otherwise room for it in the scratch pass, then the earliest state
/// whose target repeats.
pub open spec fn duplicate_request(groups: Seq<&str>, namespace: Seq<u8>, scratch: PreflightScratch) -> Result<
    Option<int>,
    (CompileLimitDimension, u64, u64),
> {
    if groups.len() < 2 {
        Ok(None)
    } else {
        match scratch_request(
            scratch.spec_limits(),
            scratch.admitted(),
            scratch.live(),
            (groups.len() * vstd::layout::size_of::<((&str, &str), usize)>()) as int,
        ) {
            Err(l) => Err(l),
            Ok(_) => Ok(first_same_target(groups, namespace)),
        }
    }
}

/// Whether a later state names the same target as the state at `i`.
fn later_match(states: &[SignalPhaseStateLinks], i: usize, namespace: &str) -> (r: bool)
    requires
        i < states@.len(),
    ensures
        r == later_same_target(crate::links::state_groups(states@), namespace.spec_bytes(), i as int),
{
    let ghost groups = crate::links::state_groups(states@);
    let ghost ns = namespace.spec_bytes();
    if i == states.len() - 1 {
        return false;
    }
    let mut j: usize = i + 1;
    while j < states.len()
        invariant
            i < states@.len(),
            i + 1 <= j <= states@.len(),
            groups == crate::links::state_groups(states@),
            ns == namespace.spec_bytes(),
            forall|q: int|
                i < q < j ==> reference_parts_spec((#[trigger] groups[q]).spec_bytes(), ns) != reference_parts_spec(
                    groups[i as int].spec_bytes(),
                    ns,
                ),
        decreases states@.len() - j,
    {
        assert(groups[j as int] == states@[j as int].signal_group);
        assert(groups[i as int] == states@[i as int].signal_group);
        if references_equal(states[j].signal_group, states[i].signal_group, namespace) {
            return true;
        }
        j = j + 1;
    }
    false
}

/// Reserves room for the duplicate index of the states and finds the earliest
/// state whose target repeats; see [`duplicate_request`].
fn first_state_duplicate(
    states: &[SignalPhaseStateLinks],
    namespace: &str,
    scratch: &mut PreflightScratch,
) -> (r: Result<Option<usize>, DiagnosticBundle>)
    ensures
        match duplicate_request(crate::links::state_groups(states@), namespace.spec_bytes(), *old(scratch)) {
            Err((d, l, o)) => r matches Err(b) && b.is_limit_error(d, l, o),
            Ok(None) => r == Ok::<Option<usize>, DiagnosticBundle>(None),
            Ok(Some(i)) => 0 <= i < states@.len() && r == Ok::<Option<usize>, DiagnosticBundle>(Some(i as usize)),
        },
        scratch_restored(*old(scratch), *final(scratch)),
        r is Ok ==> peak_lifted(*old(scratch), *final(scratch), unique_need::<((&str, &str), usize)>(states@.len())),
{
    let ghost groups = crate::links::state_groups(states@);
    let ghost ns = namespace.spec_bytes();
    if states.len() < 2 {
        return Ok(None);
    }
    let bytes = scratch.reserve::<((&str, &str), usize)>(states.len())?;
    let ghost s1 = *scratch;
    let mut i: usize = 0;
    while i < states.len()
        invariant
            i <= states@.len(),
            groups == crate::links::state_groups(states@),
            ns == namespace.spec_bytes(),
            *scratch == s1,
            s1.live() >= bytes,
            s1.live() - bytes == old(scratch).live(),
            s1.spec_limits() == old(scratch).spec_limits(),
            s1.admitted() == old(scratch).admitted(),
            old(scratch).peak() <= s1.peak(),
            peak_lifted(*old(scratch), s1, unique_need::<((&str, &str), usize)>(states@.len())),
            states@.len() >= 2,
            scratch_request(
                old(scratch).spec_limits(),
                old(scratch).admitted(),
                old(scratch).live(),
                (states@.len() * vstd::layout::size_of::<((&str, &str), usize)>()) as int,
            ) is Ok,
            forall|p: int| 0 <= p < i ==> !#[trigger] later_same_target(groups, ns, p),
        decreases states@.len() - i,
    {
        if later_match(states, i, namespace) {
            scratch.release(bytes);
            proof {
                let k = choose|k: int| is_first_same_target(groups, ns, k);
                assert(is_first_same_target(groups, ns, i as int));
                assert(is_first_same_target(groups, ns, k));
                if k < i {
                    assert(!later_same_target(groups, ns, k));
                }
                if i < k {
                    assert(!later_same_target(groups, ns, i as int));
                }
            }
            return Ok(Some(i));
        }
        i = i + 1;
    }
    scratch.release(bytes);
    Ok(None)
}

/// Checks and charges one state of a phase, `duplicate` being the earliest
/// state whose target repeats.
pub open spec fn state_step(
    c: RoadEditingPreflightCounts,
    i: int,
    st: SignalPhaseStateLinks,
    duplicate: Option<int>,
    namespace: Seq<u8>,
    imports: Seq<&str>,
    limit: u64,
) -> Result<RoadEditingPreflightCounts, StageFailure> {
    let c1 = RoadEditingPreflightCounts { typed_ast_record_count: sat_add(c.typed_ast_record_count, 1), ..c };
    if has_double_colon(st.signal_group.spec_bytes()) {
        Err(Err(("signalPhase.states.signalGroup"@, RoadEditingInputViolation::InvalidCombination)))
    } else {
        match reference_step(
            c1,
            st.signal_group.spec_bytes(),
            1,
            true,
            namespace,
            imports,
            limit,
            "signalPhase.states.signalGroup"@,
        ) {
            Err(f) => Err(f),
            Ok(c2) => if st.aspect is Other {
                Err(Err(("signalPhase.states.aspect"@, RoadEditingInputViolation::InvalidCombination)))
            } else if duplicate == Some(i) {
                Err(Err(("signalPhase.states.signalGroup"@, RoadEditingInputViolation::DuplicateValue)))
            } else {
                Ok(c2)
            },
        }
    }
}

/// Checks and charges one signal phase: key, duration, non-empty states
/// counted as relations, each state, its controller and its canvas selection.
pub open spec fn phase_step(
    c: RoadEditingPreflightCounts,
    p: SignalPhaseLinks,
    namespace: Seq<u8>,
    imports: Seq<&str>,
    scratch: PreflightScratch,
) -> Result<RoadEditingPreflightCounts, StageFailure> {
    let limit = string_limit(scratch);
    let c1 = c.with_declaration(EntityKind::SignalPhase);
    let n = p.states@.len();
    match token_step(c1, p.signal_phase_key.spec_bytes(), limit, "signalPhase.signalPhaseKey"@) {
        Err(f) => Err(f),
        Ok(c2) => match signal_time_step(c2, p.duration_milliseconds, false, "signalPhase.durationMilliseconds"@) {
            Err(f) => Err(f),
            Ok(c3) => if n == 0 {
                Err(Err(("signalPhase.states"@, RoadEditingInputViolation::EmptyCollection)))
            } else {
                let c4 = RoadEditingPreflightCounts {
                    relation_occurrence_count: sat_add(c3.relation_occurrence_count, n as int),
                    ..c3
                };
                match duplicate_request(crate::links::state_groups(p.states@), namespace, scratch) {
                    Err(l) => Err(Ok(l)),
                    Ok(duplicate) => match fold_steps(
                        c4,
                        p.states@,
                        |c: RoadEditingPreflightCounts, i: int, st: SignalPhaseStateLinks|
                            state_step(c, i, st, duplicate, namespace, imports, limit),
                    ) {
                        Err(f) => Err(f),
                        Ok(c5) => match reference_step(
                            c5,
                            p.signal_controller.spec_bytes(),
                            1,
                            false,
                            namespace,
                            imports,
                            limit,
                            "signalPhase.signalController"@,
                        ) {
                            Err(f) => Err(f),
                            Ok(c6) => canvas_step(c6, p.canvas_selection, limit),
                        },
                    },
                }
            },
        },
    }
}

/// Checks and charges one signal phase; see [`phase_step`].
pub fn check_signal_phase(
    usage: &mut RoadEditingPreflightCounts,
    phase: &SignalPhaseLinks,
    namespace: &str,
    imports: &[&str],
    scratch: &mut PreflightScratch,
    expected_key: &str,
) -> (r: Result<(), DiagnosticBundle>)
    ensures
        match phase_step(*old(usage), *phase, namespace.spec_bytes(), imports@, *old(scratch)) {
            Ok(c) => r is Ok && *final(usage) == c,
            Err(f) => r matches Err(b) && stage_reports(b, f, expected_key@),
        },
        scratch_restored(*old(scratch), *final(scratch)),
        r is Ok ==> peak_lifted(*old(scratch), *final(scratch), phase_need()(*phase)),
{
    let limits = *scratch.limits();
    usage.charge_declaration(EntityKind::SignalPhase);
    usage.charge_token(phase.signal_phase_key, "signalPhase.signalPhaseKey", &limits, expected_key)?;
    validate_portable_signal_time(phase.duration_milliseconds, false, "signalPhase.durationMilliseconds", expected_key)?;
    let states = phase.states.as_slice();
    if states.len() == 0 {
        return Err(semantic_error("signalPhase.states", RoadEditingInputViolation::EmptyCollection, expected_key));
    }
    usage.charge_relation(states.len());
    let duplicate = first_state_duplicate(states, namespace, scratch)?;
    let ghost dup: Option<int> = match duplicate {
        Some(d) => Some(d as int),
        None => None,
    };
    let ghost limit = string_limit(*old(scratch));
    let ghost step = |c: RoadEditingPreflightCounts, i: int, st: SignalPhaseStateLinks|
        state_step(c, i, st, dup, namespace.spec_bytes(), imports@, limit);
    let ghost start = *usage;
    let ghost s1 = *scratch;
    assert(duplicate_request(crate::links::state_groups(states@), namespace.spec_bytes(), *old(scratch)) == Ok::<
        Option<int>,
        (CompileLimitDimension, u64, u64),
    >(dup));
    let mut i: usize = 0;
    while i < states.len()
        invariant
            i <= states@.len(),
            states@ == phase.states@,
            *scratch == s1,
            scratch_restored(*old(scratch), s1),
            limits == old(scratch).spec_limits(),
            limit == string_limit(*old(scratch)),
            dup == match duplicate {
                Some(d) => Some(d as int),
                None => None::<int>,
            },
            phase_step(*old(usage), *phase, namespace.spec_bytes(), imports@, *old(scratch)) == match fold_steps(
                start,
                states@,
                step,
            ) {
                Err(f) => Err(f),
                Ok(c5) => match reference_step(
                    c5,
                    phase.signal_controller.spec_bytes(),
                    1,
                    false,
                    namespace.spec_bytes(),
                    imports@,
                    limit,
                    "signalPhase.signalController"@,
                ) {
                    Err(f) => Err(f),
                    Ok(c6) => canvas_step(c6, phase.canvas_selection, limit),
                },
            },
            step == (|c: RoadEditingPreflightCounts, i: int, st: SignalPhaseStateLinks|
                state_step(c, i, st, dup, namespace.spec_bytes(), imports@, limit)),
            fold_steps(start, states@.take(i as int), step) == Ok::<RoadEditingPreflightCounts, StageFailure>(*usage),
        decreases states@.len() - i,
    {
        proof {
            lemma_fold_extend(start, states@, step, i as int);
        }
        let st = states[i];
        usage.typed_ast_record_count = usage.typed_ast_record_count.saturating_add(1);
        let ok = if find_double_colon(st.signal_group.as_bytes()).is_some() {
            Err(invalid_combination("signalPhase.states.signalGroup", expected_key))
        } else {
            match usage.charge_reference(
                st.signal_group,
                1,
                true,
                "signalPhase.states.signalGroup",
                namespace,
                imports,
                &limits,
                expected_key,
            ) {
                Err(e) => Err(e),
                Ok(()) => match st.aspect {
                    WireSignalAspect::Other(_) => Err(invalid_combination("signalPhase.states.aspect", expected_key)),
                    _ => {
                        if duplicate == Some(i) {
                            Err(
                                semantic_error(
                                    "signalPhase.states.signalGroup",
                                    RoadEditingInputViolation::DuplicateValue,
                                    expected_key,
                                ),
                            )
                        } else {
                            Ok(())
                        }
                    },
                },
            }
        };
        match ok {
            Ok(()) => {},
            Err(e) => {
                proof {
                    lemma_fold_stops(start, states@, step, i + 1);
                }
                return Err(e);
            },
        }
        i = i + 1;
    }
    proof {
        lemma_fold_all(start, states@, step);
    }
    usage.charge_reference(
        phase.signal_controller,
        1,
        false,
        "signalPhase.signalController",
        namespace,
        imports,
        &limits,
        expected_key,
    )?;
    usage.charge_canvas(phase.canvas_selection, &limits, expected_key)
}

/// Checks and charges one signal controller: key, offset, its non-empty,
/// distinct signal groups and phases as relations, and its canvas selection.
pub open spec fn controller_step(
    c: RoadEditingPreflightCounts,
    ctl: SignalControllerLinks,
    namespace: Seq<u8>,
    imports: Seq<&str>,
    scratch: PreflightScratch,
) -> Result<RoadEditingPreflightCounts, StageFailure> {
    let limit = string_limit(scratch);
    let c1 = c.with_declaration(EntityKind::SignalController);
    match token_step(c1, ctl.signal_controller_key.spec_bytes(), limit, "signalController.signalControllerKey"@) {
        Err(f) => Err(f),
        Ok(c2) => match signal_time_step(c2, ctl.offset_milliseconds, true, "signalController.offsetMilliseconds"@) {
            Err(f) => Err(f),
            Ok(c3) => match reference_vector_step(
                c3,
                ctl.signal_groups@,
                1,
                "signalController.signalGroups"@,
                true,
                true,
                true,
                namespace,
                imports,
                scratch,
            ) {
                Err(f) => Err(f),
                Ok(c4) => match reference_vector_step(
                    c4,
                    ctl.signal_phases@,
                    2,
                    "signalController.signalPhases"@,
                    true,
                    true,
                    true,
                    namespace,
                    imports,
                    scratch,
                ) {
                    Err(f) => Err(f),
                    Ok(c5) => canvas_step(c5, ctl.canvas_selection, limit),
                },
            },
        },
    }
}

/// Checks and charges one signal controller; see [`controller_step`].
pub fn check_signal_controller(
    usage: &mut RoadEditingPreflightCounts,
    controller: &SignalControllerLinks,
    namespace: &str,
    imports: &[&str],
    scratch: &mut PreflightScratch,
    expected_key: &str,
) -> (r: Result<(), DiagnosticBundle>)
    ensures
        match controller_step(*old(usage), *controller, namespace.spec_bytes(), imports@, *old(scratch)) {
            Ok(c) => r is Ok && *final(usage) == c,
            Err(f) => r matches Err(b) && stage_reports(b, f, expected_key@),
        },
        scratch_restored(*old(scratch), *final(scratch)),
        r is Ok ==> peak_lifted(*old(scratch), *final(scratch), controller_need()(*controller)),
{
    let limits = *scratch.limits();
    let ghost s0 = *scratch;
    usage.charge_declaration(EntityKind::SignalController);
    usage.charge_token(controller.signal_controller_key, "signalController.signalControllerKey", &limits, expected_key)?;
    validate_portable_signal_time(
        controller.offset_milliseconds,
        true,
        "signalController.offsetMilliseconds",
        expected_key,
    )?;
    validate_reference_vector(
        usage,
        controller.signal_groups.as_slice(),
        1,
        "signalController.signalGroups",
        true,
        true,
        true,
        namespace,
        imports,
        scratch,
        expected_key,
    )?;
    let ghost s1 = *scratch;
    proof {
        lemma_reference_vector_step_restored(
            *usage,
            controller.signal_phases@,
            2,
            "signalController.signalPhases"@,
            true,
            namespace.spec_bytes(),
            imports@,
            s0,
            s1,
        );
    }
    validate_reference_vector(
        usage,
        controller.signal_phases.as_slice(),
        2,
        "signalController.signalPhases",
        true,
        true,
        true,
        namespace,
        imports,
        scratch,
        expected_key,
    )?;
    usage.charge_canvas(controller.canvas_selection, &limits, expected_key)
}

/// The scratch need of one signal phase: the duplicate index of its states.
pub open spec fn phase_need<'a>() -> spec_fn(SignalPhaseLinks<'a>) -> nat {
    |x: SignalPhaseLinks<'a>| unique_need::<((&str, &str), usize)>(x.states@.len())
}

/// The scratch need of one signal controller: the index of its signal
/// groups or of its signal phases.
pub open spec fn controller_need<'a>() -> spec_fn(SignalControllerLinks<'a>) -> nat {
    |x: SignalControllerLinks<'a>| max_nat(
        reference_vector_need(x.signal_groups@.len(), true),
        reference_vector_need(x.signal_phases@.len(), true),
    )
}

/// The scratch need of the signal controller and phase stage: the index of
/// the controller keys, one controller, the index of the phase addresses, or
/// one phase.
pub open spec fn controllers_and_phases_need(controllers: Seq<SignalControllerLinks>, phases: Seq<SignalPhaseLinks>) -> nat {
    max_nat(
        max_nat(unique_need::<&str>(controllers.len()), max_need(controllers, controller_need())),
        max_nat(unique_need::<(&str, &str)>(phases.len()), max_need(phases, phase_need())),
    )
}

/// The keys of the signal controllers.
pub open spec fn controller_keys<'a>(cs: Seq<SignalControllerLinks<'a>>) -> Seq<&'a str> {
    cs.map_values(|x: SignalControllerLinks<'a>| x.signal_controller_key)
}

/// The `(controller, key)` addresses of the signal phases.
pub open spec fn phase_addresses<'a>(ps: Seq<SignalPhaseLinks<'a>>) -> Seq<(&'a str, &'a str)> {
    ps.map_values(|x: SignalPhaseLinks<'a>| (x.signal_controller, x.signal_phase_key))
}

/// The outcome of the signal controller and phase stage: distinct controller
/// keys, each controller, distinct phase addresses, each phase.
#[verifier::opaque]
pub open spec fn controllers_and_phases_outcome(
    c: RoadEditingPreflightCounts,
    controllers: Seq<SignalControllerLinks>,
    phases: Seq<SignalPhaseLinks>,
    namespace: Seq<u8>,
    imports: Seq<&str>,
    scratch: PreflightScratch,
) -> Result<RoadEditingPreflightCounts, StageFailure> {
    match unique_step::<&str>(
        controllers.len(),
        strs_repeat(controller_keys(controllers)),
        scratch,
        "signalControllers.signalControllerKey"@,
    ) {
        Some(f) => Err(f),
        None => match fold_steps(
            c,
            controllers,
            |c: RoadEditingPreflightCounts, i: int, x: SignalControllerLinks|
                controller_step(c, x, namespace, imports, scratch),
        ) {
            Err(f) => Err(f),
            Ok(c1) => match unique_step::<(&str, &str)>(
                phases.len(),
                has_duplicate(phase_addresses(phases)),
                scratch,
                "signalPhases.address"@,
            ) {
                Some(f) => Err(f),
                None => fold_steps(
                    c1,
                    phases,
                    |c: RoadEditingPreflightCounts, i: int, x: SignalPhaseLinks| phase_step(c, x, namespace, imports, scratch),
                ),
            },
        },
    }
}

/// Controller and phase checks read only the limits and the live bytes of
/// the scratch pass.
proof fn lemma_steps_restored(
    controllers: Seq<SignalControllerLinks>,
    phases: Seq<SignalPhaseLinks>,
    namespace: Seq<u8>,
    imports: Seq<&str>,
    a: PreflightScratch,
    b: PreflightScratch,
)
    requires
        scratch_restored(a, b),
    ensures
        forall|c: RoadEditingPreflightCounts, x: SignalControllerLinks|
            #[trigger] controller_step(c, x, namespace, imports, a) == controller_step(c, x, namespace, imports, b),
        forall|c: RoadEditingPreflightCounts, x: SignalPhaseLinks|
            #[trigger] phase_step(c, x, namespace, imports, a) == phase_step(c, x, namespace, imports, b),
{
    assert forall|c: RoadEditingPreflightCounts, x: SignalControllerLinks|
        #[trigger] controller_step(c, x, namespace, imports, a) == controller_step(c, x, namespace, imports, b) by {
        assert forall|c3: RoadEditingPreflightCounts|
            reference_vector_step(c3, x.signal_groups@, 1, "signalController.signalGroups"@, true, true, true, namespace, imports, a)
                == #[trigger] reference_vector_step(c3, x.signal_groups@, 1, "signalController.signalGroups"@, true, true, true, namespace, imports, b) by {
            lemma_reference_vector_step_restored(c3, x.signal_groups@, 1, "signalController.signalGroups"@, true, namespace, imports, a, b);
        }
        assert forall|c4: RoadEditingPreflightCounts|
            reference_vector_step(c4, x.signal_phases@, 2, "signalController.signalPhases"@, true, true, true, namespace, imports, a)
                == #[trigger] reference_vector_step(c4, x.signal_phases@, 2, "signalController.signalPhases"@, true, true, true, namespace, imports, b) by {
            lemma_reference_vector_step_restored(c4, x.signal_phases@, 2, "signalController.signalPhases"@, true, namespace, imports, a, b);
        }
    }
}

/// Checks and charges the signal controllers, then the signal phases.
pub fn validate_signal_controllers_and_phases(
    usage: &mut RoadEditingPreflightCounts,
    controllers: &[SignalControllerLinks],
    phases: &[SignalPhaseLinks],
    namespace: &str,
    imports: &[&str],
    scratch: &mut PreflightScratch,
    expected_key: &str,
) -> (r: Result<(), DiagnosticBundle>)
    ensures
        match controllers_and_phases_outcome(
            *old(usage),
            controllers@,
            phases@,
            namespace.spec_bytes(),
            imports@,
            *old(scratch),
        ) {
            Ok(c) => r is Ok && *final(usage) == c,
            Err(f) => r matches Err(b) && stage_reports(b, f, expected_key@),
        },
        scratch_restored(*old(scratch), *final(scratch)),
        r is Ok ==> peak_lifted(*old(scratch), *final(scratch), controllers_and_phases_need(controllers@, phases@)),
{
    proof {
        reveal(controllers_and_phases_outcome);
    }
    let ghost s0 = *scratch;
    let mut keys: Vec<&str> = Vec::new();
    let mut i: usize = 0;
    while i < controllers.len()
        invariant
            i <= controllers@.len(),
            keys@ == controller_keys(controllers@.take(i as int)),
        decreases controllers@.len() - i,
    {
        keys.push(controllers[i].signal_controller_key);
        proof {
            assert(controller_keys(controllers@.take(i + 1)) =~= controller_keys(controllers@.take(i as int)).push(
                controllers@[i as int].signal_controller_key,
            ));
        }
        i = i + 1;
    }
    proof {
        assert(controllers@.take(i as int) =~= controllers@);
    }
    ensure_unique_strings(keys.as_slice(), "signalControllers.signalControllerKey", expected_key, scratch)?;
    let ghost s1 = *scratch;
    let ghost cstep = |c: RoadEditingPreflightCounts, i: int, x: SignalControllerLinks|
        controller_step(c, x, namespace.spec_bytes(), imports@, s0);
    let ghost start = *usage;
    let mut i: usize = 0;
    while i < controllers.len()
        invariant
            i <= controllers@.len(),
            s0 == *old(scratch),
            start == *old(usage),
            scratch_restored(s0, *scratch),
            scratch_restored(s0, s1),
            peak_lifted(s0, s1, unique_need::<&str>(controllers@.len())),
            peak_lifted(s1, *scratch, max_need(controllers@.take(i as int), controller_need())),
            unique_step::<&str>(
                controllers@.len(),
                strs_repeat(controller_keys(controllers@)),
                s0,
                "signalControllers.signalControllerKey"@,
            ) is None,
            cstep == (|c: RoadEditingPreflightCounts, i: int, x: SignalControllerLinks|
                controller_step(c, x, namespace.spec_bytes(), imports@, s0)),
            fold_steps(start, controllers@.take(i as int), cstep) == Ok::<RoadEditingPreflightCounts, StageFailure>(*usage),
        decreases controllers@.len() - i,
    {
        proof {
            lemma_fold_extend(start, controllers@, cstep, i as int);
            lemma_steps_restored(controllers@, phases@, namespace.spec_bytes(), imports@, s0, *scratch);
            lemma_max_need_extend(controllers@, controller_need(), i as int);
        }
        match check_signal_controller(usage, &controllers[i], namespace, imports, scratch, expected_key) {
            Ok(()) => {},
            Err(e) => {
                proof {
                    reveal(controllers_and_phases_outcome);
                    lemma_fold_stops(start, controllers@, cstep, i + 1);
                }
                return Err(e);
            },
        }
        i = i + 1;
    }
    proof {
        lemma_fold_all(start, controllers@, cstep);
        lemma_max_need_all(controllers@, controller_need());
    }
    let mut addresses: Vec<(&str, &str)> = Vec::new();
    let mut j: usize = 0;
    while j < phases.len()
        invariant
            j <= phases@.len(),
            addresses@ == phase_addresses(phases@.take(j as int)),
        decreases phases@.len() - j,
    {
        addresses.push((phases[j].signal_controller, phases[j].signal_phase_key));
        proof {
            assert(phase_addresses(phases@.take(j + 1)) =~= phase_addresses(phases@.take(j as int)).push(
                (phases@[j as int].signal_controller, phases@[j as int].signal_phase_key),
            ));
        }
        j = j + 1;
    }
    proof {
        assert(phases@.take(j as int) =~= phases@);
    }
    let ghost s2 = *scratch;
    ensure_unique_by::<(&str, &str)>(addresses.as_slice(), "signalPhases.address", expected_key, scratch)?;
    let ghost s3 = *scratch;
    let ghost pstep = |c: RoadEditingPreflightCounts, i: int, x: SignalPhaseLinks|
        phase_step(c, x, namespace.spec_bytes(), imports@, s0);
    let ghost middle = *usage;
    let mut i: usize = 0;
    while i < phases.len()
        invariant
            i <= phases@.len(),
            s0 == *old(scratch),
            scratch_restored(s0, *scratch),
            scratch_restored(s0, s2),
            scratch_restored(s0, s3),
            peak_lifted(
                s0,
                s2,
                max_nat(unique_need::<&str>(controllers@.len()), max_need(controllers@, controller_need())),
            ),
            peak_lifted(s2, s3, unique_need::<(&str, &str)>(phases@.len())),
            peak_lifted(s3, *scratch, max_need(phases@.take(i as int), phase_need())),
            controllers_and_phases_outcome(*old(usage), controllers@, phases@, namespace.spec_bytes(), imports@, s0)
                == fold_steps(middle, phases@, pstep),
            pstep == (|c: RoadEditingPreflightCounts, i: int, x: SignalPhaseLinks|
                phase_step(c, x, namespace.spec_bytes(), imports@, s0)),
            fold_steps(middle, phases@.take(i as int), pstep) == Ok::<RoadEditingPreflightCounts, StageFailure>(*usage),
        decreases phases@.len() - i,
    {
        proof {
            lemma_fold_extend(middle, phases@, pstep, i as int);
            lemma_steps_restored(controllers@, phases@, namespace.spec_bytes(), imports@, s0, *scratch);
            lemma_max_need_extend(phases@, phase_need(), i as int);
        }
        match check_signal_phase(usage, &phases[i], namespace, imports, scratch, expected_key) {
            Ok(()) => {},
            Err(e) => {
                proof {
                    reveal(controllers_and_phases_outcome);
                    lemma_fold_stops(middle, phases@, pstep, i + 1);
                }
                return Err(e);
            },
        }
        i = i + 1;
    }
    proof {
        lemma_fold_all(middle, phases@, pstep);
        lemma_max_need_all(phases@, phase_need());
    }
    Ok(())
}

/// The signal table outcomes read only the limits and the live bytes of the
/// scratch pass.
pub proof fn lemma_signal_outcomes_restored(
    c: RoadEditingPreflightCounts,
    stop_lines: Seq<StopLineLinks>,
    groups: Seq<SignalGroupLinks>,
    controllers: Seq<SignalControllerLinks>,
    phases: Seq<SignalPhaseLinks>,
    namespace: Seq<u8>,
    imports: Seq<&str>,
    a: PreflightScratch,
    b: PreflightScratch,
)
    requires
        scratch_restored(a, b),
    ensures
        stop_lines_and_groups_outcome(c, stop_lines, groups, namespace, imports, a) == stop_lines_and_groups_outcome(
            c,
            stop_lines,
            groups,
            namespace,
            imports,
            b,
        ),
        controllers_and_phases_outcome(c, controllers, phases, namespace, imports, a) == controllers_and_phases_outcome(
            c,
            controllers,
            phases,
            namespace,
            imports,
            b,
        ),
{
    reveal(stop_lines_and_groups_outcome);
    reveal(controllers_and_phases_outcome);
    lemma_steps_restored(controllers, phases, namespace, imports, a, b);
    assert((|c: RoadEditingPreflightCounts, i: int, x: SignalControllerLinks| controller_step(c, x, namespace, imports, a))
        =~= (|c: RoadEditingPreflightCounts, i: int, x: SignalControllerLinks| controller_step(c, x, namespace, imports, b)));
    assert((|c: RoadEditingPreflightCounts, i: int, x: SignalPhaseLinks| phase_step(c, x, namespace, imports, a))
        =~= (|c: RoadEditingPreflightCounts, i: int, x: SignalPhaseLinks| phase_step(c, x, namespace, imports, b)));
}

} // verus!
