//! Field preflight of the road sections of a verified source: each section
//! is a lane-bearing facility of a corridor declared in the same source.

use vstd::prelude::*;
use vstd::string::StringSliceAdditionalSpecFns;

use crate::declaration::{facility_kind_category_spec, EntityKind, FacilityKindCategory};
use crate::diagnostic::{DiagnosticBundle, RoadEditingInputViolation};
use crate::links::{contains_bytes, contains_str};
use crate::preflight::{
    canvas_step, ensure_unique_by, fold_steps, has_duplicate, invalid_combination, lemma_fold_all,
    lemma_fold_extend, lemma_fold_stops, lemma_reference_vector_step_restored, reference_step,
    reference_vector_need, reference_vector_step, scratch_restored, stage_reports, token_step, unique_need, unique_step,
    validate_facility_kind_category, validate_reference_vector, RoadEditingPreflightCounts, StageFailure,
};
use crate::scratch::{
    granted, lemma_after_grant, lemma_max_need_all, lemma_max_need_extend, max_nat, max_need, peak_lifted, scratch_request, PreflightScratch,
};
use crate::signal_check::string_limit;

verus! {

/// A road section: its corridor, its key, its facility kind, its
/// authoring-lane references and its canvas selection.
#[derive(Clone, Debug)]
pub struct RoadSectionFields<'a> {
    pub road_corridor: &'a str,
    pub road_section_key: &'a str,
    pub kind_id: &'a str,
    pub authoring_lanes: Vec<&'a str>,
    pub canvas_selection: Option<&'a str>,
}

/// Checks and charges one road section against the corridor keys of the
/// source.
pub open spec fn section_step(
    c: RoadEditingPreflightCounts,
    x: RoadSectionFields,
    corridor_keys: Seq<&str>,
    namespace: Seq<u8>,
    imports: Seq<&str>,
    scratch: PreflightScratch,
) -> Result<RoadEditingPreflightCounts, StageFailure> {
    let limit = string_limit(scratch);
    let c1 = c.with_declaration(EntityKind::RoadSection);
    match token_step(c1, x.road_section_key.spec_bytes(), limit, "roadSection.roadSectionKey"@) {
        Err(f) => Err(f),
        Ok(c2) => match token_step(c2, x.kind_id.spec_bytes(), limit, "roadSection.kindId"@) {
            Err(f) => Err(f),
            Ok(c3) => if facility_kind_category_spec(x.kind_id.spec_bytes()) != Some(FacilityKindCategory::LaneBearing) {
                Err(Err(("roadSection.kindId"@, RoadEditingInputViolation::InvalidCombination)))
            } else {
                match reference_vector_step(
                    c3,
                    x.authoring_lanes@,
                    3,
                    "roadSection.authoringLanes"@,
                    true,
                    true,
                    true,
                    namespace,
                    imports,
                    scratch,
                ) {
                    Err(f) => Err(f),
                    Ok(c4) => match reference_step(
                        c4,
                        x.road_corridor.spec_bytes(),
                        1,
                        false,
                        namespace,
                        imports,
                        limit,
                        "roadSection.roadCorridor"@,
                    ) {
                        Err(f) => Err(f),
                        Ok(c5) => if !contains_bytes(corridor_keys, x.road_corridor.spec_bytes()) {
                            Err(Err(("roadSection.roadCorridor"@, RoadEditingInputViolation::InvalidCombination)))
                        } else {
                            canvas_step(c5, x.canvas_selection, limit)
                        },
                    },
                }
            },
        },
    }
}

/// The `(corridor, key)` addresses of the road sections.
pub open spec fn section_addresses<'a>(xs: Seq<RoadSectionFields<'a>>) -> Seq<(&'a str, &'a str)> {
    xs.map_values(|x: RoadSectionFields<'a>| (x.road_corridor, x.road_section_key))
}

/// The scratch need of one road section: the index of its lane references.
pub open spec fn section_need<'a>() -> spec_fn(RoadSectionFields<'a>) -> nat {
    |x: RoadSectionFields<'a>| reference_vector_need(x.authoring_lanes@.len(), true)
}

/// The scratch need of the road section stage: the index of its addresses,
/// or the held corridor keys together with the need of one section.
pub open spec fn sections_need(sections: Seq<RoadSectionFields>, corridor_keys: Seq<&str>) -> nat {
    max_nat(
        unique_need::<(&str, &str)>(sections.len()),
        corridor_keys.len() * vstd::layout::size_of::<&str>() + max_need(sections, section_need()),
    )
}

/// The outcome of the road section stage: distinct addresses; then the
/// corridor keys held in the scratch pass while each section is checked in
/// order.
#[verifier::opaque]
pub open spec fn sections_outcome(
    c: RoadEditingPreflightCounts,
    sections: Seq<RoadSectionFields>,
    corridor_keys: Seq<&str>,
    namespace: Seq<u8>,
    imports: Seq<&str>,
    scratch: PreflightScratch,
) -> Result<RoadEditingPreflightCounts, StageFailure> {
    match unique_step::<(&str, &str)>(
        sections.len(),
        has_duplicate(section_addresses(sections)),
        scratch,
        "roadSections.address"@,
    ) {
        Some(f) => Err(f),
        None => match scratch_request(
            scratch.spec_limits(),
            scratch.admitted(),
            scratch.live(),
            (corridor_keys.len() * vstd::layout::size_of::<&str>()) as int,
        ) {
            Err(l) => Err(Ok(l)),
            Ok(live) => fold_steps(
                c,
                sections,
                |c: RoadEditingPreflightCounts, i: int, x: RoadSectionFields|
                    section_step(c, x, corridor_keys, namespace, imports, scratch.after_grant(live)),
            ),
        },
    }
}

/// A section check reads only the limits and the live bytes of the scratch
/// pass.
proof fn lemma_section_steps_restored(
    corridor_keys: Seq<&str>,
    namespace: Seq<u8>,
    imports: Seq<&str>,
    a: PreflightScratch,
    b: PreflightScratch,
)
    requires
        scratch_restored(a, b),
    ensures
        forall|c: RoadEditingPreflightCounts, x: RoadSectionFields|
            #[trigger] section_step(c, x, corridor_keys, namespace, imports, a) == section_step(
                c,
                x,
                corridor_keys,
                namespace,
                imports,
                b,
            ),
{
    assert forall|c: RoadEditingPreflightCounts, x: RoadSectionFields|
        #[trigger] section_step(c, x, corridor_keys, namespace, imports, a) == section_step(
            c,
            x,
            corridor_keys,
            namespace,
            imports,
            b,
        ) by {
        assert forall|c3: RoadEditingPreflightCounts|
            reference_vector_step(c3, x.authoring_lanes@, 3, "roadSection.authoringLanes"@, true, true, true, namespace, imports, a)
                == #[trigger] reference_vector_step(c3, x.authoring_lanes@, 3, "roadSection.authoringLanes"@, true, true, true, namespace, imports, b) by {
            lemma_reference_vector_step_restored(c3, x.authoring_lanes@, 3, "roadSection.authoringLanes"@, true, namespace, imports, a, b);
        }
    }
}

/// Checks and charges one road section; see [`section_step`].
pub fn check_road_section(
    usage: &mut RoadEditingPreflightCounts,
    section: &RoadSectionFields,
    corridor_keys: &[&str],
    namespace: &str,
    imports: &[&str],
    scratch: &mut PreflightScratch,
    expected_key: &str,
) -> (r: Result<(), DiagnosticBundle>)
    ensures
        match section_step(*old(usage), *section, corridor_keys@, namespace.spec_bytes(), imports@, *old(scratch)) {
            Ok(c) => r is Ok && *final(usage) == c,
            Err(f) => r matches Err(b) && stage_reports(b, f, expected_key@),
        },
        scratch_restored(*old(scratch), *final(scratch)),
        r is Ok ==> peak_lifted(*old(scratch), *final(scratch), section_need()(*section)),
{
    let limits = *scratch.limits();
    usage.charge_declaration(EntityKind::RoadSection);
    usage.charge_token(section.road_section_key, "roadSection.roadSectionKey", &limits, expected_key)?;
    usage.charge_token(section.kind_id, "roadSection.kindId", &limits, expected_key)?;
    validate_facility_kind_category(section.kind_id, FacilityKindCategory::LaneBearing, "roadSection.kindId", expected_key)?;
    validate_reference_vector(
        usage,
        section.authoring_lanes.as_slice(),
        3,
        "roadSection.authoringLanes",
        true,
        true,
        true,
        namespace,
        imports,
        scratch,
        expected_key,
    )?;
    usage.charge_reference(section.road_corridor, 1, false, "roadSection.roadCorridor", namespace, imports, &limits, expected_key)?;
    if !contains_str(corridor_keys, section.road_corridor) {
        return Err(invalid_combination("roadSection.roadCorridor", expected_key));
    }
    usage.charge_canvas(section.canvas_selection, &limits, expected_key)
}

/// Checks and charges the road sections; see [`sections_outcome`]. The
/// corridor keys are held in the scratch pass until the stage ends.
pub fn validate_sections(
    usage: &mut RoadEditingPreflightCounts,
    sections: &[RoadSectionFields],
    corridor_keys: &[&str],
    namespace: &str,
    imports: &[&str],
    scratch: &mut PreflightScratch,
    expected_key: &str,
) -> (r: Result<(), DiagnosticBundle>)
    ensures
        match sections_outcome(*old(usage), sections@, corridor_keys@, namespace.spec_bytes(), imports@, *old(scratch)) {
            Ok(c) => r is Ok && *final(usage) == c,
            Err(f) => r matches Err(b) && stage_reports(b, f, expected_key@),
        },
        scratch_restored(*old(scratch), *final(scratch)),
        r is Ok ==> peak_lifted(*old(scratch), *final(scratch), sections_need(sections@, corridor_keys@)),
{
    proof {
        reveal(sections_outcome);
    }
    let ghost s0 = *scratch;
    let mut addresses: Vec<(&str, &str)> = Vec::new();
    let mut j: usize = 0;
    while j < sections.len()
        invariant
            j <= sections@.len(),
            addresses@ == section_addresses(sections@.take(j as int)),
        decreases sections@.len() - j,
    {
        addresses.push((sections[j].road_corridor, sections[j].road_section_key));
        proof {
            assert(section_addresses(sections@.take(j + 1)) =~= section_addresses(sections@.take(j as int)).push(
                (sections@[j as int].road_corridor, sections@[j as int].road_section_key),
            ));
        }
        j = j + 1;
    }
    proof {
        assert(sections@.take(j as int) =~= sections@);
    }
    ensure_unique_by::<(&str, &str)>(addresses.as_slice(), "roadSections.address", expected_key, scratch)?;
    let ghost s1 = *scratch;
    let held = scratch.collect(corridor_keys)?;
    let ghost live = scratch.live();
    let ghost s2 = *scratch;
    proof {
        lemma_after_grant(s0, live);
        assert(granted(s1, s2, live));
        assert(scratch_restored(s0.after_grant(live), s2));
    }
    let ghost step = |c: RoadEditingPreflightCounts, i: int, x: RoadSectionFields|
        section_step(c, x, corridor_keys@, namespace.spec_bytes(), imports@, s0.after_grant(live));
    let ghost start = *usage;
    let mut i: usize = 0;
    while i < sections.len()
        invariant
            i <= sections@.len(),
            s0 == *old(scratch),
            start == *old(usage),
            scratch_restored(s0, s1),
            scratch_restored(s0.after_grant(live), *scratch),
            granted(s0, s0.after_grant(live), live),
            peak_lifted(s2, *scratch, max_need(sections@.take(i as int), section_need())),
            s2.live() == live,
            peak_lifted(s0, s1, unique_need::<(&str, &str)>(sections@.len())),
            s1.wf(),
            granted(s1, s2, live),
            held.held() == (corridor_keys@.len() * vstd::layout::size_of::<&str>()) as u64,
            scratch_request(s0.spec_limits(), s0.admitted(), s0.live(), (corridor_keys@.len()
                * vstd::layout::size_of::<&str>()) as int) == Ok::<u64, (crate::limits::CompileLimitDimension, u64, u64)>(live),
            sections_outcome(start, sections@, corridor_keys@, namespace.spec_bytes(), imports@, s0) == fold_steps(
                start,
                sections@,
                step,
            ),
            step == (|c: RoadEditingPreflightCounts, i: int, x: RoadSectionFields|
                section_step(c, x, corridor_keys@, namespace.spec_bytes(), imports@, s0.after_grant(live))),
            fold_steps(start, sections@.take(i as int), step) == Ok::<RoadEditingPreflightCounts, StageFailure>(*usage),
        decreases sections@.len() - i,
    {
        proof {
            lemma_fold_extend(start, sections@, step, i as int);
            lemma_section_steps_restored(corridor_keys@, namespace.spec_bytes(), imports@, s0.after_grant(live), *scratch);
            lemma_max_need_extend(sections@, section_need(), i as int);
        }
        match check_road_section(usage, &sections[i], corridor_keys, namespace, imports, scratch, expected_key) {
            Ok(()) => {},
            Err(e) => {
                proof {
                    lemma_fold_stops(start, sections@, step, i + 1);
                }
                scratch.release_vec(held);
                return Err(e);
            },
        }
        i = i + 1;
    }
    proof {
        lemma_fold_all(start, sections@, step);
        lemma_max_need_all(sections@, section_need());
    }
    scratch.release_vec(held);
    Ok(())
}

/// The section outcome reads only the limits and the live bytes of the
/// scratch pass.
pub proof fn lemma_sections_outcome_restored(
    c: RoadEditingPreflightCounts,
    xs: Seq<RoadSectionFields>,
    corridor_keys: Seq<&str>,
    namespace: Seq<u8>,
    imports: Seq<&str>,
    a: PreflightScratch,
    b: PreflightScratch,
)
    requires
        scratch_restored(a, b),
    ensures
        sections_outcome(c, xs, corridor_keys, namespace, imports, a) == sections_outcome(
            c,
            xs,
            corridor_keys,
            namespace,
            imports,
            b,
        ),
{
    reveal(sections_outcome);
    let request = scratch_request(
        a.spec_limits(),
        a.admitted(),
        a.live(),
        (corridor_keys.len() * vstd::layout::size_of::<&str>()) as int,
    );
    if request is Ok {
        let live = request->Ok_0;
        lemma_after_grant(a, live);
        lemma_after_grant(b, live);
        lemma_section_steps_restored(corridor_keys, namespace, imports, a.after_grant(live), b.after_grant(live));
        assert((|c: RoadEditingPreflightCounts, i: int, x: RoadSectionFields|
            section_step(c, x, corridor_keys, namespace, imports, a.after_grant(live)))
            =~= (|c: RoadEditingPreflightCounts, i: int, x: RoadSectionFields|
            section_step(c, x, corridor_keys, namespace, imports, b.after_grant(live))));
    }
}

} // verus!
