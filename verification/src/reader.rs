//! Framing checks of a size-prefixed `LFRE` road-editing buffer that run before
//! the wire verifier: byte budgets, minimum length, size prefix, file
//! identifier and the bounded format-version probe, plus the verifier budgets
//! and the mapping from wire root-vector field names to location kinds.

use vstd::prelude::*;
use vstd::string::StringSliceAdditionalSpecFns;

use crate::diagnostic::{Diagnostic, DiagnosticBundle, DiagnosticPayload, RoadEditingSourceViolation};
use crate::limits::{CompileLimitDimension, CompileLimits};
use crate::preflight::sat_add;
use crate::scratch::limit_error;
use crate::source_location::{RoadEditingRootVectorKind, RoadEditingTableKind};
use crate::split::str_equal;

verus! {

/// The only wire format version this front end reads.
pub const FORMAT_VERSION: u32 = 4;

/// The shortest size-prefixed buffer: size prefix, root offset, identifier.
pub const MIN_SIZE_PREFIXED_LFRE_BYTES: usize = 12;

/// The deepest table nesting of the schema.
pub const MAX_SCHEMA_TABLE_DEPTH: usize = 5;

/// The verifier's apparent-size budget per source byte.
pub const APPARENT_SIZE_MULTIPLIER: usize = 16;

/// The little-endian `u16` at `at`, if it lies in `b`.
pub open spec fn u16_at(b: Seq<u8>, at: int) -> Option<int> {
    if 0 <= at && at + 2 <= b.len() {
        Some(b[at] + 256 * b[at + 1])
    } else {
        None
    }
}

/// The little-endian `u32` at `at`, if it lies in `b`.
pub open spec fn u32_at(b: Seq<u8>, at: int) -> Option<int> {
    if 0 <= at && at + 4 <= b.len() {
        Some(b[at] + 256 * b[at + 1] + 65536 * b[at + 2] + 16777216 * b[at + 3])
    } else {
        None
    }
}

/// The little-endian two's-complement `i32` at `at`, if it lies in `b`.
pub open spec fn i32_at(b: Seq<u8>, at: int) -> Option<int> {
    match u32_at(b, at) {
        None => None,
        Some(u) => Some(
            if u >= 0x8000_0000 {
                u - 0x1_0000_0000
            } else {
                u
            },
        ),
    }
}

/// The format version that the root table of a size-prefixed buffer records,
/// read through its vtable without the verifier: `None` when the bytes on the
/// way do not lie in the buffer or the field slot is malformed, `Some(0)` when
/// the vtable has no slot for the field or the slot is empty.
pub open spec fn probe_spec(b: Seq<u8>) -> Option<u32> {
    match u32_at(b, 4) {
        None => None,
        Some(root) => {
            let table = 4 + root;
            if table > usize::MAX {
                None
            } else {
                match i32_at(b, table) {
                    None => None,
                    Some(offset) => {
                        let vtable = table - offset;
                        if vtable < 0 || vtable > usize::MAX {
                            None
                        } else {
                            match u16_at(b, vtable) {
                                None => None,
                                Some(vlen) => if vtable + vlen > usize::MAX || vtable + vlen > b.len() {
                                    None
                                } else if vlen < 4 {
                                    None
                                } else if vlen < 6 {
                                    Some(0)
                                } else {
                                    let field = u16_at(b, vtable + 4)->Some_0;
                                    let table_len = u16_at(b, vtable + 2)->Some_0;
                                    if field == 0 {
                                        Some(0)
                                    } else if field < 4 || field + 4 > table_len {
                                        None
                                    } else if table + field > usize::MAX {
                                        None
                                    } else {
                                        match u32_at(b, table + field) {
                                            None => None,
                                            Some(v) => Some(v as u32),
                                        }
                                    }
                                },
                            }
                        }
                    },
                }
            }
        },
    }
}

/// The little-endian `u16` at `at`.
fn read_u16(bytes: &[u8], at: usize) -> (r: Option<usize>)
    ensures
        match u16_at(bytes@, at as int) {
            None => r is None,
            Some(v) => r == Some(v as usize),
        },
{
    if at > bytes.len() || bytes.len() - at < 2 {
        return None;
    }
    Some(bytes[at] as usize + 256 * (bytes[at + 1] as usize))
}

/// The little-endian `u32` at `at`.
fn read_u32(bytes: &[u8], at: usize) -> (r: Option<u32>)
    ensures
        match u32_at(bytes@, at as int) {
            None => r is None,
            Some(v) => r == Some(v as u32) && v <= u32::MAX,
        },
{
    if at > bytes.len() || bytes.len() - at < 4 {
        return None;
    }
    Some(
        bytes[at] as u32 + 256 * (bytes[at + 1] as u32) + 65536 * (bytes[at + 2] as u32) + 16777216 * (
        bytes[at + 3] as u32),
    )
}

/// Reads the format version of the root table through its vtable, bounded to
/// the buffer; see [`probe_spec`].
pub fn probe_format_version(bytes: &[u8]) -> (r: Option<u32>)
    ensures
        r == probe_spec(bytes@),
{
    let root = match read_u32(bytes, 4) {
        Some(v) => v,
        None => return None,
    };
    if root as u64 > (usize::MAX - 4) as u64 {
        return None;
    }
    let table: usize = 4 + root as usize;
    let raw = match read_u32(bytes, table) {
        Some(v) => v,
        None => return None,
    };
    let offset: i64 = if raw >= 0x8000_0000 {
        raw as i64 - 0x1_0000_0000
    } else {
        raw as i64
    };
    let signed_vtable: i64 = table as i64 - offset;
    if signed_vtable < 0 || signed_vtable as u64 > usize::MAX as u64 {
        return None;
    }
    let vtable = signed_vtable as usize;
    let vtable_len = match read_u16(bytes, vtable) {
        Some(v) => v,
        None => return None,
    };
    if vtable_len > usize::MAX - vtable || vtable + vtable_len > bytes.len() {
        return None;
    }
    if vtable_len < 4 {
        return None;
    }
    if vtable_len < 6 {
        return Some(0);
    }
    let field = match read_u16(bytes, vtable + 4) {
        Some(v) => v,
        None => return None,
    };
    let table_len = match read_u16(bytes, vtable + 2) {
        Some(v) => v,
        None => return None,
    };
    if field == 0 {
        return Some(0);
    }
    if field < 4 || field + 4 > table_len {
        return None;
    }
    if field > usize::MAX - table {
        return None;
    }
    read_u32(bytes, table + field)
}

/// The source diagnostic for `violation` of the document `expected_key`,
/// with the key found in the buffer, if it is reported.
pub fn source_error(violation: RoadEditingSourceViolation, expected_key: &str, actual_key: Option<&str>) -> (r:
    DiagnosticBundle)
    ensures
        r.is_single(
            Diagnostic {
                payload: DiagnosticPayload::InvalidRoadEditingSource {
                    violation,
                    field: None,
                    expected_key: r.diagnostics@[0].payload->InvalidRoadEditingSource_expected_key,
                    actual_key: r.diagnostics@[0].payload->InvalidRoadEditingSource_actual_key,
                },
            },
        ),
        r.diagnostics@[0].payload->InvalidRoadEditingSource_expected_key@ == expected_key@,
        match actual_key {
            None => r.diagnostics@[0].payload->InvalidRoadEditingSource_actual_key is None,
            Some(k) => r.diagnostics@[0].payload->InvalidRoadEditingSource_actual_key matches Some(a) && a@
                == k@,
        },
{
    let actual = match actual_key {
        Some(k) => Some(String::from_str(k)),
        None => None,
    };
    DiagnosticBundle::single(
        Diagnostic {
            payload: DiagnosticPayload::InvalidRoadEditingSource {
                violation,
                field: None,
                expected_key: String::from_str(expected_key),
                actual_key: actual,
            },
        },
    )
}

/// Whether `b` is the source diagnostic for `violation` of the document
/// `expected_key`, without a field or an actual key.
pub open spec fn is_source_error(b: DiagnosticBundle, violation: RoadEditingSourceViolation, expected_key: Seq<
    char,
>) -> bool {
    &&& b.diagnostics@.len() == 1
    &&& !b.truncated
    &&& b.diagnostics@[0].payload is InvalidRoadEditingSource
    &&& b.diagnostics@[0].payload->InvalidRoadEditingSource_violation == violation
    &&& b.diagnostics@[0].payload->InvalidRoadEditingSource_field is None
    &&& b.diagnostics@[0].payload->InvalidRoadEditingSource_expected_key@ == expected_key
    &&& b.diagnostics@[0].payload->InvalidRoadEditingSource_actual_key is None
}

/// The bytes `LFRE` of the file identifier.
pub open spec fn lfre() -> Seq<u8> {
    seq![76u8, 70u8, 82u8, 69u8]
}

/// The first framing failure of `b`, checked in this order: the per-module
/// byte limit, the total byte limit with `admitted` bytes already admitted, the
/// minimum length, the size prefix, the file identifier and the probed format
/// version. `Ok` carries a limit failure, `Err` a source violation.
pub open spec fn framing_failure(b: Seq<u8>, limits: CompileLimits, admitted: u64) -> Option<
    Result<(CompileLimitDimension, u64, u64), RoadEditingSourceViolation>,
> {
    let per_module = limits.spec_value(CompileLimitDimension::SourceBytesPerModule);
    let total_limit = limits.spec_value(CompileLimitDimension::SourceBytesTotal);
    if b.len() > per_module {
        Some(Ok((CompileLimitDimension::SourceBytesPerModule, per_module, b.len() as u64)))
    } else if sat_add(admitted, b.len() as int) > total_limit {
        Some(Ok((CompileLimitDimension::SourceBytesTotal, total_limit, sat_add(admitted, b.len() as int))))
    } else if b.len() < MIN_SIZE_PREFIXED_LFRE_BYTES {
        Some(Err(RoadEditingSourceViolation::TruncatedFraming))
    } else if u32_at(b, 0)->Some_0 != b.len() - 4 {
        Some(
            Err(
                RoadEditingSourceViolation::SizePrefixMismatch {
                    declared: u32_at(b, 0)->Some_0 as u64,
                    actual: (b.len() - 4) as u64,
                },
            ),
        )
    } else if b.subrange(8, 12) != lfre() {
        Some(Err(RoadEditingSourceViolation::FileIdentifierMismatch))
    } else if probe_spec(b) matches Some(v) && v != FORMAT_VERSION {
        Some(
            Err(
                RoadEditingSourceViolation::UnsupportedFormatVersion {
                    expected: FORMAT_VERSION,
                    actual: probe_spec(b)->Some_0,
                },
            ),
        )
    } else {
        None
    }
}

/// A buffer that passes framing is within both byte limits, its size prefix
/// counts the bytes after it, bytes 8 to 11 are the file identifier `LFRE`,
/// and a format version that can be probed is the current one.
pub proof fn law_framed_buffer_carries_lfre(b: Seq<u8>, limits: CompileLimits, admitted: u64)
    requires
        framing_failure(b, limits, admitted) is None,
    ensures
        b.len() <= limits.spec_value(CompileLimitDimension::SourceBytesPerModule),
        admitted + b.len() <= limits.spec_value(CompileLimitDimension::SourceBytesTotal) || limits.spec_value(
            CompileLimitDimension::SourceBytesTotal,
        ) == u64::MAX,
        b.len() >= 12,
        b[0] + 256 * b[1] + 65536 * b[2] + 16777216 * b[3] == b.len() - 4,
        b[8] == 76 && b[9] == 70 && b[10] == 82 && b[11] == 69,
        probe_spec(b) matches Some(v) ==> v == FORMAT_VERSION,
{
    assert(b.subrange(8, 12)[0] == b[8]);
    assert(b.subrange(8, 12)[1] == b[9]);
    assert(b.subrange(8, 12)[2] == b[10]);
    assert(b.subrange(8, 12)[3] == b[11]);
}

/// Checks the framing of a size-prefixed `LFRE` buffer before the verifier
/// reads it; see [`framing_failure`].
pub fn check_framing(bytes: &[u8], limits: &CompileLimits, source_bytes_already_admitted: u64, expected_key: &str) -> (r:
    Result<(), DiagnosticBundle>)
    ensures
        match framing_failure(bytes@, *limits, source_bytes_already_admitted) {
            None => r is Ok,
            Some(Ok((d, l, o))) => r matches Err(e) && e.is_limit_error(d, l, o),
            Some(Err(v)) => r matches Err(e) && is_source_error(e, v, expected_key@),
        },
        r is Ok ==> bytes@.len() >= 12 && bytes@[8] == 76 && bytes@[9] == 70 && bytes@[10] == 82 && bytes@[11] == 69,
{
    let source_len = bytes.len() as u64;
    let per_module_limit = limits.value(CompileLimitDimension::SourceBytesPerModule);
    if source_len > per_module_limit {
        return Err(limit_error(CompileLimitDimension::SourceBytesPerModule, per_module_limit, source_len));
    }
    let total_limit = limits.value(CompileLimitDimension::SourceBytesTotal);
    let total = source_bytes_already_admitted.saturating_add(source_len);
    if total > total_limit {
        return Err(limit_error(CompileLimitDimension::SourceBytesTotal, total_limit, total));
    }
    if bytes.len() < MIN_SIZE_PREFIXED_LFRE_BYTES {
        return Err(source_error(RoadEditingSourceViolation::TruncatedFraming, expected_key, None));
    }
    let declared = match read_u32(bytes, 0) {
        Some(v) => v,
        None => return Err(source_error(RoadEditingSourceViolation::TruncatedFraming, expected_key, None)),
    };
    let actual = (bytes.len() - 4) as u64;
    if declared as u64 != actual {
        return Err(
            source_error(
                RoadEditingSourceViolation::SizePrefixMismatch { declared: declared as u64, actual },
                expected_key,
                None,
            ),
        );
    }
    if !(bytes[8] == 76 && bytes[9] == 70 && bytes[10] == 82 && bytes[11] == 69) {
        proof {
            if bytes@.subrange(8, 12) == lfre() {
                assert(bytes@.subrange(8, 12)[0] == bytes@[8]);
                assert(bytes@.subrange(8, 12)[1] == bytes@[9]);
                assert(bytes@.subrange(8, 12)[2] == bytes@[10]);
                assert(bytes@.subrange(8, 12)[3] == bytes@[11]);
            }
        }
        return Err(source_error(RoadEditingSourceViolation::FileIdentifierMismatch, expected_key, None));
    }
    proof {
        assert(bytes@.subrange(8, 12) =~= lfre());
    }
    if let Some(version) = probe_format_version(bytes) {
        if version != FORMAT_VERSION {
            return Err(
                source_error(
                    RoadEditingSourceViolation::UnsupportedFormatVersion { expected: FORMAT_VERSION, actual: version },
                    expected_key,
                    None,
                ),
            );
        }
    }
    Ok(())
}

/// The verifier budgets for a buffer of `len` bytes after `already` records of
/// other modules: the table budget, the remaining typed records plus the root
/// and its header, and the apparent-size budget; `None` for the budget that
/// cannot be represented.
pub open spec fn verifier_budget_spec(len: nat, typed_limit: u64, already: u64) -> Result<
    (nat, nat),
    RoadEditingSourceViolation,
> {
    let remaining = if already > typed_limit {
        0
    } else {
        typed_limit - already
    };
    if remaining + 2 > u64::MAX || remaining + 2 > usize::MAX {
        Err(RoadEditingSourceViolation::VerifierTableBudgetExceeded)
    } else if len * APPARENT_SIZE_MULTIPLIER > usize::MAX {
        Err(RoadEditingSourceViolation::VerifierApparentSizeExceeded)
    } else {
        Ok(((remaining + 2) as nat, (len * APPARENT_SIZE_MULTIPLIER) as nat))
    }
}

/// Computes the verifier's table and apparent-size budgets.
pub fn verifier_budget(
    source_len: usize,
    limits: &CompileLimits,
    typed_ast_records_already_admitted: u64,
    expected_key: &str,
) -> (r: Result<(usize, usize), DiagnosticBundle>)
    ensures
        match verifier_budget_spec(
            source_len as nat,
            limits.spec_value(CompileLimitDimension::TypedAstRecordCount),
            typed_ast_records_already_admitted,
        ) {
            Ok((tables, apparent)) => r matches Ok((t, a)) && t == tables && a == apparent,
            Err(v) => r matches Err(e) && is_source_error(e, v, expected_key@),
        },
{
    let typed_limit = limits.value(CompileLimitDimension::TypedAstRecordCount);
    let remaining = typed_limit.saturating_sub(typed_ast_records_already_admitted);
    let max_tables_u64 = match remaining.checked_add(2) {
        Some(v) => v,
        None => {
            return Err(source_error(RoadEditingSourceViolation::VerifierTableBudgetExceeded, expected_key, None));
        },
    };
    if max_tables_u64 > usize::MAX as u64 {
        return Err(source_error(RoadEditingSourceViolation::VerifierTableBudgetExceeded, expected_key, None));
    }
    let max_tables = max_tables_u64 as usize;
    let max_apparent_size = match source_len.checked_mul(APPARENT_SIZE_MULTIPLIER) {
        Some(v) => v,
        None => {
            return Err(source_error(RoadEditingSourceViolation::VerifierApparentSizeExceeded, expected_key, None));
        },
    };
    Ok((max_tables, max_apparent_size))
}

/// The root vector and table that a wire field name of the root table names,
/// for the root vectors that a verifier trace can locate.
pub open spec fn root_vector_site_spec(name: Seq<char>) -> Option<(RoadEditingRootVectorKind, RoadEditingTableKind)> {
    if name == "right_of_way_policy_sets"@ {
        Some((RoadEditingRootVectorKind::RightOfWayPolicySet, RoadEditingTableKind::RightOfWayPolicySet))
    } else if name == "road_alignments"@ {
        Some((RoadEditingRootVectorKind::RoadAlignment, RoadEditingTableKind::RoadAlignment))
    } else if name == "road_corridors"@ {
        Some((RoadEditingRootVectorKind::RoadCorridor, RoadEditingTableKind::RoadCorridor))
    } else if name == "road_sections"@ {
        Some((RoadEditingRootVectorKind::RoadSection, RoadEditingTableKind::RoadSection))
    } else if name == "authoring_lanes"@ {
        Some((RoadEditingRootVectorKind::AuthoringLane, RoadEditingTableKind::AuthoringLane))
    } else if name == "lane_edges"@ {
        Some((RoadEditingRootVectorKind::LaneEdge, RoadEditingTableKind::LaneEdge))
    } else if name == "junctions"@ {
        Some((RoadEditingRootVectorKind::Junction, RoadEditingTableKind::Junction))
    } else if name == "movements"@ {
        Some((RoadEditingRootVectorKind::Movement, RoadEditingTableKind::Movement))
    } else if name == "maneuver_paths"@ {
        Some((RoadEditingRootVectorKind::ManeuverPath, RoadEditingTableKind::ManeuverPath))
    } else if name == "maneuver_gates"@ {
        Some((RoadEditingRootVectorKind::ManeuverGate, RoadEditingTableKind::ManeuverGate))
    } else if name == "waiting_zones"@ {
        Some((RoadEditingRootVectorKind::WaitingZone, RoadEditingTableKind::WaitingZone))
    } else if name == "stop_lines"@ {
        Some((RoadEditingRootVectorKind::StopLine, RoadEditingTableKind::StopLine))
    } else if name == "signal_groups"@ {
        Some((RoadEditingRootVectorKind::SignalGroup, RoadEditingTableKind::SignalGroup))
    } else if name == "signal_controllers"@ {
        Some((RoadEditingRootVectorKind::SignalController, RoadEditingTableKind::SignalController))
    } else if name == "signal_phases"@ {
        Some((RoadEditingRootVectorKind::SignalPhase, RoadEditingTableKind::SignalPhase))
    } else if name == "parking_facilities"@ {
        Some((RoadEditingRootVectorKind::ParkingFacility, RoadEditingTableKind::ParkingFacility))
    } else if name == "parking_spaces"@ {
        Some((RoadEditingRootVectorKind::ParkingSpace, RoadEditingTableKind::ParkingSpace))
    } else if name == "lane_groups"@ {
        Some((RoadEditingRootVectorKind::LaneGroup, RoadEditingTableKind::LaneGroup))
    } else if name == "facility_bands"@ {
        Some((RoadEditingRootVectorKind::FacilityBand, RoadEditingTableKind::FacilityBand))
    } else if name == "participant_classes"@ {
        Some((RoadEditingRootVectorKind::ParticipantClass, RoadEditingTableKind::ParticipantClass))
    } else if name == "access_rules"@ {
        Some((RoadEditingRootVectorKind::AccessRule, RoadEditingTableKind::AccessRule))
    } else if name == "vehicle_profiles"@ {
        Some((RoadEditingRootVectorKind::VehicleProfile, RoadEditingTableKind::VehicleProfile))
    } else if name == "canonical_frames"@ {
        Some((RoadEditingRootVectorKind::CanonicalFrame, RoadEditingTableKind::CanonicalFrame))
    } else {
        None
    }
}

/// Whether `name` has the characters of `literal`.
fn is_name(name: &str, literal: &str) -> (r: bool)
    ensures
        r == (name@ == literal@),
{
    let same = str_equal(name, literal);
    proof {
        if same {
            crate::text::lemma_bytes_equal_chars(name@, literal@);
        }
    }
    same
}

/// Maps a wire field name of the root table to its root vector and table.
pub fn root_vector_site(field_name: &str) -> (r: Option<(RoadEditingRootVectorKind, RoadEditingTableKind)>)
    ensures
        r == root_vector_site_spec(field_name@),
{
    if is_name(field_name, "right_of_way_policy_sets") {
        Some((RoadEditingRootVectorKind::RightOfWayPolicySet, RoadEditingTableKind::RightOfWayPolicySet))
    } else if is_name(field_name, "road_alignments") {
        Some((RoadEditingRootVectorKind::RoadAlignment, RoadEditingTableKind::RoadAlignment))
    } else if is_name(field_name, "road_corridors") {
        Some((RoadEditingRootVectorKind::RoadCorridor, RoadEditingTableKind::RoadCorridor))
    } else if is_name(field_name, "road_sections") {
        Some((RoadEditingRootVectorKind::RoadSection, RoadEditingTableKind::RoadSection))
    } else if is_name(field_name, "authoring_lanes") {
        Some((RoadEditingRootVectorKind::AuthoringLane, RoadEditingTableKind::AuthoringLane))
    } else if is_name(field_name, "lane_edges") {
        Some((RoadEditingRootVectorKind::LaneEdge, RoadEditingTableKind::LaneEdge))
    } else if is_name(field_name, "junctions") {
        Some((RoadEditingRootVectorKind::Junction, RoadEditingTableKind::Junction))
    } else if is_name(field_name, "movements") {
        Some((RoadEditingRootVectorKind::Movement, RoadEditingTableKind::Movement))
    } else if is_name(field_name, "maneuver_paths") {
        Some((RoadEditingRootVectorKind::ManeuverPath, RoadEditingTableKind::ManeuverPath))
    } else if is_name(field_name, "maneuver_gates") {
        Some((RoadEditingRootVectorKind::ManeuverGate, RoadEditingTableKind::ManeuverGate))
    } else if is_name(field_name, "waiting_zones") {
        Some((RoadEditingRootVectorKind::WaitingZone, RoadEditingTableKind::WaitingZone))
    } else if is_name(field_name, "stop_lines") {
        Some((RoadEditingRootVectorKind::StopLine, RoadEditingTableKind::StopLine))
    } else if is_name(field_name, "signal_groups") {
        Some((RoadEditingRootVectorKind::SignalGroup, RoadEditingTableKind::SignalGroup))
    } else if is_name(field_name, "signal_controllers") {
        Some((RoadEditingRootVectorKind::SignalController, RoadEditingTableKind::SignalController))
    } else if is_name(field_name, "signal_phases") {
        Some((RoadEditingRootVectorKind::SignalPhase, RoadEditingTableKind::SignalPhase))
    } else if is_name(field_name, "parking_facilities") {
        Some((RoadEditingRootVectorKind::ParkingFacility, RoadEditingTableKind::ParkingFacility))
    } else if is_name(field_name, "parking_spaces") {
        Some((RoadEditingRootVectorKind::ParkingSpace, RoadEditingTableKind::ParkingSpace))
    } else if is_name(field_name, "lane_groups") {
        Some((RoadEditingRootVectorKind::LaneGroup, RoadEditingTableKind::LaneGroup))
    } else if is_name(field_name, "facility_bands") {
        Some((RoadEditingRootVectorKind::FacilityBand, RoadEditingTableKind::FacilityBand))
    } else if is_name(field_name, "participant_classes") {
        Some((RoadEditingRootVectorKind::ParticipantClass, RoadEditingTableKind::ParticipantClass))
    } else if is_name(field_name, "access_rules") {
        Some((RoadEditingRootVectorKind::AccessRule, RoadEditingTableKind::AccessRule))
    } else if is_name(field_name, "vehicle_profiles") {
        Some((RoadEditingRootVectorKind::VehicleProfile, RoadEditingTableKind::VehicleProfile))
    } else if is_name(field_name, "canonical_frames") {
        Some((RoadEditingRootVectorKind::CanonicalFrame, RoadEditingTableKind::CanonicalFrame))
    } else {
        None
    }
}

} // verus!
