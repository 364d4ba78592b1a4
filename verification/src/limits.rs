//! Closed compile-limit dimensions and the limit profiles they are read from.

use vstd::prelude::*;

verus! {

/// One resource dimension that the compiler bounds before allocating.
#[derive(Clone, Copy, Debug, PartialEq, Eq, Structural, PartialOrd, Ord, Hash)]
pub enum CompileLimitDimension {
    SourceBytesPerModule,
    SourceBytesTotal,
    ImportEdgeCount,
    DeclarationCount,
    TypedAstRecordCount,
    ReferenceCount,
    RelationOccurrenceCount,
    IdentityFieldOccurrenceCount,
    ManeuverGateCount,
    WaitingZoneCount,
    SymbolCount,
    StringItemCount,
    SingleStringBytes,
    TotalStringBytes,
    StageScratchBytes,
    CompilerControlledLiveBytes,
    OutputBytes,
    DiagnosticCount,
}

/// Byte bound shared by every identity token component (namespace or key).
pub const IDENTITY_ASCII_BYTES: u64 = 53;

/// A complete limit profile: one inclusive upper bound per dimension.
#[derive(Clone, Copy, Debug, PartialEq, Eq)]
pub struct CompileLimits {
    pub source_bytes_per_module: u64,
    pub source_bytes_total: u64,
    pub import_edge_count: u64,
    pub declaration_count: u64,
    pub typed_ast_record_count: u64,
    pub reference_count: u64,
    pub relation_occurrence_count: u64,
    pub identity_field_occurrence_count: u64,
    pub maneuver_gate_count: u64,
    pub waiting_zone_count: u64,
    pub symbol_count: u64,
    pub string_item_count: u64,
    pub single_string_bytes: u64,
    pub total_string_bytes: u64,
    pub stage_scratch_bytes: u64,
    pub compiler_controlled_live_bytes: u64,
    pub output_bytes: u64,
    pub diagnostic_count: u64,
}

impl CompileLimits {
    /// The bound of `dimension` in this profile.
    pub open spec fn spec_value(&self, dimension: CompileLimitDimension) -> u64 {
        match dimension {
            CompileLimitDimension::SourceBytesPerModule => self.source_bytes_per_module,
            CompileLimitDimension::SourceBytesTotal => self.source_bytes_total,
            CompileLimitDimension::ImportEdgeCount => self.import_edge_count,
            CompileLimitDimension::DeclarationCount => self.declaration_count,
            CompileLimitDimension::TypedAstRecordCount => self.typed_ast_record_count,
            CompileLimitDimension::ReferenceCount => self.reference_count,
            CompileLimitDimension::RelationOccurrenceCount => self.relation_occurrence_count,
            CompileLimitDimension::IdentityFieldOccurrenceCount => self.identity_field_occurrence_count,
            CompileLimitDimension::ManeuverGateCount => self.maneuver_gate_count,
            CompileLimitDimension::WaitingZoneCount => self.waiting_zone_count,
            CompileLimitDimension::SymbolCount => self.symbol_count,
            CompileLimitDimension::StringItemCount => self.string_item_count,
            CompileLimitDimension::SingleStringBytes => self.single_string_bytes,
            CompileLimitDimension::TotalStringBytes => self.total_string_bytes,
            CompileLimitDimension::StageScratchBytes => self.stage_scratch_bytes,
            CompileLimitDimension::CompilerControlledLiveBytes => self.compiler_controlled_live_bytes,
            CompileLimitDimension::OutputBytes => self.output_bytes,
            CompileLimitDimension::DiagnosticCount => self.diagnostic_count,
        }
    }

    /// Returns the bound of `dimension` in this profile.
    #[verifier::when_used_as_spec(spec_value)]
    pub fn value(&self, dimension: CompileLimitDimension) -> (r: u64)
        ensures
            r == self.spec_value(dimension),
    {
        match dimension {
            CompileLimitDimension::SourceBytesPerModule => self.source_bytes_per_module,
            CompileLimitDimension::SourceBytesTotal => self.source_bytes_total,
            CompileLimitDimension::ImportEdgeCount => self.import_edge_count,
            CompileLimitDimension::DeclarationCount => self.declaration_count,
            CompileLimitDimension::TypedAstRecordCount => self.typed_ast_record_count,
            CompileLimitDimension::ReferenceCount => self.reference_count,
            CompileLimitDimension::RelationOccurrenceCount => self.relation_occurrence_count,
            CompileLimitDimension::IdentityFieldOccurrenceCount => self.identity_field_occurrence_count,
            CompileLimitDimension::ManeuverGateCount => self.maneuver_gate_count,
            CompileLimitDimension::WaitingZoneCount => self.waiting_zone_count,
            CompileLimitDimension::SymbolCount => self.symbol_count,
            CompileLimitDimension::StringItemCount => self.string_item_count,
            CompileLimitDimension::SingleStringBytes => self.single_string_bytes,
            CompileLimitDimension::TotalStringBytes => self.total_string_bytes,
            CompileLimitDimension::StageScratchBytes => self.stage_scratch_bytes,
            CompileLimitDimension::CompilerControlledLiveBytes => self.compiler_controlled_live_bytes,
            CompileLimitDimension::OutputBytes => self.output_bytes,
            CompileLimitDimension::DiagnosticCount => self.diagnostic_count,
        }
    }

    /// This profile with the bound of `dimension` replaced by `limit`.
    pub open spec fn spec_with_value(self, dimension: CompileLimitDimension, limit: u64) -> Self {
        match dimension {
            CompileLimitDimension::SourceBytesPerModule => Self { source_bytes_per_module: limit, ..self },
            CompileLimitDimension::SourceBytesTotal => Self { source_bytes_total: limit, ..self },
            CompileLimitDimension::ImportEdgeCount => Self { import_edge_count: limit, ..self },
            CompileLimitDimension::DeclarationCount => Self { declaration_count: limit, ..self },
            CompileLimitDimension::TypedAstRecordCount => Self { typed_ast_record_count: limit, ..self },
            CompileLimitDimension::ReferenceCount => Self { reference_count: limit, ..self },
            CompileLimitDimension::RelationOccurrenceCount => Self { relation_occurrence_count: limit, ..self },
            CompileLimitDimension::IdentityFieldOccurrenceCount => Self { identity_field_occurrence_count: limit, ..self },
            CompileLimitDimension::ManeuverGateCount => Self { maneuver_gate_count: limit, ..self },
            CompileLimitDimension::WaitingZoneCount => Self { waiting_zone_count: limit, ..self },
            CompileLimitDimension::SymbolCount => Self { symbol_count: limit, ..self },
            CompileLimitDimension::StringItemCount => Self { string_item_count: limit, ..self },
            CompileLimitDimension::SingleStringBytes => Self { single_string_bytes: limit, ..self },
            CompileLimitDimension::TotalStringBytes => Self { total_string_bytes: limit, ..self },
            CompileLimitDimension::StageScratchBytes => Self { stage_scratch_bytes: limit, ..self },
            CompileLimitDimension::CompilerControlledLiveBytes => Self { compiler_controlled_live_bytes: limit, ..self },
            CompileLimitDimension::OutputBytes => Self { output_bytes: limit, ..self },
            CompileLimitDimension::DiagnosticCount => Self { diagnostic_count: limit, ..self },
        }
    }

    /// The bounds of the initial hundred-module profile, one per dimension.
    pub open spec fn p100_initial_v1_profile() -> Self {
        CompileLimits {
            source_bytes_per_module: 67108864,
            source_bytes_total: 268435456,
            import_edge_count: 64,
            declaration_count: 100_000,
            typed_ast_record_count: 1_000_000,
            reference_count: 1_000_000,
            relation_occurrence_count: 1_000_000,
            identity_field_occurrence_count: 1_000_000,
            maneuver_gate_count: 100_000,
            waiting_zone_count: 100_000,
            symbol_count: 100_000,
            string_item_count: 1_000_000,
            single_string_bytes: IDENTITY_ASCII_BYTES,
            total_string_bytes: 16777216,
            stage_scratch_bytes: 268435456,
            compiler_controlled_live_bytes: 1073741824,
            output_bytes: 268435456,
            diagnostic_count: 64,
        }
    }

    /// The initial hundred-module profile.
    pub fn p100_initial_v1() -> (r: Self)
        ensures
            r == Self::p100_initial_v1_profile(),
    {
        Self {
            source_bytes_per_module: 64 * 1024 * 1024,
            source_bytes_total: 256 * 1024 * 1024,
            import_edge_count: 64,
            declaration_count: 100_000,
            typed_ast_record_count: 1_000_000,
            reference_count: 1_000_000,
            relation_occurrence_count: 1_000_000,
            identity_field_occurrence_count: 1_000_000,
            maneuver_gate_count: 100_000,
            waiting_zone_count: 100_000,
            symbol_count: 100_000,
            string_item_count: 1_000_000,
            single_string_bytes: IDENTITY_ASCII_BYTES,
            total_string_bytes: 16 * 1024 * 1024,
            stage_scratch_bytes: 256 * 1024 * 1024,
            compiler_controlled_live_bytes: 1024 * 1024 * 1024,
            output_bytes: 256 * 1024 * 1024,
            diagnostic_count: 64,
        }
    }

    /// The bounds of the single-network profile, one per dimension.
    pub open spec fn single_network_1m_v2_profile() -> Self {
        CompileLimits {
            source_bytes_per_module: 1073741824,
            source_bytes_total: 4294967296,
            import_edge_count: 256,
            declaration_count: 1_000_000,
            typed_ast_record_count: 10_000_000,
            reference_count: 10_000_000,
            relation_occurrence_count: 10_000_000,
            identity_field_occurrence_count: 10_000_000,
            maneuver_gate_count: 1_000_000,
            waiting_zone_count: 1_000_000,
            symbol_count: 1_000_000,
            string_item_count: 10_000_000,
            single_string_bytes: 256,
            total_string_bytes: 268435456,
            stage_scratch_bytes: 1073741824,
            compiler_controlled_live_bytes: 8589934592,
            output_bytes: 4294967296,
            diagnostic_count: 64,
        }
    }

    /// The single-network profile sized for a million declarations; metadata
    /// strings get a larger byte bound than identity tokens.
    pub fn single_network_1m_v2() -> (r: Self)
        ensures
            r == Self::single_network_1m_v2_profile(),
    {
        Self {
            source_bytes_per_module: 1024 * 1024 * 1024,
            source_bytes_total: 4 * 1024 * 1024 * 1024,
            import_edge_count: 256,
            declaration_count: 1_000_000,
            typed_ast_record_count: 10_000_000,
            reference_count: 10_000_000,
            relation_occurrence_count: 10_000_000,
            identity_field_occurrence_count: 10_000_000,
            maneuver_gate_count: 1_000_000,
            waiting_zone_count: 1_000_000,
            symbol_count: 1_000_000,
            string_item_count: 10_000_000,
            single_string_bytes: 256,
            total_string_bytes: 256 * 1024 * 1024,
            stage_scratch_bytes: 1024 * 1024 * 1024,
            compiler_controlled_live_bytes: 8 * 1024 * 1024 * 1024,
            output_bytes: 4 * 1024 * 1024 * 1024,
            diagnostic_count: 64,
        }
    }

    /// Byte bound of an identity namespace token in every profile.
    pub fn identity_ascii_bytes_limit(&self) -> (r: u64)
        ensures
            r == IDENTITY_ASCII_BYTES,
    {
        IDENTITY_ASCII_BYTES
    }

    /// This profile with the aggregate string and live-byte bounds replaced.
    pub fn with_test_string_limits(self, total_string_bytes: u64, controlled_live_bytes: u64) -> (r: Self)
        ensures
            r == (Self {
                total_string_bytes,
                compiler_controlled_live_bytes: controlled_live_bytes,
                ..self
            }),
    {
        Self { total_string_bytes, compiler_controlled_live_bytes: controlled_live_bytes, ..self }
    }

    /// This profile with the bound of one dimension replaced.
    pub fn with_test_admission_limit(self, dimension: CompileLimitDimension, limit: u64) -> (r: Self)
        ensures
            r == self.spec_with_value(dimension, limit),
            r.spec_value(dimension) == limit,
            forall|other: CompileLimitDimension|
                other != dimension ==> r.spec_value(other) == self.spec_value(other),
    {
        let mut r = self;
        match dimension {
            CompileLimitDimension::SourceBytesPerModule => r.source_bytes_per_module = limit,
            CompileLimitDimension::SourceBytesTotal => r.source_bytes_total = limit,
            CompileLimitDimension::ImportEdgeCount => r.import_edge_count = limit,
            CompileLimitDimension::DeclarationCount => r.declaration_count = limit,
            CompileLimitDimension::TypedAstRecordCount => r.typed_ast_record_count = limit,
            CompileLimitDimension::ReferenceCount => r.reference_count = limit,
            CompileLimitDimension::RelationOccurrenceCount => r.relation_occurrence_count = limit,
            CompileLimitDimension::IdentityFieldOccurrenceCount => r.identity_field_occurrence_count = limit,
            CompileLimitDimension::ManeuverGateCount => r.maneuver_gate_count = limit,
            CompileLimitDimension::WaitingZoneCount => r.waiting_zone_count = limit,
            CompileLimitDimension::SymbolCount => r.symbol_count = limit,
            CompileLimitDimension::StringItemCount => r.string_item_count = limit,
            CompileLimitDimension::SingleStringBytes => r.single_string_bytes = limit,
            CompileLimitDimension::TotalStringBytes => r.total_string_bytes = limit,
            CompileLimitDimension::StageScratchBytes => r.stage_scratch_bytes = limit,
            CompileLimitDimension::CompilerControlledLiveBytes => r.compiler_controlled_live_bytes = limit,
            CompileLimitDimension::OutputBytes => r.output_bytes = limit,
            CompileLimitDimension::DiagnosticCount => r.diagnostic_count = limit,
        }
        r
    }
}

} // verus!
