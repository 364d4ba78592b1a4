//! Verified core of the road-editing source compiler front end: text rules,
//! compile limits, checked module headers, wire references, semantic preflight
//! accounting and road-editing source locations.

pub mod diagnostic;
pub mod limits;
pub mod text;
pub mod source;
pub mod rules;
pub mod declaration;
pub mod fmt;
pub mod reference;
pub mod byte_order;
pub mod reference_order;
pub mod reference_sort;
pub mod model;
pub mod split;
pub mod scratch;
pub mod owner;
pub mod preflight;
pub mod links;
pub mod source_location;
pub mod reader;
pub mod policy;
pub mod writer;
pub mod source_map;
pub mod spelling;
pub mod header_check;
pub mod signal_check;
pub mod junction_check;
pub mod section_check;
pub mod policy_check;
pub mod conflict_check;
pub mod access_check;
pub mod parking_check;
pub mod lane_check;
pub mod corridor_check;
pub mod geometry_check;
pub mod source_preflight;
pub mod source_verify;
pub mod accounting;
pub mod stage_records;
pub mod inputs;
