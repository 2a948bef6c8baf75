//! Anthropic Messages (`POST /v1/messages`).

pub mod types;
pub mod blocks;
pub mod layout;
pub mod system;
pub mod messages;
pub mod from_ir;
pub mod loss_laws;
pub mod place_laws;
pub mod parse_blocks;
pub mod parse_messages;
pub mod to_ir;
pub mod stream;
pub mod stream_sums;
pub mod shown_laws;
pub mod api;
pub mod response_laws;
pub mod error_laws;
pub mod count_laws;
pub mod round_trip;
pub mod canonical_nodes;
pub mod canonical_blocks;
pub mod canonical_messages;
pub mod canonical_system;
pub mod canonical_config;
pub mod canonical_request;
pub mod round_trip_messages;
pub mod round_trip_history;
pub mod round_trip_fields;
pub mod round_trip_request;
