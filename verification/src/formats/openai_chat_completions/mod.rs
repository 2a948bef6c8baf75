//! OpenAI Chat Completions (`POST /v1/chat/completions`), dialects included.

pub mod content;
pub mod assistant;
pub mod messages;
pub mod from_ir;
pub mod loss_laws;
pub mod result_laws;
pub mod types;
pub mod parse_parts;
pub mod parse_messages;
pub mod to_ir;
pub mod streamed_calls;
pub mod stream;
pub mod stream_laws;
pub mod shown_laws;
pub mod stream_sums;
pub mod streamed_call_laws;
pub mod api;
pub mod response_laws;
pub mod error_laws;
pub mod round_trip;
pub mod round_trip_calls;
pub mod round_trip_tools;
pub mod round_trip_request;
pub mod canonical_parts;
pub mod canonical_calls;
pub mod canonical_messages;
pub mod canonical_fields;
pub mod canonical_request;
