//! Google `generateContent` (Generative Language API, `v1beta`).

pub mod types;
pub mod parts;
pub mod from_ir;
pub mod parse_parts;
pub mod to_ir;
pub mod errors;
pub mod round_trip;
pub mod round_trip_history;
pub mod round_trip_fields;
pub mod round_trip_request;
pub mod canonical_contents;
pub mod canonical_parts;
pub mod canonical_request;
pub mod canonical_turns;
pub mod result_name_laws;
pub mod result_laws;
pub mod system_laws;
pub mod turn_laws;
pub mod stream;
pub mod stream_laws;
pub mod shown_laws;
pub mod api;
pub mod response_laws;
pub mod error_laws;
pub mod loss_laws;
pub mod count_laws;
