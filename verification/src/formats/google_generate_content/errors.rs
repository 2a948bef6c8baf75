//! Classification of Google errors.

use vstd::prelude::*;
use vstd::string::*;
use vstd::utf8::encode_utf8;
use crate::api_error::{api_error, body_json, body_message, generic_api_error};
use crate::error::{kind_of_status, ApiErrorKind, ApiErrorKindV, Error, ErrorV};
use crate::headers::no_headers;
use crate::json::{json_as_str, json_as_u64, json_get, Json, JsonV};
use crate::model::opt_view;
use crate::stream::{reports, FailV};
use crate::text::str_eq;

verus! {

/// The classification of a gRPC status; unknown ones go by the HTTP status.
pub open spec fn grpc_kind(grpc: Seq<char>, status: u16) -> ApiErrorKindV {
    if grpc == "INVALID_ARGUMENT"@ || grpc == "FAILED_PRECONDITION"@ || grpc == "OUT_OF_RANGE"@ {
        ApiErrorKindV::InvalidRequest
    } else if grpc == "UNAUTHENTICATED"@ {
        ApiErrorKindV::Auth
    } else if grpc == "PERMISSION_DENIED"@ {
        ApiErrorKindV::PermissionDenied
    } else if grpc == "NOT_FOUND"@ {
        ApiErrorKindV::NotFound
    } else if grpc == "RESOURCE_EXHAUSTED"@ {
        ApiErrorKindV::RateLimit
    } else if grpc == "UNAVAILABLE"@ {
        ApiErrorKindV::Overloaded
    } else if grpc == "INTERNAL"@ {
        ApiErrorKindV::ServerError
    } else {
        kind_of_status(status)
    }
}

/// Maps a gRPC status to the unified kind.
pub fn api_error_kind(grpc: &str, status: u16) -> (r: ApiErrorKind)
    ensures
        r@ == grpc_kind(grpc@, status),
{
    if str_eq(grpc, "INVALID_ARGUMENT") || str_eq(grpc, "FAILED_PRECONDITION") || str_eq(grpc, "OUT_OF_RANGE") {
        ApiErrorKind::InvalidRequest
    } else if str_eq(grpc, "UNAUTHENTICATED") {
        ApiErrorKind::Auth
    } else if str_eq(grpc, "PERMISSION_DENIED") {
        ApiErrorKind::PermissionDenied
    } else if str_eq(grpc, "NOT_FOUND") {
        ApiErrorKind::NotFound
    } else if str_eq(grpc, "RESOURCE_EXHAUSTED") {
        ApiErrorKind::RateLimit
    } else if str_eq(grpc, "UNAVAILABLE") {
        ApiErrorKind::Overloaded
    } else if str_eq(grpc, "INTERNAL") {
        ApiErrorKind::ServerError
    } else {
        ApiErrorKind::from_status(status)
    }
}

/// The member `k` of the error object of a body.
pub open spec fn error_member(j: Option<JsonV>, k: Seq<char>) -> Option<JsonV> {
    match j {
        Some(j) => match json_get(j, "error"@) {
            Some(e) => json_get(e, k),
            None => None,
        },
        None => None,
    }
}

/// The classification of an error body: its gRPC status, or else the HTTP
/// status.
pub open spec fn google_kind(j: Option<JsonV>, status: u16) -> ApiErrorKindV {
    match json_as_str(error_member(j, "status"@)) {
        Some(grpc) => grpc_kind(grpc, status),
        None => kind_of_status(status),
    }
}

/// The error of a non-2xx response.
pub open spec fn google_error(status: u16, headers: http::HeaderMap, body: Seq<u8>) -> ErrorV {
    api_error(
        status,
        google_kind(body_json(body), status),
        body_message(body),
        body,
        headers,
    )
}

/// The status that an error envelope gives, where it is a plausible one; else
/// that of the transport.
pub open spec fn envelope_status(j: JsonV) -> u16 {
    match json_as_u64(error_member(Some(j), "code"@)) {
        Some(c) => if 100 <= c <= 599 { c as u16 } else { 200 },
        None => 200,
    }
}

/// The failure of an error envelope in the stream.
pub open spec fn envelope_failure(j: JsonV, data: Seq<char>) -> FailV {
    let body = encode_utf8(data);
    FailV::Api {
        status: envelope_status(j),
        kind: google_kind(body_json(body), envelope_status(j)),
        message: body_message(body),
        raw: body,
        parsed: body_json(body),
    }
}

fn find_error_member<'a>(j: Option<&'a Json>, k: &str) -> (r: Option<&'a Json>)
    ensures
        opt_view(r) == error_member(opt_view(j), k@),
{
    match j {
        Some(j) => match j.get("error") {
            Some(e) => e.get(k),
            None => None,
        },
        None => None,
    }
}

fn kind_of_body(j: &Option<Json>, status: u16) -> (r: ApiErrorKind)
    ensures
        r@ == google_kind(opt_view(*j), status),
{
    match find_error_member(j.as_ref(), "status") {
        Some(Json::Str(s)) => api_error_kind(s.as_str(), status),
        _ => ApiErrorKind::from_status(status),
    }
}

/// Classifies a non-2xx response.
pub fn parse_error(status: u16, headers: &http::HeaderMap, body: &[u8]) -> (r: Error)
    ensures
        r@ == google_error(status, *headers, body@),
{
    match generic_api_error(status, headers, body) {
        Error::Api { status, kind, message, raw, truncated, parsed, retry_after, headers } => {
            let kind = kind_of_body(&parsed, status);
            Error::Api { status, kind, message, raw, truncated, parsed, retry_after, headers }
        },
        e => e,
    }
}

fn status_of_envelope(j: &Json) -> (r: u16)
    ensures
        r == envelope_status(j@),
{
    match find_error_member(Some(j), "code") {
        Some(c) => match c.as_u64() {
            Some(c) => if 100 <= c && c <= 599 { c as u16 } else { 200 },
            None => 200,
        },
        None => 200,
    }
}

/// Classifies an error envelope received on the stream channel.
pub fn stream_error(j: &Json, data: &str) -> (r: Error)
    ensures
        reports(r@, envelope_failure(j@, data@)),
{
    let status = status_of_envelope(j);
    parse_error(status, &no_headers(), data.as_bytes())
}

} // verus!
