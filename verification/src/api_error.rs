//! Errors that providers report: their classification and their message.

use vstd::prelude::*;
use vstd::string::*;
use crate::error::{copy_bytes, kind_of_status, ApiErrorKind, ApiErrorKindV, Error, ErrorV};
use crate::format::{error_message, extract_error_message};
use crate::headers::{clone_headers, retry_after_from_headers, retry_seconds};
use crate::json::{Json, JsonV};
use crate::model::opt_view;
use crate::value::{json_from_slice, parse_slice};

verus! {

/// The text that `String::from_utf8_lossy` makes of bytes.
pub uninterp spec fn utf8_lossy(bytes: Seq<u8>) -> Seq<char>;

/// `String::from_utf8_lossy`: invalid sequences become replacement
/// characters.
#[verifier::external_body]
fn lossy_text(bytes: &[u8]) -> (r: String)
    ensures
        r@ == utf8_lossy(bytes@),
{
    String::from_utf8_lossy(bytes).into_owned()
}

/// The first 200 characters of a text.
pub open spec fn excerpt(s: Seq<char>) -> Seq<char> {
    if s.len() <= 200 {
        s
    } else {
        s.take(200)
    }
}

/// The body as JSON, when it is JSON.
pub open spec fn body_json(body: Seq<u8>) -> Option<JsonV> {
    match json_from_slice(body) {
        Ok(j) => Some(j),
        Err(_) => None,
    }
}

/// The message of an error body: one in a common shape, or else the start of
/// its text.
pub open spec fn body_message(body: Seq<u8>) -> Seq<char> {
    let found = match body_json(body) {
        Some(j) => error_message(j),
        None => None,
    };
    match found {
        Some(m) => m,
        None => excerpt(utf8_lossy(body)),
    }
}

/// A provider error with its raw body and headers.
pub open spec fn api_error(
    status: u16,
    kind: ApiErrorKindV,
    message: Seq<char>,
    body: Seq<u8>,
    headers: http::HeaderMap,
) -> ErrorV {
    ErrorV::Api {
        status,
        kind,
        message,
        raw: body,
        truncated: false,
        parsed: body_json(body),
        retry_after: retry_seconds(headers),
        headers,
    }
}

/// The error of a response that no format classifies further.
pub open spec fn generic_error(status: u16, headers: http::HeaderMap, body: Seq<u8>) -> ErrorV {
    api_error(status, kind_of_status(status), body_message(body), body, headers)
}

/// The start of a body as text.
pub fn body_excerpt(body: &[u8]) -> (r: String)
    ensures
        r@ == excerpt(utf8_lossy(body@)),
{
    let text = lossy_text(body);
    let n = text.as_str().unicode_len();
    if n <= 200 {
        text
    } else {
        proof {
            assert(text@.subrange(0, 200) =~= text@.take(200));
        }
        text.as_str().substring_char(0, 200).to_owned()
    }
}

/// The body as JSON, when it is JSON.
pub fn parse_body(body: &[u8]) -> (r: Option<Json>)
    ensures
        opt_view(r) == body_json(body@),
{
    match parse_slice(body) {
        Ok(j) => Some(j),
        Err(_) => None,
    }
}

impl Error {
    /// A provider error; the retry delay comes from the headers, the parsed
    /// body from the raw one.
    pub fn api(status: u16, kind: ApiErrorKind, message: String, raw: &[u8], headers: &http::HeaderMap) -> (r: Error)
        ensures
            r@ == api_error(status, kind@, message@, raw@, *headers),
    {
        Error::Api {
            status,
            kind,
            message,
            raw: copy_bytes(raw),
            truncated: false,
            parsed: parse_body(raw),
            retry_after: retry_after_from_headers(headers),
            headers: clone_headers(headers),
        }
    }
}

/// The default classifier of non-2xx responses.
pub fn generic_api_error(status: u16, headers: &http::HeaderMap, body: &[u8]) -> (r: Error)
    ensures
        r@ == generic_error(status, *headers, body@),
{
    let parsed = parse_body(body);
    let found = match &parsed {
        Some(j) => extract_error_message(j),
        None => None,
    };
    let message = match found {
        Some(m) => m,
        None => body_excerpt(body),
    };
    Error::Api {
        status,
        kind: ApiErrorKind::from_status(status),
        message,
        raw: copy_bytes(body),
        truncated: false,
        parsed,
        retry_after: retry_after_from_headers(headers),
        headers: clone_headers(headers),
    }
}

} // verus!
