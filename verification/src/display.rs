//! Errors as text.

use vstd::prelude::*;
use crate::error::{ApiErrorKind, ApiErrorKindV, BodyKind, ConversionError, ConversionErrorV, Error, ErrorV};
use crate::ir::Role;
use crate::model::{group_views, views};
use crate::text::{cat2, cat3, cat4, cat5, dec, dec_usize, decimal};

verus! {

broadcast use group_views;

/// A text as the `Debug` format of `str` writes it: in quotes, with escapes.
pub uninterp spec fn quoted(s: Seq<char>) -> Seq<char>;

/// `format!` with the `Debug` format of `str`.
#[verifier::external_body]
pub(crate) fn quote(s: &str) -> (r: String)
    ensures
        r@ == quoted(s@),
{
    format!("{s:?}")
}

/// The name of a role.
pub open spec fn role_name(role: Role) -> Seq<char> {
    match role {
        Role::System => "System"@,
        Role::Developer => "Developer"@,
        Role::User => "User"@,
        Role::Assistant => "Assistant"@,
        Role::Tool => "Tool"@,
    }
}

/// The name of an error kind.
pub open spec fn kind_name(kind: ApiErrorKindV) -> Seq<char> {
    match kind {
        ApiErrorKindV::InvalidRequest => "InvalidRequest"@,
        ApiErrorKindV::Auth => "Auth"@,
        ApiErrorKindV::PermissionDenied => "PermissionDenied"@,
        ApiErrorKindV::NotFound => "NotFound"@,
        ApiErrorKindV::RateLimit => "RateLimit"@,
        ApiErrorKindV::Overloaded => "Overloaded"@,
        ApiErrorKindV::ServerError => "ServerError"@,
        ApiErrorKindV::Other(s) => "Other("@ + quoted(s) + ")"@,
    }
}

/// A conversion error as text.
pub open spec fn conversion_text(e: ConversionErrorV) -> Seq<char> {
    match e {
        ConversionErrorV::MissingRequired { what, location } => "missing required data: "@ + what + " (at "@ + location
            + ")"@,
        ConversionErrorV::InvalidToolArguments { name, arguments, reason, location } => "tool call `"@ + name
            + "`: arguments are not a JSON object: "@ + reason + " (at "@ + location + ")"@,
        ConversionErrorV::InvalidBlockForRole { role, block, location } => block + " block is not valid in a "@
            + role_name(role) + " message (at "@ + location + ")"@,
        ConversionErrorV::Strict { warnings } => {
            let head = "strict mode: "@ + decimal(warnings.len())
                + " semantic warning(s) escalated to an error"@;
            if warnings.len() > 0 {
                head + "; first: "@ + warnings[0].message
            } else {
                head
            }
        },
        ConversionErrorV::ProtectedQueryKey { key } => "query key `"@ + key
            + "` is required by the format and cannot be overridden"@,
        ConversionErrorV::Other { message } => message,
    }
}

/// An error as text.
pub open spec fn error_text(e: ErrorV) -> Seq<char> {
    match e {
        ErrorV::Transport(s) => "transport error: "@ + s,
        ErrorV::Api { status, kind, message, raw, truncated, parsed, retry_after, headers } => {
            let head = "API error (HTTP "@ + decimal(status as nat) + ", "@ + kind_name(kind) + "): "@ + message;
            if truncated {
                head + " [body truncated]"@
            } else {
                head
            }
        },
        ErrorV::Conversion(c) => "conversion error: "@ + conversion_text(c),
        ErrorV::Hook(h) => "request hook failed: "@ + h.message,
        ErrorV::Parse { message, raw } => "parse error: "@ + message,
        ErrorV::BodyTooLarge { kind, limit, status, headers, prefix } => (match kind {
            BodyKind::SuccessBody => "response body"@,
            BodyKind::SseEvent => "SSE event"@,
        }) + " exceeded the configured cap of "@ + decimal(limit as nat) + " bytes"@,
        ErrorV::NotSupported(s) => "not supported: "@ + s,
    }
}

fn name_of_role(role: Role) -> (r: &'static str)
    ensures
        r@ == role_name(role),
{
    match role {
        Role::System => "System",
        Role::Developer => "Developer",
        Role::User => "User",
        Role::Assistant => "Assistant",
        Role::Tool => "Tool",
    }
}

fn name_of_kind(kind: &ApiErrorKind) -> (r: String)
    ensures
        r@ == kind_name(kind@),
{
    match kind {
        ApiErrorKind::InvalidRequest => "InvalidRequest".to_owned(),
        ApiErrorKind::Auth => "Auth".to_owned(),
        ApiErrorKind::PermissionDenied => "PermissionDenied".to_owned(),
        ApiErrorKind::NotFound => "NotFound".to_owned(),
        ApiErrorKind::RateLimit => "RateLimit".to_owned(),
        ApiErrorKind::Overloaded => "Overloaded".to_owned(),
        ApiErrorKind::ServerError => "ServerError".to_owned(),
        ApiErrorKind::Other(s) => cat3("Other(", quote(s.as_str()).as_str(), ")"),
    }
}

impl ConversionError {
    /// The error as text.
    pub fn text(&self) -> (r: String)
        ensures
            r@ == conversion_text(self@),
    {
        match self {
            ConversionError::MissingRequired { what, location } => cat5(
                "missing required data: ",
                what.as_str(),
                " (at ",
                location.as_str(),
                ")",
            ),
            ConversionError::InvalidToolArguments { name, reason, location, .. } => {
                let head = cat4(
                    "tool call `",
                    name.as_str(),
                    "`: arguments are not a JSON object: ",
                    reason.as_str(),
                );
                cat4(head.as_str(), " (at ", location.as_str(), ")")
            },
            ConversionError::InvalidBlockForRole { role, block, location } => {
                let head = cat4(
                    block.as_str(),
                    " block is not valid in a ",
                    name_of_role(*role),
                    " message (at ",
                );
                cat3(head.as_str(), location.as_str(), ")")
            },
            ConversionError::Strict { warnings } => {
                let head = cat3(
                    "strict mode: ",
                    dec_usize(warnings.len()).as_str(),
                    " semantic warning(s) escalated to an error",
                );
                if warnings.len() > 0 {
                    proof {
                        assert(views(warnings@)[0] == warnings@[0]@);
                    }
                    cat3(head.as_str(), "; first: ", warnings[0].message.as_str())
                } else {
                    head
                }
            },
            ConversionError::ProtectedQueryKey { key } => cat3(
                "query key `",
                key.as_str(),
                "` is required by the format and cannot be overridden",
            ),
            ConversionError::Other { message } => message.clone(),
        }
    }
}

impl Error {
    /// The error as text.
    pub fn text(&self) -> (r: String)
        ensures
            r@ == error_text(self@),
    {
        match self {
            Error::Transport(s) => cat2("transport error: ", s.as_str()),
            Error::Api { status, kind, message, truncated, .. } => {
                let head = cat4(
                    "API error (HTTP ",
                    dec(*status as u64).as_str(),
                    ", ",
                    name_of_kind(kind).as_str(),
                );
                let head = cat3(head.as_str(), "): ", message.as_str());
                if *truncated {
                    cat2(head.as_str(), " [body truncated]")
                } else {
                    head
                }
            },
            Error::Conversion(c) => cat2("conversion error: ", c.text().as_str()),
            Error::Hook(h) => cat2("request hook failed: ", h.message.as_str()),
            Error::Parse { message, .. } => cat2("parse error: ", message.as_str()),
            Error::BodyTooLarge { kind, limit, .. } => {
                let what = match kind {
                    BodyKind::SuccessBody => "response body",
                    BodyKind::SseEvent => "SSE event",
                };
                cat4(what, " exceeded the configured cap of ", dec_usize(*limit).as_str(), " bytes")
            },
            Error::NotSupported(s) => cat2("not supported: ", s.as_str()),
        }
    }
}

} // verus!
