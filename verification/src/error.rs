//! Errors of conversions and calls.

use vstd::prelude::*;
use crate::convert::{ConversionWarning, ConversionWarningV};
use crate::ir::Role;
use crate::json::{Json, JsonV};
use crate::model::{dup_opt, dup_vec, group_views, opt_view, views, Dup};
use crate::text::dec;
use crate::text::decimal;

verus! {

broadcast use group_views;

/// Coarse classification of upstream API errors.
#[derive(Debug, PartialEq, Eq)]
pub enum ApiErrorKind {
    /// The request was malformed or rejected by validation.
    InvalidRequest,
    /// Authentication failed.
    Auth,
    /// The key may not perform the operation.
    PermissionDenied,
    /// The requested resource does not exist.
    NotFound,
    /// Rate limit exceeded.
    RateLimit,
    /// The provider is temporarily overloaded.
    Overloaded,
    /// Provider-side internal error.
    ServerError,
    /// Anything else; carries the provider's own error type.
    Other(String),
}

/// The mathematical value of a [`ApiErrorKind`].
pub enum ApiErrorKindV {
    InvalidRequest,
    Auth,
    PermissionDenied,
    NotFound,
    RateLimit,
    Overloaded,
    ServerError,
    Other(Seq<char>),
}

impl View for ApiErrorKind {
    type V = ApiErrorKindV;

    open spec fn view(&self) -> ApiErrorKindV {
        match self {
            ApiErrorKind::InvalidRequest => ApiErrorKindV::InvalidRequest,
            ApiErrorKind::Auth => ApiErrorKindV::Auth,
            ApiErrorKind::PermissionDenied => ApiErrorKindV::PermissionDenied,
            ApiErrorKind::NotFound => ApiErrorKindV::NotFound,
            ApiErrorKind::RateLimit => ApiErrorKindV::RateLimit,
            ApiErrorKind::Overloaded => ApiErrorKindV::Overloaded,
            ApiErrorKind::ServerError => ApiErrorKindV::ServerError,
            ApiErrorKind::Other(x) => ApiErrorKindV::Other(x@),
        }
    }
}

impl Dup for ApiErrorKind {
    fn dup(&self) -> (r: Self) {
        match self {
            ApiErrorKind::InvalidRequest => ApiErrorKind::InvalidRequest,
            ApiErrorKind::Auth => ApiErrorKind::Auth,
            ApiErrorKind::PermissionDenied => ApiErrorKind::PermissionDenied,
            ApiErrorKind::NotFound => ApiErrorKind::NotFound,
            ApiErrorKind::RateLimit => ApiErrorKind::RateLimit,
            ApiErrorKind::Overloaded => ApiErrorKind::Overloaded,
            ApiErrorKind::ServerError => ApiErrorKind::ServerError,
            ApiErrorKind::Other(x) => ApiErrorKind::Other(x.clone()),
        }
    }
}

/// The classification of an HTTP status.
pub open spec fn kind_of_status(status: u16) -> ApiErrorKindV {
    if status == 401 {
        ApiErrorKindV::Auth
    } else if status == 403 {
        ApiErrorKindV::PermissionDenied
    } else if status == 404 {
        ApiErrorKindV::NotFound
    } else if status == 429 {
        ApiErrorKindV::RateLimit
    } else if status == 503 || status == 529 {
        ApiErrorKindV::Overloaded
    } else if 400 <= status <= 499 {
        ApiErrorKindV::InvalidRequest
    } else if 500 <= status <= 599 {
        ApiErrorKindV::ServerError
    } else {
        ApiErrorKindV::Other(decimal(status as nat))
    }
}

impl ApiErrorKind {
    /// Classification by status code, for errors whose body tells no more.
    pub fn from_status(status: u16) -> (r: ApiErrorKind)
        ensures
            r@ == kind_of_status(status),
    {
        match status {
            401 => ApiErrorKind::Auth,
            403 => ApiErrorKind::PermissionDenied,
            404 => ApiErrorKind::NotFound,
            429 => ApiErrorKind::RateLimit,
            503 | 529 => ApiErrorKind::Overloaded,
            400..=499 => ApiErrorKind::InvalidRequest,
            500..=599 => ApiErrorKind::ServerError,
            _ => ApiErrorKind::Other(dec(status as u64)),
        }
    }
}

/// Which payload kind exceeded a size cap.
#[derive(Clone, Copy, Debug, PartialEq, Eq, Structural)]
pub enum BodyKind {
    /// A 2xx response body.
    SuccessBody,
    /// One complete logical SSE event.
    SseEvent,
}

/// Structural failure while converting between the IR and a provider format.
#[derive(Debug, PartialEq, Eq)]
pub enum ConversionError {
    /// The target format requires data that the IR does not carry.
    MissingRequired {
        what: String,
        location: String,
    },
    /// Tool arguments had to be a JSON object and are none.
    InvalidToolArguments {
        name: String,
        arguments: String,
        reason: String,
        location: String,
    },
    /// A content block is not valid for its message's role.
    InvalidBlockForRole {
        role: Role,
        block: String,
        location: String,
    },
    /// Strict mode: semantic warnings were escalated.
    Strict {
        warnings: Vec<ConversionWarning>,
    },
    /// A user-supplied query key collides with a required one.
    ProtectedQueryKey {
        key: String,
    },
    /// Any other structural problem.
    Other {
        message: String,
    },
}

/// The mathematical value of a [`ConversionError`].
pub enum ConversionErrorV {
    MissingRequired { what: Seq<char>, location: Seq<char> },
    InvalidToolArguments { name: Seq<char>, arguments: Seq<char>, reason: Seq<char>, location: Seq<char> },
    InvalidBlockForRole { role: Role, block: Seq<char>, location: Seq<char> },
    Strict { warnings: Seq<ConversionWarningV> },
    ProtectedQueryKey { key: Seq<char> },
    Other { message: Seq<char> },
}

impl View for ConversionError {
    type V = ConversionErrorV;

    open spec fn view(&self) -> ConversionErrorV {
        match self {
            ConversionError::MissingRequired { what, location } => ConversionErrorV::MissingRequired {
                what: what@,
                location: location@,
            },
            ConversionError::InvalidToolArguments { name, arguments, reason, location } => ConversionErrorV::InvalidToolArguments {
                name: name@,
                arguments: arguments@,
                reason: reason@,
                location: location@,
            },
            ConversionError::InvalidBlockForRole { role, block, location } => ConversionErrorV::InvalidBlockForRole {
                role: *role,
                block: block@,
                location: location@,
            },
            ConversionError::Strict { warnings } => ConversionErrorV::Strict {
                warnings: views(warnings@),
            },
            ConversionError::ProtectedQueryKey { key } => ConversionErrorV::ProtectedQueryKey {
                key: key@,
            },
            ConversionError::Other { message } => ConversionErrorV::Other {
                message: message@,
            },
        }
    }
}

impl Dup for ConversionError {
    fn dup(&self) -> (r: Self) {
        match self {
            ConversionError::MissingRequired { what, location } => ConversionError::MissingRequired {
                what: what.clone(),
                location: location.clone(),
            },
            ConversionError::InvalidToolArguments { name, arguments, reason, location } => ConversionError::InvalidToolArguments {
                name: name.clone(),
                arguments: arguments.clone(),
                reason: reason.clone(),
                location: location.clone(),
            },
            ConversionError::InvalidBlockForRole { role, block, location } => ConversionError::InvalidBlockForRole {
                role: *role,
                block: block.clone(),
                location: location.clone(),
            },
            ConversionError::Strict { warnings } => ConversionError::Strict {
                warnings: dup_vec(warnings),
            },
            ConversionError::ProtectedQueryKey { key } => ConversionError::ProtectedQueryKey {
                key: key.clone(),
            },
            ConversionError::Other { message } => ConversionError::Other {
                message: message.clone(),
            },
        }
    }
}

/// Error returned by a user-supplied request hook.
#[derive(Debug, PartialEq, Eq)]
pub struct HookError {
    /// What the hook reported.
    pub message: String,
    /// Description of the wrapped error, if any.
    pub source: Option<String>,
}

/// The mathematical value of a [`HookError`].
pub struct HookErrorV {
    pub message: Seq<char>,
    pub source: Option<Seq<char>>,
}

impl View for HookError {
    type V = HookErrorV;

    open spec fn view(&self) -> HookErrorV {
        HookErrorV {
            message: self.message@,
            source: opt_view(self.source),
        }
    }
}

impl Dup for HookError {
    fn dup(&self) -> (r: Self) {
        HookError {
            message: self.message.clone(),
            source: dup_opt(&self.source),
        }
    }
}

impl ConversionError {
    /// Required data is missing.
    pub fn missing(what: &str, location: &str) -> (r: ConversionError)
        ensures
            r@ == (ConversionErrorV::MissingRequired { what: what@, location: location@ }),
    {
        ConversionError::MissingRequired { what: what.to_owned(), location: location.to_owned() }
    }

    /// Tool arguments are no JSON object.
    pub fn invalid_tool_arguments(name: &str, arguments: &str, reason: &str, location: &str) -> (r: ConversionError)
        ensures
            r@ == (ConversionErrorV::InvalidToolArguments {
                name: name@,
                arguments: arguments@,
                reason: reason@,
                location: location@,
            }),
    {
        ConversionError::InvalidToolArguments {
            name: name.to_owned(),
            arguments: arguments.to_owned(),
            reason: reason.to_owned(),
            location: location.to_owned(),
        }
    }

    /// A block is not valid for its role.
    pub fn invalid_block_for_role(role: Role, block: &str, location: &str) -> (r: ConversionError)
        ensures
            r@ == (ConversionErrorV::InvalidBlockForRole { role, block: block@, location: location@ }),
    {
        ConversionError::InvalidBlockForRole {
            role,
            block: block.to_owned(),
            location: location.to_owned(),
        }
    }

    /// Any other structural error.
    pub fn other(message: &str) -> (r: ConversionError)
        ensures
            r@ == (ConversionErrorV::Other { message: message@ }),
    {
        ConversionError::Other { message: message.to_owned() }
    }
}

impl HookError {
    /// A hook error from a message.
    pub fn new(message: &str) -> (r: HookError)
        ensures
            r@ == (HookErrorV { message: message@, source: None }),
    {
        HookError { message: message.to_owned(), source: None }
    }

    /// A hook error that wraps another error, given by its description.
    pub fn with_source(message: &str, source: &str) -> (r: HookError)
        ensures
            r@ == (HookErrorV { message: message@, source: Some(source@) }),
    {
        HookError { message: message.to_owned(), source: Some(source.to_owned()) }
    }
}

/// Why a call or conversion failed.
#[derive(Debug, PartialEq, Eq)]
#[allow(inconsistent_fields)]
pub enum Error {
    /// The transport failed before a response was produced; its description.
    Transport(String),
    /// The upstream API returned a non-2xx response.
    Api {
        /// HTTP status code.
        status: u16,
        /// Coarse classification.
        kind: ApiErrorKind,
        /// Best-effort message extracted from the body.
        message: String,
        /// Raw response body, possibly a prefix.
        raw: Vec<u8>,
        /// `raw` is only a prefix.
        truncated: bool,
        /// The body as JSON, when it is JSON.
        parsed: Option<Json>,
        /// `Retry-After` in seconds.
        retry_after: Option<u64>,
        /// Response headers.
        headers: http::HeaderMap,
    },
    /// Structural conversion failure or a strict-mode escalation.
    Conversion(ConversionError),
    /// A request hook returned an error.
    Hook(HookError),
    /// A 2xx body or stream could not be parsed.
    Parse {
        /// Description of the failure.
        message: String,
        /// The offending raw data.
        raw: Vec<u8>,
    },
    /// A response body or SSE event exceeded a size cap.
    BodyTooLarge {
        /// Which kind of payload.
        kind: BodyKind,
        /// The configured cap in bytes.
        limit: usize,
        /// HTTP status, where already known.
        status: Option<u16>,
        /// Response headers, where already known.
        headers: Option<http::HeaderMap>,
        /// The prefix read before the cap was hit.
        prefix: Vec<u8>,
    },
    /// The capability is not supported by the configured format or endpoint.
    NotSupported(String),
}

/// The mathematical value of an [`Error`].
#[allow(inconsistent_fields)]
pub enum ErrorV {
    Transport(Seq<char>),
    Api {
        status: u16,
        kind: ApiErrorKindV,
        message: Seq<char>,
        raw: Seq<u8>,
        truncated: bool,
        parsed: Option<JsonV>,
        retry_after: Option<u64>,
        headers: http::HeaderMap,
    },
    Conversion(ConversionErrorV),
    Hook(HookErrorV),
    Parse { message: Seq<char>, raw: Seq<u8> },
    BodyTooLarge {
        kind: BodyKind,
        limit: usize,
        status: Option<u16>,
        headers: Option<http::HeaderMap>,
        prefix: Seq<u8>,
    },
    NotSupported(Seq<char>),
}

impl View for Error {
    type V = ErrorV;

    open spec fn view(&self) -> ErrorV {
        match self {
            Error::Transport(s) => ErrorV::Transport(s@),
            Error::Api { status, kind, message, raw, truncated, parsed, retry_after, headers } => ErrorV::Api {
                status: *status,
                kind: kind@,
                message: message@,
                raw: raw@,
                truncated: *truncated,
                parsed: opt_view(*parsed),
                retry_after: *retry_after,
                headers: *headers,
            },
            Error::Conversion(e) => ErrorV::Conversion(e@),
            Error::Hook(e) => ErrorV::Hook(e@),
            Error::Parse { message, raw } => ErrorV::Parse { message: message@, raw: raw@ },
            Error::BodyTooLarge { kind, limit, status, headers, prefix } => ErrorV::BodyTooLarge {
                kind: *kind,
                limit: *limit,
                status: *status,
                headers: *headers,
                prefix: prefix@,
            },
            Error::NotSupported(s) => ErrorV::NotSupported(s@),
        }
    }
}

/// Copies raw data.
pub fn copy_bytes(b: &[u8]) -> (r: Vec<u8>)
    ensures
        r@ == b@,
{
    let mut out: Vec<u8> = Vec::new();
    let mut i: usize = 0;
    while i < b.len()
        invariant
            i <= b@.len(),
            out@ == b@.take(i as int),
        decreases b@.len() - i,
    {
        out.push(b[i]);
        proof {
            assert(b@.take(i as int + 1) =~= b@.take(i as int).push(b@[i as int]));
        }
        i += 1;
    }
    proof {
        assert(b@.take(i as int) =~= b@);
    }
    out
}

impl Error {
    /// A parse error with the offending data.
    pub fn parse(message: &str, raw: &[u8]) -> (r: Error)
        ensures
            r@ == (ErrorV::Parse { message: message@, raw: raw@ }),
    {
        Error::Parse { message: message.to_owned(), raw: copy_bytes(raw) }
    }
}

} // verus!
