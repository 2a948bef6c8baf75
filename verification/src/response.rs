//! Parsed responses, and the warnings of the parse side.

use vstd::prelude::*;
use crate::convert::warnings::warning;
use crate::convert::{ConversionDirection, ConversionWarning, ConversionWarningV, WarningCode};
use crate::ir::{Message, MessageV, StopReason, StopReasonV, Usage, UsageV};
use crate::json::{Json, JsonV};
use crate::model::{group_views, opt_view, views};

verus! {

broadcast use group_views;

/// What a response parser cannot get from the body.
#[derive(Debug)]
pub struct ResponseMeta {
    /// HTTP status.
    pub status: u16,
    /// Response headers.
    pub headers: http::HeaderMap,
}

impl ResponseMeta {
    /// Metadata from status and headers.
    pub fn new(status: u16, headers: http::HeaderMap) -> (r: ResponseMeta)
        ensures
            r.status == status,
            r.headers == headers,
    {
        ResponseMeta { status, headers }
    }
}

/// A complete response.
#[derive(Debug, PartialEq, Eq)]
pub struct Response {
    pub message: Message,
    pub id: Option<String>,
    pub model: Option<String>,
    pub stop_reason: Option<StopReason>,
    pub usage: Option<Usage>,
    pub status: u16,
    pub headers: http::HeaderMap,
    /// The provider response.
    pub raw: Option<Json>,
    pub warnings: Vec<ConversionWarning>,
}

/// The mathematical value of a [`Response`].
pub struct ResponseV {
    pub message: MessageV,
    pub id: Option<Seq<char>>,
    pub model: Option<Seq<char>>,
    pub stop_reason: Option<StopReasonV>,
    pub usage: Option<UsageV>,
    pub status: u16,
    pub headers: http::HeaderMap,
    pub raw: Option<JsonV>,
    pub warnings: Seq<ConversionWarningV>,
}

impl View for Response {
    type V = ResponseV;

    open spec fn view(&self) -> ResponseV {
        ResponseV {
            message: self.message@,
            id: opt_view(self.id),
            model: opt_view(self.model),
            stop_reason: opt_view(self.stop_reason),
            usage: opt_view(self.usage),
            status: self.status,
            headers: self.headers,
            raw: opt_view(self.raw),
            warnings: views(self.warnings@),
        }
    }
}

/// `ws` with one more parse-side warning.
pub open spec fn parse_warned(
    ws: Seq<ConversionWarningV>,
    format: Seq<char>,
    code: WarningCode,
    location: Seq<char>,
    message: Seq<char>,
) -> Seq<ConversionWarningV> {
    ws.push(warning(code, format, ConversionDirection::FromFormat, location, message))
}

/// Adds a parse-side warning.
pub fn parse_warn(ws: &mut Vec<ConversionWarning>, format: &str, code: WarningCode, location: &str, message: &str)
    ensures
        views(final(ws)@) == parse_warned(views(old(ws)@), format@, code, location@, message@),
{
    ws.push(ConversionWarning::from_format(code, format, location, message));
}

} // verus!
