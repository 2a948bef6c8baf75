//! Anthropic SSE events as unified stream events.

use vstd::prelude::*;
use vstd::string::*;
use vstd::utf8::encode_utf8;
use crate::convert::{ConversionWarning, ConversionWarningV, WarningCode};
use crate::decode::{extend_map, extended};
use crate::error::{copy_bytes, ApiErrorKind, ApiErrorKindV, Error, ErrorV};
use crate::format::ANTHROPIC_MESSAGES;
use crate::formats::anthropic_messages::parse_blocks::{block_type, leftover, opaque_block, split_cache, split_cache_control, type_of};
use crate::formats::anthropic_messages::to_ir::{stop_of, unified_usage, unify_usage};
use crate::formats::anthropic_messages::types::{decode_content_block_delta_event, decode_content_block_start_event, decode_content_block_stop_event, decode_error_envelope, decode_message_delta_event, decode_message_start_event, decode_redacted_thinking_block, decode_text_block, decode_thinking_block, decode_tool_use_block, decode_usage_wire, ContentBlockDeltaEvent, ContentBlockStartEvent, ContentBlockStopEvent, ErrorEnvelope, MessageDeltaEvent, MessageStartEvent, RedactedThinkingBlock, TextBlock, ThinkingBlock, ToolUseBlock, UsageWire, UsageWireV};
use crate::headers::no_headers;
use crate::ir::{BlockDelta, BlockDeltaV, CacheHint, CacheHintV, ContentBlock, ContentBlockV, Extra, SseEvent, SseEventV, StopReason, StreamEvent, StreamEventV, Usage, UsageV};
use crate::json::{json_as_str, json_get, obj_set, with_member, Json, JsonMap, JsonV, ObjV};
use crate::model::{dup_opt, dup_vec, group_views, opt_view, views, Dup};
use crate::response::{parse_warn, parse_warned};
use crate::stream::{removed_slot_is_empty, reports, set_slot_is_read, slot_get, slot_remove, slot_set, slots_differ, FailV, Slots, StepV, StreamParser};
use crate::text::{cat2, cat3, dec_usize, decimal, opt_is, str_eq, text_is};
use crate::value::{json_from_str, json_to_text, parse_text, to_text, wire};

verus! {

broadcast use group_views;

/// A block that is still being streamed.
#[derive(Debug, PartialEq, Eq)]
pub enum OpenBlock {
    Text {
        text: String,
        extra: JsonMap,
        cache: Option<CacheHint>,
        citations: Vec<Json>,
    },
    Thinking {
        text: String,
        signature: String,
        extra: JsonMap,
    },
    RedactedThinking {
        data: String,
        extra: JsonMap,
    },
    ToolUse {
        id: String,
        name: String,
        json: String,
        start_input: Json,
        extra: JsonMap,
        cache: Option<CacheHint>,
    },
    Opaque {
        value: Json,
        json: String,
    },
}

/// The mathematical value of a [`OpenBlock`].
pub enum OpenBlockV {
    Text { text: Seq<char>, extra: ObjV, cache: Option<CacheHintV>, citations: Seq<JsonV> },
    Thinking { text: Seq<char>, signature: Seq<char>, extra: ObjV },
    RedactedThinking { data: Seq<char>, extra: ObjV },
    ToolUse { id: Seq<char>, name: Seq<char>, json: Seq<char>, start_input: JsonV, extra: ObjV, cache: Option<CacheHintV> },
    Opaque { value: JsonV, json: Seq<char> },
}

impl View for OpenBlock {
    type V = OpenBlockV;

    open spec fn view(&self) -> OpenBlockV {
        match self {
            OpenBlock::Text { text, extra, cache, citations } => OpenBlockV::Text {
                text: text@,
                extra: extra@,
                cache: opt_view(*cache),
                citations: views(citations@),
            },
            OpenBlock::Thinking { text, signature, extra } => OpenBlockV::Thinking {
                text: text@,
                signature: signature@,
                extra: extra@,
            },
            OpenBlock::RedactedThinking { data, extra } => OpenBlockV::RedactedThinking {
                data: data@,
                extra: extra@,
            },
            OpenBlock::ToolUse { id, name, json, start_input, extra, cache } => OpenBlockV::ToolUse {
                id: id@,
                name: name@,
                json: json@,
                start_input: start_input@,
                extra: extra@,
                cache: opt_view(*cache),
            },
            OpenBlock::Opaque { value, json } => OpenBlockV::Opaque {
                value: value@,
                json: json@,
            },
        }
    }
}

impl Dup for OpenBlock {
    fn dup(&self) -> (r: Self) {
        match self {
            OpenBlock::Text { text, extra, cache, citations } => OpenBlock::Text {
                text: text.clone(),
                extra: extra.dup(),
                cache: dup_opt(cache),
                citations: dup_vec(citations),
            },
            OpenBlock::Thinking { text, signature, extra } => OpenBlock::Thinking {
                text: text.clone(),
                signature: signature.clone(),
                extra: extra.dup(),
            },
            OpenBlock::RedactedThinking { data, extra } => OpenBlock::RedactedThinking {
                data: data.clone(),
                extra: extra.dup(),
            },
            OpenBlock::ToolUse { id, name, json, start_input, extra, cache } => OpenBlock::ToolUse {
                id: id.clone(),
                name: name.clone(),
                json: json.clone(),
                start_input: start_input.dup(),
                extra: extra.dup(),
                cache: dup_opt(cache),
            },
            OpenBlock::Opaque { value, json } => OpenBlock::Opaque {
                value: value.dup(),
                json: json.clone(),
            },
        }
    }
}

/// The classification of an Anthropic `error.type`.
pub open spec fn kind_named(s: Seq<char>) -> ApiErrorKindV {
    if s == "invalid_request_error"@ {
        ApiErrorKindV::InvalidRequest
    } else if s == "authentication_error"@ {
        ApiErrorKindV::Auth
    } else if s == "permission_error"@ {
        ApiErrorKindV::PermissionDenied
    } else if s == "not_found_error"@ {
        ApiErrorKindV::NotFound
    } else if s == "rate_limit_error"@ {
        ApiErrorKindV::RateLimit
    } else if s == "overloaded_error"@ {
        ApiErrorKindV::Overloaded
    } else if s == "api_error"@ {
        ApiErrorKindV::ServerError
    } else {
        ApiErrorKindV::Other(s)
    }
}

/// Maps an Anthropic `error.type` to the unified kind.
pub fn map_error_kind(kind: &str) -> (r: ApiErrorKind)
    ensures
        r@ == kind_named(kind@),
{
    if str_eq(kind, "invalid_request_error") {
        ApiErrorKind::InvalidRequest
    } else if str_eq(kind, "authentication_error") {
        ApiErrorKind::Auth
    } else if str_eq(kind, "permission_error") {
        ApiErrorKind::PermissionDenied
    } else if str_eq(kind, "not_found_error") {
        ApiErrorKind::NotFound
    } else if str_eq(kind, "rate_limit_error") {
        ApiErrorKind::RateLimit
    } else if str_eq(kind, "overloaded_error") {
        ApiErrorKind::Overloaded
    } else if str_eq(kind, "api_error") {
        ApiErrorKind::ServerError
    } else {
        ApiErrorKind::Other(kind.to_owned())
    }
}

/// Stream parser of the Anthropic Messages format.
#[derive(Debug)]
pub struct AnthropicStreamParser {
    /// Latest raw usage: seeded by the start, overlaid by every delta.
    pub usage: JsonMap,
    /// Blocks that are still open.
    pub blocks: Slots<OpenBlock>,
    /// `message_stop` was seen.
    pub terminated: bool,
}

/// The mathematical value of an [`AnthropicStreamParser`].
pub struct AnthropicStreamV {
    pub usage: ObjV,
    pub blocks: Seq<(u64, OpenBlockV)>,
    pub terminated: bool,
}

impl View for AnthropicStreamParser {
    type V = AnthropicStreamV;

    open spec fn view(&self) -> AnthropicStreamV {
        AnthropicStreamV { usage: self.usage@, blocks: self.blocks@, terminated: self.terminated }
    }
}

/// A parse-side warning of this format.
pub open spec fn snoted(
    ws: Seq<ConversionWarningV>,
    code: WarningCode,
    location: Seq<char>,
    message: Seq<char>,
) -> Seq<ConversionWarningV> {
    parse_warned(ws, ANTHROPIC_MESSAGES@, code, location, message)
}

/// A failure on the data of an event.
pub open spec fn data_failure(message: Seq<char>, data: Seq<char>) -> FailV {
    FailV::Parse { message, raw: encode_utf8(data) }
}

/// An opaque open block, and how it starts.
pub open spec fn open_opaque(j: JsonV) -> (OpenBlockV, ContentBlockV) {
    (OpenBlockV::Opaque { value: j, json: Seq::empty() }, opaque_block(j))
}

/// A block of a known type but a wrong shape is kept opaque.
pub open spec fn open_malformed(j: JsonV, loc: Seq<char>, ws: Seq<ConversionWarningV>) -> (OpenBlockV, ContentBlockV, Seq<ConversionWarningV>) {
    let (open, start) = open_opaque(j);
    (
        open,
        start,
        snoted(ws, WarningCode::MalformedField, loc, "known block type failed to parse; kept as opaque"@),
    )
}

/// An empty signature counts as absent.
pub open spec fn some_signature(s: Seq<char>) -> Option<Seq<char>> {
    if s.len() == 0 { None } else { Some(s) }
}

/// How a streamed block opens: what is kept of it, and how it starts.
pub open spec fn opened(j: JsonV, loc: Seq<char>, ws: Seq<ConversionWarningV>) -> (OpenBlockV, ContentBlockV, Seq<ConversionWarningV>) {
    let t = type_of(j);
    if t == Some("text"@) {
        match decode_text_block(j) {
            Err(_) => open_malformed(j, loc, ws),
            Ok(t) => {
                let (cache, rest) = split_cache(t.cache_control, t.extra);
                (
                    OpenBlockV::Text { text: t.text, extra: rest, cache, citations: Seq::empty() },
                    ContentBlockV::Text { text: t.text, cache, extra: leftover(rest) },
                    ws,
                )
            },
        }
    } else if t == Some("thinking"@) {
        match decode_thinking_block(j) {
            Err(_) => open_malformed(j, loc, ws),
            Ok(t) => {
                let signature = match t.signature {
                    Some(s) => s,
                    None => Seq::empty(),
                };
                (
                    OpenBlockV::Thinking { text: t.thinking, signature, extra: t.extra },
                    ContentBlockV::Thinking {
                        text: Some(t.thinking),
                        signature: some_signature(signature),
                        extra: leftover(t.extra),
                    },
                    ws,
                )
            },
        }
    } else if t == Some("redacted_thinking"@) {
        match decode_redacted_thinking_block(j) {
            Err(_) => open_malformed(j, loc, ws),
            Ok(t) => (
                OpenBlockV::RedactedThinking { data: t.data, extra: t.extra },
                ContentBlockV::Thinking {
                    text: None,
                    signature: Some(t.data),
                    extra: leftover(obj_set(t.extra, "redacted"@, JsonV::Bool(true))),
                },
                ws,
            ),
        }
    } else if t == Some("tool_use"@) {
        match decode_tool_use_block(j) {
            Err(_) => open_malformed(j, loc, ws),
            Ok(t) => {
                let (cache, rest) = split_cache(t.cache_control, t.extra);
                (
                    OpenBlockV::ToolUse {
                        id: t.id,
                        name: t.name,
                        json: Seq::empty(),
                        start_input: t.input,
                        extra: rest,
                        cache,
                    },
                    ContentBlockV::ToolCall {
                        id: Some(t.id),
                        name: t.name,
                        arguments: Seq::empty(),
                        cache,
                        extra: leftover(rest),
                    },
                    if t.input is Object {
                        ws
                    } else {
                        snoted(
                            ws,
                            WarningCode::MalformedToolCall,
                            loc + "/input"@,
                            "tool_use.input is not a JSON object; unless input_json_delta fragments replace it, the finalized call keeps it verbatim in `arguments` and rebuilding for Anthropic will fail"@,
                        )
                    },
                )
            },
        }
    } else {
        let (open, start) = open_opaque(j);
        (open, start, ws)
    }
}

/// The text of member `k` of a delta; empty when there is none.
pub open spec fn fragment(delta: JsonV, k: Seq<char>) -> Seq<char> {
    match json_as_str(json_get(delta, k)) {
        Some(s) => s,
        None => Seq::empty(),
    }
}

/// A delta kind that belongs to some kind of block.
pub open spec fn is_known_delta(kind: Seq<char>) -> bool {
    kind == "text_delta"@ || kind == "thinking_delta"@ || kind == "signature_delta"@ || kind
        == "input_json_delta"@ || kind == "citations_delta"@ || kind == "compaction_delta"@
}

/// An opaque value after a compaction delta.
pub open spec fn compacted(value: JsonV, delta: JsonV) -> JsonV {
    if value is Object {
        let v1 = match json_as_str(json_get(delta, "content"@)) {
            Some(f) => with_member(value, "content"@, JsonV::Str(fragment(value, "content"@) + f)),
            None => value,
        };
        match json_get(delta, "encrypted_content"@) {
            Some(e) => with_member(v1, "encrypted_content"@, e),
            None => v1,
        }
    } else {
        value
    }
}

/// What a delta makes of an open block. A known kind of delta that does not
/// fit the block is a failure; an unknown kind passes with a warning.
pub open spec fn delta_applied(
    open: OpenBlockV,
    index: usize,
    delta: JsonV,
    data: Seq<char>,
    ws: Seq<ConversionWarningV>,
) -> Result<(BlockDeltaV, OpenBlockV, Seq<ConversionWarningV>), FailV> {
    let kind = fragment(delta, "type"@);
    match open {
        OpenBlockV::Text { text, extra, cache, citations } if kind == "text_delta"@ => {
            let f = fragment(delta, "text"@);
            Ok((BlockDeltaV::Text(f), OpenBlockV::Text { text: text + f, extra, cache, citations }, ws))
        },
        OpenBlockV::Text { text, extra, cache, citations } if kind == "citations_delta"@ => Ok(
            (
                BlockDeltaV::Other(delta),
                OpenBlockV::Text {
                    text,
                    extra,
                    cache,
                    citations: match json_get(delta, "citation"@) {
                        Some(c) => citations.push(c),
                        None => citations,
                    },
                },
                ws,
            ),
        ),
        OpenBlockV::Thinking { text, signature, extra } if kind == "thinking_delta"@ => {
            let f = fragment(delta, "thinking"@);
            Ok((BlockDeltaV::Thinking(f), OpenBlockV::Thinking { text: text + f, signature, extra }, ws))
        },
        OpenBlockV::Thinking { text, signature, extra } if kind == "signature_delta"@ => {
            let f = fragment(delta, "signature"@);
            Ok((BlockDeltaV::Signature(f), OpenBlockV::Thinking { text, signature: signature + f, extra }, ws))
        },
        OpenBlockV::ToolUse { id, name, json, start_input, extra, cache } if kind == "input_json_delta"@ => {
            let f = fragment(delta, "partial_json"@);
            Ok(
                (
                    BlockDeltaV::ToolArguments(f),
                    OpenBlockV::ToolUse { id, name, json: json + f, start_input, extra, cache },
                    ws,
                ),
            )
        },
        OpenBlockV::Opaque { value, json } if kind == "input_json_delta"@ => Ok(
            (
                BlockDeltaV::Other(delta),
                OpenBlockV::Opaque { value, json: json + fragment(delta, "partial_json"@) },
                ws,
            ),
        ),
        OpenBlockV::Opaque { value, json } if kind == "compaction_delta"@ => Ok(
            (
                BlockDeltaV::Other(delta),
                OpenBlockV::Opaque { value: compacted(value, delta), json },
                ws,
            ),
        ),
        _ => if is_known_delta(kind) {
            Err(
                data_failure(
                    "delta `"@ + kind + "` does not match the open block at index "@ + decimal(index as nat),
                    data,
                ),
            )
        } else {
            Ok(
                (
                    BlockDeltaV::Other(delta),
                    open,
                    snoted(
                        ws,
                        WarningCode::MalformedField,
                        "/delta"@,
                        "unknown content_block_delta type `"@ + kind + "`"@,
                    ),
                ),
            )
        },
    }
}

/// The finished form of an open block.
pub open spec fn finalized(open: OpenBlockV, ws: Seq<ConversionWarningV>) -> (ContentBlockV, Seq<ConversionWarningV>) {
    match open {
        OpenBlockV::Text { text, extra, cache, citations } => (
            ContentBlockV::Text {
                text,
                cache,
                extra: leftover(
                    if citations.len() > 0 {
                        obj_set(extra, "citations"@, JsonV::Array(citations))
                    } else {
                        extra
                    },
                ),
            },
            ws,
        ),
        OpenBlockV::Thinking { text, signature, extra } => (
            ContentBlockV::Thinking {
                text: Some(text),
                signature: some_signature(signature),
                extra: leftover(extra),
            },
            ws,
        ),
        OpenBlockV::RedactedThinking { data, extra } => (
            ContentBlockV::Thinking {
                text: None,
                signature: Some(data),
                extra: leftover(obj_set(extra, "redacted"@, JsonV::Bool(true))),
            },
            ws,
        ),
        OpenBlockV::ToolUse { id, name, json, start_input, extra, cache } => (
            ContentBlockV::ToolCall {
                id: Some(id),
                name,
                arguments: if json.len() == 0 { json_to_text(wire(start_input)) } else { json },
                cache,
                extra: leftover(extra),
            },
            ws,
        ),
        OpenBlockV::Opaque { value, json } => if json.len() > 0 && value is Object {
            match json_from_str(json) {
                Ok(input) => (opaque_block(with_member(value, "input"@, input)), ws),
                Err(e) => (
                    opaque_block(value),
                    snoted(
                        ws,
                        WarningCode::MalformedField,
                        "/content_block_stop"@,
                        "accumulated partial_json is not valid JSON: "@ + e,
                    ),
                ),
            }
        } else {
            (opaque_block(value), ws)
        },
    }
}

/// The unified usage of the first snapshot: none while it is empty, and none
/// with a warning when its shape is wrong.
pub open spec fn snapshot_usage(usage: ObjV, ws: Seq<ConversionWarningV>) -> (Option<UsageV>, Seq<ConversionWarningV>) {
    if usage.len() == 0 {
        (None, ws)
    } else {
        match decode_usage_wire(JsonV::Object(usage)) {
            Ok(w) => (Some(unified_usage(w, JsonV::Object(usage))), ws),
            Err(e) => (
                None,
                snoted(
                    ws,
                    WarningCode::MalformedField,
                    "/usage"@,
                    "usage failed to parse and was dropped: "@ + e,
                ),
            ),
        }
    }
}

/// Usage without any count.
pub open spec fn no_usage() -> UsageWireV {
    UsageWireV {
        input_tokens: None,
        output_tokens: None,
        cache_creation_input_tokens: None,
        cache_read_input_tokens: None,
        output_tokens_details: None,
        extra: Seq::empty(),
    }
}

/// The unified cumulative usage of a later snapshot: none while it is empty;
/// one of a wrong shape counts nothing and is kept raw.
pub open spec fn cumulative_usage(usage: ObjV) -> Option<UsageV> {
    if usage.len() == 0 {
        None
    } else {
        Some(
            unified_usage(
                match decode_usage_wire(JsonV::Object(usage)) {
                    Ok(w) => w,
                    Err(_) => no_usage(),
                },
                JsonV::Object(usage),
            ),
        )
    }
}

/// No warnings.
pub open spec fn no_warnings() -> Seq<ConversionWarningV> {
    Seq::empty()
}

/// `message_start`.
pub open spec fn on_start(st: AnthropicStreamV, j: JsonV, data: Seq<char>) -> StepV<AnthropicStreamV> {
    match decode_message_start_event(j) {
        Err(e) => Err(data_failure("invalid message_start: "@ + e, data)),
        Ok(ev) => {
            let usage = match ev.message.usage {
                Some(JsonV::Object(o)) => o,
                _ => st.usage,
            };
            let (unified, ws) = snapshot_usage(usage, no_warnings());
            Ok(
                (
                    seq![
                        StreamEventV::MessageStart {
                            id: ev.message.id,
                            model: ev.message.model,
                            usage: unified,
                        },
                    ],
                    ws,
                    AnthropicStreamV { usage, ..st },
                ),
            )
        },
    }
}

/// `content_block_start`.
pub open spec fn on_block_start(st: AnthropicStreamV, j: JsonV, data: Seq<char>) -> StepV<AnthropicStreamV> {
    match decode_content_block_start_event(j) {
        Err(e) => Err(data_failure("invalid content_block_start: "@ + e, data)),
        Ok(ev) => {
            let (open, block, ws) = opened(
                ev.content_block,
                "/content_block_start/"@ + decimal(ev.index as nat),
                no_warnings(),
            );
            Ok(
                (
                    seq![StreamEventV::BlockStart { index: ev.index, block }],
                    ws,
                    AnthropicStreamV { blocks: slot_set(st.blocks, ev.index as u64, open), ..st },
                ),
            )
        },
    }
}

/// `content_block_delta`.
pub open spec fn on_block_delta(st: AnthropicStreamV, j: JsonV, data: Seq<char>) -> StepV<AnthropicStreamV> {
    match decode_content_block_delta_event(j) {
        Err(e) => Err(data_failure("invalid content_block_delta: "@ + e, data)),
        Ok(ev) => match slot_get(st.blocks, ev.index as u64) {
            None => Err(
                data_failure(
                    "content_block_delta for unknown block index "@ + decimal(ev.index as nat),
                    data,
                ),
            ),
            Some(open) => match delta_applied(open, ev.index, ev.delta, data, no_warnings()) {
                Err(e) => Err(e),
                Ok((delta, open2, ws)) => Ok(
                    (
                        seq![StreamEventV::BlockDelta { index: ev.index, delta }],
                        ws,
                        AnthropicStreamV { blocks: slot_set(st.blocks, ev.index as u64, open2), ..st },
                    ),
                ),
            },
        },
    }
}

/// `content_block_stop`.
pub open spec fn on_block_stop(st: AnthropicStreamV, j: JsonV, data: Seq<char>) -> StepV<AnthropicStreamV> {
    match decode_content_block_stop_event(j) {
        Err(e) => Err(data_failure("invalid content_block_stop: "@ + e, data)),
        Ok(ev) => match slot_get(st.blocks, ev.index as u64) {
            None => Err(
                data_failure(
                    "content_block_stop for unknown block index "@ + decimal(ev.index as nat),
                    data,
                ),
            ),
            Some(open) => {
                let (block, ws) = finalized(open, no_warnings());
                Ok(
                    (
                        seq![StreamEventV::BlockStop { index: ev.index, block: Some(block) }],
                        ws,
                        AnthropicStreamV { blocks: slot_remove(st.blocks, ev.index as u64), ..st },
                    ),
                )
            },
        },
    }
}

/// `message_delta`.
pub open spec fn on_message_delta(st: AnthropicStreamV, j: JsonV, data: Seq<char>) -> StepV<AnthropicStreamV> {
    match decode_message_delta_event(j) {
        Err(e) => Err(data_failure("invalid message_delta: "@ + e, data)),
        Ok(ev) => {
            let usage = match ev.usage {
                Some(o) => extended(st.usage, o),
                None => st.usage,
            };
            Ok(
                (
                    seq![
                        StreamEventV::MessageDelta {
                            stop_reason: stop_of(ev.delta.stop_reason),
                            usage: cumulative_usage(usage),
                        },
                    ],
                    no_warnings(),
                    AnthropicStreamV { usage, ..st },
                ),
            )
        },
    }
}

/// `error`: the provider reports an error in the stream.
pub open spec fn on_error(j: JsonV, data: Seq<char>) -> FailV {
    match decode_error_envelope(j) {
        Err(e) => data_failure("invalid error event: "@ + e, data),
        Ok(env) => FailV::Api {
            status: 200,
            kind: match env.error.kind {
                Some(k) => kind_named(k),
                None => ApiErrorKindV::ServerError,
            },
            message: match env.error.message {
                Some(m) => m,
                None => "stream error"@,
            },
            raw: encode_utf8(data),
            parsed: Some(j),
        },
    }
}

/// The name of an event: the SSE field, or else the `type` of its payload.
pub open spec fn event_name(event: Option<Seq<char>>, j: JsonV) -> Seq<char> {
    match event {
        Some(n) => n,
        None => fragment(j, "type"@),
    }
}

/// What a payload becomes before the terminator.
pub open spec fn payload_step(st: AnthropicStreamV, name: Seq<char>, j: JsonV, data: Seq<char>) -> StepV<AnthropicStreamV> {
    if name == "ping"@ {
        Ok((Seq::empty(), no_warnings(), st))
    } else if name == "message_start"@ {
        on_start(st, j, data)
    } else if name == "content_block_start"@ {
        on_block_start(st, j, data)
    } else if name == "content_block_delta"@ {
        on_block_delta(st, j, data)
    } else if name == "content_block_stop"@ {
        on_block_stop(st, j, data)
    } else if name == "message_delta"@ {
        on_message_delta(st, j, data)
    } else if name == "message_stop"@ {
        Ok((seq![StreamEventV::MessageStop], no_warnings(), AnthropicStreamV { terminated: true, ..st }))
    } else if name == "error"@ {
        Err(on_error(j, data))
    } else {
        Ok(
            (
                seq![StreamEventV::Unknown],
                snoted(
                    no_warnings(),
                    WarningCode::UnknownStreamEvent,
                    Seq::empty(),
                    "unknown stream event `"@ + name + "`"@,
                ),
                st,
            ),
        )
    }
}

/// What an event becomes. Anything after the terminator is unknown, never an
/// error.
pub open spec fn anthropic_step(st: AnthropicStreamV, ev: SseEventV) -> StepV<AnthropicStreamV> {
    if st.terminated {
        Ok(
            (
                seq![StreamEventV::Unknown],
                snoted(
                    no_warnings(),
                    WarningCode::UnknownStreamEvent,
                    Seq::empty(),
                    "chunk received after the stream terminated"@,
                ),
                st,
            ),
        )
    } else {
        match json_from_str(ev.data) {
            Err(e) => Err(data_failure("SSE event data is not valid JSON: "@ + e, ev.data)),
            Ok(j) => payload_step(st, event_name(ev.event, j), j, ev.data),
        }
    }
}

/// What the end of the byte stream becomes.
pub open spec fn anthropic_finish(st: AnthropicStreamV) -> StepV<AnthropicStreamV> {
    if st.terminated {
        Ok((Seq::empty(), no_warnings(), st))
    } else {
        Err(FailV::Parse { message: "truncated stream: no message_stop before EOF"@, raw: Seq::empty() })
    }
}

fn fail(message: &str, data: &String) -> (r: Error)
    ensures
        r@ == (ErrorV::Parse { message: message@, raw: encode_utf8(data@) }),
{
    Error::parse(message, data.as_str().as_bytes())
}

fn open_as_opaque(j: &Json) -> (r: (OpenBlock, ContentBlock))
    ensures
        (r.0@, r.1@) == open_opaque(j@),
{
    (
        OpenBlock::Opaque { value: j.copy(), json: String::new() },
        ContentBlock::opaque(ANTHROPIC_MESSAGES, j.copy()),
    )
}

fn open_wrong_shape(j: &Json, loc: &str, ws: &mut Vec<ConversionWarning>) -> (r: (OpenBlock, ContentBlock))
    ensures
        (r.0@, r.1@, views(final(ws)@)) == open_malformed(j@, loc@, views(old(ws)@)),
{
    parse_warn(
        ws,
        ANTHROPIC_MESSAGES,
        WarningCode::MalformedField,
        loc,
        "known block type failed to parse; kept as opaque",
    );
    open_as_opaque(j)
}

fn signature_of(s: &String) -> (r: Option<String>)
    ensures
        opt_view(r) == some_signature(s@),
{
    if s.as_str().is_empty() {
        None
    } else {
        Some(s.clone())
    }
}

/// Opens a streamed block.
fn start_block(j: &Json, loc: &str, ws: &mut Vec<ConversionWarning>) -> (r: (OpenBlock, ContentBlock))
    ensures
        (r.0@, r.1@, views(final(ws)@)) == opened(j@, loc@, views(old(ws)@)),
{
    let t = block_type(j);
    if opt_is(t, "text") {
        match TextBlock::from_json(j) {
            Err(_) => open_wrong_shape(j, loc, ws),
            Ok(t) => {
                let mut rest = t.extra;
                let cache = split_cache_control(t.cache_control, &mut rest);
                let start = ContentBlock::Text {
                    text: t.text.clone(),
                    cache: dup_opt(&cache),
                    extra: Extra::from_unknown(ANTHROPIC_MESSAGES, rest.copy()),
                };
                (OpenBlock::Text { text: t.text, extra: rest, cache, citations: Vec::new() }, start)
            },
        }
    } else if opt_is(t, "thinking") {
        match ThinkingBlock::from_json(j) {
            Err(_) => open_wrong_shape(j, loc, ws),
            Ok(t) => {
                let signature = match t.signature {
                    Some(s) => s,
                    None => String::new(),
                };
                let start = ContentBlock::Thinking {
                    text: Some(t.thinking.clone()),
                    signature: signature_of(&signature),
                    extra: Extra::from_unknown(ANTHROPIC_MESSAGES, t.extra.copy()),
                };
                (OpenBlock::Thinking { text: t.thinking, signature, extra: t.extra }, start)
            },
        }
    } else if opt_is(t, "redacted_thinking") {
        match RedactedThinkingBlock::from_json(j) {
            Err(_) => open_wrong_shape(j, loc, ws),
            Ok(t) => {
                let mut rest = t.extra.copy();
                rest.set("redacted", Json::Bool(true));
                let start = ContentBlock::Thinking {
                    text: None,
                    signature: Some(t.data.clone()),
                    extra: Extra::from_unknown(ANTHROPIC_MESSAGES, rest),
                };
                (OpenBlock::RedactedThinking { data: t.data, extra: t.extra }, start)
            },
        }
    } else if opt_is(t, "tool_use") {
        match ToolUseBlock::from_json(j) {
            Err(_) => open_wrong_shape(j, loc, ws),
            Ok(t) => {
                if t.input.as_object().is_none() {
                    parse_warn(
                        ws,
                        ANTHROPIC_MESSAGES,
                        WarningCode::MalformedToolCall,
                        cat2(loc, "/input").as_str(),
                        "tool_use.input is not a JSON object; unless input_json_delta fragments replace it, the finalized call keeps it verbatim in `arguments` and rebuilding for Anthropic will fail",
                    );
                }
                let mut rest = t.extra;
                let cache = split_cache_control(t.cache_control, &mut rest);
                let start = ContentBlock::ToolCall {
                    id: Some(t.id.clone()),
                    name: t.name.clone(),
                    arguments: String::new(),
                    cache: dup_opt(&cache),
                    extra: Extra::from_unknown(ANTHROPIC_MESSAGES, rest.copy()),
                };
                (
                    OpenBlock::ToolUse {
                        id: t.id,
                        name: t.name,
                        json: String::new(),
                        start_input: t.input,
                        extra: rest,
                        cache,
                    },
                    start,
                )
            },
        }
    } else {
        open_as_opaque(j)
    }
}

fn text_member(j: &Json, k: &str) -> (r: String)
    ensures
        r@ == fragment(j@, k@),
{
    match j.get(k) {
        Some(Json::Str(s)) => s.clone(),
        _ => String::new(),
    }
}

fn known_delta(kind: &String) -> (r: bool)
    ensures
        r == is_known_delta(kind@),
{
    text_is(kind, "text_delta") || text_is(kind, "thinking_delta") || text_is(kind, "signature_delta")
        || text_is(kind, "input_json_delta") || text_is(kind, "citations_delta") || text_is(
        kind,
        "compaction_delta",
    )
}

fn compact(value: Json, delta: &Json) -> (r: Json)
    ensures
        r@ == compacted(value@, delta@),
{
    if value.as_object().is_none() {
        return value;
    }
    let mut v = value.copy();
    if let Some(Json::Str(f)) = delta.get("content") {
        let existing = text_member(&value, "content");
        v.put("content", Json::Str(cat2(existing.as_str(), f.as_str())));
    }
    if let Some(e) = delta.get("encrypted_content") {
        v.put("encrypted_content", e.copy());
    }
    v
}

/// Applies a delta to an open block.
fn apply_delta(open: OpenBlock, index: usize, delta: &Json, data: &String, ws: &mut Vec<ConversionWarning>) -> (r: Result<(BlockDelta, OpenBlock), Error>)
    ensures
        match r {
            Ok(v) => delta_applied(open@, index, delta@, data@, views(old(ws)@)) == Ok::<
                (BlockDeltaV, OpenBlockV, Seq<ConversionWarningV>),
                FailV,
            >((v.0@, v.1@, views(final(ws)@))),
            Err(e) => delta_applied(open@, index, delta@, data@, views(old(ws)@)) is Err && reports(
                e@,
                delta_applied(open@, index, delta@, data@, views(old(ws)@))->Err_0,
            ),
        },
{
    let kind = text_member(delta, "type");
    match open {
        OpenBlock::Text { text, extra, cache, citations } if text_is(&kind, "text_delta") => {
            let f = text_member(delta, "text");
            let t = cat2(text.as_str(), f.as_str());
            Ok((BlockDelta::Text(f), OpenBlock::Text { text: t, extra, cache, citations }))
        },
        OpenBlock::Text { text, extra, cache, citations } if text_is(&kind, "citations_delta") => {
            let mut c = citations;
            if let Some(x) = delta.get("citation") {
                c.push(x.copy());
            }
            Ok((BlockDelta::Other(delta.copy()), OpenBlock::Text { text, extra, cache, citations: c }))
        },
        OpenBlock::Thinking { text, signature, extra } if text_is(&kind, "thinking_delta") => {
            let f = text_member(delta, "thinking");
            let t = cat2(text.as_str(), f.as_str());
            Ok((BlockDelta::Thinking(f), OpenBlock::Thinking { text: t, signature, extra }))
        },
        OpenBlock::Thinking { text, signature, extra } if text_is(&kind, "signature_delta") => {
            let f = text_member(delta, "signature");
            let s = cat2(signature.as_str(), f.as_str());
            Ok((BlockDelta::Signature(f), OpenBlock::Thinking { text, signature: s, extra }))
        },
        OpenBlock::ToolUse { id, name, json, start_input, extra, cache } if text_is(&kind, "input_json_delta") => {
            let f = text_member(delta, "partial_json");
            let s = cat2(json.as_str(), f.as_str());
            Ok(
                (
                    BlockDelta::ToolArguments(f),
                    OpenBlock::ToolUse { id, name, json: s, start_input, extra, cache },
                ),
            )
        },
        OpenBlock::Opaque { value, json } if text_is(&kind, "input_json_delta") => {
            let f = text_member(delta, "partial_json");
            let s = cat2(json.as_str(), f.as_str());
            Ok((BlockDelta::Other(delta.copy()), OpenBlock::Opaque { value, json: s }))
        },
        OpenBlock::Opaque { value, json } if text_is(&kind, "compaction_delta") => {
            let v = compact(value, delta);
            Ok((BlockDelta::Other(delta.copy()), OpenBlock::Opaque { value: v, json }))
        },
        other => {
            if known_delta(&kind) {
                let m = cat2(
                    cat3("delta `", kind.as_str(), "` does not match the open block at index ").as_str(),
                    dec_usize(index).as_str(),
                );
                Err(fail(m.as_str(), data))
            } else {
                parse_warn(
                    ws,
                    ANTHROPIC_MESSAGES,
                    WarningCode::MalformedField,
                    "/delta",
                    cat3("unknown content_block_delta type `", kind.as_str(), "`").as_str(),
                );
                Ok((BlockDelta::Other(delta.copy()), other))
            }
        },
    }
}

/// Finishes an open block.
fn finalize_block(open: OpenBlock, ws: &mut Vec<ConversionWarning>) -> (r: ContentBlock)
    ensures
        (r@, views(final(ws)@)) == finalized(open@, views(old(ws)@)),
{
    match open {
        OpenBlock::Text { text, extra, cache, citations } => {
            let mut rest = extra;
            if citations.len() > 0 {
                rest.set("citations", Json::array(citations));
            }
            ContentBlock::Text { text, cache, extra: Extra::from_unknown(ANTHROPIC_MESSAGES, rest) }
        },
        OpenBlock::Thinking { text, signature, extra } => ContentBlock::Thinking {
            text: Some(text),
            signature: signature_of(&signature),
            extra: Extra::from_unknown(ANTHROPIC_MESSAGES, extra),
        },
        OpenBlock::RedactedThinking { data, extra } => {
            let mut rest = extra;
            rest.set("redacted", Json::Bool(true));
            ContentBlock::Thinking {
                text: None,
                signature: Some(data),
                extra: Extra::from_unknown(ANTHROPIC_MESSAGES, rest),
            }
        },
        OpenBlock::ToolUse { id, name, json, start_input, extra, cache } => {
            let arguments = if json.as_str().is_empty() { to_text(&start_input) } else { json };
            ContentBlock::ToolCall {
                id: Some(id),
                name,
                arguments,
                cache,
                extra: Extra::from_unknown(ANTHROPIC_MESSAGES, extra),
            }
        },
        OpenBlock::Opaque { value, json } => {
            let mut v = value;
            if !json.as_str().is_empty() && v.as_object().is_some() {
                match parse_text(json.as_str()) {
                    Ok(input) => {
                        v.put("input", input);
                    },
                    Err(e) => {
                        parse_warn(
                            ws,
                            ANTHROPIC_MESSAGES,
                            WarningCode::MalformedField,
                            "/content_block_stop",
                            cat2("accumulated partial_json is not valid JSON: ", e.as_str()).as_str(),
                        );
                    },
                }
            }
            ContentBlock::opaque(ANTHROPIC_MESSAGES, v)
        },
    }
}

fn read_usage(usage: &JsonMap, ws: &mut Vec<ConversionWarning>) -> (r: Option<Usage>)
    ensures
        (opt_view(r), views(final(ws)@)) == snapshot_usage(usage@, views(old(ws)@)),
{
    if usage.is_empty() {
        return None;
    }
    let raw = Json::object(usage.copy());
    match UsageWire::from_json(&raw) {
        Ok(w) => Some(unify_usage(&w, raw)),
        Err(e) => {
            parse_warn(
                ws,
                ANTHROPIC_MESSAGES,
                WarningCode::MalformedField,
                "/usage",
                cat2("usage failed to parse and was dropped: ", e.as_str()).as_str(),
            );
            None
        },
    }
}

fn read_cumulative_usage(usage: &JsonMap) -> (r: Option<Usage>)
    ensures
        opt_view(r) == cumulative_usage(usage@),
{
    if usage.is_empty() {
        return None;
    }
    let raw = Json::object(usage.copy());
    let w = match UsageWire::from_json(&raw) {
        Ok(w) => w,
        Err(_) => UsageWire {
            input_tokens: None,
            output_tokens: None,
            cache_creation_input_tokens: None,
            cache_read_input_tokens: None,
            output_tokens_details: None,
            extra: JsonMap::new(),
        },
    };
    Some(unify_usage(&w, raw))
}

fn one_event(e: StreamEvent) -> (r: Vec<StreamEvent>)
    ensures
        views(r@) == seq![e@],
{
    let mut v: Vec<StreamEvent> = Vec::new();
    v.push(e);
    proof {
        assert(views(v@) =~= seq![e@]);
    }
    v
}

fn error_event(j: &Json, data: &String) -> (r: Error)
    ensures
        reports(r@, on_error(j@, data@)),
{
    match ErrorEnvelope::from_json(j) {
        Err(e) => fail(cat2("invalid error event: ", e.as_str()).as_str(), data),
        Ok(env) => {
            let kind = match &env.error.kind {
                Some(k) => map_error_kind(k.as_str()),
                None => ApiErrorKind::ServerError,
            };
            let message = match env.error.message {
                Some(m) => m,
                None => "stream error".to_owned(),
            };
            Error::Api {
                status: 200,
                kind,
                message,
                raw: copy_bytes(data.as_str().as_bytes()),
                truncated: false,
                parsed: Some(j.copy()),
                retry_after: None,
                headers: no_headers(),
            }
        },
    }
}

/// The state of a fresh parser.
pub open spec fn fresh_stream() -> AnthropicStreamV {
    AnthropicStreamV { usage: Seq::empty(), blocks: Seq::empty(), terminated: false }
}

impl AnthropicStreamParser {
    /// A fresh parser.
    pub fn new() -> (r: AnthropicStreamParser)
        ensures
            r@ == fresh_stream(),
    {
        AnthropicStreamParser { usage: JsonMap::new(), blocks: Slots::new(), terminated: false }
    }

    fn start(&mut self, j: &Json, data: &String) -> (r: Result<(Vec<StreamEvent>, Vec<ConversionWarning>), Error>)
        ensures
            match r {
                Ok(v) => on_start(old(self)@, j@, data@) == Ok::<
                    (Seq<StreamEventV>, Seq<ConversionWarningV>, AnthropicStreamV),
                    FailV,
                >((views(v.0@), views(v.1@), final(self)@)),
                Err(e) => on_start(old(self)@, j@, data@) is Err && reports(
                    e@,
                    on_start(old(self)@, j@, data@)->Err_0,
                ) && final(self)@ == old(self)@,
            },
    {
        match MessageStartEvent::from_json(j) {
            Err(e) => Err(fail(cat2("invalid message_start: ", e.as_str()).as_str(), data)),
            Ok(ev) => {
                let mut ws: Vec<ConversionWarning> = Vec::new();
                if let Some(u) = &ev.message.usage {
                    if let Some(o) = u.as_object() {
                        self.usage = o.copy();
                    }
                }
                let usage = read_usage(&self.usage, &mut ws);
                Ok(
                    (
                        one_event(
                            StreamEvent::MessageStart {
                                id: ev.message.id,
                                model: ev.message.model,
                                usage,
                            },
                        ),
                        ws,
                    ),
                )
            },
        }
    }

    fn block_start(&mut self, j: &Json, data: &String) -> (r: Result<(Vec<StreamEvent>, Vec<ConversionWarning>), Error>)
        ensures
            match r {
                Ok(v) => on_block_start(old(self)@, j@, data@) == Ok::<
                    (Seq<StreamEventV>, Seq<ConversionWarningV>, AnthropicStreamV),
                    FailV,
                >((views(v.0@), views(v.1@), final(self)@)),
                Err(e) => on_block_start(old(self)@, j@, data@) is Err && reports(
                    e@,
                    on_block_start(old(self)@, j@, data@)->Err_0,
                ) && final(self)@ == old(self)@,
            },
    {
        match ContentBlockStartEvent::from_json(j) {
            Err(e) => Err(fail(cat2("invalid content_block_start: ", e.as_str()).as_str(), data)),
            Ok(ev) => {
                let mut ws: Vec<ConversionWarning> = Vec::new();
                let loc = cat2("/content_block_start/", dec_usize(ev.index).as_str());
                let (open, block) = start_block(&ev.content_block, loc.as_str(), &mut ws);
                self.blocks.set(ev.index as u64, open);
                Ok((one_event(StreamEvent::BlockStart { index: ev.index, block }), ws))
            },
        }
    }

    fn block_delta(&mut self, j: &Json, data: &String) -> (r: Result<(Vec<StreamEvent>, Vec<ConversionWarning>), Error>)
        ensures
            match r {
                Ok(v) => on_block_delta(old(self)@, j@, data@) == Ok::<
                    (Seq<StreamEventV>, Seq<ConversionWarningV>, AnthropicStreamV),
                    FailV,
                >((views(v.0@), views(v.1@), final(self)@)),
                Err(e) => on_block_delta(old(self)@, j@, data@) is Err && reports(
                    e@,
                    on_block_delta(old(self)@, j@, data@)->Err_0,
                ) && final(self)@ == old(self)@,
            },
    {
        match ContentBlockDeltaEvent::from_json(j) {
            Err(e) => Err(fail(cat2("invalid content_block_delta: ", e.as_str()).as_str(), data)),
            Ok(ev) => {
                let open = match self.blocks.get(ev.index as u64) {
                    None => {
                        let m = cat2(
                            "content_block_delta for unknown block index ",
                            dec_usize(ev.index).as_str(),
                        );
                        return Err(fail(m.as_str(), data));
                    },
                    Some(open) => open.dup(),
                };
                let mut ws: Vec<ConversionWarning> = Vec::new();
                match apply_delta(open, ev.index, &ev.delta, data, &mut ws) {
                    Err(e) => Err(e),
                    Ok((delta, open)) => {
                        self.blocks.set(ev.index as u64, open);
                        Ok((one_event(StreamEvent::BlockDelta { index: ev.index, delta }), ws))
                    },
                }
            },
        }
    }

    fn block_stop(&mut self, j: &Json, data: &String) -> (r: Result<(Vec<StreamEvent>, Vec<ConversionWarning>), Error>)
        ensures
            match r {
                Ok(v) => on_block_stop(old(self)@, j@, data@) == Ok::<
                    (Seq<StreamEventV>, Seq<ConversionWarningV>, AnthropicStreamV),
                    FailV,
                >((views(v.0@), views(v.1@), final(self)@)),
                Err(e) => on_block_stop(old(self)@, j@, data@) is Err && reports(
                    e@,
                    on_block_stop(old(self)@, j@, data@)->Err_0,
                ) && final(self)@ == old(self)@,
            },
    {
        match ContentBlockStopEvent::from_json(j) {
            Err(e) => Err(fail(cat2("invalid content_block_stop: ", e.as_str()).as_str(), data)),
            Ok(ev) => match self.blocks.take(ev.index as u64) {
                None => {
                    let m = cat2(
                        "content_block_stop for unknown block index ",
                        dec_usize(ev.index).as_str(),
                    );
                    Err(fail(m.as_str(), data))
                },
                Some(open) => {
                    let mut ws: Vec<ConversionWarning> = Vec::new();
                    let block = finalize_block(open, &mut ws);
                    Ok((one_event(StreamEvent::BlockStop { index: ev.index, block: Some(block) }), ws))
                },
            },
        }
    }

    fn message_delta(&mut self, j: &Json, data: &String) -> (r: Result<(Vec<StreamEvent>, Vec<ConversionWarning>), Error>)
        ensures
            match r {
                Ok(v) => on_message_delta(old(self)@, j@, data@) == Ok::<
                    (Seq<StreamEventV>, Seq<ConversionWarningV>, AnthropicStreamV),
                    FailV,
                >((views(v.0@), views(v.1@), final(self)@)),
                Err(e) => on_message_delta(old(self)@, j@, data@) is Err && reports(
                    e@,
                    on_message_delta(old(self)@, j@, data@)->Err_0,
                ) && final(self)@ == old(self)@,
            },
    {
        match MessageDeltaEvent::from_json(j) {
            Err(e) => Err(fail(cat2("invalid message_delta: ", e.as_str()).as_str(), data)),
            Ok(ev) => {
                if let Some(o) = &ev.usage {
                    extend_map(&mut self.usage, o);
                }
                let usage = read_cumulative_usage(&self.usage);
                let stop_reason = match &ev.delta.stop_reason {
                    Some(s) => Some(StopReason::from_str_lossy(s.as_str())),
                    None => None,
                };
                Ok((one_event(StreamEvent::MessageDelta { stop_reason, usage }), Vec::new()))
            },
        }
    }

    fn payload(&mut self, name: &String, j: &Json, data: &String) -> (r: Result<(Vec<StreamEvent>, Vec<ConversionWarning>), Error>)
        ensures
            match r {
                Ok(v) => payload_step(old(self)@, name@, j@, data@) == Ok::<
                    (Seq<StreamEventV>, Seq<ConversionWarningV>, AnthropicStreamV),
                    FailV,
                >((views(v.0@), views(v.1@), final(self)@)),
                Err(e) => payload_step(old(self)@, name@, j@, data@) is Err && reports(
                    e@,
                    payload_step(old(self)@, name@, j@, data@)->Err_0,
                ) && final(self)@ == old(self)@,
            },
    {
        if text_is(name, "ping") {
            Ok((Vec::new(), Vec::new()))
        } else if text_is(name, "message_start") {
            self.start(j, data)
        } else if text_is(name, "content_block_start") {
            self.block_start(j, data)
        } else if text_is(name, "content_block_delta") {
            self.block_delta(j, data)
        } else if text_is(name, "content_block_stop") {
            self.block_stop(j, data)
        } else if text_is(name, "message_delta") {
            self.message_delta(j, data)
        } else if text_is(name, "message_stop") {
            self.terminated = true;
            Ok((one_event(StreamEvent::MessageStop), Vec::new()))
        } else if text_is(name, "error") {
            Err(error_event(j, data))
        } else {
            let mut ws: Vec<ConversionWarning> = Vec::new();
            proof {
                reveal_strlit("");
                assert(""@ =~= Seq::<char>::empty());
            }
            parse_warn(
                &mut ws,
                ANTHROPIC_MESSAGES,
                WarningCode::UnknownStreamEvent,
                "",
                cat3("unknown stream event `", name.as_str(), "`").as_str(),
            );
            Ok((one_event(StreamEvent::Unknown), ws))
        }
    }
}

impl StreamParser for AnthropicStreamParser {
    open spec fn parsed(st: AnthropicStreamV, event: SseEventV) -> StepV<AnthropicStreamV> {
        anthropic_step(st, event)
    }

    open spec fn finished(st: AnthropicStreamV) -> StepV<AnthropicStreamV> {
        anthropic_finish(st)
    }

    fn parse(&mut self, event: &SseEvent) -> (r: Result<(Vec<StreamEvent>, Vec<ConversionWarning>), Error>) {
        if self.terminated {
            let mut ws: Vec<ConversionWarning> = Vec::new();
            proof {
                reveal_strlit("");
                assert(""@ =~= Seq::<char>::empty());
            }
            parse_warn(
                &mut ws,
                ANTHROPIC_MESSAGES,
                WarningCode::UnknownStreamEvent,
                "",
                "chunk received after the stream terminated",
            );
            return Ok((one_event(StreamEvent::Unknown), ws));
        }
        match parse_text(event.data.as_str()) {
            Err(e) => Err(
                fail(cat2("SSE event data is not valid JSON: ", e.as_str()).as_str(), &event.data),
            ),
            Ok(j) => {
                let name = match &event.event {
                    Some(n) => n.clone(),
                    None => text_member(&j, "type"),
                };
                self.payload(&name, &j, &event.data)
            },
        }
    }

    fn finish(&mut self) -> (r: Result<(Vec<StreamEvent>, Vec<ConversionWarning>), Error>) {
        if self.terminated {
            Ok((Vec::new(), Vec::new()))
        } else {
            Err(
                Error::Parse {
                    message: "truncated stream: no message_stop before EOF".to_owned(),
                    raw: Vec::new(),
                },
            )
        }
    }
}

/// Once terminated, a stream parser never fails and never changes: whatever
/// comes is an unknown event with one warning.
pub proof fn terminated_stream_stays_complete(st: AnthropicStreamV, ev: SseEventV)
    requires
        st.terminated,
    ensures
        anthropic_step(st, ev) is Ok,
        anthropic_step(st, ev)->Ok_0.0 == seq![StreamEventV::Unknown],
        anthropic_step(st, ev)->Ok_0.2 == st,
        anthropic_finish(st) is Ok,
{
}

/// A stream that never showed its terminator is an error at its end, never a
/// complete response; only `message_stop` terminates it.
pub proof fn truncated_stream_is_an_error(st: AnthropicStreamV, ev: SseEventV)
    requires
        !st.terminated,
    ensures
        anthropic_finish(st) is Err,
        anthropic_step(st, ev) is Ok && anthropic_step(st, ev)->Ok_0.2.terminated
            <==> anthropic_step(st, ev) is Ok && anthropic_step(st, ev)->Ok_0.0
            == seq![StreamEventV::MessageStop],
{
    match json_from_str(ev.data) {
        Err(_) => {},
        Ok(j) => {
            let step = payload_step(st, event_name(ev.event, j), j, ev.data);
            if step is Ok && step->Ok_0.0 == seq![StreamEventV::MessageStop] {
                assert(step->Ok_0.0[0] == StreamEventV::MessageStop);
                assert(step->Ok_0.0.len() == 1);
            }
            if step is Ok && step->Ok_0.0.len() == 1 {
                assert(step->Ok_0.0 =~= seq![step->Ok_0.0[0]]);
            }
        },
    }
}

/// A block grows and stops only while it is open: it opens when it starts, and
/// is gone when it has stopped.
pub proof fn blocks_grow_while_they_are_open(st: AnthropicStreamV, ev: SseEventV)
    requires
        slots_differ(st.blocks),
        anthropic_step(st, ev) is Ok,
    ensures
        ({
            let (es, ws, st1) = anthropic_step(st, ev)->Ok_0;
            &&& slots_differ(st1.blocks)
            &&& es.len() <= 1
            &&& es.len() == 1 ==> match es[0] {
                StreamEventV::BlockStart { index, .. } => slot_get(st1.blocks, index as u64) is Some,
                StreamEventV::BlockDelta { index, .. } => slot_get(st.blocks, index as u64) is Some && slot_get(
                    st1.blocks,
                    index as u64,
                ) is Some,
                StreamEventV::BlockStop { index, .. } => slot_get(st.blocks, index as u64) is Some && slot_get(
                    st1.blocks,
                    index as u64,
                ) is None,
                _ => st1.blocks == st.blocks,
            }
        }),
{
    if !st.terminated {
        let j = json_from_str(ev.data)->Ok_0;
        match decode_content_block_start_event(j) {
            Ok(e) => {
                let (open, block, ws) = opened(
                    e.content_block,
                    "/content_block_start/"@ + decimal(e.index as nat),
                    no_warnings(),
                );
                set_slot_is_read(st.blocks, e.index as u64, open);
            },
            Err(_) => {},
        }
        match decode_content_block_delta_event(j) {
            Ok(e) => match slot_get(st.blocks, e.index as u64) {
                Some(open) => match delta_applied(open, e.index, e.delta, ev.data, no_warnings()) {
                    Ok((delta, open2, ws)) => {
                        set_slot_is_read(st.blocks, e.index as u64, open2);
                    },
                    Err(_) => {},
                },
                None => {},
            },
            Err(_) => {},
        }
        match decode_content_block_stop_event(j) {
            Ok(e) => {
                removed_slot_is_empty(st.blocks, e.index as u64);
            },
            Err(_) => {},
        }
    }
}

} // verus!
