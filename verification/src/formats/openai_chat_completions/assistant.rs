//! Assistant messages of Chat Completions requests. The wire message holds one
//! field per channel: thinking, content and tool calls.

use vstd::prelude::*;
use crate::convert::WarningCode;
use crate::error::{ConversionError, ConversionErrorV};
use crate::format::OPENAI_CHAT_COMPLETIONS;
use crate::formats::openai_chat_completions::content::{make_text_part, omerge_noted, omerged, onoted, onoted_if, opaque_lost, shorthand, string_shorthand, text_part, warn_opaque};
use crate::ir::{block_kind, extra_has, extra_has_any, extra_ns, ContentBlock, ContentBlockV, Extra, ExtraV, Message, MessageV, Role};
use crate::json::{json_as_bool, make1, make2, make3, obj_get, obj_remove, object1, object2, object3, with_member, Json, JsonMap, JsonV, ObjV};
use crate::merge::{addressed, merge_patch, merged, obj_part};
use crate::model::{group_views, opt_view, views, Dup};
use crate::sink::{Sink, SinkV};
use crate::text::{cat2, cat3, cat4, dec_usize, decimal, join, joined, text_is};

verus! {

broadcast use group_views;

/// Reserved key of a tool-call namespace: a call type other than `function`.
pub const TYPE_KEY: &'static str = "type";

/// Reserved key of a text namespace: the text is a refusal.
pub const REFUSAL_KEY: &'static str = "refusal";

/// Reserved key of a text namespace: fields of the containing message.
pub const MESSAGE_KEY: &'static str = "message";

/// A thinking block belongs to this format: its own namespace says so, or no
/// namespace says otherwise.
pub open spec fn plain_thinking(e: ExtraV) -> bool {
    extra_has(e, OPENAI_CHAT_COMPLETIONS@) || !extra_has_any(e)
}

/// The id that a call must have.
pub open spec fn required_id(id: Option<Seq<char>>, name: Seq<char>, ptr: Seq<char>) -> Result<Seq<char>, ConversionErrorV> {
    match id {
        Some(id) => Ok(id),
        None => Err(
            ConversionErrorV::MissingRequired {
                what: "tool call `"@ + name + "` requires an `id` on the Chat Completions API"@,
                location: ptr,
            },
        ),
    }
}

/// The declared type of a call; `null` counts as absent.
pub open spec fn call_type(e: ExtraV) -> Option<JsonV> {
    match obj_get(extra_ns(e, OPENAI_CHAT_COMPLETIONS@), TYPE_KEY@) {
        Some(JsonV::Null) => None,
        t => t,
    }
}

/// A `tool_calls` entry, before its provider data. Known types rebuild their
/// payload; any other type is left to the mirrored data.
pub open spec fn call_entry(
    id: Option<Seq<char>>,
    name: Seq<char>,
    arguments: Seq<char>,
    e: ExtraV,
    ptr: Seq<char>,
) -> Result<JsonV, ConversionErrorV> {
    let t = call_type(e);
    if t is None || t == Some(JsonV::Str("function"@)) {
        match required_id(id, name, ptr) {
            Err(e) => Err(e),
            Ok(id) => Ok(
                object3(
                    "id"@,
                    JsonV::Str(id),
                    "type"@,
                    JsonV::Str("function"@),
                    "function"@,
                    object2("name"@, JsonV::Str(name), "arguments"@, JsonV::Str(arguments)),
                ),
            ),
        }
    } else if t == Some(JsonV::Str("custom"@)) {
        match required_id(id, name, ptr) {
            Err(e) => Err(e),
            Ok(id) => Ok(
                object3(
                    "id"@,
                    JsonV::Str(id),
                    "type"@,
                    JsonV::Str("custom"@),
                    "custom"@,
                    object2("name"@, JsonV::Str(name), "input"@, JsonV::Str(arguments)),
                ),
            ),
        }
    } else {
        match id {
            Some(id) => Ok(object1("id"@, JsonV::Str(id))),
            None => Ok(JsonV::Object(Seq::empty())),
        }
    }
}

/// Thinking, content or tool calls.
#[derive(Clone, Copy, Debug, PartialEq, Eq, Structural)]
pub enum Lane {
    Thinking,
    Content,
    ToolCalls,
}

/// Canonical position of a lane.
pub open spec fn lane_rank(l: Lane) -> int {
    match l {
        Lane::Thinking => 0,
        Lane::Content => 1,
        Lane::ToolCalls => 2,
    }
}

/// What the blocks of an assistant message have come to.
pub struct LanesV {
    pub thinking: Seq<Seq<char>>,
    /// Text and opaque blocks.
    pub content: Seq<ContentBlockV>,
    pub calls: Seq<JsonV>,
    /// Provider data of native thinking blocks.
    pub extras: Seq<ExtraV>,
    /// Furthest lane reached.
    pub furthest: Lane,
    /// A block came after one of a later lane.
    pub order_lost: bool,
    pub sink: SinkV,
}

/// Lanes under construction.
#[derive(Debug)]
pub struct Lanes {
    pub thinking: Vec<String>,
    pub content: Vec<ContentBlock>,
    pub calls: Vec<Json>,
    pub extras: Vec<Extra>,
    pub furthest: Lane,
    pub order_lost: bool,
    pub sink: Sink,
}

impl View for Lanes {
    type V = LanesV;

    open spec fn view(&self) -> LanesV {
        LanesV {
            thinking: views(self.thinking@),
            content: views(self.content@),
            calls: views(self.calls@),
            extras: views(self.extras@),
            furthest: self.furthest,
            order_lost: self.order_lost,
            sink: self.sink@,
        }
    }
}

/// A block reached lane `l`.
pub open spec fn reached(s: LanesV, l: Lane) -> LanesV {
    if lane_rank(l) < lane_rank(s.furthest) {
        LanesV { order_lost: true, ..s }
    } else {
        LanesV { furthest: l, ..s }
    }
}

/// A thinking block.
pub open spec fn lane_thinking(
    s: LanesV,
    text: Option<Seq<char>>,
    signature: Option<Seq<char>>,
    extra: ExtraV,
    as_text: bool,
    msg_ptr: Seq<char>,
) -> LanesV {
    let ptr = msg_ptr + "/reasoning_content"@;
    if plain_thinking(extra) {
        let s1 = match text {
            Some(t) => LanesV { thinking: s.thinking.push(t), ..reached(s, Lane::Thinking) },
            None => s,
        };
        LanesV {
            extras: s1.extras.push(extra),
            sink: onoted_if(
                signature is Some,
                s1.sink,
                WarningCode::ThinkingSignatureDropped,
                ptr,
                "`reasoning_content` is a plaintext channel; the thinking signature was dropped"@,
            ),
            ..s1
        }
    } else if as_text && text is Some {
        let s1 = reached(s, Lane::Thinking);
        LanesV {
            thinking: s1.thinking.push(text->0),
            sink: onoted_if(
                signature is Some,
                s1.sink,
                WarningCode::ThinkingSignatureDropped,
                ptr,
                "thinking_as_text re-emitted foreign thinking as `reasoning_content`; its signature was dropped"@,
            ),
            ..s1
        }
    } else {
        LanesV {
            sink: onoted(
                s.sink,
                WarningCode::ThinkingDropped,
                ptr,
                "thinking block is not native to `openai_chat_completions` and was dropped (set `thinking_as_text` to keep its text)"@,
            ),
            ..s
        }
    }
}

/// Block `bi` of assistant message `mi`.
pub open spec fn lane_step(
    s: LanesV,
    b: ContentBlockV,
    mi: nat,
    bi: nat,
    as_text: bool,
    msg_ptr: Seq<char>,
) -> Result<LanesV, ConversionErrorV> {
    match b {
        ContentBlockV::Text { .. } => {
            let s1 = reached(s, Lane::Content);
            Ok(LanesV { content: s1.content.push(b), ..s1 })
        },
        ContentBlockV::Opaque { format, .. } => {
            let s1 = if format == OPENAI_CHAT_COMPLETIONS@ { reached(s, Lane::Content) } else { s };
            Ok(LanesV { content: s1.content.push(b), ..s1 })
        },
        ContentBlockV::Thinking { text, signature, extra } => Ok(
            lane_thinking(s, text, signature, extra, as_text, msg_ptr),
        ),
        ContentBlockV::ToolCall { id, name, arguments, cache, extra } => {
            let s1 = reached(s, Lane::ToolCalls);
            let ptr = msg_ptr + "/tool_calls/"@ + decimal(s1.calls.len());
            match call_entry(id, name, arguments, extra, ptr) {
                Err(e) => Err(e),
                Ok(entry) => Ok(
                    LanesV {
                        calls: s1.calls.push(omerged(extra, entry)),
                        sink: omerge_noted(
                            onoted_if(
                                cache is Some,
                                s1.sink,
                                WarningCode::CacheHintDropped,
                                ptr,
                                "cache breakpoints exist only on content parts; the hint on this tool call was dropped"@,
                            ),
                            extra,
                            ptr,
                        ),
                        ..s1
                    },
                ),
            }
        },
        ContentBlockV::Image { .. } => Ok(
            LanesV {
                sink: onoted(
                    s.sink,
                    WarningCode::ImageSourceUnsupported,
                    msg_ptr + "/content"@,
                    "assistant images have no Chat Completions channel and were dropped"@,
                ),
                ..s
            },
        ),
        ContentBlockV::ToolResult { .. } => Err(
            ConversionErrorV::InvalidBlockForRole {
                role: Role::Assistant,
                block: block_kind(b),
                location: "/messages/"@ + decimal(mi) + "/content/"@ + decimal(bi),
            },
        ),
    }
}

/// No block yet.
pub open spec fn lanes_start(sink: SinkV) -> LanesV {
    LanesV {
        thinking: Seq::empty(),
        content: Seq::empty(),
        calls: Seq::empty(),
        extras: Seq::empty(),
        furthest: Lane::Thinking,
        order_lost: false,
        sink,
    }
}

/// The first `n` blocks of assistant message `mi`.
pub open spec fn lanes(
    m: MessageV,
    mi: nat,
    as_text: bool,
    msg_ptr: Seq<char>,
    s: SinkV,
    n: nat,
) -> Result<LanesV, ConversionErrorV>
    decreases n,
{
    if n == 0 || n > m.content.len() {
        Ok(lanes_start(s))
    } else {
        match lanes(m, mi, as_text, msg_ptr, s, (n - 1) as nat) {
            Err(e) => Err(e),
            Ok(prev) => lane_step(prev, m.content[n - 1], mi, (n - 1) as nat, as_text, msg_ptr),
        }
    }
}

/// The warnings about what the lanes lose.
pub open spec fn lane_losses(l: LanesV, msg_ptr: Seq<char>) -> SinkV {
    onoted_if(
        l.thinking.len() > 1,
        onoted_if(
            l.order_lost,
            l.sink,
            WarningCode::BlockOrderLost,
            msg_ptr,
            "assistant blocks interleave across the reasoning_content / content / tool_calls channels; the wire message holds one field per channel, so parsing it back yields canonical order (thinking, content, tool calls) and the original block order is lost"@,
        ),
        WarningCode::ThinkingBlocksJoined,
        msg_ptr + "/reasoning_content"@,
        decimal(l.thinking.len())
            + " thinking texts were joined with \"\\n\\n\" into the single `reasoning_content` string; block boundaries are lost (order kept)"@,
    )
}

/// The namespace marks the text as a refusal.
pub open spec fn is_refusal(ns: ObjV) -> bool {
    json_as_bool(obj_get(ns, REFUSAL_KEY@)) == Some(true)
}

/// What a text namespace adds to its part: all but the reserved keys.
pub open spec fn part_patch(ns: ObjV) -> ObjV {
    obj_remove(obj_remove(ns, REFUSAL_KEY@), MESSAGE_KEY@)
}

/// One more block of assistant content.
pub open spec fn content_step(st: (Seq<JsonV>, SinkV), b: ContentBlockV, msg_ptr: Seq<char>) -> (Seq<JsonV>, SinkV) {
    let (parts, s) = st;
    let ptr = msg_ptr + "/content/"@ + decimal(parts.len());
    match b {
        ContentBlockV::Text { text, cache, extra } => {
            let ns = extra_ns(extra, OPENAI_CHAT_COMPLETIONS@);
            let part = if is_refusal(ns) {
                object2("type"@, JsonV::Str("refusal"@), "refusal"@, JsonV::Str(text))
            } else {
                text_part(text)
            };
            let s1 = onoted_if(
                cache is Some,
                s,
                WarningCode::CacheHintDropped,
                ptr,
                "assistant output parts have no documented cache-breakpoint channel; the hint was dropped"@,
            );
            (
                parts.push(JsonV::Object(merged(obj_part(Some(part)), part_patch(ns)))),
                SinkV { warnings: s1.warnings, log: s1.log + addressed(part_patch(ns), ptr) },
            )
        },
        ContentBlockV::Opaque { format, value } => if format == OPENAI_CHAT_COMPLETIONS@ {
            (parts.push(value), s)
        } else {
            (parts, opaque_lost(s, format, ptr))
        },
        _ => (parts, s),
    }
}

/// The first `n` blocks of assistant content.
pub open spec fn content_parts(blocks: Seq<ContentBlockV>, msg_ptr: Seq<char>, s: SinkV, n: nat) -> (Seq<JsonV>, SinkV)
    decreases n,
{
    if n == 0 || n > blocks.len() {
        (Seq::empty(), s)
    } else {
        content_step(content_parts(blocks, msg_ptr, s, (n - 1) as nat), blocks[n - 1], msg_ptr)
    }
}

/// Assistant content: nothing without blocks, a bare string where that is
/// possible, else an array.
pub open spec fn assistant_content(blocks: Seq<ContentBlockV>, msg_ptr: Seq<char>, s: SinkV) -> (Option<JsonV>, SinkV) {
    if blocks.len() == 0 {
        (None, s)
    } else {
        match shorthand(blocks) {
            Some(text) => (Some(JsonV::Str(text)), s),
            None => {
                let (parts, s1) = content_parts(blocks, msg_ptr, s, blocks.len());
                (Some(JsonV::Array(parts)), s1)
            },
        }
    }
}

/// The message after the provider data of the first `n` thinking blocks was
/// merged.
pub open spec fn with_extras(v: JsonV, s: SinkV, extras: Seq<ExtraV>, msg_ptr: Seq<char>, n: nat) -> (JsonV, SinkV)
    decreases n,
{
    if n == 0 || n > extras.len() {
        (v, s)
    } else {
        let (v1, s1) = with_extras(v, s, extras, msg_ptr, (n - 1) as nat);
        (omerged(extras[n - 1], v1), omerge_noted(s1, extras[n - 1], msg_ptr))
    }
}

/// The message fields that a text block carries.
pub open spec fn carried_fields(b: ContentBlockV) -> ObjV {
    match b {
        ContentBlockV::Text { extra, .. } => match obj_get(
            extra_ns(extra, OPENAI_CHAT_COMPLETIONS@),
            MESSAGE_KEY@,
        ) {
            Some(JsonV::Object(o)) => o,
            _ => Seq::empty(),
        },
        _ => Seq::empty(),
    }
}

/// The message after the fields that the first `n` text blocks carry were
/// merged.
pub open spec fn with_carried(v: JsonV, s: SinkV, blocks: Seq<ContentBlockV>, msg_ptr: Seq<char>, n: nat) -> (JsonV, SinkV)
    decreases n,
{
    if n == 0 || n > blocks.len() {
        (v, s)
    } else {
        let (v1, s1) = with_carried(v, s, blocks, msg_ptr, (n - 1) as nat);
        let o = carried_fields(blocks[n - 1]);
        if o.len() > 0 {
            (
                JsonV::Object(merged(obj_part(Some(v1)), o)),
                SinkV { warnings: s1.warnings, log: s1.log + addressed(o, msg_ptr) },
            )
        } else {
            (v1, s1)
        }
    }
}

/// The wire message before provider data.
pub open spec fn lane_message(l: LanesV, content: Option<JsonV>) -> JsonV {
    let v0 = object1("role"@, JsonV::Str("assistant"@));
    let v1 = match content {
        Some(c) => with_member(v0, "content"@, c),
        None => v0,
    };
    let v2 = if l.thinking.len() > 0 {
        with_member(v1, "reasoning_content"@, JsonV::Str(joined(l.thinking, "\n\n"@)))
    } else {
        v1
    };
    if l.calls.len() > 0 {
        with_member(v2, "tool_calls"@, JsonV::Array(l.calls))
    } else {
        v2
    }
}

/// An assistant message as a wire message.
pub open spec fn assistant_message(
    m: MessageV,
    mi: nat,
    as_text: bool,
    msg_ptr: Seq<char>,
    s: SinkV,
) -> Result<(JsonV, SinkV), ConversionErrorV> {
    match lanes(m, mi, as_text, msg_ptr, s, m.content.len()) {
        Err(e) => Err(e),
        Ok(l) => {
            let (content, s1) = assistant_content(l.content, msg_ptr, lane_losses(l, msg_ptr));
            let (v2, s2) = with_extras(lane_message(l, content), s1, l.extras, msg_ptr, l.extras.len());
            let (v3, s3) = with_carried(v2, s2, l.content, msg_ptr, l.content.len());
            Ok((omerged(m.extra, v3), omerge_noted(s3, m.extra, msg_ptr)))
        },
    }
}

proof fn lanes_error_stays(msg: MessageV, mi: nat, as_text: bool, msg_ptr: Seq<char>, s: SinkV, n: nat, m: nat)
    requires
        n <= m <= msg.content.len(),
        lanes(msg, mi, as_text, msg_ptr, s, n) is Err,
    ensures
        lanes(msg, mi, as_text, msg_ptr, s, m) == lanes(msg, mi, as_text, msg_ptr, s, n),
    decreases m - n,
{
    if n < m {
        lanes_error_stays(msg, mi, as_text, msg_ptr, s, n, (m - 1) as nat);
    }
}

/// `true` when thinking with this provider data belongs to this format.
pub fn is_native_thinking(e: &Extra) -> (r: bool)
    ensures
        r == plain_thinking(e@),
{
    e.has(OPENAI_CHAT_COMPLETIONS) || !e.has_any()
}

fn require_call_id(id: &Option<String>, name: &String, ptr: &str) -> (r: Result<String, ConversionError>)
    ensures
        match r {
            Ok(s) => required_id(opt_view(*id), name@, ptr@) == Ok::<Seq<char>, ConversionErrorV>(s@),
            Err(e) => required_id(opt_view(*id), name@, ptr@) == Err::<Seq<char>, ConversionErrorV>(e@),
        },
{
    match id {
        Some(id) => Ok(id.clone()),
        None => Err(
            ConversionError::missing(
                cat3("tool call `", name.as_str(), "` requires an `id` on the Chat Completions API").as_str(),
                ptr,
            ),
        ),
    }
}

/// A namespace, or no members.
pub fn namespace_of(e: &Extra) -> (r: JsonMap)
    ensures
        r@ == extra_ns(e@, OPENAI_CHAT_COMPLETIONS@),
{
    match e.get(OPENAI_CHAT_COMPLETIONS) {
        Some(ns) => ns.copy(),
        None => JsonMap::new(),
    }
}

fn build_tool_call_entry(id: &Option<String>, name: &String, arguments: &String, e: &Extra, ptr: &str) -> (r: Result<Json, ConversionError>)
    ensures
        match r {
            Ok(v) => call_entry(opt_view(*id), name@, arguments@, e@, ptr@) == Ok::<JsonV, ConversionErrorV>(v@),
            Err(x) => call_entry(opt_view(*id), name@, arguments@, e@, ptr@) == Err::<JsonV, ConversionErrorV>(x@),
        },
{
    let ns = namespace_of(e);
    let t = ns.get(TYPE_KEY);
    let (function, custom) = match t {
        None => (true, false),
        Some(Json::Null) => (true, false),
        Some(Json::Str(s)) => (text_is(s, "function"), text_is(s, "custom")),
        Some(_) => (false, false),
    };
    proof {
        let tv = call_type(e@);
        if tv is Some && tv->0 is Str {
            assert(function == (tv == Some(JsonV::Str("function"@))));
            assert(custom == (tv == Some(JsonV::Str("custom"@))));
        }
    }
    if function {
        match require_call_id(id, name, ptr) {
            Err(x) => Err(x),
            Ok(id) => Ok(
                make3(
                    "id",
                    Json::Str(id),
                    "type",
                    Json::text("function"),
                    "function",
                    make2(
                        "name",
                        Json::Str(name.clone()),
                        "arguments",
                        Json::Str(arguments.clone()),
                    ),
                ),
            ),
        }
    } else if custom {
        match require_call_id(id, name, ptr) {
            Err(x) => Err(x),
            Ok(id) => Ok(
                make3(
                    "id",
                    Json::Str(id),
                    "type",
                    Json::text("custom"),
                    "custom",
                    make2("name", Json::Str(name.clone()), "input", Json::Str(arguments.clone())),
                ),
            ),
        }
    } else {
        match id {
            Some(id) => Ok(make1("id", Json::Str(id.clone()))),
            None => Ok(Json::object(JsonMap::new())),
        }
    }
}

fn rank(l: Lane) -> (r: u8)
    ensures
        r == lane_rank(l),
{
    match l {
        Lane::Thinking => 0,
        Lane::Content => 1,
        Lane::ToolCalls => 2,
    }
}

fn reach(s: &mut Lanes, l: Lane)
    ensures
        final(s)@ == reached(old(s)@, l),
{
    if rank(l) < rank(s.furthest) {
        s.order_lost = true;
    } else {
        s.furthest = l;
    }
}

fn push_thinking(s: &mut Lanes, text: &Option<String>, signature: &Option<String>, extra: &Extra, as_text: bool, msg_ptr: &str)
    ensures
        final(s)@ == lane_thinking(
            old(s)@,
            opt_view(*text),
            opt_view(*signature),
            extra@,
            as_text,
            msg_ptr@,
        ),
{
    let ptr = cat2(msg_ptr, "/reasoning_content");
    if is_native_thinking(extra) {
        if let Some(t) = text {
            reach(s, Lane::Thinking);
            s.thinking.push(t.clone());
        }
        if signature.is_some() {
            s.sink.warn(
                OPENAI_CHAT_COMPLETIONS,
                WarningCode::ThinkingSignatureDropped,
                ptr.as_str(),
                "`reasoning_content` is a plaintext channel; the thinking signature was dropped",
            );
        }
        s.extras.push(extra.dup());
        return;
    }
    match text {
        Some(t) if as_text => {
            reach(s, Lane::Thinking);
            s.thinking.push(t.clone());
            if signature.is_some() {
                s.sink.warn(
                    OPENAI_CHAT_COMPLETIONS,
                    WarningCode::ThinkingSignatureDropped,
                    ptr.as_str(),
                    "thinking_as_text re-emitted foreign thinking as `reasoning_content`; its signature was dropped",
                );
            }
        },
        _ => {
            s.sink.warn(
                OPENAI_CHAT_COMPLETIONS,
                WarningCode::ThinkingDropped,
                ptr.as_str(),
                "thinking block is not native to `openai_chat_completions` and was dropped (set `thinking_as_text` to keep its text)",
            );
        },
    }
}

fn push_block(s: &mut Lanes, b: &ContentBlock, mi: usize, bi: usize, as_text: bool, msg_ptr: &str) -> (r: Result<(), ConversionError>)
    ensures
        match r {
            Ok(_) => lane_step(old(s)@, b@, mi as nat, bi as nat, as_text, msg_ptr@) == Ok::<
                LanesV,
                ConversionErrorV,
            >(final(s)@),
            Err(e) => lane_step(old(s)@, b@, mi as nat, bi as nat, as_text, msg_ptr@) == Err::<
                LanesV,
                ConversionErrorV,
            >(e@),
        },
{
    match b {
        ContentBlock::Text { .. } => {
            reach(s, Lane::Content);
            s.content.push(b.dup());
            Ok(())
        },
        ContentBlock::Opaque { format, .. } => {
            if text_is(format, OPENAI_CHAT_COMPLETIONS) {
                reach(s, Lane::Content);
            }
            s.content.push(b.dup());
            Ok(())
        },
        ContentBlock::Thinking { text, signature, extra } => {
            push_thinking(s, text, signature, extra, as_text, msg_ptr);
            Ok(())
        },
        ContentBlock::ToolCall { id, name, arguments, cache, extra } => {
            reach(s, Lane::ToolCalls);
            let ptr = cat3(msg_ptr, "/tool_calls/", dec_usize(s.calls.len()).as_str());
            if cache.is_some() {
                s.sink.warn(
                    OPENAI_CHAT_COMPLETIONS,
                    WarningCode::CacheHintDropped,
                    ptr.as_str(),
                    "cache breakpoints exist only on content parts; the hint on this tool call was dropped",
                );
            }
            match build_tool_call_entry(id, name, arguments, extra, ptr.as_str()) {
                Err(e) => Err(e),
                Ok(entry) => {
                    let mut entry = entry;
                    s.sink.merge(extra, OPENAI_CHAT_COMPLETIONS, &mut entry, ptr.as_str());
                    s.calls.push(entry);
                    Ok(())
                },
            }
        },
        ContentBlock::Image { .. } => {
            s.sink.warn(
                OPENAI_CHAT_COMPLETIONS,
                WarningCode::ImageSourceUnsupported,
                cat2(msg_ptr, "/content").as_str(),
                "assistant images have no Chat Completions channel and were dropped",
            );
            Ok(())
        },
        ContentBlock::ToolResult { .. } => Err(
            ConversionError::invalid_block_for_role(
                Role::Assistant,
                b.kind_name(),
                cat4("/messages/", dec_usize(mi).as_str(), "/content/", dec_usize(bi).as_str()).as_str(),
            ),
        ),
    }
}

fn warn_losses(thinking: &Vec<String>, order_lost: bool, msg_ptr: &str, sink: &mut Sink)
    ensures
        forall|l: LanesV|
            l.thinking == views(thinking@) && l.order_lost == order_lost && l.sink == old(sink)@ ==> final(sink)@
                == #[trigger] lane_losses(l, msg_ptr@),
{
    if order_lost {
        sink.warn(
            OPENAI_CHAT_COMPLETIONS,
            WarningCode::BlockOrderLost,
            msg_ptr,
            "assistant blocks interleave across the reasoning_content / content / tool_calls channels; the wire message holds one field per channel, so parsing it back yields canonical order (thinking, content, tool calls) and the original block order is lost",
        );
    }
    if thinking.len() > 1 {
        sink.warn(
            OPENAI_CHAT_COMPLETIONS,
            WarningCode::ThinkingBlocksJoined,
            cat2(msg_ptr, "/reasoning_content").as_str(),
            cat2(
                dec_usize(thinking.len()).as_str(),
                " thinking texts were joined with \"\\n\\n\" into the single `reasoning_content` string; block boundaries are lost (order kept)",
            ).as_str(),
        );
    }
}

fn has_refusal(ns: &JsonMap) -> (r: bool)
    ensures
        r == is_refusal(ns@),
{
    match ns.get(REFUSAL_KEY) {
        Some(j) => match j.as_bool() {
            Some(b) => b,
            None => false,
        },
        None => false,
    }
}

fn push_content(parts: &mut Vec<Json>, b: &ContentBlock, msg_ptr: &str, sink: &mut Sink)
    ensures
        (views(final(parts)@), final(sink)@) == content_step((views(old(parts)@), old(sink)@), b@, msg_ptr@),
{
    let ptr = cat3(msg_ptr, "/content/", dec_usize(parts.len()).as_str());
    match b {
        ContentBlock::Text { text, cache, extra } => {
            if cache.is_some() {
                sink.warn(
                    OPENAI_CHAT_COMPLETIONS,
                    WarningCode::CacheHintDropped,
                    ptr.as_str(),
                    "assistant output parts have no documented cache-breakpoint channel; the hint was dropped",
                );
            }
            let ns = namespace_of(extra);
            let mut part = if has_refusal(&ns) {
                make2("type", Json::text("refusal"), "refusal", Json::Str(text.clone()))
            } else {
                make_text_part(text)
            };
            let mut patch = ns;
            let _ = patch.remove(REFUSAL_KEY);
            let _ = patch.remove(MESSAGE_KEY);
            merge_patch(&mut part, &patch, ptr.as_str(), &mut sink.log);
            parts.push(part);
        },
        ContentBlock::Opaque { format, value } => {
            if text_is(format, OPENAI_CHAT_COMPLETIONS) {
                parts.push(value.copy());
            } else {
                warn_opaque(format, ptr.as_str(), sink);
            }
        },
        _ => {},
    }
}

fn encode_assistant_content(blocks: &Vec<ContentBlock>, msg_ptr: &str, sink: &mut Sink) -> (r: Option<Json>)
    ensures
        (opt_view(r), final(sink)@) == assistant_content(views(blocks@), msg_ptr@, old(sink)@),
{
    if blocks.len() == 0 {
        return None;
    }
    if let Some(text) = string_shorthand(blocks) {
        return Some(Json::Str(text));
    }
    let ghost s0 = sink@;
    let mut parts: Vec<Json> = Vec::new();
    let mut i: usize = 0;
    while i < blocks.len()
        invariant
            i <= blocks@.len(),
            (views(parts@), sink@) == content_parts(views(blocks@), msg_ptr@, s0, i as nat),
        decreases blocks@.len() - i,
    {
        push_content(&mut parts, &blocks[i], msg_ptr, sink);
        i += 1;
    }
    Some(Json::array(parts))
}

fn merge_extras(v: &mut Json, extras: &Vec<Extra>, msg_ptr: &str, sink: &mut Sink)
    ensures
        (final(v)@, final(sink)@) == with_extras(old(v)@, old(sink)@, views(extras@), msg_ptr@, extras@.len()),
{
    let ghost v0 = v@;
    let ghost s0 = sink@;
    let mut i: usize = 0;
    while i < extras.len()
        invariant
            i <= extras@.len(),
            (v@, sink@) == with_extras(v0, s0, views(extras@), msg_ptr@, i as nat),
        decreases extras@.len() - i,
    {
        sink.merge(&extras[i], OPENAI_CHAT_COMPLETIONS, v, msg_ptr);
        i += 1;
    }
}

fn fields_carried(b: &ContentBlock) -> (r: JsonMap)
    ensures
        r@ == carried_fields(b@),
{
    match b {
        ContentBlock::Text { extra, .. } => {
            let ns = namespace_of(extra);
            match ns.get(MESSAGE_KEY) {
                Some(j) => match j.as_object() {
                    Some(o) => o.copy(),
                    None => JsonMap::new(),
                },
                None => JsonMap::new(),
            }
        },
        _ => JsonMap::new(),
    }
}

fn merge_carried(v: &mut Json, blocks: &Vec<ContentBlock>, msg_ptr: &str, sink: &mut Sink)
    ensures
        (final(v)@, final(sink)@) == with_carried(old(v)@, old(sink)@, views(blocks@), msg_ptr@, blocks@.len()),
{
    let ghost v0 = v@;
    let ghost s0 = sink@;
    let mut i: usize = 0;
    while i < blocks.len()
        invariant
            i <= blocks@.len(),
            (v@, sink@) == with_carried(v0, s0, views(blocks@), msg_ptr@, i as nat),
        decreases blocks@.len() - i,
    {
        let o = fields_carried(&blocks[i]);
        if !o.is_empty() {
            merge_patch(v, &o, msg_ptr, &mut sink.log);
        }
        i += 1;
    }
}

/// Serializes an assistant message.
pub fn build_assistant_message(m: &Message, mi: usize, as_text: bool, msg_ptr: &str, sink: Sink) -> (r: Result<(Json, Sink), ConversionError>)
    ensures
        match r {
            Ok(v) => assistant_message(m@, mi as nat, as_text, msg_ptr@, sink@) == Ok::<
                (JsonV, SinkV),
                ConversionErrorV,
            >((v.0@, v.1@)),
            Err(e) => assistant_message(m@, mi as nat, as_text, msg_ptr@, sink@) == Err::<
                (JsonV, SinkV),
                ConversionErrorV,
            >(e@),
        },
{
    let ghost s0 = sink@;
    let mut l = Lanes {
        thinking: Vec::new(),
        content: Vec::new(),
        calls: Vec::new(),
        extras: Vec::new(),
        furthest: Lane::Thinking,
        order_lost: false,
        sink,
    };
    let mut i: usize = 0;
    while i < m.content.len()
        invariant
            i <= m.content@.len(),
            s0 == sink@,
            lanes(m@, mi as nat, as_text, msg_ptr@, s0, i as nat) == Ok::<LanesV, ConversionErrorV>(l@),
        decreases m.content@.len() - i,
    {
        match push_block(&mut l, &m.content[i], mi, i, as_text, msg_ptr) {
            Ok(_) => {},
            Err(e) => {
                proof {
                    lanes_error_stays(m@, mi as nat, as_text, msg_ptr@, s0, i as nat + 1, m@.content.len());
                }
                return Err(e);
            },
        }
        i += 1;
    }
    let ghost lv = l@;
    let mut out = l.sink;
    warn_losses(&l.thinking, l.order_lost, msg_ptr, &mut out);
    proof {
        assert(out@ == lane_losses(lv, msg_ptr@));
    }
    let content = encode_assistant_content(&l.content, msg_ptr, &mut out);
    let mut v = make1("role", Json::text("assistant"));
    if let Some(c) = content {
        v.put("content", c);
    }
    if l.thinking.len() > 0 {
        v.put("reasoning_content", Json::Str(join(&l.thinking, "\n\n")));
    }
    if l.calls.len() > 0 {
        v.put("tool_calls", Json::array(l.calls));
    }
    merge_extras(&mut v, &l.extras, msg_ptr, &mut out);
    merge_carried(&mut v, &l.content, msg_ptr, &mut out);
    out.merge(&m.extra, OPENAI_CHAT_COMPLETIONS, &mut v, msg_ptr);
    Ok((v, out))
}

} // verus!
