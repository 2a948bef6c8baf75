//! Chat Completions chunks as unified stream events. Chunks show no block
//! boundaries: they follow from the channel of each fragment.

use vstd::prelude::*;
use crate::convert::{ConversionWarning, ConversionWarningV, WarningCode};
use crate::error::{ConversionError, ConversionErrorV, Error};
use crate::format::{OpenAiChatCompletionsOptions, OPENAI_CHAT_COMPLETIONS};
use crate::formats::openai_chat_completions::assistant::{MESSAGE_KEY, REFUSAL_KEY};
use crate::formats::openai_chat_completions::parse_parts::{odd_field, oparsed, own_extra, warn_field};
use crate::formats::openai_chat_completions::streamed_calls::{finalize_tool_call, finished_call, fragment_routed, fresh_call, make_fresh_call, route_fragment, CallStateV, ToolCallState};
use crate::formats::openai_chat_completions::to_ir::{finish_reason, map_finish_reason, usage_from_value, usage_value};
use crate::ir::{text_block, BlockDelta, BlockDeltaV, ContentBlock, ContentBlockV, Extra, SseEvent, SseEventV, StreamEvent, StreamEventV, UsageV};
use crate::json::{group_json, json_as_array, json_as_str, json_as_u64, json_get, json_view_array, json_view_object, obj_get, obj_index_props, obj_set, Json, JsonMap, JsonV, ObjV};
use crate::merge::{escape_pointer_token, escape_token};
use crate::model::{dup_opt, dup_vec, group_views, opt_view, views, Dup};
use crate::response::parse_warn;
use crate::scan::{trim, trimmed};
use crate::stream::{keyed_get, keyed_set, keyed_set_twice, FailV, Keyed, StepV, StreamParser};
use crate::text::{cat2, cat3, str_eq, text_is};
use crate::value::{json_from_str, parse_text};

verus! {

broadcast use group_views;

/// `t` after the first `n` members of `f` arrived: texts join, arrays append,
/// objects merge member by member, anything else replaces.
pub open spec fn fields_merged(t: ObjV, f: ObjV, n: nat) -> ObjV
    decreases f, n,
{
    if n == 0 || n > f.len() {
        t
    } else {
        let prev = fields_merged(t, f, (n - 1) as nat);
        let k = f[n - 1].0;
        let v = f[n - 1].1;
        match (obj_get(prev, k), v) {
            (Some(JsonV::Str(a)), JsonV::Str(b)) => obj_set(prev, k, JsonV::Str(a + b)),
            (Some(JsonV::Array(a)), JsonV::Array(b)) => obj_set(prev, k, JsonV::Array(a + b)),
            (Some(JsonV::Object(a)), JsonV::Object(b)) => obj_set(
                prev,
                k,
                JsonV::Object(fields_merged(a, b, b.len())),
            ),
            _ => obj_set(prev, k, v),
        }
    }
}

/// Which text channel a block belongs to.
#[derive(Clone, Copy, Debug, PartialEq, Eq, Structural)]
pub enum Channel {
    /// `delta.content`.
    Content,
    /// The thinking field of the delta.
    Reasoning,
    /// `delta.refusal`.
    Refusal,
}

/// The delta field of a channel.
pub open spec fn channel_field(c: Channel, reasoning_field: Seq<char>) -> Seq<char> {
    match c {
        Channel::Content => "content"@,
        Channel::Reasoning => reasoning_field,
        Channel::Refusal => "refusal"@,
    }
}

impl Channel {
    /// The delta field of the channel.
    pub fn field<'a>(self, reasoning_field: &'a str) -> (r: &'a str)
        ensures
            r@ == channel_field(self, reasoning_field@),
    {
        match self {
            Channel::Content => "content",
            Channel::Reasoning => reasoning_field,
            Channel::Refusal => "refusal",
        }
    }
}

/// The open text channel.
#[derive(Debug)]
pub struct ChannelState {
    pub kind: Channel,
    /// Index of its block.
    pub index: usize,
    /// Text so far; thinking without any text has none.
    pub text: Option<String>,
    /// Unknown delta fields.
    pub leftover: JsonMap,
}

/// The mathematical value of a [`ChannelState`].
pub struct ChannelV {
    pub kind: Channel,
    pub index: usize,
    pub text: Option<Seq<char>>,
    pub leftover: ObjV,
}

impl View for ChannelState {
    type V = ChannelV;

    open spec fn view(&self) -> ChannelV {
        ChannelV {
            kind: self.kind,
            index: self.index,
            text: opt_view(self.text),
            leftover: self.leftover@,
        }
    }
}

/// Stream parser of the Chat Completions format.
#[derive(Debug)]
pub struct ChatCompletionsStreamParser {
    pub started: bool,
    pub terminal: bool,
    pub next_index: usize,
    pub channel: Option<ChannelState>,
    /// Open calls by wire index.
    pub tool_calls: Keyed<ToolCallState>,
    pub warned_multiple: bool,
    pub warned_interleaved: bool,
    /// Unknown delta fields that were reported.
    pub warned_unknown: Vec<String>,
    pub reasoning_field: String,
}

/// The mathematical value of a [`ChatCompletionsStreamParser`].
pub struct ChatStreamV {
    pub started: bool,
    pub terminal: bool,
    pub next_index: usize,
    pub channel: Option<ChannelV>,
    pub tool_calls: Seq<(u64, CallStateV)>,
    pub warned_multiple: bool,
    pub warned_interleaved: bool,
    pub warned_unknown: Seq<Seq<char>>,
    pub reasoning_field: Seq<char>,
}

impl View for ChatCompletionsStreamParser {
    type V = ChatStreamV;

    open spec fn view(&self) -> ChatStreamV {
        ChatStreamV {
            started: self.started,
            terminal: self.terminal,
            next_index: self.next_index,
            channel: opt_view(self.channel),
            tool_calls: self.tool_calls@,
            warned_multiple: self.warned_multiple,
            warned_interleaved: self.warned_interleaved,
            warned_unknown: views(self.warned_unknown@),
            reasoning_field: self.reasoning_field@,
        }
    }
}

/// State, events and warnings of a step in progress.
pub struct FlowV {
    pub st: ChatStreamV,
    pub events: Seq<StreamEventV>,
    pub warnings: Seq<ConversionWarningV>,
}

/// What a step produces besides the state.
#[derive(Debug)]
pub struct Output {
    pub events: Vec<StreamEvent>,
    pub warnings: Vec<ConversionWarning>,
}

/// The step in progress made of a parser and its output.
pub open spec fn flow(p: ChatCompletionsStreamParser, o: Output) -> FlowV {
    FlowV { st: p@, events: views(o.events@), warnings: views(o.warnings@) }
}

/// The index after `n`.
pub open spec fn bumped(n: usize) -> usize {
    if n == usize::MAX { n } else { (n + 1) as usize }
}

/// A channel name that the parser can tell from the other fields of a
/// message.
pub open spec fn valid_reasoning_field(s: Seq<char>) -> bool {
    s.len() > 0 && s != "role"@ && s != "content"@ && s != "refusal"@ && s != "tool_calls"@ && s != "tool_call_id"@
        && s != "name"@
}

/// The error for a channel name that is no such name.
pub open spec fn bad_reasoning_field(s: Seq<char>) -> ConversionErrorV {
    ConversionErrorV::Other {
        message: "invalid `reasoning_field` `"@ + s + "`: it must name a field of its own"@,
    }
}

/// The message fields that a text block carries.
pub open spec fn message_fields(o: ObjV) -> ObjV {
    obj_set(Seq::empty(), MESSAGE_KEY@, JsonV::Object(o))
}

/// The text, empty when absent.
pub open spec fn text_or_empty(t: Option<Seq<char>>) -> Seq<char> {
    match t {
        Some(t) => t,
        None => Seq::empty(),
    }
}

/// The finished block of a channel, where it says more than its deltas did.
pub open spec fn channel_block(c: ChannelV) -> Option<ContentBlockV> {
    if c.leftover.len() == 0 {
        None
    } else {
        Some(
            match c.kind {
                Channel::Content => ContentBlockV::Text {
                    text: text_or_empty(c.text),
                    cache: None,
                    extra: own_extra(message_fields(c.leftover)),
                },
                Channel::Reasoning => ContentBlockV::Thinking {
                    text: c.text,
                    signature: None,
                    extra: own_extra(c.leftover),
                },
                Channel::Refusal => ContentBlockV::Text {
                    text: text_or_empty(c.text),
                    cache: None,
                    extra: own_extra(obj_set(message_fields(c.leftover), REFUSAL_KEY@, JsonV::Bool(true))),
                },
            },
        )
    }
}

/// The end of a block.
pub type StopV = (usize, Option<ContentBlockV>);

/// First position at or after `i` of a block behind block `index`.
pub open spec fn stop_place(s: Seq<StopV>, index: usize, i: int) -> int
    decreases s.len() - i,
{
    if i < 0 || i >= s.len() {
        s.len() as int
    } else if s[i].0 > index {
        i
    } else {
        stop_place(s, index, i + 1)
    }
}

/// The first `n` stops in the order of their blocks.
pub open spec fn stops_ordered(s: Seq<StopV>, n: nat) -> Seq<StopV>
    decreases n,
{
    if n == 0 || n > s.len() {
        Seq::empty()
    } else {
        let prev = stops_ordered(s, (n - 1) as nat);
        prev.insert(stop_place(prev, s[n - 1].0, 0), s[n - 1])
    }
}

/// The stops as events.
pub open spec fn stop_events(s: Seq<StopV>) -> Seq<StreamEventV> {
    Seq::new(s.len(), |i: int| StreamEventV::BlockStop { index: s[i].0, block: s[i].1 })
}

/// The stops of the first `n` calls, behind `stops`.
pub open spec fn call_stops(
    calls: Seq<(u64, CallStateV)>,
    stops: Seq<StopV>,
    ws: Seq<ConversionWarningV>,
    n: nat,
) -> (Seq<StopV>, Seq<ConversionWarningV>)
    decreases n,
{
    if n == 0 || n > calls.len() {
        (stops, ws)
    } else {
        let (prev, ws1) = call_stops(calls, stops, ws, (n - 1) as nat);
        let (b, ws2) = finished_call(calls[n - 1].1, calls[n - 1].0, ws1);
        (prev.push((calls[n - 1].1.block_index, Some(b))), ws2)
    }
}

/// The stop of the open channel, if there is one.
pub open spec fn channel_stops(c: Option<ChannelV>) -> Seq<StopV> {
    match c {
        Some(c) => seq![(c.index, channel_block(c))],
        None => Seq::empty(),
    }
}

/// Every open block is closed, in the order of the blocks.
pub open spec fn all_closed(f: FlowV) -> FlowV {
    let (stops, ws) = call_stops(
        f.st.tool_calls,
        channel_stops(f.st.channel),
        f.warnings,
        f.st.tool_calls.len(),
    );
    FlowV {
        st: ChatStreamV { channel: None, tool_calls: Seq::empty(), ..f.st },
        events: f.events + stop_events(stops_ordered(stops, stops.len())),
        warnings: ws,
    }
}

/// The message starts with the first chunk.
pub open spec fn message_started(f: FlowV, chunk: Option<JsonV>) -> FlowV {
    if f.st.started {
        f
    } else {
        FlowV {
            st: ChatStreamV { started: true, ..f.st },
            events: f.events.push(
                StreamEventV::MessageStart {
                    id: match chunk {
                        Some(c) => json_as_str(json_get(c, "id"@)),
                        None => None,
                    },
                    model: match chunk {
                        Some(c) => json_as_str(json_get(c, "model"@)),
                        None => None,
                    },
                    usage: None,
                },
            ),
            ..f
        }
    }
}

/// How a block of a channel starts.
pub open spec fn channel_start(c: Channel) -> ContentBlockV {
    match c {
        Channel::Content => text_block(Seq::empty()),
        Channel::Reasoning => ContentBlockV::Thinking { text: None, signature: None, extra: Seq::empty() },
        Channel::Refusal => ContentBlockV::Text {
            text: Seq::empty(),
            cache: None,
            extra: own_extra(obj_set(Seq::empty(), REFUSAL_KEY@, JsonV::Bool(true))),
        },
    }
}

/// A block of the channel is open; that of another channel is closed.
pub open spec fn channel_opened(f: FlowV, kind: Channel) -> FlowV {
    if f.st.channel is Some && f.st.channel->0.kind == kind {
        f
    } else {
        let e1 = match f.st.channel {
            Some(c) => f.events.push(StreamEventV::BlockStop { index: c.index, block: channel_block(c) }),
            None => f.events,
        };
        let index = f.st.next_index;
        FlowV {
            st: ChatStreamV {
                next_index: bumped(index),
                channel: Some(
                    ChannelV {
                        kind,
                        index,
                        text: if kind == Channel::Reasoning { None } else { Some(Seq::empty()) },
                        leftover: Seq::empty(),
                    },
                ),
                ..f.st
            },
            events: e1.push(StreamEventV::BlockStart { index, block: channel_start(kind) }),
            ..f
        }
    }
}

/// A call was opened after block `index`.
pub open spec fn call_after(calls: Seq<(u64, CallStateV)>, index: usize) -> bool {
    exists|i: int| 0 <= i < calls.len() && (#[trigger] calls[i]).1.block_index > index
}

/// The location of a delta field.
pub open spec fn delta_ptr(field: Seq<char>) -> Seq<char> {
    "/choices/0/delta/"@ + escape_token(field, field.len())
}

/// Text that arrives behind a call joins its earlier block; that is reported
/// once per stream.
pub open spec fn order_noted(f: FlowV, kind: Channel) -> FlowV {
    let field = channel_field(kind, f.st.reasoning_field);
    FlowV {
        st: ChatStreamV { warned_interleaved: true, ..f.st },
        warnings: oparsed(
            f.warnings,
            WarningCode::BlockOrderLost,
            delta_ptr(field),
            "a `"@ + field
                + "` fragment arrived after a tool call opened; the wire holds one string per channel, so the fragment merged into its earlier block and the arrival interleaving is lost (the accumulated message reads in canonical channel order, like the non-streaming parse)"@,
        ),
        ..f
    }
}

/// A text fragment on a channel.
pub open spec fn channel_fed(f: FlowV, kind: Channel, fragment: Seq<char>) -> FlowV {
    let reused = f.st.channel is Some && f.st.channel->0.kind == kind;
    let f1 = channel_opened(f, kind);
    let c = f1.st.channel->0;
    if fragment.len() == 0 {
        f1
    } else {
        let f2 = if reused && !f1.st.warned_interleaved && call_after(f1.st.tool_calls, c.index) {
            order_noted(f1, kind)
        } else {
            f1
        };
        FlowV {
            st: ChatStreamV {
                channel: Some(ChannelV { text: Some(text_or_empty(c.text) + fragment), ..c }),
                ..f2.st
            },
            events: f2.events.push(
                StreamEventV::BlockDelta {
                    index: c.index,
                    delta: if kind == Channel::Reasoning {
                        BlockDeltaV::Thinking(fragment)
                    } else {
                        BlockDeltaV::Text(fragment)
                    },
                },
            ),
            ..f2
        }
    }
}

/// The argument pieces as events.
pub open spec fn piece_events(index: usize, pieces: Seq<Seq<char>>) -> Seq<StreamEventV> {
    Seq::new(
        pieces.len(),
        |i: int| StreamEventV::BlockDelta { index, delta: BlockDeltaV::ToolArguments(pieces[i]) },
    )
}

/// The first `n` pieces behind `a`.
pub open spec fn pieces_joined(a: Seq<char>, pieces: Seq<Seq<char>>, n: nat) -> Seq<char>
    decreases n,
{
    if n == 0 || n > pieces.len() {
        a
    } else {
        pieces_joined(a, pieces, (n - 1) as nat) + pieces[n - 1]
    }
}

/// The wire index of a fragment; its position when it has none.
pub open spec fn wire_index(
    fragment: JsonV,
    position: nat,
    ws: Seq<ConversionWarningV>,
) -> (u64, Seq<ConversionWarningV>) {
    match json_as_u64(json_get(fragment, "index"@)) {
        Some(i) => (i, ws),
        None => (
            position as u64,
            odd_field(
                ws,
                "/choices/0/delta/tool_calls"@,
                "tool call fragment has no `index`; its array position was used instead"@,
            ),
        ),
    }
}

/// One fragment of a call.
pub open spec fn call_fed(f: FlowV, fragment: JsonV, position: nat) -> FlowV {
    let (wire, ws1) = wire_index(fragment, position, f.warnings);
    let known = keyed_get(f.st.tool_calls, wire);
    let is_new = known is None;
    let s0 = match known {
        Some(s) => s,
        None => fresh_call(f.st.next_index),
    };
    let r = fragment_routed(s0, fragment, wire, ws1);
    let s1 = CallStateV {
        arguments: pieces_joined(r.call.arguments, r.deltas, r.deltas.len()),
        ..r.call
    };
    let e1 = if is_new {
        f.events.push(
            StreamEventV::BlockStart {
                index: r.call.block_index,
                block: ContentBlockV::ToolCall {
                    id: r.call.id,
                    name: r.call.name,
                    arguments: Seq::empty(),
                    cache: None,
                    extra: Seq::empty(),
                },
            },
        )
    } else {
        f.events
    };
    FlowV {
        st: ChatStreamV {
            next_index: if is_new { bumped(f.st.next_index) } else { f.st.next_index },
            tool_calls: keyed_set(f.st.tool_calls, wire, s1),
            ..f.st
        },
        events: e1 + piece_events(r.call.block_index, r.deltas),
        warnings: r.warnings,
    }
}

/// The first `n` fragments of calls.
pub open spec fn calls_fed(f: FlowV, a: Seq<JsonV>, n: nat) -> FlowV
    decreases n,
{
    if n == 0 || n > a.len() {
        f
    } else {
        call_fed(calls_fed(f, a, (n - 1) as nat), a[n - 1], (n - 1) as nat)
    }
}

/// The thinking field of a delta.
pub open spec fn thinking_fed(f: FlowV, v: Option<JsonV>) -> FlowV {
    match v {
        None => f,
        Some(JsonV::Null) => f,
        Some(JsonV::Str(s)) => channel_fed(f, Channel::Reasoning, s),
        Some(_) => FlowV {
            warnings: odd_field(
                f.warnings,
                delta_ptr(f.st.reasoning_field),
                "non-string `"@ + f.st.reasoning_field + "` kept verbatim as an unknown delta field"@,
            ),
            ..f
        },
    }
}

/// The text fields of a delta.
pub open spec fn text_fed(f: FlowV, v: Option<JsonV>, kind: Channel) -> FlowV {
    match json_as_str(v) {
        Some(s) => channel_fed(f, kind, s),
        None => f,
    }
}

/// The field is modeled: it has its own handling.
pub open spec fn modeled_delta(key: Seq<char>, v: JsonV, reasoning_field: Seq<char>) -> bool {
    key == "role"@ || key == "content"@ || key == "refusal"@ || key == "tool_calls"@ || (key == reasoning_field
        && v is Str)
}

/// The first `n` unknown fields of a delta.
pub open spec fn unknown_delta(o: ObjV, reasoning_field: Seq<char>, n: nat) -> ObjV
    decreases n,
{
    if n == 0 || n > o.len() {
        Seq::empty()
    } else {
        let prev = unknown_delta(o, reasoning_field, (n - 1) as nat);
        if modeled_delta(o[n - 1].0, o[n - 1].1, reasoning_field) || o[n - 1].1 is Null {
            prev
        } else {
            obj_set(prev, o[n - 1].0, o[n - 1].1)
        }
    }
}

/// The first `n` unknown fields that belong to no block, each reported once
/// per stream.
pub open spec fn strays_noted(
    known: Seq<Seq<char>>,
    o: ObjV,
    ws: Seq<ConversionWarningV>,
    n: nat,
) -> (Seq<Seq<char>>, Seq<ConversionWarningV>)
    decreases n,
{
    if n == 0 || n > o.len() {
        (known, ws)
    } else {
        let (k, w) = strays_noted(known, o, ws, (n - 1) as nat);
        if k.contains(o[n - 1].0) {
            (k, w)
        } else {
            (
                k.push(o[n - 1].0),
                oparsed(
                    w,
                    WarningCode::UnknownStreamEvent,
                    "/choices/0/delta"@,
                    "unrecognized delta field `"@ + o[n - 1].0 + "` could not be attributed to a block"@,
                ),
            )
        }
    }
}

/// Unknown delta fields: they join the open channel block, or stray.
pub open spec fn leftover_fed(f: FlowV, o: ObjV) -> FlowV {
    if o.len() == 0 {
        f
    } else {
        match f.st.channel {
            Some(c) => FlowV {
                st: ChatStreamV {
                    channel: Some(ChannelV { leftover: fields_merged(c.leftover, o, o.len()), ..c }),
                    ..f.st
                },
                events: f.events.push(
                    StreamEventV::BlockDelta {
                        index: c.index,
                        delta: BlockDeltaV::Other(JsonV::Object(o)),
                    },
                ),
                ..f
            },
            None => {
                let (known, ws) = strays_noted(f.st.warned_unknown, o, f.warnings, o.len());
                FlowV {
                    st: ChatStreamV { warned_unknown: known, ..f.st },
                    events: f.events.push(StreamEventV::Unknown),
                    warnings: ws,
                }
            },
        }
    }
}

/// The unknown fields of a delta.
pub open spec fn unknown_fields(delta: JsonV, reasoning_field: Seq<char>) -> ObjV {
    match delta {
        JsonV::Object(o) => unknown_delta(o, reasoning_field, o.len()),
        _ => Seq::empty(),
    }
}

/// A delta of the first choice.
pub open spec fn delta_fed(f: FlowV, delta: JsonV) -> FlowV {
    let f1 = thinking_fed(f, json_get(delta, f.st.reasoning_field));
    let f2 = text_fed(f1, json_get(delta, "content"@), Channel::Content);
    let f3 = text_fed(f2, json_get(delta, "refusal"@), Channel::Refusal);
    let f4 = match json_as_array(json_get(delta, "tool_calls"@)) {
        Some(a) => calls_fed(f3, a, a.len()),
        None => f3,
    };
    leftover_fed(f4, unknown_fields(delta, f.st.reasoning_field))
}

/// A choice that is not the first one.
pub open spec fn other_choice(f: FlowV) -> FlowV {
    FlowV {
        st: ChatStreamV { warned_multiple: true, ..f.st },
        events: f.events.push(StreamEventV::Unknown),
        warnings: if f.st.warned_multiple {
            f.warnings
        } else {
            oparsed(
                f.warnings,
                WarningCode::MultipleCandidates,
                "/choices"@,
                "chunks for choice indexes beyond the first are surfaced as unknown events"@,
            )
        },
    }
}

/// The index of a choice; its position when it has none.
pub open spec fn choice_index(choice: JsonV, position: nat) -> u64 {
    match json_as_u64(json_get(choice, "index"@)) {
        Some(i) => i,
        None => position as u64,
    }
}

/// One choice of a chunk, with the last finish reason so far.
pub open spec fn choice_fed(
    st: (FlowV, Option<Seq<char>>),
    choice: JsonV,
    position: nat,
) -> (FlowV, Option<Seq<char>>) {
    let (f, finish) = st;
    if choice_index(choice, position) != 0 {
        (other_choice(f), finish)
    } else {
        (
            match json_get(choice, "delta"@) {
                Some(d) => delta_fed(f, d),
                None => f,
            },
            match json_as_str(json_get(choice, "finish_reason"@)) {
                Some(r) => Some(r),
                None => finish,
            },
        )
    }
}

/// The first `n` choices of a chunk.
pub open spec fn choices_fed(f: FlowV, a: Seq<JsonV>, n: nat) -> (FlowV, Option<Seq<char>>)
    decreases n,
{
    if n == 0 || n > a.len() {
        (f, None)
    } else {
        choice_fed(choices_fed(f, a, (n - 1) as nat), a[n - 1], (n - 1) as nat)
    }
}

/// A message delta.
pub open spec fn message_delta(f: FlowV, finish: Option<Seq<char>>, usage: Option<UsageV>) -> FlowV {
    match finish {
        Some(r) => {
            let c = all_closed(f);
            FlowV {
                events: c.events.push(
                    StreamEventV::MessageDelta { stop_reason: Some(finish_reason(r)), usage },
                ),
                ..c
            }
        },
        None => match usage {
            Some(u) => FlowV {
                events: f.events.push(StreamEventV::MessageDelta { stop_reason: None, usage: Some(u) }),
                ..f
            },
            None => f,
        },
    }
}

/// A chunk of a stream that is not over.
pub open spec fn chunk_fed(f: FlowV, chunk: JsonV) -> FlowV {
    let f1 = message_started(f, Some(chunk));
    let (f2, finish) = match json_as_array(json_get(chunk, "choices"@)) {
        Some(a) => choices_fed(f1, a, a.len()),
        None => (f1, None),
    };
    let usage = match json_get(chunk, "usage"@) {
        Some(u) => usage_value(u),
        None => None,
    };
    message_delta(f2, finish, usage)
}

/// The terminator.
pub open spec fn done_fed(f: FlowV) -> FlowV {
    let c = all_closed(message_started(f, None));
    FlowV {
        st: ChatStreamV { terminal: true, ..c.st },
        events: c.events.push(StreamEventV::MessageStop),
        ..c
    }
}

/// A step without output yet.
pub open spec fn flow_start(st: ChatStreamV) -> FlowV {
    FlowV { st, events: Seq::empty(), warnings: Seq::empty() }
}

/// What an event becomes.
pub open spec fn chat_step(st: ChatStreamV, ev: SseEventV) -> StepV<ChatStreamV> {
    if !valid_reasoning_field(st.reasoning_field) {
        Err(FailV::Conversion(bad_reasoning_field(st.reasoning_field)))
    } else if st.terminal {
        Ok(
            (
                seq![StreamEventV::Unknown],
                oparsed(
                    Seq::empty(),
                    WarningCode::UnknownStreamEvent,
                    Seq::empty(),
                    "chunk received after the stream terminated"@,
                ),
                st,
            ),
        )
    } else if trimmed(ev.data) == "[DONE]"@ {
        let f = done_fed(flow_start(st));
        Ok((f.events, f.warnings, f.st))
    } else {
        match json_from_str(ev.data) {
            Err(e) => Ok(
                (
                    seq![StreamEventV::Unknown],
                    odd_field(
                        Seq::empty(),
                        Seq::empty(),
                        "stream chunk is not JSON and was surfaced as unknown: "@ + e,
                    ),
                    st,
                ),
            ),
            Ok(chunk) => {
                let f = chunk_fed(flow_start(st), chunk);
                Ok((f.events, f.warnings, f.st))
            },
        }
    }
}

/// What the end of the byte stream becomes.
pub open spec fn chat_finish(st: ChatStreamV) -> StepV<ChatStreamV> {
    if st.terminal {
        Ok((Seq::empty(), Seq::empty(), st))
    } else {
        Err(
            FailV::Parse {
                message: "truncated stream: the Chat Completions stream ended without `[DONE]`"@,
                raw: Seq::empty(),
            },
        )
    }
}

/// Merges unknown delta fields of one chunk.
pub fn merge_unknown_fields(t: &mut JsonMap, f: &JsonMap)
    ensures
        final(t)@ == fields_merged(old(t)@, f@, f@.len()),
    decreases f,
{
    broadcast use group_json;
    broadcast use obj_index_props;
    let mut i: usize = 0;
    while i < f.entries.len()
        invariant
            i <= f.entries@.len(),
            t@ == fields_merged(old(t)@, f@, i as nat),
        decreases f.entries@.len() - i,
    {
        let k = &f.entries[i].0;
        let v = &f.entries[i].1;
        let ghost prev = t@;
        proof {
            assert(f@[i as int] == (k@, v@));
            assert(decreases_to!(*f => f.entries));
            assert(decreases_to!(f.entries => f.entries@[i as int]));
            assert(decreases_to!(f.entries@[i as int] => f.entries@[i as int].1));
        }
        let next: Json = match (t.get(k.as_str()), v) {
            (Some(Json::Str(a)), Json::Str(b)) => Json::Str(cat2(a.as_str(), b.as_str())),
            (Some(Json::Array(a)), Json::Array(b)) => {
                proof {
                    json_view_array(*a);
                    json_view_array(*b);
                }
                let mut out = dup_vec(a);
                let mut more = dup_vec(b);
                out.append(&mut more);
                proof {
                    assert(views(out@) =~= views(a@) + views(b@));
                }
                Json::array(out)
            },
            (Some(Json::Object(a)), Json::Object(b)) => {
                proof {
                    json_view_object(*a);
                    json_view_object(*b);
                    assert(decreases_to!(*v => v->Object_0));
                }
                let mut out = a.copy();
                merge_unknown_fields(&mut out, b);
                Json::object(out)
            },
            _ => v.copy(),
        };
        proof {
            assert(obj_set(prev, k@, next@) == fields_merged(old(t)@, f@, (i + 1) as nat));
        }
        t.set(k.as_str(), next);
        i += 1;
    }
}

fn nest_message_fields(o: JsonMap) -> (r: JsonMap)
    ensures
        r@ == message_fields(o@),
{
    let mut ns = JsonMap::new();
    ns.set(MESSAGE_KEY, Json::object(o));
    ns
}

fn or_empty(t: Option<String>) -> (r: String)
    ensures
        r@ == text_or_empty(opt_view(t)),
{
    match t {
        Some(t) => t,
        None => String::new(),
    }
}

/// The finished block of a channel, where it says more than its deltas did.
pub fn finalize_channel(c: ChannelState) -> (r: Option<ContentBlock>)
    ensures
        opt_view(r) == channel_block(c@),
{
    if c.leftover.is_empty() {
        return None;
    }
    Some(
        match c.kind {
            Channel::Content => ContentBlock::Text {
                text: or_empty(c.text),
                cache: None,
                extra: Extra::from_unknown(OPENAI_CHAT_COMPLETIONS, nest_message_fields(c.leftover)),
            },
            Channel::Reasoning => ContentBlock::Thinking {
                text: c.text,
                signature: None,
                extra: Extra::from_unknown(OPENAI_CHAT_COMPLETIONS, c.leftover),
            },
            Channel::Refusal => {
                let mut ns = nest_message_fields(c.leftover);
                ns.set(REFUSAL_KEY, Json::Bool(true));
                ContentBlock::Text {
                    text: or_empty(c.text),
                    cache: None,
                    extra: Extra::from_unknown(OPENAI_CHAT_COMPLETIONS, ns),
                }
            },
        },
    )
}

fn find_stop_place(s: &Vec<(usize, Option<ContentBlock>)>, index: usize) -> (r: usize)
    ensures
        r == stop_place(stop_views(s@), index, 0),
        r <= s@.len(),
{
    let mut i: usize = 0;
    while i < s.len()
        invariant
            i <= s@.len(),
            stop_place(stop_views(s@), index, 0) == stop_place(stop_views(s@), index, i as int),
        decreases s@.len() - i,
    {
        proof {
            assert(stop_views(s@)[i as int].0 == s@[i as int].0);
        }
        if s[i].0 > index {
            return i;
        }
        i += 1;
    }
    i
}

/// The stops, by their mathematical values.
pub open spec fn stop_views(s: Seq<(usize, Option<ContentBlock>)>) -> Seq<StopV> {
    Seq::new(s.len(), |i: int| (s[i].0, opt_view(s[i].1)))
}

fn push_stops(stops: Vec<(usize, Option<ContentBlock>)>, events: &mut Vec<StreamEvent>)
    ensures
        views(final(events)@) == views(old(events)@) + stop_events(
            stops_ordered(stop_views(stops@), stops@.len()),
        ),
{
    let ghost all = stop_views(stops@);
    let ghost e0 = views(events@);
    let mut sorted: Vec<(usize, Option<ContentBlock>)> = Vec::new();
    let n = stops.len();
    let mut rest = stops;
    let mut i: usize = 0;
    proof {
        assert(stop_views(sorted@) =~= stops_ordered(all, 0));
        assert(stop_views(rest@) =~= all.skip(0));
    }
    while i < n
        invariant
            i <= n,
            n == all.len(),
            rest@.len() == n - i,
            stop_views(rest@) == all.skip(i as int),
            stop_views(sorted@) == stops_ordered(all, i as nat),
        decreases n - i,
    {
        let ghost r0 = rest@;
        let e = rest.remove(0);
        proof {
            assert(all.skip(i as int)[0] == all[i as int]);
            assert(stop_views(r0)[0] == all[i as int]);
            assert(stop_views(rest@) =~= stop_views(r0).skip(1));
            assert(all.skip(i as int).skip(1) =~= all.skip(i + 1));
        }
        let at = find_stop_place(&sorted, e.0);
        let ghost s0 = stop_views(sorted@);
        let ghost ev = (e.0, opt_view(e.1));
        sorted.insert(at, e);
        proof {
            assert(stop_views(sorted@) =~= s0.insert(at as int, ev));
        }
        i += 1;
    }
    let ghost fin = stop_views(sorted@);
    let m = sorted.len();
    let mut k: usize = 0;
    proof {
        assert(fin.skip(0) =~= fin);
        assert(views(events@) =~= e0 + stop_events(fin).take(0));
    }
    while k < m
        invariant
            k <= m,
            m == fin.len(),
            sorted@.len() == m - k,
            stop_views(sorted@) == fin.skip(k as int),
            views(events@) == e0 + stop_events(fin).take(k as int),
        decreases m - k,
    {
        let ghost s0 = sorted@;
        let e = sorted.remove(0);
        let ghost before = views(events@);
        let ghost out = (StreamEventV::BlockStop { index: e.0, block: opt_view(e.1) });
        proof {
            assert(fin.skip(k as int)[0] == fin[k as int]);
            assert(stop_views(s0)[0] == fin[k as int]);
            assert(stop_views(sorted@) =~= stop_views(s0).skip(1));
            assert(fin.skip(k as int).skip(1) =~= fin.skip(k + 1));
            assert(stop_events(fin)[k as int] == out);
        }
        events.push(StreamEvent::BlockStop { index: e.0, block: e.1 });
        proof {
            assert(views(events@) =~= before.push(out));
            assert(stop_events(fin).take(k + 1) =~= stop_events(fin).take(k as int).push(out));
            assert(views(events@) =~= e0 + stop_events(fin).take(k + 1));
        }
        k += 1;
    }
    proof {
        assert(stop_events(fin).take(m as int) =~= stop_events(fin));
    }
}

fn text_of(j: Option<&Json>) -> (r: Option<String>)
    ensures
        opt_view(r) == json_as_str(opt_view(j)),
{
    match j {
        Some(j) => match j.as_str() {
            Some(s) => Some(s.clone()),
            None => None,
        },
        None => None,
    }
}

fn any_call_after(calls: &Keyed<ToolCallState>, index: usize) -> (r: bool)
    ensures
        r == call_after(calls@, index),
{
    let mut i: usize = 0;
    while i < calls.items.len()
        invariant
            i <= calls.items@.len(),
            forall|k: int| 0 <= k < i ==> (#[trigger] calls@[k]).1.block_index <= index,
        decreases calls.items@.len() - i,
    {
        proof {
            assert(calls@[i as int].1 == calls.items@[i as int].1@);
        }
        if calls.items[i].1.block_index > index {
            return true;
        }
        i += 1;
    }
    false
}

fn make_delta_ptr(field: &str) -> (r: String)
    ensures
        r@ == delta_ptr(field@),
{
    cat2("/choices/0/delta/", escape_pointer_token(field).as_str())
}

fn knows(known: &Vec<String>, key: &String) -> (r: bool)
    ensures
        r == views(known@).contains(key@),
{
    let mut i: usize = 0;
    while i < known.len()
        invariant
            i <= known@.len(),
            forall|k: int| 0 <= k < i ==> (#[trigger] views(known@)[k]) != key@,
        decreases known@.len() - i,
    {
        proof {
            assert(views(known@)[i as int] == known@[i as int]@);
        }
        if str_eq(known[i].as_str(), key.as_str()) {
            return true;
        }
        i += 1;
    }
    false
}

fn note_strays(known: &mut Vec<String>, o: &JsonMap, ws: &mut Vec<ConversionWarning>)
    ensures
        (views(final(known)@), views(final(ws)@)) == strays_noted(
            views(old(known)@),
            o@,
            views(old(ws)@),
            o@.len(),
        ),
{
    let ghost k0 = views(known@);
    let ghost w0 = views(ws@);
    let mut i: usize = 0;
    while i < o.entries.len()
        invariant
            i <= o.entries@.len(),
            (views(known@), views(ws@)) == strays_noted(k0, o@, w0, i as nat),
        decreases o.entries@.len() - i,
    {
        proof {
            assert(o@[i as int] == (o.entries@[i as int].0@, o.entries@[i as int].1@));
        }
        let key = &o.entries[i].0;
        if !knows(known, key) {
            known.push(key.clone());
            parse_warn(
                ws,
                OPENAI_CHAT_COMPLETIONS,
                WarningCode::UnknownStreamEvent,
                "/choices/0/delta",
                cat3("unrecognized delta field `", key.as_str(), "` could not be attributed to a block").as_str(),
            );
        }
        i += 1;
    }
}

fn is_modeled_delta(key: &String, v: &Json, reasoning_field: &String) -> (r: bool)
    ensures
        r == modeled_delta(key@, v@, reasoning_field@),
{
    text_is(key, "role") || text_is(key, "content") || text_is(key, "refusal") || text_is(key, "tool_calls") || (
    str_eq(key.as_str(), reasoning_field.as_str()) && v.as_str().is_some())
}

fn collect_unknown(delta: &Json, reasoning_field: &String) -> (r: JsonMap)
    ensures
        r@ == unknown_fields(delta@, reasoning_field@),
{
    let mut out = JsonMap::new();
    if let Some(o) = delta.as_object() {
        let mut i: usize = 0;
        while i < o.entries.len()
            invariant
                i <= o.entries@.len(),
                out@ == unknown_delta(o@, reasoning_field@, i as nat),
            decreases o.entries@.len() - i,
        {
            proof {
                assert(o@[i as int] == (o.entries@[i as int].0@, o.entries@[i as int].1@));
            }
            if !is_modeled_delta(&o.entries[i].0, &o.entries[i].1, reasoning_field)
                && !o.entries[i].1.is_null() {
                out.set(o.entries[i].0.as_str(), o.entries[i].1.copy());
            }
            i += 1;
        }
    }
    out
}

/// Rejects a thinking field that the parser could not tell from the other
/// fields of a message.
pub fn validate_reasoning_field(s: &String) -> (r: Result<(), ConversionError>)
    ensures
        match r {
            Ok(_) => valid_reasoning_field(s@),
            Err(e) => !valid_reasoning_field(s@) && e@ == bad_reasoning_field(s@),
        },
{
    if s.as_str().is_empty() || text_is(s, "role") || text_is(s, "content") || text_is(s, "refusal") || text_is(
        s,
        "tool_calls",
    ) || text_is(s, "tool_call_id") || text_is(s, "name") {
        Err(
            ConversionError::other(
                cat3("invalid `reasoning_field` `", s.as_str(), "`: it must name a field of its own").as_str(),
            ),
        )
    } else {
        Ok(())
    }
}

impl Output {
    /// No output yet.
    pub fn new() -> (r: Output)
        ensures
            views(r.events@) == Seq::<StreamEventV>::empty(),
            views(r.warnings@) == Seq::<ConversionWarningV>::empty(),
    {
        let r = Output { events: Vec::new(), warnings: Vec::new() };
        proof {
            assert(views(r.events@) =~= Seq::<StreamEventV>::empty());
            assert(views(r.warnings@) =~= Seq::<ConversionWarningV>::empty());
        }
        r
    }
}

impl ChatCompletionsStreamParser {
    /// A fresh parser with the default options.
    pub fn new() -> (r: ChatCompletionsStreamParser)
        ensures
            r@ == fresh_stream("reasoning_content"@),
    {
        let options = OpenAiChatCompletionsOptions::default();
        ChatCompletionsStreamParser::with_options(&options)
    }

    /// A fresh parser that reads thinking from the configured field.
    pub fn with_options(options: &OpenAiChatCompletionsOptions) -> (r: ChatCompletionsStreamParser)
        ensures
            r@ == fresh_stream(options@.reasoning_field),
    {
        let p = ChatCompletionsStreamParser {
            started: false,
            terminal: false,
            next_index: 0,
            channel: None,
            tool_calls: Keyed::new(),
            warned_multiple: false,
            warned_interleaved: false,
            warned_unknown: Vec::new(),
            reasoning_field: options.reasoning_field.clone(),
        };
        proof {
            assert(p@.warned_unknown =~= Seq::<Seq<char>>::empty());
        }
        p
    }

    fn alloc_index(&mut self) -> (r: usize)
        ensures
            r == old(self)@.next_index,
            final(self)@ == (ChatStreamV { next_index: bumped(old(self)@.next_index), ..old(self)@ }),
    {
        let index = self.next_index;
        self.next_index = index.saturating_add(1);
        index
    }

    fn ensure_started(&mut self, chunk: Option<&Json>, o: &mut Output)
        ensures
            flow(*final(self), *final(o)) == message_started(flow(*old(self), *old(o)), opt_view(chunk)),
    {
        if self.started {
            return;
        }
        self.started = true;
        let (id, model) = match chunk {
            Some(c) => (text_of(c.get("id")), text_of(c.get("model"))),
            None => (None, None),
        };
        o.events.push(StreamEvent::MessageStart { id, model, usage: None });
    }

    /// Closes every open block, in the order of the blocks.
    fn close_open_blocks(&mut self, o: &mut Output)
        ensures
            flow(*final(self), *final(o)) == all_closed(flow(*old(self), *old(o))),
    {
        let ghost w0 = views(o.warnings@);
        let mut stops: Vec<(usize, Option<ContentBlock>)> = Vec::new();
        let mut taken: Option<ChannelState> = None;
        std::mem::swap(&mut taken, &mut self.channel);
        let ghost first = channel_stops(opt_view(taken));
        if let Some(c) = taken {
            let index = c.index;
            stops.push((index, finalize_channel(c)));
        }
        proof {
            assert(stop_views(stops@) =~= first);
        }
        let mut calls: Keyed<ToolCallState> = Keyed::new();
        std::mem::swap(&mut calls, &mut self.tool_calls);
        let ghost all = calls@;
        let n = calls.items.len();
        let mut rest = calls.items;
        let mut i: usize = 0;
        proof {
            assert(views(rest@) =~= all.skip(0));
        }
        while i < n
            invariant
                i <= n,
                n == all.len(),
                rest@.len() == n - i,
                views(rest@) == all.skip(i as int),
                (stop_views(stops@), views(o.warnings@)) == call_stops(all, first, w0, i as nat),
                views(o.events@) == views(old(o).events@),
            decreases n - i,
        {
            let ghost r0 = rest@;
            let e = rest.remove(0);
            proof {
                assert(views(r0)[0] == (r0[0].0, r0[0].1@));
                assert(all.skip(i as int)[0] == all[i as int]);
                assert(views(rest@) =~= views(r0).skip(1));
                assert(all.skip(i as int).skip(1) =~= all.skip(i + 1));
            }
            let (wire, call) = e;
            let block_index = call.block_index;
            let b = finalize_tool_call(call, wire, &mut o.warnings);
            let ghost s0 = stop_views(stops@);
            let ghost bv = b@;
            stops.push((block_index, Some(b)));
            proof {
                assert(stop_views(stops@) =~= s0.push((block_index, Some(bv))));
            }
            i += 1;
        }
        push_stops(stops, &mut o.events);
    }

    fn open_channel(&mut self, kind: Channel, o: &mut Output)
        ensures
            flow(*final(self), *final(o)) == channel_opened(flow(*old(self), *old(o)), kind),
    {
        let same = match &self.channel {
            Some(c) => c.kind == kind,
            None => false,
        };
        if same {
            return;
        }
        let mut taken: Option<ChannelState> = None;
        std::mem::swap(&mut taken, &mut self.channel);
        if let Some(c) = taken {
            let index = c.index;
            let block = finalize_channel(c);
            o.events.push(StreamEvent::BlockStop { index, block });
        }
        let index = self.alloc_index();
        let block = match kind {
            Channel::Content => ContentBlock::text(String::new()),
            Channel::Reasoning => ContentBlock::Thinking { text: None, signature: None, extra: Extra::new() },
            Channel::Refusal => {
                let mut ns = JsonMap::new();
                ns.set(REFUSAL_KEY, Json::Bool(true));
                ContentBlock::Text {
                    text: String::new(),
                    cache: None,
                    extra: Extra::from_unknown(OPENAI_CHAT_COMPLETIONS, ns),
                }
            },
        };
        o.events.push(StreamEvent::BlockStart { index, block });
        let text = if kind == Channel::Reasoning { None } else { Some(String::new()) };
        self.channel = Some(ChannelState { kind, index, text, leftover: JsonMap::new() });
    }

    fn note_order(&mut self, kind: Channel, o: &mut Output)
        ensures
            flow(*final(self), *final(o)) == order_noted(flow(*old(self), *old(o)), kind),
    {
        self.warned_interleaved = true;
        let field = kind.field(self.reasoning_field.as_str());
        parse_warn(
            &mut o.warnings,
            OPENAI_CHAT_COMPLETIONS,
            WarningCode::BlockOrderLost,
            make_delta_ptr(field).as_str(),
            cat3(
                "a `",
                field,
                "` fragment arrived after a tool call opened; the wire holds one string per channel, so the fragment merged into its earlier block and the arrival interleaving is lost (the accumulated message reads in canonical channel order, like the non-streaming parse)",
            ).as_str(),
        );
    }

    /// Handles a text fragment on a channel.
    fn channel_delta(&mut self, kind: Channel, fragment: &String, o: &mut Output)
        ensures
            flow(*final(self), *final(o)) == channel_fed(flow(*old(self), *old(o)), kind, fragment@),
    {
        let reused = match &self.channel {
            Some(c) => c.kind == kind,
            None => false,
        };
        self.open_channel(kind, o);
        if fragment.as_str().is_empty() {
            return;
        }
        let index = match &self.channel {
            Some(c) => c.index,
            None => {
                return;
            },
        };
        if reused && !self.warned_interleaved && any_call_after(&self.tool_calls, index) {
            self.note_order(kind, o);
        }
        let mut taken: Option<ChannelState> = None;
        std::mem::swap(&mut taken, &mut self.channel);
        if let Some(c) = taken {
            let mut c = c;
            let mut text = or_empty(c.text);
            text.append(fragment.as_str());
            c.text = Some(text);
            self.channel = Some(c);
        }
        let delta = if kind == Channel::Reasoning {
            BlockDelta::Thinking(fragment.clone())
        } else {
            BlockDelta::Text(fragment.clone())
        };
        o.events.push(StreamEvent::BlockDelta { index, delta });
    }

    /// Handles one fragment of a call.
    fn on_tool_call_fragment(&mut self, fragment: &Json, position: usize, o: &mut Output)
        ensures
            flow(*final(self), *final(o)) == call_fed(flow(*old(self), *old(o)), fragment@, position as nat),
    {
        let ghost f0 = flow(*self, *o);
        let mut ws: Vec<ConversionWarning> = Vec::new();
        std::mem::swap(&mut ws, &mut o.warnings);
        let found = match fragment.get("index") {
            Some(j) => j.as_u64(),
            None => None,
        };
        let wire: u64 = match found {
            Some(i) => i,
            None => {
                warn_field(
                    &mut ws,
                    "/choices/0/delta/tool_calls",
                    "tool call fragment has no `index`; its array position was used instead",
                );
                position as u64
            },
        };
        let ghost calls0 = self.tool_calls@;
        let known = self.tool_calls.replace(wire, make_fresh_call(0));
        let (call, is_new) = match known {
            Some(s) => (s, false),
            None => (make_fresh_call(self.alloc_index()), true),
        };
        let r = route_fragment(call, fragment, wire, ws);
        let ghost rv = r@;
        let mut call = r.call;
        let pieces = r.deltas;
        o.warnings = r.warnings;
        if is_new {
            o.events.push(
                StreamEvent::BlockStart {
                    index: call.block_index,
                    block: ContentBlock::ToolCall {
                        id: dup_opt(&call.id),
                        name: call.name.clone(),
                        arguments: String::new(),
                        cache: None,
                        extra: Extra::new(),
                    },
                },
            );
        }
        let ghost e1 = views(o.events@);
        let ghost pv = views(pieces@);
        let mut i: usize = 0;
        proof {
            assert(e1 + piece_events(rv.call.block_index, pv).take(0) =~= e1);
        }
        while i < pieces.len()
            invariant
                i <= pieces@.len(),
                pv == views(pieces@),
                rv.call.block_index == call.block_index,
                call@ == (CallStateV {
                    arguments: pieces_joined(rv.call.arguments, pv, i as nat),
                    ..rv.call
                }),
                views(o.events@) == e1 + piece_events(rv.call.block_index, pv).take(i as int),
                views(o.warnings@) == rv.warnings,
            decreases pieces@.len() - i,
        {
            let ghost before = views(o.events@);
            proof {
                assert(pv[i as int] == pieces@[i as int]@);
            }
            call.arguments.append(pieces[i].as_str());
            let ghost out = (StreamEventV::BlockDelta {
                index: call.block_index,
                delta: BlockDeltaV::ToolArguments(pv[i as int]),
            });
            o.events.push(
                StreamEvent::BlockDelta {
                    index: call.block_index,
                    delta: BlockDelta::ToolArguments(pieces[i].clone()),
                },
            );
            proof {
                let all = piece_events(rv.call.block_index, pv);
                assert(all[i as int] == out);
                assert(all.take(i + 1) =~= all.take(i as int).push(out));
                assert(views(o.events@) =~= before.push(out));
                assert(views(o.events@) =~= e1 + all.take(i + 1));
            }
            i += 1;
        }
        proof {
            let all = piece_events(rv.call.block_index, pv);
            assert(all.take(pieces@.len() as int) =~= all);
            keyed_set_twice(calls0, wire, fresh_call(0), call@);
        }
        let _ = self.tool_calls.replace(wire, call);
    }

    fn on_tool_calls(&mut self, a: &Vec<Json>, o: &mut Output)
        ensures
            flow(*final(self), *final(o)) == calls_fed(flow(*old(self), *old(o)), views(a@), a@.len()),
    {
        let ghost f0 = flow(*self, *o);
        let mut i: usize = 0;
        while i < a.len()
            invariant
                i <= a@.len(),
                flow(*self, *o) == calls_fed(f0, views(a@), i as nat),
            decreases a@.len() - i,
        {
            proof {
                assert(views(a@)[i as int] == a@[i as int]@);
            }
            self.on_tool_call_fragment(&a[i], i, o);
            i += 1;
        }
    }

    fn on_leftover(&mut self, fields: JsonMap, o: &mut Output)
        ensures
            flow(*final(self), *final(o)) == leftover_fed(flow(*old(self), *old(o)), fields@),
    {
        if fields.is_empty() {
            return;
        }
        let mut taken: Option<ChannelState> = None;
        std::mem::swap(&mut taken, &mut self.channel);
        match taken {
            Some(c) => {
                let mut c = c;
                merge_unknown_fields(&mut c.leftover, &fields);
                let index = c.index;
                self.channel = Some(c);
                o.events.push(
                    StreamEvent::BlockDelta { index, delta: BlockDelta::Other(Json::object(fields)) },
                );
            },
            None => {
                o.events.push(StreamEvent::Unknown);
                note_strays(&mut self.warned_unknown, &fields, &mut o.warnings);
            },
        }
    }

    /// Handles a delta of the first choice.
    fn on_delta(&mut self, delta: &Json, o: &mut Output)
        ensures
            flow(*final(self), *final(o)) == delta_fed(flow(*old(self), *old(o)), delta@),
    {
        let field = self.reasoning_field.clone();
        match delta.get(field.as_str()) {
            None => {},
            Some(Json::Null) => {},
            Some(Json::Str(s)) => {
                self.channel_delta(Channel::Reasoning, s, o);
            },
            Some(_) => {
                warn_field(
                    &mut o.warnings,
                    make_delta_ptr(field.as_str()).as_str(),
                    cat3("non-string `", field.as_str(), "` kept verbatim as an unknown delta field").as_str(),
                );
            },
        }
        if let Some(s) = text_of(delta.get("content")) {
            self.channel_delta(Channel::Content, &s, o);
        }
        if let Some(s) = text_of(delta.get("refusal")) {
            self.channel_delta(Channel::Refusal, &s, o);
        }
        if let Some(j) = delta.get("tool_calls") {
            if let Some(a) = j.as_array() {
                self.on_tool_calls(a, o);
            }
        }
        self.on_leftover(collect_unknown(delta, &field), o);
    }

    fn on_other_choice(&mut self, o: &mut Output)
        ensures
            flow(*final(self), *final(o)) == other_choice(flow(*old(self), *old(o))),
    {
        o.events.push(StreamEvent::Unknown);
        if !self.warned_multiple {
            self.warned_multiple = true;
            parse_warn(
                &mut o.warnings,
                OPENAI_CHAT_COMPLETIONS,
                WarningCode::MultipleCandidates,
                "/choices",
                "chunks for choice indexes beyond the first are surfaced as unknown events",
            );
        }
    }

    fn on_choices(&mut self, a: &Vec<Json>, o: &mut Output) -> (r: Option<String>)
        ensures
            (flow(*final(self), *final(o)), opt_view(r)) == choices_fed(
                flow(*old(self), *old(o)),
                views(a@),
                a@.len(),
            ),
    {
        let ghost f0 = flow(*self, *o);
        let mut finish: Option<String> = None;
        let mut i: usize = 0;
        while i < a.len()
            invariant
                i <= a@.len(),
                (flow(*self, *o), opt_view(finish)) == choices_fed(f0, views(a@), i as nat),
            decreases a@.len() - i,
        {
            let choice = &a[i];
            proof {
                assert(views(a@)[i as int] == choice@);
            }
            let found = match choice.get("index") {
                Some(j) => j.as_u64(),
                None => None,
            };
            let index: u64 = match found {
                Some(n) => n,
                None => i as u64,
            };
            if index != 0 {
                self.on_other_choice(o);
            } else {
                if let Some(d) = choice.get("delta") {
                    self.on_delta(d, o);
                }
                if let Some(r) = text_of(choice.get("finish_reason")) {
                    finish = Some(r);
                }
            }
            i += 1;
        }
        finish
    }

    fn on_chunk(&mut self, chunk: &Json, o: &mut Output)
        ensures
            flow(*final(self), *final(o)) == chunk_fed(flow(*old(self), *old(o)), chunk@),
    {
        self.ensure_started(Some(chunk), o);
        let mut finish: Option<String> = None;
        if let Some(j) = chunk.get("choices") {
            if let Some(a) = j.as_array() {
                finish = self.on_choices(a, o);
            }
        }
        let usage = match chunk.get("usage") {
            Some(u) => usage_from_value(u),
            None => None,
        };
        match finish {
            Some(r) => {
                self.close_open_blocks(o);
                o.events.push(
                    StreamEvent::MessageDelta { stop_reason: Some(map_finish_reason(r.as_str())), usage },
                );
            },
            None => {
                if usage.is_some() {
                    o.events.push(StreamEvent::MessageDelta { stop_reason: None, usage });
                }
            },
        }
    }
}

/// The state of a fresh parser.
pub open spec fn fresh_stream(reasoning_field: Seq<char>) -> ChatStreamV {
    ChatStreamV {
        started: false,
        terminal: false,
        next_index: 0,
        channel: None,
        tool_calls: Seq::empty(),
        warned_multiple: false,
        warned_interleaved: false,
        warned_unknown: Seq::empty(),
        reasoning_field,
    }
}

fn unknown_event() -> (r: Vec<StreamEvent>)
    ensures
        views(r@) == seq![StreamEventV::Unknown],
{
    let mut v: Vec<StreamEvent> = Vec::new();
    v.push(StreamEvent::Unknown);
    proof {
        assert(views(v@) =~= seq![StreamEventV::Unknown]);
    }
    v
}

impl StreamParser for ChatCompletionsStreamParser {
    open spec fn parsed(st: ChatStreamV, event: SseEventV) -> StepV<ChatStreamV> {
        chat_step(st, event)
    }

    open spec fn finished(st: ChatStreamV) -> StepV<ChatStreamV> {
        chat_finish(st)
    }

    fn parse(&mut self, event: &SseEvent) -> (r: Result<(Vec<StreamEvent>, Vec<ConversionWarning>), Error>) {
        proof {
            reveal_strlit("");
            assert(""@ =~= Seq::<char>::empty());
        }
        match validate_reasoning_field(&self.reasoning_field) {
            Ok(_) => {},
            Err(e) => {
                return Err(Error::Conversion(e));
            },
        }
        let mut o = Output::new();
        if self.terminal {
            parse_warn(
                &mut o.warnings,
                OPENAI_CHAT_COMPLETIONS,
                WarningCode::UnknownStreamEvent,
                "",
                "chunk received after the stream terminated",
            );
            return Ok((unknown_event(), o.warnings));
        }
        if text_is(&trim(event.data.as_str()), "[DONE]") {
            self.ensure_started(None, &mut o);
            self.close_open_blocks(&mut o);
            o.events.push(StreamEvent::MessageStop);
            self.terminal = true;
            return Ok((o.events, o.warnings));
        }
        match parse_text(event.data.as_str()) {
            Err(e) => {
                warn_field(
                    &mut o.warnings,
                    "",
                    cat2("stream chunk is not JSON and was surfaced as unknown: ", e.as_str()).as_str(),
                );
                Ok((unknown_event(), o.warnings))
            },
            Ok(chunk) => {
                self.on_chunk(&chunk, &mut o);
                Ok((o.events, o.warnings))
            },
        }
    }

    fn finish(&mut self) -> (r: Result<(Vec<StreamEvent>, Vec<ConversionWarning>), Error>) {
        let o = Output::new();
        if self.terminal {
            Ok((o.events, o.warnings))
        } else {
            let raw: Vec<u8> = Vec::new();
            proof {
                assert(raw@ =~= Seq::<u8>::empty());
            }
            Err(
                Error::Parse {
                    message: "truncated stream: the Chat Completions stream ended without `[DONE]`".to_owned(),
                    raw,
                },
            )
        }
    }
}

} // verus!
