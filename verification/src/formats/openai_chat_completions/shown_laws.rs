//! Laws: the fragments of a chunk are passed on as they come.

use vstd::prelude::*;
use crate::convert::ConversionWarningV;
use crate::formats::openai_chat_completions::to_ir::usage_value;
use crate::formats::openai_chat_completions::stream::{all_closed, call_fed, call_stops, calls_fed, channel_block, channel_fed, channel_opened, channel_stops, chat_step, choices_fed, chunk_fed, flow_start, leftover_fed, message_delta, message_started, piece_events, pieces_joined, stop_events, stops_ordered, text_fed, thinking_fed, unknown_fields, valid_reasoning_field, wire_index, Channel, ChatStreamV, FlowV};
use crate::formats::openai_chat_completions::streamed_calls::{fragment_routed, fresh_call, grown, members_routed, payload_counted, payload_routed, type_read, CallStateV, PayloadKind, RouteV};
use crate::ir::{BlockDeltaV, ContentBlockV, SseEventV, StreamEventV, UsageV};
use crate::json::{json_as_array, json_as_str, json_as_u64, json_get, obj_get, obj_index, obj_index_props, obj_wf, JsonV, ObjV};
use crate::namespaces::{absent_is_not_read, pushed_member_is_read};
use crate::scan::trimmed;
use crate::shown::or_empty;
use crate::stream::keyed_get;
use crate::value::json_from_str;

verus! {

/// The text that events show.
pub open spec fn shown_text(es: Seq<StreamEventV>) -> Seq<char>
    decreases es.len(),
{
    if es.len() == 0 {
        Seq::empty()
    } else {
        shown_text(es.drop_last()) + match es.last() {
            StreamEventV::BlockDelta { delta: BlockDeltaV::Text(s), .. } => s,
            _ => Seq::empty(),
        }
    }
}

/// The thinking that events show.
pub open spec fn shown_thinking(es: Seq<StreamEventV>) -> Seq<char>
    decreases es.len(),
{
    if es.len() == 0 {
        Seq::empty()
    } else {
        shown_thinking(es.drop_last()) + match es.last() {
            StreamEventV::BlockDelta { delta: BlockDeltaV::Thinking(s), .. } => s,
            _ => Seq::empty(),
        }
    }
}

/// The arguments that events show of block `index`.
pub open spec fn shown_arguments(es: Seq<StreamEventV>, index: usize) -> Seq<char>
    decreases es.len(),
{
    if es.len() == 0 {
        Seq::empty()
    } else {
        shown_arguments(es.drop_last(), index) + match es.last() {
            StreamEventV::BlockDelta { index: i, delta: BlockDeltaV::ToolArguments(s) } if i == index => s,
            _ => Seq::empty(),
        }
    }
}

proof fn one_more_is_shown(es: Seq<StreamEventV>, e: StreamEventV, index: usize)
    ensures
        shown_text(es.push(e)) == shown_text(es) + match e {
            StreamEventV::BlockDelta { delta: BlockDeltaV::Text(s), .. } => s,
            _ => Seq::empty(),
        },
        shown_thinking(es.push(e)) == shown_thinking(es) + match e {
            StreamEventV::BlockDelta { delta: BlockDeltaV::Thinking(s), .. } => s,
            _ => Seq::empty(),
        },
        shown_arguments(es.push(e), index) == shown_arguments(es, index) + match e {
            StreamEventV::BlockDelta { index: i, delta: BlockDeltaV::ToolArguments(s) } if i == index => s,
            _ => Seq::empty(),
        },
{
    assert(es.push(e).drop_last() =~= es);
}

/// The flow shows more: this text, this thinking, these arguments of the block.
spec fn shows_more(f: FlowV, g: FlowV, index: usize, text: Seq<char>, thinking: Seq<char>, arguments: Seq<char>) -> bool {
    &&& shown_text(g.events) == shown_text(f.events) + text
    &&& shown_thinking(g.events) == shown_thinking(f.events) + thinking
    &&& shown_arguments(g.events, index) == shown_arguments(f.events, index) + arguments
}

proof fn same_is_shown(f: FlowV, g: FlowV, index: usize)
    requires
        f.events == g.events,
    ensures
        shows_more(f, g, index, Seq::empty(), Seq::empty(), Seq::empty()),
{
    let none = Seq::<char>::empty();
    assert(shown_text(f.events) + none =~= shown_text(f.events));
    assert(shown_thinking(f.events) + none =~= shown_thinking(f.events));
    assert(shown_arguments(f.events, index) + none =~= shown_arguments(f.events, index));
}

proof fn silent_event(f: FlowV, g: FlowV, e: StreamEventV, index: usize)
    requires
        g.events == f.events.push(e),
        match e {
            StreamEventV::BlockDelta { delta, .. } => delta is Other,
            _ => true,
        },
    ensures
        shows_more(f, g, index, Seq::empty(), Seq::empty(), Seq::empty()),
{
    one_more_is_shown(f.events, e, index);
}

proof fn shown_in_turn(
    f: FlowV,
    g: FlowV,
    h: FlowV,
    index: usize,
    t1: Seq<char>,
    k1: Seq<char>,
    a1: Seq<char>,
    t2: Seq<char>,
    k2: Seq<char>,
    a2: Seq<char>,
)
    requires
        shows_more(f, g, index, t1, k1, a1),
        shows_more(g, h, index, t2, k2, a2),
    ensures
        shows_more(f, h, index, t1 + t2, k1 + k2, a1 + a2),
{
    assert(shown_text(f.events) + t1 + t2 =~= shown_text(f.events) + (t1 + t2));
    assert(shown_thinking(f.events) + k1 + k2 =~= shown_thinking(f.events) + (k1 + k2));
    assert(shown_arguments(f.events, index) + a1 + a2 =~= shown_arguments(f.events, index) + (a1 + a2));
}

proof fn opening_is_silent(f: FlowV, kind: Channel, index: usize)
    ensures
        shows_more(f, channel_opened(f, kind), index, Seq::empty(), Seq::empty(), Seq::empty()),
{
    let g = channel_opened(f, kind);
    let none = Seq::<char>::empty();
    if g.events == f.events {
        same_is_shown(f, g, index);
    } else {
        let e1 = match f.st.channel {
            Some(c) => f.events.push(
                StreamEventV::BlockStop {
                    index: c.index,
                    block: channel_block(c),
                },
            ),
            None => f.events,
        };
        let m = FlowV { events: e1, ..f };
        if f.st.channel is Some {
            silent_event(f, m, e1.last(), index);
        } else {
            same_is_shown(f, m, index);
        }
        silent_event(m, g, g.events.last(), index);
        shown_in_turn(f, m, g, index, none, none, none, none, none, none);
        assert(none + none =~= none);
    }
}

/// A fragment on a channel shows itself: content and refusals as text, the
/// thinking field as thinking.
proof fn channel_shows_its_fragment(f: FlowV, kind: Channel, s: Seq<char>, index: usize)
    ensures
        shows_more(
            f,
            channel_fed(f, kind, s),
            index,
            if kind == Channel::Reasoning { Seq::empty() } else { s },
            if kind == Channel::Reasoning { s } else { Seq::empty() },
            Seq::empty(),
        ),
{
    let none = Seq::<char>::empty();
    let f1 = channel_opened(f, kind);
    let g = channel_fed(f, kind, s);
    opening_is_silent(f, kind, index);
    if s.len() == 0 {
        assert(s =~= none);
    } else {
        one_more_is_shown(f1.events, g.events.last(), index);
        let t = if kind == Channel::Reasoning { none } else { s };
        let k = if kind == Channel::Reasoning { s } else { none };
        assert(g.events =~= f1.events.push(g.events.last()));
        shown_in_turn(f, f1, g, index, none, none, none, t, k, none);
        assert(none + t =~= t && none + k =~= k && none + none =~= none);
    }
}

proof fn thinking_is_shown(f: FlowV, v: Option<JsonV>, index: usize)
    ensures
        shows_more(f, thinking_fed(f, v), index, Seq::empty(), or_empty(json_as_str(v)), Seq::empty()),
{
    match v {
        Some(JsonV::Str(s)) => {
            channel_shows_its_fragment(f, Channel::Reasoning, s, index);
        },
        _ => {
            same_is_shown(f, thinking_fed(f, v), index);
        },
    }
}

proof fn text_is_shown(f: FlowV, v: Option<JsonV>, kind: Channel, index: usize)
    requires
        kind != Channel::Reasoning,
    ensures
        shows_more(f, text_fed(f, v, kind), index, or_empty(json_as_str(v)), Seq::empty(), Seq::empty()),
{
    match json_as_str(v) {
        Some(s) => {
            channel_shows_its_fragment(f, kind, s, index);
        },
        None => {
            same_is_shown(f, text_fed(f, v, kind), index);
        },
    }
}

proof fn pieces_are_shown(es: Seq<StreamEventV>, at: usize, pieces: Seq<Seq<char>>, n: nat, index: usize)
    requires
        n <= pieces.len(),
    ensures
        ({
            let all = es + piece_events(at, pieces).take(n as int);
            &&& shown_text(all) == shown_text(es)
            &&& shown_thinking(all) == shown_thinking(es)
            &&& at == index ==> shown_arguments(all, index) == pieces_joined(shown_arguments(es, index), pieces, n)
            &&& at != index ==> shown_arguments(all, index) == shown_arguments(es, index)
        }),
    decreases n,
{
    let p = piece_events(at, pieces);
    let none = Seq::<char>::empty();
    if n == 0 {
        assert(es + p.take(0) =~= es);
    } else {
        let q = (n - 1) as nat;
        pieces_are_shown(es, at, pieces, q, index);
        let before = es + p.take(q as int);
        assert(es + p.take(n as int) =~= before.push(p[q as int]));
        one_more_is_shown(before, p[q as int], index);
        assert(shown_text(before) + none =~= shown_text(before));
        assert(shown_thinking(before) + none =~= shown_thinking(before));
        assert(shown_arguments(before, index) + none =~= shown_arguments(before, index));
    }
}

proof fn join_behind(a: Seq<char>, pieces: Seq<Seq<char>>, n: nat)
    requires
        n <= pieces.len(),
    ensures
        pieces_joined(a, pieces, n) == a + pieces_joined(Seq::empty(), pieces, n),
    decreases n,
{
    let none = Seq::<char>::empty();
    if n == 0 {
        assert(a + none =~= a);
    } else {
        join_behind(a, pieces, (n - 1) as nat);
        let j = pieces_joined(none, pieces, (n - 1) as nat);
        assert(a + j + pieces[n - 1] =~= a + (j + pieces[n - 1]));
    }
}

/// The call that a fragment belongs to, before the fragment.
pub open spec fn call_before(st: ChatStreamV, wire: u64) -> CallStateV {
    match keyed_get(st.tool_calls, wire) {
        Some(s) => s,
        None => fresh_call(st.next_index),
    }
}

/// A fragment of a call shows the pieces of its arguments, under the index of
/// its block, and nothing else.
proof fn call_shows_its_pieces(f: FlowV, fragment: JsonV, position: nat, index: usize)
    ensures
        ({
            let (wire, ws) = wire_index(fragment, position, f.warnings);
            let r = fragment_routed(call_before(f.st, wire), fragment, wire, ws);
            let shown = pieces_joined(Seq::empty(), r.deltas, r.deltas.len());
            shows_more(
                f,
                call_fed(f, fragment, position),
                index,
                Seq::empty(),
                Seq::empty(),
                if r.call.block_index == index { shown } else { Seq::empty() },
            )
        }),
{
    let none = Seq::<char>::empty();
    let (wire, ws) = wire_index(fragment, position, f.warnings);
    let r = fragment_routed(call_before(f.st, wire), fragment, wire, ws);
    let g = call_fed(f, fragment, position);
    let p = piece_events(r.call.block_index, r.deltas);
    let e1 = if keyed_get(f.st.tool_calls, wire) is None {
        f.events.push(
            StreamEventV::BlockStart {
                index: r.call.block_index,
                block: crate::ir::ContentBlockV::ToolCall {
                    id: r.call.id,
                    name: r.call.name,
                    arguments: Seq::empty(),
                    cache: None,
                    extra: Seq::empty(),
                },
            },
        )
    } else {
        f.events
    };
    assert(g.events == e1 + p);
    let m = FlowV { events: e1, ..f };
    if keyed_get(f.st.tool_calls, wire) is None {
        silent_event(f, m, e1.last(), index);
    } else {
        same_is_shown(f, m, index);
    }
    pieces_are_shown(e1, r.call.block_index, r.deltas, r.deltas.len(), index);
    assert(p.take(r.deltas.len() as int) =~= p);
    join_behind(shown_arguments(e1, index), r.deltas, r.deltas.len());
    let shown = if r.call.block_index == index { pieces_joined(none, r.deltas, r.deltas.len()) } else { none };
    assert(shown_text(e1) + none =~= shown_text(e1));
    assert(shown_thinking(e1) + none =~= shown_thinking(e1));
    assert(shown_arguments(e1, index) + none =~= shown_arguments(e1, index));
    shown_in_turn(f, m, g, index, none, none, none, none, none, shown);
    assert(none + none =~= none && none + shown =~= shown);
}

proof fn leftover_is_silent(f: FlowV, o: ObjV, index: usize)
    ensures
        shows_more(f, leftover_fed(f, o), index, Seq::empty(), Seq::empty(), Seq::empty()),
{
    let g = leftover_fed(f, o);
    if o.len() == 0 {
        same_is_shown(f, g, index);
    } else {
        silent_event(f, g, g.events.last(), index);
    }
}

proof fn stops_are_silent(es: Seq<StreamEventV>, s: Seq<(usize, Option<ContentBlockV>)>, n: nat, index: usize)
    requires
        n <= s.len(),
    ensures
        ({
            let all = es + stop_events(s).take(n as int);
            &&& shown_text(all) == shown_text(es)
            &&& shown_thinking(all) == shown_thinking(es)
            &&& shown_arguments(all, index) == shown_arguments(es, index)
        }),
    decreases n,
{
    let p = stop_events(s);
    let none = Seq::<char>::empty();
    if n == 0 {
        assert(es + p.take(0) =~= es);
    } else {
        let q = (n - 1) as nat;
        stops_are_silent(es, s, q, index);
        let before = es + p.take(q as int);
        assert(es + p.take(n as int) =~= before.push(p[q as int]));
        one_more_is_shown(before, p[q as int], index);
        assert(shown_text(before) + none =~= shown_text(before));
        assert(shown_thinking(before) + none =~= shown_thinking(before));
        assert(shown_arguments(before, index) + none =~= shown_arguments(before, index));
    }
}

proof fn closing_is_silent(f: FlowV, index: usize)
    ensures
        shown_text(all_closed(f).events) == shown_text(f.events),
        shown_thinking(all_closed(f).events) == shown_thinking(f.events),
        shown_arguments(all_closed(f).events, index) == shown_arguments(f.events, index),
{
    let (stops, ws) = call_stops(
        f.st.tool_calls,
        channel_stops(f.st.channel),
        f.warnings,
        f.st.tool_calls.len(),
    );
    let s = stops_ordered(stops, stops.len());
    stops_are_silent(f.events, s, s.len(), index);
    assert(stop_events(s).take(s.len() as int) =~= stop_events(s));
}

proof fn end_is_silent(f: FlowV, finish: Option<Seq<char>>, usage: Option<UsageV>, index: usize)
    ensures
        shows_more(f, message_delta(f, finish, usage), index, Seq::empty(), Seq::empty(), Seq::empty()),
{
    let g = message_delta(f, finish, usage);
    let none = Seq::<char>::empty();
    match finish {
        Some(r) => {
            let c = all_closed(f);
            closing_is_silent(f, index);
            silent_event(c, g, g.events.last(), index);
        },
        None => {
            if g.events == f.events {
                same_is_shown(f, g, index);
            } else {
                silent_event(f, g, g.events.last(), index);
            }
        },
    }
}

/// The text under a name of a delta.
pub open spec fn text_under(delta: JsonV, k: Seq<char>) -> Seq<char> {
    or_empty(json_as_str(json_get(delta, k)))
}

/// The chunk has one choice, the first, with this delta.
pub open spec fn carries(chunk: JsonV, delta: JsonV) -> bool {
    match json_get(chunk, "choices"@) {
        Some(JsonV::Array(a)) => {
            &&& a.len() == 1
            &&& match json_as_u64(json_get(a[0], "index"@)) {
                Some(i) => i == 0,
                None => true,
            }
            &&& json_get(a[0], "delta"@) == Some(delta)
        },
        _ => false,
    }
}

/// A chunk of a stream that goes on.
pub open spec fn is_chunk(st: ChatStreamV, ev: SseEventV, chunk: JsonV) -> bool {
    &&& !st.terminal
    &&& valid_reasoning_field(st.reasoning_field)
    &&& trimmed(ev.data) != "[DONE]"@
    &&& json_from_str(ev.data) == Ok::<JsonV, Seq<char>>(chunk)
}

/// The step after the text of a chunk, before its calls.
spec fn text_taken(st: ChatStreamV, chunk: JsonV, delta: JsonV) -> FlowV {
    let f1 = message_started(flow_start(st), Some(chunk));
    let d1 = thinking_fed(f1, json_get(delta, f1.st.reasoning_field));
    let d2 = text_fed(d1, json_get(delta, "content"@), Channel::Content);
    text_fed(d2, json_get(delta, "refusal"@), Channel::Refusal)
}

/// What a chunk shows of a block.
proof fn chunk_shows(st: ChatStreamV, ev: SseEventV, chunk: JsonV, delta: JsonV, index: usize) -> (at: (FlowV, FlowV))
    requires
        is_chunk(st, ev, chunk),
        carries(chunk, delta),
    ensures
        chat_step(st, ev) is Ok,
        at.0 == text_taken(st, chunk, delta),
        at.0.st.tool_calls == st.tool_calls,
        at.1 == (match json_as_array(json_get(delta, "tool_calls"@)) {
            Some(a) => calls_fed(at.0, a, a.len()),
            None => at.0,
        }),
        shown_arguments(at.0.events, index) == Seq::<char>::empty(),
        shown_text(at.0.events) == text_under(delta, "content"@) + text_under(delta, "refusal"@),
        shown_thinking(at.0.events) == text_under(delta, st.reasoning_field),
        shows_more(
            at.1,
            FlowV { events: chat_step(st, ev)->Ok_0.0, ..at.1 },
            index,
            Seq::empty(),
            Seq::empty(),
            Seq::empty(),
        ),
{
    let none = Seq::<char>::empty();
    let f0 = flow_start(st);
    let f1 = message_started(f0, Some(chunk));
    if st.started {
        same_is_shown(f0, f1, index);
    } else {
        silent_event(f0, f1, f1.events.last(), index);
    }
    let d1 = thinking_fed(f1, json_get(delta, f1.st.reasoning_field));
    let d2 = text_fed(d1, json_get(delta, "content"@), Channel::Content);
    let d3 = text_fed(d2, json_get(delta, "refusal"@), Channel::Refusal);
    let d4 = match json_as_array(json_get(delta, "tool_calls"@)) {
        Some(a) => calls_fed(d3, a, a.len()),
        None => d3,
    };
    let d5 = leftover_fed(d4, unknown_fields(delta, f1.st.reasoning_field));
    thinking_is_shown(f1, json_get(delta, f1.st.reasoning_field), index);
    text_is_shown(d1, json_get(delta, "content"@), Channel::Content, index);
    text_is_shown(d2, json_get(delta, "refusal"@), Channel::Refusal, index);
    leftover_is_silent(d4, unknown_fields(delta, f1.st.reasoning_field), index);
    let c = text_under(delta, "content"@);
    let r = text_under(delta, "refusal"@);
    let k = text_under(delta, st.reasoning_field);
    assert(shown_text(d3.events) =~= c + r);
    assert(shown_thinking(d3.events) =~= k);
    assert(shown_arguments(d3.events, index) =~= none);
    let a = json_as_array(json_get(chunk, "choices"@))->0;
    reveal_with_fuel(choices_fed, 2);
    let (f2, finish) = choices_fed(f1, a, 1);
    assert(f2 == d5);
    let usage = usage_in(chunk);
    end_is_silent(f2, finish, usage, index);
    let g = message_delta(f2, finish, usage);
    assert(chunk_fed(f0, chunk) == g);
    shown_in_turn(d4, d5, g, index, none, none, none, none, none, none);
    assert(none + none =~= none);
    (d3, d4)
}

/// The usage of a chunk.
spec fn usage_in(chunk: JsonV) -> Option<UsageV> {
    match json_get(chunk, "usage"@) {
        Some(u) => usage_value(u),
        None => None,
    }
}

/// The text and the thinking of a chunk are passed on as they came: what its
/// events show as text is its content and its refusal, and what they show as
/// thinking is its thinking field, each once and nothing more.
pub proof fn text_is_passed_on(st: ChatStreamV, ev: SseEventV, chunk: JsonV, delta: JsonV)
    requires
        is_chunk(st, ev, chunk),
        carries(chunk, delta),
    ensures
        chat_step(st, ev) is Ok,
        shown_text(chat_step(st, ev)->Ok_0.0) == text_under(delta, "content"@) + text_under(delta, "refusal"@),
        shown_thinking(chat_step(st, ev)->Ok_0.0) == text_under(delta, st.reasoning_field),
{
    let (f, g) = chunk_shows(st, ev, chunk, delta, 0);
    if let Some(a) = json_as_array(json_get(delta, "tool_calls"@)) {
        calls_show_no_text(f, a, a.len());
    }
    let none = Seq::<char>::empty();
    assert(shown_text(g.events) + none =~= shown_text(g.events));
    assert(shown_thinking(g.events) + none =~= shown_thinking(g.events));
}

proof fn calls_show_no_text(f: FlowV, a: Seq<JsonV>, n: nat)
    requires
        n <= a.len(),
    ensures
        shown_text(calls_fed(f, a, n).events) == shown_text(f.events),
        shown_thinking(calls_fed(f, a, n).events) == shown_thinking(f.events),
    decreases n,
{
    if n > 0 {
        let prev = calls_fed(f, a, (n - 1) as nat);
        calls_show_no_text(f, a, (n - 1) as nat);
        call_shows_its_pieces(prev, a[n - 1], (n - 1) as nat, 0);
        let none = Seq::<char>::empty();
        assert(shown_text(prev.events) + none =~= shown_text(prev.events));
        assert(shown_thinking(prev.events) + none =~= shown_thinking(prev.events));
    }
}

proof fn payload_pieces(r: RouteV, wire: u64, m: ObjV, n: nat)
    requires
        n <= m.len(),
        obj_wf(m),
        r.deltas.len() == 0,
    ensures
        ({
            let x = members_routed(r, PayloadKind::Function, wire, m, n).0;
            &&& pieces_joined(Seq::empty(), x.deltas, x.deltas.len()) == or_empty(
                json_as_str(obj_get(m.take(n as int), "arguments"@)),
            )
            &&& x.call.block_index == r.call.block_index
            &&& x.call.mirror == r.call.mirror
            &&& x.deltas.len() <= 1
            &&& obj_get(m.take(n as int), "arguments"@) is None ==> x.deltas.len() == 0
        }),
    decreases n,
{
    let none = Seq::<char>::empty();
    let empty = Seq::<(Seq<char>, JsonV)>::empty();
    let key = "arguments"@;
    reveal_strlit("arguments");
    reveal_strlit("name");
    assert("arguments"@.len() == 9 && "name"@.len() == 4);
    if n == 0 {
        assert(m.take(0) =~= empty);
        absent_is_not_read(empty, key, JsonV::Null);
        assert(pieces_joined(none, r.deltas, 0) == none);
    } else {
        let q = (n - 1) as nat;
        payload_pieces(r, wire, m, q);
        let (k, v) = m[q as int];
        assert(m.take(n as int) =~= m.take(q as int).push((k, v)));
        pushed_member_is_read(m.take(q as int), key, k, v);
        let prev = members_routed(r, PayloadKind::Function, wire, m, q).0;
        if k == key {
            if obj_get(m.take(q as int), key) is Some {
                broadcast use obj_index_props;
                reveal(obj_get);
                let i = obj_index(m.take(q as int), key);
                assert(m[i].0 == key);
                assert(m[i].0 != m[q as int].0);
            }
            if let JsonV::Str(piece) = v {
                let x = members_routed(r, PayloadKind::Function, wire, m, n).0;
                if piece.len() > 0 {
                    assert(x.deltas =~= seq![piece]);
                    reveal_with_fuel(pieces_joined, 2);
                    assert(none + piece =~= piece);
                } else {
                    assert(piece =~= none);
                }
            }
        }
    }
}

/// The arguments of a call fragment are passed on as they came, under the index
/// of its block: what the events of the chunk show of the call is the fragment,
/// once and nothing more. The call is a function call, as far as is known.
pub proof fn arguments_are_passed_on(
    st: ChatStreamV,
    ev: SseEventV,
    chunk: JsonV,
    delta: JsonV,
    fragment: JsonV,
    wire: u64,
    function: ObjV,
)
    requires
        is_chunk(st, ev, chunk),
        carries(chunk, delta),
        json_get(delta, "tool_calls"@) == Some(JsonV::Array(seq![fragment])),
        json_as_u64(json_get(fragment, "index"@)) == Some(wire),
        json_get(fragment, "function"@) == Some(JsonV::Object(function)),
        obj_wf(function),
        json_get(fragment, "custom"@) is None,
        json_get(fragment, "type"@) is None || json_get(fragment, "type"@) == Some(JsonV::Str("function"@)),
        match keyed_get(st.tool_calls, wire) {
            Some(s) => s.mirror is None && (s.kind is None || s.kind == Some(PayloadKind::Function)),
            None => true,
        },
    ensures
        chat_step(st, ev) is Ok,
        exists|index: usize|
            {
                &&& match keyed_get(st.tool_calls, wire) {
                    Some(s) => index == s.block_index,
                    None => true,
                }
                &&& #[trigger] shown_arguments(chat_step(st, ev)->Ok_0.0, index) == or_empty(
                    json_as_str(obj_get(function, "arguments"@)),
                )
            },
{
    let (f, g) = chunk_shows(st, ev, chunk, delta, 0);
    let index = call_before(f.st, wire).block_index;
    let (f, g) = chunk_shows(st, ev, chunk, delta, index);
    let a = seq![fragment];
    reveal_with_fuel(calls_fed, 2);
    assert(a[0] == fragment);
    call_shows_its_pieces(f, fragment, 0, index);
    fragment_pieces(call_before(f.st, wire), fragment, wire, f.warnings, function);
    let none = Seq::<char>::empty();
    let es = chat_step(st, ev)->Ok_0.0;
    let args = or_empty(json_as_str(obj_get(function, "arguments"@)));
    assert(shown_arguments(g.events, index) + none =~= shown_arguments(g.events, index));
    assert(none + args =~= args);
    assert(shown_arguments(es, index) == args);
}

proof fn fragment_pieces(
    s: CallStateV,
    fragment: JsonV,
    wire: u64,
    ws: Seq<ConversionWarningV>,
    function: ObjV,
)
    requires
        json_get(fragment, "function"@) == Some(JsonV::Object(function)),
        obj_wf(function),
        json_get(fragment, "custom"@) is None,
        json_get(fragment, "type"@) is None || json_get(fragment, "type"@) == Some(JsonV::Str("function"@)),
        s.mirror is None,
        s.kind is None || s.kind == Some(PayloadKind::Function),
    ensures
        ({
            let r = fragment_routed(s, fragment, wire, ws);
            &&& r.call.block_index == s.block_index
            &&& pieces_joined(Seq::empty(), r.deltas, r.deltas.len()) == or_empty(
                json_as_str(obj_get(function, "arguments"@)),
            )
        }),
{
    let s1 = match json_as_str(json_get(fragment, "id"@)) {
        Some(id) => CallStateV {
            id: grown(s.id, id),
            ..s
        },
        None => s,
    };
    let (s2, ws2) = type_read(
        s1,
        json_get(fragment, "type"@),
        wire,
        ws,
    );
    assert(s2.mirror is None && (s2.kind is None || s2.kind == Some(PayloadKind::Function)) && s2.block_index
        == s.block_index);
    let r0 = RouteV {
        call: CallStateV { kind: Some(PayloadKind::Function), ..s2 },
        deltas: Seq::empty(),
        warnings: ws2,
    };
    payload_pieces(r0, wire, function, function.len());
    assert(function.take(function.len() as int) =~= function);
    let r1 = payload_routed(
        RouteV { call: s2, deltas: Seq::empty(), warnings: ws2 },
        PayloadKind::Function,
        wire,
        Some(JsonV::Object(function)),
    );
    assert(r1 == payload_counted(r0, PayloadKind::Function, wire, function));
}

} // verus!
