//! Laws of the stream parser: the events of a stream keep their order, and
//! only a stream that showed its terminator ends well.

use vstd::prelude::*;
use crate::convert::ConversionWarningV;
use crate::formats::openai_chat_completions::stream::{all_closed, call_fed, call_stops, calls_fed, channel_block, channel_fed, channel_opened, channel_stops, chat_finish, chat_step, choice_index, choices_fed, chunk_fed, delta_fed, done_fed, flow_start, fresh_stream, leftover_fed, message_delta, message_started, other_choice, piece_events, stop_events, stop_place, stops_ordered, text_fed, thinking_fed, unknown_fields, valid_reasoning_field, wire_index, Channel, ChatStreamV, FlowV, StopV};
use crate::formats::openai_chat_completions::streamed_calls::{fragment_routed, fresh_call, grown, members_routed, payload_routed, type_read, CallStateV, PayloadKind, RouteV};
use crate::formats::openai_chat_completions::to_ir::usage_value;
use crate::ir::ContentBlockV::ToolCall;
use crate::ir::{SseEventV, StreamEventV, UsageV};
use crate::json::{json_as_array, json_as_str, json_get, JsonV, ObjV};
use crate::protocol::{events_taken, protocol_start, taken_in_turn, taken_one_more, ProtocolV};
use crate::scan::trimmed;
use crate::stream::{keyed_get, place_from, place_from_props};
use crate::value::json_from_str;

verus! {

/// Some call has this block.
pub open spec fn has_call(calls: Seq<(u64, CallStateV)>, i: usize) -> bool {
    exists|j: int| 0 <= j < calls.len() && (#[trigger] calls[j]).1.block_index == i
}

/// The block is open.
pub open spec fn is_open(st: ChatStreamV, i: usize) -> bool {
    (st.channel is Some && st.channel->0.index == i) || has_call(st.tool_calls, i)
}

/// No two open blocks share an index.
pub open spec fn blocks_differ(st: ChatStreamV) -> bool {
    &&& forall|a: int, b: int|
        0 <= a < b < st.tool_calls.len() ==> (#[trigger] st.tool_calls[a]).1.block_index != (
        #[trigger] st.tool_calls[b]).1.block_index
    &&& st.channel is Some ==> !has_call(st.tool_calls, st.channel->0.index)
}

/// The parser stands where its events stand.
pub open spec fn in_step(st: ChatStreamV, p: ProtocolV) -> bool {
    &&& p.started == st.started
    &&& p.stopped == st.terminal
    &&& p.blocks == st.next_index
    &&& forall|i: usize| #[trigger] p.open.contains(i) <==> is_open(st, i)
    &&& blocks_differ(st)
    &&& forall|i: usize| #[trigger] is_open(st, i) ==> i < st.next_index
}

/// The events of a step in progress are in order.
spec fn orderly(p: ProtocolV, f: FlowV) -> bool {
    match events_taken(p, f.events) {
        Some(q) => in_step(f.st, q),
        None => false,
    }
}

/// The message has started and is not over.
spec fn running(f: FlowV) -> bool {
    f.st.started && !f.st.terminal
}

/// Some stop is that of this block.
pub open spec fn has_stop(s: Seq<StopV>, i: usize) -> bool {
    exists|j: int| 0 <= j < s.len() && (#[trigger] s[j]).0 == i
}

/// The blocks of the stops rise.
pub open spec fn stops_rise(s: Seq<StopV>) -> bool {
    forall|a: int, b: int| 0 <= a < b < s.len() ==> (#[trigger] s[a]).0 < (#[trigger] s[b]).0
}

/// No two stops are of one block.
pub open spec fn stops_differ(s: Seq<StopV>) -> bool {
    forall|a: int, b: int| 0 <= a < b < s.len() ==> (#[trigger] s[a]).0 != (#[trigger] s[b]).0
}

proof fn stop_place_props(s: Seq<StopV>, index: usize, i: int)
    requires
        0 <= i <= s.len(),
    ensures
        i <= stop_place(s, index, i) <= s.len(),
        stop_place(s, index, i) < s.len() ==> s[stop_place(s, index, i)].0 > index,
        forall|j: int| i <= j < stop_place(s, index, i) ==> (#[trigger] s[j]).0 <= index,
    decreases s.len() - i,
{
    if i < s.len() && s[i].0 <= index {
        stop_place_props(s, index, i + 1);
    }
}

/// The blocks that are open at the end are closed in the order in which they
/// were opened, each once.
pub proof fn blocks_close_in_order(s: Seq<StopV>, n: nat)
    requires
        n <= s.len(),
        stops_differ(s),
    ensures
        stops_ordered(s, n).len() == n,
        stops_rise(stops_ordered(s, n)),
        forall|i: usize| #[trigger] has_stop(stops_ordered(s, n), i) <==> has_stop(s.take(n as int), i),
    decreases n,
{
    let r = stops_ordered(s, n);
    if n == 0 {
        assert forall|i: usize| #[trigger] has_stop(r, i) <==> has_stop(s.take(0), i) by {}
    } else {
        let q = (n - 1) as nat;
        blocks_close_in_order(s, q);
        let prev = stops_ordered(s, q);
        let x = s[q as int];
        stop_place_props(prev, x.0, 0);
        let k = stop_place(prev, x.0, 0);
        assert(!has_stop(prev, x.0)) by {
            if has_stop(prev, x.0) {
                assert(has_stop(s.take(q as int), x.0));
                let j = choose|j: int| 0 <= j < q && (#[trigger] s.take(q as int)[j]).0 == x.0;
                assert(s[j].0 != s[q as int].0);
            }
        }
        assert forall|a: int, b: int| 0 <= a < b < r.len() implies (#[trigger] r[a]).0 < (#[trigger] r[b]).0 by {
            let pa = if a < k { a } else { a - 1 };
            let pb = if b < k { b } else { b - 1 };
            if a == k {
                assert(r[b] == prev[pb]);
                if k < pb {
                    assert(prev[k].0 < prev[pb].0);
                }
            } else if b == k {
                assert(r[a] == prev[pa]);
                assert(prev[pa].0 <= x.0);
                assert(has_stop(prev, prev[pa].0));
            } else {
                assert(r[a] == prev[pa] && r[b] == prev[pb]);
            }
        }
        assert forall|i: usize| #[trigger] has_stop(r, i) <==> has_stop(s.take(n as int), i) by {
            if has_stop(r, i) {
                let j = choose|j: int| 0 <= j < r.len() && (#[trigger] r[j]).0 == i;
                if j == k {
                    assert(s.take(n as int)[q as int].0 == i);
                } else {
                    let pj = if j < k { j } else { j - 1 };
                    assert(prev[pj].0 == i);
                    assert(has_stop(prev, i));
                    let m = choose|m: int| 0 <= m < q && (#[trigger] s.take(q as int)[m]).0 == i;
                    assert(s.take(n as int)[m].0 == i);
                }
            }
            if has_stop(s.take(n as int), i) {
                let j = choose|j: int| 0 <= j < n && (#[trigger] s.take(n as int)[j]).0 == i;
                if j == q {
                    assert(r[k].0 == i);
                } else {
                    assert(s.take(q as int)[j].0 == i);
                    assert(has_stop(s.take(q as int), i));
                    assert(has_stop(prev, i));
                    let m = choose|m: int| 0 <= m < prev.len() && (#[trigger] prev[m]).0 == i;
                    assert(r[if m < k { m } else { m + 1 }].0 == i);
                }
            }
        }
    }
}

/// The stops of different open blocks are in order.
proof fn stops_are_taken(p: ProtocolV, s: Seq<StopV>, n: nat)
    requires
        !p.stopped,
        stops_differ(s),
        forall|j: int| 0 <= j < s.len() ==> p.open.contains((#[trigger] s[j]).0),
        n <= s.len(),
    ensures
        match events_taken(p, stop_events(s.take(n as int))) {
            Some(q) => {
                &&& q.started == p.started
                &&& q.blocks == p.blocks
                &&& !q.stopped
                &&& forall|i: usize| #[trigger]
                    q.open.contains(i) <==> p.open.contains(i) && !has_stop(s.take(n as int), i)
            },
            None => false,
        },
    decreases n,
{
    let es = stop_events(s.take(n as int));
    if n == 0 {
        assert(es.len() == 0);
    } else {
        let m = (n - 1) as nat;
        stops_are_taken(p, s, m);
        let prev = stop_events(s.take(m as int));
        let e = StreamEventV::BlockStop { index: s[m as int].0, block: s[m as int].1 };
        assert(es =~= prev.push(e));
        taken_one_more(p, prev, e);
        let q0 = events_taken(p, prev)->0;
        assert(!has_stop(s.take(m as int), s[m as int].0)) by {
            if has_stop(s.take(m as int), s[m as int].0) {
                let j = choose|j: int| 0 <= j < m && (#[trigger] s.take(m as int)[j]).0 == s[m as int].0;
                assert(s[j].0 != s[m as int].0);
            }
        }
        let q = events_taken(p, es)->0;
        assert forall|i: usize| #[trigger]
            q.open.contains(i) <==> p.open.contains(i) && !has_stop(s.take(n as int), i) by {
            if has_stop(s.take(m as int), i) {
                let j = choose|j: int| 0 <= j < m && (#[trigger] s.take(m as int)[j]).0 == i;
                assert(s.take(n as int)[j].0 == i);
            }
            if i == s[m as int].0 {
                assert(s.take(n as int)[m as int].0 == i);
            }
            if has_stop(s.take(n as int), i) && i != s[m as int].0 {
                let j = choose|j: int| 0 <= j < n && (#[trigger] s.take(n as int)[j]).0 == i;
                assert(s.take(m as int)[j].0 == i);
            }
        }
    }
}

proof fn call_stops_are(calls: Seq<(u64, CallStateV)>, stops: Seq<StopV>, ws: Seq<ConversionWarningV>, n: nat)
    requires
        n <= calls.len(),
    ensures
        call_stops(calls, stops, ws, n).0.len() == stops.len() + n,
        forall|j: int| 0 <= j < stops.len() ==> (#[trigger] call_stops(calls, stops, ws, n).0[j]) == stops[j],
        forall|j: int|
            stops.len() <= j < stops.len() + n ==> (#[trigger] call_stops(calls, stops, ws, n).0[j]).0 == calls[j
                - stops.len()].1.block_index,
    decreases n,
{
    if n > 0 {
        call_stops_are(calls, stops, ws, (n - 1) as nat);
    }
}

proof fn closing(p: ProtocolV, f: FlowV)
    requires
        orderly(p, f),
        running(f),
    ensures
        orderly(p, all_closed(f)),
        running(all_closed(f)),
        all_closed(f).st.next_index == f.st.next_index,
        events_taken(p, all_closed(f).events)->0.open == Set::<usize>::empty(),
{
    let q = events_taken(p, f.events)->0;
    let calls = f.st.tool_calls;
    let first = channel_stops(f.st.channel);
    let stops = call_stops(calls, first, f.warnings, calls.len()).0;
    call_stops_are(calls, first, f.warnings, calls.len());
    assert(stops_differ(stops)) by {
        assert forall|a: int, b: int| 0 <= a < b < stops.len() implies (#[trigger] stops[a]).0 != (
        #[trigger] stops[b]).0 by {
            let cb = calls[b - first.len()];
            if a < first.len() {
                assert(stops[a] == first[a]);
                assert(has_call(calls, calls[b - first.len()].1.block_index));
            } else {
                assert(calls[a - first.len()].1.block_index != calls[b - first.len()].1.block_index);
            }
        }
    }
    assert forall|i: usize| #[trigger] has_stop(stops, i) <==> is_open(f.st, i) by {
        if has_stop(stops, i) {
            let j = choose|j: int| 0 <= j < stops.len() && (#[trigger] stops[j]).0 == i;
            if j < first.len() {
                assert(stops[j] == first[j]);
            } else {
                assert(calls[j - first.len()].1.block_index == i);
            }
        }
        if is_open(f.st, i) {
            if has_call(calls, i) {
                let j = choose|j: int| 0 <= j < calls.len() && (#[trigger] calls[j]).1.block_index == i;
                assert(stops[j + first.len()].0 == i);
            } else {
                assert(stops[0] == first[0]);
            }
        }
    }
    blocks_close_in_order(stops, stops.len());
    let r = stops_ordered(stops, stops.len());
    assert(stops.take(stops.len() as int) =~= stops);
    assert forall|j: int| 0 <= j < r.len() implies q.open.contains((#[trigger] r[j]).0) by {
        assert(has_stop(r, r[j].0));
        assert(has_stop(stops, r[j].0));
        assert(is_open(f.st, r[j].0));
    }
    stops_are_taken(q, r, r.len());
    assert(r.take(r.len() as int) =~= r);
    taken_in_turn(p, f.events, stop_events(r));
    let q2 = events_taken(p, all_closed(f).events)->0;
    assert forall|i: usize| !(#[trigger] q2.open.contains(i)) by {
        if q.open.contains(i) {
            assert(is_open(f.st, i));
            assert(has_stop(stops, i));
            assert(has_stop(r, i));
        }
    }
    assert(q2.open =~= Set::<usize>::empty());
    let st2 = all_closed(f).st;
    assert forall|i: usize| !(#[trigger] is_open(st2, i)) by {}
}

proof fn opening(p: ProtocolV, f: FlowV, kind: Channel)
    requires
        orderly(p, f),
        running(f),
        channel_opened(f, kind).st.next_index < usize::MAX,
    ensures
        orderly(p, channel_opened(f, kind)),
        running(channel_opened(f, kind)),
        channel_opened(f, kind).st.channel is Some,
{
    if !(f.st.channel is Some && f.st.channel->0.kind == kind) {
        let r = channel_opened(f, kind);
        let calls = f.st.tool_calls;
        let q0 = events_taken(p, f.events)->0;
        let e1 = match f.st.channel {
            Some(c) => f.events.push(
                StreamEventV::BlockStop {
                    index: c.index,
                    block: channel_block(c),
                },
            ),
            None => f.events,
        };
        if f.st.channel is Some {
            taken_one_more(p, f.events, e1.last());
            assert(is_open(f.st, f.st.channel->0.index));
        }
        let q1 = events_taken(p, e1)->0;
        assert forall|i: usize| #[trigger] q1.open.contains(i) <==> has_call(calls, i) by {
            assert(q0.open.contains(i) <==> is_open(f.st, i));
        }
        taken_one_more(p, e1, r.events.last());
        let q2 = events_taken(p, r.events)->0;
        let index = f.st.next_index;
        assert(!has_call(calls, index)) by {
            if has_call(calls, index) {
                assert(is_open(f.st, index));
            }
        }
        assert forall|i: usize| #[trigger] q2.open.contains(i) <==> is_open(r.st, i) by {
            assert(q1.open.contains(i) <==> has_call(calls, i));
        }
        assert forall|i: usize| #[trigger] is_open(r.st, i) implies i < r.st.next_index by {
            if i != index {
                assert(is_open(f.st, i));
            }
        }
    }
}

proof fn same_blocks(st: ChatStreamV, t: ChatStreamV, p: ProtocolV)
    requires
        in_step(st, p),
        t.started == st.started,
        t.terminal == st.terminal,
        t.next_index == st.next_index,
        t.tool_calls == st.tool_calls,
        (t.channel is Some) == (st.channel is Some),
        t.channel is Some ==> t.channel->0.index == st.channel->0.index,
    ensures
        in_step(t, p),
{
    assert forall|i: usize| #[trigger] p.open.contains(i) <==> is_open(t, i) by {
        assert(is_open(st, i) == is_open(t, i));
    }
    assert forall|i: usize| #[trigger] is_open(t, i) implies i < t.next_index by {
        assert(is_open(st, i));
    }
}

proof fn feeding_channel(p: ProtocolV, f: FlowV, kind: Channel, fragment: Seq<char>)
    requires
        orderly(p, f),
        running(f),
        channel_fed(f, kind, fragment).st.next_index < usize::MAX,
    ensures
        orderly(p, channel_fed(f, kind, fragment)),
        running(channel_fed(f, kind, fragment)),
        channel_fed(f, kind, fragment).st.next_index >= f.st.next_index,
{
    opening(p, f, kind);
    let f1 = channel_opened(f, kind);
    let r = channel_fed(f, kind, fragment);
    if fragment.len() > 0 {
        let q = events_taken(p, f1.events)->0;
        assert(is_open(f1.st, f1.st.channel->0.index));
        taken_one_more(p, f1.events, r.events.last());
        same_blocks(f1.st, r.st, q);
    }
}

proof fn pieces_are_taken(p: ProtocolV, index: usize, pieces: Seq<Seq<char>>, n: nat)
    requires
        !p.stopped,
        p.open.contains(index),
        n <= pieces.len(),
    ensures
        events_taken(p, piece_events(index, pieces.take(n as int))) == Some(p),
    decreases n,
{
    let es = piece_events(index, pieces.take(n as int));
    if n == 0 {
        assert(es.len() == 0);
    } else {
        let m = (n - 1) as nat;
        pieces_are_taken(p, index, pieces, m);
        let prev = piece_events(index, pieces.take(m as int));
        assert(es =~= prev.push(es.last()));
        taken_one_more(p, prev, es.last());
    }
}

proof fn members_keep_block(r: RouteV, kind: PayloadKind, wire: u64, m: ObjV, n: nat)
    ensures
        members_routed(r, kind, wire, m, n).0.call.block_index == r.call.block_index,
    decreases n,
{
    if n > 0 && n <= m.len() {
        members_keep_block(r, kind, wire, m, (n - 1) as nat);
    }
}

proof fn payload_keeps_block(r: RouteV, kind: PayloadKind, wire: u64, payload: Option<JsonV>)
    ensures
        payload_routed(r, kind, wire, payload).call.block_index == r.call.block_index,
{
    match payload {
        Some(JsonV::Object(m)) => {
            members_keep_block(r, kind, wire, m, m.len());
            members_keep_block(
                RouteV { call: CallStateV { kind: Some(kind), ..r.call }, ..r },
                kind,
                wire,
                m,
                m.len(),
            );
        },
        _ => {},
    }
}

/// A fragment never moves a call to another block.
pub proof fn fragments_keep_their_block(s: CallStateV, fragment: JsonV, wire: u64, ws: Seq<ConversionWarningV>)
    ensures
        fragment_routed(s, fragment, wire, ws).call.block_index == s.block_index,
{
    let s1 = match json_as_str(json_get(fragment, "id"@)) {
        Some(id) => CallStateV {
            id: grown(s.id, id),
            ..s
        },
        None => s,
    };
    let (s2, ws2) = type_read(s1, json_get(fragment, "type"@), wire, ws);
    assert(s2.block_index == s.block_index);
    let r0 = RouteV { call: s2, deltas: Seq::empty(), warnings: ws2 };
    payload_keeps_block(r0, PayloadKind::Function, wire, json_get(fragment, "function"@));
    let r1 = payload_routed(r0, PayloadKind::Function, wire, json_get(fragment, "function"@));
    payload_keeps_block(r1, PayloadKind::Custom, wire, json_get(fragment, "custom"@));
}

proof fn feeding_call(p: ProtocolV, f: FlowV, fragment: JsonV, position: nat)
    requires
        orderly(p, f),
        running(f),
        call_fed(f, fragment, position).st.next_index < usize::MAX,
    ensures
        orderly(p, call_fed(f, fragment, position)),
        running(call_fed(f, fragment, position)),
        call_fed(f, fragment, position).st.next_index >= f.st.next_index,
{
    let (wire, ws1) = wire_index(fragment, position, f.warnings);
    let calls = f.st.tool_calls;
    let known = keyed_get(calls, wire);
    let s0 = match known {
        Some(s) => s,
        None => fresh_call(f.st.next_index),
    };
    let route = fragment_routed(s0, fragment, wire, ws1);
    fragments_keep_their_block(s0, fragment, wire, ws1);
    let index = s0.block_index;
    let r = call_fed(f, fragment, position);
    let now = r.st.tool_calls;
    let q0 = events_taken(p, f.events)->0;
    place_from_props(calls, wire, 0);
    let k = place_from(calls, wire, 0);
    let pieces = route.deltas;
    assert(pieces.take(pieces.len() as int) =~= pieces);
    if known is Some {
        assert(calls[k].1.block_index == index);
        assert(has_call(calls, index));
        assert(is_open(f.st, index));
        pieces_are_taken(q0, index, pieces, pieces.len());
        taken_in_turn(p, f.events, piece_events(index, pieces));
        assert forall|i: usize| #[trigger] has_call(now, i) <==> has_call(calls, i) by {
            if has_call(now, i) {
                let j = choose|j: int| 0 <= j < now.len() && (#[trigger] now[j]).1.block_index == i;
                assert(calls[j].1.block_index == i);
            }
            if has_call(calls, i) {
                let j = choose|j: int| 0 <= j < calls.len() && (#[trigger] calls[j]).1.block_index == i;
                assert(now[j].1.block_index == i);
            }
        }
        assert forall|a: int, b: int| 0 <= a < b < now.len() implies (#[trigger] now[a]).1.block_index != (
        #[trigger] now[b]).1.block_index by {
            assert(calls[a].1.block_index != calls[b].1.block_index);
        }
        assert forall|i: usize| #[trigger] q0.open.contains(i) <==> is_open(r.st, i) by {
            assert(is_open(f.st, i) <==> is_open(r.st, i)) by {
                assert(has_call(now, i) <==> has_call(calls, i));
            }
        }
        assert forall|i: usize| #[trigger] is_open(r.st, i) implies i < r.st.next_index by {
            assert(has_call(now, i) <==> has_call(calls, i));
            assert(is_open(f.st, i));
        }
    } else {
        let start = StreamEventV::BlockStart {
            index: route.call.block_index,
            block: ToolCall {
                id: route.call.id,
                name: route.call.name,
                arguments: Seq::empty(),
                cache: None,
                extra: Seq::empty(),
            },
        };
        taken_one_more(p, f.events, start);
        let q1 = events_taken(p, f.events.push(start))->0;
        pieces_are_taken(q1, index, pieces, pieces.len());
        taken_in_turn(p, f.events.push(start), piece_events(index, pieces));
        assert(!is_open(f.st, index)) by {
            if is_open(f.st, index) {
                assert(index < f.st.next_index);
            }
        }
        assert forall|i: usize| #[trigger] has_call(now, i) <==> has_call(calls, i) || i == index by {
            if has_call(now, i) {
                let j = choose|j: int| 0 <= j < now.len() && (#[trigger] now[j]).1.block_index == i;
                if j != k {
                    assert(calls[if j < k { j } else { j - 1 }].1.block_index == i);
                }
            }
            if has_call(calls, i) {
                let j = choose|j: int| 0 <= j < calls.len() && (#[trigger] calls[j]).1.block_index == i;
                assert(now[if j < k { j } else { j + 1 }].1.block_index == i);
            }
            if i == index {
                assert(now[k].1.block_index == i);
            }
        }
        assert forall|a: int, b: int| 0 <= a < b < now.len() implies (#[trigger] now[a]).1.block_index != (
        #[trigger] now[b]).1.block_index by {
            let ca = if a < k { a } else { a - 1 };
            let cb = if b < k { b } else { b - 1 };
            if a == k {
                assert(has_call(calls, calls[cb].1.block_index));
                assert(now[b] == calls[cb]);
            } else if b == k {
                assert(has_call(calls, calls[ca].1.block_index));
                assert(now[a] == calls[ca]);
            } else {
                assert(now[a] == calls[ca] && now[b] == calls[cb]);
            }
        }
        assert forall|i: usize| #[trigger] q1.open.contains(i) <==> is_open(r.st, i) by {
            assert(has_call(now, i) <==> has_call(calls, i) || i == index);
            assert(q0.open.contains(i) <==> is_open(f.st, i));
        }
        assert forall|i: usize| #[trigger] is_open(r.st, i) implies i < r.st.next_index by {
            assert(has_call(now, i) <==> has_call(calls, i) || i == index);
            if i != index {
                assert(is_open(f.st, i));
            }
        }
        if r.st.channel is Some {
            assert(has_call(now, r.st.channel->0.index) <==> has_call(calls, r.st.channel->0.index)
                || r.st.channel->0.index == index);
            assert(is_open(f.st, f.st.channel->0.index));
        }
    }
}

proof fn feeding_calls(p: ProtocolV, f: FlowV, a: Seq<JsonV>, n: nat)
    requires
        orderly(p, f),
        running(f),
        n <= a.len(),
        calls_fed(f, a, n).st.next_index < usize::MAX,
    ensures
        orderly(p, calls_fed(f, a, n)),
        running(calls_fed(f, a, n)),
        calls_fed(f, a, n).st.next_index >= f.st.next_index,
    decreases n,
{
    if n > 0 {
        let q = (n - 1) as nat;
        assert(calls_fed(f, a, q).st.next_index <= calls_fed(f, a, n).st.next_index);
        feeding_calls(p, f, a, q);
        feeding_call(p, calls_fed(f, a, q), a[q as int], q);
    }
}

proof fn calls_count_up(f: FlowV, a: Seq<JsonV>, n: nat)
    requires
        n <= a.len(),
    ensures
        calls_fed(f, a, n).st.next_index >= f.st.next_index,
    decreases n,
{
    if n > 0 {
        calls_count_up(f, a, (n - 1) as nat);
    }
}

proof fn feeding_leftover(p: ProtocolV, f: FlowV, o: ObjV)
    requires
        orderly(p, f),
        running(f),
    ensures
        orderly(p, leftover_fed(f, o)),
        running(leftover_fed(f, o)),
        leftover_fed(f, o).st.next_index == f.st.next_index,
{
    let r = leftover_fed(f, o);
    if o.len() > 0 {
        let q = events_taken(p, f.events)->0;
        if f.st.channel is Some {
            assert(is_open(f.st, f.st.channel->0.index));
        }
        taken_one_more(p, f.events, r.events.last());
        same_blocks(f.st, r.st, q);
    }
}

proof fn feeding_text(p: ProtocolV, f: FlowV, v: Option<JsonV>, kind: Channel)
    requires
        orderly(p, f),
        running(f),
        text_fed(f, v, kind).st.next_index < usize::MAX,
    ensures
        orderly(p, text_fed(f, v, kind)),
        running(text_fed(f, v, kind)),
{
    match json_as_str(v) {
        Some(s) => {
            feeding_channel(p, f, kind, s);
        },
        None => {},
    }
}

proof fn feeding_thinking(p: ProtocolV, f: FlowV, v: Option<JsonV>)
    requires
        orderly(p, f),
        running(f),
        thinking_fed(f, v).st.next_index < usize::MAX,
    ensures
        orderly(p, thinking_fed(f, v)),
        running(thinking_fed(f, v)),
{
    match v {
        Some(JsonV::Str(s)) => {
            feeding_channel(p, f, Channel::Reasoning, s);
        },
        _ => {},
    }
}

proof fn feeding_delta(p: ProtocolV, f: FlowV, delta: JsonV)
    requires
        orderly(p, f),
        running(f),
        delta_fed(f, delta).st.next_index < usize::MAX,
    ensures
        orderly(p, delta_fed(f, delta)),
        running(delta_fed(f, delta)),
{
    let f1 = thinking_fed(f, json_get(delta, f.st.reasoning_field));
    let f2 = text_fed(f1, json_get(delta, "content"@), Channel::Content);
    let f3 = text_fed(f2, json_get(delta, "refusal"@), Channel::Refusal);
    let calls = json_as_array(json_get(delta, "tool_calls"@));
    let f4 = match calls {
        Some(a) => calls_fed(f3, a, a.len()),
        None => f3,
    };
    if calls is Some {
        calls_count_up(f3, calls->0, calls->0.len());
    }
    assert(f2.st.next_index <= f3.st.next_index);
    assert(f1.st.next_index <= f2.st.next_index);
    let r = leftover_fed(f4, unknown_fields(delta, f.st.reasoning_field));
    assert(r.st.next_index == f4.st.next_index);
    feeding_thinking(p, f, json_get(delta, f.st.reasoning_field));
    feeding_text(p, f1, json_get(delta, "content"@), Channel::Content);
    feeding_text(p, f2, json_get(delta, "refusal"@), Channel::Refusal);
    if calls is Some {
        feeding_calls(p, f3, calls->0, calls->0.len());
    }
    feeding_leftover(p, f4, unknown_fields(delta, f.st.reasoning_field));
}

proof fn delta_counts_up(f: FlowV, delta: JsonV)
    ensures
        delta_fed(f, delta).st.next_index >= f.st.next_index,
{
    let f1 = thinking_fed(f, json_get(delta, f.st.reasoning_field));
    let f2 = text_fed(f1, json_get(delta, "content"@), Channel::Content);
    let f3 = text_fed(f2, json_get(delta, "refusal"@), Channel::Refusal);
    match json_as_array(json_get(delta, "tool_calls"@)) {
        Some(a) => {
            calls_count_up(f3, a, a.len());
        },
        None => {},
    }
}

proof fn feeding_choices(p: ProtocolV, f: FlowV, a: Seq<JsonV>, n: nat)
    requires
        orderly(p, f),
        running(f),
        n <= a.len(),
        choices_fed(f, a, n).0.st.next_index < usize::MAX,
    ensures
        orderly(p, choices_fed(f, a, n).0),
        running(choices_fed(f, a, n).0),
    decreases n,
{
    if n > 0 {
        let q = (n - 1) as nat;
        let prev = choices_fed(f, a, q);
        let choice = a[q as int];
        if choice_index(choice, q) != 0 {
            feeding_choices(p, f, a, q);
            let g = prev.0;
            taken_one_more(p, g.events, StreamEventV::Unknown);
            same_blocks(g.st, other_choice(g).st, events_taken(p, g.events)->0);
        } else {
            match json_get(choice, "delta"@) {
                Some(d) => {
                    delta_counts_up(prev.0, d);
                    feeding_choices(p, f, a, q);
                    feeding_delta(p, prev.0, d);
                },
                None => {
                    feeding_choices(p, f, a, q);
                },
            }
        }
    }
}

proof fn ending_delta(p: ProtocolV, f: FlowV, finish: Option<Seq<char>>, usage: Option<UsageV>)
    requires
        orderly(p, f),
        running(f),
    ensures
        orderly(p, message_delta(f, finish, usage)),
        running(message_delta(f, finish, usage)),
        message_delta(f, finish, usage).st.next_index == f.st.next_index,
{
    let r = message_delta(f, finish, usage);
    if finish is Some {
        closing(p, f);
        taken_one_more(p, all_closed(f).events, r.events.last());
    } else if usage is Some {
        taken_one_more(p, f.events, r.events.last());
    }
}

proof fn starting(p: ProtocolV, f: FlowV, chunk: Option<JsonV>)
    requires
        orderly(p, f),
        !f.st.terminal,
    ensures
        orderly(p, message_started(f, chunk)),
        running(message_started(f, chunk)),
        message_started(f, chunk).st.next_index == f.st.next_index,
{
    let r = message_started(f, chunk);
    if !f.st.started {
        taken_one_more(p, f.events, r.events.last());
        let q = events_taken(p, f.events)->0;
        let q1 = events_taken(p, r.events)->0;
        assert forall|i: usize| #[trigger] q1.open.contains(i) <==> is_open(r.st, i) by {
            assert(q.open.contains(i) <==> is_open(f.st, i));
        }
        assert forall|i: usize| #[trigger] is_open(r.st, i) implies i < r.st.next_index by {
            assert(is_open(f.st, i));
        }
    }
}

proof fn feeding_chunk(p: ProtocolV, f: FlowV, chunk: JsonV)
    requires
        orderly(p, f),
        !f.st.terminal,
        chunk_fed(f, chunk).st.next_index < usize::MAX,
    ensures
        orderly(p, chunk_fed(f, chunk)),
        !chunk_fed(f, chunk).st.terminal,
{
    starting(p, f, Some(chunk));
    let f1 = message_started(f, Some(chunk));
    let choices = json_as_array(json_get(chunk, "choices"@));
    let (f2, finish) = match choices {
        Some(a) => choices_fed(f1, a, a.len()),
        None => (f1, None),
    };
    let usage = match json_get(chunk, "usage"@) {
        Some(u) => usage_value(u),
        None => None,
    };
    assert(message_delta(f2, finish, usage).st.next_index == f2.st.next_index);
    if choices is Some {
        feeding_choices(p, f1, choices->0, choices->0.len());
    }
    ending_delta(p, f2, finish, usage);
}

/// Every event of the parser is in order: the message starts once and first,
/// blocks are numbered as they start, grow and stop while they are open, the
/// message stops when every block has stopped, and then only unknown events
/// come. This holds as long as block numbers do not run out.
pub proof fn events_are_in_order(st: ChatStreamV, p: ProtocolV, ev: SseEventV)
    requires
        in_step(st, p),
        chat_step(st, ev) is Ok,
        chat_step(st, ev)->Ok_0.2.next_index < usize::MAX,
    ensures
        match events_taken(p, chat_step(st, ev)->Ok_0.0) {
            Some(q) => in_step(chat_step(st, ev)->Ok_0.2, q),
            None => false,
        },
{
    let (es, ws, st1) = chat_step(st, ev)->Ok_0;
    let f = flow_start(st);
    assert(orderly(p, f));
    if es == seq![StreamEventV::Unknown] {
        taken_one_more(p, Seq::empty(), StreamEventV::Unknown);
        assert(es =~= Seq::<StreamEventV>::empty().push(StreamEventV::Unknown));
    }
    if !st.terminal {
        if trimmed(ev.data) == "[DONE]"@ {
            starting(p, f, None);
            let g = message_started(f, None);
            closing(p, g);
            let c = all_closed(g);
            taken_one_more(p, c.events, StreamEventV::MessageStop);
            let r = done_fed(f);
            assert forall|i: usize| !(#[trigger] is_open(r.st, i)) by {}
        } else {
            match json_from_str(ev.data) {
                Ok(chunk) => {
                    feeding_chunk(p, f, chunk);
                },
                Err(_) => {},
            }
        }
    }
}

/// A fresh parser stands where no event has come.
pub proof fn fresh_parser_is_in_step(reasoning_field: Seq<char>)
    ensures
        in_step(fresh_stream(reasoning_field), protocol_start()),
{
    let st = fresh_stream(reasoning_field);
    assert forall|i: usize| !(#[trigger] is_open(st, i)) by {}
}

/// Once terminated, a parser never fails and never changes: whatever comes is
/// an unknown event with one warning.
pub proof fn terminated_stream_stays_complete(st: ChatStreamV, ev: SseEventV)
    requires
        st.terminal,
        valid_reasoning_field(st.reasoning_field),
    ensures
        chat_step(st, ev) is Ok,
        chat_step(st, ev)->Ok_0.0 == seq![StreamEventV::Unknown],
        chat_step(st, ev)->Ok_0.1.len() == 1,
        chat_step(st, ev)->Ok_0.2 == st,
        chat_finish(st) is Ok,
{
}

/// A stream that never showed its terminator is an error at its end, never a
/// complete response, and the end itself adds no event.
pub proof fn truncated_stream_is_an_error(st: ChatStreamV)
    ensures
        !st.terminal ==> chat_finish(st) is Err,
        st.terminal ==> chat_finish(st) is Ok && chat_finish(st)->Ok_0.0.len() == 0,
{
}

proof fn calls_never_terminate(f: FlowV, a: Seq<JsonV>, n: nat)
    ensures
        calls_fed(f, a, n).st.terminal == f.st.terminal,
    decreases n,
{
    if n > 0 && n <= a.len() {
        calls_never_terminate(f, a, (n - 1) as nat);
    }
}

proof fn choices_never_terminate(f: FlowV, a: Seq<JsonV>, n: nat)
    ensures
        choices_fed(f, a, n).0.st.terminal == f.st.terminal,
    decreases n,
{
    if n > 0 && n <= a.len() {
        choices_never_terminate(f, a, (n - 1) as nat);
        let g = choices_fed(f, a, (n - 1) as nat).0;
        match json_get(a[n - 1], "delta"@) {
            Some(delta) => {
                let f1 = thinking_fed(g, json_get(delta, g.st.reasoning_field));
                let f2 = text_fed(f1, json_get(delta, "content"@), Channel::Content);
                let f3 = text_fed(f2, json_get(delta, "refusal"@), Channel::Refusal);
                match json_as_array(json_get(delta, "tool_calls"@)) {
                    Some(c) => {
                        calls_never_terminate(f3, c, c.len());
                    },
                    None => {},
                }
            },
            None => {},
        }
    }
}

/// The parser after the first `n` events, where it could read them all.
pub open spec fn chat_after(st: ChatStreamV, events: Seq<SseEventV>, n: nat) -> Option<ChatStreamV>
    decreases n,
{
    if n == 0 || n > events.len() {
        Some(st)
    } else {
        match chat_after(st, events, (n - 1) as nat) {
            Some(p) => match chat_step(p, events[n - 1]) {
                Ok((_, _, q)) => Some(q),
                Err(_) => None,
            },
            None => None,
        }
    }
}

/// The terminator is among the first `n` events.
pub open spec fn done_among(events: Seq<SseEventV>, n: nat) -> bool {
    exists|i: int| 0 <= i < n && trimmed((#[trigger] events[i]).data) == "[DONE]"@
}

/// A stream is complete exactly when its `[DONE]` was parsed: the parser of a
/// stream finishes well if and only if one of the events it read was that.
pub proof fn complete_iff_done_was_parsed(reasoning_field: Seq<char>, events: Seq<SseEventV>, n: nat)
    requires
        n <= events.len(),
        chat_after(fresh_stream(reasoning_field), events, n) is Some,
    ensures
        chat_finish(chat_after(fresh_stream(reasoning_field), events, n)->0) is Ok <==> done_among(events, n),
    decreases n,
{
    let st = fresh_stream(reasoning_field);
    if n > 0 {
        complete_iff_done_was_parsed(reasoning_field, events, (n - 1) as nat);
        let p = chat_after(st, events, (n - 1) as nat)->0;
        let ev = events[n - 1];
        let q = chat_after(st, events, n)->0;
        if p.terminal {
            let i = choose|i: int| 0 <= i < n - 1 && trimmed((#[trigger] events[i]).data) == "[DONE]"@;
            assert(trimmed(events[i].data) == "[DONE]"@);
        } else if trimmed(ev.data) == "[DONE]"@ {
            assert(q.terminal);
        } else {
            match json_from_str(ev.data) {
                Ok(chunk) => {
                    let f1 = message_started(flow_start(p), Some(chunk));
                    match json_as_array(json_get(chunk, "choices"@)) {
                        Some(a) => {
                            choices_never_terminate(f1, a, a.len());
                        },
                        None => {},
                    }
                },
                Err(_) => {},
            }
            assert(!q.terminal);
        }
    }
}

} // verus!
