//! Laws: the fragments of a stream are passed on as they come, and show what
//! the stops carry.

use vstd::prelude::*;
use crate::error::ErrorV;
use crate::accumulate::{about, event_added, events_added, grown_block, other_blocks_stay, AccumulatorV};
use crate::formats::anthropic_messages::stream::{anthropic_step, blocks_grow_while_they_are_open, delta_applied, event_name, fresh_stream, no_warnings, opened, AnthropicStreamV, OpenBlockV};
use crate::formats::anthropic_messages::types::{decode_content_block_delta_event, decode_content_block_start_event};
use crate::ir::{BlockDeltaV, ContentBlockV, SseEventV, StreamEventV};
use crate::json::{json_as_str, json_as_u64, json_get, JsonV};
use crate::shown::{agrees, one_more_agrees, or_empty, stops_agree, stretches_agree};
use crate::stream::{keyed_get, keyed_get_after_set, removed_slot_is_empty, set_slot_is_read, slot_from, slot_get, slot_index, slot_set, slots_differ};
use crate::text::decimal;
use crate::value::json_from_str;

verus! {

/// The block shows what the open block has come to.
pub open spec fn shows(held: Option<ContentBlockV>, open: OpenBlockV) -> bool {
    match (held, open) {
        (Some(ContentBlockV::Text { text: t, .. }), OpenBlockV::Text { text, .. }) => t == text,
        (Some(ContentBlockV::Thinking { text: t, signature: s, .. }), OpenBlockV::Thinking { text, signature, .. }) => {
            t == Some(text) && or_empty(s) == signature
        },
        (Some(ContentBlockV::Thinking { text: t, signature: s, .. }), OpenBlockV::RedactedThinking { data, .. }) => {
            t is None && s == Some(data)
        },
        (
            Some(ContentBlockV::ToolCall { id: i, name: n, arguments, .. }),
            OpenBlockV::ToolUse { id, name, json, .. },
        ) => i == Some(id) && n == name && arguments == json,
        (Some(ContentBlockV::Opaque { .. }), OpenBlockV::Opaque { .. }) => true,
        _ => false,
    }
}

/// Every open block is shown by what has arrived.
pub open spec fn shown(st: AnthropicStreamV, a: AccumulatorV) -> bool {
    &&& slots_differ(st.blocks)
    &&& forall|i: int|
        0 <= i < st.blocks.len() ==> shows(keyed_get(a.blocks, (#[trigger] st.blocks[i]).0), st.blocks[i].1)
        && st.blocks[i].0 <= usize::MAX
}

proof fn names_of_events()
    ensures
        "content_block_delta"@ != "ping"@,
        "content_block_delta"@ != "message_start"@,
        "content_block_delta"@ != "content_block_start"@,
{
    reveal_strlit("ping");
    reveal_strlit("message_start");
    reveal_strlit("content_block_start");
    reveal_strlit("content_block_delta");
    assert("content_block_delta"@.len() == 19 && "content_block_start"@.len() == 19 && "ping"@.len() == 4
        && "message_start"@.len() == 13);
    assert("content_block_delta"@[14] == 'd' && "content_block_start"@[14] == 's');
}

proof fn names_of_deltas()
    ensures
        "text_delta"@.len() == 10,
        "thinking_delta"@.len() == 14,
        "signature_delta"@.len() == 15,
        "input_json_delta"@.len() == 16,
        "citations_delta"@.len() == 15,
        "compaction_delta"@.len() == 16,
        "signature_delta"@ != "citations_delta"@,
        "input_json_delta"@ != "compaction_delta"@,
{
    reveal_strlit("text_delta");
    reveal_strlit("thinking_delta");
    reveal_strlit("signature_delta");
    reveal_strlit("input_json_delta");
    reveal_strlit("citations_delta");
    reveal_strlit("compaction_delta");
    assert("signature_delta"@[0] == 's' && "citations_delta"@[0] == 'c');
    assert("input_json_delta"@[0] == 'i' && "compaction_delta"@[0] == 'c');
}

/// The text under a name of a delta.
pub open spec fn text_under(delta: JsonV, k: Seq<char>) -> Seq<char> {
    or_empty(json_as_str(json_get(delta, k)))
}

/// A fragment on an open block is passed on as it came, alone and under the
/// index of its block: text as text, thinking as thinking, signatures and
/// partial arguments as such. What does not fit the block is refused.
pub proof fn fragment_is_passed_on(st: AnthropicStreamV, ev: SseEventV, j: JsonV, index: u64, delta: JsonV)
    requires
        !st.terminated,
        json_from_str(ev.data) == Ok::<JsonV, Seq<char>>(j),
        event_name(ev.event, j) == "content_block_delta"@,
        json_as_u64(json_get(j, "index"@)) == Some(index),
        index <= usize::MAX,
        json_get(j, "delta"@) == Some(delta),
        slot_get(st.blocks, index) is Some,
    ensures
        ({
            let kind = text_under(delta, "type"@);
            let r = anthropic_step(st, ev);
            let one = |d: BlockDeltaV| seq![StreamEventV::BlockDelta { index: index as usize, delta: d }];
            &&& kind == "text_delta"@ ==> match slot_get(st.blocks, index)->0 {
                OpenBlockV::Text { .. } => r is Ok && r->Ok_0.0 == one(BlockDeltaV::Text(text_under(delta, "text"@))),
                _ => r is Err,
            }
            &&& kind == "thinking_delta"@ ==> match slot_get(st.blocks, index)->0 {
                OpenBlockV::Thinking { .. } => r is Ok && r->Ok_0.0 == one(
                    BlockDeltaV::Thinking(text_under(delta, "thinking"@)),
                ),
                _ => r is Err,
            }
            &&& kind == "signature_delta"@ ==> match slot_get(st.blocks, index)->0 {
                OpenBlockV::Thinking { .. } => r is Ok && r->Ok_0.0 == one(
                    BlockDeltaV::Signature(text_under(delta, "signature"@)),
                ),
                _ => r is Err,
            }
            &&& kind == "input_json_delta"@ ==> match slot_get(st.blocks, index)->0 {
                OpenBlockV::ToolUse { .. } => r is Ok && r->Ok_0.0 == one(
                    BlockDeltaV::ToolArguments(text_under(delta, "partial_json"@)),
                ),
                OpenBlockV::Opaque { .. } => r is Ok && r->Ok_0.0 == one(BlockDeltaV::Other(delta)),
                _ => r is Err,
            }
        }),
{
    names_of_events();
    names_of_deltas();
}

proof fn start_is_shown(st: AnthropicStreamV, a: AccumulatorV, ev: SseEventV)
    requires
        shown(st, a),
        anthropic_step(st, ev) is Ok,
        anthropic_step(st, ev)->Ok_0.0.len() == 1,
        anthropic_step(st, ev)->Ok_0.0[0] is BlockStart,
    ensures
        ({
            let (es, ws, st1) = anthropic_step(st, ev)->Ok_0;
            &&& events_added(a, es) is Ok
            &&& shown(st1, events_added(a, es)->Ok_0)
        }),
{
    let (es, ws, st1) = anthropic_step(st, ev)->Ok_0;
    let e = es[0];
    let index = e->BlockStart_index as u64;
    let b = one_event(a, es);
    let j = json_from_str(ev.data)->Ok_0;
    let start = decode_content_block_start_event(j)->Ok_0;
    let loc = "/content_block_start/"@ + decimal(start.index as nat);
    let open = opened(start.content_block, loc, no_warnings()).0;
    set_slot_is_read(st.blocks, index, open);
    if let OpenBlockV::Thinking { signature, .. } = open {
        assert(signature.len() == 0 ==> signature =~= Seq::<char>::empty());
    }
    keyed_get_after_set(a.blocks, index, e->BlockStart_block);
    blocks_after_set(st, a, b, e, e->BlockStart_index, st1, open);
}

/// What one event adds.
proof fn one_event(a: AccumulatorV, es: Seq<StreamEventV>) -> (b: AccumulatorV)
    requires
        es.len() == 1,
    ensures
        events_added(a, es) == event_added(a, es[0]),
        event_added(a, es[0]) is Ok ==> b == event_added(a, es[0])->Ok_0,
{
    let none = Seq::<StreamEventV>::empty();
    assert(es.drop_last() =~= none);
    assert(events_added(a, none) == Ok::<AccumulatorV, ErrorV>(a));
    event_added(a, es[0])->Ok_0
}

proof fn blocks_after_set(
    st: AnthropicStreamV,
    a: AccumulatorV,
    b: AccumulatorV,
    e: StreamEventV,
    index: usize,
    st1: AnthropicStreamV,
    open: OpenBlockV,
)
    requires
        shown(st, a),
        about(e) == Some(index),
        event_added(a, e) == Ok::<AccumulatorV, ErrorV>(b),
        st1.blocks == slot_set(st.blocks, index as u64, open),
        slots_differ(st1.blocks),
        shows(keyed_get(b.blocks, index as u64), open),
    ensures
        shown(st1, b),
{
    assert forall|i: int| 0 <= i < st1.blocks.len() implies shows(
        keyed_get(b.blocks, (#[trigger] st1.blocks[i]).0),
        st1.blocks[i].1,
    ) && st1.blocks[i].0 <= usize::MAX by {
        let k = st1.blocks[i].0;
        if k == index as u64 {
            let at = slot_index(st.blocks, index as u64);
            let place = if 0 <= at < st.blocks.len() { at } else { st.blocks.len() as int };
            assert(st1.blocks[place] == (index as u64, open));
            if i != place {
                if i < place {
                    assert(st1.blocks[i].0 != st1.blocks[place].0);
                } else {
                    assert(st1.blocks[place].0 != st1.blocks[i].0);
                }
            }
        } else {
            assert(st1.blocks[i] == st.blocks[i]);
            assert(shows(keyed_get(a.blocks, st.blocks[i].0), st.blocks[i].1));
            other_blocks_stay(a, e, k as usize);
        }
    }
}

proof fn delta_is_shown(st: AnthropicStreamV, a: AccumulatorV, ev: SseEventV)
    requires
        shown(st, a),
        anthropic_step(st, ev) is Ok,
        anthropic_step(st, ev)->Ok_0.0.len() == 1,
        anthropic_step(st, ev)->Ok_0.0[0] is BlockDelta,
    ensures
        ({
            let (es, ws, st1) = anthropic_step(st, ev)->Ok_0;
            &&& events_added(a, es) is Ok
            &&& shown(st1, events_added(a, es)->Ok_0)
        }),
{
    let (es, ws, st1) = anthropic_step(st, ev)->Ok_0;
    let e = es[0];
    let index = e->BlockDelta_index as u64;
    let at = slot_index(st.blocks, index);
    slot_is_there(st.blocks, index);
    assert(shows(keyed_get(a.blocks, st.blocks[at].0), st.blocks[at].1));
    let b = one_event(a, es);
    let j = json_from_str(ev.data)->Ok_0;
    let delta = decode_content_block_delta_event(j)->Ok_0;
    let open = delta_applied(st.blocks[at].1, delta.index, delta.delta, ev.data, no_warnings())->Ok_0.1;
    set_slot_is_read(st.blocks, index, open);
    let held = keyed_get(a.blocks, index)->0;
    let grown = grown_block(held, e->BlockDelta_delta);
    keyed_get_after_set(a.blocks, index, grown);
    let none = Seq::<char>::empty();
    if let BlockDeltaV::Signature(s) = e->BlockDelta_delta {
        assert(none + s =~= s);
    }
    blocks_after_set(st, a, b, e, e->BlockDelta_index, st1, open);
}

proof fn slot_is_there(s: Seq<(u64, OpenBlockV)>, k: u64)
    requires
        slot_get(s, k) is Some,
    ensures
        0 <= slot_index(s, k) < s.len(),
        s[slot_index(s, k)] == (k, slot_get(s, k)->0),
{
    place_of_slot(s, k, 0);
}

proof fn place_of_slot(s: Seq<(u64, OpenBlockV)>, k: u64, i: int)
    requires
        0 <= i <= s.len(),
    ensures
        i <= slot_from(s, k, i) <= s.len(),
        slot_from(s, k, i) < s.len() ==> s[slot_from(s, k, i)].0 == k,
    decreases s.len() - i,
{
    if i < s.len() && s[i].0 != k {
        place_of_slot(s, k, i + 1);
    }
}

proof fn stop_is_shown(st: AnthropicStreamV, a: AccumulatorV, ev: SseEventV)
    requires
        shown(st, a),
        anthropic_step(st, ev) is Ok,
        anthropic_step(st, ev)->Ok_0.0.len() == 1,
        anthropic_step(st, ev)->Ok_0.0[0] is BlockStop,
    ensures
        ({
            let (es, ws, st1) = anthropic_step(st, ev)->Ok_0;
            let e = es[0];
            let held = keyed_get(a.blocks, e->BlockStop_index as u64);
            &&& events_added(a, es) is Ok
            &&& shown(st1, events_added(a, es)->Ok_0)
            &&& e->BlockStop_block is Some
            &&& held is Some
            &&& agrees(held->0, e->BlockStop_block->0)
        }),
{
    let (es, ws, st1) = anthropic_step(st, ev)->Ok_0;
    let e = es[0];
    let index = e->BlockStop_index as u64;
    let at = slot_index(st.blocks, index);
    slot_is_there(st.blocks, index);
    assert(shows(keyed_get(a.blocks, st.blocks[at].0), st.blocks[at].1));
    let b = one_event(a, es);
    if let OpenBlockV::Thinking { signature, .. } = st.blocks[at].1 {
        assert(signature.len() == 0 ==> signature =~= Seq::<char>::empty());
    }
    assert forall|i: int| 0 <= i < st1.blocks.len() implies shows(
        keyed_get(b.blocks, (#[trigger] st1.blocks[i]).0),
        st1.blocks[i].1,
    ) && st1.blocks[i].0 <= usize::MAX by {
        let k = if i < at { i } else { i + 1 };
        assert(st1.blocks[i] == st.blocks[k]);
        assert(shows(keyed_get(a.blocks, st.blocks[k].0), st.blocks[k].1));
        if k < at {
            assert(st.blocks[k].0 != st.blocks[at].0);
        } else {
            assert(st.blocks[at].0 != st.blocks[k].0);
        }
        other_blocks_stay(a, e, st.blocks[k].0 as usize);
    }
    removed_slot_is_empty(st.blocks, index);
}

/// An event adds to what has arrived, and what has arrived goes on showing every
/// open block; a stop carries what was shown.
pub proof fn event_keeps_blocks_shown(st: AnthropicStreamV, a: AccumulatorV, ev: SseEventV)
    requires
        shown(st, a),
        anthropic_step(st, ev) is Ok,
    ensures
        ({
            let (es, ws, st1) = anthropic_step(st, ev)->Ok_0;
            &&& events_added(a, es) is Ok
            &&& shown(st1, events_added(a, es)->Ok_0)
            &&& stops_agree(a, es)
        }),
{
    let (es, ws, st1) = anthropic_step(st, ev)->Ok_0;
    blocks_grow_while_they_are_open(st, ev);
    let none = Seq::<StreamEventV>::empty();
    assert(events_added(a, none) == Ok::<AccumulatorV, ErrorV>(a));
    assert(stops_agree(a, none));
    if es.len() == 0 {
        assert(es =~= none);
        quiet_events_keep_blocks(st, ev);
    } else {
        assert(es =~= none.push(es[0]));
        match es[0] {
            StreamEventV::BlockStart { .. } => {
                start_is_shown(st, a, ev);
            },
            StreamEventV::BlockDelta { .. } => {
                delta_is_shown(st, a, ev);
            },
            StreamEventV::BlockStop { .. } => {
                stop_is_shown(st, a, ev);
            },
            _ => {
                let b = one_event(a, es);
                assert(b.blocks == a.blocks);
            },
        }
        one_more_agrees(a, none, es[0]);
    }
}

proof fn quiet_events_keep_blocks(st: AnthropicStreamV, ev: SseEventV)
    requires
        anthropic_step(st, ev) is Ok,
        anthropic_step(st, ev)->Ok_0.0.len() == 0,
    ensures
        anthropic_step(st, ev)->Ok_0.2.blocks == st.blocks,
{
}

/// The events of a whole stream, and the state behind it; nothing when some
/// event is refused.
pub open spec fn stream_read(st: AnthropicStreamV, evs: Seq<SseEventV>) -> Option<(Seq<StreamEventV>, AnthropicStreamV)>
    decreases evs.len(),
{
    if evs.len() == 0 {
        Some((Seq::empty(), st))
    } else {
        match stream_read(st, evs.drop_last()) {
            None => None,
            Some((es, now)) => match anthropic_step(now, evs.last()) {
                Err(_) => None,
                Ok((more, ws, next)) => Some((es + more, next)),
            },
        }
    }
}

/// Over a whole stream, the start of a block grown by all fragments of the block
/// is what its stop carries: a caller that shows the fragments as they come has
/// shown exactly the finished block.
pub proof fn fragments_show_what_the_stop_carries(a: AccumulatorV, evs: Seq<SseEventV>)
    requires
        stream_read(fresh_stream(), evs) is Some,
    ensures
        ({
            let (es, st) = stream_read(fresh_stream(), evs)->0;
            &&& events_added(a, es) is Ok
            &&& shown(st, events_added(a, es)->Ok_0)
            &&& stops_agree(a, es)
        }),
    decreases evs.len(),
{
    if evs.len() > 0 {
        fragments_show_what_the_stop_carries(a, evs.drop_last());
        let (es, now) = stream_read(fresh_stream(), evs.drop_last())->0;
        let b = events_added(a, es)->Ok_0;
        event_keeps_blocks_shown(now, b, evs.last());
        let more = anthropic_step(now, evs.last())->Ok_0.0;
        stretches_agree(a, es, more, more.len());
        assert(more.take(more.len() as int) =~= more);
    }
}

} // verus!
