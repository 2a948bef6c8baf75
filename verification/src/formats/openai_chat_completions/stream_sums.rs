//! Law: the text of a stream adds up to the message that a whole response
//! would have carried.

use vstd::prelude::*;
use crate::accumulate::{added_one_more, block_list, events_added, grown_block, AccumulatorV};
use crate::error::ErrorV;
use crate::formats::openai_chat_completions::parse_messages::assistant_fields;
use crate::formats::openai_chat_completions::parse_parts::refusal_block;
use crate::formats::openai_chat_completions::stream::{all_closed, bumped, call_stops, channel_fed, channel_opened, channel_start, channel_stops, flow_start, stop_events, stops_ordered, Channel, ChannelV, ChatStreamV, FlowV};
use crate::formats::openai_chat_completions::types;
use crate::ir::BlockDeltaV::{Text, Thinking};
use crate::ir::{text_block, thinking_block, ContentBlockV, StreamEventV};
use crate::json::JsonV;
use crate::stream::{keyed_get, keyed_get_after_set, keyed_set, keyed_set_twice, place_from};
use crate::text::fragments_joined;

verus! {

/// The first `n` fragments were fed to a channel.
pub open spec fn fragments_fed(f: FlowV, kind: Channel, fragments: Seq<Seq<char>>, n: nat) -> FlowV
    decreases n,
{
    if n == 0 || n > fragments.len() {
        f
    } else {
        channel_fed(fragments_fed(f, kind, fragments, (n - 1) as nat), kind, fragments[n - 1])
    }
}

/// The block of a channel with this text.
pub open spec fn channel_total(kind: Channel, text: Seq<char>) -> ContentBlockV {
    match kind {
        Channel::Content => text_block(text),
        Channel::Reasoning => thinking_block(text),
        Channel::Refusal => refusal_block(text, Seq::empty()),
    }
}

/// No fragment is empty.
pub open spec fn real_fragments(fragments: Seq<Seq<char>>) -> bool {
    forall|i: int| 0 <= i < fragments.len() ==> (#[trigger] fragments[i]).len() > 0
}

/// The stream holds text alone so far, and what its events add up to is known.
spec fn text_only(f: FlowV, a0: AccumulatorV, a: AccumulatorV) -> bool {
    &&& f.st.tool_calls.len() == 0
    &&& events_added(a0, f.events) == Ok::<AccumulatorV, ErrorV>(a)
    &&& match f.st.channel {
        Some(c) => c.leftover.len() == 0 && keyed_get(a.blocks, c.index as u64) is Some,
        None => true,
    }
}

/// The event of a fragment.
spec fn fragment_event(kind: Channel, index: usize, fragment: Seq<char>) -> StreamEventV {
    StreamEventV::BlockDelta {
        index,
        delta: if kind == Channel::Reasoning {
            Thinking(fragment)
        } else {
            Text(fragment)
        },
    }
}

proof fn channel_is_opened(f: FlowV, kind: Channel, a0: AccumulatorV, a: AccumulatorV)
    requires
        text_only(f, a0, a),
        f.st.channel is Some ==> f.st.channel->0.kind != kind,
    ensures
        events_added(a0, channel_opened(f, kind).events) == Ok::<AccumulatorV, ErrorV>(
            AccumulatorV { blocks: keyed_set(a.blocks, f.st.next_index as u64, channel_start(kind)), ..a },
        ),
{
    let r = channel_opened(f, kind);
    let e1 = match f.st.channel {
        Some(c) => f.events.push(StreamEventV::BlockStop { index: c.index, block: None }),
        None => f.events,
    };
    if f.st.channel is Some {
        added_one_more(a0, f.events, StreamEventV::BlockStop { index: f.st.channel->0.index, block: None });
    }
    added_one_more(a0, e1, r.events.last());
}

proof fn fragment_is_added(
    events: Seq<StreamEventV>,
    kind: Channel,
    index: usize,
    text: Option<Seq<char>>,
    block: ContentBlockV,
    fragment: Seq<char>,
    a0: AccumulatorV,
    a: AccumulatorV,
)
    requires
        events_added(a0, events) == Ok::<AccumulatorV, ErrorV>(
            AccumulatorV { blocks: keyed_set(a.blocks, index as u64, block), ..a },
        ),
        match text {
            Some(t) => block == channel_total(kind, t),
            None => block == channel_start(kind),
        },
    ensures
        events_added(a0, events.push(fragment_event(kind, index, fragment))) == Ok::<AccumulatorV, ErrorV>(
            AccumulatorV {
                blocks: keyed_set(
                    a.blocks,
                    index as u64,
                    channel_total(
                        kind,
                        match text {
                            Some(t) => t + fragment,
                            None => fragment,
                        },
                    ),
                ),
                ..a
            },
        ),
{
    let e = fragment_event(kind, index, fragment);
    added_one_more(a0, events, e);
    keyed_get_after_set(a.blocks, index as u64, block);
    let next = grown_block(block, e->BlockDelta_delta);
    keyed_set_twice(a.blocks, index as u64, block, next);
    assert(Seq::<char>::empty() + fragment =~= fragment);
}

/// A channel holds the fragments that it was fed, joined, and its events add
/// up to a block with this text.
proof fn channel_adds_up(f: FlowV, kind: Channel, fragments: Seq<Seq<char>>, n: nat, a0: AccumulatorV, a: AccumulatorV)
    requires
        text_only(f, a0, a),
        f.st.channel is Some ==> f.st.channel->0.kind != kind,
        real_fragments(fragments),
        1 <= n <= fragments.len(),
    ensures
        ({
            let g = fragments_fed(f, kind, fragments, n);
            let text = fragments_joined(fragments, n);
            &&& g.st.channel == Some(
                ChannelV { kind, index: f.st.next_index, text: Some(text), leftover: Seq::empty() },
            )
            &&& g.st.tool_calls == f.st.tool_calls
            &&& g.st.next_index == bumped(f.st.next_index)
            &&& events_added(a0, g.events) == Ok::<AccumulatorV, ErrorV>(
                AccumulatorV { blocks: keyed_set(a.blocks, f.st.next_index as u64, channel_total(kind, text)), ..a },
            )
        }),
    decreases n,
{
    let q = (n - 1) as nat;
    let index = f.st.next_index;
    let piece = fragments[q as int];
    assert(fragments[q as int].len() > 0);
    let g = fragments_fed(f, kind, fragments, n);
    if n == 1 {
        assert(fragments_fed(f, kind, fragments, 0) == f);
        assert(fragments_joined(fragments, 0) == Seq::<char>::empty());
        assert(Seq::<char>::empty() + piece =~= piece);
        channel_is_opened(f, kind, a0, a);
        let o = channel_opened(f, kind);
        fragment_is_added(o.events, kind, index, None, channel_start(kind), piece, a0, a);
        assert(g.events == o.events.push(fragment_event(kind, index, piece)));
    } else {
        channel_adds_up(f, kind, fragments, q, a0, a);
        let p = fragments_fed(f, kind, fragments, q);
        let text = fragments_joined(fragments, q);
        fragment_is_added(p.events, kind, index, Some(text), channel_total(kind, text), piece, a0, a);
        assert(g.events == p.events.push(fragment_event(kind, index, piece)));
    }
}

/// The string that the fragments of a channel make up, if there are any.
pub open spec fn whole_text(fragments: Seq<Seq<char>>) -> Option<JsonV> {
    if fragments.len() == 0 {
        None
    } else {
        Some(JsonV::Str(fragments_joined(fragments, fragments.len())))
    }
}

/// The message that holds the channels whole.
pub open spec fn whole_message(
    thinking: Seq<Seq<char>>,
    content: Seq<Seq<char>>,
    refusal: Seq<Seq<char>>,
) -> types::MessageV {
    types::MessageV {
        role: Some("assistant"@),
        content: whole_text(content),
        reasoning_content: whole_text(thinking),
        refusal: whole_text(refusal),
        tool_calls: None,
        tool_call_id: None,
        name: None,
        extra: Seq::empty(),
    }
}

/// The blocks of a sequence, by index.
spec fn indexed(blocks: Seq<ContentBlockV>) -> Seq<(u64, ContentBlockV)> {
    Seq::new(blocks.len(), |i: int| (i as u64, blocks[i]))
}

proof fn next_block_is_last(blocks: Seq<ContentBlockV>, b: ContentBlockV)
    requires
        blocks.len() < 3,
    ensures
        keyed_set(indexed(blocks), blocks.len() as u64, b) == indexed(blocks.push(b)),
{
    let s = indexed(blocks);
    let k = blocks.len() as u64;
    reveal_with_fuel(place_from, 4);
    assert(place_from(s, k, 0) == s.len());
    assert(keyed_set(s, k, b) =~= indexed(blocks.push(b)));
}

/// One more channel was fed, perhaps with nothing.
proof fn next_channel(
    f: FlowV,
    kind: Channel,
    fragments: Seq<Seq<char>>,
    a0: AccumulatorV,
    a: AccumulatorV,
    blocks: Seq<ContentBlockV>,
) -> (b: AccumulatorV)
    requires
        text_only(f, a0, a),
        f.st.channel is Some ==> f.st.channel->0.kind != kind,
        real_fragments(fragments),
        a.blocks == indexed(blocks),
        f.st.next_index == blocks.len(),
        blocks.len() < 3,
    ensures
        ({
            let g = fragments_fed(f, kind, fragments, fragments.len());
            let more = if fragments.len() == 0 {
                blocks
            } else {
                blocks.push(channel_total(kind, fragments_joined(fragments, fragments.len())))
            };
            &&& text_only(g, a0, b)
            &&& b.blocks == indexed(more)
            &&& g.st.next_index == more.len()
            &&& g.st.channel is Some ==> g.st.channel->0.kind == kind || (f.st.channel is Some
                && g.st.channel->0.kind == f.st.channel->0.kind)
        }),
{
    if fragments.len() == 0 {
        a
    } else {
        let n = fragments.len();
        channel_adds_up(f, kind, fragments, n, a0, a);
        let total = channel_total(kind, fragments_joined(fragments, n));
        next_block_is_last(blocks, total);
        keyed_get_after_set(a.blocks, f.st.next_index as u64, total);
        AccumulatorV { blocks: keyed_set(a.blocks, f.st.next_index as u64, total), ..a }
    }
}

/// The end of a stream of text closes its last block and changes nothing else.
proof fn closing_keeps_text(f: FlowV, a0: AccumulatorV, a: AccumulatorV)
    requires
        text_only(f, a0, a),
    ensures
        events_added(a0, all_closed(f).events) == Ok::<AccumulatorV, ErrorV>(a),
{
    let stops = channel_stops(f.st.channel);
    assert(call_stops(f.st.tool_calls, stops, f.warnings, 0) == (stops, f.warnings));
    match f.st.channel {
        Some(c) => {
            let x = stops[0];
            assert(stops_ordered(stops, 0) =~= Seq::empty());
            assert(stops_ordered(stops, 1) =~= seq![x]);
            let e = StreamEventV::BlockStop { index: c.index, block: None };
            assert(stop_events(seq![x]) =~= seq![e]);
            assert(all_closed(f).events =~= f.events.push(e));
            added_one_more(a0, f.events, e);
        },
        None => {
            assert(stops_ordered(stops, 0) =~= Seq::empty());
            assert(all_closed(f).events =~= f.events);
        },
    }
}

/// A stream of text adds up to the blocks that the parse of the whole message
/// gives: thinking, content and refusal, each with its fragments joined,
/// however the text was cut into fragments.
pub proof fn streamed_text_equals_the_whole(
    st: ChatStreamV,
    thinking: Seq<Seq<char>>,
    content: Seq<Seq<char>>,
    refusal: Seq<Seq<char>>,
    a0: AccumulatorV,
    ptr: Seq<char>,
)
    requires
        st.channel is None,
        st.tool_calls.len() == 0,
        st.next_index == 0,
        a0.blocks.len() == 0,
        real_fragments(thinking),
        real_fragments(content),
        real_fragments(refusal),
    ensures
        ({
            let f1 = fragments_fed(flow_start(st), Channel::Reasoning, thinking, thinking.len());
            let f2 = fragments_fed(f1, Channel::Content, content, content.len());
            let f3 = fragments_fed(f2, Channel::Refusal, refusal, refusal.len());
            match events_added(a0, all_closed(f3).events) {
                Ok(a) => block_list(a.blocks) == assistant_fields(
                    whole_message(thinking, content, refusal),
                    ptr,
                    Seq::empty(),
                ).blocks,
                Err(_) => false,
            }
        }),
{
    let none = Seq::<ContentBlockV>::empty();
    let f0 = flow_start(st);
    let f1 = fragments_fed(f0, Channel::Reasoning, thinking, thinking.len());
    let f2 = fragments_fed(f1, Channel::Content, content, content.len());
    let f3 = fragments_fed(f2, Channel::Refusal, refusal, refusal.len());
    assert(a0.blocks =~= indexed(none));
    let b1 = if thinking.len() == 0 {
        none
    } else {
        none.push(channel_total(Channel::Reasoning, fragments_joined(thinking, thinking.len())))
    };
    let b2 = if content.len() == 0 {
        b1
    } else {
        b1.push(channel_total(Channel::Content, fragments_joined(content, content.len())))
    };
    let b3 = if refusal.len() == 0 {
        b2
    } else {
        b2.push(channel_total(Channel::Refusal, fragments_joined(refusal, refusal.len())))
    };
    let a1 = next_channel(f0, Channel::Reasoning, thinking, a0, a0, none);
    let a2 = next_channel(f1, Channel::Content, content, a0, a1, b1);
    let a3 = next_channel(f2, Channel::Refusal, refusal, a0, a2, b2);
    closing_keeps_text(f3, a0, a3);
    assert(block_list(indexed(b3)) =~= b3);
}

} // verus!
