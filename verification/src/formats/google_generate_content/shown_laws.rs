//! Laws: the fragments of a stream are passed on as they come, and show what
//! the stops carry.

use vstd::prelude::*;
use crate::value::json_from_str;
use crate::decode::extended;
use crate::accumulate::{added_one_more, events_added, grown_block, AccumulatorV};
use crate::convert::ConversionWarningV;
use crate::error::ErrorV;
use crate::formats::google_generate_content::parse_parts::{classified, member_count, AssistantPartV};
use crate::formats::google_generate_content::stream::{accepts, candidate_step, chunk_step, closed, delta_event, ended, fresh_stream, google_step, has_others, message_started, opened_text, parted, primary_from, started_block, texted, whole, FlowV, GoogleStreamV, OpenTextV};
use crate::formats::google_generate_content::to_ir::{finish_reason, is_blocked, usage_read};
use crate::formats::google_generate_content::types::{decode_generate_content_response, CandidateV, GenerateContentResponseV, PartV};
use crate::ir::{BlockDeltaV, ContentBlockV, SseEventV, StopReasonV, StreamEventV};
use crate::json::{obj_set, object1, JsonV, ObjV};
use crate::shown::{one_more_agrees, or_empty, stops_agree, stretches_agree};
use crate::stream::{keyed_get, keyed_get_after_set};
use crate::text::decimal;

verus! {

/// The block shows what the open text has come to.
pub open spec fn shows(held: Option<ContentBlockV>, open: OpenTextV) -> bool {
    match held {
        Some(ContentBlockV::Text { text, .. }) => !open.thought && text == open.text,
        Some(ContentBlockV::Thinking { text, signature, .. }) => open.thought && text == Some(open.text) && or_empty(
            signature,
        ) == or_empty(open.signature),
        _ => false,
    }
}

/// The open text is shown by what has arrived.
pub open spec fn shown(st: GoogleStreamV, a: AccumulatorV) -> bool {
    st.open is Some ==> shows(keyed_get(a.blocks, st.open->0.index as u64), st.open->0)
}

/// The events so far add up on top of what had arrived, show the open text, and
/// agree with their stops.
spec fn going_well(f: FlowV, a: AccumulatorV) -> bool {
    &&& events_added(a, f.1) is Ok
    &&& shown(f.0, events_added(a, f.1)->Ok_0)
    &&& stops_agree(a, f.1)
}

proof fn closing_goes_well(f: FlowV, a: AccumulatorV)
    requires
        going_well(f, a),
    ensures
        going_well(closed(f), a),
        closed(f).0.open is None,
{
    if let Some(o) = f.0.open {
        let e = closed(f).1.last();
        added_one_more(a, f.1, e);
        one_more_agrees(a, f.1, e);
    }
}

proof fn other_event_goes_well(f: FlowV, a: AccumulatorV, e: StreamEventV, st: GoogleStreamV)
    requires
        going_well(f, a),
        e is MessageStart || e is MessageDelta || e is MessageStop || e is Unknown,
        st.open == f.0.open,
    ensures
        going_well((st, f.1.push(e)), a),
{
    added_one_more(a, f.1, e);
    one_more_agrees(a, f.1, e);
}

proof fn opening_goes_well(f: FlowV, a: AccumulatorV, thought: bool)
    requires
        going_well(f, a),
    ensures
        going_well(opened_text(f, thought), a),
{
    closing_goes_well(f, a);
    let c = closed(f);
    let e = opened_text(f, thought).1.last();
    added_one_more(a, c.1, e);
    one_more_agrees(a, c.1, e);
    keyed_get_after_set(events_added(a, c.1)->Ok_0.blocks, c.0.next_index as u64, started_block(thought));
}

proof fn delta_goes_well(f: FlowV, a: AccumulatorV, d: BlockDeltaV, next: OpenTextV)
    requires
        going_well(f, a),
        f.0.open is Some,
        next.index == f.0.open->0.index,
        next.thought == f.0.open->0.thought,
        match d {
            BlockDeltaV::Text(s) => !next.thought && next.text == f.0.open->0.text + s && next.signature
                == f.0.open->0.signature,
            BlockDeltaV::Thinking(s) => next.thought && next.text == f.0.open->0.text + s && next.signature
                == f.0.open->0.signature,
            BlockDeltaV::Signature(s) => next.thought && next.text == f.0.open->0.text && f.0.open->0.signature is None
                && next.signature == Some(s),
            BlockDeltaV::Other(_) => next.text == f.0.open->0.text && next.signature == f.0.open->0.signature,
            _ => false,
        },
    ensures
        going_well((GoogleStreamV { open: Some(next), ..f.0 }, f.1.push(delta_event(next.index, d))), a),
{
    let b = events_added(a, f.1)->Ok_0;
    let e = delta_event(next.index, d);
    added_one_more(a, f.1, e);
    one_more_agrees(a, f.1, e);
    let held = keyed_get(b.blocks, next.index as u64)->0;
    keyed_get_after_set(b.blocks, next.index as u64, grown_block(held, d));
    if let BlockDeltaV::Signature(s) = d {
        assert(Seq::<char>::empty() + s =~= s);
    }
}

proof fn text_goes_well(
    f: FlowV,
    a: AccumulatorV,
    thought: bool,
    text: Seq<char>,
    signature: Option<Seq<char>>,
    ns: ObjV,
)
    requires
        going_well(f, a),
    ensures
        going_well(texted(f, thought, text, signature, ns), a),
{
    let keeps = f.0.open is Some && accepts(f.0.open->0, thought);
    let f0 = if keeps { f } else { opened_text(f, thought) };
    if !keeps {
        opening_goes_well(f, a, thought);
    }
    let o0 = f0.0.open->0;
    let i = o0.index;
    let o1 = OpenTextV { text: if text.len() > 0 { o0.text + text } else { o0.text }, ..o0 };
    let d1 = if thought { BlockDeltaV::Thinking(text) } else { BlockDeltaV::Text(text) };
    let f1 = (
        GoogleStreamV { open: Some(o1), ..f0.0 },
        if text.len() > 0 { f0.1.push(delta_event(i, d1)) } else { f0.1 },
    );
    if text.len() > 0 {
        delta_goes_well(f0, a, d1, o1);
    }
    let o2 = match signature {
        Some(sig) => if thought {
            OpenTextV { signature: Some(sig), ..o1 }
        } else {
            OpenTextV { ns: obj_set(o1.ns, "thoughtSignature"@, JsonV::Str(sig)), ..o1 }
        },
        None => o1,
    };
    let f2 = match signature {
        Some(sig) => {
            let d2 = if thought {
                BlockDeltaV::Signature(sig)
            } else {
                BlockDeltaV::Other(object1("thoughtSignature"@, JsonV::Str(sig)))
            };
            (GoogleStreamV { open: Some(o2), ..f1.0 }, f1.1.push(delta_event(i, d2)))
        },
        None => f1,
    };
    if let Some(sig) = signature {
        let d2 = if thought {
            BlockDeltaV::Signature(sig)
        } else {
            BlockDeltaV::Other(object1("thoughtSignature"@, JsonV::Str(sig)))
        };
        delta_goes_well(f1, a, d2, o2);
    }
    if ns.len() > 0 {
        let o3 = OpenTextV { ns: extended(o2.ns, ns), ..o2 };
        delta_goes_well(f2, a, BlockDeltaV::Other(JsonV::Object(ns)), o3);
    }
}

proof fn block_goes_well(f: FlowV, a: AccumulatorV, block: ContentBlockV)
    requires
        going_well(f, a),
    ensures
        going_well(whole(f, block), a),
{
    closing_goes_well(f, a);
    let c = closed(f);
    let index = c.0.next_index;
    let e1 = StreamEventV::BlockStart { index, block };
    let e2 = StreamEventV::BlockStop { index, block: None };
    added_one_more(a, c.1, e1);
    one_more_agrees(a, c.1, e1);
    let b = events_added(a, c.1)->Ok_0;
    keyed_get_after_set(b.blocks, index as u64, block);
    added_one_more(a, c.1.push(e1), e2);
    one_more_agrees(a, c.1.push(e1), e2);
}

proof fn parts_go_well(f: FlowV, a: AccumulatorV, parts: Seq<PartV>, ws: Seq<ConversionWarningV>, n: nat)
    requires
        going_well(f, a),
        n <= parts.len(),
    ensures
        going_well(parted(f, parts, ws, n).0, a),
    decreases n,
{
    if n > 0 {
        let q = (n - 1) as nat;
        parts_go_well(f, a, parts, ws, q);
        let (prev, ws1) = parted(f, parts, ws, q);
        match classified(parts[q as int], "/candidates/0/content/parts/"@ + decimal(q), ws1).0 {
            AssistantPartV::TextLike { thought, text, signature, ns } => {
                text_goes_well(prev, a, thought, text, signature, ns);
            },
            AssistantPartV::Complete(b) => {
                block_goes_well(prev, a, b);
            },
        }
    }
}

proof fn end_goes_well(f: FlowV, a: AccumulatorV, stop: StopReasonV)
    requires
        going_well(f, a),
    ensures
        going_well(ended(f, stop), a),
{
    closing_goes_well(f, a);
    let c = closed(f);
    let d = StreamEventV::MessageDelta { stop_reason: Some(stop), usage: c.0.last_usage };
    other_event_goes_well(c, a, d, c.0);
    other_event_goes_well((c.0, c.1.push(d)), a, StreamEventV::MessageStop, ended(f, stop).0);
}

proof fn candidate_goes_well(f: FlowV, a: AccumulatorV, c: CandidateV, ws: Seq<ConversionWarningV>)
    requires
        going_well(f, a),
    ensures
        going_well(candidate_step(f, c, ws).0, a),
{
    let f1 = match c.content {
        Some(content) => parted(f, content.parts, ws, content.parts.len()).0,
        None => f,
    };
    if let Some(content) = c.content {
        parts_go_well(f, a, content.parts, ws, content.parts.len());
    }
    if let Some(r) = c.finish_reason {
        end_goes_well(f1, a, finish_reason(r));
    }
}

/// A chunk adds to what has arrived, and what has arrived goes on showing the
/// open text; a stop carries what was shown.
pub proof fn chunk_keeps_text_shown(st: GoogleStreamV, a: AccumulatorV, ev: SseEventV)
    requires
        shown(st, a),
        google_step(st, ev) is Ok,
    ensures
        ({
            let (es, ws, st1) = google_step(st, ev)->Ok_0;
            &&& events_added(a, es) is Ok
            &&& shown(st1, events_added(a, es)->Ok_0)
            &&& stops_agree(a, es)
        }),
{
    let (es, ws, st1) = google_step(st, ev)->Ok_0;
    let none = Seq::<StreamEventV>::empty();
    assert(events_added(a, none) == Ok::<AccumulatorV, ErrorV>(a));
    assert(stops_agree(a, none));
    let f0 = (st, none);
    assert(going_well(f0, a));
    other_event_goes_well(f0, a, StreamEventV::Unknown, st);
    assert(none.push(StreamEventV::Unknown) =~= seq![StreamEventV::Unknown]);
    if let Ok(j) = json_from_str(ev.data) {
        if let Ok(w) = decode_generate_content_response(j) {
            if !st.terminated && es == chunk_step(st, w).0 && st1 == chunk_step(st, w).2 {
                chunk_goes_well(st, a, w);
            }
        }
    }
}

proof fn chunk_goes_well(
    st: GoogleStreamV,
    a: AccumulatorV,
    w: GenerateContentResponseV,
)
    requires
        shown(st, a),
    ensures
        going_well((chunk_step(st, w).2, chunk_step(st, w).0), a),
{
    let none = Seq::<StreamEventV>::empty();
    assert(events_added(a, none) == Ok::<AccumulatorV, ErrorV>(a));
    let (usage, ws1) = usage_read(w.usage_metadata, Seq::empty());
    let st0 = GoogleStreamV {
        last_usage: match usage {
            Some(u) => Some(u),
            None => st.last_usage,
        },
        ..st
    };
    let f1 = message_started(st0, w);
    assert(going_well((st0, none), a));
    if !st0.started {
        other_event_goes_well((st0, none), a, f1.1[0], f1.0);
        assert(none.push(f1.1[0]) =~= f1.1);
    }
    if is_blocked(w) && w.candidates.len() == 0 {
        end_goes_well(f1, a, crate::ir::StopReasonV::ContentFilter);
    } else {
        let p = primary_from(w.candidates, 0);
        let f2 = if 0 <= p < w.candidates.len() { candidate_step(f1, w.candidates[p], ws1).0 } else { f1 };
        if 0 <= p < w.candidates.len() {
            candidate_goes_well(f1, a, w.candidates[p], ws1);
        }
        if has_others(w.candidates) {
            other_event_goes_well(f2, a, StreamEventV::Unknown, chunk_step(st, w).2);
        }
    }
}

/// The events of a whole stream, and the state behind it; nothing when some
/// event is refused.
pub open spec fn stream_read(st: GoogleStreamV, evs: Seq<SseEventV>) -> Option<(Seq<StreamEventV>, GoogleStreamV)>
    decreases evs.len(),
{
    if evs.len() == 0 {
        Some((Seq::empty(), st))
    } else {
        match stream_read(st, evs.drop_last()) {
            None => None,
            Some((es, now)) => match google_step(now, evs.last()) {
                Err(_) => None,
                Ok((more, ws, next)) => Some((es + more, next)),
            },
        }
    }
}

/// Over a whole stream, the start of a block grown by all fragments of the block
/// is what its stop carries: a caller that shows the fragments as they come has
/// shown exactly the finished block.
pub proof fn fragments_show_what_the_stop_carries(a: AccumulatorV, evs: Seq<SseEventV>)
    requires
        stream_read(fresh_stream(), evs) is Some,
    ensures
        ({
            let (es, st) = stream_read(fresh_stream(), evs)->0;
            &&& events_added(a, es) is Ok
            &&& shown(st, events_added(a, es)->Ok_0)
            &&& stops_agree(a, es)
        }),
    decreases evs.len(),
{
    if evs.len() > 0 {
        fragments_show_what_the_stop_carries(a, evs.drop_last());
        let (es, now) = stream_read(fresh_stream(), evs.drop_last())->0;
        let b = events_added(a, es)->Ok_0;
        chunk_keeps_text_shown(now, b, evs.last());
        let more = google_step(now, evs.last())->Ok_0.0;
        stretches_agree(a, es, more, more.len());
        assert(more.take(more.len() as int) =~= more);
    }
}

/// A text part of a chunk is passed on as it came: one fragment with its text,
/// under the index of the open block, as thinking exactly when the part is a
/// thought.
pub proof fn text_part_is_passed_on(f: FlowV, thought: bool, text: Seq<char>)
    requires
        text.len() > 0,
    ensures
        ({
            let g = texted(f, thought, text, None, Seq::empty());
            &&& g.0.open is Some
            &&& g.0.open->0.thought == thought
            &&& g.1.len() > f.1.len()
            &&& g.1.last() == (StreamEventV::BlockDelta {
                index: g.0.open->0.index,
                delta: if thought { BlockDeltaV::Thinking(text) } else { BlockDeltaV::Text(text) },
            })
            &&& forall|i: int| f.1.len() <= i < g.1.len() - 1 ==> !((#[trigger] g.1[i]) is BlockDelta)
            &&& forall|i: int| 0 <= i < f.1.len() ==> #[trigger] g.1[i] == f.1[i]
        }),
{
}

/// A part of plain text, or a plain thought, is read as such.
pub proof fn plain_part_is_text(p: PartV, loc: Seq<char>, ws: Seq<ConversionWarningV>)
    requires
        p.text is Some,
        member_count(p) == 1,
        p.thought_signature is None,
        p.extra.len() == 0,
    ensures
        match classified(p, loc, ws).0 {
            AssistantPartV::TextLike { thought, text, signature, ns } => thought == (p.thought == Some(true)) && text
                == p.text->0 && signature is None,
            _ => false,
        },
{
}

} // verus!
