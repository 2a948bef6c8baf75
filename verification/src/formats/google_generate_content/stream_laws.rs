//! Laws of the stream parser: the events of a stream keep their order, and
//! only a stream that showed its terminator ends well.

use vstd::prelude::*;
use crate::convert::ConversionWarningV;
use crate::formats::google_generate_content::parse_parts::{classified, part_block, AssistantPartV};
use crate::formats::google_generate_content::stream::{accepts, candidate_step, chunk_step, closed, ended, fresh_stream, google_finish, google_step, has_others, message_started, no_signal, opened_text, parted, primary_from, texted, whole, FlowV, GoogleStreamV, OpenTextV};
use crate::formats::google_generate_content::to_ir::{finish_reason, is_blocked, usage_read};
use crate::formats::google_generate_content::types::{decode_generate_content_response, CandidateV, GenerateContentResponseV, PartV};
use crate::ir::{ContentBlockV, SseEventV, StopReasonV, StreamEventV};
use crate::json::{obj_has, JsonV, ObjV};
use crate::namespaces::absent_is_not_read;
use crate::protocol::{events_taken, protocol_start, taken_one_more, ProtocolV};
use crate::text::{decimal, fragments_joined};
use crate::value::json_from_str;

verus! {

/// The parser stands where its events stand.
pub open spec fn in_step(st: GoogleStreamV, p: ProtocolV) -> bool {
    &&& p.started == st.started
    &&& p.stopped == st.terminated
    &&& p.blocks == st.next_index
    &&& p.open == match st.open {
        Some(o) => Set::<usize>::empty().insert(o.index),
        None => Set::empty(),
    }
}

/// The events of a step in progress are in order.
spec fn orderly(p: ProtocolV, f: FlowV) -> bool {
    match events_taken(p, f.1) {
        Some(q) => in_step(f.0, q),
        None => false,
    }
}

/// The message has started and is not over.
spec fn running(f: FlowV) -> bool {
    f.0.started && !f.0.terminated
}

proof fn closing(p: ProtocolV, f: FlowV)
    requires
        orderly(p, f),
        running(f),
    ensures
        orderly(p, closed(f)),
        running(closed(f)),
        closed(f).0.open is None,
        closed(f).0.next_index == f.0.next_index,
{
    if f.0.open is Some {
        let e = closed(f).1.last();
        taken_one_more(p, f.1, e);
        let q = events_taken(p, f.1)->0;
        assert(q.open.remove(f.0.open->0.index) =~= Set::<usize>::empty());
    }
}

proof fn opening(p: ProtocolV, f: FlowV, thought: bool)
    requires
        orderly(p, f),
        running(f),
        opened_text(f, thought).0.next_index < usize::MAX,
    ensures
        orderly(p, opened_text(f, thought)),
        running(opened_text(f, thought)),
{
    closing(p, f);
    let c = closed(f);
    let o = opened_text(f, thought);
    taken_one_more(p, c.1, o.1.last());
}

proof fn growing(p: ProtocolV, st: GoogleStreamV, es: Seq<StreamEventV>, e: StreamEventV)
    requires
        orderly(p, (st, es)),
        st.started && !st.terminated,
        st.open is Some,
        e is BlockDelta,
        e->BlockDelta_index == st.open->0.index,
    ensures
        orderly(p, (st, es.push(e))),
{
    taken_one_more(p, es, e);
}

proof fn texting(
    p: ProtocolV,
    f: FlowV,
    thought: bool,
    text: Seq<char>,
    signature: Option<Seq<char>>,
    ns: ObjV,
)
    requires
        orderly(p, f),
        running(f),
        texted(f, thought, text, signature, ns).0.next_index < usize::MAX,
    ensures
        orderly(p, texted(f, thought, text, signature, ns)),
        running(texted(f, thought, text, signature, ns)),
        texted(f, thought, text, signature, ns).0.next_index >= f.0.next_index,
{
    let f0 = if f.0.open is Some && accepts(f.0.open->0, thought) { f } else { opened_text(f, thought) };
    if !(f.0.open is Some && accepts(f.0.open->0, thought)) {
        opening(p, f, thought);
    }
    let r = texted(f, thought, text, signature, ns);
    let es = r.1;
    let n = es.len();
    let a = f0.1.len();
    assert(f0.0.open is Some);
    // Between the events so far and the result stand up to three deltas.
    if n > a {
        growing(p, f0.0, f0.1, es[a as int]);
        assert(es.take(a as int + 1) =~= f0.1.push(es[a as int]));
    }
    if n > a + 1 {
        growing(p, f0.0, es.take(a as int + 1), es[a as int + 1]);
        assert(es.take(a as int + 2) =~= es.take(a as int + 1).push(es[a as int + 1]));
    }
    if n > a + 2 {
        growing(p, f0.0, es.take(a as int + 2), es[a as int + 2]);
        assert(es =~= es.take(a as int + 2).push(es[a as int + 2]));
    }
    assert(es.take(n as int) =~= es);
    assert(n == a ==> es =~= f0.1);
    assert(orderly(p, (f0.0, es)));
}

proof fn placing(p: ProtocolV, f: FlowV, b: ContentBlockV)
    requires
        orderly(p, f),
        running(f),
        whole(f, b).0.next_index < usize::MAX,
    ensures
        orderly(p, whole(f, b)),
        running(whole(f, b)),
        whole(f, b).0.next_index >= f.0.next_index,
{
    closing(p, f);
    let c = closed(f);
    let index = c.0.next_index;
    let e1 = StreamEventV::BlockStart { index, block: b };
    let e2 = StreamEventV::BlockStop { index, block: None };
    taken_one_more(p, c.1, e1);
    taken_one_more(p, c.1.push(e1), e2);
    let q = events_taken(p, c.1)->0;
    assert(q.open.insert(index).remove(index) =~= Set::<usize>::empty());
}

proof fn ending(p: ProtocolV, f: FlowV, stop: StopReasonV)
    requires
        orderly(p, f),
        running(f),
    ensures
        orderly(p, ended(f, stop)),
        ended(f, stop).0.terminated,
        ended(f, stop).0.next_index == f.0.next_index,
{
    closing(p, f);
    let c = closed(f);
    let e1 = StreamEventV::MessageDelta { stop_reason: Some(stop), usage: c.0.last_usage };
    taken_one_more(p, c.1, e1);
    taken_one_more(p, c.1.push(e1), StreamEventV::MessageStop);
}

proof fn numbers_grow(f: FlowV, parts: Seq<PartV>, ws: Seq<ConversionWarningV>, n: nat)
    requires
        0 < n <= parts.len(),
    ensures
        parted(f, parts, ws, (n - 1) as nat).0.0.next_index <= parted(f, parts, ws, n).0.0.next_index,
{
}

proof fn parting(p: ProtocolV, f: FlowV, parts: Seq<PartV>, ws: Seq<ConversionWarningV>, n: nat)
    requires
        orderly(p, f),
        running(f),
        n <= parts.len(),
        parted(f, parts, ws, n).0.0.next_index < usize::MAX,
    ensures
        orderly(p, parted(f, parts, ws, n).0),
        running(parted(f, parts, ws, n).0),
    decreases n,
{
    if n > 0 {
        numbers_grow(f, parts, ws, n);
        parting(p, f, parts, ws, (n - 1) as nat);
        let (prev, ws1) = parted(f, parts, ws, (n - 1) as nat);
        let loc = "/candidates/0/content/parts/"@ + decimal((n - 1) as nat);
        match classified(parts[n - 1], loc, ws1).0 {
            AssistantPartV::TextLike { thought, text, signature, ns } => {
                texting(p, prev, thought, text, signature, ns);
            },
            AssistantPartV::Complete(b) => {
                placing(p, prev, b);
            },
        }
    }
}

proof fn candidate(p: ProtocolV, f: FlowV, c: CandidateV, ws: Seq<ConversionWarningV>)
    requires
        orderly(p, f),
        running(f),
        candidate_step(f, c, ws).0.0.next_index < usize::MAX,
    ensures
        orderly(p, candidate_step(f, c, ws).0),
{
    let (f1, ws1) = match c.content {
        Some(content) => parted(f, content.parts, ws, content.parts.len()),
        None => (f, ws),
    };
    assert(c.finish_reason is Some ==> closed(f1).0.next_index == f1.0.next_index);
    if c.content is Some {
        let parts = c.content->0.parts;
        parting(p, f, parts, ws, parts.len());
    }
    if c.finish_reason is Some {
        ending(p, f1, finish_reason(c.finish_reason->0));
    }
}

proof fn chunk(p: ProtocolV, st: GoogleStreamV, w: GenerateContentResponseV)
    requires
        in_step(st, p),
        !st.terminated,
        chunk_step(st, w).2.next_index < usize::MAX,
    ensures
        match events_taken(p, chunk_step(st, w).0) {
            Some(q) => in_step(chunk_step(st, w).2, q),
            None => false,
        },
{
    let (usage, ws1) = usage_read(w.usage_metadata, Seq::empty());
    let st1 = GoogleStreamV {
        last_usage: match usage {
            Some(u) => Some(u),
            None => st.last_usage,
        },
        ..st
    };
    let f1 = message_started(st1, w);
    if !st.started {
        taken_one_more(p, Seq::empty(), f1.1.last());
        assert(f1.1 =~= Seq::<StreamEventV>::empty().push(f1.1.last()));
    }
    assert(orderly(p, f1));
    if is_blocked(w) && w.candidates.len() == 0 {
        ending(p, f1, StopReasonV::ContentFilter);
    } else {
        let k = primary_from(w.candidates, 0);
        let (f2, ws2) = if 0 <= k < w.candidates.len() {
            candidate_step(f1, w.candidates[k], ws1)
        } else {
            (f1, ws1)
        };
        if 0 <= k < w.candidates.len() {
            candidate(p, f1, w.candidates[k], ws1);
        }
        if has_others(w.candidates) {
            taken_one_more(p, f2.1, StreamEventV::Unknown);
        }
    }
}

/// Every event of the parser is in order: the message starts once and first,
/// blocks are numbered as they start and stop before the next one starts, the
/// message stops when every block has stopped, and then only unknown events
/// come. This holds as long as block numbers do not run out.
pub proof fn events_are_in_order(st: GoogleStreamV, p: ProtocolV, ev: SseEventV)
    requires
        in_step(st, p),
        google_step(st, ev) is Ok,
        google_step(st, ev)->Ok_0.2.next_index < usize::MAX,
    ensures
        match events_taken(p, google_step(st, ev)->Ok_0.0) {
            Some(q) => in_step(google_step(st, ev)->Ok_0.2, q),
            None => false,
        },
{
    let (es, ws, st1) = google_step(st, ev)->Ok_0;
    if es == seq![StreamEventV::Unknown] {
        taken_one_more(p, Seq::empty(), StreamEventV::Unknown);
        assert(es =~= Seq::<StreamEventV>::empty().push(StreamEventV::Unknown));
    }
    match json_from_str(ev.data) {
        Ok(j) => match decode_generate_content_response(j) {
            Ok(w) => {
                if !st.terminated && !no_signal(w) {
                    chunk(p, st, w);
                }
            },
            Err(_) => {},
        },
        Err(_) => {},
    }
}

/// A fresh parser stands where no event has come.
pub proof fn fresh_parser_is_in_step()
    ensures
        in_step(fresh_stream(), protocol_start()),
{
}

/// Once terminated, a parser never fails, and its events stay unknown ones.
pub proof fn terminated_stream_stays_complete(st: GoogleStreamV, ev: SseEventV)
    requires
        st.terminated,
    ensures
        google_step(st, ev) is Ok,
        google_step(st, ev)->Ok_0.0 == seq![StreamEventV::Unknown],
        google_step(st, ev)->Ok_0.2.terminated,
        google_finish(st) is Ok,
{
}

/// A stream that never showed its terminator is an error at its end, never a
/// complete response, and the end itself adds no event.
pub proof fn truncated_stream_is_an_error(st: GoogleStreamV)
    ensures
        !st.terminated ==> google_finish(st) is Err,
        st.terminated ==> google_finish(st) is Ok && google_finish(st)->Ok_0.0.len() == 0,
{
}

/// The first `n` fragments of a text were fed, each as a part of its own.
pub open spec fn fragments_fed(f: FlowV, thought: bool, fragments: Seq<Seq<char>>, n: nat) -> FlowV
    decreases n,
{
    if n == 0 || n > fragments.len() {
        f
    } else {
        texted(
            fragments_fed(f, thought, fragments, (n - 1) as nat),
            thought,
            fragments[n - 1],
            None,
            Seq::empty(),
        )
    }
}

/// The part that holds a text whole.
pub open spec fn whole_part(thought: bool, text: Seq<char>) -> PartV {
    PartV {
        text: Some(text),
        inline_data: None,
        function_call: None,
        function_response: None,
        file_data: None,
        thought: if thought { Some(true) } else { None },
        thought_signature: None,
        extra: Seq::empty(),
    }
}

proof fn block_collects(f: FlowV, thought: bool, fragments: Seq<Seq<char>>, n: nat)
    requires
        f.0.open is None,
        1 <= n <= fragments.len(),
    ensures
        fragments_fed(f, thought, fragments, n).0.open == Some(
            OpenTextV {
                index: f.0.next_index,
                thought,
                text: fragments_joined(fragments, n),
                signature: None,
                ns: Seq::empty(),
            },
        ),
    decreases n,
{
    let text = fragments_joined(fragments, n);
    if n == 1 {
        assert(fragments_fed(f, thought, fragments, 0) == f);
        assert(fragments_joined(fragments, 0) == Seq::<char>::empty());
    } else {
        block_collects(f, thought, fragments, (n - 1) as nat);
        let none = Seq::<(Seq<char>, JsonV)>::empty();
        absent_is_not_read(none, "thoughtSignature"@, JsonV::Null);
        assert(!obj_has(none, "thoughtSignature"@));
    }
    let prev = fragments_joined(fragments, (n - 1) as nat);
    if fragments[n - 1].len() == 0 {
        assert(prev + fragments[n - 1] =~= prev);
    }
}

/// A text or a thought that arrives in parts stops as the block that the parse
/// of the whole part gives, with the fragments joined, however the text was
/// cut.
pub proof fn streamed_text_equals_the_whole(
    f: FlowV,
    thought: bool,
    fragments: Seq<Seq<char>>,
    loc: Seq<char>,
    ws: Seq<ConversionWarningV>,
)
    requires
        f.0.open is None,
        fragments.len() > 0,
    ensures
        ({
            let g = closed(fragments_fed(f, thought, fragments, fragments.len()));
            let whole = whole_part(thought, fragments_joined(fragments, fragments.len()));
            &&& g.0.open is None
            &&& g.1.last() == (StreamEventV::BlockStop {
                index: f.0.next_index,
                block: Some(part_block(classified(whole, loc, ws).0)),
            })
            &&& classified(whole, loc, ws).1 == ws
        }),
{
    block_collects(f, thought, fragments, fragments.len());
}

/// A part that is no text, such as a call or an image, starts and stops at once
/// as the block that the parse of the whole message gives for it. What was open
/// before it is closed first.
pub proof fn streamed_part_equals_the_whole(
    f: FlowV,
    part: PartV,
    ws: Seq<ConversionWarningV>,
    loc: Seq<char>,
    other: Seq<ConversionWarningV>,
)
    requires
        classified(part, loc, other).0 is Complete,
    ensures
        ({
            let g = parted(f, seq![part], ws, 1).0;
            let c = closed(f);
            g.1 == c.1.push(
                StreamEventV::BlockStart {
                    index: c.0.next_index,
                    block: part_block(classified(part, loc, other).0),
                },
            ).push(StreamEventV::BlockStop { index: c.0.next_index, block: None })
        }),
{
    let parts = seq![part];
    assert(parted(f, parts, ws, 0) == (f, ws));
    assert(classified(part, loc, other).0 == classified(part, "/candidates/0/content/parts/"@ + decimal(0), ws).0);
}

} // verus!
