//! Google stream chunks as unified stream events. Each SSE event holds a
//! partial response; block boundaries are inferred from the parts of the first
//! candidate.

use vstd::prelude::*;
use vstd::string::*;
use crate::convert::{ConversionWarning, ConversionWarningV, WarningCode};
use crate::decode::{extend_map, extended};
use crate::error::Error;
use crate::format::GOOGLE_GENERATE_CONTENT;
use crate::formats::google_generate_content::errors::{envelope_failure, stream_error};
use crate::formats::google_generate_content::parse_parts::{classified, classify_assistant_part, g_leftover, gp_noted, text_like, text_like_block, AssistantPart, AssistantPartV};
use crate::formats::google_generate_content::to_ir::{finish_reason, is_blocked, map_finish_reason, read_usage, usage_read};
use crate::formats::google_generate_content::types::{decode_generate_content_response, Candidate, CandidateV, GenerateContentResponse, GenerateContentResponseV, Part, PartV};
use crate::ir::{text_block, BlockDelta, BlockDeltaV, ContentBlock, ContentBlockV, Extra, SseEvent, SseEventV, StopReason, StopReasonV, StreamEvent, StreamEventV, Usage, UsageV};
use crate::json::{json_get, make1, obj_has, obj_set, object1, Json, JsonMap, JsonV, ObjV};
use crate::model::{dup_opt, group_views, opt_view, views, Dup};
use crate::response::parse_warn;
use crate::stream::{FailV, StepV, StreamParser};
use crate::text::{cat2, dec_usize, decimal};
use crate::value::{json_from_str, parse_text};

verus! {

broadcast use group_views;

/// A text block that is still being streamed.
#[derive(Debug)]
pub struct OpenText {
    pub index: usize,
    pub thought: bool,
    pub text: String,
    pub signature: Option<String>,
    /// Unknown fields of its parts.
    pub ns: JsonMap,
}

/// The mathematical value of an [`OpenText`].
pub struct OpenTextV {
    pub index: usize,
    pub thought: bool,
    pub text: Seq<char>,
    pub signature: Option<Seq<char>>,
    pub ns: ObjV,
}

impl View for OpenText {
    type V = OpenTextV;

    open spec fn view(&self) -> OpenTextV {
        OpenTextV {
            index: self.index,
            thought: self.thought,
            text: self.text@,
            signature: opt_view(self.signature),
            ns: self.ns@,
        }
    }
}

/// Stream parser of the Google format.
#[derive(Debug)]
pub struct GoogleStreamParser {
    pub started: bool,
    pub terminated: bool,
    pub next_index: usize,
    pub open: Option<OpenText>,
    pub last_usage: Option<Usage>,
    pub multi_candidate_warned: bool,
    pub no_signal_warned: bool,
}

/// The mathematical value of a [`GoogleStreamParser`].
pub struct GoogleStreamV {
    pub started: bool,
    pub terminated: bool,
    pub next_index: usize,
    pub open: Option<OpenTextV>,
    pub last_usage: Option<UsageV>,
    pub multi_candidate_warned: bool,
    pub no_signal_warned: bool,
}

impl View for GoogleStreamParser {
    type V = GoogleStreamV;

    open spec fn view(&self) -> GoogleStreamV {
        GoogleStreamV {
            started: self.started,
            terminated: self.terminated,
            next_index: self.next_index,
            open: opt_view(self.open),
            last_usage: opt_view(self.last_usage),
            multi_candidate_warned: self.multi_candidate_warned,
            no_signal_warned: self.no_signal_warned,
        }
    }
}

/// State and events of a step in progress.
pub type FlowV = (GoogleStreamV, Seq<StreamEventV>);

/// The index after `n`.
pub open spec fn bumped(n: usize) -> usize {
    if n == usize::MAX { n } else { (n + 1) as usize }
}

/// The open block is closed, if there is one.
pub open spec fn closed(f: FlowV) -> FlowV {
    match f.0.open {
        Some(o) => (
            GoogleStreamV { open: None, ..f.0 },
            f.1.push(
                StreamEventV::BlockStop {
                    index: o.index,
                    block: Some(text_like(o.thought, o.text, o.signature, o.ns)),
                },
            ),
        ),
        None => f,
    }
}

/// A same-kind part may continue the block: no signature seals it yet.
pub open spec fn accepts(o: OpenTextV, thought: bool) -> bool {
    o.thought == thought && o.signature is None && !obj_has(o.ns, "thoughtSignature"@)
}

/// How a text block starts.
pub open spec fn started_block(thought: bool) -> ContentBlockV {
    if thought {
        ContentBlockV::Thinking {
            text: Some(Seq::empty()),
            signature: None,
            extra: g_leftover(obj_set(Seq::empty(), "thought"@, JsonV::Bool(true))),
        }
    } else {
        text_block(Seq::empty())
    }
}

/// A new text block is opened.
pub open spec fn opened_text(f: FlowV, thought: bool) -> FlowV {
    let c = closed(f);
    let index = c.0.next_index;
    (
        GoogleStreamV {
            next_index: bumped(index),
            open: Some(
                OpenTextV { index, thought, text: Seq::empty(), signature: None, ns: Seq::empty() },
            ),
            ..c.0
        },
        c.1.push(StreamEventV::BlockStart { index, block: started_block(thought) }),
    )
}

/// A block delta event.
pub open spec fn delta_event(index: usize, delta: BlockDeltaV) -> StreamEventV {
    StreamEventV::BlockDelta { index, delta }
}

/// A text part continues the open block, or opens one.
pub open spec fn texted(
    f: FlowV,
    thought: bool,
    text: Seq<char>,
    signature: Option<Seq<char>>,
    ns: ObjV,
) -> FlowV {
    let f0 = if f.0.open is Some && accepts(f.0.open->0, thought) { f } else { opened_text(f, thought) };
    let o0 = f0.0.open->0;
    let i = o0.index;
    let (e1, t1) = if text.len() > 0 {
        (
            f0.1.push(
                delta_event(i, if thought { BlockDeltaV::Thinking(text) } else { BlockDeltaV::Text(text) }),
            ),
            o0.text + text,
        )
    } else {
        (f0.1, o0.text)
    };
    let (e2, s2, n2) = match signature {
        Some(sig) => if thought {
            (e1.push(delta_event(i, BlockDeltaV::Signature(sig))), Some(sig), o0.ns)
        } else {
            (
                e1.push(
                    delta_event(
                        i,
                        BlockDeltaV::Other(object1("thoughtSignature"@, JsonV::Str(sig))),
                    ),
                ),
                o0.signature,
                obj_set(o0.ns, "thoughtSignature"@, JsonV::Str(sig)),
            )
        },
        None => (e1, o0.signature, o0.ns),
    };
    let (e3, n3) = if ns.len() > 0 {
        (e2.push(delta_event(i, BlockDeltaV::Other(JsonV::Object(ns)))), extended(n2, ns))
    } else {
        (e2, n2)
    };
    (
        GoogleStreamV {
            open: Some(OpenTextV { index: i, thought: o0.thought, text: t1, signature: s2, ns: n3 }),
            ..f0.0
        },
        e3,
    )
}

/// A whole block: it starts and stops at once.
pub open spec fn whole(f: FlowV, block: ContentBlockV) -> FlowV {
    let c = closed(f);
    let index = c.0.next_index;
    (
        GoogleStreamV { next_index: bumped(index), ..c.0 },
        c.1.push(StreamEventV::BlockStart { index, block }).push(StreamEventV::BlockStop { index, block: None }),
    )
}

/// The end of the message.
pub open spec fn ended(f: FlowV, stop: StopReasonV) -> FlowV {
    let c = closed(f);
    (
        GoogleStreamV { terminated: true, ..c.0 },
        c.1.push(
            StreamEventV::MessageDelta { stop_reason: Some(stop), usage: c.0.last_usage },
        ).push(StreamEventV::MessageStop),
    )
}

/// The first `n` parts of a chunk.
pub open spec fn parted(f: FlowV, parts: Seq<PartV>, ws: Seq<ConversionWarningV>, n: nat) -> (FlowV, Seq<ConversionWarningV>)
    decreases n,
{
    if n == 0 || n > parts.len() {
        (f, ws)
    } else {
        let (prev, ws1) = parted(f, parts, ws, (n - 1) as nat);
        let (a, ws2) = classified(
            parts[n - 1],
            "/candidates/0/content/parts/"@ + decimal((n - 1) as nat),
            ws1,
        );
        (
            match a {
                AssistantPartV::TextLike { thought, text, signature, ns } => texted(
                    prev,
                    thought,
                    text,
                    signature,
                    ns,
                ),
                AssistantPartV::Complete(b) => whole(prev, b),
            },
            ws2,
        )
    }
}

/// A candidate that can be the first one.
pub open spec fn is_primary(c: CandidateV) -> bool {
    c.index is None || c.index == Some(0i64)
}

/// Position of the first candidate at or after `i`; the length when there is
/// none.
pub open spec fn primary_from(cs: Seq<CandidateV>, i: int) -> int
    decreases cs.len() - i,
{
    if i < 0 || i >= cs.len() {
        cs.len() as int
    } else if is_primary(cs[i]) {
        i
    } else {
        primary_from(cs, i + 1)
    }
}

/// There are candidates besides the first one.
pub open spec fn has_others(cs: Seq<CandidateV>) -> bool {
    cs.len() > 1 || (cs.len() == 1 && !is_primary(cs[0]))
}

/// The warning about other candidates, once per stream.
pub open spec fn multi_noted(st: GoogleStreamV, ws: Seq<ConversionWarningV>) -> (GoogleStreamV, Seq<ConversionWarningV>) {
    if st.multi_candidate_warned {
        (st, ws)
    } else {
        (
            GoogleStreamV { multi_candidate_warned: true, ..st },
            gp_noted(
                ws,
                WarningCode::MultipleCandidates,
                "/candidates"@,
                "stream carries chunks for more than one candidate; only the first is parsed"@,
            ),
        )
    }
}

/// The chunk says nothing that is modeled.
pub open spec fn no_signal(w: GenerateContentResponseV) -> bool {
    w.candidates.len() == 0 && w.prompt_feedback is None && w.usage_metadata is None && w.model_version is None
        && w.response_id is None
}

/// A chunk after the terminator.
pub open spec fn late_chunk(st: GoogleStreamV, w: GenerateContentResponseV) -> (Seq<StreamEventV>, Seq<ConversionWarningV>, GoogleStreamV) {
    if has_others(w.candidates) {
        let (st1, ws) = multi_noted(st, Seq::empty());
        (seq![StreamEventV::Unknown], ws, st1)
    } else {
        (
            seq![StreamEventV::Unknown],
            gp_noted(
                Seq::empty(),
                WarningCode::UnknownStreamEvent,
                Seq::empty(),
                "chunk received after the stream terminated"@,
            ),
            st,
        )
    }
}

/// A chunk without a modeled signal; it is reported once per stream.
pub open spec fn silent_chunk(st: GoogleStreamV) -> (Seq<StreamEventV>, Seq<ConversionWarningV>, GoogleStreamV) {
    (
        seq![StreamEventV::Unknown],
        if st.no_signal_warned {
            Seq::empty()
        } else {
            gp_noted(
                Seq::empty(),
                WarningCode::MalformedField,
                Seq::empty(),
                "stream chunk carries no modeled signal"@,
            )
        },
        GoogleStreamV { no_signal_warned: true, ..st },
    )
}

/// The message starts with the first chunk.
pub open spec fn message_started(st: GoogleStreamV, w: GenerateContentResponseV) -> FlowV {
    if st.started {
        (st, Seq::empty())
    } else {
        (
            GoogleStreamV { started: true, ..st },
            seq![
                StreamEventV::MessageStart {
                    id: w.response_id,
                    model: w.model_version,
                    usage: st.last_usage,
                },
            ],
        )
    }
}

/// The first candidate of a chunk.
pub open spec fn candidate_step(f: FlowV, c: CandidateV, ws: Seq<ConversionWarningV>) -> (FlowV, Seq<ConversionWarningV>) {
    let (f1, ws1) = match c.content {
        Some(content) => parted(f, content.parts, ws, content.parts.len()),
        None => (f, ws),
    };
    (
        match c.finish_reason {
            Some(r) => ended(f1, finish_reason(r)),
            None => f1,
        },
        ws1,
    )
}

/// A chunk of a stream that is not over.
pub open spec fn chunk_step(st: GoogleStreamV, w: GenerateContentResponseV) -> (Seq<StreamEventV>, Seq<ConversionWarningV>, GoogleStreamV) {
    let (usage, ws1) = usage_read(w.usage_metadata, Seq::empty());
    let st1 = GoogleStreamV {
        last_usage: match usage {
            Some(u) => Some(u),
            None => st.last_usage,
        },
        ..st
    };
    let f1 = message_started(st1, w);
    if is_blocked(w) && w.candidates.len() == 0 {
        let f2 = ended(f1, StopReasonV::ContentFilter);
        (f2.1, ws1, f2.0)
    } else {
        let p = primary_from(w.candidates, 0);
        let (f2, ws2) = if 0 <= p < w.candidates.len() {
            candidate_step(f1, w.candidates[p], ws1)
        } else {
            (f1, ws1)
        };
        if has_others(w.candidates) {
            let (st3, ws3) = multi_noted(f2.0, ws2);
            (f2.1.push(StreamEventV::Unknown), ws3, st3)
        } else {
            (f2.1, ws2, f2.0)
        }
    }
}

/// What an event becomes.
pub open spec fn google_step(st: GoogleStreamV, ev: SseEventV) -> StepV<GoogleStreamV> {
    let chunk = match json_from_str(ev.data) {
        Ok(j) => match decode_generate_content_response(j) {
            Ok(w) => Some((j, w)),
            Err(_) => None,
        },
        Err(_) => None,
    };
    match chunk {
        None => Ok(
            (
                seq![StreamEventV::Unknown],
                gp_noted(
                    Seq::empty(),
                    WarningCode::UnknownStreamEvent,
                    Seq::empty(),
                    "stream data is not a GenerateContentResponse chunk"@,
                ),
                st,
            ),
        ),
        Some((j, w)) => if st.terminated {
            Ok(late_chunk(st, w))
        } else if json_get(j, "error"@) is Some && json_get(j, "error"@)->0 is Object {
            Err(envelope_failure(j, ev.data))
        } else if no_signal(w) {
            Ok(silent_chunk(st))
        } else {
            Ok(chunk_step(st, w))
        },
    }
}

/// What the end of the byte stream becomes.
pub open spec fn google_finish(st: GoogleStreamV) -> StepV<GoogleStreamV> {
    if st.terminated {
        Ok((Seq::empty(), Seq::empty(), st))
    } else {
        Err(
            FailV::Parse {
                message: "truncated stream: no finishReason or blocked-prompt chunk was seen"@,
                raw: Seq::empty(),
            },
        )
    }
}

fn one_event(e: StreamEvent) -> (r: Vec<StreamEvent>)
    ensures
        views(r@) == seq![e@],
{
    let mut v: Vec<StreamEvent> = Vec::new();
    v.push(e);
    proof {
        assert(views(v@) =~= seq![e@]);
    }
    v
}

fn find_primary(cs: &Vec<Candidate>) -> (r: usize)
    ensures
        r == primary_from(views(cs@), 0),
        r <= cs@.len(),
{
    let mut i: usize = 0;
    while i < cs.len()
        invariant
            i <= cs@.len(),
            primary_from(views(cs@), 0) == primary_from(views(cs@), i as int),
        decreases cs@.len() - i,
    {
        proof {
            assert(views(cs@)[i as int] == cs@[i as int]@);
        }
        match cs[i].index {
            None => {
                return i;
            },
            Some(n) => {
                if n == 0 {
                    return i;
                }
            },
        }
        i += 1;
    }
    i
}

fn others(cs: &Vec<Candidate>) -> (r: bool)
    ensures
        r == has_others(views(cs@)),
{
    if cs.len() > 1 {
        return true;
    }
    if cs.len() == 0 {
        return false;
    }
    proof {
        assert(views(cs@)[0] == cs@[0]@);
    }
    match cs[0].index {
        None => false,
        Some(n) => n != 0,
    }
}

/// The state of a fresh parser.
pub open spec fn fresh_stream() -> GoogleStreamV {
    GoogleStreamV {
        started: false,
        terminated: false,
        next_index: 0,
        open: None,
        last_usage: None,
        multi_candidate_warned: false,
        no_signal_warned: false,
    }
}

impl GoogleStreamParser {
    /// A fresh parser.
    pub fn new() -> (r: GoogleStreamParser)
        ensures
            r@ == fresh_stream(),
    {
        GoogleStreamParser {
            started: false,
            terminated: false,
            next_index: 0,
            open: None,
            last_usage: None,
            multi_candidate_warned: false,
            no_signal_warned: false,
        }
    }

    fn close_open(&mut self, events: &mut Vec<StreamEvent>)
        ensures
            (final(self)@, views(final(events)@)) == closed((old(self)@, views(old(events)@))),
    {
        let mut taken: Option<OpenText> = None;
        std::mem::swap(&mut taken, &mut self.open);
        if let Some(o) = taken {
            let index = o.index;
            let block = text_like_block(o.thought, o.text, o.signature, o.ns);
            events.push(StreamEvent::BlockStop { index, block: Some(block) });
        }
    }

    fn warn_multi_candidate(&mut self, ws: &mut Vec<ConversionWarning>)
        ensures
            (final(self)@, views(final(ws)@)) == multi_noted(old(self)@, views(old(ws)@)),
    {
        if !self.multi_candidate_warned {
            parse_warn(
                ws,
                GOOGLE_GENERATE_CONTENT,
                WarningCode::MultipleCandidates,
                "/candidates",
                "stream carries chunks for more than one candidate; only the first is parsed",
            );
            self.multi_candidate_warned = true;
        }
    }

    fn alloc_index(&mut self) -> (r: usize)
        ensures
            r == old(self)@.next_index,
            final(self)@ == (GoogleStreamV { next_index: bumped(old(self)@.next_index), ..old(self)@ }),
    {
        let index = self.next_index;
        self.next_index = index.saturating_add(1);
        index
    }

    fn open_block(&mut self, thought: bool, events: &mut Vec<StreamEvent>)
        ensures
            (final(self)@, views(final(events)@)) == opened_text((old(self)@, views(old(events)@)), thought),
    {
        self.close_open(events);
        let index = self.alloc_index();
        let block = if thought {
            let mut ns = JsonMap::new();
            ns.set("thought", Json::Bool(true));
            ContentBlock::Thinking {
                text: Some(String::new()),
                signature: None,
                extra: Extra::from_unknown(GOOGLE_GENERATE_CONTENT, ns),
            }
        } else {
            ContentBlock::text(String::new())
        };
        events.push(StreamEvent::BlockStart { index, block });
        self.open = Some(
            OpenText { index, thought, text: String::new(), signature: None, ns: JsonMap::new() },
        );
    }

    /// Handles one text part.
    fn text_part(
        &mut self,
        thought: bool,
        text: String,
        signature: Option<String>,
        ns: JsonMap,
        events: &mut Vec<StreamEvent>,
    )
        ensures
            (final(self)@, views(final(events)@)) == texted(
                (old(self)@, views(old(events)@)),
                thought,
                text@,
                opt_view(signature),
                ns@,
            ),
    {
        let continues = match &self.open {
            Some(o) => o.thought == thought && o.signature.is_none() && !o.ns.contains_key("thoughtSignature"),
            None => false,
        };
        if !continues {
            self.open_block(thought, events);
        }
        let mut taken: Option<OpenText> = None;
        std::mem::swap(&mut taken, &mut self.open);
        let mut o = match taken {
            Some(o) => o,
            None => {
                return;
            },
        };
        if !text.as_str().is_empty() {
            o.text.append(text.as_str());
            let delta = if thought { BlockDelta::Thinking(text) } else { BlockDelta::Text(text) };
            events.push(StreamEvent::BlockDelta { index: o.index, delta });
        }
        if let Some(sig) = signature {
            if thought {
                events.push(
                    StreamEvent::BlockDelta { index: o.index, delta: BlockDelta::Signature(sig.clone()) },
                );
                o.signature = Some(sig);
            } else {
                let v = make1("thoughtSignature", Json::Str(sig.clone()));
                events.push(StreamEvent::BlockDelta { index: o.index, delta: BlockDelta::Other(v) });
                o.ns.set("thoughtSignature", Json::Str(sig));
            }
        }
        if !ns.is_empty() {
            extend_map(&mut o.ns, &ns);
            events.push(
                StreamEvent::BlockDelta { index: o.index, delta: BlockDelta::Other(Json::object(ns)) },
            );
        }
        self.open = Some(o);
    }

    fn whole_block(&mut self, block: ContentBlock, events: &mut Vec<StreamEvent>)
        ensures
            (final(self)@, views(final(events)@)) == whole((old(self)@, views(old(events)@)), block@),
    {
        self.close_open(events);
        let index = self.alloc_index();
        events.push(StreamEvent::BlockStart { index, block });
        events.push(StreamEvent::BlockStop { index, block: None });
    }

    fn terminate(&mut self, stop: StopReason, events: &mut Vec<StreamEvent>)
        ensures
            (final(self)@, views(final(events)@)) == ended((old(self)@, views(old(events)@)), stop@),
    {
        self.close_open(events);
        events.push(
            StreamEvent::MessageDelta { stop_reason: Some(stop), usage: dup_opt(&self.last_usage) },
        );
        events.push(StreamEvent::MessageStop);
        self.terminated = true;
    }

    fn feed_parts(&mut self, parts: &Vec<Part>, events: &mut Vec<StreamEvent>, ws: &mut Vec<ConversionWarning>)
        ensures
            ((final(self)@, views(final(events)@)), views(final(ws)@)) == parted(
                (old(self)@, views(old(events)@)),
                views(parts@),
                views(old(ws)@),
                parts@.len(),
            ),
    {
        let ghost f0 = (self@, views(events@));
        let ghost ws0 = views(ws@);
        let mut i: usize = 0;
        while i < parts.len()
            invariant
                i <= parts@.len(),
                ((self@, views(events@)), views(ws@)) == parted(f0, views(parts@), ws0, i as nat),
            decreases parts@.len() - i,
        {
            let loc = cat2("/candidates/0/content/parts/", dec_usize(i).as_str());
            match classify_assistant_part(&parts[i], loc.as_str(), ws) {
                AssistantPart::TextLike { thought, text, signature, ns } => {
                    self.text_part(thought, text, signature, ns, events);
                },
                AssistantPart::Complete(b) => {
                    self.whole_block(b, events);
                },
            }
            i += 1;
        }
    }

    fn feed_candidate(&mut self, c: &Candidate, events: &mut Vec<StreamEvent>, ws: &mut Vec<ConversionWarning>)
        ensures
            ((final(self)@, views(final(events)@)), views(final(ws)@)) == candidate_step(
                (old(self)@, views(old(events)@)),
                c@,
                views(old(ws)@),
            ),
    {
        if let Some(content) = &c.content {
            self.feed_parts(&content.parts, events, ws);
        }
        if let Some(r) = &c.finish_reason {
            self.terminate(map_finish_reason(r.as_str()), events);
        }
    }

    fn feed_chunk(&mut self, w: GenerateContentResponse) -> (r: (Vec<StreamEvent>, Vec<ConversionWarning>))
        ensures
            (views(r.0@), views(r.1@), final(self)@) == chunk_step(old(self)@, w@),
    {
        let mut events: Vec<StreamEvent> = Vec::new();
        let mut ws: Vec<ConversionWarning> = Vec::new();
        if let Some(u) = read_usage(&w.usage_metadata, &mut ws) {
            self.last_usage = Some(u);
        }
        if !self.started {
            self.started = true;
            events.push(
                StreamEvent::MessageStart {
                    id: w.response_id,
                    model: w.model_version,
                    usage: dup_opt(&self.last_usage),
                },
            );
            proof {
                assert(views(events@) =~= message_started(
                    GoogleStreamV { started: false, ..self@ },
                    w@,
                ).1);
            }
        }
        let blocked = match &w.prompt_feedback {
            Some(p) => p.block_reason.is_some(),
            None => false,
        };
        if blocked && w.candidates.len() == 0 {
            self.terminate(StopReason::ContentFilter, &mut events);
            return (events, ws);
        }
        let p = find_primary(&w.candidates);
        if p < w.candidates.len() {
            proof {
                assert(w@.candidates[p as int] == w.candidates@[p as int]@);
            }
            self.feed_candidate(&w.candidates[p], &mut events, &mut ws);
        }
        if others(&w.candidates) {
            self.warn_multi_candidate(&mut ws);
            events.push(StreamEvent::Unknown);
        }
        (events, ws)
    }
}

fn lone_warning(code: WarningCode, message: &str) -> (r: Vec<ConversionWarning>)
    ensures
        views(r@) == gp_noted(Seq::empty(), code, Seq::empty(), message@),
{
    let mut ws: Vec<ConversionWarning> = Vec::new();
    proof {
        reveal_strlit("");
        assert(""@ =~= Seq::<char>::empty());
    }
    parse_warn(&mut ws, GOOGLE_GENERATE_CONTENT, code, "", message);
    ws
}

fn lacks_signal(w: &GenerateContentResponse) -> (r: bool)
    ensures
        r == no_signal(w@),
{
    w.candidates.len() == 0 && w.prompt_feedback.is_none() && w.usage_metadata.is_none() && w.model_version.is_none()
        && w.response_id.is_none()
}

fn is_envelope(j: &Json) -> (r: bool)
    ensures
        r == (json_get(j@, "error"@) is Some && json_get(j@, "error"@)->0 is Object),
{
    match j.get("error") {
        Some(e) => e.as_object().is_some(),
        None => false,
    }
}

impl StreamParser for GoogleStreamParser {
    open spec fn parsed(st: GoogleStreamV, event: SseEventV) -> StepV<GoogleStreamV> {
        google_step(st, event)
    }

    open spec fn finished(st: GoogleStreamV) -> StepV<GoogleStreamV> {
        google_finish(st)
    }

    fn parse(&mut self, event: &SseEvent) -> (r: Result<(Vec<StreamEvent>, Vec<ConversionWarning>), Error>) {
        let chunk = match parse_text(event.data.as_str()) {
            Ok(j) => match GenerateContentResponse::from_json(&j) {
                Ok(w) => Some((j, w)),
                Err(_) => None,
            },
            Err(_) => None,
        };
        match chunk {
            None => Ok(
                (
                    one_event(StreamEvent::Unknown),
                    lone_warning(
                        WarningCode::UnknownStreamEvent,
                        "stream data is not a GenerateContentResponse chunk",
                    ),
                ),
            ),
            Some((j, w)) => {
                if self.terminated {
                    if others(&w.candidates) {
                        let mut ws: Vec<ConversionWarning> = Vec::new();
                        self.warn_multi_candidate(&mut ws);
                        return Ok((one_event(StreamEvent::Unknown), ws));
                    }
                    return Ok(
                        (
                            one_event(StreamEvent::Unknown),
                            lone_warning(
                                WarningCode::UnknownStreamEvent,
                                "chunk received after the stream terminated",
                            ),
                        ),
                    );
                }
                if is_envelope(&j) {
                    return Err(stream_error(&j, event.data.as_str()));
                }
                if lacks_signal(&w) {
                    let ws = if self.no_signal_warned {
                        Vec::new()
                    } else {
                        lone_warning(WarningCode::MalformedField, "stream chunk carries no modeled signal")
                    };
                    self.no_signal_warned = true;
                    return Ok((one_event(StreamEvent::Unknown), ws));
                }
                Ok(self.feed_chunk(w))
            },
        }
    }

    fn finish(&mut self) -> (r: Result<(Vec<StreamEvent>, Vec<ConversionWarning>), Error>) {
        if self.terminated {
            Ok((Vec::new(), Vec::new()))
        } else {
            Err(
                Error::Parse {
                    message: "truncated stream: no finishReason or blocked-prompt chunk was seen".to_owned(),
                    raw: Vec::new(),
                },
            )
        }
    }
}

} // verus!
