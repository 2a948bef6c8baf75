//! A stream put together: the response that its events add up to.

use vstd::prelude::*;
use vstd::string::*;
use crate::client::stream::{StreamItem, StreamItemV};
use crate::convert::{ConversionWarning, ConversionWarningV};
use crate::error::{Error, ErrorV};
use crate::headers::{header_values, no_headers};
use crate::ir::{normalize_stop_reason, normalized_stop_reason, plain_message, text_block, BlockDelta, BlockDeltaV, ContentBlock, ContentBlockV, Message, Role, StopReason, StopReasonV, StreamEvent, StreamEventV, Usage, UsageV};
use crate::model::{dup_opt, dup_vec, group_views, opt_view, views, Dup};
use crate::protocol::{event_taken, events_taken, protocol_start, ProtocolV};
use crate::response::{Response, ResponseV};
use crate::stream::{keyed_get, keyed_get_after_set, keyed_set, keyed_set_keeps_order, keyed_set_keeps_others, keyed_set_twice, keys_rise, place_from, place_from_props, Keyed};
use crate::text::{cat2, dec_usize, decimal};

verus! {

broadcast use group_views;

/// The parts of a response that have arrived so far.
#[derive(Debug)]
pub struct Accumulator {
    pub id: Option<String>,
    pub model: Option<String>,
    /// Blocks by index.
    pub blocks: Keyed<ContentBlock>,
    pub stop_reason: Option<StopReason>,
    pub usage: Option<Usage>,
    /// The message has stopped.
    pub terminated: bool,
    pub status: u16,
    pub headers: http::HeaderMap,
    pub warnings: Vec<ConversionWarning>,
}

/// The mathematical value of an [`Accumulator`].
pub struct AccumulatorV {
    pub id: Option<Seq<char>>,
    pub model: Option<Seq<char>>,
    pub blocks: Seq<(u64, ContentBlockV)>,
    pub stop_reason: Option<StopReasonV>,
    pub usage: Option<UsageV>,
    pub terminated: bool,
    pub status: u16,
    pub headers: http::HeaderMap,
    pub warnings: Seq<ConversionWarningV>,
}

impl View for Accumulator {
    type V = AccumulatorV;

    open spec fn view(&self) -> AccumulatorV {
        AccumulatorV {
            id: opt_view(self.id),
            model: opt_view(self.model),
            blocks: self.blocks@,
            stop_reason: opt_view(self.stop_reason),
            usage: opt_view(self.usage),
            terminated: self.terminated,
            status: self.status,
            headers: self.headers,
            warnings: views(self.warnings@),
        }
    }
}

/// The text, empty when absent.
pub open spec fn text_so_far(t: Option<Seq<char>>) -> Seq<char> {
    match t {
        Some(t) => t,
        None => Seq::empty(),
    }
}

/// A block after a delta: text, thinking, signature and arguments grow; a
/// delta that says nothing of the block leaves it as it is.
pub open spec fn grown_block(b: ContentBlockV, d: BlockDeltaV) -> ContentBlockV {
    match (b, d) {
        (ContentBlockV::Text { text, cache, extra }, BlockDeltaV::Text(s)) => ContentBlockV::Text {
            text: text + s,
            cache,
            extra,
        },
        (ContentBlockV::Thinking { text, signature, extra }, BlockDeltaV::Thinking(s)) => ContentBlockV::Thinking {
            text: Some(text_so_far(text) + s),
            signature,
            extra,
        },
        (ContentBlockV::Thinking { text, signature, extra }, BlockDeltaV::Signature(s)) => ContentBlockV::Thinking {
            text,
            signature: Some(text_so_far(signature) + s),
            extra,
        },
        (ContentBlockV::ToolCall { id, name, arguments, cache, extra }, BlockDeltaV::ToolArguments(s)) => ContentBlockV::ToolCall {
            id,
            name,
            arguments: arguments + s,
            cache,
            extra,
        },
        _ => b,
    }
}

/// The error for an event of a block that never started.
pub open spec fn unknown_block(index: usize) -> ErrorV {
    ErrorV::Parse {
        message: "stream event for unknown block index "@ + decimal(index as nat),
        raw: Seq::empty(),
    }
}

/// What has arrived after one more event.
pub open spec fn event_added(a: AccumulatorV, e: StreamEventV) -> Result<AccumulatorV, ErrorV> {
    match e {
        StreamEventV::MessageStart { id, model, usage } => Ok(
            AccumulatorV {
                id,
                model,
                usage: match usage {
                    Some(u) => Some(u),
                    None => a.usage,
                },
                ..a
            },
        ),
        StreamEventV::BlockStart { index, block } => Ok(
            AccumulatorV { blocks: keyed_set(a.blocks, index as u64, block), ..a },
        ),
        StreamEventV::BlockDelta { index, delta } => match keyed_get(a.blocks, index as u64) {
            Some(b) => Ok(
                AccumulatorV { blocks: keyed_set(a.blocks, index as u64, grown_block(b, delta)), ..a },
            ),
            None => Err(unknown_block(index)),
        },
        StreamEventV::BlockStop { index, block } => match (keyed_get(a.blocks, index as u64), block) {
            (Some(_), Some(b)) => Ok(AccumulatorV { blocks: keyed_set(a.blocks, index as u64, b), ..a }),
            (Some(_), None) => Ok(a),
            (None, _) => Err(unknown_block(index)),
        },
        StreamEventV::MessageDelta { stop_reason, usage } => Ok(
            AccumulatorV {
                stop_reason: match stop_reason {
                    Some(s) => Some(s),
                    None => a.stop_reason,
                },
                usage: match usage {
                    Some(u) => Some(u),
                    None => a.usage,
                },
                ..a
            },
        ),
        StreamEventV::MessageStop => Ok(AccumulatorV { terminated: true, ..a }),
        StreamEventV::Unknown => Ok(a),
    }
}

/// What has arrived after one more item: its event, and its warnings.
pub open spec fn item_added(a: AccumulatorV, item: StreamItemV) -> Result<AccumulatorV, ErrorV> {
    match event_added(a, item.event) {
        Ok(b) => Ok(AccumulatorV { warnings: a.warnings + item.warnings, ..b }),
        Err(e) => Err(e),
    }
}

/// The blocks, in the order of their indexes.
pub open spec fn block_list(blocks: Seq<(u64, ContentBlockV)>) -> Seq<ContentBlockV> {
    blocks.map_values(|p: (u64, ContentBlockV)| p.1)
}

/// The error for a stream that ended before its message stopped.
pub open spec fn unfinished() -> ErrorV {
    ErrorV::Parse {
        message: "truncated stream: the message never stopped"@,
        raw: Seq::empty(),
    }
}

/// The response that has arrived, if its message has stopped.
pub open spec fn collected(a: AccumulatorV) -> Result<ResponseV, ErrorV> {
    if !a.terminated {
        Err(unfinished())
    } else {
        let message = plain_message(Role::Assistant, block_list(a.blocks));
        Ok(
            ResponseV {
                message,
                id: a.id,
                model: a.model,
                stop_reason: normalized_stop_reason(message, a.stop_reason),
                usage: a.usage,
                status: a.status,
                headers: a.headers,
                raw: None,
                warnings: a.warnings,
            },
        )
    }
}

fn grow(b: ContentBlock, d: &BlockDelta) -> (r: ContentBlock)
    ensures
        r@ == grown_block(b@, d@),
{
    match (b, d) {
        (ContentBlock::Text { text, cache, extra }, BlockDelta::Text(s)) => {
            let mut t = text;
            t.append(s.as_str());
            ContentBlock::Text { text: t, cache, extra }
        },
        (ContentBlock::Thinking { text, signature, extra }, BlockDelta::Thinking(s)) => {
            let mut t = match text {
                Some(t) => t,
                None => String::new(),
            };
            t.append(s.as_str());
            ContentBlock::Thinking { text: Some(t), signature, extra }
        },
        (ContentBlock::Thinking { text, signature, extra }, BlockDelta::Signature(s)) => {
            let mut t = match signature {
                Some(t) => t,
                None => String::new(),
            };
            t.append(s.as_str());
            ContentBlock::Thinking { text, signature: Some(t), extra }
        },
        (ContentBlock::ToolCall { id, name, arguments, cache, extra }, BlockDelta::ToolArguments(s)) => {
            let mut t = arguments;
            t.append(s.as_str());
            ContentBlock::ToolCall { id, name, arguments: t, cache, extra }
        },
        (b, _) => b,
    }
}

fn no_such_block(index: usize) -> (r: Error)
    ensures
        r@ == unknown_block(index),
{
    Error::Parse {
        message: cat2("stream event for unknown block index ", dec_usize(index).as_str()),
        raw: Vec::new(),
    }
}

impl Accumulator {
    /// Nothing has arrived.
    pub fn new() -> (r: Accumulator)
        ensures
            r@ == (AccumulatorV {
                id: None,
                model: None,
                blocks: Seq::empty(),
                stop_reason: None,
                usage: None,
                terminated: false,
                status: 200,
                headers: r.headers,
                warnings: Seq::empty(),
            }),
            forall|k: Seq<char>| #[trigger] header_values(r.headers, k).len() == 0,
    {
        Accumulator {
            id: None,
            model: None,
            blocks: Keyed::new(),
            stop_reason: None,
            usage: None,
            terminated: false,
            status: 200,
            headers: no_headers(),
            warnings: Vec::new(),
        }
    }

    /// Sets the HTTP status of the response.
    pub fn set_status(&mut self, status: u16)
        ensures
            final(self)@ == (AccumulatorV { status, ..old(self)@ }),
    {
        self.status = status;
    }

    /// Sets the headers of the response.
    pub fn set_headers(&mut self, headers: http::HeaderMap)
        ensures
            final(self)@ == (AccumulatorV { headers, ..old(self)@ }),
    {
        self.headers = headers;
    }

    /// Adds warnings behind those that are there.
    pub fn extend_warnings(&mut self, warnings: Vec<ConversionWarning>)
        ensures
            final(self)@ == (AccumulatorV { warnings: old(self)@.warnings + views(warnings@), ..old(self)@ }),
    {
        let mut more = warnings;
        self.warnings.append(&mut more);
        proof {
            assert(views(self.warnings@) =~= old(self)@.warnings + views(warnings@));
        }
    }

    fn grow_block(&mut self, index: usize, delta: &BlockDelta) -> (r: bool)
        ensures
            r == (keyed_get(old(self)@.blocks, index as u64) is Some),
            r ==> event_added(old(self)@, StreamEventV::BlockDelta { index, delta: delta@ }) == Ok::<
                AccumulatorV,
                ErrorV,
            >(final(self)@),
            !r ==> final(self)@ == old(self)@,
    {
        let k = index as u64;
        let ghost before = self.blocks@;
        if !self.blocks.has(k) {
            return false;
        }
        let held = self.blocks.replace(k, ContentBlock::text(String::new()));
        let ghost middle = self.blocks@;
        match held {
            Some(b) => {
                let next = grow(b, delta);
                let ghost nv = next@;
                let _ = self.blocks.replace(k, next);
                proof {
                    let empty = text_block(Seq::empty());
                    assert(middle == keyed_set(before, k, empty)) by {
                        reveal_strlit("");
                    }
                    keyed_set_twice(before, k, empty, nv);
                }
                true
            },
            None => false,
        }
    }

    /// Adds one item of the stream. An event of a block that never started is
    /// an error, and changes nothing.
    pub fn push(&mut self, item: &StreamItem) -> (r: Result<(), Error>)
        ensures
            match r {
                Ok(_) => item_added(old(self)@, item@) == Ok::<AccumulatorV, ErrorV>(final(self)@),
                Err(e) => item_added(old(self)@, item@) == Err::<AccumulatorV, ErrorV>(e@) && final(self)@ == old(
                    self,
                )@,
            },
    {
        match &item.event {
            StreamEvent::MessageStart { id, model, usage } => {
                self.id = dup_opt(id);
                self.model = dup_opt(model);
                if usage.is_some() {
                    self.usage = dup_opt(usage);
                }
            },
            StreamEvent::BlockStart { index, block } => {
                let _ = self.blocks.replace(*index as u64, block.dup());
            },
            StreamEvent::BlockDelta { index, delta } => {
                if !self.grow_block(*index, delta) {
                    return Err(no_such_block(*index));
                }
            },
            StreamEvent::BlockStop { index, block } => {
                if !self.blocks.has(*index as u64) {
                    return Err(no_such_block(*index));
                }
                if let Some(b) = block {
                    let _ = self.blocks.replace(*index as u64, b.dup());
                }
            },
            StreamEvent::MessageDelta { stop_reason, usage } => {
                if stop_reason.is_some() {
                    self.stop_reason = dup_opt(stop_reason);
                }
                if usage.is_some() {
                    self.usage = dup_opt(usage);
                }
            },
            StreamEvent::MessageStop => {
                self.terminated = true;
            },
            StreamEvent::Unknown => {},
        }
        let mut more = dup_vec(&item.warnings);
        let ghost w0 = views(self.warnings@);
        self.warnings.append(&mut more);
        proof {
            assert(views(self.warnings@) =~= w0 + item@.warnings);
        }
        Ok(())
    }

    /// The response that the stream added up to; an error when its message
    /// never stopped.
    pub fn finish(self) -> (r: Result<Response, Error>)
        ensures
            match r {
                Ok(v) => collected(self@) == Ok::<ResponseV, ErrorV>(v@),
                Err(e) => collected(self@) == Err::<ResponseV, ErrorV>(e@),
            },
    {
        if !self.terminated {
            return Err(
                Error::Parse {
                    message: "truncated stream: the message never stopped".to_owned(),
                    raw: Vec::new(),
                },
            );
        }
        let message = Message::assistant(self.blocks.into_values());
        let stop_reason = normalize_stop_reason(&message, self.stop_reason);
        Ok(
            Response {
                message,
                id: self.id,
                model: self.model,
                stop_reason,
                usage: self.usage,
                status: self.status,
                headers: self.headers,
                raw: None,
                warnings: self.warnings,
            },
        )
    }
}

/// Every open block has arrived.
pub open spec fn follows(a: AccumulatorV, p: ProtocolV) -> bool {
    &&& a.terminated == p.stopped
    &&& forall|i: usize| #[trigger] p.open.contains(i) ==> keyed_get(a.blocks, i as u64) is Some
}

/// Events in order always add up: none is refused, and the response is there
/// exactly when the message has stopped.
pub proof fn orderly_events_add_up(a: AccumulatorV, p: ProtocolV, e: StreamEventV)
    requires
        follows(a, p),
        event_taken(p, e) is Some,
    ensures
        event_added(a, e) is Ok,
        follows(event_added(a, e)->Ok_0, event_taken(p, e)->0),
        collected(event_added(a, e)->Ok_0) is Ok <==> event_taken(p, e)->0.stopped,
{
    let q = event_taken(p, e)->0;
    match e {
        StreamEventV::BlockStart { index, block } => {
            let b = event_added(a, e)->Ok_0.blocks;
            keyed_get_after_set(a.blocks, index as u64, block);
            assert forall|i: usize| #[trigger] q.open.contains(i) implies keyed_get(b, i as u64) is Some by {
                if i != index {
                    assert(p.open.contains(i));
                    keyed_set_keeps_others(a.blocks, index as u64, block, i as u64);
                }
            }
        },
        StreamEventV::BlockDelta { index, delta } => {
            assert(p.open.contains(index));
            let g = grown_block(keyed_get(a.blocks, index as u64)->0, delta);
            let b = event_added(a, e)->Ok_0.blocks;
            keyed_get_after_set(a.blocks, index as u64, g);
            assert forall|i: usize| #[trigger] q.open.contains(i) implies keyed_get(b, i as u64) is Some by {
                if i != index {
                    assert(p.open.contains(i));
                    keyed_set_keeps_others(a.blocks, index as u64, g, i as u64);
                }
            }
        },
        StreamEventV::BlockStop { index, block } => {
            assert(p.open.contains(index));
            let b = event_added(a, e)->Ok_0.blocks;
            assert forall|i: usize| #[trigger] q.open.contains(i) implies keyed_get(b, i as u64) is Some by {
                assert(p.open.contains(i));
                if block is Some && i != index {
                    keyed_set_keeps_others(a.blocks, index as u64, block->0, i as u64);
                }
            }
        },
        _ => {},
    }
}

/// What has arrived after these events.
pub open spec fn events_added(a: AccumulatorV, es: Seq<StreamEventV>) -> Result<AccumulatorV, ErrorV>
    decreases es.len(),
{
    if es.len() == 0 {
        Ok(a)
    } else {
        match events_added(a, es.drop_last()) {
            Err(e) => Err(e),
            Ok(b) => event_added(b, es.last()),
        }
    }
}

/// One more event is added after the others.
pub proof fn added_one_more(a: AccumulatorV, es: Seq<StreamEventV>, e: StreamEventV)
    ensures
        events_added(a, es.push(e)) == match events_added(a, es) {
            Err(x) => Err(x),
            Ok(b) => event_added(b, e),
        },
{
    assert(es.push(e).drop_last() =~= es);
}

/// A stream whose events are in order adds up from its start, and to a
/// response exactly when its message has stopped.
pub proof fn orderly_stream_adds_up(a: AccumulatorV, es: Seq<StreamEventV>)
    requires
        !a.terminated,
        events_taken(protocol_start(), es) is Some,
    ensures
        events_added(a, es) is Ok,
        follows(events_added(a, es)->Ok_0, events_taken(protocol_start(), es)->0),
        collected(events_added(a, es)->Ok_0) is Ok <==> events_taken(protocol_start(), es)->0.stopped,
    decreases es.len(),
{
    if es.len() > 0 {
        let prev = es.drop_last();
        orderly_stream_adds_up(a, prev);
        orderly_events_add_up(
            events_added(a, prev)->Ok_0,
            events_taken(protocol_start(), prev)->0,
            es.last(),
        );
    }
}

/// The block that an event is about.
pub open spec fn about(e: StreamEventV) -> Option<usize> {
    match e {
        StreamEventV::BlockStart { index, .. } => Some(index),
        StreamEventV::BlockDelta { index, .. } => Some(index),
        StreamEventV::BlockStop { index, .. } => Some(index),
        _ => None,
    }
}

/// An event leaves the blocks alone that it is not about.
pub proof fn other_blocks_stay(a: AccumulatorV, e: StreamEventV, index: usize)
    requires
        about(e) != Some(index),
        keyed_get(a.blocks, index as u64) is Some,
        event_added(a, e) is Ok,
    ensures
        keyed_get(event_added(a, e)->Ok_0.blocks, index as u64) == keyed_get(a.blocks, index as u64),
{
    match e {
        StreamEventV::BlockStart { index: i, block } => {
            keyed_set_keeps_others(a.blocks, i as u64, block, index as u64);
        },
        StreamEventV::BlockDelta { index: i, delta } => {
            let g = grown_block(keyed_get(a.blocks, i as u64)->0, delta);
            keyed_set_keeps_others(a.blocks, i as u64, g, index as u64);
        },
        StreamEventV::BlockStop { index: i, block } => {
            if let Some(b) = block {
                keyed_set_keeps_others(a.blocks, i as u64, b, index as u64);
            }
        },
        _ => {},
    }
}

/// However the events of several blocks are interleaved, the message holds for
/// each block what its stop carries, once nothing more comes for that block.
pub proof fn stopped_blocks_are_collected(a: AccumulatorV, es: Seq<StreamEventV>, at: int)
    requires
        0 <= at < es.len(),
        es[at] is BlockStop,
        es[at]->BlockStop_block is Some,
        forall|i: int| at < i < es.len() ==> about(#[trigger] es[i]) != Some(es[at]->BlockStop_index),
        events_added(a, es) is Ok,
    ensures
        keyed_get(events_added(a, es)->Ok_0.blocks, es[at]->BlockStop_index as u64) == es[at]->BlockStop_block,
    decreases es.len(),
{
    let index = es[at]->BlockStop_index;
    let prev = es.drop_last();
    let b = events_added(a, prev)->Ok_0;
    if at == es.len() - 1 {
        keyed_get_after_set(b.blocks, index as u64, es[at]->BlockStop_block->0);
    } else {
        assert(prev[at] == es[at]);
        assert forall|i: int| at < i < prev.len() implies about(#[trigger] prev[i]) != Some(prev[at]->BlockStop_index) by {
            assert(prev[i] == es[i]);
        }
        stopped_blocks_are_collected(a, prev, at);
        assert(about(es[es.len() - 1]) != Some(index));
        other_blocks_stay(b, es.last(), index);
    }
}

/// All keys are below `n`.
spec fn keys_below(s: Seq<(u64, ContentBlockV)>, n: nat) -> bool {
    forall|i: int| 0 <= i < s.len() ==> (#[trigger] s[i]).0 < n
}

proof fn keys_stay_in_order(a: AccumulatorV, es: Seq<StreamEventV>, n: nat)
    requires
        a.blocks.len() == 0,
        events_added(a, es) is Ok,
        forall|i: int| 0 <= i < es.len() && about(#[trigger] es[i]) is Some ==> about(es[i])->0 < n,
    ensures
        keys_rise(events_added(a, es)->Ok_0.blocks),
        keys_below(events_added(a, es)->Ok_0.blocks, n),
    decreases es.len(),
{
    if es.len() > 0 {
        let prev = es.drop_last();
        let e = es.last();
        assert(e == es[es.len() - 1]);
        assert forall|i: int| 0 <= i < prev.len() && about(#[trigger] prev[i]) is Some implies about(prev[i])->0 < n by {
            assert(prev[i] == es[i]);
        }
        keys_stay_in_order(a, prev, n);
        let b = events_added(a, prev)->Ok_0;
        let set = match e {
            StreamEventV::BlockStart { index, block } => Some((index, block)),
            StreamEventV::BlockDelta { index, delta } => Some(
                (index, grown_block(keyed_get(b.blocks, index as u64)->0, delta)),
            ),
            StreamEventV::BlockStop { index, block } => match block {
                Some(x) => Some((index, x)),
                None => None,
            },
            _ => None,
        };
        if let Some((index, block)) = set {
            keyed_set_keeps_order(b.blocks, index as u64, block);
            place_from_props(b.blocks, index as u64, 0);
            let t = keyed_set(b.blocks, index as u64, block);
            let p = place_from(b.blocks, index as u64, 0);
            assert forall|i: int| 0 <= i < t.len() implies (#[trigger] t[i]).0 < n by {
                if p < b.blocks.len() && b.blocks[p].0 == index as u64 {
                    if i != p {
                        assert(t[i] == b.blocks[i]);
                    }
                } else if i < p {
                    assert(t[i] == b.blocks[i]);
                } else if i > p {
                    assert(t[i] == b.blocks[i - 1]);
                }
            }
        }
    }
}

/// Rising keys below `n` that are all there are counted from zero.
proof fn keys_are_counted(s: Seq<(u64, ContentBlockV)>, n: nat, i: nat)
    requires
        keys_rise(s),
        keys_below(s, n),
        forall|k: u64| k < n ==> (#[trigger] keyed_get(s, k)) is Some,
        i <= s.len(),
        n <= u64::MAX,
    ensures
        forall|j: int| 0 <= j < i ==> (#[trigger] s[j]).0 == j,
    decreases i,
{
    if i > 0 {
        let p = (i - 1) as nat;
        keys_are_counted(s, n, p);
        if p > 0 {
            assert(s[p - 1].0 < s[p as int].0);
        }
        assert(s[p as int].0 >= p);
        if s[p as int].0 > p {
            let k = p as u64;
            assert(keyed_get(s, k) is Some);
            place_from_props(s, k, 0);
            let q = place_from(s, k, 0);
            if q < p {
                assert(s[q].0 == q);
            } else if q > p {
                assert(s[p as int].0 < s[q].0);
            }
        }
    }
}

/// The message of a stream is made of the blocks that their stops carry, in the
/// order of their numbers, however the events of the blocks were interleaved:
/// `places` says where block by block the stop stands.
pub proof fn message_is_its_stopped_blocks(a: AccumulatorV, es: Seq<StreamEventV>, places: Seq<int>)
    requires
        a.blocks.len() == 0,
        events_added(a, es) is Ok,
        places.len() <= usize::MAX,
        forall|i: int| 0 <= i < es.len() && about(#[trigger] es[i]) is Some ==> about(es[i])->0 < places.len(),
        forall|k: int|
            0 <= k < places.len() ==> 0 <= #[trigger] places[k] < es.len() && es[places[k]] is BlockStop
                && es[places[k]]->BlockStop_index == k && es[places[k]]->BlockStop_block is Some,
        forall|k: int, i: int|
            0 <= k < places.len() && places[k] < i < es.len() ==> about(#[trigger] es[i]) != Some(
                es[#[trigger] places[k]]->BlockStop_index,
            ),
    ensures
        block_list(events_added(a, es)->Ok_0.blocks) == Seq::new(
            places.len(),
            |k: int| es[places[k]]->BlockStop_block->0,
        ),
{
    let n = places.len();
    let s = events_added(a, es)->Ok_0.blocks;
    keys_stay_in_order(a, es, n);
    assert forall|k: u64| k < n implies (#[trigger] keyed_get(s, k)) == es[places[k as int]]->BlockStop_block by {
        let at = places[k as int];
        stopped_blocks_are_collected(a, es, at);
    }
    keys_are_counted(s, n, s.len());
    assert(s.len() == n) by {
        if s.len() > n {
            assert(s[n as int].0 < n);
        }
        if s.len() < n {
            let k = (n - 1) as u64;
            assert(keyed_get(s, k) is Some);
            place_from_props(s, k, 0);
        }
    }
    assert forall|k: int| 0 <= k < n implies (#[trigger] s[k]).1 == es[places[k]]->BlockStop_block->0 by {
        place_from_props(s, k as u64, 0);
        let q = place_from(s, k as u64, 0);
        assert(keyed_get(s, k as u64) is Some);
        assert(s[q].0 == q);
    }
    assert(block_list(s) =~= Seq::new(n, |k: int| es[places[k]]->BlockStop_block->0));
}

} // verus!
