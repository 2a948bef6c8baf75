//! Laws: what a collected response holds, in terms of the items of its stream.

use vstd::prelude::*;
use crate::accumulate::{about, block_list, collected, grown_block, item_added, other_blocks_stay, AccumulatorV};
use crate::client::stream::StreamItemV;
use crate::convert::ConversionWarningV;
use crate::error::ErrorV;
use crate::ir::{BlockDeltaV, ContentBlockV, Role, StopReasonV, StreamEventV, UsageV};
use crate::response::ResponseV;
use crate::stream::{keyed_get, keyed_get_after_set};

verus! {

/// What has arrived after these items.
pub open spec fn items_added(a: AccumulatorV, items: Seq<StreamItemV>) -> Result<AccumulatorV, ErrorV>
    decreases items.len(),
{
    if items.len() == 0 {
        Ok(a)
    } else {
        match items_added(a, items.drop_last()) {
            Err(e) => Err(e),
            Ok(b) => item_added(b, items.last()),
        }
    }
}

/// The usage that an event reports.
pub open spec fn reported_usage(e: StreamEventV) -> Option<UsageV> {
    match e {
        StreamEventV::MessageStart { usage, .. } => usage,
        StreamEventV::MessageDelta { usage, .. } => usage,
        _ => None,
    }
}

/// The stop reason that an event reports.
pub open spec fn reported_stop(e: StreamEventV) -> Option<StopReasonV> {
    match e {
        StreamEventV::MessageDelta { stop_reason, .. } => stop_reason,
        _ => None,
    }
}

/// The items add up to a response.
pub open spec fn add_up(a: AccumulatorV, items: Seq<StreamItemV>) -> bool {
    items_added(a, items) is Ok && collected(items_added(a, items)->Ok_0) is Ok
}

/// The response that the items add up to.
pub open spec fn sum(a: AccumulatorV, items: Seq<StreamItemV>) -> ResponseV {
    collected(items_added(a, items)->Ok_0)->Ok_0
}

proof fn usage_so_far(a: AccumulatorV, items: Seq<StreamItemV>, at: int)
    requires
        -1 <= at < items.len(),
        at >= 0 ==> reported_usage(items[at].event) is Some,
        forall|i: int| at < i < items.len() ==> reported_usage((#[trigger] items[i]).event) is None,
        items_added(a, items) is Ok,
    ensures
        items_added(a, items)->Ok_0.usage == (if at >= 0 { reported_usage(items[at].event) } else { a.usage }),
    decreases items.len(),
{
    if items.len() > 0 {
        let prev = items.drop_last();
        if at < items.len() - 1 {
            assert forall|i: int| at < i < prev.len() implies reported_usage((#[trigger] prev[i]).event) is None by {
                assert(prev[i] == items[i]);
            }
            if at >= 0 {
                assert(prev[at] == items[at]);
            }
            usage_so_far(a, prev, at);
            assert(reported_usage(items[items.len() - 1].event) is None);
        }
    }
}

/// The usage of a collected response is that of the last event, `MessageStart`
/// or `MessageDelta`, that reports one: counts are cumulative, so later reports
/// replace earlier ones.
pub proof fn usage_is_the_last_one_reported(a: AccumulatorV, items: Seq<StreamItemV>, at: int)
    requires
        0 <= at < items.len(),
        reported_usage(items[at].event) is Some,
        forall|i: int| at < i < items.len() ==> reported_usage((#[trigger] items[i]).event) is None,
        add_up(a, items),
    ensures
        sum(a, items).usage == reported_usage(items[at].event),
{
    usage_so_far(a, items, at);
}

/// A response of which no event reported a usage has the one from before.
pub proof fn no_usage_is_made_up(a: AccumulatorV, items: Seq<StreamItemV>)
    requires
        forall|i: int| 0 <= i < items.len() ==> reported_usage((#[trigger] items[i]).event) is None,
        add_up(a, items),
    ensures
        sum(a, items).usage == a.usage,
{
    usage_so_far(a, items, -1);
}

proof fn stop_so_far(a: AccumulatorV, items: Seq<StreamItemV>, at: int)
    requires
        -1 <= at < items.len(),
        at >= 0 ==> reported_stop(items[at].event) is Some,
        forall|i: int| at < i < items.len() ==> reported_stop((#[trigger] items[i]).event) is None,
        items_added(a, items) is Ok,
    ensures
        items_added(a, items)->Ok_0.stop_reason == (if at >= 0 { reported_stop(items[at].event) } else { a.stop_reason }),
    decreases items.len(),
{
    if items.len() > 0 {
        let prev = items.drop_last();
        if at < items.len() - 1 {
            assert forall|i: int| at < i < prev.len() implies reported_stop((#[trigger] prev[i]).event) is None by {
                assert(prev[i] == items[i]);
            }
            if at >= 0 {
                assert(prev[at] == items[at]);
            }
            stop_so_far(a, prev, at);
            assert(reported_stop(items[items.len() - 1].event) is None);
        }
    }
}

/// The stop reason of a collected response is the last one reported; ending the
/// turn with a tool call in the message is a stop for tool use, and nothing else
/// is changed.
pub proof fn stop_reason_is_the_last_one_reported(a: AccumulatorV, items: Seq<StreamItemV>, at: int)
    requires
        0 <= at < items.len(),
        reported_stop(items[at].event) is Some,
        forall|i: int| at < i < items.len() ==> reported_stop((#[trigger] items[i]).event) is None,
        add_up(a, items),
    ensures
        ({
            let r = sum(a, items);
            let s = reported_stop(items[at].event)->0;
            &&& s != StopReasonV::EndTurn ==> r.stop_reason == Some(s)
            &&& s == StopReasonV::EndTurn && (forall|i: int|
                0 <= i < r.message.content.len() ==> !((#[trigger] r.message.content[i]) is ToolCall))
                ==> r.stop_reason == Some(StopReasonV::EndTurn)
            &&& s == StopReasonV::EndTurn && (exists|i: int|
                0 <= i < r.message.content.len() && (#[trigger] r.message.content[i]) is ToolCall)
                ==> r.stop_reason == Some(StopReasonV::ToolUse)
        }),
{
    stop_so_far(a, items, at);
}

/// Without a reported stop reason there is none.
pub proof fn no_stop_reason_is_made_up(a: AccumulatorV, items: Seq<StreamItemV>)
    requires
        a.stop_reason is None,
        forall|i: int| 0 <= i < items.len() ==> reported_stop((#[trigger] items[i]).event) is None,
        add_up(a, items),
    ensures
        sum(a, items).stop_reason is None,
{
    stop_so_far(a, items, -1);
}

proof fn start_so_far(a: AccumulatorV, items: Seq<StreamItemV>, at: int)
    requires
        -1 <= at < items.len(),
        at >= 0 ==> items[at].event is MessageStart,
        forall|i: int| at < i < items.len() ==> !((#[trigger] items[i]).event is MessageStart),
        items_added(a, items) is Ok,
    ensures
        ({
            let b = items_added(a, items)->Ok_0;
            &&& b.id == (if at >= 0 { items[at].event->id } else { a.id })
            &&& b.model == (if at >= 0 { items[at].event->model } else { a.model })
        }),
    decreases items.len(),
{
    if items.len() > 0 {
        let prev = items.drop_last();
        if at < items.len() - 1 {
            assert forall|i: int| at < i < prev.len() implies !((#[trigger] prev[i]).event is MessageStart) by {
                assert(prev[i] == items[i]);
            }
            if at >= 0 {
                assert(prev[at] == items[at]);
            }
            start_so_far(a, prev, at);
            assert(!(items[items.len() - 1].event is MessageStart));
        }
    }
}

/// Id and model of a collected response are those of its start.
pub proof fn id_and_model_are_those_of_the_start(a: AccumulatorV, items: Seq<StreamItemV>, at: int)
    requires
        0 <= at < items.len(),
        items[at].event is MessageStart,
        forall|i: int| at < i < items.len() ==> !((#[trigger] items[i]).event is MessageStart),
        add_up(a, items),
    ensures
        sum(a, items).id == items[at].event->id,
        sum(a, items).model == items[at].event->model,
{
    start_so_far(a, items, at);
}

/// The warnings of items, in order.
pub open spec fn all_warnings(items: Seq<StreamItemV>) -> Seq<ConversionWarningV>
    decreases items.len(),
{
    if items.len() == 0 {
        Seq::empty()
    } else {
        all_warnings(items.drop_last()) + items.last().warnings
    }
}

/// A collected response is an assistant message with the status and the headers
/// that were set, no raw body, and every warning of its items in order.
pub proof fn nothing_of_the_items_is_lost(a: AccumulatorV, items: Seq<StreamItemV>)
    requires
        items_added(a, items) is Ok,
    ensures
        items_added(a, items)->Ok_0.warnings == a.warnings + all_warnings(items),
        items_added(a, items)->Ok_0.status == a.status,
        items_added(a, items)->Ok_0.headers == a.headers,
        add_up(a, items) ==> {
            let r = sum(a, items);
            &&& r.message.role == Role::Assistant
            &&& r.message.content == block_list(items_added(a, items)->Ok_0.blocks)
            &&& r.warnings == a.warnings + all_warnings(items)
            &&& r.status == a.status
            &&& r.headers == a.headers
            &&& r.raw is None
        },
    decreases items.len(),
{
    if items.len() > 0 {
        nothing_of_the_items_is_lost(a, items.drop_last());
        let w = all_warnings(items.drop_last());
        assert(a.warnings + w + items.last().warnings =~= a.warnings + (w + items.last().warnings));
    } else {
        assert(a.warnings + all_warnings(items) =~= a.warnings);
    }
}

/// A response has arrived exactly when a `MessageStop` has.
pub proof fn collected_once_the_message_stopped(a: AccumulatorV, items: Seq<StreamItemV>)
    requires
        !a.terminated,
        items_added(a, items) is Ok,
    ensures
        add_up(a, items) <==> exists|i: int| 0 <= i < items.len() && (#[trigger] items[i]).event is MessageStop,
    decreases items.len(),
{
    if items.len() > 0 {
        let prev = items.drop_last();
        collected_once_the_message_stopped(a, prev);
        if add_up(a, prev) {
            let i = choose|i: int| 0 <= i < prev.len() && (#[trigger] prev[i]).event is MessageStop;
            assert(items[i].event is MessageStop);
        }
        if items.last().event is MessageStop {
            assert(items[items.len() - 1].event is MessageStop);
        }
        if exists|i: int| 0 <= i < items.len() && (#[trigger] items[i]).event is MessageStop {
            let i = choose|i: int| 0 <= i < items.len() && (#[trigger] items[i]).event is MessageStop;
            if i < prev.len() {
                assert(prev[i] == items[i]);
            }
        }
    }
}

/// The text that the deltas of block `index` bring from item `from` on.
pub open spec fn streamed_text(items: Seq<StreamItemV>, index: usize, from: int) -> Seq<char>
    decreases items.len(),
{
    if items.len() == 0 || items.len() <= from {
        Seq::empty()
    } else {
        streamed_text(items.drop_last(), index, from) + match items.last().event {
            StreamEventV::BlockDelta { index: i, delta: BlockDeltaV::Text(s) } if i == index => s,
            _ => Seq::empty(),
        }
    }
}

/// The thinking that the deltas of block `index` bring from item `from` on.
pub open spec fn streamed_thinking(items: Seq<StreamItemV>, index: usize, from: int) -> Seq<char>
    decreases items.len(),
{
    if items.len() == 0 || items.len() <= from {
        Seq::empty()
    } else {
        streamed_thinking(items.drop_last(), index, from) + match items.last().event {
            StreamEventV::BlockDelta { index: i, delta: BlockDeltaV::Thinking(s) } if i == index => s,
            _ => Seq::empty(),
        }
    }
}

/// The signature that the deltas of block `index` bring from item `from` on.
pub open spec fn streamed_signature(items: Seq<StreamItemV>, index: usize, from: int) -> Seq<char>
    decreases items.len(),
{
    if items.len() == 0 || items.len() <= from {
        Seq::empty()
    } else {
        streamed_signature(items.drop_last(), index, from) + match items.last().event {
            StreamEventV::BlockDelta { index: i, delta: BlockDeltaV::Signature(s) } if i == index => s,
            _ => Seq::empty(),
        }
    }
}

/// The arguments that the deltas of block `index` bring from item `from` on.
pub open spec fn streamed_arguments(items: Seq<StreamItemV>, index: usize, from: int) -> Seq<char>
    decreases items.len(),
{
    if items.len() == 0 || items.len() <= from {
        Seq::empty()
    } else {
        streamed_arguments(items.drop_last(), index, from) + match items.last().event {
            StreamEventV::BlockDelta { index: i, delta: BlockDeltaV::ToolArguments(s) } if i == index => s,
            _ => Seq::empty(),
        }
    }
}

/// An item only grows block `index`, or is not about it.
pub open spec fn only_grows(item: StreamItemV, index: usize) -> bool {
    match item.event {
        StreamEventV::BlockStart { index: i, .. } => i != index,
        StreamEventV::BlockStop { index: i, block } => i != index || block is None,
        _ => true,
    }
}

/// The text is `head` and then `more`, if there is any.
pub open spec fn text_grew(now: Option<Seq<char>>, head: Option<Seq<char>>, more: Seq<char>) -> bool {
    match (now, head) {
        (Some(t), Some(h)) => t == h + more,
        (Some(t), None) => t == more,
        (None, None) => more.len() == 0,
        (None, Some(_)) => false,
    }
}

/// A block that starts and then only grows is collected with everything that
/// its deltas brought behind what it started with, and is otherwise as it
/// started.
pub proof fn started_block_takes_in_its_deltas(a: AccumulatorV, items: Seq<StreamItemV>, at: int)
    requires
        0 <= at < items.len(),
        items[at].event is BlockStart,
        forall|i: int| at < i < items.len() ==> only_grows(#[trigger] items[i], items[at].event->BlockStart_index),
        items_added(a, items) is Ok,
    ensures
        ({
            let index = items[at].event->BlockStart_index;
            match (items[at].event->BlockStart_block, keyed_get(items_added(a, items)->Ok_0.blocks, index as u64)) {
                (ContentBlockV::Text { text, cache, extra }, Some(b)) => b == (ContentBlockV::Text {
                    text: text + streamed_text(items, index, at + 1),
                    cache,
                    extra,
                }),
                (ContentBlockV::Thinking { text, signature, extra }, Some(b)) => {
                    &&& b is Thinking
                    &&& b->Thinking_extra == extra
                    &&& text_grew(b->Thinking_text, text, streamed_thinking(items, index, at + 1))
                    &&& text_grew(b->Thinking_signature, signature, streamed_signature(items, index, at + 1))
                },
                (ContentBlockV::ToolCall { id, name, arguments, cache, extra }, Some(b)) => b
                    == (ContentBlockV::ToolCall {
                    id,
                    name,
                    arguments: arguments + streamed_arguments(items, index, at + 1),
                    cache,
                    extra,
                }),
                (start, Some(b)) => b == start,
                (_, None) => false,
            }
        }),
    decreases items.len(),
{
    let index = items[at].event->BlockStart_index;
    let start = items[at].event->BlockStart_block;
    let prev = items.drop_last();
    let none = Seq::<char>::empty();
    if at == items.len() - 1 {
        let b = items_added(a, prev)->Ok_0;
        keyed_get_after_set(b.blocks, index as u64, start);
        match start {
            ContentBlockV::Text { text, .. } => {
                assert(text + none =~= text);
            },
            ContentBlockV::Thinking { text, signature, .. } => {
                if let Some(t) = text {
                    assert(t + none =~= t);
                }
                if let Some(t) = signature {
                    assert(t + none =~= t);
                }
            },
            ContentBlockV::ToolCall { arguments, .. } => {
                assert(arguments + none =~= arguments);
            },
            _ => {},
        }
    } else {
        assert(prev[at] == items[at]);
        assert forall|i: int| at < i < prev.len() implies only_grows(#[trigger] prev[i], index) by {
            assert(prev[i] == items[i]);
        }
        started_block_takes_in_its_deltas(a, prev, at);
        block_grows_by_one(a, items, at);
    }
}

proof fn block_grows_by_one(a: AccumulatorV, items: Seq<StreamItemV>, at: int)
    requires
        0 <= at < items.len() - 1,
        items[at].event is BlockStart,
        only_grows(items.last(), items[at].event->BlockStart_index),
        items_added(a, items) is Ok,
        keyed_get(items_added(a, items.drop_last())->Ok_0.blocks, items[at].event->BlockStart_index as u64) is Some,
    ensures
        ({
            let index = items[at].event->BlockStart_index;
            let prev = items.drop_last();
            let was = keyed_get(items_added(a, prev)->Ok_0.blocks, index as u64)->0;
            let now = keyed_get(items_added(a, items)->Ok_0.blocks, index as u64);
            &&& now is Some
            &&& match was {
                ContentBlockV::Text { text, cache, extra } => now == Some(
                    ContentBlockV::Text { text: now->0->Text_text, cache, extra },
                ) && forall|h: Seq<char>| #[trigger] (h + streamed_text(prev, index, at + 1)) == text ==> now->0->Text_text
                    == h + streamed_text(items, index, at + 1),
                ContentBlockV::Thinking { text, signature, extra } => now->0 is Thinking && now->0->Thinking_extra == extra
                    && (forall|h: Option<Seq<char>>| #[trigger]
                    text_grew(text, h, streamed_thinking(prev, index, at + 1)) ==> text_grew(
                        now->0->Thinking_text,
                        h,
                        streamed_thinking(items, index, at + 1),
                    )) && (forall|h: Option<Seq<char>>| #[trigger]
                    text_grew(signature, h, streamed_signature(prev, index, at + 1)) ==> text_grew(
                        now->0->Thinking_signature,
                        h,
                        streamed_signature(items, index, at + 1),
                    )),
                ContentBlockV::ToolCall { id, name, arguments, cache, extra } => now == Some(
                    ContentBlockV::ToolCall { id, name, arguments: now->0->ToolCall_arguments, cache, extra },
                ) && forall|h: Seq<char>| #[trigger]
                    (h + streamed_arguments(prev, index, at + 1)) == arguments ==> now->0->ToolCall_arguments == h
                        + streamed_arguments(items, index, at + 1),
                _ => now == Some(was),
            }
        }),
{
    let index = items[at].event->BlockStart_index;
    let prev = items.drop_last();
    let b = items_added(a, prev)->Ok_0;
    let was = keyed_get(b.blocks, index as u64)->0;
    let e = items.last().event;
    let none = Seq::<char>::empty();
    let t = streamed_text(prev, index, at + 1);
    let k = streamed_thinking(prev, index, at + 1);
    let s = streamed_signature(prev, index, at + 1);
    let g = streamed_arguments(prev, index, at + 1);
    assert(t + none =~= t && k + none =~= k && s + none =~= s && g + none =~= g);
    if about(e) != Some(index) {
        other_blocks_stay(b, e, index);
    } else if let StreamEventV::BlockDelta { index: i, delta } = e {
        let grown = grown_block(was, delta);
        keyed_get_after_set(b.blocks, index as u64, grown);
        match delta {
            BlockDeltaV::Text(f) => {
                assert forall|h: Seq<char>| #[trigger] (h + t) == h + t implies h + t + f == h + (t + f) by {
                    assert(h + t + f =~= h + (t + f));
                }
            },
            BlockDeltaV::Thinking(f) => {
                assert forall|h: Seq<char>| #[trigger] (h + k) == h + k implies h + k + f == h + (k + f) by {
                    assert(h + k + f =~= h + (k + f));
                }
                assert(none + f =~= f && none + k =~= k);
                assert(k.len() == 0 ==> k + f =~= f);
            },
            BlockDeltaV::Signature(f) => {
                assert forall|h: Seq<char>| #[trigger] (h + s) == h + s implies h + s + f == h + (s + f) by {
                    assert(h + s + f =~= h + (s + f));
                }
                assert(none + f =~= f);
                assert(s.len() == 0 ==> s + f =~= f);
            },
            BlockDeltaV::ToolArguments(f) => {
                assert forall|h: Seq<char>| #[trigger] (h + g) == h + g implies h + g + f == h + (g + f) by {
                    assert(h + g + f =~= h + (g + f));
                }
            },
            _ => {},
        }
    }
}

} // verus!
