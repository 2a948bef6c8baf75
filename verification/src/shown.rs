//! Laws: what the fragments of a stream show is what its stops carry.

use vstd::prelude::*;
use crate::accumulate::{added_one_more, events_added, AccumulatorV};
use crate::ir::{ContentBlockV, StreamEventV};
use crate::stream::keyed_get;

verus! {

/// The text, empty when absent.
pub open spec fn or_empty(t: Option<Seq<char>>) -> Seq<char> {
    match t {
        Some(t) => t,
        None => Seq::empty(),
    }
}

/// The finished block says what its fragments showed: the same text, the same
/// thinking and signature, the same arguments. A call whose arguments came in no
/// fragment may have them from its start.
pub open spec fn agrees(shown: ContentBlockV, stop: ContentBlockV) -> bool {
    match (shown, stop) {
        (ContentBlockV::Text { text: a, .. }, ContentBlockV::Text { text: b, .. }) => a == b,
        (
            ContentBlockV::Thinking { text: a, signature: s, .. },
            ContentBlockV::Thinking { text: b, signature: t, .. },
        ) => or_empty(a) == or_empty(b) && or_empty(s) == or_empty(t),
        (ContentBlockV::ToolCall { arguments: a, .. }, ContentBlockV::ToolCall { arguments: b, .. }) => a == b
            || a.len() == 0,
        (ContentBlockV::Opaque { .. }, ContentBlockV::Opaque { .. }) => true,
        _ => false,
    }
}

/// Each stop among the events carries what the events before it show of its
/// block, on top of what had arrived.
pub open spec fn stops_agree(a: AccumulatorV, es: Seq<StreamEventV>) -> bool {
    forall|i: int|
        0 <= i < es.len() ==> match #[trigger] es[i] {
            StreamEventV::BlockStop { index, block: Some(b) } => match events_added(a, es.take(i)) {
                Ok(now) => match keyed_get(now.blocks, index as u64) {
                    Some(shown) => agrees(shown, b),
                    None => false,
                },
                Err(_) => false,
            },
            _ => true,
        }
}

/// Events after which one more is added.
pub proof fn one_more_agrees(a: AccumulatorV, es: Seq<StreamEventV>, e: StreamEventV)
    requires
        stops_agree(a, es),
        events_added(a, es) is Ok,
        match e {
            StreamEventV::BlockStop { index, block: Some(b) } => match keyed_get(
                events_added(a, es)->Ok_0.blocks,
                index as u64,
            ) {
                Some(shown) => agrees(shown, b),
                None => false,
            },
            _ => true,
        },
    ensures
        stops_agree(a, es.push(e)),
{
    let all = es.push(e);
    assert forall|i: int| 0 <= i < all.len() implies match #[trigger] all[i] {
        StreamEventV::BlockStop { index, block: Some(b) } => match events_added(a, all.take(i)) {
            Ok(now) => match keyed_get(now.blocks, index as u64) {
                Some(shown) => agrees(shown, b),
                None => false,
            },
            Err(_) => false,
        },
        _ => true,
    } by {
        assert(all.take(i) =~= es.take(i));
        if i < es.len() {
            assert(all[i] == es[i]);
        } else {
            assert(es.take(i) =~= es);
        }
    }
}

/// Events that are added in two stretches.
pub proof fn stretches_agree(a: AccumulatorV, x: Seq<StreamEventV>, y: Seq<StreamEventV>, n: nat)
    requires
        n <= y.len(),
        events_added(a, x) is Ok,
        stops_agree(a, x),
        stops_agree(events_added(a, x)->Ok_0, y),
        events_added(events_added(a, x)->Ok_0, y) is Ok,
    ensures
        stops_agree(a, x + y.take(n as int)),
        events_added(a, x + y.take(n as int)) == events_added(events_added(a, x)->Ok_0, y.take(n as int)),
        events_added(a, x + y.take(n as int)) is Ok,
    decreases n,
{
    let b = events_added(a, x)->Ok_0;
    if n == 0 {
        assert(x + y.take(0) =~= x);
        assert(y.take(0) =~= Seq::<StreamEventV>::empty());
    } else {
        let q = (n - 1) as nat;
        stretches_agree(a, x, y, q);
        let e = y[q as int];
        assert(y.take(n as int) =~= y.take(q as int).push(e));
        assert(x + y.take(n as int) =~= (x + y.take(q as int)).push(e));
        added_one_more(a, x + y.take(q as int), e);
        added_one_more(b, y.take(q as int), e);
        prefix_adds_up(b, y, n);
        assert(y[q as int] == e);
        one_more_agrees(a, x + y.take(q as int), e);
    }
}

proof fn prefix_adds_up(a: AccumulatorV, es: Seq<StreamEventV>, n: nat)
    requires
        n <= es.len(),
        events_added(a, es) is Ok,
    ensures
        events_added(a, es.take(n as int)) is Ok,
    decreases es.len(),
{
    if n < es.len() {
        assert(es.take(n as int) =~= es.drop_last().take(n as int));
        prefix_adds_up(a, es.drop_last(), n);
    } else {
        assert(es.take(n as int) =~= es);
    }
}

} // verus!
