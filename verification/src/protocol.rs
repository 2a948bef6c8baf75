//! The order that the events of a stream keep: a message starts, its blocks
//! start, grow and stop, the message stops, and nothing but unknown events
//! follows.

use vstd::prelude::*;
use crate::ir::StreamEventV;

verus! {

/// Where a stream of events stands.
#[verifier::ext_equal]
pub struct ProtocolV {
    pub started: bool,
    /// Indexes of the blocks that are open.
    pub open: Set<usize>,
    /// Number of blocks that started.
    pub blocks: nat,
    pub stopped: bool,
}

/// Before the first event.
pub open spec fn protocol_start() -> ProtocolV {
    ProtocolV { started: false, open: Set::empty(), blocks: 0, stopped: false }
}

/// Where a stream stands after one more event, if the event is in order.
/// Blocks are numbered as they start, and a message stops when none is open.
pub open spec fn event_taken(p: ProtocolV, e: StreamEventV) -> Option<ProtocolV> {
    match e {
        StreamEventV::Unknown => Some(p),
        StreamEventV::MessageStart { .. } => if !p.started && !p.stopped {
            Some(ProtocolV { started: true, ..p })
        } else {
            None
        },
        StreamEventV::BlockStart { index, .. } => if p.started && !p.stopped && index == p.blocks {
            Some(ProtocolV { open: p.open.insert(index), blocks: p.blocks + 1, ..p })
        } else {
            None
        },
        StreamEventV::BlockDelta { index, .. } => if !p.stopped && p.open.contains(index) {
            Some(p)
        } else {
            None
        },
        StreamEventV::BlockStop { index, .. } => if !p.stopped && p.open.contains(index) {
            Some(ProtocolV { open: p.open.remove(index), ..p })
        } else {
            None
        },
        StreamEventV::MessageDelta { .. } => if p.started && !p.stopped {
            Some(p)
        } else {
            None
        },
        StreamEventV::MessageStop => if p.started && !p.stopped && p.open == Set::<usize>::empty() {
            Some(ProtocolV { stopped: true, ..p })
        } else {
            None
        },
    }
}

/// Where a stream stands after these events, if all are in order.
pub open spec fn events_taken(p: ProtocolV, es: Seq<StreamEventV>) -> Option<ProtocolV>
    decreases es.len(),
{
    if es.len() == 0 {
        Some(p)
    } else {
        match events_taken(p, es.drop_last()) {
            None => None,
            Some(q) => event_taken(q, es.last()),
        }
    }
}

/// One more event is taken after the others.
pub proof fn taken_one_more(p: ProtocolV, es: Seq<StreamEventV>, e: StreamEventV)
    ensures
        events_taken(p, es.push(e)) == match events_taken(p, es) {
            None => None,
            Some(q) => event_taken(q, e),
        },
{
    assert(es.push(e).drop_last() =~= es);
}

/// Two stretches of events are taken one after the other.
pub proof fn taken_in_turn(p: ProtocolV, a: Seq<StreamEventV>, b: Seq<StreamEventV>)
    ensures
        events_taken(p, a + b) == match events_taken(p, a) {
            None => None,
            Some(q) => events_taken(q, b),
        },
    decreases b.len(),
{
    if b.len() == 0 {
        assert(a + b =~= a);
    } else {
        taken_in_turn(p, a, b.drop_last());
        assert((a + b).drop_last() =~= a + b.drop_last());
    }
}

/// A stopped message takes unknown events alone, and stays as it is.
pub proof fn stopped_message_stays(p: ProtocolV, es: Seq<StreamEventV>)
    requires
        p.stopped,
        events_taken(p, es) is Some,
    ensures
        events_taken(p, es) == Some(p),
        forall|i: int| 0 <= i < es.len() ==> (#[trigger] es[i]) is Unknown,
    decreases es.len(),
{
    if es.len() > 0 {
        stopped_message_stays(p, es.drop_last());
        assert forall|i: int| 0 <= i < es.len() implies (#[trigger] es[i]) is Unknown by {
            if i < es.len() - 1 {
                assert(es.drop_last()[i] == es[i]);
            }
        }
    }
}

} // verus!
