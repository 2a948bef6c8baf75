//! Laws: the layout of a history, and how a history is read back whole.

use vstd::prelude::*;
use crate::convert::ConversionWarningV;
use crate::format::ANTHROPIC_MESSAGES;
use crate::formats::anthropic_messages::layout::{in_array, in_array_meta, layout, layout_step, merged_plans, planned_role, rejoins, verbatim_value, LayoutV, WirePlanV, IN_ARRAY_SYSTEM_KEY};
use crate::formats::anthropic_messages::messages::{wire_messages, wire_step, WireV};
use crate::formats::anthropic_messages::parse_messages::parsed_messages;
use crate::formats::anthropic_messages::round_trip_messages::{messages_of, plain_turn, role_of_turn, takes_group, turn_round_trip, TurnV};
use crate::history::PendingV;
use crate::ir::{in_turn_group, plain_message, turn_group, turn_group_key, ContentBlockV, MessageV, Role};
use crate::json::{json_as_str, json_get, JsonV, NumV};
use crate::json_laws::set_member_is_read;
use crate::text::decimal;
use crate::turns::run_message;

verus! {

/// The content is one verbatim value that looks like a whole wire message.
pub open spec fn whole_message(content: Seq<ContentBlockV>) -> bool {
    content.len() == 1 && match content[0] {
        ContentBlockV::Opaque { format, value } => format == ANTHROPIC_MESSAGES@ && json_as_str(
            json_get(value, "role"@),
        ) is Some,
        _ => false,
    }
}

/// A turn that is laid out as it was: no message of it is taken for a verbatim
/// one, unless it is.
pub open spec fn apart_entry(t: TurnV) -> bool {
    match t {
        TurnV::Assistant { content, extra } => !whole_message(content),
        TurnV::System { content, extra } => true,
        TurnV::User { runs, extra } => forall|i: int|
            0 <= i < runs.len() ==> !whole_message((#[trigger] runs[i]).blocks),
        TurnV::Verbatim { value } => json_as_str(json_get(value, "role"@)) is Some,
    }
}

/// A turn of a history that this format can carry.
pub open spec fn plain_entry(t: TurnV) -> bool {
    plain_turn(t) && apart_entry(t)
}

/// At most one message before the turns, which goes to the system channel.
pub open spec fn leads(lead: Seq<MessageV>) -> bool {
    &&& lead.len() <= 1
    &&& forall|i: int| 0 <= i < lead.len() ==> (#[trigger] lead[i]).role == Role::System && !in_array(lead[i].round_trip)
}

/// The places of the messages before the turns.
pub open spec fn lead_places(lead: Seq<MessageV>) -> Seq<usize> {
    Seq::new(lead.len(), |i: int| i as usize)
}

/// The messages of the first `n` turns, behind those that come first, and the
/// next free group.
pub open spec fn history_of(lead: Seq<MessageV>, turns: Seq<TurnV>, n: nat) -> (Seq<MessageV>, u64)
    decreases n,
{
    if n == 0 || n > turns.len() {
        (lead, 0)
    } else {
        let (prev, g) = history_of(lead, turns, (n - 1) as nat);
        (
            prev + messages_of(turns[n - 1], g),
            if takes_group(turns[n - 1]) { (g + 1) as u64 } else { g },
        )
    }
}

/// The plan of turn `k`.
pub open spec fn plan_at(lead: Seq<MessageV>, turns: Seq<TurnV>, k: nat) -> WirePlanV {
    let (before, g) = history_of(lead, turns, k);
    WirePlanV {
        role: role_of_turn(turns[k as int]),
        parts: Seq::new(messages_of(turns[k as int], g).len(), |j: int| (before.len() + j) as usize),
        verbatim: turns[k as int] is Verbatim,
    }
}

/// The plans of the first `n` turns.
pub open spec fn plans_of(lead: Seq<MessageV>, turns: Seq<TurnV>, n: nat) -> Seq<WirePlanV> {
    Seq::new(n, |k: int| plan_at(lead, turns, k as nat))
}

pub proof fn history_grows(lead: Seq<MessageV>, turns: Seq<TurnV>, n: nat, m: nat)
    requires
        n <= m <= turns.len(),
    ensures
        history_of(lead, turns, n).0.len() <= history_of(lead, turns, m).0.len(),
        history_of(lead, turns, m).0.take(history_of(lead, turns, n).0.len() as int) == history_of(lead, turns, n).0,
    decreases m - n,
{
    let a = history_of(lead, turns, n).0;
    if n < m {
        history_grows(lead, turns, n, (m - 1) as nat);
        let b = history_of(lead, turns, (m - 1) as nat).0;
        let c = history_of(lead, turns, m).0;
        assert(c.take(a.len() as int) =~= b.take(a.len() as int));
    } else {
        assert(a.take(a.len() as int) =~= a);
    }
}

pub proof fn turn_is_in_place(lead: Seq<MessageV>, turns: Seq<TurnV>, k: nat, j: int)
    requires
        k < turns.len(),
        0 <= j < messages_of(turns[k as int], history_of(lead, turns, k).1).len(),
    ensures
        ({
            let (before, g) = history_of(lead, turns, k);
            let msgs = history_of(lead, turns, turns.len()).0;
            &&& before.len() + j < msgs.len()
            &&& msgs[before.len() + j] == messages_of(turns[k as int], g)[j]
        }),
{
    let (before, g) = history_of(lead, turns, k);
    let msgs = history_of(lead, turns, turns.len()).0;
    let next = history_of(lead, turns, k + 1).0;
    history_grows(lead, turns, k + 1, turns.len());
    assert(next[before.len() + j] == messages_of(turns[k as int], g)[j]);
    assert(msgs.take(next.len() as int)[before.len() + j] == next[before.len() + j]);
}

/// There are fewer groups than messages.
proof fn groups_are_counted(lead: Seq<MessageV>, turns: Seq<TurnV>, n: nat)
    requires
        n <= turns.len(),
        history_of(lead, turns, turns.len()).0.len() <= usize::MAX,
    ensures
        history_of(lead, turns, n).1 <= history_of(lead, turns, n).0.len() <= usize::MAX,
        n > 0 && takes_group(turns[n - 1]) ==> history_of(lead, turns, n).1 == history_of(lead, turns, (n - 1) as nat).1 + 1,
    decreases n,
{
    history_grows(lead, turns, n, turns.len());
    if n > 0 {
        groups_are_counted(lead, turns, (n - 1) as nat);
        history_grows(lead, turns, (n - 1) as nat, n);
    }
}

proof fn group_is_read(m: MessageV, g: u64)
    requires
        m.round_trip is None,
    ensures
        turn_group(in_turn_group(m, g)) == Some(g),
        turn_group(m) is None,
{
    set_member_is_read(Seq::empty(), turn_group_key(), JsonV::Number(NumV::Int(g as int)));
}

proof fn marker_is_read()
    ensures
        in_array(Some(in_array_meta())),
{
    set_member_is_read(Seq::empty(), IN_ARRAY_SYSTEM_KEY@, JsonV::Bool(true));
}

/// The messages of a turn are told apart by their groups.
proof fn turn_groups(t: TurnV, group: u64, j: int)
    requires
        apart_entry(t),
        0 <= j < messages_of(t, group).len(),
    ensures
        ({
            let m = messages_of(t, group)[j];
            &&& verbatim_value(m) is Some == t is Verbatim
            &&& m.role != Role::Developer
            &&& m.role == Role::System ==> in_array(m.round_trip)
            &&& planned_role(m, 0, false).0 == role_of_turn(t)
            &&& t is User ==> (m.role == Role::User || m.role == Role::Tool)
            &&& t is User && takes_group(t) ==> turn_group(m) == Some(group)
            &&& t is User && !takes_group(t) ==> turn_group(m) is None
        }),
{
    marker_is_read();
    match t {
        TurnV::User { runs, extra } => {
            if runs.len() > 0 {
                let r = runs[j];
                assert(!whole_message(runs[j].blocks));
                let m0 = plain_message(if r.is_tool { Role::Tool } else { Role::User }, r.blocks);
                group_is_read(m0, group);
                let g = if runs.len() > 1 { Some(group) } else { None };
                assert(messages_of(t, group)[j] == run_message(r, j, g, extra));
            } else {
                let m0 = plain_message(Role::User, Seq::empty());
                group_is_read(m0, group);
            }
        },
        _ => {},
    }
}

/// A history is laid out turn by turn, each in a wire message of its own, and
/// nothing is hoisted or noted.
proof fn turn_is_laid_out(lead: Seq<MessageV>, turns: Seq<TurnV>, pending: Seq<PendingV>, k: nat, j: nat)
    requires
        leads(lead),
        forall|i: int| 0 <= i < turns.len() ==> apart_entry(#[trigger] turns[i]),
        history_of(lead, turns, turns.len()).0.len() <= usize::MAX,
        k < turns.len(),
        1 <= j <= messages_of(turns[k as int], history_of(lead, turns, k).1).len(),
        ({
            let l = layout(history_of(lead, turns, turns.len()).0, pending, false, history_of(lead, turns, k).0.len());
            &&& l.hoisted == lead_places(lead)
            &&& l.plans == plans_of(lead, turns, k)
            &&& l.pending == pending
        }),
    ensures
        ({
            let p = plan_at(lead, turns, k);
            layout(history_of(lead, turns, turns.len()).0, pending, false, history_of(lead, turns, k).0.len() + j) == (LayoutV {
                hoisted: lead_places(lead),
                plans: plans_of(lead, turns, k).push(WirePlanV { parts: p.parts.take(j as int), ..p }),
                leading: false,
                pending,
            })
        }),
    decreases j,
{
    let msgs = history_of(lead, turns, turns.len()).0;
    let (before, g) = history_of(lead, turns, k);
    let ms = messages_of(turns[k as int], g);
    let o = before.len();
    let p = plan_at(lead, turns, k);
    let q = (j - 1) as nat;
    assert(apart_entry(turns[k as int]));
    turn_is_in_place(lead, turns, k, q as int);
    turn_groups(turns[k as int], g, q as int);
    let i = o + q;
    let m = msgs[i as int];
    assert(pending + Seq::<PendingV>::empty() =~= pending);
    let l0 = layout(msgs, pending, false, i);
    assert(layout(msgs, pending, false, o + j) == layout_step(l0, msgs, i as int, false));
    assert(planned_role(m, i as int, false) == (role_of_turn(turns[k as int]), Seq::<PendingV>::empty()));
    if turns[k as int] is Verbatim {
        assert(q == 0);
        assert(p.parts.take(1) =~= seq![i as usize]);
    } else if q == 0 {
        assert(!rejoins(l0.plans, msgs, i as int)) by {
            if rejoins(l0.plans, msgs, i as int) {
                let d = (k - 1) as nat;
                let last = l0.plans.last();
                assert(last == plan_at(lead, turns, d));
                let gd = history_of(lead, turns, d).1;
                let e = messages_of(turns[d as int], gd).len() - 1;
                assert(apart_entry(turns[d as int]));
                turn_is_in_place(lead, turns, d, e);
                turn_groups(turns[d as int], gd, e);
                assert(last.parts.last() as int == history_of(lead, turns, d).0.len() + e);
                assert(turn_group(m) == turn_group(msgs[last.parts.last() as int]));
                assert(turns[d as int] is User);
                groups_are_counted(lead, turns, k);
                assert(g == gd + 1);
            }
        }
        assert(p.parts.take(1) =~= seq![i as usize]);
    } else {
        turn_is_laid_out(lead, turns, pending, k, q);
        let cur = WirePlanV { parts: p.parts.take(q as int), ..p };
        turn_is_in_place(lead, turns, k, q - 1);
        turn_groups(turns[k as int], g, q - 1);
        assert(l0.plans.last() == cur);
        assert(cur.parts.last() as int == o + q - 1);
        assert(turns[k as int] is User && takes_group(turns[k as int]));
        assert(rejoins(l0.plans, msgs, i as int));
        assert(p.parts.take(q as int).push(i as usize) =~= p.parts.take(j as int));
        assert(l0.plans.update(l0.plans.len() - 1, WirePlanV { parts: p.parts.take(j as int), ..p })
            =~= plans_of(lead, turns, k).push(WirePlanV { parts: p.parts.take(j as int), ..p }));
    }
}

/// A history is laid out turn by turn, each in a wire message of its own, and
/// nothing is hoisted or noted.
pub proof fn history_is_laid_out(lead: Seq<MessageV>, turns: Seq<TurnV>, pending: Seq<PendingV>, n: nat)
    requires
        leads(lead),
        forall|i: int| 0 <= i < turns.len() ==> apart_entry(#[trigger] turns[i]),
        history_of(lead, turns, turns.len()).0.len() <= usize::MAX,
        n <= turns.len(),
    ensures
        ({
            let l = layout(history_of(lead, turns, turns.len()).0, pending, false, history_of(lead, turns, n).0.len());
            &&& l.hoisted == lead_places(lead)
            &&& l.plans == plans_of(lead, turns, n)
            &&& l.pending == pending
        }),
    decreases n,
{
    if n == 0 {
        assert(plans_of(lead, turns, 0) =~= Seq::<WirePlanV>::empty());
        let msgs = history_of(lead, turns, turns.len()).0;
        history_grows(lead, turns, 0, turns.len());
        if lead.len() == 1 {
            assert(msgs.take(1)[0] == lead[0]);
            let l0 = layout(msgs, pending, false, 0);
            assert(layout(msgs, pending, false, 1) == layout_step(l0, msgs, 0, false));
            assert(l0.hoisted.push(0usize) =~= lead_places(lead));
        } else {
            assert(lead_places(lead) =~= Seq::<usize>::empty());
        }
    } else {
        let k = (n - 1) as nat;
        history_is_laid_out(lead, turns, pending, k);
        let ms = messages_of(turns[k as int], history_of(lead, turns, k).1);
        assert(ms.len() > 0);
        turn_is_laid_out(lead, turns, pending, k, ms.len());
        let p = plan_at(lead, turns, k);
        assert(p.parts.take(ms.len() as int) =~= p.parts);
        assert(plans_of(lead, turns, k).push(p) =~= plans_of(lead, turns, n));
        assert(history_of(lead, turns, n).0.len() == history_of(lead, turns, k).0.len() + ms.len());
    }
}

proof fn parsed_prefix(start: Seq<MessageV>, a: Seq<JsonV>, b: Seq<JsonV>, ws: Seq<ConversionWarningV>, n: nat)
    requires
        n <= a.len() <= b.len(),
        b.take(a.len() as int) == a,
    ensures
        parsed_messages(start, a, ws, n) == parsed_messages(start, b, ws, n),
    decreases n,
{
    if n > 0 {
        parsed_prefix(start, a, b, ws, (n - 1) as nat);
        assert(a[n - 1] == b.take(a.len() as int)[n - 1]);
    }
}

/// A history is read back from the wire messages that it becomes, behind
/// whatever messages come first, without a warning on either side.
pub proof fn history_round_trip(
    lead: Seq<MessageV>,
    turns: Seq<TurnV>,
    st: WireV,
    as_text: bool,
    ws: Seq<ConversionWarningV>,
    n: nat,
)
    requires
        forall|i: int| 0 <= i < turns.len() ==> plain_entry(#[trigger] turns[i]),
        history_of(lead, turns, turns.len()).0.len() <= usize::MAX,
        st.wire.len() == 0,
        n <= turns.len(),
    ensures
        match wire_messages(st, plans_of(lead, turns, turns.len()), history_of(lead, turns, turns.len()).0, as_text, n) {
            Ok(w) => {
                &&& w.wire.len() == n
                &&& w.sink.warnings == st.sink.warnings
                &&& parsed_messages(lead, w.wire, ws, n) == (
                    history_of(lead, turns, n).0,
                    history_of(lead, turns, n).1,
                    ws,
                )
            },
            Err(_) => false,
        },
    decreases n,
{
    let msgs = history_of(lead, turns, turns.len()).0;
    let plans = plans_of(lead, turns, turns.len());
    if n > 0 {
        let k = (n - 1) as nat;
        history_round_trip(lead, turns, st, as_text, ws, k);
        let prev = wire_messages(st, plans, msgs, as_text, k)->Ok_0;
        let (before, g) = history_of(lead, turns, k);
        let ms = messages_of(turns[k as int], g);
        let p = plan_at(lead, turns, k);
        assert(plans[k as int] == p);
        assert(plain_entry(turns[k as int]));
        assert forall|j: int| 0 <= j < p.parts.len() implies (#[trigger] p.parts[j]) < msgs.len()
            && msgs[p.parts[j] as int] == ms[j] by {
            turn_is_in_place(lead, turns, k, j);
        }
        turn_round_trip(prev, turns[k as int], g, p, msgs, as_text, "/messages/"@ + decimal(k), ws);
        let w = wire_step(prev, p, msgs, as_text)->Ok_0;
        assert(w.wire.take(prev.wire.len() as int) =~= w.wire.drop_last());
        parsed_prefix(lead, prev.wire, w.wire, ws, k);
    }
}

/// Turn `i` differs in role from the one before it.
pub open spec fn roles_differ(turns: Seq<TurnV>, i: int) -> bool {
    role_of_turn(turns[i]) != role_of_turn(turns[i - 1])
}

/// Turns that alternate in role are not merged.
pub proof fn alternating_turns_stay_apart(lead: Seq<MessageV>, turns: Seq<TurnV>, pending: Seq<PendingV>, msgs: Seq<MessageV>, n: nat)
    requires
        n <= turns.len(),
        forall|i: int| 0 < i < turns.len() ==> #[trigger] roles_differ(turns, i),
    ensures
        merged_plans(plans_of(lead, turns, turns.len()), pending, msgs, n) == (plans_of(lead, turns, n), pending),
    decreases n,
{
    let plans = plans_of(lead, turns, turns.len());
    if n == 0 {
        assert(plans_of(lead, turns, 0) =~= Seq::<WirePlanV>::empty());
    } else {
        let k = (n - 1) as nat;
        alternating_turns_stay_apart(lead, turns, pending, msgs, k);
        let done = plans_of(lead, turns, k);
        if k > 0 {
            assert(done.last() == plan_at(lead, turns, (k - 1) as nat));
            assert(roles_differ(turns, k as int));
        }
        assert(done.push(plans[k as int]) =~= plans_of(lead, turns, n));
    }
}

} // verus!
