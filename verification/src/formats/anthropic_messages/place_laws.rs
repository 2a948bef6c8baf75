//! Laws: messages keep their order and their side of the conversation, and the
//! system channel says what stands in front of it.

use vstd::prelude::*;
use crate::format::{AnthropicOptionsV, ANTHROPIC_MESSAGES};
use crate::formats::anthropic_messages::blocks::text_value;
use crate::formats::anthropic_messages::from_ir::planned;
use crate::formats::anthropic_messages::layout::{in_array, layout, layout_step, merge_step, merged_plans, WirePlanV, WireRole};
use crate::formats::anthropic_messages::system::{entry_values, hoist_all, hoist_block, hoist_blocks, hoist_message, prompt_entries, system_value, text_entry, EntryV, HoistV};
use crate::history::PendingV;
use crate::ir::{extra_ns, ContentBlockV, MessageV, Role};
use crate::json::JsonV;
use crate::sink::SinkV;

verus! {

/// Position `j` of plan `k` comes before position `m` of plan `l`.
pub open spec fn comes_before(k: int, j: int, l: int, m: int) -> bool {
    k < l || (k == l && j < m)
}

/// The plans take the messages in their order, and none twice.
pub open spec fn in_order(plans: Seq<WirePlanV>) -> bool {
    forall|k: int, j: int, l: int, m: int|
        0 <= k < plans.len() && 0 <= l < plans.len() && 0 <= j < plans[k].parts.len() && 0 <= m < plans[l].parts.len()
            && comes_before(k, j, l, m) ==> (#[trigger] plans[k].parts[j]) < (#[trigger] plans[l].parts[m])
}

/// The side of the conversation that a message stands on.
pub open spec fn on_its_side(m: MessageV, role: WireRole, downgrade_mid: bool) -> bool {
    &&& role == WireRole::Assistant <==> m.role == Role::Assistant
    &&& role == WireRole::System <==> m.role == Role::System && !downgrade_mid
}

/// Every message of a built plan stands on its side.
pub open spec fn sides_kept(plans: Seq<WirePlanV>, msgs: Seq<MessageV>, downgrade_mid: bool) -> bool {
    forall|k: int, j: int|
        0 <= k < plans.len() && !plans[k].verbatim && 0 <= j < plans[k].parts.len() ==> (#[trigger] plans[k].parts[j])
            < msgs.len() && on_its_side(msgs[plans[k].parts[j] as int], plans[k].role, downgrade_mid)
}

spec fn all_below(plans: Seq<WirePlanV>, n: nat) -> bool {
    forall|k: int, j: int| 0 <= k < plans.len() && 0 <= j < plans[k].parts.len() ==> (#[trigger] plans[k].parts[j]) < n
}

proof fn layout_is_in_order(msgs: Seq<MessageV>, pending: Seq<PendingV>, downgrade_mid: bool, n: nat)
    requires
        n <= msgs.len() <= usize::MAX,
    ensures
        in_order(layout(msgs, pending, downgrade_mid, n).plans),
        all_below(layout(msgs, pending, downgrade_mid, n).plans, n),
        sides_kept(layout(msgs, pending, downgrade_mid, n).plans, msgs, downgrade_mid),
    decreases n,
{
    if n > 0 {
        let q = (n - 1) as nat;
        layout_is_in_order(msgs, pending, downgrade_mid, q);
        let a = layout(msgs, pending, downgrade_mid, q).plans;
        let b = layout(msgs, pending, downgrade_mid, n).plans;
        assert(layout(msgs, pending, downgrade_mid, n) == layout_step(
            layout(msgs, pending, downgrade_mid, q),
            msgs,
            q as int,
            downgrade_mid,
        ));
        assert forall|k: int, j: int| 0 <= k < b.len() && 0 <= j < b[k].parts.len() implies (#[trigger] b[k].parts[j]) < n by {
            if k < a.len() && j < a[k].parts.len() {
                assert(b[k].parts[j] == a[k].parts[j]);
            }
        }
        assert forall|k: int, j: int, l: int, m: int|
            0 <= k < b.len() && 0 <= l < b.len() && 0 <= j < b[k].parts.len() && 0 <= m < b[l].parts.len()
                && comes_before(k, j, l, m) implies (#[trigger] b[k].parts[j]) < (#[trigger] b[l].parts[m]) by {
            if k < a.len() && j < a[k].parts.len() {
                assert(b[k].parts[j] == a[k].parts[j]);
            }
            if l < a.len() && m < a[l].parts.len() {
                assert(b[l].parts[m] == a[l].parts[m]);
            }
        }
        assert forall|k: int, j: int| 0 <= k < b.len() && !b[k].verbatim && 0 <= j < b[k].parts.len() implies (
        #[trigger] b[k].parts[j]) < msgs.len() && on_its_side(msgs[b[k].parts[j] as int], b[k].role, downgrade_mid) by {
            if k < a.len() && j < a[k].parts.len() {
                assert(b[k].parts[j] == a[k].parts[j]);
            }
        }
    }
}

spec fn drawn_from(done: Seq<WirePlanV>, plans: Seq<WirePlanV>, n: nat) -> bool {
    forall|k: int, j: int|
        0 <= k < done.len() && 0 <= j < done[k].parts.len() ==> taken(plans, #[trigger] done[k].parts[j], n)
}

spec fn taken(plans: Seq<WirePlanV>, i: usize, n: nat) -> bool {
    exists|l: int, m: int| 0 <= l < n && 0 <= m < plans[l].parts.len() && #[trigger] plans[l].parts[m] == i
}

proof fn merging_is_in_order(
    plans: Seq<WirePlanV>,
    pending: Seq<PendingV>,
    msgs: Seq<MessageV>,
    downgrade_mid: bool,
    n: nat,
)
    requires
        n <= plans.len(),
        in_order(plans),
        sides_kept(plans, msgs, downgrade_mid),
    ensures
        in_order(merged_plans(plans, pending, msgs, n).0),
        drawn_from(merged_plans(plans, pending, msgs, n).0, plans, n),
        sides_kept(merged_plans(plans, pending, msgs, n).0, msgs, downgrade_mid),
    decreases n,
{
    if n > 0 {
        let q = (n - 1) as nat;
        merging_is_in_order(plans, pending, msgs, downgrade_mid, q);
        let prev = merged_plans(plans, pending, msgs, q);
        let a = prev.0;
        let b = merged_plans(plans, pending, msgs, n).0;
        let plan = plans[q as int];
        assert(merged_plans(plans, pending, msgs, n) == merge_step(prev, plan, msgs));
        let joins = b.len() == a.len();
        let off = if joins { a.last().parts.len() as int } else { 0 };
        assert forall|k: int, j: int| 0 <= k < b.len() && 0 <= j < b[k].parts.len() implies taken(
            plans,
            #[trigger] b[k].parts[j],
            n,
        ) by {
            if k < a.len() && j < a[k].parts.len() {
                assert(b[k].parts[j] == a[k].parts[j]);
                assert(taken(plans, a[k].parts[j], q));
            } else {
                assert(b[k].parts[j] == plan.parts[j - off]);
                assert(plans[q as int].parts[j - off] == b[k].parts[j]);
            }
        }
        assert forall|k: int, j: int, l: int, m: int|
            0 <= k < b.len() && 0 <= l < b.len() && 0 <= j < b[k].parts.len() && 0 <= m < b[l].parts.len()
                && comes_before(k, j, l, m) implies (#[trigger] b[k].parts[j]) < (#[trigger] b[l].parts[m]) by {
            let old_k = k < a.len() && j < a[k].parts.len();
            let old_l = l < a.len() && m < a[l].parts.len();
            if old_k {
                assert(b[k].parts[j] == a[k].parts[j]);
                assert(taken(plans, a[k].parts[j], q));
            } else {
                assert(b[k].parts[j] == plan.parts[j - off]);
            }
            if old_l {
                assert(b[l].parts[m] == a[l].parts[m]);
            } else {
                assert(b[l].parts[m] == plan.parts[m - off]);
            }
            if old_k && old_l {
            } else if old_k {
                let (x, y) = choose|x: int, y: int|
                    0 <= x < q && 0 <= y < plans[x].parts.len() && #[trigger] plans[x].parts[y] == a[k].parts[j];
                assert(comes_before(x, y, q as int, m - off));
                assert(plans[x].parts[y] < plans[q as int].parts[m - off]);
            } else {
                assert(comes_before(q as int, j - off, q as int, m - off));
                assert(plans[q as int].parts[j - off] < plans[q as int].parts[m - off]);
            }
        }
        assert forall|k: int, j: int| 0 <= k < b.len() && !b[k].verbatim && 0 <= j < b[k].parts.len() implies (
        #[trigger] b[k].parts[j]) < msgs.len() && on_its_side(msgs[b[k].parts[j] as int], b[k].role, downgrade_mid) by {
            if k < a.len() && j < a[k].parts.len() {
                assert(b[k].parts[j] == a[k].parts[j]);
            } else {
                assert(b[k].parts[j] == plan.parts[j - off]);
                assert(plans[q as int].parts[j - off] == b[k].parts[j]);
            }
        }
    }
}

/// Wire messages take the messages in their order, none of them twice, and
/// each on its own side of the conversation: merging joins neighbours alone.
pub proof fn messages_keep_their_order_and_side(msgs: Seq<MessageV>, pending: Seq<PendingV>, opts: AnthropicOptionsV)
    requires
        msgs.len() <= usize::MAX,
    ensures
        in_order(planned(msgs, pending, opts).1),
        sides_kept(planned(msgs, pending, opts).1, msgs, opts.downgrade_mid_system),
{
    let l = layout(msgs, pending, opts.downgrade_mid_system, msgs.len());
    layout_is_in_order(msgs, pending, opts.downgrade_mid_system, msgs.len());
    merging_is_in_order(l.plans, l.pending, msgs, opts.downgrade_mid_system, l.plans.len());
}

/// A text block without a cache hint that has nothing of this provider with it.
pub open spec fn is_plain(b: ContentBlockV) -> bool {
    b is Text && b->Text_cache is None && extra_ns(b->Text_extra, ANTHROPIC_MESSAGES@).len() == 0
}

/// A message of such blocks alone.
pub open spec fn is_plain_message(m: MessageV) -> bool {
    &&& extra_ns(m.extra, ANTHROPIC_MESSAGES@).len() == 0
    &&& forall|i: int| 0 <= i < m.content.len() ==> is_plain(#[trigger] m.content[i])
}

/// The blocks of the first `n` messages, in order.
pub open spec fn blocks_upto(msgs: Seq<MessageV>, n: nat) -> Seq<ContentBlockV>
    decreases n,
{
    if n == 0 || n > msgs.len() {
        Seq::empty()
    } else {
        blocks_upto(msgs, (n - 1) as nat) + msgs[n - 1].content
    }
}

/// One text block on the wire for each block.
pub open spec fn text_values(blocks: Seq<ContentBlockV>) -> Seq<JsonV> {
    blocks.map_values(|b: ContentBlockV| text_value(b->Text_text))
}

spec fn entries_of(blocks: Seq<ContentBlockV>) -> Seq<EntryV> {
    blocks.map_values(|b: ContentBlockV| text_entry(b->Text_text, b->Text_cache, b->Text_extra))
}

proof fn lead_is_hoisted(msgs: Seq<MessageV>, pending: Seq<PendingV>, downgrade_mid: bool, lead: nat, n: nat)
    requires
        lead <= msgs.len(),
        n <= msgs.len() <= usize::MAX,
        forall|i: int| 0 <= i < lead ==> (#[trigger] msgs[i]).role == Role::System && !in_array(msgs[i].round_trip),
        lead < msgs.len() ==> msgs[lead as int].role != Role::System,
    ensures
        ({
            let l = layout(msgs, pending, downgrade_mid, n);
            let k = if n <= lead { n } else { lead };
            &&& l.leading == (n <= lead)
            &&& l.hoisted.len() == k
            &&& forall|i: int| 0 <= i < k ==> #[trigger] l.hoisted[i] == i
        }),
    decreases n,
{
    if n > 0 {
        lead_is_hoisted(msgs, pending, downgrade_mid, lead, (n - 1) as nat);
    }
}

proof fn prompt_is_there(system: Seq<ContentBlockV>, n: nat)
    requires
        n <= system.len(),
        forall|i: int| 0 <= i < system.len() ==> is_plain(#[trigger] system[i]),
    ensures
        prompt_entries(system, n) is Ok,
        prompt_entries(system, n)->Ok_0 == entries_of(system.take(n as int)),
    decreases n,
{
    if n > 0 {
        prompt_is_there(system, (n - 1) as nat);
        assert(is_plain(system[n - 1]));
        assert(system.take(n as int) =~= system.take(n - 1).push(system[n - 1]));
        assert(prompt_entries(system, n)->Ok_0 =~= entries_of(system.take(n as int)));
    } else {
        assert(entries_of(system.take(0)) =~= Seq::<EntryV>::empty());
    }
}

proof fn message_is_there(h: HoistV, m: MessageV, i: nat, n: nat)
    requires
        n <= m.content.len(),
        is_plain_message(m),
    ensures
        hoist_blocks(h, m, i, n) is Ok,
        hoist_blocks(h, m, i, n)->Ok_0 == (HoistV { entries: h.entries + entries_of(m.content.take(n as int)), ..h }),
    decreases n,
{
    if n > 0 {
        message_is_there(h, m, i, (n - 1) as nat);
        let b = m.content[n - 1];
        assert(is_plain(b));
        assert(m.content.take(n as int) =~= m.content.take(n - 1).push(b));
        let prev = hoist_blocks(h, m, i, (n - 1) as nat)->Ok_0;
        assert(hoist_block(prev, b, i, (n - 1) as nat)->Ok_0.entries =~= h.entries + entries_of(m.content.take(n as int)));
    } else {
        assert(h.entries + entries_of(m.content.take(0)) =~= h.entries);
    }
}

proof fn messages_are_there(h: HoistV, msgs: Seq<MessageV>, hoisted: Seq<usize>, n: nat)
    requires
        n <= hoisted.len() <= msgs.len(),
        forall|i: int| 0 <= i < hoisted.len() ==> #[trigger] hoisted[i] == i,
        forall|i: int| 0 <= i < n ==> is_plain_message(#[trigger] msgs[i]),
    ensures
        hoist_all(h, msgs, hoisted, n) is Ok,
        hoist_all(h, msgs, hoisted, n)->Ok_0 == (HoistV { entries: h.entries + entries_of(blocks_upto(msgs, n)), ..h }),
    decreases n,
{
    if n > 0 {
        let q = (n - 1) as nat;
        messages_are_there(h, msgs, hoisted, q);
        let m = msgs[q as int];
        assert(is_plain_message(m));
        let prev = hoist_all(h, msgs, hoisted, q)->Ok_0;
        assert(hoisted[q as int] == q);
        message_is_there(prev, m, q, m.content.len());
        assert(m.content.take(m.content.len() as int) =~= m.content);
        assert(hoist_message(prev, m, q)->Ok_0.entries =~= h.entries + entries_of(blocks_upto(msgs, n)));
    } else {
        assert(h.entries + entries_of(blocks_upto(msgs, 0)) =~= h.entries);
    }
}

proof fn values_are_texts(blocks: Seq<ContentBlockV>, s: SinkV, n: nat)
    requires
        n <= blocks.len(),
        forall|i: int| 0 <= i < blocks.len() ==> is_plain(#[trigger] blocks[i]),
    ensures
        entry_values(entries_of(blocks), Seq::empty(), s, n).0 == text_values(blocks.take(n as int)),
    decreases n,
{
    if n > 0 {
        values_are_texts(blocks, s, (n - 1) as nat);
        assert(is_plain(blocks[n - 1]));
        assert(blocks.take(n as int) =~= blocks.take(n - 1).push(blocks[n - 1]));
        assert(entry_values(entries_of(blocks), Seq::empty(), s, n).0 =~= text_values(blocks.take(n as int)));
    } else {
        assert(text_values(blocks.take(0)) =~= Seq::<JsonV>::empty());
    }
}

proof fn blocks_are_plain(msgs: Seq<MessageV>, n: nat)
    requires
        n <= msgs.len(),
        forall|i: int| 0 <= i < n ==> is_plain_message(#[trigger] msgs[i]),
    ensures
        forall|i: int| 0 <= i < blocks_upto(msgs, n).len() ==> is_plain(#[trigger] blocks_upto(msgs, n)[i]),
    decreases n,
{
    if n > 0 {
        blocks_are_plain(msgs, (n - 1) as nat);
        assert(is_plain_message(msgs[n - 1]));
        let a = blocks_upto(msgs, (n - 1) as nat);
        let b = blocks_upto(msgs, n);
        assert forall|i: int| 0 <= i < b.len() implies is_plain(#[trigger] b[i]) by {
            if i < a.len() {
                assert(b[i] == a[i]);
            } else {
                assert(b[i] == msgs[n - 1].content[i - a.len()]);
            }
        }
    }
}

/// The system channel says the prompt, then every system message that the
/// conversation starts with, block by block and in order: a single text as a
/// string, more as text blocks, and nothing where there is none.
pub proof fn prompt_and_leading_messages_are_sent(
    system: Option<Seq<ContentBlockV>>,
    msgs: Seq<MessageV>,
    pending: Seq<PendingV>,
    opts: AnthropicOptionsV,
    lead: nat,
    s: SinkV,
)
    requires
        lead <= msgs.len() <= usize::MAX,
        forall|i: int|
            0 <= i < lead ==> (#[trigger] msgs[i]).role == Role::System && !in_array(msgs[i].round_trip)
                && is_plain_message(msgs[i]),
        lead < msgs.len() ==> msgs[lead as int].role != Role::System,
        system is Some ==> forall|i: int| 0 <= i < system->0.len() ==> is_plain(#[trigger] system->0[i]),
    ensures
        ({
            let prompt = match system {
                Some(b) => b,
                None => Seq::empty(),
            };
            let said = prompt + blocks_upto(msgs, lead);
            let r = system_value(system, msgs, planned(msgs, pending, opts).0, s);
            &&& r is Ok
            &&& said.len() == 0 ==> r->Ok_0.0 is None
            &&& said.len() == 1 ==> r->Ok_0.0 == Some(JsonV::Str(said[0]->Text_text))
            &&& said.len() > 1 ==> r->Ok_0.0 == Some(JsonV::Array(text_values(said)))
        }),
{
    let prompt = match system {
        Some(b) => b,
        None => Seq::empty(),
    };
    let hoisted = planned(msgs, pending, opts).0;
    lead_is_hoisted(msgs, pending, opts.downgrade_mid_system, lead, msgs.len());
    let entries = match system {
        Some(b) => {
            prompt_is_there(b, b.len());
            assert(b.take(b.len() as int) =~= b);
            prompt_entries(b, b.len())->Ok_0
        },
        None => Seq::<EntryV>::empty(),
    };
    assert(entries =~= entries_of(prompt));
    let h0 = HoistV { entries, extras: Seq::empty(), warnings: Seq::empty() };
    messages_are_there(h0, msgs, hoisted, lead);
    blocks_are_plain(msgs, lead);
    let said = prompt + blocks_upto(msgs, lead);
    let h = hoist_all(h0, msgs, hoisted, lead)->Ok_0;
    assert(h.entries =~= entries_of(said));
    assert forall|i: int| 0 <= i < said.len() implies is_plain(#[trigger] said[i]) by {
        if i < prompt.len() {
            assert(said[i] == prompt[i]);
        } else {
            assert(said[i] == blocks_upto(msgs, lead)[i - prompt.len()]);
        }
    }
    let s1 = SinkV { warnings: s.warnings + h.warnings, log: s.log };
    values_are_texts(said, s1, said.len());
    assert(said.take(said.len() as int) =~= said);
    if said.len() == 1 {
        assert(is_plain(said[0]));
    }
}

} // verus!
