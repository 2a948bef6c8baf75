//! Which IR messages become which Anthropic wire messages: hoisting of leading
//! system messages, turn groups and the merging of neighbours.

use vstd::prelude::*;
use crate::convert::WarningCode;
use crate::format::{ANTHROPIC_MESSAGES, GOOGLE_GENERATE_CONTENT};
use crate::history::{Pending, PendingV};
use crate::ir::{extra_ns, meta_field, turn_group, ContentBlock, ContentBlockV, Message, MessageV, Role, RoundTripMeta, RoundTripMetaV};
use crate::json::{json_as_bool, json_as_str, json_get, obj_get, obj_has, obj_index, obj_set, Json, JsonMap, JsonV};
use crate::model::{group_views, opt_view, views};
use crate::text::text_is;

verus! {

broadcast use group_views;

/// Key of the round-trip marker of an in-array system message.
pub const IN_ARRAY_SYSTEM_KEY: &'static str = "anthropic_in_array_system";

/// The round-trip data that marks an in-array system message.
pub open spec fn in_array_meta() -> RoundTripMetaV {
    RoundTripMetaV {
        version: 1,
        fields: obj_set(Seq::empty(), IN_ARRAY_SYSTEM_KEY@, JsonV::Bool(true)),
    }
}

/// The message carries the marker of an in-array system message.
pub open spec fn in_array(m: Option<RoundTripMetaV>) -> bool {
    json_as_bool(meta_field(m, IN_ARRAY_SYSTEM_KEY@)) == Some(true)
}

/// Round-trip data that marks an in-array system message.
pub fn in_array_system_meta() -> (r: RoundTripMeta)
    ensures
        r@ == in_array_meta(),
{
    let mut fields = JsonMap::new();
    fields.set(IN_ARRAY_SYSTEM_KEY, Json::Bool(true));
    RoundTripMeta::v1(fields)
}

/// Reads the marker of an in-array system message.
pub fn has_in_array_system_meta(meta: &Option<RoundTripMeta>) -> (r: bool)
    ensures
        r == in_array(opt_view(*meta)),
{
    match meta {
        Some(m) => match m.v1_field(IN_ARRAY_SYSTEM_KEY) {
            Some(j) => match j.as_bool() {
                Some(b) => b,
                None => false,
            },
            None => false,
        },
        None => false,
    }
}

/// Wire role of a serialized message.
#[derive(Clone, Copy, Debug, PartialEq, Eq, Structural)]
pub enum WireRole {
    User,
    Assistant,
    System,
}

/// The wire name of a role.
pub open spec fn wire_role_name(r: WireRole) -> Seq<char> {
    match r {
        WireRole::User => "user"@,
        WireRole::Assistant => "assistant"@,
        WireRole::System => "system"@,
    }
}

/// The IR role of a wire role.
pub open spec fn wire_role_ir(r: WireRole) -> Role {
    match r {
        WireRole::User => Role::User,
        WireRole::Assistant => Role::Assistant,
        WireRole::System => Role::System,
    }
}

impl WireRole {
    /// The wire name of this role.
    pub fn as_str(self) -> (r: &'static str)
        ensures
            r@ == wire_role_name(self),
    {
        match self {
            WireRole::User => "user",
            WireRole::Assistant => "assistant",
            WireRole::System => "system",
        }
    }

    /// The IR role reported for this wire role.
    pub fn ir_role(self) -> (r: Role)
        ensures
            r == wire_role_ir(self),
    {
        match self {
            WireRole::User => Role::User,
            WireRole::Assistant => Role::Assistant,
            WireRole::System => Role::System,
        }
    }
}

/// One planned wire message: the IR messages whose blocks it concatenates.
#[derive(Debug)]
pub struct WirePlan {
    pub role: WireRole,
    /// Indices of IR messages, in order.
    pub parts: Vec<usize>,
    /// The one part holds a whole wire message, to be emitted as it is.
    pub verbatim: bool,
}

/// The mathematical value of a [`WirePlan`].
pub struct WirePlanV {
    pub role: WireRole,
    pub parts: Seq<usize>,
    pub verbatim: bool,
}

impl View for WirePlan {
    type V = WirePlanV;

    open spec fn view(&self) -> WirePlanV {
        WirePlanV { role: self.role, parts: self.parts@, verbatim: self.verbatim }
    }
}

/// The wire message that `m` holds as its only block, if it re-emits it
/// verbatim. System messages do not: their home is the system channel.
pub open spec fn verbatim_value(m: MessageV) -> Option<JsonV> {
    if m.role != Role::System && m.content.len() == 1 {
        match m.content[0] {
            ContentBlockV::Opaque { format, value } => if format == ANTHROPIC_MESSAGES@
                && json_as_str(json_get(value, "role"@)) is Some {
                Some(value)
            } else {
                None
            },
            _ => None,
        }
    } else {
        None
    }
}

/// A block that must keep its place: signed thinking, or a call that carries
/// a Google thought signature.
pub open spec fn is_signed(b: ContentBlockV) -> bool {
    match b {
        ContentBlockV::Thinking { signature, .. } => signature is Some,
        ContentBlockV::ToolCall { extra, .. } => obj_has(
            extra_ns(extra, GOOGLE_GENERATE_CONTENT@),
            "thoughtSignature"@,
        ),
        _ => false,
    }
}

/// `m` holds a signed block.
pub open spec fn has_signed(m: MessageV) -> bool {
    exists|i: int| 0 <= i < m.content.len() && #[trigger] is_signed(m.content[i])
}

/// The wire message that `m` holds, if it re-emits it verbatim.
pub fn verbatim_wire_message(m: &Message) -> (r: Option<&Json>)
    ensures
        opt_view(r) == verbatim_value(m@),
{
    if m.role == Role::System || m.content.len() != 1 {
        return None;
    }
    proof {
        assert(m@.content[0] == m.content@[0]@);
    }
    match &m.content[0] {
        ContentBlock::Opaque { format, value } => {
            if !text_is(format, ANTHROPIC_MESSAGES) {
                return None;
            }
            match value.get("role") {
                Some(j) => match j.as_str() {
                    Some(_) => Some(value),
                    None => None,
                },
                None => None,
            }
        },
        _ => None,
    }
}

fn block_is_signed(b: &ContentBlock) -> (r: bool)
    ensures
        r == is_signed(b@),
{
    reveal(obj_get);
    reveal(obj_index);
    match b {
        ContentBlock::Thinking { signature, .. } => signature.is_some(),
        ContentBlock::ToolCall { extra, .. } => match extra.get(GOOGLE_GENERATE_CONTENT) {
            Some(ns) => ns.contains_key("thoughtSignature"),
            None => false,
        },
        _ => false,
    }
}

/// `true` when the message holds a signed block.
pub fn has_signed_block(m: &Message) -> (r: bool)
    ensures
        r == has_signed(m@),
{
    let mut i: usize = 0;
    while i < m.content.len()
        invariant
            i <= m.content@.len(),
            forall|j: int| 0 <= j < i ==> !#[trigger] is_signed(m@.content[j]),
        decreases m.content@.len() - i,
    {
        if block_is_signed(&m.content[i]) {
            proof {
                assert(is_signed(m@.content[i as int]));
            }
            return true;
        }
        i += 1;
    }
    false
}

/// The layout so far.
pub struct LayoutV {
    /// Leading system messages, which go to the system channel.
    pub hoisted: Seq<usize>,
    pub plans: Seq<WirePlanV>,
    /// No message was planned yet.
    pub leading: bool,
    pub pending: Seq<PendingV>,
}

/// Layout under construction.
#[derive(Debug)]
pub struct Layout {
    pub hoisted: Vec<usize>,
    pub plans: Vec<WirePlan>,
    pub leading: bool,
    pub pending: Vec<Pending>,
}

impl View for Layout {
    type V = LayoutV;

    open spec fn view(&self) -> LayoutV {
        LayoutV {
            hoisted: self.hoisted@,
            plans: views(self.plans@),
            leading: self.leading,
            pending: views(self.pending@),
        }
    }
}

/// The warning about a downgraded role.
pub open spec fn downgrade_note(i: int, text: Seq<char>) -> PendingV {
    PendingV {
        code: WarningCode::RoleDowngraded,
        message: Some(i as usize),
        at_first_block: false,
        text,
    }
}

/// The wire role of message `i`, with the warning when it is a downgrade.
pub open spec fn planned_role(m: MessageV, i: int, downgrade_mid: bool) -> (WireRole, Seq<PendingV>) {
    match m.role {
        Role::System => if downgrade_mid {
            (
                WireRole::User,
                seq![downgrade_note(i, "system message downgraded to user (downgrade_mid_system)"@)],
            )
        } else {
            (WireRole::System, Seq::empty())
        },
        Role::Developer => (
            WireRole::User,
            seq![downgrade_note(i, "developer role has no Anthropic equivalent; downgraded to user"@)],
        ),
        Role::User | Role::Tool => (WireRole::User, Seq::empty()),
        Role::Assistant => (WireRole::Assistant, Seq::empty()),
    }
}

/// A message of a user turn.
pub open spec fn is_turn_message(m: MessageV) -> bool {
    m.role == Role::User || m.role == Role::Tool
}

/// Message `i` rejoins the user turn that the last plan builds: both are
/// members of one turn group.
pub open spec fn rejoins(plans: Seq<WirePlanV>, msgs: Seq<MessageV>, i: int) -> bool {
    &&& is_turn_message(msgs[i])
    &&& turn_group(msgs[i]) is Some
    &&& plans.len() > 0
    &&& plans.last().role == WireRole::User
    &&& !plans.last().verbatim
    &&& plans.last().parts.len() > 0
    &&& {
        let p = plans.last().parts.last() as int;
        &&& 0 <= p < msgs.len()
        &&& is_turn_message(msgs[p])
        &&& turn_group(msgs[p]) == turn_group(msgs[i])
    }
}

/// `p` with message `i` added.
pub open spec fn plan_with(p: WirePlanV, i: int) -> WirePlanV {
    WirePlanV { parts: p.parts.push(i as usize), ..p }
}

/// The layout after message `i`.
pub open spec fn layout_step(l: LayoutV, msgs: Seq<MessageV>, i: int, downgrade_mid: bool) -> LayoutV {
    let m = msgs[i];
    if verbatim_value(m) is Some {
        LayoutV {
            leading: false,
            plans: l.plans.push(
                WirePlanV { role: WireRole::User, parts: seq![i as usize], verbatim: true },
            ),
            ..l
        }
    } else if l.leading && m.role == Role::System && !in_array(m.round_trip) {
        LayoutV { hoisted: l.hoisted.push(i as usize), ..l }
    } else {
        let (role, notes) = planned_role(m, i, downgrade_mid);
        let pending = l.pending + notes;
        if rejoins(l.plans, msgs, i) {
            LayoutV {
                leading: false,
                pending,
                plans: l.plans.update(l.plans.len() - 1, plan_with(l.plans.last(), i)),
                ..l
            }
        } else {
            LayoutV {
                leading: false,
                pending,
                plans: l.plans.push(WirePlanV { role, parts: seq![i as usize], verbatim: false }),
                ..l
            }
        }
    }
}

/// The layout of the first `n` messages.
pub open spec fn layout(msgs: Seq<MessageV>, pending: Seq<PendingV>, downgrade_mid: bool, n: nat) -> LayoutV
    decreases n,
{
    if n == 0 || n > msgs.len() {
        LayoutV { hoisted: Seq::empty(), plans: Seq::empty(), leading: true, pending }
    } else {
        layout_step(layout(msgs, pending, downgrade_mid, (n - 1) as nat), msgs, n - 1, downgrade_mid)
    }
}

/// Some message of `parts` holds a signed block.
pub open spec fn any_signed(msgs: Seq<MessageV>, parts: Seq<usize>) -> bool {
    exists|k: int|
        0 <= k < parts.len() && (#[trigger] parts[k]) < msgs.len() && has_signed(msgs[parts[k] as int])
}

/// The plans and notes after one more plan was merged in: neighbours of one
/// role join unless a signed block stands between them.
pub open spec fn merge_step(
    prev: (Seq<WirePlanV>, Seq<PendingV>),
    plan: WirePlanV,
    msgs: Seq<MessageV>,
) -> (Seq<WirePlanV>, Seq<PendingV>) {
    let (done, pending) = prev;
    if done.len() > 0 && done.last().role == plan.role && !done.last().verbatim && !plan.verbatim {
        if any_signed(msgs, done.last().parts) || any_signed(msgs, plan.parts) {
            (
                done.push(plan),
                pending.push(
                    PendingV {
                        code: WarningCode::MergeBlockedBySignature,
                        message: if plan.parts.len() > 0 { Some(plan.parts[0]) } else { None },
                        at_first_block: false,
                        text: "adjacent same-role messages not merged: a signed thinking/tool-call block is a merge barrier"@,
                    },
                ),
            )
        } else {
            (
                done.update(
                    done.len() - 1,
                    WirePlanV { parts: done.last().parts + plan.parts, ..done.last() },
                ),
                pending,
            )
        }
    } else {
        (done.push(plan), pending)
    }
}

/// The first `n` plans after merging neighbours.
pub open spec fn merged_plans(
    plans: Seq<WirePlanV>,
    pending: Seq<PendingV>,
    msgs: Seq<MessageV>,
    n: nat,
) -> (Seq<WirePlanV>, Seq<PendingV>)
    decreases n,
{
    if n == 0 || n > plans.len() {
        (Seq::empty(), pending)
    } else {
        merge_step(merged_plans(plans, pending, msgs, (n - 1) as nat), plans[n - 1], msgs)
    }
}

fn is_turn(m: &Message) -> (r: bool)
    ensures
        r == is_turn_message(m@),
{
    m.role == Role::User || m.role == Role::Tool
}

fn plan_role(m: &Message, i: usize, downgrade_mid: bool, pending: &mut Vec<Pending>) -> (r: WireRole)
    ensures
        r == planned_role(m@, i as int, downgrade_mid).0,
        views(final(pending)@) == views(old(pending)@) + planned_role(m@, i as int, downgrade_mid).1,
{
    let ghost p0 = views(pending@);
    let role = match m.role {
        Role::System => if downgrade_mid {
            pending.push(
                Pending {
                    code: WarningCode::RoleDowngraded,
                    message: Some(i),
                    at_first_block: false,
                    text: "system message downgraded to user (downgrade_mid_system)".to_owned(),
                },
            );
            WireRole::User
        } else {
            WireRole::System
        },
        Role::Developer => {
            pending.push(
                Pending {
                    code: WarningCode::RoleDowngraded,
                    message: Some(i),
                    at_first_block: false,
                    text: "developer role has no Anthropic equivalent; downgraded to user".to_owned(),
                },
            );
            WireRole::User
        },
        Role::User | Role::Tool => WireRole::User,
        Role::Assistant => WireRole::Assistant,
    };
    proof {
        assert(views(pending@) =~= p0 + planned_role(m@, i as int, downgrade_mid).1);
    }
    role
}

fn can_rejoin(plans: &Vec<WirePlan>, messages: &Vec<Message>, i: usize) -> (r: bool)
    requires
        i < messages@.len(),
    ensures
        r == rejoins(views(plans@), views(messages@), i as int),
{
    proof {
        assert(views(messages@)[i as int] == messages@[i as int]@);
    }
    if !is_turn(&messages[i]) || plans.len() == 0 {
        return false;
    }
    let last = &plans[plans.len() - 1];
    proof {
        assert(views(plans@).last() == last@);
    }
    if last.role != WireRole::User || last.verbatim || last.parts.len() == 0 {
        return false;
    }
    let p: usize = last.parts[last.parts.len() - 1];
    if p >= messages.len() {
        return false;
    }
    proof {
        assert(views(messages@)[p as int] == messages@[p as int]@);
    }
    match (messages[i].turn_group_id(), messages[p].turn_group_id()) {
        (Some(a), Some(b)) => a == b && is_turn(&messages[p]),
        _ => false,
    }
}

/// Adds part `i` to the last plan.
fn extend_last(plans: &mut Vec<WirePlan>, more: &Vec<usize>)
    requires
        old(plans)@.len() > 0,
    ensures
        views(final(plans)@) == views(old(plans)@).update(
            old(plans)@.len() - 1,
            WirePlanV { parts: views(old(plans)@).last().parts + more@, ..views(old(plans)@).last() },
        ),
{
    let ghost v0 = views(plans@);
    match plans.pop() {
        Some(mut last) => {
            let ghost l0 = last@;
            let mut k: usize = 0;
            proof {
                assert(last.parts@ =~= l0.parts + more@.take(0));
            }
            while k < more.len()
                invariant
                    k <= more@.len(),
                    last.parts@ == l0.parts + more@.take(k as int),
                    last.role == l0.role,
                    last.verbatim == l0.verbatim,
                decreases more@.len() - k,
            {
                last.parts.push(more[k]);
                proof {
                    assert(last.parts@ =~= l0.parts + more@.take(k as int + 1));
                }
                k += 1;
            }
            proof {
                assert(more@.take(k as int) =~= more@);
            }
            plans.push(last);
            proof {
                assert(views(plans@) =~= v0.update(v0.len() - 1, last@));
            }
        },
        None => {},
    }
}

/// Plans the wire messages.
pub fn plan_messages(messages: &Vec<Message>, pending: Vec<Pending>, downgrade_mid: bool) -> (r: Layout)
    ensures
        r@ == layout(views(messages@), views(pending@), downgrade_mid, messages@.len()),
{
    let ghost pend0 = views(pending@);
    let ghost msgs = views(messages@);
    let mut l = Layout { hoisted: Vec::new(), plans: Vec::new(), leading: true, pending };
    let mut i: usize = 0;
    while i < messages.len()
        invariant
            i <= messages@.len(),
            msgs == views(messages@),
            l@ == layout(msgs, pend0, downgrade_mid, i as nat),
        decreases messages@.len() - i,
    {
        let m = &messages[i];
        let ghost l0 = l@;
        proof {
            assert(msgs[i as int] == m@);
        }
        let mut one: Vec<usize> = Vec::new();
        one.push(i);
        proof {
            assert(one@ =~= seq![i]);
        }
        if verbatim_wire_message(m).is_some() {
            l.leading = false;
            l.plans.push(WirePlan { role: WireRole::User, parts: one, verbatim: true });
        } else if l.leading && m.role == Role::System && !has_in_array_system_meta(&m.round_trip) {
            l.hoisted.push(i);
        } else {
            l.leading = false;
            let role = plan_role(m, i, downgrade_mid, &mut l.pending);
            if can_rejoin(&l.plans, messages, i) {
                extend_last(&mut l.plans, &one);
                proof {
                    assert(l0.plans.last().parts + one@ =~= l0.plans.last().parts.push(i));
                }
            } else {
                l.plans.push(WirePlan { role, parts: one, verbatim: false });
            }
        }
        i += 1;
    }
    l
}

fn parts_signed(messages: &Vec<Message>, parts: &Vec<usize>) -> (r: bool)
    ensures
        r == any_signed(views(messages@), parts@),
{
    let mut k: usize = 0;
    while k < parts.len()
        invariant
            k <= parts@.len(),
            forall|j: int|
                0 <= j < k ==> !((#[trigger] parts@[j]) < messages@.len() && has_signed(
                    views(messages@)[parts@[j] as int],
                )),
        decreases parts@.len() - k,
    {
        let p: usize = parts[k];
        if p < messages.len() && has_signed_block(&messages[p]) {
            proof {
                assert(parts@[k as int] == p);
                assert(views(messages@)[p as int] == messages@[p as int]@);
            }
            return true;
        }
        k += 1;
    }
    false
}

/// Merges neighbouring plans of one role.
pub fn merge_plans(plans: Vec<WirePlan>, messages: &Vec<Message>, pending: &mut Vec<Pending>) -> (r: Vec<WirePlan>)
    ensures
        (views(r@), views(final(pending)@)) == merged_plans(
            views(plans@),
            views(old(pending)@),
            views(messages@),
            plans@.len(),
        ),
{
    let ghost pend0 = views(pending@);
    let ghost all = views(plans@);
    let ghost msgs = views(messages@);
    let mut done: Vec<WirePlan> = Vec::new();
    for plan in it: plans
        invariant
            all == views(it.seq()),
            msgs == views(messages@),
            (views(done@), views(pending@)) == merged_plans(all, pend0, msgs, it.index() as nat),
    {
        proof {
            assert(all[it.index() as int] == plan@);
        }
        let n = done.len();
        if n > 0 && done[n - 1].role == plan.role && !done[n - 1].verbatim && !plan.verbatim {
            if parts_signed(messages, &done[n - 1].parts) || parts_signed(messages, &plan.parts) {
                pending.push(
                    Pending {
                        code: WarningCode::MergeBlockedBySignature,
                        message: if plan.parts.len() > 0 { Some(plan.parts[0]) } else { None },
                        at_first_block: false,
                        text: "adjacent same-role messages not merged: a signed thinking/tool-call block is a merge barrier".to_owned(),
                    },
                );
                done.push(plan);
            } else {
                extend_last(&mut done, &plan.parts);
            }
        } else {
            done.push(plan);
        }
    }
    done
}

} // verus!
