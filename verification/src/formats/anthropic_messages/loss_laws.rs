//! Laws: nothing of a request is dropped without a warning.

use vstd::prelude::*;
use crate::convert::{ConversionWarningV, ConvertOptionsV, WarningCode};
use crate::format::{AnthropicOptionsV, ANTHROPIC_MESSAGES};
use crate::formats::anthropic_messages::blocks::{block_value, nested_parts};
use crate::formats::anthropic_messages::from_ir::{body_start, chat_body, metadata_stage, orphan_texts, other_keys, output_stage, planned, prepared, reasoning_stage, request_fields, sampling_fields, sampling_warnings, token_limit, tool_choice_stage, tool_step, tool_values, tools_stage, wire_start};
use crate::formats::anthropic_messages::layout::{layout, layout_step, merge_step, merged_plans, planned_role, verbatim_value, LayoutV, WirePlanV};
use crate::formats::anthropic_messages::messages::{content_blocks, merged_parts, plan_content, resolved, wire_messages, wire_step, WireV};
use crate::formats::anthropic_messages::system::{entry_values, hoist_all, hoist_blocks, prompt_entries, relocated, system_value, EntryV, HoistV};
use crate::history::PendingV;
use crate::history_laws::{asks_to_think, history_losses, noted_code, notes_become_warnings, notes_tell_the_problems};
use crate::ir::{enables_thinking, extra_ns, ContentBlockV, ExtraV, MessageV, OutputFormatV, RequestV, Role, ToolOutputBlockV, ToolV};
use crate::json::{obj_set, JsonV, ObjV};
use crate::loss::{code_is_among, group_loss, has_code, kept, moved_warnings_stay};
use crate::sink::{empty_sink, SinkV};
use crate::text::decimal;

verus! {

broadcast use group_loss;

/// The warnings that a block of a tool result has to raise.
pub open spec fn output_losses(b: ToolOutputBlockV, ws: Seq<ConversionWarningV>) -> bool {
    match b {
        ToolOutputBlockV::Text { cache, .. } => cache is Some ==> has_code(ws, WarningCode::CacheHintDropped),
        ToolOutputBlockV::Image { cache, .. } => cache is Some ==> has_code(ws, WarningCode::CacheHintDropped),
        ToolOutputBlockV::Opaque { format, .. } => format != ANTHROPIC_MESSAGES@ ==> has_code(
            ws,
            WarningCode::OpaqueDropped,
        ),
    }
}

/// The warnings that a block of a message has to raise, since this format has
/// no place for what it says.
pub open spec fn losses_of(role: Role, b: ContentBlockV, as_text: bool, ws: Seq<ConversionWarningV>) -> bool {
    match b {
        ContentBlockV::Opaque { format, .. } => format != ANTHROPIC_MESSAGES@ ==> has_code(
            ws,
            WarningCode::OpaqueDropped,
        ),
        ContentBlockV::Image { .. } => role == Role::Assistant ==> has_code(ws, WarningCode::ImageSourceUnsupported),
        ContentBlockV::Thinking { text, signature, extra } => {
            let unclaimed = forall|i: int| 0 <= i < extra.len() ==> (#[trigger] extra[i]).1.len() == 0;
            let native = extra_ns(extra, ANTHROPIC_MESSAGES@).len() > 0 || (signature is Some && unclaimed);
            &&& !native && !(as_text && text is Some) ==> has_code(ws, WarningCode::ThinkingDropped)
            &&& !native && as_text && text is Some && signature is Some ==> has_code(
                ws,
                WarningCode::ThinkingSignatureDropped,
            )
        },
        ContentBlockV::ToolResult { content, .. } => forall|i: int|
            0 <= i < content.len() ==> output_losses(#[trigger] content[i], ws),
        _ => true,
    }
}

proof fn losses_stay(role: Role, b: ContentBlockV, as_text: bool, x: Seq<ConversionWarningV>, y: Seq<ConversionWarningV>)
    requires
        losses_of(role, b, as_text, x),
        kept(x, y),
    ensures
        losses_of(role, b, as_text, y),
{
    if let ContentBlockV::ToolResult { content, .. } = b {
        assert forall|i: int| 0 <= i < content.len() implies output_losses(#[trigger] content[i], y) by {
            assert(output_losses(content[i], x));
        }
    }
}

proof fn outputs_are_reported(content: Seq<ToolOutputBlockV>, loc: Seq<char>, s: SinkV, n: nat)
    requires
        n <= content.len(),
    ensures
        kept(s.warnings, nested_parts(content, loc, s, n).1.warnings),
        forall|i: int|
            0 <= i < n ==> output_losses(#[trigger] content[i], nested_parts(content, loc, s, n).1.warnings),
    decreases n,
{
    if n > 0 {
        let q = (n - 1) as nat;
        outputs_are_reported(content, loc, s, q);
        let a = nested_parts(content, loc, s, q).1.warnings;
        let b = nested_parts(content, loc, s, n).1.warnings;
        assert(kept(a, b));
        assert forall|i: int| 0 <= i < n implies output_losses(#[trigger] content[i], b) by {
            if i < q {
                assert(output_losses(content[i], a));
            }
        }
    }
}

proof fn block_is_reported(role: Role, b: ContentBlockV, loc: Seq<char>, ir_loc: Seq<char>, as_text: bool, s: SinkV)
    requires
        block_value(role, b, loc, ir_loc, as_text, s) is Ok,
    ensures
        kept(s.warnings, block_value(role, b, loc, ir_loc, as_text, s)->Ok_0.1.warnings),
        losses_of(role, b, as_text, block_value(role, b, loc, ir_loc, as_text, s)->Ok_0.1.warnings),
{
    if let ContentBlockV::ToolResult { content, .. } = b {
        outputs_are_reported(content, loc, s, content.len());
        let ws = block_value(role, b, loc, ir_loc, as_text, s)->Ok_0.1.warnings;
        assert forall|i: int| 0 <= i < content.len() implies output_losses(#[trigger] content[i], ws) by {
            let many = nested_parts(content, loc, s, content.len()).1.warnings;
            assert(output_losses(content[i], many));
        }
    }
}

/// The warnings that a message has to raise.
pub open spec fn message_losses(m: MessageV, as_text: bool, ws: Seq<ConversionWarningV>) -> bool {
    forall|i: int| 0 <= i < m.content.len() ==> losses_of(m.role, #[trigger] m.content[i], as_text, ws)
}

proof fn message_losses_stay(m: MessageV, as_text: bool, x: Seq<ConversionWarningV>, y: Seq<ConversionWarningV>)
    requires
        message_losses(m, as_text, x),
        kept(x, y),
    ensures
        message_losses(m, as_text, y),
{
    assert forall|i: int| 0 <= i < m.content.len() implies losses_of(m.role, #[trigger] m.content[i], as_text, y) by {
        losses_stay(m.role, m.content[i], as_text, x, y);
    }
}

proof fn content_is_reported(
    st: (Seq<JsonV>, SinkV),
    m: MessageV,
    p: nat,
    loc: Seq<char>,
    as_text: bool,
    n: nat,
)
    requires
        n <= m.content.len(),
        content_blocks(st, m, p, loc, as_text, n) is Ok,
    ensures
        ({
            let ws = content_blocks(st, m, p, loc, as_text, n)->Ok_0.1.warnings;
            &&& kept(st.1.warnings, ws)
            &&& forall|i: int| 0 <= i < n ==> losses_of(m.role, #[trigger] m.content[i], as_text, ws)
        }),
    decreases n,
{
    if n > 0 {
        let q = (n - 1) as nat;
        content_is_reported(st, m, p, loc, as_text, q);
        let prev = content_blocks(st, m, p, loc, as_text, q)->Ok_0;
        let at = loc + "/content/"@ + decimal(prev.0.len());
        let ir = "/messages/"@ + decimal(p) + "/content/"@ + decimal(q);
        block_is_reported(m.role, m.content[q as int], at, ir, as_text, prev.1);
        let ws = content_blocks(st, m, p, loc, as_text, n)->Ok_0.1.warnings;
        assert forall|i: int| 0 <= i < n implies losses_of(m.role, #[trigger] m.content[i], as_text, ws) by {
            if i < q {
                losses_stay(m.role, m.content[i], as_text, prev.1.warnings, ws);
            }
        }
    }
}

spec fn parts_reported(
    msgs: Seq<MessageV>,
    parts: Seq<usize>,
    as_text: bool,
    ws: Seq<ConversionWarningV>,
    n: nat,
) -> bool {
    forall|j: int|
        0 <= j < n && (#[trigger] parts[j]) < msgs.len() ==> message_losses(msgs[parts[j] as int], as_text, ws)
}

proof fn parts_reported_stay(
    msgs: Seq<MessageV>,
    parts: Seq<usize>,
    as_text: bool,
    x: Seq<ConversionWarningV>,
    y: Seq<ConversionWarningV>,
    n: nat,
)
    requires
        parts_reported(msgs, parts, as_text, x, n),
        kept(x, y),
    ensures
        parts_reported(msgs, parts, as_text, y, n),
{
    assert forall|j: int| 0 <= j < n && (#[trigger] parts[j]) < msgs.len() implies message_losses(
        msgs[parts[j] as int],
        as_text,
        y,
    ) by {
        message_losses_stay(msgs[parts[j] as int], as_text, x, y);
    }
}

proof fn plan_is_reported(
    msgs: Seq<MessageV>,
    parts: Seq<usize>,
    loc: Seq<char>,
    as_text: bool,
    log: Seq<Seq<char>>,
    n: nat,
)
    requires
        n <= parts.len(),
        plan_content(msgs, parts, loc, as_text, log, n) is Ok,
    ensures
        parts_reported(
            msgs,
            parts,
            as_text,
            plan_content(msgs, parts, loc, as_text, log, n)->Ok_0.1.warnings,
            n,
        ),
    decreases n,
{
    if n > 0 {
        let q = (n - 1) as nat;
        plan_is_reported(msgs, parts, loc, as_text, log, q);
        let prev = plan_content(msgs, parts, loc, as_text, log, q)->Ok_0;
        let ws = plan_content(msgs, parts, loc, as_text, log, n)->Ok_0.1.warnings;
        let p = parts[q as int];
        if p < msgs.len() {
            content_is_reported(prev, msgs[p as int], p as nat, loc, as_text, msgs[p as int].content.len());
        }
        parts_reported_stay(msgs, parts, as_text, prev.1.warnings, ws, q);
    }
}

proof fn merging_raises_nothing(v: JsonV, s: SinkV, msgs: Seq<MessageV>, parts: Seq<usize>, loc: Seq<char>, n: nat)
    ensures
        merged_parts(v, s, msgs, parts, loc, n).1.warnings == s.warnings,
    decreases n,
{
    if n > 0 && n <= parts.len() {
        merging_raises_nothing(v, s, msgs, parts, loc, (n - 1) as nat);
    }
}

spec fn verbatim_plan(p: WirePlanV, msgs: Seq<MessageV>) -> bool {
    p.verbatim ==> p.parts.len() == 1 && p.parts[0] < msgs.len() && verbatim_value(msgs[p.parts[0] as int]) is Some
}

proof fn wire_is_reported(st: WireV, plan: WirePlanV, msgs: Seq<MessageV>, as_text: bool)
    requires
        verbatim_plan(plan, msgs),
        wire_step(st, plan, msgs, as_text) is Ok,
    ensures
        kept(st.sink.warnings, wire_step(st, plan, msgs, as_text)->Ok_0.sink.warnings),
        parts_reported(
            msgs,
            plan.parts,
            as_text,
            wire_step(st, plan, msgs, as_text)->Ok_0.sink.warnings,
            plan.parts.len(),
        ),
{
    let loc = "/messages/"@ + decimal(st.wire.len());
    let out = wire_step(st, plan, msgs, as_text)->Ok_0.sink.warnings;
    if !plan.verbatim {
        let n = plan.parts.len();
        plan_is_reported(msgs, plan.parts, loc, as_text, st.sink.log, n);
        let (content, s) = plan_content(msgs, plan.parts, loc, as_text, st.sink.log, n)->Ok_0;
        moved_warnings_stay(s.warnings, "/messages"@);
        let moved = relocated(s.warnings, "/messages"@);
        assert(kept(st.sink.warnings, st.sink.warnings + s.warnings) && kept(s.warnings, st.sink.warnings + s.warnings));
        assert(kept(st.sink.warnings, st.sink.warnings + moved) && kept(moved, st.sink.warnings + moved));
        assert forall|v: JsonV, t: SinkV|
            (#[trigger] merged_parts(v, t, msgs, plan.parts, loc, n)).1.warnings == t.warnings by {
            merging_raises_nothing(v, t, msgs, plan.parts, loc, n);
        }
        assert(kept(s.warnings, out));
        parts_reported_stay(msgs, plan.parts, as_text, s.warnings, out, n);
    }
}

spec fn plans_reported(
    msgs: Seq<MessageV>,
    plans: Seq<WirePlanV>,
    as_text: bool,
    ws: Seq<ConversionWarningV>,
    n: nat,
) -> bool {
    forall|k: int|
        0 <= k < n ==> parts_reported(msgs, (#[trigger] plans[k]).parts, as_text, ws, plans[k].parts.len())
}

proof fn plans_reported_stay(
    msgs: Seq<MessageV>,
    plans: Seq<WirePlanV>,
    as_text: bool,
    x: Seq<ConversionWarningV>,
    y: Seq<ConversionWarningV>,
    n: nat,
)
    requires
        plans_reported(msgs, plans, as_text, x, n),
        kept(x, y),
    ensures
        plans_reported(msgs, plans, as_text, y, n),
{
    assert forall|k: int| 0 <= k < n implies parts_reported(
        msgs,
        (#[trigger] plans[k]).parts,
        as_text,
        y,
        plans[k].parts.len(),
    ) by {
        parts_reported_stay(msgs, plans[k].parts, as_text, x, y, plans[k].parts.len());
    }
}

proof fn wires_are_reported(st: WireV, plans: Seq<WirePlanV>, msgs: Seq<MessageV>, as_text: bool, n: nat)
    requires
        n <= plans.len(),
        forall|k: int| 0 <= k < plans.len() ==> verbatim_plan(#[trigger] plans[k], msgs),
        wire_messages(st, plans, msgs, as_text, n) is Ok,
    ensures
        kept(st.sink.warnings, wire_messages(st, plans, msgs, as_text, n)->Ok_0.sink.warnings),
        plans_reported(msgs, plans, as_text, wire_messages(st, plans, msgs, as_text, n)->Ok_0.sink.warnings, n),
    decreases n,
{
    if n > 0 {
        let q = (n - 1) as nat;
        wires_are_reported(st, plans, msgs, as_text, q);
        let prev = wire_messages(st, plans, msgs, as_text, q)->Ok_0;
        wire_is_reported(prev, plans[q as int], msgs, as_text);
        let ws = wire_messages(st, plans, msgs, as_text, n)->Ok_0.sink.warnings;
        plans_reported_stay(msgs, plans, as_text, prev.sink.warnings, ws, q);
    }
}

/// Some plan builds a wire message from message `i`.
pub open spec fn in_a_plan(plans: Seq<WirePlanV>, i: usize) -> bool {
    exists|k: int| 0 <= k < plans.len() && #[trigger] in_plan(plans[k], i)
}

/// The plan builds a wire message from message `i`.
pub open spec fn in_plan(plan: WirePlanV, i: usize) -> bool {
    exists|j: int| 0 <= j < plan.parts.len() && #[trigger] plan.parts[j] == i
}

/// The message is one of those that go to the system channel.
pub open spec fn is_hoisted(hoisted: Seq<usize>, i: usize) -> bool {
    exists|j: int| 0 <= j < hoisted.len() && #[trigger] hoisted[j] == i
}

spec fn downgrades(msgs: Seq<MessageV>, i: int, downgrade_mid: bool) -> bool {
    verbatim_value(msgs[i]) is None && (msgs[i].role == Role::Developer || (msgs[i].role == Role::System
        && downgrade_mid && exists|j: int| 0 <= j < i && (#[trigger] msgs[j]).role != Role::System))
}

spec fn laid_out(l: LayoutV, msgs: Seq<MessageV>, downgrade_mid: bool, n: nat) -> bool {
    &&& l.leading ==> forall|j: int| 0 <= j < n ==> (#[trigger] msgs[j]).role == Role::System
    &&& forall|k: int| 0 <= k < l.plans.len() ==> verbatim_plan(#[trigger] l.plans[k], msgs)
    &&& forall|i: int|
        0 <= i < n ==> #[trigger] in_a_plan(l.plans, i as usize) || is_hoisted(l.hoisted, i as usize)
    &&& forall|i: int|
        0 <= i < n && #[trigger] downgrades(msgs, i, downgrade_mid) ==> noted_code(
            l.pending,
            WarningCode::RoleDowngraded,
        )
}

proof fn layout_covers(msgs: Seq<MessageV>, pending: Seq<PendingV>, downgrade_mid: bool, n: nat)
    requires
        n <= msgs.len() <= usize::MAX,
    ensures
        laid_out(layout(msgs, pending, downgrade_mid, n), msgs, downgrade_mid, n),
    decreases n,
{
    if n > 0 {
        let q = (n - 1) as nat;
        layout_covers(msgs, pending, downgrade_mid, q);
        let a = layout(msgs, pending, downgrade_mid, q);
        let b = layout(msgs, pending, downgrade_mid, n);
        assert(b == layout_step(a, msgs, q as int, downgrade_mid));
        let last = b.plans.len() - 1;
        assert forall|k: int| 0 <= k < b.plans.len() implies verbatim_plan(#[trigger] b.plans[k], msgs) by {
            if k < a.plans.len() {
                assert(verbatim_plan(a.plans[k], msgs));
            }
        }
        assert forall|i: int| 0 <= i < n implies #[trigger] in_a_plan(b.plans, i as usize) || is_hoisted(
            b.hoisted,
            i as usize,
        ) by {
            if i < q {
                if in_a_plan(a.plans, i as usize) {
                    let k = choose|k: int| 0 <= k < a.plans.len() && #[trigger] in_plan(a.plans[k], i as usize);
                    let j = choose|j: int| 0 <= j < a.plans[k].parts.len() && #[trigger] a.plans[k].parts[j] == i as usize;
                    assert(b.plans[k].parts[j] == i as usize);
                    assert(in_plan(b.plans[k], i as usize));
                } else {
                    let j = choose|j: int| 0 <= j < a.hoisted.len() && #[trigger] a.hoisted[j] == i as usize;
                    assert(b.hoisted[j] == i as usize);
                }
            } else if b.hoisted.len() == a.hoisted.len() {
                let j = b.plans[last].parts.len() - 1;
                assert(b.plans[last].parts[j] == i as usize);
                assert(in_plan(b.plans[last], i as usize));
            } else {
                assert(b.hoisted[b.hoisted.len() - 1] == i as usize);
            }
        }
        let code = WarningCode::RoleDowngraded;
        if noted_code(a.pending, code) {
            let k = choose|k: int| 0 <= k < a.pending.len() && (#[trigger] a.pending[k]).code == code;
            assert(b.pending[k] == a.pending[k]);
        }
        if downgrades(msgs, q as int, downgrade_mid) {
            let notes = planned_role(msgs[q as int], q as int, downgrade_mid).1;
            assert(b.pending == a.pending + notes);
            assert(b.pending[a.pending.len() as int] == notes[0]);
        }
        assert forall|i: int| 0 <= i < n && #[trigger] downgrades(msgs, i, downgrade_mid) implies noted_code(
            b.pending,
            code,
        ) by {
            if i < q {
                assert(downgrades(msgs, i, downgrade_mid));
            }
        }
    }
}

proof fn merging_covers(plans: Seq<WirePlanV>, pending: Seq<PendingV>, msgs: Seq<MessageV>, n: nat)
    requires
        n <= plans.len(),
        forall|k: int| 0 <= k < plans.len() ==> verbatim_plan(#[trigger] plans[k], msgs),
    ensures
        ({
            let (done, notes) = merged_plans(plans, pending, msgs, n);
            &&& forall|k: int| 0 <= k < done.len() ==> verbatim_plan(#[trigger] done[k], msgs)
            &&& forall|i: usize, k: int|
                0 <= k < n && #[trigger] in_plan(plans[k], i) ==> in_a_plan(done, i)
            &&& forall|code: WarningCode| #[trigger] noted_code(pending, code) ==> noted_code(notes, code)
        }),
    decreases n,
{
    if n > 0 {
        let q = (n - 1) as nat;
        merging_covers(plans, pending, msgs, q);
        let (a, x) = merged_plans(plans, pending, msgs, q);
        let (b, y) = merged_plans(plans, pending, msgs, n);
        let plan = plans[q as int];
        assert((b, y) == merge_step((a, x), plan, msgs));
        assert forall|k: int| 0 <= k < b.len() implies verbatim_plan(#[trigger] b[k], msgs) by {
            if k < a.len() {
                assert(verbatim_plan(a[k], msgs));
            }
        }
        assert forall|i: usize, k: int| 0 <= k < n && #[trigger] in_plan(plans[k], i) implies in_a_plan(b, i) by {
            if k < q {
                let m = choose|m: int| 0 <= m < a.len() && #[trigger] in_plan(a[m], i);
                let j = choose|j: int| 0 <= j < a[m].parts.len() && #[trigger] a[m].parts[j] == i;
                assert(b[m].parts[j] == i);
                assert(in_plan(b[m], i));
            } else {
                let j = choose|j: int| 0 <= j < plan.parts.len() && #[trigger] plan.parts[j] == i;
                let m = b.len() - 1;
                let off = b[m].parts.len() - plan.parts.len();
                assert(b[m].parts[off + j] == i);
                assert(in_plan(b[m], i));
            }
        }
        assert forall|code: WarningCode| #[trigger] noted_code(pending, code) implies noted_code(y, code) by {
            let k = choose|k: int| 0 <= k < x.len() && (#[trigger] x[k]).code == code;
            assert(y[k] == x[k]);
        }
    }
}

/// Every message has its place: in the system channel, or in a wire message.
/// A layout leaves none out, and merging neighbours loses none.
pub proof fn every_message_has_its_place(msgs: Seq<MessageV>, pending: Seq<PendingV>, opts: AnthropicOptionsV, i: nat)
    requires
        i < msgs.len() <= usize::MAX,
    ensures
        in_a_plan(planned(msgs, pending, opts).1, i as usize) || is_hoisted(
            planned(msgs, pending, opts).0,
            i as usize,
        ),
{
    let l = layout(msgs, pending, opts.downgrade_mid_system, msgs.len());
    layout_covers(msgs, pending, opts.downgrade_mid_system, msgs.len());
    merging_covers(l.plans, l.pending, msgs, l.plans.len());
    assert(in_a_plan(l.plans, i as int as usize) || is_hoisted(l.hoisted, i as int as usize));
}

proof fn resolving_keeps(pending: Seq<PendingV>, placed: Seq<Option<usize>>, n: nat)
    requires
        n <= pending.len(),
    ensures
        resolved(pending, placed, n).len() == n,
        forall|k: int| 0 <= k < n ==> (#[trigger] resolved(pending, placed, n)[k]).code == pending[k].code,
    decreases n,
{
    if n > 0 {
        resolving_keeps(pending, placed, (n - 1) as nat);
    }
}

proof fn hoisting_is_reported(h: HoistV, m: MessageV, i: nat, as_text: bool, n: nat)
    requires
        n <= m.content.len(),
        m.role == Role::System,
        hoist_blocks(h, m, i, n) is Ok,
    ensures
        ({
            let ws = hoist_blocks(h, m, i, n)->Ok_0.warnings;
            &&& kept(h.warnings, ws)
            &&& forall|b: int| 0 <= b < n ==> losses_of(m.role, #[trigger] m.content[b], as_text, ws)
        }),
    decreases n,
{
    if n > 0 {
        let q = (n - 1) as nat;
        hoisting_is_reported(h, m, i, as_text, q);
        let a = hoist_blocks(h, m, i, q)->Ok_0;
        let ws = hoist_blocks(h, m, i, n)->Ok_0.warnings;
        assert(kept(a.warnings, ws));
        assert forall|b: int| 0 <= b < n implies losses_of(m.role, #[trigger] m.content[b], as_text, ws) by {
            if b < q {
                losses_stay(m.role, m.content[b], as_text, a.warnings, ws);
            }
        }
    }
}

spec fn all_system(msgs: Seq<MessageV>, hoisted: Seq<usize>) -> bool {
    forall|j: int|
        0 <= j < hoisted.len() ==> (#[trigger] hoisted[j]) < msgs.len() && msgs[hoisted[j] as int].role == Role::System
}

proof fn hoisted_are_system(msgs: Seq<MessageV>, pending: Seq<PendingV>, downgrade_mid: bool, n: nat)
    requires
        n <= msgs.len() <= usize::MAX,
    ensures
        all_system(msgs, layout(msgs, pending, downgrade_mid, n).hoisted),
    decreases n,
{
    if n > 0 {
        hoisted_are_system(msgs, pending, downgrade_mid, (n - 1) as nat);
    }
}

proof fn hoists_are_reported(h: HoistV, msgs: Seq<MessageV>, hoisted: Seq<usize>, as_text: bool, n: nat)
    requires
        n <= hoisted.len(),
        all_system(msgs, hoisted),
        hoist_all(h, msgs, hoisted, n) is Ok,
    ensures
        kept(h.warnings, hoist_all(h, msgs, hoisted, n)->Ok_0.warnings),
        parts_reported(msgs, hoisted, as_text, hoist_all(h, msgs, hoisted, n)->Ok_0.warnings, n),
    decreases n,
{
    if n > 0 {
        let q = (n - 1) as nat;
        hoists_are_reported(h, msgs, hoisted, as_text, q);
        let a = hoist_all(h, msgs, hoisted, q)->Ok_0;
        let ws = hoist_all(h, msgs, hoisted, n)->Ok_0.warnings;
        let p = hoisted[q as int];
        hoisting_is_reported(a, msgs[p as int], p as nat, as_text, msgs[p as int].content.len());
        parts_reported_stay(msgs, hoisted, as_text, a.warnings, ws, q);
    }
}

proof fn entries_raise_nothing(entries: Seq<EntryV>, extras: Seq<(usize, ExtraV)>, s: SinkV, n: nat)
    ensures
        entry_values(entries, extras, s, n).1.warnings == s.warnings,
    decreases n,
{
    if n > 0 && n <= entries.len() {
        entries_raise_nothing(entries, extras, s, (n - 1) as nat);
    }
}

proof fn system_is_reported(
    system: Option<Seq<ContentBlockV>>,
    msgs: Seq<MessageV>,
    hoisted: Seq<usize>,
    s: SinkV,
    as_text: bool,
)
    requires
        all_system(msgs, hoisted),
        system_value(system, msgs, hoisted, s) is Ok,
    ensures
        parts_reported(
            msgs,
            hoisted,
            as_text,
            system_value(system, msgs, hoisted, s)->Ok_0.1.warnings,
            hoisted.len(),
        ),
{
    let entries = match system {
        Some(blocks) => prompt_entries(blocks, blocks.len())->Ok_0,
        None => Seq::empty(),
    };
    let h0 = HoistV { entries, extras: Seq::empty(), warnings: Seq::empty() };
    let n = hoisted.len();
    hoists_are_reported(h0, msgs, hoisted, as_text, n);
    let h = hoist_all(h0, msgs, hoisted, n)->Ok_0;
    let out = system_value(system, msgs, hoisted, s)->Ok_0.1.warnings;
    let moved = relocated(h.warnings, "/system"@);
    moved_warnings_stay(h.warnings, "/system"@);
    let s1 = SinkV { warnings: s.warnings + h.warnings, log: s.log };
    entries_raise_nothing(h.entries, h.extras, s1, h.entries.len());
    assert(kept(h.warnings, out)) by {
        if h.entries.len() == 0 {
            let added = out.subrange(s.warnings.len() as int, out.len() as int);
            assert(out == s.warnings + added);
            assert(kept(added, s.warnings + added));
        } else {
            assert(kept(h.warnings, s.warnings + h.warnings));
        }
    }
    parts_reported_stay(msgs, hoisted, as_text, h.warnings, out, n);
}

/// The warnings that a tool has to raise.
pub open spec fn tool_losses(t: ToolV, ws: Seq<ConversionWarningV>) -> bool {
    match t {
        ToolV::Function(f) => f.parameters is None ==> has_code(ws, WarningCode::EmptyParametersSynthesized),
        ToolV::Opaque { format, .. } => format != ANTHROPIC_MESSAGES@ ==> has_code(ws, WarningCode::OpaqueDropped),
    }
}

/// A tool that this format can send.
pub open spec fn is_sent(t: ToolV) -> bool {
    t is Function || t->Opaque_format == ANTHROPIC_MESSAGES@
}

proof fn tools_are_reported(tools: Seq<ToolV>, s: SinkV, n: nat)
    requires
        n <= tools.len(),
    ensures
        kept(s.warnings, tool_values(tools, s, n).1.warnings),
        forall|i: int| 0 <= i < n ==> tool_losses(#[trigger] tools[i], tool_values(tools, s, n).1.warnings),
        (tool_values(tools, s, n).0.len() > 0) == (exists|i: int| 0 <= i < n && is_sent(#[trigger] tools[i])),
    decreases n,
{
    if n > 0 {
        let q = (n - 1) as nat;
        tools_are_reported(tools, s, q);
        let a = tool_values(tools, s, q);
        let b = tool_values(tools, s, n);
        assert(b == tool_step(a, tools[q as int]));
        assert(kept(a.1.warnings, b.1.warnings));
        assert forall|i: int| 0 <= i < n implies tool_losses(#[trigger] tools[i], b.1.warnings) by {
            if i < q {
                assert(tool_losses(tools[i], a.1.warnings));
            }
        }
        assert(is_sent(tools[q as int]) == (b.0.len() > a.0.len()));
    }
}

/// Some tool goes out, so that a choice among tools means something.
pub open spec fn any_sent(tools: Option<Seq<ToolV>>) -> bool {
    tools is Some && exists|i: int| 0 <= i < tools->0.len() && is_sent(#[trigger] tools->0[i])
}

/// The warnings that the settings of a request have to raise.
pub open spec fn setting_losses(req: RequestV, ws: Seq<ConversionWarningV>) -> bool {
    &&& req.seed is Some || req.frequency_penalty is Some || req.presence_penalty is Some ==> has_code(
        ws,
        WarningCode::SamplingParameterDropped,
    )
    &&& req.cache_key is Some ==> has_code(ws, WarningCode::CacheKeyDropped)
    &&& match req.metadata {
        Some(m) => (exists|i: int| 0 <= i < m.len() && (#[trigger] m[i]).0 != "user_id"@) ==> has_code(
            ws,
            WarningCode::MetadataDropped,
        ),
        None => true,
    }
    &&& match req.tools {
        Some(tools) => forall|i: int| 0 <= i < tools.len() ==> tool_losses(#[trigger] tools[i], ws),
        None => true,
    }
    &&& req.tool_choice is Some && !any_sent(req.tools) ==> has_code(ws, WarningCode::ToolChoiceIgnored)
    &&& req.parallel_tool_calls is Some && (!any_sent(req.tools) || (req.tool_choice is Some
        && req.tool_choice->0 is Disabled)) ==> has_code(ws, WarningCode::ParallelToolCallsIgnored)
    &&& match req.output_format {
        Some(OutputFormatV::JsonSchema { name, description, schema, strict }) => name is Some || description is Some
            || strict is Some ==> has_code(ws, WarningCode::OutputFormatDetailDropped),
        Some(OutputFormatV::JsonObject) => has_code(ws, WarningCode::JsonModeUnsupported),
        None => true,
    }
    &&& match req.reasoning {
        Some(r) => {
            &&& r.effort is Some && (r.effort->0 is Disabled || r.effort->0 is Minimal) ==> has_code(
                ws,
                WarningCode::EffortUnsupported,
            )
            &&& r.effort is Some && r.enabled is Some && r.enabled->0 == (r.effort->0 is Disabled) ==> has_code(
                ws,
                WarningCode::ReasoningConflict,
            )
            &&& r.include_thoughts is Some && r.enabled != Some(true) && r.effort is None ==> has_code(
                ws,
                WarningCode::IncludeThoughtsUnsupported,
            )
        },
        None => true,
    }
}

proof fn other_keys_are_listed(m: ObjV, n: nat)
    requires
        n <= m.len(),
    ensures
        (exists|i: int| 0 <= i < n && (#[trigger] m[i]).0 != "user_id"@) ==> other_keys(m, n).len() > 0,
    decreases n,
{
    if n > 0 {
        other_keys_are_listed(m, (n - 1) as nat);
    }
}

proof fn settings_are_reported(req: RequestV, streaming: bool, body: ObjV, s: SinkV)
    ensures
        kept(s.warnings, request_fields(req, streaming, body, s).1.warnings),
        setting_losses(req, request_fields(req, streaming, body, s).1.warnings),
{
    let (b1, s1) = metadata_stage(req.metadata, body, s);
    if let Some(m) = req.metadata {
        other_keys_are_listed(m, m.len());
    }
    assert(kept(s.warnings, s1.warnings));
    let b2 = sampling_fields(req, b1);
    let s2 = sampling_warnings(req, s1);
    assert(kept(s1.warnings, s2.warnings));
    let b3 = if streaming { obj_set(b2, "stream"@, JsonV::Bool(true)) } else { b2 };
    let (has_tools, b4, s4) = tools_stage(req.tools, b3, s2);
    if let Some(tools) = req.tools {
        tools_are_reported(tools, s2, tools.len());
    }
    assert(has_tools == any_sent(req.tools));
    assert(kept(s2.warnings, s4.warnings));
    let (b5, s5) = tool_choice_stage(req.tool_choice, req.parallel_tool_calls, has_tools, b4, s4);
    assert(kept(s4.warnings, s5.warnings));
    let (b6, c6, s6) = match req.reasoning {
        Some(r) => reasoning_stage(r, b5, Seq::empty(), s5),
        None => (b5, Seq::empty(), s5),
    };
    assert(kept(s5.warnings, s6.warnings));
    let (c7, s7) = output_stage(req.output_format, c6, s6);
    assert(kept(s6.warnings, s7.warnings));
    let out = request_fields(req, streaming, body, s).1;
    assert(out.warnings == s7.warnings);
    if let Some(tools) = req.tools {
        assert forall|i: int| 0 <= i < tools.len() implies tool_losses(#[trigger] tools[i], out.warnings) by {
            assert(tool_losses(tools[i], s4.warnings));
        }
    }
}

/// Whatever of a request this format has no place for is reported: foreign
/// blocks and tools, thinking of other providers, cache hints inside tool
/// results, assistant images, message roles, and settings. A body without
/// warnings has lost none of them.
#[verifier::rlimit(40)]
pub proof fn nothing_is_dropped_silently(
    req: RequestV,
    model: Seq<char>,
    opts: AnthropicOptionsV,
    conv: ConvertOptionsV,
    streaming: bool,
)
    requires
        chat_body(req, model, opts, conv, streaming) is Ok,
        prepared(req, conv).0.len() <= usize::MAX,
    ensures
        ({
            let msgs = prepared(req, conv).0;
            let ws = chat_body(req, model, opts, conv, streaming)->Ok_0.warnings;
            &&& setting_losses(req, ws)
            &&& forall|i: int| 0 <= i < msgs.len() ==> message_losses(#[trigger] msgs[i], conv.thinking_as_text, ws)
            &&& forall|i: int|
                0 <= i < msgs.len() && (#[trigger] msgs[i]).role == Role::Developer && verbatim_value(msgs[i]) is None
                    ==> has_code(ws, WarningCode::RoleDowngraded)
            &&& forall|i: int, j: int|
                0 <= j < i < msgs.len() && (#[trigger] msgs[i]).role == Role::System && (#[trigger] msgs[j]).role
                    != Role::System && opts.downgrade_mid_system ==> has_code(ws, WarningCode::RoleDowngraded)
        }),
{
    let (msgs, notes) = prepared(req, conv);
    let as_text = conv.thinking_as_text;
    let mid = opts.downgrade_mid_system;
    let (hoisted, plans, pending) = planned(msgs, notes, opts);
    let l = layout(msgs, notes, mid, msgs.len());
    layout_covers(msgs, notes, mid, msgs.len());
    hoisted_are_system(msgs, notes, mid, msgs.len());
    merging_covers(l.plans, l.pending, msgs, l.plans.len());
    let limit = token_limit(req, opts)->0;
    let (system, s) = system_value(req.system, msgs, hoisted, empty_sink())->Ok_0;
    system_is_reported(req.system, msgs, hoisted, empty_sink(), as_text);
    let w0 = wire_start(msgs.len(), s);
    let w = wire_messages(w0, plans, msgs, as_text, plans.len())->Ok_0;
    wires_are_reported(w0, plans, msgs, as_text, plans.len());
    let found = resolved(pending, w.placed, pending.len());
    resolving_keeps(pending, w.placed, pending.len());
    let b1 = obj_set(body_start(model, limit, system), "messages"@, JsonV::Array(w.wire));
    let s1 = SinkV { warnings: w.sink.warnings + found, log: w.sink.log };
    settings_are_reported(req, streaming, b1, s1);
    let ws = chat_body(req, model, opts, conv, streaming)->Ok_0.warnings;
    assert(ws == request_fields(req, streaming, b1, s1).1.warnings);
    assert(kept(w.sink.warnings, s1.warnings) && kept(found, s1.warnings));
    assert(kept(w.sink.warnings, ws) && kept(s.warnings, ws) && kept(found, ws));
    assert forall|i: int| 0 <= i < msgs.len() implies message_losses(#[trigger] msgs[i], as_text, ws) by {
        assert(in_a_plan(l.plans, i as usize) || is_hoisted(l.hoisted, i as usize));
        if is_hoisted(hoisted, i as usize) {
            let j = choose|j: int| 0 <= j < hoisted.len() && #[trigger] hoisted[j] == i as usize;
            assert(message_losses(msgs[hoisted[j] as int], as_text, s.warnings));
            message_losses_stay(msgs[i], as_text, s.warnings, ws);
        } else {
            assert(in_a_plan(plans, i as usize));
            let k = choose|k: int| 0 <= k < plans.len() && #[trigger] in_plan(plans[k], i as usize);
            let j = choose|j: int| 0 <= j < plans[k].parts.len() && #[trigger] plans[k].parts[j] == i as usize;
            assert(parts_reported(msgs, plans[k].parts, as_text, w.sink.warnings, plans[k].parts.len()));
            assert(message_losses(msgs[plans[k].parts[j] as int], as_text, w.sink.warnings));
            message_losses_stay(msgs[i], as_text, w.sink.warnings, ws);
        }
    }
    let code = WarningCode::RoleDowngraded;
    if noted_code(l.pending, code) {
        assert(noted_code(pending, code));
        let k = choose|k: int| 0 <= k < pending.len() && (#[trigger] pending[k]).code == code;
        assert(found[k].code == code);
        code_is_among(found, code);
        assert(has_code(found, code));
    }
    assert forall|i: int|
        0 <= i < msgs.len() && (#[trigger] msgs[i]).role == Role::Developer && verbatim_value(msgs[i]) is None implies has_code(
        ws,
        code,
    ) by {
        assert(downgrades(msgs, i, mid));
    }
    assert forall|i: int, j: int|
        0 <= j < i < msgs.len() && (#[trigger] msgs[i]).role == Role::System && (#[trigger] msgs[j]).role
            != Role::System && opts.downgrade_mid_system implies has_code(ws, code) by {
        assert(downgrades(msgs, i, mid));
    }
}

proof fn layout_keeps_notes(msgs: Seq<MessageV>, pending: Seq<PendingV>, downgrade_mid: bool, n: nat)
    requires
        n <= msgs.len(),
    ensures
        forall|code: WarningCode| #[trigger]
            noted_code(pending, code) ==> noted_code(layout(msgs, pending, downgrade_mid, n).pending, code),
    decreases n,
{
    if n > 0 {
        let q = (n - 1) as nat;
        layout_keeps_notes(msgs, pending, downgrade_mid, q);
        let a = layout(msgs, pending, downgrade_mid, q).pending;
        let b = layout(msgs, pending, downgrade_mid, n).pending;
        assert forall|code: WarningCode| #[trigger] noted_code(pending, code) implies noted_code(b, code) by {
            let k = choose|k: int| 0 <= k < a.len() && (#[trigger] a[k]).code == code;
            assert(b[k] == a[k]);
        }
    }
}

/// Problems of the history are reported with the body: calls that have no
/// result, and calls without thinking where the request asks for it.
pub proof fn history_problems_are_reported(
    req: RequestV,
    model: Seq<char>,
    opts: AnthropicOptionsV,
    conv: ConvertOptionsV,
    streaming: bool,
)
    requires
        chat_body(req, model, opts, conv, streaming) is Ok,
        prepared(req, conv).0.len() <= usize::MAX,
    ensures
        history_losses(
            req.messages,
            conv.orphan_tool_calls,
            asks_to_think(req.reasoning),
            conv.fill_missing_thinking is Some,
            chat_body(req, model, opts, conv, streaming)->Ok_0.warnings,
        ),
{
    let (msgs, notes) = prepared(req, conv);
    let mid = opts.downgrade_mid_system;
    let (hoisted, plans, pending) = planned(msgs, notes, opts);
    let l = layout(msgs, notes, mid, msgs.len());
    layout_covers(msgs, notes, mid, msgs.len());
    layout_keeps_notes(msgs, notes, mid, msgs.len());
    merging_covers(l.plans, l.pending, msgs, l.plans.len());
    let limit = token_limit(req, opts)->0;
    let (system, s) = system_value(req.system, msgs, hoisted, empty_sink())->Ok_0;
    let w = wire_messages(wire_start(msgs.len(), s), plans, msgs, conv.thinking_as_text, plans.len())->Ok_0;
    let found = resolved(pending, w.placed, pending.len());
    resolving_keeps(pending, w.placed, pending.len());
    notes_become_warnings(pending, found);
    let b1 = obj_set(body_start(model, limit, system), "messages"@, JsonV::Array(w.wire));
    let s1 = SinkV { warnings: w.sink.warnings + found, log: w.sink.log };
    settings_are_reported(req, streaming, b1, s1);
    let ws = chat_body(req, model, opts, conv, streaming)->Ok_0.warnings;
    assert(ws == request_fields(req, streaming, b1, s1).1.warnings);
    assert(kept(found, s1.warnings));
    assert forall|code: WarningCode| #[trigger] noted_code(notes, code) implies has_code(ws, code) by {
        assert(noted_code(l.pending, code));
        assert(noted_code(pending, code));
        assert(has_code(found, code));
    }
    notes_tell_the_problems(
        req.messages,
        conv.orphan_tool_calls,
        orphan_texts(),
        enables_thinking(req.reasoning),
        conv.fill_missing_thinking,
        "inserted a placeholder thinking block before tool calls"@,
        "assistant message carries tool calls but no thinking block while the request enables thinking"@,
        notes,
        ws,
    );
}

} // verus!
