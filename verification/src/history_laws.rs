//! Laws: what repairs leave alone, and that problems of a history are told.

use vstd::prelude::*;
use crate::convert::{ConversionWarningV, OrphanToolCalls, WarningCode};
use crate::history::{answered, answered_in, answers, calls_in, cancelled_results_index, filled, is_orphan, lacks_thinking, middle_orphan, middle_warnings, orphan_count, orphans_among, repaired, thinking_warnings, trailing_calls, trailing_rest, trailing_warnings, without_calls, OrphanTextsV, PendingV};
use crate::ir::{ContentBlockV, EffortV, MessageV, ReasoningV, Role};
use crate::loss::{code_is_among, has_code};

verus! {

/// The blocks at these positions, which are all but the calls.
pub open spec fn all_but_calls(rest: Seq<ContentBlockV>, content: Seq<ContentBlockV>, at: Seq<int>, n: nat) -> bool {
    &&& at.len() == rest.len()
    &&& forall|k: int| 0 <= k < at.len() ==> 0 <= (#[trigger] at[k]) < n && rest[k] == content[at[k]]
    &&& forall|k: int, l: int| 0 <= k < l < at.len() ==> (#[trigger] at[k]) < (#[trigger] at[l])
    &&& forall|i: int| 0 <= i < n ==> (at.contains(i) <==> !((#[trigger] content[i]) is ToolCall))
}

proof fn rest_stands(content: Seq<ContentBlockV>, n: nat) -> (at: Seq<int>)
    requires
        n <= content.len(),
    ensures
        all_but_calls(without_calls(content, n), content, at, n),
    decreases n,
{
    if n == 0 {
        Seq::empty()
    } else {
        let q = (n - 1) as nat;
        let at = rest_stands(content, q);
        if content[q as int] is ToolCall {
            assert forall|i: int| 0 <= i < n implies (at.contains(i) <==> !((#[trigger] content[i]) is ToolCall)) by {
                if i == q && at.contains(i) {
                    let k = choose|k: int| 0 <= k < at.len() && at[k] == i;
                    assert(at[k] < q);
                }
            }
            at
        } else {
            let next = at.push(q as int);
            assert forall|i: int| 0 <= i < n implies (next.contains(i) <==> !((#[trigger] content[i]) is ToolCall)) by {
                if i == q {
                    assert(next[at.len() as int] == i);
                } else {
                    if at.contains(i) {
                        let k = choose|k: int| 0 <= k < at.len() && at[k] == i;
                        assert(next[k] == i);
                    }
                    if next.contains(i) {
                        let k = choose|k: int| 0 <= k < next.len() && next[k] == i;
                        assert(at[k] == i);
                    }
                }
            }
            next
        }
    }
}

/// Dropping trailing calls drops the calls of the last message and nothing
/// else: its other blocks stay in their order, and so does everything that the
/// message is. A message of calls alone goes as a whole.
pub proof fn dropping_calls_keeps_the_rest(msgs: Seq<MessageV>, i: int)
    requires
        msgs.len() > 0,
        msgs.last().role == Role::Assistant,
        0 <= i < msgs.last().content.len(),
        msgs.last().content[i] is ToolCall,
    ensures
        ({
            let after = repaired(msgs, OrphanToolCalls::DropTrailing);
            let last = msgs.last();
            let only_calls = forall|k: int| 0 <= k < last.content.len() ==> (#[trigger] last.content[k]) is ToolCall;
            &&& only_calls ==> after == msgs.drop_last()
            &&& !only_calls ==> {
                &&& after.len() == msgs.len()
                &&& after.drop_last() == msgs.drop_last()
                &&& after.last() == (MessageV { content: after.last().content, ..last })
                &&& exists|at: Seq<int>| #[trigger]
                    all_but_calls(after.last().content, last.content, at, last.content.len())
            }
        }),
{
    let content = msgs.last().content;
    calls_are_found(content, content.len(), i);
    let at = rest_stands(content, content.len());
    let rest = trailing_rest(msgs);
    let after = repaired(msgs, OrphanToolCalls::DropTrailing);
    let only_calls = forall|k: int| 0 <= k < content.len() ==> (#[trigger] content[k]) is ToolCall;
    if only_calls {
        if rest.len() > 0 {
            assert(at.contains(at[0]));
            assert(content[at[0]] is ToolCall);
        }
    } else {
        let k = choose|k: int| 0 <= k < content.len() && !((#[trigger] content[k]) is ToolCall);
        assert(at.contains(k));
        assert(rest.len() > 0);
        assert(after.drop_last() =~= msgs.drop_last());
        assert(all_but_calls(after.last().content, content, at, content.len()));
    }
}

proof fn calls_are_found(content: Seq<ContentBlockV>, n: nat, i: int)
    requires
        0 <= i < n <= content.len(),
        content[i] is ToolCall,
    ensures
        calls_in(content, n).len() > 0,
    decreases n,
{
    if i < n - 1 {
        calls_are_found(content, (n - 1) as nat, i);
    }
}

/// A placeholder goes in front of the message that lacks thinking, and leaves
/// all of it behind: every block, in its order. Other messages stay as they
/// are.
pub proof fn filling_adds_one_block_in_front(msgs: Seq<MessageV>, text: Seq<char>, i: int)
    requires
        0 <= i < msgs.len(),
    ensures
        ({
            let m = msgs[i];
            let after = filled(msgs, Some(text))[i];
            let calls = exists|k: int| 0 <= k < m.content.len() && (#[trigger] m.content[k]) is ToolCall;
            let thinks = exists|k: int| 0 <= k < m.content.len() && (#[trigger] m.content[k]) is Thinking;
            if m.role == Role::Assistant && calls && !thinks {
                &&& after == (MessageV { content: after.content, ..m })
                &&& after.content.len() == m.content.len() + 1
                &&& after.content[0] is Thinking && after.content[0]->Thinking_text == Some(text)
                &&& after.content.subrange(1, after.content.len() as int) == m.content
            } else {
                after == m
            }
        }),
        filled(msgs, None) == msgs,
{
    let m = msgs[i];
    let after = filled(msgs, Some(text))[i];
    if lacks_thinking(m) {
        assert(after.content.subrange(1, after.content.len() as int) =~= m.content);
    }
}

/// The call at `k` of message `i` has no result in any later message: none with
/// its id, or none with its name where it has no id.
pub open spec fn is_unanswered(msgs: Seq<MessageV>, i: int, k: int) -> bool {
    match msgs[i].content[k] {
        ContentBlockV::ToolCall { id, name, .. } => forall|j: int, r: int|
            i < j < msgs.len() && 0 <= r < msgs[j].content.len() && (#[trigger] msgs[j].content[r]) is ToolResult
                ==> match id {
                Some(id) => msgs[j].content[r]->ToolResult_tool_call_id != Some(id),
                None => msgs[j].content[r]->ToolResult_name != Some(name),
            },
        _ => false,
    }
}

proof fn orphans_are_unanswered(msgs: Seq<MessageV>, i: int, k: int)
    requires
        0 <= i < msgs.len(),
        0 <= k < msgs[i].content.len(),
    ensures
        is_orphan(msgs, i, msgs[i].content[k]) <==> is_unanswered(msgs, i, k),
{
    if let ContentBlockV::ToolCall { id, name, .. } = msgs[i].content[k] {
        if is_unanswered(msgs, i, k) && answered(msgs, i, id, name) {
            let j = choose|j: int| i < j < msgs.len() && #[trigger] answered_in(msgs[j], id, name);
            let r = choose|r: int| 0 <= r < msgs[j].content.len() && #[trigger] answers(msgs[j].content[r], id, name);
            assert(msgs[j].content[r] is ToolResult);
        }
        if !answered(msgs, i, id, name) {
            assert forall|j: int, r: int|
                i < j < msgs.len() && 0 <= r < msgs[j].content.len() && (#[trigger] msgs[j].content[r]) is ToolResult implies match id {
                Some(id) => msgs[j].content[r]->ToolResult_tool_call_id != Some(id),
                None => msgs[j].content[r]->ToolResult_name != Some(name),
            } by {
                assert(!answered_in(msgs[j], id, name));
                assert(!answers(msgs[j].content[r], id, name));
            }
        }
    }
}

proof fn orphans_are_counted(msgs: Seq<MessageV>, i: int, n: nat)
    requires
        0 <= i < msgs.len(),
        n <= msgs[i].content.len(),
    ensures
        orphans_among(msgs, i, n) > 0 <==> exists|k: int| 0 <= k < n && #[trigger] is_unanswered(msgs, i, k),
    decreases n,
{
    if n > 0 {
        let q = (n - 1) as nat;
        orphans_are_counted(msgs, i, q);
        orphans_are_unanswered(msgs, i, q as int);
        if is_orphan(msgs, i, msgs[i].content[q as int]) {
            assert(is_unanswered(msgs, i, q as int));
        }
    }
}

/// A message before the last one counts as orphaned exactly when it is an
/// assistant's and one of its calls has no result behind it.
pub proof fn middle_orphans_are_the_unanswered(msgs: Seq<MessageV>, i: int)
    requires
        0 <= i < msgs.len(),
    ensures
        middle_orphan(msgs, i) <==> i < msgs.len() - 1 && msgs[i].role == Role::Assistant && exists|k: int|
            0 <= k < msgs[i].content.len() && #[trigger] is_unanswered(msgs, i, k),
{
    orphans_are_counted(msgs, i, msgs[i].content.len());
    assert(orphan_count(msgs, i) == orphans_among(msgs, i, msgs[i].content.len()));
}

/// A message before the last one has a call that no later message answers.
pub open spec fn has_middle_orphan(msgs: Seq<MessageV>) -> bool {
    exists|i: int, k: int|
        0 <= i < msgs.len() - 1 && 0 <= k < msgs[i].content.len() && msgs[i].role == Role::Assistant
            && #[trigger] is_unanswered(msgs, i, k)
}

/// The history ends in a call.
pub open spec fn ends_in_a_call(msgs: Seq<MessageV>) -> bool {
    msgs.len() > 0 && msgs.last().role == Role::Assistant && exists|k: int|
        0 <= k < msgs.last().content.len() && (#[trigger] msgs.last().content[k]) is ToolCall
}

/// A history that ends in a call has trailing calls.
pub proof fn trailing_calls_are_found(msgs: Seq<MessageV>)
    requires
        ends_in_a_call(msgs),
    ensures
        trailing_calls(msgs).len() > 0,
{
    let k = choose|k: int| 0 <= k < msgs.last().content.len() && (#[trigger] msgs.last().content[k]) is ToolCall;
    calls_are_found(msgs.last().content, msgs.last().content.len(), k);
}

/// An assistant message with a call and no thinking.
pub open spec fn calls_unthinking(m: MessageV) -> bool {
    &&& m.role == Role::Assistant
    &&& exists|k: int| 0 <= k < m.content.len() && (#[trigger] m.content[k]) is ToolCall
    &&& forall|k: int| 0 <= k < m.content.len() ==> !((#[trigger] m.content[k]) is Thinking)
}

/// Some message is one.
pub open spec fn calls_without_thinking(msgs: Seq<MessageV>) -> bool {
    exists|i: int| 0 <= i < msgs.len() && calls_unthinking(#[trigger] msgs[i])
}

/// Thinking is on, or it is left open with an effort to think.
pub open spec fn asks_to_think(r: Option<ReasoningV>) -> bool {
    match r {
        Some(r) => match r.enabled {
            Some(on) => on,
            None => r.effort is Some && r.effort != Some(EffortV::Disabled),
        },
        None => false,
    }
}

/// Such a message lacks thinking.
pub proof fn unthinking_is_lacking(msgs: Seq<MessageV>)
    ensures
        calls_without_thinking(msgs) ==> exists|i: int| 0 <= i < msgs.len() && #[trigger] lacks_thinking(msgs[i]),
{
    if calls_without_thinking(msgs) {
        let i = choose|i: int| 0 <= i < msgs.len() && calls_unthinking(#[trigger] msgs[i]);
        assert(lacks_thinking(msgs[i]));
    }
}

/// The warnings that a history has to raise.
pub open spec fn history_losses(
    msgs: Seq<MessageV>,
    policy: OrphanToolCalls,
    thinking: bool,
    fill: bool,
    ws: Seq<ConversionWarningV>,
) -> bool {
    &&& has_middle_orphan(msgs) ==> has_code(ws, WarningCode::OrphanToolCalls)
    &&& ends_in_a_call(msgs) && policy == OrphanToolCalls::DropTrailing ==> has_code(
        ws,
        WarningCode::OrphanToolCallsDropped,
    )
    &&& ends_in_a_call(msgs) && policy == OrphanToolCalls::SynthesizeError ==> has_code(
        ws,
        WarningCode::OrphanToolCallsSynthesized,
    )
    &&& thinking && calls_without_thinking(repaired(msgs, policy)) ==> has_code(
        ws,
        if fill { WarningCode::MissingThinkingFilled } else { WarningCode::MissingThinkingWithToolCalls },
    )
}

/// Some note has this code.
pub open spec fn noted_code(pending: Seq<PendingV>, code: WarningCode) -> bool {
    exists|k: int| 0 <= k < pending.len() && (#[trigger] pending[k]).code == code
}

/// Notes that became warnings under their codes have become all of them.
pub proof fn notes_become_warnings(pending: Seq<PendingV>, ws: Seq<ConversionWarningV>)
    requires
        ws.len() == pending.len(),
        forall|k: int| 0 <= k < ws.len() ==> (#[trigger] ws[k]).code == pending[k].code,
    ensures
        forall|code: WarningCode| #[trigger] noted_code(pending, code) ==> has_code(ws, code),
{
    assert forall|code: WarningCode| #[trigger] noted_code(pending, code) implies has_code(ws, code) by {
        let k = choose|k: int| 0 <= k < pending.len() && (#[trigger] pending[k]).code == code;
        assert(ws[k].code == code);
        code_is_among(ws, code);
    }
}

proof fn middle_is_noted(msgs: Seq<MessageV>, text: Seq<char>, n: nat, i: int)
    requires
        0 <= i < n <= msgs.len(),
        middle_orphan(msgs, i),
    ensures
        noted_code(middle_warnings(msgs, text, n), WarningCode::OrphanToolCalls),
    decreases n,
{
    let all = middle_warnings(msgs, text, n);
    if i < n - 1 {
        middle_is_noted(msgs, text, (n - 1) as nat, i);
        let prev = middle_warnings(msgs, text, (n - 1) as nat);
        let k = choose|k: int| 0 <= k < prev.len() && (#[trigger] prev[k]).code == WarningCode::OrphanToolCalls;
        assert(all[k] == prev[k]);
    } else {
        assert(all[all.len() - 1].code == WarningCode::OrphanToolCalls);
    }
}

proof fn thinking_is_noted(
    msgs: Seq<MessageV>,
    fill: Option<Seq<char>>,
    filled_text: Seq<char>,
    missing_text: Seq<char>,
    n: nat,
    i: int,
)
    requires
        0 <= i < n <= msgs.len(),
        lacks_thinking(msgs[i]),
    ensures
        noted_code(
            thinking_warnings(msgs, fill, filled_text, missing_text, n),
            if fill is Some { WarningCode::MissingThinkingFilled } else { WarningCode::MissingThinkingWithToolCalls },
        ),
    decreases n,
{
    let code = if fill is Some {
        WarningCode::MissingThinkingFilled
    } else {
        WarningCode::MissingThinkingWithToolCalls
    };
    let all = thinking_warnings(msgs, fill, filled_text, missing_text, n);
    if i < n - 1 {
        thinking_is_noted(msgs, fill, filled_text, missing_text, (n - 1) as nat, i);
        let prev = thinking_warnings(msgs, fill, filled_text, missing_text, (n - 1) as nat);
        let k = choose|k: int| 0 <= k < prev.len() && (#[trigger] prev[k]).code == code;
        assert(all[k] == prev[k]);
    } else {
        assert(all[all.len() - 1].code == code);
    }
}

proof fn notes_stay(a: Seq<PendingV>, b: Seq<PendingV>, code: WarningCode)
    ensures
        noted_code(a, code) || noted_code(b, code) ==> noted_code(a + b, code),
{
    let t = a + b;
    if noted_code(a, code) {
        let k = choose|k: int| 0 <= k < a.len() && (#[trigger] a[k]).code == code;
        assert(t[k] == a[k]);
    } else if noted_code(b, code) {
        let k = choose|k: int| 0 <= k < b.len() && (#[trigger] b[k]).code == code;
        assert(t[a.len() + k] == b[k]);
    }
}

/// The notes of a history tell its problems: calls without results in the
/// middle, calls at the end that were dropped or answered, and calls without
/// thinking where the request asks for it.
pub proof fn notes_tell_the_problems(
    msgs: Seq<MessageV>,
    policy: OrphanToolCalls,
    texts: OrphanTextsV,
    thinking: bool,
    fill: Option<Seq<char>>,
    filled_text: Seq<char>,
    missing_text: Seq<char>,
    notes: Seq<PendingV>,
    ws: Seq<ConversionWarningV>,
)
    requires
        ({
            let m1 = repaired(msgs, policy);
            let p1 = Seq::<PendingV>::empty() + middle_warnings(msgs, texts.middle, msgs.len()) + trailing_warnings(
                msgs,
                policy,
                texts,
            );
            notes == if thinking {
                p1 + thinking_warnings(m1, fill, filled_text, missing_text, m1.len())
            } else {
                p1
            }
        }),
        forall|code: WarningCode| #[trigger] noted_code(notes, code) ==> has_code(ws, code),
    ensures
        history_losses(msgs, policy, thinking, fill is Some, ws),
{
    let m1 = repaired(msgs, policy);
    let mid = middle_warnings(msgs, texts.middle, msgs.len());
    let end = trailing_warnings(msgs, policy, texts);
    let p0 = Seq::<PendingV>::empty() + mid;
    let p1 = p0 + end;
    let more = thinking_warnings(m1, fill, filled_text, missing_text, m1.len());
    assert forall|code: WarningCode|
        noted_code(mid, code) || noted_code(end, code) || (thinking && noted_code(more, code)) implies #[trigger] has_code(
        ws,
        code,
    ) by {
        notes_stay(Seq::empty(), mid, code);
        notes_stay(p0, end, code);
        notes_stay(p1, more, code);
        if thinking {
            assert(notes == p1 + more);
        } else {
            assert(notes == p1);
        }
        assert(noted_code(notes, code));
    }
    if has_middle_orphan(msgs) {
        let (i, k) = choose|i: int, k: int|
            0 <= i < msgs.len() - 1 && 0 <= k < msgs[i].content.len() && msgs[i].role == Role::Assistant
                && #[trigger] is_unanswered(msgs, i, k);
        middle_orphans_are_the_unanswered(msgs, i);
        middle_is_noted(msgs, texts.middle, msgs.len(), i);
        assert(has_code(ws, WarningCode::OrphanToolCalls));
    }
    if ends_in_a_call(msgs) {
        trailing_calls_are_found(msgs);
        if policy == OrphanToolCalls::DropTrailing {
            assert(end[0].code == WarningCode::OrphanToolCallsDropped);
            assert(has_code(ws, WarningCode::OrphanToolCallsDropped));
        } else if policy == OrphanToolCalls::SynthesizeError {
            assert(end[0].code == WarningCode::OrphanToolCallsSynthesized);
            assert(has_code(ws, WarningCode::OrphanToolCallsSynthesized));
        }
    }
    if thinking && calls_without_thinking(m1) {
        unthinking_is_lacking(m1);
        let i = choose|i: int| 0 <= i < m1.len() && #[trigger] lacks_thinking(m1[i]);
        thinking_is_noted(m1, fill, filled_text, missing_text, m1.len(), i);
        let code = if fill is Some {
            WarningCode::MissingThinkingFilled
        } else {
            WarningCode::MissingThinkingWithToolCalls
        };
        assert(has_code(ws, code));
    }
}

/// Position `at[k]` is that of the `k`-th call.
pub open spec fn are_the_calls(content: Seq<ContentBlockV>, at: Seq<int>, n: nat) -> bool {
    &&& forall|k: int| 0 <= k < at.len() ==> 0 <= (#[trigger] at[k]) < n && content[at[k]] is ToolCall
    &&& forall|k: int, l: int| 0 <= k < l < at.len() ==> (#[trigger] at[k]) < (#[trigger] at[l])
    &&& forall|i: int| 0 <= i < n && (#[trigger] content[i]) is ToolCall ==> at.contains(i)
}

proof fn calls_stand(content: Seq<ContentBlockV>, n: nat) -> (at: Seq<int>)
    requires
        n <= content.len(),
    ensures
        are_the_calls(content, at, n),
        at.len() == calls_in(content, n).len(),
        forall|k: int| 0 <= k < at.len() ==> #[trigger] calls_in(content, n)[k] == (
            content[at[k]]->ToolCall_id,
            content[at[k]]->ToolCall_name,
        ),
    decreases n,
{
    if n == 0 {
        Seq::empty()
    } else {
        let q = (n - 1) as nat;
        let at = calls_stand(content, q);
        let prev = calls_in(content, q);
        let all = calls_in(content, n);
        if content[q as int] is ToolCall {
            let next = at.push(q as int);
            assert forall|i: int| 0 <= i < n && (#[trigger] content[i]) is ToolCall implies next.contains(i) by {
                if i == q {
                    assert(next[at.len() as int] == i);
                } else {
                    assert(at.contains(i));
                    let k = choose|k: int| 0 <= k < at.len() && at[k] == i;
                    assert(next[k] == i);
                }
            }
            assert forall|k: int| 0 <= k < next.len() implies #[trigger] all[k] == (
                content[next[k]]->ToolCall_id,
                content[next[k]]->ToolCall_name,
            ) by {
                if k < at.len() {
                    assert(all[k] == prev[k]);
                }
            }
            next
        } else {
            at
        }
    }
}

/// Answering trailing calls adds one message of failed results: one for each
/// call, in order, with the call's id and name. Everything before it stays.
pub proof fn every_call_gets_a_failed_result(msgs: Seq<MessageV>)
    requires
        ends_in_a_call(msgs),
    ensures
        ({
            let after = repaired(msgs, OrphanToolCalls::SynthesizeError);
            let content = msgs.last().content;
            let results = after.last().content;
            &&& after.len() == msgs.len() + 1
            &&& after.drop_last() == msgs
            &&& after.last().role == Role::Tool
            &&& exists|at: Seq<int>|
                at.len() == results.len() && #[trigger] are_the_calls(content, at, content.len()) && forall|k: int|
                    0 <= k < results.len() ==> {
                        let r = #[trigger] results[k];
                        &&& r is ToolResult
                        &&& r->ToolResult_tool_call_id == content[at[k]]->ToolCall_id
                        &&& r->ToolResult_name == Some(content[at[k]]->ToolCall_name)
                        &&& r->ToolResult_is_error == Some(true)
                    }
        }),
{
    trailing_calls_are_found(msgs);
    let content = msgs.last().content;
    let calls = trailing_calls(msgs);
    let at = calls_stand(content, content.len());
    let after = repaired(msgs, OrphanToolCalls::SynthesizeError);
    assert(after.drop_last() =~= msgs);
    let results = after.last().content;
    cancelled_results_index(calls, calls.len(), 0);
    assert forall|k: int| 0 <= k < results.len() implies {
        let r = #[trigger] results[k];
        &&& r is ToolResult
        &&& r->ToolResult_tool_call_id == content[at[k]]->ToolCall_id
        &&& r->ToolResult_name == Some(content[at[k]]->ToolCall_name)
        &&& r->ToolResult_is_error == Some(true)
    } by {
        cancelled_results_index(calls, calls.len(), k);
        assert(calls[k] == (content[at[k]]->ToolCall_id, content[at[k]]->ToolCall_name));
    }
}

} // verus!
