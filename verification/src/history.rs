//! Repairs on the message history that every format applies before it builds
//! a request: tool calls without results, and tool calls without thinking.

use vstd::prelude::*;
use crate::convert::{OrphanToolCalls, WarningCode};
use crate::ir::{any_thinking, any_tool_call, cancelled_result, has_thinking, has_tool_call, plain_message, thinking_block, ContentBlock, ContentBlockV, Message, MessageV, Role};
use crate::model::{dup_opt, dup_vec, group_views, opt_view, views, Dup};
use crate::text::{cat3, dec_usize, decimal, str_eq};

verus! {

broadcast use group_views;

/// A warning whose location is known only once wire positions are: it points
/// at an IR message by index.
#[derive(Debug, PartialEq, Eq)]
pub struct Pending {
    pub code: WarningCode,
    /// Index into the repaired messages.
    pub message: Option<usize>,
    /// Points at the first content block of the message.
    pub at_first_block: bool,
    pub text: String,
}

/// The mathematical value of a [`Pending`].
pub struct PendingV {
    pub code: WarningCode,
    pub message: Option<usize>,
    pub at_first_block: bool,
    pub text: Seq<char>,
}

impl View for Pending {
    type V = PendingV;

    open spec fn view(&self) -> PendingV {
        PendingV {
            code: self.code,
            message: self.message,
            at_first_block: self.at_first_block,
            text: self.text@,
        }
    }
}

impl Dup for Pending {
    fn dup(&self) -> (r: Self) {
        Pending {
            code: self.code,
            message: self.message,
            at_first_block: self.at_first_block,
            text: self.text.clone(),
        }
    }
}

/// The wording of the repairs.
#[derive(Debug, PartialEq, Eq)]
pub struct OrphanTexts {
    /// For unanswered calls before the last message.
    pub middle: String,
    pub dropped_before: String,
    pub dropped_after: String,
    pub thinking: String,
    pub appended_before: String,
    pub appended_after: String,
}

/// The mathematical value of a [`OrphanTexts`].
pub struct OrphanTextsV {
    pub middle: Seq<char>,
    pub dropped_before: Seq<char>,
    pub dropped_after: Seq<char>,
    pub thinking: Seq<char>,
    pub appended_before: Seq<char>,
    pub appended_after: Seq<char>,
}

impl View for OrphanTexts {
    type V = OrphanTextsV;

    open spec fn view(&self) -> OrphanTextsV {
        OrphanTextsV {
            middle: self.middle@,
            dropped_before: self.dropped_before@,
            dropped_after: self.dropped_after@,
            thinking: self.thinking@,
            appended_before: self.appended_before@,
            appended_after: self.appended_after@,
        }
    }
}

impl Dup for OrphanTexts {
    fn dup(&self) -> (r: Self) {
        OrphanTexts {
            middle: self.middle.clone(),
            dropped_before: self.dropped_before.clone(),
            dropped_after: self.dropped_after.clone(),
            thinking: self.thinking.clone(),
            appended_before: self.appended_before.clone(),
            appended_after: self.appended_after.clone(),
        }
    }
}

/// `b` is the result of the call with this id, or of this name when the call
/// has no id.
pub open spec fn answers(b: ContentBlockV, id: Option<Seq<char>>, name: Seq<char>) -> bool {
    match b {
        ContentBlockV::ToolResult { tool_call_id, name: rname, .. } => match id {
            Some(id) => tool_call_id == Some(id),
            None => rname == Some(name),
        },
        _ => false,
    }
}

/// Some block of `m` is the result of the call.
pub open spec fn answered_in(m: MessageV, id: Option<Seq<char>>, name: Seq<char>) -> bool {
    exists|k: int| 0 <= k < m.content.len() && #[trigger] answers(m.content[k], id, name)
}

/// Some message after message `i` holds the result of the call.
pub open spec fn answered(msgs: Seq<MessageV>, i: int, id: Option<Seq<char>>, name: Seq<char>) -> bool {
    exists|j: int| i < j < msgs.len() && #[trigger] answered_in(msgs[j], id, name)
}

/// `b`, a block of message `i`, is a tool call that no later message answers.
pub open spec fn is_orphan(msgs: Seq<MessageV>, i: int, b: ContentBlockV) -> bool {
    match b {
        ContentBlockV::ToolCall { id, name, .. } => !answered(msgs, i, id, name),
        _ => false,
    }
}

/// Number of unanswered calls among the first `n` blocks of message `i`.
pub open spec fn orphans_among(msgs: Seq<MessageV>, i: int, n: nat) -> nat
    decreases n,
{
    if n == 0 {
        0
    } else {
        orphans_among(msgs, i, (n - 1) as nat) + if is_orphan(msgs, i, msgs[i].content[n - 1]) {
            1nat
        } else {
            0nat
        }
    }
}

/// Number of unanswered calls in message `i`.
pub open spec fn orphan_count(msgs: Seq<MessageV>, i: int) -> nat {
    orphans_among(msgs, i, msgs[i].content.len())
}

/// The calls among the first `n` blocks, each by id and name.
pub open spec fn calls_in(content: Seq<ContentBlockV>, n: nat) -> Seq<(Option<Seq<char>>, Seq<char>)>
    decreases n,
{
    if n == 0 || n > content.len() {
        Seq::empty()
    } else {
        let prev = calls_in(content, (n - 1) as nat);
        match content[n - 1] {
            ContentBlockV::ToolCall { id, name, .. } => prev.push((id, name)),
            _ => prev,
        }
    }
}

/// The blocks among the first `n` that are no calls.
pub open spec fn without_calls(content: Seq<ContentBlockV>, n: nat) -> Seq<ContentBlockV>
    decreases n,
{
    if n == 0 || n > content.len() {
        Seq::empty()
    } else if content[n - 1] is ToolCall {
        without_calls(content, (n - 1) as nat)
    } else {
        without_calls(content, (n - 1) as nat).push(content[n - 1])
    }
}

/// The first `n` of the error results that stand in for `calls`.
pub open spec fn cancelled_results(calls: Seq<(Option<Seq<char>>, Seq<char>)>, n: nat) -> Seq<ContentBlockV>
    decreases n,
{
    if n == 0 || n > calls.len() {
        Seq::empty()
    } else {
        cancelled_results(calls, (n - 1) as nat).push(cancelled_result(calls[n - 1].0, calls[n - 1].1))
    }
}

/// The calls of a last assistant message, which nothing can answer.
pub open spec fn trailing_calls(msgs: Seq<MessageV>) -> Seq<(Option<Seq<char>>, Seq<char>)> {
    if msgs.len() > 0 && msgs.last().role == Role::Assistant {
        calls_in(msgs.last().content, msgs.last().content.len())
    } else {
        Seq::empty()
    }
}

/// What is left of the last message without its calls.
pub open spec fn trailing_rest(msgs: Seq<MessageV>) -> Seq<ContentBlockV> {
    without_calls(msgs.last().content, msgs.last().content.len())
}

/// The history after the policy for trailing calls was applied.
pub open spec fn repaired(msgs: Seq<MessageV>, policy: OrphanToolCalls) -> Seq<MessageV> {
    let calls = trailing_calls(msgs);
    if calls.len() == 0 {
        msgs
    } else {
        match policy {
            OrphanToolCalls::Passthrough => msgs,
            OrphanToolCalls::DropTrailing => if trailing_rest(msgs).len() == 0 {
                msgs.drop_last()
            } else {
                msgs.update(msgs.len() - 1, MessageV { content: trailing_rest(msgs), ..msgs.last() })
            },
            OrphanToolCalls::SynthesizeError => msgs.push(
                plain_message(Role::Tool, cancelled_results(calls, calls.len())),
            ),
        }
    }
}

/// Message `i` has unanswered calls although it is not the last one.
pub open spec fn middle_orphan(msgs: Seq<MessageV>, i: int) -> bool {
    i != msgs.len() - 1 && msgs[i].role == Role::Assistant && orphan_count(msgs, i) > 0
}

/// The warnings about unanswered calls in the middle, for the first `n`
/// messages.
pub open spec fn middle_warnings(msgs: Seq<MessageV>, text: Seq<char>, n: nat) -> Seq<PendingV>
    decreases n,
{
    if n == 0 || n > msgs.len() {
        Seq::empty()
    } else {
        let prev = middle_warnings(msgs, text, (n - 1) as nat);
        if middle_orphan(msgs, n - 1) {
            prev.push(PendingV {
                code: WarningCode::OrphanToolCalls,
                message: Some((n - 1) as usize),
                at_first_block: false,
                text,
            })
        } else {
            prev
        }
    }
}

/// The warnings that the policy for trailing calls raises.
pub open spec fn trailing_warnings(
    msgs: Seq<MessageV>,
    policy: OrphanToolCalls,
    texts: OrphanTextsV,
) -> Seq<PendingV> {
    let calls = trailing_calls(msgs);
    let rest = trailing_rest(msgs);
    if calls.len() == 0 {
        Seq::empty()
    } else {
        match policy {
            OrphanToolCalls::Passthrough => Seq::empty(),
            OrphanToolCalls::DropTrailing => {
                let dropped = PendingV {
                    code: WarningCode::OrphanToolCallsDropped,
                    message: if rest.len() == 0 { None } else { Some((msgs.len() - 1) as usize) },
                    at_first_block: false,
                    text: texts.dropped_before + decimal(calls.len()) + texts.dropped_after,
                };
                if has_thinking(rest) {
                    seq![
                        dropped,
                        PendingV {
                            code: WarningCode::ThinkingOrphaned,
                            message: Some((msgs.len() - 1) as usize),
                            at_first_block: false,
                            text: texts.thinking,
                        },
                    ]
                } else {
                    seq![dropped]
                }
            },
            OrphanToolCalls::SynthesizeError => seq![
                PendingV {
                    code: WarningCode::OrphanToolCallsSynthesized,
                    message: Some(msgs.len() as usize),
                    at_first_block: false,
                    text: texts.appended_before + decimal(calls.len()) + texts.appended_after,
                },
            ],
        }
    }
}

/// `m` calls tools without any thinking.
pub open spec fn lacks_thinking(m: MessageV) -> bool {
    m.role == Role::Assistant && has_tool_call(m.content) && !has_thinking(m.content)
}

/// `m` with a thinking block in front of its tool calls, where it lacks one.
pub open spec fn filled_message(m: MessageV, text: Seq<char>) -> MessageV {
    if lacks_thinking(m) {
        MessageV { content: m.content.insert(0, thinking_block(text)), ..m }
    } else {
        m
    }
}

/// The history after missing thinking was filled with `fill`, if there is one.
pub open spec fn filled(msgs: Seq<MessageV>, fill: Option<Seq<char>>) -> Seq<MessageV> {
    match fill {
        Some(text) => msgs.map_values(|m: MessageV| filled_message(m, text)),
        None => msgs,
    }
}

/// The warnings about missing thinking, for the first `n` messages.
pub open spec fn thinking_warnings(
    msgs: Seq<MessageV>,
    fill: Option<Seq<char>>,
    filled_text: Seq<char>,
    missing_text: Seq<char>,
    n: nat,
) -> Seq<PendingV>
    decreases n,
{
    if n == 0 || n > msgs.len() {
        Seq::empty()
    } else {
        let prev = thinking_warnings(msgs, fill, filled_text, missing_text, (n - 1) as nat);
        if lacks_thinking(msgs[n - 1]) {
            prev.push(
                if fill is Some {
                    PendingV {
                        code: WarningCode::MissingThinkingFilled,
                        message: Some((n - 1) as usize),
                        at_first_block: true,
                        text: filled_text,
                    }
                } else {
                    PendingV {
                        code: WarningCode::MissingThinkingWithToolCalls,
                        message: Some((n - 1) as usize),
                        at_first_block: false,
                        text: missing_text,
                    }
                },
            )
        } else {
            prev
        }
    }
}

fn opt_same(a: &Option<String>, b: &String) -> (r: bool)
    ensures
        r == (opt_view(*a) == Some(b@)),
{
    match a {
        Some(a) => str_eq(a.as_str(), b.as_str()),
        None => false,
    }
}

fn block_answers(b: &ContentBlock, id: &Option<String>, name: &String) -> (r: bool)
    ensures
        r == answers(b@, opt_view(*id), name@),
{
    match b {
        ContentBlock::ToolResult { tool_call_id, name: rname, .. } => match id {
            Some(id) => opt_same(tool_call_id, id),
            None => opt_same(rname, name),
        },
        _ => false,
    }
}

fn message_answers(m: &Message, id: &Option<String>, name: &String) -> (r: bool)
    ensures
        r == answered_in(m@, opt_view(*id), name@),
{
    let mut k: usize = 0;
    while k < m.content.len()
        invariant
            k <= m.content@.len(),
            forall|j: int| 0 <= j < k ==> !#[trigger] answers(m@.content[j], opt_view(*id), name@),
        decreases m.content@.len() - k,
    {
        if block_answers(&m.content[k], id, name) {
            proof {
                assert(answers(m@.content[k as int], opt_view(*id), name@));
            }
            return true;
        }
        k += 1;
    }
    false
}

/// `true` when some message after message `i` holds the result of the call.
pub fn is_answered(messages: &Vec<Message>, i: usize, id: &Option<String>, name: &String) -> (r: bool)
    requires
        i < messages@.len(),
    ensures
        r == answered(views(messages@), i as int, opt_view(*id), name@),
{
    let n = messages.len();
    let mut j: usize = i + 1;
    while j < messages.len()
        invariant
            i < j <= messages@.len(),
            forall|k: int| i < k < j ==> !#[trigger] answered_in(views(messages@)[k], opt_view(*id), name@),
        decreases messages@.len() - j,
    {
        if message_answers(&messages[j], id, name) {
            proof {
                assert(answered_in(views(messages@)[j as int], opt_view(*id), name@));
            }
            return true;
        }
        j += 1;
    }
    false
}

/// Counts the unanswered calls in message `i`.
pub fn count_orphans(messages: &Vec<Message>, i: usize) -> (r: usize)
    requires
        i < messages@.len(),
    ensures
        r == orphan_count(views(messages@), i as int),
{
    let content = &messages[i].content;
    let mut n: usize = 0;
    let mut k: usize = 0;
    while k < content.len()
        invariant
            i < messages@.len(),
            *content == messages@[i as int].content,
            k <= content@.len(),
            n <= k,
            n == orphans_among(views(messages@), i as int, k as nat),
        decreases content@.len() - k,
    {
        proof {
            assert(views(messages@)[i as int].content[k as int] == content@[k as int]@);
        }
        if let ContentBlock::ToolCall { id, name, .. } = &content[k] {
            if !is_answered(messages, i, id, name) {
                n += 1;
            }
        }
        k += 1;
    }
    n
}

/// The error results that stand in for the calls of a message.
pub fn cancel_calls(content: &Vec<ContentBlock>) -> (r: Vec<ContentBlock>)
    ensures
        ({
            let calls = calls_in(views(content@), content@.len());
            views(r@) == cancelled_results(calls, calls.len())
        }),
{
    let mut out: Vec<ContentBlock> = Vec::new();
    let mut k: usize = 0;
    while k < content.len()
        invariant
            k <= content@.len(),
            ({
                let calls = calls_in(views(content@), k as nat);
                views(out@) == cancelled_results(calls, calls.len())
            }),
        decreases content@.len() - k,
    {
        if let ContentBlock::ToolCall { id, name, .. } = &content[k] {
            out.push(ContentBlock::cancelled(id, name));
            proof {
                let calls = calls_in(views(content@), k as nat);
                let more = calls_in(views(content@), k as nat + 1);
                assert(more == calls.push((opt_view(*id), name@)));
                cancelled_results_prefix(calls, more, calls.len());
            }
        }
        k += 1;
    }
    out
}

/// The first results depend on the first calls alone.
proof fn cancelled_results_prefix(
    a: Seq<(Option<Seq<char>>, Seq<char>)>,
    b: Seq<(Option<Seq<char>>, Seq<char>)>,
    n: nat,
)
    requires
        n <= a.len(),
        n <= b.len(),
        forall|i: int| 0 <= i < n ==> a[i] == b[i],
    ensures
        cancelled_results(a, n) == cancelled_results(b, n),
    decreases n,
{
    if n > 0 {
        cancelled_results_prefix(a, b, (n - 1) as nat);
    }
}

/// Counts the calls of a message.
pub fn count_calls(content: &Vec<ContentBlock>) -> (r: usize)
    ensures
        r == calls_in(views(content@), content@.len()).len(),
{
    let mut n: usize = 0;
    let mut k: usize = 0;
    while k < content.len()
        invariant
            k <= content@.len(),
            n <= k,
            n == calls_in(views(content@), k as nat).len(),
        decreases content@.len() - k,
    {
        if let ContentBlock::ToolCall { .. } = &content[k] {
            n += 1;
        }
        k += 1;
    }
    n
}

/// The blocks of a message that are no calls.
pub fn drop_calls(content: &Vec<ContentBlock>) -> (r: Vec<ContentBlock>)
    ensures
        views(r@) == without_calls(views(content@), content@.len()),
{
    let mut out: Vec<ContentBlock> = Vec::new();
    let mut k: usize = 0;
    while k < content.len()
        invariant
            k <= content@.len(),
            views(out@) == without_calls(views(content@), k as nat),
        decreases content@.len() - k,
    {
        match &content[k] {
            ContentBlock::ToolCall { .. } => {},
            b => {
                out.push(b.dup());
            },
        }
        k += 1;
    }
    out
}

/// Applies the policy for trailing calls, in place, and notes what it did.
pub fn apply_orphan_policy(
    messages: &mut Vec<Message>,
    policy: OrphanToolCalls,
    texts: &OrphanTexts,
    pending: &mut Vec<Pending>,
)
    ensures
        views(final(messages)@) == repaired(views(old(messages)@), policy),
        views(final(pending)@) == views(old(pending)@) + middle_warnings(
            views(old(messages)@),
            texts@.middle,
            old(messages)@.len(),
        ) + trailing_warnings(views(old(messages)@), policy, texts@),
{
    let ghost msgs = views(messages@);
    let ghost pend0 = views(pending@);
    let n = messages.len();
    let mut i: usize = 0;
    proof {
        assert(views(pending@) =~= pend0 + middle_warnings(msgs, texts@.middle, 0));
    }
    while i < n
        invariant
            n == messages@.len(),
            i <= n,
            msgs == views(messages@),
            views(pending@) == pend0 + middle_warnings(msgs, texts@.middle, i as nat),
        decreases n - i,
    {
        let ghost before = middle_warnings(msgs, texts@.middle, i as nat);
        if i != n - 1 && messages[i].role == Role::Assistant && count_orphans(messages, i) > 0 {
            pending.push(
                Pending {
                    code: WarningCode::OrphanToolCalls,
                    message: Some(i),
                    at_first_block: false,
                    text: texts.middle.clone(),
                },
            );
            proof {
                let p = middle_warnings(msgs, texts@.middle, i as nat + 1);
                assert(views(pending@) =~= pend0 + p);
            }
        }
        i += 1;
    }
    let ghost pend1 = views(pending@);
    if n == 0 || messages[n - 1].role != Role::Assistant {
        proof {
            assert(views(pending@) =~= pend1 + Seq::<PendingV>::empty());
        }
        return;
    }
    let count = count_calls(&messages[n - 1].content);
    proof {
        assert(msgs.last() == messages@[n - 1]@);
    }
    if count == 0 {
        proof {
            assert(views(pending@) =~= pend1 + Seq::<PendingV>::empty());
        }
        return;
    }
    match policy {
        OrphanToolCalls::Passthrough => {
            proof {
                assert(views(pending@) =~= pend1 + Seq::<PendingV>::empty());
            }
        },
        OrphanToolCalls::DropTrailing => {
            let rest = drop_calls(&messages[n - 1].content);
            let removed = rest.len() == 0;
            let thinking = any_thinking(&rest);
            let ghost restv = views(rest@);
            if removed {
                messages.pop();
                proof {
                    assert(views(messages@) =~= msgs.drop_last());
                }
            } else {
                let m = Message {
                    role: messages[n - 1].role,
                    content: rest,
                    extra: messages[n - 1].extra.dup(),
                    round_trip: dup_opt(&messages[n - 1].round_trip),
                };
                messages[n - 1] = m;
            }
            pending.push(
                Pending {
                    code: WarningCode::OrphanToolCallsDropped,
                    message: if removed { None } else { Some(n - 1) },
                    at_first_block: false,
                    text: cat3(
                        texts.dropped_before.as_str(),
                        dec_usize(count).as_str(),
                        texts.dropped_after.as_str(),
                    ),
                },
            );
            if thinking {
                pending.push(
                    Pending {
                        code: WarningCode::ThinkingOrphaned,
                        message: Some(n - 1),
                        at_first_block: false,
                        text: texts.thinking.clone(),
                    },
                );
            }
            proof {
                assert(views(pending@) =~= pend1 + trailing_warnings(msgs, policy, texts@));
            }
        },
        OrphanToolCalls::SynthesizeError => {
            let results = cancel_calls(&messages[n - 1].content);
            messages.push(Message::tool(results));
            pending.push(
                Pending {
                    code: WarningCode::OrphanToolCallsSynthesized,
                    message: Some(n),
                    at_first_block: false,
                    text: cat3(
                        texts.appended_before.as_str(),
                        dec_usize(count).as_str(),
                        texts.appended_after.as_str(),
                    ),
                },
            );
            proof {
                assert(views(pending@) =~= pend1 + trailing_warnings(msgs, policy, texts@));
            }
        },
    }
}

/// Fills or notes missing thinking, in place.
pub fn apply_missing_thinking(
    messages: &mut Vec<Message>,
    fill: &Option<String>,
    filled_text: &str,
    missing_text: &str,
    pending: &mut Vec<Pending>,
)
    ensures
        views(final(messages)@) == filled(views(old(messages)@), opt_view(*fill)),
        views(final(pending)@) == views(old(pending)@) + thinking_warnings(
            views(old(messages)@),
            opt_view(*fill),
            filled_text@,
            missing_text@,
            old(messages)@.len(),
        ),
{
    let ghost msgs = views(messages@);
    let ghost pend0 = views(pending@);
    let ghost fillv = opt_view(*fill);
    let n = messages.len();
    let mut i: usize = 0;
    proof {
        assert(views(pending@) =~= pend0 + thinking_warnings(msgs, fillv, filled_text@, missing_text@, 0));
    }
    while i < n
        invariant
            n == messages@.len(),
            n == msgs.len(),
            i <= n,
            fillv == opt_view(*fill),
            forall|k: int| 0 <= k < i ==> views(messages@)[k] == filled(msgs, fillv)[k],
            forall|k: int| i <= k < n ==> views(messages@)[k] == msgs[k],
            views(pending@) == pend0 + thinking_warnings(msgs, fillv, filled_text@, missing_text@, i as nat),
        decreases n - i,
    {
        let ghost before = views(messages@);
        proof {
            assert(before[i as int] == messages@[i as int]@);
        }
        if messages[i].role == Role::Assistant && any_tool_call(&messages[i].content) && !any_thinking(&messages[i].content) {
            match fill {
                Some(text) => {
                    let mut content = dup_vec(&messages[i].content);
                    let ghost c0 = views(content@);
                    content.insert(0, ContentBlock::thinking(text.clone()));
                    proof {
                        assert(views(content@) =~= c0.insert(0, thinking_block(text@)));
                    }
                    let m = Message {
                        role: messages[i].role,
                        content,
                        extra: messages[i].extra.dup(),
                        round_trip: dup_opt(&messages[i].round_trip),
                    };
                    messages[i] = m;
                    pending.push(
                        Pending {
                            code: WarningCode::MissingThinkingFilled,
                            message: Some(i),
                            at_first_block: true,
                            text: filled_text.to_owned(),
                        },
                    );
                },
                None => {
                    pending.push(
                        Pending {
                            code: WarningCode::MissingThinkingWithToolCalls,
                            message: Some(i),
                            at_first_block: false,
                            text: missing_text.to_owned(),
                        },
                    );
                },
            }
            proof {
                let p = thinking_warnings(msgs, fillv, filled_text@, missing_text@, i as nat + 1);
                assert(views(pending@) =~= pend0 + p);
            }
        }
        i += 1;
    }
    proof {
        assert(views(messages@) =~= filled(msgs, fillv));
    }
}

/// Dropping the trailing calls leaves no call in the last message.
pub proof fn without_calls_has_none(content: Seq<ContentBlockV>, n: nat)
    requires
        n <= content.len(),
    ensures
        !has_tool_call(without_calls(content, n)),
        without_calls(content, n).len() <= n,
    decreases n,
{
    if n > 0 {
        without_calls_has_none(content, (n - 1) as nat);
    }
}

/// The results stand in order for the calls, one each.
pub proof fn cancelled_results_index(calls: Seq<(Option<Seq<char>>, Seq<char>)>, n: nat, k: int)
    requires
        0 <= k < n <= calls.len(),
    ensures
        cancelled_results(calls, n).len() == n,
        cancelled_results(calls, n)[k] == cancelled_result(calls[k].0, calls[k].1),
    decreases n,
{
    reveal_with_fuel(cancelled_results, 2);
    if n > 1 && k < n - 1 {
        cancelled_results_index(calls, (n - 1) as nat, k);
    } else if n > 1 {
        cancelled_results_index(calls, (n - 1) as nat, 0);
    }
}

/// Where a call stands among the first `n` blocks, `calls_in` lists it.
pub proof fn calls_in_lists(content: Seq<ContentBlockV>, n: nat, k: int)
    requires
        0 <= k < n <= content.len(),
        content[k] is ToolCall,
    ensures
        exists|j: int| 0 <= j < calls_in(content, n).len() && #[trigger] calls_in(content, n)[j] == call_key(content[k]),
    decreases n,
{
    let m = (n - 1) as nat;
    let all = calls_in(content, n);
    if k == m {
        assert(all[all.len() - 1] == call_key(content[k]));
    } else {
        calls_in_lists(content, m, k);
        let prev = calls_in(content, m);
        let j = choose|j: int| 0 <= j < prev.len() && #[trigger] prev[j] == call_key(content[k]);
        assert(all[j] == call_key(content[k]));
    }
}

/// The id and name of a call.
pub open spec fn call_key(b: ContentBlockV) -> (Option<Seq<char>>, Seq<char>) {
    match b {
        ContentBlockV::ToolCall { id, name, .. } => (id, name),
        _ => (None, Seq::empty()),
    }
}

/// After error results were appended, every call of the message that used to
/// be last is answered.
pub proof fn synthesized_results_answer_every_call(msgs: Seq<MessageV>, k: int)
    requires
        msgs.len() > 0,
        msgs.last().role == Role::Assistant,
        0 <= k < msgs.last().content.len(),
    ensures
        !is_orphan(
            repaired(msgs, OrphanToolCalls::SynthesizeError),
            msgs.len() - 1,
            msgs.last().content[k],
        ),
{
    let content = msgs.last().content;
    let calls = calls_in(content, content.len());
    if content[k] is ToolCall {
        calls_in_lists(content, content.len(), k);
        let j = choose|j: int| 0 <= j < calls.len() && #[trigger] calls[j] == call_key(content[k]);
        cancelled_results_index(calls, calls.len(), j);
        let after = repaired(msgs, OrphanToolCalls::SynthesizeError);
        let added = after[msgs.len() as int];
        let (id, name) = call_key(content[k]);
        assert(answers(added.content[j], id, name));
        assert(answered_in(after[msgs.len() as int], id, name));
    }
}

/// After trailing calls were dropped, the history either lost its last message
/// or ends in one without calls; every earlier message is unchanged.
pub proof fn dropped_trailing_calls_are_gone(msgs: Seq<MessageV>)
    requires
        trailing_calls(msgs).len() > 0,
    ensures
        ({
            let after = repaired(msgs, OrphanToolCalls::DropTrailing);
            &&& after.len() == msgs.len() || after.len() == msgs.len() - 1
            &&& after.len() == msgs.len() ==> !has_tool_call(after.last().content) && after.last().content.len() > 0
            &&& after.take(msgs.len() - 1) == msgs.drop_last()
        }),
{
    without_calls_has_none(msgs.last().content, msgs.last().content.len());
    let after = repaired(msgs, OrphanToolCalls::DropTrailing);
    assert(after.take(msgs.len() - 1) =~= msgs.drop_last());
}

/// After filling, no message lacks thinking; the others are unchanged.
pub proof fn filled_history_lacks_nothing(msgs: Seq<MessageV>, text: Seq<char>, i: int)
    requires
        0 <= i < msgs.len(),
    ensures
        filled(msgs, Some(text)).len() == msgs.len(),
        !lacks_thinking(filled(msgs, Some(text))[i]),
        !lacks_thinking(msgs[i]) ==> filled(msgs, Some(text))[i] == msgs[i],
{
    let m = filled(msgs, Some(text))[i];
    if lacks_thinking(msgs[i]) {
        assert(m.content[0] is Thinking);
    }
}

/// Repairs touch the end of a history alone: every message before the last
/// stays as it was, whatever calls it leaves unanswered.
pub proof fn middle_is_never_repaired(msgs: Seq<MessageV>, policy: OrphanToolCalls, i: int)
    requires
        0 <= i < msgs.len() - 1,
    ensures
        i < repaired(msgs, policy).len(),
        repaired(msgs, policy)[i] == msgs[i],
{
}

/// A history that ends in an answer, or in no call at all, is not repaired,
/// and no warning is raised about its end.
pub proof fn answered_history_is_kept(
    msgs: Seq<MessageV>,
    policy: OrphanToolCalls,
    texts: OrphanTextsV,
)
    requires
        trailing_calls(msgs).len() == 0,
    ensures
        repaired(msgs, policy) == msgs,
        trailing_warnings(msgs, policy, texts).len() == 0,
{
}

} // verus!
