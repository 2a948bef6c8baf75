//! Wire messages of Chat Completions requests.

use vstd::prelude::*;
use crate::convert::{ConvertOptions, ConvertOptionsV, OrphanToolCalls, WarningCode};
use crate::error::{ConversionError, ConversionErrorV};
use crate::format::OPENAI_CHAT_COMPLETIONS;
use crate::formats::openai_chat_completions::assistant::{assistant_message, build_assistant_message};
use crate::formats::openai_chat_completions::content::{build_tool_content, encode_input_content, input_content, omerge_noted, omerged, onoted, onoted_if, opaque_lost, tool_content, warn_opaque};
use crate::history::{apply_missing_thinking, apply_orphan_policy, count_calls, count_orphans, drop_calls, filled, lacks_thinking, middle_orphan, orphan_count, repaired, trailing_calls, trailing_rest, OrphanTexts, Pending};
use crate::ir::{any_thinking, any_tool_call, block_kind, enables_thinking, has_thinking, request_enables_thinking, ContentBlock, ContentBlockV, Message, MessageV, Request, RequestV, Role};
use crate::json::{json_as_str, json_get, make2, make3, object2, object3, with_member, Json, JsonV};
use crate::model::{dup_vec, group_views, opt_view, opt_views, views};
use crate::sink::{Sink, SinkV};
use crate::text::{cat2, cat3, cat4, cat5, dec_usize, decimal, text_is};

verus! {

broadcast use group_views;

/// The wire messages so far, with location and role of each.
pub struct ChatV {
    pub wire: Seq<JsonV>,
    pub pointers: Seq<(Seq<char>, Role)>,
    pub sink: SinkV,
}

/// Wire messages under construction.
#[derive(Debug)]
pub struct Chat {
    pub wire: Vec<Json>,
    pub pointers: Vec<(String, Role)>,
    pub sink: Sink,
}

impl View for Chat {
    type V = ChatV;

    open spec fn view(&self) -> ChatV {
        ChatV { wire: views(self.wire@), pointers: views(self.pointers@), sink: self.sink@ }
    }
}

/// The location of wire message `n`.
pub open spec fn wire_ptr(n: nat) -> Seq<char> {
    "/messages/"@ + decimal(n)
}

/// The warnings about unanswered calls before the last message, for the first
/// `n` messages.
pub open spec fn middle_noted(s: SinkV, msgs: Seq<MessageV>, n: nat) -> SinkV
    decreases n,
{
    if n == 0 || n > msgs.len() {
        s
    } else {
        onoted_if(
            middle_orphan(msgs, n - 1),
            middle_noted(s, msgs, (n - 1) as nat),
            WarningCode::OrphanToolCalls,
            "/messages"@,
            "message "@ + decimal((n - 1) as nat) + " contains "@ + decimal(orphan_count(msgs, n - 1))
                + " unmatched tool call(s) in the middle of the conversation"@,
        )
    }
}

/// The warnings that the policy for trailing calls raises.
pub open spec fn trailing_noted(s: SinkV, msgs: Seq<MessageV>, policy: OrphanToolCalls) -> SinkV {
    let n = trailing_calls(msgs).len();
    if n == 0 {
        s
    } else {
        match policy {
            OrphanToolCalls::Passthrough => s,
            OrphanToolCalls::DropTrailing => onoted(
                onoted_if(
                    has_thinking(trailing_rest(msgs)),
                    s,
                    WarningCode::ThinkingOrphaned,
                    "/messages"@,
                    "dropping the trailing tool calls left a thinking block without them; the upstream may reject the turn"@,
                ),
                WarningCode::OrphanToolCallsDropped,
                "/messages"@,
                "removed "@ + decimal(n) + " unmatched trailing tool call(s)"@,
            ),
            OrphanToolCalls::SynthesizeError => onoted(
                s,
                WarningCode::OrphanToolCallsSynthesized,
                "/messages"@,
                "appended "@ + decimal(n) + " synthetic error tool result(s) for unmatched trailing tool call(s)"@,
            ),
        }
    }
}

/// The warnings about missing thinking, for the first `n` messages.
pub open spec fn thinking_noted(s: SinkV, msgs: Seq<MessageV>, fill: bool, n: nat) -> SinkV
    decreases n,
{
    if n == 0 || n > msgs.len() {
        s
    } else {
        let prev = thinking_noted(s, msgs, fill, (n - 1) as nat);
        if lacks_thinking(msgs[n - 1]) {
            if fill {
                onoted(
                    prev,
                    WarningCode::MissingThinkingFilled,
                    "/messages"@,
                    "inserted a placeholder thinking block into assistant message "@ + decimal((n - 1) as nat),
                )
            } else {
                onoted(
                    prev,
                    WarningCode::MissingThinkingWithToolCalls,
                    "/messages"@,
                    "assistant message "@ + decimal((n - 1) as nat)
                        + " carries tool calls but no thinking block while the request enables thinking; the upstream may reject or degrade the turn"@,
                )
            }
        } else {
            prev
        }
    }
}

/// The repaired history, and the warnings about the repairs.
pub open spec fn prepared(req: RequestV, conv: ConvertOptionsV, s: SinkV) -> (Seq<MessageV>, SinkV) {
    let m1 = repaired(req.messages, conv.orphan_tool_calls);
    let s1 = trailing_noted(
        middle_noted(s, req.messages, req.messages.len()),
        req.messages,
        conv.orphan_tool_calls,
    );
    if enables_thinking(req.reasoning) {
        (
            filled(m1, conv.fill_missing_thinking),
            thinking_noted(s1, m1, conv.fill_missing_thinking is Some, m1.len()),
        )
    } else {
        (m1, s1)
    }
}

/// The system prompt holds text only.
pub open spec fn system_check(system: Seq<ContentBlockV>, n: nat) -> Result<(), ConversionErrorV>
    decreases n,
{
    if n == 0 || n > system.len() {
        Ok(())
    } else {
        match system_check(system, (n - 1) as nat) {
            Err(e) => Err(e),
            Ok(_) => if system[n - 1] is Text {
                Ok(())
            } else {
                Err(
                    ConversionErrorV::InvalidBlockForRole {
                        role: Role::System,
                        block: block_kind(system[n - 1]),
                        location: "/system/"@ + decimal((n - 1) as nat),
                    },
                )
            },
        }
    }
}

/// The leading system message.
pub open spec fn system_message(system: Seq<ContentBlockV>, s: SinkV) -> Result<(JsonV, SinkV), ConversionErrorV> {
    match system_check(system, system.len()) {
        Err(e) => Err(e),
        Ok(_) => match input_content(system, "/messages/0"@, true, s) {
            Err(e) => Err(e),
            Ok((content, s1)) => Ok(
                (object2("role"@, JsonV::Str("system"@), "content"@, content), s1),
            ),
        },
    }
}

/// The block may stand in an input message.
pub open spec fn input_block(b: ContentBlockV, system: bool) -> bool {
    b is Text || b is Opaque || (b is Image && !system)
}

/// The first `n` blocks may stand in the input message `mi`.
pub open spec fn role_check(m: MessageV, mi: nat, system: bool, n: nat) -> Result<(), ConversionErrorV>
    decreases n,
{
    if n == 0 || n > m.content.len() {
        Ok(())
    } else {
        match role_check(m, mi, system, (n - 1) as nat) {
            Err(e) => Err(e),
            Ok(_) => if input_block(m.content[n - 1], system) {
                Ok(())
            } else {
                Err(
                    ConversionErrorV::InvalidBlockForRole {
                        role: m.role,
                        block: block_kind(m.content[n - 1]),
                        location: "/messages/"@ + decimal(mi) + "/content/"@ + decimal((n - 1) as nat),
                    },
                )
            },
        }
    }
}

/// The role that an input message has on the wire.
pub open spec fn input_role(role: Role, downgrade: bool) -> Role {
    match role {
        Role::System => Role::System,
        Role::Developer => if downgrade { Role::User } else { Role::Developer },
        _ => Role::User,
    }
}

/// The wire name of an input role.
pub open spec fn input_role_name(role: Role) -> Seq<char> {
    match role {
        Role::System => "system"@,
        Role::Developer => "developer"@,
        _ => "user"@,
    }
}

/// A system, developer or user message.
pub open spec fn input_message(c: ChatV, m: MessageV, mi: nat, downgrade: bool) -> Result<ChatV, ConversionErrorV> {
    let ptr = wire_ptr(c.wire.len());
    let system = m.role == Role::System || m.role == Role::Developer;
    let role = input_role(m.role, downgrade);
    let s1 = onoted_if(
        m.role == Role::Developer && downgrade,
        c.sink,
        WarningCode::RoleDowngraded,
        ptr,
        "developer message downgraded to `user` (downgrade_developer)"@,
    );
    match role_check(m, mi, system, m.content.len()) {
        Err(e) => Err(e),
        Ok(_) => match input_content(m.content, ptr, system, s1) {
            Err(e) => Err(e),
            Ok((content, s2)) => Ok(
                ChatV {
                    wire: c.wire.push(
                        omerged(
                            m.extra,
                            object2("role"@, JsonV::Str(input_role_name(role)), "content"@, content),
                        ),
                    ),
                    pointers: c.pointers.push((ptr, role)),
                    sink: omerge_noted(s2, m.extra, ptr),
                },
            ),
        },
    }
}

/// Block `bi` of tool message `mi`.
pub open spec fn tool_step(c: ChatV, b: ContentBlockV, mi: nat, bi: nat) -> Result<ChatV, ConversionErrorV> {
    let ptr = wire_ptr(c.wire.len());
    match b {
        ContentBlockV::ToolResult { tool_call_id, name, content, is_error, cache, extra } => match tool_call_id {
            None => Err(
                ConversionErrorV::MissingRequired {
                    what: "tool result requires `tool_call_id` on the Chat Completions API"@,
                    location: ptr,
                },
            ),
            Some(id) => {
                let s1 = onoted_if(
                    cache is Some,
                    onoted_if(
                        is_error == Some(true),
                        c.sink,
                        WarningCode::IsErrorDropped,
                        ptr,
                        "`is_error` is native to Anthropic and Google; the error marker was dropped"@,
                    ),
                    WarningCode::CacheHintDropped,
                    ptr,
                    "cache breakpoints exist only on content parts; the hint on this tool result was dropped"@,
                );
                let (v, s2) = tool_content(content, ptr, s1);
                let item0 = object3(
                    "role"@,
                    JsonV::Str("tool"@),
                    "tool_call_id"@,
                    JsonV::Str(id),
                    "content"@,
                    v,
                );
                let item = match name {
                    Some(n) => with_member(item0, "name"@, JsonV::Str(n)),
                    None => item0,
                };
                Ok(
                    ChatV {
                        wire: c.wire.push(omerged(extra, item)),
                        pointers: c.pointers.push((ptr, Role::Tool)),
                        sink: omerge_noted(s2, extra, ptr),
                    },
                )
            },
        },
        ContentBlockV::Opaque { format, value } => if format == OPENAI_CHAT_COMPLETIONS@ {
            Ok(
                ChatV {
                    wire: c.wire.push(value),
                    pointers: c.pointers.push((ptr, Role::Tool)),
                    sink: c.sink,
                },
            )
        } else {
            Ok(ChatV { sink: opaque_lost(c.sink, format, ptr), ..c })
        },
        _ => Err(
            ConversionErrorV::InvalidBlockForRole {
                role: Role::Tool,
                block: block_kind(b),
                location: "/messages/"@ + decimal(mi) + "/content/"@ + decimal(bi),
            },
        ),
    }
}

/// The first `n` blocks of tool message `mi`.
pub open spec fn tool_steps(c: ChatV, m: MessageV, mi: nat, n: nat) -> Result<ChatV, ConversionErrorV>
    decreases n,
{
    if n == 0 || n > m.content.len() {
        Ok(c)
    } else {
        match tool_steps(c, m, mi, (n - 1) as nat) {
            Err(e) => Err(e),
            Ok(prev) => tool_step(prev, m.content[n - 1], mi, (n - 1) as nat),
        }
    }
}

/// A tool message: one wire message per result. The provider data of the
/// message goes to the first.
pub open spec fn tool_messages(c: ChatV, m: MessageV, mi: nat) -> Result<ChatV, ConversionErrorV> {
    match tool_steps(c, m, mi, m.content.len()) {
        Err(e) => Err(e),
        Ok(d) => {
            let first = c.wire.len() as int;
            if d.wire.len() > first {
                Ok(
                    ChatV {
                        wire: d.wire.update(first, omerged(m.extra, d.wire[first])),
                        pointers: d.pointers,
                        sink: omerge_noted(d.sink, m.extra, wire_ptr(c.wire.len())),
                    },
                )
            } else {
                Ok(d)
            }
        },
    }
}

/// The message is one opaque node that is itself a wire message.
pub open spec fn verbatim(m: MessageV) -> Option<JsonV> {
    if m.content.len() == 1 {
        match m.content[0] {
            ContentBlockV::Opaque { format, value } => if format == OPENAI_CHAT_COMPLETIONS@ && json_as_str(
                json_get(value, "role"@),
            ) is Some {
                Some(value)
            } else {
                None
            },
            _ => None,
        }
    } else {
        None
    }
}

/// Message `mi` as wire messages.
pub open spec fn chat_step(c: ChatV, m: MessageV, mi: nat, conv: ConvertOptionsV) -> Result<ChatV, ConversionErrorV> {
    let ptr = wire_ptr(c.wire.len());
    match verbatim(m) {
        Some(value) => Ok(
            ChatV {
                wire: c.wire.push(omerged(m.extra, value)),
                pointers: c.pointers.push((ptr, m.role)),
                sink: omerge_noted(c.sink, m.extra, ptr),
            },
        ),
        None => match m.role {
            Role::Assistant => match assistant_message(m, mi, conv.thinking_as_text, ptr, c.sink) {
                Err(e) => Err(e),
                Ok((v, s)) => Ok(
                    ChatV {
                        wire: c.wire.push(v),
                        pointers: c.pointers.push((ptr, Role::Assistant)),
                        sink: s,
                    },
                ),
            },
            Role::Tool => tool_messages(c, m, mi),
            _ => input_message(c, m, mi, conv.downgrade_developer),
        },
    }
}

/// The first `n` messages as wire messages.
pub open spec fn chat_steps(c: ChatV, msgs: Seq<MessageV>, conv: ConvertOptionsV, n: nat) -> Result<ChatV, ConversionErrorV>
    decreases n,
{
    if n == 0 || n > msgs.len() {
        Ok(c)
    } else {
        match chat_steps(c, msgs, conv, (n - 1) as nat) {
            Err(e) => Err(e),
            Ok(prev) => chat_step(prev, msgs[n - 1], (n - 1) as nat, conv),
        }
    }
}

/// All wire messages: the system prompt, if there is one, and the history.
pub open spec fn chat(
    system: Option<Seq<ContentBlockV>>,
    msgs: Seq<MessageV>,
    conv: ConvertOptionsV,
    s: SinkV,
) -> Result<ChatV, ConversionErrorV> {
    match system {
        None => chat_steps(
            ChatV { wire: Seq::empty(), pointers: Seq::empty(), sink: s },
            msgs,
            conv,
            msgs.len(),
        ),
        Some(blocks) => match system_message(blocks, s) {
            Err(e) => Err(e),
            Ok((v, s1)) => chat_steps(
                ChatV { wire: seq![v], pointers: seq![("/messages/0"@, Role::System)], sink: s1 },
                msgs,
                conv,
                msgs.len(),
            ),
        },
    }
}

proof fn system_check_error_stays(system: Seq<ContentBlockV>, n: nat, m: nat)
    requires
        n <= m <= system.len(),
        system_check(system, n) is Err,
    ensures
        system_check(system, m) == system_check(system, n),
    decreases m - n,
{
    if n < m {
        system_check_error_stays(system, n, (m - 1) as nat);
    }
}

proof fn role_check_error_stays(msg: MessageV, mi: nat, system: bool, n: nat, m: nat)
    requires
        n <= m <= msg.content.len(),
        role_check(msg, mi, system, n) is Err,
    ensures
        role_check(msg, mi, system, m) == role_check(msg, mi, system, n),
    decreases m - n,
{
    if n < m {
        role_check_error_stays(msg, mi, system, n, (m - 1) as nat);
    }
}

proof fn tool_steps_error_stays(c: ChatV, msg: MessageV, mi: nat, n: nat, m: nat)
    requires
        n <= m <= msg.content.len(),
        tool_steps(c, msg, mi, n) is Err,
    ensures
        tool_steps(c, msg, mi, m) == tool_steps(c, msg, mi, n),
    decreases m - n,
{
    if n < m {
        tool_steps_error_stays(c, msg, mi, n, (m - 1) as nat);
    }
}

proof fn chat_steps_error_stays(c: ChatV, msgs: Seq<MessageV>, conv: ConvertOptionsV, n: nat, m: nat)
    requires
        n <= m <= msgs.len(),
        chat_steps(c, msgs, conv, n) is Err,
    ensures
        chat_steps(c, msgs, conv, m) == chat_steps(c, msgs, conv, n),
    decreases m - n,
{
    if n < m {
        chat_steps_error_stays(c, msgs, conv, n, (m - 1) as nat);
    }
}

fn note_middle(messages: &Vec<Message>, sink: &mut Sink)
    ensures
        final(sink)@ == middle_noted(old(sink)@, views(messages@), messages@.len()),
{
    let ghost s0 = sink@;
    let n = messages.len();
    let mut i: usize = 0;
    while i < n
        invariant
            n == messages@.len(),
            i <= n,
            sink@ == middle_noted(s0, views(messages@), i as nat),
        decreases n - i,
    {
        proof {
            assert(views(messages@)[i as int] == messages@[i as int]@);
        }
        if i != n - 1 && messages[i].role == Role::Assistant {
            let count = count_orphans(messages, i);
            if count > 0 {
                sink.warn(
                    OPENAI_CHAT_COMPLETIONS,
                    WarningCode::OrphanToolCalls,
                    "/messages",
                    cat5(
                        "message ",
                        dec_usize(i).as_str(),
                        " contains ",
                        dec_usize(count).as_str(),
                        " unmatched tool call(s) in the middle of the conversation",
                    ).as_str(),
                );
            }
        }
        i += 1;
    }
}

fn note_trailing(messages: &Vec<Message>, policy: OrphanToolCalls, sink: &mut Sink)
    ensures
        final(sink)@ == trailing_noted(old(sink)@, views(messages@), policy),
{
    let n = messages.len();
    if n == 0 {
        return;
    }
    let last = &messages[n - 1];
    proof {
        assert(views(messages@).last() == last@);
    }
    if last.role != Role::Assistant {
        return;
    }
    let count = count_calls(&last.content);
    if count == 0 {
        return;
    }
    match policy {
        OrphanToolCalls::Passthrough => {},
        OrphanToolCalls::DropTrailing => {
            if any_thinking(&drop_calls(&last.content)) {
                sink.warn(
                    OPENAI_CHAT_COMPLETIONS,
                    WarningCode::ThinkingOrphaned,
                    "/messages",
                    "dropping the trailing tool calls left a thinking block without them; the upstream may reject the turn",
                );
            }
            sink.warn(
                OPENAI_CHAT_COMPLETIONS,
                WarningCode::OrphanToolCallsDropped,
                "/messages",
                cat3("removed ", dec_usize(count).as_str(), " unmatched trailing tool call(s)").as_str(),
            );
        },
        OrphanToolCalls::SynthesizeError => {
            sink.warn(
                OPENAI_CHAT_COMPLETIONS,
                WarningCode::OrphanToolCallsSynthesized,
                "/messages",
                cat3(
                    "appended ",
                    dec_usize(count).as_str(),
                    " synthetic error tool result(s) for unmatched trailing tool call(s)",
                ).as_str(),
            );
        },
    }
}

fn note_thinking(messages: &Vec<Message>, fill: bool, sink: &mut Sink)
    ensures
        final(sink)@ == thinking_noted(old(sink)@, views(messages@), fill, messages@.len()),
{
    let ghost s0 = sink@;
    let mut i: usize = 0;
    while i < messages.len()
        invariant
            i <= messages@.len(),
            sink@ == thinking_noted(s0, views(messages@), fill, i as nat),
        decreases messages@.len() - i,
    {
        let m = &messages[i];
        proof {
            assert(views(messages@)[i as int] == m@);
        }
        if m.role == Role::Assistant && any_tool_call(&m.content) && !any_thinking(&m.content) {
            if fill {
                sink.warn(
                    OPENAI_CHAT_COMPLETIONS,
                    WarningCode::MissingThinkingFilled,
                    "/messages",
                    cat2(
                        "inserted a placeholder thinking block into assistant message ",
                        dec_usize(i).as_str(),
                    ).as_str(),
                );
            } else {
                sink.warn(
                    OPENAI_CHAT_COMPLETIONS,
                    WarningCode::MissingThinkingWithToolCalls,
                    "/messages",
                    cat3(
                        "assistant message ",
                        dec_usize(i).as_str(),
                        " carries tool calls but no thinking block while the request enables thinking; the upstream may reject or degrade the turn",
                    ).as_str(),
                );
            }
        }
        i += 1;
    }
}

/// Repairs the history before it is built.
pub fn preprocess_messages(req: &Request, convert: &ConvertOptions, sink: &mut Sink) -> (r: Vec<Message>)
    ensures
        (views(r@), final(sink)@) == prepared(req@, convert@, old(sink)@),
{
    note_middle(&req.messages, sink);
    note_trailing(&req.messages, convert.orphan_tool_calls, sink);
    let mut messages = dup_vec(&req.messages);
    let mut pending: Vec<Pending> = Vec::new();
    let texts = OrphanTexts {
        middle: String::new(),
        dropped_before: String::new(),
        dropped_after: String::new(),
        thinking: String::new(),
        appended_before: String::new(),
        appended_after: String::new(),
    };
    apply_orphan_policy(&mut messages, convert.orphan_tool_calls, &texts, &mut pending);
    if request_enables_thinking(req.reasoning.as_ref()) {
        note_thinking(&messages, convert.fill_missing_thinking.is_some(), sink);
        apply_missing_thinking(&mut messages, &convert.fill_missing_thinking, "", "", &mut pending);
    }
    messages
}

fn check_system(system: &Vec<ContentBlock>) -> (r: Result<(), ConversionError>)
    ensures
        match r {
            Ok(_) => system_check(views(system@), system@.len()) is Ok,
            Err(e) => system_check(views(system@), system@.len()) == Err::<(), ConversionErrorV>(e@),
        },
{
    let mut i: usize = 0;
    while i < system.len()
        invariant
            i <= system@.len(),
            system_check(views(system@), i as nat) is Ok,
        decreases system@.len() - i,
    {
        let b = &system[i];
        proof {
            assert(views(system@)[i as int] == b@);
        }
        match b {
            ContentBlock::Text { .. } => {},
            _ => {
                let e = ConversionError::invalid_block_for_role(
                    Role::System,
                    b.kind_name(),
                    cat2("/system/", dec_usize(i).as_str()).as_str(),
                );
                proof {
                    assert(system_check(views(system@), (i + 1) as nat) == Err::<(), ConversionErrorV>(e@));
                    system_check_error_stays(views(system@), (i + 1) as nat, system@.len());
                }
                return Err(e);
            },
        }
        i += 1;
    }
    Ok(())
}

/// Builds the leading system message.
pub fn build_system_from_request(system: &Vec<ContentBlock>, sink: &mut Sink) -> (r: Result<Json, ConversionError>)
    ensures
        match r {
            Ok(v) => system_message(views(system@), old(sink)@) == Ok::<(JsonV, SinkV), ConversionErrorV>(
                (v@, final(sink)@),
            ),
            Err(e) => system_message(views(system@), old(sink)@) == Err::<(JsonV, SinkV), ConversionErrorV>(e@),
        },
{
    match check_system(system) {
        Ok(_) => {},
        Err(e) => {
            return Err(e);
        },
    }
    match encode_input_content(system, "/messages/0", true, sink) {
        Err(e) => Err(e),
        Ok(content) => Ok(make2("role", Json::text("system"), "content", content)),
    }
}

fn check_role(m: &Message, mi: usize, system: bool) -> (r: Result<(), ConversionError>)
    ensures
        match r {
            Ok(_) => role_check(m@, mi as nat, system, m@.content.len()) is Ok,
            Err(e) => role_check(m@, mi as nat, system, m@.content.len()) == Err::<(), ConversionErrorV>(e@),
        },
{
    let mut i: usize = 0;
    while i < m.content.len()
        invariant
            i <= m.content@.len(),
            role_check(m@, mi as nat, system, i as nat) is Ok,
        decreases m.content@.len() - i,
    {
        let b = &m.content[i];
        proof {
            assert(m@.content[i as int] == b@);
        }
        let ok = match b {
            ContentBlock::Text { .. } => true,
            ContentBlock::Opaque { .. } => true,
            ContentBlock::Image { .. } => !system,
            _ => false,
        };
        if !ok {
            let e = ConversionError::invalid_block_for_role(
                m.role,
                b.kind_name(),
                cat4("/messages/", dec_usize(mi).as_str(), "/content/", dec_usize(i).as_str()).as_str(),
            );
            proof {
                assert(role_check(m@, mi as nat, system, (i + 1) as nat) == Err::<(), ConversionErrorV>(e@));
                role_check_error_stays(m@, mi as nat, system, (i + 1) as nat, m@.content.len());
            }
            return Err(e);
        }
        i += 1;
    }
    Ok(())
}

fn make_wire_ptr(n: usize) -> (r: String)
    ensures
        r@ == wire_ptr(n as nat),
{
    cat2("/messages/", dec_usize(n).as_str())
}

fn build_input_message(c: &mut Chat, m: &Message, mi: usize, downgrade: bool) -> (r: Result<(), ConversionError>)
    ensures
        match r {
            Ok(_) => input_message(old(c)@, m@, mi as nat, downgrade) == Ok::<ChatV, ConversionErrorV>(final(c)@),
            Err(e) => input_message(old(c)@, m@, mi as nat, downgrade) == Err::<ChatV, ConversionErrorV>(e@),
        },
{
    let ptr = make_wire_ptr(c.wire.len());
    let (name, role) = match m.role {
        Role::System => ("system", Role::System),
        Role::Developer => {
            if downgrade {
                c.sink.warn(
                    OPENAI_CHAT_COMPLETIONS,
                    WarningCode::RoleDowngraded,
                    ptr.as_str(),
                    "developer message downgraded to `user` (downgrade_developer)",
                );
                ("user", Role::User)
            } else {
                ("developer", Role::Developer)
            }
        },
        _ => ("user", Role::User),
    };
    let system = m.role == Role::System || m.role == Role::Developer;
    match check_role(m, mi, system) {
        Ok(_) => {},
        Err(e) => {
            return Err(e);
        },
    }
    match encode_input_content(&m.content, ptr.as_str(), system, &mut c.sink) {
        Err(e) => Err(e),
        Ok(content) => {
            let mut item = make2("role", Json::text(name), "content", content);
            c.sink.merge(&m.extra, OPENAI_CHAT_COMPLETIONS, &mut item, ptr.as_str());
            c.wire.push(item);
            c.pointers.push((ptr, role));
            Ok(())
        },
    }
}

fn push_tool_block(c: &mut Chat, b: &ContentBlock, mi: usize, bi: usize) -> (r: Result<(), ConversionError>)
    ensures
        match r {
            Ok(_) => tool_step(old(c)@, b@, mi as nat, bi as nat) == Ok::<ChatV, ConversionErrorV>(final(c)@),
            Err(e) => tool_step(old(c)@, b@, mi as nat, bi as nat) == Err::<ChatV, ConversionErrorV>(e@),
        },
{
    let ptr = make_wire_ptr(c.wire.len());
    match b {
        ContentBlock::ToolResult { tool_call_id, name, content, is_error, cache, extra } => {
            let id = match tool_call_id {
                Some(id) => id.clone(),
                None => {
                    return Err(
                        ConversionError::missing(
                            "tool result requires `tool_call_id` on the Chat Completions API",
                            ptr.as_str(),
                        ),
                    );
                },
            };
            if *is_error == Some(true) {
                c.sink.warn(
                    OPENAI_CHAT_COMPLETIONS,
                    WarningCode::IsErrorDropped,
                    ptr.as_str(),
                    "`is_error` is native to Anthropic and Google; the error marker was dropped",
                );
            }
            if cache.is_some() {
                c.sink.warn(
                    OPENAI_CHAT_COMPLETIONS,
                    WarningCode::CacheHintDropped,
                    ptr.as_str(),
                    "cache breakpoints exist only on content parts; the hint on this tool result was dropped",
                );
            }
            let v = build_tool_content(content, ptr.as_str(), &mut c.sink);
            let mut item = make3("role", Json::text("tool"), "tool_call_id", Json::Str(id), "content", v);
            if let Some(n) = name {
                item.put("name", Json::Str(n.clone()));
            }
            c.sink.merge(extra, OPENAI_CHAT_COMPLETIONS, &mut item, ptr.as_str());
            c.wire.push(item);
            c.pointers.push((ptr, Role::Tool));
            Ok(())
        },
        ContentBlock::Opaque { format, value } => {
            if text_is(format, OPENAI_CHAT_COMPLETIONS) {
                c.wire.push(value.copy());
                c.pointers.push((ptr, Role::Tool));
            } else {
                warn_opaque(format, ptr.as_str(), &mut c.sink);
            }
            Ok(())
        },
        _ => Err(
            ConversionError::invalid_block_for_role(
                Role::Tool,
                b.kind_name(),
                cat4("/messages/", dec_usize(mi).as_str(), "/content/", dec_usize(bi).as_str()).as_str(),
            ),
        ),
    }
}

/// Serializes a tool message.
pub fn build_tool_messages(c: &mut Chat, m: &Message, mi: usize) -> (r: Result<(), ConversionError>)
    ensures
        match r {
            Ok(_) => tool_messages(old(c)@, m@, mi as nat) == Ok::<ChatV, ConversionErrorV>(final(c)@),
            Err(e) => tool_messages(old(c)@, m@, mi as nat) == Err::<ChatV, ConversionErrorV>(e@),
        },
{
    let ghost c0 = c@;
    let first = c.wire.len();
    let mut i: usize = 0;
    while i < m.content.len()
        invariant
            i <= m.content@.len(),
            c0 == old(c)@,
            tool_steps(c0, m@, mi as nat, i as nat) == Ok::<ChatV, ConversionErrorV>(c@),
        decreases m.content@.len() - i,
    {
        match push_tool_block(c, &m.content[i], mi, i) {
            Ok(_) => {},
            Err(e) => {
                proof {
                    tool_steps_error_stays(c0, m@, mi as nat, i as nat + 1, m@.content.len());
                }
                return Err(e);
            },
        }
        i += 1;
    }
    let ghost d = c@;
    if c.wire.len() > first {
        let ptr = make_wire_ptr(first);
        let mut item = c.wire[first].copy();
        c.sink.merge(&m.extra, OPENAI_CHAT_COMPLETIONS, &mut item, ptr.as_str());
        c.wire[first] = item;
        proof {
            assert(c@.wire =~= d.wire.update(first as int, omerged(m@.extra, d.wire[first as int])));
        }
    }
    Ok(())
}

fn as_verbatim(m: &Message) -> (r: Option<Json>)
    ensures
        opt_view(r) == verbatim(m@),
{
    if m.content.len() != 1 {
        return None;
    }
    proof {
        assert(m@.content[0] == m.content@[0]@);
    }
    match &m.content[0] {
        ContentBlock::Opaque { format, value } => {
            if text_is(format, OPENAI_CHAT_COMPLETIONS) {
                match value.get("role") {
                    Some(role) => {
                        if role.as_str().is_some() {
                            return Some(value.copy());
                        }
                    },
                    None => {},
                }
            }
            None
        },
        _ => None,
    }
}

/// Serializes one message.
pub fn build_message(c: Chat, m: &Message, mi: usize, convert: &ConvertOptions) -> (r: Result<Chat, ConversionError>)
    ensures
        match r {
            Ok(d) => chat_step(c@, m@, mi as nat, convert@) == Ok::<ChatV, ConversionErrorV>(d@),
            Err(e) => chat_step(c@, m@, mi as nat, convert@) == Err::<ChatV, ConversionErrorV>(e@),
        },
{
    let mut c = c;
    let ptr = make_wire_ptr(c.wire.len());
    if let Some(value) = as_verbatim(m) {
        let mut value = value;
        c.sink.merge(&m.extra, OPENAI_CHAT_COMPLETIONS, &mut value, ptr.as_str());
        c.wire.push(value);
        c.pointers.push((ptr, m.role));
        return Ok(c);
    }
    match m.role {
        Role::Assistant => {
            let Chat { wire, pointers, sink } = c;
            match build_assistant_message(m, mi, convert.thinking_as_text, ptr.as_str(), sink) {
                Err(e) => Err(e),
                Ok((v, s)) => {
                    let mut d = Chat { wire, pointers, sink: s };
                    d.wire.push(v);
                    d.pointers.push((ptr, Role::Assistant));
                    Ok(d)
                },
            }
        },
        Role::Tool => match build_tool_messages(&mut c, m, mi) {
            Err(e) => Err(e),
            Ok(_) => Ok(c),
        },
        _ => match build_input_message(&mut c, m, mi, convert.downgrade_developer) {
            Err(e) => Err(e),
            Ok(_) => Ok(c),
        },
    }
}

fn build_history(c: Chat, messages: &Vec<Message>, convert: &ConvertOptions) -> (r: Result<Chat, ConversionError>)
    ensures
        match r {
            Ok(d) => chat_steps(c@, views(messages@), convert@, messages@.len()) == Ok::<
                ChatV,
                ConversionErrorV,
            >(d@),
            Err(e) => chat_steps(c@, views(messages@), convert@, messages@.len()) == Err::<
                ChatV,
                ConversionErrorV,
            >(e@),
        },
{
    let ghost c0 = c@;
    let mut d = c;
    let mut i: usize = 0;
    while i < messages.len()
        invariant
            i <= messages@.len(),
            c0 == c@,
            chat_steps(c0, views(messages@), convert@, i as nat) == Ok::<ChatV, ConversionErrorV>(d@),
        decreases messages@.len() - i,
    {
        match build_message(d, &messages[i], i, convert) {
            Ok(next) => {
                d = next;
            },
            Err(e) => {
                proof {
                    chat_steps_error_stays(c0, views(messages@), convert@, i as nat + 1, messages@.len());
                }
                return Err(e);
            },
        }
        i += 1;
    }
    Ok(d)
}

/// Serializes the system prompt and the history.
pub fn build_chat(system: &Option<Vec<ContentBlock>>, messages: &Vec<Message>, convert: &ConvertOptions, sink: Sink) -> (r: Result<Chat, ConversionError>)
    ensures
        match r {
            Ok(d) => chat(opt_views(*system), views(messages@), convert@, sink@) == Ok::<
                ChatV,
                ConversionErrorV,
            >(d@),
            Err(e) => chat(opt_views(*system), views(messages@), convert@, sink@) == Err::<
                ChatV,
                ConversionErrorV,
            >(e@),
        },
{
    let mut c = Chat { wire: Vec::new(), pointers: Vec::new(), sink };
    proof {
        assert(c@.wire =~= Seq::<JsonV>::empty());
        assert(c@.pointers =~= Seq::<(Seq<char>, Role)>::empty());
    }
    if let Some(blocks) = system {
        match build_system_from_request(blocks, &mut c.sink) {
            Ok(v) => {
                c.wire.push(v);
                c.pointers.push(("/messages/0".to_owned(), Role::System));
                proof {
                    assert(c@.wire =~= seq![v@]);
                    assert(c@.pointers =~= seq![("/messages/0"@, Role::System)]);
                }
            },
            Err(e) => {
                return Err(e);
            },
        }
    }
    build_history(c, messages, convert)
}

} // verus!
