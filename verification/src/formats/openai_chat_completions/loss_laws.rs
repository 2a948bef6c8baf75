//! Laws: nothing of a request is dropped without a warning.

use vstd::prelude::*;
use crate::convert::{ConversionWarningV, ConvertOptionsV, WarningCode};
use crate::format::{CallMode, OPENAI_CHAT_COMPLETIONS};
use crate::formats::openai_chat_completions::assistant::{assistant_content, assistant_message, content_parts, lane_losses, lane_message, lane_rank, lane_step, lanes, with_carried, with_extras, LanesV};
use crate::formats::openai_chat_completions::content::{input_content, input_parts, output_parts, tool_content};
use crate::formats::openai_chat_completions::from_ir::{openai_body, reasoning_field, request_fields, sampling_fields, tool_added, tools_upto};
use crate::formats::openai_chat_completions::messages::{chat, chat_step, chat_steps, middle_noted, prepared, system_message, thinking_noted, tool_step, tool_steps, trailing_noted, verbatim, wire_ptr, ChatV};
use crate::history::{lacks_thinking, middle_orphan, repaired};
use crate::history_laws::{asks_to_think, ends_in_a_call, has_middle_orphan, history_losses, is_unanswered, middle_orphans_are_the_unanswered, trailing_calls_are_found, unthinking_is_lacking};
use crate::ir::{enables_thinking, extra_ns, ContentBlockV, ExtraV, MessageV, RequestV, Role, ToolOutputBlockV, ToolV};
use crate::json::{obj_set, JsonV, ObjV};
use crate::loss::{group_loss, has_code, kept};
use crate::sink::{empty_sink, SinkV};

verus! {

broadcast use group_loss;

/// The warnings that a block of a tool result has to raise.
pub open spec fn output_losses(b: ToolOutputBlockV, ws: Seq<ConversionWarningV>) -> bool {
    match b {
        ToolOutputBlockV::Text { cache, .. } => cache is Some ==> has_code(ws, WarningCode::CacheHintDropped),
        ToolOutputBlockV::Image { .. } => has_code(ws, WarningCode::ToolResultImageDropped),
        ToolOutputBlockV::Opaque { format, .. } => format != OPENAI_CHAT_COMPLETIONS@ ==> has_code(
            ws,
            WarningCode::OpaqueDropped,
        ),
    }
}

/// No provider but this one has left anything with the block.
pub open spec fn is_native(extra: ExtraV) -> bool {
    extra_ns(extra, OPENAI_CHAT_COMPLETIONS@).len() > 0 || forall|i: int|
        0 <= i < extra.len() ==> (#[trigger] extra[i]).1.len() == 0
}

/// The warnings that a block of a message has to raise, since this format has
/// no place for what it says.
pub open spec fn losses_of(role: Role, b: ContentBlockV, as_text: bool, ws: Seq<ConversionWarningV>) -> bool {
    match b {
        ContentBlockV::Opaque { format, .. } => format != OPENAI_CHAT_COMPLETIONS@ ==> has_code(
            ws,
            WarningCode::OpaqueDropped,
        ),
        ContentBlockV::Text { cache, .. } => if role == Role::Assistant {
            cache is Some ==> has_code(ws, WarningCode::CacheHintDropped)
        } else {
            cache is Some && cache->0.ttl is Some ==> has_code(ws, WarningCode::CacheTtlDropped)
        },
        ContentBlockV::Image { source, cache, .. } => {
            &&& role == Role::Assistant || source is FileId ==> has_code(ws, WarningCode::ImageSourceUnsupported)
            &&& role != Role::Assistant && !(source is FileId) && cache is Some && cache->0.ttl is Some ==> has_code(
                ws,
                WarningCode::CacheTtlDropped,
            )
        },
        ContentBlockV::Thinking { text, signature, extra } => {
            let dropped = !is_native(extra) && !(as_text && text is Some);
            &&& dropped ==> has_code(ws, WarningCode::ThinkingDropped)
            &&& !dropped && signature is Some ==> has_code(ws, WarningCode::ThinkingSignatureDropped)
        },
        ContentBlockV::ToolCall { cache, .. } => cache is Some ==> has_code(ws, WarningCode::CacheHintDropped),
        ContentBlockV::ToolResult { content, is_error, cache, .. } => {
            &&& is_error == Some(true) ==> has_code(ws, WarningCode::IsErrorDropped)
            &&& cache is Some ==> has_code(ws, WarningCode::CacheHintDropped)
            &&& forall|i: int| 0 <= i < content.len() ==> output_losses(#[trigger] content[i], ws)
        },
    }
}

proof fn losses_stay(role: Role, b: ContentBlockV, as_text: bool, x: Seq<ConversionWarningV>, y: Seq<ConversionWarningV>)
    requires
        losses_of(role, b, as_text, x),
        kept(x, y),
    ensures
        losses_of(role, b, as_text, y),
{
    if let ContentBlockV::ToolResult { content, .. } = b {
        assert forall|i: int| 0 <= i < content.len() implies output_losses(#[trigger] content[i], y) by {
            assert(output_losses(content[i], x));
        }
    }
}

spec fn blocks_reported(
    role: Role,
    blocks: Seq<ContentBlockV>,
    as_text: bool,
    ws: Seq<ConversionWarningV>,
    n: nat,
) -> bool {
    forall|i: int| 0 <= i < n ==> losses_of(role, #[trigger] blocks[i], as_text, ws)
}

proof fn blocks_reported_stay(
    role: Role,
    blocks: Seq<ContentBlockV>,
    as_text: bool,
    x: Seq<ConversionWarningV>,
    y: Seq<ConversionWarningV>,
    n: nat,
)
    requires
        blocks_reported(role, blocks, as_text, x, n),
        kept(x, y),
    ensures
        blocks_reported(role, blocks, as_text, y, n),
{
    assert forall|i: int| 0 <= i < n implies losses_of(role, #[trigger] blocks[i], as_text, y) by {
        losses_stay(role, blocks[i], as_text, x, y);
    }
}

proof fn inputs_are_reported(
    role: Role,
    blocks: Seq<ContentBlockV>,
    ptr: Seq<char>,
    system: bool,
    s: SinkV,
    as_text: bool,
    n: nat,
)
    requires
        n <= blocks.len(),
        role != Role::Assistant,
        input_parts(blocks, ptr, system, s, n) is Ok,
    ensures
        kept(s.warnings, input_parts(blocks, ptr, system, s, n)->Ok_0.1.warnings),
        blocks_reported(role, blocks, as_text, input_parts(blocks, ptr, system, s, n)->Ok_0.1.warnings, n),
    decreases n,
{
    if n > 0 {
        let q = (n - 1) as nat;
        inputs_are_reported(role, blocks, ptr, system, s, as_text, q);
        let a = input_parts(blocks, ptr, system, s, q)->Ok_0;
        let b = input_parts(blocks, ptr, system, s, n)->Ok_0;
        assert(kept(a.1.warnings, b.1.warnings));
        blocks_reported_stay(role, blocks, as_text, a.1.warnings, b.1.warnings, q);
        assert(losses_of(role, blocks[q as int], as_text, b.1.warnings));
    }
}

proof fn input_is_reported(
    role: Role,
    blocks: Seq<ContentBlockV>,
    ptr: Seq<char>,
    system: bool,
    s: SinkV,
    as_text: bool,
)
    requires
        role != Role::Assistant,
        input_content(blocks, ptr, system, s) is Ok,
    ensures
        kept(s.warnings, input_content(blocks, ptr, system, s)->Ok_0.1.warnings),
        blocks_reported(
            role,
            blocks,
            as_text,
            input_content(blocks, ptr, system, s)->Ok_0.1.warnings,
            blocks.len(),
        ),
{
    if input_parts(blocks, ptr, system, s, blocks.len()) is Ok {
        inputs_are_reported(role, blocks, ptr, system, s, as_text, blocks.len());
    }
}

proof fn outputs_are_reported(blocks: Seq<ToolOutputBlockV>, ptr: Seq<char>, s: SinkV, n: nat)
    requires
        n <= blocks.len(),
    ensures
        kept(s.warnings, output_parts(blocks, ptr, s, n).1.warnings),
        forall|i: int| 0 <= i < n ==> output_losses(#[trigger] blocks[i], output_parts(blocks, ptr, s, n).1.warnings),
    decreases n,
{
    if n > 0 {
        let q = (n - 1) as nat;
        outputs_are_reported(blocks, ptr, s, q);
        let a = output_parts(blocks, ptr, s, q).1.warnings;
        let b = output_parts(blocks, ptr, s, n).1.warnings;
        assert(kept(a, b));
        assert forall|i: int| 0 <= i < n implies output_losses(#[trigger] blocks[i], b) by {
            if i < q {
                assert(output_losses(blocks[i], a));
            }
        }
    }
}

proof fn output_is_reported(blocks: Seq<ToolOutputBlockV>, ptr: Seq<char>, s: SinkV)
    ensures
        kept(s.warnings, tool_content(blocks, ptr, s).1.warnings),
        forall|i: int| 0 <= i < blocks.len() ==> output_losses(#[trigger] blocks[i], tool_content(blocks, ptr, s).1.warnings),
{
    outputs_are_reported(blocks, ptr, s, blocks.len());
}

proof fn result_is_reported(c: ChatV, b: ContentBlockV, mi: nat, bi: nat, as_text: bool)
    requires
        tool_step(c, b, mi, bi) is Ok,
    ensures
        kept(c.sink.warnings, tool_step(c, b, mi, bi)->Ok_0.sink.warnings),
        losses_of(Role::Tool, b, as_text, tool_step(c, b, mi, bi)->Ok_0.sink.warnings),
{
    if let ContentBlockV::ToolResult { content, .. } = b {
        let ws = tool_step(c, b, mi, bi)->Ok_0.sink.warnings;
        assert forall|ptr: Seq<char>, s: SinkV| kept(s.warnings, (#[trigger] tool_content(content, ptr, s)).1.warnings) by {
            output_is_reported(content, ptr, s);
        }
        assert forall|ptr: Seq<char>, s: SinkV, i: int| 0 <= i < content.len() implies output_losses(
            #[trigger] content[i],
            (#[trigger] tool_content(content, ptr, s)).1.warnings,
        ) by {
            output_is_reported(content, ptr, s);
        }
    }
}

proof fn results_are_reported(c: ChatV, m: MessageV, mi: nat, as_text: bool, n: nat)
    requires
        n <= m.content.len(),
        tool_steps(c, m, mi, n) is Ok,
    ensures
        kept(c.sink.warnings, tool_steps(c, m, mi, n)->Ok_0.sink.warnings),
        blocks_reported(Role::Tool, m.content, as_text, tool_steps(c, m, mi, n)->Ok_0.sink.warnings, n),
    decreases n,
{
    if n > 0 {
        let q = (n - 1) as nat;
        results_are_reported(c, m, mi, as_text, q);
        let a = tool_steps(c, m, mi, q)->Ok_0;
        let ws = tool_steps(c, m, mi, n)->Ok_0.sink.warnings;
        result_is_reported(a, m.content[q as int], mi, q, as_text);
        blocks_reported_stay(Role::Tool, m.content, as_text, a.sink.warnings, ws, q);
    }
}

/// Thinking whose text goes out.
pub open spec fn kept_thinking(b: ContentBlockV, as_text: bool) -> bool {
    match b {
        ContentBlockV::Thinking { text, extra, .. } => text is Some && (is_native(extra) || as_text),
        _ => false,
    }
}

/// The place of a block in the order in which this format keeps blocks:
/// thinking, then text, then calls.
pub open spec fn place_of(b: ContentBlockV, as_text: bool) -> Option<int> {
    match b {
        ContentBlockV::Thinking { .. } => if kept_thinking(b, as_text) { Some(0) } else { None },
        ContentBlockV::Text { .. } => Some(1),
        ContentBlockV::ToolCall { .. } => Some(2),
        _ => None,
    }
}

spec fn holds(blocks: Seq<ContentBlockV>, b: ContentBlockV) -> bool {
    exists|k: int| 0 <= k < blocks.len() && #[trigger] blocks[k] == b
}

spec fn laned(l: LanesV, m: MessageV, as_text: bool, n: nat) -> bool {
    &&& forall|i: int|
        0 <= i < n ==> if (#[trigger] m.content[i]) is Text || m.content[i] is Opaque {
            holds(l.content, m.content[i])
        } else {
            losses_of(Role::Assistant, m.content[i], as_text, l.sink.warnings)
        }
    &&& forall|k: int| 0 <= k < l.content.len() ==> (#[trigger] l.content[k]) is Text || l.content[k] is Opaque
    &&& forall|i: int|
        0 <= i < n && place_of(#[trigger] m.content[i], as_text) is Some ==> place_of(m.content[i], as_text)->0
            <= lane_rank(l.furthest)
    &&& forall|i: int, j: int|
        0 <= i < j < n && place_of(#[trigger] m.content[i], as_text) is Some && place_of(
            #[trigger] m.content[j],
            as_text,
        ) is Some && place_of(m.content[i], as_text)->0 > place_of(m.content[j], as_text)->0 ==> l.order_lost
    &&& forall|i: int| 0 <= i < n && kept_thinking(#[trigger] m.content[i], as_text) ==> l.thinking.len() >= 1
    &&& forall|i: int, j: int|
        0 <= i < j < n && kept_thinking(#[trigger] m.content[i], as_text) && kept_thinking(
            #[trigger] m.content[j],
            as_text,
        ) ==> l.thinking.len() >= 2
}

#[verifier::rlimit(40)]
proof fn lanes_report(m: MessageV, mi: nat, as_text: bool, ptr: Seq<char>, s: SinkV, n: nat)
    requires
        n <= m.content.len(),
        lanes(m, mi, as_text, ptr, s, n) is Ok,
    ensures
        kept(s.warnings, lanes(m, mi, as_text, ptr, s, n)->Ok_0.sink.warnings),
        laned(lanes(m, mi, as_text, ptr, s, n)->Ok_0, m, as_text, n),
    decreases n,
{
    if n > 0 {
        let q = (n - 1) as nat;
        lanes_report(m, mi, as_text, ptr, s, q);
        let a = lanes(m, mi, as_text, ptr, s, q)->Ok_0;
        let b = lanes(m, mi, as_text, ptr, s, n)->Ok_0;
        let x = m.content[q as int];
        lane_reports(a, x, mi, q, as_text, ptr);
        assert forall|i: int| 0 <= i < n implies if (#[trigger] m.content[i]) is Text || m.content[i] is Opaque {
            holds(b.content, m.content[i])
        } else {
            losses_of(Role::Assistant, m.content[i], as_text, b.sink.warnings)
        } by {
            if i < q {
                if m.content[i] is Text || m.content[i] is Opaque {
                    let k = choose|k: int| 0 <= k < a.content.len() && #[trigger] a.content[k] == m.content[i];
                    assert(b.content[k] == m.content[i]);
                } else {
                    losses_stay(Role::Assistant, m.content[i], as_text, a.sink.warnings, b.sink.warnings);
                }
            }
        }
    }
}

proof fn lane_reports(a: LanesV, x: ContentBlockV, mi: nat, bi: nat, as_text: bool, ptr: Seq<char>)
    requires
        lane_step(a, x, mi, bi, as_text, ptr) is Ok,
    ensures
        ({
            let b = lane_step(a, x, mi, bi, as_text, ptr)->Ok_0;
            &&& kept(a.sink.warnings, b.sink.warnings)
            &&& b.content == (if x is Text || x is Opaque { a.content.push(x) } else { a.content })
            &&& x is Text || x is Opaque ==> holds(b.content, x)
            &&& !(x is Text || x is Opaque) ==> losses_of(Role::Assistant, x, as_text, b.sink.warnings)
            &&& lane_rank(b.furthest) >= lane_rank(a.furthest)
            &&& a.order_lost ==> b.order_lost
            &&& place_of(x, as_text) is Some ==> place_of(x, as_text)->0 <= lane_rank(b.furthest)
            &&& place_of(x, as_text) is Some && place_of(x, as_text)->0 < lane_rank(a.furthest) ==> b.order_lost
            &&& b.thinking.len() == a.thinking.len() + (if kept_thinking(x, as_text) { 1int } else { 0int })
        }),
{
    let b = lane_step(a, x, mi, bi, as_text, ptr)->Ok_0;
    if x is Text || x is Opaque {
        assert(b.content[a.content.len() as int] == x);
    }
}

proof fn parts_are_reported(blocks: Seq<ContentBlockV>, ptr: Seq<char>, s: SinkV, as_text: bool, n: nat)
    requires
        n <= blocks.len(),
        forall|k: int| 0 <= k < blocks.len() ==> (#[trigger] blocks[k]) is Text || blocks[k] is Opaque,
    ensures
        kept(s.warnings, content_parts(blocks, ptr, s, n).1.warnings),
        blocks_reported(Role::Assistant, blocks, as_text, content_parts(blocks, ptr, s, n).1.warnings, n),
    decreases n,
{
    if n > 0 {
        let q = (n - 1) as nat;
        parts_are_reported(blocks, ptr, s, as_text, q);
        let a = content_parts(blocks, ptr, s, q).1.warnings;
        let b = content_parts(blocks, ptr, s, n).1.warnings;
        assert(kept(a, b));
        blocks_reported_stay(Role::Assistant, blocks, as_text, a, b, q);
    }
}

proof fn extras_raise_nothing(v: JsonV, s: SinkV, extras: Seq<ExtraV>, ptr: Seq<char>, n: nat)
    ensures
        with_extras(v, s, extras, ptr, n).1.warnings == s.warnings,
    decreases n,
{
    if n > 0 && n <= extras.len() {
        extras_raise_nothing(v, s, extras, ptr, (n - 1) as nat);
    }
}

proof fn carrying_raises_nothing(v: JsonV, s: SinkV, blocks: Seq<ContentBlockV>, ptr: Seq<char>, n: nat)
    ensures
        with_carried(v, s, blocks, ptr, n).1.warnings == s.warnings,
    decreases n,
{
    if n > 0 && n <= blocks.len() {
        carrying_raises_nothing(v, s, blocks, ptr, (n - 1) as nat);
    }
}

/// The warnings that a message has to raise.
pub open spec fn message_losses(m: MessageV, as_text: bool, downgrade: bool, ws: Seq<ConversionWarningV>) -> bool {
    &&& forall|i: int| 0 <= i < m.content.len() ==> losses_of(m.role, #[trigger] m.content[i], as_text, ws)
    &&& m.role == Role::Developer && downgrade && verbatim(m) is None ==> has_code(ws, WarningCode::RoleDowngraded)
    &&& m.role == Role::Assistant ==> {
        &&& forall|i: int, j: int|
            0 <= i < j < m.content.len() && place_of(#[trigger] m.content[i], as_text) is Some && place_of(
                #[trigger] m.content[j],
                as_text,
            ) is Some && place_of(m.content[i], as_text)->0 > place_of(m.content[j], as_text)->0 ==> has_code(
                ws,
                WarningCode::BlockOrderLost,
            )
        &&& forall|i: int, j: int|
            0 <= i < j < m.content.len() && kept_thinking(#[trigger] m.content[i], as_text) && kept_thinking(
                #[trigger] m.content[j],
                as_text,
            ) ==> has_code(ws, WarningCode::ThinkingBlocksJoined)
    }
}

proof fn message_losses_stay(
    m: MessageV,
    as_text: bool,
    downgrade: bool,
    x: Seq<ConversionWarningV>,
    y: Seq<ConversionWarningV>,
)
    requires
        message_losses(m, as_text, downgrade, x),
        kept(x, y),
    ensures
        message_losses(m, as_text, downgrade, y),
{
    blocks_reported_stay(m.role, m.content, as_text, x, y, m.content.len());
}

proof fn assistant_is_reported(m: MessageV, mi: nat, as_text: bool, downgrade: bool, ptr: Seq<char>, s: SinkV)
    requires
        m.role == Role::Assistant,
        assistant_message(m, mi, as_text, ptr, s) is Ok,
    ensures
        kept(s.warnings, assistant_message(m, mi, as_text, ptr, s)->Ok_0.1.warnings),
        message_losses(m, as_text, downgrade, assistant_message(m, mi, as_text, ptr, s)->Ok_0.1.warnings),
{
    let n = m.content.len();
    lanes_report(m, mi, as_text, ptr, s, n);
    let l = lanes(m, mi, as_text, ptr, s, n)->Ok_0;
    let s0 = lane_losses(l, ptr);
    assert(kept(l.sink.warnings, s0.warnings));
    let (content, s1) = assistant_content(l.content, ptr, s0);
    parts_are_reported(l.content, ptr, s0, as_text, l.content.len());
    assert(kept(s0.warnings, s1.warnings));
    assert(blocks_reported(Role::Assistant, l.content, as_text, s1.warnings, l.content.len()));
    let (v2, s2) = with_extras(lane_message(l, content), s1, l.extras, ptr, l.extras.len());
    extras_raise_nothing(lane_message(l, content), s1, l.extras, ptr, l.extras.len());
    carrying_raises_nothing(v2, s2, l.content, ptr, l.content.len());
    let ws = assistant_message(m, mi, as_text, ptr, s)->Ok_0.1.warnings;
    assert(ws == s1.warnings);
    assert forall|i: int| 0 <= i < n implies losses_of(m.role, #[trigger] m.content[i], as_text, ws) by {
        if m.content[i] is Text || m.content[i] is Opaque {
            let k = choose|k: int| 0 <= k < l.content.len() && #[trigger] l.content[k] == m.content[i];
            assert(losses_of(Role::Assistant, l.content[k], as_text, s1.warnings));
        } else {
            losses_stay(Role::Assistant, m.content[i], as_text, l.sink.warnings, ws);
        }
    }
}

proof fn message_is_reported(c: ChatV, m: MessageV, mi: nat, conv: ConvertOptionsV)
    requires
        chat_step(c, m, mi, conv) is Ok,
    ensures
        kept(c.sink.warnings, chat_step(c, m, mi, conv)->Ok_0.sink.warnings),
        message_losses(
            m,
            conv.thinking_as_text,
            conv.downgrade_developer,
            chat_step(c, m, mi, conv)->Ok_0.sink.warnings,
        ),
{
    let as_text = conv.thinking_as_text;
    let ptr = wire_ptr(c.wire.len());
    let ws = chat_step(c, m, mi, conv)->Ok_0.sink.warnings;
    if verbatim(m) is None {
        if m.role == Role::Assistant {
            assistant_is_reported(m, mi, as_text, conv.downgrade_developer, ptr, c.sink);
        } else if m.role == Role::Tool {
            results_are_reported(c, m, mi, as_text, m.content.len());
        } else {
            let system = m.role == Role::System || m.role == Role::Developer;
            assert forall|s: SinkV| (#[trigger] input_content(m.content, ptr, system, s)) is Ok implies kept(
                s.warnings,
                input_content(m.content, ptr, system, s)->Ok_0.1.warnings,
            ) && blocks_reported(
                m.role,
                m.content,
                as_text,
                input_content(m.content, ptr, system, s)->Ok_0.1.warnings,
                m.content.len(),
            ) by {
                input_is_reported(m.role, m.content, ptr, system, s, as_text);
            }
        }
    }
}

proof fn messages_are_reported(c: ChatV, msgs: Seq<MessageV>, conv: ConvertOptionsV, n: nat)
    requires
        n <= msgs.len(),
        chat_steps(c, msgs, conv, n) is Ok,
    ensures
        kept(c.sink.warnings, chat_steps(c, msgs, conv, n)->Ok_0.sink.warnings),
        forall|i: int|
            0 <= i < n ==> message_losses(
                #[trigger] msgs[i],
                conv.thinking_as_text,
                conv.downgrade_developer,
                chat_steps(c, msgs, conv, n)->Ok_0.sink.warnings,
            ),
    decreases n,
{
    if n > 0 {
        let q = (n - 1) as nat;
        messages_are_reported(c, msgs, conv, q);
        let a = chat_steps(c, msgs, conv, q)->Ok_0;
        message_is_reported(a, msgs[q as int], q, conv);
        let ws = chat_steps(c, msgs, conv, n)->Ok_0.sink.warnings;
        assert forall|i: int| 0 <= i < n implies message_losses(
            #[trigger] msgs[i],
            conv.thinking_as_text,
            conv.downgrade_developer,
            ws,
        ) by {
            if i < q {
                message_losses_stay(msgs[i], conv.thinking_as_text, conv.downgrade_developer, a.sink.warnings, ws);
            }
        }
    }
}

/// The warnings that a tool has to raise.
pub open spec fn tool_losses(t: ToolV, ws: Seq<ConversionWarningV>) -> bool {
    match t {
        ToolV::Function(f) => f.cache is Some ==> has_code(ws, WarningCode::CacheHintDropped),
        ToolV::Opaque { format, .. } => format != OPENAI_CHAT_COMPLETIONS@ ==> has_code(ws, WarningCode::OpaqueDropped),
    }
}

proof fn tools_are_reported(tools: Seq<ToolV>, s: SinkV, n: nat)
    requires
        n <= tools.len(),
    ensures
        kept(s.warnings, tools_upto(tools, s, n).1.warnings),
        forall|i: int| 0 <= i < n ==> tool_losses(#[trigger] tools[i], tools_upto(tools, s, n).1.warnings),
    decreases n,
{
    if n > 0 {
        let q = (n - 1) as nat;
        tools_are_reported(tools, s, q);
        let a = tools_upto(tools, s, q);
        let b = tools_upto(tools, s, n);
        assert(b == tool_added(a, tools[q as int]));
        assert(kept(a.1.warnings, b.1.warnings));
        assert forall|i: int| 0 <= i < n implies tool_losses(#[trigger] tools[i], b.1.warnings) by {
            if i < q {
                assert(tool_losses(tools[i], a.1.warnings));
            }
        }
    }
}

/// The warnings that the settings of a request have to raise.
pub open spec fn setting_losses(req: RequestV, ws: Seq<ConversionWarningV>) -> bool {
    &&& req.top_k is Some ==> has_code(ws, WarningCode::SamplingParameterDropped)
    &&& match req.tools {
        Some(tools) => forall|i: int| 0 <= i < tools.len() ==> tool_losses(#[trigger] tools[i], ws),
        None => true,
    }
    &&& req.parallel_tool_calls is Some && (req.tools is None || req.tools->0.len() == 0) ==> has_code(
        ws,
        WarningCode::ParallelToolCallsIgnored,
    )
    &&& match req.reasoning {
        Some(r) => {
            &&& r.effort is Some && r.enabled is Some && r.enabled->0 == (r.effort->0 is Disabled) ==> has_code(
                ws,
                WarningCode::ReasoningConflict,
            )
            &&& r.include_thoughts is Some ==> has_code(ws, WarningCode::IncludeThoughtsUnsupported)
            &&& extra_ns(r.extra, OPENAI_CHAT_COMPLETIONS@).len() > 0 ==> has_code(ws, WarningCode::ExtraDropped)
        },
        None => true,
    }
}

proof fn settings_are_reported(req: RequestV, mode: CallMode, usage: bool, body: ObjV, s: SinkV)
    ensures
        kept(s.warnings, request_fields(req, mode, usage, body, s).1.warnings),
        setting_losses(req, request_fields(req, mode, usage, body, s).1.warnings),
{
    let s1 = sampling_fields(req, body, s).1;
    assert(kept(s.warnings, s1.warnings));
    let out = request_fields(req, mode, usage, body, s).1;
    if let Some(r) = req.reasoning {
        assert forall|b: ObjV| kept(s1.warnings, (#[trigger] reasoning_field(r, b, s1)).1.warnings) by {}
    }
    if let Some(tools) = req.tools {
        assert forall|t: SinkV| kept(t.warnings, (#[trigger] tools_upto(tools, t, tools.len())).1.warnings) by {
            tools_are_reported(tools, t, tools.len());
        }
        assert forall|t: SinkV, i: int| 0 <= i < tools.len() implies tool_losses(
            #[trigger] tools[i],
            (#[trigger] tools_upto(tools, t, tools.len())).1.warnings,
        ) by {
            tools_are_reported(tools, t, tools.len());
        }
    }
}

/// Whatever of a request this format has no place for is reported: foreign
/// blocks and tools, thinking of other providers and signatures, cache hints,
/// images, error markers of tool results, the order of an assistant's blocks,
/// message roles, and settings. A body without warnings has lost none of them.
pub proof fn nothing_is_dropped_silently(
    req: RequestV,
    model: Option<Seq<char>>,
    mode: CallMode,
    conv: ConvertOptionsV,
    usage: bool,
)
    requires
        openai_body(req, model, mode, conv, usage) is Ok,
    ensures
        ({
            let msgs = prepared(req, conv, empty_sink()).0;
            let ws = openai_body(req, model, mode, conv, usage)->Ok_0.warnings;
            &&& setting_losses(req, ws)
            &&& forall|i: int|
                0 <= i < msgs.len() ==> message_losses(
                    #[trigger] msgs[i],
                    conv.thinking_as_text,
                    conv.downgrade_developer,
                    ws,
                )
            &&& match req.system {
                Some(blocks) => forall|i: int|
                    0 <= i < blocks.len() ==> losses_of(Role::System, #[trigger] blocks[i], conv.thinking_as_text, ws),
                None => true,
            }
        }),
{
    let (msgs, s0) = prepared(req, conv, empty_sink());
    let as_text = conv.thinking_as_text;
    let c0 = match req.system {
        None => ChatV { wire: Seq::empty(), pointers: Seq::empty(), sink: s0 },
        Some(blocks) => {
            let (v, s1) = system_message(blocks, s0)->Ok_0;
            ChatV { wire: seq![v], pointers: seq![("/messages/0"@, Role::System)], sink: s1 }
        },
    };
    messages_are_reported(c0, msgs, conv, msgs.len());
    let c = chat(req.system, msgs, conv, s0)->Ok_0;
    let b0 = Seq::<(Seq<char>, JsonV)>::empty();
    let b1 = if model is Some && model->0.len() > 0 { obj_set(b0, "model"@, JsonV::Str(model->0)) } else { b0 };
    let b2 = obj_set(b1, "messages"@, JsonV::Array(c.wire));
    settings_are_reported(req, mode, usage, b2, c.sink);
    let ws = openai_body(req, model, mode, conv, usage)->Ok_0.warnings;
    assert(kept(c.sink.warnings, ws));
    assert forall|i: int| 0 <= i < msgs.len() implies message_losses(
        #[trigger] msgs[i],
        as_text,
        conv.downgrade_developer,
        ws,
    ) by {
        message_losses_stay(msgs[i], as_text, conv.downgrade_developer, c.sink.warnings, ws);
    }
    if let Some(blocks) = req.system {
        input_is_reported(Role::System, blocks, "/messages/0"@, true, s0, as_text);
        blocks_reported_stay(Role::System, blocks, as_text, c0.sink.warnings, ws, blocks.len());
    }
}

proof fn middle_is_reported(s: SinkV, msgs: Seq<MessageV>, n: nat)
    requires
        n <= msgs.len(),
    ensures
        kept(s.warnings, middle_noted(s, msgs, n).warnings),
        (exists|i: int| 0 <= i < n && #[trigger] middle_orphan(msgs, i)) ==> has_code(
            middle_noted(s, msgs, n).warnings,
            WarningCode::OrphanToolCalls,
        ),
    decreases n,
{
    if n > 0 {
        middle_is_reported(s, msgs, (n - 1) as nat);
        let a = middle_noted(s, msgs, (n - 1) as nat).warnings;
        let b = middle_noted(s, msgs, n).warnings;
        assert(kept(a, b));
    }
}

proof fn thinking_is_reported(s: SinkV, msgs: Seq<MessageV>, fill: bool, n: nat)
    requires
        n <= msgs.len(),
    ensures
        kept(s.warnings, thinking_noted(s, msgs, fill, n).warnings),
        (exists|i: int| 0 <= i < n && #[trigger] lacks_thinking(msgs[i])) ==> has_code(
            thinking_noted(s, msgs, fill, n).warnings,
            if fill { WarningCode::MissingThinkingFilled } else { WarningCode::MissingThinkingWithToolCalls },
        ),
    decreases n,
{
    if n > 0 {
        thinking_is_reported(s, msgs, fill, (n - 1) as nat);
        let a = thinking_noted(s, msgs, fill, (n - 1) as nat).warnings;
        let b = thinking_noted(s, msgs, fill, n).warnings;
        assert(kept(a, b));
    }
}

/// Problems of the history are reported with the body: calls that have no
/// result, and calls without thinking where the request asks for it.
pub proof fn history_problems_are_reported(
    req: RequestV,
    model: Option<Seq<char>>,
    mode: CallMode,
    conv: ConvertOptionsV,
    usage: bool,
)
    requires
        openai_body(req, model, mode, conv, usage) is Ok,
    ensures
        history_losses(
            req.messages,
            conv.orphan_tool_calls,
            asks_to_think(req.reasoning),
            conv.fill_missing_thinking is Some,
            openai_body(req, model, mode, conv, usage)->Ok_0.warnings,
        ),
{
    let old = req.messages;
    let policy = conv.orphan_tool_calls;
    let (msgs, s0) = prepared(req, conv, empty_sink());
    let m1 = repaired(old, policy);
    let a = middle_noted(empty_sink(), old, old.len());
    let b = trailing_noted(a, old, policy);
    middle_is_reported(empty_sink(), old, old.len());
    assert(kept(a.warnings, b.warnings));
    thinking_is_reported(b, m1, conv.fill_missing_thinking is Some, m1.len());
    assert(kept(b.warnings, s0.warnings));
    unthinking_is_lacking(m1);
    assert(asks_to_think(req.reasoning) == enables_thinking(req.reasoning));
    if has_middle_orphan(old) {
        let (i, k) = choose|i: int, k: int|
            0 <= i < old.len() - 1 && 0 <= k < old[i].content.len() && old[i].role == Role::Assistant
                && #[trigger] is_unanswered(old, i, k);
        middle_orphans_are_the_unanswered(old, i);
        assert(middle_orphan(old, i));
    }
    if ends_in_a_call(old) {
        trailing_calls_are_found(old);
    }
    let c0 = match req.system {
        None => ChatV { wire: Seq::empty(), pointers: Seq::empty(), sink: s0 },
        Some(blocks) => {
            let (v, s1) = system_message(blocks, s0)->Ok_0;
            input_is_reported(Role::System, blocks, "/messages/0"@, true, s0, conv.thinking_as_text);
            ChatV { wire: seq![v], pointers: seq![("/messages/0"@, Role::System)], sink: s1 }
        },
    };
    assert(kept(s0.warnings, c0.sink.warnings));
    messages_are_reported(c0, msgs, conv, msgs.len());
    let c = chat(req.system, msgs, conv, s0)->Ok_0;
    let b0 = Seq::<(Seq<char>, JsonV)>::empty();
    let b1 = if model is Some && model->0.len() > 0 { obj_set(b0, "model"@, JsonV::Str(model->0)) } else { b0 };
    let b2 = obj_set(b1, "messages"@, JsonV::Array(c.wire));
    settings_are_reported(req, mode, usage, b2, c.sink);
    let ws = openai_body(req, model, mode, conv, usage)->Ok_0.warnings;
    assert(kept(s0.warnings, ws));
}

} // verus!
