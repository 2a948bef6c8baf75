//! Laws: nothing of a request is dropped without a warning.

use vstd::prelude::*;
use crate::formats::google_generate_content::result_name_laws::lead_is_counted;
use crate::convert::{ConversionWarningV, ConvertOptionsV, WarningCode};
use crate::format::GOOGLE_GENERATE_CONTENT;
use crate::formats::anthropic_messages::system::relocated;
use crate::formats::google_generate_content::from_ir::{deferred, downgraded, generation_config, google_body, google_fields, google_orphan_texts, google_prepared, leading_system, lost_fields, new_turn, output_config, parallel_note, parts_of, prompt_parts, sampling_config, side_of, system_instruction, system_merged, system_message, system_messages, thinking_fields, tool_added, tool_entries, tools_field, turn_step, turns, turns_start, TurnsV};
use crate::formats::google_generate_content::parts::{block_cache, hint_dropped, message_parts, part_step, result_blocks, PartsV};
use crate::history::PendingV;
use crate::history_laws::{asks_to_think, history_losses, notes_become_warnings, notes_tell_the_problems};
use crate::ir::{enables_thinking, extra_get, ContentBlockV, MessageV, OutputFormatV, RequestV, Role, ToolOutputBlockV, ToolV};
use crate::json::{obj_set, object1, JsonV, ObjV};
use crate::loss::{group_loss, has_code, kept, moved_warnings_stay};
use crate::sink::{empty_sink, SinkV};
use crate::text::decimal;

verus! {

broadcast use group_loss;

/// The block has a cache hint.
pub open spec fn has_hint(b: ContentBlockV) -> bool {
    match b {
        ContentBlockV::Text { cache, .. } => cache is Some,
        ContentBlockV::Image { cache, .. } => cache is Some,
        ContentBlockV::ToolCall { cache, .. } => cache is Some,
        ContentBlockV::ToolResult { cache, .. } => cache is Some,
        _ => false,
    }
}

/// The warnings that a block has to raise, since this format has no place for
/// what it says.
pub open spec fn losses_of(b: ContentBlockV, as_text: bool, ws: Seq<ConversionWarningV>) -> bool {
    &&& has_hint(b) ==> has_code(ws, WarningCode::CacheHintDropped)
    &&& match b {
        ContentBlockV::Opaque { format, .. } => format != GOOGLE_GENERATE_CONTENT@ ==> has_code(
            ws,
            WarningCode::OpaqueDropped,
        ),
        ContentBlockV::Image { source, .. } => source is Url ==> has_code(ws, WarningCode::ImageUrlAsFileUri),
        ContentBlockV::Thinking { text, signature, extra } => {
            let native = extra_get(extra, GOOGLE_GENERATE_CONTENT@) is Some || (signature is Some && extra.len() == 0);
            &&& !native && !(as_text && text is Some) ==> has_code(ws, WarningCode::ThinkingDropped)
            &&& !native && as_text && text is Some && signature is Some ==> has_code(
                ws,
                WarningCode::ThinkingSignatureDropped,
            )
        },
        ContentBlockV::ToolResult { content, .. } => forall|i: int|
            0 <= i < content.len() ==> output_losses(#[trigger] content[i], ws),
        _ => true,
    }
}

/// The warnings that a block of a tool result has to raise.
pub open spec fn output_losses(b: ToolOutputBlockV, ws: Seq<ConversionWarningV>) -> bool {
    match b {
        ToolOutputBlockV::Text { cache, .. } => cache is Some ==> has_code(ws, WarningCode::CacheHintDropped),
        ToolOutputBlockV::Image { source, cache, .. } => (cache is Some ==> has_code(ws, WarningCode::CacheHintDropped))
            && (!(source is Base64) ==> has_code(ws, WarningCode::ToolResultImageDropped)),
        ToolOutputBlockV::Opaque { format, .. } => format != GOOGLE_GENERATE_CONTENT@ ==> has_code(
            ws,
            WarningCode::OpaqueDropped,
        ),
    }
}

proof fn losses_stay(b: ContentBlockV, as_text: bool, x: Seq<ConversionWarningV>, y: Seq<ConversionWarningV>)
    requires
        losses_of(b, as_text, x),
        kept(x, y),
    ensures
        losses_of(b, as_text, y),
{
    if let ContentBlockV::ToolResult { content, .. } = b {
        assert forall|i: int| 0 <= i < content.len() implies output_losses(#[trigger] content[i], y) by {
            assert(output_losses(content[i], x));
        }
    }
}

proof fn outputs_are_reported(blocks: Seq<ToolOutputBlockV>, ptr: Seq<char>, s: SinkV, n: nat)
    requires
        n <= blocks.len(),
    ensures
        kept(s.warnings, result_blocks(blocks, ptr, s, n).sink.warnings),
        forall|i: int|
            0 <= i < n ==> output_losses(#[trigger] blocks[i], result_blocks(blocks, ptr, s, n).sink.warnings),
    decreases n,
{
    if n > 0 {
        let q = (n - 1) as nat;
        outputs_are_reported(blocks, ptr, s, q);
        let a = result_blocks(blocks, ptr, s, q).sink.warnings;
        let b = result_blocks(blocks, ptr, s, n).sink.warnings;
        assert(kept(a, b));
        assert forall|i: int| 0 <= i < n implies output_losses(#[trigger] blocks[i], b) by {
            if i < q {
                assert(output_losses(blocks[i], a));
            }
        }
    }
}

proof fn block_is_reported(p: PartsV, b: ContentBlockV, ptr: Seq<char>, as_text: bool)
    requires
        part_step(p, b, ptr, as_text) is Ok,
    ensures
        kept(p.sink.warnings, part_step(p, b, ptr, as_text)->Ok_0.sink.warnings),
        losses_of(b, as_text, part_step(p, b, ptr, as_text)->Ok_0.sink.warnings),
{
    let s = hint_dropped(p.sink, block_cache(b), ptr);
    assert(kept(p.sink.warnings, s.warnings));
    if let ContentBlockV::ToolResult { content, .. } = b {
        outputs_are_reported(content, ptr, s, content.len());
        let r = result_blocks(content, ptr, s, content.len());
        let last = part_step(p, b, ptr, as_text)->Ok_0.sink.warnings;
        assert(kept(r.sink.warnings, last));
        assert forall|i: int| 0 <= i < content.len() implies output_losses(#[trigger] content[i], last) by {
            assert(output_losses(content[i], r.sink.warnings));
        }
    }
}

proof fn message_is_reported(p: PartsV, m: MessageV, mi: nat, ci: nat, as_text: bool, n: nat)
    requires
        n <= m.content.len(),
        message_parts(p, m, mi, ci, as_text, n) is Ok,
    ensures
        ({
            let ws = message_parts(p, m, mi, ci, as_text, n)->Ok_0.sink.warnings;
            &&& kept(p.sink.warnings, ws)
            &&& forall|i: int| 0 <= i < n ==> losses_of(#[trigger] m.content[i], as_text, ws)
        }),
    decreases n,
{
    if n > 0 {
        let q = (n - 1) as nat;
        message_is_reported(p, m, mi, ci, as_text, q);
        let prev = message_parts(p, m, mi, ci, as_text, q)->Ok_0;
        let ptr = "/contents/"@ + decimal(ci) + "/parts/"@ + decimal(prev.parts.len());
        block_is_reported(prev, m.content[q as int], ptr, as_text);
        let ws = message_parts(p, m, mi, ci, as_text, n)->Ok_0.sink.warnings;
        assert forall|i: int| 0 <= i < n implies losses_of(#[trigger] m.content[i], as_text, ws) by {
            if i < q {
                losses_stay(m.content[i], as_text, prev.sink.warnings, ws);
            }
        }
    }
}

/// The warnings that a message has to raise.
pub open spec fn message_losses(m: MessageV, as_text: bool, ws: Seq<ConversionWarningV>) -> bool {
    &&& m.role == Role::System || m.role == Role::Developer ==> has_code(ws, WarningCode::RoleDowngraded)
    &&& forall|i: int| 0 <= i < m.content.len() ==> losses_of(#[trigger] m.content[i], as_text, ws)
}

proof fn message_losses_stay(m: MessageV, as_text: bool, x: Seq<ConversionWarningV>, y: Seq<ConversionWarningV>)
    requires
        message_losses(m, as_text, x),
        kept(x, y),
    ensures
        message_losses(m, as_text, y),
{
    assert forall|i: int| 0 <= i < m.content.len() implies losses_of(#[trigger] m.content[i], as_text, y) by {
        losses_stay(m.content[i], as_text, x, y);
    }
}

proof fn turn_is_reported(t: TurnsV, m: MessageV, mi: nat, as_text: bool)
    requires
        turn_step(t, m, mi, as_text) is Ok,
    ensures
        kept(t.sink.warnings, turn_step(t, m, mi, as_text)->Ok_0.sink.warnings),
        message_losses(m, as_text, turn_step(t, m, mi, as_text)->Ok_0.sink.warnings),
{
    let side = side_of(m.role);
    let joins = t.last == Some(side) && t.contents.len() > 0;
    let ci = if joins { (t.contents.len() - 1) as nat } else { t.contents.len() };
    let base = "/contents/"@ + decimal(ci);
    let content = if joins { t.contents.last() } else { new_turn(side) };
    let inner = downgraded(SinkV { warnings: Seq::empty(), log: t.sink.log }, m.role, base);
    let p = PartsV { parts: parts_of(content), names: t.names, sink: inner };
    message_is_reported(p, m, mi, ci, as_text, m.content.len());
    let q = message_parts(p, m, mi, ci, as_text, m.content.len())->Ok_0;
    let ws = q.sink.warnings;
    assert(message_losses(m, as_text, ws));
    moved_warnings_stay(ws, "/contents"@);
    let out = turn_step(t, m, mi, as_text)->Ok_0.sink.warnings;
    let moved = relocated(ws, "/contents"@);
    assert(kept(t.sink.warnings, t.sink.warnings + ws) && kept(ws, t.sink.warnings + ws));
    assert(kept(t.sink.warnings, t.sink.warnings + moved) && kept(moved, t.sink.warnings + moved));
    assert(kept(ws, out));
    message_losses_stay(m, as_text, ws, out);
}

proof fn turns_are_reported(t: TurnsV, msgs: Seq<MessageV>, from: nat, as_text: bool, n: nat)
    requires
        n <= msgs.len(),
        turns(t, msgs, from, as_text, n) is Ok,
    ensures
        kept(t.sink.warnings, turns(t, msgs, from, as_text, n)->Ok_0.sink.warnings),
        forall|i: int|
            from <= i < n ==> message_losses(
                #[trigger] msgs[i],
                as_text,
                turns(t, msgs, from, as_text, n)->Ok_0.sink.warnings,
            ),
    decreases n,
{
    if n > from {
        let q = (n - 1) as nat;
        turns_are_reported(t, msgs, from, as_text, q);
        let prev = turns(t, msgs, from, as_text, q)->Ok_0;
        turn_is_reported(prev, msgs[q as int], q, as_text);
        let ws = turns(t, msgs, from, as_text, n)->Ok_0.sink.warnings;
        assert forall|i: int| from <= i < n implies message_losses(#[trigger] msgs[i], as_text, ws) by {
            if i < q {
                message_losses_stay(msgs[i], as_text, prev.sink.warnings, ws);
            }
        }
    }
}

/// The warnings that a tool has to raise.
pub open spec fn tool_losses(t: ToolV, ws: Seq<ConversionWarningV>) -> bool {
    match t {
        ToolV::Function(f) => (f.strict is Some ==> has_code(ws, WarningCode::StrictUnsupported)) && (f.cache is Some
            ==> has_code(ws, WarningCode::CacheHintDropped)),
        ToolV::Opaque { format, .. } => format != GOOGLE_GENERATE_CONTENT@ ==> has_code(ws, WarningCode::OpaqueDropped),
    }
}

proof fn tools_are_reported(tools: Seq<ToolV>, s: SinkV, n: nat)
    requires
        n <= tools.len(),
    ensures
        kept(s.warnings, tool_entries(tools, s, n).sink.warnings),
        forall|i: int| 0 <= i < n ==> tool_losses(#[trigger] tools[i], tool_entries(tools, s, n).sink.warnings),
    decreases n,
{
    if n > 0 {
        let q = (n - 1) as nat;
        tools_are_reported(tools, s, q);
        let a = tool_entries(tools, s, q);
        let b = tool_entries(tools, s, n);
        assert(b == tool_added(a, tools[q as int]));
        assert(kept(a.sink.warnings, b.sink.warnings));
        assert forall|i: int| 0 <= i < n implies tool_losses(#[trigger] tools[i], b.sink.warnings) by {
            if i < q {
                assert(tool_losses(tools[i], a.sink.warnings));
            }
        }
    }
}

/// The warnings that the settings of a request have to raise.
pub open spec fn setting_losses(req: RequestV, ws: Seq<ConversionWarningV>) -> bool {
    &&& req.metadata is Some ==> has_code(ws, WarningCode::MetadataDropped)
    &&& req.cache_key is Some ==> has_code(ws, WarningCode::CacheKeyDropped)
    &&& match req.parallel_tool_calls {
        Some(p) => if p || req.tools is None || req.tools->0.len() == 0 {
            has_code(ws, WarningCode::ParallelToolCallsIgnored)
        } else {
            has_code(ws, WarningCode::SerialToolCallsDropped)
        },
        None => true,
    }
    &&& match req.tools {
        Some(tools) => forall|i: int| 0 <= i < tools.len() ==> tool_losses(#[trigger] tools[i], ws),
        None => true,
    }
    &&& match req.output_format {
        Some(OutputFormatV::JsonSchema { name, description, schema, strict }) => name is Some || description is Some
            || strict is Some ==> has_code(ws, WarningCode::OutputFormatDetailDropped),
        _ => true,
    }
    &&& match req.reasoning {
        Some(r) => {
            &&& r.effort is Some && (r.effort->0 is Disabled || r.effort->0 is XHigh || r.effort->0 is Max)
                ==> has_code(ws, WarningCode::EffortUnsupported)
            &&& r.effort is None && r.enabled == Some(false) ==> has_code(
                ws,
                WarningCode::ReasoningDisableUnsupported,
            )
        },
        None => true,
    }
}

proof fn settings_are_reported(req: RequestV, system: Option<JsonV>, body: ObjV, s: SinkV)
    ensures
        kept(s.warnings, google_fields(req, system, body, s).1.warnings),
        setting_losses(req, google_fields(req, system, body, s).1.warnings),
{
    let (b1, s1) = tools_field(req.tools, body, s);
    let s2 = parallel_note(req.parallel_tool_calls, req.tools, s1);
    let (c, s3) = generation_config(req, s2);
    let s4 = lost_fields(req, s3);
    if let Some(tools) = req.tools {
        tools_are_reported(tools, s, tools.len());
        assert forall|i: int| 0 <= i < tools.len() implies tool_losses(#[trigger] tools[i], s4.warnings) by {
            assert(tool_losses(tools[i], s1.warnings));
            assert(kept(s1.warnings, s2.warnings));
            config_is_reported(req, s2);
            assert(kept(s3.warnings, s4.warnings));
        }
    }
    config_is_reported(req, s2);
}

proof fn config_is_reported(req: RequestV, s: SinkV)
    ensures
        kept(s.warnings, generation_config(req, s).1.warnings),
        match req.output_format {
            Some(OutputFormatV::JsonSchema { name, description, schema, strict }) => name is Some || description is Some
                || strict is Some ==> has_code(generation_config(req, s).1.warnings, WarningCode::OutputFormatDetailDropped),
            _ => true,
        },
        match req.reasoning {
            Some(r) => {
                let ws = generation_config(req, s).1.warnings;
                &&& r.effort is Some && (r.effort->0 is Disabled || r.effort->0 is XHigh || r.effort->0 is Max)
                    ==> has_code(ws, WarningCode::EffortUnsupported)
                &&& r.effort is None && r.enabled == Some(false) ==> has_code(
                    ws,
                    WarningCode::ReasoningDisableUnsupported,
                )
            },
            None => true,
        },
{
    let (c, s1) = output_config(req.output_format, sampling_config(req), s);
    assert(kept(s.warnings, s1.warnings));
    if let Some(r) = req.reasoning {
        let (t, s2) = thinking_fields(r, s1);
        assert(kept(s1.warnings, s2.warnings));
    }
}

spec fn blocks_reported(blocks: Seq<ContentBlockV>, as_text: bool, ws: Seq<ConversionWarningV>, n: nat) -> bool {
    forall|i: int| 0 <= i < n ==> losses_of(#[trigger] blocks[i], as_text, ws)
}

proof fn blocks_reported_stay(
    blocks: Seq<ContentBlockV>,
    as_text: bool,
    x: Seq<ConversionWarningV>,
    y: Seq<ConversionWarningV>,
    n: nat,
)
    requires
        blocks_reported(blocks, as_text, x, n),
        kept(x, y),
    ensures
        blocks_reported(blocks, as_text, y, n),
{
    assert forall|i: int| 0 <= i < n implies losses_of(#[trigger] blocks[i], as_text, y) by {
        losses_stay(blocks[i], as_text, x, y);
    }
}

proof fn prompt_is_reported(system: Seq<ContentBlockV>, as_text: bool, n: nat)
    requires
        n <= system.len(),
        prompt_parts(system, n) is Ok,
    ensures
        blocks_reported(system, as_text, prompt_parts(system, n)->Ok_0.1.warnings, n),
    decreases n,
{
    if n > 0 {
        let q = (n - 1) as nat;
        prompt_is_reported(system, as_text, q);
        let a = prompt_parts(system, q)->Ok_0.1.warnings;
        let b = prompt_parts(system, n)->Ok_0.1.warnings;
        assert(kept(a, b));
        blocks_reported_stay(system, as_text, a, b, q);
    }
}

proof fn leading_message_is_reported(st: (Seq<JsonV>, SinkV), m: MessageV, mi: nat, as_text: bool, n: nat)
    requires
        n <= m.content.len(),
        system_message(st, m, mi, n) is Ok,
    ensures
        kept(st.1.warnings, system_message(st, m, mi, n)->Ok_0.1.warnings),
        blocks_reported(m.content, as_text, system_message(st, m, mi, n)->Ok_0.1.warnings, n),
    decreases n,
{
    if n > 0 {
        let q = (n - 1) as nat;
        leading_message_is_reported(st, m, mi, as_text, q);
        let a = system_message(st, m, mi, q)->Ok_0.1.warnings;
        let b = system_message(st, m, mi, n)->Ok_0.1.warnings;
        assert(kept(a, b));
        blocks_reported_stay(m.content, as_text, a, b, q);
    }
}

proof fn leading_messages_are_reported(st: (Seq<JsonV>, SinkV), msgs: Seq<MessageV>, as_text: bool, n: nat)
    requires
        n <= msgs.len(),
        system_messages(st, msgs, n) is Ok,
    ensures
        kept(st.1.warnings, system_messages(st, msgs, n)->Ok_0.1.warnings),
        forall|i: int|
            0 <= i < n ==> blocks_reported(
                (#[trigger] msgs[i]).content,
                as_text,
                system_messages(st, msgs, n)->Ok_0.1.warnings,
                msgs[i].content.len(),
            ),
    decreases n,
{
    if n > 0 {
        let q = (n - 1) as nat;
        leading_messages_are_reported(st, msgs, as_text, q);
        let a = system_messages(st, msgs, q)->Ok_0;
        let b = system_messages(st, msgs, n)->Ok_0.1.warnings;
        leading_message_is_reported(a, msgs[q as int], q, as_text, msgs[q as int].content.len());
        assert forall|i: int| 0 <= i < n implies blocks_reported(
            (#[trigger] msgs[i]).content,
            as_text,
            b,
            msgs[i].content.len(),
        ) by {
            if i < q {
                blocks_reported_stay(msgs[i].content, as_text, a.1.warnings, b, msgs[i].content.len());
            }
        }
    }
}

proof fn merging_raises_nothing(v: JsonV, s: SinkV, msgs: Seq<MessageV>, n: nat)
    ensures
        system_merged(v, s, msgs, n).1.warnings == s.warnings,
    decreases n,
{
    if n > 0 && n <= msgs.len() {
        merging_raises_nothing(v, s, msgs, (n - 1) as nat);
    }
}

/// Whatever of a request this format has no place for is reported: foreign
/// blocks and tools, thinking of other providers, cache hints, message roles,
/// and settings. A body without warnings has lost none of them.
pub proof fn nothing_is_dropped_silently(req: RequestV, conv: ConvertOptionsV)
    requires
        google_body(req, conv) is Ok,
    ensures
        ({
            let msgs = google_prepared(req, conv).0;
            let ws = google_body(req, conv)->Ok_0.warnings;
            &&& setting_losses(req, ws)
            &&& forall|i: int|
                leading_system(msgs, 0) <= i < msgs.len() ==> message_losses(
                    #[trigger] msgs[i],
                    conv.thinking_as_text,
                    ws,
                )
            &&& forall|i: int, k: int|
                0 <= i < leading_system(msgs, 0) && 0 <= k < msgs[i].content.len() ==> losses_of(
                    #[trigger] msgs[i].content[k],
                    conv.thinking_as_text,
                    ws,
                )
            &&& match req.system {
                Some(blocks) => forall|k: int|
                    0 <= k < blocks.len() ==> losses_of(#[trigger] blocks[k], conv.thinking_as_text, ws),
                None => true,
            }
        }),
{
    let (msgs, pending) = google_prepared(req, conv);
    let (system, s) = system_instruction(req.system, msgs)->Ok_0;
    let from = leading_system(msgs, 0);
    lead_is_counted(msgs, 0);
    let t0 = turns_start(msgs.len(), s);
    turns_are_reported(t0, msgs, from as nat, conv.thinking_as_text, msgs.len());
    let t = turns(t0, msgs, from as nat, conv.thinking_as_text, msgs.len())->Ok_0;
    let b0 = obj_set(Seq::<(Seq<char>, JsonV)>::empty(), "contents"@, JsonV::Array(t.contents));
    settings_are_reported(req, system, b0, t.sink);
    let s1 = google_fields(req, system, b0, t.sink).1;
    let ws = google_body(req, conv)->Ok_0.warnings;
    let d = deferred(pending, t.placed, pending.len());
    assert(ws == s1.warnings + d);
    assert(kept(s1.warnings, s1.warnings + d));
    let as_text = conv.thinking_as_text;
    let st = match req.system {
        Some(blocks) => {
            prompt_is_reported(blocks, as_text, blocks.len());
            prompt_parts(blocks, blocks.len())->Ok_0
        },
        None => (Seq::<JsonV>::empty(), empty_sink()),
    };
    leading_messages_are_reported(st, msgs, as_text, from as nat);
    let (parts, s0) = system_messages(st, msgs, from as nat)->Ok_0;
    merging_raises_nothing(object1("parts"@, JsonV::Array(parts)), s0, msgs, from as nat);
    assert(s.warnings == s0.warnings);
    assert(kept(s0.warnings, ws));
    assert forall|i: int, k: int| 0 <= i < from && 0 <= k < msgs[i].content.len() implies losses_of(
        #[trigger] msgs[i].content[k],
        as_text,
        ws,
    ) by {
        assert(blocks_reported(msgs[i].content, as_text, s0.warnings, msgs[i].content.len()));
        losses_stay(msgs[i].content[k], as_text, s0.warnings, ws);
    }
    if let Some(blocks) = req.system {
        blocks_reported_stay(blocks, as_text, st.1.warnings, ws, blocks.len());
    }
    assert forall|i: int| from <= i < msgs.len() implies message_losses(#[trigger] msgs[i], conv.thinking_as_text, ws) by {
        message_losses_stay(msgs[i], conv.thinking_as_text, t.sink.warnings, ws);
    }
    if let Some(tools) = req.tools {
        assert forall|i: int| 0 <= i < tools.len() implies tool_losses(#[trigger] tools[i], ws) by {
            assert(tool_losses(tools[i], s1.warnings));
        }
    }
}

proof fn deferring_keeps(pending: Seq<PendingV>, placed: Seq<Option<usize>>, n: nat)
    requires
        n <= pending.len(),
    ensures
        deferred(pending, placed, n).len() == n,
        forall|k: int| 0 <= k < n ==> (#[trigger] deferred(pending, placed, n)[k]).code == pending[k].code,
    decreases n,
{
    if n > 0 {
        deferring_keeps(pending, placed, (n - 1) as nat);
    }
}

/// Problems of the history are reported with the body: calls that have no
/// result, and calls without thinking where the request asks for it.
pub proof fn history_problems_are_reported(req: RequestV, conv: ConvertOptionsV)
    requires
        google_body(req, conv) is Ok,
    ensures
        history_losses(
            req.messages,
            conv.orphan_tool_calls,
            asks_to_think(req.reasoning),
            conv.fill_missing_thinking is Some,
            google_body(req, conv)->Ok_0.warnings,
        ),
{
    let (msgs, pending) = google_prepared(req, conv);
    let (system, s) = system_instruction(req.system, msgs)->Ok_0;
    let from = leading_system(msgs, 0);
    let t = turns(turns_start(msgs.len(), s), msgs, from as nat, conv.thinking_as_text, msgs.len())->Ok_0;
    let d = deferred(pending, t.placed, pending.len());
    deferring_keeps(pending, t.placed, pending.len());
    notes_become_warnings(pending, d);
    let ws = google_body(req, conv)->Ok_0.warnings;
    let first = ws.take(ws.len() - d.len());
    assert(ws =~= first + d);
    assert(kept(d, first + d));
    let texts = google_orphan_texts();
    notes_tell_the_problems(
        req.messages,
        conv.orphan_tool_calls,
        texts,
        enables_thinking(req.reasoning),
        conv.fill_missing_thinking,
        "inserted a placeholder thinking block before the tool calls"@,
        "assistant message carries tool calls but no thinking while the request enables thinking; Google requires thought signatures with function calls on thinking models"@,
        pending,
        ws,
    );
}

} // verus!
