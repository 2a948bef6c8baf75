//! Anthropic Messages JSON as IR requests and responses.

use vstd::prelude::*;
use crate::convert::{ConversionWarning, ConversionWarningV, WarningCode};
use crate::error::{Error, ErrorV};
use crate::format::ANTHROPIC_MESSAGES;
use crate::formats::anthropic_messages::parse_blocks::{block_type, leftover, opaque_block, parse_assistant_block, parsed_assistant, split_cache, split_cache_control, type_of};
use crate::formats::anthropic_messages::parse_messages::{assistant_blocks, parse_assistant_blocks, parse_messages, parsed_messages};
use crate::formats::anthropic_messages::types::{decode_function_tool_param, decode_messages_request, decode_messages_response, decode_usage_wire, encode_output_format_config, encode_thinking_config, encode_tool_choice_param, encode_usage_wire, FunctionToolParam, MessagesRequest, MessagesRequestV, MessagesResponse, MessagesResponseV, OutputConfig, OutputConfigV, SystemPrompt, SystemPromptV, ThinkingConfig, ThinkingConfigV, ToolChoiceParam, ToolChoiceParamV, UsageWire, UsageWireV};
use crate::headers::clone_headers;
use crate::ir::{effort_named, extra_from_unknown, extra_set, normalize_stop_reason, normalized_stop_reason, plain_message, stop_reason_named, text_block, ContentBlock, ContentBlockV, Effort, Extra, ExtraV, FunctionTool, FunctionToolV, Message, MessageV, OutputFormat, OutputFormatV, Reasoning, ReasoningV, Request, RequestV, Role, StopReason, StopReasonV, Tool, ToolChoice, ToolChoiceV, ToolV, Usage, UsageV};
use crate::json::{json_int, obj_set, Json, JsonMap, JsonV, ObjV};
use crate::mirror::{mirror, mirror2, mirror_map, mirror_map2, mirror_map3, mirrored, mirrored2, mirrored_map, mirrored_map2, mirrored_map3};
use crate::model::{dup_opt, group_views, opt_view, views, Dup};
use crate::response::{parse_warn, parse_warned, Response, ResponseMeta, ResponseV};
use crate::text::{cat2, cat4, cat5, dec, dec_usize, decimal, opt_is, text_is};
use crate::value::{exact_json, json_from_slice, json_to_bytes, parse_slice};

verus! {

broadcast use group_views;

/// A parse-side warning of this format.
pub open spec fn pnoted(
    ws: Seq<ConversionWarningV>,
    code: WarningCode,
    location: Seq<char>,
    message: Seq<char>,
) -> Seq<ConversionWarningV> {
    parse_warned(ws, ANTHROPIC_MESSAGES@, code, location, message)
}

/// A wire integer in the modeled range; a larger one is mirrored.
pub open spec fn u32_mirrored(
    v: Option<u64>,
    key: Seq<char>,
    root: ObjV,
    ws: Seq<ConversionWarningV>,
) -> (Option<u32>, ObjV, Seq<ConversionWarningV>) {
    match v {
        None => (None, root, ws),
        Some(v) => if v <= u32::MAX {
            (Some(v as u32), root, ws)
        } else {
            (
                None,
                mirrored(root, key, json_int(v as int)),
                pnoted(
                    ws,
                    WarningCode::MalformedField,
                    "/"@ + key,
                    "`"@ + key + "` "@ + decimal(v as nat)
                        + " exceeds the modeled u32 range; the IR field is unset and the value re-serializes verbatim via `extra`"@,
                ),
            )
        },
    }
}

/// The modeled metadata and the mirror after the first `n` members.
pub open spec fn split_metadata(m: ObjV, root: ObjV, n: nat) -> (ObjV, ObjV)
    decreases n,
{
    if n == 0 || n > m.len() {
        (Seq::empty(), root)
    } else {
        let (ids, r) = split_metadata(m, root, (n - 1) as nat);
        if m[n - 1].0 == "user_id"@ {
            (obj_set(ids, m[n - 1].0, m[n - 1].1), r)
        } else {
            (ids, mirrored2(r, "metadata"@, m[n - 1].0, m[n - 1].1))
        }
    }
}

/// The first `n` entries of a system array.
pub open spec fn system_entries(
    a: Seq<JsonV>,
    ws: Seq<ConversionWarningV>,
    n: nat,
) -> (Seq<ContentBlockV>, Seq<ConversionWarningV>)
    decreases n,
{
    if n == 0 || n > a.len() {
        (Seq::empty(), ws)
    } else {
        let (prev, ws1) = system_entries(a, ws, (n - 1) as nat);
        let loc = "/system/"@ + decimal((n - 1) as nat);
        if type_of(a[n - 1]) == Some("text"@) {
            let (b, ws2) = parsed_assistant(a[n - 1], loc, ws1);
            (prev.push(b), ws2)
        } else {
            (
                prev.push(opaque_block(a[n - 1])),
                pnoted(
                    ws1,
                    WarningCode::MalformedField,
                    loc,
                    "non-text system entry: the whole system channel is parsed as a leading system message so the entry survives round-trips as an opaque block"@,
                ),
            )
        }
    }
}

/// The blocks of the system channel.
pub open spec fn system_channel(s: SystemPromptV, ws: Seq<ConversionWarningV>) -> (Seq<ContentBlockV>, Seq<ConversionWarningV>) {
    match s {
        SystemPromptV::Text(t) => (seq![text_block(t)], ws),
        SystemPromptV::Blocks(a) => system_entries(a, ws, a.len()),
    }
}

/// All blocks are text.
pub open spec fn all_text(b: Seq<ContentBlockV>) -> bool {
    forall|i: int| 0 <= i < b.len() ==> (#[trigger] b[i]) is Text
}

/// The tool of a definition: a well-formed custom tool, else verbatim.
pub open spec fn parsed_tool(j: JsonV, n: nat, ws: Seq<ConversionWarningV>) -> (ToolV, Seq<ConversionWarningV>) {
    let t = type_of(j);
    let custom = t is None || t == Some("custom"@);
    let opaque = ToolV::Opaque { format: ANTHROPIC_MESSAGES@, value: j };
    if custom {
        match decode_function_tool_param(j) {
            Ok(f) => {
                let (cache, rest) = split_cache(f.cache_control, f.extra);
                (
                    ToolV::Function(
                        FunctionToolV {
                            name: f.name,
                            description: f.description,
                            parameters: Some(f.input_schema),
                            strict: f.strict,
                            cache,
                            extra: leftover(rest),
                        },
                    ),
                    ws,
                )
            },
            Err(_) => (
                opaque,
                pnoted(
                    ws,
                    WarningCode::MalformedField,
                    "/tools/"@ + decimal(n),
                    "custom tool failed to parse; kept as opaque"@,
                ),
            ),
        }
    } else {
        (opaque, ws)
    }
}

/// The first `n` tools.
pub open spec fn parsed_tools(a: Seq<JsonV>, ws: Seq<ConversionWarningV>, n: nat) -> (Seq<ToolV>, Seq<ConversionWarningV>)
    decreases n,
{
    if n == 0 || n > a.len() {
        (Seq::empty(), ws)
    } else {
        let (prev, ws1) = parsed_tools(a, ws, (n - 1) as nat);
        let (t, ws2) = parsed_tool(a[n - 1], (n - 1) as nat, ws1);
        (prev.push(t), ws2)
    }
}

/// The choice that a `tool_choice` stands for, if it is a known one.
pub open spec fn choice_of(tc: ToolChoiceParamV) -> Option<ToolChoiceV> {
    if tc.kind == "auto"@ {
        Some(ToolChoiceV::Auto)
    } else if tc.kind == "any"@ {
        Some(ToolChoiceV::Required)
    } else if tc.kind == "none"@ {
        Some(ToolChoiceV::Disabled)
    } else if tc.kind == "tool"@ {
        match tc.name {
            Some(name) => Some(ToolChoiceV::Tool { name }),
            None => None,
        }
    } else {
        None
    }
}

/// What a `tool_choice` sets: the choice, the parallel-call setting, the
/// mirror and the warnings.
pub open spec fn parsed_choice(
    tc: ToolChoiceParamV,
    root: ObjV,
    ws: Seq<ConversionWarningV>,
) -> (Option<ToolChoiceV>, Option<bool>, ObjV, Seq<ConversionWarningV>) {
    match choice_of(tc) {
        Some(c) => {
            let none = tc.kind == "none"@;
            let r1 = match tc.disable_parallel_tool_use {
                Some(d) => if none {
                    mirrored2(root, "tool_choice"@, "disable_parallel_tool_use"@, JsonV::Bool(d))
                } else {
                    root
                },
                None => root,
            };
            (
                Some(c),
                match tc.disable_parallel_tool_use {
                    Some(d) => if none { None } else { Some(!d) },
                    None => None,
                },
                mirrored_map2(r1, "tool_choice"@, tc.extra, tc.extra.len()),
                ws,
            )
        },
        None => (
            None,
            None,
            mirrored(root, "tool_choice"@, encode_tool_choice_param(tc)),
            if tc.kind == "tool"@ {
                pnoted(
                    ws,
                    WarningCode::MalformedField,
                    "/tool_choice"@,
                    "tool_choice of type `tool` has no name; kept in extra"@,
                )
            } else {
                ws
            },
        ),
    }
}

/// Provider data with one member set.
pub open spec fn noted_extra(e: ExtraV, k: Seq<char>, v: JsonV) -> ExtraV {
    extra_set(e, ANTHROPIC_MESSAGES@, k, v)
}

/// Provider data after the first `n` members that are not `null` were set.
pub open spec fn noted_extras(e: ExtraV, m: ObjV, n: nat) -> ExtraV
    decreases n,
{
    if n == 0 || n > m.len() {
        e
    } else {
        let prev = noted_extras(e, m, (n - 1) as nat);
        if m[n - 1].1 is Null {
            prev
        } else {
            noted_extra(prev, m[n - 1].0, m[n - 1].1)
        }
    }
}

/// The reasoning configuration of a thinking configuration that is switched
/// on.
pub open spec fn thinking_on(t: ThinkingConfigV) -> ReasoningV {
    let e0 = Seq::<(Seq<char>, ObjV)>::empty();
    let e1 = if t.kind == "enabled"@ {
        let e = noted_extra(e0, "type"@, JsonV::Str("enabled"@));
        match t.budget_tokens {
            Some(b) => noted_extra(e, "budget_tokens"@, json_int(b as int)),
            None => e,
        }
    } else {
        e0
    };
    let summarized = t.display == Some("summarized"@);
    let omitted = t.display == Some("omitted"@);
    let e2 = match t.display {
        Some(d) => if summarized || omitted { e1 } else { noted_extra(e1, "display"@, JsonV::Str(d)) },
        None => e1,
    };
    ReasoningV {
        enabled: Some(true),
        effort: None,
        include_thoughts: if summarized { Some(true) } else if omitted { Some(false) } else { None },
        extra: noted_extras(e2, t.extra, t.extra.len()),
    }
}

/// The reasoning configuration of a thinking configuration that is switched
/// off.
pub open spec fn thinking_off(t: ThinkingConfigV) -> ReasoningV {
    let e0 = Seq::<(Seq<char>, ObjV)>::empty();
    let e1 = match t.display {
        Some(d) => noted_extra(e0, "display"@, JsonV::Str(d)),
        None => e0,
    };
    ReasoningV {
        enabled: Some(false),
        effort: None,
        include_thoughts: None,
        extra: noted_extras(e1, t.extra, t.extra.len()),
    }
}

/// No reasoning configuration.
pub open spec fn no_reasoning() -> ReasoningV {
    ReasoningV { enabled: None, effort: None, include_thoughts: None, extra: Seq::empty() }
}

/// What a thinking configuration sets; one of an unknown type is mirrored.
pub open spec fn parsed_thinking(t: Option<ThinkingConfigV>, root: ObjV) -> (Option<ReasoningV>, ObjV) {
    match t {
        None => (None, root),
        Some(t) => if t.kind == "disabled"@ {
            (Some(thinking_off(t)), root)
        } else if t.kind == "adaptive"@ || t.kind == "enabled"@ {
            (Some(thinking_on(t)), root)
        } else {
            (None, mirrored(root, "thinking"@, encode_thinking_config(t)))
        },
    }
}

/// The reasoning configuration with the effort tier, if there is one.
pub open spec fn with_effort(r: Option<ReasoningV>, effort: Option<Seq<char>>) -> Option<ReasoningV> {
    match effort {
        Some(e) => Some(
            ReasoningV {
                effort: Some(effort_named(e)),
                ..match r {
                    Some(r) => r,
                    None => no_reasoning(),
                }
            },
        ),
        None => r,
    }
}

/// What an output configuration sets besides the effort.
pub open spec fn parsed_output(
    oc: OutputConfigV,
    root: ObjV,
    ws: Seq<ConversionWarningV>,
) -> (Option<OutputFormatV>, ObjV, Seq<ConversionWarningV>) {
    let (f, r1, ws1) = match oc.format {
        None => (None, root, ws),
        Some(f) => if f.kind == "json_schema"@ && f.schema is Some {
            (
                Some(
                    OutputFormatV::JsonSchema {
                        name: None,
                        description: None,
                        schema: f.schema->0,
                        strict: None,
                    },
                ),
                mirrored_map3(root, "output_config"@, "format"@, f.extra, f.extra.len()),
                ws,
            )
        } else {
            (
                None,
                mirrored2(root, "output_config"@, "format"@, encode_output_format_config(f)),
                if f.kind == "json_schema"@ {
                    pnoted(
                        ws,
                        WarningCode::MalformedField,
                        "/output_config/format"@,
                        "json_schema output format without a schema; kept in extra"@,
                    )
                } else {
                    ws
                },
            )
        },
    };
    (f, mirrored_map2(r1, "output_config"@, oc.extra, oc.extra.len()), ws1)
}

/// The IR request of a wire request.
pub open spec fn request_of(w: MessagesRequestV) -> (RequestV, Seq<ConversionWarningV>) {
    let (max_tokens, r1, ws1) = u32_mirrored(w.max_tokens, "max_tokens"@, Seq::empty(), Seq::empty());
    let (top_k, r2, ws2) = u32_mirrored(w.top_k, "top_k"@, r1, ws1);
    let (ids, r3) = match w.metadata {
        Some(m) => split_metadata(m, r2, m.len()),
        None => (Seq::empty(), r2),
    };
    let (blocks, ws3) = match w.system {
        Some(s) => system_channel(s, ws2),
        None => (Seq::empty(), ws2),
    };
    let start = if all_text(blocks) {
        Seq::<MessageV>::empty()
    } else {
        seq![plain_message(Role::System, blocks)]
    };
    let (messages, groups, ws4) = parsed_messages(start, w.messages, ws3, w.messages.len());
    let (tools, ws5) = match w.tools {
        Some(a) => {
            let (t, ws) = parsed_tools(a, ws4, a.len());
            (Some(t), ws)
        },
        None => (None, ws4),
    };
    let (tool_choice, parallel, r6, ws6) = match w.tool_choice {
        Some(tc) => parsed_choice(tc, r3, ws5),
        None => (None, None, r3, ws5),
    };
    let (thinking, r7) = parsed_thinking(w.thinking, r6);
    let (output_format, r8, ws8) = match w.output_config {
        Some(oc) => parsed_output(oc, r7, ws6),
        None => (None, r7, ws6),
    };
    let effort = match w.output_config {
        Some(oc) => oc.effort,
        None => None,
    };
    let r9 = mirrored_map(r8, w.extra, w.extra.len());
    (
        RequestV {
            system: if all_text(blocks) && blocks.len() > 0 { Some(blocks) } else { None },
            messages,
            tools,
            tool_choice,
            parallel_tool_calls: parallel,
            max_output_tokens: max_tokens,
            temperature: w.temperature,
            top_p: w.top_p,
            top_k,
            frequency_penalty: None,
            presence_penalty: None,
            seed: None,
            stop_sequences: w.stop_sequences,
            cache_key: None,
            metadata: if ids.len() > 0 { Some(ids) } else { None },
            reasoning: with_effort(thinking, effort),
            output_format,
            extra: extra_from_unknown(ANTHROPIC_MESSAGES@, r9),
        },
        ws8,
    )
}

/// The IR request of JSON, or why it is none.
pub open spec fn parsed_request(j: JsonV) -> Result<(RequestV, Seq<ConversionWarningV>), Seq<char>> {
    match decode_messages_request(j) {
        Err(e) => Err(e),
        Ok(w) => Ok(request_of(w)),
    }
}

/// The error for a body that cannot be parsed.
pub open spec fn parse_error(what: Seq<char>, reason: Seq<char>, body: Seq<u8>) -> ErrorV {
    ErrorV::Parse { message: "invalid Anthropic Messages "@ + what + ": "@ + reason, raw: body }
}

/// The outcome of parsing a request body.
pub open spec fn request_outcome(body: Seq<u8>) -> Result<(RequestV, Seq<ConversionWarningV>), ErrorV> {
    match json_from_slice(body) {
        Err(e) => Err(parse_error("request"@, e, body)),
        Ok(j) => match parsed_request(j) {
            Err(e) => Err(parse_error("request"@, e, body)),
            Ok(r) => Ok(r),
        },
    }
}

/// The sum, capped at the largest value.
pub open spec fn saturating(a: int, b: int) -> int {
    if a + b > u64::MAX {
        u64::MAX as int
    } else {
        a + b
    }
}

/// The value, zero when absent.
pub open spec fn or_zero(n: Option<u64>) -> int {
    match n {
        Some(n) => n as int,
        None => 0,
    }
}

/// Unified usage: input counts uncached tokens, cache writes and cache reads.
pub open spec fn unified_usage(w: UsageWireV, raw: JsonV) -> UsageV {
    UsageV {
        input_tokens: saturating(
            saturating(or_zero(w.input_tokens), or_zero(w.cache_creation_input_tokens)),
            or_zero(w.cache_read_input_tokens),
        ) as u64,
        output_tokens: or_zero(w.output_tokens) as u64,
        total_tokens: None,
        cache_read_tokens: w.cache_read_input_tokens,
        cache_write_tokens: w.cache_creation_input_tokens,
        reasoning_tokens: match w.output_tokens_details {
            Some(d) => d.thinking_tokens,
            None => None,
        },
        raw: Some(raw),
    }
}

/// Usage out of raw JSON; one of a wrong shape is lost with a warning.
pub open spec fn usage_of(j: Option<JsonV>, ws: Seq<ConversionWarningV>) -> (Option<UsageV>, Seq<ConversionWarningV>) {
    match j {
        None => (None, ws),
        Some(j) => match decode_usage_wire(j) {
            Ok(w) => (Some(unified_usage(w, encode_usage_wire(w))), ws),
            Err(e) => (
                None,
                pnoted(
                    ws,
                    WarningCode::MalformedField,
                    "/usage"@,
                    "usage failed to parse and was dropped: "@ + e,
                ),
            ),
        },
    }
}

/// The stop reason of a wire name.
pub open spec fn stop_of(s: Option<Seq<char>>) -> Option<StopReasonV> {
    match s {
        Some(s) => Some(stop_reason_named(s)),
        None => None,
    }
}

/// The response of a wire response.
pub open spec fn response_of(w: MessagesResponseV, raw: JsonV, status: u16, headers: http::HeaderMap) -> ResponseV {
    let (content, ws1) = assistant_blocks(w.content, Seq::empty(), Seq::empty(), w.content.len());
    let message = plain_message(Role::Assistant, content);
    let (usage, ws2) = usage_of(w.usage, ws1);
    ResponseV {
        message,
        id: w.id,
        model: w.model,
        stop_reason: normalized_stop_reason(message, stop_of(w.stop_reason)),
        usage,
        status,
        headers,
        raw: Some(raw),
        warnings: ws2,
    }
}

/// The response of JSON, or why it is none.
pub open spec fn parsed_response(j: JsonV, status: u16, headers: http::HeaderMap) -> Result<ResponseV, Seq<char>> {
    match decode_messages_response(j) {
        Err(e) => Err(e),
        Ok(w) => Ok(response_of(w, j, status, headers)),
    }
}

/// The outcome of parsing a response body.
pub open spec fn response_outcome(body: Seq<u8>, status: u16, headers: http::HeaderMap) -> Result<ResponseV, ErrorV> {
    match json_from_slice(body) {
        Err(e) => Err(parse_error("response"@, e, body)),
        Ok(j) => match parsed_response(j, status, headers) {
            Err(e) => Err(parse_error("response"@, e, body)),
            Ok(r) => Ok(r),
        },
    }
}

fn u32_or_mirror(v: Option<u64>, key: &str, root: &mut JsonMap, ws: &mut Vec<ConversionWarning>) -> (r: Option<u32>)
    ensures
        (r, final(root)@, views(final(ws)@)) == u32_mirrored(v, key@, old(root)@, views(old(ws)@)),
{
    match v {
        None => None,
        Some(v) => {
            if v <= u32::MAX as u64 {
                Some(v as u32)
            } else {
                parse_warn(
                    ws,
                    ANTHROPIC_MESSAGES,
                    WarningCode::MalformedField,
                    cat2("/", key).as_str(),
                    cat5(
                        "`",
                        key,
                        "` ",
                        dec(v).as_str(),
                        " exceeds the modeled u32 range; the IR field is unset and the value re-serializes verbatim via `extra`",
                    ).as_str(),
                );
                mirror(root, key, Json::uint(v));
                None
            }
        },
    }
}

fn parse_metadata(m: &JsonMap, root: &mut JsonMap) -> (r: JsonMap)
    ensures
        (r@, final(root)@) == split_metadata(m@, old(root)@, m@.len()),
{
    let ghost r0 = root@;
    let mut ids = JsonMap::new();
    let mut i: usize = 0;
    while i < m.entries.len()
        invariant
            i <= m.entries@.len(),
            (ids@, root@) == split_metadata(m@, r0, i as nat),
        decreases m.entries@.len() - i,
    {
        let k = &m.entries[i].0;
        let v = &m.entries[i].1;
        proof {
            assert(m@[i as int] == (k@, v@));
        }
        if text_is(k, "user_id") {
            ids.set(k.as_str(), v.copy());
        } else {
            mirror2(root, "metadata", k.as_str(), v.copy());
        }
        i += 1;
    }
    ids
}

fn parse_system(s: &SystemPrompt, ws: &mut Vec<ConversionWarning>) -> (r: Vec<ContentBlock>)
    ensures
        (views(r@), views(final(ws)@)) == system_channel(s@, views(old(ws)@)),
{
    let mut out: Vec<ContentBlock> = Vec::new();
    match s {
        SystemPrompt::Text(t) => {
            out.push(ContentBlock::text(t.clone()));
            proof {
                assert(views(out@) =~= seq![text_block(t@)]);
            }
        },
        SystemPrompt::Blocks(a) => {
            let ghost ws0 = views(ws@);
            let mut i: usize = 0;
            while i < a.len()
                invariant
                    i <= a@.len(),
                    (views(out@), views(ws@)) == system_entries(views(a@), ws0, i as nat),
                decreases a@.len() - i,
            {
                let loc = cat2("/system/", dec_usize(i).as_str());
                if opt_is(block_type(&a[i]), "text") {
                    out.push(parse_assistant_block(&a[i], loc.as_str(), ws));
                } else {
                    parse_warn(
                        ws,
                        ANTHROPIC_MESSAGES,
                        WarningCode::MalformedField,
                        loc.as_str(),
                        "non-text system entry: the whole system channel is parsed as a leading system message so the entry survives round-trips as an opaque block",
                    );
                    out.push(ContentBlock::opaque(ANTHROPIC_MESSAGES, a[i].copy()));
                }
                i += 1;
            }
        },
    }
    out
}

fn is_all_text(b: &Vec<ContentBlock>) -> (r: bool)
    ensures
        r == all_text(views(b@)),
{
    let mut i: usize = 0;
    while i < b.len()
        invariant
            i <= b@.len(),
            forall|j: int| 0 <= j < i ==> (#[trigger] views(b@)[j]) is Text,
        decreases b@.len() - i,
    {
        match &b[i] {
            ContentBlock::Text { .. } => {},
            _ => {
                proof {
                    assert(!(views(b@)[i as int] is Text));
                }
                return false;
            },
        }
        i += 1;
    }
    true
}

fn parse_tool(j: &Json, n: usize, ws: &mut Vec<ConversionWarning>) -> (r: Tool)
    ensures
        (r@, views(final(ws)@)) == parsed_tool(j@, n as nat, views(old(ws)@)),
{
    let t = block_type(j);
    if t.is_none() || opt_is(t, "custom") {
        match FunctionToolParam::from_json(j) {
            Ok(f) => {
                let mut rest = f.extra;
                let cache = split_cache_control(f.cache_control, &mut rest);
                return Tool::Function(
                    FunctionTool {
                        name: f.name,
                        description: f.description,
                        parameters: Some(f.input_schema),
                        strict: f.strict,
                        cache,
                        extra: Extra::from_unknown(ANTHROPIC_MESSAGES, rest),
                    },
                );
            },
            Err(_) => {
                parse_warn(
                    ws,
                    ANTHROPIC_MESSAGES,
                    WarningCode::MalformedField,
                    cat2("/tools/", dec_usize(n).as_str()).as_str(),
                    "custom tool failed to parse; kept as opaque",
                );
            },
        }
    }
    Tool::Opaque { format: ANTHROPIC_MESSAGES.to_owned(), value: j.copy() }
}

fn parse_tools(a: &Vec<Json>, ws: &mut Vec<ConversionWarning>) -> (r: Vec<Tool>)
    ensures
        (views(r@), views(final(ws)@)) == parsed_tools(views(a@), views(old(ws)@), a@.len()),
{
    let ghost ws0 = views(ws@);
    let mut out: Vec<Tool> = Vec::new();
    let mut i: usize = 0;
    while i < a.len()
        invariant
            i <= a@.len(),
            (views(out@), views(ws@)) == parsed_tools(views(a@), ws0, i as nat),
        decreases a@.len() - i,
    {
        out.push(parse_tool(&a[i], i, ws));
        i += 1;
    }
    out
}

fn read_choice(tc: &ToolChoiceParam) -> (r: Option<ToolChoice>)
    ensures
        opt_view(r) == choice_of(tc@),
{
    if text_is(&tc.kind, "auto") {
        Some(ToolChoice::Auto)
    } else if text_is(&tc.kind, "any") {
        Some(ToolChoice::Required)
    } else if text_is(&tc.kind, "none") {
        Some(ToolChoice::Disabled)
    } else if text_is(&tc.kind, "tool") {
        match &tc.name {
            Some(name) => Some(ToolChoice::Tool { name: name.clone() }),
            None => None,
        }
    } else {
        None
    }
}

fn parse_choice(tc: &ToolChoiceParam, root: &mut JsonMap, ws: &mut Vec<ConversionWarning>) -> (r: (Option<ToolChoice>, Option<bool>))
    ensures
        (opt_view(r.0), r.1, final(root)@, views(final(ws)@)) == parsed_choice(
            tc@,
            old(root)@,
            views(old(ws)@),
        ),
{
    match read_choice(tc) {
        Some(c) => {
            let none = text_is(&tc.kind, "none");
            let mut parallel = None;
            if let Some(d) = tc.disable_parallel_tool_use {
                if none {
                    mirror2(root, "tool_choice", "disable_parallel_tool_use", Json::Bool(d));
                } else {
                    parallel = Some(!d);
                }
            }
            mirror_map2(root, "tool_choice", &tc.extra);
            (Some(c), parallel)
        },
        None => {
            mirror(root, "tool_choice", tc.to_json());
            if text_is(&tc.kind, "tool") {
                parse_warn(
                    ws,
                    ANTHROPIC_MESSAGES,
                    WarningCode::MalformedField,
                    "/tool_choice",
                    "tool_choice of type `tool` has no name; kept in extra",
                );
            }
            (None, None)
        },
    }
}

fn note_extras(e: &mut Extra, m: &JsonMap)
    ensures
        final(e)@ == noted_extras(old(e)@, m@, m@.len()),
{
    let ghost e0 = e@;
    let mut i: usize = 0;
    while i < m.entries.len()
        invariant
            i <= m.entries@.len(),
            e@ == noted_extras(e0, m@, i as nat),
        decreases m.entries@.len() - i,
    {
        proof {
            assert(m@[i as int] == (m.entries@[i as int].0@, m.entries@[i as int].1@));
        }
        if !m.entries[i].1.is_null() {
            e.set(ANTHROPIC_MESSAGES, m.entries[i].0.as_str(), m.entries[i].1.copy());
        }
        i += 1;
    }
}

fn read_thinking_on(t: &ThinkingConfig) -> (r: Reasoning)
    ensures
        r@ == thinking_on(t@),
{
    let mut extra = Extra::new();
    if text_is(&t.kind, "enabled") {
        extra.set(ANTHROPIC_MESSAGES, "type", Json::text("enabled"));
        if let Some(b) = t.budget_tokens {
            extra.set(ANTHROPIC_MESSAGES, "budget_tokens", Json::uint(b));
        }
    }
    let mut thoughts = None;
    if let Some(d) = &t.display {
        if text_is(d, "summarized") {
            thoughts = Some(true);
        } else if text_is(d, "omitted") {
            thoughts = Some(false);
        } else {
            extra.set(ANTHROPIC_MESSAGES, "display", Json::Str(d.clone()));
        }
    }
    proof {
        reveal_strlit("summarized");
        reveal_strlit("omitted");
        assert("summarized"@.len() != "omitted"@.len());
    }
    note_extras(&mut extra, &t.extra);
    Reasoning { enabled: Some(true), effort: None, include_thoughts: thoughts, extra }
}

fn read_thinking_off(t: &ThinkingConfig) -> (r: Reasoning)
    ensures
        r@ == thinking_off(t@),
{
    let mut extra = Extra::new();
    if let Some(d) = &t.display {
        extra.set(ANTHROPIC_MESSAGES, "display", Json::Str(d.clone()));
    }
    note_extras(&mut extra, &t.extra);
    Reasoning { enabled: Some(false), effort: None, include_thoughts: None, extra }
}

fn parse_thinking(t: &Option<ThinkingConfig>, root: &mut JsonMap) -> (r: Option<Reasoning>)
    ensures
        (opt_view(r), final(root)@) == parsed_thinking(opt_view(*t), old(root)@),
{
    match t {
        None => None,
        Some(t) => {
            if text_is(&t.kind, "disabled") {
                Some(read_thinking_off(t))
            } else if text_is(&t.kind, "adaptive") || text_is(&t.kind, "enabled") {
                Some(read_thinking_on(t))
            } else {
                mirror(root, "thinking", t.to_json());
                None
            }
        },
    }
}

fn set_effort(r: Option<Reasoning>, effort: &Option<String>) -> (out: Option<Reasoning>)
    ensures
        opt_view(out) == with_effort(opt_view(r), opt_view(*effort)),
{
    match effort {
        Some(e) => {
            let mut r = match r {
                Some(r) => r,
                None => Reasoning::new(),
            };
            r.effort = Some(Effort::from_str_lossy(e.as_str()));
            Some(r)
        },
        None => r,
    }
}

fn parse_output(oc: &OutputConfig, root: &mut JsonMap, ws: &mut Vec<ConversionWarning>) -> (r: Option<OutputFormat>)
    ensures
        (opt_view(r), final(root)@, views(final(ws)@)) == parsed_output(oc@, old(root)@, views(old(ws)@)),
{
    let mut out = None;
    if let Some(f) = &oc.format {
        let schema_kind = text_is(&f.kind, "json_schema");
        match &f.schema {
            Some(schema) if schema_kind => {
                out = Some(
                    OutputFormat::JsonSchema {
                        name: None,
                        description: None,
                        schema: schema.copy(),
                        strict: None,
                    },
                );
                mirror_map3(root, "output_config", "format", &f.extra);
            },
            _ => {
                mirror2(root, "output_config", "format", f.to_json());
                if schema_kind {
                    parse_warn(
                        ws,
                        ANTHROPIC_MESSAGES,
                        WarningCode::MalformedField,
                        "/output_config/format",
                        "json_schema output format without a schema; kept in extra",
                    );
                }
            },
        }
    }
    mirror_map2(root, "output_config", &oc.extra);
    out
}

/// Builds the IR request of a wire request.
pub fn request_from_wire(w: MessagesRequest) -> (r: (Request, Vec<ConversionWarning>))
    ensures
        (r.0@, views(r.1@)) == request_of(w@),
{
    let mut ws: Vec<ConversionWarning> = Vec::new();
    let mut root = JsonMap::new();
    let max_tokens = u32_or_mirror(w.max_tokens, "max_tokens", &mut root, &mut ws);
    let top_k = u32_or_mirror(w.top_k, "top_k", &mut root, &mut ws);
    let ids = match &w.metadata {
        Some(m) => parse_metadata(m, &mut root),
        None => JsonMap::new(),
    };
    let metadata = if ids.is_empty() { None } else { Some(ids) };
    let blocks = match &w.system {
        Some(s) => parse_system(s, &mut ws),
        None => Vec::new(),
    };
    let mut messages: Vec<Message> = Vec::new();
    let mut system: Option<Vec<ContentBlock>> = None;
    let ghost blocksv = views(blocks@);
    if is_all_text(&blocks) {
        if blocks.len() > 0 {
            system = Some(blocks);
        }
    } else {
        messages.push(Message::new(Role::System, blocks));
        proof {
            assert(views(messages@) =~= seq![plain_message(Role::System, blocksv)]);
        }
    }
    parse_messages(&mut messages, &w.messages, &mut ws);
    let tools = match &w.tools {
        Some(a) => Some(parse_tools(a, &mut ws)),
        None => None,
    };
    let (tool_choice, parallel_tool_calls) = match &w.tool_choice {
        Some(tc) => parse_choice(tc, &mut root, &mut ws),
        None => (None, None),
    };
    let thinking = parse_thinking(&w.thinking, &mut root);
    let mut effort: Option<String> = None;
    let mut output_format: Option<OutputFormat> = None;
    if let Some(oc) = &w.output_config {
        effort = dup_opt(&oc.effort);
        output_format = parse_output(oc, &mut root, &mut ws);
    }
    let reasoning = set_effort(thinking, &effort);
    mirror_map(&mut root, &w.extra);
    (
        Request {
            system,
            messages,
            tools,
            tool_choice,
            parallel_tool_calls,
            max_output_tokens: max_tokens,
            temperature: w.temperature,
            top_p: w.top_p,
            top_k,
            frequency_penalty: None,
            presence_penalty: None,
            seed: None,
            stop_sequences: w.stop_sequences,
            cache_key: None,
            metadata,
            reasoning,
            output_format,
            extra: Extra::from_unknown(ANTHROPIC_MESSAGES, root),
        },
        ws,
    )
}

/// Reads a request from JSON.
pub fn request_from_json(j: &Json) -> (r: Result<(Request, Vec<ConversionWarning>), String>)
    ensures
        match r {
            Ok(v) => parsed_request(j@) == Ok::<(RequestV, Seq<ConversionWarningV>), Seq<char>>((v.0@, views(v.1@))),
            Err(e) => parsed_request(j@) == Err::<(RequestV, Seq<ConversionWarningV>), Seq<char>>(e@),
        },
{
    match MessagesRequest::from_json(j) {
        Err(e) => Err(e),
        Ok(w) => Ok(request_from_wire(w)),
    }
}

fn body_error(what: &str, reason: &String, body: &[u8]) -> (r: Error)
    ensures
        r@ == parse_error(what@, reason@, body@),
{
    Error::parse(cat4("invalid Anthropic Messages ", what, ": ", reason.as_str()).as_str(), body)
}

/// Parses a request body into the IR.
pub fn parse_request_body(body: &[u8]) -> (r: Result<(Request, Vec<ConversionWarning>), Error>)
    ensures
        match r {
            Ok(v) => request_outcome(body@) == Ok::<(RequestV, Seq<ConversionWarningV>), ErrorV>(
                (v.0@, views(v.1@)),
            ),
            Err(e) => request_outcome(body@) == Err::<(RequestV, Seq<ConversionWarningV>), ErrorV>(e@),
        },
        forall|j: JsonV|
            exact_json(j, 127) && body@ == #[trigger] json_to_bytes(j) && parsed_request(j) is Ok ==> match r {
                Ok(v) => parsed_request(j)->Ok_0 == (v.0@, views(v.1@)),
                Err(_) => false,
            },
{
    match parse_slice(body) {
        Err(e) => Err(body_error("request", &e, body)),
        Ok(j) => match request_from_json(&j) {
            Err(e) => Err(body_error("request", &e, body)),
            Ok(v) => Ok(v),
        },
    }
}

fn value_or_zero(n: Option<u64>) -> (r: u64)
    ensures
        r == or_zero(n),
{
    match n {
        Some(n) => n,
        None => 0,
    }
}

/// Unifies the provider usage.
pub fn unify_usage(w: &UsageWire, raw: Json) -> (r: Usage)
    ensures
        r@ == unified_usage(w@, raw@),
{
    let input: u64 = value_or_zero(w.input_tokens).saturating_add(
        value_or_zero(w.cache_creation_input_tokens),
    ).saturating_add(value_or_zero(w.cache_read_input_tokens));
    Usage {
        input_tokens: input,
        output_tokens: value_or_zero(w.output_tokens),
        total_tokens: None,
        cache_read_tokens: w.cache_read_input_tokens,
        cache_write_tokens: w.cache_creation_input_tokens,
        reasoning_tokens: match &w.output_tokens_details {
            Some(d) => d.thinking_tokens,
            None => None,
        },
        raw: Some(raw),
    }
}

fn parse_usage(j: &Option<Json>, ws: &mut Vec<ConversionWarning>) -> (r: Option<Usage>)
    ensures
        (opt_view(r), views(final(ws)@)) == usage_of(opt_view(*j), views(old(ws)@)),
{
    match j {
        None => None,
        Some(j) => match UsageWire::from_json(j) {
            Ok(w) => {
                let raw = w.to_json();
                Some(unify_usage(&w, raw))
            },
            Err(e) => {
                parse_warn(
                    ws,
                    ANTHROPIC_MESSAGES,
                    WarningCode::MalformedField,
                    "/usage",
                    cat2("usage failed to parse and was dropped: ", e.as_str()).as_str(),
                );
                None
            },
        },
    }
}

/// Reads a response from JSON.
pub fn response_from_json(j: Json, meta: &ResponseMeta) -> (r: Result<Response, String>)
    ensures
        match r {
            Ok(v) => parsed_response(j@, meta.status, meta.headers) == Ok::<ResponseV, Seq<char>>(v@),
            Err(e) => parsed_response(j@, meta.status, meta.headers) == Err::<ResponseV, Seq<char>>(e@),
        },
{
    let w = match MessagesResponse::from_json(&j) {
        Err(e) => {
            return Err(e);
        },
        Ok(w) => w,
    };
    let mut ws: Vec<ConversionWarning> = Vec::new();
    proof {
        reveal_strlit("");
        assert(""@ =~= Seq::<char>::empty());
    }
    let content = parse_assistant_blocks(&w.content, "", &mut ws);
    let message = Message::assistant(content);
    let stop = match &w.stop_reason {
        Some(s) => Some(StopReason::from_str_lossy(s.as_str())),
        None => None,
    };
    let stop_reason = normalize_stop_reason(&message, stop);
    let usage = parse_usage(&w.usage, &mut ws);
    Ok(
        Response {
            message,
            id: w.id,
            model: w.model,
            stop_reason,
            usage,
            status: meta.status,
            headers: clone_headers(&meta.headers),
            raw: Some(j),
            warnings: ws,
        },
    )
}

/// Parses a 2xx response body.
pub fn parse_response_body(body: &[u8], meta: &ResponseMeta) -> (r: Result<Response, Error>)
    ensures
        match r {
            Ok(v) => response_outcome(body@, meta.status, meta.headers) == Ok::<ResponseV, ErrorV>(v@),
            Err(e) => response_outcome(body@, meta.status, meta.headers) == Err::<ResponseV, ErrorV>(e@),
        },
{
    match parse_slice(body) {
        Err(e) => Err(body_error("response", &e, body)),
        Ok(j) => match response_from_json(j, meta) {
            Err(e) => Err(body_error("response", &e, body)),
            Ok(v) => Ok(v),
        },
    }
}

} // verus!
