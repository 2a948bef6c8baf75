//! Google `generateContent` JSON as IR requests and responses.

use vstd::prelude::*;
use crate::convert::{ConversionWarning, ConversionWarningV, WarningCode};
use crate::error::{Error, ErrorV};
use crate::format::GOOGLE_GENERATE_CONTENT;
use crate::formats::google_generate_content::parse_parts::{block_of_part, classified, classify_assistant_part, g_leftover, gp_noted, keep_part, member_count, opaque_part, part_block, put_object, result_block, system_part, system_text_block, tool_result_from_part, union_members, user_block_from_part, user_part, with_object};
use crate::formats::google_generate_content::types::{decode_generate_content_request, decode_generate_content_response, decode_usage_metadata, encode_usage_metadata, Content, ContentV, FunctionCallingConfig, FunctionCallingConfigV, FunctionDeclarationV, GenerateContentRequest, GenerateContentRequestV, GenerateContentResponse, GenerateContentResponseV, GenerationConfig, GenerationConfigV, Part, PartV, ThinkingConfig, ThinkingConfigV, ToolConfig, ToolConfigV, UsageMetadata, UsageMetadataV};
use crate::headers::clone_headers;
use crate::ir::{normalize_stop_reason, normalized_stop_reason, plain_message, ContentBlock, ContentBlockV, Effort, EffortV, Extra, FunctionTool, FunctionToolV, Message, MessageV, OutputFormat, OutputFormatV, Reasoning, ReasoningV, Request, RequestV, Role, StopReason, StopReasonV, Tool, ToolChoice, ToolChoiceV, ToolV, Usage, UsageV};
use crate::json::{json_strings, make_strings, obj_set, Json, JsonMap, JsonV, ObjV};
use crate::model::{dup_opt, dup_opt_vec, group_views, opt_view, opt_views, views, Dup};
use crate::response::{parse_warn, Response, ResponseMeta, ResponseV};
use crate::scan::{chars_of, matches_at, starts_with};
use crate::text::{cat2, cat3, cat4, dec_usize, decimal, opt_is, str_eq, text_is};
use crate::turns::{messages_of_runs, push_run, run_step, turn_messages, Run, RunV};
use crate::value::{exact_json, json_from_slice, json_to_bytes, parse_slice};

verus! {

broadcast use group_views;

/// The stop reason of a finish reason.
pub open spec fn finish_reason(s: Seq<char>) -> StopReasonV {
    if s == "STOP"@ {
        StopReasonV::EndTurn
    } else if s == "MAX_TOKENS"@ {
        StopReasonV::MaxTokens
    } else if s == "SAFETY"@ || s == "PROHIBITED_CONTENT"@ || s == "BLOCKLIST"@ || s == "SPII"@ || starts_with(
        s,
        "IMAGE_"@,
    ) {
        StopReasonV::ContentFilter
    } else {
        StopReasonV::Other(s)
    }
}

/// Maps a finish reason to the unified stop reason.
pub fn map_finish_reason(s: &str) -> (r: StopReason)
    ensures
        r@ == finish_reason(s@),
{
    if str_eq(s, "STOP") {
        StopReason::EndTurn
    } else if str_eq(s, "MAX_TOKENS") {
        StopReason::MaxTokens
    } else if str_eq(s, "SAFETY") || str_eq(s, "PROHIBITED_CONTENT") || str_eq(s, "BLOCKLIST") || str_eq(s, "SPII")
        || matches_at(&chars_of(s), &chars_of("IMAGE_"), 0) {
        StopReason::ContentFilter
    } else {
        StopReason::Other(s.to_owned())
    }
}

/// A count; negative and absent ones are zero.
pub open spec fn clamped(v: Option<i64>) -> u64 {
    match v {
        Some(n) => if n < 0 { 0 } else { n as u64 },
        None => 0,
    }
}

/// An optional count; a negative one is zero.
pub open spec fn clamped_opt(v: Option<i64>) -> Option<u64> {
    match v {
        Some(n) => Some(clamped(Some(n))),
        None => None,
    }
}

/// The sum, capped at the largest value.
pub open spec fn capped_sum(a: u64, b: u64) -> u64 {
    if a + b > u64::MAX {
        u64::MAX
    } else {
        (a + b) as u64
    }
}

/// Unified usage: input counts the tool-use prompt, output the thoughts.
pub open spec fn metadata_usage(u: UsageMetadataV) -> UsageV {
    UsageV {
        input_tokens: capped_sum(clamped(u.prompt_token_count), clamped(u.tool_use_prompt_token_count)),
        output_tokens: capped_sum(clamped(u.candidates_token_count), clamped(u.thoughts_token_count)),
        total_tokens: clamped_opt(u.total_token_count),
        cache_read_tokens: clamped_opt(u.cached_content_token_count),
        cache_write_tokens: None,
        reasoning_tokens: clamped_opt(u.thoughts_token_count),
        raw: Some(encode_usage_metadata(u)),
    }
}

fn clamp(v: Option<i64>) -> (r: u64)
    ensures
        r == clamped(v),
{
    match v {
        Some(n) => if n < 0 { 0 } else { n as u64 },
        None => 0,
    }
}

fn clamp_opt(v: Option<i64>) -> (r: Option<u64>)
    ensures
        r == clamped_opt(v),
{
    match v {
        Some(n) => Some(clamp(Some(n))),
        None => None,
    }
}

/// Converts usage metadata to unified usage.
pub fn usage_from_metadata(u: &UsageMetadata) -> (r: Usage)
    ensures
        r@ == metadata_usage(u@),
{
    Usage {
        input_tokens: clamp(u.prompt_token_count).saturating_add(clamp(u.tool_use_prompt_token_count)),
        output_tokens: clamp(u.candidates_token_count).saturating_add(clamp(u.thoughts_token_count)),
        total_tokens: clamp_opt(u.total_token_count),
        cache_read_tokens: clamp_opt(u.cached_content_token_count),
        cache_write_tokens: None,
        reasoning_tokens: clamp_opt(u.thoughts_token_count),
        raw: Some(u.to_json()),
    }
}

/// Usage out of raw JSON; one of a wrong shape is lost with a warning.
pub open spec fn usage_read(j: Option<JsonV>, ws: Seq<ConversionWarningV>) -> (Option<UsageV>, Seq<ConversionWarningV>) {
    match j {
        None => (None, ws),
        Some(j) => match decode_usage_metadata(j) {
            Ok(u) => (Some(metadata_usage(u)), ws),
            Err(e) => (
                None,
                gp_noted(
                    ws,
                    WarningCode::MalformedField,
                    "/usageMetadata"@,
                    "usageMetadata failed to parse and was dropped: "@ + e,
                ),
            ),
        },
    }
}

/// Reads usage out of raw JSON.
pub fn read_usage(j: &Option<Json>, ws: &mut Vec<ConversionWarning>) -> (r: Option<Usage>)
    ensures
        (opt_view(r), views(final(ws)@)) == usage_read(opt_view(*j), views(old(ws)@)),
{
    match j {
        None => None,
        Some(j) => match UsageMetadata::from_json(j) {
            Ok(u) => Some(usage_from_metadata(&u)),
            Err(e) => {
                parse_warn(
                    ws,
                    GOOGLE_GENERATE_CONTENT,
                    WarningCode::MalformedField,
                    "/usageMetadata",
                    cat2("usageMetadata failed to parse and was dropped: ", e.as_str()).as_str(),
                );
                None
            },
        },
    }
}

/// The blocks of the first `n` model-side parts.
pub open spec fn model_blocks(
    parts: Seq<PartV>,
    base: Seq<char>,
    ws: Seq<ConversionWarningV>,
    n: nat,
) -> (Seq<ContentBlockV>, Seq<ConversionWarningV>)
    decreases n,
{
    if n == 0 || n > parts.len() {
        (Seq::empty(), ws)
    } else {
        let (prev, ws1) = model_blocks(parts, base, ws, (n - 1) as nat);
        let (a, ws2) = classified(parts[n - 1], base + "/parts/"@ + decimal((n - 1) as nat), ws1);
        (prev.push(part_block(a)), ws2)
    }
}

/// A user-side part, and whether it is a tool result.
pub open spec fn turn_part(p: PartV, loc: Seq<char>, ws: Seq<ConversionWarningV>) -> (bool, ContentBlockV, Seq<ConversionWarningV>) {
    if p.function_response is Some && member_count(p) == 1 {
        let (b, ws1) = result_block(p, p.function_response->0, loc, ws);
        (true, b, ws1)
    } else {
        (false, user_part(p), ws)
    }
}

/// The runs of the first `n` user-side parts.
pub open spec fn part_runs(
    parts: Seq<PartV>,
    base: Seq<char>,
    ws: Seq<ConversionWarningV>,
    n: nat,
) -> (Seq<RunV>, Seq<ConversionWarningV>)
    decreases n,
{
    if n == 0 || n > parts.len() {
        (Seq::empty(), ws)
    } else {
        let (prev, ws1) = part_runs(parts, base, ws, (n - 1) as nat);
        let (is_tool, b, ws2) = turn_part(parts[n - 1], base + "/parts/"@ + decimal((n - 1) as nat), ws1);
        (run_step(prev, is_tool, b), ws2)
    }
}

/// The messages of content `ci`, whether it took a group, and the warnings.
pub open spec fn content_messages(
    c: ContentV,
    ci: nat,
    group: u64,
    ws: Seq<ConversionWarningV>,
) -> (Seq<MessageV>, bool, Seq<ConversionWarningV>) {
    let base = "/contents/"@ + decimal(ci);
    let extra = g_leftover(c.extra);
    if c.role == Some("model"@) {
        let (blocks, ws1) = model_blocks(c.parts, base, ws, c.parts.len());
        (seq![MessageV { extra, ..plain_message(Role::Assistant, blocks) }], false, ws1)
    } else {
        let ws1 = if c.role is Some && c.role != Some("user"@) {
            gp_noted(
                ws,
                WarningCode::MalformedField,
                base + "/role"@,
                "unknown content role `"@ + c.role->0 + "`; treated as user"@,
            )
        } else {
            ws
        };
        let (runs, ws2) = part_runs(c.parts, base, ws1, c.parts.len());
        (turn_messages(runs, (group + 1) as u64, extra), runs.len() > 1, ws2)
    }
}

/// The messages of the first `n` contents, after `start`, and the groups
/// taken.
pub open spec fn all_messages(
    start: Seq<MessageV>,
    contents: Seq<ContentV>,
    ws: Seq<ConversionWarningV>,
    n: nat,
) -> (Seq<MessageV>, u64, Seq<ConversionWarningV>)
    decreases n,
{
    if n == 0 || n > contents.len() {
        (start, 0, ws)
    } else {
        let (prev, group, ws1) = all_messages(start, contents, ws, (n - 1) as nat);
        let (more, grouped, ws2) = content_messages(contents[n - 1], (n - 1) as nat, group, ws1);
        (prev + more, if grouped { (group + 1) as u64 } else { group }, ws2)
    }
}

/// A part of the system instruction that is text alone.
pub open spec fn is_text_part(p: PartV) -> bool {
    p.text is Some && member_count(p) == 1
}

/// All parts are text alone.
pub open spec fn text_only(parts: Seq<PartV>) -> bool {
    forall|i: int| 0 <= i < parts.len() ==> is_text_part(#[trigger] parts[i])
}

/// The first `n` parts of a system instruction; other parts than text stay
/// verbatim, with a warning.
pub open spec fn system_blocks(parts: Seq<PartV>, ws: Seq<ConversionWarningV>, n: nat) -> (Seq<ContentBlockV>, Seq<ConversionWarningV>)
    decreases n,
{
    if n == 0 || n > parts.len() {
        (Seq::empty(), ws)
    } else {
        let (prev, ws1) = system_blocks(parts, ws, (n - 1) as nat);
        if is_text_part(parts[n - 1]) {
            (prev.push(system_part(parts[n - 1])), ws1)
        } else {
            (
                prev.push(opaque_part(parts[n - 1])),
                gp_noted(
                    ws1,
                    WarningCode::MalformedField,
                    "/systemInstruction/parts/"@ + decimal((n - 1) as nat),
                    "systemInstruction accepts text parts only; the part was kept as an opaque block and round-trips verbatim"@,
                ),
            )
        }
    }
}

/// What a system instruction sets: the system prompt or a leading message,
/// and the mirror.
pub open spec fn parsed_system(
    si: ContentV,
    ns: ObjV,
) -> (Option<Seq<ContentBlockV>>, Seq<MessageV>, ObjV, Seq<ConversionWarningV>) {
    let (blocks, ws) = system_blocks(si.parts, Seq::empty(), si.parts.len());
    if text_only(si.parts) {
        (
            if blocks.len() > 0 { Some(blocks) } else { None },
            Seq::empty(),
            with_object(ns, "systemInstruction"@, si.extra),
            ws,
        )
    } else {
        (
            None,
            seq![MessageV { extra: g_leftover(si.extra), ..plain_message(Role::System, blocks) }],
            ns,
            ws,
        )
    }
}

/// A function declaration as a tool.
pub open spec fn declared_tool(d: FunctionDeclarationV) -> ToolV {
    ToolV::Function(
        FunctionToolV {
            name: d.name,
            description: d.description,
            parameters: d.parameters_json_schema,
            strict: None,
            cache: None,
            extra: g_leftover(d.extra),
        },
    )
}

/// The tools after the first `n` declarations.
pub open spec fn with_declared(tools: Seq<ToolV>, decls: Seq<FunctionDeclarationV>, n: nat) -> Seq<ToolV>
    decreases n,
{
    if n == 0 || n > decls.len() {
        tools
    } else {
        with_declared(tools, decls, (n - 1) as nat).push(declared_tool(decls[n - 1]))
    }
}

/// The tools after one more entry: its declarations, then its other members.
pub open spec fn entry_tools(
    tools: Seq<ToolV>,
    e: crate::formats::google_generate_content::types::ToolV,
) -> Seq<ToolV> {
    let t1 = match e.function_declarations {
        Some(d) => with_declared(tools, d, d.len()),
        None => tools,
    };
    if e.extra.len() > 0 {
        t1.push(ToolV::Opaque { format: GOOGLE_GENERATE_CONTENT@, value: JsonV::Object(e.extra) })
    } else {
        t1
    }
}

/// The tools of the first `n` entries.
pub open spec fn all_tools(entries: Seq<crate::formats::google_generate_content::types::ToolV>, n: nat) -> Seq<ToolV>
    decreases n,
{
    if n == 0 || n > entries.len() {
        Seq::empty()
    } else {
        entry_tools(all_tools(entries, (n - 1) as nat), entries[n - 1])
    }
}

/// `o` with `k` set to an array of strings, if there is one.
pub open spec fn with_names(o: ObjV, k: Seq<char>, names: Option<Seq<Seq<char>>>) -> ObjV {
    match names {
        Some(n) => obj_set(o, k, json_strings(n)),
        None => o,
    }
}

/// The choice of a function-calling configuration, and its mirror.
pub open spec fn calling_choice(f: FunctionCallingConfigV) -> (Option<ToolChoiceV>, ObjV) {
    let allowed = f.allowed_function_names;
    if f.mode == Some("AUTO"@) && allowed is None {
        (Some(ToolChoiceV::Auto), f.extra)
    } else if f.mode == Some("NONE"@) && allowed is None {
        (Some(ToolChoiceV::Disabled), f.extra)
    } else if f.mode == Some("ANY"@) {
        match allowed {
            Some(names) => if names.len() == 1 {
                (Some(ToolChoiceV::Tool { name: names[0] }), f.extra)
            } else {
                (Some(ToolChoiceV::Required), with_names(f.extra, "allowedFunctionNames"@, allowed))
            },
            None => (Some(ToolChoiceV::Required), f.extra),
        }
    } else {
        let m = match f.mode {
            Some(mode) => obj_set(f.extra, "mode"@, JsonV::Str(mode)),
            None => f.extra,
        };
        (None, with_names(m, "allowedFunctionNames"@, allowed))
    }
}

/// What a tool configuration sets, and its mirror.
pub open spec fn parsed_tool_config(tc: ToolConfigV, ns: ObjV) -> (Option<ToolChoiceV>, ObjV) {
    match tc.function_calling_config {
        Some(f) => {
            let (choice, mirror) = calling_choice(f);
            (
                choice,
                with_object(ns, "toolConfig"@, with_object(tc.extra, "functionCallingConfig"@, mirror)),
            )
        },
        None => (None, with_object(ns, "toolConfig"@, tc.extra)),
    }
}

/// The effort tier of a thinking level.
pub open spec fn level_effort(s: Seq<char>) -> EffortV {
    if s == "MINIMAL"@ {
        EffortV::Minimal
    } else if s == "LOW"@ {
        EffortV::Low
    } else if s == "MEDIUM"@ {
        EffortV::Medium
    } else if s == "HIGH"@ {
        EffortV::High
    } else {
        EffortV::Other(s)
    }
}

/// The reasoning configuration of a thinking configuration, if it sets any.
pub open spec fn config_reasoning(tc: ThinkingConfigV) -> Option<ReasoningV> {
    if tc.include_thoughts is None && tc.thinking_level is None {
        None
    } else {
        Some(
            ReasoningV {
                enabled: None,
                effort: match tc.thinking_level {
                    Some(l) => Some(level_effort(l)),
                    None => None,
                },
                include_thoughts: tc.include_thoughts,
                extra: Seq::empty(),
            },
        )
    }
}

/// The output format of a generation configuration, and its mirror.
pub open spec fn config_output(gc: GenerationConfigV) -> (Option<OutputFormatV>, ObjV) {
    if gc.response_mime_type == Some("application/json"@) {
        (
            match gc.response_json_schema {
                Some(schema) => Some(
                    OutputFormatV::JsonSchema { name: None, description: None, schema, strict: None },
                ),
                None => Some(OutputFormatV::JsonObject),
            },
            gc.extra,
        )
    } else {
        let m1 = match gc.response_mime_type {
            Some(m) => obj_set(gc.extra, "responseMimeType"@, JsonV::Str(m)),
            None => gc.extra,
        };
        (
            None,
            match gc.response_json_schema {
                Some(s) => obj_set(m1, "responseJsonSchema"@, s),
                None => m1,
            },
        )
    }
}

/// The mirror of a generation configuration.
pub open spec fn config_mirror(gc: GenerationConfigV) -> ObjV {
    let m = config_output(gc).1;
    match gc.thinking_config {
        Some(tc) => with_object(m, "thinkingConfig"@, tc.extra),
        None => m,
    }
}

/// The request with the generation configuration in it.
pub open spec fn with_config(r: RequestV, gc: Option<GenerationConfigV>) -> RequestV {
    match gc {
        Some(gc) => RequestV {
            max_output_tokens: gc.max_output_tokens,
            temperature: gc.temperature,
            top_p: gc.top_p,
            top_k: gc.top_k,
            stop_sequences: gc.stop_sequences,
            seed: gc.seed,
            frequency_penalty: gc.frequency_penalty,
            presence_penalty: gc.presence_penalty,
            output_format: config_output(gc).0,
            reasoning: match gc.thinking_config {
                Some(tc) => config_reasoning(tc),
                None => None,
            },
            ..r
        },
        None => r,
    }
}

/// The IR request of a wire request.
pub open spec fn google_request_of(w: GenerateContentRequestV) -> (RequestV, Seq<ConversionWarningV>) {
    let (system, start, n1, ws1) = match w.system_instruction {
        Some(si) => parsed_system(si, w.extra),
        None => (None, Seq::empty(), w.extra, Seq::empty()),
    };
    let (messages, groups, ws2) = all_messages(start, w.contents, ws1, w.contents.len());
    let (tool_choice, n2) = match w.tool_config {
        Some(tc) => parsed_tool_config(tc, n1),
        None => (None, n1),
    };
    let n3 = match w.generation_config {
        Some(gc) => with_object(n2, "generationConfig"@, config_mirror(gc)),
        None => n2,
    };
    (
        with_config(
            RequestV {
                system,
                messages,
                tools: match w.tools {
                    Some(e) => Some(all_tools(e, e.len())),
                    None => None,
                },
                tool_choice,
                parallel_tool_calls: None,
                max_output_tokens: None,
                temperature: None,
                top_p: None,
                top_k: None,
                frequency_penalty: None,
                presence_penalty: None,
                seed: None,
                stop_sequences: None,
                cache_key: None,
                metadata: None,
                reasoning: None,
                output_format: None,
                extra: g_leftover(n3),
            },
            w.generation_config,
        ),
        ws2,
    )
}

/// The IR request of JSON, or why it is none.
pub open spec fn google_parsed_request(j: JsonV) -> Result<(RequestV, Seq<ConversionWarningV>), Seq<char>> {
    match decode_generate_content_request(j) {
        Err(e) => Err(e),
        Ok(w) => Ok(google_request_of(w)),
    }
}

/// The error for a body that cannot be parsed.
pub open spec fn google_parse_error(what: Seq<char>, reason: Seq<char>, body: Seq<u8>) -> ErrorV {
    ErrorV::Parse { message: "invalid Google "@ + what + ": "@ + reason, raw: body }
}

/// The outcome of parsing a request body.
pub open spec fn google_request_outcome(body: Seq<u8>) -> Result<(RequestV, Seq<ConversionWarningV>), ErrorV> {
    match json_from_slice(body) {
        Err(e) => Err(google_parse_error("request"@, e, body)),
        Ok(j) => match google_parsed_request(j) {
            Err(e) => Err(google_parse_error("request"@, e, body)),
            Ok(r) => Ok(r),
        },
    }
}

/// The prompt was blocked.
pub open spec fn is_blocked(w: GenerateContentResponseV) -> bool {
    w.prompt_feedback is Some && w.prompt_feedback->0.block_reason is Some
}

/// The message and stop reason of a response: those of its first candidate.
pub open spec fn first_candidate(w: GenerateContentResponseV) -> (Seq<ContentBlockV>, Option<StopReasonV>, Seq<ConversionWarningV>) {
    let ws = Seq::<ConversionWarningV>::empty();
    if w.candidates.len() == 0 {
        if is_blocked(w) {
            (Seq::empty(), Some(StopReasonV::ContentFilter), ws)
        } else {
            (
                Seq::empty(),
                None,
                gp_noted(
                    ws,
                    WarningCode::MalformedField,
                    "/candidates"@,
                    "response carries neither candidates nor a prompt block reason"@,
                ),
            )
        }
    } else {
        let ws1 = if w.candidates.len() > 1 {
            gp_noted(
                ws,
                WarningCode::MultipleCandidates,
                "/candidates"@,
                "response carries "@ + decimal(w.candidates.len())
                    + " candidates; only the first was read (the rest remain in raw)"@,
            )
        } else {
            ws
        };
        let c = w.candidates[0];
        let (blocks, ws2) = match c.content {
            Some(content) => model_blocks(
                content.parts,
                "/candidates/0/content"@,
                ws1,
                content.parts.len(),
            ),
            None => (Seq::empty(), ws1),
        };
        (
            blocks,
            match c.finish_reason {
                Some(s) => Some(finish_reason(s)),
                None => None,
            },
            ws2,
        )
    }
}

/// The response of a wire response.
pub open spec fn google_response_of(w: GenerateContentResponseV, raw: JsonV, status: u16, headers: http::HeaderMap) -> ResponseV {
    let (blocks, stop, ws1) = first_candidate(w);
    let message = plain_message(Role::Assistant, blocks);
    let (usage, ws2) = usage_read(w.usage_metadata, ws1);
    ResponseV {
        message,
        id: w.response_id,
        model: w.model_version,
        stop_reason: normalized_stop_reason(message, stop),
        usage,
        status,
        headers,
        raw: Some(raw),
        warnings: ws2,
    }
}

/// The response of JSON, or why it is none.
pub open spec fn google_parsed_response(j: JsonV, status: u16, headers: http::HeaderMap) -> Result<ResponseV, Seq<char>> {
    match decode_generate_content_response(j) {
        Err(e) => Err(e),
        Ok(w) => Ok(google_response_of(w, j, status, headers)),
    }
}

/// The outcome of parsing a response body.
pub open spec fn google_response_outcome(body: Seq<u8>, status: u16, headers: http::HeaderMap) -> Result<ResponseV, ErrorV> {
    match json_from_slice(body) {
        Err(e) => Err(google_parse_error("response"@, e, body)),
        Ok(j) => match google_parsed_response(j, status, headers) {
            Err(e) => Err(google_parse_error("response"@, e, body)),
            Ok(r) => Ok(r),
        },
    }
}

/// Parses model-side parts.
pub fn parse_model_parts(parts: &Vec<Part>, base: &str, ws: &mut Vec<ConversionWarning>) -> (r: Vec<ContentBlock>)
    ensures
        (views(r@), views(final(ws)@)) == model_blocks(views(parts@), base@, views(old(ws)@), parts@.len()),
{
    let ghost ws0 = views(ws@);
    let mut out: Vec<ContentBlock> = Vec::new();
    let mut i: usize = 0;
    while i < parts.len()
        invariant
            i <= parts@.len(),
            (views(out@), views(ws@)) == model_blocks(views(parts@), base@, ws0, i as nat),
        decreases parts@.len() - i,
    {
        let loc = cat3(base, "/parts/", dec_usize(i).as_str());
        out.push(block_of_part(classify_assistant_part(&parts[i], loc.as_str(), ws)));
        i += 1;
    }
    out
}

/// Splits the parts of a user content into runs.
fn split_user_content(parts: &Vec<Part>, base: &str, ws: &mut Vec<ConversionWarning>) -> (r: Vec<Run>)
    ensures
        (views(r@), views(final(ws)@)) == part_runs(views(parts@), base@, views(old(ws)@), parts@.len()),
{
    let ghost ws0 = views(ws@);
    let mut runs: Vec<Run> = Vec::new();
    let mut i: usize = 0;
    while i < parts.len()
        invariant
            i <= parts@.len(),
            (views(runs@), views(ws@)) == part_runs(views(parts@), base@, ws0, i as nat),
        decreases parts@.len() - i,
    {
        let p = &parts[i];
        proof {
            assert(views(parts@)[i as int] == p@);
        }
        let loc = cat3(base, "/parts/", dec_usize(i).as_str());
        let one = union_members(p) == 1;
        match &p.function_response {
            Some(fr) if one => {
                let b = tool_result_from_part(p, fr, loc.as_str(), ws);
                push_run(&mut runs, true, b);
            },
            _ => {
                push_run(&mut runs, false, user_block_from_part(p));
            },
        }
        i += 1;
    }
    runs
}

fn lone(m: Message) -> (r: Vec<Message>)
    ensures
        views(r@) == seq![m@],
{
    let mut v: Vec<Message> = Vec::new();
    v.push(m);
    proof {
        assert(views(v@) =~= seq![m@]);
    }
    v
}

fn parse_content(c: &Content, ci: usize, group: u64, ws: &mut Vec<ConversionWarning>) -> (r: (Vec<Message>, bool))
    requires
        group < u64::MAX,
    ensures
        (views(r.0@), r.1, views(final(ws)@)) == content_messages(c@, ci as nat, group, views(old(ws)@)),
{
    let base = cat2("/contents/", dec_usize(ci).as_str());
    let extra = Extra::from_unknown(GOOGLE_GENERATE_CONTENT, c.extra.copy());
    if opt_is(c.role.as_ref(), "model") {
        let mut m = Message::assistant(parse_model_parts(&c.parts, base.as_str(), ws));
        m.extra = extra;
        return (lone(m), false);
    }
    if let Some(role) = &c.role {
        if !text_is(role, "user") {
            parse_warn(
                ws,
                GOOGLE_GENERATE_CONTENT,
                WarningCode::MalformedField,
                cat2(base.as_str(), "/role").as_str(),
                cat3("unknown content role `", role.as_str(), "`; treated as user").as_str(),
            );
        }
    }
    let runs = split_user_content(&c.parts, base.as_str(), ws);
    let grouped = runs.len() > 1;
    (messages_of_runs(runs, group + 1, extra), grouped)
}

fn parse_contents(messages: &mut Vec<Message>, contents: &Vec<Content>, ws: &mut Vec<ConversionWarning>)
    ensures
        (views(final(messages)@), views(final(ws)@)) == {
            let (m, g, w) = all_messages(
                views(old(messages)@),
                views(contents@),
                views(old(ws)@),
                contents@.len(),
            );
            (m, w)
        },
{
    let ghost start = views(messages@);
    let ghost ws0 = views(ws@);
    let mut group: u64 = 0;
    let mut i: usize = 0;
    while i < contents.len()
        invariant
            i <= contents@.len(),
            group <= i,
            (views(messages@), group, views(ws@)) == all_messages(start, views(contents@), ws0, i as nat),
        decreases contents@.len() - i,
    {
        let (mut more, grouped) = parse_content(&contents[i], i, group, ws);
        messages.append(&mut more);
        if grouped {
            group = group + 1;
        }
        i += 1;
    }
}

fn all_text_parts(parts: &Vec<Part>) -> (r: bool)
    ensures
        r == text_only(views(parts@)),
{
    let mut i: usize = 0;
    while i < parts.len()
        invariant
            i <= parts@.len(),
            forall|j: int| 0 <= j < i ==> is_text_part(#[trigger] views(parts@)[j]),
        decreases parts@.len() - i,
    {
        if !(parts[i].text.is_some() && union_members(&parts[i]) == 1) {
            proof {
                assert(!is_text_part(views(parts@)[i as int]));
            }
            return false;
        }
        i += 1;
    }
    true
}

fn parse_system_parts(parts: &Vec<Part>, ws: &mut Vec<ConversionWarning>) -> (r: Vec<ContentBlock>)
    ensures
        (views(r@), views(final(ws)@)) == system_blocks(views(parts@), views(old(ws)@), parts@.len()),
{
    let ghost ws0 = views(ws@);
    let mut out: Vec<ContentBlock> = Vec::new();
    let mut i: usize = 0;
    while i < parts.len()
        invariant
            i <= parts@.len(),
            (views(out@), views(ws@)) == system_blocks(views(parts@), ws0, i as nat),
        decreases parts@.len() - i,
    {
        let p = &parts[i];
        proof {
            assert(views(parts@)[i as int] == p@);
        }
        if p.text.is_some() && union_members(p) == 1 {
            out.push(system_text_block(p));
        } else {
            parse_warn(
                ws,
                GOOGLE_GENERATE_CONTENT,
                WarningCode::MalformedField,
                cat2("/systemInstruction/parts/", dec_usize(i).as_str()).as_str(),
                "systemInstruction accepts text parts only; the part was kept as an opaque block and round-trips verbatim",
            );
            out.push(keep_part(p));
        }
        i += 1;
    }
    out
}

fn parse_tools(entries: &Vec<crate::formats::google_generate_content::types::Tool>) -> (r: Vec<Tool>)
    ensures
        views(r@) == all_tools(views(entries@), entries@.len()),
{
    let mut tools: Vec<Tool> = Vec::new();
    let mut i: usize = 0;
    while i < entries.len()
        invariant
            i <= entries@.len(),
            views(tools@) == all_tools(views(entries@), i as nat),
        decreases entries@.len() - i,
    {
        let e = &entries[i];
        let ghost t0 = views(tools@);
        proof {
            assert(views(entries@)[i as int] == e@);
        }
        if let Some(decls) = &e.function_declarations {
            let mut k: usize = 0;
            while k < decls.len()
                invariant
                    k <= decls@.len(),
                    views(tools@) == with_declared(t0, views(decls@), k as nat),
                decreases decls@.len() - k,
            {
                let d = &decls[k];
                tools.push(
                    Tool::Function(
                        FunctionTool {
                            name: d.name.clone(),
                            description: dup_opt(&d.description),
                            parameters: dup_opt(&d.parameters_json_schema),
                            strict: None,
                            cache: None,
                            extra: Extra::from_unknown(GOOGLE_GENERATE_CONTENT, d.extra.copy()),
                        },
                    ),
                );
                k += 1;
            }
        }
        if !e.extra.is_empty() {
            tools.push(
                Tool::Opaque {
                    format: GOOGLE_GENERATE_CONTENT.to_owned(),
                    value: Json::object(e.extra.copy()),
                },
            );
        }
        i += 1;
    }
    tools
}

fn put_names(o: &mut JsonMap, names: &Option<Vec<String>>)
    ensures
        final(o)@ == with_names(old(o)@, "allowedFunctionNames"@, opt_views(*names)),
{
    if let Some(n) = names {
        o.set("allowedFunctionNames", make_strings(n));
    }
}

fn read_calling(f: &FunctionCallingConfig) -> (r: (Option<ToolChoice>, JsonMap))
    ensures
        (opt_view(r.0), r.1@) == calling_choice(f@),
{
    let mut mirror = f.extra.copy();
    let mode = f.mode.as_ref();
    if opt_is(mode, "AUTO") && f.allowed_function_names.is_none() {
        return (Some(ToolChoice::Auto), mirror);
    }
    if opt_is(mode, "NONE") && f.allowed_function_names.is_none() {
        return (Some(ToolChoice::Disabled), mirror);
    }
    if opt_is(mode, "ANY") {
        if let Some(names) = &f.allowed_function_names {
            if names.len() == 1 {
                return (Some(ToolChoice::Tool { name: names[0].clone() }), mirror);
            }
        }
        put_names(&mut mirror, &f.allowed_function_names);
        return (Some(ToolChoice::Required), mirror);
    }
    if let Some(m) = &f.mode {
        mirror.set("mode", Json::Str(m.clone()));
    }
    put_names(&mut mirror, &f.allowed_function_names);
    (None, mirror)
}

fn parse_tool_config(tc: &ToolConfig, ns: &mut JsonMap) -> (r: Option<ToolChoice>)
    ensures
        (opt_view(r), final(ns)@) == parsed_tool_config(tc@, old(ns)@),
{
    let mut outer = tc.extra.copy();
    let mut choice = None;
    if let Some(f) = &tc.function_calling_config {
        let (c, mirror) = read_calling(f);
        choice = c;
        put_object(&mut outer, "functionCallingConfig", mirror);
    }
    put_object(ns, "toolConfig", outer);
    choice
}

fn effort_of_level(s: &String) -> (r: Effort)
    ensures
        r@ == level_effort(s@),
{
    if text_is(s, "MINIMAL") {
        Effort::Minimal
    } else if text_is(s, "LOW") {
        Effort::Low
    } else if text_is(s, "MEDIUM") {
        Effort::Medium
    } else if text_is(s, "HIGH") {
        Effort::High
    } else {
        Effort::Other(s.clone())
    }
}

fn read_reasoning(tc: &Option<ThinkingConfig>) -> (r: Option<Reasoning>)
    ensures
        opt_view(r) == match opt_view(*tc) {
            Some(tc) => config_reasoning(tc),
            None => None,
        },
{
    match tc {
        Some(tc) => {
            if tc.include_thoughts.is_none() && tc.thinking_level.is_none() {
                return None;
            }
            let effort = match &tc.thinking_level {
                Some(l) => Some(effort_of_level(l)),
                None => None,
            };
            Some(Reasoning { enabled: None, effort, include_thoughts: tc.include_thoughts, extra: Extra::new() })
        },
        None => None,
    }
}

fn read_output(gc: &GenerationConfig) -> (r: (Option<OutputFormat>, JsonMap))
    ensures
        (opt_view(r.0), r.1@) == config_output(gc@),
{
    let mut mirror = gc.extra.copy();
    if opt_is(gc.response_mime_type.as_ref(), "application/json") {
        let f = match &gc.response_json_schema {
            Some(s) => OutputFormat::JsonSchema {
                name: None,
                description: None,
                schema: s.copy(),
                strict: None,
            },
            None => OutputFormat::JsonObject,
        };
        return (Some(f), mirror);
    }
    if let Some(m) = &gc.response_mime_type {
        mirror.set("responseMimeType", Json::Str(m.clone()));
    }
    if let Some(s) = &gc.response_json_schema {
        mirror.set("responseJsonSchema", s.copy());
    }
    (None, mirror)
}

fn apply_config(r: &mut Request, gc: &Option<GenerationConfig>, ns: &mut JsonMap)
    ensures
        final(r)@ == with_config(old(r)@, opt_view(*gc)),
        final(ns)@ == match opt_view(*gc) {
            Some(gc) => with_object(old(ns)@, "generationConfig"@, config_mirror(gc)),
            None => old(ns)@,
        },
{
    if let Some(gc) = gc {
        r.max_output_tokens = gc.max_output_tokens;
        r.temperature = dup_opt(&gc.temperature);
        r.top_p = dup_opt(&gc.top_p);
        r.top_k = gc.top_k;
        r.stop_sequences = dup_opt_vec(&gc.stop_sequences);
        r.seed = gc.seed;
        r.frequency_penalty = dup_opt(&gc.frequency_penalty);
        r.presence_penalty = dup_opt(&gc.presence_penalty);
        let (f, m) = read_output(gc);
        r.output_format = f;
        r.reasoning = read_reasoning(&gc.thinking_config);
        let mut mirror = m;
        if let Some(tc) = &gc.thinking_config {
            put_object(&mut mirror, "thinkingConfig", tc.extra.copy());
        }
        put_object(ns, "generationConfig", mirror);
    }
}

/// Builds the IR request of a wire request.
pub fn request_from_wire(w: GenerateContentRequest) -> (r: (Request, Vec<ConversionWarning>))
    ensures
        (r.0@, views(r.1@)) == google_request_of(w@),
{
    let mut ws: Vec<ConversionWarning> = Vec::new();
    let mut ns = w.extra;
    let mut req = Request::new();
    let mut messages: Vec<Message> = Vec::new();
    if let Some(si) = &w.system_instruction {
        let blocks = parse_system_parts(&si.parts, &mut ws);
        if all_text_parts(&si.parts) {
            if blocks.len() > 0 {
                req.system = Some(blocks);
            }
            put_object(&mut ns, "systemInstruction", si.extra.copy());
        } else {
            let mut m = Message::new(Role::System, blocks);
            m.extra = Extra::from_unknown(GOOGLE_GENERATE_CONTENT, si.extra.copy());
            let ghost mv = m@;
            messages.push(m);
            proof {
                assert(views(messages@) =~= seq![mv]);
            }
        }
    }
    parse_contents(&mut messages, &w.contents, &mut ws);
    req.messages = messages;
    if let Some(e) = &w.tools {
        req.tools = Some(parse_tools(e));
    }
    if let Some(tc) = &w.tool_config {
        req.tool_choice = parse_tool_config(tc, &mut ns);
    }
    apply_config(&mut req, &w.generation_config, &mut ns);
    req.extra = Extra::from_unknown(GOOGLE_GENERATE_CONTENT, ns);
    (req, ws)
}

/// Reads a request from JSON.
pub fn request_from_json(j: &Json) -> (r: Result<(Request, Vec<ConversionWarning>), String>)
    ensures
        match r {
            Ok(v) => google_parsed_request(j@) == Ok::<(RequestV, Seq<ConversionWarningV>), Seq<char>>(
                (v.0@, views(v.1@)),
            ),
            Err(e) => google_parsed_request(j@) == Err::<(RequestV, Seq<ConversionWarningV>), Seq<char>>(e@),
        },
{
    match GenerateContentRequest::from_json(j) {
        Err(e) => Err(e),
        Ok(w) => Ok(request_from_wire(w)),
    }
}

fn body_error(what: &str, reason: &String, body: &[u8]) -> (r: Error)
    ensures
        r@ == google_parse_error(what@, reason@, body@),
{
    Error::parse(cat4("invalid Google ", what, ": ", reason.as_str()).as_str(), body)
}

/// Parses a request body into the IR.
pub fn request_to_ir(body: &[u8]) -> (r: Result<(Request, Vec<ConversionWarning>), Error>)
    ensures
        match r {
            Ok(v) => google_request_outcome(body@) == Ok::<(RequestV, Seq<ConversionWarningV>), ErrorV>(
                (v.0@, views(v.1@)),
            ),
            Err(e) => google_request_outcome(body@) == Err::<(RequestV, Seq<ConversionWarningV>), ErrorV>(e@),
        },
        forall|j: JsonV|
            exact_json(j, 127) && body@ == #[trigger] json_to_bytes(j) && google_parsed_request(j) is Ok ==> match r {
                Ok(v) => google_parsed_request(j)->Ok_0 == (v.0@, views(v.1@)),
                Err(_) => false,
            },
{
    match parse_slice(body) {
        Err(e) => Err(body_error("request", &e, body)),
        Ok(j) => match request_from_json(&j) {
            Err(e) => Err(body_error("request", &e, body)),
            Ok(v) => Ok(v),
        },
    }
}

fn read_first_candidate(w: &GenerateContentResponse, ws: &mut Vec<ConversionWarning>) -> (r: (Vec<ContentBlock>, Option<StopReason>))
    requires
        old(ws)@.len() == 0,
    ensures
        (views(r.0@), opt_view(r.1), views(final(ws)@)) == first_candidate(w@),
{
    proof {
        assert(views(ws@) =~= Seq::<ConversionWarningV>::empty());
    }
    if w.candidates.len() == 0 {
        let blocked = match &w.prompt_feedback {
            Some(p) => p.block_reason.is_some(),
            None => false,
        };
        if blocked {
            return (Vec::new(), Some(StopReason::ContentFilter));
        }
        parse_warn(
            ws,
            GOOGLE_GENERATE_CONTENT,
            WarningCode::MalformedField,
            "/candidates",
            "response carries neither candidates nor a prompt block reason",
        );
        return (Vec::new(), None);
    }
    if w.candidates.len() > 1 {
        parse_warn(
            ws,
            GOOGLE_GENERATE_CONTENT,
            WarningCode::MultipleCandidates,
            "/candidates",
            cat3(
                "response carries ",
                dec_usize(w.candidates.len()).as_str(),
                " candidates; only the first was read (the rest remain in raw)",
            ).as_str(),
        );
    }
    let c = &w.candidates[0];
    proof {
        assert(w@.candidates[0] == c@);
    }
    let blocks = match &c.content {
        Some(content) => parse_model_parts(&content.parts, "/candidates/0/content", ws),
        None => Vec::new(),
    };
    let stop = match &c.finish_reason {
        Some(s) => Some(map_finish_reason(s.as_str())),
        None => None,
    };
    (blocks, stop)
}

/// Reads a response from JSON.
pub fn response_from_json(j: Json, meta: &ResponseMeta) -> (r: Result<Response, String>)
    ensures
        match r {
            Ok(v) => google_parsed_response(j@, meta.status, meta.headers) == Ok::<ResponseV, Seq<char>>(v@),
            Err(e) => google_parsed_response(j@, meta.status, meta.headers) == Err::<ResponseV, Seq<char>>(e@),
        },
{
    let w = match GenerateContentResponse::from_json(&j) {
        Err(e) => {
            return Err(e);
        },
        Ok(w) => w,
    };
    let mut ws: Vec<ConversionWarning> = Vec::new();
    let (blocks, stop) = read_first_candidate(&w, &mut ws);
    let message = Message::assistant(blocks);
    let stop_reason = normalize_stop_reason(&message, stop);
    let usage = read_usage(&w.usage_metadata, &mut ws);
    Ok(
        Response {
            message,
            id: w.response_id,
            model: w.model_version,
            stop_reason,
            usage,
            status: meta.status,
            headers: clone_headers(&meta.headers),
            raw: Some(j),
            warnings: ws,
        },
    )
}

/// Parses a 2xx response body.
pub fn response_to_ir(body: &[u8], meta: &ResponseMeta) -> (r: Result<Response, Error>)
    ensures
        match r {
            Ok(v) => google_response_outcome(body@, meta.status, meta.headers) == Ok::<ResponseV, ErrorV>(v@),
            Err(e) => google_response_outcome(body@, meta.status, meta.headers) == Err::<ResponseV, ErrorV>(e@),
        },
{
    match parse_slice(body) {
        Err(e) => Err(body_error("response", &e, body)),
        Ok(j) => match response_from_json(j, meta) {
            Err(e) => Err(body_error("response", &e, body)),
            Ok(v) => Ok(v),
        },
    }
}

} // verus!
