//! IR requests as Anthropic Messages request JSON.

use vstd::prelude::*;
use crate::convert::sampling::{check_finite_sampling, float_json, make_float, sampling_check};
use crate::convert::{ConversionWarning, ConversionWarningV, ConvertOptions, ConvertOptionsV, WarningCode};
use crate::error::{ConversionError, ConversionErrorV};
use crate::format::{AnthropicOptions, AnthropicOptionsV, ANTHROPIC_MESSAGES};
use crate::formats::anthropic_messages::blocks::{cache_control, cache_control_value, with_cache};
use crate::formats::anthropic_messages::layout::{layout, merge_plans, merged_plans, plan_messages, WirePlanV};
use crate::formats::anthropic_messages::messages::{build_messages, resolve_pending, resolved, wire_messages, Wire, WireV};
use crate::formats::anthropic_messages::system::{build_system, system_value};
use crate::history::{apply_missing_thinking, apply_orphan_policy, filled, middle_warnings, repaired, thinking_warnings, trailing_warnings, OrphanTexts, OrphanTextsV, Pending, PendingV};
use crate::ir::{effort_name, enables_thinking, extra_has, extra_merged, request_enables_thinking, Effort, EffortV, FunctionTool, FunctionToolV, Message, MessageV, OutputFormat, OutputFormatV, Reasoning, ReasoningV, Request, RequestV, Role, Tool, ToolChoice, ToolChoiceV, ToolV};
use crate::json::{json_int, json_strings, make1, make2, make3, make_strings, obj_get, obj_set, object1, object2, object3, with_member, Json, JsonMap, JsonV, ObjV};
use crate::merge::MergeLog;
use crate::model::{dup_vec, group_views, opt_view, opt_views, views, Dup};
use crate::sink::{empty_sink, merge_noted, warned, warned_if, Sink, SinkV};
use crate::text::{cat2, cat3, dec_usize, decimal, join, joined, text_is};

verus! {

broadcast use group_views;

/// A built request body, before the strict gate and hooks.
#[derive(Debug)]
pub struct ChatBody {
    /// The request JSON, with all `extra` merged.
    pub body: Json,
    /// Build-side warnings.
    pub warnings: Vec<ConversionWarning>,
    /// Log of the `extra` merges.
    pub merge_log: MergeLog,
    /// Location and role of each wire message.
    pub message_pointers: Vec<(String, Role)>,
    /// Top-level keys that the conversion itself generated.
    pub generated_keys: Vec<String>,
}

/// The mathematical value of a [`ChatBody`].
pub struct ChatBodyV {
    pub body: JsonV,
    pub warnings: Seq<ConversionWarningV>,
    pub merge_log: Seq<Seq<char>>,
    pub message_pointers: Seq<(Seq<char>, Role)>,
    pub generated_keys: Seq<Seq<char>>,
}

impl View for ChatBody {
    type V = ChatBodyV;

    open spec fn view(&self) -> ChatBodyV {
        ChatBodyV {
            body: self.body@,
            warnings: views(self.warnings@),
            merge_log: self.merge_log@,
            message_pointers: views(self.message_pointers@),
            generated_keys: views(self.generated_keys@),
        }
    }
}

/// A build-side warning of this format.
pub open spec fn noted(s: SinkV, code: WarningCode, location: Seq<char>, message: Seq<char>) -> SinkV {
    warned(s, ANTHROPIC_MESSAGES@, code, location, message)
}

/// The `user_id` members among the first `n`.
pub open spec fn user_ids(m: ObjV, n: nat) -> ObjV
    decreases n,
{
    if n == 0 || n > m.len() {
        Seq::empty()
    } else if m[n - 1].0 == "user_id"@ {
        obj_set(user_ids(m, (n - 1) as nat), m[n - 1].0, m[n - 1].1)
    } else {
        user_ids(m, (n - 1) as nat)
    }
}

/// The names of the other members among the first `n`.
pub open spec fn other_keys(m: ObjV, n: nat) -> Seq<Seq<char>>
    decreases n,
{
    if n == 0 || n > m.len() {
        Seq::empty()
    } else if m[n - 1].0 == "user_id"@ {
        other_keys(m, (n - 1) as nat)
    } else {
        other_keys(m, (n - 1) as nat).push(m[n - 1].0)
    }
}

/// Metadata: only `user_id` maps.
pub open spec fn metadata_stage(metadata: Option<ObjV>, body: ObjV, s: SinkV) -> (ObjV, SinkV) {
    match metadata {
        Some(m) => {
            let ids = user_ids(m, m.len());
            let dropped = other_keys(m, m.len());
            (
                if ids.len() > 0 { obj_set(body, "metadata"@, JsonV::Object(ids)) } else { body },
                warned_if(
                    dropped.len() > 0,
                    s,
                    ANTHROPIC_MESSAGES@,
                    WarningCode::MetadataDropped,
                    "/metadata"@,
                    "Anthropic metadata only accepts user_id; dropped keys: "@ + joined(dropped, ", "@),
                ),
            )
        },
        None => (body, s),
    }
}

/// Sampling parameters that have a field.
pub open spec fn sampling_fields(req: RequestV, body: ObjV) -> ObjV {
    let b1 = match req.stop_sequences {
        Some(v) => obj_set(body, "stop_sequences"@, json_strings(v)),
        None => body,
    };
    let b2 = match req.temperature {
        Some(v) => obj_set(b1, "temperature"@, float_json(v)),
        None => b1,
    };
    let b3 = match req.top_p {
        Some(v) => obj_set(b2, "top_p"@, float_json(v)),
        None => b2,
    };
    match req.top_k {
        Some(v) => obj_set(b3, "top_k"@, json_int(v as int)),
        None => b3,
    }
}

/// Warnings for the parameters that have none.
pub open spec fn sampling_warnings(req: RequestV, s: SinkV) -> SinkV {
    let s1 = warned_if(
        req.seed is Some,
        s,
        ANTHROPIC_MESSAGES@,
        WarningCode::SamplingParameterDropped,
        "/seed"@,
        "seed is not supported by Anthropic Messages; dropped"@,
    );
    let s2 = warned_if(
        req.frequency_penalty is Some,
        s1,
        ANTHROPIC_MESSAGES@,
        WarningCode::SamplingParameterDropped,
        "/frequency_penalty"@,
        "frequency_penalty is not supported by Anthropic Messages; dropped"@,
    );
    let s3 = warned_if(
        req.presence_penalty is Some,
        s2,
        ANTHROPIC_MESSAGES@,
        WarningCode::SamplingParameterDropped,
        "/presence_penalty"@,
        "presence_penalty is not supported by Anthropic Messages; dropped"@,
    );
    warned_if(
        req.cache_key is Some,
        s3,
        ANTHROPIC_MESSAGES@,
        WarningCode::CacheKeyDropped,
        "/prompt_cache_key"@,
        "cache_key has no Anthropic equivalent; dropped"@,
    )
}

/// The schema of a tool without parameters.
pub open spec fn empty_schema() -> JsonV {
    object3(
        "type"@,
        JsonV::Str("object"@),
        "properties"@,
        JsonV::Object(Seq::empty()),
        "additionalProperties"@,
        JsonV::Bool(false),
    )
}

/// The definition of a function tool, before its provider data.
pub open spec fn function_tool(f: FunctionToolV) -> JsonV {
    let o1 = obj_set(Seq::empty(), "name"@, JsonV::Str(f.name));
    let o2 = match f.description {
        Some(d) => obj_set(o1, "description"@, JsonV::Str(d)),
        None => o1,
    };
    let o3 = obj_set(
        o2,
        "input_schema"@,
        match f.parameters {
            Some(p) => p,
            None => empty_schema(),
        },
    );
    let o4 = match f.strict {
        Some(b) => obj_set(o3, "strict"@, JsonV::Bool(b)),
        None => o3,
    };
    with_cache(JsonV::Object(o4), f.cache)
}

/// One more tool.
pub open spec fn tool_step(prev: (Seq<JsonV>, SinkV), t: ToolV) -> (Seq<JsonV>, SinkV) {
    let (out, s) = prev;
    let loc = "/tools/"@ + decimal(out.len());
    match t {
        ToolV::Function(f) => {
            let s1 = warned_if(
                f.parameters is None,
                s,
                ANTHROPIC_MESSAGES@,
                WarningCode::EmptyParametersSynthesized,
                loc + "/input_schema"@,
                "input_schema is required; synthesized an explicit empty-parameter schema"@,
            );
            (
                out.push(extra_merged(f.extra, ANTHROPIC_MESSAGES@, function_tool(f))),
                merge_noted(s1, f.extra, ANTHROPIC_MESSAGES@, loc),
            )
        },
        ToolV::Opaque { format, value } => if format == ANTHROPIC_MESSAGES@ {
            (out.push(value), s)
        } else {
            (
                out,
                noted(
                    s,
                    WarningCode::OpaqueDropped,
                    loc,
                    "opaque tool belongs to format `"@ + format + "`; dropped"@,
                ),
            )
        },
    }
}

/// The first `n` tools.
pub open spec fn tool_values(tools: Seq<ToolV>, s: SinkV, n: nat) -> (Seq<JsonV>, SinkV)
    decreases n,
{
    if n == 0 || n > tools.len() {
        (Seq::empty(), s)
    } else {
        tool_step(tool_values(tools, s, (n - 1) as nat), tools[n - 1])
    }
}

/// Tools: an empty list replays as such, a list that was dropped whole leaves
/// no key. The flag tells whether any tool reached the wire.
pub open spec fn tools_stage(tools: Option<Seq<ToolV>>, body: ObjV, s: SinkV) -> (bool, ObjV, SinkV) {
    match tools {
        Some(tools) => {
            let (out, s1) = tool_values(tools, s, tools.len());
            (
                out.len() > 0,
                if out.len() > 0 || tools.len() == 0 {
                    obj_set(body, "tools"@, JsonV::Array(out))
                } else {
                    body
                },
                s1,
            )
        },
        None => (false, body, s),
    }
}

/// The `tool_choice` object of a choice.
pub open spec fn choice_value(c: ToolChoiceV) -> JsonV {
    match c {
        ToolChoiceV::Auto => object1("type"@, JsonV::Str("auto"@)),
        ToolChoiceV::Disabled => object1("type"@, JsonV::Str("none"@)),
        ToolChoiceV::Required => object1("type"@, JsonV::Str("any"@)),
        ToolChoiceV::Tool { name } => object2("type"@, JsonV::Str("tool"@), "name"@, JsonV::Str(name)),
    }
}

/// Tool choice and parallel calls, which share one key; neither is emitted
/// without tools.
pub open spec fn tool_choice_stage(
    choice: Option<ToolChoiceV>,
    parallel: Option<bool>,
    has_tools: bool,
    body: ObjV,
    s: SinkV,
) -> (ObjV, SinkV) {
    if !has_tools {
        let s1 = warned_if(
            choice is Some,
            s,
            ANTHROPIC_MESSAGES@,
            WarningCode::ToolChoiceIgnored,
            "/tool_choice"@,
            "tool_choice is meaningless without tools; not emitted"@,
        );
        (
            body,
            warned_if(
                parallel is Some,
                s1,
                ANTHROPIC_MESSAGES@,
                WarningCode::ParallelToolCallsIgnored,
                "/tool_choice"@,
                "parallel_tool_calls is meaningless without tools; not emitted"@,
            ),
        )
    } else {
        match choice {
            Some(c) => match parallel {
                Some(p) => if c is Disabled {
                    (
                        obj_set(body, "tool_choice"@, choice_value(c)),
                        noted(
                            s,
                            WarningCode::ParallelToolCallsIgnored,
                            "/tool_choice"@,
                            "parallel_tool_calls is meaningless on tool_choice none; not emitted"@,
                        ),
                    )
                } else {
                    (
                        obj_set(
                            body,
                            "tool_choice"@,
                            with_member(choice_value(c), "disable_parallel_tool_use"@, JsonV::Bool(!p)),
                        ),
                        s,
                    )
                },
                None => (obj_set(body, "tool_choice"@, choice_value(c)), s),
            },
            None => if parallel == Some(false) {
                (
                    obj_set(
                        body,
                        "tool_choice"@,
                        object2(
                            "type"@,
                            JsonV::Str("auto"@),
                            "disable_parallel_tool_use"@,
                            JsonV::Bool(true),
                        ),
                    ),
                    s,
                )
            } else {
                (body, s)
            },
        }
    }
}

/// Switch and effort contradict each other.
pub open spec fn reasoning_conflict(enabled: Option<bool>, effort: Option<EffortV>) -> bool {
    effort is Some && ((enabled == Some(true) && effort->0 is Disabled) || (enabled == Some(false)
        && !(effort->0 is Disabled)))
}

/// The effort tier in Anthropic's set, if it is one.
pub open spec fn effort_out(effort: Option<EffortV>) -> Option<Seq<char>> {
    match effort {
        Some(e) => if e is Disabled || e is Minimal { None } else { Some(effort_name(e)) },
        None => None,
    }
}

/// The `thinking` object: switched on or off, and showing thoughts or not. An
/// effort tier alone makes room for the display flag.
pub open spec fn thinking_config(
    enabled: Option<bool>,
    effort: Option<Seq<char>>,
    thoughts: Option<bool>,
) -> Option<JsonV> {
    let display = JsonV::Str(if thoughts == Some(true) { "summarized"@ } else { "omitted"@ });
    match enabled {
        Some(true) => if thoughts is Some {
            Some(with_member(object1("type"@, JsonV::Str("adaptive"@)), "display"@, display))
        } else {
            Some(object1("type"@, JsonV::Str("adaptive"@)))
        },
        Some(false) => Some(object1("type"@, JsonV::Str("disabled"@))),
        None => if thoughts is Some && effort is Some {
            Some(object2("type"@, JsonV::Str("adaptive"@), "display"@, display))
        } else {
            None
        },
    }
}

/// Reasoning: the `thinking` object and the effort.
pub open spec fn reasoning_stage(
    r: ReasoningV,
    body: ObjV,
    config: ObjV,
    s: SinkV,
) -> (ObjV, ObjV, SinkV) {
    let conflict = reasoning_conflict(r.enabled, r.effort);
    let enabled = if conflict { None } else { r.enabled };
    let effort = effort_out(r.effort);
    let s1 = warned_if(
        conflict,
        s,
        ANTHROPIC_MESSAGES@,
        WarningCode::ReasoningConflict,
        "/thinking"@,
        "Reasoning.enabled conflicts with effort; effort wins"@,
    );
    let s2 = if r.effort is Some && effort is None {
        noted(
            s1,
            WarningCode::EffortUnsupported,
            "/output_config/effort"@,
            "effort `"@ + effort_name(r.effort->0)
                + "` is outside Anthropic's set (low/medium/high/xhigh/max); dropped"@,
        )
    } else {
        s1
    };
    let s3 = if r.include_thoughts is Some && enabled == Some(false) {
        noted(
            s2,
            WarningCode::IncludeThoughtsUnsupported,
            "/thinking"@,
            "include_thoughts has no carrier on thinking {type: disabled}; dropped"@,
        )
    } else if r.include_thoughts is Some && enabled is None && effort is None {
        noted(
            s2,
            WarningCode::IncludeThoughtsUnsupported,
            "/thinking"@,
            "include_thoughts without an enabling thinking configuration has no carrier; dropped"@,
        )
    } else {
        s2
    };
    (
        match thinking_config(enabled, effort, r.include_thoughts) {
            Some(t) => obj_set(body, "thinking"@, t),
            None => body,
        },
        match effort {
            Some(e) => obj_set(config, "effort"@, JsonV::Str(e)),
            None => config,
        },
        s3,
    )
}

/// The names of the structured-output details that are set.
pub open spec fn format_details(name: bool, description: bool, strict: bool) -> Seq<Seq<char>> {
    let d0 = Seq::<Seq<char>>::empty();
    let d1 = if name { d0.push("name"@) } else { d0 };
    let d2 = if description { d1.push("description"@) } else { d1 };
    if strict { d2.push("strict"@) } else { d2 }
}

/// Structured output: a schema maps, its details and schema-less mode do not.
pub open spec fn output_stage(f: Option<OutputFormatV>, config: ObjV, s: SinkV) -> (ObjV, SinkV) {
    match f {
        Some(OutputFormatV::JsonSchema { name, description, schema, strict }) => {
            let details = format_details(name is Some, description is Some, strict is Some);
            (
                obj_set(
                    config,
                    "format"@,
                    object2("type"@, JsonV::Str("json_schema"@), "schema"@, schema),
                ),
                warned_if(
                    details.len() > 0,
                    s,
                    ANTHROPIC_MESSAGES@,
                    WarningCode::OutputFormatDetailDropped,
                    "/output_config/format"@,
                    "Anthropic json_schema output has no channel for: "@ + joined(details, ", "@),
                ),
            )
        },
        Some(OutputFormatV::JsonObject) => (
            config,
            noted(
                s,
                WarningCode::JsonModeUnsupported,
                "/output_config/format"@,
                "Anthropic has no schema-less JSON mode; output_format dropped"@,
            ),
        ),
        None => (config, s),
    }
}

/// Provider data of the reasoning configuration merges into `thinking`.
pub open spec fn reasoning_extra_stage(r: Option<ReasoningV>, body: ObjV, s: SinkV) -> (ObjV, SinkV) {
    match r {
        Some(r) => if extra_has(r.extra, ANTHROPIC_MESSAGES@) {
            let base = match obj_get(body, "thinking"@) {
                Some(t) => t,
                None => JsonV::Object(Seq::empty()),
            };
            (
                obj_set(body, "thinking"@, extra_merged(r.extra, ANTHROPIC_MESSAGES@, base)),
                merge_noted(s, r.extra, ANTHROPIC_MESSAGES@, "/thinking"@),
            )
        } else {
            (body, s)
        },
        None => (body, s),
    }
}

/// The names of the members, in order.
pub open spec fn key_names(o: ObjV) -> Seq<Seq<char>> {
    o.map_values(|p: (Seq<char>, JsonV)| p.0)
}

/// The wording of the history repairs.
pub open spec fn orphan_texts() -> OrphanTextsV {
    OrphanTextsV {
        middle: "assistant message contains tool calls without matching results mid-conversation; never repaired"@,
        dropped_before: "dropped "@,
        dropped_after: " unmatched trailing tool call(s)"@,
        thinking: "dropping trailing tool calls left a thinking block orphaned"@,
        appended_before: "appended "@,
        appended_after: " synthetic error tool result(s) for unmatched trailing tool calls"@,
    }
}

/// The repaired history and the warnings that the repairs defer.
pub open spec fn prepared(req: RequestV, conv: ConvertOptionsV) -> (Seq<MessageV>, Seq<PendingV>) {
    let m1 = repaired(req.messages, conv.orphan_tool_calls);
    let p1 = Seq::<PendingV>::empty() + middle_warnings(
        req.messages,
        orphan_texts().middle,
        req.messages.len(),
    ) + trailing_warnings(req.messages, conv.orphan_tool_calls, orphan_texts());
    if enables_thinking(req.reasoning) {
        (
            filled(m1, conv.fill_missing_thinking),
            p1 + thinking_warnings(
                m1,
                conv.fill_missing_thinking,
                "inserted a placeholder thinking block before tool calls"@,
                "assistant message carries tool calls but no thinking block while the request enables thinking"@,
                m1.len(),
            ),
        )
    } else {
        (m1, p1)
    }
}

/// The planned wire messages, with hoisted messages and deferred warnings.
pub open spec fn planned(
    msgs: Seq<MessageV>,
    pending: Seq<PendingV>,
    opts: AnthropicOptionsV,
) -> (Seq<usize>, Seq<WirePlanV>, Seq<PendingV>) {
    let l = layout(msgs, pending, opts.downgrade_mid_system, msgs.len());
    if opts.merge_consecutive_roles {
        let (plans, notes) = merged_plans(l.plans, l.pending, msgs, l.plans.len());
        (l.hoisted, plans, notes)
    } else {
        (l.hoisted, l.plans, l.pending)
    }
}

/// The body after the message array: every remaining request field.
pub open spec fn request_fields(
    req: RequestV,
    streaming: bool,
    body: ObjV,
    s: SinkV,
) -> (ObjV, SinkV) {
    let (b1, s1) = metadata_stage(req.metadata, body, s);
    let b2 = sampling_fields(req, b1);
    let s2 = sampling_warnings(req, s1);
    let b3 = if streaming { obj_set(b2, "stream"@, JsonV::Bool(true)) } else { b2 };
    let (has_tools, b4, s4) = tools_stage(req.tools, b3, s2);
    let (b5, s5) = tool_choice_stage(req.tool_choice, req.parallel_tool_calls, has_tools, b4, s4);
    let (b6, c6, s6) = match req.reasoning {
        Some(r) => reasoning_stage(r, b5, Seq::empty(), s5),
        None => (b5, Seq::empty(), s5),
    };
    let (c7, s7) = output_stage(req.output_format, c6, s6);
    let b7 = if c7.len() > 0 { obj_set(b6, "output_config"@, JsonV::Object(c7)) } else { b6 };
    reasoning_extra_stage(req.reasoning, b7, s7)
}

/// The token limit: that of the request, or else the configured default.
pub open spec fn token_limit(req: RequestV, opts: AnthropicOptionsV) -> Option<u32> {
    match req.max_output_tokens {
        Some(n) => Some(n),
        None => opts.default_max_tokens,
    }
}

/// The body up to and including the system channel.
pub open spec fn body_start(model: Seq<char>, limit: u32, system: Option<JsonV>) -> ObjV {
    let b = obj_set(
        obj_set(Seq::empty(), "model"@, JsonV::Str(model)),
        "max_tokens"@,
        json_int(limit as int),
    );
    match system {
        Some(v) => obj_set(b, "system"@, v),
        None => b,
    }
}

/// The body after the wire messages are known.
pub open spec fn body_end(req: RequestV, streaming: bool, start: ObjV, w: WireV, pending: Seq<PendingV>) -> ChatBodyV {
    let b1 = obj_set(start, "messages"@, JsonV::Array(w.wire));
    let s1 = SinkV {
        warnings: w.sink.warnings + resolved(pending, w.placed, pending.len()),
        log: w.sink.log,
    };
    let (b2, s2) = request_fields(req, streaming, b1, s1);
    let s3 = merge_noted(s2, req.extra, ANTHROPIC_MESSAGES@, Seq::empty());
    ChatBodyV {
        body: extra_merged(req.extra, ANTHROPIC_MESSAGES@, JsonV::Object(b2)),
        warnings: s3.warnings,
        merge_log: s3.log,
        message_pointers: w.pointers,
        generated_keys: key_names(b2),
    }
}

/// No wire message yet, for `n` IR messages.
pub open spec fn wire_start(n: nat, sink: SinkV) -> WireV {
    WireV {
        wire: Seq::empty(),
        pointers: Seq::empty(),
        placed: Seq::new(n, |i: int| None),
        sink,
    }
}

/// The request body that a request becomes, or the error that prevents it.
pub open spec fn chat_body(
    req: RequestV,
    model: Seq<char>,
    opts: AnthropicOptionsV,
    conv: ConvertOptionsV,
    streaming: bool,
) -> Result<ChatBodyV, ConversionErrorV> {
    match sampling_check(req.temperature, req.top_p, req.frequency_penalty, req.presence_penalty) {
        Err(e) => Err(e),
        Ok(_) => {
            let (msgs, notes) = prepared(req, conv);
            let (hoisted, plans, pending) = planned(msgs, notes, opts);
            match token_limit(req, opts) {
                None => Err(
                    ConversionErrorV::MissingRequired {
                        what: "max_tokens (set Request.max_output_tokens or AnthropicOptions.default_max_tokens)"@,
                        location: "/max_tokens"@,
                    },
                ),
                Some(limit) => match system_value(req.system, msgs, hoisted, empty_sink()) {
                    Err(e) => Err(e),
                    Ok((system, s)) => match wire_messages(
                        wire_start(msgs.len(), s),
                        plans,
                        msgs,
                        conv.thinking_as_text,
                        plans.len(),
                    ) {
                        Err(e) => Err(e),
                        Ok(w) => Ok(body_end(req, streaming, body_start(model, limit, system), w, pending)),
                    },
                },
            }
        },
    }
}

fn build_metadata(metadata: &Option<JsonMap>, body: &mut JsonMap, sink: &mut Sink)
    ensures
        (final(body)@, final(sink)@) == metadata_stage(opt_view(*metadata), old(body)@, old(sink)@),
{
    let m = match metadata {
        Some(m) => m,
        None => {
            return;
        },
    };
    let mut ids = JsonMap::new();
    let mut dropped: Vec<String> = Vec::new();
    let mut i: usize = 0;
    while i < m.entries.len()
        invariant
            i <= m.entries@.len(),
            ids@ == user_ids(m@, i as nat),
            views(dropped@) == other_keys(m@, i as nat),
        decreases m.entries@.len() - i,
    {
        let k = &m.entries[i].0;
        let v = &m.entries[i].1;
        proof {
            assert(m@[i as int] == (k@, v@));
        }
        if text_is(k, "user_id") {
            ids.set(k.as_str(), v.copy());
        } else {
            dropped.push(k.clone());
        }
        i += 1;
    }
    if !ids.is_empty() {
        body.set("metadata", Json::object(ids));
    }
    if dropped.len() > 0 {
        sink.warn(
            ANTHROPIC_MESSAGES,
            WarningCode::MetadataDropped,
            "/metadata",
            cat2(
                "Anthropic metadata only accepts user_id; dropped keys: ",
                join(&dropped, ", ").as_str(),
            ).as_str(),
        );
    }
}

fn build_sampling(req: &Request, body: &mut JsonMap, sink: &mut Sink)
    ensures
        final(body)@ == sampling_fields(req@, old(body)@),
        final(sink)@ == sampling_warnings(req@, old(sink)@),
{
    if let Some(v) = &req.stop_sequences {
        body.set("stop_sequences", make_strings(v));
    }
    if let Some(v) = &req.temperature {
        body.set("temperature", make_float(v));
    }
    if let Some(v) = &req.top_p {
        body.set("top_p", make_float(v));
    }
    if let Some(v) = req.top_k {
        body.set("top_k", Json::uint(v as u64));
    }
    if req.seed.is_some() {
        sink.warn(
            ANTHROPIC_MESSAGES,
            WarningCode::SamplingParameterDropped,
            "/seed",
            "seed is not supported by Anthropic Messages; dropped",
        );
    }
    if req.frequency_penalty.is_some() {
        sink.warn(
            ANTHROPIC_MESSAGES,
            WarningCode::SamplingParameterDropped,
            "/frequency_penalty",
            "frequency_penalty is not supported by Anthropic Messages; dropped",
        );
    }
    if req.presence_penalty.is_some() {
        sink.warn(
            ANTHROPIC_MESSAGES,
            WarningCode::SamplingParameterDropped,
            "/presence_penalty",
            "presence_penalty is not supported by Anthropic Messages; dropped",
        );
    }
    if req.cache_key.is_some() {
        sink.warn(
            ANTHROPIC_MESSAGES,
            WarningCode::CacheKeyDropped,
            "/prompt_cache_key",
            "cache_key has no Anthropic equivalent; dropped",
        );
    }
}

fn make_empty_schema() -> (r: Json)
    ensures
        r@ == empty_schema(),
{
    make3(
        "type",
        Json::text("object"),
        "properties",
        Json::object(JsonMap::new()),
        "additionalProperties",
        Json::Bool(false),
    )
}

fn make_function_tool(f: &FunctionTool) -> (r: Json)
    ensures
        r@ == function_tool(f@),
{
    let mut o = JsonMap::new();
    o.set("name", Json::Str(f.name.clone()));
    if let Some(d) = &f.description {
        o.set("description", Json::Str(d.clone()));
    }
    let schema = match &f.parameters {
        Some(p) => p.copy(),
        None => make_empty_schema(),
    };
    o.set("input_schema", schema);
    if let Some(b) = f.strict {
        o.set("strict", Json::Bool(b));
    }
    let mut v = Json::object(o);
    if let Some(h) = &f.cache {
        v.put("cache_control", cache_control_value(h));
    }
    v
}

fn push_tool(out: &mut Vec<Json>, t: &Tool, sink: &mut Sink)
    ensures
        (views(final(out)@), final(sink)@) == tool_step((views(old(out)@), old(sink)@), t@),
{
    let loc = cat2("/tools/", dec_usize(out.len()).as_str());
    match t {
        Tool::Function(f) => {
            if f.parameters.is_none() {
                sink.warn(
                    ANTHROPIC_MESSAGES,
                    WarningCode::EmptyParametersSynthesized,
                    cat2(loc.as_str(), "/input_schema").as_str(),
                    "input_schema is required; synthesized an explicit empty-parameter schema",
                );
            }
            let mut v = make_function_tool(f);
            sink.merge(&f.extra, ANTHROPIC_MESSAGES, &mut v, loc.as_str());
            out.push(v);
        },
        Tool::Opaque { format, value } => {
            if text_is(format, ANTHROPIC_MESSAGES) {
                out.push(value.copy());
            } else {
                sink.warn(
                    ANTHROPIC_MESSAGES,
                    WarningCode::OpaqueDropped,
                    loc.as_str(),
                    cat3("opaque tool belongs to format `", format.as_str(), "`; dropped").as_str(),
                );
            }
        },
    }
}

fn build_tools(tools: &Option<Vec<Tool>>, body: &mut JsonMap, sink: &mut Sink) -> (r: bool)
    ensures
        (r, final(body)@, final(sink)@) == tools_stage(opt_views(*tools), old(body)@, old(sink)@),
{
    let tools = match tools {
        Some(t) => t,
        None => {
            return false;
        },
    };
    let ghost s0 = sink@;
    let mut out: Vec<Json> = Vec::new();
    let mut i: usize = 0;
    while i < tools.len()
        invariant
            i <= tools@.len(),
            (views(out@), sink@) == tool_values(views(tools@), s0, i as nat),
        decreases tools@.len() - i,
    {
        push_tool(&mut out, &tools[i], sink);
        i += 1;
    }
    let has_tools = out.len() > 0;
    if has_tools || tools.len() == 0 {
        body.set("tools", Json::array(out));
    }
    has_tools
}

fn make_choice(c: &ToolChoice) -> (r: Json)
    ensures
        r@ == choice_value(c@),
{
    match c {
        ToolChoice::Auto => make1("type", Json::text("auto")),
        ToolChoice::Disabled => make1("type", Json::text("none")),
        ToolChoice::Required => make1("type", Json::text("any")),
        ToolChoice::Tool { name } => make2("type", Json::text("tool"), "name", Json::Str(name.clone())),
    }
}

/// Builds `tool_choice`, into which the parallel-call setting folds.
fn build_tool_choice(
    choice: &Option<ToolChoice>,
    parallel: Option<bool>,
    has_tools: bool,
    body: &mut JsonMap,
    sink: &mut Sink,
)
    ensures
        (final(body)@, final(sink)@) == tool_choice_stage(
            opt_view(*choice),
            parallel,
            has_tools,
            old(body)@,
            old(sink)@,
        ),
{
    if !has_tools {
        if choice.is_some() {
            sink.warn(
                ANTHROPIC_MESSAGES,
                WarningCode::ToolChoiceIgnored,
                "/tool_choice",
                "tool_choice is meaningless without tools; not emitted",
            );
        }
        if parallel.is_some() {
            sink.warn(
                ANTHROPIC_MESSAGES,
                WarningCode::ParallelToolCallsIgnored,
                "/tool_choice",
                "parallel_tool_calls is meaningless without tools; not emitted",
            );
        }
        return;
    }
    match choice {
        Some(c) => {
            let mut v = make_choice(c);
            if let Some(p) = parallel {
                match c {
                    ToolChoice::Disabled => {
                        sink.warn(
                            ANTHROPIC_MESSAGES,
                            WarningCode::ParallelToolCallsIgnored,
                            "/tool_choice",
                            "parallel_tool_calls is meaningless on tool_choice none; not emitted",
                        );
                    },
                    _ => {
                        v.put("disable_parallel_tool_use", Json::Bool(!p));
                    },
                }
            }
            body.set("tool_choice", v);
        },
        None => {
            if let Some(false) = parallel {
                body.set(
                    "tool_choice",
                    make2("type", Json::text("auto"), "disable_parallel_tool_use", Json::Bool(true)),
                );
            }
        },
    }
}

fn effort_value(effort: &Option<Effort>) -> (r: Option<String>)
    ensures
        opt_view(r) == effort_out(opt_view(*effort)),
{
    match effort {
        Some(Effort::Disabled) => None,
        Some(Effort::Minimal) => None,
        Some(e) => Some(e.as_str().to_owned()),
        None => None,
    }
}

fn make_thinking_config(enabled: Option<bool>, effort: bool, thoughts: Option<bool>) -> (r: Option<Json>)
    ensures
        forall|e: Option<Seq<char>>|
            e is Some == effort ==> opt_view(r) == #[trigger] thinking_config(enabled, e, thoughts),
{
    let display = match thoughts {
        Some(true) => "summarized",
        _ => "omitted",
    };
    match enabled {
        Some(true) => {
            let mut v = make1("type", Json::text("adaptive"));
            if thoughts.is_some() {
                v.put("display", Json::text(display));
            }
            Some(v)
        },
        Some(false) => Some(make1("type", Json::text("disabled"))),
        None => if thoughts.is_some() && effort {
            Some(make2("type", Json::text("adaptive"), "display", Json::text(display)))
        } else {
            None
        },
    }
}

/// Maps the reasoning configuration onto `thinking` and the effort.
fn build_reasoning(r: &Reasoning, body: &mut JsonMap, config: &mut JsonMap, sink: &mut Sink)
    ensures
        (final(body)@, final(config)@, final(sink)@) == reasoning_stage(
            r@,
            old(body)@,
            old(config)@,
            old(sink)@,
        ),
{
    let conflict = match (r.enabled, &r.effort) {
        (Some(true), Some(Effort::Disabled)) => true,
        (Some(false), Some(Effort::Disabled)) => false,
        (Some(false), Some(_)) => true,
        _ => false,
    };
    let enabled = if conflict { None } else { r.enabled };
    if conflict {
        sink.warn(
            ANTHROPIC_MESSAGES,
            WarningCode::ReasoningConflict,
            "/thinking",
            "Reasoning.enabled conflicts with effort; effort wins",
        );
    }
    let effort = effort_value(&r.effort);
    match &r.effort {
        Some(e) => if effort.is_none() {
            sink.warn(
                ANTHROPIC_MESSAGES,
                WarningCode::EffortUnsupported,
                "/output_config/effort",
                cat3(
                    "effort `",
                    e.as_str(),
                    "` is outside Anthropic's set (low/medium/high/xhigh/max); dropped",
                ).as_str(),
            );
        },
        None => {},
    }
    if r.include_thoughts.is_some() {
        match enabled {
            Some(true) => {},
            Some(false) => {
                sink.warn(
                    ANTHROPIC_MESSAGES,
                    WarningCode::IncludeThoughtsUnsupported,
                    "/thinking",
                    "include_thoughts has no carrier on thinking {type: disabled}; dropped",
                );
            },
            None => {
                if effort.is_none() {
                    sink.warn(
                        ANTHROPIC_MESSAGES,
                        WarningCode::IncludeThoughtsUnsupported,
                        "/thinking",
                        "include_thoughts without an enabling thinking configuration has no carrier; dropped",
                    );
                }
            },
        }
    }
    let thinking = make_thinking_config(enabled, effort.is_some(), r.include_thoughts);
    proof {
        assert(opt_view(thinking) == thinking_config(enabled, opt_view(effort), r.include_thoughts));
    }
    if let Some(t) = thinking {
        body.set("thinking", t);
    }
    if let Some(e) = effort {
        config.set("effort", Json::Str(e));
    }
}

fn detail_names(name: bool, description: bool, strict: bool) -> (r: Vec<String>)
    ensures
        views(r@) == format_details(name, description, strict),
{
    let mut d: Vec<String> = Vec::new();
    if name {
        d.push("name".to_owned());
    }
    if description {
        d.push("description".to_owned());
    }
    if strict {
        d.push("strict".to_owned());
    }
    d
}

fn build_output(f: &Option<OutputFormat>, config: &mut JsonMap, sink: &mut Sink)
    ensures
        (final(config)@, final(sink)@) == output_stage(opt_view(*f), old(config)@, old(sink)@),
{
    match f {
        Some(OutputFormat::JsonSchema { name, description, schema, strict }) => {
            let details = detail_names(name.is_some(), description.is_some(), strict.is_some());
            if details.len() > 0 {
                sink.warn(
                    ANTHROPIC_MESSAGES,
                    WarningCode::OutputFormatDetailDropped,
                    "/output_config/format",
                    cat2(
                        "Anthropic json_schema output has no channel for: ",
                        join(&details, ", ").as_str(),
                    ).as_str(),
                );
            }
            config.set("format", make2("type", Json::text("json_schema"), "schema", schema.copy()));
        },
        Some(OutputFormat::JsonObject) => {
            sink.warn(
                ANTHROPIC_MESSAGES,
                WarningCode::JsonModeUnsupported,
                "/output_config/format",
                "Anthropic has no schema-less JSON mode; output_format dropped",
            );
        },
        None => {},
    }
}

fn merge_reasoning_extra(r: &Option<Reasoning>, body: &mut JsonMap, sink: &mut Sink)
    ensures
        (final(body)@, final(sink)@) == reasoning_extra_stage(opt_view(*r), old(body)@, old(sink)@),
{
    if let Some(r) = r {
        if r.extra.has(ANTHROPIC_MESSAGES) {
            let mut t = match body.get("thinking") {
                Some(t) => t.copy(),
                None => Json::object(JsonMap::new()),
            };
            sink.merge(&r.extra, ANTHROPIC_MESSAGES, &mut t, "/thinking");
            body.set("thinking", t);
        }
    }
}

fn list_keys(o: &JsonMap) -> (r: Vec<String>)
    ensures
        views(r@) == key_names(o@),
{
    let ghost all = key_names(o@);
    let mut out: Vec<String> = Vec::new();
    let mut i: usize = 0;
    while i < o.entries.len()
        invariant
            i <= o.entries@.len(),
            all == key_names(o@),
            views(out@) == all.take(i as int),
        decreases o.entries@.len() - i,
    {
        out.push(o.entries[i].0.clone());
        proof {
            assert(o@[i as int].0 == o.entries@[i as int].0@);
            assert(all.take(i as int + 1) =~= all.take(i as int).push(all[i as int]));
        }
        i += 1;
    }
    proof {
        assert(all.take(i as int) =~= all);
    }
    out
}

fn make_orphan_texts() -> (r: OrphanTexts)
    ensures
        r@ == orphan_texts(),
{
    OrphanTexts {
        middle: "assistant message contains tool calls without matching results mid-conversation; never repaired".to_owned(),
        dropped_before: "dropped ".to_owned(),
        dropped_after: " unmatched trailing tool call(s)".to_owned(),
        thinking: "dropping trailing tool calls left a thinking block orphaned".to_owned(),
        appended_before: "appended ".to_owned(),
        appended_after: " synthetic error tool result(s) for unmatched trailing tool calls".to_owned(),
    }
}

fn prepare(req: &Request, convert: &ConvertOptions, messages: &mut Vec<Message>, pending: &mut Vec<Pending>)
    requires
        views(old(messages)@) == req@.messages,
        old(pending)@.len() == 0,
    ensures
        (views(final(messages)@), views(final(pending)@)) == prepared(req@, convert@),
{
    proof {
        assert(views(pending@) =~= Seq::<PendingV>::empty());
    }
    apply_orphan_policy(messages, convert.orphan_tool_calls, &make_orphan_texts(), pending);
    if request_enables_thinking(req.reasoning.as_ref()) {
        apply_missing_thinking(
            messages,
            &convert.fill_missing_thinking,
            "inserted a placeholder thinking block before tool calls",
            "assistant message carries tool calls but no thinking block while the request enables thinking",
            pending,
        );
    }
}

fn unplaced(n: usize) -> (r: Vec<Option<usize>>)
    ensures
        r@ == Seq::new(n as nat, |i: int| None::<usize>),
{
    let mut v: Vec<Option<usize>> = Vec::new();
    let mut i: usize = 0;
    while i < n
        invariant
            i <= n,
            v@.len() == i,
            forall|k: int| 0 <= k < i ==> v@[k] is None,
        decreases n - i,
    {
        v.push(None);
        i += 1;
    }
    proof {
        assert(v@ =~= Seq::new(n as nat, |i: int| None::<usize>));
    }
    v
}

fn build_fields(req: &Request, streaming: bool, body: &mut JsonMap, sink: &mut Sink)
    ensures
        (final(body)@, final(sink)@) == request_fields(req@, streaming, old(body)@, old(sink)@),
{
    build_metadata(&req.metadata, body, sink);
    build_sampling(req, body, sink);
    if streaming {
        body.set("stream", Json::Bool(true));
    }
    let has_tools = build_tools(&req.tools, body, sink);
    build_tool_choice(&req.tool_choice, req.parallel_tool_calls, has_tools, body, sink);
    let mut config = JsonMap::new();
    if let Some(r) = &req.reasoning {
        build_reasoning(r, body, &mut config, sink);
    }
    build_output(&req.output_format, &mut config, sink);
    if !config.is_empty() {
        body.set("output_config", Json::object(config));
    }
    merge_reasoning_extra(&req.reasoning, body, sink);
}

/// Builds the request body from the IR.
pub fn build_chat_body(
    req: &Request,
    model: &str,
    opts: &AnthropicOptions,
    convert: &ConvertOptions,
    streaming: bool,
) -> (r: Result<ChatBody, ConversionError>)
    ensures
        match r {
            Ok(b) => chat_body(req@, model@, opts@, convert@, streaming) == Ok::<ChatBodyV, ConversionErrorV>(b@),
            Err(e) => chat_body(req@, model@, opts@, convert@, streaming) == Err::<ChatBodyV, ConversionErrorV>(e@),
        },
{
    match check_finite_sampling(&req.temperature, &req.top_p, &req.frequency_penalty, &req.presence_penalty) {
        Ok(_) => {},
        Err(e) => {
            return Err(e);
        },
    }
    let mut messages = dup_vec(&req.messages);
    let mut notes: Vec<Pending> = Vec::new();
    prepare(req, convert, &mut messages, &mut notes);
    let l = plan_messages(&messages, notes, opts.downgrade_mid_system);
    let hoisted = l.hoisted;
    let mut plans = l.plans;
    let mut pending = l.pending;
    if opts.merge_consecutive_roles {
        plans = merge_plans(plans, &messages, &mut pending);
    }
    let limit: u32 = match (req.max_output_tokens, opts.default_max_tokens) {
        (Some(n), _) => n,
        (None, Some(n)) => n,
        (None, None) => {
            return Err(
                ConversionError::missing(
                    "max_tokens (set Request.max_output_tokens or AnthropicOptions.default_max_tokens)",
                    "/max_tokens",
                ),
            );
        },
    };
    let mut sink = Sink::new();
    let system = match build_system(&req.system, &messages, &hoisted, &mut sink) {
        Ok(v) => v,
        Err(e) => {
            return Err(e);
        },
    };
    let mut body = JsonMap::new();
    body.set("model", Json::text(model));
    body.set("max_tokens", Json::uint(limit as u64));
    if let Some(v) = system {
        body.set("system", v);
    }
    let mut w = Wire {
        wire: Vec::new(),
        pointers: Vec::new(),
        placed: unplaced(messages.len()),
        sink,
    };
    match build_messages(&mut w, &plans, &messages, convert.thinking_as_text) {
        Ok(_) => {},
        Err(e) => {
            return Err(e);
        },
    }
    body.set("messages", Json::array(w.wire));
    let mut sink = w.sink;
    resolve_pending(&pending, &w.placed, &mut sink);
    build_fields(req, streaming, &mut body, &mut sink);
    let generated_keys = list_keys(&body);
    let mut value = Json::object(body);
    proof {
        reveal_strlit("");
        assert(""@ =~= Seq::<char>::empty());
    }
    sink.merge(&req.extra, ANTHROPIC_MESSAGES, &mut value, "");
    Ok(
        ChatBody {
            body: value,
            warnings: sink.warnings,
            merge_log: sink.log,
            message_pointers: w.pointers,
            generated_keys,
        },
    )
}

} // verus!
