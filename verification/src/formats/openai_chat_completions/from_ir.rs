//! IR requests as Chat Completions request JSON.

use vstd::prelude::*;
use crate::built::{BuiltBody, BuiltBodyV};
use crate::convert::sampling::{check_finite_sampling, float_json, make_float, sampling_check};
use crate::convert::{ConvertOptions, ConvertOptionsV, WarningCode};
use crate::error::{ConversionError, ConversionErrorV};
use crate::format::{CallMode, OpenAiChatCompletionsOptions, OPENAI_CHAT_COMPLETIONS};
use crate::formats::anthropic_messages::from_ir::reasoning_conflict;
use crate::formats::openai_chat_completions::content::{omerge_noted, omerged, onoted, onoted_if};
use crate::formats::openai_chat_completions::messages::{build_chat, chat, prepared, preprocess_messages};
use crate::ir::{effort_name, extra_has, Effort, FunctionTool, FunctionToolV, OutputFormat, OutputFormatV, Reasoning, ReasoningV, Request, RequestV, Tool, ToolChoice, ToolChoiceV, ToolV};
use crate::json::{json_int, json_strings, make1, make2, make_strings, obj_set, object1, object2, put_if, with_member, Json, JsonMap, JsonV, Num, NumV, ObjV};
use crate::model::{group_views, opt_view, views};
use crate::sink::{empty_sink, Sink, SinkV};
use crate::text::{cat2, cat3, dec_usize, decimal, text_is};

verus! {

broadcast use group_views;

/// The number as a JSON value.
pub open spec fn opt_float(n: Option<NumV>) -> Option<JsonV> {
    match n {
        Some(n) => Some(float_json(n)),
        None => None,
    }
}

/// The text as a JSON value.
pub open spec fn opt_text(s: Option<Seq<char>>) -> Option<JsonV> {
    match s {
        Some(s) => Some(JsonV::Str(s)),
        None => None,
    }
}

/// Limits and sampling parameters.
pub open spec fn sampling_fields(req: RequestV, body: ObjV, s: SinkV) -> (ObjV, SinkV) {
    let b1 = match req.max_output_tokens {
        Some(v) => obj_set(body, "max_completion_tokens"@, json_int(v as int)),
        None => body,
    };
    let b2 = put_if(b1, "temperature"@, opt_float(req.temperature));
    let b3 = put_if(b2, "top_p"@, opt_float(req.top_p));
    let b4 = match req.stop_sequences {
        Some(v) => obj_set(b3, "stop"@, json_strings(v)),
        None => b3,
    };
    let b5 = match req.seed {
        Some(v) => obj_set(b4, "seed"@, json_int(v as int)),
        None => b4,
    };
    let b6 = put_if(b5, "frequency_penalty"@, opt_float(req.frequency_penalty));
    let b7 = put_if(b6, "presence_penalty"@, opt_float(req.presence_penalty));
    (
        b7,
        onoted_if(
            req.top_k is Some,
            s,
            WarningCode::SamplingParameterDropped,
            "/top_k"@,
            "`top_k` has no Chat Completions equivalent and was dropped"@,
        ),
    )
}

/// The effort tier; reasoning that is only switched off is tier `none`.
pub open spec fn effort_field(r: ReasoningV) -> Option<Seq<char>> {
    match r.effort {
        Some(e) => Some(effort_name(e)),
        None => if r.enabled == Some(false) { Some("none"@) } else { None },
    }
}

/// The reasoning configuration.
pub open spec fn reasoning_field(r: ReasoningV, body: ObjV, s: SinkV) -> (ObjV, SinkV) {
    let s1 = onoted_if(
        reasoning_conflict(r.enabled, r.effort),
        s,
        WarningCode::ReasoningConflict,
        "/reasoning_effort"@,
        "`reasoning.enabled` conflicts with `reasoning.effort`; `effort` wins"@,
    );
    let s2 = onoted_if(
        r.include_thoughts is Some,
        s1,
        WarningCode::IncludeThoughtsUnsupported,
        "/reasoning_effort"@,
        "`include_thoughts` has no Chat Completions channel and was dropped"@,
    );
    let s3 = onoted_if(
        extra_has(r.extra, OPENAI_CHAT_COMPLETIONS@),
        s2,
        WarningCode::ExtraDropped,
        "/reasoning_effort"@,
        "`Reasoning.extra` has no landing spot: `reasoning_effort` is a plain string; use `Request.extra` for top-level fields"@,
    );
    (put_if(body, "reasoning_effort"@, opt_text(effort_field(r))), s3)
}

/// Structured output. The schema needs a name.
pub open spec fn response_format(f: OutputFormatV) -> JsonV {
    match f {
        OutputFormatV::JsonSchema { name, description, schema, strict } => {
            let v0 = object2(
                "name"@,
                JsonV::Str(
                    match name {
                        Some(n) => n,
                        None => "response"@,
                    },
                ),
                "schema"@,
                schema,
            );
            let v1 = match description {
                Some(d) => with_member(v0, "description"@, JsonV::Str(d)),
                None => v0,
            };
            let v2 = match strict {
                Some(b) => with_member(v1, "strict"@, JsonV::Bool(b)),
                None => v1,
            };
            object2("type"@, JsonV::Str("json_schema"@), "json_schema"@, v2)
        },
        OutputFormatV::JsonObject => object1("type"@, JsonV::Str("json_object"@)),
    }
}

/// A function tool, before its provider data.
pub open spec fn function_tool(f: FunctionToolV) -> JsonV {
    let o0 = obj_set(Seq::empty(), "name"@, JsonV::Str(f.name));
    let o1 = put_if(o0, "description"@, opt_text(f.description));
    let o2 = put_if(o1, "parameters"@, f.parameters);
    let o3 = match f.strict {
        Some(b) => obj_set(o2, "strict"@, JsonV::Bool(b)),
        None => o2,
    };
    object2("type"@, JsonV::Str("function"@), "function"@, JsonV::Object(o3))
}

/// One more tool.
pub open spec fn tool_added(st: (Seq<JsonV>, SinkV), t: ToolV) -> (Seq<JsonV>, SinkV) {
    let (out, s) = st;
    let ptr = "/tools/"@ + decimal(out.len());
    match t {
        ToolV::Function(f) => (
            out.push(omerged(f.extra, function_tool(f))),
            omerge_noted(
                onoted_if(
                    f.cache is Some,
                    s,
                    WarningCode::CacheHintDropped,
                    ptr,
                    "tool-definition cache hints are Anthropic-only and were dropped"@,
                ),
                f.extra,
                ptr,
            ),
        ),
        ToolV::Opaque { format, value } => if format == OPENAI_CHAT_COMPLETIONS@ {
            (out.push(value), s)
        } else {
            (
                out,
                onoted(
                    s,
                    WarningCode::OpaqueDropped,
                    ptr,
                    "opaque tool belongs to `"@ + format + "` and was dropped"@,
                ),
            )
        },
    }
}

/// The first `n` tools.
pub open spec fn tools_upto(tools: Seq<ToolV>, s: SinkV, n: nat) -> (Seq<JsonV>, SinkV)
    decreases n,
{
    if n == 0 || n > tools.len() {
        (Seq::empty(), s)
    } else {
        tool_added(tools_upto(tools, s, (n - 1) as nat), tools[n - 1])
    }
}

/// The tool choice.
pub open spec fn tool_choice_value(c: ToolChoiceV) -> JsonV {
    match c {
        ToolChoiceV::Auto => JsonV::Str("auto"@),
        ToolChoiceV::Disabled => JsonV::Str("none"@),
        ToolChoiceV::Required => JsonV::Str("required"@),
        ToolChoiceV::Tool { name } => object2(
            "type"@,
            JsonV::Str("function"@),
            "function"@,
            object1("name"@, JsonV::Str(name)),
        ),
    }
}

/// Tools, tool choice and parallel calls.
pub open spec fn tool_fields(req: RequestV, body: ObjV, s: SinkV) -> (ObjV, SinkV) {
    let (b1, s1) = match req.tools {
        Some(tools) => {
            let (out, s1) = tools_upto(tools, s, tools.len());
            (if out.len() > 0 { obj_set(body, "tools"@, JsonV::Array(out)) } else { body }, s1)
        },
        None => (body, s),
    };
    let b2 = match req.tool_choice {
        Some(c) => obj_set(b1, "tool_choice"@, tool_choice_value(c)),
        None => b1,
    };
    match req.parallel_tool_calls {
        Some(p) => if req.tools is Some && req.tools->0.len() > 0 {
            (obj_set(b2, "parallel_tool_calls"@, JsonV::Bool(p)), s1)
        } else {
            (
                b2,
                onoted(
                    s1,
                    WarningCode::ParallelToolCallsIgnored,
                    "/parallel_tool_calls"@,
                    "`parallel_tool_calls` is meaningless without tools and was not emitted"@,
                ),
            )
        },
        None => (b2, s1),
    }
}

/// All fields behind the messages.
pub open spec fn request_fields(req: RequestV, mode: CallMode, usage: bool, body: ObjV, s: SinkV) -> (ObjV, SinkV) {
    let (b1, s1) = sampling_fields(req, body, s);
    let b2 = match req.metadata {
        Some(m) => obj_set(b1, "metadata"@, JsonV::Object(m)),
        None => b1,
    };
    let b3 = put_if(b2, "prompt_cache_key"@, opt_text(req.cache_key));
    let (b4, s4) = match req.reasoning {
        Some(r) => reasoning_field(r, b3, s1),
        None => (b3, s1),
    };
    let b5 = match req.output_format {
        Some(f) => obj_set(b4, "response_format"@, response_format(f)),
        None => b4,
    };
    let (b6, s6) = tool_fields(req, b5, s4);
    let b7 = if mode == CallMode::Streaming { obj_set(b6, "stream"@, JsonV::Bool(true)) } else { b6 };
    let b8 = if mode == CallMode::Streaming && usage {
        obj_set(b7, "stream_options"@, object1("include_usage"@, JsonV::Bool(true)))
    } else {
        b7
    };
    (b8, s6)
}

/// The whole request body.
pub open spec fn openai_body(
    req: RequestV,
    model: Option<Seq<char>>,
    mode: CallMode,
    conv: ConvertOptionsV,
    usage: bool,
) -> Result<BuiltBodyV, ConversionErrorV> {
    match sampling_check(req.temperature, req.top_p, req.frequency_penalty, req.presence_penalty) {
        Err(e) => Err(e),
        Ok(_) => {
            let (msgs, s0) = prepared(req, conv, empty_sink());
            match chat(req.system, msgs, conv, s0) {
                Err(e) => Err(e),
                Ok(c) => {
                    let b0 = Seq::<(Seq<char>, JsonV)>::empty();
                    let b1 = if model is Some && model->0.len() > 0 {
                        obj_set(b0, "model"@, JsonV::Str(model->0))
                    } else {
                        b0
                    };
                    let b2 = obj_set(b1, "messages"@, JsonV::Array(c.wire));
                    let (b3, s3) = request_fields(req, mode, usage, b2, c.sink);
                    let s4 = omerge_noted(s3, req.extra, Seq::empty());
                    Ok(
                        BuiltBodyV {
                            body: omerged(req.extra, JsonV::Object(b3)),
                            warnings: s4.warnings,
                            merge_log: s4.log,
                            message_pointers: c.pointers,
                        },
                    )
                },
            }
        },
    }
}

fn put_float(body: &mut JsonMap, key: &str, n: &Option<Num>)
    ensures
        final(body)@ == put_if(old(body)@, key@, opt_float(opt_view(*n))),
{
    if let Some(n) = n {
        body.set(key, make_float(n));
    }
}

fn put_text(body: &mut JsonMap, key: &str, s: &Option<String>)
    ensures
        final(body)@ == put_if(old(body)@, key@, opt_text(opt_view(*s))),
{
    if let Some(s) = s {
        body.set(key, Json::Str(s.clone()));
    }
}

fn build_sampling(req: &Request, body: &mut JsonMap, sink: &mut Sink)
    ensures
        (final(body)@, final(sink)@) == sampling_fields(req@, old(body)@, old(sink)@),
{
    if let Some(v) = req.max_output_tokens {
        body.set("max_completion_tokens", Json::uint(v as u64));
    }
    put_float(body, "temperature", &req.temperature);
    put_float(body, "top_p", &req.top_p);
    if req.top_k.is_some() {
        sink.warn(
            OPENAI_CHAT_COMPLETIONS,
            WarningCode::SamplingParameterDropped,
            "/top_k",
            "`top_k` has no Chat Completions equivalent and was dropped",
        );
    }
    if let Some(stop) = &req.stop_sequences {
        body.set("stop", make_strings(stop));
    }
    if let Some(v) = req.seed {
        body.set("seed", Json::sint(v));
    }
    put_float(body, "frequency_penalty", &req.frequency_penalty);
    put_float(body, "presence_penalty", &req.presence_penalty);
}

fn is_off(e: &Effort) -> (r: bool)
    ensures
        r == (e@ is Disabled),
{
    match e {
        Effort::Disabled => true,
        _ => false,
    }
}

/// Builds the reasoning configuration.
pub fn build_reasoning(r: &Reasoning, body: &mut JsonMap, sink: &mut Sink)
    ensures
        (final(body)@, final(sink)@) == reasoning_field(r@, old(body)@, old(sink)@),
{
    let conflict = match &r.effort {
        Some(e) => {
            if is_off(e) {
                r.enabled == Some(true)
            } else {
                r.enabled == Some(false)
            }
        },
        None => false,
    };
    if conflict {
        sink.warn(
            OPENAI_CHAT_COMPLETIONS,
            WarningCode::ReasoningConflict,
            "/reasoning_effort",
            "`reasoning.enabled` conflicts with `reasoning.effort`; `effort` wins",
        );
    }
    match &r.effort {
        Some(e) => {
            body.set("reasoning_effort", Json::text(e.as_str()));
        },
        None => {
            if r.enabled == Some(false) {
                body.set("reasoning_effort", Json::text("none"));
            }
        },
    }
    if r.include_thoughts.is_some() {
        sink.warn(
            OPENAI_CHAT_COMPLETIONS,
            WarningCode::IncludeThoughtsUnsupported,
            "/reasoning_effort",
            "`include_thoughts` has no Chat Completions channel and was dropped",
        );
    }
    if r.extra.has(OPENAI_CHAT_COMPLETIONS) {
        sink.warn(
            OPENAI_CHAT_COMPLETIONS,
            WarningCode::ExtraDropped,
            "/reasoning_effort",
            "`Reasoning.extra` has no landing spot: `reasoning_effort` is a plain string; use `Request.extra` for top-level fields",
        );
    }
}

/// Builds `response_format`.
pub fn build_response_format(f: &OutputFormat) -> (r: Json)
    ensures
        r@ == response_format(f@),
{
    match f {
        OutputFormat::JsonSchema { name, description, schema, strict } => {
            let n = match name {
                Some(n) => n.clone(),
                None => "response".to_owned(),
            };
            let mut inner = make2("name", Json::Str(n), "schema", schema.copy());
            if let Some(d) = description {
                inner.put("description", Json::Str(d.clone()));
            }
            if let Some(b) = strict {
                inner.put("strict", Json::Bool(*b));
            }
            make2("type", Json::text("json_schema"), "json_schema", inner)
        },
        OutputFormat::JsonObject => make1("type", Json::text("json_object")),
    }
}

fn build_function(f: &FunctionTool) -> (r: Json)
    ensures
        r@ == function_tool(f@),
{
    let mut o = JsonMap::new();
    o.set("name", Json::Str(f.name.clone()));
    put_text(&mut o, "description", &f.description);
    if let Some(p) = &f.parameters {
        o.set("parameters", p.copy());
    }
    if let Some(b) = f.strict {
        o.set("strict", Json::Bool(b));
    }
    make2("type", Json::text("function"), "function", Json::object(o))
}

/// Builds the tool array.
pub fn build_tools(tools: &Vec<Tool>, sink: &mut Sink) -> (r: Vec<Json>)
    ensures
        (views(r@), final(sink)@) == tools_upto(views(tools@), old(sink)@, tools@.len()),
{
    let ghost s0 = sink@;
    let mut out: Vec<Json> = Vec::new();
    let mut i: usize = 0;
    while i < tools.len()
        invariant
            i <= tools@.len(),
            (views(out@), sink@) == tools_upto(views(tools@), s0, i as nat),
        decreases tools@.len() - i,
    {
        let ptr = cat2("/tools/", dec_usize(out.len()).as_str());
        proof {
            assert(views(tools@)[i as int] == tools@[i as int]@);
        }
        match &tools[i] {
            Tool::Function(f) => {
                if f.cache.is_some() {
                    sink.warn(
                        OPENAI_CHAT_COMPLETIONS,
                        WarningCode::CacheHintDropped,
                        ptr.as_str(),
                        "tool-definition cache hints are Anthropic-only and were dropped",
                    );
                }
                let mut value = build_function(f);
                sink.merge(&f.extra, OPENAI_CHAT_COMPLETIONS, &mut value, ptr.as_str());
                out.push(value);
            },
            Tool::Opaque { format, value } => {
                if text_is(format, OPENAI_CHAT_COMPLETIONS) {
                    out.push(value.copy());
                } else {
                    sink.warn(
                        OPENAI_CHAT_COMPLETIONS,
                        WarningCode::OpaqueDropped,
                        ptr.as_str(),
                        cat3("opaque tool belongs to `", format.as_str(), "` and was dropped").as_str(),
                    );
                }
            },
        }
        i += 1;
    }
    out
}

/// Builds `tool_choice`.
pub fn build_tool_choice(c: &ToolChoice) -> (r: Json)
    ensures
        r@ == tool_choice_value(c@),
{
    match c {
        ToolChoice::Auto => Json::text("auto"),
        ToolChoice::Disabled => Json::text("none"),
        ToolChoice::Required => Json::text("required"),
        ToolChoice::Tool { name } => make2(
            "type",
            Json::text("function"),
            "function",
            make1("name", Json::Str(name.clone())),
        ),
    }
}

fn build_tool_fields(req: &Request, body: &mut JsonMap, sink: &mut Sink)
    ensures
        (final(body)@, final(sink)@) == tool_fields(req@, old(body)@, old(sink)@),
{
    let mut some_tools = false;
    if let Some(tools) = &req.tools {
        some_tools = tools.len() > 0;
        let out = build_tools(tools, sink);
        if out.len() > 0 {
            body.set("tools", Json::array(out));
        }
    }
    if let Some(c) = &req.tool_choice {
        body.set("tool_choice", build_tool_choice(c));
    }
    if let Some(p) = req.parallel_tool_calls {
        if some_tools {
            body.set("parallel_tool_calls", Json::Bool(p));
        } else {
            sink.warn(
                OPENAI_CHAT_COMPLETIONS,
                WarningCode::ParallelToolCallsIgnored,
                "/parallel_tool_calls",
                "`parallel_tool_calls` is meaningless without tools and was not emitted",
            );
        }
    }
}

fn build_fields(req: &Request, mode: CallMode, usage: bool, body: &mut JsonMap, sink: &mut Sink)
    ensures
        (final(body)@, final(sink)@) == request_fields(req@, mode, usage, old(body)@, old(sink)@),
{
    build_sampling(req, body, sink);
    if let Some(m) = &req.metadata {
        body.set("metadata", Json::object(m.copy()));
    }
    put_text(body, "prompt_cache_key", &req.cache_key);
    if let Some(r) = &req.reasoning {
        build_reasoning(r, body, sink);
    }
    if let Some(f) = &req.output_format {
        body.set("response_format", build_response_format(f));
    }
    build_tool_fields(req, body, sink);
    if mode == CallMode::Streaming {
        body.set("stream", Json::Bool(true));
        if usage {
            body.set("stream_options", make1("include_usage", Json::Bool(true)));
        }
    }
}

/// Converts an IR request into the request body.
pub fn build_body(
    req: &Request,
    model: Option<&str>,
    mode: CallMode,
    convert: &ConvertOptions,
    options: &OpenAiChatCompletionsOptions,
) -> (r: Result<BuiltBody, ConversionError>)
    ensures
        match r {
            Ok(b) => openai_body(
                req@,
                match model {
                    Some(m) => Some(m@),
                    None => None,
                },
                mode,
                convert@,
                options.inject_include_usage,
            ) == Ok::<BuiltBodyV, ConversionErrorV>(b@),
            Err(e) => openai_body(
                req@,
                match model {
                    Some(m) => Some(m@),
                    None => None,
                },
                mode,
                convert@,
                options.inject_include_usage,
            ) == Err::<BuiltBodyV, ConversionErrorV>(e@),
        },
{
    match check_finite_sampling(&req.temperature, &req.top_p, &req.frequency_penalty, &req.presence_penalty) {
        Ok(_) => {},
        Err(e) => {
            return Err(e);
        },
    }
    let mut sink = Sink::new();
    let messages = preprocess_messages(req, convert, &mut sink);
    let c = match build_chat(&req.system, &messages, convert, sink) {
        Ok(c) => c,
        Err(e) => {
            return Err(e);
        },
    };
    let mut body = JsonMap::new();
    if let Some(m) = model {
        if !m.is_empty() {
            body.set("model", Json::text(m));
        }
    }
    body.set("messages", Json::array(c.wire));
    let mut sink = c.sink;
    build_fields(req, mode, options.inject_include_usage, &mut body, &mut sink);
    let mut value = Json::object(body);
    proof {
        reveal_strlit("");
        assert(""@ =~= Seq::<char>::empty());
    }
    sink.merge(&req.extra, OPENAI_CHAT_COMPLETIONS, &mut value, "");
    Ok(
        BuiltBody {
            body: value,
            warnings: sink.warnings,
            merge_log: sink.log,
            message_pointers: c.pointers,
        },
    )
}

} // verus!
