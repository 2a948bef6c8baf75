//! Chat Completions JSON as IR requests and responses.

use vstd::prelude::*;
use crate::convert::{ConversionWarning, ConversionWarningV, WarningCode};
use crate::decode::{extend_map, extended};
use crate::error::{Error, ErrorV};
use crate::format::OPENAI_CHAT_COMPLETIONS;
use crate::formats::openai_chat_completions::parse_messages::{assistant_from, assistant_value_to_message, parse_messages, parsed_messages};
use crate::formats::openai_chat_completions::parse_parts::{nest, nested, odd_field, oparsed, own_extra, part_type, type_of_part, warn_field};
use crate::formats::openai_chat_completions::types;
use crate::headers::clone_headers;
use crate::ir::{effort_named, empty_request, normalize_stop_reason, normalized_stop_reason, plain_message, ContentBlockV, Effort, Extra, FunctionTool, FunctionToolV, Message, MessageV, OutputFormat, OutputFormatV, Reasoning, ReasoningV, Request, RequestV, Role, StopReason, StopReasonV, Tool, ToolChoice, ToolChoiceV, ToolV, Usage, UsageV};
use crate::json::{group_json, json_as_object, json_as_str, json_get, obj_get, obj_has, obj_remove, obj_set, Json, JsonMap, JsonV, ObjV};
use crate::model::{group_views, opt_view, opt_views, views, Dup};
use crate::response::{parse_warn, Response, ResponseMeta, ResponseV};
use crate::text::{cat2, cat3, cat4, dec_usize, decimal, join, joined, opt_is, str_eq, text_is};
use crate::value::{exact_json, json_from_slice, json_to_bytes, parse_slice};

verus! {

broadcast use group_views;

/// All values are strings.
pub open spec fn all_strings(a: Seq<JsonV>) -> bool {
    forall|i: int| 0 <= i < a.len() ==> (#[trigger] a[i]) is Str
}

/// The stop sequences, and the namespace and warnings beside them.
pub open spec fn stop_of(
    v: Option<JsonV>,
    ns: ObjV,
    ws: Seq<ConversionWarningV>,
) -> (Option<Seq<Seq<char>>>, ObjV, Seq<ConversionWarningV>) {
    match v {
        None => (None, ns, ws),
        Some(JsonV::Str(s)) => (Some(seq![s]), ns, ws),
        Some(other) => if other is Array && all_strings(other->Array_0) {
            (Some(Seq::new(other->Array_0.len(), |i: int| other->Array_0[i]->Str_0)), ns, ws)
        } else {
            (
                None,
                obj_set(ns, "stop"@, other),
                odd_field(
                    ws,
                    "/stop"@,
                    "`stop` is neither a string nor an array of strings; kept verbatim in the request extra"@,
                ),
            )
        },
    }
}

/// The token limit; the legacy field counts only alone.
pub open spec fn limit_of(w: types::RequestV, ws: Seq<ConversionWarningV>) -> (Option<u32>, Seq<ConversionWarningV>) {
    match w.max_completion_tokens {
        None => (w.max_tokens, ws),
        Some(n) => (
            Some(n),
            if w.max_tokens is Some {
                odd_field(
                    ws,
                    "/max_tokens"@,
                    "both `max_completion_tokens` and legacy `max_tokens` are set; `max_completion_tokens` wins and `max_tokens` was dropped"@,
                )
            } else {
                ws
            },
        ),
    }
}

/// The member is dropped from `stream_options`.
pub open spec fn option_dropped(k: Seq<char>, v: JsonV) -> bool {
    k != "include_usage"@ || v != JsonV::Bool(true)
}

/// The names of the dropped members among the first `n`, quoted.
pub open spec fn dropped_options(o: ObjV, n: nat) -> Seq<Seq<char>>
    decreases n,
{
    if n == 0 || n > o.len() {
        Seq::empty()
    } else if option_dropped(o[n - 1].0, o[n - 1].1) {
        dropped_options(o, (n - 1) as nat).push("`"@ + o[n - 1].0 + "`"@)
    } else {
        dropped_options(o, (n - 1) as nat)
    }
}

/// How to stream without the usage chunk, where that was asked for.
pub open spec fn usage_hint(o: ObjV) -> Seq<char> {
    match obj_get(o, "include_usage"@) {
        Some(v) => if v != JsonV::Bool(true) {
            "; set `inject_include_usage: false` to stream without the usage chunk"@
        } else {
            ""@
        },
        None => ""@,
    }
}

/// The warning about `stream_options` that the build side cannot restore.
pub open spec fn options_noted(v: Option<JsonV>, ws: Seq<ConversionWarningV>) -> Seq<ConversionWarningV> {
    match v {
        None => ws,
        Some(JsonV::Object(o)) => {
            let dropped = dropped_options(o, o.len());
            if dropped.len() == 0 {
                ws
            } else {
                oparsed(
                    ws,
                    WarningCode::StreamOptionsDropped,
                    "/stream_options"@,
                    "`stream_options` member(s) "@ + joined(dropped, ", "@)
                        + " were dropped; the build side reconstructs only a literal `include_usage: true` (per `OpenAiChatCompletionsOptions`)"@
                        + usage_hint(o),
                )
            }
        },
        Some(_) => oparsed(
            ws,
            WarningCode::StreamOptionsDropped,
            "/stream_options"@,
            "non-object `stream_options` was dropped; the build side reconstructs only a literal `include_usage: true` (per `OpenAiChatCompletionsOptions`)"@,
        ),
    }
}

/// The string at `k`, and the object without it.
pub open spec fn taken_string(o: ObjV, k: Seq<char>) -> (Option<Seq<char>>, ObjV) {
    match obj_get(o, k) {
        Some(JsonV::Str(s)) => (Some(s), obj_remove(o, k)),
        _ => (None, o),
    }
}

/// A `json_schema` format.
pub open spec fn schema_format(format: ObjV, inner: ObjV, ns: ObjV) -> (OutputFormatV, ObjV) {
    let (name, l1) = taken_string(inner, "name"@);
    let (description, l2) = taken_string(l1, "description"@);
    let schema = match obj_get(l2, "schema"@) {
        Some(v) => v,
        None => JsonV::Null,
    };
    let l3 = obj_remove(l2, "schema"@);
    let (strict, l4) = match obj_get(l3, "strict"@) {
        Some(JsonV::Bool(b)) => (Some(b), obj_remove(l3, "strict"@)),
        _ => (None, l3),
    };
    let m1 = obj_remove(obj_remove(format, "type"@), "json_schema"@);
    let m2 = nested(m1, "json_schema"@, l4);
    (OutputFormatV::JsonSchema { name, description, schema, strict }, nested(ns, "response_format"@, m2))
}

/// What a `response_format` sets; an unmodeled one is mirrored.
pub open spec fn format_of(v: Option<JsonV>, ns: ObjV) -> (Option<OutputFormatV>, ObjV) {
    match v {
        None => (None, ns),
        Some(f) => {
            let t = part_type(f);
            let inner = json_as_object(json_get(f, "json_schema"@));
            if t == Some("json_schema"@) && inner is Some && obj_has(inner->0, "schema"@) {
                let (out, ns1) = schema_format(f->Object_0, inner->0, ns);
                (Some(out), ns1)
            } else if t == Some("json_object"@) {
                (
                    Some(OutputFormatV::JsonObject),
                    nested(ns, "response_format"@, obj_remove(f->Object_0, "type"@)),
                )
            } else {
                (None, obj_set(ns, "response_format"@, f))
            }
        },
    }
}

/// Tool `i`: a well-formed function tool, else verbatim.
pub open spec fn tool_of(j: JsonV, i: nat, ws: Seq<ConversionWarningV>) -> (ToolV, Seq<ConversionWarningV>) {
    let verbatim = ToolV::Opaque { format: OPENAI_CHAT_COMPLETIONS@, value: j };
    if part_type(j) != Some("function"@) {
        (verbatim, ws)
    } else {
        match types::decode_function_tool_def(j) {
            Ok(d) => (
                ToolV::Function(
                    FunctionToolV {
                        name: d.function.name,
                        description: d.function.description,
                        parameters: d.function.parameters,
                        strict: d.function.strict,
                        cache: None,
                        extra: own_extra(nested(d.extra, "function"@, d.function.extra)),
                    },
                ),
                ws,
            ),
            Err(e) => (
                verbatim,
                odd_field(
                    ws,
                    "/tools/"@ + decimal(i),
                    "function tool failed to parse and was kept verbatim: "@ + e,
                ),
            ),
        }
    }
}

/// The first `n` tools.
pub open spec fn tools_of(a: Seq<JsonV>, ws: Seq<ConversionWarningV>, n: nat) -> (Seq<ToolV>, Seq<ConversionWarningV>)
    decreases n,
{
    if n == 0 || n > a.len() {
        (Seq::empty(), ws)
    } else {
        let (prev, ws1) = tools_of(a, ws, (n - 1) as nat);
        let (t, ws2) = tool_of(a[n - 1], (n - 1) as nat, ws1);
        (prev.push(t), ws2)
    }
}

/// The name in a choice of exactly the shape
/// `{type: "function", function: {name}}`.
pub open spec fn chosen_name(v: JsonV) -> Option<Seq<char>> {
    match v {
        JsonV::Object(o) => match obj_get(o, "function"@) {
            Some(JsonV::Object(f)) => if o.len() == 2 && part_type(v) == Some("function"@) && f.len() == 1 {
                json_as_str(obj_get(f, "name"@))
            } else {
                None
            },
            _ => None,
        },
        _ => None,
    }
}

/// The choice that a value stands for, if it is a modeled one.
pub open spec fn choice_value(v: JsonV) -> Option<ToolChoiceV> {
    if v == JsonV::Str("auto"@) {
        Some(ToolChoiceV::Auto)
    } else if v == JsonV::Str("none"@) {
        Some(ToolChoiceV::Disabled)
    } else if v == JsonV::Str("required"@) {
        Some(ToolChoiceV::Required)
    } else {
        match chosen_name(v) {
            Some(name) => Some(ToolChoiceV::Tool { name }),
            None => None,
        }
    }
}

/// What a `tool_choice` sets; an unmodeled one is mirrored.
pub open spec fn choice_of(v: Option<JsonV>, ns: ObjV) -> (Option<ToolChoiceV>, ObjV) {
    match v {
        None => (None, ns),
        Some(c) => match choice_value(c) {
            Some(t) => (Some(t), ns),
            None => (None, obj_set(ns, "tool_choice"@, c)),
        },
    }
}

/// The reasoning configuration of an effort tier.
pub open spec fn effort_of(e: Option<Seq<char>>) -> Option<ReasoningV> {
    match e {
        Some(e) => Some(
            ReasoningV {
                enabled: None,
                effort: Some(effort_named(e)),
                include_thoughts: None,
                extra: Seq::empty(),
            },
        ),
        None => None,
    }
}

/// The IR request of a wire request.
pub open spec fn request_of(w: types::RequestV) -> (RequestV, Seq<ConversionWarningV>) {
    let (messages, ws1) = parsed_messages(w.messages, Seq::empty(), w.messages.len());
    let (max_output_tokens, ws2) = limit_of(w, ws1);
    let (stop_sequences, ns1, ws3) = stop_of(w.stop, Seq::empty(), ws2);
    let (output_format, ns2) = format_of(w.response_format, ns1);
    let (tools, ws4) = match w.tools {
        Some(a) => {
            let (t, ws4) = tools_of(a, ws3, a.len());
            (Some(t), ws4)
        },
        None => (None, ws3),
    };
    let (tool_choice, ns3) = choice_of(w.tool_choice, ns2);
    let ws5 = options_noted(w.stream_options, ws4);
    (
        RequestV {
            messages,
            max_output_tokens,
            temperature: w.temperature,
            top_p: w.top_p,
            stop_sequences,
            seed: w.seed,
            frequency_penalty: w.frequency_penalty,
            presence_penalty: w.presence_penalty,
            metadata: w.metadata,
            cache_key: w.prompt_cache_key,
            reasoning: effort_of(w.reasoning_effort),
            output_format,
            tools,
            tool_choice,
            parallel_tool_calls: w.parallel_tool_calls,
            extra: own_extra(extended(ns3, w.extra)),
            ..empty_request()
        },
        ws5,
    )
}

/// The IR request of JSON.
pub open spec fn openai_parsed_request(j: JsonV) -> Result<(RequestV, Seq<ConversionWarningV>), Seq<char>> {
    match types::decode_request(j) {
        Err(e) => Err(e),
        Ok(w) => Ok(request_of(w)),
    }
}

/// The error for a body that is none.
pub open spec fn parse_failure(what: Seq<char>, reason: Seq<char>, body: Seq<u8>) -> ErrorV {
    ErrorV::Parse { message: "invalid Chat Completions "@ + what + ": "@ + reason, raw: body }
}

/// The outcome of parsing a request body.
pub open spec fn openai_request_outcome(body: Seq<u8>) -> Result<(RequestV, Seq<ConversionWarningV>), ErrorV> {
    match json_from_slice(body) {
        Err(e) => Err(parse_failure("request"@, e, body)),
        Ok(j) => match openai_parsed_request(j) {
            Err(e) => Err(parse_failure("request"@, e, body)),
            Ok(r) => Ok(r),
        },
    }
}

/// The stop reason of a finish reason.
pub open spec fn finish_reason(s: Seq<char>) -> StopReasonV {
    if s == "stop"@ {
        StopReasonV::EndTurn
    } else if s == "length"@ {
        StopReasonV::MaxTokens
    } else if s == "tool_calls"@ {
        StopReasonV::ToolUse
    } else if s == "content_filter"@ {
        StopReasonV::ContentFilter
    } else {
        StopReasonV::Other(s)
    }
}

/// The stop reason of an optional finish reason.
pub open spec fn opt_finish_reason(s: Option<Seq<char>>) -> Option<StopReasonV> {
    match s {
        Some(s) => Some(finish_reason(s)),
        None => None,
    }
}

/// An empty assistant message.
pub open spec fn empty_answer() -> MessageV {
    plain_message(Role::Assistant, Seq::empty())
}

/// Message and finish reason of the first choice.
pub open spec fn choice_message(
    j: JsonV,
    ws: Seq<ConversionWarningV>,
) -> (MessageV, Option<Seq<char>>, Seq<ConversionWarningV>) {
    match types::decode_choice(j) {
        Err(e) => (
            empty_answer(),
            None,
            odd_field(ws, "/choices/0"@, "choice failed to parse; the assistant message is empty: "@ + e),
        ),
        Ok(c) => match c.message {
            Some(m) => {
                let (msg, ws1) = assistant_from(m, "/choices/0/message"@, ws);
                (msg, c.finish_reason, ws1)
            },
            None => (
                empty_answer(),
                c.finish_reason,
                odd_field(
                    ws,
                    "/choices/0"@,
                    "choice carries no `message`; the assistant message is empty"@,
                ),
            ),
        },
    }
}

/// Message and finish reason of a response.
pub open spec fn first_choice(choices: Seq<JsonV>) -> (MessageV, Option<Seq<char>>, Seq<ConversionWarningV>) {
    let ws0 = Seq::<ConversionWarningV>::empty();
    if choices.len() == 0 {
        (
            empty_answer(),
            None,
            odd_field(
                ws0,
                "/choices"@,
                "the response carries no choices; the assistant message is empty"@,
            ),
        )
    } else {
        choice_message(
            choices[0],
            if choices.len() > 1 {
                oparsed(
                    ws0,
                    WarningCode::MultipleCandidates,
                    "/choices"@,
                    "the response carries "@ + decimal(choices.len())
                        + " choices; only the first was read (the rest remain in `raw`)"@,
                )
            } else {
                ws0
            },
        )
    }
}

/// The value, zero when absent.
pub open spec fn or_zero(n: Option<u64>) -> u64 {
    match n {
        Some(n) => n,
        None => 0,
    }
}

/// The usage of a wire usage.
pub open spec fn usage_of(u: types::UsageV) -> UsageV {
    UsageV {
        input_tokens: or_zero(u.prompt_tokens),
        output_tokens: or_zero(u.completion_tokens),
        total_tokens: u.total_tokens,
        cache_read_tokens: match u.prompt_tokens_details {
            Some(d) => d.cached_tokens,
            None => None,
        },
        cache_write_tokens: match u.prompt_tokens_details {
            Some(d) => d.cache_write_tokens,
            None => None,
        },
        reasoning_tokens: match u.completion_tokens_details {
            Some(d) => d.reasoning_tokens,
            None => None,
        },
        raw: Some(types::encode_usage(u)),
    }
}

/// The usage of JSON; nothing when it does not parse.
pub open spec fn usage_value(j: JsonV) -> Option<UsageV> {
    match types::decode_usage(j) {
        Ok(u) => Some(usage_of(u)),
        Err(_) => None,
    }
}

/// The IR response of JSON.
pub open spec fn openai_parsed_response(j: JsonV, status: u16, headers: http::HeaderMap) -> Result<ResponseV, Seq<char>> {
    match types::decode_response(j) {
        Err(e) => Err(e),
        Ok(w) => {
            let (message, finish, ws) = first_choice(w.choices);
            Ok(
                ResponseV {
                    message,
                    id: w.id,
                    model: w.model,
                    stop_reason: normalized_stop_reason(message, opt_finish_reason(finish)),
                    usage: match w.usage {
                        Some(u) => Some(usage_of(u)),
                        None => None,
                    },
                    status,
                    headers,
                    raw: Some(j),
                    warnings: ws,
                },
            )
        },
    }
}

/// The outcome of parsing a response body.
pub open spec fn openai_response_outcome(body: Seq<u8>, status: u16, headers: http::HeaderMap) -> Result<ResponseV, ErrorV> {
    match json_from_slice(body) {
        Err(e) => Err(parse_failure("response"@, e, body)),
        Ok(j) => match openai_parsed_response(j, status, headers) {
            Err(e) => Err(parse_failure("response"@, e, body)),
            Ok(r) => Ok(r),
        },
    }
}

fn are_strings(a: &Vec<Json>) -> (r: bool)
    ensures
        r == all_strings(views(a@)),
{
    let mut i: usize = 0;
    while i < a.len()
        invariant
            i <= a@.len(),
            forall|k: int| 0 <= k < i ==> (#[trigger] views(a@)[k]) is Str,
        decreases a@.len() - i,
    {
        proof {
            assert(views(a@)[i as int] == a@[i as int]@);
        }
        if a[i].as_str().is_none() {
            return false;
        }
        i += 1;
    }
    true
}

fn strings_of(a: &Vec<Json>) -> (r: Vec<String>)
    requires
        all_strings(views(a@)),
    ensures
        views(r@) == Seq::new(a@.len(), |i: int| views(a@)[i]->Str_0),
{
    let mut out: Vec<String> = Vec::new();
    let mut i: usize = 0;
    while i < a.len()
        invariant
            i <= a@.len(),
            all_strings(views(a@)),
            out@.len() == i,
            forall|k: int| 0 <= k < i ==> (#[trigger] out@[k])@ == views(a@)[k]->Str_0,
        decreases a@.len() - i,
    {
        proof {
            assert(views(a@)[i as int] == a@[i as int]@);
            assert(views(a@)[i as int] is Str);
        }
        match a[i].as_str() {
            Some(s) => {
                out.push(s.clone());
            },
            None => {
                proof {
                    assert(false);
                }
            },
        }
        i += 1;
    }
    proof {
        assert(views(out@) =~= Seq::new(a@.len(), |i: int| views(a@)[i]->Str_0));
    }
    out
}

fn parse_stop(v: Option<Json>, ns: &mut JsonMap, ws: &mut Vec<ConversionWarning>) -> (r: Option<Vec<String>>)
    ensures
        (opt_views(r), final(ns)@, views(final(ws)@)) == stop_of(opt_view(v), old(ns)@, views(old(ws)@)),
{
    broadcast use group_json;
    match v {
        None => None,
        Some(Json::Str(s)) => {
            let ghost sv = s@;
            let mut out: Vec<String> = Vec::new();
            out.push(s);
            proof {
                assert(views(out@) =~= seq![sv]);
            }
            Some(out)
        },
        Some(other) => {
            if let Json::Array(a) = &other {
                if are_strings(a) {
                    let out = strings_of(a);
                    proof {
                        assert(views(out@) =~= Seq::new(
                            (other@)->Array_0.len(),
                            |i: int| (other@)->Array_0[i]->Str_0,
                        ));
                    }
                    return Some(out);
                }
            }
            warn_field(
                ws,
                "/stop",
                "`stop` is neither a string nor an array of strings; kept verbatim in the request extra",
            );
            ns.set("stop", other);
            None
        },
    }
}

fn parse_limit(w: &types::Request, ws: &mut Vec<ConversionWarning>) -> (r: Option<u32>)
    ensures
        (r, views(final(ws)@)) == limit_of(w@, views(old(ws)@)),
{
    match w.max_completion_tokens {
        None => w.max_tokens,
        Some(n) => {
            if w.max_tokens.is_some() {
                warn_field(
                    ws,
                    "/max_tokens",
                    "both `max_completion_tokens` and legacy `max_tokens` are set; `max_completion_tokens` wins and `max_tokens` was dropped",
                );
            }
            Some(n)
        },
    }
}

fn is_true(v: &Json) -> (r: bool)
    ensures
        r == (v@ == JsonV::Bool(true)),
{
    match v {
        Json::Bool(b) => *b,
        _ => false,
    }
}

fn list_dropped(o: &JsonMap) -> (r: Vec<String>)
    ensures
        views(r@) == dropped_options(o@, o@.len()),
{
    let mut out: Vec<String> = Vec::new();
    let mut i: usize = 0;
    proof {
        assert(views(out@) =~= Seq::<Seq<char>>::empty());
    }
    while i < o.entries.len()
        invariant
            i <= o.entries@.len(),
            views(out@) == dropped_options(o@, i as nat),
        decreases o.entries@.len() - i,
    {
        proof {
            assert(o@[i as int] == (o.entries@[i as int].0@, o.entries@[i as int].1@));
        }
        if !str_eq(o.entries[i].0.as_str(), "include_usage") || !is_true(&o.entries[i].1) {
            out.push(cat3("`", o.entries[i].0.as_str(), "`"));
        }
        i += 1;
    }
    out
}

/// Notes `stream_options` that the build side cannot restore.
pub fn warn_dropped_stream_options(v: &Option<Json>, ws: &mut Vec<ConversionWarning>)
    ensures
        views(final(ws)@) == options_noted(opt_view(*v), views(old(ws)@)),
{
    broadcast use group_json;
    match v {
        None => {},
        Some(Json::Object(o)) => {
            let dropped = list_dropped(o);
            if dropped.len() == 0 {
                return;
            }
            let hint = match o.get("include_usage") {
                Some(v) => {
                    if is_true(v) {
                        ""
                    } else {
                        "; set `inject_include_usage: false` to stream without the usage chunk"
                    }
                },
                None => "",
            };
            parse_warn(
                ws,
                OPENAI_CHAT_COMPLETIONS,
                WarningCode::StreamOptionsDropped,
                "/stream_options",
                cat4(
                    "`stream_options` member(s) ",
                    join(&dropped, ", ").as_str(),
                    " were dropped; the build side reconstructs only a literal `include_usage: true` (per `OpenAiChatCompletionsOptions`)",
                    hint,
                ).as_str(),
            );
        },
        Some(_) => {
            parse_warn(
                ws,
                OPENAI_CHAT_COMPLETIONS,
                WarningCode::StreamOptionsDropped,
                "/stream_options",
                "non-object `stream_options` was dropped; the build side reconstructs only a literal `include_usage: true` (per `OpenAiChatCompletionsOptions`)",
            );
        },
    }
}

fn take_string(o: &mut JsonMap, k: &str) -> (r: Option<String>)
    ensures
        (opt_view(r), final(o)@) == taken_string(old(o)@, k@),
{
    let found: Option<String> = match o.get(k) {
        Some(j) => match j.as_str() {
            Some(s) => Some(s.clone()),
            None => None,
        },
        None => None,
    };
    if found.is_some() {
        let _ = o.remove(k);
    }
    found
}

fn parse_schema_format(format: &JsonMap, inner: &JsonMap, ns: &mut JsonMap) -> (r: OutputFormat)
    ensures
        (r@, final(ns)@) == schema_format(format@, inner@, old(ns)@),
{
    let mut left = inner.copy();
    let name = take_string(&mut left, "name");
    let description = take_string(&mut left, "description");
    let schema = match left.get("schema") {
        Some(v) => v.copy(),
        None => Json::Null,
    };
    let _ = left.remove("schema");
    let strict = match left.get("strict") {
        Some(v) => v.as_bool(),
        None => None,
    };
    if strict.is_some() {
        let _ = left.remove("strict");
    }
    let mut mirror = format.copy();
    let _ = mirror.remove("type");
    let _ = mirror.remove("json_schema");
    nest(&mut mirror, "json_schema", left);
    nest(ns, "response_format", mirror);
    OutputFormat::JsonSchema { name, description, schema, strict }
}

/// Maps `response_format` to the IR.
pub fn response_format_to_ir(v: Option<Json>, ns: &mut JsonMap) -> (r: Option<OutputFormat>)
    ensures
        (opt_view(r), final(ns)@) == format_of(opt_view(v), old(ns)@),
{
    broadcast use group_json;
    let f = match v {
        None => {
            return None;
        },
        Some(f) => f,
    };
    let t = type_of_part(&f);
    if let Json::Object(o) = &f {
        if opt_is(t, "json_schema") {
            if let Some(Json::Object(inner)) = o.get("json_schema") {
                if inner.contains_key("schema") {
                    return Some(parse_schema_format(o, inner, ns));
                }
            }
        } else if opt_is(t, "json_object") {
            let mut mirror = o.copy();
            let _ = mirror.remove("type");
            nest(ns, "response_format", mirror);
            return Some(OutputFormat::JsonObject);
        }
    }
    proof {
        reveal_strlit("json_schema");
        reveal_strlit("json_object");
        assert("json_schema"@[5] != "json_object"@[5]);
    }
    ns.set("response_format", f);
    None
}

/// Maps one tool definition to the IR.
pub fn tool_to_ir(j: &Json, i: usize, ws: &mut Vec<ConversionWarning>) -> (r: Tool)
    ensures
        (r@, views(final(ws)@)) == tool_of(j@, i as nat, views(old(ws)@)),
{
    if opt_is(type_of_part(j), "function") {
        match types::FunctionToolDef::from_json(j) {
            Ok(d) => {
                let mut ns = d.extra;
                let f = d.function;
                nest(&mut ns, "function", f.extra);
                return Tool::Function(
                    FunctionTool {
                        name: f.name,
                        description: f.description,
                        parameters: f.parameters,
                        strict: f.strict,
                        cache: None,
                        extra: Extra::from_unknown(OPENAI_CHAT_COMPLETIONS, ns),
                    },
                );
            },
            Err(e) => {
                warn_field(
                    ws,
                    cat2("/tools/", dec_usize(i).as_str()).as_str(),
                    cat2("function tool failed to parse and was kept verbatim: ", e.as_str()).as_str(),
                );
            },
        }
    }
    Tool::Opaque { format: OPENAI_CHAT_COMPLETIONS.to_owned(), value: j.copy() }
}

fn tools_to_ir(a: &Vec<Json>, ws: &mut Vec<ConversionWarning>) -> (r: Vec<Tool>)
    ensures
        (views(r@), views(final(ws)@)) == tools_of(views(a@), views(old(ws)@), a@.len()),
{
    let ghost w0 = views(ws@);
    let mut out: Vec<Tool> = Vec::new();
    let mut i: usize = 0;
    proof {
        assert(views(out@) =~= Seq::<ToolV>::empty());
    }
    while i < a.len()
        invariant
            i <= a@.len(),
            (views(out@), views(ws@)) == tools_of(views(a@), w0, i as nat),
        decreases a@.len() - i,
    {
        let t = tool_to_ir(&a[i], i, ws);
        out.push(t);
        i += 1;
    }
    out
}

fn name_chosen(v: &Json) -> (r: Option<String>)
    ensures
        opt_view(r) == chosen_name(v@),
{
    broadcast use group_json;
    match v {
        Json::Object(o) => match o.get("function") {
            Some(Json::Object(f)) => {
                if o.len() == 2 && opt_is(type_of_part(v), "function") && f.len() == 1 {
                    match f.get("name") {
                        Some(n) => match n.as_str() {
                            Some(s) => Some(s.clone()),
                            None => None,
                        },
                        None => None,
                    }
                } else {
                    None
                }
            },
            _ => None,
        },
        _ => None,
    }
}

/// Maps `tool_choice` to the IR.
pub fn tool_choice_to_ir(v: Option<Json>, ns: &mut JsonMap) -> (r: Option<ToolChoice>)
    ensures
        (opt_view(r), final(ns)@) == choice_of(opt_view(v), old(ns)@),
{
    let c = match v {
        None => {
            return None;
        },
        Some(c) => c,
    };
    if let Json::Str(s) = &c {
        if text_is(s, "auto") {
            return Some(ToolChoice::Auto);
        }
        if text_is(s, "none") {
            return Some(ToolChoice::Disabled);
        }
        if text_is(s, "required") {
            return Some(ToolChoice::Required);
        }
    }
    match name_chosen(&c) {
        Some(name) => Some(ToolChoice::Tool { name }),
        None => {
            ns.set("tool_choice", c);
            None
        },
    }
}

fn request_from_wire(w: types::Request) -> (r: (Request, Vec<ConversionWarning>))
    ensures
        (r.0@, views(r.1@)) == request_of(w@),
{
    let ws: Vec<ConversionWarning> = Vec::new();
    proof {
        assert(views(ws@) =~= Seq::<ConversionWarningV>::empty());
    }
    let (messages, next) = parse_messages(&w.messages, ws);
    let mut ws = next;
    let mut ns = JsonMap::new();
    let max_output_tokens = parse_limit(&w, &mut ws);
    let stop_sequences = parse_stop(w.stop, &mut ns, &mut ws);
    let reasoning = match &w.reasoning_effort {
        Some(e) => {
            let mut r = Reasoning::new();
            r.effort = Some(Effort::from_str_lossy(e.as_str()));
            Some(r)
        },
        None => None,
    };
    let output_format = response_format_to_ir(w.response_format, &mut ns);
    let tools = match &w.tools {
        Some(a) => Some(tools_to_ir(a, &mut ws)),
        None => None,
    };
    let tool_choice = tool_choice_to_ir(w.tool_choice, &mut ns);
    warn_dropped_stream_options(&w.stream_options, &mut ws);
    extend_map(&mut ns, &w.extra);
    let mut req = Request::new();
    req.messages = messages;
    req.max_output_tokens = max_output_tokens;
    req.temperature = w.temperature;
    req.top_p = w.top_p;
    req.stop_sequences = stop_sequences;
    req.seed = w.seed;
    req.frequency_penalty = w.frequency_penalty;
    req.presence_penalty = w.presence_penalty;
    req.metadata = w.metadata;
    req.cache_key = w.prompt_cache_key;
    req.reasoning = reasoning;
    req.output_format = output_format;
    req.tools = tools;
    req.tool_choice = tool_choice;
    req.parallel_tool_calls = w.parallel_tool_calls;
    req.extra = Extra::from_unknown(OPENAI_CHAT_COMPLETIONS, ns);
    (req, ws)
}

/// Reads a request from JSON.
pub fn request_from_json(j: &Json) -> (r: Result<(Request, Vec<ConversionWarning>), String>)
    ensures
        match r {
            Ok(v) => openai_parsed_request(j@) == Ok::<(RequestV, Seq<ConversionWarningV>), Seq<char>>(
                (v.0@, views(v.1@)),
            ),
            Err(e) => openai_parsed_request(j@) == Err::<(RequestV, Seq<ConversionWarningV>), Seq<char>>(e@),
        },
{
    match types::Request::from_json(j) {
        Err(e) => Err(e),
        Ok(w) => Ok(request_from_wire(w)),
    }
}

fn body_error(what: &str, reason: &String, body: &[u8]) -> (r: Error)
    ensures
        r@ == parse_failure(what@, reason@, body@),
{
    Error::parse(cat4("invalid Chat Completions ", what, ": ", reason.as_str()).as_str(), body)
}

/// Parses a request body into the IR.
pub fn request_to_ir(body: &[u8]) -> (r: Result<(Request, Vec<ConversionWarning>), Error>)
    ensures
        match r {
            Ok(v) => openai_request_outcome(body@) == Ok::<(RequestV, Seq<ConversionWarningV>), ErrorV>(
                (v.0@, views(v.1@)),
            ),
            Err(e) => openai_request_outcome(body@) == Err::<(RequestV, Seq<ConversionWarningV>), ErrorV>(e@),
        },
        forall|j: JsonV|
            exact_json(j, 127) && body@ == #[trigger] json_to_bytes(j) && openai_parsed_request(j) is Ok ==> match r {
                Ok(v) => openai_parsed_request(j)->Ok_0 == (v.0@, views(v.1@)),
                Err(_) => false,
            },
{
    match parse_slice(body) {
        Err(e) => Err(body_error("request", &e, body)),
        Ok(j) => match request_from_json(&j) {
            Err(e) => Err(body_error("request", &e, body)),
            Ok(v) => Ok(v),
        },
    }
}

/// Maps a finish reason.
pub fn map_finish_reason(s: &str) -> (r: StopReason)
    ensures
        r@ == finish_reason(s@),
{
    if str_eq(s, "stop") {
        StopReason::EndTurn
    } else if str_eq(s, "length") {
        StopReason::MaxTokens
    } else if str_eq(s, "tool_calls") {
        StopReason::ToolUse
    } else if str_eq(s, "content_filter") {
        StopReason::ContentFilter
    } else {
        StopReason::Other(s.to_owned())
    }
}

fn make_empty_answer() -> (r: Message)
    ensures
        r@ == empty_answer(),
{
    let m = Message::assistant(Vec::new());
    proof {
        assert(m@.content =~= Seq::<ContentBlockV>::empty());
    }
    m
}

fn parse_choice(j: &Json, ws: Vec<ConversionWarning>) -> (r: (Message, Option<String>, Vec<ConversionWarning>))
    ensures
        (r.0@, opt_view(r.1), views(r.2@)) == choice_message(j@, views(ws@)),
{
    let mut ws = ws;
    match types::Choice::from_json(j) {
        Err(e) => {
            warn_field(
                &mut ws,
                "/choices/0",
                cat2("choice failed to parse; the assistant message is empty: ", e.as_str()).as_str(),
            );
            (make_empty_answer(), None, ws)
        },
        Ok(c) => match &c.message {
            Some(m) => {
                let (msg, next) = assistant_value_to_message(m, "/choices/0/message", ws);
                (msg, c.finish_reason, next)
            },
            None => {
                warn_field(
                    &mut ws,
                    "/choices/0",
                    "choice carries no `message`; the assistant message is empty",
                );
                (make_empty_answer(), c.finish_reason, ws)
            },
        },
    }
}

fn read_first_choice(choices: &Vec<Json>) -> (r: (Message, Option<String>, Vec<ConversionWarning>))
    ensures
        (r.0@, opt_view(r.1), views(r.2@)) == first_choice(views(choices@)),
{
    let mut ws: Vec<ConversionWarning> = Vec::new();
    proof {
        assert(views(ws@) =~= Seq::<ConversionWarningV>::empty());
    }
    if choices.len() == 0 {
        warn_field(
            &mut ws,
            "/choices",
            "the response carries no choices; the assistant message is empty",
        );
        return (make_empty_answer(), None, ws);
    }
    if choices.len() > 1 {
        parse_warn(
            &mut ws,
            OPENAI_CHAT_COMPLETIONS,
            WarningCode::MultipleCandidates,
            "/choices",
            cat3(
                "the response carries ",
                dec_usize(choices.len()).as_str(),
                " choices; only the first was read (the rest remain in `raw`)",
            ).as_str(),
        );
    }
    proof {
        assert(views(choices@)[0] == choices@[0]@);
    }
    parse_choice(&choices[0], ws)
}

fn zero_if_absent(n: Option<u64>) -> (r: u64)
    ensures
        r == or_zero(n),
{
    match n {
        Some(n) => n,
        None => 0,
    }
}

/// Maps a wire usage.
pub fn usage_to_ir(u: &types::Usage) -> (r: Usage)
    ensures
        r@ == usage_of(u@),
{
    let (cache_read_tokens, cache_write_tokens) = match &u.prompt_tokens_details {
        Some(d) => (d.cached_tokens, d.cache_write_tokens),
        None => (None, None),
    };
    let reasoning_tokens = match &u.completion_tokens_details {
        Some(d) => d.reasoning_tokens,
        None => None,
    };
    Usage {
        input_tokens: zero_if_absent(u.prompt_tokens),
        output_tokens: zero_if_absent(u.completion_tokens),
        total_tokens: u.total_tokens,
        cache_read_tokens,
        cache_write_tokens,
        reasoning_tokens,
        raw: Some(u.to_json()),
    }
}

/// Reads a usage from JSON; nothing when it does not parse.
pub fn usage_from_value(j: &Json) -> (r: Option<Usage>)
    ensures
        opt_view(r) == usage_value(j@),
{
    match types::Usage::from_json(j) {
        Ok(u) => Some(usage_to_ir(&u)),
        Err(_) => None,
    }
}

/// Reads a response from JSON.
pub fn response_from_json(j: Json, meta: &ResponseMeta) -> (r: Result<Response, String>)
    ensures
        match r {
            Ok(v) => openai_parsed_response(j@, meta.status, meta.headers) == Ok::<ResponseV, Seq<char>>(v@),
            Err(e) => openai_parsed_response(j@, meta.status, meta.headers) == Err::<ResponseV, Seq<char>>(e@),
        },
{
    let w = match types::Response::from_json(&j) {
        Err(e) => {
            return Err(e);
        },
        Ok(w) => w,
    };
    let (message, finish, ws) = read_first_choice(&w.choices);
    let stop = match &finish {
        Some(s) => Some(map_finish_reason(s.as_str())),
        None => None,
    };
    let stop_reason = normalize_stop_reason(&message, stop);
    let usage = match &w.usage {
        Some(u) => Some(usage_to_ir(u)),
        None => None,
    };
    Ok(
        Response {
            message,
            id: w.id,
            model: w.model,
            stop_reason,
            usage,
            status: meta.status,
            headers: clone_headers(&meta.headers),
            raw: Some(j),
            warnings: ws,
        },
    )
}

/// Parses a 2xx response body.
pub fn response_to_ir(body: &[u8], meta: &ResponseMeta) -> (r: Result<Response, Error>)
    ensures
        match r {
            Ok(v) => openai_response_outcome(body@, meta.status, meta.headers) == Ok::<ResponseV, ErrorV>(v@),
            Err(e) => openai_response_outcome(body@, meta.status, meta.headers) == Err::<ResponseV, ErrorV>(e@),
        },
{
    match parse_slice(body) {
        Err(e) => Err(body_error("response", &e, body)),
        Ok(j) => match response_from_json(j, meta) {
            Err(e) => Err(body_error("response", &e, body)),
            Ok(v) => Ok(v),
        },
    }
}

} // verus!
