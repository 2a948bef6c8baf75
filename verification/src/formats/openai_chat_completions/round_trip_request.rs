//! Law: a request is read back from the body that it becomes.

use vstd::prelude::*;
use crate::convert::sampling::sampling_check;
use crate::convert::{ConversionWarningV, ConvertOptionsV};
use crate::decode::{default_values, opt_bool, opt_i64, opt_object, opt_str, opt_u32, opt_value, opt_values, unknown};
use crate::decode;
use crate::format::{CallMode, OPENAI_CHAT_COMPLETIONS};
use crate::formats::openai_chat_completions::content::omerged;
use crate::formats::openai_chat_completions::from_ir::{effort_field, openai_body, opt_float, opt_text, request_fields, response_format, sampling_fields, tool_choice_value, tool_fields, tools_upto};
use crate::formats::openai_chat_completions::messages::{chat, prepared};
use crate::formats::openai_chat_completions::parse_messages::parsed_messages;
use crate::formats::openai_chat_completions::parse_parts::part_type;
use crate::formats::openai_chat_completions::round_trip::{tidy};
use crate::formats::openai_chat_completions::round_trip_tools::{history_round_trip, output_format_round_trip, plain_message_of, tool_choice_round_trip, tool_round_trip};
use crate::formats::openai_chat_completions::to_ir::{all_strings, effort_of, format_of, limit_of, openai_parsed_request, request_of, stop_of, tools_of};
use crate::formats::openai_chat_completions::types;
use crate::ir::{extra_get, extra_has, extra_ns, RequestV, ToolV};
use crate::json::{json_int, json_strings, obj_get, put_if, JsonV, NumV, ObjV};
use crate::namespaces::{absent_is_not_read, extended_nothing, front_members_are_read, names_differ, provider_data_survives, put_all, put_fields_are_known, put_fields_are_named, put_fields_are_read};
use crate::sink::{empty_sink, SinkV};
use crate::value::{exact_json, json_to_bytes, plain_number};

verus! {

/// A tool that this format can carry.
pub open spec fn plain_tool(t: ToolV) -> bool {
    match t {
        ToolV::Function(f) => f.cache is None && f.parameters != Some(JsonV::Null) && tidy(
            f.extra,
            types::function_tool_def_keys(),
        ),
        ToolV::Opaque { format, value } => format == OPENAI_CHAT_COMPLETIONS@ && part_type(value) != Some(
            "function"@,
        ),
    }
}

/// A request that this format can carry.
pub open spec fn plain_request(req: RequestV) -> bool {
    &&& req.system is None
    &&& forall|i: int| 0 <= i < req.messages.len() ==> plain_message_of(#[trigger] req.messages[i])
    &&& plain_number(req.temperature)
    &&& plain_number(req.top_p)
    &&& plain_number(req.frequency_penalty)
    &&& plain_number(req.presence_penalty)
    &&& req.top_k is None
    &&& match req.reasoning {
        Some(r) => r.enabled is None && r.include_thoughts is None && r.extra == Seq::<(Seq<char>, ObjV)>::empty()
            && r.effort is Some && effort_of(effort_field(r)) == Some(r),
        None => true,
    }
    &&& match req.output_format {
        Some(f) => f is JsonSchema ==> f->JsonSchema_name is Some,
        None => true,
    }
    &&& match req.tools {
        Some(tools) => tools.len() > 0 && forall|i: int| 0 <= i < tools.len() ==> plain_tool(#[trigger] tools[i]),
        None => true,
    }
    &&& req.parallel_tool_calls is Some ==> req.tools is Some
    &&& tidy(req.extra, types::request_keys())
}

/// The fields of a request body, in order.
spec fn request_list(
    req: RequestV,
    model: Option<Seq<char>>,
    wire: Seq<JsonV>,
    tools: Seq<JsonV>,
) -> Seq<(Seq<char>, Option<JsonV>)> {
    seq![
        ("model"@, opt_text(model)),
        ("messages"@, Some(JsonV::Array(wire))),
        (
            "max_completion_tokens"@,
            match req.max_output_tokens {
                Some(v) => Some(json_int(v as int)),
                None => None,
            },
        ),
        ("temperature"@, opt_float(req.temperature)),
        ("top_p"@, opt_float(req.top_p)),
        (
            "stop"@,
            match req.stop_sequences {
                Some(v) => Some(json_strings(v)),
                None => None,
            },
        ),
        (
            "seed"@,
            match req.seed {
                Some(v) => Some(json_int(v as int)),
                None => None,
            },
        ),
        ("frequency_penalty"@, opt_float(req.frequency_penalty)),
        ("presence_penalty"@, opt_float(req.presence_penalty)),
        (
            "metadata"@,
            match req.metadata {
                Some(m) => Some(JsonV::Object(m)),
                None => None,
            },
        ),
        ("prompt_cache_key"@, opt_text(req.cache_key)),
        (
            "reasoning_effort"@,
            match req.reasoning {
                Some(r) => opt_text(effort_field(r)),
                None => None,
            },
        ),
        (
            "response_format"@,
            match req.output_format {
                Some(f) => Some(response_format(f)),
                None => None,
            },
        ),
        ("tools"@, if tools.len() > 0 { Some(JsonV::Array(tools)) } else { None }),
        (
            "tool_choice"@,
            match req.tool_choice {
                Some(c) => Some(tool_choice_value(c)),
                None => None,
            },
        ),
        (
            "parallel_tool_calls"@,
            match req.parallel_tool_calls {
                Some(p) => Some(JsonV::Bool(p)),
                None => None,
            },
        ),
    ]
}

/// The tools of a request on the wire.
spec fn wire_tools(req: RequestV, s: SinkV) -> (Seq<JsonV>, SinkV) {
    match req.tools {
        Some(tools) => tools_upto(tools, s, tools.len()),
        None => (Seq::empty(), s),
    }
}

pub proof fn first_names(k: int, l: int)
    requires
        0 <= k < l < 16,
    ensures
        ({
            let n = request_names();
            n[k] != n[l]
        }),
{
    reveal_strlit("model");
    reveal_strlit("messages");
    reveal_strlit("max_completion_tokens");
    reveal_strlit("temperature");
    reveal_strlit("top_p");
    reveal_strlit("stop");
    reveal_strlit("seed");
    reveal_strlit("frequency_penalty");
    reveal_strlit("presence_penalty");
    reveal_strlit("metadata");
    reveal_strlit("prompt_cache_key");
    reveal_strlit("reasoning_effort");
    reveal_strlit("response_format");
    reveal_strlit("tools");
    reveal_strlit("tool_choice");
    reveal_strlit("parallel_tool_calls");
    let n = request_names();
    assert(n[0].len() == 5 && n[1].len() == 8 && n[2].len() == 21 && n[3].len() == 11 && n[4].len() == 5 && n[5].len()
        == 4 && n[6].len() == 4 && n[7].len() == 17);
    assert(n[8].len() == 16 && n[9].len() == 8 && n[10].len() == 16 && n[11].len() == 16 && n[12].len() == 15
        && n[13].len() == 5 && n[14].len() == 11 && n[15].len() == 19);
    assert(n[0][0] == 'm' && n[4][0] == 't' && n[13][0] == 't');
    assert(n[4][2] == 'p' && n[13][2] == 'o');
    assert(n[1][2] == 's' && n[9][2] == 't');
    assert(n[3][1] == 'e' && n[14][1] == 'o');
    assert(n[5][1] == 't' && n[6][1] == 'e');
    assert(n[8][2] == 'e' && n[10][2] == 'o' && n[11][2] == 'a');
}

pub open spec fn request_names() -> Seq<Seq<char>> {
    seq![
        "model"@,
        "messages"@,
        "max_completion_tokens"@,
        "temperature"@,
        "top_p"@,
        "stop"@,
        "seed"@,
        "frequency_penalty"@,
        "presence_penalty"@,
        "metadata"@,
        "prompt_cache_key"@,
        "reasoning_effort"@,
        "response_format"@,
        "tools"@,
        "tool_choice"@,
        "parallel_tool_calls"@,
    ]
}

/// The names of the fields, and their values.
proof fn list_names(req: RequestV, model: Option<Seq<char>>, wire: Seq<JsonV>, tools: Seq<JsonV>)
    ensures
        names_differ(request_list(req, model, wire, tools)),
        request_list(req, model, wire, tools).len() == 16,
{
    let l = request_list(req, model, wire, tools);
    assert forall|i: int, j: int| 0 <= i < j < l.len() implies (#[trigger] l[i]).0 != (#[trigger] l[j]).0 by {
        first_names(i, j);
        assert(l[i].0 == request_names()[i]);
        assert(l[j].0 == request_names()[j]);
    }
}

pub proof fn other_names()
    ensures
        forall|i: int| 0 <= i < 16 ==> (#[trigger] request_names()[i]) != "max_tokens"@,
        forall|i: int| 0 <= i < 16 ==> (#[trigger] request_names()[i]) != "stream"@,
        forall|i: int| 0 <= i < 16 ==> (#[trigger] request_names()[i]) != "stream_options"@,
{
    reveal_strlit("model");
    reveal_strlit("messages");
    reveal_strlit("max_completion_tokens");
    reveal_strlit("temperature");
    reveal_strlit("top_p");
    reveal_strlit("stop");
    reveal_strlit("seed");
    reveal_strlit("frequency_penalty");
    reveal_strlit("presence_penalty");
    reveal_strlit("metadata");
    reveal_strlit("prompt_cache_key");
    reveal_strlit("reasoning_effort");
    reveal_strlit("response_format");
    reveal_strlit("tools");
    reveal_strlit("tool_choice");
    reveal_strlit("parallel_tool_calls");
    reveal_strlit("max_tokens");
    reveal_strlit("stream");
    reveal_strlit("stream_options");
    let n = request_names();
    assert("max_tokens"@.len() == 10 && "stream"@.len() == 6 && "stream_options"@.len() == 14);
    assert(n[0].len() == 5 && n[1].len() == 8 && n[2].len() == 21 && n[3].len() == 11 && n[4].len() == 5 && n[5].len()
        == 4 && n[6].len() == 4 && n[7].len() == 17);
    assert(n[8].len() == 16 && n[9].len() == 8 && n[10].len() == 16 && n[11].len() == 16 && n[12].len() == 15
        && n[13].len() == 5 && n[14].len() == 11 && n[15].len() == 19);
}

proof fn tools_read_prefix(a: Seq<JsonV>, b: Seq<JsonV>, ws: Seq<ConversionWarningV>, n: nat)
    requires
        n <= a.len(),
        n <= b.len(),
        forall|i: int| 0 <= i < n ==> (#[trigger] a[i]) == b[i],
    ensures
        tools_of(a, ws, n) == tools_of(b, ws, n),
    decreases n,
{
    if n > 0 {
        tools_read_prefix(a, b, ws, (n - 1) as nat);
    }
}

/// The tools of a request are read back from the array that they become.
pub proof fn tools_round_trip(tools: Seq<ToolV>, s: SinkV, n: nat, ws: Seq<ConversionWarningV>)
    requires
        n <= tools.len(),
        forall|i: int| 0 <= i < tools.len() ==> plain_tool(#[trigger] tools[i]),
    ensures
        ({
            let (out, s1) = tools_upto(tools, s, n);
            &&& out.len() == n
            &&& s1.warnings == s.warnings
            &&& tools_of(out, ws, n) == (tools.take(n as int), ws)
        }),
    decreases n,
{
    if n == 0 {
        assert(tools.take(0) =~= Seq::<ToolV>::empty());
    } else {
        let p = (n - 1) as nat;
        tools_round_trip(tools, s, p, ws);
        let prev = tools_upto(tools, s, p);
        let t = tools[p as int];
        assert(plain_tool(t));
        match t {
            ToolV::Function(f) => {
                tool_round_trip(f, prev, p, ws);
            },
            _ => {},
        }
        let (out, s1) = tools_upto(tools, s, n);
        assert(out.drop_last() =~= prev.0);
        assert forall|i: int| 0 <= i < p implies (#[trigger] prev.0[i]) == out[i] by {
            assert(out.drop_last()[i] == out[i]);
        }
        tools_read_prefix(prev.0, out, ws, p);
        assert(out[p as int] == out.last());
        assert(tools.take(p as int).push(t) =~= tools.take(n as int));
    }
}

proof fn sampling_is_put(req: RequestV, l: Seq<(Seq<char>, Option<JsonV>)>, s: SinkV, wire: Seq<JsonV>, model: Option<Seq<char>>, tools: Seq<JsonV>)
    requires
        l == request_list(req, model, wire, tools),
        req.top_k is None,
    ensures
        sampling_fields(req, put_all(l, 2), s) == (put_all(l, 9), s),
{
    reveal_with_fuel(put_all, 8);
    assert(put_all(l, 9) == put_if(put_all(l, 8), l[8].0, l[8].1));
    assert(put_all(l, 8) == put_if(put_all(l, 7), l[7].0, l[7].1));
    assert(put_all(l, 7) == put_if(put_all(l, 6), l[6].0, l[6].1));
    assert(put_all(l, 6) == put_if(put_all(l, 5), l[5].0, l[5].1));
    assert(put_all(l, 5) == put_if(put_all(l, 4), l[4].0, l[4].1));
    assert(put_all(l, 4) == put_if(put_all(l, 3), l[3].0, l[3].1));
    assert(put_all(l, 3) == put_if(put_all(l, 2), l[2].0, l[2].1));
}

/// The body of a request is the object of its fields.
proof fn body_is_put(req: RequestV, model: Option<Seq<char>>, wire: Seq<JsonV>, s: SinkV)
    requires
        plain_request(req),
    ensures
        ({
            let (tools, s1) = wire_tools(req, s);
            let l = request_list(req, model, wire, tools);
            &&& s1.warnings == s.warnings
            &&& request_fields(req, CallMode::Unary, false, put_all(l, 2), s) == (put_all(l, 16), s1)
            &&& request_fields(req, CallMode::Unary, true, put_all(l, 2), s) == (put_all(l, 16), s1)
        }),
{
    let (tools, s1) = wire_tools(req, s);
    let l = request_list(req, model, wire, tools);
    sampling_is_put(req, l, s, wire, model, tools);
    match req.tools {
        Some(t) => {
            tools_round_trip(t, s, t.len(), Seq::empty());
        },
        None => {},
    }
    if req.reasoning is Some {
        let r = req.reasoning->0;
        reveal(extra_get);
        assert(!extra_has(r.extra, OPENAI_CHAT_COMPLETIONS@));
    }
    let b9 = put_all(l, 9);
    let b10 = put_all(l, 10);
    let b11 = put_all(l, 11);
    let b12 = put_all(l, 12);
    let b13 = put_all(l, 13);
    let b14 = put_all(l, 14);
    let b15 = put_all(l, 15);
    assert(b10 == put_if(b9, l[9].0, l[9].1));
    assert(b11 == put_if(b10, l[10].0, l[10].1));
    assert(b12 == put_if(b11, l[11].0, l[11].1));
    assert(b13 == put_if(b12, l[12].0, l[12].1));
    assert(b14 == put_if(b13, l[13].0, l[13].1));
    assert(b15 == put_if(b14, l[14].0, l[14].1));
    assert(put_all(l, 16) == put_if(b15, l[15].0, l[15].1));
    assert(tool_fields(req, b13, s) == (put_all(l, 16), s1));
}

/// The typed form of a request body.
spec fn request_wire(
    req: RequestV,
    model: Option<Seq<char>>,
    wire: Seq<JsonV>,
    tools: Seq<JsonV>,
    ns: ObjV,
) -> types::RequestV {
    types::RequestV {
        model,
        messages: wire,
        max_completion_tokens: req.max_output_tokens,
        max_tokens: None,
        temperature: req.temperature,
        top_p: req.top_p,
        stop: match req.stop_sequences {
            Some(v) => Some(json_strings(v)),
            None => None,
        },
        seed: req.seed,
        frequency_penalty: req.frequency_penalty,
        presence_penalty: req.presence_penalty,
        metadata: req.metadata,
        prompt_cache_key: req.cache_key,
        reasoning_effort: match req.reasoning {
            Some(r) => effort_field(r),
            None => None,
        },
        response_format: match req.output_format {
            Some(f) => Some(response_format(f)),
            None => None,
        },
        tools: if tools.len() > 0 { Some(tools) } else { None },
        tool_choice: match req.tool_choice {
            Some(c) => Some(tool_choice_value(c)),
            None => None,
        },
        parallel_tool_calls: req.parallel_tool_calls,
        stream: None,
        stream_options: None,
        extra: ns,
    }
}

spec fn reads(o: ObjV, l: Seq<(Seq<char>, Option<JsonV>)>) -> bool {
    forall|i: int| 0 <= i < l.len() ==> obj_get(o, (#[trigger] l[i]).0) == l[i].1
}

proof fn front_is_decoded(
    req: RequestV,
    model: Option<Seq<char>>,
    wire: Seq<JsonV>,
    tools: Seq<JsonV>,
    o: ObjV,
)
    requires
        plain_request(req),
        reads(o, request_list(req, model, wire, tools)),
    ensures
        opt_str(o, "model"@) == Ok::<Option<Seq<char>>, Seq<char>>(model),
        default_values(o, "messages"@) == Ok::<Seq<JsonV>, Seq<char>>(wire),
        opt_u32(o, "max_completion_tokens"@) == Ok::<Option<u32>, Seq<char>>(req.max_output_tokens),
        decode::opt_float(o, "temperature"@) == Ok::<Option<NumV>, Seq<char>>(req.temperature),
        decode::opt_float(o, "top_p"@) == Ok::<Option<NumV>, Seq<char>>(req.top_p),
        opt_value(o, "stop"@) == Ok::<Option<JsonV>, Seq<char>>(
            match req.stop_sequences {
                Some(v) => Some(json_strings(v)),
                None => None,
            },
        ),
        opt_i64(o, "seed"@) == Ok::<Option<i64>, Seq<char>>(req.seed),
        decode::opt_float(o, "frequency_penalty"@) == Ok::<Option<NumV>, Seq<char>>(req.frequency_penalty),
{
    let l = request_list(req, model, wire, tools);
    assert(obj_get(o, l[0].0) == l[0].1 && obj_get(o, l[1].0) == l[1].1);
    assert(obj_get(o, l[2].0) == l[2].1 && obj_get(o, l[3].0) == l[3].1);
    assert(obj_get(o, l[4].0) == l[4].1 && obj_get(o, l[5].0) == l[5].1);
    assert(obj_get(o, l[6].0) == l[6].1 && obj_get(o, l[7].0) == l[7].1);
}

proof fn back_is_decoded(
    req: RequestV,
    model: Option<Seq<char>>,
    wire: Seq<JsonV>,
    tools: Seq<JsonV>,
    o: ObjV,
)
    requires
        plain_request(req),
        reads(o, request_list(req, model, wire, tools)),
    ensures
        decode::opt_float(o, "presence_penalty"@) == Ok::<Option<NumV>, Seq<char>>(req.presence_penalty),
        opt_object(o, "metadata"@) == Ok::<Option<ObjV>, Seq<char>>(req.metadata),
        opt_str(o, "prompt_cache_key"@) == Ok::<Option<Seq<char>>, Seq<char>>(req.cache_key),
        opt_str(o, "reasoning_effort"@) == Ok::<Option<Seq<char>>, Seq<char>>(
            match req.reasoning {
                Some(r) => effort_field(r),
                None => None,
            },
        ),
        opt_value(o, "response_format"@) == Ok::<Option<JsonV>, Seq<char>>(
            match req.output_format {
                Some(f) => Some(response_format(f)),
                None => None,
            },
        ),
        opt_values(o, "tools"@) == Ok::<Option<Seq<JsonV>>, Seq<char>>(
            if tools.len() > 0 { Some(tools) } else { None },
        ),
        opt_value(o, "tool_choice"@) == Ok::<Option<JsonV>, Seq<char>>(
            match req.tool_choice {
                Some(c) => Some(tool_choice_value(c)),
                None => None,
            },
        ),
        opt_bool(o, "parallel_tool_calls"@) == Ok::<Option<bool>, Seq<char>>(req.parallel_tool_calls),
{
    let l = request_list(req, model, wire, tools);
    assert(obj_get(o, l[8].0) == l[8].1 && obj_get(o, l[9].0) == l[9].1);
    assert(obj_get(o, l[10].0) == l[10].1 && obj_get(o, l[11].0) == l[11].1);
    assert(obj_get(o, l[12].0) == l[12].1 && obj_get(o, l[13].0) == l[13].1);
    assert(obj_get(o, l[14].0) == l[14].1 && obj_get(o, l[15].0) == l[15].1);
}

proof fn body_is_decoded(
    req: RequestV,
    model: Option<Seq<char>>,
    wire: Seq<JsonV>,
    tools: Seq<JsonV>,
    o: ObjV,
    ns: ObjV,
)
    requires
        plain_request(req),
        reads(o, request_list(req, model, wire, tools)),
        obj_get(o, "max_tokens"@) is None,
        obj_get(o, "stream"@) is None,
        obj_get(o, "stream_options"@) is None,
        unknown(o, types::request_keys()) == ns,
    ensures
        types::decode_request(JsonV::Object(o)) == Ok::<types::RequestV, Seq<char>>(
            request_wire(req, model, wire, tools, ns),
        ),
{
    front_is_decoded(req, model, wire, tools, o);
    back_is_decoded(req, model, wire, tools, o);
}

/// The request that a typed body stands for.
proof fn wire_is_read(req: RequestV, model: Option<Seq<char>>, wire: Seq<JsonV>, tools: Seq<JsonV>, s: SinkV)
    requires
        plain_request(req),
        parsed_messages(wire, Seq::empty(), wire.len()) == (req.messages, Seq::<ConversionWarningV>::empty()),
        tools == wire_tools(req, s).0,
    ensures
        ({
            let ns = extra_ns(req.extra, OPENAI_CHAT_COMPLETIONS@);
            request_of(request_wire(req, model, wire, tools, ns)) == (req, Seq::<ConversionWarningV>::empty())
        }),
{
    let ns = extra_ns(req.extra, OPENAI_CHAT_COMPLETIONS@);
    let w = request_wire(req, model, wire, tools, ns);
    let none = Seq::<(Seq<char>, JsonV)>::empty();
    let ws = Seq::<ConversionWarningV>::empty();
    if req.stop_sequences is Some {
        let v = req.stop_sequences->0;
        let a = json_strings(v)->Array_0;
        assert(all_strings(a));
        assert(Seq::new(a.len(), |i: int| a[i]->Str_0) =~= v);
    }
    assert(stop_of(w.stop, none, ws) == (req.stop_sequences, none, ws));
    if req.output_format is Some {
        output_format_round_trip(req.output_format->0, none);
    }
    assert(format_of(w.response_format, none) == (req.output_format, none));
    if req.tool_choice is Some {
        tool_choice_round_trip(req.tool_choice->0, none);
    }
    match req.tools {
        Some(t) => {
            tools_round_trip(t, s, t.len(), ws);
            assert(t.take(t.len() as int) =~= t);
        },
        None => {},
    }
    extended_nothing(ns);
    assert(limit_of(w, ws) == (req.max_output_tokens, ws));
    assert(effort_of(w.reasoning_effort) == req.reasoning);
}

proof fn numbers_are_finite(req: RequestV)
    requires
        plain_request(req),
    ensures
        sampling_check(req.temperature, req.top_p, req.frequency_penalty, req.presence_penalty) is Ok,
{
}

proof fn members_are_read(req: RequestV, model: Option<Seq<char>>, wire: Seq<JsonV>, tools: Seq<JsonV>)
    requires
        plain_request(req),
    ensures
        ({
            let l = request_list(req, model, wire, tools);
            let t = put_all(l, 16);
            let ns = extra_ns(req.extra, OPENAI_CHAT_COMPLETIONS@);
            &&& omerged(req.extra, JsonV::Object(t)) == JsonV::Object(t + ns)
            &&& unknown(t + ns, types::request_keys()) == ns
            &&& reads(t + ns, l)
            &&& obj_get(t + ns, "max_tokens"@) is None
            &&& obj_get(t + ns, "stream"@) is None
            &&& obj_get(t + ns, "stream_options"@) is None
        }),
{
    let l = request_list(req, model, wire, tools);
    let t = put_all(l, 16);
    let known = types::request_keys();
    let ns = extra_ns(req.extra, OPENAI_CHAT_COMPLETIONS@);
    list_names(req, model, wire, tools);
    other_names();
    assert(known[0] == "model"@ && known[1] == "messages"@ && known[2] == "max_completion_tokens"@ && known[3]
        == "max_tokens"@ && known[4] == "temperature"@ && known[5] == "top_p"@ && known[6] == "stop"@ && known[7]
        == "seed"@ && known[8] == "frequency_penalty"@ && known[9] == "presence_penalty"@);
    assert(known[10] == "metadata"@ && known[11] == "prompt_cache_key"@ && known[12] == "reasoning_effort"@
        && known[13] == "response_format"@ && known[14] == "tools"@ && known[15] == "tool_choice"@ && known[16]
        == "parallel_tool_calls"@ && known[17] == "stream"@ && known[18] == "stream_options"@);
    assert forall|i: int| 0 <= i < 16 implies known.contains((#[trigger] l[i]).0) by {
        assert(l[i].0 == known[if i < 3 { i } else { i + 1 }]);
    }
    put_fields_are_known(l, 16, known);
    provider_data_survives(OPENAI_CHAT_COMPLETIONS@, t, ns, known);
    let o = t + ns;
    assert forall|i: int| 0 <= i < l.len() implies obj_get(o, (#[trigger] l[i]).0) == l[i].1 by {
        put_fields_are_read(l, 16, i);
        assert(known.contains(l[i].0));
        front_members_are_read(t, ns, known, l[i].0);
    }
    assert forall|i: int| 0 <= i < 16 implies (#[trigger] l[i]).0 == request_names()[i] by {}
    put_fields_are_named(l, 16, "max_tokens"@);
    put_fields_are_named(l, 16, "stream"@);
    put_fields_are_named(l, 16, "stream_options"@);
    absent_is_not_read(t, "max_tokens"@, JsonV::Null);
    absent_is_not_read(t, "stream"@, JsonV::Null);
    absent_is_not_read(t, "stream_options"@, JsonV::Null);
    front_members_are_read(t, ns, known, "max_tokens"@);
    front_members_are_read(t, ns, known, "stream"@);
    front_members_are_read(t, ns, known, "stream_options"@);
}

/// A request is read back from the body that it becomes. The parse raises no
/// warning, and the build none but those about the calls and the thinking of
/// the history.
pub proof fn request_round_trip(req: RequestV, model: Option<Seq<char>>, conv: ConvertOptionsV, usage: bool)
    requires
        plain_request(req),
        !conv.downgrade_developer,
        prepared(req, conv, empty_sink()).0 == req.messages,
        model is Some ==> model->0.len() > 0,
    ensures
        match openai_body(req, model, CallMode::Unary, conv, usage) {
            Ok(b) => b.warnings == prepared(req, conv, empty_sink()).1.warnings && openai_parsed_request(b.body) == Ok::<
                (RequestV, Seq<ConversionWarningV>),
                Seq<char>,
            >((req, Seq::empty())),
            Err(_) => false,
        },
{
    numbers_are_finite(req);
    let ws = Seq::<ConversionWarningV>::empty();
    let n = req.messages.len();
    let s0 = prepared(req, conv, empty_sink()).1;
    history_round_trip(req.messages, conv, s0, n, ws);
    assert(req.messages.take(n as int) =~= req.messages);
    let c = chat(req.system, req.messages, conv, s0)->Ok_0;
    let (tools, s1) = wire_tools(req, c.sink);
    let l = request_list(req, model, c.wire, tools);
    body_is_put(req, model, c.wire, c.sink);
    assert(put_all(l, 1) == put_if(put_all(l, 0), l[0].0, l[0].1));
    assert(put_all(l, 2) == put_if(put_all(l, 1), l[1].0, l[1].1));
    let t = put_all(l, 16);
    let ns = extra_ns(req.extra, OPENAI_CHAT_COMPLETIONS@);
    members_are_read(req, model, c.wire, tools);
    body_is_decoded(req, model, c.wire, tools, t + ns, ns);
    wire_is_read(req, model, c.wire, tools, c.sink);
}

/// `bytes` is the body that the request becomes, and the body is one that this
/// format can carry whole.
pub open spec fn written_as(
    bytes: Seq<u8>,
    req: RequestV,
    model: Option<Seq<char>>,
    conv: ConvertOptionsV,
    usage: bool,
) -> bool {
    &&& plain_request(req)
    &&& !conv.downgrade_developer
    &&& prepared(req, conv, empty_sink()).0 == req.messages
    &&& model is Some ==> model->0.len() > 0
    &&& match openai_body(req, model, CallMode::Unary, conv, usage) {
        Ok(b) => exact_json(b.body, 127) && bytes == json_to_bytes(b.body),
        Err(_) => false,
    }
}

} // verus!
