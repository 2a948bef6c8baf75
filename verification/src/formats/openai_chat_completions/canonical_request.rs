//! Law: passing a request body through the IR canonicalizes it, and then
//! changes nothing more.

use vstd::prelude::*;
use crate::assembly::{bodies_agree, body_is_assembled, body_of, combined, field_is_read, field_of, no_field_is_read, sound, FieldsV};
use crate::convert::sampling::sampling_check;
use crate::convert::{ConversionWarningV, ConvertOptionsV, OrphanToolCalls};
use crate::decode::{default_values, opt_bool, opt_i64, opt_object, opt_str, opt_u32, opt_value, opt_values, unknown};
use crate::decode;
use crate::format::{CallMode, OPENAI_CHAT_COMPLETIONS};
use crate::formats::anthropic_messages::canonical_config::efforts_are_named;
use crate::formats::openai_chat_completions::canonical_calls::{entry_data, rest_is_sound, rest_of, swept_rest_stays};
use crate::formats::openai_chat_completions::canonical_fields::{choice_field, choice_settles, format_data, format_field, format_is_put, format_settles, format_value, odd_choice, odd_stop, steady_choice, steady_format, stop_field, stop_settles, tool_values, tools_are_written, tools_settle};
use crate::formats::openai_chat_completions::canonical_messages::{all_ready, canonical_messages, history_is_written, messages_settle, steady_messages};
use crate::formats::openai_chat_completions::canonical_parts::combined_stays;
use crate::formats::openai_chat_completions::content::omerged;
use crate::formats::openai_chat_completions::from_ir::{openai_body, opt_float, opt_text, request_fields, sampling_fields, tool_fields};
use crate::formats::openai_chat_completions::messages::{chat, chat_steps, prepared, ChatV};
use crate::formats::openai_chat_completions::parse_messages::parsed_messages;
use crate::formats::openai_chat_completions::parse_parts::own_extra;
use crate::formats::openai_chat_completions::round_trip_request::{first_names, other_names, request_names};
use crate::formats::openai_chat_completions::to_ir::{choice_of, format_of, limit_of, openai_parsed_request, openai_request_outcome, request_of, stop_of};
use crate::formats::openai_chat_completions::types;
use crate::ir::RequestV;
use crate::json::{json_int, obj_get, obj_set, object1, put_if, JsonV, NumV, ObjV};
use crate::namespaces::{absent_is_not_read, avoids, names_differ, put_all, put_fields_are_named, put_fields_are_read, unknown_avoids};
use crate::sink::{empty_sink, SinkV};
use crate::sweep::{fields_are_merged, swept};
use crate::value::{json_from_slice, json_to_bytes, plain_number};

verus! {

/// A number of tokens as JSON.
spec fn opt_count(n: Option<u32>) -> Option<JsonV> {
    match n {
        Some(v) => Some(json_int(v as int)),
        None => None,
    }
}

/// The limit that a body sets.
spec fn limit_field(w: types::RequestV) -> Option<u32> {
    match w.max_completion_tokens {
        Some(n) => Some(n),
        None => w.max_tokens,
    }
}

/// The tools of a body as they are written.
spec fn written_tools(w: types::RequestV) -> Seq<JsonV> {
    match w.tools {
        Some(a) => tool_values(a),
        None => Seq::empty(),
    }
}

/// The fields of a body.
spec fn body_fields(
    w: types::RequestV,
    model: Option<Seq<char>>,
    mode: CallMode,
    usage: bool,
    wire: Seq<JsonV>,
) -> FieldsV {
    let tools = written_tools(w);
    seq![
        ("model"@, opt_text(model)),
        ("messages"@, Some(JsonV::Array(wire))),
        ("max_completion_tokens"@, opt_count(limit_field(w))),
        ("temperature"@, opt_float(w.temperature)),
        ("top_p"@, opt_float(w.top_p)),
        ("stop"@, stop_field(w.stop)),
        (
            "seed"@,
            match w.seed {
                Some(v) => Some(json_int(v as int)),
                None => None,
            },
        ),
        ("frequency_penalty"@, opt_float(w.frequency_penalty)),
        ("presence_penalty"@, opt_float(w.presence_penalty)),
        (
            "metadata"@,
            match w.metadata {
                Some(m) => Some(JsonV::Object(m)),
                None => None,
            },
        ),
        ("prompt_cache_key"@, opt_text(w.prompt_cache_key)),
        ("reasoning_effort"@, opt_text(w.reasoning_effort)),
        ("response_format"@, format_field(w.response_format)),
        ("tools"@, if tools.len() > 0 { Some(JsonV::Array(tools)) } else { None }),
        ("tool_choice"@, choice_field(w.tool_choice)),
        (
            "parallel_tool_calls"@,
            match w.parallel_tool_calls {
                Some(p) => if tools.len() > 0 { Some(JsonV::Bool(p)) } else { None },
                None => None,
            },
        ),
        ("stream"@, if mode == CallMode::Streaming { Some(JsonV::Bool(true)) } else { None }),
        (
            "stream_options"@,
            if mode == CallMode::Streaming && usage {
                Some(object1("include_usage"@, JsonV::Bool(true)))
            } else {
                None
            },
        ),
    ]
}

/// What a body keeps verbatim of modeled members.
spec fn body_data(w: types::RequestV) -> FieldsV {
    seq![
        ("stop"@, odd_stop(w.stop)),
        ("response_format"@, format_data(w.response_format)),
        ("tool_choice"@, odd_choice(w.tool_choice)),
    ]
}

proof fn all_names(k: int, l: int)
    requires
        0 <= k < l < 18,
    ensures
        body_name(k) != body_name(l),
{
    reveal_strlit("stream");
    reveal_strlit("stream_options");
    other_names();
    if l < 16 {
        first_names(k, l);
    } else if k < 16 {
        assert(request_names()[k] != "stream"@);
        assert(request_names()[k] != "stream_options"@);
    } else {
        assert("stream"@.len() == 6 && "stream_options"@.len() == 14);
    }
}

spec fn body_name(i: int) -> Seq<char> {
    if i < 16 {
        request_names()[i]
    } else if i == 16 {
        "stream"@
    } else {
        "stream_options"@
    }
}

proof fn body_is_named(
    w: types::RequestV,
    model: Option<Seq<char>>,
    mode: CallMode,
    usage: bool,
    wire: Seq<JsonV>,
)
    ensures
        ({
            let l = body_fields(w, model, mode, usage, wire);
            &&& l.len() == 18
            &&& names_differ(l)
            &&& forall|i: int| 0 <= i < 18 ==> types::request_keys().contains((#[trigger] l[i]).0)
            &&& names_differ(body_data(w))
            &&& forall|i: int| 0 <= i < 3 ==> types::request_keys().contains((#[trigger] body_data(w)[i]).0)
            &&& forall|i: int| 0 <= i < 18 ==> (#[trigger] l[i]).0 == body_name(i)
        }),
{
    let l = body_fields(w, model, mode, usage, wire);
    assert forall|i: int| 0 <= i < 18 implies (#[trigger] l[i]).0 == body_name(i) by {}
    assert forall|i: int, j: int| 0 <= i < j < l.len() implies (#[trigger] l[i]).0 != (#[trigger] l[j]).0 by {
        all_names(i, j);
    }
    let known = types::request_keys();
    assert(known[0] == "model"@ && known[1] == "messages"@ && known[2] == "max_completion_tokens"@ && known[3]
        == "max_tokens"@ && known[4] == "temperature"@ && known[5] == "top_p"@ && known[6] == "stop"@ && known[7]
        == "seed"@ && known[8] == "frequency_penalty"@ && known[9] == "presence_penalty"@);
    assert(known[10] == "metadata"@ && known[11] == "prompt_cache_key"@ && known[12] == "reasoning_effort"@
        && known[13] == "response_format"@ && known[14] == "tools"@ && known[15] == "tool_choice"@ && known[16]
        == "parallel_tool_calls"@ && known[17] == "stream"@ && known[18] == "stream_options"@);
    assert forall|i: int| 0 <= i < 18 implies known.contains((#[trigger] l[i]).0) by {
        assert(l[i].0 == known[if i < 3 { i } else { i + 1 }]);
    }
    let nl = body_data(w);
    all_names(5, 12);
    all_names(5, 14);
    all_names(12, 14);
    assert forall|i: int| 0 <= i < 3 implies known.contains((#[trigger] nl[i]).0) by {
        assert(nl[0].0 == known[6] && nl[1].0 == known[13] && nl[2].0 == known[15]);
    }
}

/// A body as it is decoded.
spec fn decoded(w: types::RequestV) -> bool {
    &&& w.stop != Some(JsonV::Null)
    &&& w.response_format != Some(JsonV::Null)
    &&& w.tool_choice != Some(JsonV::Null)
    &&& avoids(w.extra, types::request_keys())
}

proof fn body_is_sound(
    w: types::RequestV,
    model: Option<Seq<char>>,
    mode: CallMode,
    usage: bool,
    wire: Seq<JsonV>,
)
    requires
        decoded(w),
    ensures
        sound(body_fields(w, model, mode, usage, wire), body_data(w), rest_of(w.extra), types::request_keys()),
{
    body_is_named(w, model, mode, usage, wire);
    rest_is_sound(w.extra, types::request_keys());
    let nl = body_data(w);
    assert forall|i: int| 0 <= i < nl.len() implies (#[trigger] nl[i]).1 != Some(JsonV::Null) by {}
}

/// The body in its canonical form.
spec fn canonical_body(
    w: types::RequestV,
    model: Option<Seq<char>>,
    mode: CallMode,
    usage: bool,
    wire: Seq<JsonV>,
) -> JsonV {
    JsonV::Object(body_of(body_fields(w, model, mode, usage, wire), body_data(w), rest_of(w.extra)))
}

/// The model that a body names.
pub open spec fn named_model(model: Option<Seq<char>>) -> Option<Seq<char>> {
    if model is Some && model->0.len() > 0 {
        model
    } else {
        None
    }
}

/// The fields of a request are put in their order.
proof fn fields_are_put(
    w: types::RequestV,
    model: Option<Seq<char>>,
    mode: CallMode,
    usage: bool,
    wire: Seq<JsonV>,
    s: SinkV,
)
    ensures
        ({
            let l = body_fields(w, model, mode, usage, wire);
            request_fields(request_of(w).0, mode, usage, put_all(l, 2), s).0 == put_all(l, 18)
        }),
{
    efforts_are_named();
    let l = body_fields(w, model, mode, usage, wire);
    let req = request_of(w).0;
    let ws1 = parsed_messages(w.messages, Seq::empty(), w.messages.len()).1;
    let ws2 = limit_of(w, ws1).1;
    let b = put_all(l, 2);
    assert(put_all(l, 3) == put_if(b, l[2].0, l[2].1));
    assert(put_all(l, 4) == put_if(put_all(l, 3), l[3].0, l[3].1));
    assert(put_all(l, 5) == put_if(put_all(l, 4), l[4].0, l[4].1));
    assert(put_all(l, 6) == put_if(put_all(l, 5), l[5].0, l[5].1));
    assert(put_all(l, 7) == put_if(put_all(l, 6), l[6].0, l[6].1));
    assert(put_all(l, 8) == put_if(put_all(l, 7), l[7].0, l[7].1));
    assert(put_all(l, 9) == put_if(put_all(l, 8), l[8].0, l[8].1));
    assert(stop_of(w.stop, Seq::empty(), ws2).0 == stop_of(w.stop, Seq::empty(), Seq::empty()).0);
    assert(sampling_fields(req, b, s).0 == put_all(l, 9));
    assert(put_all(l, 10) == put_if(put_all(l, 9), l[9].0, l[9].1));
    assert(put_all(l, 11) == put_if(put_all(l, 10), l[10].0, l[10].1));
    assert(put_all(l, 12) == put_if(put_all(l, 11), l[11].0, l[11].1));
    assert(put_all(l, 13) == put_if(put_all(l, 12), l[12].0, l[12].1));
    assert(put_all(l, 14) == put_if(put_all(l, 13), l[13].0, l[13].1));
    assert(put_all(l, 15) == put_if(put_all(l, 14), l[14].0, l[14].1));
    assert(put_all(l, 16) == put_if(put_all(l, 15), l[15].0, l[15].1));
    assert(put_all(l, 17) == put_if(put_all(l, 16), l[16].0, l[16].1));
    assert(put_all(l, 18) == put_if(put_all(l, 17), l[17].0, l[17].1));
    format_is_put(w.response_format);
    let (stops, ns1, ws3) = stop_of(w.stop, Seq::empty(), ws2);
    assert(req.output_format == format_of(w.response_format, ns1).0);
    assert forall|x: SinkV| #[trigger] tool_fields(req, put_all(l, 13), x).0 == put_all(l, 16) by {
        if let Some(a) = w.tools {
            tools_are_written(a, ws3, x, a.len());
            assert(tool_values(a).take(a.len() as int) =~= tool_values(a));
        }
    }
}

/// The data of a request.
proof fn data_is_put(w: types::RequestV)
    requires
        decoded(w),
        steady_choice(w.tool_choice),
    ensures
        request_of(w).0.extra == own_extra(decode::extended(put_all(body_data(w), 3), w.extra)),
{
    let nl = body_data(w);
    let none = Seq::<(Seq<char>, JsonV)>::empty();
    let ws1 = parsed_messages(w.messages, Seq::empty(), w.messages.len()).1;
    let ws2 = limit_of(w, ws1).1;
    stop_settles(w.stop);
    format_is_put(w.response_format);
    choice_settles(w.tool_choice);
    assert(put_all(nl, 0) == none);
    assert(put_all(nl, 1) == put_if(put_all(nl, 0), nl[0].0, nl[0].1));
    assert(put_all(nl, 2) == put_if(put_all(nl, 1), nl[1].0, nl[1].1));
    assert(put_all(nl, 3) == put_if(put_all(nl, 2), nl[2].0, nl[2].1));
    let ns1 = stop_of(w.stop, none, ws2).1;
    assert(ns1 == put_all(nl, 1));
    let ns2 = format_of(w.response_format, ns1).1;
    assert(ns2 == put_all(nl, 2));
    let ns3 = choice_of(w.tool_choice, ns2).1;
    assert(ns3 == put_all(nl, 3));
}

/// The options repair nothing.
pub open spec fn leaves_alone(conv: ConvertOptionsV) -> bool {
    &&& !conv.downgrade_developer
    &&& conv.orphan_tool_calls == OrphanToolCalls::Passthrough
    &&& conv.fill_missing_thinking is None
}

/// The history of a parsed request becomes its canonical messages.
proof fn history_is_chat(w: types::RequestV, conv: ConvertOptionsV)
    requires
        all_ready(w.messages),
        leaves_alone(conv),
    ensures
        ({
            let req = request_of(w).0;
            let (msgs, s0) = prepared(req, conv, empty_sink());
            match chat(req.system, msgs, conv, s0) {
                Ok(c) => canonical_messages(w.messages, w.messages.len()) == Some(c.wire),
                Err(_) => canonical_messages(w.messages, w.messages.len()) is None,
            }
        }),
{
    let req = request_of(w).0;
    let n = w.messages.len();
    let none = Seq::<ConversionWarningV>::empty();
    let (msgs, s0) = prepared(req, conv, empty_sink());
    assert(msgs == req.messages);
    let c0 = ChatV { wire: Seq::empty(), pointers: Seq::empty(), sink: s0 };
    history_is_written(w.messages, none, c0, conv, n);
    messages_are_counted(w.messages, none, n);
    assert(msgs.len() == n);
    assert(chat(req.system, msgs, conv, s0) == chat_steps(c0, msgs, conv, n));
}

/// The fields and the data of a request make its body.
proof fn body_is_merged(
    w: types::RequestV,
    model: Option<Seq<char>>,
    mode: CallMode,
    usage: bool,
    wire: Seq<JsonV>,
    s: SinkV,
)
    requires
        decoded(w),
        steady_choice(w.tool_choice),
    ensures
        ({
            let b0 = Seq::<(Seq<char>, JsonV)>::empty();
            let b1 = if model is Some && model->0.len() > 0 {
                obj_set(b0, "model"@, JsonV::Str(model->0))
            } else {
                b0
            };
            let b2 = obj_set(b1, "messages"@, JsonV::Array(wire));
            let (b3, s3) = request_fields(request_of(w).0, mode, usage, b2, s);
            omerged(request_of(w).0.extra, JsonV::Object(b3)) == canonical_body(
                w,
                named_model(model),
                mode,
                usage,
                wire,
            )
        }),
{
    let named = named_model(model);
    let l = body_fields(w, named, mode, usage, wire);
    let b0 = Seq::<(Seq<char>, JsonV)>::empty();
    assert(put_all(l, 0) == b0);
    assert(put_all(l, 1) == put_if(put_all(l, 0), l[0].0, l[0].1));
    assert(put_all(l, 2) == put_if(put_all(l, 1), l[1].0, l[1].1));
    fields_are_put(w, named, mode, usage, wire, s);
    data_is_put(w);
    body_is_sound(w, named, mode, usage, wire);
    let nl = body_data(w);
    entry_data(nl, w.extra, types::request_keys());
    fields_are_merged(OPENAI_CHAT_COMPLETIONS@, put_all(l, 18), decode::extended(put_all(nl, 3), w.extra));
}

/// What the body of a parsed request is.
proof fn body_is_written(
    w: types::RequestV,
    model: Option<Seq<char>>,
    mode: CallMode,
    conv: ConvertOptionsV,
    usage: bool,
)
    requires
        decoded(w),
        steady_choice(w.tool_choice),
        all_ready(w.messages),
        leaves_alone(conv),
    ensures
        match openai_body(request_of(w).0, model, mode, conv, usage) {
            Ok(b) => {
                let wire = canonical_messages(w.messages, w.messages.len());
                &&& wire is Some
                &&& b.body == canonical_body(w, named_model(model), mode, usage, wire->0)
            },
            Err(_) => sampling_check(w.temperature, w.top_p, w.frequency_penalty, w.presence_penalty) is Err
                || canonical_messages(w.messages, w.messages.len()) is None,
        },
{
    let req = request_of(w).0;
    history_is_chat(w, conv);
    let (msgs, s0) = prepared(req, conv, empty_sink());
    if let Ok(c) = chat(req.system, msgs, conv, s0) {
        body_is_merged(w, model, mode, usage, c.wire, c.sink);
    }
}

proof fn messages_are_counted(a: Seq<JsonV>, ws: Seq<ConversionWarningV>, n: nat)
    requires
        n <= a.len(),
    ensures
        parsed_messages(a, ws, n).0.len() == n,
    decreases n,
{
    if n > 0 {
        messages_are_counted(a, ws, (n - 1) as nat);
    }
}

/// A member of a canonical body as it is read.
spec fn reads(o: ObjV, w: types::RequestV, l: FieldsV) -> bool {
    &&& forall|i: int| 0 <= i < 18 && i != 5 && i != 12 && i != 14 ==> obj_get(o, (#[trigger] l[i]).0) == l[i].1
    &&& obj_get(o, "stop"@) == combined(stop_field(w.stop), odd_stop(w.stop))
    &&& obj_get(o, "response_format"@) == format_value(w.response_format)
    &&& obj_get(o, "tool_choice"@) == combined(choice_field(w.tool_choice), odd_choice(w.tool_choice))
    &&& obj_get(o, "max_tokens"@) is None
}

proof fn body_is_read(
    w: types::RequestV,
    model: Option<Seq<char>>,
    mode: CallMode,
    usage: bool,
    wire: Seq<JsonV>,
)
    requires
        decoded(w),
    ensures
        ({
            let o = canonical_body(w, model, mode, usage, wire)->Object_0;
            &&& reads(o, w, body_fields(w, model, mode, usage, wire))
            &&& unknown(o, types::request_keys()) == swept(rest_of(w.extra))
        }),
{
    let l = body_fields(w, model, mode, usage, wire);
    let nl = body_data(w);
    let known = types::request_keys();
    body_is_sound(w, model, mode, usage, wire);
    body_is_named(w, model, mode, usage, wire);
    body_is_assembled(l, nl, rest_of(w.extra), known);
    let o = canonical_body(w, model, mode, usage, wire)->Object_0;
    let t = put_all(l, 18);
    assert forall|i: int| 0 <= i < 18 && i != 5 && i != 12 && i != 14 implies obj_get(o, (#[trigger] l[i]).0)
        == l[i].1 by {
        assert(known.contains(l[i].0));
        put_fields_are_read(l, 18, i);
        assert forall|j: int| 0 <= j < nl.len() implies (#[trigger] nl[j]).0 != l[i].0 by {
            assert(nl[0].0 == l[5].0 && nl[1].0 == l[12].0 && nl[2].0 == l[14].0);
            let x = if j == 0 { 5int } else if j == 1 { 12int } else { 14int };
            if x < i {
                assert(l[x].0 != l[i].0);
            } else {
                assert(l[i].0 != l[x].0);
            }
        }
        no_field_is_read(nl, l[i].0);
    }
    assert(known.contains(l[5].0) && known.contains(l[12].0) && known.contains(l[14].0));
    put_fields_are_read(l, 18, 5);
    put_fields_are_read(l, 18, 12);
    put_fields_are_read(l, 18, 14);
    field_is_read(nl, 0);
    field_is_read(nl, 1);
    field_is_read(nl, 2);
    assert(known[3] == "max_tokens"@);
    other_names();
    limits_differ();
    assert forall|i: int| 0 <= i < 18 implies (#[trigger] l[i]).0 != "max_tokens"@ by {
        assert(l[i].0 == body_name(i));
    }
    put_fields_are_named(l, 18, "max_tokens"@);
    absent_is_not_read(t, "max_tokens"@, JsonV::Null);
    assert forall|j: int| 0 <= j < nl.len() implies (#[trigger] nl[j]).0 != "max_tokens"@ by {
        assert(nl[0].0 == l[5].0 && nl[1].0 == l[12].0 && nl[2].0 == l[14].0);
    }
    no_field_is_read(nl, "max_tokens"@);
    assert(obj_get(o, "max_tokens"@) is None);
}

proof fn limits_differ()
    ensures
        "stream"@ != "max_tokens"@,
        "stream_options"@ != "max_tokens"@,
{
    reveal_strlit("stream");
    reveal_strlit("stream_options");
    reveal_strlit("max_tokens");
    assert("stream"@.len() == 6 && "stream_options"@.len() == 14 && "max_tokens"@.len() == 10);
}

/// The wire form of a canonical body.
spec fn body_wire(
    w: types::RequestV,
    model: Option<Seq<char>>,
    mode: CallMode,
    usage: bool,
    wire: Seq<JsonV>,
) -> types::RequestV {
    let tools = written_tools(w);
    types::RequestV {
        model,
        messages: wire,
        max_completion_tokens: limit_field(w),
        max_tokens: None,
        stop: combined(stop_field(w.stop), odd_stop(w.stop)),
        response_format: format_value(w.response_format),
        tools: if tools.len() > 0 { Some(tools) } else { None },
        tool_choice: combined(choice_field(w.tool_choice), odd_choice(w.tool_choice)),
        parallel_tool_calls: if tools.len() > 0 { w.parallel_tool_calls } else { None },
        stream: if mode == CallMode::Streaming { Some(true) } else { None },
        stream_options: if mode == CallMode::Streaming && usage {
            Some(object1("include_usage"@, JsonV::Bool(true)))
        } else {
            None
        },
        extra: swept(rest_of(w.extra)),
        ..w
    }
}

/// A body that keeps its canonical form: so do its messages, its output format
/// and its tool choice, and its numbers are read as they are written.
pub open spec fn steady_request(w: types::RequestV) -> bool {
    &&& steady_messages(w.messages)
    &&& plain_number(w.temperature)
    &&& plain_number(w.top_p)
    &&& plain_number(w.frequency_penalty)
    &&& plain_number(w.presence_penalty)
    &&& steady_format(w.response_format)
    &&& steady_choice(w.tool_choice)
}

proof fn members_are_decoded(
    w: types::RequestV,
    model: Option<Seq<char>>,
    mode: CallMode,
    usage: bool,
    wire: Seq<JsonV>,
    o: ObjV,
)
    requires
        steady_request(w),
        decoded(w),
        reads(o, w, body_fields(w, model, mode, usage, wire)),
    ensures
        opt_str(o, "model"@) == Ok::<Option<Seq<char>>, Seq<char>>(model),
        default_values(o, "messages"@) == Ok::<Seq<JsonV>, Seq<char>>(wire),
        opt_u32(o, "max_completion_tokens"@) == Ok::<Option<u32>, Seq<char>>(limit_field(w)),
        opt_u32(o, "max_tokens"@) == Ok::<Option<u32>, Seq<char>>(None),
        decode::opt_float(o, "temperature"@) == Ok::<Option<NumV>, Seq<char>>(w.temperature),
        decode::opt_float(o, "top_p"@) == Ok::<Option<NumV>, Seq<char>>(w.top_p),
        opt_i64(o, "seed"@) == Ok::<Option<i64>, Seq<char>>(w.seed),
        decode::opt_float(o, "frequency_penalty"@) == Ok::<Option<NumV>, Seq<char>>(w.frequency_penalty),
        decode::opt_float(o, "presence_penalty"@) == Ok::<Option<NumV>, Seq<char>>(w.presence_penalty),
{
    let l = body_fields(w, model, mode, usage, wire);
    assert(obj_get(o, l[0].0) == l[0].1 && obj_get(o, l[1].0) == l[1].1);
    assert(obj_get(o, l[2].0) == l[2].1 && obj_get(o, l[3].0) == l[3].1);
    assert(obj_get(o, l[4].0) == l[4].1 && obj_get(o, l[6].0) == l[6].1);
    assert(obj_get(o, l[7].0) == l[7].1 && obj_get(o, l[8].0) == l[8].1);
}

proof fn other_members_are_decoded(
    w: types::RequestV,
    model: Option<Seq<char>>,
    mode: CallMode,
    usage: bool,
    wire: Seq<JsonV>,
    o: ObjV,
)
    requires
        steady_request(w),
        decoded(w),
        reads(o, w, body_fields(w, model, mode, usage, wire)),
    ensures
        ({
            let x = body_wire(w, model, mode, usage, wire);
            &&& opt_value(o, "stop"@) == Ok::<Option<JsonV>, Seq<char>>(x.stop)
            &&& opt_object(o, "metadata"@) == Ok::<Option<ObjV>, Seq<char>>(w.metadata)
            &&& opt_str(o, "prompt_cache_key"@) == Ok::<Option<Seq<char>>, Seq<char>>(w.prompt_cache_key)
            &&& opt_str(o, "reasoning_effort"@) == Ok::<Option<Seq<char>>, Seq<char>>(w.reasoning_effort)
            &&& opt_value(o, "response_format"@) == Ok::<Option<JsonV>, Seq<char>>(x.response_format)
            &&& opt_values(o, "tools"@) == Ok::<Option<Seq<JsonV>>, Seq<char>>(x.tools)
            &&& opt_value(o, "tool_choice"@) == Ok::<Option<JsonV>, Seq<char>>(x.tool_choice)
            &&& opt_bool(o, "parallel_tool_calls"@) == Ok::<Option<bool>, Seq<char>>(x.parallel_tool_calls)
            &&& opt_bool(o, "stream"@) == Ok::<Option<bool>, Seq<char>>(x.stream)
            &&& opt_value(o, "stream_options"@) == Ok::<Option<JsonV>, Seq<char>>(x.stream_options)
        }),
{
    let l = body_fields(w, model, mode, usage, wire);
    assert(obj_get(o, l[9].0) == l[9].1 && obj_get(o, l[10].0) == l[10].1);
    assert(obj_get(o, l[11].0) == l[11].1 && obj_get(o, l[13].0) == l[13].1);
    assert(obj_get(o, l[15].0) == l[15].1 && obj_get(o, l[16].0) == l[16].1);
    assert(obj_get(o, l[17].0) == l[17].1);
    stop_settles(w.stop);
    choice_settles(w.tool_choice);
    format_settles(w.response_format);
}

proof fn body_is_decoded(
    w: types::RequestV,
    model: Option<Seq<char>>,
    mode: CallMode,
    usage: bool,
    wire: Seq<JsonV>,
)
    requires
        steady_request(w),
        decoded(w),
    ensures
        types::decode_request(canonical_body(w, model, mode, usage, wire)) == Ok::<types::RequestV, Seq<char>>(
            body_wire(w, model, mode, usage, wire),
        ),
{
    body_is_read(w, model, mode, usage, wire);
    let o = canonical_body(w, model, mode, usage, wire)->Object_0;
    members_are_decoded(w, model, mode, usage, wire, o);
    other_members_are_decoded(w, model, mode, usage, wire, o);
}

/// A canonical body is its own canonical form.
proof fn body_stays(
    w: types::RequestV,
    model: Option<Seq<char>>,
    mode: CallMode,
    usage: bool,
    wire: Seq<JsonV>,
)
    requires
        steady_request(w),
        decoded(w),
    ensures
        ({
            let x = body_wire(w, model, mode, usage, wire);
            &&& decoded(x)
            &&& steady_choice(x.tool_choice)
            &&& canonical_body(x, model, mode, usage, wire) == canonical_body(w, model, mode, usage, wire)
        }),
{
    let known = types::request_keys();
    let x = body_wire(w, model, mode, usage, wire);
    let l = body_fields(w, model, mode, usage, wire);
    let l2 = body_fields(x, model, mode, usage, wire);
    let nl = body_data(w);
    let nl2 = body_data(x);
    stop_settles(w.stop);
    choice_settles(w.tool_choice);
    format_settles(w.response_format);
    combined_stays(odd_stop(w.stop));
    combined_stays(odd_choice(w.tool_choice));
    rest_is_sound(w.extra, known);
    swept_rest_stays(rest_of(w.extra));
    if let Some(a) = w.tools {
        tools_settle(a);
    }
    assert(written_tools(x) =~= written_tools(w));
    body_is_sound(w, model, mode, usage, wire);
    body_is_sound(x, model, mode, usage, wire);
    body_is_named(w, model, mode, usage, wire);
    put_fields_are_read(l, 18, 5);
    put_fields_are_read(l, 18, 12);
    put_fields_are_read(l, 18, 14);
    put_fields_are_read(l2, 18, 5);
    put_fields_are_read(l2, 18, 12);
    put_fields_are_read(l2, 18, 14);
    field_is_read(nl, 0);
    field_is_read(nl, 1);
    field_is_read(nl, 2);
    field_is_read(nl2, 0);
    field_is_read(nl2, 1);
    field_is_read(nl2, 2);
    assert forall|i: int| 0 <= i < l.len() implies (#[trigger] l[i]).0 == l2[i].0 && (l[i].1 is Some) == (l2[i].1 is Some)
        && combined(l[i].1, field_of(nl, l[i].0)) == combined(l2[i].1, field_of(nl2, l[i].0)) by {
        if i != 5 && i != 12 && i != 14 {
            assert(l[i].1 == l2[i].1);
            assert forall|j: int| 0 <= j < nl.len() implies (#[trigger] nl[j]).0 != l[i].0 && nl2[j].0 != l[i].0 by {
                assert(nl[0].0 == l[5].0 && nl[1].0 == l[12].0 && nl[2].0 == l[14].0);
                let y = if j == 0 { 5int } else if j == 1 { 12int } else { 14int };
                if y < i {
                    assert(l[y].0 != l[i].0);
                } else {
                    assert(l[i].0 != l[y].0);
                }
            }
            no_field_is_read(nl, l[i].0);
            assert forall|j: int| 0 <= j < nl2.len() implies (#[trigger] nl2[j]).0 != l[i].0 by {
                assert(nl[j].0 != l[i].0);
            }
            no_field_is_read(nl2, l[i].0);
        }
    }
    bodies_agree(l, nl, rest_of(w.extra), l2, nl2, rest_of(x.extra), known);
}

/// Passing a request body through the IR canonicalizes it, and then changes
/// nothing more: what the body of a parsed request is parsed to becomes the same
/// body again, for unary and for streaming calls, whatever is modeled of it and
/// whatever warnings it raises. `steady_request` says which bodies are left out.
pub proof fn canonical_form_is_stable(
    j: JsonV,
    model: Option<Seq<char>>,
    mode: CallMode,
    conv: ConvertOptionsV,
    usage: bool,
)
    requires
        types::decode_request(j) is Ok,
        steady_request(types::decode_request(j)->Ok_0),
        leaves_alone(conv),
        openai_body(openai_parsed_request(j)->Ok_0.0, model, mode, conv, usage) is Ok,
    ensures
        ({
            let first = openai_body(openai_parsed_request(j)->Ok_0.0, model, mode, conv, usage)->Ok_0.body;
            let second = openai_parsed_request(first);
            let again = openai_body(second->Ok_0.0, model, mode, conv, usage);
            &&& second is Ok
            &&& again is Ok
            &&& again->Ok_0.body == first
        }),
{
    let w = types::decode_request(j)->Ok_0;
    let o = j->Object_0;
    unknown_avoids(o, types::request_keys(), o.len());
    assert(decoded(w));
    let n = w.messages.len();
    messages_settle(w.messages, n);
    body_is_written(w, model, mode, conv, usage);
    let wire = canonical_messages(w.messages, n)->0;
    let named = named_model(model);
    body_is_decoded(w, named, mode, usage, wire);
    body_stays(w, named, mode, usage, wire);
    let x = body_wire(w, named, mode, usage, wire);
    body_is_written(x, model, mode, conv, usage);
}

/// The same of bytes: the bytes of a body that went through the IR once are
/// parsed to a request with the same body again. The body has to be one that is
/// read as it is written.
pub proof fn canonical_bytes_are_stable(
    bytes: Seq<u8>,
    model: Option<Seq<char>>,
    mode: CallMode,
    conv: ConvertOptionsV,
    usage: bool,
)
    requires
        openai_request_outcome(bytes) is Ok,
        steady_request(types::decode_request(json_from_slice(bytes)->Ok_0)->Ok_0),
        leaves_alone(conv),
        openai_body(openai_request_outcome(bytes)->Ok_0.0, model, mode, conv, usage) is Ok,
        ({
            let body = openai_body(openai_request_outcome(bytes)->Ok_0.0, model, mode, conv, usage)->Ok_0.body;
            json_from_slice(json_to_bytes(body)) == Ok::<JsonV, Seq<char>>(body)
        }),
    ensures
        ({
            let body = openai_body(openai_request_outcome(bytes)->Ok_0.0, model, mode, conv, usage)->Ok_0.body;
            let second = openai_request_outcome(json_to_bytes(body));
            let again = openai_body(second->Ok_0.0, model, mode, conv, usage);
            &&& second is Ok
            &&& again is Ok
            &&& again->Ok_0.body == body
        }),
{
    canonical_form_is_stable(json_from_slice(bytes)->Ok_0, model, mode, conv, usage);
}

} // verus!
