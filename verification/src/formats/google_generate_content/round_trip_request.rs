//! Law: a request is read back from the body that it becomes.

use vstd::prelude::*;
use crate::error::ConversionErrorV;
use crate::merge::{merged, obj_part};
use crate::formats::google_generate_content::parse_parts::{g_leftover, with_object};
use crate::convert::sampling::float_json;
use crate::convert::{ConversionWarningV, ConvertOptionsV};
use crate::decode::{opt_i64, opt_str, opt_strings, opt_u32, opt_value, unknown};
use crate::decode;
use crate::format::GOOGLE_GENERATE_CONTENT;
use crate::formats::google_generate_content::from_ir::{calling_config, generation_config, google_body, google_fields, google_prepared, leading_system, output_config, sampling_config, system_instruction, thinking_fields, tool_entries, turns, turns_start};
use crate::formats::google_generate_content::round_trip_fields::{choice_members, plain_reasoning, plain_system, plain_tools, reasoning_round_trip, system_data_is_decoded, system_round_trip, thinking_data_is_decoded, tool_choice_round_trip, tool_config_data, tools_round_trip};
use crate::formats::google_generate_content::round_trip_history::{history_of, history_round_trip, plain_exchange, sides_differ, ExchangeV};
use crate::formats::google_generate_content::to_ir::{all_messages, all_tools, config_mirror, config_output, config_reasoning, google_parsed_request, google_request_of, parsed_system, parsed_tool_config, with_config};
use crate::formats::google_generate_content::types::{content_keys, decode_content, decode_generate_content_request, decode_generation_config, decode_thinking_config, decode_vec_content, default_vec_content, generate_content_request_keys, generation_config_keys, opt_content, opt_generation_config, opt_thinking_config, opt_tool_config, opt_vec_tool, thinking_config_keys, GenerateContentRequestV, GenerationConfigV};
use crate::ir::{extra_merged, extra_ns, ExtraV, MessageV, OutputFormatV, ReasoningV, RequestV, Role};
use crate::json::{json_int, json_strings, obj_get, obj_set, put_if, JsonV, NumV, ObjV};
use crate::json_laws::strings_round_trip;
use crate::namespaces::{absent, absent_is_not_read, avoids, clean, data_under, deep_data_is_read, first_named_is_read, member_nests, merged_fields_are_read, merged_member, names_differ, nests, new_members_are_appended, put_all, put_fields_are_distinct, put_fields_are_known, put_fields_are_read, two_level, two_levels_are_merged, within};
use crate::sink::SinkV;
use crate::value::{exact_json, json_to_bytes, plain_number};

verus! {

/// A structured-output setting that this format can carry.
pub open spec fn plain_output(f: OutputFormatV) -> bool {
    match f {
        OutputFormatV::JsonSchema { name, description, schema, strict } => name is None && description is None
            && strict is None && !(schema is Null),
        OutputFormatV::JsonObject => true,
    }
}

/// The data of a request: its unmodeled members, then data of its system
/// instruction, tool configuration and generation configuration.
pub open spec fn arranged(rest: ObjV, system: ObjV, tool: ObjV, config: ObjV) -> ObjV {
    with_object(
        with_object(with_object(rest, "systemInstruction"@, system), "toolConfig"@, tool),
        "generationConfig"@,
        config,
    )
}

/// Provider data of a request that the wire keeps as it is.
pub open spec fn request_data(e: ExtraV) -> bool {
    let ns = extra_ns(e, GOOGLE_GENERATE_CONTENT@);
    let known = generate_content_request_keys();
    let system = data_under(ns, "systemInstruction"@);
    let tool = data_under(ns, "toolConfig"@);
    let config = data_under(ns, "generationConfig"@);
    &&& e == g_leftover(ns)
    &&& clean(ns)
    &&& nests(ns, known)
    &&& ns == arranged(unknown(ns, known), system, tool, config)
    &&& obj_get(ns, "contents"@) is None
    &&& obj_get(ns, "tools"@) is None
    &&& avoids(system, content_keys())
    &&& tool_config_data(tool)
    &&& two_level(config, "thinkingConfig"@, generation_config_keys(), thinking_config_keys())
}

/// A request of these exchanges that this format can carry: their sides
/// alternate.
pub open spec fn plain_request(req: RequestV, all: Seq<ExchangeV>) -> bool {
    plain_contents(req, all) && forall|i: int| 0 < i < all.len() ==> #[trigger] sides_differ(all, i)
}

/// A request of these exchanges whose every part this format can carry.
pub open spec fn plain_contents(req: RequestV, all: Seq<ExchangeV>) -> bool {
    &&& req.messages == history_of(all, all.len()).0
    &&& req.messages.len() < u64::MAX
    &&& forall|i: int| 0 <= i < all.len() ==> plain_exchange(#[trigger] all[i])
    &&& match req.system {
        Some(blocks) => plain_system(blocks),
        None => true,
    }
    &&& match req.tools {
        Some(tools) => plain_tools(tools) && tools.len() <= usize::MAX,
        None => true,
    }
    &&& req.parallel_tool_calls is None
    &&& plain_number(req.temperature)
    &&& plain_number(req.top_p)
    &&& plain_number(req.frequency_penalty)
    &&& plain_number(req.presence_penalty)
    &&& req.cache_key is None
    &&& req.metadata is None
    &&& match req.reasoning {
        Some(r) => plain_reasoning(r),
        None => true,
    }
    &&& match req.output_format {
        Some(f) => plain_output(f),
        None => true,
    }
    &&& request_data(req.extra)
}

spec fn float_of(n: Option<NumV>) -> Option<JsonV> {
    match n {
        Some(n) => Some(float_json(n)),
        None => None,
    }
}

spec fn int_of(n: Option<u32>) -> Option<JsonV> {
    match n {
        Some(n) => Some(json_int(n as int)),
        None => None,
    }
}

spec fn mime_of(f: Option<OutputFormatV>) -> Option<JsonV> {
    match f {
        Some(_) => Some(JsonV::Str("application/json"@)),
        None => None,
    }
}

spec fn schema_of(f: Option<OutputFormatV>) -> Option<JsonV> {
    match f {
        Some(OutputFormatV::JsonSchema { name, description, schema, strict }) => Some(schema),
        _ => None,
    }
}

spec fn thinking_of(r: Option<ReasoningV>, s: SinkV) -> Option<JsonV> {
    match r {
        Some(r) => Some(JsonV::Object(thinking_fields(r, s).0)),
        None => None,
    }
}

/// The fields of a generation configuration, in order.
spec fn config_list(req: RequestV, s: SinkV) -> Seq<(Seq<char>, Option<JsonV>)> {
    seq![
        ("maxOutputTokens"@, int_of(req.max_output_tokens)),
        ("temperature"@, float_of(req.temperature)),
        ("topP"@, float_of(req.top_p)),
        ("topK"@, int_of(req.top_k)),
        (
            "stopSequences"@,
            match req.stop_sequences {
                Some(v) => Some(json_strings(v)),
                None => None,
            },
        ),
        (
            "seed"@,
            match req.seed {
                Some(v) => Some(json_int(v as int)),
                None => None,
            },
        ),
        ("frequencyPenalty"@, float_of(req.frequency_penalty)),
        ("presencePenalty"@, float_of(req.presence_penalty)),
        ("responseMimeType"@, mime_of(req.output_format)),
        ("responseJsonSchema"@, schema_of(req.output_format)),
        ("thinkingConfig"@, thinking_of(req.reasoning, s)),
    ]
}

spec fn config_names() -> Seq<Seq<char>> {
    seq![
        "maxOutputTokens"@,
        "temperature"@,
        "topP"@,
        "topK"@,
        "stopSequences"@,
        "seed"@,
        "frequencyPenalty"@,
        "presencePenalty"@,
        "responseMimeType"@,
        "responseJsonSchema"@,
        "thinkingConfig"@,
    ]
}

proof fn config_names_differ(k: int, l: int)
    requires
        0 <= k < l < 11,
    ensures
        config_names()[k] != config_names()[l],
{
    reveal_strlit("maxOutputTokens");
    reveal_strlit("temperature");
    reveal_strlit("topP");
    reveal_strlit("topK");
    reveal_strlit("stopSequences");
    reveal_strlit("seed");
    reveal_strlit("frequencyPenalty");
    reveal_strlit("presencePenalty");
    reveal_strlit("responseMimeType");
    reveal_strlit("responseJsonSchema");
    reveal_strlit("thinkingConfig");
    let n = config_names();
    assert(n[0].len() == 15 && n[1].len() == 11 && n[2].len() == 4 && n[3].len() == 4 && n[4].len() == 13 && n[5].len()
        == 4);
    assert(n[6].len() == 16 && n[7].len() == 15 && n[8].len() == 16 && n[9].len() == 18 && n[10].len() == 14);
    assert(n[0][0] == 'm' && n[7][0] == 'p');
    assert(n[2][3] == 'P' && n[3][3] == 'K' && n[5][3] == 'd');
    assert(n[6][0] == 'f' && n[8][0] == 'r');
}

proof fn config_list_names(req: RequestV, s: SinkV)
    ensures
        names_differ(config_list(req, s)),
        forall|i: int|
            0 <= i < 11 ==> generation_config_keys().contains((#[trigger] config_list(req, s)[i]).0),
{
    let l = config_list(req, s);
    let known = generation_config_keys();
    assert forall|i: int, j: int| 0 <= i < j < l.len() implies (#[trigger] l[i]).0 != (#[trigger] l[j]).0 by {
        config_names_differ(i, j);
        assert(l[i].0 == config_names()[i]);
        assert(l[j].0 == config_names()[j]);
    }
    assert(known[0] == "stopSequences"@ && known[1] == "responseMimeType"@ && known[2] == "responseJsonSchema"@
        && known[3] == "maxOutputTokens"@ && known[4] == "temperature"@ && known[5] == "topP"@);
    assert(known[6] == "topK"@ && known[7] == "seed"@ && known[8] == "presencePenalty"@ && known[9]
        == "frequencyPenalty"@ && known[10] == "thinkingConfig"@);
    assert forall|i: int| 0 <= i < 11 implies known.contains((#[trigger] l[i]).0) by {
        let order = seq![3int, 4, 5, 6, 0, 7, 9, 8, 1, 2, 10];
        assert(l[i].0 == known[order[i]]);
    }
}

proof fn sampling_is_put(req: RequestV, s: SinkV)
    ensures
        sampling_config(req) == put_all(config_list(req, s), 8),
{
    let l = config_list(req, s);
    assert(put_all(l, 1) == put_if(put_all(l, 0), l[0].0, l[0].1));
    assert(put_all(l, 2) == put_if(put_all(l, 1), l[1].0, l[1].1));
    assert(put_all(l, 3) == put_if(put_all(l, 2), l[2].0, l[2].1));
    assert(put_all(l, 4) == put_if(put_all(l, 3), l[3].0, l[3].1));
    assert(put_all(l, 5) == put_if(put_all(l, 4), l[4].0, l[4].1));
    assert(put_all(l, 6) == put_if(put_all(l, 5), l[5].0, l[5].1));
    assert(put_all(l, 7) == put_if(put_all(l, 6), l[6].0, l[6].1));
    assert(put_all(l, 8) == put_if(put_all(l, 7), l[7].0, l[7].1));
}

/// The generation configuration is the object of its fields.
proof fn config_is_put(req: RequestV, all: Seq<ExchangeV>, s: SinkV)
    requires
        plain_request(req, all),
    ensures
        generation_config(req, s).0 == put_all(config_list(req, s), 11),
        generation_config(req, s).1.warnings == s.warnings,
{
    let l = config_list(req, s);
    sampling_is_put(req, s);
    assert(put_all(l, 9) == put_if(put_all(l, 8), l[8].0, l[8].1));
    assert(put_all(l, 10) == put_if(put_all(l, 9), l[9].0, l[9].1));
    assert(put_all(l, 11) == put_if(put_all(l, 10), l[10].0, l[10].1));
    assert(output_config(req.output_format, put_all(l, 8), s) == (put_all(l, 10), s));
    match req.reasoning {
        Some(r) => {
            reasoning_round_trip(r, s, Seq::empty());
        },
        None => {},
    }
}

/// The request with the configuration of another and nothing else.
spec fn bare(req: RequestV) -> RequestV {
    RequestV {
        max_output_tokens: None,
        temperature: None,
        top_p: None,
        top_k: None,
        stop_sequences: None,
        seed: None,
        frequency_penalty: None,
        presence_penalty: None,
        output_format: None,
        reasoning: None,
        ..req
    }
}

proof fn mime_is_read(req: RequestV, all: Seq<ExchangeV>, gc: GenerationConfigV)
    requires
        plain_request(req, all),
        gc.response_mime_type == (match req.output_format {
            Some(_) => Some("application/json"@),
            None => None,
        }),
        gc.response_json_schema == schema_of(req.output_format),
    ensures
        config_output(gc) == (req.output_format, gc.extra),
{
}

/// The thinking configuration of a request takes its data in.
proof fn thinking_is_read(req: RequestV, all: Seq<ExchangeV>, s: SinkV, q: ObjV)
    requires
        plain_request(req, all),
        avoids(q, thinking_config_keys()),
    ensures
        ({
            let t = obj_part(thinking_of(req.reasoning, s));
            &&& within(t, thinking_config_keys())
            &&& match decode_thinking_config(JsonV::Object(t + q)) {
                Ok(tc) => config_reasoning(tc) == req.reasoning && tc.extra == q,
                Err(_) => false,
            }
        }),
{
    match req.reasoning {
        Some(r) => {
            reasoning_round_trip(r, s, q);
        },
        None => {
            thinking_data_is_decoded(q);
        },
    }
}

/// What a generation configuration holds is the configuration of the request,
/// and its data.
proof fn config_is_read(req: RequestV, all: Seq<ExchangeV>, s: SinkV, d: ObjV)
    requires
        plain_request(req, all),
        clean(d),
        two_level(d, "thinkingConfig"@, generation_config_keys(), thinking_config_keys()),
    ensures
        ({
            let o = put_all(config_list(req, s), 11);
            &&& o.len() == 0 ==> bare(req) == req
            &&& match decode_generation_config(JsonV::Object(merged(o, d))) {
                Ok(gc) => with_config(bare(req), Some(gc)) == req && config_mirror(gc) == d,
                Err(_) => false,
            }
        }),
{
    let l = config_list(req, s);
    let known = generation_config_keys();
    let key = "thinkingConfig"@;
    let q = data_under(d, key);
    let none = Seq::<(Seq<char>, JsonV)>::empty();
    config_list_names(req, s);
    let t = put_all(l, 11);
    put_fields_are_known(l, 11, known);
    put_fields_are_distinct(l, 11);
    put_fields_are_read(l, 11, 10);
    assert(known.contains(l[10].0));
    thinking_is_read(req, all, s, q);
    thinking_is_read(req, all, s, none);
    assert(obj_part(thinking_of(req.reasoning, s)) + none =~= obj_part(thinking_of(req.reasoning, s)));
    two_levels_are_merged(t, d, key, known, thinking_config_keys());
    let o = merged(t, d);
    assert forall|i: int| 0 <= i < 10 implies obj_get(o, (#[trigger] l[i]).0) == l[i].1 by {
        put_fields_are_read(l, 11, i);
        assert(known.contains(l[i].0));
        assert(l[i].0 != l[10].0);
    }
    assert(obj_get(o, l[0].0) == l[0].1 && obj_get(o, l[1].0) == l[1].1);
    assert(obj_get(o, l[2].0) == l[2].1 && obj_get(o, l[3].0) == l[3].1);
    assert(obj_get(o, l[4].0) == l[4].1 && obj_get(o, l[5].0) == l[5].1);
    assert(obj_get(o, l[6].0) == l[6].1 && obj_get(o, l[7].0) == l[7].1);
    assert(obj_get(o, l[8].0) == l[8].1 && obj_get(o, l[9].0) == l[9].1);
    if t.len() == 0 {
        assert forall|i: int| 0 <= i < 11 implies (#[trigger] l[i]).1 is None by {
            put_fields_are_read(l, 11, i);
            absent_is_not_read(t, l[i].0, JsonV::Null);
        }
        assert(l[0].1 is None && l[1].1 is None && l[2].1 is None && l[3].1 is None && l[4].1 is None && l[5].1 is None
            && l[6].1 is None && l[7].1 is None && l[8].1 is None && l[10].1 is None);
    }
    if req.stop_sequences is Some {
        let v = req.stop_sequences->0;
        strings_round_trip(v, v.len());
        assert(v.take(v.len() as int) =~= v);
    }
    assert(opt_strings(o, "stopSequences"@) == Ok::<Option<Seq<Seq<char>>>, Seq<char>>(req.stop_sequences));
    assert(opt_str(o, "responseMimeType"@) is Ok);
    assert(opt_value(o, "responseJsonSchema"@) == Ok::<Option<JsonV>, Seq<char>>(schema_of(req.output_format)));
    assert(opt_u32(o, "maxOutputTokens"@) == Ok::<Option<u32>, Seq<char>>(req.max_output_tokens));
    assert(decode::opt_float(o, "temperature"@) == Ok::<Option<NumV>, Seq<char>>(req.temperature));
    assert(decode::opt_float(o, "topP"@) == Ok::<Option<NumV>, Seq<char>>(req.top_p));
    assert(opt_u32(o, "topK"@) == Ok::<Option<u32>, Seq<char>>(req.top_k));
    assert(opt_i64(o, "seed"@) == Ok::<Option<i64>, Seq<char>>(req.seed));
    assert(decode::opt_float(o, "presencePenalty"@) == Ok::<Option<NumV>, Seq<char>>(req.presence_penalty));
    assert(decode::opt_float(o, "frequencyPenalty"@) == Ok::<Option<NumV>, Seq<char>>(req.frequency_penalty));
    assert(opt_thinking_config(o, "thinkingConfig"@) is Ok);
    let gc = decode_generation_config(JsonV::Object(o))->Ok_0;
    mime_is_read(req, all, gc);
    if q.len() == 0 {
        assert(q =~= none);
    }
}

/// The fields of a request body, in order.
spec fn request_list(
    req: RequestV,
    contents: Seq<JsonV>,
    entries: Seq<JsonV>,
    system: Option<JsonV>,
    s: SinkV,
) -> Seq<(Seq<char>, Option<JsonV>)> {
    let config = put_all(config_list(req, s), 11);
    seq![
        ("contents"@, Some(JsonV::Array(contents))),
        ("tools"@, if req.tools is Some { Some(JsonV::Array(entries)) } else { None }),
        (
            "toolConfig"@,
            match req.tool_choice {
                Some(c) => Some(calling_config(c)),
                None => None,
            },
        ),
        ("systemInstruction"@, system),
        ("generationConfig"@, if config.len() > 0 { Some(JsonV::Object(config)) } else { None }),
    ]
}

proof fn request_names(l: Seq<(Seq<char>, Option<JsonV>)>)
    requires
        l.len() == 5,
        l[0].0 == "contents"@,
        l[1].0 == "tools"@,
        l[2].0 == "toolConfig"@,
        l[3].0 == "systemInstruction"@,
        l[4].0 == "generationConfig"@,
    ensures
        names_differ(l),
        forall|i: int| 0 <= i < 5 ==> generate_content_request_keys().contains((#[trigger] l[i]).0),
{
    reveal_strlit("contents");
    reveal_strlit("tools");
    reveal_strlit("toolConfig");
    reveal_strlit("systemInstruction");
    reveal_strlit("generationConfig");
    let known = generate_content_request_keys();
    assert(l[0].0.len() == 8 && l[1].0.len() == 5 && l[2].0.len() == 10 && l[3].0.len() == 17 && l[4].0.len() == 16);
    assert(known[0] == l[0].0 && known[1] == l[1].0 && known[2] == l[2].0 && known[3] == l[3].0 && known[4] == l[4].0);
    assert forall|i: int| 0 <= i < 5 implies known.contains((#[trigger] l[i]).0) by {
        assert(l[i].0 == known[i]);
    }
}

spec fn wire_tools(req: RequestV, s: SinkV) -> (Seq<JsonV>, SinkV) {
    match req.tools {
        Some(tools) => {
            let t = tool_entries(tools, s, tools.len());
            (t.entries, t.sink)
        },
        None => (Seq::empty(), s),
    }
}

/// The body of a request is the object of its fields.
proof fn body_is_put(req: RequestV, all: Seq<ExchangeV>, contents: Seq<JsonV>, system: Option<JsonV>, s: SinkV)
    requires
        plain_request(req, all),
    ensures
        ({
            let (entries, s1) = wire_tools(req, s);
            let l = request_list(req, contents, entries, system, s1);
            let b0 = obj_set(Seq::empty(), "contents"@, JsonV::Array(contents));
            let (b, s2) = google_fields(req, system, b0, s);
            b == put_all(l, 5) && s2.warnings == s.warnings
        }),
{
    let (entries, s1) = wire_tools(req, s);
    let l = request_list(req, contents, entries, system, s1);
    match req.tools {
        Some(tools) => {
            tools_round_trip(tools, s);
        },
        None => {},
    }
    assert(put_all(l, 1) == put_if(put_all(l, 0), l[0].0, l[0].1));
    assert(put_all(l, 2) == put_if(put_all(l, 1), l[1].0, l[1].1));
    assert(put_all(l, 3) == put_if(put_all(l, 2), l[2].0, l[2].1));
    assert(put_all(l, 4) == put_if(put_all(l, 3), l[3].0, l[3].1));
    assert(put_all(l, 5) == put_if(put_all(l, 4), l[4].0, l[4].1));
    config_is_put(req, all, s1);
}

/// The members of a merged body.
spec fn body_reads(o: ObjV, l: Seq<(Seq<char>, Option<JsonV>)>, ns: ObjV) -> bool {
    forall|i: int| 0 <= i < l.len() ==> obj_get(o, (#[trigger] l[i]).0) == merged_member(l[i].1, ns, l[i].0)
}

proof fn members_are_read(
    req: RequestV,
    all: Seq<ExchangeV>,
    contents: Seq<JsonV>,
    entries: Seq<JsonV>,
    system: Option<JsonV>,
    s: SinkV,
)
    requires
        plain_request(req, all),
    ensures
        ({
            let l = request_list(req, contents, entries, system, s);
            let t = put_all(l, 5);
            let ns = extra_ns(req.extra, GOOGLE_GENERATE_CONTENT@);
            let known = generate_content_request_keys();
            &&& extra_merged(req.extra, GOOGLE_GENERATE_CONTENT@, JsonV::Object(t)) == JsonV::Object(merged(t, ns))
            &&& unknown(merged(t, ns), known) == unknown(ns, known)
            &&& body_reads(merged(t, ns), l, ns)
        }),
{
    let l = request_list(req, contents, entries, system, s);
    let known = generate_content_request_keys();
    let ns = extra_ns(req.extra, GOOGLE_GENERATE_CONTENT@);
    request_names(l);
    merged_fields_are_read(l, ns, known);
}

/// The system instruction reads as the system prompt of the request, and its
/// data.
proof fn system_is_read(req: RequestV, all: Seq<ExchangeV>, q: ObjV, ns: ObjV)
    requires
        plain_request(req, all),
        leading_system(req.messages, 0) == 0,
        clean(q),
        avoids(q, content_keys()),
    ensures
        match system_instruction(req.system, req.messages) {
            Ok((v, s)) => {
                &&& s.warnings.len() == 0
                &&& (v is Some) == (req.system is Some)
                &&& v is Some ==> v->0 is Object
                &&& match decode_content(JsonV::Object(merged(obj_part(v), q))) {
                    Ok(si) => parsed_system(si, ns) == (
                        req.system,
                        Seq::<MessageV>::empty(),
                        with_object(ns, "systemInstruction"@, q),
                        Seq::<ConversionWarningV>::empty(),
                    ),
                    Err(_) => false,
                }
            },
            Err(_) => false,
        },
{
    let known = content_keys();
    let none = Seq::<(Seq<char>, JsonV)>::empty();
    match req.system {
        Some(blocks) => {
            system_round_trip(blocks, req.messages, q, ns);
        },
        None => {
            no_instruction(req.messages);
            system_data_is_decoded(q, ns);
        },
    }
    let inner = obj_part(system_instruction(req.system, req.messages)->Ok_0.0);
    assert forall|j: int| 0 <= j < q.len() implies absent(inner, (#[trigger] q[j]).0) by {
        assert(!known.contains(q[j].0));
        assert forall|m: int| 0 <= m < inner.len() implies (#[trigger] inner[m]).0 != q[j].0 by {
            assert(known.contains(inner[m].0));
        }
    }
    new_members_are_appended(inner, q, q.len());
    assert(q.take(q.len() as int) =~= q);
}

proof fn no_data_changes_nothing(t: ObjV)
    ensures
        merged(t, Seq::empty()) == t,
{
}

/// What a request body holds is the request.
proof fn body_is_read(
    req: RequestV,
    all: Seq<ExchangeV>,
    contents: Seq<JsonV>,
    system: Option<JsonV>,
    s0: SinkV,
    s: SinkV,
    o: ObjV,
)
    requires
        plain_request(req, all),
        leading_system(req.messages, 0) == 0,
        system_instruction(req.system, req.messages) == Ok::<(Option<JsonV>, SinkV), ConversionErrorV>((system, s0)),
        match decode_vec_content(contents, contents.len()) {
            Ok(cs) => cs.len() == contents.len() && all_messages(Seq::empty(), cs, Seq::empty(), cs.len()) == (
                req.messages,
                history_of(all, all.len()).1,
                Seq::<ConversionWarningV>::empty(),
            ),
            Err(_) => false,
        },
        ({
            let (entries, s1) = wire_tools(req, s);
            let ns = extra_ns(req.extra, GOOGLE_GENERATE_CONTENT@);
            &&& body_reads(o, request_list(req, contents, entries, system, s1), ns)
            &&& unknown(o, generate_content_request_keys()) == unknown(ns, generate_content_request_keys())
        }),
    ensures
        google_parsed_request(JsonV::Object(o)) == Ok::<(RequestV, Seq<ConversionWarningV>), Seq<char>>(
            (req, Seq::empty()),
        ),
{
    let (entries, s1) = wire_tools(req, s);
    let l = request_list(req, contents, entries, system, s1);
    let ns = extra_ns(req.extra, GOOGLE_GENERATE_CONTENT@);
    let known = generate_content_request_keys();
    let none = Seq::<(Seq<char>, JsonV)>::empty();
    let rest = unknown(ns, known);
    let dsys = data_under(ns, "systemInstruction"@);
    let dtool = data_under(ns, "toolConfig"@);
    let dconf = data_under(ns, "generationConfig"@);
    assert(obj_get(o, l[0].0) == merged_member(l[0].1, ns, l[0].0) && obj_get(o, l[1].0) == merged_member(
        l[1].1,
        ns,
        l[1].0,
    ) && obj_get(o, l[2].0) == merged_member(l[2].1, ns, l[2].0) && obj_get(o, l[3].0) == merged_member(
        l[3].1,
        ns,
        l[3].0,
    ) && obj_get(o, l[4].0) == merged_member(l[4].1, ns, l[4].0));
    assert(known[2] == "toolConfig"@ && known[3] == "systemInstruction"@ && known[4] == "generationConfig"@);
    assert(known.contains(known[2]) && known.contains(known[3]) && known.contains(known[4]));
    member_nests(ns, known, "toolConfig"@);
    member_nests(ns, known, "systemInstruction"@);
    member_nests(ns, known, "generationConfig"@);
    deep_data_is_read(none, ns, "toolConfig"@);
    deep_data_is_read(none, ns, "systemInstruction"@);
    deep_data_is_read(none, ns, "generationConfig"@);
    match req.tools {
        Some(tools) => {
            tools_round_trip(tools, s);
        },
        None => {},
    }
    let n1 = with_object(rest, "systemInstruction"@, dsys);
    let n2 = with_object(n1, "toolConfig"@, dtool);
    system_is_read(req, all, dsys, rest);
    tool_choice_round_trip(req.tool_choice, dtool, n1);
    config_is_read(req, all, s1, dconf);
    let config = put_all(config_list(req, s1), 11);
    no_data_changes_nothing(obj_part(system));
    no_data_changes_nothing(choice_members(req.tool_choice));
    no_data_changes_nothing(config);
    if config.len() == 0 {
        assert(config =~= none);
    }
    assert(obj_part(l[4].1) == config);
    assert(default_vec_content(o, "contents"@) is Ok);
    assert(opt_vec_tool(o, "tools"@) is Ok);
    assert(opt_tool_config(o, "toolConfig"@) is Ok);
    assert(opt_content(o, "systemInstruction"@) is Ok);
    assert(opt_generation_config(o, "generationConfig"@) is Ok);
    let w = decode_generate_content_request(JsonV::Object(o))->Ok_0;
    request_is_assembled(req, all, w, rest, dsys, dtool, dconf);
}

/// A typed request stands for the request that its fields stand for.
proof fn request_is_assembled(
    req: RequestV,
    all: Seq<ExchangeV>,
    w: GenerateContentRequestV,
    rest: ObjV,
    dsys: ObjV,
    dtool: ObjV,
    dconf: ObjV,
)
    requires
        plain_request(req, all),
        w.extra == rest,
        extra_ns(req.extra, GOOGLE_GENERATE_CONTENT@) == arranged(rest, dsys, dtool, dconf),
        all_messages(Seq::empty(), w.contents, Seq::empty(), w.contents.len()) == (
            req.messages,
            history_of(all, all.len()).1,
            Seq::<ConversionWarningV>::empty(),
        ),
        req.tools == (match w.tools {
            Some(e) => Some(all_tools(e, e.len())),
            None => None,
        }),
        match w.system_instruction {
            Some(si) => parsed_system(si, rest) == (
                req.system,
                Seq::<MessageV>::empty(),
                with_object(rest, "systemInstruction"@, dsys),
                Seq::<ConversionWarningV>::empty(),
            ),
            None => req.system is None && dsys.len() == 0,
        },
        match w.tool_config {
            Some(tc) => parsed_tool_config(tc, with_object(rest, "systemInstruction"@, dsys)) == (
                req.tool_choice,
                with_object(with_object(rest, "systemInstruction"@, dsys), "toolConfig"@, dtool),
            ),
            None => req.tool_choice is None && dtool.len() == 0,
        },
        match w.generation_config {
            Some(gc) => with_config(bare(req), Some(gc)) == req && config_mirror(gc) == dconf,
            None => bare(req) == req && dconf.len() == 0,
        },
    ensures
        google_request_of(w) == (req, Seq::<ConversionWarningV>::empty()),
{
    let (r, rws) = google_request_of(w);
    assert(rws == Seq::<ConversionWarningV>::empty());
    assert(r.messages == req.messages);
    assert(r.tools == req.tools);
    assert(r.tool_choice == req.tool_choice);
    assert(r.system == req.system);
    assert(r.extra == req.extra);
}

/// No exchange is a system message.
pub proof fn nothing_leads(req: RequestV, all: Seq<ExchangeV>)
    requires
        req.messages == history_of(all, all.len()).0,
    ensures
        leading_system(req.messages, 0) == 0,
{
    if all.len() > 0 {
        history_starts(all, all.len());
    }
}

proof fn history_starts(all: Seq<ExchangeV>, n: nat)
    requires
        0 < n <= all.len(),
    ensures
        history_of(all, n).0.len() > 0,
        history_of(all, n).0[0].role != Role::System,
    decreases n,
{
    if n > 1 {
        history_starts(all, (n - 1) as nat);
    } else {
        assert(history_of(all, 0).0.len() == 0);
    }
}

/// A request is read back from the body that it becomes: system prompt,
/// history, tools, configuration and provider data. The parse raises no warning,
/// and the build none but those about the calls and the thinking of the
/// history.
pub proof fn request_round_trip(req: RequestV, all: Seq<ExchangeV>, conv: ConvertOptionsV)
    requires
        plain_request(req, all),
        google_prepared(req, conv).0 == req.messages,
    ensures
        match google_body(req, conv) {
            Ok(b) => (google_prepared(req, conv).1.len() == 0 ==> b.warnings.len() == 0) && google_parsed_request(b.body) == Ok::<
                (RequestV, Seq<ConversionWarningV>),
                Seq<char>,
            >((req, Seq::empty())),
            Err(_) => false,
        },
{
    let ws = Seq::<ConversionWarningV>::empty();
    let none = Seq::<MessageV>::empty();
    nothing_leads(req, all);
    let nothing = Seq::<(Seq<char>, JsonV)>::empty();
    system_is_read(req, all, nothing, nothing);
    let (system, s) = system_instruction(req.system, req.messages)->Ok_0;
    let st = turns_start(req.messages.len(), s);
    history_round_trip(all, st, conv.thinking_as_text, none, ws, all.len());
    assert(none + req.messages =~= req.messages);
    let t = turns(st, req.messages, 0, conv.thinking_as_text, req.messages.len())->Ok_0;
    body_is_put(req, all, t.contents, system, t.sink);
    let (entries, s1) = wire_tools(req, t.sink);
    members_are_read(req, all, t.contents, entries, system, s1);
    let l = request_list(req, t.contents, entries, system, s1);
    let ns = extra_ns(req.extra, GOOGLE_GENERATE_CONTENT@);
    body_is_read(req, all, t.contents, system, s, t.sink, merged(put_all(l, 5), ns));
}

proof fn no_instruction(msgs: Seq<MessageV>)
    requires
        leading_system(msgs, 0) == 0,
    ensures
        match system_instruction(None, msgs) {
            Ok((v, s)) => v is None && s.warnings.len() == 0,
            Err(_) => false,
        },
{
    let o = seq![("parts"@, JsonV::Array(Seq::<JsonV>::empty()))];
    first_named_is_read(o, "parts"@, 0);
}

/// `bytes` is the body that the request of these exchanges becomes, and the
/// body is one that this format can carry whole.
pub open spec fn written_as(bytes: Seq<u8>, req: RequestV, all: Seq<ExchangeV>, conv: ConvertOptionsV) -> bool {
    &&& plain_request(req, all)
    &&& google_prepared(req, conv).0 == req.messages
    &&& match google_body(req, conv) {
        Ok(b) => exact_json(b.body, 127) && bytes == json_to_bytes(b.body),
        Err(_) => false,
    }
}

} // verus!
