//! Law: a request is read back from the body that it becomes.

use vstd::prelude::*;
use crate::merge::{merged, obj_part};
use crate::mirror::{mirrored_map, mirrored_map2};
use crate::convert::sampling::{float_json, sampling_check};
use crate::convert::{ConversionWarningV, ConvertOptionsV};
use crate::decode::{default_values, opt_bool, opt_object, opt_str, opt_strings, opt_u64, opt_values, unknown};
use crate::decode;
use crate::format::{AnthropicOptionsV, ANTHROPIC_MESSAGES};
use crate::formats::anthropic_messages::from_ir::{body_end, body_start, chat_body, effort_out, metadata_stage, output_stage, planned, prepared, reasoning_extra_stage, reasoning_stage, request_fields, sampling_fields, sampling_warnings, thinking_config, tool_choice_stage, tool_values, tools_stage, user_ids, other_keys, wire_start};
use crate::formats::anthropic_messages::messages::{resolved, wire_messages, WireV};
use crate::formats::anthropic_messages::parse_messages::parsed_messages;
use crate::formats::anthropic_messages::round_trip_fields::{choice_data, choice_data_is_apart, choice_json, choice_list, output_data, output_list, output_mirror, output_round_trip, plain_choice, plain_output, plain_reasoning, plain_system, plain_tool, reasoning_round_trip, system_round_trip, thinking_json, tool_choice_round_trip, tools_round_trip};
use crate::formats::anthropic_messages::round_trip_history::{alternating_turns_stay_apart, history_is_laid_out, history_of, history_round_trip, lead_places, plain_entry, plans_of, roles_differ};
use crate::formats::anthropic_messages::round_trip_messages::TurnV;
use crate::formats::anthropic_messages::system::{any_content, system_value};
use crate::formats::anthropic_messages::to_ir::{all_text, parsed_choice, parsed_output, parsed_request, parsed_thinking, parsed_tools, request_of, split_metadata, system_channel, u32_mirrored, with_effort};
use crate::formats::anthropic_messages::types::{decode_messages_request, decode_system_prompt, decode_thinking_config, messages_request_keys, opt_output_config, opt_system_prompt, opt_thinking_config, opt_tool_choice_param, MessagesRequestV, SystemPromptV};
use crate::history::PendingV;
use crate::ir::{extra_from_unknown, extra_get, extra_has, extra_merged, extra_ns, plain_message, ContentBlockV, MessageV, ReasoningV, RequestV, Role, ToolV};
use crate::json::{json_int, json_strings, obj_get, obj_set, put_if, JsonV, NumV, ObjV};
use crate::json_laws::strings_round_trip;
use crate::namespaces::{absent, absent_is_not_read, clean, data_under, deep_data_is_read, field_is_replaced, member_nests, merged_fields_are_read, merged_member, names_differ, nests, new_members_are_appended, put_all, put_fields_are_read};
use crate::sink::{empty_sink, SinkV};
use crate::value::{exact_json, json_to_bytes, plain_number};

verus! {

/// Metadata that this format can carry: a user id alone.
pub open spec fn plain_metadata(m: Option<ObjV>) -> bool {
    match m {
        Some(m) => m.len() == 1 && m[0].0 == "user_id"@,
        None => true,
    }
}

/// What a parse keeps of the data of a request, in order: that of metadata, of
/// the tool choice and of the output configuration, then the unmodeled members.
pub open spec fn arranged(rest: ObjV, metadata: ObjV, choice: ObjV, config: ObjV) -> ObjV {
    let r1 = split_metadata(metadata, Seq::empty(), metadata.len()).1;
    let r2 = mirrored_map2(r1, "tool_choice"@, choice, choice.len());
    mirrored_map(output_mirror(r2, config), rest, rest.len())
}

/// The name is that of an object which takes data in.
pub open spec fn takes_data(k: Seq<char>) -> bool {
    k == "metadata"@ || k == "tool_choice"@ || k == "output_config"@
}

/// Provider data of a request that the wire keeps as it is; that of the tool
/// choice needs a choice.
pub open spec fn request_data(req: RequestV) -> bool {
    let ns = extra_ns(req.extra, ANTHROPIC_MESSAGES@);
    let known = messages_request_keys();
    let metadata = data_under(ns, "metadata"@);
    let choice = data_under(ns, "tool_choice"@);
    let config = data_under(ns, "output_config"@);
    &&& req.extra == extra_from_unknown(ANTHROPIC_MESSAGES@, ns)
    &&& clean(ns)
    &&& nests(ns, known)
    &&& ns == arranged(unknown(ns, known), metadata, choice, config)
    &&& forall|k: Seq<char>| known.contains(k) && !takes_data(k) ==> #[trigger] obj_get(ns, k) is None
    &&& absent(metadata, "user_id"@)
    &&& choice_data(req.tool_choice, choice)
    &&& req.tool_choice is None ==> obj_get(ns, "tool_choice"@) is None
    &&& output_data(config, req.output_format)
}

/// A configuration that this format can carry, beside these tool definitions.
pub open spec fn plain_rest(req: RequestV, tools: Option<Seq<JsonV>>) -> bool {
    &&& req.max_output_tokens is Some
    &&& plain_number(req.temperature)
    &&& plain_number(req.top_p)
    &&& req.frequency_penalty is None
    &&& req.presence_penalty is None
    &&& req.seed is None
    &&& req.cache_key is None
    &&& plain_metadata(req.metadata)
    &&& plain_choice(req.tool_choice, req.parallel_tool_calls)
    &&& req.tool_choice is Some ==> tools is Some && tools->0.len() > 0
    &&& match req.reasoning {
        Some(r) => plain_reasoning(r),
        None => true,
    }
    &&& match req.output_format {
        Some(f) => plain_output(f),
        None => true,
    }
    &&& request_data(req)
}

/// The tools become these definitions.
pub open spec fn tools_become(tools: Option<Seq<ToolV>>, values: Option<Seq<JsonV>>) -> bool {
    match (tools, values) {
        (Some(t), Some(v)) => v.len() == t.len() && forall|s: SinkV| (#[trigger] tool_values(t, s, t.len())).0 == v,
        (None, None) => true,
        _ => false,
    }
}

/// A request of these turns that this format can carry.
pub open spec fn plain_request(req: RequestV, turns: Seq<TurnV>) -> bool {
    &&& req.messages == history_of(Seq::empty(), turns, turns.len()).0
    &&& req.messages.len() <= usize::MAX
    &&& forall|i: int| 0 <= i < turns.len() ==> plain_entry(#[trigger] turns[i])
    &&& match req.system {
        Some(blocks) => plain_system(blocks),
        None => true,
    }
    &&& match req.tools {
        Some(tools) => forall|i: int| 0 <= i < tools.len() ==> plain_tool(#[trigger] tools[i]),
        None => true,
    }
    &&& plain_rest(req, wire_tools(req))
}

/// The definitions of the tools of a request.
pub open spec fn wire_tools(req: RequestV) -> Option<Seq<JsonV>> {
    match req.tools {
        Some(tools) => Some(tool_values(tools, empty_sink(), tools.len()).0),
        None => None,
    }
}

proof fn tools_anywhere(tools: Seq<ToolV>, s: SinkV, s2: SinkV, n: nat)
    ensures
        tool_values(tools, s, n).0 == tool_values(tools, s2, n).0,
    decreases n,
{
    if n > 0 && n <= tools.len() {
        tools_anywhere(tools, s, s2, (n - 1) as nat);
    }
}

pub open spec fn effort_of(req: RequestV) -> Option<Seq<char>> {
    match req.reasoning {
        Some(r) => effort_out(r.effort),
        None => None,
    }
}

pub open spec fn config_of(req: RequestV) -> ObjV {
    put_all(output_list(effort_of(req), req.output_format), 2)
}

pub open spec fn bare_thinking(req: RequestV) -> Option<JsonV> {
    match req.reasoning {
        Some(r) => thinking_config(r.enabled, effort_out(r.effort), r.include_thoughts),
        None => None,
    }
}

pub open spec fn thinking_of(req: RequestV) -> Option<JsonV> {
    match req.reasoning {
        Some(r) => thinking_json(r),
        None => None,
    }
}

pub open spec fn float_of(n: Option<NumV>) -> Option<JsonV> {
    match n {
        Some(n) => Some(float_json(n)),
        None => None,
    }
}

/// The fields of a request body, in order.
pub open spec fn request_list(
    req: RequestV,
    model: Seq<char>,
    streaming: bool,
    system: Option<JsonV>,
    wire: Seq<JsonV>,
    tools: Option<Seq<JsonV>>,
    thinking: Option<JsonV>,
) -> Seq<(Seq<char>, Option<JsonV>)> {
    seq![
        ("model"@, Some(JsonV::Str(model))),
        ("max_tokens"@, Some(json_int(req.max_output_tokens->0 as int))),
        ("system"@, system),
        ("messages"@, Some(JsonV::Array(wire))),
        (
            "metadata"@,
            match req.metadata {
                Some(m) => Some(JsonV::Object(m)),
                None => None,
            },
        ),
        (
            "stop_sequences"@,
            match req.stop_sequences {
                Some(v) => Some(json_strings(v)),
                None => None,
            },
        ),
        ("temperature"@, float_of(req.temperature)),
        ("top_p"@, float_of(req.top_p)),
        (
            "top_k"@,
            match req.top_k {
                Some(v) => Some(json_int(v as int)),
                None => None,
            },
        ),
        ("stream"@, if streaming { Some(JsonV::Bool(true)) } else { None }),
        (
            "tools"@,
            match tools {
                Some(a) => Some(JsonV::Array(a)),
                None => None,
            },
        ),
        (
            "tool_choice"@,
            match req.tool_choice {
                Some(c) => Some(choice_json(c, req.parallel_tool_calls)),
                None => None,
            },
        ),
        ("thinking"@, thinking),
        ("output_config"@, if config_of(req).len() > 0 { Some(JsonV::Object(config_of(req))) } else { None }),
    ]
}

pub open spec fn request_names() -> Seq<Seq<char>> {
    seq![
        "model"@,
        "max_tokens"@,
        "system"@,
        "messages"@,
        "metadata"@,
        "stop_sequences"@,
        "temperature"@,
        "top_p"@,
        "top_k"@,
        "stream"@,
        "tools"@,
        "tool_choice"@,
        "thinking"@,
        "output_config"@,
    ]
}

pub proof fn names_are_different(k: int, l: int)
    requires
        0 <= k < l < 14,
    ensures
        request_names()[k] != request_names()[l],
{
    reveal_strlit("model");
    reveal_strlit("max_tokens");
    reveal_strlit("system");
    reveal_strlit("messages");
    reveal_strlit("metadata");
    reveal_strlit("stop_sequences");
    reveal_strlit("temperature");
    reveal_strlit("top_p");
    reveal_strlit("top_k");
    reveal_strlit("stream");
    reveal_strlit("tools");
    reveal_strlit("tool_choice");
    reveal_strlit("thinking");
    reveal_strlit("output_config");
    let n = request_names();
    assert(n[0].len() == 5 && n[1].len() == 10 && n[2].len() == 6 && n[3].len() == 8 && n[4].len() == 8 && n[5].len()
        == 14 && n[6].len() == 11);
    assert(n[7].len() == 5 && n[8].len() == 5 && n[9].len() == 6 && n[10].len() == 5 && n[11].len() == 11
        && n[12].len() == 8 && n[13].len() == 13);
    assert(n[0][0] == 'm' && n[7][4] == 'p' && n[8][4] == 'k' && n[10][4] == 's' && n[7][0] == 't' && n[8][0] == 't'
        && n[10][0] == 't');
    assert(n[2][1] == 'y' && n[9][1] == 't');
    assert(n[3][2] == 's' && n[4][2] == 't' && n[12][2] == 'i');
    assert(n[6][1] == 'e' && n[11][1] == 'o');
}

pub proof fn list_names(l: Seq<(Seq<char>, Option<JsonV>)>)
    requires
        l.len() == 14,
        forall|i: int| 0 <= i < 14 ==> (#[trigger] l[i]).0 == request_names()[i],
    ensures
        names_differ(l),
{
    assert forall|i: int, j: int| 0 <= i < j < l.len() implies (#[trigger] l[i]).0 != (#[trigger] l[j]).0 by {
        names_are_different(i, j);
    }
}

proof fn metadata_is_put(req: RequestV, tools: Option<Seq<JsonV>>, body: ObjV, s: SinkV)
    requires
        plain_rest(req, tools),
    ensures
        metadata_stage(req.metadata, body, s) == (
            put_if(
                body,
                "metadata"@,
                match req.metadata {
                    Some(m) => Some(JsonV::Object(m)),
                    None => None,
                },
            ),
            s,
        ),
{
    match req.metadata {
        Some(m) => {
            let none = Seq::<(Seq<char>, JsonV)>::empty();
            assert(user_ids(m, 0) == none);
            absent_is_not_read(none, m[0].0, m[0].1);
            assert(user_ids(m, 1) =~= m);
            assert(other_keys(m, 0) == Seq::<Seq<char>>::empty());
            assert(other_keys(m, 1).len() == 0);
        },
        None => {},
    }
}

proof fn sampling_is_put(req: RequestV, tools: Option<Seq<JsonV>>, l: Seq<(Seq<char>, Option<JsonV>)>, streaming: bool, s: SinkV)
    requires
        plain_rest(req, tools),
        exists|model: Seq<char>, system: Option<JsonV>, wire: Seq<JsonV>, thinking: Option<JsonV>|
            l == #[trigger] request_list(req, model, streaming, system, wire, tools, thinking),
    ensures
        ({
            let (b1, s1) = metadata_stage(req.metadata, put_all(l, 4), s);
            let b2 = sampling_fields(req, b1);
            let s2 = sampling_warnings(req, s1);
            let b3 = if streaming { obj_set(b2, "stream"@, JsonV::Bool(true)) } else { b2 };
            s2 == s && b3 == put_all(l, 10)
        }),
{
    metadata_is_put(req, tools, put_all(l, 4), s);
    assert(put_all(l, 5) == put_if(put_all(l, 4), l[4].0, l[4].1));
    assert(put_all(l, 6) == put_if(put_all(l, 5), l[5].0, l[5].1));
    assert(put_all(l, 7) == put_if(put_all(l, 6), l[6].0, l[6].1));
    assert(put_all(l, 8) == put_if(put_all(l, 7), l[7].0, l[7].1));
    assert(put_all(l, 9) == put_if(put_all(l, 8), l[8].0, l[8].1));
    assert(put_all(l, 10) == put_if(put_all(l, 9), l[9].0, l[9].1));
}

proof fn conflict_free(r: ReasoningV, body: ObjV, s: SinkV)
    requires
        plain_reasoning(r),
    ensures
        reasoning_stage(r, body, Seq::empty(), s) == (
            put_if(body, "thinking"@, thinking_config(r.enabled, effort_out(r.effort), r.include_thoughts)),
            put_if(
                Seq::empty(),
                "effort"@,
                match effort_out(r.effort) {
                    Some(e) => Some(JsonV::Str(e)),
                    None => None,
                },
            ),
            s,
        ),
{
}

proof fn config_is_put(req: RequestV, tools: Option<Seq<JsonV>>, s: SinkV)
    requires
        plain_rest(req, tools),
    ensures
        ({
            let l = output_list(effort_of(req), req.output_format);
            output_stage(req.output_format, put_all(l, 1), s) == (config_of(req), s)
        }),
{
    let l = output_list(effort_of(req), req.output_format);
    assert(put_all(l, 2) == put_if(put_all(l, 1), l[1].0, l[1].1));
}

/// The sink after the tools of a request were written.
pub open spec fn tools_noted(req: RequestV, s: SinkV) -> SinkV {
    match req.tools {
        Some(tools) => tool_values(tools, s, tools.len()).1,
        None => s,
    }
}

/// The body of a request is the object of its fields.
pub proof fn body_is_put(
    req: RequestV,
    tools: Option<Seq<JsonV>>,
    model: Seq<char>,
    streaming: bool,
    system: Option<JsonV>,
    wire: Seq<JsonV>,
    s: SinkV,
)
    requires
        plain_rest(req, tools),
        tools_become(req.tools, tools),
    ensures
        ({
            let l = request_list(req, model, streaming, system, wire, tools, thinking_of(req));
            let (b, s2) = request_fields(req, streaming, put_all(l, 4), s);
            s2.warnings == tools_noted(req, s).warnings && b == put_all(l, 14)
        }),
{
    let s1 = tools_noted(req, s);
    let l = request_list(req, model, streaming, system, wire, tools, thinking_of(req));
    let k = request_list(req, model, streaming, system, wire, tools, bare_thinking(req));
    assert(put_all(l, 1) == put_if(put_all(l, 0), l[0].0, l[0].1) && put_all(l, 2) == put_if(
        put_all(l, 1),
        l[1].0,
        l[1].1,
    ) && put_all(l, 3) == put_if(put_all(l, 2), l[2].0, l[2].1) && put_all(l, 4) == put_if(
        put_all(l, 3),
        l[3].0,
        l[3].1,
    ));
    assert(put_all(k, 1) == put_if(put_all(k, 0), k[0].0, k[0].1) && put_all(k, 2) == put_if(
        put_all(k, 1),
        k[1].0,
        k[1].1,
    ) && put_all(k, 3) == put_if(put_all(k, 2), k[2].0, k[2].1) && put_all(k, 4) == put_if(
        put_all(k, 3),
        k[3].0,
        k[3].1,
    ));
    assert(put_all(k, 4) == put_all(l, 4));
    sampling_is_put(req, tools, k, streaming, s);
    let has_tools = tools is Some && tools->0.len() > 0;
    let b4 = put_all(k, 11);
    let b5 = put_all(k, 12);
    let b6 = put_all(k, 13);
    let b7 = put_all(k, 14);
    assert(b4 == put_if(put_all(k, 10), k[10].0, k[10].1));
    assert(b5 == put_if(b4, k[11].0, k[11].1));
    assert(b6 == put_if(b5, k[12].0, k[12].1));
    assert(b7 == put_if(b6, k[13].0, k[13].1));
    assert(tools_stage(req.tools, put_all(k, 10), s) == (has_tools, b4, s1));
    assert(tool_choice_stage(req.tool_choice, req.parallel_tool_calls, has_tools, b4, s1) == (b5, s1));
    let ol = output_list(effort_of(req), req.output_format);
    assert(put_all(ol, 1) == put_if(put_all(ol, 0), ol[0].0, ol[0].1));
    config_is_put(req, tools, s1);
    match req.reasoning {
        Some(r) => {
            conflict_free(r, b5, s1);
            assert(l =~= k.update(12, (k[12].0, thinking_of(req))));
            extra_is_put(req, tools, k, l, s1);
        },
        None => {
            assert(k =~= l);
        },
    }
}

proof fn extra_is_put(
    req: RequestV,
    tools: Option<Seq<JsonV>>,
    k: Seq<(Seq<char>, Option<JsonV>)>,
    l: Seq<(Seq<char>, Option<JsonV>)>,
    s: SinkV,
)
    requires
        plain_rest(req, tools),
        req.reasoning is Some,
        k.len() == 14,
        forall|i: int| 0 <= i < 14 ==> (#[trigger] k[i]).0 == request_names()[i],
        k[12].1 == bare_thinking(req),
        l == k.update(12, (k[12].0, thinking_of(req))),
    ensures
        ({
            let (b, s1) = reasoning_extra_stage(req.reasoning, put_all(k, 14), s);
            b == put_all(l, 14) && s1.warnings == s.warnings
        }),
{
    let r = req.reasoning->0;
    list_names(k);
    reveal(extra_get);
    if extra_has(r.extra, ANTHROPIC_MESSAGES@) {
        assert(r.extra.len() > 0);
        put_fields_are_read(k, 14, 12);
        field_is_replaced(k, 14, 12, thinking_of(req)->0);
    } else {
        assert(l =~= k);
    }
}

/// The members of a merged body.
spec fn reads(o: ObjV, l: Seq<(Seq<char>, Option<JsonV>)>, ns: ObjV) -> bool {
    forall|i: int| 0 <= i < l.len() ==> obj_get(o, (#[trigger] l[i]).0) == merged_member(l[i].1, ns, l[i].0)
}

pub proof fn names_are_known(i: int)
    requires
        0 <= i < 14,
    ensures
        messages_request_keys().contains(request_names()[i]),
{
    let known = messages_request_keys();
    assert(known[0] == "model"@ && known[1] == "messages"@ && known[2] == "max_tokens"@ && known[3] == "system"@
        && known[4] == "metadata"@ && known[5] == "stop_sequences"@ && known[6] == "stream"@ && known[7]
        == "temperature"@ && known[8] == "top_k"@ && known[9] == "top_p"@ && known[10] == "tools"@ && known[11]
        == "tool_choice"@ && known[12] == "thinking"@ && known[13] == "output_config"@);
    let order = seq![0int, 2, 3, 1, 4, 5, 7, 9, 8, 6, 10, 11, 12, 13];
    assert(request_names()[i] == known[order[i]]);
}

proof fn members_are_read(req: RequestV, tools: Option<Seq<JsonV>>, l: Seq<(Seq<char>, Option<JsonV>)>)
    requires
        plain_rest(req, tools),
        l.len() == 14,
        forall|i: int| 0 <= i < 14 ==> (#[trigger] l[i]).0 == request_names()[i],
    ensures
        ({
            let t = put_all(l, 14);
            let ns = extra_ns(req.extra, ANTHROPIC_MESSAGES@);
            let known = messages_request_keys();
            &&& extra_merged(req.extra, ANTHROPIC_MESSAGES@, JsonV::Object(t)) == JsonV::Object(merged(t, ns))
            &&& unknown(merged(t, ns), known) == unknown(ns, known)
            &&& reads(merged(t, ns), l, ns)
        }),
{
    let known = messages_request_keys();
    let ns = extra_ns(req.extra, ANTHROPIC_MESSAGES@);
    list_names(l);
    assert forall|i: int| 0 <= i < l.len() implies known.contains((#[trigger] l[i]).0) by {
        names_are_known(i);
    }
    merged_fields_are_read(l, ns, known);
}

/// A field that takes no data in is read as it was put.
proof fn field_is_read(req: RequestV, tools: Option<Seq<JsonV>>, o: ObjV, l: Seq<(Seq<char>, Option<JsonV>)>, i: int)
    requires
        plain_rest(req, tools),
        l.len() == 14,
        forall|j: int| 0 <= j < 14 ==> (#[trigger] l[j]).0 == request_names()[j],
        reads(o, l, extra_ns(req.extra, ANTHROPIC_MESSAGES@)),
        0 <= i < 14,
        i != 4,
        i != 11,
        i != 13,
    ensures
        obj_get(o, l[i].0) == l[i].1,
{
    let ns = extra_ns(req.extra, ANTHROPIC_MESSAGES@);
    names_are_known(i);
    if i < 4 {
        names_are_different(i, 4);
    } else {
        names_are_different(4, i);
    }
    if i < 11 {
        names_are_different(i, 11);
    } else {
        names_are_different(11, i);
    }
    if i < 13 {
        names_are_different(i, 13);
    }
    assert(request_names()[4] == "metadata"@ && request_names()[11] == "tool_choice"@ && request_names()[13]
        == "output_config"@);
    assert(!takes_data(l[i].0));
    assert(obj_get(ns, l[i].0) is None);
}

/// Metadata takes its data in behind the user id.
proof fn metadata_is_read(req: RequestV, tools: Option<Seq<JsonV>>, o: ObjV, l: Seq<(Seq<char>, Option<JsonV>)>)
    requires
        plain_rest(req, tools),
        l.len() == 14,
        l[4] == ("metadata"@, match req.metadata {
            Some(m) => Some(JsonV::Object(m)),
            None => None,
        }),
        reads(o, l, extra_ns(req.extra, ANTHROPIC_MESSAGES@)),
    ensures
        ({
            let ns = extra_ns(req.extra, ANTHROPIC_MESSAGES@);
            let d = data_under(ns, "metadata"@);
            let ids = match req.metadata {
                Some(m) => m,
                None => Seq::empty(),
            };
            match opt_object(o, "metadata"@) {
                Ok(Some(m)) => m == ids + d,
                Ok(None) => req.metadata is None && d.len() == 0,
                Err(_) => false,
            }
        }),
{
    let ns = extra_ns(req.extra, ANTHROPIC_MESSAGES@);
    let known = messages_request_keys();
    let none = Seq::<(Seq<char>, JsonV)>::empty();
    names_are_known(4);
    assert(request_names()[4] == "metadata"@);
    member_nests(ns, known, "metadata"@);
    deep_data_is_read(none, ns, "metadata"@);
    let d = data_under(ns, "metadata"@);
    let ids = obj_part(l[4].1);
    assert forall|j: int| 0 <= j < d.len() implies absent(ids, (#[trigger] d[j]).0) by {
        assert(d[j].0 != "user_id"@);
    }
    new_members_are_appended(ids, d, d.len());
    assert(d.take(d.len() as int) =~= d);
    assert(obj_get(o, l[4].0) == merged_member(l[4].1, ns, l[4].0));
    if d.len() == 0 {
        assert(ids + d =~= ids);
    }
}

proof fn metadata_is_split(ids: ObjV, d: ObjV, n: nat)
    requires
        plain_metadata(Some(ids)) || ids.len() == 0,
        absent(d, "user_id"@),
        n <= d.len(),
    ensures
        split_metadata(ids + d, Seq::empty(), ids.len() + n) == (ids, split_metadata(d, Seq::empty(), n).1),
    decreases n,
{
    let none = Seq::<(Seq<char>, JsonV)>::empty();
    let m = ids + d;
    if n == 0 {
        assert(split_metadata(m, none, 0) == (none, none));
        if ids.len() == 1 {
            assert(m[0] == ids[0]);
            absent_is_not_read(none, ids[0].0, ids[0].1);
            assert(split_metadata(m, none, 1).0 =~= ids);
        } else {
            assert(ids =~= none);
        }
    } else {
        metadata_is_split(ids, d, (n - 1) as nat);
        assert(m[ids.len() + n - 1] == d[n - 1]);
        assert(d[n - 1].0 != "user_id"@);
    }
}

/// The system value and the prompt that it stands for.
pub open spec fn prompt_is(system: Option<JsonV>, prompt: Option<SystemPromptV>) -> bool {
    match system {
        Some(v) => !(v is Null) && prompt is Some && decode_system_prompt(v) == Ok::<SystemPromptV, Seq<char>>(
            prompt->0,
        ),
        None => prompt is None,
    }
}

proof fn front_is_decoded(
    req: RequestV,
    tools: Option<Seq<JsonV>>,
    model: Seq<char>,
    streaming: bool,
    system: Option<JsonV>,
    prompt: Option<SystemPromptV>,
    wire: Seq<JsonV>,
    o: ObjV,
)
    requires
        plain_rest(req, tools),
        prompt_is(system, prompt),
        reads(
            o,
            request_list(req, model, streaming, system, wire, tools, thinking_of(req)),
            extra_ns(req.extra, ANTHROPIC_MESSAGES@),
        ),
    ensures
        opt_str(o, "model"@) == Ok::<Option<Seq<char>>, Seq<char>>(Some(model)),
        default_values(o, "messages"@) == Ok::<Seq<JsonV>, Seq<char>>(wire),
        opt_u64(o, "max_tokens"@) == Ok::<Option<u64>, Seq<char>>(Some(req.max_output_tokens->0 as u64)),
        opt_system_prompt(o, "system"@) == Ok::<Option<SystemPromptV>, Seq<char>>(prompt),
        opt_strings(o, "stop_sequences"@) == Ok::<Option<Seq<Seq<char>>>, Seq<char>>(req.stop_sequences),
        opt_bool(o, "stream"@) == Ok::<Option<bool>, Seq<char>>(if streaming { Some(true) } else { None }),
        decode::opt_float(o, "temperature"@) == Ok::<Option<NumV>, Seq<char>>(req.temperature),
        opt_u64(o, "top_k"@) == Ok::<Option<u64>, Seq<char>>(
            match req.top_k {
                Some(k) => Some(k as u64),
                None => None,
            },
        ),
        decode::opt_float(o, "top_p"@) == Ok::<Option<NumV>, Seq<char>>(req.top_p),
        opt_values(o, "tools"@) == Ok::<Option<Seq<JsonV>>, Seq<char>>(tools),
{
    let l = request_list(req, model, streaming, system, wire, tools, thinking_of(req));
    field_is_read(req, tools, o, l, 0);
    field_is_read(req, tools, o, l, 1);
    field_is_read(req, tools, o, l, 2);
    field_is_read(req, tools, o, l, 3);
    field_is_read(req, tools, o, l, 5);
    field_is_read(req, tools, o, l, 6);
    field_is_read(req, tools, o, l, 7);
    field_is_read(req, tools, o, l, 8);
    field_is_read(req, tools, o, l, 9);
    field_is_read(req, tools, o, l, 10);
    if req.stop_sequences is Some {
        let v = req.stop_sequences->0;
        strings_round_trip(v, v.len());
        assert(v.take(v.len() as int) =~= v);
    }
}

proof fn back_is_decoded(
    req: RequestV,
    tools: Option<Seq<JsonV>>,
    model: Seq<char>,
    streaming: bool,
    system: Option<JsonV>,
    wire: Seq<JsonV>,
    o: ObjV,
    root: ObjV,
    ws: Seq<ConversionWarningV>,
)
    requires
        plain_rest(req, tools),
        reads(
            o,
            request_list(req, model, streaming, system, wire, tools, thinking_of(req)),
            extra_ns(req.extra, ANTHROPIC_MESSAGES@),
        ),
    ensures
        ({
            let ns = extra_ns(req.extra, ANTHROPIC_MESSAGES@);
            let choice = data_under(ns, "tool_choice"@);
            match opt_tool_choice_param(o, "tool_choice"@) {
                Ok(Some(tc)) => parsed_choice(tc, root, ws) == (
                    req.tool_choice,
                    req.parallel_tool_calls,
                    mirrored_map2(root, "tool_choice"@, choice, choice.len()),
                    ws,
                ),
                Ok(None) => req.tool_choice is None && req.parallel_tool_calls is None && choice.len() == 0,
                Err(_) => false,
            }
        }),
{
    let l = request_list(req, model, streaming, system, wire, tools, thinking_of(req));
    let ns = extra_ns(req.extra, ANTHROPIC_MESSAGES@);
    let none = Seq::<(Seq<char>, JsonV)>::empty();
    let q = data_under(ns, "tool_choice"@);
    assert(obj_get(o, l[11].0) == merged_member(l[11].1, ns, l[11].0));
    names_are_known(11);
    assert(request_names()[11] == "tool_choice"@);
    member_nests(ns, messages_request_keys(), "tool_choice"@);
    deep_data_is_read(none, ns, "tool_choice"@);
    if req.tool_choice is Some {
        let c = req.tool_choice->0;
        let t = put_all(choice_list(c, req.parallel_tool_calls), 3);
        tool_choice_round_trip(c, req.parallel_tool_calls, q, root, ws);
        tool_choice_round_trip(c, req.parallel_tool_calls, none, root, ws);
        assert(t + none =~= t);
        choice_data_is_apart(c, req.parallel_tool_calls, q);
        new_members_are_appended(t, q, q.len());
        assert(q.take(q.len() as int) =~= q);
    }
}

/// Reasoning and structured output are read back from the body.
proof fn output_is_decoded(
    req: RequestV,
    tools: Option<Seq<JsonV>>,
    model: Seq<char>,
    streaming: bool,
    system: Option<JsonV>,
    wire: Seq<JsonV>,
    o: ObjV,
    root: ObjV,
    ws: Seq<ConversionWarningV>,
)
    requires
        plain_rest(req, tools),
        reads(
            o,
            request_list(req, model, streaming, system, wire, tools, thinking_of(req)),
            extra_ns(req.extra, ANTHROPIC_MESSAGES@),
        ),
    ensures
        ({
            let ns = extra_ns(req.extra, ANTHROPIC_MESSAGES@);
            let d = data_under(ns, "output_config"@);
            match (opt_thinking_config(o, "thinking"@), opt_output_config(o, "output_config"@)) {
                (Ok(t), Ok(oc)) => {
                    let (p, root1) = parsed_thinking(t, root);
                    &&& root1 == root
                    &&& match oc {
                        Some(oc) => with_effort(p, oc.effort) == req.reasoning && parsed_output(oc, root, ws) == (
                            req.output_format,
                            output_mirror(root, d),
                            ws,
                        ),
                        None => p == req.reasoning && req.output_format is None && d.len() == 0,
                    }
                },
                _ => false,
            }
        }),
{
    let l = request_list(req, model, streaming, system, wire, tools, thinking_of(req));
    let ns = extra_ns(req.extra, ANTHROPIC_MESSAGES@);
    let none = Seq::<(Seq<char>, JsonV)>::empty();
    let d = data_under(ns, "output_config"@);
    field_is_read(req, tools, o, l, 12);
    assert(obj_get(o, l[13].0) == merged_member(l[13].1, ns, l[13].0));
    names_are_known(13);
    assert(request_names()[13] == "output_config"@);
    member_nests(ns, messages_request_keys(), "output_config"@);
    deep_data_is_read(none, ns, "output_config"@);
    if req.reasoning is Some {
        reasoning_round_trip(req.reasoning->0, root);
    }
    output_round_trip(effort_of(req), req.output_format, d, root, ws);
    let config = config_of(req);
    if config.len() == 0 {
        assert(config =~= none);
    }
    assert(obj_part(l[13].1) == config);
    assert(d.len() == 0 ==> merged(config, d) == config);
    assert(thinking_of(req) is Some ==> decode_thinking_config(thinking_of(req)->0) is Ok && !(thinking_of(
        req,
    )->0 is Null));
}

/// The system prompt, history and tools that a wire request holds, and the
/// warnings that they raise.
pub open spec fn content_of(w: MessagesRequestV) -> (
    Option<Seq<ContentBlockV>>,
    Seq<MessageV>,
    Option<Seq<ToolV>>,
    Seq<ConversionWarningV>,
) {
    let (blocks, ws3) = match w.system {
        Some(s) => system_channel(s, Seq::empty()),
        None => (Seq::empty(), Seq::empty()),
    };
    let start = if all_text(blocks) {
        Seq::<MessageV>::empty()
    } else {
        seq![plain_message(Role::System, blocks)]
    };
    let (messages, _, ws4) = parsed_messages(start, w.messages, ws3, w.messages.len());
    let (tools, ws5) = match w.tools {
        Some(a) => {
            let (t, ws) = parsed_tools(a, ws4, a.len());
            (Some(t), ws)
        },
        None => (None, ws4),
    };
    (if all_text(blocks) && blocks.len() > 0 { Some(blocks) } else { None }, messages, tools, ws5)
}

/// The request is that of its content, with the configuration of another.
pub open spec fn holds_content(w: MessagesRequestV, r: RequestV, rest: RequestV) -> bool {
    r == (RequestV { system: content_of(w).0, messages: content_of(w).1, tools: content_of(w).2, ..rest })
}

/// What a request body holds is its content and the configuration of the
/// request.
proof fn body_is_read(
    req: RequestV,
    tools: Option<Seq<JsonV>>,
    model: Seq<char>,
    streaming: bool,
    system: Option<JsonV>,
    prompt: Option<SystemPromptV>,
    wire: Seq<JsonV>,
    o: ObjV,
)
    requires
        plain_rest(req, tools),
        prompt_is(system, prompt),
        reads(
            o,
            request_list(req, model, streaming, system, wire, tools, thinking_of(req)),
            extra_ns(req.extra, ANTHROPIC_MESSAGES@),
        ),
        unknown(o, messages_request_keys()) == unknown(
            extra_ns(req.extra, ANTHROPIC_MESSAGES@),
            messages_request_keys(),
        ),
    ensures
        match decode_messages_request(JsonV::Object(o)) {
            Ok(w) => {
                &&& w.messages == wire
                &&& w.system == prompt
                &&& w.tools == tools
                &&& holds_content(w, request_of(w).0, req)
                &&& request_of(w).1 == content_of(w).3
            },
            Err(_) => false,
        },
{
    let none = Seq::<(Seq<char>, JsonV)>::empty();
    let ns = extra_ns(req.extra, ANTHROPIC_MESSAGES@);
    let l = request_list(req, model, streaming, system, wire, tools, thinking_of(req));
    let known = messages_request_keys();
    let dmeta = data_under(ns, "metadata"@);
    let dchoice = data_under(ns, "tool_choice"@);
    let dconf = data_under(ns, "output_config"@);
    let rest = unknown(ns, known);
    let r1 = split_metadata(dmeta, none, dmeta.len()).1;
    let r2 = mirrored_map2(r1, "tool_choice"@, dchoice, dchoice.len());
    front_is_decoded(req, tools, model, streaming, system, prompt, wire, o);
    metadata_is_read(req, tools, o, l);
    let ws0 = Seq::<ConversionWarningV>::empty();
    back_is_decoded(req, tools, model, streaming, system, wire, o, r1, ws0);
    output_is_decoded(req, tools, model, streaming, system, wire, o, r2, ws0);
    let w = decode_messages_request(JsonV::Object(o))->Ok_0;
    let ws = content_of(w).3;
    back_is_decoded(req, tools, model, streaming, system, wire, o, r1, ws);
    output_is_decoded(req, tools, model, streaming, system, wire, o, r2, ws);
    assert(w.extra == rest && w.messages == wire);
    let ids = match req.metadata {
        Some(m) => m,
        None => none,
    };
    metadata_is_split(ids, dmeta, dmeta.len());
    assert(u32_mirrored(w.max_tokens, "max_tokens"@, none, ws0) == (req.max_output_tokens, none, ws0));
    assert(u32_mirrored(w.top_k, "top_k"@, none, ws0) == (req.top_k, none, ws0));
    assert(match w.metadata {
        Some(m) => split_metadata(m, none, m.len()),
        None => (none, none),
    } == (ids, r1));
    assert(dconf.len() == 0 ==> output_mirror(r2, dconf) == r2) by {
        if dconf.len() == 0 {
            no_output_data(r2, dconf);
        }
    }
    let (r, rws) = request_of(w);
    assert(rws == ws);
    assert(r.metadata == req.metadata);
    assert(r.reasoning == req.reasoning);
    assert(r.extra == req.extra);
}

proof fn no_output_data(root: ObjV, d: ObjV)
    requires
        d.len() == 0,
    ensures
        output_mirror(root, d) == root,
{
    absent_is_not_read(d, "format"@, JsonV::Null);
}

/// The value of the system prompt, and the prompt that it stands for.
proof fn system_is_built(req: RequestV, turns: Seq<TurnV>) -> (prompt: Option<SystemPromptV>)
    requires
        plain_request(req, turns),
    ensures
        match system_value(req.system, req.messages, Seq::empty(), empty_sink()) {
            Ok((v, s)) => s.warnings.len() == 0 && prompt_is(v, prompt),
            Err(_) => false,
        },
        match prompt {
            Some(p) => req.system is Some && system_channel(p, Seq::empty()) == (
                req.system->0,
                Seq::<ConversionWarningV>::empty(),
            ),
            None => req.system is None,
        },
{
    let ws = Seq::<ConversionWarningV>::empty();
    match req.system {
        Some(blocks) => {
            system_round_trip(blocks, req.messages, empty_sink(), ws);
            let v = system_value(req.system, req.messages, Seq::empty(), empty_sink())->Ok_0.0->0;
            Some(decode_system_prompt(v)->Ok_0)
        },
        None => {
            assert(!any_content(req.messages, Seq::empty()));
            assert(ws + ws =~= ws);
            None
        },
    }
}

/// The whole body is read back once the wire messages are known.
pub proof fn end_is_read(
    req: RequestV,
    tools: Option<Seq<JsonV>>,
    model: Seq<char>,
    streaming: bool,
    system: Option<JsonV>,
    prompt: Option<SystemPromptV>,
    w: WireV,
    pending: Seq<PendingV>,
)
    requires
        plain_rest(req, tools),
        tools_become(req.tools, tools),
        prompt_is(system, prompt),
    ensures
        ({
            let b = body_end(req, streaming, body_start(model, req.max_output_tokens->0, system), w, pending);
            let s1 = SinkV { warnings: w.sink.warnings + resolved(pending, w.placed, pending.len()), log: w.sink.log };
            &&& b.warnings == tools_noted(req, s1).warnings
            &&& match b.body {
                JsonV::Object(o) => match decode_messages_request(JsonV::Object(o)) {
                    Ok(q) => {
                        &&& q.messages == w.wire
                        &&& q.system == prompt
                        &&& q.tools == tools
                        &&& holds_content(q, request_of(q).0, req)
                        &&& request_of(q).1 == content_of(q).3
                    },
                    Err(_) => false,
                },
                _ => false,
            }
        }),
{
    let limit = req.max_output_tokens->0;
    let s1 = SinkV { warnings: w.sink.warnings + resolved(pending, w.placed, pending.len()), log: w.sink.log };
    let l = request_list(req, model, streaming, system, w.wire, tools, thinking_of(req));
    body_is_put(req, tools, model, streaming, system, w.wire, s1);
    assert(put_all(l, 1) == put_if(put_all(l, 0), l[0].0, l[0].1));
    assert(put_all(l, 2) == put_if(put_all(l, 1), l[1].0, l[1].1));
    assert(put_all(l, 3) == put_if(put_all(l, 2), l[2].0, l[2].1));
    assert(put_all(l, 4) == put_if(put_all(l, 3), l[3].0, l[3].1));
    assert(put_all(l, 4) == obj_set(body_start(model, limit, system), "messages"@, JsonV::Array(w.wire)));
    members_are_read(req, tools, l);
    let ns = extra_ns(req.extra, ANTHROPIC_MESSAGES@);
    body_is_read(req, tools, model, streaming, system, prompt, w.wire, merged(put_all(l, 14), ns));
}

pub proof fn notes_are_resolved(pending: Seq<PendingV>, placed: Seq<Option<usize>>, n: nat)
    requires
        n <= pending.len(),
    ensures
        resolved(pending, placed, n).len() == n,
    decreases n,
{
    if n > 0 {
        notes_are_resolved(pending, placed, (n - 1) as nat);
    }
}

/// A request is read back from the body that it becomes: system prompt,
/// history, tools, configuration and provider data. The parse raises no warning,
/// and the build none but those about the calls and the thinking of the
/// history.
pub proof fn request_round_trip(
    req: RequestV,
    turns: Seq<TurnV>,
    model: Seq<char>,
    opts: AnthropicOptionsV,
    conv: ConvertOptionsV,
    streaming: bool,
)
    requires
        plain_request(req, turns),
        prepared(req, conv).0 == req.messages,
        !opts.downgrade_mid_system,
        opts.merge_consecutive_roles ==> forall|i: int| 0 < i < turns.len() ==> #[trigger] roles_differ(turns, i),
    ensures
        match chat_body(req, model, opts, conv, streaming) {
            Ok(b) => b.warnings.len() == prepared(req, conv).1.len() && parsed_request(b.body) == Ok::<
                (RequestV, Seq<ConversionWarningV>),
                Seq<char>,
            >((req, Seq::empty())),
            Err(_) => false,
        },
{
    let ws = Seq::<ConversionWarningV>::empty();
    let pending = prepared(req, conv).1;
    let none = Seq::<MessageV>::empty();
    let n = turns.len();
    assert(sampling_check(req.temperature, req.top_p, req.frequency_penalty, req.presence_penalty) is Ok);
    history_is_laid_out(none, turns, pending, n);
    if opts.merge_consecutive_roles {
        alternating_turns_stay_apart(none, turns, pending, req.messages, n);
    }
    let plans = plans_of(none, turns, n);
    assert(lead_places(none) =~= Seq::<usize>::empty());
    assert(planned(req.messages, pending, opts) == (Seq::<usize>::empty(), plans, pending));
    let prompt = system_is_built(req, turns);
    let (system, s) = system_value(req.system, req.messages, Seq::empty(), empty_sink())->Ok_0;
    let st = wire_start(req.messages.len(), s);
    history_round_trip(none, turns, st, conv.thinking_as_text, ws, n);
    let w = wire_messages(st, plans, req.messages, conv.thinking_as_text, n)->Ok_0;
    let tools = wire_tools(req);
    match req.tools {
        Some(t) => {
            assert forall|x: SinkV| (#[trigger] tool_values(t, x, t.len())).0 == tools->0 by {
                tools_anywhere(t, x, empty_sink(), t.len());
            }
            let s1 = SinkV { warnings: w.sink.warnings + resolved(pending, w.placed, pending.len()), log: w.sink.log };
            tools_round_trip(t, s1, t.len(), ws);
            assert(t.take(t.len() as int) =~= t);
        },
        None => {},
    }
    notes_are_resolved(pending, w.placed, pending.len());
    end_is_read(req, tools, model, streaming, system, prompt, w, pending);
    let b = body_end(req, streaming, body_start(model, req.max_output_tokens->0, system), w, pending);
    let q = decode_messages_request(b.body)->Ok_0;
    assert(content_of(q).3 == ws);
    assert(content_of(q).0 == req.system);
    assert(content_of(q).1 == req.messages);
    assert(content_of(q).2 == req.tools);
}

/// `bytes` is the body that the request of these turns becomes, and the body
/// is one that this format can carry whole.
pub open spec fn written_as(
    bytes: Seq<u8>,
    req: RequestV,
    turns: Seq<TurnV>,
    model: Seq<char>,
    opts: AnthropicOptionsV,
    conv: ConvertOptionsV,
    streaming: bool,
) -> bool {
    &&& plain_request(req, turns)
    &&& prepared(req, conv).0 == req.messages
    &&& !opts.downgrade_mid_system
    &&& opts.merge_consecutive_roles ==> forall|i: int| 0 < i < turns.len() ==> #[trigger] roles_differ(turns, i)
    &&& match chat_body(req, model, opts, conv, streaming) {
        Ok(b) => exact_json(b.body, 127) && bytes == json_to_bytes(b.body),
        Err(_) => false,
    }
}

} // verus!
