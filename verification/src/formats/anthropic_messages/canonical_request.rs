//! Law: a request body that went through the IR once stays as it is from then
//! on.

use vstd::prelude::*;
use crate::assembly::{bodies_agree, body_is_assembled, body_of, combined, data_is_sound, field_of, no_field_is_read, sound, FieldsV};
use crate::convert::sampling::{is_finite, sampling_check};
use crate::convert::{ConversionWarningV, ConvertOptionsV, OrphanToolCalls};
use crate::decode::{default_values, opt_bool, opt_object, opt_str, opt_strings, opt_u64, opt_values};
use crate::decode;
use crate::format::{AnthropicOptionsV, ANTHROPIC_MESSAGES};
use crate::formats::anthropic_messages::canonical_config::{choice_data_field, choice_field, choice_flag, choice_parallel, choice_rest, choice_settles, config_data, config_settles, deduped, deduped_is_sound, efforts_are_named, format_apart, format_data, format_of, known_display, known_format, known_thinking, map_is_mirrored_deeper, map_is_mirrored_under, metadata_is_parted, metadata_rest, metadata_settles, mirrored_behind, mirrored_under, nothing_null, some_object, swept_is_deduped, thinking_base, thinking_noted, thinking_object, thinking_rest, thinking_settles, unknown_thinking_settles};
use crate::formats::anthropic_messages::canonical_messages::{canonical_messages, history_is_bounded, history_is_written, messages_are_turns, messages_settle, steady_messages, steady_messages_stay_apart, turns_of, wire_size};
use crate::formats::anthropic_messages::canonical_system::{canonical_blocks, leading_prompt_is_written, prompt_blocks, prompt_is_parsed, prompt_of, prompt_settles, prompts_have_system_blocks, steady_tool, text_prompt_is_written, tool_jsons, tools_are_written, tools_settle};
use crate::formats::anthropic_messages::from_ir::{body_end, body_start, chat_body, effort_out, metadata_stage, output_stage, planned, prepared, reasoning_conflict, reasoning_extra_stage, reasoning_stage, request_fields, sampling_fields, sampling_warnings, thinking_config, token_limit, tool_choice_stage, tool_values, tools_stage, user_ids, wire_start};
use crate::formats::anthropic_messages::layout::in_array;
use crate::formats::anthropic_messages::messages::{resolved, wire_messages, WireV};
use crate::formats::anthropic_messages::round_trip_fields::{choice_kinds, field_names, output_list, thinking_kinds};
use crate::formats::anthropic_messages::round_trip_history::{apart_entry, history_grows, history_is_laid_out, history_of, lead_places, leads, plans_of};
use crate::formats::anthropic_messages::round_trip_request::{float_of, list_names, names_are_different, names_are_known, plain_metadata, prompt_is, request_names};
use crate::formats::anthropic_messages::system::system_value;
use crate::formats::anthropic_messages::to_ir::{all_text, choice_of, noted_extra, noted_extras, parsed_choice, parsed_output, parsed_request, parsed_tools, request_of, request_outcome, split_metadata, system_channel, thinking_off, thinking_on, u32_mirrored};
use crate::formats::anthropic_messages::types::{decode_messages_request, decode_thinking_config, encode_output_format_config, encode_thinking_config, messages_request_keys, opt_output_config, opt_system_prompt, opt_thinking_config, opt_tool_choice_param, output_config_keys, output_format_config_keys, thinking_config_keys, tool_choice_param_keys, MessagesRequestV, OutputConfigV, OutputFormatConfigV, SystemPromptV, ThinkingConfigV, ToolChoiceParamV};
use crate::history::PendingV;
use crate::ir::{effort_named, extra_from_unknown, extra_get, extra_index_from, extra_ns, plain_message, EffortV, ExtraV, MessageV, RequestV, Role};
use crate::json::{json_int, json_strings, obj_get, obj_index_props, obj_set, put_if, JsonV, NumV, ObjV};
use crate::json_laws::strings_round_trip;
use crate::merge::merged;
use crate::mirror::{mirrored2, mirrored_map};
use crate::namespaces::{absent, absent_is_not_read, avoids, field_is_replaced, names_differ, put_all, put_fields_are_known, put_fields_are_named, put_fields_are_read, unknown_avoids, with_data};
use crate::sink::{empty_sink, SinkV};
use crate::sweep::{fields_are_merged, known_are_apart, swept};
use crate::value::{json_from_slice, json_to_bytes, num_as_float};

verus! {

/// A number above the modeled range is kept as data.
pub open spec fn out_of_range(v: Option<u64>) -> Option<JsonV> {
    match v {
        Some(v) => if v > u32::MAX { Some(json_int(v as int)) } else { None },
        None => None,
    }
}

/// A number in the modeled range.
pub open spec fn in_range(v: Option<u64>) -> Option<u32> {
    match v {
        Some(v) => if v <= u32::MAX { Some(v as u32) } else { None },
        None => None,
    }
}

/// The user id of a wire request.
pub open spec fn ids_of(w: MessagesRequestV) -> ObjV {
    match w.metadata {
        Some(m) => split_metadata(m, Seq::empty(), m.len()).0,
        None => Seq::empty(),
    }
}

/// The data that a parse keeps of metadata.
pub open spec fn metadata_data(w: MessagesRequestV) -> ObjV {
    match w.metadata {
        Some(m) => metadata_rest(m, m.len()),
        None => Seq::empty(),
    }
}

/// The output format of a wire request.
pub open spec fn wire_format(w: MessagesRequestV) -> Option<OutputFormatConfigV> {
    match w.output_config {
        Some(oc) => oc.format,
        None => None,
    }
}

/// The unmodeled members of the output configuration.
pub open spec fn config_extra(w: MessagesRequestV) -> ObjV {
    match w.output_config {
        Some(oc) => oc.extra,
        None => Seq::empty(),
    }
}

/// The effort tier of a wire request.
pub open spec fn wire_effort(w: MessagesRequestV) -> Option<EffortV> {
    match w.output_config {
        Some(oc) => match oc.effort {
            Some(e) => Some(effort_named(e)),
            None => None,
        },
        None => None,
    }
}

/// The thinking configuration contradicts the effort tier.
pub open spec fn in_conflict(w: MessagesRequestV) -> bool {
    match w.thinking {
        Some(t) => known_thinking(t) && reasoning_conflict(Some(t.kind != "disabled"@), wire_effort(w)),
        None => false,
    }
}

/// The field of a thinking configuration: one of a known type that the effort
/// tier does not contradict.
pub open spec fn thinking_field(w: MessagesRequestV) -> Option<JsonV> {
    match w.thinking {
        Some(t) => if known_thinking(t) && !in_conflict(w) {
            Some(JsonV::Object(thinking_object(t)))
        } else {
            None
        },
        None => None,
    }
}

/// The data field of a thinking configuration of an unknown type.
pub open spec fn thinking_data_field(w: MessagesRequestV) -> Option<JsonV> {
    match w.thinking {
        Some(t) => if known_thinking(t) { None } else { Some(encode_thinking_config(t)) },
        None => None,
    }
}

/// The data fields that a parse keeps of a wire request, in order.
pub open spec fn data_fields(w: MessagesRequestV) -> FieldsV {
    seq![
        ("max_tokens"@, out_of_range(w.max_tokens)),
        ("top_k"@, out_of_range(w.top_k)),
        ("metadata"@, some_object(metadata_data(w))),
        ("tool_choice"@, choice_data_field(w.tool_choice)),
        ("thinking"@, thinking_data_field(w)),
        ("output_config"@, some_object(config_data(wire_format(w), config_extra(w)))),
    ]
}

/// Some tool is defined.
pub open spec fn has_tools(w: MessagesRequestV) -> bool {
    w.tools is Some && w.tools->0.len() > 0
}

/// The fields of the body of a wire request, in order.
pub open spec fn body_fields(
    w: MessagesRequestV,
    limit: u32,
    model: Seq<char>,
    streaming: bool,
    system: Option<JsonV>,
    wire: Seq<JsonV>,
    tools: Option<Seq<JsonV>>,
) -> FieldsV {
    seq![
        ("model"@, Some(JsonV::Str(model))),
        ("max_tokens"@, Some(json_int(limit as int))),
        ("system"@, system),
        ("messages"@, Some(JsonV::Array(wire))),
        ("metadata"@, some_object(ids_of(w))),
        (
            "stop_sequences"@,
            match w.stop_sequences {
                Some(v) => Some(json_strings(v)),
                None => None,
            },
        ),
        ("temperature"@, float_of(w.temperature)),
        ("top_p"@, float_of(w.top_p)),
        (
            "top_k"@,
            match in_range(w.top_k) {
                Some(v) => Some(json_int(v as int)),
                None => None,
            },
        ),
        ("stream"@, if streaming { Some(JsonV::Bool(true)) } else { None }),
        (
            "tools"@,
            match tools {
                Some(a) => Some(JsonV::Array(a)),
                None => None,
            },
        ),
        ("tool_choice"@, choice_field(w.tool_choice, has_tools(w))),
        ("thinking"@, thinking_field(w)),
        (
            "output_config"@,
            some_object(put_all(output_list(effort_out(wire_effort(w)), format_of(wire_format(w))), 2)),
        ),
    ]
}

/// A number that is read again as it is written.
pub open spec fn steady_number(n: Option<NumV>) -> bool {
    match n {
        Some(n) => match num_as_float(n) {
            Some(g) => num_as_float(g) == Some(g),
            None => true,
        },
        None => true,
    }
}

/// A configuration that keeps its canonical form. This leaves out numbers that
/// change when they are read again; what stands beside a tool choice that is
/// not written because there are no tools; and what stands beside a thinking
/// configuration that the effort tier contradicts.
pub open spec fn steady_config(w: MessagesRequestV) -> bool {
    &&& steady_number(w.temperature)
    &&& steady_number(w.top_p)
    &&& match w.tool_choice {
        Some(tc) => choice_of(tc) is Some && !has_tools(w) ==> choice_rest(tc).len() == 0,
        None => true,
    }
    &&& match w.thinking {
        Some(t) => in_conflict(w) ==> thinking_rest(t).len() == 0,
        None => true,
    }
}

/// Unmodeled members have other names than the modeled ones.
pub open spec fn extras_apart(w: MessagesRequestV) -> bool {
    &&& avoids(w.extra, messages_request_keys())
    &&& match w.tool_choice {
        Some(tc) => avoids(tc.extra, tool_choice_param_keys()),
        None => true,
    }
    &&& match w.thinking {
        Some(t) => avoids(t.extra, thinking_config_keys()),
        None => true,
    }
    &&& format_apart(wire_format(w))
    &&& avoids(config_extra(w), output_config_keys())
}

/// What is decoded keeps unmodeled members apart.
pub proof fn decoded_extras_are_apart(j: JsonV)
    requires
        decode_messages_request(j) is Ok,
    ensures
        extras_apart(decode_messages_request(j)->Ok_0),
{
    let o = j->Object_0;
    unknown_avoids(o, messages_request_keys(), o.len());
    if let Some(JsonV::Object(q)) = obj_get(o, "tool_choice"@) {
        unknown_avoids(q, tool_choice_param_keys(), q.len());
    }
    if let Some(JsonV::Object(q)) = obj_get(o, "thinking"@) {
        unknown_avoids(q, thinking_config_keys(), q.len());
    }
    if let Some(JsonV::Object(q)) = obj_get(o, "output_config"@) {
        unknown_avoids(q, output_config_keys(), q.len());
        if let Some(JsonV::Object(f)) = obj_get(q, "format"@) {
            unknown_avoids(f, output_format_config_keys(), f.len());
        }
    }
}

proof fn data_names(i: int, j: int)
    requires
        0 <= i < j < 6,
    ensures
        forall|w: MessagesRequestV| (#[trigger] data_fields(w))[i].0 != data_fields(w)[j].0,
        forall|w: MessagesRequestV| messages_request_keys().contains((#[trigger] data_fields(w))[i].0),
        forall|w: MessagesRequestV| messages_request_keys().contains((#[trigger] data_fields(w))[j].0),
{
    let place = seq![1int, 8, 4, 11, 12, 13];
    let n = request_names();
    assert(n[1] == "max_tokens"@ && n[8] == "top_k"@ && n[4] == "metadata"@ && n[11] == "tool_choice"@ && n[12]
        == "thinking"@ && n[13] == "output_config"@);
    let a = place[i];
    let b = place[j];
    if a < b {
        names_are_different(a, b);
    } else {
        names_are_different(b, a);
    }
    names_are_known(a);
    names_are_known(b);
}

proof fn data_fields_are_apart(w: MessagesRequestV)
    ensures
        names_differ(data_fields(w)),
        forall|i: int| 0 <= i < 6 ==> messages_request_keys().contains((#[trigger] data_fields(w)[i]).0),
{
    let l = data_fields(w);
    assert forall|i: int, j: int| 0 <= i < j < l.len() implies (#[trigger] l[i]).0 != (#[trigger] l[j]).0 by {
        data_names(i, j);
    }
    assert forall|i: int| 0 <= i < 6 implies messages_request_keys().contains((#[trigger] l[i]).0) by {
        if i < 5 {
            data_names(i, 5);
        } else {
            data_names(0, 5);
        }
    }
}

/// The data of a parsed request.
proof fn parsed_data(w: MessagesRequestV)
    requires
        extras_apart(w),
    ensures
        request_of(w).0.extra == extra_from_unknown(ANTHROPIC_MESSAGES@, put_all(data_fields(w), 6) + deduped(w.extra)),
        request_of(w).0.metadata == (if ids_of(w).len() > 0 { Some(ids_of(w)) } else { None }),
        ids_of(w).len() > 0 ==> plain_metadata(Some(ids_of(w))),
        request_of(w).0.max_output_tokens == in_range(w.max_tokens),
        request_of(w).0.top_k == in_range(w.top_k),
        request_of(w).0.tool_choice == match w.tool_choice {
            Some(tc) => choice_of(tc),
            None => None,
        },
        request_of(w).0.parallel_tool_calls == match w.tool_choice {
            Some(tc) => if choice_of(tc) is Some { choice_parallel(tc) } else { None },
            None => None,
        },
        request_of(w).0.output_format == format_of(wire_format(w)),
{
    field_names();
    let none = Seq::<(Seq<char>, JsonV)>::empty();
    let ws = Seq::<ConversionWarningV>::empty();
    let l = data_fields(w);
    data_fields_are_apart(w);
    let p1 = put_all(l, 1);
    let p2 = put_all(l, 2);
    let p3 = put_all(l, 3);
    let p4 = put_all(l, 4);
    let p5 = put_all(l, 5);
    let p6 = put_all(l, 6);
    assert(p1 == put_if(put_all(l, 0), l[0].0, l[0].1));
    assert(p2 == put_if(p1, l[1].0, l[1].1));
    assert(p3 == put_if(p2, l[2].0, l[2].1));
    assert(p4 == put_if(p3, l[3].0, l[3].1));
    assert(p5 == put_if(p4, l[4].0, l[4].1));
    assert(p6 == put_if(p5, l[5].0, l[5].1));
    put_fields_are_named(l, 2, "metadata"@);
    put_fields_are_named(l, 3, "tool_choice"@);
    put_fields_are_named(l, 5, "output_config"@);
    assert(u32_mirrored(w.max_tokens, "max_tokens"@, none, ws).1 == p1);
    let ws1 = u32_mirrored(w.max_tokens, "max_tokens"@, none, ws).2;
    assert(u32_mirrored(w.top_k, "top_k"@, p1, ws1).1 == p2);
    if let Some(m) = w.metadata {
        metadata_is_parted(m, p2, m.len());
    }
    if let Some(tc) = w.tool_choice {
        choice_data_is_parsed(tc, p3);
    }
    if let Some(t) = w.thinking {
        unknown_thinking_settles(t);
    }
    match w.output_config {
        Some(oc) => {
            output_data_is_parsed(oc, p5);
        },
        None => {
            let nl = format_data(None);
            assert(put_all(nl, 1) == put_if(put_all(nl, 0), nl[0].0, nl[0].1));
            assert(deduped(none) == none);
            assert(config_data(None, none).len() == 0);
        },
    }
    put_fields_are_known(l, 6, messages_request_keys());
    known_are_apart(p6, w.extra, messages_request_keys());
    mirrored_behind(p6, w.extra, w.extra.len());
}

proof fn choice_data_is_parsed(tc: ToolChoiceParamV, root: ObjV)
    requires
        avoids(tc.extra, tool_choice_param_keys()),
        absent(root, "tool_choice"@),
    ensures
        forall|ws: Seq<ConversionWarningV>| (#[trigger] parsed_choice(tc, root, ws)).2 == put_if(
            root,
            "tool_choice"@,
            choice_data_field(Some(tc)),
        ),
        forall|ws: Seq<ConversionWarningV>| (#[trigger] parsed_choice(tc, root, ws)).0 == choice_of(tc),
        forall|ws: Seq<ConversionWarningV>| (#[trigger] parsed_choice(tc, root, ws)).1 == if choice_of(tc) is Some {
            choice_parallel(tc)
        } else {
            None
        },
{
    field_names();
    let none = Seq::<(Seq<char>, JsonV)>::empty();
    let key = "disable_parallel_tool_use"@;
    let known = tool_choice_param_keys();
    assert(known[0] == "type"@ && known[1] == "name"@ && known[2] == key);
    let nl = choice_flag(tc);
    let p = put_all(nl, 1);
    assert(p == put_if(put_all(nl, 0), nl[0].0, nl[0].1));
    assert forall|i: int| 0 <= i < nl.len() implies known.contains((#[trigger] nl[i]).0) by {
        assert(nl[i].0 == known[2]);
    }
    put_fields_are_known(nl, 1, known);
    if choice_of(tc) is Some {
        let r1 = match nl[0].1 {
            Some(v) => mirrored2(root, "tool_choice"@, key, v),
            None => root,
        };
        assert(with_data(root, "tool_choice"@, none) == root);
        if let Some(v) = nl[0].1 {
            mirrored_under(root, "tool_choice"@, none, key, v);
        }
        assert(r1 == with_data(root, "tool_choice"@, p));
        map_is_mirrored_under(root, "tool_choice"@, p, tc.extra, tc.extra.len());
        known_are_apart(p, tc.extra, known);
        mirrored_behind(p, tc.extra, tc.extra.len());
    }
}

proof fn output_data_is_parsed(oc: OutputConfigV, root: ObjV)
    requires
        format_apart(oc.format),
        avoids(oc.extra, output_config_keys()),
        absent(root, "output_config"@),
    ensures
        forall|ws: Seq<ConversionWarningV>| (#[trigger] parsed_output(oc, root, ws)).1 == put_if(
            root,
            "output_config"@,
            some_object(config_data(oc.format, oc.extra)),
        ),
        forall|ws: Seq<ConversionWarningV>| (#[trigger] parsed_output(oc, root, ws)).0 == format_of(oc.format),
{
    field_names();
    let none = Seq::<(Seq<char>, JsonV)>::empty();
    let known = output_config_keys();
    assert(known[0] == "effort"@ && known[1] == "format"@);
    let nl = format_data(oc.format);
    let p = put_all(nl, 1);
    assert(p == put_if(put_all(nl, 0), nl[0].0, nl[0].1));
    assert forall|i: int| 0 <= i < nl.len() implies known.contains((#[trigger] nl[i]).0) by {
        assert(nl[i].0 == known[1]);
    }
    put_fields_are_known(nl, 1, known);
    assert(with_data(root, "output_config"@, none) == root);
    if let Some(f) = oc.format {
        if known_format(f) {
            map_is_mirrored_deeper(root, "output_config"@, "format"@, f.extra, f.extra.len());
            map_is_mirrored_under(none, "format"@, none, f.extra, f.extra.len());
            assert(with_data(none, "format"@, none) == none);
        } else {
            mirrored_under(
                root,
                "output_config"@,
                none,
                "format"@,
                encode_output_format_config(f),
            );
        }
    }
    map_is_mirrored_under(root, "output_config"@, p, oc.extra, oc.extra.len());
    known_are_apart(p, oc.extra, known);
    mirrored_behind(p, oc.extra, oc.extra.len());
}

proof fn tools_are_counted(w: MessagesRequestV)
    ensures
        request_of(w).0.tools is Some == w.tools is Some,
        w.tools is Some ==> request_of(w).0.tools->0.len() == w.tools->0.len(),
        forall|s: SinkV|
            w.tools is Some ==> (#[trigger] tool_values(request_of(w).0.tools->0, s, w.tools->0.len())).0 == tool_jsons(
                w.tools->0,
            ),
{
    if let Some(a) = w.tools {
        let tools = request_of(w).0.tools->0;
        assert(exists|ws: Seq<ConversionWarningV>| tools == (#[trigger] parsed_tools(a, ws, a.len())).0);
        let ws = choose|ws: Seq<ConversionWarningV>| tools == (#[trigger] parsed_tools(a, ws, a.len())).0;
        tools_are_written(a, ws, empty_sink(), a.len());
        assert forall|s: SinkV| (#[trigger] tool_values(tools, s, a.len())).0 == tool_jsons(a) by {
            tools_are_written(a, ws, s, a.len());
            assert(tool_jsons(a).take(a.len() as int) =~= tool_jsons(a));
        }
    }
}

/// The definitions of the tools of a wire request, in canonical form.
pub open spec fn canonical_tools(w: MessagesRequestV) -> Option<Seq<JsonV>> {
    match w.tools {
        Some(a) => Some(tool_jsons(a)),
        None => None,
    }
}

/// Provider data with these members.
spec fn own_data(ns: ObjV) -> ExtraV {
    if ns.len() > 0 {
        seq![(ANTHROPIC_MESSAGES@, ns)]
    } else {
        Seq::empty()
    }
}

proof fn noting_sets(ns: ObjV, k: Seq<char>, v: JsonV)
    ensures
        noted_extra(own_data(ns), k, v) == own_data(obj_set(ns, k, v)),
{
    broadcast use obj_index_props;
    let none = Seq::<(Seq<char>, JsonV)>::empty();
    assert(obj_set(ns, k, v).len() > 0) by {
        reveal(obj_set);
    }
    let e = own_data(ns);
    if ns.len() > 0 {
        assert(extra_index_from(e, ANTHROPIC_MESSAGES@, 0) == 0);
        assert(noted_extra(e, k, v) =~= own_data(obj_set(ns, k, v)));
    } else {
        assert(ns =~= none);
        assert(extra_index_from(e, ANTHROPIC_MESSAGES@, 0) == 0);
        assert(noted_extra(e, k, v) =~= own_data(obj_set(none, k, v)));
    }
}

proof fn noting_mirrors(ns: ObjV, m: ObjV, n: nat)
    requires
        n <= m.len(),
    ensures
        noted_extras(own_data(ns), m, n) == own_data(mirrored_map(ns, m, n)),
    decreases n,
{
    if n > 0 {
        noting_mirrors(ns, m, (n - 1) as nat);
        noting_sets(mirrored_map(ns, m, (n - 1) as nat), m[n - 1].0, m[n - 1].1);
    }
}

/// The reasoning of a thinking configuration of a known type.
proof fn thinking_is_parsed(t: ThinkingConfigV)
    requires
        known_thinking(t),
        avoids(t.extra, thinking_config_keys()),
    ensures
        ({
            let x = if t.kind == "disabled"@ { thinking_off(t) } else { thinking_on(t) };
            &&& x.enabled == Some(t.kind != "disabled"@)
            &&& x.extra == own_data(thinking_rest(t))
            &&& x.effort is None
            &&& x.include_thoughts == (if t.kind != "disabled"@ && known_display(t.display) {
                Some(t.display == Some("summarized"@))
            } else {
                None
            })
        }),
{
    field_names();
    thinking_kinds();
    let none = Seq::<(Seq<char>, JsonV)>::empty();
    let known = thinking_config_keys();
    assert(known[0] == "type"@ && known[1] == "budget_tokens"@ && known[2] == "display"@);
    let l = thinking_noted(t);
    let p1 = put_all(l, 1);
    let p2 = put_all(l, 2);
    let p3 = put_all(l, 3);
    assert(p1 == put_if(put_all(l, 0), l[0].0, l[0].1));
    assert(p2 == put_if(p1, l[1].0, l[1].1));
    assert(p3 == put_if(p2, l[2].0, l[2].1));
    assert(own_data(none) == Seq::<(Seq<char>, ObjV)>::empty());
    if let Some(v) = l[0].1 {
        noting_sets(none, "type"@, v);
    }
    if let Some(v) = l[1].1 {
        noting_sets(p1, "budget_tokens"@, v);
    }
    if let Some(v) = l[2].1 {
        noting_sets(p2, "display"@, v);
    }
    noting_mirrors(p3, t.extra, t.extra.len());
    assert forall|i: int| 0 <= i < l.len() implies known.contains((#[trigger] l[i]).0) by {
        assert(l[i].0 == known[i]);
    }
    put_fields_are_known(l, 3, known);
    known_are_apart(p3, t.extra, known);
    mirrored_behind(p3, t.extra, t.extra.len());
}

/// The generated thinking configuration is its base.
proof fn base_is_generated(t: ThinkingConfigV, effort: Option<Seq<char>>)
    requires
        known_thinking(t),
    ensures
        ({
            let on = t.kind != "disabled"@;
            let thoughts = if on && known_display(t.display) {
                Some(t.display == Some("summarized"@))
            } else {
                None
            };
            thinking_config(Some(on), effort, thoughts) == Some(JsonV::Object(put_all(thinking_base(t), 2)))
        }),
{
    field_names();
    thinking_kinds();
    let none = Seq::<(Seq<char>, JsonV)>::empty();
    let l = thinking_base(t);
    assert(put_all(l, 2) == put_if(put_all(l, 1), l[1].0, l[1].1));
    assert(put_all(l, 1) == put_if(put_all(l, 0), l[0].0, l[0].1));
    absent_is_not_read(none, "type"@, l[0].1->0);
    assert(put_all(l, 1) =~= seq![("type"@, l[0].1->0)]);
}

/// The fields of a parsed request are put in order.
proof fn fields_are_put(
    w: MessagesRequestV,
    limit: u32,
    model: Seq<char>,
    streaming: bool,
    system: Option<JsonV>,
    wire: Seq<JsonV>,
    s: SinkV,
)
    requires
        extras_apart(w),
        steady_config(w),
        is_finite(w.temperature),
        is_finite(w.top_p),
    ensures
        ({
            let l = body_fields(w, limit, model, streaming, system, wire, canonical_tools(w));
            &&& obj_set(body_start(model, limit, system), "messages"@, JsonV::Array(wire)) == put_all(l, 4)
            &&& request_fields(request_of(w).0, streaming, put_all(l, 4), s).0 == put_all(l, 14)
        }),
{
    let r = request_of(w).0;
    let none = Seq::<(Seq<char>, JsonV)>::empty();
    let tools = canonical_tools(w);
    let l = body_fields(w, limit, model, streaming, system, wire, tools);
    parsed_data(w);
    assert(put_all(l, 1) == put_if(put_all(l, 0), l[0].0, l[0].1));
    assert(put_all(l, 2) == put_if(put_all(l, 1), l[1].0, l[1].1));
    assert(put_all(l, 3) == put_if(put_all(l, 2), l[2].0, l[2].1));
    assert(put_all(l, 4) == put_if(put_all(l, 3), l[3].0, l[3].1));
    assert(put_all(l, 5) == put_if(put_all(l, 4), l[4].0, l[4].1));
    assert(put_all(l, 6) == put_if(put_all(l, 5), l[5].0, l[5].1));
    assert(put_all(l, 7) == put_if(put_all(l, 6), l[6].0, l[6].1));
    assert(put_all(l, 8) == put_if(put_all(l, 7), l[7].0, l[7].1));
    assert(put_all(l, 9) == put_if(put_all(l, 8), l[8].0, l[8].1));
    assert(put_all(l, 10) == put_if(put_all(l, 9), l[9].0, l[9].1));
    assert(put_all(l, 11) == put_if(put_all(l, 10), l[10].0, l[10].1));
    assert(put_all(l, 12) == put_if(put_all(l, 11), l[11].0, l[11].1));
    ids_are_put(r, put_all(l, 4), s);
    let (b1, s1) = metadata_stage(r.metadata, put_all(l, 4), s);
    let b2 = sampling_fields(r, b1);
    let s2 = sampling_warnings(r, s1);
    let b3 = if streaming { obj_set(b2, "stream"@, JsonV::Bool(true)) } else { b2 };
    assert(b3 == put_all(l, 10));
    tools_are_counted(w);
    let (has, b4, s4) = tools_stage(r.tools, b3, s2);
    assert(b4 == put_all(l, 11) && has == has_tools(w));
    choice_kinds();
    let (b5, s5) = tool_choice_stage(r.tool_choice, r.parallel_tool_calls, has, b4, s4);
    assert(b5 == put_all(l, 12));
    reasoning_is_put(w, l, s5);
}

proof fn ids_are_put(r: RequestV, body: ObjV, s: SinkV)
    requires
        r.metadata is Some ==> plain_metadata(r.metadata),
    ensures
        metadata_stage(r.metadata, body, s).0 == put_if(
            body,
            "metadata"@,
            match r.metadata {
                Some(m) => Some(JsonV::Object(m)),
                None => None,
            },
        ),
{
    if let Some(m) = r.metadata {
        let none = Seq::<(Seq<char>, JsonV)>::empty();
        assert(user_ids(m, 0) == none);
        absent_is_not_read(none, m[0].0, m[0].1);
        assert(user_ids(m, 1) =~= m);
    }
}

proof fn reasoning_is_put(w: MessagesRequestV, l: FieldsV, s: SinkV)
    requires
        extras_apart(w),
        steady_config(w),
        l.len() == 14,
        forall|i: int| 0 <= i < 14 ==> (#[trigger] l[i]).0 == request_names()[i],
        l[12].1 == thinking_field(w),
        l[13].1 == some_object(put_all(output_list(effort_out(wire_effort(w)), format_of(wire_format(w))), 2)),
    ensures
        ({
            let r = request_of(w).0;
            let b5 = put_all(l, 12);
            let (b6, c6, s6) = match r.reasoning {
                Some(x) => reasoning_stage(x, b5, Seq::empty(), s),
                None => (b5, Seq::empty(), s),
            };
            let (c7, s7) = output_stage(r.output_format, c6, s6);
            let b7 = if c7.len() > 0 { obj_set(b6, "output_config"@, JsonV::Object(c7)) } else { b6 };
            reasoning_extra_stage(r.reasoning, b7, s7).0 == put_all(l, 14)
        }),
{
    thinking_kinds();
    reveal(extra_get);
    let none = Seq::<(Seq<char>, JsonV)>::empty();
    let fmt = ANTHROPIC_MESSAGES@;
    parsed_data(w);
    let r = request_of(w).0;
    let effort = effort_out(wire_effort(w));
    let ol = output_list(effort, format_of(wire_format(w)));
    assert(put_all(ol, 2) == put_if(put_all(ol, 1), ol[1].0, ol[1].1));
    assert(put_all(ol, 1) == put_if(put_all(ol, 0), ol[0].0, ol[0].1));
    assert(request_names()[12] == "thinking"@ && request_names()[13] == "output_config"@);
    assert(put_all(l, 13) == put_if(put_all(l, 12), l[12].0, l[12].1));
    assert(put_all(l, 14) == put_if(put_all(l, 13), l[13].0, l[13].1));
    let config = put_all(ol, 2);
    match r.reasoning {
        Some(x) => {
            assert(effort_out(x.effort) == effort);
            match w.thinking {
                Some(t) => {
                    if known_thinking(t) {
                        thinking_is_parsed(t);
                        base_is_generated(t, effort);
                        let ns = thinking_rest(t);
                        assert(x.extra == own_data(ns));
                        assert(extra_ns(x.extra, fmt) =~= ns);
                        if in_conflict(w) {
                            assert(ns.len() == 0);
                        } else {
                            let base = JsonV::Object(put_all(thinking_base(t), 2));
                            let k = l.update(12, (l[12].0, Some(base)));
                            list_names(l);
                            assert forall|i: int| 0 <= i < 14 implies (#[trigger] k[i]).0 == request_names()[i] by {}
                            list_names(k);
                            put_same(l, k, 12);
                            assert(put_all(k, 13) == put_if(put_all(k, 12), k[12].0, k[12].1));
                            assert(put_all(k, 14) == put_if(put_all(k, 13), k[13].0, k[13].1));
                            put_fields_are_read(k, 14, 12);
                            let value = JsonV::Object(thinking_object(t));
                            if ns.len() > 0 {
                                field_is_replaced(k, 14, 12, value);
                                assert(k.update(12, (k[12].0, Some(value))) =~= l);
                            } else {
                                assert(ns =~= none);
                                assert(thinking_object(t) == merged(put_all(thinking_base(t), 2), ns));
                                assert(k =~= l);
                            }
                        }
                    } else {
                        assert(x.extra.len() == 0);
                    }
                },
                None => {
                    assert(x.extra.len() == 0);
                },
            }
        },
        None => {},
    }
}

proof fn put_same(a: FieldsV, b: FieldsV, n: nat)
    requires
        n <= a.len(),
        n <= b.len(),
        forall|i: int| 0 <= i < n ==> (#[trigger] a[i]) == b[i],
    ensures
        put_all(a, n) == put_all(b, n),
    decreases n,
{
    if n > 0 {
        put_same(a, b, (n - 1) as nat);
        assert(a[n - 1] == b[n - 1]);
    }
}

/// The fields and data of a wire request are told apart.
proof fn request_is_sound(
    w: MessagesRequestV,
    limit: u32,
    model: Seq<char>,
    streaming: bool,
    system: Option<JsonV>,
    wire: Seq<JsonV>,
    tools: Option<Seq<JsonV>>,
)
    requires
        extras_apart(w),
    ensures
        sound(
            body_fields(w, limit, model, streaming, system, wire, tools),
            data_fields(w),
            deduped(w.extra),
            messages_request_keys(),
        ),
{
    let l = body_fields(w, limit, model, streaming, system, wire, tools);
    assert forall|i: int| 0 <= i < 14 implies (#[trigger] l[i]).0 == request_names()[i] by {}
    list_names(l);
    assert forall|i: int| 0 <= i < l.len() implies messages_request_keys().contains((#[trigger] l[i]).0) by {
        names_are_known(i);
    }
    data_fields_are_apart(w);
    deduped_is_sound(w.extra, messages_request_keys());
    if let Some(t) = w.thinking {
        unknown_thinking_settles(t);
    }
}

/// The body of a parsed request: its fields, its data fields and its unmodeled
/// members.
proof fn body_is_built(
    w: MessagesRequestV,
    limit: u32,
    model: Seq<char>,
    streaming: bool,
    system: Option<JsonV>,
    x: WireV,
    pending: Seq<PendingV>,
)
    requires
        extras_apart(w),
        steady_config(w),
        is_finite(w.temperature),
        is_finite(w.top_p),
    ensures
        body_end(request_of(w).0, streaming, body_start(model, limit, system), x, pending).body == JsonV::Object(
            body_of(
                body_fields(w, limit, model, streaming, system, x.wire, canonical_tools(w)),
                data_fields(w),
                deduped(w.extra),
            ),
        ),
{
    let r = request_of(w).0;
    let tools = canonical_tools(w);
    let l = body_fields(w, limit, model, streaming, system, x.wire, tools);
    let nl = data_fields(w);
    let e = deduped(w.extra);
    let s1 = SinkV {
        warnings: x.sink.warnings + resolved(pending, x.placed, pending.len()),
        log: x.sink.log,
    };
    fields_are_put(w, limit, model, streaming, system, x.wire, s1);
    parsed_data(w);
    request_is_sound(w, limit, model, streaming, system, x.wire, tools);
    data_is_sound(l, nl, e, messages_request_keys());
    let ns = put_all(nl, 6) + e;
    nothing_null(ns);
    fields_are_merged(ANTHROPIC_MESSAGES@, put_all(l, 14), ns);
}

/// The member of a body under a name that only fields have.
proof fn field_value(l: FieldsV, nl: FieldsV, e: ObjV, i: int)
    requires
        sound(l, nl, e, messages_request_keys()),
        l.len() == 14,
        nl.len() == 6,
        forall|j: int| 0 <= j < 14 ==> (#[trigger] l[j]).0 == request_names()[j],
        forall|w: MessagesRequestV, j: int| 0 <= j < 6 ==> (#[trigger] nl[j]).0 == (#[trigger] data_fields(w))[j].0,
        0 <= i < 14,
        i != 1,
        i != 4,
        i != 8,
        i != 11,
        i != 12,
        i != 13,
    ensures
        obj_get(body_of(l, nl, e), l[i].0) == l[i].1,
        field_of(nl, l[i].0) is None,
{
    let n = request_names();
    assert(n[1] == "max_tokens"@ && n[8] == "top_k"@ && n[4] == "metadata"@ && n[11] == "tool_choice"@ && n[12]
        == "thinking"@ && n[13] == "output_config"@);
    let place = seq![1int, 8, 4, 11, 12, 13];
    let w: MessagesRequestV = arbitrary();
    assert forall|j: int| 0 <= j < 6 implies (#[trigger] nl[j]).0 != l[i].0 by {
        let p = place[j];
        assert(nl[j].0 == data_fields(w)[j].0);
        assert(nl[j].0 == n[p]);
        if p < i {
            names_are_different(p, i);
        } else {
            names_are_different(i, p);
        }
    }
    no_field_is_read(nl, l[i].0);
    body_is_assembled(l, nl, e, messages_request_keys());
    put_fields_are_read(l, 14, i);
    names_are_known(i);
}

/// The member of a body under a name that fields and data have.
proof fn data_value(l: FieldsV, nl: FieldsV, e: ObjV, i: int, j: int)
    requires
        sound(l, nl, e, messages_request_keys()),
        l.len() == 14,
        nl.len() == 6,
        0 <= i < 14,
        0 <= j < 6,
        l[i].0 == nl[j].0,
    ensures
        obj_get(body_of(l, nl, e), l[i].0) == combined(l[i].1, nl[j].1),
        field_of(nl, l[i].0) == nl[j].1,
        obj_get(put_all(l, 14), nl[j].0) == l[i].1,
{
    body_is_assembled(l, nl, e, messages_request_keys());
    put_fields_are_read(l, 14, i);
    put_fields_are_read(nl, 6, j);
    assert(messages_request_keys().contains(l[i].0));
}

/// What a second parse finds in the body of a wire request.
spec fn found(
    q: MessagesRequestV,
    w: MessagesRequestV,
    limit: u32,
    model: Seq<char>,
    wire: Seq<JsonV>,
    prompt: Option<SystemPromptV>,
    tools: Option<Seq<JsonV>>,
) -> bool {
    &&& q.messages == wire
    &&& q.system == prompt
    &&& q.tools == tools
    &&& q.max_tokens == (if out_of_range(w.max_tokens) is Some { w.max_tokens } else { Some(limit as u64) })
    &&& q.top_k == w.top_k
    &&& q.stop_sequences == w.stop_sequences
    &&& match q.metadata {
        Some(m) => combined(some_object(ids_of(w)), some_object(metadata_data(w))) == Some(JsonV::Object(m)),
        None => combined(some_object(ids_of(w)), some_object(metadata_data(w))) is None,
    }
    &&& q.extra == swept(deduped(w.extra))
}

/// A finite number is written as the number that it is read as.
proof fn number_settles(n: Option<NumV>)
    requires
        is_finite(n),
        steady_number(n),
    ensures
        match float_of(n) {
            Some(j) => match j {
                JsonV::Number(x) => num_as_float(x) == Some(x) && float_of(Some(x)) == float_of(n) && steady_number(Some(x))
                    && is_finite(Some(x)),
                _ => false,
            },
            None => n is None,
        },
{
}

/// The body of a wire request is decoded member by member.
proof fn body_is_decoded(
    w: MessagesRequestV,
    limit: u32,
    model: Seq<char>,
    streaming: bool,
    system: Option<JsonV>,
    prompt: Option<SystemPromptV>,
    wire: Seq<JsonV>,
    tools: Option<Seq<JsonV>>,
)
    requires
        extras_apart(w),
        steady_config(w),
        is_finite(w.temperature),
        is_finite(w.top_p),
        prompt_is(system, prompt),
    ensures
        ({
            let o = body_of(
                body_fields(w, limit, model, streaming, system, wire, tools),
                data_fields(w),
                deduped(w.extra),
            );
            match decode_messages_request(JsonV::Object(o)) {
                Ok(q) => {
                    &&& found(q, w, limit, model, wire, prompt, tools)
                    &&& float_of(q.temperature) == float_of(w.temperature)
                    &&& float_of(q.top_p) == float_of(w.top_p)
                    &&& is_finite(q.temperature) && is_finite(q.top_p)
                    &&& steady_number(q.temperature) && steady_number(q.top_p)
                    &&& q.stream == (if streaming { Some(true) } else { None })
                    &&& opt_tool_choice_param(o, "tool_choice"@) == Ok::<Option<ToolChoiceParamV>, Seq<char>>(q.tool_choice)
                    &&& obj_get(o, "tool_choice"@) == combined(
                        choice_field(w.tool_choice, has_tools(w)),
                        choice_data_field(w.tool_choice),
                    )
                    &&& opt_thinking_config(o, "thinking"@) == Ok::<Option<ThinkingConfigV>, Seq<char>>(q.thinking)
                    &&& obj_get(o, "thinking"@) == combined(thinking_field(w), thinking_data_field(w))
                    &&& opt_output_config(o, "output_config"@) == Ok::<Option<OutputConfigV>, Seq<char>>(q.output_config)
                    &&& obj_get(o, "output_config"@) == combined(
                        some_object(put_all(output_list(effort_out(wire_effort(w)), format_of(wire_format(w))), 2)),
                        some_object(config_data(wire_format(w), config_extra(w))),
                    )
                },
                Err(_) => false,
            }
        }),
{
    let l = body_fields(w, limit, model, streaming, system, wire, tools);
    let nl = data_fields(w);
    let e = deduped(w.extra);
    let o = body_of(l, nl, e);
    let known = messages_request_keys();
    let n = request_names();
    assert(n[1] == "max_tokens"@ && n[8] == "top_k"@ && n[4] == "metadata"@ && n[11] == "tool_choice"@ && n[12]
        == "thinking"@ && n[13] == "output_config"@);
    request_is_sound(w, limit, model, streaming, system, wire, tools);
    assert forall|i: int| 0 <= i < 14 implies (#[trigger] l[i]).0 == n[i] by {}
    assert forall|x: MessagesRequestV, j: int| 0 <= j < 6 implies (#[trigger] nl[j]).0 == (#[trigger] data_fields(x))[j].0 by {}
    body_is_assembled(l, nl, e, known);
    field_value(l, nl, e, 0);
    field_value(l, nl, e, 2);
    field_value(l, nl, e, 3);
    field_value(l, nl, e, 5);
    field_value(l, nl, e, 6);
    field_value(l, nl, e, 7);
    field_value(l, nl, e, 9);
    field_value(l, nl, e, 10);
    data_value(l, nl, e, 1, 0);
    data_value(l, nl, e, 8, 1);
    data_value(l, nl, e, 4, 2);
    data_value(l, nl, e, 11, 3);
    data_value(l, nl, e, 12, 4);
    data_value(l, nl, e, 13, 5);
    number_settles(w.temperature);
    number_settles(w.top_p);
    if let Some(v) = w.stop_sequences {
        strings_round_trip(v, v.len());
        assert(v.take(v.len() as int) =~= v);
    }
    choice_settles(w.tool_choice, has_tools(w));
    thinking_field_settles(w);
    config_settles(effort_out(wire_effort(w)), wire_format(w), config_extra(w));
    assert(opt_str(o, "model"@) is Ok);
    assert(default_values(o, "messages"@) == Ok::<Seq<JsonV>, Seq<char>>(wire));
    assert(opt_u64(o, "max_tokens"@) == Ok::<Option<u64>, Seq<char>>(
        if out_of_range(w.max_tokens) is Some { w.max_tokens } else { Some(limit as u64) },
    ));
    assert(opt_system_prompt(o, "system"@) == Ok::<Option<SystemPromptV>, Seq<char>>(prompt));
    metadata_is_read(w, o);
    assert(opt_strings(o, "stop_sequences"@) == Ok::<Option<Seq<Seq<char>>>, Seq<char>>(w.stop_sequences));
    assert(opt_bool(o, "stream"@) == Ok::<Option<bool>, Seq<char>>(if streaming { Some(true) } else { None }));
    assert(opt_u64(o, "top_k"@) == Ok::<Option<u64>, Seq<char>>(w.top_k));
    assert(opt_values(o, "tools"@) == Ok::<Option<Seq<JsonV>>, Seq<char>>(tools));
    assert(decode::opt_float(o, "temperature"@) is Ok);
    assert(decode::opt_float(o, "top_p"@) is Ok);
}

proof fn metadata_is_read(w: MessagesRequestV, o: ObjV)
    requires
        obj_get(o, "metadata"@) == combined(some_object(ids_of(w)), some_object(metadata_data(w))),
    ensures
        match opt_object(o, "metadata"@) {
            Ok(Some(m)) => combined(some_object(ids_of(w)), some_object(metadata_data(w))) == Some(JsonV::Object(m)),
            Ok(None) => combined(some_object(ids_of(w)), some_object(metadata_data(w))) is None,
            Err(_) => false,
        },
{
    if let Some(m) = w.metadata {
        metadata_settles(m);
    }
}

/// A thinking configuration in its canonical form keeps it.
proof fn thinking_field_settles(w: MessagesRequestV)
    requires
        extras_apart(w),
    ensures
        match combined(thinking_field(w), thinking_data_field(w)) {
            Some(j) => !(j is Null) && w.thinking is Some && match decode_thinking_config(j) {
                Ok(q) => {
                    &&& q.kind == (w.thinking->0).kind
                    &&& known_thinking(q) == known_thinking(w.thinking->0)
                    &&& avoids(q.extra, thinking_config_keys())
                    &&& known_thinking(q) ==> Some(JsonV::Object(thinking_object(q))) == thinking_field(w)
                    &&& !known_thinking(q) ==> combined(None, Some(encode_thinking_config(q))) == Some(j)
                },
                Err(_) => false,
            },
            None => thinking_field(w) is None && thinking_data_field(w) is None,
        },
{
    if let Some(t) = w.thinking {
        if known_thinking(t) {
            thinking_settles(t);
        } else {
            unknown_thinking_settles(t);
        }
    }
}

/// What a second parse finds becomes the same fields and data, combined.
proof fn found_settles(
    w: MessagesRequestV,
    q: MessagesRequestV,
    limit: u32,
    model: Seq<char>,
    streaming: bool,
    system: Option<JsonV>,
    prompt: Option<SystemPromptV>,
    wire: Seq<JsonV>,
    tools: Option<Seq<JsonV>>,
)
    requires
        extras_apart(w),
        steady_config(w),
        is_finite(w.temperature),
        is_finite(w.top_p),
        prompt_is(system, prompt),
        has_tools(w) == (tools is Some && tools->0.len() > 0),
        decode_messages_request(
            JsonV::Object(
                body_of(
                    body_fields(w, limit, model, streaming, system, wire, tools),
                    data_fields(w),
                    deduped(w.extra),
                ),
            ),
        ) == Ok::<MessagesRequestV, Seq<char>>(q),
    ensures
        extras_apart(q),
        steady_config(q),
        is_finite(q.temperature) && is_finite(q.top_p),
        q.messages == wire && q.system == prompt && q.tools == tools,
        q.max_tokens == (if out_of_range(w.max_tokens) is Some { w.max_tokens } else { Some(limit as u64) }),
        body_of(
            body_fields(q, limit, model, streaming, system, wire, tools),
            data_fields(q),
            deduped(q.extra),
        ) == body_of(
            body_fields(w, limit, model, streaming, system, wire, tools),
            data_fields(w),
            deduped(w.extra),
        ),
{
    let none = Seq::<(Seq<char>, JsonV)>::empty();
    let l = body_fields(w, limit, model, streaming, system, wire, tools);
    let nl = data_fields(w);
    let e = deduped(w.extra);
    let o = body_of(l, nl, e);
    body_is_decoded(w, limit, model, streaming, system, prompt, wire, tools);
    decoded_extras_are_apart(JsonV::Object(o));
    let l2 = body_fields(q, limit, model, streaming, system, wire, tools);
    let nl2 = data_fields(q);
    let e2 = deduped(q.extra);
    swept_is_deduped(e);
    request_is_sound(w, limit, model, streaming, system, wire, tools);
    request_is_sound(q, limit, model, streaming, system, wire, tools);
    metadata_agrees(w, q);
    assert(has_tools(q) == has_tools(w));
    choice_agrees(w, q, o);
    config_agrees(w, q, o);
    thinking_agrees(w, q, o);
    assert(q.top_k == w.top_k);
    assert(combined(l2[1].1, nl2[0].1) == combined(l[1].1, nl[0].1));
    assert forall|i: int| 0 <= i < 14 implies (#[trigger] l[i]).0 == request_names()[i] && l2[i].0 == request_names()[i] by {}
    everything_agrees(w, q, l, nl, e, l2, nl2, e2);
}

proof fn metadata_agrees(w: MessagesRequestV, q: MessagesRequestV)
    requires
        match q.metadata {
            Some(m) => combined(some_object(ids_of(w)), some_object(metadata_data(w))) == Some(JsonV::Object(m)),
            None => combined(some_object(ids_of(w)), some_object(metadata_data(w))) is None,
        },
    ensures
        ids_of(q) == ids_of(w),
        combined(some_object(ids_of(q)), some_object(metadata_data(q))) == combined(
            some_object(ids_of(w)),
            some_object(metadata_data(w)),
        ),
{
    let none = Seq::<(Seq<char>, JsonV)>::empty();
    if let Some(m) = w.metadata {
        metadata_settles(m);
    }
    if q.metadata is None {
        assert(ids_of(w) =~= none);
    }
}

proof fn choice_agrees(w: MessagesRequestV, q: MessagesRequestV, o: ObjV)
    requires
        extras_apart(w),
        steady_config(w),
        has_tools(q) == has_tools(w),
        opt_tool_choice_param(o, "tool_choice"@) == Ok::<Option<ToolChoiceParamV>, Seq<char>>(q.tool_choice),
        obj_get(o, "tool_choice"@) == combined(
            choice_field(w.tool_choice, has_tools(w)),
            choice_data_field(w.tool_choice),
        ),
    ensures
        combined(choice_field(q.tool_choice, has_tools(q)), choice_data_field(q.tool_choice)) == combined(
            choice_field(w.tool_choice, has_tools(w)),
            choice_data_field(w.tool_choice),
        ),
        (choice_field(q.tool_choice, has_tools(q)) is Some) == (choice_field(w.tool_choice, has_tools(w)) is Some),
        match q.tool_choice {
            Some(tc) => choice_of(tc) is Some && !has_tools(q) ==> choice_rest(tc).len() == 0,
            None => true,
        },
{
    choice_settles(w.tool_choice, has_tools(w));
}

proof fn config_agrees(w: MessagesRequestV, q: MessagesRequestV, o: ObjV)
    requires
        extras_apart(w),
        opt_output_config(o, "output_config"@) == Ok::<Option<OutputConfigV>, Seq<char>>(q.output_config),
        obj_get(o, "output_config"@) == combined(
            some_object(put_all(output_list(effort_out(wire_effort(w)), format_of(wire_format(w))), 2)),
            some_object(config_data(wire_format(w), config_extra(w))),
        ),
    ensures
        ({
            let l = output_list(effort_out(wire_effort(w)), format_of(wire_format(w)));
            let l2 = output_list(effort_out(wire_effort(q)), format_of(wire_format(q)));
            &&& (put_all(l2, 2).len() > 0) == (put_all(l, 2).len() > 0)
            &&& combined(some_object(put_all(l2, 2)), some_object(config_data(wire_format(q), config_extra(q))))
                == combined(some_object(put_all(l, 2)), some_object(config_data(wire_format(w), config_extra(w))))
        }),
        effort_out(wire_effort(q)) == effort_out(wire_effort(w)),
        wire_effort(q) is Some ==> wire_effort(q) == wire_effort(w),
{
    config_settles(effort_out(wire_effort(w)), wire_format(w), config_extra(w));
    effort_is_kept(w, q);
    no_config(q);
}

proof fn thinking_agrees(w: MessagesRequestV, q: MessagesRequestV, o: ObjV)
    requires
        extras_apart(w),
        opt_thinking_config(o, "thinking"@) == Ok::<Option<ThinkingConfigV>, Seq<char>>(q.thinking),
        obj_get(o, "thinking"@) == combined(thinking_field(w), thinking_data_field(w)),
        wire_effort(q) is Some ==> wire_effort(q) == wire_effort(w),
    ensures
        !in_conflict(q),
        combined(thinking_field(q), thinking_data_field(q)) == combined(thinking_field(w), thinking_data_field(w)),
        (thinking_field(q) is Some) == (thinking_field(w) is Some),
{
    thinking_field_settles(w);
    no_new_conflict(w, q);
}

/// Without an output configuration there is nothing to write of one.
proof fn no_config(q: MessagesRequestV)
    ensures
        q.output_config is None ==> some_object(config_data(wire_format(q), config_extra(q))) is None && some_object(
            put_all(output_list(effort_out(wire_effort(q)), format_of(wire_format(q))), 2),
        ) is None,
{
    if q.output_config is None {
        let none = Seq::<(Seq<char>, JsonV)>::empty();
        let nl = format_data(None);
        assert(put_all(nl, 1) == put_if(put_all(nl, 0), nl[0].0, nl[0].1));
        assert(deduped(none) == none);
        let l = output_list(None, None);
        assert(put_all(l, 2) == put_if(put_all(l, 1), l[1].0, l[1].1));
        assert(put_all(l, 1) == put_if(put_all(l, 0), l[0].0, l[0].1));
        assert(effort_out(wire_effort(q)) is None);
    }
}

/// The effort tier that is written is the one that is read.
proof fn effort_is_kept(w: MessagesRequestV, q: MessagesRequestV)
    requires
        match q.output_config {
            Some(oc) => oc.effort == effort_out(wire_effort(w)),
            None => effort_out(wire_effort(w)) is None,
        },
    ensures
        effort_out(wire_effort(q)) == effort_out(wire_effort(w)),
        wire_effort(q) is Some ==> wire_effort(q) == wire_effort(w) && effort_out(wire_effort(w)) is Some,
{
    efforts_are_named();
}

/// A thinking configuration that is written is not contradicted afterwards.
proof fn no_new_conflict(w: MessagesRequestV, q: MessagesRequestV)
    requires
        wire_effort(q) is Some ==> wire_effort(q) == wire_effort(w),
        match q.thinking {
            Some(t) => w.thinking is Some && t.kind == (w.thinking->0).kind && (known_thinking(t) ==> thinking_field(w) is Some),
            None => true,
        },
    ensures
        !in_conflict(q),
{
}

/// Field by field and data field by data field, two wire requests become the
/// same.
proof fn everything_agrees(
    w: MessagesRequestV,
    q: MessagesRequestV,
    l: FieldsV,
    nl: FieldsV,
    e: ObjV,
    l2: FieldsV,
    nl2: FieldsV,
    e2: ObjV,
)
    requires
        sound(l, nl, e, messages_request_keys()),
        sound(l2, nl2, e2, messages_request_keys()),
        l.len() == 14 && l2.len() == 14 && nl.len() == 6 && nl2.len() == 6,
        forall|i: int| 0 <= i < 14 ==> (#[trigger] l[i]).0 == request_names()[i] && l2[i].0 == request_names()[i],
        nl == data_fields(w),
        nl2 == data_fields(q),
        forall|i: int|
            0 <= i < 14 && i != 1 && i != 4 && i != 8 && i != 11 && i != 12 && i != 13 ==> (#[trigger] l[i]).1 == l2[i].1,
        combined(l[1].1, nl[0].1) == combined(l2[1].1, nl2[0].1),
        combined(l[8].1, nl[1].1) == combined(l2[8].1, nl2[1].1),
        combined(l[4].1, nl[2].1) == combined(l2[4].1, nl2[2].1),
        combined(l[11].1, nl[3].1) == combined(l2[11].1, nl2[3].1),
        combined(l[12].1, nl[4].1) == combined(l2[12].1, nl2[4].1),
        combined(l[13].1, nl[5].1) == combined(l2[13].1, nl2[5].1),
        (l[1].1 is Some) == (l2[1].1 is Some),
        (l[8].1 is Some) == (l2[8].1 is Some),
        (l[4].1 is Some) == (l2[4].1 is Some),
        (l[11].1 is Some) == (l2[11].1 is Some),
        (l[12].1 is Some) == (l2[12].1 is Some),
        (l[13].1 is Some) == (l2[13].1 is Some),
        swept(e) == swept(e2),
    ensures
        body_of(l, nl, e) == body_of(l2, nl2, e2),
{
    let known = messages_request_keys();
    let n = request_names();
    assert(n[1] == "max_tokens"@ && n[8] == "top_k"@ && n[4] == "metadata"@ && n[11] == "tool_choice"@ && n[12]
        == "thinking"@ && n[13] == "output_config"@);
    assert forall|x: MessagesRequestV, j: int| 0 <= j < 6 implies (#[trigger] nl[j]).0 == (#[trigger] data_fields(x))[j].0 by {}
    assert forall|x: MessagesRequestV, j: int| 0 <= j < 6 implies (#[trigger] nl2[j]).0 == (#[trigger] data_fields(x))[j].0 by {}
    assert forall|i: int| 0 <= i < 14 implies (#[trigger] l2[i]).0 == n[i] by {
        assert(l[i].0 == n[i]);
    }
    data_value(l, nl, e, 1, 0);
    data_value(l, nl, e, 8, 1);
    data_value(l, nl, e, 4, 2);
    data_value(l, nl, e, 11, 3);
    data_value(l, nl, e, 12, 4);
    data_value(l, nl, e, 13, 5);
    data_value(l2, nl2, e2, 1, 0);
    data_value(l2, nl2, e2, 8, 1);
    data_value(l2, nl2, e2, 4, 2);
    data_value(l2, nl2, e2, 11, 3);
    data_value(l2, nl2, e2, 12, 4);
    data_value(l2, nl2, e2, 13, 5);
    assert forall|i: int| 0 <= i < l.len() implies (#[trigger] l[i]).0 == l2[i].0 && (l[i].1 is Some) == (l2[i].1 is Some)
        && combined(l[i].1, field_of(nl, l[i].0)) == combined(l2[i].1, field_of(nl2, l[i].0)) by {
        if i != 1 && i != 4 && i != 8 && i != 11 && i != 12 && i != 13 {
            field_value(l, nl, e, i);
            field_value(l2, nl2, e2, i);
        }
    }
    assert forall|j: int| 0 <= j < nl.len() implies (#[trigger] nl[j]).0 == nl2[j].0 && combined(
        obj_get(put_all(l, l.len()), nl[j].0),
        nl[j].1,
    ) == combined(obj_get(put_all(l2, l2.len()), nl[j].0), nl2[j].1) by {
        let place = seq![1int, 8, 4, 11, 12, 13];
        assert(nl[j].0 == n[place[j]]);
    }
    bodies_agree(l, nl, e, l2, nl2, e2, known);
}

/// The message that a system prompt becomes when it holds more than text.
pub open spec fn lead_of(p: Option<SystemPromptV>) -> Seq<MessageV> {
    match p {
        Some(p) => if all_text(prompt_blocks(p)) {
            Seq::empty()
        } else {
            seq![plain_message(Role::System, prompt_blocks(p))]
        },
        None => Seq::empty(),
    }
}

/// The system prompt of a wire request in canonical form.
pub open spec fn canonical_system(w: MessagesRequestV) -> Option<JsonV> {
    match w.system {
        Some(p) => canonical_blocks(prompt_blocks(p)),
        None => None,
    }
}

/// The request has the history and the system prompt of the wire request.
spec fn has_content(r: RequestV, w: MessagesRequestV) -> bool {
    &&& r.messages == history_of(lead_of(w.system), turns_of(w.messages), w.messages.len()).0
    &&& r.system == match w.system {
        Some(p) => if all_text(prompt_blocks(p)) && prompt_blocks(p).len() > 0 { Some(prompt_blocks(p)) } else { None },
        None => None,
    }
}

proof fn parsed_content(w: MessagesRequestV)
    ensures
        has_content(request_of(w).0, w),
{
    let none = Seq::<ConversionWarningV>::empty();
    let ws2 = u32_mirrored(
        w.top_k,
        "top_k"@,
        u32_mirrored(w.max_tokens, "max_tokens"@, Seq::empty(), none).1,
        u32_mirrored(w.max_tokens, "max_tokens"@, Seq::empty(), none).2,
    ).2;
    let lead = lead_of(w.system);
    match w.system {
        Some(p) => {
            prompt_is_parsed(p, ws2);
            prompt_is_parsed(p, none);
            messages_are_turns(lead, w.messages, system_channel(p, ws2).1, w.messages.len());
            messages_are_turns(lead, w.messages, system_channel(p, none).1, w.messages.len());
        },
        None => {
            messages_are_turns(lead, w.messages, ws2, w.messages.len());
            messages_are_turns(lead, w.messages, none, w.messages.len());
        },
    }
}

/// The history is small enough to be counted.
pub open spec fn countable(w: MessagesRequestV) -> bool {
    wire_size(w.messages, w.messages.len()) < usize::MAX
}

/// The options repair and rearrange nothing.
pub open spec fn leaves_alone(opts: AnthropicOptionsV, conv: ConvertOptionsV) -> bool {
    &&& !opts.downgrade_mid_system
    &&& !opts.merge_consecutive_roles
    &&& conv.orphan_tool_calls == OrphanToolCalls::Passthrough
    &&& conv.fill_missing_thinking is None
}

/// The body of a request is made of the canonical forms of its content.
proof fn content_is_written(
    r: RequestV,
    w: MessagesRequestV,
    limit: u32,
    model: Seq<char>,
    opts: AnthropicOptionsV,
    conv: ConvertOptionsV,
    streaming: bool,
) -> (out: (WireV, Seq<PendingV>))
    requires
        has_content(r, w),
        steady_messages(w.messages, conv.thinking_as_text),
        countable(w),
        leaves_alone(opts, conv),
        token_limit(r, opts) == Some(limit),
        sampling_check(r.temperature, r.top_p, r.frequency_penalty, r.presence_penalty) is Ok,
    ensures
        match chat_body(r, model, opts, conv, streaming) {
            Ok(b) => {
                &&& canonical_messages(w.messages, conv.thinking_as_text, w.messages.len()) == Some(out.0.wire)
                &&& b == body_end(r, streaming, body_start(model, limit, canonical_system(w)), out.0, out.1)
            },
            Err(_) => canonical_messages(w.messages, conv.thinking_as_text, w.messages.len()) is None,
        },
{
    let lead = lead_of(w.system);
    let turns = turns_of(w.messages);
    let n = w.messages.len();
    let msgs = r.messages;
    let notes = prepared(r, conv).1;
    assert(prepared(r, conv).0 == msgs);
    history_is_bounded(lead, w.messages, n);
    assert(leads(lead)) by {
        if lead.len() > 0 {
            assert(!in_array(lead[0].round_trip));
        }
    }
    assert forall|i: int| 0 <= i < turns.len() implies apart_entry(#[trigger] turns[i]) by {
        steady_messages_stay_apart(w.messages[i], conv.thinking_as_text);
    }
    history_is_laid_out(lead, turns, notes, n);
    let plans = plans_of(lead, turns, n);
    let hoisted = lead_places(lead);
    assert(planned(msgs, notes, opts) == (hoisted, plans, notes));
    history_grows(lead, turns, 0, n);
    match w.system {
        Some(p) => {
            let blocks = prompt_blocks(p);
            prompts_have_system_blocks(p);
            if all_text(blocks) {
                assert(hoisted =~= Seq::<usize>::empty());
                if blocks.len() > 0 {
                    text_prompt_is_written(blocks, msgs, empty_sink());
                }
            } else {
                assert(hoisted =~= seq![0usize]);
                assert(msgs.take(1)[0] == lead[0]);
                leading_prompt_is_written(blocks, msgs, empty_sink());
            }
        },
        None => {
            assert(hoisted =~= Seq::<usize>::empty());
        },
    }
    let (system, s) = system_value(r.system, msgs, hoisted, empty_sink())->Ok_0;
    assert(system == canonical_system(w));
    let st = wire_start(msgs.len(), s);
    history_is_written(lead, w.messages, st, conv.thinking_as_text, n);
    match wire_messages(st, plans, msgs, conv.thinking_as_text, n) {
        Ok(x) => (x, notes),
        Err(_) => (st, notes),
    }
}

/// A body that keeps its canonical form: so do its messages, its tool
/// definitions and its configuration.
pub open spec fn steady_request(w: MessagesRequestV, as_text: bool) -> bool {
    &&& steady_messages(w.messages, as_text)
    &&& countable(w)
    &&& match w.tools {
        Some(a) => forall|i: int| 0 <= i < a.len() ==> steady_tool(#[trigger] a[i]),
        None => true,
    }
    &&& steady_config(w)
}

/// Passing a request body through the IR canonicalizes it, and then changes
/// nothing more: what the body of a parsed request is parsed to becomes the same
/// body again, whatever is modeled of it and whatever warnings it raises.
/// `steady_request` says which bodies are left out.
pub proof fn canonical_form_is_stable(
    j: JsonV,
    model: Seq<char>,
    opts: AnthropicOptionsV,
    conv: ConvertOptionsV,
    streaming: bool,
)
    requires
        parsed_request(j) is Ok,
        steady_request(decode_messages_request(j)->Ok_0, conv.thinking_as_text),
        leaves_alone(opts, conv),
        chat_body(parsed_request(j)->Ok_0.0, model, opts, conv, streaming) is Ok,
    ensures
        ({
            let first = chat_body(parsed_request(j)->Ok_0.0, model, opts, conv, streaming)->Ok_0;
            let again = chat_body(parsed_request(first.body)->Ok_0.0, model, opts, conv, streaming);
            &&& parsed_request(first.body) is Ok
            &&& again is Ok
            &&& again->Ok_0.body == first.body
        }),
{
    let w = decode_messages_request(j)->Ok_0;
    let r = request_of(w).0;
    let as_text = conv.thinking_as_text;
    decoded_extras_are_apart(j);
    parsed_content(w);
    parsed_data(w);
    let limit = token_limit(r, opts)->0;
    let (x, pending) = content_is_written(r, w, limit, model, opts, conv, streaming);
    messages_settle(w.messages, as_text, w.messages.len());
    let system = canonical_system(w);
    let prompt = prompt_of(system);
    if let Some(p) = w.system {
        prompt_settles(p);
    }
    let tools = canonical_tools(w);
    body_is_built(w, limit, model, streaming, system, x, pending);
    let l = body_fields(w, limit, model, streaming, system, x.wire, tools);
    let o = body_of(l, data_fields(w), deduped(w.extra));
    body_is_decoded(w, limit, model, streaming, system, prompt, x.wire, tools);
    let q = decode_messages_request(JsonV::Object(o))->Ok_0;
    found_settles(w, q, limit, model, streaming, system, prompt, x.wire, tools);
    let r2 = request_of(q).0;
    parsed_content(q);
    parsed_data(q);
    if let Some(a) = w.tools {
        tools_settle(a);
    }
    assert(canonical_tools(q) == tools);
    assert(canonical_system(q) == system);
    assert(token_limit(r2, opts) == Some(limit));
    let (x2, pending2) = content_is_written(r2, q, limit, model, opts, conv, streaming);
    assert(x2.wire == x.wire);
    body_is_built(q, limit, model, streaming, system, x2, pending2);
}

/// The same of bytes: the bytes of a body that went through the IR once are
/// parsed to a request with the same body again. The body has to be one that is
/// read as it is written.
pub proof fn canonical_bytes_are_stable(
    bytes: Seq<u8>,
    model: Seq<char>,
    opts: AnthropicOptionsV,
    conv: ConvertOptionsV,
    streaming: bool,
)
    requires
        request_outcome(bytes) is Ok,
        steady_request(decode_messages_request(json_from_slice(bytes)->Ok_0)->Ok_0, conv.thinking_as_text),
        leaves_alone(opts, conv),
        chat_body(request_outcome(bytes)->Ok_0.0, model, opts, conv, streaming) is Ok,
        ({
            let body = chat_body(request_outcome(bytes)->Ok_0.0, model, opts, conv, streaming)->Ok_0.body;
            json_from_slice(json_to_bytes(body)) == Ok::<JsonV, Seq<char>>(body)
        }),
    ensures
        ({
            let body = chat_body(request_outcome(bytes)->Ok_0.0, model, opts, conv, streaming)->Ok_0.body;
            let second = request_outcome(json_to_bytes(body));
            let again = chat_body(second->Ok_0.0, model, opts, conv, streaming);
            &&& second is Ok
            &&& again is Ok
            &&& again->Ok_0.body == body
        }),
{
    canonical_form_is_stable(json_from_slice(bytes)->Ok_0, model, opts, conv, streaming);
}

} // verus!
