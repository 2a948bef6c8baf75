//! Laws: the configuration of a request is read back from the fields that it
//! becomes.

use vstd::prelude::*;
use crate::decode::unknown;
use crate::mirror::{mirrored2, mirrored_map2, mirrored_map3};
use crate::convert::ConversionWarningV;
use crate::format::ANTHROPIC_MESSAGES;
use crate::formats::anthropic_messages::blocks::{cache_control, with_cache};
use crate::formats::anthropic_messages::from_ir::{choice_value, effort_out, function_tool, thinking_config, tool_step, tool_values};
use crate::formats::anthropic_messages::parse_blocks::type_of;
use crate::formats::anthropic_messages::round_trip::{hinted, node_data, node_survives, plain_block, text_round_trip};
use crate::formats::anthropic_messages::round_trip_messages::plain_blocks;
use crate::formats::anthropic_messages::system::{entry_values, prompt_entries, system_value, text_entry, EntryV};
use crate::formats::anthropic_messages::to_ir::{all_text, noted_extra, noted_extras, parsed_choice, parsed_output, parsed_thinking, parsed_tool, parsed_tools, system_channel, system_entries, thinking_off, thinking_on, with_effort};
use crate::formats::anthropic_messages::types::{decode_output_config, decode_output_format_config, decode_system_prompt, decode_thinking_config, decode_tool_choice_param, function_tool_param_keys, output_config_keys, output_format_config_keys, thinking_config_keys, tool_choice_param_keys, OutputFormatConfigV, ThinkingConfigV};
use crate::ir::{effort_name, effort_named, extra_get, extra_index_from, extra_merged, extra_ns, text_block, ContentBlockV, EffortV, ExtraV, FunctionToolV, MessageV, OutputFormatV, ReasoningV, Role, ToolChoiceV, ToolV};
use crate::json::{json_int, obj_get, obj_index_props, obj_set, object2, put_if, with_member, JsonV, ObjV};
use crate::merge::{merge_members, merged};
use crate::namespaces::{absent, absent_is_not_read, avoids, clean, data_under, fields_are_read, first_named_is_read, front_members_are_read, member_is_not_null, merges_in_turn, namespace_holds_its_members, new_members_are_appended, put_all, put_fields_are_distinct, put_fields_are_known, put_fields_are_named, put_fields_are_read, there, levels_apart, levels_are_merged, unmodeled_members_are_kept, within};
use crate::sink::SinkV;
use crate::text::decimal;

verus! {

pub proof fn field_names()
    ensures
        "name"@ != "description"@,
        "name"@ != "input_schema"@,
        "name"@ != "strict"@,
        "name"@ != "cache_control"@,
        "name"@ != "type"@,
        "description"@ != "input_schema"@,
        "description"@ != "strict"@,
        "description"@ != "cache_control"@,
        "description"@ != "type"@,
        "input_schema"@ != "strict"@,
        "input_schema"@ != "cache_control"@,
        "input_schema"@ != "type"@,
        "strict"@ != "cache_control"@,
        "strict"@ != "type"@,
        "cache_control"@ != "type"@,
        "disable_parallel_tool_use"@ != "type"@,
        "disable_parallel_tool_use"@ != "name"@,
        "display"@ != "type"@,
        "display"@ != "budget_tokens"@,
        "budget_tokens"@ != "type"@,
        "schema"@ != "type"@,
        "effort"@ != "format"@,
{
    reveal_strlit("name");
    reveal_strlit("description");
    reveal_strlit("input_schema");
    reveal_strlit("strict");
    reveal_strlit("cache_control");
    reveal_strlit("type");
    reveal_strlit("disable_parallel_tool_use");
    reveal_strlit("display");
    reveal_strlit("budget_tokens");
    reveal_strlit("schema");
    reveal_strlit("effort");
    reveal_strlit("format");
    assert("name"@[0] == 'n' && "type"@[0] == 't' && "effort"@[0] == 'e' && "format"@[0] == 'f');
    assert("name"@.len() == 4 && "description"@.len() == 11 && "input_schema"@.len() == 12 && "strict"@.len() == 6
        && "cache_control"@.len() == 13 && "type"@.len() == 4 && "disable_parallel_tool_use"@.len() == 25);
    assert("display"@.len() == 7 && "budget_tokens"@.len() == 13 && "schema"@.len() == 6);
}

/// A tool that this format can carry.
pub open spec fn plain_tool(t: ToolV) -> bool {
    match t {
        ToolV::Function(f) => {
            let kind = type_of(JsonV::Object(extra_ns(f.extra, ANTHROPIC_MESSAGES@)));
            &&& f.parameters is Some
            &&& node_data(f.extra, f.cache, function_tool_param_keys())
            &&& kind is None || kind == Some("custom"@)
        },
        ToolV::Opaque { format, value } => {
            let kind = type_of(value);
            format == ANTHROPIC_MESSAGES@ && kind is Some && kind != Some("custom"@)
        },
    }
}

spec fn tool_list(f: FunctionToolV) -> Seq<(Seq<char>, Option<JsonV>)> {
    seq![
        ("name"@, Some(JsonV::Str(f.name))),
        (
            "description"@,
            match f.description {
                Some(d) => Some(JsonV::Str(d)),
                None => None,
            },
        ),
        ("input_schema"@, f.parameters),
        (
            "strict"@,
            match f.strict {
                Some(b) => Some(JsonV::Bool(b)),
                None => None,
            },
        ),
    ]
}

/// A tool is read back from the definition that it becomes.
pub proof fn tool_round_trip(t: ToolV, prev: (Seq<JsonV>, SinkV), at: nat, ws: Seq<ConversionWarningV>)
    requires
        plain_tool(t),
    ensures
        ({
            let (out, s) = tool_step(prev, t);
            &&& out.len() == prev.0.len() + 1
            &&& out.drop_last() == prev.0
            &&& s.warnings == prev.1.warnings
            &&& parsed_tool(out.last(), at, ws) == (t, ws)
        }),
{
    let (out, s) = tool_step(prev, t);
    assert(out.drop_last() =~= prev.0);
    match t {
        ToolV::Function(f) => {
            field_names();
            let known = function_tool_param_keys();
            let l = tool_list(f);
            let o = put_all(l, 4);
            assert(known[0] == "name"@ && known[1] == "description"@ && known[2] == "input_schema"@ && known[3]
                == "strict"@ && known[4] == "cache_control"@);
            assert forall|i: int| 0 <= i < l.len() implies known.contains((#[trigger] l[i]).0) by {
                assert(l[i].0 == known[i]);
            }
            assert(put_all(l, 1) == put_if(put_all(l, 0), l[0].0, l[0].1));
            assert(put_all(l, 2) == put_if(put_all(l, 1), l[1].0, l[1].1));
            assert(put_all(l, 3) == put_if(put_all(l, 2), l[2].0, l[2].1));
            assert(put_all(l, 4) == put_if(put_all(l, 3), l[3].0, l[3].1));
            assert(function_tool(f) == with_cache(JsonV::Object(o), f.cache));
            put_fields_are_known(l, 4, known);
            put_fields_are_named(l, 4, "cache_control"@);
            put_fields_are_named(l, 4, "type"@);
            put_fields_are_distinct(l, 4);
            node_survives(o, f.cache, f.extra, known);
            let ns = extra_ns(f.extra, ANTHROPIC_MESSAGES@);
            let m = merged(hinted(o, f.cache), ns);
            assert(out.last() == JsonV::Object(m));
            assert forall|i: int| 0 <= i < l.len() implies obj_get(m, (#[trigger] l[i]).0) == l[i].1 by {
                put_fields_are_read(l, 4, i);
                assert(known.contains(l[i].0));
            }
            assert(obj_get(m, l[0].0) == l[0].1 && obj_get(m, l[1].0) == l[1].1 && obj_get(m, l[2].0) == l[2].1
                && obj_get(m, l[3].0) == l[3].1);
            assert(!known.contains("type"@));
            assert(type_of(JsonV::Object(m)) == type_of(JsonV::Object(ns)));
        },
        _ => {},
    }
}

proof fn tools_read_prefix(a: Seq<JsonV>, b: Seq<JsonV>, ws: Seq<ConversionWarningV>, n: nat)
    requires
        n <= a.len() <= b.len(),
        b.take(a.len() as int) == a,
    ensures
        parsed_tools(a, ws, n) == parsed_tools(b, ws, n),
    decreases n,
{
    if n > 0 {
        tools_read_prefix(a, b, ws, (n - 1) as nat);
        assert(a[n - 1] == b.take(a.len() as int)[n - 1]);
    }
}

/// The tools of a request are read back from the array that they become.
pub proof fn tools_round_trip(tools: Seq<ToolV>, s: SinkV, n: nat, ws: Seq<ConversionWarningV>)
    requires
        n <= tools.len(),
        forall|i: int| 0 <= i < tools.len() ==> plain_tool(#[trigger] tools[i]),
    ensures
        ({
            let (out, s1) = tool_values(tools, s, n);
            &&& out.len() == n
            &&& s1.warnings == s.warnings
            &&& parsed_tools(out, ws, n) == (tools.take(n as int), ws)
        }),
    decreases n,
{
    if n == 0 {
        assert(tools.take(0) =~= Seq::<ToolV>::empty());
    } else {
        let p = (n - 1) as nat;
        tools_round_trip(tools, s, p, ws);
        let prev = tool_values(tools, s, p);
        assert(plain_tool(tools[p as int]));
        tool_round_trip(tools[p as int], prev, p, ws);
        let out = tool_values(tools, s, n).0;
        assert(out.take(p as int) =~= out.drop_last());
        tools_read_prefix(prev.0, out, ws, p);
        assert(tools.take(p as int).push(tools[p as int]) =~= tools.take(n as int));
    }
}

/// A choice and a parallel-call setting that this format can carry.
pub open spec fn plain_choice(choice: Option<ToolChoiceV>, parallel: Option<bool>) -> bool {
    parallel is Some ==> choice is Some && !(choice->0 is Disabled)
}

/// The value of a choice with its parallel-call setting.
pub open spec fn choice_json(c: ToolChoiceV, parallel: Option<bool>) -> JsonV {
    match parallel {
        Some(p) => with_member(choice_value(c), "disable_parallel_tool_use"@, JsonV::Bool(!p)),
        None => choice_value(c),
    }
}

pub proof fn choice_kinds()
    ensures
        "auto"@ != "any"@,
        "auto"@ != "none"@,
        "auto"@ != "tool"@,
        "any"@ != "none"@,
        "any"@ != "tool"@,
        "none"@ != "tool"@,
{
    reveal_strlit("auto");
    reveal_strlit("any");
    reveal_strlit("none");
    reveal_strlit("tool");
    assert("auto"@[0] == 'a' && "none"@[0] == 'n' && "tool"@[0] == 't' && "any"@[0] == 'a');
    assert("auto"@.len() == 4 && "any"@.len() == 3);
}

/// The members of a choice with its parallel-call setting.
pub open spec fn choice_list(c: ToolChoiceV, parallel: Option<bool>) -> Seq<(Seq<char>, Option<JsonV>)> {
    seq![
        (
            "type"@,
            Some(
                JsonV::Str(
                    match c {
                        ToolChoiceV::Auto => "auto"@,
                        ToolChoiceV::Disabled => "none"@,
                        ToolChoiceV::Required => "any"@,
                        ToolChoiceV::Tool { name } => "tool"@,
                    },
                ),
            ),
        ),
        (
            "name"@,
            match c {
                ToolChoiceV::Tool { name } => Some(JsonV::Str(name)),
                _ => None,
            },
        ),
        (
            "disable_parallel_tool_use"@,
            match parallel {
                Some(p) => Some(JsonV::Bool(!p)),
                None => None,
            },
        ),
    ]
}

/// Data beside a tool choice that the wire keeps as it is. Where no call is
/// allowed, the setting for parallel calls is such data, and comes first.
pub open spec fn choice_data(c: Option<ToolChoiceV>, q: ObjV) -> bool {
    avoids(q, tool_choice_param_keys()) || (c == Some(ToolChoiceV::Disabled) && q.len() > 0 && q[0].0
        == "disable_parallel_tool_use"@ && q[0].1 is Bool && avoids(q.skip(1), tool_choice_param_keys()))
}

proof fn mirrored_from_the_second(root: ObjV, a: Seq<char>, q: ObjV, n: nat)
    requires
        0 < n <= q.len(),
    ensures
        mirrored_map2(root, a, q, n) == mirrored_map2(
            mirrored2(root, a, q[0].0, q[0].1),
            a,
            q.skip(1),
            (n - 1) as nat,
        ),
    decreases n,
{
    if n > 1 {
        mirrored_from_the_second(root, a, q, (n - 1) as nat);
        assert(q.skip(1)[n - 2] == q[n - 1]);
    } else {
        assert(mirrored_map2(root, a, q, 0) == root);
    }
}

/// The setting for parallel calls beside a choice of none is read back.
proof fn flagged_choice_round_trip(q: ObjV, root: ObjV, ws: Seq<ConversionWarningV>)
    requires
        choice_data(Some(ToolChoiceV::Disabled), q),
        !avoids(q, tool_choice_param_keys()),
    ensures
        ({
            let o = seq![("type"@, JsonV::Str("none"@))];
            match decode_tool_choice_param(JsonV::Object(o + q)) {
                Ok(tc) => parsed_choice(tc, root, ws) == (
                    Some(ToolChoiceV::Disabled),
                    None::<bool>,
                    mirrored_map2(root, "tool_choice"@, q, q.len()),
                    ws,
                ),
                Err(_) => false,
            }
        }),
{
    field_names();
    choice_kinds();
    let known = tool_choice_param_keys();
    assert(known[0] == "type"@ && known[1] == "name"@ && known[2] == "disable_parallel_tool_use"@);
    let o = seq![("type"@, JsonV::Str("none"@))];
    let head = o.push(q[0]);
    let rest = q.skip(1);
    assert(o + q =~= head + rest);
    assert(within(head, known));
    unmodeled_members_are_kept(head, rest, known);
    there(head, rest, "type"@, 0);
    there(head, rest, "disable_parallel_tool_use"@, 1);
    front_members_are_read(head, rest, known, "name"@);
    absent_is_not_read(head, "name"@, JsonV::Null);
    mirrored_from_the_second(root, "tool_choice"@, q, q.len());
}

/// A tool choice and the parallel-call setting are read back from the object
/// that they become, and so is the data beside them.
pub proof fn tool_choice_round_trip(
    c: ToolChoiceV,
    parallel: Option<bool>,
    q: ObjV,
    root: ObjV,
    ws: Seq<ConversionWarningV>,
)
    requires
        plain_choice(Some(c), parallel),
        choice_data(Some(c), q),
    ensures
        ({
            let o = put_all(choice_list(c, parallel), 3);
            &&& choice_json(c, parallel) == JsonV::Object(o)
            &&& within(o, tool_choice_param_keys())
            &&& match decode_tool_choice_param(JsonV::Object(o + q)) {
                Ok(tc) => parsed_choice(tc, root, ws) == (
                    Some(c),
                    parallel,
                    mirrored_map2(root, "tool_choice"@, q, q.len()),
                    ws,
                ),
                Err(_) => false,
            }
        }),
{
    field_names();
    choice_kinds();
    let known = tool_choice_param_keys();
    let l = choice_list(c, parallel);
    let kind = l[0].1->0;
    assert(known[0] == "type"@ && known[1] == "name"@ && known[2] == "disable_parallel_tool_use"@);
    assert forall|i: int| 0 <= i < l.len() implies known.contains((#[trigger] l[i]).0) by {
        assert(l[i].0 == known[i]);
    }
    let o = put_all(l, 3);
    put_fields_are_known(l, 3, known);
    assert(put_all(l, 1) == put_if(put_all(l, 0), l[0].0, l[0].1));
    assert(put_all(l, 2) == put_if(put_all(l, 1), l[1].0, l[1].1));
    assert(put_all(l, 3) == put_if(put_all(l, 2), l[2].0, l[2].1));
    let none = Seq::<(Seq<char>, JsonV)>::empty();
    absent_is_not_read(none, "type"@, kind);
    assert(put_all(l, 1) =~= seq![("type"@, kind)]);
    if let ToolChoiceV::Tool { name } = c {
        absent_is_not_read(put_all(l, 1), "name"@, JsonV::Str(name));
        assert(put_all(l, 2) =~= seq![("type"@, kind), ("name"@, JsonV::Str(name))]);
    }
    assert(choice_json(c, parallel) == JsonV::Object(o));
    if avoids(q, known) {
        assert forall|i: int| 0 <= i < l.len() implies obj_get(o + q, (#[trigger] l[i]).0) == l[i].1 by {
            put_fields_are_read(l, 3, i);
            assert(known.contains(l[i].0));
            front_members_are_read(o, q, known, l[i].0);
        }
        assert(obj_get(o + q, l[0].0) == l[0].1 && obj_get(o + q, l[1].0) == l[1].1 && obj_get(o + q, l[2].0)
            == l[2].1);
        unmodeled_members_are_kept(o, q, known);
    } else {
        assert(o =~= seq![("type"@, JsonV::Str("none"@))]);
        flagged_choice_round_trip(q, root, ws);
    }
}

/// Data beside a tool choice is apart from its members.
pub proof fn choice_data_is_apart(c: ToolChoiceV, parallel: Option<bool>, q: ObjV)
    requires
        plain_choice(Some(c), parallel),
        choice_data(Some(c), q),
    ensures
        forall|j: int| 0 <= j < q.len() ==> absent(put_all(choice_list(c, parallel), 3), (#[trigger] q[j]).0),
{
    field_names();
    let known = tool_choice_param_keys();
    assert(known[0] == "type"@ && known[1] == "name"@ && known[2] == "disable_parallel_tool_use"@);
    let l = choice_list(c, parallel);
    let t = put_all(l, 3);
    assert forall|i: int| 0 <= i < l.len() implies known.contains((#[trigger] l[i]).0) by {
        assert(l[i].0 == known[i]);
    }
    put_fields_are_known(l, 3, known);
    let none = Seq::<(Seq<char>, JsonV)>::empty();
    if !avoids(q, known) {
        assert(put_all(l, 1) == put_if(put_all(l, 0), l[0].0, l[0].1));
        assert(put_all(l, 2) == put_if(put_all(l, 1), l[1].0, l[1].1));
        assert(put_all(l, 3) == put_if(put_all(l, 2), l[2].0, l[2].1));
        absent_is_not_read(none, "type"@, l[0].1->0);
        assert(t =~= seq![("type"@, l[0].1->0)]);
    }
    assert forall|j: int| 0 <= j < q.len() implies absent(t, (#[trigger] q[j]).0) by {
        if avoids(q, known) || j > 0 {
            if !avoids(q, known) {
                assert(q.skip(1)[j - 1] == q[j]);
            }
            assert(!known.contains(q[j].0));
            assert forall|m: int| 0 <= m < t.len() implies (#[trigger] t[m]).0 != q[j].0 by {
                assert(known.contains(t[m].0));
            }
        }
    }
}

/// Provider data of a thinking configuration with a token budget of its own.
pub open spec fn manual_budget(budget: Option<u64>) -> ExtraV {
    let e = noted_extra(Seq::empty(), "type"@, JsonV::Str("enabled"@));
    match budget {
        Some(b) => noted_extra(e, "budget_tokens"@, json_int(b as int)),
        None => e,
    }
}

/// Provider data of a thinking configuration: perhaps a manual budget, then
/// unmodeled members.
pub open spec fn thinking_data(manual: Option<Option<u64>>, rest: ObjV) -> ExtraV {
    noted_extras(
        match manual {
            Some(budget) => manual_budget(budget),
            None => Seq::empty(),
        },
        rest,
        rest.len(),
    )
}

/// The data is that of a thinking configuration.
pub open spec fn is_thinking_data(e: ExtraV, manual: Option<Option<u64>>, rest: ObjV) -> bool {
    e == thinking_data(manual, rest) && clean(rest) && avoids(rest, thinking_config_keys())
}

/// The provider data of a configuration that is switched on or off; a manual
/// budget means on.
pub open spec fn plain_thinking_data(e: ExtraV, on: bool) -> bool {
    exists|manual: Option<Option<u64>>, rest: ObjV| #[trigger]
        is_thinking_data(e, manual, rest) && (manual is Some ==> on)
}

/// An effort tier that this format can carry.
pub open spec fn plain_effort(e: EffortV) -> bool {
    !(e is Disabled) && !(e is Minimal) && effort_named(effort_name(e)) == e
}

/// A reasoning configuration that this format can carry: switched on, with a
/// manual budget or without; switched off; or an effort tier alone. Where there
/// is a switch, unmodeled members can stand beside it.
pub open spec fn plain_reasoning(r: ReasoningV) -> bool {
    let none = Seq::<(Seq<char>, ObjV)>::empty();
    &&& r.effort is Some ==> plain_effort(r.effort->0)
    &&& match r.enabled {
        Some(true) => plain_thinking_data(r.extra, true),
        Some(false) => r.effort is None && r.include_thoughts is None && plain_thinking_data(r.extra, false),
        None => r.effort is Some && r.include_thoughts is None && r.extra == none,
    }
}

/// The `thinking` value of a reasoning configuration.
pub open spec fn thinking_json(r: ReasoningV) -> Option<JsonV> {
    match thinking_config(r.enabled, effort_out(r.effort), r.include_thoughts) {
        Some(t) => Some(extra_merged(r.extra, ANTHROPIC_MESSAGES@, t)),
        None => None,
    }
}

pub proof fn thinking_kinds()
    ensures
        "adaptive"@ != "disabled"@,
        "adaptive"@ != "enabled"@,
        "enabled"@ != "disabled"@,
        "summarized"@ != "omitted"@,
{
    reveal_strlit("adaptive");
    reveal_strlit("disabled");
    reveal_strlit("enabled");
    reveal_strlit("summarized");
    reveal_strlit("omitted");
    assert("adaptive"@[0] == 'a' && "disabled"@[0] == 'd');
    assert("adaptive"@.len() == 8 && "disabled"@.len() == 8 && "enabled"@.len() == 7 && "summarized"@.len() == 10
        && "omitted"@.len() == 7);
}

spec fn thinking_list(kind: Seq<char>, display: Option<Seq<char>>, budget: Option<u64>) -> Seq<
    (Seq<char>, Option<JsonV>),
> {
    seq![
        ("type"@, Some(JsonV::Str(kind))),
        (
            "display"@,
            match display {
                Some(d) => Some(JsonV::Str(d)),
                None => None,
            },
        ),
        (
            "budget_tokens"@,
            match budget {
                Some(b) => Some(json_int(b as int)),
                None => None,
            },
        ),
    ]
}

spec fn thinking_object(kind: Seq<char>, display: Option<Seq<char>>, budget: Option<u64>) -> ObjV {
    put_all(thinking_list(kind, display, budget), 3)
}

proof fn thinking_is_decoded(kind: Seq<char>, display: Option<Seq<char>>, budget: Option<u64>, rest: ObjV)
    requires
        avoids(rest, thinking_config_keys()),
    ensures
        within(thinking_object(kind, display, budget), thinking_config_keys()),
        decode_thinking_config(JsonV::Object(thinking_object(kind, display, budget) + rest)) == Ok::<
            ThinkingConfigV,
            Seq<char>,
        >(ThinkingConfigV { kind, budget_tokens: budget, display, extra: rest }),
{
    field_names();
    let known = thinking_config_keys();
    let l = thinking_list(kind, display, budget);
    assert(known[0] == "type"@ && known[1] == "budget_tokens"@ && known[2] == "display"@);
    assert forall|i: int| 0 <= i < l.len() implies known.contains((#[trigger] l[i]).0) by {
        assert(l[i].0 == known[if i == 0 { 0 } else { 3 - i }]);
    }
    let o = put_all(l, 3);
    put_fields_are_known(l, 3, known);
    assert forall|i: int| 0 <= i < l.len() implies obj_get(o + rest, (#[trigger] l[i]).0) == l[i].1 by {
        put_fields_are_read(l, 3, i);
        assert(known.contains(l[i].0));
        front_members_are_read(o, rest, known, l[i].0);
    }
    assert(obj_get(o + rest, l[0].0) == l[0].1 && obj_get(o + rest, l[1].0) == l[1].1 && obj_get(o + rest, l[2].0)
        == l[2].1);
    unmodeled_members_are_kept(o, rest, known);
}

/// The members of a thinking configuration, in order.
proof fn thinking_members(kind: Seq<char>, display: Option<Seq<char>>, budget: Option<u64>)
    ensures
        ({
            let t0 = seq![("type"@, JsonV::Str(kind))];
            let t1 = match display {
                Some(d) => t0.push(("display"@, JsonV::Str(d))),
                None => t0,
            };
            thinking_object(kind, display, budget) == match budget {
                Some(b) => t1.push(("budget_tokens"@, json_int(b as int))),
                None => t1,
            }
        }),
{
    field_names();
    let l = thinking_list(kind, display, budget);
    assert(put_all(l, 1) == put_if(put_all(l, 0), l[0].0, l[0].1));
    assert(put_all(l, 2) == put_if(put_all(l, 1), l[1].0, l[1].1));
    assert(put_all(l, 3) == put_if(put_all(l, 2), l[2].0, l[2].1));
    let none = Seq::<(Seq<char>, JsonV)>::empty();
    absent_is_not_read(none, "type"@, JsonV::Str(kind));
    assert(put_all(l, 1) =~= seq![("type"@, JsonV::Str(kind))]);
    if display is Some {
        absent_is_not_read(put_all(l, 1), "display"@, JsonV::Str(display->0));
    }
    if budget is Some {
        absent_is_not_read(put_all(l, 2), "budget_tokens"@, json_int(budget->0 as int));
    }
}

/// The members that a manual budget sets.
pub open spec fn manual_members(manual: Option<Option<u64>>) -> ObjV {
    let on = ("type"@, JsonV::Str("enabled"@));
    match manual {
        Some(Some(b)) => seq![on, ("budget_tokens"@, json_int(b as int))],
        Some(None) => seq![on],
        None => Seq::empty(),
    }
}

/// The provider data of a thinking configuration, member by member.
pub proof fn data_is_listed(manual: Option<Option<u64>>, rest: ObjV, n: nat)
    requires
        clean(rest),
        avoids(rest, thinking_config_keys()),
        n <= rest.len(),
    ensures
        ({
            let e0 = match manual {
                Some(budget) => manual_budget(budget),
                None => Seq::empty(),
            };
            let ns = manual_members(manual) + rest.take(n as int);
            noted_extras(e0, rest, n) == (if ns.len() > 0 { seq![(ANTHROPIC_MESSAGES@, ns)] } else { Seq::empty() })
        }),
    decreases n,
{
    field_names();
    let none = Seq::<(Seq<char>, ObjV)>::empty();
    let nil = Seq::<(Seq<char>, JsonV)>::empty();
    let head = manual_members(manual);
    let e0 = match manual {
        Some(budget) => manual_budget(budget),
        None => none,
    };
    if n == 0 {
        assert(rest.take(0) =~= nil);
        assert(head + nil =~= head);
        if manual is Some {
            let on = JsonV::Str("enabled"@);
            let one = seq![("type"@, on)];
            absent_is_not_read(nil, "type"@, on);
            assert(nil.push(("type"@, on)) =~= one);
            let e1 = seq![(ANTHROPIC_MESSAGES@, one)];
            assert(noted_extra(none, "type"@, on) =~= e1);
            assert(extra_index_from(e1, ANTHROPIC_MESSAGES@, 0) == 0);
            if manual->0 is Some {
                let v = json_int(manual->0->0 as int);
                absent_is_not_read(one, "budget_tokens"@, v);
                assert(one.push(("budget_tokens"@, v)) =~= head);
                assert(noted_extra(e1, "budget_tokens"@, v) =~= seq![(ANTHROPIC_MESSAGES@, head)]);
            }
        }
    } else {
        let q = (n - 1) as nat;
        data_is_listed(manual, rest, q);
        let known = thinking_config_keys();
        assert(known[0] == "type"@ && known[1] == "budget_tokens"@ && known[2] == "display"@);
        let prev = head + rest.take(q as int);
        let k = rest[q as int].0;
        let v = rest[q as int].1;
        assert(known.contains(known[0]) && known.contains(known[1]));
        assert(!known.contains(rest[q as int].0));
        assert forall|j: int| 0 <= j < prev.len() implies (#[trigger] prev[j]).0 != k by {
            if j < head.len() {
                assert(prev[j] == head[j]);
            } else {
                assert(prev[j] == rest[j - head.len()]);
                assert(rest[j - head.len()].0 != rest[q as int].0);
            }
        }
        absent_is_not_read(prev, k, v);
        member_is_not_null(rest, q as int);
        let ns = head + rest.take(n as int);
        assert(prev.push(rest[q as int]) =~= ns);
        let before = noted_extras(e0, rest, q);
        if prev.len() > 0 {
            assert(extra_index_from(before, ANTHROPIC_MESSAGES@, 0) == 0);
            assert(noted_extra(before, k, v) =~= seq![(ANTHROPIC_MESSAGES@, ns)]);
        } else {
            assert(prev =~= nil);
            assert(noted_extra(before, k, v) =~= seq![(ANTHROPIC_MESSAGES@, ns)]);
        }
    }
}

/// The kind of a configuration after a manual budget was merged.
spec fn merged_kind(kind: Seq<char>, manual: Option<Option<u64>>) -> Seq<char> {
    if manual is Some { "enabled"@ } else { kind }
}

spec fn merged_budget(manual: Option<Option<u64>>) -> Option<u64> {
    match manual {
        Some(b) => b,
        None => None,
    }
}

/// The data of a thinking configuration is merged behind its members.
proof fn data_is_merged(kind: Seq<char>, display: Option<Seq<char>>, manual: Option<Option<u64>>, rest: ObjV)
    requires
        clean(rest),
        avoids(rest, thinking_config_keys()),
    ensures
        extra_merged(
            thinking_data(manual, rest),
            ANTHROPIC_MESSAGES@,
            JsonV::Object(thinking_object(kind, display, None)),
        ) == JsonV::Object(thinking_object(merged_kind(kind, manual), display, merged_budget(manual)) + rest),
{
    field_names();
    broadcast use obj_index_props;
    reveal(extra_get);
    let head = manual_members(manual);
    let ns = head + rest;
    let e = thinking_data(manual, rest);
    let t = thinking_object(kind, display, None);
    let out = thinking_object(merged_kind(kind, manual), display, merged_budget(manual));
    data_is_listed(manual, rest, rest.len());
    assert(rest.take(rest.len() as int) =~= rest);
    thinking_members(kind, display, None);
    thinking_members("enabled"@, display, None);
    thinking_members("enabled"@, display, merged_budget(manual));
    if ns.len() > 0 {
        assert(extra_index_from(e, ANTHROPIC_MESSAGES@, 0) == 0);
    }
    assert(extra_ns(e, ANTHROPIC_MESSAGES@) =~= ns);
    assert(merge_members(t, head, 0) == t);
    assert(merge_members(t, head, head.len()) == out) by {
        if manual is Some {
            let on = JsonV::Str("enabled"@);
            first_named_is_read(t, "type"@, 0);
            reveal(obj_set);
            let t1 = obj_set(t, "type"@, on);
            assert(t1 =~= thinking_object("enabled"@, display, None));
            assert(merge_members(t, head, 1) == t1);
            if manual->0 is Some {
                let v = json_int(manual->0->0 as int);
                absent_is_not_read(t1, "budget_tokens"@, v);
                assert(merge_members(t, head, 2) == obj_set(t1, "budget_tokens"@, v));
                assert(obj_set(t1, "budget_tokens"@, v) =~= out);
            }
        }
    }
    merges_in_turn(t, head, rest, rest.len());
    thinking_is_decoded(merged_kind(kind, manual), display, merged_budget(manual), rest);
    let known = thinking_config_keys();
    assert forall|i: int| 0 <= i < rest.len() implies absent(out, (#[trigger] rest[i]).0) by {
        assert(!known.contains(rest[i].0));
        assert forall|j: int| 0 <= j < out.len() implies (#[trigger] out[j]).0 != rest[i].0 by {
            assert(known.contains(out[j].0));
        }
    }
    new_members_are_appended(out, rest, rest.len());
    if ns.len() == 0 {
        assert(out + rest =~= out);
    }
}

/// A reasoning configuration is read back from the `thinking` object and the
/// effort that it becomes.
pub proof fn reasoning_round_trip(r: ReasoningV, root: ObjV)
    requires
        plain_reasoning(r),
    ensures
        match thinking_json(r) {
            Some(v) => match decode_thinking_config(v) {
                Ok(t) => {
                    let (p, root1) = parsed_thinking(Some(t), root);
                    root1 == root && with_effort(p, effort_out(r.effort)) == Some(r)
                },
                Err(_) => false,
            },
            None => with_effort(None, effort_out(r.effort)) == Some(r),
        },
{
    field_names();
    thinking_kinds();
    reveal(extra_get);
    let none = Seq::<(Seq<char>, ObjV)>::empty();
    let display = match r.include_thoughts {
        Some(b) => Some(if b { "summarized"@ } else { "omitted"@ }),
        None => None,
    };
    match r.enabled {
        Some(true) => {
            let (manual, rest) = choose|manual: Option<Option<u64>>, rest: ObjV| #[trigger]
                is_thinking_data(r.extra, manual, rest) && (manual is Some ==> true);
            let base = seq![("type"@, JsonV::Str("adaptive"@))];
            if display is Some {
                absent_is_not_read(base, "display"@, JsonV::Str(display->0));
            }
            thinking_members("adaptive"@, display, None);
            let t = thinking_config(r.enabled, effort_out(r.effort), r.include_thoughts)->0;
            assert(t == JsonV::Object(thinking_object("adaptive"@, display, None)));
            let kind = merged_kind("adaptive"@, manual);
            let budget = merged_budget(manual);
            data_is_merged("adaptive"@, display, manual, rest);
            thinking_is_decoded(kind, display, budget, rest);
            let w = ThinkingConfigV { kind, budget_tokens: budget, display, extra: rest };
            assert(thinking_on(w).extra == thinking_data(manual, rest));
            assert(thinking_on(w) == ReasoningV { effort: None, ..r });
        },
        Some(false) => {
            let (manual, rest) = choose|manual: Option<Option<u64>>, rest: ObjV| #[trigger]
                is_thinking_data(r.extra, manual, rest) && (manual is Some ==> false);
            assert(manual is None);
            thinking_members("disabled"@, None, None);
            data_is_merged("disabled"@, None, manual, rest);
            thinking_is_decoded("disabled"@, None, None, rest);
            let w = ThinkingConfigV { kind: "disabled"@, budget_tokens: None, display: None, extra: rest };
            assert(thinking_off(w) == r);
        },
        None => {},
    }
}

/// A structured-output setting that this format can carry.
pub open spec fn plain_output(f: OutputFormatV) -> bool {
    match f {
        OutputFormatV::JsonSchema { name, description, schema, strict } => name is None && description is None
            && strict is None && !(schema is Null),
        OutputFormatV::JsonObject => false,
    }
}

/// The members of an output configuration.
pub open spec fn output_list(effort: Option<Seq<char>>, f: Option<OutputFormatV>) -> Seq<(Seq<char>, Option<JsonV>)> {
    seq![
        (
            "effort"@,
            match effort {
                Some(e) => Some(JsonV::Str(e)),
                None => None,
            },
        ),
        (
            "format"@,
            match f {
                Some(OutputFormatV::JsonSchema { name, description, schema, strict }) => Some(
                    object2("type"@, JsonV::Str("json_schema"@), "schema"@, schema),
                ),
                _ => None,
            },
        ),
    ]
}

/// The members of a structured-output setting.
pub open spec fn format_members(schema: JsonV) -> ObjV {
    seq![("type"@, JsonV::Str("json_schema"@)), ("schema"@, schema)]
}

proof fn format_is_decoded(schema: JsonV, q: ObjV)
    requires
        !(schema is Null),
        avoids(q, output_format_config_keys()),
    ensures
        within(format_members(schema), output_format_config_keys()),
        decode_output_format_config(JsonV::Object(format_members(schema) + q)) == Ok::<OutputFormatConfigV, Seq<char>>(
            OutputFormatConfigV { kind: "json_schema"@, schema: Some(schema), extra: q },
        ),
{
    field_names();
    let known = output_format_config_keys();
    let o = format_members(schema);
    assert(known[0] == "type"@ && known[1] == "schema"@);
    assert forall|i: int| 0 <= i < o.len() implies known.contains((#[trigger] o[i]).0) by {
        assert(o[i].0 == known[i]);
    }
    there(o, q, "type"@, 0);
    there(o, q, "schema"@, 1);
    unmodeled_members_are_kept(o, q, known);
}

/// Data of an output configuration that the wire keeps as it is; that of the
/// format needs a format.
pub open spec fn output_data(d: ObjV, f: Option<OutputFormatV>) -> bool {
    &&& levels_apart(d, "format"@, output_config_keys(), output_format_config_keys())
    &&& f is None ==> data_under(d, "format"@).len() == 0
}

/// What a parse keeps of the data of an output configuration.
pub open spec fn output_mirror(root: ObjV, d: ObjV) -> ObjV {
    let q = data_under(d, "format"@);
    let rest = unknown(d, output_config_keys());
    mirrored_map2(
        mirrored_map3(root, "output_config"@, "format"@, q, q.len()),
        "output_config"@,
        rest,
        rest.len(),
    )
}

/// Effort and structured output are read back from the output configuration
/// that they become, and so is the data of the configuration.
pub proof fn output_round_trip(
    effort: Option<Seq<char>>,
    f: Option<OutputFormatV>,
    d: ObjV,
    root: ObjV,
    ws: Seq<ConversionWarningV>,
)
    requires
        f is Some ==> plain_output(f->0),
        clean(d),
        output_data(d, f),
    ensures
        match decode_output_config(JsonV::Object(merged(put_all(output_list(effort, f), 2), d))) {
            Ok(oc) => oc.effort == effort && parsed_output(oc, root, ws) == (f, output_mirror(root, d), ws),
            Err(_) => false,
        },
        (put_all(output_list(effort, f), 2).len() > 0) == (effort is Some || f is Some),
{
    field_names();
    let known = output_config_keys();
    let l = output_list(effort, f);
    let q = data_under(d, "format"@);
    let none = Seq::<(Seq<char>, JsonV)>::empty();
    assert(known[0] == "effort"@ && known[1] == "format"@);
    assert forall|i: int| 0 <= i < l.len() implies known.contains((#[trigger] l[i]).0) by {
        assert(l[i].0 == known[i]);
    }
    let t = put_all(l, 2);
    fields_are_read(l, known);
    put_fields_are_known(l, 2, known);
    put_fields_are_distinct(l, 2);
    assert(obj_get(t, l[0].0) == l[0].1 && obj_get(t, l[1].0) == l[1].1);
    assert(put_all(l, 1) == put_if(put_all(l, 0), l[0].0, l[0].1));
    assert(put_all(l, 2) == put_if(put_all(l, 1), l[1].0, l[1].1));
    assert(known.contains(known[0]) && known.contains(known[1]));
    if t.len() == 0 {
        absent_is_not_read(t, "effort"@, JsonV::Null);
        absent_is_not_read(t, "format"@, JsonV::Null);
    }
    match f {
        Some(OutputFormatV::JsonSchema { name, description, schema, strict }) => {
            format_is_decoded(schema, q);
            format_is_decoded(schema, none);
            assert(format_members(schema) + none =~= format_members(schema));
            assert(object2("type"@, JsonV::Str("json_schema"@), "schema"@, schema) == JsonV::Object(
                format_members(schema),
            ));
        },
        _ => {},
    }
    levels_are_merged(t, d, "format"@, known, output_format_config_keys());
    let m = merged(t, d);
    assert(obj_get(m, "effort"@) == l[0].1);
    if q.len() == 0 {
        assert(q =~= none);
    }
}

/// A system prompt that this format can carry.
pub open spec fn plain_system(blocks: Seq<ContentBlockV>) -> bool {
    blocks.len() > 0 && plain_blocks(Role::System, blocks) && all_text(blocks)
}

proof fn entries_are_collected(blocks: Seq<ContentBlockV>, n: nat)
    requires
        all_text(blocks),
        n <= blocks.len(),
    ensures
        match prompt_entries(blocks, n) {
            Ok(e) => e.len() == n && forall|i: int|
                0 <= i < n ==> (#[trigger] e[i]) == text_entry(
                    blocks[i]->Text_text,
                    blocks[i]->Text_cache,
                    blocks[i]->Text_extra,
                ),
            Err(_) => false,
        },
    decreases n,
{
    if n > 0 {
        entries_are_collected(blocks, (n - 1) as nat);
        assert(blocks[n - 1] is Text);
    }
}

proof fn entries_are_read(
    blocks: Seq<ContentBlockV>,
    entries: Seq<EntryV>,
    s: SinkV,
    ws: Seq<ConversionWarningV>,
    n: nat,
)
    requires
        plain_system(blocks),
        entries.len() == blocks.len(),
        forall|i: int|
            0 <= i < entries.len() ==> (#[trigger] entries[i]) == text_entry(
                blocks[i]->Text_text,
                blocks[i]->Text_cache,
                blocks[i]->Text_extra,
            ),
        n <= blocks.len(),
    ensures
        ({
            let (a, s1) = entry_values(entries, Seq::empty(), s, n);
            &&& a.len() == n
            &&& s1.warnings == s.warnings
            &&& system_entries(a, ws, n) == (blocks.take(n as int), ws)
        }),
    decreases n,
{
    if n == 0 {
        assert(blocks.take(0) =~= Seq::<ContentBlockV>::empty());
    } else {
        let q = (n - 1) as nat;
        entries_are_read(blocks, entries, s, ws, q);
        let (prev, s1) = entry_values(entries, Seq::empty(), s, q);
        let (a, s2) = entry_values(entries, Seq::empty(), s, n);
        let b = blocks[q as int];
        assert(b is Text);
        assert(plain_block(Role::System, blocks[q as int]));
        assert(entries[q as int] == text_entry(b->Text_text, b->Text_cache, b->Text_extra));
        let loc = "/system/"@ + decimal(q);
        text_round_trip(b->Text_text, b->Text_cache, b->Text_extra, loc, s1, loc, ws);
        assert(a.drop_last() =~= prev);
        entries_prefix(prev, a, ws, q);
        assert(blocks.take(q as int).push(b) =~= blocks.take(n as int));
    }
}

proof fn entries_prefix(a: Seq<JsonV>, b: Seq<JsonV>, ws: Seq<ConversionWarningV>, n: nat)
    requires
        n <= a.len() <= b.len(),
        forall|i: int| 0 <= i < a.len() ==> (#[trigger] a[i]) == b[i],
    ensures
        system_entries(a, ws, n) == system_entries(b, ws, n),
    decreases n,
{
    if n > 0 {
        entries_prefix(a, b, ws, (n - 1) as nat);
        assert(a[n - 1] == b[n - 1]);
    }
}

/// A system prompt is read back from the `system` value that it becomes: one
/// plain text from a string, anything else from an array.
pub proof fn system_round_trip(blocks: Seq<ContentBlockV>, msgs: Seq<MessageV>, s: SinkV, ws: Seq<ConversionWarningV>)
    requires
        plain_system(blocks),
    ensures
        match system_value(Some(blocks), msgs, Seq::empty(), s) {
            Ok((Some(v), s1)) => s1.warnings == s.warnings && match decode_system_prompt(v) {
                Ok(p) => system_channel(p, ws) == (blocks, ws) && !(v is Null),
                Err(_) => false,
            },
            _ => false,
        },
{
    entries_are_collected(blocks, blocks.len());
    let entries = prompt_entries(blocks, blocks.len())->Ok_0;
    assert(s.warnings + Seq::<ConversionWarningV>::empty() =~= s.warnings);
    let s1 = SinkV { warnings: s.warnings, log: s.log };
    if entries.len() == 1 && entries[0].plain is Some {
        let b = blocks[0];
        assert(b is Text);
        assert(plain_block(Role::System, blocks[0]));
        assert(entries[0] == text_entry(b->Text_text, b->Text_cache, b->Text_extra));
        let ns = extra_ns(b->Text_extra, ANTHROPIC_MESSAGES@);
        namespace_holds_its_members(ANTHROPIC_MESSAGES@, ns);
        assert(blocks =~= seq![text_block(b->Text_text)]);
    } else {
        entries_are_read(blocks, entries, s1, ws, blocks.len());
        assert(blocks.take(blocks.len() as int) =~= blocks);
    }
}

} // verus!
