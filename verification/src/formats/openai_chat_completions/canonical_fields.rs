//! Laws: tools, output format, tool choice and stop sequences of a request in
//! their canonical form.

use vstd::prelude::*;
use crate::assembly::{change_in_front, combined};
use crate::convert::ConversionWarningV;
use crate::format::OPENAI_CHAT_COMPLETIONS;
use crate::formats::openai_chat_completions::canonical_parts::{avoided_is_absent, merge_front_members, non_null_front};
use crate::formats::openai_chat_completions::content::omerged;
use crate::formats::openai_chat_completions::from_ir::{function_tool, opt_text, response_format, tool_added, tool_choice_value, tools_upto};
use crate::formats::openai_chat_completions::parse_parts::{nested, own_extra, part_type};
use crate::formats::openai_chat_completions::round_trip_tools::{removed_at, tool_choice_round_trip};
use crate::formats::openai_chat_completions::to_ir::{all_strings, choice_of, choice_value, format_of, schema_format, stop_of, taken_string, tool_of, tools_of};
use crate::formats::openai_chat_completions::types;
use crate::ir::{non_null, FunctionToolV, OutputFormatV, ToolV};
use crate::json::{json_as_object, json_get, json_strings, obj_get, obj_has, obj_index_props, obj_remove, obj_set, obj_wf, object2, put_if, JsonV, ObjV};
use crate::json_laws::{remove_keeps_other_members, removed_member_is_gone};
use crate::merge::{merged, obj_part};
use crate::namespaces::{absent, absent_is_not_read, avoids, first_named_is_read, front_members_are_read, put_all, put_fields_are_known, put_fields_are_read, there, unknown_avoids, unmodeled_members_are_kept, unread_is_absent, within};
use crate::sink::{empty_sink, SinkV};
use crate::sweep::{apart_data_is_appended, fields_are_merged, kept, kept_fields_avoid, kept_fields_stay, known_are_apart, non_null_avoids, swept, swept_data_avoids, swept_data_lacks, swept_data_stays, swept_member_is_read};

verus! {

/// What a tool definition is written as.
pub open spec fn tool_value(j: JsonV) -> JsonV {
    tool_added((Seq::empty(), empty_sink()), tool_of(j, 0, Seq::empty()).0).0[0]
}

/// A tool definition is read and written alike wherever it stands.
pub proof fn tool_is_written_anywhere(j: JsonV, i: nat, ws: Seq<ConversionWarningV>, st: (Seq<JsonV>, SinkV))
    ensures
        tool_added(st, tool_of(j, i, ws).0).0 == st.0.push(tool_value(j)),
{
}

/// The modeled members of a function.
spec fn function_fields(d: types::FunctionDefV) -> Seq<(Seq<char>, Option<JsonV>)> {
    seq![
        ("name"@, Some(JsonV::Str(d.name))),
        ("description"@, opt_text(d.description)),
        ("parameters"@, d.parameters),
        (
            "strict"@,
            match d.strict {
                Some(b) => Some(JsonV::Bool(b)),
                None => None,
            },
        ),
    ]
}

proof fn function_names()
    ensures
        "name"@ != "description"@,
        "name"@ != "parameters"@,
        "name"@ != "strict"@,
        "name"@ != "schema"@,
        "description"@ != "parameters"@,
        "description"@ != "strict"@,
        "description"@ != "schema"@,
        "parameters"@ != "strict"@,
        "schema"@ != "strict"@,
        "type"@ != "function"@,
        "type"@ != "json_schema"@,
{
    reveal_strlit("name");
    reveal_strlit("description");
    reveal_strlit("parameters");
    reveal_strlit("strict");
    reveal_strlit("schema");
    reveal_strlit("type");
    reveal_strlit("function");
    reveal_strlit("json_schema");
    assert("name"@.len() == 4 && "description"@.len() == 11 && "parameters"@.len() == 10 && "strict"@.len() == 6
        && "schema"@.len() == 6 && "type"@.len() == 4 && "function"@.len() == 8 && "json_schema"@.len() == 11);
    assert("strict"@[1] == 't' && "schema"@[1] == 'c');
}

/// The function of a tool as it is written: its modeled members, then the
/// unmodeled ones.
spec fn function_members(d: types::FunctionDefV) -> ObjV {
    put_all(function_fields(d), 4)
}

proof fn function_is_listed(d: types::FunctionDefV)
    requires
        d.parameters != Some(JsonV::Null),
        avoids(d.extra, types::function_def_keys()),
    ensures
        ({
            let f = function_members(d);
            let o = f + swept(d.extra);
            &&& within(f, types::function_def_keys())
            &&& merged(f, d.extra) == o
            &&& merged(f, swept(d.extra)) == o
            &&& types::decode_function_def(JsonV::Object(o)) == Ok::<types::FunctionDefV, Seq<char>>(
                types::FunctionDefV { extra: swept(d.extra), ..d },
            )
            &&& avoids(swept(d.extra), types::function_def_keys())
            &&& swept(swept(d.extra)) == swept(d.extra)
        }),
{
    function_names();
    let known = types::function_def_keys();
    assert(known[0] == "name"@ && known[1] == "description"@ && known[2] == "parameters"@ && known[3] == "strict"@);
    let l = function_fields(d);
    assert forall|i: int| 0 <= i < 4 implies known.contains((#[trigger] l[i]).0) by {
        assert(l[i].0 == known[i]);
    }
    put_fields_are_known(l, 4, known);
    let f = function_members(d);
    let y = swept(d.extra);
    known_are_apart(f, d.extra, known);
    apart_data_is_appended(f, d.extra, d.extra.len());
    swept_data_avoids(d.extra, known);
    swept_data_stays(d.extra);
    known_are_apart(f, y, known);
    apart_data_is_appended(f, y, y.len());
    unmodeled_members_are_kept(f, y, known);
    put_fields_are_read(l, 4, 0);
    put_fields_are_read(l, 4, 1);
    put_fields_are_read(l, 4, 2);
    put_fields_are_read(l, 4, 3);
    front_members_are_read(f, y, known, "name"@);
    front_members_are_read(f, y, known, "description"@);
    front_members_are_read(f, y, known, "parameters"@);
    front_members_are_read(f, y, known, "strict"@);
}

/// The members of a function tool.
spec fn tool_members(f: ObjV) -> ObjV {
    seq![("type"@, JsonV::Str("function"@)), ("function"@, JsonV::Object(f))]
}

/// What a function tool becomes.
proof fn function_tool_is_written(d: types::FunctionDefV, x: ObjV)
    requires
        d.parameters != Some(JsonV::Null),
        avoids(d.extra, types::function_def_keys()),
        avoids(x, types::function_tool_def_keys()),
    ensures
        ({
            let f = FunctionToolV {
                name: d.name,
                description: d.description,
                parameters: d.parameters,
                strict: d.strict,
                cache: None,
                extra: own_extra(nested(x, "function"@, d.extra)),
            };
            omerged(f.extra, function_tool(f)) == JsonV::Object(
                tool_members(function_members(d) + swept(d.extra)) + kept(x),
            )
        }),
{
    broadcast use obj_index_props;
    function_names();
    function_is_listed(d);
    let known = types::function_tool_def_keys();
    assert(known[0] == "type"@ && known[1] == "function"@);
    let k = "function"@;
    let h = function_members(d);
    let i = d.extra;
    let l = function_fields(d);
    let none = Seq::<(Seq<char>, JsonV)>::empty();
    assert(put_all(l, 0) == none);
    assert(put_all(l, 1) == put_if(put_all(l, 0), l[0].0, l[0].1));
    assert(put_all(l, 2) == put_if(put_all(l, 1), l[1].0, l[1].1));
    assert(put_all(l, 3) == put_if(put_all(l, 2), l[2].0, l[2].1));
    assert(put_all(l, 4) == put_if(put_all(l, 3), l[3].0, l[3].1));
    let t0 = tool_members(h);
    let t1 = tool_members(h + swept(i));
    avoided_is_absent(x, known, k);
    let p = non_null(x, x.len());
    non_null_avoids(x, known);
    assert(within(t0, known));
    known_are_apart(t0, p, known);
    apart_data_is_appended(t0, p, p.len());
    let y = nested(x, k, i);
    let q = non_null(y, y.len());
    fields_are_merged(OPENAI_CHAT_COMPLETIONS@, t0, y);
    if i.len() > 0 {
        let m = (k, JsonV::Object(i));
        absent_is_not_read(x, k, m.1);
        non_null_front(x, m, x.len());
        assert(q == p.push(m));
        merge_front_members(t0, p, m, p.len());
        first_named_is_read(t0, k, 1);
        let r = JsonV::Object(h + swept(i));
        change_in_front(t0, kept(x), k, r);
        assert(obj_set(t0, k, r) =~= t1) by {
            reveal(obj_set);
        }
    } else {
        assert(i =~= none);
        assert(swept(none) == none);
        assert(h + none =~= h);
    }
}

/// A tool definition stays as it was first written.
pub proof fn tool_settles(j: JsonV)
    ensures
        tool_value(tool_value(j)) == tool_value(j),
{
    function_names();
    if tool_of(j, 0, Seq::empty()).0 is Function {
        let known = types::function_tool_def_keys();
        assert(known[0] == "type"@ && known[1] == "function"@);
        let o = j->Object_0;
        let d = types::decode_function_tool_def(j)->Ok_0;
        unknown_avoids(o, known, o.len());
        let fo = obj_get(o, "function"@)->0->Object_0;
        unknown_avoids(fo, types::function_def_keys(), fo.len());
        function_tool_is_written(d.function, d.extra);
        function_is_listed(d.function);
        let f2 = types::FunctionDefV { extra: swept(d.function.extra), ..d.function };
        let t = tool_members(function_members(d.function) + swept(d.function.extra));
        let u = JsonV::Object(t + kept(d.extra));
        kept_fields_avoid(d.extra, known);
        kept_fields_stay(d.extra);
        assert(within(t, known));
        unmodeled_members_are_kept(t, kept(d.extra), known);
        there(t, kept(d.extra), "type"@, 0);
        there(t, kept(d.extra), "function"@, 1);
        let d2 = types::FunctionToolDefV { tool_type: Some("function"@), function: f2, extra: kept(d.extra) };
        assert(types::decode_function_tool_def(u) == Ok::<types::FunctionToolDefV, Seq<char>>(d2));
        function_tool_is_written(f2, kept(d.extra));
        assert(function_fields(f2) =~= function_fields(d.function));
    }
}

/// The tools that the first `n` definitions are written as.
pub open spec fn tool_values(a: Seq<JsonV>) -> Seq<JsonV> {
    Seq::new(a.len(), |i: int| tool_value(a[i]))
}

pub proof fn tools_are_written(a: Seq<JsonV>, ws: Seq<ConversionWarningV>, s: SinkV, n: nat)
    requires
        n <= a.len(),
    ensures
        tools_of(a, ws, n).0.len() == n,
        tools_upto(tools_of(a, ws, n).0, s, n).0 == tool_values(a).take(n as int),
    decreases n,
{
    if n == 0 {
        assert(tool_values(a).take(0) =~= Seq::<JsonV>::empty());
    } else {
        let m = (n - 1) as nat;
        tools_are_written(a, ws, s, m);
        let (prev, ws1) = tools_of(a, ws, m);
        let all = tools_of(a, ws, n).0;
        tools_prefix(prev, all, s, m);
        tool_is_written_anywhere(a[m as int], m, ws1, tools_upto(prev, s, m));
        assert(tool_values(a).take(n as int) =~= tool_values(a).take(m as int).push(tool_values(a)[m as int]));
    }
}

proof fn tools_prefix(a: Seq<ToolV>, b: Seq<ToolV>, s: SinkV, n: nat)
    requires
        n <= a.len() <= b.len(),
        forall|i: int| 0 <= i < a.len() ==> (#[trigger] a[i]) == b[i],
    ensures
        tools_upto(a, s, n) == tools_upto(b, s, n),
    decreases n,
{
    if n > 0 {
        tools_prefix(a, b, s, (n - 1) as nat);
        assert(a[n - 1] == b[n - 1]);
    }
}

pub proof fn tools_settle(a: Seq<JsonV>)
    ensures
        tool_values(tool_values(a)) == tool_values(a),
{
    assert forall|i: int| 0 <= i < a.len() implies tool_value(#[trigger] tool_values(a)[i]) == tool_values(a)[i] by {
        tool_settles(a[i]);
    }
    assert(tool_values(tool_values(a)) =~= tool_values(a));
}

/// Stop sequences that are kept verbatim.
pub open spec fn odd_stop(v: Option<JsonV>) -> Option<JsonV> {
    match v {
        Some(JsonV::Str(_)) => None,
        Some(JsonV::Array(a)) => if all_strings(a) { None } else { v },
        v => v,
    }
}

/// Stop sequences that are modeled, as they are written.
pub open spec fn stop_field(v: Option<JsonV>) -> Option<JsonV> {
    match stop_of(v, Seq::empty(), Seq::empty()).0 {
        Some(s) => Some(json_strings(s)),
        None => None,
    }
}

pub proof fn stop_settles(v: Option<JsonV>)
    requires
        v != Some(JsonV::Null),
    ensures
        ({
            let r = match odd_stop(v) {
                Some(x) => combined(None, Some(x)),
                None => stop_field(v),
            };
            &&& stop_field(r) == stop_field(v)
            &&& odd_stop(r) == combined(None, odd_stop(v))
            &&& r != Some(JsonV::Null)
            &&& odd_stop(v) is Some ==> stop_field(v) is None
        }),
        forall|ns: ObjV, ws: Seq<ConversionWarningV>|
            (#[trigger] stop_of(v, ns, ws)).0 == stop_of(v, Seq::empty(), Seq::empty()).0 && stop_of(v, ns, ws).1 == put_if(
                ns,
                "stop"@,
                odd_stop(v),
            ),
{
    if odd_stop(v) is None && v is Some {
        let s = stop_of(v, Seq::empty(), Seq::empty()).0->0;
        let a = json_strings(s)->Array_0;
        assert(all_strings(a));
        assert(Seq::new(a.len(), |i: int| a[i]->Str_0) =~= s);
    }
}

/// A choice that is kept verbatim.
pub open spec fn odd_choice(v: Option<JsonV>) -> Option<JsonV> {
    match v {
        Some(c) => if choice_value(c) is None { v } else { None },
        None => None,
    }
}

/// A choice that is modeled, as it is written.
pub open spec fn choice_field(v: Option<JsonV>) -> Option<JsonV> {
    match v {
        Some(c) => match choice_value(c) {
            Some(t) => Some(tool_choice_value(t)),
            None => None,
        },
        None => None,
    }
}

/// A choice that is kept verbatim stays one that is not modeled.
pub open spec fn steady_choice(v: Option<JsonV>) -> bool {
    match odd_choice(v) {
        Some(c) => choice_value(combined(None, Some(c))->0) is None,
        None => true,
    }
}

pub proof fn choice_settles(v: Option<JsonV>)
    requires
        v != Some(JsonV::Null),
        steady_choice(v),
    ensures
        ({
            let r = match odd_choice(v) {
                Some(x) => combined(None, Some(x)),
                None => choice_field(v),
            };
            &&& choice_field(r) == choice_field(v)
            &&& odd_choice(r) == combined(None, odd_choice(v))
            &&& r != Some(JsonV::Null)
            &&& odd_choice(v) is Some ==> choice_field(v) is None
        }),
        forall|ns: ObjV| (#[trigger] choice_of(v, ns)).1 == put_if(ns, "tool_choice"@, odd_choice(v)),
{
    if let Some(c) = v {
        if let Some(t) = choice_value(c) {
            tool_choice_round_trip(t, Seq::empty());
        }
    }
}

/// The modeled part of an output format, as it is written.
pub open spec fn format_field(v: Option<JsonV>) -> Option<JsonV> {
    match format_of(v, Seq::empty()).0 {
        Some(f) => Some(response_format(f)),
        None => None,
    }
}

/// What is kept of an output format beside what is modeled.
pub open spec fn format_data(v: Option<JsonV>) -> Option<JsonV> {
    match v {
        None => None,
        Some(f) => {
            let inner = json_as_object(json_get(f, "json_schema"@));
            if part_type(f) == Some("json_schema"@) && inner is Some && obj_has(inner->0, "schema"@) {
                let m = nested(
                    obj_remove(obj_remove(f->Object_0, "type"@), "json_schema"@),
                    "json_schema"@,
                    schema_rest(inner->0),
                );
                if m.len() > 0 {
                    Some(JsonV::Object(m))
                } else {
                    None
                }
            } else if part_type(f) == Some("json_object"@) {
                let m = obj_remove(f->Object_0, "type"@);
                if m.len() > 0 {
                    Some(JsonV::Object(m))
                } else {
                    None
                }
            } else {
                v
            }
        },
    }
}

/// What is left of a schema format when its modeled members are taken.
pub open spec fn schema_rest(inner: ObjV) -> ObjV {
    let l1 = taken_string(inner, "name"@).1;
    let l2 = taken_string(l1, "description"@).1;
    let l3 = obj_remove(l2, "schema"@);
    match obj_get(l3, "strict"@) {
        Some(JsonV::Bool(_)) => obj_remove(l3, "strict"@),
        _ => l3,
    }
}

pub proof fn format_is_put(v: Option<JsonV>)
    ensures
        forall|ns: ObjV|
            (#[trigger] format_of(v, ns)).1 == put_if(ns, "response_format"@, format_data(v)) && format_of(v, ns).0
                == format_of(v, Seq::empty()).0,
{
}

/// An output format in its canonical form.
pub open spec fn format_value(v: Option<JsonV>) -> Option<JsonV> {
    combined(format_field(v), format_data(v))
}

/// The members of a schema format are of their types where they are there.
pub open spec fn typed_schema(inner: ObjV) -> bool {
    &&& match obj_get(inner, "name"@) {
        None => true,
        Some(x) => x is Str,
    }
    &&& match obj_get(inner, "description"@) {
        None => true,
        Some(x) => x is Str,
    }
    &&& match obj_get(inner, "strict"@) {
        None => true,
        Some(x) => x is Bool,
    }
}

/// An output format that keeps its canonical form. Each of its objects names
/// each member once; a schema whose modeled members are not of their types is
/// one that stays as it was first written.
pub open spec fn steady_format(v: Option<JsonV>) -> bool {
    match v {
        None => true,
        Some(f) => {
            let inner = json_as_object(json_get(f, "json_schema"@));
            &&& f is Object ==> obj_wf(f->Object_0)
            &&& inner is Some ==> obj_wf(inner->0)
            &&& part_type(f) == Some("json_schema"@) && inner is Some && obj_has(inner->0, "schema"@) ==> typed_schema(
                inner->0,
            ) || {
                let r = format_value(v);
                &&& format_value(r) == r
                &&& format_field(r) is Some
                &&& r != Some(JsonV::Null)
            }
        },
    }
}

proof fn unmodeled_format_settles(f: JsonV)
    requires
        !(f is Null),
        steady_format(Some(f)),
        format_field(Some(f)) is None,
    ensures
        ({
            let r = format_value(Some(f));
            &&& format_field(r) is None
            &&& format_value(r) == r
            &&& r != Some(JsonV::Null)
        }),
{
    assert(obj_part(None) == Seq::<(Seq<char>, JsonV)>::empty());
    if let JsonV::Object(o) = f {
        swept_data_stays(o);
        swept_member_is_read(o, "type"@);
        swept_member_is_read(o, "json_schema"@);
        if let Some(JsonV::Object(inner)) = obj_get(o, "json_schema"@) {
            swept_member_is_read(inner, "schema"@);
        }
    }
}

proof fn object_format_settles(f: JsonV)
    requires
        steady_format(Some(f)),
        part_type(f) == Some("json_object"@),
    ensures
        ({
            let r = format_value(Some(f));
            &&& format_field(r) is Some
            &&& format_value(r) == r
            &&& r != Some(JsonV::Null)
        }),
{
    format_kinds();
    let none = Seq::<(Seq<char>, JsonV)>::empty();
    let o = f->Object_0;
    let t = seq![("type"@, JsonV::Str("json_object"@))];
    removed_member_is_gone(o, "type"@);
    let m = obj_remove(o, "type"@);
    unread_is_absent(m, "type"@);
    let y = swept(m);
    swept_data_lacks(m, "type"@);
    swept_data_stays(m);
    assert forall|i: int| 0 <= i < m.len() implies absent(t, (#[trigger] m[i]).0) by {}
    assert forall|i: int| 0 <= i < y.len() implies absent(t, (#[trigger] y[i]).0) by {}
    apart_data_is_appended(t, m, m.len());
    apart_data_is_appended(t, y, y.len());
    assert(t + none =~= t);
    if m.len() == 0 {
        assert(m =~= none);
        assert(swept(none) == none);
    }
    let r = JsonV::Object(t + y);
    assert(format_value(Some(f)) == Some(r));
    removed_at(t + y, "type"@, 0);
    assert((t + y).remove(0) =~= y);
    if y.len() == 0 {
        assert(y =~= none);
    }
}

proof fn format_kinds()
    ensures
        "json_object"@ != "json_schema"@,
        "type"@ != "json_schema"@,
{
    reveal_strlit("json_object");
    reveal_strlit("json_schema");
    reveal_strlit("type");
    assert("json_object"@[5] == 'o' && "json_schema"@[5] == 's');
    assert("type"@.len() == 4 && "json_schema"@.len() == 11);
}

/// The modeled members of a schema format, as they are written.
spec fn schema_members(name: Seq<char>, schema: JsonV, description: Option<Seq<char>>, strict: Option<bool>) -> ObjV {
    let a = seq![("name"@, JsonV::Str(name)), ("schema"@, schema)];
    let b = match description {
        Some(d) => a.push(("description"@, JsonV::Str(d))),
        None => a,
    };
    match strict {
        Some(x) => b.push(("strict"@, JsonV::Bool(x))),
        None => b,
    }
}

spec fn schema_keys() -> Seq<Seq<char>> {
    seq!["name"@, "schema"@, "description"@, "strict"@]
}

proof fn schema_is_written(name: Seq<char>, schema: JsonV, description: Option<Seq<char>>, strict: Option<bool>)
    ensures
        response_format(OutputFormatV::JsonSchema { name: Some(name), description, schema, strict }) == object2(
            "type"@,
            JsonV::Str("json_schema"@),
            "json_schema"@,
            JsonV::Object(schema_members(name, schema, description, strict)),
        ),
        within(schema_members(name, schema, description, strict), schema_keys()),
{
    function_names();
    let k = schema_keys();
    assert(k[0] == "name"@ && k[1] == "schema"@ && k[2] == "description"@ && k[3] == "strict"@);
    let a = seq![("name"@, JsonV::Str(name)), ("schema"@, schema)];
    if let Some(d) = description {
        absent_is_not_read(a, "description"@, JsonV::Str(d));
    }
    let b = match description {
        Some(d) => a.push(("description"@, JsonV::Str(d))),
        None => a,
    };
    if let Some(x) = strict {
        absent_is_not_read(b, "strict"@, JsonV::Bool(x));
    }
}

/// What is read of a schema format in its canonical form.
proof fn schema_is_read(
    name: Seq<char>,
    schema: JsonV,
    description: Option<Seq<char>>,
    strict: Option<bool>,
    y: ObjV,
)
    requires
        avoids(y, schema_keys()),
    ensures
        ({
            let inner = schema_members(name, schema, description, strict) + y;
            &&& obj_get(inner, "schema"@) == Some(schema)
            &&& schema_rest(inner) == y
            &&& schema_format(seq![("json_schema"@, JsonV::Null)], inner, Seq::empty()).0 == OutputFormatV::JsonSchema {
                name: Some(name),
                description,
                schema,
                strict,
            }
        }),
{
    function_names();
    let k = schema_keys();
    assert(k[0] == "name"@ && k[1] == "schema"@ && k[2] == "description"@ && k[3] == "strict"@);
    avoided_is_absent(y, k, "name"@);
    avoided_is_absent(y, k, "schema"@);
    avoided_is_absent(y, k, "description"@);
    avoided_is_absent(y, k, "strict"@);
    let none = Seq::<(Seq<char>, JsonV)>::empty();
    let inner = schema_members(name, schema, description, strict) + y;
    first_named_is_read(inner, "schema"@, 1);
    removed_at(inner, "name"@, 0);
    let end = match strict {
        Some(x) => seq![("strict"@, JsonV::Bool(x))],
        None => none,
    };
    let mid = match description {
        Some(d) => seq![("description"@, JsonV::Str(d))],
        None => none,
    };
    let s1 = seq![("schema"@, schema)];
    let l1 = s1 + mid + end + y;
    assert(inner.remove(0) =~= l1);
    let l2 = s1 + end + y;
    match description {
        Some(d) => {
            removed_at(l1, "description"@, 1);
            assert(l1.remove(1) =~= l2);
        },
        None => {
            assert(l1 =~= l2);
            assert(absent(l1, "description"@)) by {
                assert forall|j: int| 0 <= j < l1.len() implies (#[trigger] l1[j]).0 != "description"@ by {
                    let n = 1 + end.len();
                    if j >= n {
                        assert(l1[j] == y[j - n]);
                    }
                }
            }
            absent_is_not_read(l1, "description"@, JsonV::Null);
        },
    }
    removed_at(l2, "schema"@, 0);
    let l3 = end + y;
    assert(l2.remove(0) =~= l3);
    match strict {
        Some(x) => {
            removed_at(l3, "strict"@, 0);
            assert(l3.remove(0) =~= y);
        },
        None => {
            assert(l3 =~= y);
            absent_is_not_read(y, "strict"@, JsonV::Null);
        },
    }
}

/// What is left of a schema has none of the modeled members.
proof fn schema_rest_is_apart(inner: ObjV)
    requires
        obj_wf(inner),
        typed_schema(inner),
    ensures
        avoids(schema_rest(inner), schema_keys()),
{
    function_names();
    let k = schema_keys();
    assert(k[0] == "name"@ && k[1] == "schema"@ && k[2] == "description"@ && k[3] == "strict"@);
    let l1 = taken_string(inner, "name"@).1;
    removed_member_is_gone(inner, "name"@);
    remove_keeps_other_members(inner, "name"@, "description"@);
    remove_keeps_other_members(inner, "name"@, "strict"@);
    assert(obj_wf(l1) && obj_get(l1, "name"@) is None);
    let l2 = taken_string(l1, "description"@).1;
    removed_member_is_gone(l1, "description"@);
    remove_keeps_other_members(l1, "description"@, "name"@);
    remove_keeps_other_members(l1, "description"@, "strict"@);
    let l3 = obj_remove(l2, "schema"@);
    removed_member_is_gone(l2, "schema"@);
    remove_keeps_other_members(l2, "schema"@, "name"@);
    remove_keeps_other_members(l2, "schema"@, "description"@);
    remove_keeps_other_members(l2, "schema"@, "strict"@);
    removed_member_is_gone(l3, "strict"@);
    remove_keeps_other_members(l3, "strict"@, "name"@);
    remove_keeps_other_members(l3, "strict"@, "description"@);
    remove_keeps_other_members(l3, "strict"@, "schema"@);
    let r = schema_rest(inner);
    unread_is_absent(r, "name"@);
    unread_is_absent(r, "schema"@);
    unread_is_absent(r, "description"@);
    unread_is_absent(r, "strict"@);
    assert forall|i: int| 0 <= i < r.len() implies !k.contains((#[trigger] r[i]).0) by {}
}

/// A schema format and the data beside it.
proof fn schema_data_is_merged(h: ObjV, y: ObjV, m1: ObjV)
    requires
        within(h, schema_keys()),
        avoids(y, schema_keys()),
        absent(m1, "type"@),
        absent(m1, "json_schema"@),
    ensures
        ({
            let t0 = seq![("type"@, JsonV::Str("json_schema"@)), ("json_schema"@, JsonV::Object(h))];
            let t1 = seq![
                ("type"@, JsonV::Str("json_schema"@)),
                ("json_schema"@, JsonV::Object(h + swept(y))),
            ];
            let m2 = nested(m1, "json_schema"@, y);
            let data = if m2.len() > 0 { Some(JsonV::Object(m2)) } else { None };
            combined(Some(JsonV::Object(t0)), data) == Some(JsonV::Object(t1 + swept(m1)))
        }),
{
    broadcast use obj_index_props;
    format_kinds();
    let none = Seq::<(Seq<char>, JsonV)>::empty();
    let k = "json_schema"@;
    let t0 = seq![("type"@, JsonV::Str("json_schema"@)), (k, JsonV::Object(h))];
    let t1 = seq![("type"@, JsonV::Str("json_schema"@)), (k, JsonV::Object(h + swept(y)))];
    known_are_apart(h, y, schema_keys());
    apart_data_is_appended(h, y, y.len());
    assert forall|i: int| 0 <= i < m1.len() implies absent(t0, (#[trigger] m1[i]).0) by {}
    apart_data_is_appended(t0, m1, m1.len());
    assert(h + none =~= h);
    assert(swept(none) == none);
    if y.len() == 0 {
        assert(y =~= none);
        if m1.len() == 0 {
            assert(m1 =~= none);
            assert(t1 + none =~= t0);
        }
    } else {
        absent_is_not_read(m1, k, JsonV::Object(y));
        let m2 = m1.push((k, JsonV::Object(y)));
        merge_front_members(t0, m1, (k, JsonV::Object(y)), m1.len());
        first_named_is_read(t0, k, 1);
        let r = JsonV::Object(h + swept(y));
        change_in_front(t0, swept(m1), k, r);
        assert(obj_set(t0, k, r) =~= t1) by {
            reveal(obj_set);
        }
    }
}

proof fn schema_format_settles(f: JsonV)
    requires
        steady_format(Some(f)),
        part_type(f) == Some("json_schema"@),
        json_as_object(json_get(f, "json_schema"@)) is Some,
        obj_has(json_as_object(json_get(f, "json_schema"@))->0, "schema"@),
        typed_schema(json_as_object(json_get(f, "json_schema"@))->0),
    ensures
        ({
            let r = format_value(Some(f));
            &&& format_field(r) is Some
            &&& format_value(r) == r
            &&& r != Some(JsonV::Null)
        }),
{
    format_kinds();
    function_names();
    let o = f->Object_0;
    let inner = json_as_object(json_get(f, "json_schema"@))->0;
    let out = format_of(Some(f), Seq::empty()).0->0;
    let name = match out->JsonSchema_name {
        Some(n) => n,
        None => "response"@,
    };
    let schema = out->JsonSchema_schema;
    let description = out->JsonSchema_description;
    let strict = out->JsonSchema_strict;
    schema_is_written(name, schema, description, strict);
    let h = schema_members(name, schema, description, strict);
    let l4 = schema_rest(inner);
    schema_rest_is_apart(inner);
    let o1 = obj_remove(o, "type"@);
    removed_member_is_gone(o, "type"@);
    let m1 = obj_remove(o1, "json_schema"@);
    removed_member_is_gone(o1, "json_schema"@);
    remove_keeps_other_members(o1, "json_schema"@, "type"@);
    unread_is_absent(m1, "type"@);
    unread_is_absent(m1, "json_schema"@);
    schema_data_is_merged(h, l4, m1);
    let y = swept(l4);
    swept_data_avoids(l4, schema_keys());
    swept_data_stays(l4);
    let z = swept(m1);
    swept_data_stays(m1);
    swept_data_lacks(m1, "type"@);
    swept_data_lacks(m1, "json_schema"@);
    let t1 = seq![("type"@, JsonV::Str("json_schema"@)), ("json_schema"@, JsonV::Object(h + y))];
    let r = JsonV::Object(t1 + z);
    assert(format_value(Some(f)) == Some(r));
    there(t1, z, "type"@, 0);
    there(t1, z, "json_schema"@, 1);
    schema_is_read(name, schema, description, strict, y);
    removed_at(t1 + z, "type"@, 0);
    let s1 = seq![("json_schema"@, JsonV::Object(h + y))];
    assert((t1 + z).remove(0) =~= s1 + z);
    removed_at(s1 + z, "json_schema"@, 0);
    assert((s1 + z).remove(0) =~= z);
    schema_data_is_merged(h, y, z);
    let again = format_of(Some(r), Seq::empty()).0->0;
    assert(again == OutputFormatV::JsonSchema { name: Some(name), description, schema, strict });
}

/// An output format keeps its canonical form.
pub proof fn format_settles(v: Option<JsonV>)
    requires
        v != Some(JsonV::Null),
        steady_format(v),
    ensures
        ({
            let r = format_value(v);
            &&& (format_field(r) is Some) == (format_field(v) is Some)
            &&& format_value(r) == r
            &&& r != Some(JsonV::Null)
        }),
{
    format_kinds();
    if let Some(f) = v {
        let inner = json_as_object(json_get(f, "json_schema"@));
        if part_type(f) == Some("json_schema"@) && inner is Some && obj_has(inner->0, "schema"@) {
            if typed_schema(inner->0) {
                schema_format_settles(f);
            }
        } else if part_type(f) == Some("json_object"@) {
            object_format_settles(f);
        } else {
            unmodeled_format_settles(f);
        }
    }
}

} // verus!
