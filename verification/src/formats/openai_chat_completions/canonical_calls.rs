//! Laws: `tool_calls` entries in their canonical form. What an entry becomes
//! on its way through the IR stays as it is from then on, of whatever type it
//! is.

use vstd::prelude::*;
use crate::formats::anthropic_messages::canonical_config::nothing_null;
use crate::assembly::{bodies_agree, body_is_assembled, body_of, combined, field_is_read, fields_have_no_nulls, no_field_is_read, no_null_fields, no_nulls, sound, FieldsV};
use crate::convert::ConversionWarningV;
use crate::decode::{extended, extended_upto, unknown, unknown_upto};
use crate::format::OPENAI_CHAT_COMPLETIONS;
use crate::formats::anthropic_messages::canonical_nodes::{extended_avoids, extended_behind};
use crate::formats::openai_chat_completions::assistant::{call_entry, call_type, TYPE_KEY};
use crate::formats::openai_chat_completions::canonical_parts::{avoided_is_absent, combined_stays, names_stay_distinct, no_nulls_are_left};
use crate::formats::openai_chat_completions::content::omerged;
use crate::formats::openai_chat_completions::from_ir::opt_text;
use crate::formats::openai_chat_completions::parse_parts::{call_block, call_kind, custom_payload, decodable, entry_mirror, function_payload, nested, odd_type, own_extra, CallKind};
use crate::formats::openai_chat_completions::round_trip_calls::call_names;
use crate::formats::openai_chat_completions::types;
use crate::ir::{extra_ns, non_null, ContentBlockV};
use crate::json::{obj_get, obj_index, obj_index_props, obj_set, obj_wf, object2, put_if, JsonV, ObjV};
use crate::json_laws::{remove_keeps_other_members, removed_member_is_gone, set_keeps_names_distinct, set_keeps_other_members, set_member_is_read};
use crate::merge::obj_part;
use crate::namespaces::{absent, absent_is_not_read, avoids, clean, extended_nothing, first_named_is_read, front_members_are_read, members_behind_are_read, merges_in_turn, names_differ, nothing_is_dropped, put_all, put_fields_are_distinct, put_fields_are_known, put_fields_are_named, put_fields_are_read, there, unknown_avoids, unmodeled_members_are_kept, within};
use crate::sweep::{apart_data_is_appended, clean_data_is_swept, clean_member_by_member, fields_are_merged, kept, kept_fields_stay, known_are_apart, non_null_avoids, swept, swept_data_avoids, swept_data_is_clean, swept_data_lacks, swept_data_stays, swept_member, swept_member_is_read};

verus! {

/// Unmodeled members as provider data: each once, and none that is `null`.
pub open spec fn rest_of(x: ObjV) -> ObjV {
    non_null(extended(Seq::empty(), x), extended(Seq::empty(), x).len())
}

pub proof fn rest_is_sound(x: ObjV, known: Seq<Seq<char>>)
    requires
        avoids(x, known),
    ensures
        obj_wf(rest_of(x)),
        no_nulls(rest_of(x)),
        avoids(rest_of(x), known),
        clean(swept(rest_of(x))),
        avoids(swept(rest_of(x)), known),
{
    let e = extended(Seq::empty(), x);
    extended_avoids(x, known, x.len());
    extended_is_distinct(x, x.len());
    names_stay_distinct(e, e.len());
    no_nulls_are_left(e, e.len());
    non_null_avoids(e, known);
    swept_data_is_clean(rest_of(x));
    swept_data_avoids(rest_of(x), known);
}

proof fn extended_is_distinct(x: ObjV, n: nat)
    requires
        n <= x.len(),
    ensures
        obj_wf(extended_upto(Seq::empty(), x, n)),
    decreases n,
{
    if n > 0 {
        extended_is_distinct(x, (n - 1) as nat);
        set_keeps_names_distinct(
            extended_upto(Seq::empty(), x, (n - 1) as nat),
            x[n - 1].0,
            x[n - 1].1,
        );
    }
}

/// Members that were swept are provider data as they are.
pub proof fn swept_rest_stays(x: ObjV)
    ensures
        rest_of(swept(x)) == swept(x),
        swept(swept(x)) == swept(x),
{
    swept_data_is_clean(x);
    swept_data_stays(x);
    let c = swept(x);
    extended_nothing(c);
    nothing_is_dropped(c, c.len());
    assert(c.take(c.len() as int) =~= c);
}

/// What an entry is read as; nothing when it is skipped.
pub open spec fn read_call(entry: JsonV) -> Option<ContentBlockV> {
    call_block(entry, Seq::empty(), Seq::empty()).0
}

/// Reading an entry depends on nothing else.
pub proof fn call_is_read_anywhere(entry: JsonV, ptr: Seq<char>, ws: Seq<ConversionWarningV>)
    ensures
        call_block(entry, ptr, ws).0 == read_call(entry),
{
}

/// What a call is written as; nothing when it cannot be.
pub open spec fn call_value(b: ContentBlockV) -> Option<JsonV> {
    match b {
        ContentBlockV::ToolCall { id, name, arguments, cache, extra } => match call_entry(
            id,
            name,
            arguments,
            extra,
            Seq::empty(),
        ) {
            Ok(v) => Some(omerged(extra, v)),
            Err(_) => None,
        },
        _ => None,
    }
}

/// The members of a payload.
spec fn payload_members(name: Option<Seq<char>>, k: Seq<char>, text: Option<Seq<char>>) -> FieldsV {
    seq![
        ("name"@, opt_text(name)),
        (k, opt_text(text)),
    ]
}

/// An encoded payload is put together from its members.
proof fn payload_is_put(name: Option<Seq<char>>, k: Seq<char>, text: Option<Seq<char>>, x: ObjV)
    requires
        k != "name"@,
        avoids(x, seq!["name"@, k]),
    ensures
        ({
            let o1 = match name {
                Some(s) => obj_set(Seq::empty(), "name"@, JsonV::Str(s)),
                None => Seq::empty(),
            };
            let o2 = match text {
                Some(s) => obj_set(o1, k, JsonV::Str(s)),
                None => o1,
            };
            let l = payload_members(name, k, text);
            &&& o2 == put_all(l, 2)
            &&& extended(o2, x) == put_all(l, 2) + extended(Seq::empty(), x)
            &&& within(put_all(l, 2), seq!["name"@, k])
        }),
{
    let l = payload_members(name, k, text);
    let known = seq!["name"@, k];
    assert(known[0] == "name"@ && known[1] == k);
    assert(put_all(l, 0) == Seq::<(Seq<char>, JsonV)>::empty());
    assert(put_all(l, 1) == put_if(put_all(l, 0), l[0].0, l[0].1));
    assert(put_all(l, 2) == put_if(put_all(l, 1), l[1].0, l[1].1));
    put_fields_are_known(l, 2, known);
    known_are_apart(put_all(l, 2), x, known);
    extended_behind(put_all(l, 2), x, x.len());
}

/// The swept form of an encoded payload is read and encoded as it is.
proof fn payload_settles(name: Option<Seq<char>>, k: Seq<char>, text: Option<Seq<char>>, x: ObjV)
    requires
        k != "name"@,
        avoids(x, seq!["name"@, k]),
    ensures
        ({
            let l = payload_members(name, k, text);
            let o = put_all(l, 2) + extended(Seq::empty(), x);
            let y = swept(extended(Seq::empty(), x));
            &&& swept(o) == put_all(l, 2) + y
            &&& obj_get(swept(o), "name"@) == l[0].1
            &&& obj_get(swept(o), k) == l[1].1
            &&& unknown(swept(o), seq!["name"@, k]) == y
            &&& avoids(y, seq!["name"@, k])
            &&& extended(Seq::empty(), y) == y
            &&& swept(swept(o)) == swept(o)
        }),
{
    let l = payload_members(name, k, text);
    let known = seq!["name"@, k];
    assert(known[0] == "name"@ && known[1] == k);
    let none = Seq::<(Seq<char>, JsonV)>::empty();
    let h = put_all(l, 2);
    payload_is_put(name, k, text, x);
    let e = extended(none, x);
    assert(avoids(e, known)) by {
        extended_avoids(x, known, x.len());
    }
    let y = swept(e);
    swept_data_avoids(e, known);
    swept_data_is_clean(e);
    // The texts are swept to themselves.
    assert(put_all(l, 0) == none);
    assert(put_all(l, 1) == put_if(put_all(l, 0), l[0].0, l[0].1));
    assert(h == put_if(put_all(l, 1), l[1].0, l[1].1));
    assert(names_differ(l));
    put_fields_are_distinct(l, 2);
    assert(clean(h)) by {
        if name is Some {
            absent_is_not_read(none, "name"@, l[0].1->0);
        }
        if text is Some {
            assert(absent(put_all(l, 1), k)) by {
                if name is Some {
                    assert(put_all(l, 1) =~= seq![("name"@, l[0].1->0)]);
                }
            }
            absent_is_not_read(put_all(l, 1), k, l[1].1->0);
        }
        clean_member_by_member(h);
    }
    clean_data_is_swept(h);
    merges_in_turn(none, h, e, e.len());
    known_are_apart(h, e, known);
    apart_data_is_appended(h, e, e.len());
    unmodeled_members_are_kept(h, y, known);
    put_fields_are_read(l, 2, 0);
    put_fields_are_read(l, 2, 1);
    front_members_are_read(h, y, known, "name"@);
    front_members_are_read(h, y, known, k);
    extended_nothing(y);
    swept_data_stays(h + e);
}

/// The data of an entry: what is nested, what is mirrored beside it, and the
/// unmodeled members.
pub proof fn entry_data(nl: FieldsV, x: ObjV, known: Seq<Seq<char>>)
    requires
        names_differ(nl),
        forall|i: int| 0 <= i < nl.len() ==> known.contains((#[trigger] nl[i]).0),
        no_null_fields(nl),
        avoids(x, known),
    ensures
        ({
            let f = extended(put_all(nl, nl.len()), x);
            non_null(f, f.len()) == put_all(nl, nl.len()) + rest_of(x)
        }),
        obj_wf(rest_of(x)),
        no_nulls(rest_of(x)),
        avoids(rest_of(x), known),
{
    let p = put_all(nl, nl.len());
    let none = Seq::<(Seq<char>, JsonV)>::empty();
    put_fields_are_known(nl, nl.len(), known);
    known_are_apart(p, x, known);
    extended_behind(p, x, x.len());
    rest_is_sound(x, known);
    let e = extended(none, x);
    fields_have_no_nulls(nl, nl.len());
    non_null_joins(p, e, e.len());
    nothing_null(p);
}

pub proof fn non_null_joins(a: ObjV, b: ObjV, n: nat)
    requires
        n <= b.len(),
    ensures
        non_null(a + b, a.len() + n) == non_null(a, a.len()) + non_null(b, n),
    decreases n,
{
    if n == 0 {
        non_null_of_front(a, b, a.len());
        assert(non_null(a, a.len()) + non_null(b, 0) =~= non_null(a, a.len()));
    } else {
        non_null_joins(a, b, (n - 1) as nat);
        assert((a + b)[a.len() + n - 1] == b[n - 1]);
        assert(non_null(a + b, a.len() + n) =~= non_null(a, a.len()) + non_null(b, n));
    }
}

proof fn non_null_of_front(a: ObjV, b: ObjV, n: nat)
    requires
        n <= a.len(),
    ensures
        non_null(a + b, n) == non_null(a, n),
    decreases n,
{
    if n > 0 {
        non_null_of_front(a, b, (n - 1) as nat);
        assert((a + b)[n - 1] == a[n - 1]);
    }
}

/// The payload of a call with the data nested in it.
spec fn call_payload(name: Seq<char>, k: Seq<char>, text: Seq<char>) -> JsonV {
    object2("name"@, JsonV::Str(name), k, JsonV::Str(text))
}

/// Nested members, where there are some.
pub open spec fn some_members(x: ObjV) -> Option<JsonV> {
    if x.len() > 0 {
        Some(JsonV::Object(x))
    } else {
        None
    }
}

/// Fields of an entry that names its payload `own`, and mirrors one under
/// `other`.
spec fn entry_fields(id: Seq<char>, own: Seq<char>, payload: JsonV) -> FieldsV {
    seq![("id"@, Some(JsonV::Str(id))), ("type"@, Some(JsonV::Str(own))), (own, Some(payload))]
}

/// Data fields of a function call.
spec fn function_data(x: ObjV, other: Option<JsonV>) -> FieldsV {
    seq![("function"@, some_members(x)), ("custom"@, other)]
}

/// Data fields of a custom call.
spec fn custom_data_fields(x: ObjV, other: Option<JsonV>) -> FieldsV {
    seq![("type"@, Some(JsonV::Str("custom"@))), ("custom"@, some_members(x)), ("function"@, other)]
}

/// The payload under the other name.
spec fn other_payload(c: Option<types::CustomCallPayloadV>) -> Option<JsonV> {
    match c {
        Some(c) => Some(types::encode_custom_call_payload(c)),
        None => None,
    }
}

/// A function entry in its canonical form.
spec fn function_body(
    id: Seq<char>,
    name: Seq<char>,
    arguments: Seq<char>,
    x: ObjV,
    c: Option<types::CustomCallPayloadV>,
    e: ObjV,
) -> ObjV {
    body_of(
        entry_fields(id, "function"@, call_payload(name, "arguments"@, arguments)),
        function_data(x, other_payload(c)),
        rest_of(e),
    )
}

/// What the data of a payload comes to.
proof fn payload_data(name: Seq<char>, k: Seq<char>, text: Seq<char>, x: ObjV)
    requires
        k != "name"@,
        avoids(x, seq!["name"@, k]),
    ensures
        ({
            let h = seq![("name"@, JsonV::Str(name)), (k, JsonV::Str(text))];
            &&& combined(Some(call_payload(name, k, text)), some_members(x)) == Some(JsonV::Object(h + swept(x)))
            &&& combined(Some(call_payload(name, k, text)), some_members(swept(x))) == Some(
                JsonV::Object(h + swept(x)),
            )
            &&& obj_get(h + swept(x), "name"@) == Some(JsonV::Str(name))
            &&& obj_get(h + swept(x), k) == Some(JsonV::Str(text))
            &&& unknown(h + swept(x), seq!["name"@, k]) == swept(x)
            &&& avoids(swept(x), seq!["name"@, k])
        }),
{
    let h = seq![("name"@, JsonV::Str(name)), (k, JsonV::Str(text))];
    let pk = seq!["name"@, k];
    assert(pk[0] == "name"@ && pk[1] == k);
    assert(within(h, pk));
    let y = swept(x);
    swept_data_avoids(x, pk);
    swept_data_stays(x);
    known_are_apart(h, x, pk);
    apart_data_is_appended(h, x, x.len());
    known_are_apart(h, y, pk);
    apart_data_is_appended(h, y, y.len());
    unmodeled_members_are_kept(h, y, pk);
    there(h, y, "name"@, 0);
    there(h, y, k, 1);
    let none = Seq::<(Seq<char>, JsonV)>::empty();
    assert(h + none =~= h);
    if x.len() == 0 {
        assert(x =~= none);
        assert(swept(none) == none);
    }
    if y.len() == 0 {
        assert(y =~= none);
    }
}

proof fn function_entry_is_decoded(
    id: Seq<char>,
    name: Seq<char>,
    arguments: Seq<char>,
    x: ObjV,
    c: Option<types::CustomCallPayloadV>,
    e: ObjV,
)
    requires
        avoids(e, types::tool_call_entry_keys()),
        avoids(x, types::function_call_payload_keys()),
        c is Some ==> avoids(c->0.extra, types::custom_call_payload_keys()),
    ensures
        ({
            let u = JsonV::Object(function_body(id, name, arguments, x, c, e));
            &&& !odd_type(u)
            &&& types::decode_tool_call_entry(u) == Ok::<types::ToolCallEntryV, Seq<char>>(
                types::ToolCallEntryV {
                    id: Some(id),
                    call_type: Some("function"@),
                    function: Some(
                        types::FunctionCallPayloadV { name: Some(name), arguments: Some(arguments), extra: swept(x) },
                    ),
                    custom: custom_of_swept(c),
                    extra: swept(rest_of(e)),
                },
            )
        }),
{
    call_names();
    let known = types::tool_call_entry_keys();
    assert(known[0] == "id"@ && known[1] == "type"@ && known[2] == "function"@ && known[3] == "custom"@);
    let l = entry_fields(id, "function"@, call_payload(name, "arguments"@, arguments));
    let nl = function_data(x, other_payload(c));
    let body = function_body(id, name, arguments, x, c, e);
    function_entry_is_sound(id, name, arguments, x, c, e);
    body_is_assembled(l, nl, rest_of(e), known);
    assert(types::function_call_payload_keys() =~= seq!["name"@, "arguments"@]);
    payload_data(name, "arguments"@, arguments, x);
    field_is_read(nl, 0);
    field_is_read(nl, 1);
    no_field_is_read(nl, "id"@);
    no_field_is_read(nl, "type"@);
    put_fields_are_read(l, 3, 0);
    put_fields_are_read(l, 3, 1);
    put_fields_are_read(l, 3, 2);
    put_fields_are_named(l, 3, "custom"@);
    absent_is_not_read(put_all(l, 3), "custom"@, JsonV::Null);
    assert(obj_get(body, "id"@) == Some(JsonV::Str(id)));
    assert(obj_get(body, "type"@) == Some(JsonV::Str("function"@)));
    assert(obj_get(body, "function"@) == combined(l[2].1, nl[0].1));
    assert(obj_get(body, "custom"@) == combined(None, nl[1].1));
    custom_payload_settles(c);
}

proof fn function_entry_stays(
    id: Seq<char>,
    name: Seq<char>,
    arguments: Seq<char>,
    x: ObjV,
    c: Option<types::CustomCallPayloadV>,
    e: ObjV,
)
    requires
        avoids(e, types::tool_call_entry_keys()),
        avoids(x, types::function_call_payload_keys()),
        c is Some ==> avoids(c->0.extra, types::custom_call_payload_keys()),
    ensures
        function_body(id, name, arguments, swept(x), custom_of_swept(c), swept(rest_of(e))) == function_body(
            id,
            name,
            arguments,
            x,
            c,
            e,
        ),
{
    call_names();
    let known = types::tool_call_entry_keys();
    let l = entry_fields(id, "function"@, call_payload(name, "arguments"@, arguments));
    let nl = function_data(x, other_payload(c));
    let c2 = custom_of_swept(c);
    let nl2 = function_data(swept(x), other_payload(c2));
    let e2 = swept(rest_of(e));
    assert(types::function_call_payload_keys() =~= seq!["name"@, "arguments"@]);
    payload_data(name, "arguments"@, arguments, x);
    rest_is_sound(e, known);
    swept_rest_stays(rest_of(e));
    function_entry_is_sound(id, name, arguments, x, c, e);
    function_entry_is_sound(id, name, arguments, swept(x), c2, e2);
    field_is_read(nl, 0);
    field_is_read(nl, 1);
    no_field_is_read(nl, "id"@);
    no_field_is_read(nl, "type"@);
    field_is_read(nl2, 0);
    field_is_read(nl2, 1);
    no_field_is_read(nl2, "id"@);
    no_field_is_read(nl2, "type"@);
    put_fields_are_read(l, 3, 2);
    put_fields_are_named(l, 3, "custom"@);
    absent_is_not_read(put_all(l, 3), "custom"@, JsonV::Null);
    custom_payload_settles(c);
    combined_stays(other_payload(c));
    bodies_agree(l, nl, rest_of(e), l, nl2, rest_of(e2), known);
}

/// The entry of a function call keeps its canonical form.
proof fn function_entry_settles(entry: JsonV)
    requires
        types::decode_tool_call_entry(decodable(entry)) is Ok,
        call_kind(types::decode_tool_call_entry(decodable(entry))->Ok_0, odd_type(entry)) == CallKind::Function,
    ensures
        match call_value(read_call(entry)->0) {
            Some(u) => read_call(u) is Some && call_value(read_call(u)->0) == Some(u),
            None => true,
        },
{
    let w = types::decode_tool_call_entry(decodable(entry))->Ok_0;
    let o = entry->Object_0;
    let p = function_payload(w.function);
    function_payload_avoids(o);
    let name = match p.name {
        Some(s) => s,
        None => Seq::empty(),
    };
    let arguments = match p.arguments {
        Some(s) => s,
        None => Seq::empty(),
    };
    function_entry_is_written(w.id, name, arguments, p.extra, w.custom, w.extra);
    if let Some(id) = w.id {
        let u = JsonV::Object(function_body(id, name, arguments, p.extra, w.custom, w.extra));
        assert(call_value(read_call(entry)->0) == Some(u));
        function_entry_is_decoded(id, name, arguments, p.extra, w.custom, w.extra);
        let e2 = swept(rest_of(w.extra));
        rest_is_sound(w.extra, types::tool_call_entry_keys());
        function_entry_is_written(Some(id), name, arguments, swept(p.extra), custom_of_swept(w.custom), e2);
        function_entry_stays(id, name, arguments, p.extra, w.custom, w.extra);
    }
}

/// The payload of a custom call, swept.
spec fn custom_of_swept(c: Option<types::CustomCallPayloadV>) -> Option<types::CustomCallPayloadV> {
    match c {
        Some(c) => Some(types::CustomCallPayloadV { extra: swept(extended(Seq::empty(), c.extra)), ..c }),
        None => None,
    }
}

/// An encoded payload that is swept stands for the payload, swept.
proof fn custom_payload_settles(c: Option<types::CustomCallPayloadV>)
    requires
        c is Some ==> avoids(c->0.extra, types::custom_call_payload_keys()),
    ensures
        match c {
            Some(c) => {
                let v = types::encode_custom_call_payload(c);
                let v2 = combined(None, Some(v))->0;
                let c2 = custom_of_swept(Some(c))->0;
                &&& v is Object
                &&& v2 is Object
                &&& types::decode_custom_call_payload(v2) == Ok::<types::CustomCallPayloadV, Seq<char>>(c2)
                &&& types::encode_custom_call_payload(c2) == v2
                &&& avoids(c2.extra, types::custom_call_payload_keys())
            },
            None => true,
        },
{
    call_names();
    if let Some(c) = c {
        let k = types::custom_call_payload_keys();
        assert(k =~= seq!["name"@, "input"@]);
        payload_is_put(c.name, "input"@, c.input, c.extra);
        payload_settles(c.name, "input"@, c.input, c.extra);
        let y = swept(extended(Seq::empty(), c.extra));
        payload_is_put(c.name, "input"@, c.input, y);
        assert(obj_part(None) == Seq::<(Seq<char>, JsonV)>::empty());
    }
}

proof fn function_payload_avoids(o: ObjV)
    ensures
        match types::decode_tool_call_entry(decodable(JsonV::Object(o))) {
            Ok(w) => {
                &&& w.function is Some ==> avoids(w.function->0.extra, types::function_call_payload_keys())
                &&& w.custom is Some ==> avoids(w.custom->0.extra, types::custom_call_payload_keys())
                &&& avoids(w.extra, types::tool_call_entry_keys())
            },
            Err(_) => true,
        },
{
    if let Ok(w) = types::decode_tool_call_entry(decodable(JsonV::Object(o))) {
        let d = decodable(JsonV::Object(o))->Object_0;
        unknown_avoids(d, types::tool_call_entry_keys(), d.len());
        if let Some(JsonV::Object(f)) = obj_get(d, "function"@) {
            unknown_avoids(f, types::function_call_payload_keys(), f.len());
        }
        if let Some(JsonV::Object(f)) = obj_get(d, "custom"@) {
            unknown_avoids(f, types::custom_call_payload_keys(), f.len());
        }
    }
}

/// Fields and data of a function entry are sound.
proof fn function_entry_is_sound(
    id: Seq<char>,
    name: Seq<char>,
    arguments: Seq<char>,
    x: ObjV,
    c: Option<types::CustomCallPayloadV>,
    e: ObjV,
)
    requires
        avoids(e, types::tool_call_entry_keys()),
    ensures
        ({
            sound(
                entry_fields(id, "function"@, call_payload(name, "arguments"@, arguments)),
                function_data(x, other_payload(c)),
                rest_of(e),
                types::tool_call_entry_keys(),
            )
        }),
{
    call_names();
    let known = types::tool_call_entry_keys();
    assert(known[0] == "id"@ && known[1] == "type"@ && known[2] == "function"@ && known[3] == "custom"@);
    rest_is_sound(e, known);
    let other = other_payload(c);
    let l = entry_fields(id, "function"@, call_payload(name, "arguments"@, arguments));
    let nl = function_data(x, other);
    assert forall|i: int| 0 <= i < l.len() implies known.contains((#[trigger] l[i]).0) by {}
    assert forall|i: int| 0 <= i < nl.len() implies known.contains((#[trigger] nl[i]).0) by {}
}

/// What a function call becomes.
proof fn function_entry_is_written(
    id: Option<Seq<char>>,
    name: Seq<char>,
    arguments: Seq<char>,
    x: ObjV,
    c: Option<types::CustomCallPayloadV>,
    e: ObjV,
)
    requires
        avoids(e, types::tool_call_entry_keys()),
    ensures
        ({
            let ns1 = nested(Seq::empty(), "function"@, x);
            let ns2 = match c {
                Some(c) => obj_set(ns1, "custom"@, types::encode_custom_call_payload(c)),
                None => ns1,
            };
            let b = ContentBlockV::ToolCall {
                id,
                name,
                arguments,
                cache: None,
                extra: own_extra(extended(ns2, e)),
            };
            call_value(b) == match id {
                Some(id) => Some(JsonV::Object(function_body(id, name, arguments, x, c, e))),
                None => None,
            }
        }),
{
    call_names();
    let known = types::tool_call_entry_keys();
    assert(known[0] == "id"@ && known[1] == "type"@ && known[2] == "function"@ && known[3] == "custom"@);
    let nl = function_data(x, other_payload(c));
    let none = Seq::<(Seq<char>, JsonV)>::empty();
    function_entry_is_sound(none_text(), name, arguments, x, c, e);
    assert(put_all(nl, 0) == none);
    assert(put_all(nl, 1) == put_if(put_all(nl, 0), nl[0].0, nl[0].1));
    assert(put_all(nl, 2) == put_if(put_all(nl, 1), nl[1].0, nl[1].1));
    entry_data(nl, e, known);
    let f = extended(put_all(nl, 2), e);
    let ns = put_all(nl, 2) + rest_of(e);
    fields_are_merged(OPENAI_CHAT_COMPLETIONS@, none, f);
    front_members_are_read(put_all(nl, 2), rest_of(e), known, "type"@);
    put_fields_are_named(nl, 2, "type"@);
    absent_is_not_read(put_all(nl, 2), "type"@, JsonV::Null);
    assert(extra_ns(own_extra(f), OPENAI_CHAT_COMPLETIONS@) == ns);
    assert(call_type(own_extra(f)) is None);
    if let Some(id) = id {
        function_entry_is_sound(id, name, arguments, x, c, e);
        let l = entry_fields(id, "function"@, call_payload(name, "arguments"@, arguments));
        put_three(l);
        fields_are_merged(OPENAI_CHAT_COMPLETIONS@, put_all(l, 3), f);
    }
}

spec fn none_text() -> Seq<char> {
    Seq::empty()
}

/// The payload under the other name.
spec fn other_function(c: Option<types::FunctionCallPayloadV>) -> Option<JsonV> {
    match c {
        Some(c) => Some(types::encode_function_call_payload(c)),
        None => None,
    }
}

/// The payload of a function call, swept.
spec fn function_of_swept(c: Option<types::FunctionCallPayloadV>) -> Option<types::FunctionCallPayloadV> {
    match c {
        Some(c) => Some(types::FunctionCallPayloadV { extra: swept(extended(Seq::empty(), c.extra)), ..c }),
        None => None,
    }
}

/// An encoded payload that is swept stands for the payload, swept.
proof fn function_payload_settles(c: Option<types::FunctionCallPayloadV>)
    requires
        c is Some ==> avoids(c->0.extra, types::function_call_payload_keys()),
    ensures
        match c {
            Some(c) => {
                let v = types::encode_function_call_payload(c);
                let v2 = combined(None, Some(v))->0;
                let c2 = function_of_swept(Some(c))->0;
                &&& v is Object
                &&& v2 is Object
                &&& types::decode_function_call_payload(v2) == Ok::<types::FunctionCallPayloadV, Seq<char>>(c2)
                &&& types::encode_function_call_payload(c2) == v2
                &&& avoids(c2.extra, types::function_call_payload_keys())
            },
            None => true,
        },
{
    call_names();
    if let Some(c) = c {
        let k = types::function_call_payload_keys();
        assert(k =~= seq!["name"@, "arguments"@]);
        payload_is_put(c.name, "arguments"@, c.arguments, c.extra);
        payload_settles(c.name, "arguments"@, c.arguments, c.extra);
        let y = swept(extended(Seq::empty(), c.extra));
        payload_is_put(c.name, "arguments"@, c.arguments, y);
        assert(obj_part(None) == Seq::<(Seq<char>, JsonV)>::empty());
    }
}

/// A custom entry in its canonical form.
spec fn custom_body(
    id: Seq<char>,
    name: Seq<char>,
    input: Seq<char>,
    x: ObjV,
    c: Option<types::FunctionCallPayloadV>,
    e: ObjV,
) -> ObjV {
    body_of(
        entry_fields(id, "custom"@, call_payload(name, "input"@, input)),
        custom_data_fields(x, other_function(c)),
        rest_of(e),
    )
}

proof fn custom_entry_is_sound(
    id: Seq<char>,
    name: Seq<char>,
    input: Seq<char>,
    x: ObjV,
    c: Option<types::FunctionCallPayloadV>,
    e: ObjV,
)
    requires
        avoids(e, types::tool_call_entry_keys()),
    ensures
        sound(
            entry_fields(id, "custom"@, call_payload(name, "input"@, input)),
            custom_data_fields(x, other_function(c)),
            rest_of(e),
            types::tool_call_entry_keys(),
        ),
{
    call_names();
    let known = types::tool_call_entry_keys();
    assert(known[0] == "id"@ && known[1] == "type"@ && known[2] == "function"@ && known[3] == "custom"@);
    rest_is_sound(e, known);
    let l = entry_fields(id, "custom"@, call_payload(name, "input"@, input));
    let nl = custom_data_fields(x, other_function(c));
    assert forall|i: int| 0 <= i < l.len() implies known.contains((#[trigger] l[i]).0) by {}
    assert forall|i: int| 0 <= i < nl.len() implies known.contains((#[trigger] nl[i]).0) by {}
}

/// What a custom call becomes.
proof fn custom_entry_is_written(
    id: Option<Seq<char>>,
    name: Seq<char>,
    input: Seq<char>,
    x: ObjV,
    c: Option<types::FunctionCallPayloadV>,
    e: ObjV,
)
    requires
        avoids(e, types::tool_call_entry_keys()),
    ensures
        ({
            let ns0 = obj_set(Seq::empty(), TYPE_KEY@, JsonV::Str("custom"@));
            let ns1 = nested(ns0, "custom"@, x);
            let ns2 = match c {
                Some(c) => obj_set(ns1, "function"@, types::encode_function_call_payload(c)),
                None => ns1,
            };
            let b = ContentBlockV::ToolCall {
                id,
                name,
                arguments: input,
                cache: None,
                extra: own_extra(extended(ns2, e)),
            };
            call_value(b) == match id {
                Some(id) => Some(JsonV::Object(custom_body(id, name, input, x, c, e))),
                None => None,
            }
        }),
{
    call_names();
    let known = types::tool_call_entry_keys();
    assert(known[0] == "id"@ && known[1] == "type"@ && known[2] == "function"@ && known[3] == "custom"@);
    let nl = custom_data_fields(x, other_function(c));
    let none = Seq::<(Seq<char>, JsonV)>::empty();
    custom_entry_is_sound(none_text(), name, input, x, c, e);
    assert(put_all(nl, 0) == none);
    assert(put_all(nl, 1) == put_if(put_all(nl, 0), nl[0].0, nl[0].1));
    assert(put_all(nl, 2) == put_if(put_all(nl, 1), nl[1].0, nl[1].1));
    assert(put_all(nl, 3) == put_if(put_all(nl, 2), nl[2].0, nl[2].1));
    entry_data(nl, e, known);
    let f = extended(put_all(nl, 3), e);
    let ns = put_all(nl, 3) + rest_of(e);
    fields_are_merged(OPENAI_CHAT_COMPLETIONS@, none, f);
    front_members_are_read(put_all(nl, 3), rest_of(e), known, "type"@);
    put_fields_are_read(nl, 3, 0);
    assert(extra_ns(own_extra(f), OPENAI_CHAT_COMPLETIONS@) == ns);
    assert("custom"@ != "function"@);
    assert(call_type(own_extra(f)) == Some(JsonV::Str("custom"@)));
    if let Some(id) = id {
        custom_entry_is_sound(id, name, input, x, c, e);
        let l = entry_fields(id, "custom"@, call_payload(name, "input"@, input));
        put_three(l);
        fields_are_merged(OPENAI_CHAT_COMPLETIONS@, put_all(l, 3), f);
    }
}

proof fn custom_entry_is_decoded(
    id: Seq<char>,
    name: Seq<char>,
    input: Seq<char>,
    x: ObjV,
    c: Option<types::FunctionCallPayloadV>,
    e: ObjV,
)
    requires
        avoids(e, types::tool_call_entry_keys()),
        avoids(x, types::custom_call_payload_keys()),
        c is Some ==> avoids(c->0.extra, types::function_call_payload_keys()),
    ensures
        ({
            let u = JsonV::Object(custom_body(id, name, input, x, c, e));
            &&& !odd_type(u)
            &&& types::decode_tool_call_entry(u) == Ok::<types::ToolCallEntryV, Seq<char>>(
                types::ToolCallEntryV {
                    id: Some(id),
                    call_type: Some("custom"@),
                    custom: Some(
                        types::CustomCallPayloadV { name: Some(name), input: Some(input), extra: swept(x) },
                    ),
                    function: function_of_swept(c),
                    extra: swept(rest_of(e)),
                },
            )
        }),
{
    call_names();
    let known = types::tool_call_entry_keys();
    assert(known[0] == "id"@ && known[1] == "type"@ && known[2] == "function"@ && known[3] == "custom"@);
    let l = entry_fields(id, "custom"@, call_payload(name, "input"@, input));
    let nl = custom_data_fields(x, other_function(c));
    let body = custom_body(id, name, input, x, c, e);
    custom_entry_is_sound(id, name, input, x, c, e);
    body_is_assembled(l, nl, rest_of(e), known);
    assert(types::custom_call_payload_keys() =~= seq!["name"@, "input"@]);
    payload_data(name, "input"@, input, x);
    field_is_read(nl, 0);
    field_is_read(nl, 1);
    field_is_read(nl, 2);
    no_field_is_read(nl, "id"@);
    put_fields_are_read(l, 3, 0);
    put_fields_are_read(l, 3, 1);
    put_fields_are_read(l, 3, 2);
    put_fields_are_named(l, 3, "function"@);
    absent_is_not_read(put_all(l, 3), "function"@, JsonV::Null);
    assert(obj_get(body, "id"@) == Some(JsonV::Str(id)));
    assert(obj_get(body, "type"@) == Some(JsonV::Str("custom"@)));
    assert(obj_get(body, "custom"@) == combined(l[2].1, nl[1].1));
    assert(obj_get(body, "function"@) == combined(None, nl[2].1));
    function_payload_settles(c);
}

proof fn custom_entry_stays(
    id: Seq<char>,
    name: Seq<char>,
    input: Seq<char>,
    x: ObjV,
    c: Option<types::FunctionCallPayloadV>,
    e: ObjV,
)
    requires
        avoids(e, types::tool_call_entry_keys()),
        avoids(x, types::custom_call_payload_keys()),
        c is Some ==> avoids(c->0.extra, types::function_call_payload_keys()),
    ensures
        custom_body(id, name, input, swept(x), function_of_swept(c), swept(rest_of(e))) == custom_body(
            id,
            name,
            input,
            x,
            c,
            e,
        ),
{
    call_names();
    let known = types::tool_call_entry_keys();
    let l = entry_fields(id, "custom"@, call_payload(name, "input"@, input));
    let nl = custom_data_fields(x, other_function(c));
    let c2 = function_of_swept(c);
    let nl2 = custom_data_fields(swept(x), other_function(c2));
    let e2 = swept(rest_of(e));
    assert(types::custom_call_payload_keys() =~= seq!["name"@, "input"@]);
    payload_data(name, "input"@, input, x);
    rest_is_sound(e, known);
    swept_rest_stays(rest_of(e));
    custom_entry_is_sound(id, name, input, x, c, e);
    custom_entry_is_sound(id, name, input, swept(x), c2, e2);
    field_is_read(nl, 0);
    field_is_read(nl, 1);
    field_is_read(nl, 2);
    no_field_is_read(nl, "id"@);
    field_is_read(nl2, 0);
    field_is_read(nl2, 1);
    field_is_read(nl2, 2);
    no_field_is_read(nl2, "id"@);
    put_fields_are_read(l, 3, 1);
    put_fields_are_read(l, 3, 2);
    put_fields_are_named(l, 3, "function"@);
    absent_is_not_read(put_all(l, 3), "function"@, JsonV::Null);
    function_payload_settles(c);
    combined_stays(other_function(c));
    bodies_agree(l, nl, rest_of(e), l, nl2, rest_of(e2), known);
}

/// The entry of a custom call keeps its canonical form.
proof fn custom_entry_settles(entry: JsonV)
    requires
        types::decode_tool_call_entry(decodable(entry)) is Ok,
        call_kind(types::decode_tool_call_entry(decodable(entry))->Ok_0, odd_type(entry)) == CallKind::Custom,
    ensures
        match call_value(read_call(entry)->0) {
            Some(u) => read_call(u) is Some && call_value(read_call(u)->0) == Some(u),
            None => true,
        },
{
    call_names();
    let w = types::decode_tool_call_entry(decodable(entry))->Ok_0;
    let o = entry->Object_0;
    let p = custom_payload(w.custom);
    function_payload_avoids(o);
    let name = match p.name {
        Some(s) => s,
        None => Seq::empty(),
    };
    let input = match p.input {
        Some(s) => s,
        None => Seq::empty(),
    };
    custom_entry_is_written(w.id, name, input, p.extra, w.function, w.extra);
    if let Some(id) = w.id {
        let u = JsonV::Object(custom_body(id, name, input, p.extra, w.function, w.extra));
        assert(call_value(read_call(entry)->0) == Some(u));
        custom_entry_is_decoded(id, name, input, p.extra, w.function, w.extra);
        let e2 = swept(rest_of(w.extra));
        rest_is_sound(w.extra, types::tool_call_entry_keys());
        custom_entry_is_written(Some(id), name, input, swept(p.extra), function_of_swept(w.function), e2);
        custom_entry_stays(id, name, input, p.extra, w.function, w.extra);
    }
}

/// Three fields, as they are put.
proof fn put_three(l: FieldsV)
    requires
        l.len() == 3,
        names_differ(l),
        l[0].1 is Some,
        l[1].1 is Some,
        l[2].1 is Some,
    ensures
        put_all(l, 3) == seq![(l[0].0, l[0].1->0), (l[1].0, l[1].1->0), (l[2].0, l[2].1->0)],
{
    let none = Seq::<(Seq<char>, JsonV)>::empty();
    assert(put_all(l, 0) == none);
    assert(put_all(l, 1) == put_if(put_all(l, 0), l[0].0, l[0].1));
    assert(put_all(l, 2) == put_if(put_all(l, 1), l[1].0, l[1].1));
    assert(put_all(l, 3) == put_if(put_all(l, 2), l[2].0, l[2].1));
    assert(l[0].0 != l[1].0 && l[0].0 != l[2].0 && l[1].0 != l[2].0);
    absent_is_not_read(none, l[0].0, l[0].1->0);
    let a = none.push((l[0].0, l[0].1->0));
    absent_is_not_read(a, l[1].0, l[1].1->0);
    let b = a.push((l[1].0, l[1].1->0));
    absent_is_not_read(b, l[2].0, l[2].1->0);
    assert(b.push((l[2].0, l[2].1->0)) =~= seq![(l[0].0, l[0].1->0), (l[1].0, l[1].1->0), (l[2].0, l[2].1->0)]);
}

proof fn pushed_is_read(a: ObjV, m: (Seq<char>, JsonV), k: Seq<char>)
    requires
        absent(a, m.0),
    ensures
        obj_get(a.push(m), k) == if k == m.0 { Some(m.1) } else { obj_get(a, k) },
{
    absent_is_not_read(a, m.0, m.1);
    set_member_is_read(a, m.0, m.1);
    if k != m.0 {
        set_keeps_other_members(a, m.0, m.1, k);
    }
}

proof fn named_before(o: ObjV, n: nat)
    requires
        obj_wf(o),
        0 < n <= o.len(),
    ensures
        absent(o.take(n - 1), o[n - 1].0),
        o.take(n as int) == o.take(n - 1).push(o[n - 1]),
{
    let a = o.take(n - 1);
    assert forall|i: int| 0 <= i < a.len() implies (#[trigger] a[i]).0 != o[n - 1].0 by {
        assert(o[i].0 != o[n - 1].0);
    }
    assert(o.take(n as int) =~= a.push(o[n - 1]));
}

/// What is left of an object when the modeled names are taken out.
pub proof fn remaining_is_read(o: ObjV, known: Seq<Seq<char>>, n: nat)
    requires
        obj_wf(o),
        n <= o.len(),
    ensures
        forall|k: Seq<char>|
            !known.contains(k) ==> #[trigger] obj_get(unknown_upto(o, known, n), k) == obj_get(o.take(n as int), k),
        forall|k: Seq<char>| absent(o.take(n as int), k) ==> #[trigger] absent(unknown_upto(o, known, n), k),
        obj_wf(unknown_upto(o, known, n)),
    decreases n,
{
    let u = unknown_upto(o, known, n);
    if n == 0 {
        assert(o.take(0) =~= Seq::<(Seq<char>, JsonV)>::empty());
    } else {
        let m = (n - 1) as nat;
        remaining_is_read(o, known, m);
        named_before(o, n);
        let a = o.take(n - 1);
        let prev = unknown_upto(o, known, m);
        let x = o[n - 1];
        assert(absent(prev, x.0));
        assert forall|k: Seq<char>| !known.contains(k) implies #[trigger] obj_get(u, k) == obj_get(
            o.take(n as int),
            k,
        ) by {
            pushed_is_read(a, x, k);
            pushed_is_read(prev, x, k);
            assert(obj_get(prev, k) == obj_get(a, k));
        }
        assert forall|k: Seq<char>| absent(o.take(n as int), k) implies #[trigger] absent(u, k) by {
            assert(o.take(n as int)[n - 1] == x);
            assert(absent(a, k)) by {
                assert forall|i: int| 0 <= i < a.len() implies (#[trigger] a[i]).0 != k by {
                    assert(o.take(n as int)[i] == a[i]);
                }
            }
            assert(absent(prev, k));
        }
        absent_is_not_read(prev, x.0, x.1);
        set_keeps_names_distinct(prev, x.0, x.1);
    }
}

/// What is left of an object when `null`s are taken out.
proof fn non_null_is_read(o: ObjV, n: nat)
    requires
        obj_wf(o),
        n <= o.len(),
    ensures
        forall|k: Seq<char>| #[trigger]
            obj_get(non_null(o, n), k) == match obj_get(o.take(n as int), k) {
                Some(JsonV::Null) => None,
                x => x,
            },
        forall|k: Seq<char>| absent(o.take(n as int), k) ==> #[trigger] absent(non_null(o, n), k),
    decreases n,
{
    let u = non_null(o, n);
    if n == 0 {
        let none = Seq::<(Seq<char>, JsonV)>::empty();
        assert(o.take(0) =~= none);
        assert forall|k: Seq<char>| #[trigger] obj_get(u, k) is None && obj_get(o.take(0), k) is None by {
            absent_is_not_read(none, k, JsonV::Null);
        }
    } else {
        let m = (n - 1) as nat;
        non_null_is_read(o, m);
        named_before(o, n);
        let a = o.take(n - 1);
        let prev = non_null(o, m);
        let x = o[n - 1];
        assert(absent(prev, x.0));
        assert forall|k: Seq<char>| #[trigger] obj_get(u, k) == match obj_get(o.take(n as int), k) {
            Some(JsonV::Null) => None,
            x => x,
        } by {
            pushed_is_read(a, x, k);
            pushed_is_read(prev, x, k);
            absent_is_not_read(prev, x.0, x.1);
            assert(obj_get(prev, k) == match obj_get(a, k) {
                Some(JsonV::Null) => None,
                x => x,
            });
        }
        assert forall|k: Seq<char>| absent(o.take(n as int), k) implies #[trigger] absent(u, k) by {
            assert(o.take(n as int)[n - 1] == x);
            assert(absent(a, k)) by {
                assert forall|i: int| 0 <= i < a.len() implies (#[trigger] a[i]).0 != k by {
                    assert(o.take(n as int)[i] == a[i]);
                }
            }
            assert(absent(prev, k));
        }
    }
}

spec fn id_key() -> Seq<Seq<char>> {
    seq!["id"@]
}

/// The mirror of an entry that names each member once.
proof fn mirror_is_the_rest(o: ObjV, n: nat)
    requires
        obj_wf(o),
        n <= o.len(),
    ensures
        entry_mirror(o, n) == unknown_upto(o, id_key(), n),
    decreases n,
{
    if n > 0 {
        mirror_is_the_rest(o, (n - 1) as nat);
        assert(id_key()[0] == "id"@);
        remaining_is_read(o, id_key(), (n - 1) as nat);
        named_before(o, n);
        absent_is_not_read(unknown_upto(o, id_key(), (n - 1) as nat), o[n - 1].0, o[n - 1].1);
    }
}

/// Setting members to what they are changes nothing.
proof fn nothing_is_extended(m: ObjV, x: ObjV, n: nat)
    requires
        n <= x.len(),
        forall|i: int| 0 <= i < x.len() ==> obj_get(m, (#[trigger] x[i]).0) == Some(x[i].1),
    ensures
        extended_upto(m, x, n) == m,
    decreases n,
{
    broadcast use obj_index_props;
    if n > 0 {
        nothing_is_extended(m, x, (n - 1) as nat);
        reveal(obj_set);
        reveal(obj_get);
        let i = obj_index(m, x[n - 1].0);
        assert(m.update(i, x[n - 1]) =~= m);
    }
}

proof fn unmodeled_are_mirrored(o: ObjV)
    requires
        obj_wf(o),
    ensures
        ({
            let d = decodable(JsonV::Object(o))->Object_0;
            let m = entry_mirror(o, o.len());
            extended(m, unknown(d, types::tool_call_entry_keys())) == m
        }),
{
    call_names();
    let known = types::tool_call_entry_keys();
    assert(known[0] == "id"@ && known[1] == "type"@);
    let d = decodable(JsonV::Object(o))->Object_0;
    let m = entry_mirror(o, o.len());
    mirror_is_the_rest(o, o.len());
    remaining_is_read(o, id_key(), o.len());
    assert(o.take(o.len() as int) =~= o);
    removed_member_is_gone(o, "type"@);
    let x = unknown(d, known);
    remaining_is_read(d, known, d.len());
    assert(d.take(d.len() as int) =~= d);
    unknown_avoids(d, known, d.len());
    assert forall|i: int| 0 <= i < x.len() implies obj_get(m, (#[trigger] x[i]).0) == Some(x[i].1) by {
        let k = x[i].0;
        assert(!known.contains(k));
        assert forall|j: int| 0 <= j < i implies (#[trigger] x[j]).0 != k by {
            assert(x[j].0 != x[i].0);
        }
        first_named_is_read(x, k, i);
        assert(obj_get(x, k) == obj_get(d, k));
        remove_keeps_other_members(o, "type"@, k);
        assert(!id_key().contains(k)) by {
            assert(id_key()[0] == "id"@);
        }
        assert(obj_get(m, k) == obj_get(o, k));
    }
    nothing_is_extended(m, x, x.len());
}

/// Payloads of an entry name each member once.
pub open spec fn payloads_named_once(o: ObjV) -> bool {
    &&& obj_wf(o)
    &&& match obj_get(o, "function"@) {
        Some(JsonV::Object(q)) => obj_wf(q),
        _ => true,
    }
    &&& match obj_get(o, "custom"@) {
        Some(JsonV::Object(q)) => obj_wf(q),
        _ => true,
    }
}

/// An entry that keeps its canonical form. One of a type that is not modeled
/// names each member once.
pub open spec fn steady_call(entry: JsonV) -> bool {
    match types::decode_tool_call_entry(decodable(entry)) {
        Ok(w) => call_kind(w, odd_type(entry)) == CallKind::Other ==> payloads_named_once(entry->Object_0),
        Err(_) => true,
    }
}

/// The members of a mirrored entry before its mirror.
spec fn mirror_head(id: Option<Seq<char>>) -> ObjV {
    match id {
        Some(s) => seq![("id"@, JsonV::Str(s))],
        None => Seq::empty(),
    }
}

/// A mirrored entry, in its canonical form.
spec fn mirror_body(id: Option<Seq<char>>, m: ObjV) -> ObjV {
    mirror_head(id) + kept(m)
}

/// What a mirrored entry becomes.
proof fn mirror_is_written(id: Option<Seq<char>>, m: ObjV)
    requires
        obj_wf(m),
        absent(m, "id"@),
        match obj_get(m, "type"@) {
            Some(JsonV::Str(t)) => t != "function"@ && t != "custom"@,
            Some(JsonV::Null) => false,
            Some(_) => true,
            None => false,
        },
    ensures
        ({
            let b = ContentBlockV::ToolCall {
                id,
                name: Seq::empty(),
                arguments: Seq::empty(),
                cache: None,
                extra: own_extra(m),
            };
            call_value(b) == Some(JsonV::Object(mirror_body(id, m)))
        }),
{
    let t = mirror_head(id);
    fields_are_merged(OPENAI_CHAT_COMPLETIONS@, t, m);
    let p = non_null(m, m.len());
    non_null_is_read(m, m.len());
    assert(m.take(m.len() as int) =~= m);
    assert(obj_get(p, "type"@) == obj_get(m, "type"@));
    assert(absent(p, "id"@));
    assert forall|i: int| 0 <= i < p.len() implies absent(t, (#[trigger] p[i]).0) by {}
    apart_data_is_appended(t, p, p.len());
    assert(call_type(own_extra(m)) == obj_get(m, "type"@));
    if id is Some {
        absent_is_not_read(Seq::empty(), "id"@, t[0].1);
        assert(Seq::<(Seq<char>, JsonV)>::empty().push(("id"@, t[0].1)) =~= t);
    }
}

proof fn swept_payload_is_decoded(q: ObjV)
    requires
        obj_wf(q),
    ensures
        types::decode_function_call_payload(JsonV::Object(q)) is Ok ==> types::decode_function_call_payload(
            JsonV::Object(swept(q)),
        ) is Ok,
        types::decode_custom_call_payload(JsonV::Object(q)) is Ok ==> types::decode_custom_call_payload(
            JsonV::Object(swept(q)),
        ) is Ok,
{
    swept_member_is_read(q, "name"@);
    swept_member_is_read(q, "arguments"@);
    swept_member_is_read(q, "input"@);
}

/// A mirrored entry is read as one again.
proof fn mirror_is_read(o: ObjV)
    requires
        types::decode_tool_call_entry(decodable(JsonV::Object(o))) is Ok,
        call_kind(
            types::decode_tool_call_entry(decodable(JsonV::Object(o)))->Ok_0,
            odd_type(JsonV::Object(o)),
        ) == CallKind::Other,
        payloads_named_once(o),
    ensures
        ({
            let w = types::decode_tool_call_entry(decodable(JsonV::Object(o)))->Ok_0;
            let m = entry_mirror(o, o.len());
            let u = mirror_body(w.id, m);
            let d = types::decode_tool_call_entry(decodable(JsonV::Object(u)));
            &&& obj_wf(u)
            &&& d is Ok
            &&& d->Ok_0.id == w.id
            &&& call_kind(d->Ok_0, odd_type(JsonV::Object(u))) == CallKind::Other
            &&& entry_mirror(u, u.len()) == kept(m)
            &&& obj_wf(m)
            &&& absent(m, "id"@)
            &&& obj_get(m, "type"@) == obj_get(o, "type"@)
            &&& obj_get(kept(m), "type"@) == swept_member(obj_get(o, "type"@))
        }),
{
    call_names();
    let entry = JsonV::Object(o);
    let w = types::decode_tool_call_entry(decodable(entry))->Ok_0;
    let m = entry_mirror(o, o.len());
    mirror_is_the_rest(o, o.len());
    remaining_is_read(o, id_key(), o.len());
    assert(o.take(o.len() as int) =~= o);
    assert(id_key()[0] == "id"@);
    unknown_avoids(o, id_key(), o.len());
    avoided_is_absent(m, id_key(), "id"@);
    let p = non_null(m, m.len());
    non_null_is_read(m, m.len());
    assert(m.take(m.len() as int) =~= m);
    names_stay_distinct(m, m.len());
    let r = kept(m);
    swept_data_is_clean(p);
    swept_data_lacks(p, "id"@);
    let h = mirror_head(w.id);
    let u = h + r;
    assert(absent(h, "type"@) && absent(h, "function"@) && absent(h, "custom"@));
    assert forall|k: Seq<char>| k != "id"@ implies #[trigger] obj_get(u, k) == swept_member(obj_get(o, k)) by {
        assert(absent(h, k));
        members_behind_are_read(h, r, k);
        swept_member_is_read(p, k);
        assert(!id_key().contains(k));
        assert(obj_get(m, k) == obj_get(o, k));
        assert(obj_get(p, k) == match obj_get(m, k) {
            Some(JsonV::Null) => None,
            x => x,
        });
    }
    members_behind_are_read(h, r, "type"@);
    assert(obj_get(u, "id"@) == opt_text(w.id)) by {
        if w.id is Some {
            there(h, r, "id"@, 0);
        } else {
            absent_is_not_read(u, "id"@, JsonV::Null);
        }
    }
    assert(obj_wf(u)) by {
        assert forall|i: int, j: int| 0 <= i < j < u.len() implies #[trigger] u[i].0 != #[trigger] u[j].0 by {
            if i < h.len() {
                assert(u[j] == r[j - h.len()]);
            } else {
                assert(u[i] == r[i - h.len()] && u[j] == r[j - h.len()]);
            }
        }
    }
    mirror_is_the_rest(u, u.len());
    assert(within(h, id_key()));
    assert(avoids(r, id_key())) by {
        assert forall|i: int| 0 <= i < r.len() implies !id_key().contains((#[trigger] r[i]).0) by {
            assert(r[i].0 != "id"@);
        }
    }
    unmodeled_members_are_kept(h, r, id_key());
    let ue = JsonV::Object(u);
    assert(odd_type(ue) == odd_type(entry));
    let d = decodable(entry)->Object_0;
    let du = decodable(ue)->Object_0;
    remove_keeps_other_members(o, "type"@, "id"@);
    remove_keeps_other_members(o, "type"@, "function"@);
    remove_keeps_other_members(o, "type"@, "custom"@);
    remove_keeps_other_members(u, "type"@, "id"@);
    remove_keeps_other_members(u, "type"@, "function"@);
    remove_keeps_other_members(u, "type"@, "custom"@);
    removed_member_is_gone(u, "type"@);
    assert(obj_get(u, "function"@) == swept_member(obj_get(o, "function"@)));
    assert(obj_get(u, "custom"@) == swept_member(obj_get(o, "custom"@)));
    assert(obj_get(u, "type"@) == swept_member(obj_get(o, "type"@)));
    if let Some(JsonV::Object(q)) = obj_get(o, "function"@) {
        swept_payload_is_decoded(q);
    }
    if let Some(JsonV::Object(q)) = obj_get(o, "custom"@) {
        swept_payload_is_decoded(q);
    }
}

/// A mirrored entry keeps its canonical form.
proof fn other_entry_settles(entry: JsonV)
    requires
        types::decode_tool_call_entry(decodable(entry)) is Ok,
        call_kind(types::decode_tool_call_entry(decodable(entry))->Ok_0, odd_type(entry)) == CallKind::Other,
        steady_call(entry),
    ensures
        match call_value(read_call(entry)->0) {
            Some(u) => read_call(u) is Some && call_value(read_call(u)->0) == Some(u),
            None => true,
        },
{
    let o = entry->Object_0;
    let w = types::decode_tool_call_entry(decodable(entry))->Ok_0;
    let m = entry_mirror(o, o.len());
    mirror_is_read(o);
    unmodeled_are_mirrored(o);
    mirror_is_written(w.id, m);
    let u = mirror_body(w.id, m);
    unmodeled_are_mirrored(u);
    kept_fields_stay(m);
    let p = non_null(m, m.len());
    swept_data_is_clean(p);
    non_null_is_read(m, m.len());
    assert(m.take(m.len() as int) =~= m);
    swept_data_lacks(p, "id"@);
    mirror_is_written(w.id, kept(m));
}

/// What an entry becomes on its way through the IR stays as it is from then
/// on.
pub proof fn call_settles(entry: JsonV)
    requires
        steady_call(entry),
        read_call(entry) is Some,
    ensures
        read_call(entry)->0 is ToolCall,
        match call_value(read_call(entry)->0) {
            Some(u) => read_call(u) is Some && call_value(read_call(u)->0) == Some(u),
            None => true,
        },
{
    let w = types::decode_tool_call_entry(decodable(entry))->Ok_0;
    match call_kind(w, odd_type(entry)) {
        CallKind::Function => {
            function_entry_settles(entry);
        },
        CallKind::Custom => {
            custom_entry_settles(entry);
        },
        CallKind::Other => {
            other_entry_settles(entry);
        },
    }
}

} // verus!
