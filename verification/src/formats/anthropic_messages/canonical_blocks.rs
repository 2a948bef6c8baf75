//! Laws: content blocks in their canonical form. What a block becomes on its
//! way through the IR stays as it is from then on.

use vstd::prelude::*;
use crate::assembly::{assembled, back, back_is_clean, front, no_nulls};
use crate::convert::ConversionWarningV;
use crate::decode::{opt_bool, unknown, unknown_upto};
use crate::format::ANTHROPIC_MESSAGES;
use crate::formats::anthropic_messages::blocks::{block_value, image_source, image_value, nested_parts, text_value, thinking_value, tool_input, with_result_content};
use crate::formats::anthropic_messages::canonical_config::nothing_null;
use crate::formats::anthropic_messages::canonical_system::{non_null_is_drawn, unknown_is_drawn};
use crate::formats::anthropic_messages::canonical_nodes::{cache_is_apart, node_is_read, node_is_written, node_shape, settled_cache};
use crate::formats::anthropic_messages::parse_blocks::{leftover, opaque_block, parsed_assistant, parsed_nested, parsed_nested_all, parsed_result_content, parsed_text, parsed_tool_result, parsed_user, source_of, type_of};
use crate::formats::anthropic_messages::round_trip::{block_names, kind_names, source_is_decoded};
use crate::formats::anthropic_messages::types::{cache_control_keys, decode_image_block, decode_redacted_thinking_block, decode_text_block, decode_thinking_block, decode_tool_result_block, decode_tool_use_block, encode_cache_control, image_block_keys, opt_cache_control, opt_tool_result_content, redacted_thinking_block_keys, text_block_keys, thinking_block_keys, tool_result_block_keys, tool_use_block_keys, ToolResultContentV};
use crate::ir::{extra_get, extra_has, extra_merged, non_null, ContentBlockV, Role, ToolOutputBlockV};
use crate::json::{JsonV, ObjV, obj_get, obj_index, obj_index_props, obj_remove, obj_set, obj_wf, put_if, with_member};
use crate::json_laws::{removed_member_is_gone, set_keeps_names_distinct, set_member_is_read};
use crate::merge::merged;
use crate::namespaces::{absent, absent_is_not_read, avoids, clean, first_named_is_read, front_members_are_read, names_differ, nothing_is_dropped, put_all, put_fields_are_known, put_fields_are_named, put_fields_are_read, removing_nothing, there, unknown_avoids, unmodeled_members_are_kept, unread_is_absent, within};
use crate::sink::{empty_sink, SinkV};
use crate::sweep::{apart_data_is_appended, clean_data_is_swept, clean_member_by_member, clean_value, fields_are_merged, kept, kept_fields_avoid, kept_fields_stay, known_are_apart, non_null_avoids, swept, swept_data_avoids, swept_data_is_clean, swept_data_is_there, swept_data_lacks, unmodeled_fields_are_kept};
use crate::value::{json_from_str, json_to_text, wire};

verus! {

/// The block that a value holds, in a message of this role.
pub open spec fn read_value(role: Role, v: JsonV) -> ContentBlockV {
    match role {
        Role::Assistant => parsed_assistant(v, Seq::empty(), Seq::empty()).0,
        Role::Tool => parsed_tool_result(v, Seq::empty(), Seq::empty()).0,
        Role::System => if type_of(v) == Some("text"@) {
            parsed_text(v, Seq::empty(), Seq::empty()).0
        } else {
            opaque_block(v)
        },
        _ => parsed_user(v, Seq::empty(), Seq::empty()).0,
    }
}

/// The value that a block becomes: nothing when it cannot be written, and no
/// value when it is dropped.
pub open spec fn written(role: Role, b: ContentBlockV, as_text: bool) -> Option<Option<JsonV>> {
    match block_value(role, b, Seq::empty(), Seq::empty(), as_text, empty_sink()) {
        Ok((v, _)) => Some(v),
        Err(_) => None,
    }
}

/// What the value of a block becomes on its way through the IR.
pub open spec fn recast(role: Role, v: JsonV, as_text: bool) -> Option<Option<JsonV>> {
    written(role, read_value(role, v), as_text)
}

/// A value is read the same wherever it stands.
pub proof fn read_anywhere(v: JsonV, at: Seq<char>, ws: Seq<ConversionWarningV>)
    ensures
        parsed_assistant(v, at, ws).0 == read_value(Role::Assistant, v),
        parsed_tool_result(v, at, ws).0 == read_value(Role::Tool, v),
        parsed_user(v, at, ws).0 == read_value(Role::User, v),
        type_of(v) == Some("text"@) ==> parsed_assistant(v, at, ws).0 == read_value(Role::System, v),
{
}

proof fn nested_anywhere(
    content: Seq<ToolOutputBlockV>,
    loc: Seq<char>,
    s: SinkV,
    loc2: Seq<char>,
    s2: SinkV,
    n: nat,
)
    ensures
        nested_parts(content, loc, s, n).0 == nested_parts(content, loc2, s2, n).0,
    decreases n,
{
    if n > 0 && n <= content.len() {
        nested_anywhere(content, loc, s, loc2, s2, (n - 1) as nat);
    }
}

/// A block is written the same wherever it stands.
pub proof fn written_anywhere(role: Role, b: ContentBlockV, loc: Seq<char>, ir_loc: Seq<char>, as_text: bool, s: SinkV)
    ensures
        match block_value(role, b, loc, ir_loc, as_text, s) {
            Ok((v, _)) => written(role, b, as_text) == Some(v),
            Err(_) => written(role, b, as_text) is None,
        },
{
    match b {
        ContentBlockV::ToolResult { content, .. } => {
            nested_anywhere(content, loc, s, Seq::empty(), empty_sink(), content.len());
        },
        _ => {},
    }
}

/// The input of a call is read back from the text that it is kept as. This
/// leaves out inputs with floating-point numbers that change when they are
/// read again, and inputs nested deeper than a parse allows.
pub open spec fn steady_input(input: JsonV) -> bool {
    match json_from_str(json_to_text(wire(input))) {
        Ok(j) => json_from_str(json_to_text(wire(j))) == Ok::<JsonV, Seq<char>>(j),
        Err(_) => true,
    }
}

/// The unmodeled members of a thinking block besides a mark of redaction.
pub open spec fn unmarked(fields: ObjV) -> ObjV {
    obj_remove(non_null(fields, fields.len()), "redacted"@)
}

/// The value of a block that keeps its canonical form. A thinking block does
/// so unless it is unsigned and has nothing unmodeled but a member `redacted`:
/// that member is not written, and without it the block is dropped. A thinking
/// block with such a member names each member once.
pub open spec fn steady_block(v: JsonV, as_text: bool) -> bool {
    &&& type_of(v) == Some("tool_use"@) ==> match decode_tool_use_block(v) {
        Ok(t) => steady_input(t.input),
        Err(_) => true,
    }
    &&& type_of(v) == Some("thinking"@) && obj_get(v->Object_0, "redacted"@) is Some ==> match decode_thinking_block(v) {
        Ok(t) => obj_wf(v->Object_0) && (t.signature is Some || as_text || unmarked(t.extra).len() > 0 || kept(
            t.extra,
        ).len() == 0),
        Err(_) => true,
    }
    &&& type_of(v) == Some("redacted_thinking"@) && obj_get(v->Object_0, "redacted"@) is Some ==> obj_wf(v->Object_0)
}

/// The block stands for its text alone.
pub open spec fn bare_block(b: ContentBlockV) -> bool {
    match b {
        ContentBlockV::Text { text, cache, extra } => cache is None && !extra_has(extra, ANTHROPIC_MESSAGES@),
        _ => false,
    }
}

/// A text block stands for its text alone when it has no `cache_control` and
/// nothing unmodeled.
proof fn bare_text_is_seen(v: JsonV)
    requires
        decode_text_block(v) is Ok,
    ensures
        ({
            let w = decode_text_block(v)->Ok_0;
            bare_block(parsed_text(v, Seq::empty(), Seq::empty()).0) == (w.cache_control is None && kept(w.extra).len()
                == 0)
        }),
{
    let w = decode_text_block(v)->Ok_0;
    let known = text_block_keys();
    assert(known[2] == "cache_control"@);
    let none = Seq::<(Seq<char>, JsonV)>::empty();
    unknown_avoids(v->Object_0, known, v->Object_0.len());
    fields_are_merged(ANTHROPIC_MESSAGES@, none, w.extra);
    if w.cache_control is Some && w.cache_control->0.kind != "ephemeral"@ {
        let k = "cache_control"@;
        let e = encode_cache_control(w.cache_control->0);
        assert(absent(w.extra, k)) by {
            assert forall|j: int| 0 <= j < w.extra.len() implies (#[trigger] w.extra[j]).0 != k by {
                assert(!known.contains(w.extra[j].0));
            }
        }
        absent_is_not_read(w.extra, k, e);
        let fields = w.extra.push((k, e));
        fields_are_merged(ANTHROPIC_MESSAGES@, none, fields);
        swept_data_is_there(fields);
        assert(non_null(fields, fields.len()).len() > 0);
    }
}

proof fn text_settles(role: Role, v: JsonV, as_text: bool)
    requires
        role != Role::Tool,
        decode_text_block(v) is Ok,
    ensures
        ({
            let b = parsed_text(v, Seq::empty(), Seq::empty()).0;
            match written(role, b, as_text) {
                Some(Some(u)) => {
                    &&& type_of(u) == Some("text"@)
                    &&& decode_text_block(u) is Ok
                    &&& written(role, parsed_text(u, Seq::empty(), Seq::empty()).0, as_text) == Some(Some(u))
                    &&& bare_block(parsed_text(u, Seq::empty(), Seq::empty()).0) == bare_block(b)
                },
                _ => false,
            }
        }),
{
    block_names();
    let w = decode_text_block(v)->Ok_0;
    let known = text_block_keys();
    assert(known[0] == "type"@ && known[1] == "text"@ && known[2] == "cache_control"@);
    let t = seq![("type"@, JsonV::Str("text"@)), ("text"@, JsonV::Str(w.text))];
    unknown_avoids(v->Object_0, known, v->Object_0.len());
    decoded_cache_is_apart(v->Object_0);
    node_is_written(t, known, w.cache_control, w.extra);
    let cc = settled_cache(w.cache_control);
    let r = kept(w.extra);
    node_is_read(t, known, cc, r);
    first_named_is_read(t, "type"@, 0);
    first_named_is_read(t, "text"@, 1);
    assert(known.contains("type"@) && known.contains("text"@));
    bare_text_is_seen(v);
    let u = JsonV::Object(node_shape(t, cc, r));
    assert(decode_text_block(u)->Ok_0.extra == r && decode_text_block(u)->Ok_0.cache_control == cc);
    bare_text_is_seen(u);
    kept_fields_stay(w.extra);
}

/// What is decoded beside the modeled members of a `cache_control` has other
/// names.
pub proof fn decoded_cache_is_apart(o: ObjV)
    ensures
        match opt_cache_control(o, "cache_control"@) {
            Ok(cc) => cache_is_apart(cc),
            Err(_) => true,
        },
{
    match obj_get(o, "cache_control"@) {
        Some(JsonV::Object(q)) => {
            unknown_avoids(q, cache_control_keys(), q.len());
        },
        _ => {},
    }
}

proof fn image_settles(v: JsonV, as_text: bool)
    requires
        type_of(v) == Some("image"@),
        decode_image_block(v) is Ok,
    ensures
        match recast(Role::User, v, as_text) {
            Some(Some(u)) => type_of(u) == Some("image"@) && recast(Role::User, u, as_text) == Some(Some(u)) && !(
            read_value(Role::User, u) is Opaque),
            _ => false,
        },
{
    block_names();
    kind_names();
    let w = decode_image_block(v)->Ok_0;
    let source = source_of(w.source);
    let known = image_block_keys();
    assert(known[0] == "type"@ && known[1] == "source"@ && known[2] == "cache_control"@);
    let t = seq![("type"@, JsonV::Str("image"@)), ("source"@, image_source(source))];
    unknown_avoids(v->Object_0, known, v->Object_0.len());
    decoded_cache_is_apart(v->Object_0);
    node_is_written(t, known, w.cache_control, w.extra);
    let cc = settled_cache(w.cache_control);
    let r = kept(w.extra);
    node_is_read(t, known, cc, r);
    first_named_is_read(t, "type"@, 0);
    first_named_is_read(t, "source"@, 1);
    assert(known.contains("type"@) && known.contains("source"@));
    source_is_decoded(source);
}

proof fn call_settles(v: JsonV, as_text: bool)
    requires
        type_of(v) == Some("tool_use"@),
        decode_tool_use_block(v) is Ok,
        steady_block(v, as_text),
    ensures
        match recast(Role::Assistant, v, as_text) {
            Some(Some(u)) => type_of(u) == Some("tool_use"@) && steady_block(u, as_text) && recast(Role::Assistant, u, as_text)
                == Some(Some(u)) && !(read_value(Role::Assistant, u) is Opaque),
            Some(None) => false,
            None => true,
        },
{
    block_names();
    kind_names();
    let w = decode_tool_use_block(v)->Ok_0;
    let arguments = json_to_text(wire(w.input));
    if let Ok(input) = tool_input(w.name, arguments, Seq::empty()) {
        let known = tool_use_block_keys();
        assert(known[0] == "type"@ && known[1] == "id"@ && known[2] == "name"@ && known[3] == "input"@ && known[4]
            == "cache_control"@);
        let t0 = seq![
            ("type"@, JsonV::Str("tool_use"@)),
            ("id"@, JsonV::Str(w.id)),
            ("name"@, JsonV::Str(w.name)),
        ];
        let t = t0.push(("input"@, input));
        absent_is_not_read(t0, "input"@, input);
        unknown_avoids(v->Object_0, known, v->Object_0.len());
        decoded_cache_is_apart(v->Object_0);
        node_is_written(t, known, w.cache_control, w.extra);
        let cc = settled_cache(w.cache_control);
        let r = kept(w.extra);
        node_is_read(t, known, cc, r);
        first_named_is_read(t, "type"@, 0);
        first_named_is_read(t, "id"@, 1);
        first_named_is_read(t, "name"@, 2);
        first_named_is_read(t, "input"@, 3);
        assert(known.contains("type"@) && known.contains("id"@) && known.contains("name"@) && known.contains("input"@));
        let u = JsonV::Object(node_shape(t, cc, r));
        assert(recast(Role::Assistant, v, as_text) == Some(Some(u)));
        assert(decode_tool_use_block(u)->Ok_0.input == input);
    }
}

/// The value that a nested block becomes.
pub open spec fn nested_value(b: ToolOutputBlockV) -> JsonV {
    match b {
        ToolOutputBlockV::Text { text, cache, extra } => extra_merged(extra, ANTHROPIC_MESSAGES@, text_value(text)),
        ToolOutputBlockV::Image { source, cache, extra } => extra_merged(
            extra,
            ANTHROPIC_MESSAGES@,
            image_value(source),
        ),
        ToolOutputBlockV::Opaque { format, value } => value,
    }
}

/// The block stands for its text alone.
pub open spec fn bare_text(b: ToolOutputBlockV) -> bool {
    b is Text && !extra_has(b->Text_extra, ANTHROPIC_MESSAGES@)
}

proof fn nested_settles(v: JsonV)
    ensures
        ({
            let b = parsed_nested(v);
            let u = nested_value(b);
            let c = parsed_nested(u);
            &&& nested_value(c) == u
            &&& bare_text(c) == bare_text(b)
            &&& bare_text(b) ==> c->Text_text == b->Text_text
            &&& b is Opaque ==> b->Opaque_format == ANTHROPIC_MESSAGES@
        }),
{
    block_names();
    kind_names();
    let b = parsed_nested(v);
    let fmt = ANTHROPIC_MESSAGES@;
    match b {
        ToolOutputBlockV::Text { text, cache, extra } => {
            let known = seq!["type"@, "text"@];
            assert(known[0] == "type"@ && known[1] == "text"@);
            let t = seq![("type"@, JsonV::Str("text"@)), ("text"@, JsonV::Str(text))];
            let rest = unknown(v->Object_0, known);
            unknown_avoids(v->Object_0, known, v->Object_0.len());
            unmodeled_fields_are_kept(fmt, t, rest, known);
            let r = kept(rest);
            kept_fields_stay(rest);
            unmodeled_fields_are_kept(fmt, t, r, known);
            fields_are_merged(fmt, t, rest);
            fields_are_merged(fmt, t, r);
            there(t, r, "type"@, 0);
            there(t, r, "text"@, 1);
        },
        ToolOutputBlockV::Image { source, cache, extra } => {
            let known = seq!["type"@, "source"@];
            assert(known[0] == "type"@ && known[1] == "source"@);
            let t = seq![("type"@, JsonV::Str("image"@)), ("source"@, image_source(source))];
            let rest = unknown(v->Object_0, known);
            unknown_avoids(v->Object_0, known, v->Object_0.len());
            unmodeled_fields_are_kept(fmt, t, rest, known);
            let r = kept(rest);
            kept_fields_stay(rest);
            unmodeled_fields_are_kept(fmt, t, r, known);
            there(t, r, "type"@, 0);
            there(t, r, "source"@, 1);
            source_is_decoded(source);
        },
        ToolOutputBlockV::Opaque { format, value } => {},
    }
}

/// The values that nested blocks become.
pub open spec fn nested_values(content: Seq<ToolOutputBlockV>) -> Seq<JsonV> {
    Seq::new(content.len(), |i: int| nested_value(content[i]))
}

/// All verbatim blocks are of this format.
pub open spec fn own_blocks(content: Seq<ToolOutputBlockV>) -> bool {
    forall|i: int|
        0 <= i < content.len() && (#[trigger] content[i]) is Opaque ==> content[i]->Opaque_format == ANTHROPIC_MESSAGES@
}

proof fn nested_are_written(content: Seq<ToolOutputBlockV>, loc: Seq<char>, s: SinkV, n: nat)
    requires
        own_blocks(content),
        n <= content.len(),
    ensures
        nested_parts(content, loc, s, n).0 == nested_values(content).take(n as int),
    decreases n,
{
    if n == 0 {
        assert(nested_values(content).take(0) =~= Seq::<JsonV>::empty());
    } else {
        nested_are_written(content, loc, s, (n - 1) as nat);
        let b = content[n - 1];
        assert(b is Opaque ==> b->Opaque_format == ANTHROPIC_MESSAGES@);
        assert(nested_values(content).take(n as int) =~= nested_values(content).take(n - 1).push(
            nested_values(content)[n - 1],
        ));
    }
}

proof fn nested_are_parsed(a: Seq<JsonV>, n: nat)
    requires
        n <= a.len(),
    ensures
        parsed_nested_all(a, n).len() == n,
        forall|i: int| 0 <= i < n ==> #[trigger] parsed_nested_all(a, n)[i] == parsed_nested(a[i]),
    decreases n,
{
    if n > 0 {
        nested_are_parsed(a, (n - 1) as nat);
    }
}

/// The content of a tool result on the wire.
pub open spec fn result_content(content: Seq<ToolOutputBlockV>) -> Option<JsonV> {
    if content.len() == 0 {
        None
    } else if content.len() == 1 && bare_text(content[0]) {
        Some(JsonV::Str(content[0]->Text_text))
    } else {
        Some(JsonV::Array(nested_values(content)))
    }
}

proof fn content_is_own(c: Option<ToolResultContentV>)
    ensures
        own_blocks(parsed_result_content(c)),
{
    match c {
        Some(ToolResultContentV::Blocks(a)) => {
            nested_are_parsed(a, a.len());
            let content = parsed_result_content(c);
            assert forall|i: int| 0 <= i < content.len() && (#[trigger] content[i]) is Opaque implies content[i]->Opaque_format
                == ANTHROPIC_MESSAGES@ by {
                nested_settles(a[i]);
            }
        },
        _ => {},
    }
}

/// The content of a tool result settles.
proof fn result_content_settles(c: Option<ToolResultContentV>)
    ensures
        ({
            let j = result_content(parsed_result_content(c));
            let d = match j {
                Some(JsonV::Str(s)) => Some(ToolResultContentV::Text(s)),
                Some(JsonV::Array(a)) => Some(ToolResultContentV::Blocks(a)),
                _ => None,
            };
            &&& result_content(parsed_result_content(d)) == j
            &&& j is Some ==> j->0 is Str || j->0 is Array
        }),
{
    reveal(extra_get);
    let content = parsed_result_content(c);
    let j = result_content(content);
    if let Some(JsonV::Array(u)) = j {
        nested_are_parsed(u, u.len());
        let again = parsed_nested_all(u, u.len());
        match c {
            Some(ToolResultContentV::Blocks(a)) => {
                nested_are_parsed(a, a.len());
                assert forall|i: int| 0 <= i < u.len() implies nested_value(#[trigger] again[i]) == u[i] && bare_text(
                    again[i],
                ) == bare_text(content[i]) by {
                    nested_settles(a[i]);
                    assert(content[i] == parsed_nested(a[i]));
                    assert(u[i] == nested_value(content[i]));
                }
                assert(nested_values(again) =~= u);
                if u.len() == 1 {
                    assert(bare_text(again[0]) == bare_text(content[0]));
                }
            },
            _ => {},
        }
    }
}

/// The modeled members of a tool result.
spec fn result_list(id: Seq<char>, content: Option<JsonV>, is_error: Option<bool>) -> Seq<(Seq<char>, Option<JsonV>)> {
    seq![
        ("type"@, Some(JsonV::Str("tool_result"@))),
        ("tool_use_id"@, Some(JsonV::Str(id))),
        ("content"@, content),
        (
            "is_error"@,
            match is_error {
                Some(e) => Some(JsonV::Bool(e)),
                None => None,
            },
        ),
    ]
}

proof fn result_is_listed(id: Seq<char>, content: Seq<ToolOutputBlockV>, is_error: Option<bool>)
    requires
        own_blocks(content),
    ensures
        ({
            let l = result_list(id, result_content(content), is_error);
            let v = with_result_content(
                JsonV::Object(seq![("type"@, JsonV::Str("tool_result"@)), ("tool_use_id"@, JsonV::Str(id))]),
                content,
                Seq::empty(),
                empty_sink(),
            ).0;
            let v2 = match is_error {
                Some(e) => with_member(v, "is_error"@, JsonV::Bool(e)),
                None => v,
            };
            v2 == JsonV::Object(put_all(l, 4))
        }),
{
    block_names();
    let none = Seq::<(Seq<char>, JsonV)>::empty();
    let l = result_list(id, result_content(content), is_error);
    assert(put_all(l, 4) == put_if(put_all(l, 3), l[3].0, l[3].1));
    assert(put_all(l, 3) == put_if(put_all(l, 2), l[2].0, l[2].1));
    assert(put_all(l, 2) == put_if(put_all(l, 1), l[1].0, l[1].1));
    assert(put_all(l, 1) == put_if(put_all(l, 0), l[0].0, l[0].1));
    absent_is_not_read(none, "type"@, JsonV::Str("tool_result"@));
    let o1 = none.push(("type"@, JsonV::Str("tool_result"@)));
    absent_is_not_read(o1, "tool_use_id"@, JsonV::Str(id));
    assert(put_all(l, 2) =~= seq![("type"@, JsonV::Str("tool_result"@)), ("tool_use_id"@, JsonV::Str(id))]);
    nested_are_written(content, Seq::empty(), empty_sink(), content.len());
    assert(nested_values(content).take(content.len() as int) =~= nested_values(content));
}

proof fn result_settles(v: JsonV, as_text: bool)
    requires
        decode_tool_result_block(v) is Ok,
    ensures
        match recast(Role::Tool, v, as_text) {
            Some(Some(u)) => type_of(u) == Some("tool_result"@) && recast(Role::Tool, u, as_text) == Some(Some(u)) && !(
            read_value(Role::Tool, u) is Opaque),
            _ => false,
        },
{
    block_names();
    let w = decode_tool_result_block(v)->Ok_0;
    let content = parsed_result_content(w.content);
    let j = result_content(content);
    content_is_own(w.content);
    result_content_settles(w.content);
    let l = result_list(w.tool_use_id, j, w.is_error);
    let t = put_all(l, 4);
    result_is_listed(w.tool_use_id, content, w.is_error);
    let known = tool_result_block_keys();
    assert(known[0] == "type"@ && known[1] == "tool_use_id"@ && known[2] == "content"@ && known[3] == "is_error"@
        && known[4] == "cache_control"@);
    assert(names_differ(l));
    assert forall|i: int| 0 <= i < 4 implies known.contains((#[trigger] l[i]).0) by {
        assert(l[i].0 == known[i]);
    }
    put_fields_are_known(l, 4, known);
    put_fields_are_named(l, 4, "cache_control"@);
    unknown_avoids(v->Object_0, known, v->Object_0.len());
    decoded_cache_is_apart(v->Object_0);
    node_is_written(t, known, w.cache_control, w.extra);
    let cc = settled_cache(w.cache_control);
    let r = kept(w.extra);
    node_is_read(t, known, cc, r);
    put_fields_are_read(l, 4, 0);
    put_fields_are_read(l, 4, 1);
    put_fields_are_read(l, 4, 2);
    put_fields_are_read(l, 4, 3);
    assert(known.contains("type"@) && known.contains("tool_use_id"@) && known.contains("content"@) && known.contains(
        "is_error"@,
    ));
    let o = node_shape(t, cc, r);
    let u = JsonV::Object(o);
    assert(recast(Role::Tool, v, as_text) == Some(Some(u)));
    assert(obj_get(o, "type"@) == l[0].1 && obj_get(o, "tool_use_id"@) == l[1].1 && obj_get(o, "content"@) == l[2].1
        && obj_get(o, "is_error"@) == l[3].1);
    let d = match j {
        Some(JsonV::Str(s)) => Some(ToolResultContentV::Text(s)),
        Some(JsonV::Array(a)) => Some(ToolResultContentV::Blocks(a)),
        _ => None,
    };
    assert(opt_tool_result_content(o, "content"@) == Ok::<Option<ToolResultContentV>, Seq<char>>(d));
    assert(opt_bool(o, "is_error"@) == Ok::<Option<bool>, Seq<char>>(w.is_error));
    content_is_own(d);
    result_is_listed(w.tool_use_id, parsed_result_content(d), w.is_error);
}

/// What is left of members of an object when `null`s are dropped.
pub proof fn members_left(o: ObjV, known: Seq<Seq<char>>)
    requires
        obj_wf(o),
    ensures
        obj_wf(unknown(o, known)),
        obj_wf(non_null(unknown(o, known), unknown(o, known).len())),
        no_nulls(non_null(unknown(o, known), unknown(o, known).len())),
        avoids(non_null(unknown(o, known), unknown(o, known).len()), known),
{
    let f = unknown(o, known);
    unknown_is_drawn(o, known, o.len());
    non_null_is_drawn(f, f.len());
    unknown_avoids(o, known, o.len());
    non_null_avoids(f, known);
    non_null_has_no_nulls(f, f.len());
}

proof fn non_null_has_no_nulls(o: ObjV, n: nat)
    requires
        n <= o.len(),
    ensures
        no_nulls(non_null(o, n)),
    decreases n,
{
    if n > 0 {
        non_null_has_no_nulls(o, (n - 1) as nat);
    }
}

/// Removing a member leaves the others.
pub proof fn removal_leaves(p: ObjV, k: Seq<char>, known: Seq<Seq<char>>)
    requires
        obj_wf(p),
        no_nulls(p),
        avoids(p, known),
    ensures
        obj_wf(obj_remove(p, k)),
        no_nulls(obj_remove(p, k)),
        avoids(obj_remove(p, k), known),
        absent(obj_remove(p, k), k),
{
    broadcast use obj_index_props;
    removed_member_is_gone(p, k);
    unread_is_absent(obj_remove(p, k), k);
    reveal(obj_remove);
    let r = obj_remove(p, k);
    let x = obj_index(p, k);
    assert forall|i: int| 0 <= i < r.len() implies !((#[trigger] r[i]).1 is Null) && !known.contains(r[i].0) by {
        let a = if i < x { i } else { i + 1 };
        if x < p.len() {
            assert(r[i] == p[a]);
        } else {
            assert(r[i] == p[i]);
        }
    }
}

proof fn non_null_lacks(o: ObjV, k: Seq<char>)
    requires
        absent(o, k),
    ensures
        absent(non_null(o, o.len()), k),
{
    assert(avoids(o, seq![k])) by {
        assert forall|j: int| 0 <= j < o.len() implies !seq![k].contains((#[trigger] o[j]).0) by {}
    }
    non_null_avoids(o, seq![k]);
    let p = non_null(o, o.len());
    assert forall|j: int| 0 <= j < p.len() implies (#[trigger] p[j]).0 != k by {
        assert(seq![k][0] == k);
        assert(!seq![k].contains(p[j].0));
    }
}

proof fn lacking_stays(o: ObjV, known: Seq<Seq<char>>, k: Seq<char>, n: nat)
    requires
        n <= o.len(),
        absent(o, k),
    ensures
        absent(unknown_upto(o, known, n), k),
    decreases n,
{
    if n > 0 {
        lacking_stays(o, known, k, (n - 1) as nat);
    }
}

/// The members of a thinking block.
spec fn thinking_members(text: Seq<char>, signature: Option<Seq<char>>) -> ObjV {
    match signature {
        Some(x) => seq![
            ("type"@, JsonV::Str("thinking"@)),
            ("thinking"@, JsonV::Str(text)),
            ("signature"@, JsonV::Str(x)),
        ],
        None => seq![("type"@, JsonV::Str("thinking"@)), ("thinking"@, JsonV::Str(text))],
    }
}

proof fn thinking_is_listed(text: Seq<char>, signature: Option<Seq<char>>)
    ensures
        thinking_value(text, signature) == JsonV::Object(thinking_members(text, signature)),
        within(thinking_members(text, signature), thinking_block_keys()),
{
    block_names();
    let known = thinking_block_keys();
    assert(known[0] == "type"@ && known[1] == "thinking"@ && known[2] == "signature"@);
    let o = seq![("type"@, JsonV::Str("thinking"@)), ("thinking"@, JsonV::Str(text))];
    match signature {
        Some(x) => {
            absent_is_not_read(o, "signature"@, JsonV::Str(x));
            assert(o.push(("signature"@, JsonV::Str(x))) =~= thinking_members(text, signature));
        },
        None => {},
    }
}

/// The members of a redacted thinking block.
spec fn redacted_members(data: Seq<char>) -> ObjV {
    seq![("type"@, JsonV::Str("redacted_thinking"@)), ("data"@, JsonV::Str(data))]
}

/// What a thinking block becomes.
proof fn thinking_is_written(text: Seq<char>, signature: Option<Seq<char>>, fields: ObjV, as_text: bool)
    requires
        avoids(fields, thinking_block_keys()),
        avoids(unmarked(fields), thinking_block_keys()),
    ensures
        ({
            let b = ContentBlockV::Thinking { text: Some(text), signature, extra: leftover(fields) };
            let t = thinking_members(text, signature);
            let mark = obj_get(non_null(fields, fields.len()), "redacted"@);
            let patch = unmarked(fields);
            written(Role::Assistant, b, as_text) == if kept(fields).len() == 0 {
                if signature is Some || as_text {
                    Some(Some(JsonV::Object(t)))
                } else {
                    Some(None)
                }
            } else if mark == Some(JsonV::Bool(true)) {
                match signature {
                    Some(data) => Some(Some(JsonV::Object(merged(redacted_members(data), patch)))),
                    None => None,
                }
            } else {
                Some(Some(JsonV::Object(t + swept(patch))))
            }
        }),
{
    let fmt = ANTHROPIC_MESSAGES@;
    let t = thinking_members(text, signature);
    let known = thinking_block_keys();
    let p = non_null(fields, fields.len());
    let patch = unmarked(fields);
    thinking_is_listed(text, signature);
    fields_are_merged(fmt, t, fields);
    swept_data_is_there(fields);
    known_are_apart(t, patch, known);
    apart_data_is_appended(t, patch, patch.len());
    let none = Seq::<(Seq<char>, JsonV)>::empty();
    if p.len() == 0 {
        assert(p =~= none);
        absent_is_not_read(p, "redacted"@, JsonV::Null);
        removing_nothing(p, "redacted"@);
    }
    if patch.len() == 0 {
        assert(patch =~= none);
        assert(swept(none) == none);
        assert(t + none =~= t);
    }
}

proof fn thinking_settles(v: JsonV, as_text: bool)
    requires
        type_of(v) == Some("thinking"@),
        decode_thinking_block(v) is Ok,
        steady_block(v, as_text),
    ensures
        match recast(Role::Assistant, v, as_text) {
            Some(Some(u)) => (type_of(u) == Some("thinking"@) || type_of(u) == Some("redacted_thinking"@)) && steady_block(
                u,
                as_text,
            ) && recast(Role::Assistant, u, as_text) == Some(Some(u)),
            _ => true,
        },
{
    block_names();
    kind_names();
    mark_names();
    let none = Seq::<(Seq<char>, JsonV)>::empty();
    let o = v->Object_0;
    let w = decode_thinking_block(v)->Ok_0;
    let known = thinking_block_keys();
    assert(known[0] == "type"@ && known[1] == "thinking"@ && known[2] == "signature"@);
    unknown_avoids(o, known, o.len());
    let p = non_null(w.extra, w.extra.len());
    non_null_avoids(w.extra, known);
    non_null_has_no_nulls(w.extra, w.extra.len());
    let patch = unmarked(w.extra);
    let t = thinking_members(w.thinking, w.signature);
    if obj_get(o, "redacted"@) is None {
        unread_is_absent(o, "redacted"@);
        lacking_stays(o, known, "redacted"@, o.len());
        non_null_lacks(w.extra, "redacted"@);
        removing_nothing(p, "redacted"@);
        absent_is_not_read(p, "redacted"@, JsonV::Null);
    } else {
        members_left(o, known);
        removal_leaves(p, "redacted"@, known);
    }
    assert(absent(patch, "redacted"@) && avoids(patch, known));
    thinking_is_written(w.thinking, w.signature, w.extra, as_text);
    swept_data_is_there(w.extra);
    let mark = obj_get(p, "redacted"@);
    if kept(w.extra).len() == 0 {
        if w.signature is Some || as_text {
            assert(t + none =~= t);
            assert(swept(none) == none);
            thinking_is_stable(w.thinking, w.signature, none, as_text);
        }
    } else if mark == Some(JsonV::Bool(true)) {
        if let Some(data) = w.signature {
            redaction_settles(data, patch, as_text);
        }
    } else {
        let r = swept(patch);
        swept_data_is_clean(patch);
        swept_data_avoids(patch, known);
        swept_data_lacks(patch, "redacted"@);
        if patch.len() == 0 {
            assert(patch =~= none);
            assert(swept(none) == none);
        } else {
            assert(no_nulls(patch)) by {
                if obj_get(o, "redacted"@) is None {
                    assert(patch == p);
                }
            }
            nothing_null(patch);
            swept_data_is_there(patch);
        }
        thinking_is_stable(w.thinking, w.signature, r, as_text);
    }
}

proof fn mark_names()
    ensures
        "redacted"@ != "type"@,
        "redacted"@ != "thinking"@,
        "redacted"@ != "signature"@,
        "redacted"@ != "data"@,
{
    reveal_strlit("redacted");
    reveal_strlit("type");
    reveal_strlit("thinking");
    reveal_strlit("signature");
    reveal_strlit("data");
    assert("redacted"@.len() == 8 && "type"@.len() == 4 && "signature"@.len() == 9 && "data"@.len() == 4);
    assert("thinking"@[0] == 't' && "redacted"@[0] == 'r');
}

/// A thinking block in its canonical form keeps it.
proof fn thinking_is_stable(text: Seq<char>, signature: Option<Seq<char>>, r: ObjV, as_text: bool)
    requires
        clean(r),
        avoids(r, thinking_block_keys()),
        absent(r, "redacted"@),
        signature is Some || as_text || r.len() > 0,
    ensures
        ({
            let u = JsonV::Object(thinking_members(text, signature) + r);
            &&& type_of(u) == Some("thinking"@)
            &&& steady_block(u, as_text)
            &&& recast(Role::Assistant, u, as_text) == Some(Some(u))
            &&& !(read_value(Role::Assistant, u) is Opaque)
        }),
{
    block_names();
    kind_names();
    mark_names();
    let none = Seq::<(Seq<char>, JsonV)>::empty();
    let known = thinking_block_keys();
    assert(known[0] == "type"@ && known[1] == "thinking"@ && known[2] == "signature"@);
    let t = thinking_members(text, signature);
    thinking_is_listed(text, signature);
    there(t, r, "type"@, 0);
    there(t, r, "thinking"@, 1);
    if signature is Some {
        there(t, r, "signature"@, 2);
    } else {
        front_members_are_read(t, r, known, "signature"@);
        absent_is_not_read(t, "signature"@, JsonV::Null);
    }
    unmodeled_members_are_kept(t, r, known);
    let o = t + r;
    assert(absent(o, "redacted"@)) by {
        assert forall|j: int| 0 <= j < o.len() implies (#[trigger] o[j]).0 != "redacted"@ by {
            if j >= t.len() {
                assert(o[j] == r[j - t.len()]);
            }
        }
    }
    absent_is_not_read(o, "redacted"@, JsonV::Null);
    let w = decode_thinking_block(JsonV::Object(o))->Ok_0;
    assert(w.thinking == text && w.signature == signature && w.extra == r);
    nothing_is_dropped(r, r.len());
    assert(r.take(r.len() as int) =~= r);
    removing_nothing(r, "redacted"@);
    absent_is_not_read(r, "redacted"@, JsonV::Null);
    clean_data_is_swept(r);
    thinking_is_written(text, signature, r, as_text);
    if r.len() == 0 {
        assert(o =~= t);
    }
}

/// What redacted thinking becomes beside members that leave its mark alone.
proof fn redacted_is_written(data: Seq<char>, fields: ObjV, as_text: bool)
    requires
        obj_wf(fields) || absent(fields, "redacted"@),
    ensures
        ({
            let marked = obj_set(fields, "redacted"@, JsonV::Bool(true));
            let b = ContentBlockV::Thinking { text: None, signature: Some(data), extra: leftover(marked) };
            written(Role::Assistant, b, as_text) == Some(
                Some(JsonV::Object(merged(redacted_members(data), unmarked(marked)))),
            )
        }),
{
    broadcast use obj_index_props;
    let fmt = ANTHROPIC_MESSAGES@;
    let k = "redacted"@;
    let marked = obj_set(fields, k, JsonV::Bool(true));
    set_member_is_read(fields, k, JsonV::Bool(true));
    let none = Seq::<(Seq<char>, JsonV)>::empty();
    fields_are_merged(fmt, none, marked);
    mark_is_read(marked, marked.len());
    let q = non_null(marked, marked.len());
    swept_data_is_there(marked);
    reveal(obj_get);
    assert(q.len() > 0);
    let patch = unmarked(marked);
    if patch.len() == 0 {
        assert(patch =~= none);
        assert(merged(redacted_members(data), none) == redacted_members(data));
    }
}

/// The first member of a name that is not `null` is read when `null`s are
/// dropped.
proof fn mark_is_read(o: ObjV, n: nat)
    requires
        obj_get(o, "redacted"@) == Some(JsonV::Bool(true)),
        n == o.len(),
    ensures
        obj_get(non_null(o, n), "redacted"@) == Some(JsonV::Bool(true)),
{
    broadcast use obj_index_props;
    reveal(obj_get);
    let i = obj_index(o, "redacted"@);
    mark_is_found(o, i, n);
}

proof fn mark_is_found(o: ObjV, i: int, n: nat)
    requires
        0 <= i < n <= o.len(),
        o[i] == ("redacted"@, JsonV::Bool(true)),
        forall|j: int| 0 <= j < i ==> (#[trigger] o[j]).0 != "redacted"@,
    ensures
        obj_get(non_null(o, n), "redacted"@) == Some(JsonV::Bool(true)),
    decreases n,
{
    let q = non_null(o, n);
    if i == n - 1 {
        let prev = non_null(o, (n - 1) as nat);
        no_mark_before(o, i, (n - 1) as nat);
        assert forall|j: int| 0 <= j < prev.len() implies (#[trigger] q[j]).0 != "redacted"@ by {
            assert(q[j] == prev[j]);
        }
        first_named_is_read(q, "redacted"@, prev.len() as int);
    } else {
        mark_is_found(o, i, (n - 1) as nat);
        let prev = non_null(o, (n - 1) as nat);
        if !(o[n - 1].1 is Null) {
            broadcast use obj_index_props;
            reveal(obj_get);
            let x = obj_index(prev, "redacted"@);
            assert(q[x] == prev[x]);
            assert forall|j: int| 0 <= j < x implies (#[trigger] q[j]).0 != "redacted"@ by {
                assert(q[j] == prev[j]);
            }
            first_named_is_read(q, "redacted"@, x);
        }
    }
}

proof fn no_mark_before(o: ObjV, i: int, n: nat)
    requires
        n <= i <= o.len(),
        forall|j: int| 0 <= j < i ==> (#[trigger] o[j]).0 != "redacted"@,
    ensures
        absent(non_null(o, n), "redacted"@),
    decreases n,
{
    if n > 0 {
        no_mark_before(o, i, (n - 1) as nat);
    }
}

/// Redacted thinking with members merged in keeps that form. Where a member
/// takes the place of its data and is no text, it stays verbatim.
proof fn redaction_settles(data: Seq<char>, patch: ObjV, as_text: bool)
    requires
        obj_wf(patch),
        no_nulls(patch),
        absent(patch, "type"@),
        absent(patch, "redacted"@),
    ensures
        ({
            let u = JsonV::Object(merged(redacted_members(data), patch));
            &&& type_of(u) == Some("redacted_thinking"@)
            &&& steady_block(u, as_text)
            &&& recast(Role::Assistant, u, as_text) == Some(Some(u))
            &&& absent(patch, "data"@) ==> !(read_value(Role::Assistant, u) is Opaque)
        }),
{
    block_names();
    kind_names();
    mark_names();
    let none = Seq::<(Seq<char>, JsonV)>::empty();
    let known = redacted_thinking_block_keys();
    assert(known[0] == "type"@ && known[1] == "data"@);
    let l = seq![("type"@, Some(JsonV::Str("redacted_thinking"@))), ("data"@, Some(JsonV::Str(data)))];
    let t = redacted_members(data);
    assert(put_all(l, 2) == put_if(put_all(l, 1), l[1].0, l[1].1));
    assert(put_all(l, 1) == put_if(put_all(l, 0), l[0].0, l[0].1));
    absent_is_not_read(none, "type"@, l[0].1->0);
    let o1 = none.push(("type"@, l[0].1->0));
    absent_is_not_read(o1, "data"@, l[1].1->0);
    assert(put_all(l, 2) =~= t);
    assembled(l, patch);
    let f = front(l, patch);
    let b = back(t, patch, patch.len());
    back_is_clean(t, patch, patch.len());
    let o = merged(t, patch);
    absent_is_not_read(patch, "type"@, JsonV::Null);
    let d = f[1].1->0;
    assert(f =~= seq![("type"@, Some(JsonV::Str("redacted_thinking"@))), ("data"@, Some(d))]);
    assert(put_all(f, 2) == put_if(put_all(f, 1), f[1].0, f[1].1));
    assert(put_all(f, 1) == put_if(put_all(f, 0), f[0].0, f[0].1));
    absent_is_not_read(o1, "data"@, d);
    let h = seq![("type"@, JsonV::Str("redacted_thinking"@)), ("data"@, d)];
    assert(put_all(f, 2) =~= h);
    assert(o == h + b);
    put_fields_are_read(l, 2, 0);
    put_fields_are_read(l, 2, 1);
    assert(absent(b, "type"@) && absent(b, "data"@));
    assert(avoids(b, known)) by {
        assert forall|i: int| 0 <= i < b.len() implies !known.contains((#[trigger] b[i]).0) by {
            assert(b[i].0 != "type"@ && b[i].0 != "data"@);
        }
    }
    there(h, b, "type"@, 0);
    there(h, b, "data"@, 1);
    assert(within(h, known));
    unmodeled_members_are_kept(h, b, known);
    assert(absent(b, "redacted"@));
    assert(absent(o, "redacted"@)) by {
        assert forall|j: int| 0 <= j < o.len() implies (#[trigger] o[j]).0 != "redacted"@ by {
            if j >= h.len() {
                assert(o[j] == b[j - h.len()]);
            }
        }
    }
    absent_is_not_read(o, "redacted"@, JsonV::Null);
    let u = JsonV::Object(o);
    if absent(patch, "data"@) {
        absent_is_not_read(patch, "data"@, JsonV::Null);
    }
    if let JsonV::Str(x) = d {
        let w = decode_redacted_thinking_block(u)->Ok_0;
        assert(w.data == x && w.extra == b);
        redacted_is_written(x, b, as_text);
        absent_is_not_read(b, "redacted"@, JsonV::Bool(true));
        let m = ("redacted"@, JsonV::Bool(true));
        let marked = b.push(m);
        marked_is_there(b, m, b.len());
        nothing_is_dropped(b, b.len());
        assert(b.take(b.len() as int) =~= b);
        assert(non_null(marked, marked.len()) == marked);
        assert forall|j: int| 0 <= j < b.len() implies (#[trigger] marked[j]).0 != "redacted"@ by {
            assert(marked[j] == b[j]);
        }
        first_named_is_read(marked, "redacted"@, b.len() as int);
        assert(obj_remove(marked, "redacted"@) == b) by {
            reveal(obj_remove);
            assert(marked.remove(b.len() as int) =~= b);
        }
        let tx = redacted_members(x);
        assert(tx =~= h);
        known_are_apart(h, b, known);
        apart_data_is_appended(h, b, b.len());
        clean_data_is_swept(b);
    }
}

proof fn marked_is_there(o: ObjV, x: (Seq<char>, JsonV), n: nat)
    requires
        n <= o.len(),
    ensures
        non_null(o.push(x), n) == non_null(o, n),
    decreases n,
{
    if n > 0 {
        marked_is_there(o, x, (n - 1) as nat);
    }
}

proof fn redacted_settles(v: JsonV, as_text: bool)
    requires
        type_of(v) == Some("redacted_thinking"@),
        decode_redacted_thinking_block(v) is Ok,
        steady_block(v, as_text),
    ensures
        match recast(Role::Assistant, v, as_text) {
            Some(Some(u)) => type_of(u) == Some("redacted_thinking"@) && steady_block(u, as_text) && recast(
                Role::Assistant,
                u,
                as_text,
            ) == Some(Some(u)) && !(read_value(Role::Assistant, u) is Opaque),
            _ => false,
        },
{
    block_names();
    kind_names();
    mark_names();
    let o = v->Object_0;
    let w = decode_redacted_thinking_block(v)->Ok_0;
    let known = redacted_thinking_block_keys();
    assert(known[0] == "type"@ && known[1] == "data"@);
    unknown_avoids(o, known, o.len());
    let marked = obj_set(w.extra, "redacted"@, JsonV::Bool(true));
    let patch = unmarked(marked);
    let q = non_null(marked, marked.len());
    if obj_get(o, "redacted"@) is None {
        unread_is_absent(o, "redacted"@);
        lacking_stays(o, known, "redacted"@, o.len());
        absent_is_not_read(w.extra, "redacted"@, JsonV::Bool(true));
        let m = ("redacted"@, JsonV::Bool(true));
        marked_is_there(w.extra, m, w.extra.len());
        let p = non_null(w.extra, w.extra.len());
        assert(q == p.push(m));
        non_null_lacks(w.extra, "redacted"@);
        assert forall|j: int| 0 <= j < p.len() implies (#[trigger] q[j]).0 != "redacted"@ by {
            assert(q[j] == p[j]);
        }
        first_named_is_read(q, "redacted"@, p.len() as int);
        assert(patch == p) by {
            reveal(obj_remove);
            assert(q.remove(p.len() as int) =~= p);
        }
        non_null_avoids(w.extra, known);
        redacted_is_written(w.data, w.extra, as_text);
        let t = redacted_members(w.data);
        assert(within(t, known));
        let r = kept(w.extra);
        known_are_apart(t, p, known);
        apart_data_is_appended(t, p, p.len());
        kept_fields_stay(w.extra);
        kept_fields_avoid(w.extra, known);
        swept_data_lacks(p, "redacted"@);
        clean_member_by_member(r);
        assert(no_nulls(r)) by {
            assert forall|i: int| 0 <= i < r.len() implies !((#[trigger] r[i]).1 is Null) by {
                assert(clean_value(r[i].1));
            }
        }
        assert(absent(r, "type"@) && absent(r, "data"@)) by {
            assert forall|i: int| 0 <= i < r.len() implies (#[trigger] r[i]).0 != "type"@ && r[i].0 != "data"@ by {
                assert(!known.contains(r[i].0));
            }
        }
        redaction_settles(w.data, r, as_text);
        known_are_apart(t, r, known);
        apart_data_is_appended(t, r, r.len());
        clean_data_is_swept(r);
    } else {
        members_left(o, known);
        set_keeps_names_distinct(w.extra, "redacted"@, JsonV::Bool(true));
        non_null_is_drawn(marked, marked.len());
        non_null_has_no_nulls(marked, marked.len());
        assert(!known.contains("redacted"@));
        assert(avoids(marked, known)) by {
            broadcast use obj_index_props;
            reveal(obj_set);
            assert forall|i: int| 0 <= i < marked.len() implies !known.contains((#[trigger] marked[i]).0) by {
                if i != obj_index(w.extra, "redacted"@) {
                    assert(marked[i] == w.extra[i]);
                }
            }
        }
        non_null_avoids(marked, known);
        removal_leaves(q, "redacted"@, known);
        redacted_is_written(w.data, w.extra, as_text);
        assert(absent(patch, "type"@) && absent(patch, "data"@)) by {
            assert forall|i: int| 0 <= i < patch.len() implies (#[trigger] patch[i]).0 != "type"@ && patch[i].0
                != "data"@ by {
                assert(!known.contains(patch[i].0));
            }
        }
        redaction_settles(w.data, patch, as_text);
    }
}

/// What a block becomes on its way through the IR stays as it is from then on,
/// and is a tool result, or text, just as it was.
pub proof fn block_settles(role: Role, v: JsonV, as_text: bool)
    requires
        steady_block(v, as_text),
        role == Role::Tool ==> type_of(v) == Some("tool_result"@),
        role == Role::User ==> type_of(v) != Some("tool_result"@),
        role != Role::Developer,
    ensures
        match recast(role, v, as_text) {
            Some(Some(u)) => {
                &&& recast(role, u, as_text) == Some(Some(u))
                &&& steady_block(u, as_text)
                &&& (type_of(u) == Some("tool_result"@)) == (type_of(v) == Some("tool_result"@))
                &&& role != Role::Assistant ==> (read_value(role, u) is Opaque) == (read_value(role, v) is Opaque)
                &&& read_value(role, v) is Opaque ==> u == v
                &&& role == Role::System ==> bare_block(read_value(role, u)) == bare_block(read_value(role, v))
            },
            _ => true,
        },
        role == Role::User || role == Role::Tool || role == Role::System ==> recast(role, v, as_text) is Some
            && recast(role, v, as_text)->0 is Some,
{
    block_names();
    kind_names();
    reveal_strlit("image");
    reveal_strlit("tool_result");
    reveal_strlit("tool_use");
    reveal_strlit("thinking");
    reveal_strlit("redacted_thinking");
    assert("image"@.len() == 5 && "tool_result"@.len() == 11 && "tool_use"@.len() == 8 && "thinking"@.len() == 8
        && "redacted_thinking"@.len() == 17);
    let b = read_value(role, v);
    if !(b is Opaque) {
        match role {
            Role::Assistant => {
                if type_of(v) == Some("text"@) {
                    text_settles(role, v, as_text);
                } else if type_of(v) == Some("tool_use"@) {
                    call_settles(v, as_text);
                } else if type_of(v) == Some("thinking"@) {
                    thinking_settles(v, as_text);
                } else {
                    redacted_settles(v, as_text);
                }
            },
            Role::Tool => {
                result_settles(v, as_text);
            },
            Role::System => {
                text_settles(role, v, as_text);
            },
            _ => {
                if type_of(v) == Some("text"@) {
                    text_settles(role, v, as_text);
                } else {
                    image_settles(v, as_text);
                }
            },
        }
    }
}

} // verus!
