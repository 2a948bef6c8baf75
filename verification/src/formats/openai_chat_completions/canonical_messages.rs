//! Laws: wire messages in their canonical form. What a message becomes on its
//! way through the IR stays as it is from then on.

use vstd::prelude::*;
use crate::assembly::{body_of, body_settles, combined, field_is_read, meets_no_object, no_field_is_read, sound, swept_fields, FieldsV};
use crate::convert::{ConversionWarningV, ConvertOptionsV};
use crate::decode::extended;
use crate::error::ConversionErrorV;
use crate::format::OPENAI_CHAT_COMPLETIONS;
use crate::formats::openai_chat_completions::assistant::{assistant_content, assistant_message, content_parts, lane_message, lane_losses, lanes, lanes_start, plain_thinking, with_carried, with_extras, LanesV, MESSAGE_KEY, REFUSAL_KEY};
use crate::formats::openai_chat_completions::canonical_calls::{call_is_read_anywhere, call_settles, call_value, entry_data, read_call, rest_is_sound, rest_of, steady_call, swept_rest_stays};
use crate::formats::openai_chat_completions::canonical_parts::{answer_is_written_anywhere, answer_part_settles, answer_value, bare_text, carries_nothing, combined_stays, input_is_written_anywhere, input_part_settles, input_value, lone_text, output_is_written_anywhere, output_part_settles, output_value, part_is_read_anywhere, plain_answer_stays, read_part, refusal_is_written, refusal_members, refusal_stays, steady_answer, steady_input};
use crate::formats::openai_chat_completions::content::{input_parts, omerged, output_parts, text_part, tool_content};
use crate::formats::openai_chat_completions::messages::{chat_step, chat_steps, input_message, input_role_name, role_check, tool_messages, tool_step, tool_steps, verbatim, wire_ptr, ChatV};
use crate::formats::openai_chat_completions::parse_messages::{assistant_of, input_of, tool_of, message_with, no_fields, parsed_message, parsed_messages, read_content, read_refusal, read_thinking, verbatim_message};
use crate::formats::openai_chat_completions::parse_messages;
use crate::formats::openai_chat_completions::parse_parts::{call_blocks, opaque, output_blocks, own_extra, part_blocks, refusal_block};
use crate::formats::openai_chat_completions::round_trip::{message_names, role_names};
use crate::formats::openai_chat_completions::round_trip_calls::{content_names, no_data_is_merged};
use crate::formats::openai_chat_completions::types;
use crate::ir::{extra_has, extra_ns, non_null, text_block, text_output, thinking_block, ContentBlockV, MessageV, Role, ToolOutputBlockV};
use crate::json::{json_as_str, json_get, obj_get, object2, object3, put_if, JsonV, ObjV};
use crate::merge::merged;
use crate::namespaces::{absent_is_not_read, avoids, put_all, put_fields_are_named, put_fields_are_read, removing_nothing, two_members_are_read, foreign_data_is_not_merged, unknown_avoids};
use crate::sink::{empty_sink, SinkV};
use crate::sweep::{fields_are_merged, swept};
use crate::text::{decimal, joined};

verus! {

/// What the parts of a message are read as.
pub open spec fn read_parts(parts: Seq<JsonV>, input: bool) -> Seq<ContentBlockV> {
    Seq::new(parts.len(), |i: int| read_part(parts[i], input))
}

pub proof fn parts_are_read(parts: Seq<JsonV>, ptr: Seq<char>, input: bool, ws: Seq<ConversionWarningV>, n: nat)
    requires
        n <= parts.len(),
    ensures
        part_blocks(parts, ptr, input, ws, n).0 == read_parts(parts, input).take(n as int),
    decreases n,
{
    if n == 0 {
        assert(read_parts(parts, input).take(0) =~= Seq::<ContentBlockV>::empty());
    } else {
        parts_are_read(parts, ptr, input, ws, (n - 1) as nat);
        let ws1 = part_blocks(parts, ptr, input, ws, (n - 1) as nat).1;
        part_is_read_anywhere(
            parts[n - 1],
            ptr + "/content/"@ + decimal((n - 1) as nat),
            input,
            ws1,
        );
        assert(read_parts(parts, input).take(n as int) =~= read_parts(parts, input).take(n - 1).push(
            read_parts(parts, input)[n - 1],
        ));
    }
}

/// A member of the wrong shape, which is kept verbatim.
pub open spec fn odd_content(v: Option<JsonV>) -> Option<JsonV> {
    match v {
        Some(JsonV::Str(_)) => None,
        Some(JsonV::Array(_)) => None,
        v => v,
    }
}

/// A member that is no text.
pub open spec fn odd_text(v: Option<JsonV>) -> Option<JsonV> {
    match v {
        Some(JsonV::Str(_)) => None,
        v => v,
    }
}

/// A member that is no array.
pub open spec fn odd_array(v: Option<JsonV>) -> Option<JsonV> {
    match v {
        Some(JsonV::Array(_)) => None,
        v => v,
    }
}

/// The blocks of the content of an input message.
pub open spec fn input_blocks(v: Option<JsonV>) -> Seq<ContentBlockV> {
    match v {
        Some(JsonV::Str(s)) => seq![text_block(s)],
        Some(JsonV::Array(parts)) => read_parts(parts, true),
        _ => Seq::empty(),
    }
}

/// The parts that input blocks are written as.
pub open spec fn input_values(blocks: Seq<ContentBlockV>) -> Seq<JsonV> {
    Seq::new(blocks.len(), |i: int| input_value(blocks[i])->0)
}

/// The content of an input message in its canonical form.
pub open spec fn canonical_input(v: Option<JsonV>) -> JsonV {
    let blocks = input_blocks(v);
    if blocks.len() == 1 && bare_text(blocks[0]) {
        JsonV::Str(blocks[0]->Text_text)
    } else {
        JsonV::Array(input_values(blocks))
    }
}

/// Some block is an image.
pub open spec fn has_image(blocks: Seq<ContentBlockV>) -> bool {
    exists|i: int| 0 <= i < blocks.len() && (#[trigger] blocks[i]) is Image
}

/// Every block can be written as a part of an input message.
spec fn writable(blocks: Seq<ContentBlockV>) -> bool {
    forall|i: int|
        0 <= i < blocks.len() ==> exists|part: JsonV| #[trigger] read_part(part, true) == #[trigger] blocks[i]
}

proof fn input_blocks_are_writable(v: Option<JsonV>)
    ensures
        writable(input_blocks(v)),
{
    let blocks = input_blocks(v);
    match v {
        Some(JsonV::Str(s)) => {
            plain_answer_stays(s);
            assert(read_part(text_part(s), true) == blocks[0]);
        },
        Some(JsonV::Array(parts)) => {
            assert forall|i: int| 0 <= i < blocks.len() implies exists|part: JsonV| #[trigger]
                read_part(part, true) == #[trigger] blocks[i] by {
                assert(read_part(parts[i], true) == blocks[i]);
            }
        },
        _ => {},
    }
}

proof fn input_parts_are_written(blocks: Seq<ContentBlockV>, ptr: Seq<char>, system: bool, s: SinkV, n: nat)
    requires
        n <= blocks.len(),
        writable(blocks),
        !(system && has_image(blocks)),
    ensures
        match input_parts(blocks, ptr, system, s, n) {
            Ok((parts, _)) => parts == input_values(blocks).take(n as int),
            Err(_) => false,
        },
    decreases n,
{
    if n == 0 {
        assert(input_values(blocks).take(0) =~= Seq::<JsonV>::empty());
    } else {
        input_parts_are_written(blocks, ptr, system, s, (n - 1) as nat);
        let prev = input_parts(blocks, ptr, system, s, (n - 1) as nat)->Ok_0;
        let b = blocks[n - 1];
        let part = choose|part: JsonV| #[trigger] read_part(part, true) == b;
        input_is_written_anywhere(prev, part, (n - 1) as nat, ptr, system);
        assert(input_values(blocks).take(n as int) =~= input_values(blocks).take(n - 1).push(
            input_values(blocks)[n - 1],
        ));
    }
}

proof fn roles_are_checked(m: MessageV, mi: nat, system: bool, n: nat)
    requires
        n <= m.content.len(),
        writable(m.content),
    ensures
        role_check(m, mi, system, n) is Ok == !(system && has_image(m.content.take(n as int))),
    decreases n,
{
    if n > 0 {
        roles_are_checked(m, mi, system, (n - 1) as nat);
        let b = m.content[n - 1];
        let part = choose|part: JsonV| #[trigger] read_part(part, true) == b;
        input_is_written_anywhere((Seq::empty(), empty_sink()), part, 0, Seq::empty(), false);
        let a = m.content.take(n - 1);
        let c = m.content.take(n as int);
        assert(c[n - 1] == b);
        if has_image(a) {
            let i = choose|i: int| 0 <= i < a.len() && (#[trigger] a[i]) is Image;
            assert(c[i] is Image);
        }
        if has_image(c) && !(b is Image) {
            let i = choose|i: int| 0 <= i < c.len() && (#[trigger] c[i]) is Image;
            assert(a[i] is Image);
        }
    }
}

/// A system, developer or user message, by its wire role.
pub open spec fn input_kind(role: Seq<char>) -> Option<Role> {
    if role == "system"@ {
        Some(Role::System)
    } else if role == "developer"@ {
        Some(Role::Developer)
    } else if role == "user"@ {
        Some(Role::User)
    } else {
        None
    }
}

/// The fields of an input message.
pub open spec fn input_fields(role: Seq<char>, w: types::MessageV) -> FieldsV {
    seq![("role"@, Some(JsonV::Str(role))), ("content"@, Some(canonical_input(w.content)))]
}

/// What an input message keeps verbatim.
pub open spec fn input_data(w: types::MessageV) -> FieldsV {
    seq![
        ("content"@, odd_content(w.content)),
        ("reasoning_content"@, w.reasoning_content),
        ("refusal"@, w.refusal),
        ("tool_calls"@, w.tool_calls),
        ("tool_call_id"@, w.tool_call_id),
        ("name"@, w.name),
    ]
}

/// An input message in its canonical form.
pub open spec fn input_body(role: Seq<char>, w: types::MessageV) -> ObjV {
    body_of(input_fields(role, w), input_data(w), rest_of(w.extra))
}

/// A message as it is decoded: no member is `null`, and none is unmodeled that
/// is modeled.
spec fn decoded(w: types::MessageV) -> bool {
    &&& w.content != Some(JsonV::Null)
    &&& w.reasoning_content != Some(JsonV::Null)
    &&& w.refusal != Some(JsonV::Null)
    &&& w.tool_calls != Some(JsonV::Null)
    &&& w.tool_call_id != Some(JsonV::Null)
    &&& w.name != Some(JsonV::Null)
    &&& avoids(w.extra, types::message_keys())
}

proof fn message_is_decoded(j: JsonV)
    ensures
        types::decode_message(j) is Ok ==> decoded(types::decode_message(j)->Ok_0),
{
    if types::decode_message(j) is Ok {
        let o = j->Object_0;
        unknown_avoids(o, types::message_keys(), o.len());
    }
}

proof fn message_keys_are_listed()
    ensures
        ({
            let known = types::message_keys();
            &&& known.contains("role"@)
            &&& known.contains("content"@)
            &&& known.contains("reasoning_content"@)
            &&& known.contains("refusal"@)
            &&& known.contains("tool_calls"@)
            &&& known.contains("tool_call_id"@)
            &&& known.contains("name"@)
        }),
{
    let known = types::message_keys();
    assert(known[0] == "role"@ && known[1] == "content"@ && known[2] == "reasoning_content"@ && known[3] == "refusal"@
        && known[4] == "tool_calls"@ && known[5] == "tool_call_id"@ && known[6] == "name"@);
}

proof fn input_is_sound(role: Seq<char>, w: types::MessageV)
    requires
        decoded(w),
    ensures
        sound(input_fields(role, w), input_data(w), rest_of(w.extra), types::message_keys()),
        meets_no_object(input_fields(role, w), input_data(w)),
{
    message_names();
    message_keys_are_listed();
    let known = types::message_keys();
    rest_is_sound(w.extra, known);
    let l = input_fields(role, w);
    let nl = input_data(w);
    assert forall|i: int| 0 <= i < l.len() implies known.contains((#[trigger] l[i]).0) by {}
    assert forall|i: int| 0 <= i < nl.len() implies known.contains((#[trigger] nl[i]).0) && nl[i].1 != Some(
        JsonV::Null,
    ) by {}
    put_fields_are_read(l, 2, 1);
    assert forall|i: int| 0 <= i < nl.len() && (#[trigger] nl[i]).1 is Some implies match obj_get(
        put_all(l, l.len()),
        nl[i].0,
    ) {
        Some(JsonV::Object(_)) => false,
        _ => true,
    } by {
        if i > 0 {
            put_fields_are_named(l, 2, nl[i].0);
            absent_is_not_read(put_all(l, 2), nl[i].0, JsonV::Null);
        }
    }
}

/// What the member is read as when an input message is read again.
proof fn input_is_read_again(role: Seq<char>, w: types::MessageV)
    requires
        decoded(w),
    ensures
        ({
            let u = JsonV::Object(input_body(role, w));
            let d = types::decode_message(u);
            let w2 = d->Ok_0;
            &&& d is Ok
            &&& w2.role == Some(role)
            &&& w2.content == match odd_content(w.content) {
                Some(v) => combined(None, Some(v)),
                None => Some(canonical_input(w.content)),
            }
            &&& w2.reasoning_content == combined(None, w.reasoning_content)
            &&& w2.refusal == combined(None, w.refusal)
            &&& w2.tool_calls == combined(None, w.tool_calls)
            &&& w2.tool_call_id == combined(None, w.tool_call_id)
            &&& w2.name == combined(None, w.name)
            &&& w2.extra == swept(rest_of(w.extra))
        }),
{
    message_names();
    message_keys_are_listed();
    let known = types::message_keys();
    let l = input_fields(role, w);
    let nl = input_data(w);
    input_is_sound(role, w);
    body_settles(l, nl, rest_of(w.extra), known);
    let o = input_body(role, w);
    put_fields_are_read(l, 2, 0);
    put_fields_are_read(l, 2, 1);
    no_field_is_read(nl, "role"@);
    field_is_read(nl, 0);
    field_is_read(nl, 1);
    field_is_read(nl, 2);
    field_is_read(nl, 3);
    field_is_read(nl, 4);
    field_is_read(nl, 5);
    let t = put_all(l, 2);
    put_fields_are_named(l, 2, "reasoning_content"@);
    absent_is_not_read(t, "reasoning_content"@, JsonV::Null);
    put_fields_are_named(l, 2, "refusal"@);
    absent_is_not_read(t, "refusal"@, JsonV::Null);
    put_fields_are_named(l, 2, "tool_calls"@);
    absent_is_not_read(t, "tool_calls"@, JsonV::Null);
    put_fields_are_named(l, 2, "tool_call_id"@);
    absent_is_not_read(t, "tool_call_id"@, JsonV::Null);
    put_fields_are_named(l, 2, "name"@);
    absent_is_not_read(t, "name"@, JsonV::Null);
    assert(obj_get(o, "role"@) == Some(JsonV::Str(role)));
    combined_stays(odd_content(w.content));
    combined_stays(w.reasoning_content);
    combined_stays(w.refusal);
    combined_stays(w.tool_calls);
    combined_stays(w.tool_call_id);
    combined_stays(w.name);
    assert(obj_get(o, "content"@) == match odd_content(w.content) {
        Some(v) => combined(None, Some(v)),
        None => Some(canonical_input(w.content)),
    });
    assert(obj_get(o, "reasoning_content"@) == combined(None, w.reasoning_content));
    assert(obj_get(o, "refusal"@) == combined(None, w.refusal));
    assert(obj_get(o, "tool_calls"@) == combined(None, w.tool_calls));
    assert(obj_get(o, "tool_call_id"@) == combined(None, w.tool_call_id));
    assert(obj_get(o, "name"@) == combined(None, w.name));
}

/// The content of an input message keeps its canonical form.
pub open spec fn steady_input_content(v: Option<JsonV>) -> bool {
    match v {
        Some(JsonV::Array(parts)) => forall|i: int| 0 <= i < parts.len() ==> steady_input(#[trigger] parts[i]),
        _ => true,
    }
}

proof fn input_content_settles(v: Option<JsonV>)
    requires
        steady_input_content(v),
    ensures
        canonical_input(Some(canonical_input(v))) == canonical_input(v),
        has_image(input_blocks(Some(canonical_input(v)))) == has_image(input_blocks(v)),
{
    let blocks = input_blocks(v);
    let c = canonical_input(v);
    let again = input_blocks(Some(c));
    if blocks.len() == 1 && bare_text(blocks[0]) {
        let t = blocks[0]->Text_text;
        assert(again[0] == text_block(t));
        assert(!extra_has(Seq::<(Seq<char>, ObjV)>::empty(), OPENAI_CHAT_COMPLETIONS@)) by {
            fields_are_merged(OPENAI_CHAT_COMPLETIONS@, Seq::empty(), Seq::empty());
        }
        assert(bare_text(text_block(t)));
        assert(!has_image(again));
        assert(!has_image(blocks));
    } else {
        let vals = input_values(blocks);
        assert(again.len() == blocks.len());
        assert forall|i: int| 0 <= i < blocks.len() implies input_value(#[trigger] again[i]) == Some(vals[i])
            && bare_text(again[i]) == bare_text(blocks[i]) && (again[i] is Image) == (blocks[i] is Image) by {
            match v {
                Some(JsonV::Str(s)) => {
                    plain_answer_stays(s);
                    assert(vals[0] == text_part(s));
                },
                Some(JsonV::Array(parts)) => {
                    assert(steady_input(parts[i]));
                    input_part_settles(parts[i]);
                },
                _ => {},
            }
        }
        assert(input_values(again) =~= vals);
        if has_image(blocks) {
            let i = choose|i: int| 0 <= i < blocks.len() && (#[trigger] blocks[i]) is Image;
            assert(again[i] is Image);
        }
        if has_image(again) {
            let i = choose|i: int| 0 <= i < again.len() && (#[trigger] again[i]) is Image;
            assert(blocks[i] is Image);
        }
        if again.len() == 1 {
            assert(bare_text(again[0]) == bare_text(blocks[0]));
        }
    }
}

/// An input message in its canonical form keeps it.
proof fn input_body_stays(role: Seq<char>, w: types::MessageV)
    requires
        decoded(w),
        steady_input_content(w.content),
    ensures
        ({
            let w2 = types::decode_message(JsonV::Object(input_body(role, w)))->Ok_0;
            &&& input_body(role, w2) == input_body(role, w)
            &&& has_image(input_blocks(w2.content)) == has_image(input_blocks(w.content))
        }),
{
    input_is_read_again(role, w);
    let w2 = types::decode_message(JsonV::Object(input_body(role, w)))->Ok_0;
    input_content_settles(w.content);
    input_is_sound(role, w);
    let known = types::message_keys();
    body_settles(input_fields(role, w), input_data(w), rest_of(w.extra), known);
    swept_rest_stays(rest_of(w.extra));
    combined_stays(odd_content(w.content));
    let c = odd_content(w.content);
    assert(odd_content(w2.content) == combined(None, c));
    if c is Some {
        assert(input_blocks(w.content) =~= Seq::<ContentBlockV>::empty());
        assert(input_blocks(w2.content) =~= Seq::<ContentBlockV>::empty());
    }
    assert(canonical_input(w2.content) == canonical_input(w.content));
    assert(input_fields(role, w2) =~= input_fields(role, w));
    assert(input_data(w2) =~= swept_fields(input_data(w)));
}

/// The blocks of the content of a tool message.
pub open spec fn answered_blocks(v: Option<JsonV>) -> Seq<ToolOutputBlockV> {
    match v {
        Some(JsonV::Str(s)) => if s.len() == 0 { Seq::empty() } else { seq![text_output(s)] },
        Some(JsonV::Array(parts)) => output_blocks(parts),
        _ => Seq::empty(),
    }
}

/// A bare text block of tool output: it may stand as a string.
pub open spec fn bare_output(b: ToolOutputBlockV) -> bool {
    b is Text && b->Text_text.len() > 0 && !extra_has(b->Text_extra, OPENAI_CHAT_COMPLETIONS@)
}

/// The content of a tool message in its canonical form.
pub open spec fn canonical_output(v: Option<JsonV>) -> JsonV {
    let blocks = answered_blocks(v);
    if blocks.len() == 0 {
        JsonV::Str(Seq::empty())
    } else if blocks.len() == 1 && bare_output(blocks[0]) {
        JsonV::Str(blocks[0]->Text_text)
    } else {
        JsonV::Array(Seq::new(blocks.len(), |i: int| output_value(blocks[i])))
    }
}

proof fn output_content_settles(v: Option<JsonV>)
    ensures
        canonical_output(Some(canonical_output(v))) == canonical_output(v),
{
    let blocks = answered_blocks(v);
    let c = canonical_output(v);
    let again = answered_blocks(Some(c));
    if blocks.len() == 0 {
    } else if blocks.len() == 1 && bare_output(blocks[0]) {
        let t = blocks[0]->Text_text;
        assert(again[0] == text_output(t));
        assert(!extra_has(Seq::<(Seq<char>, ObjV)>::empty(), OPENAI_CHAT_COMPLETIONS@)) by {
            fields_are_merged(OPENAI_CHAT_COMPLETIONS@, Seq::empty(), Seq::empty());
        }
    } else {
        let vals = c->Array_0;
        assert(again.len() == blocks.len());
        assert forall|i: int| 0 <= i < blocks.len() implies output_value(#[trigger] again[i]) == vals[i]
            && bare_output(again[i]) == bare_output(blocks[i]) by {
            match v {
                Some(JsonV::Str(s)) => {
                    plain_answer_stays(s);
                    assert(bare_output(blocks[0])) by {
                        fields_are_merged(OPENAI_CHAT_COMPLETIONS@, Seq::empty(), Seq::empty());
                    }
                },
                Some(JsonV::Array(parts)) => {
                    output_part_settles(parts[i]);
                },
                _ => {},
            }
        }
        assert(Seq::new(again.len(), |i: int| output_value(again[i])) =~= vals);
        if again.len() == 1 {
            assert(bare_output(again[0]) == bare_output(blocks[0]));
        }
    }
}

/// The fields of a tool message.
pub open spec fn tool_fields(id: Seq<char>, w: types::MessageV) -> FieldsV {
    seq![
        ("role"@, Some(JsonV::Str("tool"@))),
        ("tool_call_id"@, Some(JsonV::Str(id))),
        ("content"@, Some(canonical_output(w.content))),
        (
            "name"@,
            match w.name {
                Some(JsonV::Str(s)) => Some(JsonV::Str(s)),
                _ => None,
            },
        ),
    ]
}

/// What a tool message keeps verbatim.
pub open spec fn tool_data(w: types::MessageV) -> FieldsV {
    seq![
        ("name"@, odd_text(w.name)),
        ("content"@, odd_content(w.content)),
        ("reasoning_content"@, w.reasoning_content),
        ("refusal"@, w.refusal),
        ("tool_calls"@, w.tool_calls),
    ]
}

/// A tool message in its canonical form.
pub open spec fn tool_body(id: Seq<char>, w: types::MessageV) -> ObjV {
    body_of(tool_fields(id, w), tool_data(w), rest_of(w.extra))
}

proof fn tool_is_sound(id: Seq<char>, w: types::MessageV)
    requires
        decoded(w),
    ensures
        sound(tool_fields(id, w), tool_data(w), rest_of(w.extra), types::message_keys()),
        meets_no_object(tool_fields(id, w), tool_data(w)),
{
    message_names();
    message_keys_are_listed();
    let known = types::message_keys();
    rest_is_sound(w.extra, known);
    let l = tool_fields(id, w);
    let nl = tool_data(w);
    assert forall|i: int| 0 <= i < l.len() implies known.contains((#[trigger] l[i]).0) by {}
    assert forall|i: int| 0 <= i < nl.len() implies known.contains((#[trigger] nl[i]).0) && nl[i].1 != Some(
        JsonV::Null,
    ) by {}
    put_fields_are_read(l, 4, 2);
    put_fields_are_read(l, 4, 3);
    assert forall|i: int| 0 <= i < nl.len() && (#[trigger] nl[i]).1 is Some implies match obj_get(
        put_all(l, l.len()),
        nl[i].0,
    ) {
        Some(JsonV::Object(_)) => false,
        _ => true,
    } by {
        if i > 1 {
            put_fields_are_named(l, 4, nl[i].0);
            absent_is_not_read(put_all(l, 4), nl[i].0, JsonV::Null);
        }
    }
}

/// A tool message in its canonical form is read as such, and keeps it.
proof fn tool_body_stays(id: Seq<char>, w: types::MessageV)
    requires
        decoded(w),
    ensures
        ({
            let d = types::decode_message(JsonV::Object(tool_body(id, w)));
            let w2 = d->Ok_0;
            &&& d is Ok
            &&& w2.role == Some("tool"@)
            &&& w2.tool_call_id == Some(JsonV::Str(id))
            &&& tool_body(id, w2) == tool_body(id, w)
        }),
{
    message_names();
    message_keys_are_listed();
    let known = types::message_keys();
    let l = tool_fields(id, w);
    let nl = tool_data(w);
    tool_is_sound(id, w);
    body_settles(l, nl, rest_of(w.extra), known);
    swept_rest_stays(rest_of(w.extra));
    let o = tool_body(id, w);
    put_fields_are_read(l, 4, 0);
    put_fields_are_read(l, 4, 1);
    put_fields_are_read(l, 4, 2);
    put_fields_are_read(l, 4, 3);
    no_field_is_read(nl, "role"@);
    no_field_is_read(nl, "tool_call_id"@);
    field_is_read(nl, 0);
    field_is_read(nl, 1);
    field_is_read(nl, 2);
    field_is_read(nl, 3);
    field_is_read(nl, 4);
    let t = put_all(l, 4);
    put_fields_are_named(l, 4, "reasoning_content"@);
    absent_is_not_read(t, "reasoning_content"@, JsonV::Null);
    put_fields_are_named(l, 4, "refusal"@);
    absent_is_not_read(t, "refusal"@, JsonV::Null);
    put_fields_are_named(l, 4, "tool_calls"@);
    absent_is_not_read(t, "tool_calls"@, JsonV::Null);
    combined_stays(odd_content(w.content));
    combined_stays(odd_text(w.name));
    combined_stays(w.reasoning_content);
    combined_stays(w.refusal);
    combined_stays(w.tool_calls);
    assert(obj_get(o, "role"@) == Some(JsonV::Str("tool"@)));
    assert(obj_get(o, "tool_call_id"@) == Some(JsonV::Str(id)));
    assert(obj_get(o, "content"@) == match odd_content(w.content) {
        Some(v) => combined(None, Some(v)),
        None => Some(canonical_output(w.content)),
    });
    assert(obj_get(o, "name"@) == match odd_text(w.name) {
        Some(v) => combined(None, Some(v)),
        None => w.name,
    });
    assert(obj_get(o, "reasoning_content"@) == combined(None, w.reasoning_content));
    assert(obj_get(o, "refusal"@) == combined(None, w.refusal));
    assert(obj_get(o, "tool_calls"@) == combined(None, w.tool_calls));
    let w2 = types::decode_message(JsonV::Object(o))->Ok_0;
    output_content_settles(w.content);
    let c = odd_content(w.content);
    assert(odd_content(w2.content) == combined(None, c));
    if c is Some {
        assert(answered_blocks(w.content) =~= Seq::<ToolOutputBlockV>::empty());
        assert(answered_blocks(w2.content) =~= Seq::<ToolOutputBlockV>::empty());
    }
    assert(canonical_output(w2.content) == canonical_output(w.content));
    assert(tool_fields(id, w2) =~= l);
    assert(tool_data(w2) =~= swept_fields(nl));
}

/// The text and opaque blocks of an assistant message, before images are
/// dropped.
pub open spec fn answer_blocks(w: types::MessageV) -> Seq<ContentBlockV> {
    let content = match w.content {
        Some(JsonV::Str(s)) => seq![text_block(s)],
        Some(JsonV::Array(parts)) => read_parts(parts, false),
        _ => Seq::empty(),
    };
    match w.refusal {
        Some(JsonV::Str(s)) => content.push(refusal_block(s, Seq::empty())),
        _ => content,
    }
}

/// The first `n` blocks without images.
pub open spec fn imageless(blocks: Seq<ContentBlockV>, n: nat) -> Seq<ContentBlockV>
    decreases n,
{
    if n == 0 || n > blocks.len() {
        Seq::empty()
    } else if blocks[n - 1] is Image {
        imageless(blocks, (n - 1) as nat)
    } else {
        imageless(blocks, (n - 1) as nat).push(blocks[n - 1])
    }
}

/// What is written of the text and opaque blocks of an assistant message.
pub open spec fn spoken(w: types::MessageV) -> Seq<ContentBlockV> {
    imageless(answer_blocks(w), answer_blocks(w).len())
}

/// The content of an assistant message in its canonical form.
pub open spec fn canonical_answer(w: types::MessageV) -> Option<JsonV> {
    let blocks = spoken(w);
    if blocks.len() == 0 {
        None
    } else if blocks.len() == 1 && bare_text(blocks[0]) {
        Some(JsonV::Str(blocks[0]->Text_text))
    } else {
        Some(JsonV::Array(Seq::new(blocks.len(), |i: int| answer_value(blocks[i]))))
    }
}

/// The calls of the first `n` entries.
pub open spec fn read_calls(entries: Seq<JsonV>, n: nat) -> Seq<ContentBlockV>
    decreases n,
{
    if n == 0 || n > entries.len() {
        Seq::empty()
    } else {
        match read_call(entries[n - 1]) {
            Some(b) => read_calls(entries, (n - 1) as nat).push(b),
            None => read_calls(entries, (n - 1) as nat),
        }
    }
}

/// The calls of an assistant message.
pub open spec fn calls_of(w: types::MessageV) -> Seq<ContentBlockV> {
    match w.tool_calls {
        Some(JsonV::Array(a)) => read_calls(a, a.len()),
        _ => Seq::empty(),
    }
}

/// The entries that the first `n` calls are written as; nothing when one
/// cannot be.
pub open spec fn call_values(calls: Seq<ContentBlockV>, n: nat) -> Option<Seq<JsonV>>
    decreases n,
{
    if n == 0 || n > calls.len() {
        Some(Seq::empty())
    } else {
        match call_values(calls, (n - 1) as nat) {
            None => None,
            Some(prev) => match call_value(calls[n - 1]) {
                Some(v) => Some(prev.push(v)),
                None => None,
            },
        }
    }
}

/// The thinking of an assistant message.
pub open spec fn thought_of(w: types::MessageV) -> Option<JsonV> {
    match w.reasoning_content {
        Some(JsonV::Str(s)) => Some(JsonV::Str(s)),
        _ => None,
    }
}

/// The fields of an assistant message.
pub open spec fn answer_fields(w: types::MessageV, calls: Seq<JsonV>) -> FieldsV {
    seq![
        ("role"@, Some(JsonV::Str("assistant"@))),
        ("content"@, canonical_answer(w)),
        ("reasoning_content"@, thought_of(w)),
        ("tool_calls"@, if calls.len() > 0 { Some(JsonV::Array(calls)) } else { None }),
    ]
}

/// What an assistant message keeps verbatim.
pub open spec fn answer_data(w: types::MessageV) -> FieldsV {
    seq![
        ("reasoning_content"@, odd_text(w.reasoning_content)),
        ("content"@, odd_content(w.content)),
        ("refusal"@, odd_text(w.refusal)),
        ("tool_calls"@, odd_array(w.tool_calls)),
        ("name"@, w.name),
        ("tool_call_id"@, w.tool_call_id),
    ]
}

/// An assistant message in its canonical form.
pub open spec fn answer_body(w: types::MessageV, calls: Seq<JsonV>) -> ObjV {
    body_of(answer_fields(w, calls), answer_data(w), rest_of(w.extra))
}

/// An assistant message that keeps its canonical form: so do its parts and its
/// calls. Content that is kept verbatim has no refusal beside it. A lone text
/// block has no provider data but such as is written.
pub open spec fn steady_assistant(w: types::MessageV) -> bool {
    &&& match w.content {
        Some(JsonV::Array(parts)) => forall|i: int| 0 <= i < parts.len() ==> steady_answer(#[trigger] parts[i]),
        _ => true,
    }
    &&& odd_content(w.content) is Some ==> odd_text(w.refusal) == w.refusal
    &&& spoken(w).len() == 1 && lone_text(spoken(w)[0]) ==> bare_text(spoken(w)[0])
    &&& match w.tool_calls {
        Some(JsonV::Array(a)) => forall|i: int| 0 <= i < a.len() ==> steady_call(#[trigger] a[i]),
        _ => true,
    }
}

/// A block of assistant content that is written as a value that stays.
spec fn settled_answer(b: ContentBlockV) -> bool {
    let u = answer_value(b);
    let c = read_part(u, false);
    &&& b is Text || b is Opaque && b->Opaque_format == OPENAI_CHAT_COMPLETIONS@
    &&& carries_nothing(b)
    &&& answer_value(c) == u
    &&& !(c is Image)
    &&& bare_text(c) == lone_text(b)
    &&& carries_nothing(c)
}

proof fn answer_blocks_settle(w: types::MessageV)
    requires
        steady_assistant(w),
    ensures
        forall|i: int|
            0 <= i < answer_blocks(w).len() && !(answer_blocks(w)[i] is Image) ==> settled_answer(
                #[trigger] answer_blocks(w)[i],
            ),
{
    let none = Seq::<(Seq<char>, JsonV)>::empty();
    let blocks = answer_blocks(w);
    assert forall|i: int| 0 <= i < blocks.len() && !(blocks[i] is Image) implies settled_answer(
        #[trigger] blocks[i],
    ) by {
        let n = match w.content {
            Some(JsonV::Str(s)) => 1int,
            Some(JsonV::Array(parts)) => parts.len() as int,
            _ => 0int,
        };
        if i < n {
            match w.content {
                Some(JsonV::Str(s)) => {
                    plain_answer_stays(s);
                    plain_text_is_bare(s);
                },
                Some(JsonV::Array(parts)) => {
                    assert(blocks[i] == read_part(parts[i], false));
                    assert(steady_answer(parts[i]));
                    answer_part_settles(parts[i]);
                },
                _ => {},
            }
        } else {
            let s = w.refusal->0->Str_0;
            assert(blocks[i] == refusal_block(s, none));
            refusal_is_written(s, none);
            assert(non_null(none, 0) =~= none);
            removing_nothing(none, MESSAGE_KEY@);
            assert(swept(none) == none);
            assert(refusal_members(s) + none =~= refusal_members(s));
            absent_is_not_read(none, MESSAGE_KEY@, JsonV::Null);
            refusal_stays(s, none);
        }
    }
}

/// A plain text block is bare exactly when it has some text.
proof fn plain_text_is_bare(s: Seq<char>)
    ensures
        bare_text(text_block(s)) == (s.len() > 0),
        lone_text(text_block(s)) == (s.len() > 0),
{
    let none = Seq::<(Seq<char>, JsonV)>::empty();
    content_names();
    fields_are_merged(OPENAI_CHAT_COMPLETIONS@, none, none);
    assert(non_null(none, 0) =~= none);
    let e = own_extra(none);
    assert(e =~= Seq::<(Seq<char>, ObjV)>::empty());
    let ns = extra_ns(e, OPENAI_CHAT_COMPLETIONS@);
    assert(ns =~= none);
    absent_is_not_read(none, REFUSAL_KEY@, JsonV::Null);
    removing_nothing(none, REFUSAL_KEY@);
    removing_nothing(none, MESSAGE_KEY@);
    assert(swept(none) == none);
}

proof fn imageless_blocks(blocks: Seq<ContentBlockV>, n: nat)
    requires
        n <= blocks.len(),
        forall|i: int| 0 <= i < blocks.len() && !(blocks[i] is Image) ==> settled_answer(#[trigger] blocks[i]),
    ensures
        forall|i: int| 0 <= i < imageless(blocks, n).len() ==> settled_answer(#[trigger] imageless(blocks, n)[i]),
    decreases n,
{
    if n > 0 {
        imageless_blocks(blocks, (n - 1) as nat);
        let prev = imageless(blocks, (n - 1) as nat);
        let r = imageless(blocks, n);
        assert forall|i: int| 0 <= i < r.len() implies settled_answer(#[trigger] r[i]) by {
            if i < prev.len() {
                assert(r[i] == prev[i]);
            } else {
                assert(r[i] == blocks[n - 1]);
            }
        }
    }
}

proof fn nothing_is_imageless(blocks: Seq<ContentBlockV>, n: nat)
    requires
        n <= blocks.len(),
        forall|i: int| 0 <= i < blocks.len() ==> !((#[trigger] blocks[i]) is Image),
    ensures
        imageless(blocks, n) == blocks.take(n as int),
    decreases n,
{
    if n == 0 {
        assert(blocks.take(0) =~= Seq::<ContentBlockV>::empty());
    } else {
        nothing_is_imageless(blocks, (n - 1) as nat);
        assert(!(blocks[n - 1] is Image));
        assert(blocks.take(n as int) =~= blocks.take(n - 1).push(blocks[n - 1]));
    }
}

/// No block that is written carries fields of the message.
pub open spec fn nothing_carried(w: types::MessageV) -> bool {
    forall|i: int| 0 <= i < spoken(w).len() ==> carries_nothing(#[trigger] spoken(w)[i])
}

/// Assistant content that is written and read again is the same content.
proof fn answer_content_settles(w: types::MessageV, w2: types::MessageV)
    requires
        steady_assistant(w),
        odd_content(w.content) is None,
        w2.content == canonical_answer(w),
        odd_text(w2.refusal) == w2.refusal,
    ensures
        canonical_answer(w2) == canonical_answer(w),
        nothing_carried(w2),
{
    answer_blocks_settle(w);
    let all = answer_blocks(w);
    imageless_blocks(all, all.len());
    let blocks = spoken(w);
    let again = answer_blocks(w2);
    if blocks.len() == 0 {
        assert(again =~= Seq::<ContentBlockV>::empty());
    } else if blocks.len() == 1 && bare_text(blocks[0]) {
        let t = blocks[0]->Text_text;
        assert(again =~= seq![text_block(t)]);
        plain_text_is_bare(t);
        plain_answer_stays(t);
        nothing_is_imageless(again, 1);
        assert(again.take(1) =~= again);
    } else {
        let vals = canonical_answer(w)->0->Array_0;
        assert(again =~= read_parts(vals, false));
        assert forall|i: int| 0 <= i < again.len() implies !((#[trigger] again[i]) is Image) && answer_value(again[i])
            == vals[i] && bare_text(again[i]) == lone_text(blocks[i]) && carries_nothing(again[i]) by {
            assert(settled_answer(blocks[i]));
        }
        nothing_is_imageless(again, again.len());
        assert(again.take(again.len() as int) =~= again);
        assert(Seq::new(again.len(), |i: int| answer_value(again[i])) =~= vals);
        if again.len() == 1 {
            assert(bare_text(again[0]) == lone_text(blocks[0]));
        }
    }
}

proof fn calls_settle(entries: Seq<JsonV>, n: nat)
    requires
        n <= entries.len(),
        forall|i: int| 0 <= i < entries.len() ==> steady_call(#[trigger] entries[i]),
    ensures
        ({
            let calls = read_calls(entries, n);
            match call_values(calls, calls.len()) {
                Some(vals) => {
                    let again = read_calls(vals, vals.len());
                    again.len() == vals.len() && call_values(again, again.len()) == Some(vals)
                },
                None => true,
            }
        }),
    decreases n,
{
    let calls = read_calls(entries, n);
    if n > 0 {
        calls_settle(entries, (n - 1) as nat);
        let before = read_calls(entries, (n - 1) as nat);
        if let Some(b) = read_call(entries[n - 1]) {
            assert(steady_call(entries[n - 1]));
            call_settles(entries[n - 1]);
            values_prefix(before, calls, before.len());
            if let Some(vals) = call_values(calls, calls.len()) {
                let u = call_value(b)->0;
                let prev = call_values(before, before.len())->0;
                assert(vals == prev.push(u));
                let old_again = read_calls(prev, prev.len());
                calls_prefix(prev, vals, prev.len());
                let again = read_calls(vals, vals.len());
                assert(again == old_again.push(read_call(u)->0));
                values_prefix(old_again, again, old_again.len());
            }
        }
    }
}

proof fn values_prefix(a: Seq<ContentBlockV>, b: Seq<ContentBlockV>, n: nat)
    requires
        n <= a.len() <= b.len(),
        forall|i: int| 0 <= i < a.len() ==> (#[trigger] a[i]) == b[i],
    ensures
        call_values(a, n) == call_values(b, n),
    decreases n,
{
    if n > 0 {
        values_prefix(a, b, (n - 1) as nat);
        assert(a[n - 1] == b[n - 1]);
    }
}

proof fn calls_prefix(a: Seq<JsonV>, b: Seq<JsonV>, n: nat)
    requires
        n <= a.len() <= b.len(),
        forall|i: int| 0 <= i < a.len() ==> (#[trigger] a[i]) == b[i],
    ensures
        read_calls(a, n) == read_calls(b, n),
    decreases n,
{
    if n > 0 {
        calls_prefix(a, b, (n - 1) as nat);
        assert(a[n - 1] == b[n - 1]);
    }
}

proof fn answer_is_sound(w: types::MessageV, calls: Seq<JsonV>)
    requires
        decoded(w),
    ensures
        sound(answer_fields(w, calls), answer_data(w), rest_of(w.extra), types::message_keys()),
        meets_no_object(answer_fields(w, calls), answer_data(w)),
{
    message_names();
    message_keys_are_listed();
    let known = types::message_keys();
    rest_is_sound(w.extra, known);
    let l = answer_fields(w, calls);
    let nl = answer_data(w);
    assert forall|i: int| 0 <= i < l.len() implies known.contains((#[trigger] l[i]).0) by {}
    assert forall|i: int| 0 <= i < nl.len() implies known.contains((#[trigger] nl[i]).0) && nl[i].1 != Some(
        JsonV::Null,
    ) by {}
    put_fields_are_read(l, 4, 1);
    put_fields_are_read(l, 4, 2);
    put_fields_are_read(l, 4, 3);
    assert forall|i: int| 0 <= i < nl.len() && (#[trigger] nl[i]).1 is Some implies match obj_get(
        put_all(l, l.len()),
        nl[i].0,
    ) {
        Some(JsonV::Object(_)) => false,
        _ => true,
    } by {
        if i == 2 || i > 3 {
            put_fields_are_named(l, 4, nl[i].0);
            absent_is_not_read(put_all(l, 4), nl[i].0, JsonV::Null);
        }
    }
}

/// An assistant message in its canonical form is read as such, and keeps it.
proof fn answer_body_stays(w: types::MessageV, calls: Seq<JsonV>)
    requires
        decoded(w),
        steady_assistant(w),
        call_values(calls_of(w), calls_of(w).len()) == Some(calls),
    ensures
        ({
            let d = types::decode_message(JsonV::Object(answer_body(w, calls)));
            let w2 = d->Ok_0;
            &&& d is Ok
            &&& w2.role == Some("assistant"@)
            &&& call_values(calls_of(w2), calls_of(w2).len()) == Some(calls)
            &&& answer_body(w2, calls) == answer_body(w, calls)
            &&& nothing_carried(w2)
        }),
{
    message_names();
    message_keys_are_listed();
    let known = types::message_keys();
    let l = answer_fields(w, calls);
    let nl = answer_data(w);
    answer_is_sound(w, calls);
    body_settles(l, nl, rest_of(w.extra), known);
    swept_rest_stays(rest_of(w.extra));
    let o = answer_body(w, calls);
    put_fields_are_read(l, 4, 0);
    put_fields_are_read(l, 4, 1);
    put_fields_are_read(l, 4, 2);
    put_fields_are_read(l, 4, 3);
    no_field_is_read(nl, "role"@);
    field_is_read(nl, 0);
    field_is_read(nl, 1);
    field_is_read(nl, 2);
    field_is_read(nl, 3);
    field_is_read(nl, 4);
    field_is_read(nl, 5);
    let t = put_all(l, 4);
    put_fields_are_named(l, 4, "refusal"@);
    absent_is_not_read(t, "refusal"@, JsonV::Null);
    put_fields_are_named(l, 4, "name"@);
    absent_is_not_read(t, "name"@, JsonV::Null);
    put_fields_are_named(l, 4, "tool_call_id"@);
    absent_is_not_read(t, "tool_call_id"@, JsonV::Null);
    combined_stays(odd_text(w.reasoning_content));
    combined_stays(odd_content(w.content));
    combined_stays(odd_text(w.refusal));
    combined_stays(odd_array(w.tool_calls));
    combined_stays(w.name);
    combined_stays(w.tool_call_id);
    assert(obj_get(o, "role"@) == Some(JsonV::Str("assistant"@)));
    assert(obj_get(o, "content"@) == match odd_content(w.content) {
        Some(v) => combined(None, Some(v)),
        None => canonical_answer(w),
    });
    assert(obj_get(o, "reasoning_content"@) == match odd_text(w.reasoning_content) {
        Some(v) => combined(None, Some(v)),
        None => thought_of(w),
    });
    assert(obj_get(o, "refusal"@) == combined(None, odd_text(w.refusal)));
    assert(obj_get(o, "tool_calls"@) == match odd_array(w.tool_calls) {
        Some(v) => combined(None, Some(v)),
        None => l[3].1,
    });
    assert(obj_get(o, "name"@) == combined(None, w.name));
    assert(obj_get(o, "tool_call_id"@) == combined(None, w.tool_call_id));
    let w2 = types::decode_message(JsonV::Object(o))->Ok_0;
    assert(odd_text(w2.refusal) == w2.refusal);
    let none = Seq::<ContentBlockV>::empty();
    if odd_content(w.content) is Some {
        assert(answer_blocks(w) =~= none);
        assert(answer_blocks(w2) =~= none);
    } else {
        answer_content_settles(w, w2);
    }
    assert(canonical_answer(w2) == canonical_answer(w));
    match w.tool_calls {
        Some(JsonV::Array(a)) => {
            calls_settle(a, a.len());
            if calls.len() == 0 {
                assert(calls_of(w2) =~= none);
                assert(calls =~= Seq::<JsonV>::empty());
            }
        },
        _ => {
            assert(calls_of(w) =~= none);
            assert(calls =~= Seq::<JsonV>::empty());
            assert(calls_of(w2) =~= none);
        },
    }
    assert(answer_fields(w2, calls) =~= l);
    assert(answer_data(w2) =~= swept_fields(nl));
}

/// A value that is no message, as the content of one.
pub open spec fn as_content(j: JsonV) -> JsonV {
    JsonV::Object(seq![("role"@, JsonV::Str("user"@)), ("content"@, JsonV::Array(seq![j]))])
}

/// A wire message in its canonical form; nothing when it cannot be written.
pub open spec fn canonical_message(j: JsonV) -> Option<JsonV> {
    match types::decode_message(j) {
        Err(_) => Some(as_content(j)),
        Ok(w) => match w.role {
            None => Some(as_content(j)),
            Some(role) => if input_kind(role) is Some {
                if role != "user"@ && has_image(input_blocks(w.content)) {
                    None
                } else {
                    Some(JsonV::Object(input_body(role, w)))
                }
            } else if role == "assistant"@ {
                match call_values(calls_of(w), calls_of(w).len()) {
                    Some(calls) => Some(JsonV::Object(answer_body(w, calls))),
                    None => None,
                }
            } else if role == "tool"@ {
                match w.tool_call_id {
                    Some(JsonV::Str(id)) => Some(JsonV::Object(tool_body(id, w))),
                    _ => None,
                }
            } else {
                Some(j)
            },
        },
    }
}

/// The blocks of an assistant message.
pub open spec fn all_answers(w: types::MessageV) -> Seq<ContentBlockV> {
    let thinking = match w.reasoning_content {
        Some(JsonV::Str(s)) => seq![thinking_block(s)],
        _ => Seq::empty(),
    };
    thinking + answer_blocks(w) + calls_of(w)
}

/// The message is not taken for one block that looks like a message of its
/// own.
#[verifier::opaque]
pub open spec fn laid_out(j: JsonV) -> bool {
    match types::decode_message(j) {
        Ok(w) => match w.role {
            Some(role) => {
                &&& input_kind(role) is Some ==> verbatim(message_with(Role::User, input_blocks(w.content), Seq::empty())) is None
                &&& role == "assistant"@ ==> verbatim(message_with(Role::User, all_answers(w), Seq::empty())) is None
            },
            None => true,
        },
        Err(_) => true,
    }
}

/// A wire message that keeps its canonical form: so do its parts and its calls,
/// and neither it nor its canonical form is taken for one block that looks like
/// a message of its own. A value without a role is a part that stays as it is.
pub open spec fn steady_message(j: JsonV) -> bool {
    &&& laid_out(j)
    &&& canonical_message(j) is Some ==> laid_out(canonical_message(j)->0)
    &&& match types::decode_message(j) {
        Err(_) => input_value(read_part(j, true)) == Some(j) && !bare_text(read_part(j, true)),
        Ok(w) => match w.role {
            None => input_value(read_part(j, true)) == Some(j) && !bare_text(read_part(j, true)),
            Some(role) => {
                &&& input_kind(role) is Some ==> steady_input_content(w.content)
                &&& role == "assistant"@ ==> steady_assistant(w)
            },
        },
    }
}

/// The message is written as its canonical form.
pub open spec fn ready(j: JsonV) -> bool {
    &&& laid_out(j)
    &&& match types::decode_message(j) {
        Ok(w) => w.role == Some("assistant"@) ==> nothing_carried(w),
        Err(_) => true,
    }
}

proof fn nothing_steady_is_carried(w: types::MessageV)
    requires
        steady_assistant(w),
    ensures
        nothing_carried(w),
{
    answer_blocks_settle(w);
    let all = answer_blocks(w);
    imageless_blocks(all, all.len());
    assert forall|i: int| 0 <= i < spoken(w).len() implies carries_nothing(#[trigger] spoken(w)[i]) by {
        assert(settled_answer(spoken(w)[i]));
    }
}

/// What a wire message becomes on its way through the IR stays as it is from
/// then on.
pub proof fn message_settles(j: JsonV)
    requires
        steady_message(j),
    ensures
        ready(j),
        match canonical_message(j) {
            Some(u) => ready(u) && canonical_message(u) == Some(u),
            None => true,
        },
{
    role_names();
    message_is_decoded(j);
    if let Ok(w) = types::decode_message(j) {
        if w.role == Some("assistant"@) {
            nothing_steady_is_carried(w);
        }
    }
    match types::decode_message(j) {
        Err(_) => {
            value_settles(j);
        },
        Ok(w) => match w.role {
            None => {
                value_settles(j);
            },
            Some(role) => {
                if input_kind(role) is Some {
                    input_is_read_again(role, w);
                    input_body_stays(role, w);
                } else if role == "assistant"@ {
                    if let Some(calls) = call_values(calls_of(w), calls_of(w).len()) {
                        answer_body_stays(w, calls);
                    }
                } else if role == "tool"@ {
                    if let Some(JsonV::Str(id)) = w.tool_call_id {
                        tool_body_stays(id, w);
                    }
                }
            },
        },
    }
}

proof fn value_settles(j: JsonV)
    requires
        input_value(read_part(j, true)) == Some(j),
        !bare_text(read_part(j, true)),
    ensures
        canonical_message(as_content(j)) == Some(as_content(j)),
        types::decode_message(as_content(j)) is Ok,
        types::decode_message(as_content(j))->Ok_0.role == Some("user"@),
{
    message_names();
    role_names();
    message_keys_are_listed();
    let known = types::message_keys();
    let none = Seq::<(Seq<char>, JsonV)>::empty();
    let h = seq![("role"@, JsonV::Str("user"@)), ("content"@, JsonV::Array(seq![j]))];
    two_members_are_read("role"@, h[0].1, "content"@, h[1].1, known);
    let u = as_content(j);
    let w = types::decode_message(u)->Ok_0;
    assert(w.extra =~= none);
    let blocks = input_blocks(w.content);
    assert(blocks =~= seq![read_part(j, true)]);
    assert(input_values(blocks) =~= seq![j]);
    let l = input_fields("user"@, w);
    let nl = input_data(w);
    no_data_is_put(nl, 6);
    assert(rest_of(none) =~= none) by {
        assert(extended(none, none) == none);
    }
    assert(none + none =~= none);
    assert(merged(put_all(l, 2), none) == put_all(l, 2));
    two_fields_are_put(l);
}

proof fn no_data_is_put(nl: FieldsV, n: nat)
    requires
        n <= nl.len(),
        forall|i: int| 0 <= i < nl.len() ==> (#[trigger] nl[i]).1 is None,
    ensures
        put_all(nl, n) == Seq::<(Seq<char>, JsonV)>::empty(),
    decreases n,
{
    if n > 0 {
        no_data_is_put(nl, (n - 1) as nat);
        assert(nl[n - 1].1 is None);
    }
}

proof fn two_fields_are_put(l: FieldsV)
    requires
        l.len() == 2,
        l[0].1 is Some,
        l[1].1 is Some,
        l[0].0 != l[1].0,
    ensures
        put_all(l, 2) == seq![(l[0].0, l[0].1->0), (l[1].0, l[1].1->0)],
{
    let none = Seq::<(Seq<char>, JsonV)>::empty();
    assert(put_all(l, 0) == none);
    assert(put_all(l, 1) == put_if(put_all(l, 0), l[0].0, l[0].1));
    assert(put_all(l, 2) == put_if(put_all(l, 1), l[1].0, l[1].1));
    absent_is_not_read(none, l[0].0, l[0].1->0);
    let a = none.push((l[0].0, l[0].1->0));
    absent_is_not_read(a, l[1].0, l[1].1->0);
    assert(a.push((l[1].0, l[1].1->0)) =~= seq![(l[0].0, l[0].1->0), (l[1].0, l[1].1->0)]);
}

/// Fields with provider data make the body.
proof fn data_is_merged(l: FieldsV, nl: FieldsV, x: ObjV)
    requires
        sound(l, nl, rest_of(x), types::message_keys()),
        avoids(x, types::message_keys()),
    ensures
        omerged(own_extra(extended(put_all(nl, nl.len()), x)), JsonV::Object(put_all(l, l.len()))) == JsonV::Object(
            body_of(l, nl, rest_of(x)),
        ),
{
    entry_data(nl, x, types::message_keys());
    fields_are_merged(OPENAI_CHAT_COMPLETIONS@, put_all(l, l.len()), extended(put_all(nl, nl.len()), x));
}

/// An input message, as it is parsed.
proof fn input_is_parsed(role: Seq<char>, w: types::MessageV, ptr: Seq<char>, ws: Seq<ConversionWarningV>)
    requires
        input_kind(role) is Some,
        decoded(w),
    ensures
        input_of(input_kind(role)->0, w, ptr, ws).0
            == message_with(
            input_kind(role)->0,
            input_blocks(w.content),
            extended(put_all(input_data(w), 6), w.extra),
        ),
{
    let f = read_content(no_fields(ws), w.content, ptr, true);
    let none = Seq::<ContentBlockV>::empty();
    if let Some(JsonV::Array(parts)) = w.content {
        parts_are_read(parts, ptr, true, ws, parts.len());
        assert(read_parts(parts, true).take(parts.len() as int) =~= read_parts(parts, true));
        assert(none + read_parts(parts, true) =~= read_parts(parts, true));
    }
    assert(f.blocks =~= input_blocks(w.content));
    let nl = input_data(w);
    assert(put_all(nl, 0) == Seq::<(Seq<char>, JsonV)>::empty());
    assert(put_all(nl, 1) == put_if(put_all(nl, 0), nl[0].0, nl[0].1));
    assert(put_all(nl, 2) == put_if(put_all(nl, 1), nl[1].0, nl[1].1));
    assert(put_all(nl, 3) == put_if(put_all(nl, 2), nl[2].0, nl[2].1));
    assert(put_all(nl, 4) == put_if(put_all(nl, 3), nl[3].0, nl[3].1));
    assert(put_all(nl, 5) == put_if(put_all(nl, 4), nl[4].0, nl[4].1));
    assert(put_all(nl, 6) == put_if(put_all(nl, 5), nl[5].0, nl[5].1));
}

proof fn verbatim_is_by_content(a: MessageV, b: MessageV)
    requires
        a.content == b.content,
    ensures
        verbatim(a) == verbatim(b),
{
}

/// The wire grows by a value, or nothing can be written.
spec fn grows(r: Result<ChatV, ConversionErrorV>, c: ChatV, v: Option<JsonV>) -> bool {
    match r {
        Ok(d) => match v {
            Some(v) => d.wire == c.wire.push(v),
            None => false,
        },
        Err(_) => v is None,
    }
}

proof fn input_is_written(role: Seq<char>, w: types::MessageV, c: ChatV, mi: nat)
    requires
        input_kind(role) is Some,
        decoded(w),
    ensures
        ({
            let m = message_with(
                input_kind(role)->0,
                input_blocks(w.content),
                extended(put_all(input_data(w), 6), w.extra),
            );
            grows(
                input_message(c, m, mi, false),
                c,
                if role != "user"@ && has_image(input_blocks(w.content)) {
                    None
                } else {
                    Some(JsonV::Object(input_body(role, w)))
                },
            )
        }),
{
    role_names();
    message_names();
    let kind = input_kind(role)->0;
    let blocks = input_blocks(w.content);
    let m = message_with(kind, blocks, extended(put_all(input_data(w), 6), w.extra));
    let system = kind == Role::System || kind == Role::Developer;
    assert(system == (role != "user"@));
    input_blocks_are_writable(w.content);
    roles_are_checked(m, mi, system, blocks.len());
    assert(blocks.take(blocks.len() as int) =~= blocks);
    let ptr = wire_ptr(c.wire.len());
    if !(system && has_image(blocks)) {
        input_parts_are_written(blocks, ptr, system, c.sink, blocks.len());
        assert(input_values(blocks).take(blocks.len() as int) =~= input_values(blocks));
        let l = input_fields(role, w);
        two_fields_are_put(l);
        assert(object2("role"@, l[0].1->0, "content"@, l[1].1->0) == JsonV::Object(put_all(l, 2)));
        input_is_sound(role, w);
        data_is_merged(l, input_data(w), w.extra);
        assert(input_role_name(kind) == role);
    }
}

proof fn outputs_are_written(parts: Seq<JsonV>, blocks: Seq<ToolOutputBlockV>, ptr: Seq<char>, s: SinkV, n: nat)
    requires
        n <= blocks.len() == parts.len(),
        blocks == output_blocks(parts),
    ensures
        output_parts(blocks, ptr, s, n).0 == Seq::new(blocks.len(), |i: int| output_value(blocks[i])).take(n as int),
    decreases n,
{
    let vals = Seq::new(blocks.len(), |i: int| output_value(blocks[i]));
    if n == 0 {
        assert(vals.take(0) =~= Seq::<JsonV>::empty());
    } else {
        outputs_are_written(parts, blocks, ptr, s, (n - 1) as nat);
        output_is_written_anywhere(output_parts(blocks, ptr, s, (n - 1) as nat), parts[n - 1], ptr);
        assert(vals.take(n as int) =~= vals.take(n - 1).push(vals[n - 1]));
    }
}

proof fn output_is_written(v: Option<JsonV>, ptr: Seq<char>, s: SinkV)
    ensures
        tool_content(answered_blocks(v), ptr, s).0 == canonical_output(v),
{
    let blocks = answered_blocks(v);
    match v {
        Some(JsonV::Str(t)) => {
            if t.len() > 0 {
                assert(bare_output(blocks[0])) by {
                    fields_are_merged(OPENAI_CHAT_COMPLETIONS@, Seq::empty(), Seq::empty());
                }
            }
        },
        Some(JsonV::Array(parts)) => {
            outputs_are_written(parts, blocks, ptr, s, blocks.len());
            let vals = Seq::new(blocks.len(), |i: int| output_value(blocks[i]));
            assert(vals.take(vals.len() as int) =~= vals);
        },
        _ => {},
    }
}

/// A tool message, as it is parsed and written.
proof fn tool_is_written(w: types::MessageV, ptr: Seq<char>, ws: Seq<ConversionWarningV>, c: ChatV, mi: nat)
    requires
        decoded(w),
    ensures
        grows(
            tool_messages(c, tool_of(w, ptr, ws).0, mi),
            c,
            match w.tool_call_id {
                Some(JsonV::Str(id)) => Some(JsonV::Object(tool_body(id, w))),
                _ => None,
            },
        ),
        verbatim(tool_of(w, ptr, ws).0) is None,
{
    message_names();
    let m = tool_of(w, ptr, ws).0;
    assert(tool_steps(c, m, mi, 0) == Ok::<ChatV, ConversionErrorV>(c));
    assert(tool_steps(c, m, mi, 1) == tool_step(c, m.content[0], mi, 0));
    if let Some(JsonV::Str(id)) = w.tool_call_id {
        let l = tool_fields(id, w);
        let nl = tool_data(w);
        let none = Seq::<(Seq<char>, JsonV)>::empty();
        assert(put_all(nl, 0) == none);
        assert(put_all(nl, 1) == put_if(put_all(nl, 0), nl[0].0, nl[0].1));
        assert(put_all(nl, 2) == put_if(put_all(nl, 1), nl[1].0, nl[1].1));
        assert(put_all(nl, 3) == put_if(put_all(nl, 2), nl[2].0, nl[2].1));
        assert(put_all(nl, 4) == put_if(put_all(nl, 3), nl[3].0, nl[3].1));
        assert(put_all(nl, 5) == put_if(put_all(nl, 4), nl[4].0, nl[4].1));
        let b = m.content[0];
        assert(b->ToolResult_content =~= answered_blocks(w.content));
        assert(b->ToolResult_extra == own_extra(extended(put_all(nl, 5), w.extra)));
        let at = wire_ptr(c.wire.len());
        assert forall|s: SinkV| #[trigger] tool_content(answered_blocks(w.content), at, s).0 == canonical_output(
            w.content,
        ) by {
            output_is_written(w.content, at, s);
        }
        tool_is_sound(id, w);
        data_is_merged(l, nl, w.extra);
        assert(put_all(l, 0) == none);
        assert(put_all(l, 1) == put_if(put_all(l, 0), l[0].0, l[0].1));
        assert(put_all(l, 2) == put_if(put_all(l, 1), l[1].0, l[1].1));
        assert(put_all(l, 3) == put_if(put_all(l, 2), l[2].0, l[2].1));
        assert(put_all(l, 4) == put_if(put_all(l, 3), l[3].0, l[3].1));
        absent_is_not_read(none, l[0].0, l[0].1->0);
        let o1 = none.push((l[0].0, l[0].1->0));
        absent_is_not_read(o1, l[1].0, l[1].1->0);
        let o2 = o1.push((l[1].0, l[1].1->0));
        absent_is_not_read(o2, l[2].0, l[2].1->0);
        let o3 = o2.push((l[2].0, l[2].1->0));
        assert(object3("role"@, l[0].1->0, "tool_call_id"@, l[1].1->0, "content"@, l[2].1->0) == JsonV::Object(o3)) by {
            assert(o3 =~= seq![(l[0].0, l[0].1->0), (l[1].0, l[1].1->0), (l[2].0, l[2].1->0)]);
        }
        let v = JsonV::Object(tool_body(id, w));
        let d = tool_steps(c, m, mi, 1)->Ok_0;
        assert(d.wire == c.wire.push(v));
        foreign_data_is_not_merged(m.extra, OPENAI_CHAT_COMPLETIONS@, v);
        assert(d.wire.update(c.wire.len() as int, v) =~= d.wire);
    }
}

proof fn calls_are_read(
    entries: Seq<JsonV>,
    ptr: Seq<char>,
    blocks: Seq<ContentBlockV>,
    ws: Seq<ConversionWarningV>,
    n: nat,
)
    requires
        n <= entries.len(),
    ensures
        call_blocks(entries, ptr, blocks, ws, n).0 == blocks + read_calls(entries, n),
    decreases n,
{
    if n == 0 {
        assert(blocks + Seq::<ContentBlockV>::empty() =~= blocks);
    } else {
        calls_are_read(entries, ptr, blocks, ws, (n - 1) as nat);
        let ws1 = call_blocks(entries, ptr, blocks, ws, (n - 1) as nat).1;
        call_is_read_anywhere(
            entries[n - 1],
            ptr + "/tool_calls/"@ + decimal((n - 1) as nat),
            ws1,
        );
        assert(call_blocks(entries, ptr, blocks, ws, n).0 =~= blocks + read_calls(entries, n));
    }
}

/// An assistant message, as it is parsed.
proof fn answer_is_parsed(w: types::MessageV, ptr: Seq<char>, ws: Seq<ConversionWarningV>)
    requires
        decoded(w),
    ensures
        assistant_of(w, ptr, ws).0 == message_with(
            Role::Assistant,
            all_answers(w),
            extended(put_all(answer_data(w), 6), w.extra),
        ),
{
    let none = Seq::<ContentBlockV>::empty();
    let thinking = match w.reasoning_content {
        Some(JsonV::Str(s)) => seq![thinking_block(s)],
        _ => none,
    };
    let f1 = read_thinking(
        no_fields(ws),
        w.reasoning_content,
        ptr,
    );
    assert(f1.blocks =~= thinking);
    let f2 = read_content(f1, w.content, ptr, false);
    let content = match w.content {
        Some(JsonV::Str(s)) => seq![text_block(s)],
        Some(JsonV::Array(parts)) => read_parts(parts, false),
        _ => none,
    };
    if let Some(JsonV::Array(parts)) = w.content {
        parts_are_read(parts, ptr, false, f1.warnings, parts.len());
        assert(read_parts(parts, false).take(parts.len() as int) =~= read_parts(parts, false));
    }
    assert(f2.blocks =~= thinking + content);
    let f3 = read_refusal(f2, w.refusal, ptr);
    assert(f3.blocks =~= thinking + answer_blocks(w));
    let f4 = parse_messages::read_calls(f3, w.tool_calls, ptr);
    if let Some(JsonV::Array(a)) = w.tool_calls {
        calls_are_read(a, ptr, f3.blocks, f3.warnings, a.len());
    }
    assert(f4.blocks =~= all_answers(w));
    let nl = answer_data(w);
    assert(put_all(nl, 0) == Seq::<(Seq<char>, JsonV)>::empty());
    assert(put_all(nl, 1) == put_if(put_all(nl, 0), nl[0].0, nl[0].1));
    assert(f1.ns =~= put_all(nl, 1));
    assert(put_all(nl, 2) == put_if(put_all(nl, 1), nl[1].0, nl[1].1));
    assert(f2.ns =~= put_all(nl, 2));
    assert(put_all(nl, 3) == put_if(put_all(nl, 2), nl[2].0, nl[2].1));
    assert(f3.ns =~= put_all(nl, 3));
    assert(put_all(nl, 4) == put_if(put_all(nl, 3), nl[3].0, nl[3].1));
    assert(f4.ns =~= put_all(nl, 4));
    assert(put_all(nl, 5) == put_if(put_all(nl, 4), nl[4].0, nl[4].1));
    assert(put_all(nl, 6) == put_if(put_all(nl, 5), nl[5].0, nl[5].1));
}

/// What the lanes hold.
spec fn lanes_hold(l: LanesV, think: Seq<Seq<char>>, content: Seq<ContentBlockV>, calls: Seq<JsonV>) -> bool {
    &&& l.thinking == think
    &&& l.content == content
    &&& l.calls == calls
    &&& l.extras == Seq::new(think.len(), |i: int| Seq::<(Seq<char>, ObjV)>::empty())
}

/// The block is text, an image, or a value of this format.
spec fn speakable(b: ContentBlockV) -> bool {
    b is Text || b is Image || b is Opaque && b->Opaque_format == OPENAI_CHAT_COMPLETIONS@
}

proof fn lanes_of_thinking(m: MessageV, think: Seq<Seq<char>>, mi: nat, as_text: bool, ptr: Seq<char>, s: SinkV)
    requires
        think.len() <= 1,
        think.len() <= m.content.len(),
        forall|i: int| 0 <= i < think.len() ==> m.content[i] == thinking_block(#[trigger] think[i]),
    ensures
        match lanes(m, mi, as_text, ptr, s, think.len()) {
            Ok(l) => lanes_hold(l, think, Seq::empty(), Seq::empty()),
            Err(_) => false,
        },
{
    let none = Seq::<(Seq<char>, ObjV)>::empty();
    let start = lanes_start(s);
    assert(lanes(m, mi, as_text, ptr, s, 0) == Ok::<LanesV, ConversionErrorV>(start));
    if think.len() == 0 {
        assert(start.thinking =~= think);
        assert(start.extras =~= Seq::new(think.len(), |i: int| none));
    } else {
        assert(m.content[0] == thinking_block(think[0]));
        fields_are_merged(OPENAI_CHAT_COMPLETIONS@, Seq::empty(), Seq::empty());
        assert(plain_thinking(none));
        let l = lanes(m, mi, as_text, ptr, s, 1)->Ok_0;
        assert(l.thinking =~= think);
        assert(l.extras =~= Seq::new(think.len(), |i: int| none));
    }
}

proof fn lanes_of_texts(
    m: MessageV,
    a: nat,
    texts: Seq<ContentBlockV>,
    think: Seq<Seq<char>>,
    mi: nat,
    as_text: bool,
    ptr: Seq<char>,
    s: SinkV,
    k: nat,
)
    requires
        a + texts.len() <= m.content.len(),
        k <= texts.len(),
        forall|i: int| 0 <= i < texts.len() ==> m.content[a + i] == #[trigger] texts[i] && speakable(texts[i]),
        match lanes(m, mi, as_text, ptr, s, a) {
            Ok(l) => lanes_hold(l, think, Seq::empty(), Seq::empty()),
            Err(_) => false,
        },
    ensures
        match lanes(m, mi, as_text, ptr, s, a + k) {
            Ok(l) => lanes_hold(l, think, imageless(texts, k), Seq::empty()),
            Err(_) => false,
        },
    decreases k,
{
    if k > 0 {
        lanes_of_texts(m, a, texts, think, mi, as_text, ptr, s, (k - 1) as nat);
        assert(m.content[a + (k - 1)] == texts[k - 1] && speakable(texts[k - 1]));
    }
}

proof fn lanes_of_calls(
    m: MessageV,
    b: nat,
    calls: Seq<ContentBlockV>,
    think: Seq<Seq<char>>,
    content: Seq<ContentBlockV>,
    mi: nat,
    as_text: bool,
    ptr: Seq<char>,
    s: SinkV,
    k: nat,
)
    requires
        b + calls.len() <= m.content.len(),
        k <= calls.len(),
        forall|i: int| 0 <= i < calls.len() ==> m.content[b + i] == #[trigger] calls[i] && calls[i] is ToolCall,
        match lanes(m, mi, as_text, ptr, s, b) {
            Ok(l) => lanes_hold(l, think, content, Seq::empty()),
            Err(_) => false,
        },
    ensures
        match lanes(m, mi, as_text, ptr, s, b + k) {
            Ok(l) => match call_values(calls, k) {
                Some(v) => lanes_hold(l, think, content, v),
                None => false,
            },
            Err(_) => call_values(calls, k) is None,
        },
    decreases k,
{
    if k > 0 {
        lanes_of_calls(m, b, calls, think, content, mi, as_text, ptr, s, (k - 1) as nat);
        assert(m.content[b + (k - 1)] == calls[k - 1] && calls[k - 1] is ToolCall);
    }
}

proof fn calls_are_calls(entries: Seq<JsonV>, n: nat)
    requires
        n <= entries.len(),
    ensures
        forall|i: int| 0 <= i < read_calls(entries, n).len() ==> (#[trigger] read_calls(entries, n)[i]) is ToolCall,
    decreases n,
{
    if n > 0 {
        calls_are_calls(entries, (n - 1) as nat);
        let prev = read_calls(entries, (n - 1) as nat);
        let r = read_calls(entries, n);
        assert forall|i: int| 0 <= i < r.len() implies (#[trigger] r[i]) is ToolCall by {
            if i < prev.len() {
                assert(r[i] == prev[i]);
            }
        }
    }
}

proof fn answers_are_speakable(w: types::MessageV)
    ensures
        forall|i: int| 0 <= i < answer_blocks(w).len() ==> speakable(#[trigger] answer_blocks(w)[i]),
{
    let blocks = answer_blocks(w);
    assert forall|i: int| 0 <= i < blocks.len() implies speakable(#[trigger] blocks[i]) by {
        if let Some(JsonV::Array(parts)) = w.content {
            if i < parts.len() {
                assert(blocks[i] == read_part(parts[i], false));
            }
        }
    }
}

proof fn answers_are_written(blocks: Seq<ContentBlockV>, ptr: Seq<char>, s: SinkV, n: nat)
    requires
        n <= blocks.len(),
        forall|i: int| 0 <= i < blocks.len() ==> speakable(#[trigger] blocks[i]) && !(blocks[i] is Image),
    ensures
        content_parts(blocks, ptr, s, n).0 == Seq::new(blocks.len(), |i: int| answer_value(blocks[i])).take(n as int),
    decreases n,
{
    let vals = Seq::new(blocks.len(), |i: int| answer_value(blocks[i]));
    if n == 0 {
        assert(vals.take(0) =~= Seq::<JsonV>::empty());
    } else {
        answers_are_written(blocks, ptr, s, (n - 1) as nat);
        assert(speakable(blocks[n - 1]) && !(blocks[n - 1] is Image));
        answer_is_written_anywhere(content_parts(blocks, ptr, s, (n - 1) as nat), blocks[n - 1], ptr);
        assert(vals.take(n as int) =~= vals.take(n - 1).push(vals[n - 1]));
    }
}

proof fn imageless_is_speakable(blocks: Seq<ContentBlockV>, n: nat)
    requires
        n <= blocks.len(),
        forall|i: int| 0 <= i < blocks.len() ==> speakable(#[trigger] blocks[i]),
    ensures
        forall|i: int|
            0 <= i < imageless(blocks, n).len() ==> speakable(#[trigger] imageless(blocks, n)[i]) && !(imageless(
                blocks,
                n,
            )[i] is Image),
    decreases n,
{
    if n > 0 {
        imageless_is_speakable(blocks, (n - 1) as nat);
        let prev = imageless(blocks, (n - 1) as nat);
        let r = imageless(blocks, n);
        assert forall|i: int| 0 <= i < r.len() implies speakable(#[trigger] r[i]) && !(r[i] is Image) by {
            if i < prev.len() {
                assert(r[i] == prev[i]);
            } else {
                assert(r[i] == blocks[n - 1]);
            }
        }
    }
}

proof fn nothing_is_carried(v: JsonV, s: SinkV, blocks: Seq<ContentBlockV>, ptr: Seq<char>, n: nat)
    requires
        n <= blocks.len(),
        forall|i: int| 0 <= i < blocks.len() ==> carries_nothing(#[trigger] blocks[i]),
    ensures
        with_carried(v, s, blocks, ptr, n) == (v, s),
    decreases n,
{
    if n > 0 {
        nothing_is_carried(v, s, blocks, ptr, (n - 1) as nat);
        assert(carries_nothing(blocks[n - 1]));
    }
}

/// The lanes as a wire message.
proof fn lanes_are_put(w: types::MessageV, calls: Seq<JsonV>, l: LanesV)
    requires
        l.calls == calls,
        match w.reasoning_content {
            Some(JsonV::Str(s)) => l.thinking == seq![s],
            _ => l.thinking.len() == 0,
        },
    ensures
        lane_message(l, canonical_answer(w)) == JsonV::Object(put_all(answer_fields(w, calls), 4)),
{
    message_names();
    let f = answer_fields(w, calls);
    let none = Seq::<(Seq<char>, JsonV)>::empty();
    assert(put_all(f, 0) == none);
    assert(put_all(f, 1) == put_if(put_all(f, 0), f[0].0, f[0].1));
    assert(put_all(f, 2) == put_if(put_all(f, 1), f[1].0, f[1].1));
    assert(put_all(f, 3) == put_if(put_all(f, 2), f[2].0, f[2].1));
    assert(put_all(f, 4) == put_if(put_all(f, 3), f[3].0, f[3].1));
    absent_is_not_read(none, "role"@, f[0].1->0);
    assert(none.push(("role"@, f[0].1->0)) =~= seq![("role"@, f[0].1->0)]);
    if l.thinking.len() > 0 {
        let t = w.reasoning_content->0->Str_0;
        assert(joined(seq![t], "\n\n"@) == t);
    }
}

/// The thinking texts of an assistant message.
spec fn thoughts(w: types::MessageV) -> Seq<Seq<char>> {
    match w.reasoning_content {
        Some(JsonV::Str(s)) => seq![s],
        _ => Seq::<Seq<char>>::empty(),
    }
}

/// The lanes of an assistant message.
proof fn answer_lanes(m: MessageV, w: types::MessageV, mi: nat, as_text: bool, ptr: Seq<char>, s: SinkV)
    requires
        m.content == all_answers(w),
    ensures
        match lanes(m, mi, as_text, ptr, s, m.content.len()) {
            Ok(l) => match call_values(calls_of(w), calls_of(w).len()) {
                Some(v) => lanes_hold(l, thoughts(w), spoken(w), v),
                None => false,
            },
            Err(_) => call_values(calls_of(w), calls_of(w).len()) is None,
        },
{
    let think = thoughts(w);
    let texts = answer_blocks(w);
    let calls = calls_of(w);
    let a = think.len();
    let b = a + texts.len();
    lanes_of_thinking(m, think, mi, as_text, ptr, s);
    answers_are_speakable(w);
    assert forall|i: int| 0 <= i < texts.len() implies m.content[a + i] == #[trigger] texts[i] && speakable(texts[i]) by {}
    lanes_of_texts(m, a, texts, think, mi, as_text, ptr, s, texts.len());
    if let Some(JsonV::Array(e)) = w.tool_calls {
        calls_are_calls(e, e.len());
    }
    assert forall|i: int| 0 <= i < calls.len() implies m.content[b + i] == #[trigger] calls[i] && calls[i] is ToolCall by {}
    lanes_of_calls(m, b, calls, think, spoken(w), mi, as_text, ptr, s, calls.len());
    assert(b + calls.len() == m.content.len());
}

proof fn spoken_is_written(w: types::MessageV, ptr: Seq<char>, s: SinkV)
    ensures
        assistant_content(spoken(w), ptr, s).0 == canonical_answer(w),
{
    let texts = answer_blocks(w);
    answers_are_speakable(w);
    imageless_is_speakable(texts, texts.len());
    let blocks = spoken(w);
    answers_are_written(blocks, ptr, s, blocks.len());
    let parts = Seq::new(blocks.len(), |i: int| answer_value(blocks[i]));
    assert(parts.take(parts.len() as int) =~= parts);
}

proof fn answer_is_written(w: types::MessageV, c: ChatV, mi: nat, as_text: bool)
    requires
        decoded(w),
        nothing_carried(w),
    ensures
        ({
            let m = message_with(Role::Assistant, all_answers(w), extended(put_all(answer_data(w), 6), w.extra));
            match assistant_message(m, mi, as_text, wire_ptr(c.wire.len()), c.sink) {
                Ok((v, _)) => match call_values(calls_of(w), calls_of(w).len()) {
                    Some(calls) => v == JsonV::Object(answer_body(w, calls)),
                    None => false,
                },
                Err(_) => call_values(calls_of(w), calls_of(w).len()) is None,
            }
        }),
{
    let ptr = wire_ptr(c.wire.len());
    let m = message_with(Role::Assistant, all_answers(w), extended(put_all(answer_data(w), 6), w.extra));
    answer_lanes(m, w, mi, as_text, ptr, c.sink);
    if let Ok(l) = lanes(m, mi, as_text, ptr, c.sink, m.content.len()) {
        let vals = call_values(calls_of(w), calls_of(w).len())->0;
        let s0 = lane_losses(l, ptr);
        spoken_is_written(w, ptr, s0);
        lanes_are_put(w, vals, l);
        let (content, s1) = assistant_content(l.content, ptr, s0);
        let v0 = lane_message(l, content);
        no_data_is_merged(v0, s1, l.extras, ptr, l.extras.len());
        let s2 = with_extras(v0, s1, l.extras, ptr, l.extras.len()).1;
        nothing_is_carried(v0, s2, spoken(w), ptr, spoken(w).len());
        answer_is_sound(w, vals);
        data_is_merged(answer_fields(w, vals), answer_data(w), w.extra);
    }
}

/// A wire message is parsed to a message that becomes its canonical form.
pub proof fn message_is_written(j: JsonV, i: nat, ws: Seq<ConversionWarningV>, c: ChatV, mi: nat, conv: ConvertOptionsV)
    requires
        ready(j),
        !conv.downgrade_developer,
    ensures
        match chat_step(c, parsed_message(j, i, ws).0, mi, conv) {
            Ok(d) => match canonical_message(j) {
                Some(v) => d.wire == c.wire.push(v),
                None => false,
            },
            Err(_) => canonical_message(j) is None,
        },
{
    role_names();
    message_is_decoded(j);
    let ptr = "/messages/"@ + decimal(i);
    let m = parsed_message(j, i, ws).0;
    match types::decode_message(j) {
        Err(_) => {
            value_is_written(j, c, mi);
        },
        Ok(w) => match w.role {
            None => {
                value_is_written(j, c, mi);
            },
            Some(role) => {
                if input_kind(role) is Some {
                    input_is_parsed(role, w, ptr, ws);
                    input_is_written(role, w, c, mi);
                    assert(verbatim(m) is None) by {
                        reveal(laid_out);
                        verbatim_is_by_content(m, message_with(Role::User, input_blocks(w.content), Seq::empty()));
                    }
                } else if role == "assistant"@ {
                    answer_is_parsed(w, ptr, ws);
                    answer_is_written(w, c, mi, conv.thinking_as_text);
                    assert(verbatim(m) is None) by {
                        reveal(laid_out);
                        verbatim_is_by_content(m, message_with(Role::User, all_answers(w), Seq::empty()));
                    }
                } else if role == "tool"@ {
                    tool_is_written(w, ptr, ws, c, mi);
                } else {
                    assert(verbatim(m) == Some(j));
                    foreign_data_is_not_merged(m.extra, OPENAI_CHAT_COMPLETIONS@, j);
                }
            },
        },
    }
}

/// A value that is no message becomes the content of one.
proof fn value_is_written(j: JsonV, c: ChatV, mi: nat)
    requires
        json_as_str(json_get(j, "role"@)) is None,
    ensures
        ({
            let m = verbatim_message(Role::User, j);
            &&& verbatim(m) is None
            &&& grows(input_message(c, m, mi, false), c, Some(as_content(j)))
        }),
{
    let m = verbatim_message(Role::User, j);
    let blocks = m.content;
    let ptr = wire_ptr(c.wire.len());
    assert(role_check(m, mi, false, 0) is Ok);
    assert(role_check(m, mi, false, 1) is Ok);
    assert(input_parts(blocks, ptr, false, c.sink, 0) == Ok::<(Seq<JsonV>, SinkV), ConversionErrorV>(
        (Seq::empty(), c.sink),
    ));
    assert(input_parts(blocks, ptr, false, c.sink, 1) == Ok::<(Seq<JsonV>, SinkV), ConversionErrorV>(
        (Seq::<JsonV>::empty().push(j), c.sink),
    ));
    assert(Seq::<JsonV>::empty().push(j) =~= seq![j]);
    foreign_data_is_not_merged(m.extra, OPENAI_CHAT_COMPLETIONS@, as_content(j));
}

/// The canonical forms of the first `n` wire messages.
pub open spec fn canonical_messages(a: Seq<JsonV>, n: nat) -> Option<Seq<JsonV>>
    decreases n,
{
    if n == 0 || n > a.len() {
        Some(Seq::empty())
    } else {
        match canonical_messages(a, (n - 1) as nat) {
            None => None,
            Some(prev) => match canonical_message(a[n - 1]) {
                None => None,
                Some(u) => Some(prev.push(u)),
            },
        }
    }
}

/// All messages are written as their canonical forms.
pub open spec fn all_ready(a: Seq<JsonV>) -> bool {
    forall|i: int| 0 <= i < a.len() ==> ready(#[trigger] a[i])
}

/// All messages keep their canonical forms.
pub open spec fn steady_messages(a: Seq<JsonV>) -> bool {
    forall|i: int| 0 <= i < a.len() ==> steady_message(#[trigger] a[i])
}

proof fn messages_are_counted(a: Seq<JsonV>, ws: Seq<ConversionWarningV>, n: nat)
    requires
        n <= a.len(),
    ensures
        parsed_messages(a, ws, n).0.len() == n,
    decreases n,
{
    if n > 0 {
        messages_are_counted(a, ws, (n - 1) as nat);
    }
}

proof fn history_prefix(a: Seq<MessageV>, b: Seq<MessageV>, c: ChatV, conv: ConvertOptionsV, n: nat)
    requires
        n <= a.len() <= b.len(),
        forall|i: int| 0 <= i < a.len() ==> (#[trigger] a[i]) == b[i],
    ensures
        chat_steps(c, a, conv, n) == chat_steps(c, b, conv, n),
    decreases n,
{
    if n > 0 {
        history_prefix(a, b, c, conv, (n - 1) as nat);
        assert(a[n - 1] == b[n - 1]);
    }
}

/// A history becomes the canonical forms of the messages that it was parsed
/// from.
pub proof fn history_is_written(
    a: Seq<JsonV>,
    ws: Seq<ConversionWarningV>,
    c: ChatV,
    conv: ConvertOptionsV,
    n: nat,
)
    requires
        n <= a.len(),
        all_ready(a),
        !conv.downgrade_developer,
        c.wire.len() == 0,
    ensures
        match chat_steps(c, parsed_messages(a, ws, n).0, conv, n) {
            Ok(d) => canonical_messages(a, n) == Some(d.wire),
            Err(_) => canonical_messages(a, n) is None,
        },
    decreases n,
{
    if n == 0 {
        assert(c.wire =~= Seq::<JsonV>::empty());
    } else {
        let k = (n - 1) as nat;
        history_is_written(a, ws, c, conv, k);
        messages_are_counted(a, ws, k);
        let (before, ws1) = parsed_messages(a, ws, k);
        let msgs = parsed_messages(a, ws, n).0;
        history_prefix(before, msgs, c, conv, k);
        assert(ready(a[k as int]));
        if let Ok(d) = chat_steps(c, msgs, conv, k) {
            message_is_written(a[k as int], k, ws1, d, k, conv);
        }
    }
}

/// The canonical forms of wire messages stay as they are.
pub proof fn messages_settle(a: Seq<JsonV>, n: nat)
    requires
        n <= a.len(),
        steady_messages(a),
    ensures
        all_ready(a),
        match canonical_messages(a, n) {
            Some(u) => all_ready(u) && canonical_messages(u, u.len()) == Some(u),
            None => true,
        },
    decreases n,
{
    assert forall|i: int| 0 <= i < a.len() implies ready(#[trigger] a[i]) by {
        assert(steady_message(a[i]));
        message_settles(a[i]);
    }
    if n > 0 {
        messages_settle(a, (n - 1) as nat);
        assert(steady_message(a[n - 1]));
        message_settles(a[n - 1]);
        if let Some(u) = canonical_messages(a, n) {
            let prev = canonical_messages(a, (n - 1) as nat)->0;
            assert forall|i: int| 0 <= i < u.len() implies ready(#[trigger] u[i]) by {
                if i < prev.len() {
                    assert(u[i] == prev[i]);
                }
            }
            canonical_prefix(prev, u, prev.len());
        }
    }
}

proof fn canonical_prefix(a: Seq<JsonV>, b: Seq<JsonV>, n: nat)
    requires
        n <= a.len() <= b.len(),
        forall|i: int| 0 <= i < a.len() ==> (#[trigger] a[i]) == b[i],
    ensures
        canonical_messages(a, n) == canonical_messages(b, n),
    decreases n,
{
    if n > 0 {
        canonical_prefix(a, b, (n - 1) as nat);
        assert(a[n - 1] == b[n - 1]);
    }
}

} // verus!
