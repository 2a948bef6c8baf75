//! Laws: assistant and tool messages are read back from the wire messages that
//! they become.

use vstd::prelude::*;
use crate::convert::ConversionWarningV;
use crate::format::OPENAI_CHAT_COMPLETIONS;
use crate::formats::openai_chat_completions::assistant::{assistant_content, assistant_message, call_entry, call_type, carried_fields, content_parts, content_step, is_refusal, lane_losses, lane_message, lanes, part_patch, plain_thinking, with_carried, with_extras, Lane, LanesV, MESSAGE_KEY, REFUSAL_KEY, TYPE_KEY};
use crate::formats::openai_chat_completions::content::{omerged, shorthand, text_part};
use crate::formats::openai_chat_completions::parse_messages::{assistant_fields, assistant_from, assistant_of, no_fields, parsed_message, read_content, read_thinking, FieldsV};
use crate::formats::openai_chat_completions::parse_parts::{call_block, call_blocks, odd_type, own_extra, part_block, part_blocks, part_type};
use crate::formats::openai_chat_completions::round_trip::{message_names, part_blocks_prefix, part_names, role_names, tidy};
use crate::formats::openai_chat_completions::types;
use crate::ir::{extra_get, extra_ns, text_block, thinking_block, ContentBlockV, ExtraV, MessageV, Role};
use crate::json::{obj_remove, obj_set, obj_wf, object2, JsonV, ObjV};
use crate::merge::{merge_members, merged, obj_part};
use crate::namespaces::{absent, absent_is_not_read, avoids, clean, extended_nothing, extending_appends, first_named_is_read, namespace_holds_its_members, new_members_are_appended, not_there, null_free, null_free_prefix, provider_data_survives, removing_nothing, there, unmodeled_members_are_kept, within};
use crate::sink::SinkV;
use crate::text::{decimal, joined};

verus! {

pub proof fn call_names()
    ensures
        "id"@ != "type"@,
        "id"@ != "function"@,
        "id"@ != "custom"@,
        "type"@ != "function"@,
        "type"@ != "custom"@,
        "function"@ != "custom"@,
        "name"@ != "arguments"@,
        "name"@ != "input"@,
{
    reveal_strlit("id");
    reveal_strlit("type");
    reveal_strlit("function");
    reveal_strlit("custom");
    reveal_strlit("name");
    reveal_strlit("arguments");
    reveal_strlit("input");
    assert("id"@.len() == 2 && "type"@.len() == 4 && "function"@.len() == 8 && "custom"@.len() == 6);
    assert("name"@.len() == 4 && "arguments"@.len() == 9 && "input"@.len() == 5);
}

/// Provider data of a custom call: its type, then tidy data.
pub open spec fn custom_data(e: ExtraV) -> bool {
    let ns = extra_ns(e, OPENAI_CHAT_COMPLETIONS@);
    &&& e == own_extra(ns)
    &&& clean(ns)
    &&& ns.len() > 0
    &&& ns[0] == (TYPE_KEY@, JsonV::Str("custom"@))
    &&& avoids(ns.skip(1), types::tool_call_entry_keys())
}

/// A function or custom call that this format can carry.
pub open spec fn plain_call(b: ContentBlockV) -> bool {
    match b {
        ContentBlockV::ToolCall { id, name, arguments, cache, extra } => id is Some && cache is None && (tidy(
            extra,
            types::tool_call_entry_keys(),
        ) || custom_data(extra)),
        _ => false,
    }
}

proof fn payload_is_read(a: Seq<char>, k: Seq<char>, b: Seq<char>)
    requires
        k == "arguments"@ || k == "input"@,
    ensures
        k == "arguments"@ ==> types::decode_function_call_payload(
            object2("name"@, JsonV::Str(a), k, JsonV::Str(b)),
        ) == Ok::<types::FunctionCallPayloadV, Seq<char>>(
            types::FunctionCallPayloadV { name: Some(a), arguments: Some(b), extra: Seq::empty() },
        ),
        k == "input"@ ==> types::decode_custom_call_payload(object2("name"@, JsonV::Str(a), k, JsonV::Str(b)))
            == Ok::<types::CustomCallPayloadV, Seq<char>>(
            types::CustomCallPayloadV { name: Some(a), input: Some(b), extra: Seq::empty() },
        ),
{
    call_names();
    let o = seq![("name"@, JsonV::Str(a)), (k, JsonV::Str(b))];
    let none = Seq::<(Seq<char>, JsonV)>::empty();
    first_named_is_read(o, "name"@, 0);
    first_named_is_read(o, k, 1);
    assert(o + none =~= o);
    let fk = types::function_call_payload_keys();
    let ck = types::custom_call_payload_keys();
    assert(fk[0] == "name"@ && fk[1] == "arguments"@);
    assert(ck[0] == "name"@ && ck[1] == "input"@);
    if k == "arguments"@ {
        unmodeled_members_are_kept(o, none, fk);
    }
    if k == "input"@ {
        unmodeled_members_are_kept(o, none, ck);
    }
}

/// A function call is read back from the entry that it becomes.
pub proof fn function_call_round_trip(
    id: Seq<char>,
    name: Seq<char>,
    arguments: Seq<char>,
    extra: ExtraV,
    ptr: Seq<char>,
    at: Seq<char>,
    ws: Seq<ConversionWarningV>,
)
    requires
        tidy(extra, types::tool_call_entry_keys()),
    ensures
        match call_entry(Some(id), name, arguments, extra, ptr) {
            Ok(entry) => call_block(omerged(extra, entry), at, ws) == (
                Some(ContentBlockV::ToolCall { id: Some(id), name, arguments, cache: None, extra }),
                ws,
            ),
            Err(_) => false,
        },
{
    call_names();
    let known = types::tool_call_entry_keys();
    assert(known[0] == "id"@ && known[1] == "type"@ && known[2] == "function"@ && known[3] == "custom"@);
    let ns = extra_ns(extra, OPENAI_CHAT_COMPLETIONS@);
    let none = Seq::<(Seq<char>, JsonV)>::empty();
    not_there(none, ns, known, "type"@);
    assert(none + ns =~= ns);
    assert(call_type(extra) is None);
    let p = object2("name"@, JsonV::Str(name), "arguments"@, JsonV::Str(arguments));
    let t = seq![("id"@, JsonV::Str(id)), ("type"@, JsonV::Str("function"@)), ("function"@, p)];
    assert(within(t, known));
    provider_data_survives(OPENAI_CHAT_COMPLETIONS@, t, ns, known);
    let o = t + ns;
    there(t, ns, "id"@, 0);
    there(t, ns, "type"@, 1);
    there(t, ns, "function"@, 2);
    not_there(t, ns, known, "custom"@);
    payload_is_read(name, "arguments"@, arguments);
    let w = types::ToolCallEntryV {
        id: Some(id),
        call_type: Some("function"@),
        function: Some(
            types::FunctionCallPayloadV { name: Some(name), arguments: Some(arguments), extra: none },
        ),
        custom: None,
        extra: ns,
    };
    assert(types::decode_tool_call_entry(JsonV::Object(o)) == Ok::<types::ToolCallEntryV, Seq<char>>(w));
    assert(!odd_type(JsonV::Object(o)));
    extended_nothing(ns);
}

proof fn repeated_head_changes_nothing(t: ObjV, p: ObjV, i: int, n: nat)
    requires
        0 < n <= p.len(),
        obj_wf(p),
        null_free(p, n),
        0 <= i < t.len(),
        t[i] == p[0],
        !(p[0].1 is Object),
        forall|j: int| 0 <= j < i ==> (#[trigger] t[j]).0 != p[0].0,
        forall|j: int| 1 <= j < n ==> absent(t, (#[trigger] p[j]).0),
    ensures
        merge_members(t, p, n) == t + p.subrange(1, n as int),
    decreases n,
{
    if n == 1 {
        assert(merge_members(t, p, 0) == t);
        first_named_is_read(t, p[0].0, i);
        reveal(obj_set);
        assert(t.update(i, p[0]) =~= t);
        assert(t + p.subrange(1, 1) =~= t);
    } else {
        repeated_head_changes_nothing(t, p, i, (n - 1) as nat);
        let prev = t + p.subrange(1, n - 1);
        let k = p[n - 1].0;
        assert forall|j: int| 0 <= j < prev.len() implies (#[trigger] prev[j]).0 != k by {
            if j < t.len() {
                assert(absent(t, p[n - 1].0));
                assert(prev[j] == t[j]);
            } else {
                assert(prev[j] == p[j - t.len() + 1]);
                assert(p[j - t.len() + 1].0 != p[n - 1].0);
            }
        }
        match p[n - 1].1 {
            JsonV::Null => {},
            JsonV::Object(q) => {
                let none = Seq::<(Seq<char>, JsonV)>::empty();
                new_members_are_appended(none, q, q.len());
                assert(none + q.take(q.len() as int) =~= q);
                absent_is_not_read(prev, k, JsonV::Object(q));
            },
            v => {
                absent_is_not_read(prev, k, v);
            },
        }
        assert(prev.push(p[n - 1]) =~= t + p.subrange(1, n as int));
    }
}

/// A custom call is read back from the entry that it becomes.
pub proof fn custom_call_round_trip(
    id: Seq<char>,
    name: Seq<char>,
    input: Seq<char>,
    extra: ExtraV,
    ptr: Seq<char>,
    at: Seq<char>,
    ws: Seq<ConversionWarningV>,
)
    requires
        custom_data(extra),
    ensures
        match call_entry(Some(id), name, input, extra, ptr) {
            Ok(entry) => call_block(omerged(extra, entry), at, ws) == (
                Some(
                    ContentBlockV::ToolCall { id: Some(id), name, arguments: input, cache: None, extra },
                ),
                ws,
            ),
            Err(_) => false,
        },
{
    call_names();
    let known = types::tool_call_entry_keys();
    assert(known[0] == "id"@ && known[1] == "type"@ && known[2] == "function"@ && known[3] == "custom"@);
    let ns = extra_ns(extra, OPENAI_CHAT_COMPLETIONS@);
    let rest = ns.skip(1);
    let none = Seq::<(Seq<char>, JsonV)>::empty();
    first_named_is_read(ns, "type"@, 0);
    assert(call_type(extra) == Some(JsonV::Str("custom"@)));
    let p = object2("name"@, JsonV::Str(name), "input"@, JsonV::Str(input));
    let t = seq![("id"@, JsonV::Str(id)), ("type"@, JsonV::Str("custom"@)), ("custom"@, p)];
    assert(within(t, known));
    assert forall|j: int| 1 <= j < ns.len() implies absent(t, (#[trigger] ns[j]).0) by {
        assert(ns[j] == rest[j - 1]);
        assert(!known.contains(rest[j - 1].0));
    }
    repeated_head_changes_nothing(t, ns, 1, ns.len());
    assert(ns.subrange(1, ns.len() as int) =~= rest);
    namespace_holds_its_members(OPENAI_CHAT_COMPLETIONS@, ns);
    let o = t + rest;
    unmodeled_members_are_kept(t, rest, known);
    there(t, rest, "id"@, 0);
    there(t, rest, "type"@, 1);
    there(t, rest, "custom"@, 2);
    not_there(t, rest, known, "function"@);
    payload_is_read(name, "input"@, input);
    let w = types::ToolCallEntryV {
        id: Some(id),
        call_type: Some("custom"@),
        function: None,
        custom: Some(types::CustomCallPayloadV { name: Some(name), input: Some(input), extra: none }),
        extra: rest,
    };
    assert(types::decode_tool_call_entry(JsonV::Object(o)) == Ok::<types::ToolCallEntryV, Seq<char>>(w));
    assert(!odd_type(JsonV::Object(o)));
    let head = seq![(TYPE_KEY@, JsonV::Str("custom"@))];
    absent_is_not_read(none, TYPE_KEY@, JsonV::Str("custom"@));
    assert(none.push((TYPE_KEY@, JsonV::Str("custom"@))) =~= head);
    assert(obj_wf(rest)) by {
        assert forall|a: int, b: int| 0 <= a < b < rest.len() implies #[trigger] rest[a].0 != #[trigger] rest[b].0 by {
            assert(ns[a + 1].0 != ns[b + 1].0);
        }
    }
    assert forall|j: int| 0 <= j < rest.len() implies absent(head, (#[trigger] rest[j]).0) by {
        assert(!known.contains(rest[j].0));
    }
    extending_appends(head, rest, rest.len());
    assert(head + rest.take(rest.len() as int) =~= ns);
}

/// A call is read back from the entry that it becomes.
pub proof fn call_round_trip(b: ContentBlockV, ptr: Seq<char>, at: Seq<char>, ws: Seq<ConversionWarningV>)
    requires
        plain_call(b),
    ensures
        match call_entry(b->ToolCall_id, b->ToolCall_name, b->ToolCall_arguments, b->ToolCall_extra, ptr) {
            Ok(entry) => call_block(omerged(b->ToolCall_extra, entry), at, ws) == (Some(b), ws),
            Err(_) => false,
        },
{
    match b {
        ContentBlockV::ToolCall { id, name, arguments, cache, extra } => {
            if tidy(extra, types::tool_call_entry_keys()) {
                function_call_round_trip(id->0, name, arguments, extra, ptr, at, ws);
            } else {
                custom_call_round_trip(id->0, name, arguments, extra, ptr, at, ws);
            }
        },
        _ => {},
    }
}

/// Names that the data of a text block of an assistant message leaves alone.
pub open spec fn text_names() -> Seq<Seq<char>> {
    seq!["type"@, "text"@, "prompt_cache_breakpoint"@, REFUSAL_KEY@, MESSAGE_KEY@]
}

/// Names that the data of a refusal leaves alone.
pub open spec fn refusal_names() -> Seq<Seq<char>> {
    seq!["type"@, "refusal"@, MESSAGE_KEY@]
}

/// Provider data of a refusal: tidy data, then its mark.
pub open spec fn refusal_data(e: ExtraV) -> bool {
    let ns = extra_ns(e, OPENAI_CHAT_COMPLETIONS@);
    &&& e == own_extra(ns)
    &&& clean(ns)
    &&& ns.len() > 0
    &&& ns.last() == (REFUSAL_KEY@, JsonV::Bool(true))
    &&& avoids(ns.drop_last(), refusal_names())
}

/// A block that the content of an assistant message of this format can carry.
pub open spec fn plain_answer(b: ContentBlockV) -> bool {
    match b {
        ContentBlockV::Text { text, cache, extra } => cache is None && (tidy(extra, text_names()) || refusal_data(
            extra,
        )),
        ContentBlockV::Opaque { format, value } => format == OPENAI_CHAT_COMPLETIONS@ && part_type(value) != Some(
            "text"@,
        ) && part_type(value) != Some("image_url"@) && part_type(value) != Some("refusal"@),
        _ => false,
    }
}

pub proof fn content_names()
    ensures
        MESSAGE_KEY@ != "type"@,
        MESSAGE_KEY@ != "text"@,
        MESSAGE_KEY@ != "refusal"@,
        MESSAGE_KEY@ != "prompt_cache_breakpoint"@,
        REFUSAL_KEY@ == "refusal"@,
{
    reveal_strlit("message");
    reveal_strlit("type");
    reveal_strlit("text");
    reveal_strlit("refusal");
    reveal_strlit("prompt_cache_breakpoint");
    assert("message"@[0] != "refusal"@[0]);
    assert("message"@.len() == 7 && "type"@.len() == 4 && "text"@.len() == 4 && "refusal"@.len() == 7
        && "prompt_cache_breakpoint"@.len() == 23);
}

proof fn avoided_is_absent(ns: ObjV, known: Seq<Seq<char>>, k: Seq<char>)
    requires
        avoids(ns, known),
        known.contains(k),
    ensures
        absent(ns, k),
{
    assert forall|j: int| 0 <= j < ns.len() implies (#[trigger] ns[j]).0 != k by {
        assert(!known.contains(ns[j].0));
    }
}

proof fn plain_text_part(text: Seq<char>, ns: ObjV, at: Seq<char>, ws: Seq<ConversionWarningV>)
    requires
        clean(ns),
        avoids(ns, text_names()),
    ensures
        !is_refusal(ns),
        part_patch(ns) == ns,
        absent(ns, MESSAGE_KEY@),
        part_block(JsonV::Object(merged(obj_part(Some(text_part(text))), ns)), at, false, ws) == (
            ContentBlockV::Text { text, cache: None, extra: own_extra(ns) },
            ws,
        ),
{
    part_names();
    content_names();
    let names = text_names();
    assert(names[0] == "type"@ && names[1] == "text"@ && names[2] == "prompt_cache_breakpoint"@ && names[3]
        == REFUSAL_KEY@ && names[4] == MESSAGE_KEY@);
    avoided_is_absent(ns, names, REFUSAL_KEY@);
    avoided_is_absent(ns, names, MESSAGE_KEY@);
    absent_is_not_read(ns, REFUSAL_KEY@, JsonV::Null);
    removing_nothing(ns, REFUSAL_KEY@);
    removing_nothing(ns, MESSAGE_KEY@);
    let known = types::text_part_keys();
    assert(known[0] == "type"@ && known[1] == "text"@ && known[2] == "prompt_cache_breakpoint"@);
    assert(avoids(ns, known)) by {
        assert forall|j: int| 0 <= j < ns.len() implies !known.contains((#[trigger] ns[j]).0) by {
            assert(!names.contains(ns[j].0));
            if known.contains(ns[j].0) {
                let i = choose|i: int| 0 <= i < known.len() && known[i] == ns[j].0;
                assert(names[i] == known[i]);
            }
        }
    }
    let t = seq![("type"@, JsonV::Str("text"@)), ("text"@, JsonV::Str(text))];
    assert(within(t, known));
    assert forall|j: int| 0 <= j < ns.len() implies absent(t, (#[trigger] ns[j]).0) by {
        assert(!known.contains(ns[j].0));
    }
    new_members_are_appended(t, ns, ns.len());
    assert(ns.take(ns.len() as int) =~= ns);
    unmodeled_members_are_kept(t, ns, known);
    there(t, ns, "type"@, 0);
    there(t, ns, "text"@, 1);
    not_there(t, ns, known, "prompt_cache_breakpoint"@);
    assert(part_type(JsonV::Object(t + ns)) == Some("text"@));
}

proof fn refusal_part(text: Seq<char>, extra: ExtraV, at: Seq<char>, ws: Seq<ConversionWarningV>)
    requires
        refusal_data(extra),
    ensures
        ({
            let ns = extra_ns(extra, OPENAI_CHAT_COMPLETIONS@);
            let part = object2("type"@, JsonV::Str("refusal"@), "refusal"@, JsonV::Str(text));
            &&& is_refusal(ns)
            &&& absent(ns, MESSAGE_KEY@)
            &&& part_block(JsonV::Object(merged(obj_part(Some(part)), part_patch(ns))), at, false, ws) == (
                ContentBlockV::Text { text, cache: None, extra },
                ws,
            )
        }),
{
    part_names();
    content_names();
    let ns = extra_ns(extra, OPENAI_CHAT_COMPLETIONS@);
    let rest = ns.drop_last();
    let names = refusal_names();
    assert(names[0] == "type"@ && names[1] == "refusal"@ && names[2] == MESSAGE_KEY@);
    avoided_is_absent(rest, names, "refusal"@);
    avoided_is_absent(rest, names, MESSAGE_KEY@);
    let last = (ns.len() - 1) as int;
    assert forall|j: int| 0 <= j < last implies (#[trigger] ns[j]).0 != REFUSAL_KEY@ by {
        assert(ns[j] == rest[j]);
    }
    first_named_is_read(ns, REFUSAL_KEY@, last);
    assert(obj_remove(ns, REFUSAL_KEY@) == rest) by {
        reveal(obj_remove);
        assert(ns.remove(last) =~= rest);
    }
    removing_nothing(rest, MESSAGE_KEY@);
    assert forall|j: int| 0 <= j < ns.len() implies (#[trigger] ns[j]).0 != MESSAGE_KEY@ by {
        if j < last {
            assert(ns[j] == rest[j]);
        }
    }
    // The data in front of the mark.
    assert(obj_wf(rest)) by {
        assert forall|a: int, b: int| 0 <= a < b < rest.len() implies #[trigger] rest[a].0 != #[trigger] rest[b].0 by {
            assert(ns[a].0 != ns[b].0);
        }
    }
    null_free_prefix(ns, rest, rest.len());
    let known = types::refusal_part_keys();
    assert(known[0] == "type"@ && known[1] == "refusal"@);
    assert(avoids(rest, known)) by {
        assert forall|j: int| 0 <= j < rest.len() implies !known.contains((#[trigger] rest[j]).0) by {
            assert(!names.contains(rest[j].0));
            if known.contains(rest[j].0) {
                let i = choose|i: int| 0 <= i < known.len() && known[i] == rest[j].0;
                assert(names[i] == known[i]);
            }
        }
    }
    let t = seq![("type"@, JsonV::Str("refusal"@)), ("refusal"@, JsonV::Str(text))];
    assert(within(t, known));
    assert forall|j: int| 0 <= j < rest.len() implies absent(t, (#[trigger] rest[j]).0) by {
        assert(!known.contains(rest[j].0));
    }
    new_members_are_appended(t, rest, rest.len());
    assert(rest.take(rest.len() as int) =~= rest);
    unmodeled_members_are_kept(t, rest, known);
    there(t, rest, "type"@, 0);
    there(t, rest, "refusal"@, 1);
    assert(part_type(JsonV::Object(t + rest)) == Some("refusal"@));
    absent_is_not_read(rest, REFUSAL_KEY@, JsonV::Bool(true));
    assert(rest.push((REFUSAL_KEY@, JsonV::Bool(true))) =~= ns);
}

/// A content block of an assistant message is read back from the part that it
/// becomes, and carries no field of the message.
pub proof fn answer_block_round_trip(
    st: (Seq<JsonV>, SinkV),
    b: ContentBlockV,
    msg_ptr: Seq<char>,
    at: Seq<char>,
    ws: Seq<ConversionWarningV>,
)
    requires
        plain_answer(b),
    ensures
        ({
            let (parts, s) = content_step(st, b, msg_ptr);
            &&& parts.len() == st.0.len() + 1
            &&& parts.drop_last() == st.0
            &&& s.warnings == st.1.warnings
            &&& part_block(parts.last(), at, false, ws) == (b, ws)
            &&& carried_fields(b).len() == 0
        }),
{
    match b {
        ContentBlockV::Text { text, cache, extra } => {
            let ns = extra_ns(extra, OPENAI_CHAT_COMPLETIONS@);
            if tidy(extra, text_names()) {
                plain_text_part(text, ns, at, ws);
            } else {
                refusal_part(text, extra, at, ws);
            }
            absent_is_not_read(ns, MESSAGE_KEY@, JsonV::Null);
        },
        _ => {},
    }
    let (parts, s) = content_step(st, b, msg_ptr);
    assert(parts.drop_last() =~= st.0);
}

/// All blocks can be carried as content.
pub open spec fn plain_answers(blocks: Seq<ContentBlockV>) -> bool {
    forall|i: int| 0 <= i < blocks.len() ==> plain_answer(#[trigger] blocks[i])
}

proof fn content_parts_round_trip(
    blocks: Seq<ContentBlockV>,
    msg_ptr: Seq<char>,
    s: SinkV,
    n: nat,
    at: Seq<char>,
    ws: Seq<ConversionWarningV>,
)
    requires
        n <= blocks.len(),
        plain_answers(blocks),
    ensures
        ({
            let (parts, s1) = content_parts(blocks, msg_ptr, s, n);
            &&& parts.len() == n
            &&& s1.warnings == s.warnings
            &&& part_blocks(parts, at, false, ws, n) == (blocks.take(n as int), ws)
        }),
    decreases n,
{
    if n == 0 {
        assert(blocks.take(0) =~= Seq::<ContentBlockV>::empty());
    } else {
        let m = (n - 1) as nat;
        content_parts_round_trip(blocks, msg_ptr, s, m, at, ws);
        let prev = content_parts(blocks, msg_ptr, s, m);
        let b = blocks[n - 1];
        assert(plain_answer(b));
        answer_block_round_trip(prev, b, msg_ptr, at + "/content/"@ + decimal(m), ws);
        let (parts, s1) = content_parts(blocks, msg_ptr, s, n);
        assert forall|i: int| 0 <= i < m implies (#[trigger] prev.0[i]) == parts[i] by {
            assert(parts.drop_last()[i] == parts[i]);
        }
        part_blocks_prefix(prev.0, parts, at, false, ws, m);
        assert(parts[n - 1] == parts.last());
        assert(blocks.take(m as int).push(b) =~= blocks.take(n as int));
    }
}

proof fn nothing_is_carried(v: JsonV, s: SinkV, blocks: Seq<ContentBlockV>, msg_ptr: Seq<char>, n: nat)
    requires
        n <= blocks.len(),
        plain_answers(blocks),
    ensures
        with_carried(v, s, blocks, msg_ptr, n) == (v, s),
    decreases n,
{
    if n > 0 {
        nothing_is_carried(v, s, blocks, msg_ptr, (n - 1) as nat);
        assert(plain_answer(blocks[n - 1]));
        answer_block_round_trip((Seq::empty(), s), blocks[n - 1], msg_ptr, msg_ptr, Seq::empty());
    }
}

/// The content of an assistant message is read back from what it becomes.
proof fn answer_content_round_trip(
    blocks: Seq<ContentBlockV>,
    msg_ptr: Seq<char>,
    s: SinkV,
    f: FieldsV,
    at: Seq<char>,
)
    requires
        plain_answers(blocks),
    ensures
        ({
            let (v, s1) = assistant_content(blocks, msg_ptr, s);
            &&& v != Some(JsonV::Null)
            &&& s1.warnings == s.warnings
            &&& (v is None ==> blocks.len() == 0)
            &&& read_content(f, v, at, false) == (FieldsV { blocks: f.blocks + blocks, ..f })
        }),
{
    if blocks.len() == 0 {
        assert(f.blocks + blocks =~= f.blocks);
    } else {
        match shorthand(blocks) {
            Some(text) => {
                let b = blocks[0];
                assert(plain_answer(b));
                let ns = extra_ns(b->Text_extra, OPENAI_CHAT_COMPLETIONS@);
                namespace_holds_its_members(OPENAI_CHAT_COMPLETIONS@, ns);
                assert(b == text_block(text));
                assert(f.blocks.push(text_block(text)) =~= f.blocks + blocks);
            },
            None => {
                content_parts_round_trip(blocks, msg_ptr, s, blocks.len(), at, f.warnings);
                assert(blocks.take(blocks.len() as int) =~= blocks);
            },
        }
    }
}

/// The thinking block of an assistant message, if it has one.
pub open spec fn thought(think: Option<Seq<char>>) -> Seq<ContentBlockV> {
    match think {
        Some(t) => seq![thinking_block(t)],
        None => Seq::empty(),
    }
}

/// The thinking text of an assistant message, if it has one.
pub open spec fn thought_text(think: Option<Seq<char>>) -> Seq<Seq<char>> {
    match think {
        Some(t) => seq![t],
        None => Seq::empty(),
    }
}

/// All blocks are calls that this format can carry.
pub open spec fn plain_calls(calls: Seq<ContentBlockV>) -> bool {
    forall|i: int| 0 <= i < calls.len() ==> plain_call(#[trigger] calls[i])
}

proof fn call_blocks_prefix(
    a: Seq<JsonV>,
    b: Seq<JsonV>,
    at: Seq<char>,
    base: Seq<ContentBlockV>,
    ws: Seq<ConversionWarningV>,
    n: nat,
)
    requires
        n <= a.len(),
        n <= b.len(),
        forall|i: int| 0 <= i < n ==> (#[trigger] a[i]) == b[i],
    ensures
        call_blocks(a, at, base, ws, n) == call_blocks(b, at, base, ws, n),
    decreases n,
{
    if n > 0 {
        call_blocks_prefix(a, b, at, base, ws, (n - 1) as nat);
    }
}

spec fn clamp(n: int, lo: int, hi: int) -> int {
    if n < lo {
        lo
    } else if n > hi {
        hi
    } else {
        n
    }
}

proof fn lanes_round_trip(
    m: MessageV,
    think: Option<Seq<char>>,
    texts: Seq<ContentBlockV>,
    calls: Seq<ContentBlockV>,
    mi: nat,
    as_text: bool,
    msg_ptr: Seq<char>,
    s: SinkV,
    n: nat,
    at: Seq<char>,
    base: Seq<ContentBlockV>,
    ws: Seq<ConversionWarningV>,
)
    requires
        m.content == thought(think) + texts + calls,
        n <= m.content.len(),
        plain_answers(texts),
        plain_calls(calls),
    ensures
        match lanes(m, mi, as_text, msg_ptr, s, n) {
            Err(_) => false,
            Ok(l) => {
                let a = thought(think).len() as int;
                let b = texts.len() as int;
                let k = clamp(n - a - b, 0, calls.len() as int);
                &&& l.thinking == thought_text(think).take(clamp(n as int, 0, a))
                &&& l.content == texts.take(clamp(n - a, 0, b))
                &&& l.calls.len() == k
                &&& call_blocks(l.calls, at, base, ws, k as nat) == (base + calls.take(k), ws)
                &&& l.extras == Seq::new(clamp(n as int, 0, a) as nat, |i: int| Seq::<(Seq<char>, ObjV)>::empty())
                &&& !l.order_lost
                &&& l.furthest == (if n > a + b {
                    Lane::ToolCalls
                } else if n > a {
                    Lane::Content
                } else {
                    Lane::Thinking
                })
                &&& l.sink.warnings == s.warnings
            },
        },
    decreases n,
{
    let th = thought(think);
    let a = th.len() as int;
    let b = texts.len() as int;
    if n == 0 {
        assert(thought_text(think).take(0) =~= Seq::<Seq<char>>::empty());
        assert(texts.take(0) =~= Seq::<ContentBlockV>::empty());
        assert(base + calls.take(0) =~= base);
        assert(Seq::new(0, |i: int| Seq::<(Seq<char>, ObjV)>::empty()) =~= Seq::<ExtraV>::empty());
    } else {
        let p = (n - 1) as nat;
        lanes_round_trip(m, think, texts, calls, mi, as_text, msg_ptr, s, p, at, base, ws);
        let prev = lanes(m, mi, as_text, msg_ptr, s, p)->Ok_0;
        let blk = m.content[p as int];
        if p < a {
            let t = think->0;
            assert(blk == thinking_block(t));
            reveal(extra_get);
            assert(plain_thinking(Seq::empty()));
            let l = lanes(m, mi, as_text, msg_ptr, s, n)->Ok_0;
            assert(l.thinking =~= thought_text(think).take(1));
            assert(l.extras =~= Seq::new(1, |i: int| Seq::<(Seq<char>, ObjV)>::empty()));
            assert(texts.take(clamp(n - a, 0, b)) =~= texts.take(clamp(p - a, 0, b)));
        } else if p < a + b {
            assert(blk == texts[p - a]);
            assert(plain_answer(blk));
            assert(texts.take(p - a).push(blk) =~= texts.take(n - a));
        } else {
            let k = p - a - b;
            assert(blk == calls[k]);
            assert(plain_call(blk));
            let ptr = msg_ptr + "/tool_calls/"@ + decimal(prev.calls.len());
            call_round_trip(blk, ptr, at + "/tool_calls/"@ + decimal(k as nat), ws);
            let l = lanes(m, mi, as_text, msg_ptr, s, n)->Ok_0;
            assert forall|i: int| 0 <= i < k implies (#[trigger] prev.calls[i]) == l.calls[i] by {}
            call_blocks_prefix(prev.calls, l.calls, at, base, ws, k as nat);
            assert((base + calls.take(k)).push(blk) =~= base + calls.take(k + 1));
        }
    }
}

pub proof fn no_data_is_merged(v: JsonV, s: SinkV, extras: Seq<ExtraV>, msg_ptr: Seq<char>, n: nat)
    requires
        n <= extras.len(),
        forall|i: int| 0 <= i < extras.len() ==> (#[trigger] extras[i]) == Seq::<(Seq<char>, ObjV)>::empty(),
    ensures
        with_extras(v, s, extras, msg_ptr, n) == (v, s),
    decreases n,
{
    if n > 0 {
        no_data_is_merged(v, s, extras, msg_ptr, (n - 1) as nat);
        reveal(extra_get);
        assert(extras[n - 1] == Seq::<(Seq<char>, ObjV)>::empty());
    }
}

/// An assistant message that this format can carry: at most one thinking
/// block, then content, then calls.
pub open spec fn plain_assistant(
    m: MessageV,
    think: Option<Seq<char>>,
    texts: Seq<ContentBlockV>,
    calls: Seq<ContentBlockV>,
) -> bool {
    &&& m.role == Role::Assistant
    &&& m.content == thought(think) + texts + calls
    &&& plain_answers(texts)
    &&& plain_calls(calls)
    &&& tidy(m.extra, types::message_keys())
    &&& m.round_trip is None
}

/// The members of an assistant wire message.
spec fn answer_members(content: Option<JsonV>, think: Option<Seq<char>>, calls: Seq<JsonV>) -> ObjV {
    let t0 = seq![("role"@, JsonV::Str("assistant"@))];
    let t1 = match content {
        Some(c) => t0.push(("content"@, c)),
        None => t0,
    };
    let t2 = match think {
        Some(t) => t1.push(("reasoning_content"@, JsonV::Str(t))),
        None => t1,
    };
    if calls.len() > 0 {
        t2.push(("tool_calls"@, JsonV::Array(calls)))
    } else {
        t2
    }
}

/// The typed form of an assistant wire message.
spec fn answer_wire(content: Option<JsonV>, think: Option<Seq<char>>, calls: Seq<JsonV>, ns: ObjV) -> types::MessageV {
    types::MessageV {
        role: Some("assistant"@),
        content,
        reasoning_content: match think {
            Some(t) => Some(JsonV::Str(t)),
            None => None,
        },
        refusal: None,
        tool_calls: if calls.len() > 0 { Some(JsonV::Array(calls)) } else { None },
        tool_call_id: None,
        name: None,
        extra: ns,
    }
}

proof fn answer_is_written(l: LanesV, content: Option<JsonV>, think: Option<Seq<char>>)
    requires
        l.thinking == thought_text(think),
    ensures
        lane_message(l, content) == JsonV::Object(answer_members(content, think, l.calls)),
{
    message_names();
    let t0 = seq![("role"@, JsonV::Str("assistant"@))];
    let t1 = match content {
        Some(c) => t0.push(("content"@, c)),
        None => t0,
    };
    let t2 = match think {
        Some(t) => t1.push(("reasoning_content"@, JsonV::Str(t))),
        None => t1,
    };
    if content is Some {
        absent_is_not_read(t0, "content"@, content->0);
    }
    if think is Some {
        let t = think->0;
        absent_is_not_read(t1, "reasoning_content"@, JsonV::Str(t));
        assert(l.thinking[0] == t);
        assert(joined(l.thinking, "\n\n"@) == t);
    }
    if l.calls.len() > 0 {
        absent_is_not_read(t2, "tool_calls"@, JsonV::Array(l.calls));
    }
}

proof fn answer_is_decoded(content: Option<JsonV>, think: Option<Seq<char>>, calls: Seq<JsonV>, e: ExtraV)
    requires
        tidy(e, types::message_keys()),
        content != Some(JsonV::Null),
    ensures
        ({
            let ns = extra_ns(e, OPENAI_CHAT_COMPLETIONS@);
            let t = answer_members(content, think, calls);
            &&& omerged(e, JsonV::Object(t)) == JsonV::Object(t + ns)
            &&& types::decode_message(JsonV::Object(t + ns)) == Ok::<types::MessageV, Seq<char>>(
                answer_wire(content, think, calls, ns),
            )
        }),
{
    message_names();
    let known = types::message_keys();
    assert(known[0] == "role"@ && known[1] == "content"@ && known[2] == "reasoning_content"@ && known[3] == "refusal"@
        && known[4] == "tool_calls"@ && known[5] == "tool_call_id"@ && known[6] == "name"@);
    let ns = extra_ns(e, OPENAI_CHAT_COMPLETIONS@);
    let t = answer_members(content, think, calls);
    let c: int = if content is Some { 1 } else { 0 };
    let r: int = if think is Some { 1 } else { 0 };
    assert(t[0].0 == "role"@);
    assert(within(t, known));
    provider_data_survives(OPENAI_CHAT_COMPLETIONS@, t, ns, known);
    there(t, ns, "role"@, 0);
    if content is Some {
        there(t, ns, "content"@, 1);
    } else {
        not_there(t, ns, known, "content"@);
    }
    if think is Some {
        there(t, ns, "reasoning_content"@, 1 + c);
    } else {
        not_there(t, ns, known, "reasoning_content"@);
    }
    if calls.len() > 0 {
        there(t, ns, "tool_calls"@, 1 + c + r);
    } else {
        not_there(t, ns, known, "tool_calls"@);
    }
    not_there(t, ns, known, "refusal"@);
    not_there(t, ns, known, "tool_call_id"@);
    not_there(t, ns, known, "name"@);
}

proof fn answer_fields(
    m: MessageV,
    think: Option<Seq<char>>,
    texts: Seq<ContentBlockV>,
    calls: Seq<ContentBlockV>,
    content: Option<JsonV>,
    entries: Seq<JsonV>,
    at: Seq<char>,
    ws: Seq<ConversionWarningV>,
)
    requires
        plain_assistant(m, think, texts, calls),
        entries.len() == calls.len(),
        call_blocks(entries, at, thought(think) + texts, ws, entries.len()) == (thought(think) + texts + calls, ws),
        read_content(
            FieldsV { blocks: thought(think), ns: Seq::empty(), warnings: ws },
            content,
            at,
            false,
        ) == (FieldsV { blocks: thought(think) + texts, ns: Seq::empty(), warnings: ws }),
    ensures
        ({
            let ns = extra_ns(m.extra, OPENAI_CHAT_COMPLETIONS@);
            assistant_of(answer_wire(content, think, entries, ns), at, ws) == (m, ws)
        }),
{
    let ns = extra_ns(m.extra, OPENAI_CHAT_COMPLETIONS@);
    let w = answer_wire(content, think, entries, ns);
    assert(read_thinking(no_fields(ws), w.reasoning_content, at).blocks =~= thought(think));
    let f1 = FieldsV { blocks: thought(think), ns: Seq::empty(), warnings: ws };
    assert(read_thinking(no_fields(ws), w.reasoning_content, at) == f1);
    if entries.len() == 0 {
        assert(thought(think) + texts =~= m.content);
    }
    assert(assistant_fields(w, at, ws) == (FieldsV { blocks: m.content, ns: Seq::empty(), warnings: ws }));
    extended_nothing(ns);
}

/// An assistant message is read back from the wire message that it becomes,
/// without a warning on either side: from a request, and from a response.
pub proof fn assistant_message_round_trip(
    m: MessageV,
    think: Option<Seq<char>>,
    texts: Seq<ContentBlockV>,
    calls: Seq<ContentBlockV>,
    mi: nat,
    as_text: bool,
    msg_ptr: Seq<char>,
    s: SinkV,
    i: nat,
    at: Seq<char>,
    ws: Seq<ConversionWarningV>,
)
    requires
        plain_assistant(m, think, texts, calls),
    ensures
        match assistant_message(m, mi, as_text, msg_ptr, s) {
            Ok((v, s1)) => s1.warnings == s.warnings && parsed_message(v, i, ws) == (m, ws) && assistant_from(
                v,
                at,
                ws,
            ) == (m, ws),
            Err(_) => false,
        },
{
    message_names();
    role_names();
    let n = m.content.len();
    let loc = "/messages/"@ + decimal(i);
    lanes_round_trip(m, think, texts, calls, mi, as_text, msg_ptr, s, n, loc, thought(think) + texts, ws);
    lanes_round_trip(m, think, texts, calls, mi, as_text, msg_ptr, s, n, at, thought(think) + texts, ws);
    let l = lanes(m, mi, as_text, msg_ptr, s, n)->Ok_0;
    assert(l.thinking =~= thought_text(think));
    assert(texts.take(texts.len() as int) =~= texts);
    assert(calls.take(calls.len() as int) =~= calls);
    assert(thought(think) + texts + calls =~= m.content);
    let s0 = lane_losses(l, msg_ptr);
    let f = FieldsV { blocks: thought(think), ns: Seq::empty(), warnings: ws };
    answer_content_round_trip(texts, msg_ptr, s0, f, loc);
    answer_content_round_trip(texts, msg_ptr, s0, f, at);
    let (content, s1) = assistant_content(texts, msg_ptr, s0);
    answer_is_written(l, content, think);
    let t = answer_members(content, think, l.calls);
    no_data_is_merged(JsonV::Object(t), s1, l.extras, msg_ptr, l.extras.len());
    nothing_is_carried(JsonV::Object(t), s1, texts, msg_ptr, texts.len());
    answer_is_decoded(content, think, l.calls, m.extra);
    answer_fields(m, think, texts, calls, content, l.calls, loc, ws);
    answer_fields(m, think, texts, calls, content, l.calls, at, ws);
    assert(l.content == texts);
    let ns = extra_ns(m.extra, OPENAI_CHAT_COMPLETIONS@);
    let (v, s4) = assistant_message(m, mi, as_text, msg_ptr, s)->Ok_0;
    assert(v == JsonV::Object(t + ns));
}

} // verus!
