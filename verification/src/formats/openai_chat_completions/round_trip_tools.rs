//! Laws: tool messages, tools and settings are read back from what they
//! become.

use vstd::prelude::*;
use crate::convert::{ConversionWarningV, ConvertOptionsV};
use crate::error::ConversionErrorV;
use crate::format::OPENAI_CHAT_COMPLETIONS;
use crate::formats::openai_chat_completions::content::{output_parts, output_step, tool_content};
use crate::formats::openai_chat_completions::from_ir::{effort_field, function_tool, response_format, tool_choice_value, tool_added};
use crate::formats::openai_chat_completions::messages::{chat_step, chat_steps, tool_messages, tool_step, tool_steps, verbatim, wire_ptr, ChatV};
use crate::formats::openai_chat_completions::parse_messages::{answered_content, parsed_message, parsed_messages, tool_of as tool_message_of};
use crate::formats::openai_chat_completions::parse_parts::{output_block, output_blocks, part_type};
use crate::formats::openai_chat_completions::round_trip::{input_message_round_trip, message_names, part_names, plain_input_message, role_names, tidy};
use crate::formats::openai_chat_completions::round_trip_calls::{assistant_message_round_trip, plain_assistant};
use crate::formats::openai_chat_completions::to_ir::{choice_of, effort_of, format_of, schema_format, tool_of};
use crate::formats::openai_chat_completions::types;
use crate::ir::{effort_name, effort_name_round_trip, effort_named, extra_get, extra_has, extra_ns, text_output, ContentBlockV, EffortV, FunctionToolV, MessageV, OutputFormatV, ReasoningV, Role, ToolChoiceV, ToolOutputBlockV, ToolV};
use crate::json::{obj_get, obj_remove, JsonV, ObjV};
use crate::namespaces::{absent, absent_is_not_read, extended_nothing, first_named_is_read, namespace_holds_its_members, not_there, provider_data_survives, there, unmodeled_members_are_kept, within};
use crate::sink::SinkV;
use crate::text::decimal;

verus! {

/// A block that the output of a tool can carry on this format.
pub open spec fn plain_output(b: ToolOutputBlockV) -> bool {
    match b {
        ToolOutputBlockV::Text { text, cache, extra } => cache is None && tidy(extra, types::text_part_keys()),
        ToolOutputBlockV::Opaque { format, value } => format == OPENAI_CHAT_COMPLETIONS@ && part_type(value) != Some(
            "text"@,
        ),
        _ => false,
    }
}

/// All blocks can be carried.
pub open spec fn plain_outputs(blocks: Seq<ToolOutputBlockV>) -> bool {
    forall|i: int| 0 <= i < blocks.len() ==> plain_output(#[trigger] blocks[i])
}

/// A block of tool output is read back from the part that it becomes.
pub proof fn output_block_round_trip(st: (Seq<JsonV>, SinkV), b: ToolOutputBlockV, msg_ptr: Seq<char>)
    requires
        plain_output(b),
    ensures
        ({
            let (parts, s) = output_step(st, b, msg_ptr);
            &&& parts.len() == st.0.len() + 1
            &&& parts.drop_last() == st.0
            &&& s.warnings == st.1.warnings
            &&& output_block(parts.last()) == b
        }),
{
    match b {
        ToolOutputBlockV::Text { text, cache, extra } => {
            part_names();
            let known = types::text_part_keys();
            assert(known[0] == "type"@ && known[1] == "text"@ && known[2] == "prompt_cache_breakpoint"@);
            let ns = extra_ns(extra, OPENAI_CHAT_COMPLETIONS@);
            let t = seq![("type"@, JsonV::Str("text"@)), ("text"@, JsonV::Str(text))];
            assert(within(t, known));
            provider_data_survives(OPENAI_CHAT_COMPLETIONS@, t, ns, known);
            there(t, ns, "type"@, 0);
            there(t, ns, "text"@, 1);
            not_there(t, ns, known, "prompt_cache_breakpoint"@);
            assert(part_type(JsonV::Object(t + ns)) == Some("text"@));
        },
        _ => {},
    }
    let (parts, s) = output_step(st, b, msg_ptr);
    assert(parts.drop_last() =~= st.0);
}

proof fn output_parts_round_trip(blocks: Seq<ToolOutputBlockV>, msg_ptr: Seq<char>, s: SinkV, n: nat)
    requires
        n <= blocks.len(),
        plain_outputs(blocks),
    ensures
        ({
            let (parts, s1) = output_parts(blocks, msg_ptr, s, n);
            &&& parts.len() == n
            &&& s1.warnings == s.warnings
            &&& forall|i: int| 0 <= i < n ==> output_block(#[trigger] parts[i]) == blocks[i]
        }),
    decreases n,
{
    if n > 0 {
        output_parts_round_trip(blocks, msg_ptr, s, (n - 1) as nat);
        let prev = output_parts(blocks, msg_ptr, s, (n - 1) as nat);
        assert(plain_output(blocks[n - 1]));
        output_block_round_trip(prev, blocks[n - 1], msg_ptr);
        let (parts, s1) = output_parts(blocks, msg_ptr, s, n);
        assert forall|i: int| 0 <= i < n implies output_block(#[trigger] parts[i]) == blocks[i] by {
            if i < n - 1 {
                assert(parts.drop_last()[i] == parts[i]);
                assert(output_block(prev.0[i]) == blocks[i]);
            } else {
                assert(parts[i] == parts.last());
            }
        }
    }
}

/// The output of a tool is read back from the content that it becomes.
pub proof fn tool_content_round_trip(
    blocks: Seq<ToolOutputBlockV>,
    msg_ptr: Seq<char>,
    s: SinkV,
    at: Seq<char>,
    ns: ObjV,
    ws: Seq<ConversionWarningV>,
)
    requires
        plain_outputs(blocks),
    ensures
        ({
            let (v, s1) = tool_content(blocks, msg_ptr, s);
            &&& !(v is Null)
            &&& s1.warnings == s.warnings
            &&& answered_content(Some(v), at, ns, ws) == (blocks, ns, ws)
        }),
{
    if blocks.len() == 0 {
        assert(blocks =~= Seq::<ToolOutputBlockV>::empty());
    } else {
        assert(plain_output(blocks[0]));
        if blocks.len() == 1 && blocks[0] is Text && blocks[0]->Text_text.len() > 0 && !extra_has(
            blocks[0]->Text_extra,
            OPENAI_CHAT_COMPLETIONS@,
        ) {
            let ns0 = extra_ns(blocks[0]->Text_extra, OPENAI_CHAT_COMPLETIONS@);
            namespace_holds_its_members(OPENAI_CHAT_COMPLETIONS@, ns0);
            assert(blocks =~= seq![text_output(blocks[0]->Text_text)]);
        } else {
            output_parts_round_trip(blocks, msg_ptr, s, blocks.len());
            let (parts, s1) = output_parts(blocks, msg_ptr, s, blocks.len());
            assert(output_blocks(parts) =~= blocks);
        }
    }
}

/// A tool message of one result that this format can carry.
pub open spec fn plain_tool_message(m: MessageV) -> bool {
    &&& m.role == Role::Tool
    &&& m.content.len() == 1
    &&& m.extra == Seq::<(Seq<char>, ObjV)>::empty()
    &&& m.round_trip is None
    &&& match m.content[0] {
        ContentBlockV::ToolResult { tool_call_id, name, content, is_error, cache, extra } => tool_call_id is Some
            && plain_outputs(content) && is_error is None && cache is None && tidy(extra, types::message_keys()),
        _ => false,
    }
}

/// A tool message of one result is read back from the wire message that it
/// becomes, without a warning on either side.
pub proof fn tool_message_round_trip(c: ChatV, m: MessageV, mi: nat, i: nat, ws: Seq<ConversionWarningV>)
    requires
        plain_tool_message(m),
    ensures
        match tool_messages(c, m, mi) {
            Ok(d) => d.wire.len() == c.wire.len() + 1 && d.wire.drop_last() == c.wire && d.sink.warnings
                == c.sink.warnings && parsed_message(d.wire.last(), i, ws) == (m, ws),
            Err(_) => false,
        },
{
    message_names();
    role_names();
    reveal(extra_get);
    let ptr = wire_ptr(c.wire.len());
    let at = "/messages/"@ + decimal(i);
    let known = types::message_keys();
    assert(known[0] == "role"@ && known[1] == "content"@ && known[2] == "reasoning_content"@ && known[3] == "refusal"@
        && known[4] == "tool_calls"@ && known[5] == "tool_call_id"@ && known[6] == "name"@);
    let b = m.content[0];
    match b {
        ContentBlockV::ToolResult { tool_call_id, name, content, is_error, cache, extra } => {
            let id = tool_call_id->0;
            let ns = extra_ns(extra, OPENAI_CHAT_COMPLETIONS@);
            let none = Seq::<(Seq<char>, JsonV)>::empty();
            tool_content_round_trip(content, ptr, c.sink, at, none, ws);
            let (v, s2) = tool_content(content, ptr, c.sink);
            let t0 = seq![("role"@, JsonV::Str("tool"@)), ("tool_call_id"@, JsonV::Str(id)), ("content"@, v)];
            let t = match name {
                Some(x) => t0.push(("name"@, JsonV::Str(x))),
                None => t0,
            };
            if name is Some {
                absent_is_not_read(t0, "name"@, JsonV::Str(name->0));
            }
            assert(within(t, known));
            provider_data_survives(OPENAI_CHAT_COMPLETIONS@, t, ns, known);
            there(t, ns, "role"@, 0);
            there(t, ns, "tool_call_id"@, 1);
            there(t, ns, "content"@, 2);
            if name is Some {
                there(t, ns, "name"@, 3);
            } else {
                not_there(t, ns, known, "name"@);
            }
            not_there(t, ns, known, "reasoning_content"@);
            not_there(t, ns, known, "refusal"@);
            not_there(t, ns, known, "tool_calls"@);
            let w = types::MessageV {
                role: Some("tool"@),
                content: Some(v),
                reasoning_content: None,
                refusal: None,
                tool_calls: None,
                tool_call_id: Some(JsonV::Str(id)),
                name: match name {
                    Some(x) => Some(JsonV::Str(x)),
                    None => None,
                },
                extra: ns,
            };
            let o = t + ns;
            assert(types::decode_message(JsonV::Object(o)) == Ok::<types::MessageV, Seq<char>>(w));
            extended_nothing(ns);
            assert(tool_steps(c, m, mi, 0) == Ok::<ChatV, ConversionErrorV>(c));
            let d1 = tool_step(c, b, mi, 0)->Ok_0;
            assert(tool_steps(c, m, mi, 1) == Ok::<ChatV, ConversionErrorV>(d1));
            assert(d1.wire.last() == JsonV::Object(o));
            let d = tool_messages(c, m, mi)->Ok_0;
            assert(d.wire =~= d1.wire);
            assert(d.wire.drop_last() =~= c.wire);
            assert(m.content =~= seq![b]);
            assert(tool_message_of(w, at, ws) == (m, ws));
        },
        _ => {},
    }
}

/// A tool choice is read back from the value that it becomes.
pub proof fn tool_choice_round_trip(choice: ToolChoiceV, ns: ObjV)
    ensures
        choice_of(Some(tool_choice_value(choice)), ns) == (Some(choice), ns),
{
    reveal_strlit("auto");
    reveal_strlit("none");
    reveal_strlit("required");
    assert("auto"@[0] != "none"@[0]);
    assert("auto"@.len() == 4 && "none"@.len() == 4 && "required"@.len() == 8);
    match choice {
        ToolChoiceV::Tool { name } => {
            reveal_strlit("type");
            reveal_strlit("function");
            assert("type"@.len() == 4 && "function"@.len() == 8);
            let f = seq![("name"@, JsonV::Str(name))];
            let o = seq![("type"@, JsonV::Str("function"@)), ("function"@, JsonV::Object(f))];
            first_named_is_read(o, "type"@, 0);
            first_named_is_read(o, "function"@, 1);
            first_named_is_read(f, "name"@, 0);
            assert(part_type(JsonV::Object(o)) == Some("function"@));
        },
        _ => {},
    }
}

/// A function tool is read back from the definition that it becomes.
pub proof fn tool_round_trip(f: FunctionToolV, st: (Seq<JsonV>, SinkV), i: nat, ws: Seq<ConversionWarningV>)
    requires
        f.cache is None,
        f.parameters != Some(JsonV::Null),
        tidy(f.extra, types::function_tool_def_keys()),
    ensures
        ({
            let (out, s) = tool_added(st, ToolV::Function(f));
            &&& out.len() == st.0.len() + 1
            &&& s.warnings == st.1.warnings
            &&& tool_of(out.last(), i, ws) == (ToolV::Function(f), ws)
        }),
{
    reveal_strlit("type");
    reveal_strlit("function");
    reveal_strlit("name");
    reveal_strlit("description");
    reveal_strlit("parameters");
    reveal_strlit("strict");
    assert("type"@.len() == 4 && "function"@.len() == 8);
    assert("name"@.len() == 4 && "description"@.len() == 11 && "parameters"@.len() == 10 && "strict"@.len() == 6);
    let none = Seq::<(Seq<char>, JsonV)>::empty();
    // The definition of the function.
    absent_is_not_read(none, "name"@, JsonV::Str(f.name));
    let o0 = none.push(("name"@, JsonV::Str(f.name)));
    let o1 = match f.description {
        Some(d) => o0.push(("description"@, JsonV::Str(d))),
        None => o0,
    };
    let o2 = match f.parameters {
        Some(p) => o1.push(("parameters"@, p)),
        None => o1,
    };
    let o3 = match f.strict {
        Some(b) => o2.push(("strict"@, JsonV::Bool(b))),
        None => o2,
    };
    if f.description is Some {
        absent_is_not_read(o0, "description"@, JsonV::Str(f.description->0));
    }
    if f.parameters is Some {
        absent_is_not_read(o1, "parameters"@, f.parameters->0);
    }
    if f.strict is Some {
        absent_is_not_read(o2, "strict"@, JsonV::Bool(f.strict->0));
    }
    let fk = types::function_def_keys();
    assert(fk[0] == "name"@ && fk[1] == "description"@ && fk[2] == "parameters"@ && fk[3] == "strict"@);
    assert(within(o3, fk));
    unmodeled_members_are_kept(o3, none, fk);
    assert(o3 + none =~= o3);
    let d: int = if f.description is Some { 1 } else { 0 };
    let p: int = if f.parameters is Some { 1 } else { 0 };
    there(o3, none, "name"@, 0);
    if f.description is Some {
        there(o3, none, "description"@, 1);
    } else {
        not_there(o3, none, fk, "description"@);
    }
    if f.parameters is Some {
        there(o3, none, "parameters"@, 1 + d);
    } else {
        not_there(o3, none, fk, "parameters"@);
    }
    if f.strict is Some {
        there(o3, none, "strict"@, 1 + d + p);
    } else {
        not_there(o3, none, fk, "strict"@);
    }
    let def = types::FunctionDefV {
        name: f.name,
        description: f.description,
        parameters: f.parameters,
        strict: f.strict,
        extra: none,
    };
    assert(types::decode_function_def(JsonV::Object(o3)) == Ok::<types::FunctionDefV, Seq<char>>(def));
    // The tool around it.
    let known = types::function_tool_def_keys();
    assert(known[0] == "type"@ && known[1] == "function"@);
    let ns = extra_ns(f.extra, OPENAI_CHAT_COMPLETIONS@);
    let t = seq![("type"@, JsonV::Str("function"@)), ("function"@, JsonV::Object(o3))];
    assert(function_tool(f) == JsonV::Object(t));
    assert(within(t, known));
    provider_data_survives(OPENAI_CHAT_COMPLETIONS@, t, ns, known);
    there(t, ns, "type"@, 0);
    there(t, ns, "function"@, 1);
    let o = t + ns;
    assert(part_type(JsonV::Object(o)) == Some("function"@));
    assert(types::decode_function_tool_def(JsonV::Object(o)) == Ok::<types::FunctionToolDefV, Seq<char>>(
        types::FunctionToolDefV { tool_type: Some("function"@), function: def, extra: ns },
    ));
}

/// An effort tier alone is read back from the field that it becomes.
pub proof fn effort_round_trip(e: EffortV)
    requires
        e is Other ==> effort_named(effort_name(e)) == e,
    ensures
        ({
            let r = ReasoningV { enabled: None, effort: Some(e), include_thoughts: None, extra: Seq::empty() };
            effort_of(effort_field(r)) == Some(r)
        }),
{
    effort_name_round_trip(e);
}

pub proof fn removed_at(o: ObjV, k: Seq<char>, i: int)
    requires
        0 <= i < o.len(),
        o[i].0 == k,
        forall|j: int| 0 <= j < i ==> (#[trigger] o[j]).0 != k,
    ensures
        obj_get(o, k) == Some(o[i].1),
        obj_remove(o, k) == o.remove(i),
{
    first_named_is_read(o, k, i);
    reveal(obj_remove);
}

/// Structured output is read back from the field that it becomes. A schema has
/// a name: without one, the build side gives it a name.
pub proof fn output_format_round_trip(f: OutputFormatV, ns: ObjV)
    requires
        f is JsonSchema ==> f->JsonSchema_name is Some,
    ensures
        format_of(Some(response_format(f)), ns) == (Some(f), ns),
{
    reveal_strlit("type");
    reveal_strlit("json_schema");
    reveal_strlit("json_object");
    reveal_strlit("name");
    reveal_strlit("schema");
    reveal_strlit("description");
    reveal_strlit("strict");
    assert("json_schema"@[5] != "json_object"@[5]);
    assert("schema"@[1] != "strict"@[1]);
    assert("type"@.len() == 4 && "json_schema"@.len() == 11 && "json_object"@.len() == 11);
    assert("name"@.len() == 4 && "schema"@.len() == 6 && "description"@.len() == 11 && "strict"@.len() == 6);
    let none = Seq::<(Seq<char>, JsonV)>::empty();
    match f {
        OutputFormatV::JsonSchema { name, description, schema, strict } => {
            let n = name->0;
            let o0 = seq![("name"@, JsonV::Str(n)), ("schema"@, schema)];
            let o1 = match description {
                Some(d) => o0.push(("description"@, JsonV::Str(d))),
                None => o0,
            };
            let o2 = match strict {
                Some(b) => o1.push(("strict"@, JsonV::Bool(b))),
                None => o1,
            };
            if description is Some {
                absent_is_not_read(o0, "description"@, JsonV::Str(description->0));
            }
            if strict is Some {
                absent_is_not_read(o1, "strict"@, JsonV::Bool(strict->0));
            }
            let outer = seq![("type"@, JsonV::Str("json_schema"@)), ("json_schema"@, JsonV::Object(o2))];
            assert(response_format(f) == JsonV::Object(outer));
            first_named_is_read(outer, "type"@, 0);
            first_named_is_read(outer, "json_schema"@, 1);
            first_named_is_read(o2, "schema"@, 1);
            // The members go one by one.
            removed_at(o2, "name"@, 0);
            let l1 = o2.remove(0);
            assert(l1[0] == ("schema"@, schema));
            if description is Some {
                assert(l1[1] == ("description"@, JsonV::Str(description->0)));
                removed_at(l1, "description"@, 1);
            } else {
                assert(absent(l1, "description"@));
                absent_is_not_read(l1, "description"@, JsonV::Null);
            }
            let l2 = if description is Some { l1.remove(1) } else { l1 };
            assert(l2[0] == ("schema"@, schema));
            removed_at(l2, "schema"@, 0);
            let l3 = l2.remove(0);
            if strict is Some {
                assert(l3.len() == 1);
                assert(l3[0] == ("strict"@, JsonV::Bool(strict->0)));
                removed_at(l3, "strict"@, 0);
                assert(l3.remove(0) =~= none);
            } else {
                assert(l3 =~= none);
                absent_is_not_read(l3, "strict"@, JsonV::Null);
            }
            // Nothing is left outside either.
            removed_at(outer, "type"@, 0);
            let m1 = outer.remove(0);
            assert(m1[0].0 == "json_schema"@);
            removed_at(m1, "json_schema"@, 0);
            assert(m1.remove(0) =~= none);
            assert(schema_format(outer, o2, ns) == (f, ns));
        },
        OutputFormatV::JsonObject => {
            let o = seq![("type"@, JsonV::Str("json_object"@))];
            removed_at(o, "type"@, 0);
            assert(o.remove(0) =~= none);
            assert(part_type(JsonV::Object(o)) == Some("json_object"@));
        },
    }
}

/// A message that this format can carry.
pub open spec fn plain_message_of(m: MessageV) -> bool {
    verbatim(m) is None && (plain_input_message(m) || plain_tool_message(m) || exists|
        think: Option<Seq<char>>,
        texts: Seq<ContentBlockV>,
        calls: Seq<ContentBlockV>,
    | #[trigger] plain_assistant(m, think, texts, calls))
}

/// One message is read back from the wire message that it becomes.
pub proof fn message_round_trip(c: ChatV, m: MessageV, mi: nat, conv: ConvertOptionsV, i: nat, ws: Seq<ConversionWarningV>)
    requires
        plain_message_of(m),
        !conv.downgrade_developer,
    ensures
        match chat_step(c, m, mi, conv) {
            Ok(d) => d.wire.len() == c.wire.len() + 1 && d.wire.drop_last() == c.wire && d.sink.warnings
                == c.sink.warnings && parsed_message(d.wire.last(), i, ws) == (m, ws),
            Err(_) => false,
        },
{
    if plain_input_message(m) {
        input_message_round_trip(c, m, mi, i, ws);
    } else if plain_tool_message(m) {
        tool_message_round_trip(c, m, mi, i, ws);
    } else {
        let (think, texts, calls) = choose|
            think: Option<Seq<char>>,
            texts: Seq<ContentBlockV>,
            calls: Seq<ContentBlockV>,
        | #[trigger] plain_assistant(m, think, texts, calls);
        let ptr = wire_ptr(c.wire.len());
        assistant_message_round_trip(
            m,
            think,
            texts,
            calls,
            mi,
            conv.thinking_as_text,
            ptr,
            c.sink,
            i,
            ptr,
            ws,
        );
        let d = chat_step(c, m, mi, conv)->Ok_0;
        assert(d.wire.drop_last() =~= c.wire);
    }
}

proof fn parsed_messages_prefix(a: Seq<JsonV>, b: Seq<JsonV>, ws: Seq<ConversionWarningV>, n: nat)
    requires
        n <= a.len(),
        n <= b.len(),
        forall|i: int| 0 <= i < n ==> (#[trigger] a[i]) == b[i],
    ensures
        parsed_messages(a, ws, n) == parsed_messages(b, ws, n),
    decreases n,
{
    if n > 0 {
        parsed_messages_prefix(a, b, ws, (n - 1) as nat);
    }
}

/// A conversation is read back from the wire messages that it becomes, without
/// a warning on either side.
pub proof fn history_round_trip(
    msgs: Seq<MessageV>,
    conv: ConvertOptionsV,
    s: SinkV,
    n: nat,
    ws: Seq<ConversionWarningV>,
)
    requires
        n <= msgs.len(),
        forall|i: int| 0 <= i < msgs.len() ==> plain_message_of(#[trigger] msgs[i]),
        !conv.downgrade_developer,
    ensures
        match chat_steps(ChatV { wire: Seq::empty(), pointers: Seq::empty(), sink: s }, msgs, conv, n) {
            Ok(c) => c.wire.len() == n && c.sink.warnings == s.warnings && parsed_messages(c.wire, ws, n) == (
                msgs.take(n as int),
                ws,
            ),
            Err(_) => false,
        },
    decreases n,
{
    let start = ChatV { wire: Seq::empty(), pointers: Seq::empty(), sink: s };
    if n == 0 {
        assert(msgs.take(0) =~= Seq::<MessageV>::empty());
    } else {
        let p = (n - 1) as nat;
        history_round_trip(msgs, conv, s, p, ws);
        let prev = chat_steps(start, msgs, conv, p)->Ok_0;
        assert(plain_message_of(msgs[p as int]));
        message_round_trip(prev, msgs[p as int], p, conv, p, ws);
        let c = chat_steps(start, msgs, conv, n)->Ok_0;
        assert forall|i: int| 0 <= i < p implies (#[trigger] prev.wire[i]) == c.wire[i] by {
            assert(c.wire.drop_last()[i] == c.wire[i]);
        }
        parsed_messages_prefix(prev.wire, c.wire, ws, p);
        assert(c.wire[p as int] == c.wire.last());
        assert(msgs.take(p as int).push(msgs[p as int]) =~= msgs.take(n as int));
    }
}

} // verus!
