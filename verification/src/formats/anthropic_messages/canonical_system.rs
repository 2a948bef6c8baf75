//! Laws: system prompts and tool definitions in their canonical form.

use vstd::prelude::*;
use crate::formats::anthropic_messages::round_trip::kind_names;
use crate::error::ConversionErrorV;
use crate::convert::ConversionWarningV;
use crate::decode::{unknown, unknown_upto};
use crate::format::ANTHROPIC_MESSAGES;
use crate::formats::anthropic_messages::canonical_blocks::{bare_block, block_settles, decoded_cache_is_apart, read_anywhere, read_value, steady_block, written};
use crate::formats::anthropic_messages::canonical_nodes::{node_is_read, node_is_written, node_shape, node_value, settled_cache};
use crate::formats::anthropic_messages::from_ir::{function_tool, tool_values};
use crate::formats::anthropic_messages::parse_blocks::{leftover, split_cache, type_of};
use crate::formats::anthropic_messages::system::{entry_value, entry_values, extra_at, hoist_all, hoist_blocks, hoist_message, prompt_entries, system_value, text_entry, EntryV, HoistV};
use crate::formats::anthropic_messages::to_ir::{all_text, parsed_tool, parsed_tools, system_channel, system_entries};
use crate::formats::anthropic_messages::types::{decode_function_tool_param, function_tool_param_keys, FunctionToolParamV, SystemPromptV};
use crate::ir::{extra_get, extra_has, extra_merged, non_null, plain_message, text_block, ContentBlockV, FunctionToolV, MessageV, Role, ToolV};
use crate::json::{json_as_str, obj_get, obj_index, obj_index_props, obj_wf, put_if, JsonV, ObjV};
use crate::namespaces::{foreign_data_is_not_merged, names_differ, put_all, put_fields_are_known, put_fields_are_named, put_fields_are_read, unknown_avoids};
use crate::sink::SinkV;
use crate::sweep::{kept, swept_member_is_read};
use crate::text::decimal;

verus! {

/// The blocks of a system prompt.
pub open spec fn prompt_blocks(p: SystemPromptV) -> Seq<ContentBlockV> {
    match p {
        SystemPromptV::Text(t) => seq![text_block(t)],
        SystemPromptV::Blocks(a) => Seq::new(a.len(), |i: int| read_value(Role::System, a[i])),
    }
}

proof fn entries_are_blocks(a: Seq<JsonV>, ws: Seq<ConversionWarningV>, n: nat)
    requires
        n <= a.len(),
    ensures
        system_entries(a, ws, n).0 == Seq::new(n, |i: int| read_value(Role::System, a[i])),
    decreases n,
{
    if n > 0 {
        entries_are_blocks(a, ws, (n - 1) as nat);
        let ws1 = system_entries(a, ws, (n - 1) as nat).1;
        read_anywhere(a[n - 1], "/system/"@ + decimal((n - 1) as nat), ws1);
    }
    assert(system_entries(a, ws, n).0 =~= Seq::new(n, |i: int| read_value(Role::System, a[i])));
}

/// A system prompt is parsed to its blocks.
pub proof fn prompt_is_parsed(p: SystemPromptV, ws: Seq<ConversionWarningV>)
    ensures
        system_channel(p, ws).0 == prompt_blocks(p),
{
    match p {
        SystemPromptV::Blocks(a) => {
            entries_are_blocks(a, ws, a.len());
        },
        _ => {},
    }
}

/// A block that a system prompt can have.
pub open spec fn system_block(b: ContentBlockV) -> bool {
    match b {
        ContentBlockV::Text { .. } => true,
        ContentBlockV::Opaque { format, value } => format == ANTHROPIC_MESSAGES@,
        _ => false,
    }
}

/// All blocks are ones that a system prompt can have.
pub open spec fn are_system_blocks(blocks: Seq<ContentBlockV>) -> bool {
    forall|i: int| 0 <= i < blocks.len() ==> system_block(#[trigger] blocks[i])
}

/// The value of a block of a system prompt.
pub open spec fn system_json(b: ContentBlockV) -> JsonV {
    written(Role::System, b, false)->0->0
}

/// The canonical form of a system prompt: text alone where that is all, else an
/// array.
pub open spec fn canonical_blocks(blocks: Seq<ContentBlockV>) -> Option<JsonV> {
    if blocks.len() == 0 {
        None
    } else if blocks.len() == 1 && bare_block(blocks[0]) {
        Some(JsonV::Str(blocks[0]->Text_text))
    } else {
        Some(JsonV::Array(Seq::new(blocks.len(), |i: int| system_json(blocks[i]))))
    }
}

spec fn entry_of(b: ContentBlockV) -> EntryV {
    match b {
        ContentBlockV::Text { text, cache, extra } => text_entry(text, cache, extra),
        ContentBlockV::Opaque { format, value } => EntryV { value, extra: None, plain: None },
        _ => arbitrary(),
    }
}

spec fn entries_of(blocks: Seq<ContentBlockV>, n: nat) -> Seq<EntryV> {
    Seq::new(n, |i: int| entry_of(blocks[i]))
}

proof fn text_is_entered(blocks: Seq<ContentBlockV>, n: nat)
    requires
        n <= blocks.len(),
        all_text(blocks),
    ensures
        prompt_entries(blocks, n) == Ok::<Seq<EntryV>, ConversionErrorV>(entries_of(blocks, n)),
    decreases n,
{
    if n > 0 {
        text_is_entered(blocks, (n - 1) as nat);
        assert(blocks[n - 1] is Text);
        assert(entries_of(blocks, n) =~= entries_of(blocks, (n - 1) as nat).push(entry_of(blocks[n - 1])));
    } else {
        assert(entries_of(blocks, 0) =~= Seq::<EntryV>::empty());
    }
}

proof fn blocks_are_hoisted(h: HoistV, m: MessageV, i: nat, n: nat)
    requires
        n <= m.content.len(),
        are_system_blocks(m.content),
        h.entries.len() == 0,
    ensures
        hoist_blocks(h, m, i, n) == Ok::<HoistV, ConversionErrorV>(
            HoistV { entries: entries_of(m.content, n), ..h },
        ),
    decreases n,
{
    if n > 0 {
        blocks_are_hoisted(h, m, i, (n - 1) as nat);
        assert(system_block(m.content[n - 1]));
        assert(entries_of(m.content, n) =~= entries_of(m.content, (n - 1) as nat).push(entry_of(m.content[n - 1])));
    } else {
        assert(entries_of(m.content, 0) =~= h.entries);
    }
}

proof fn entries_are_written(blocks: Seq<ContentBlockV>, s: SinkV, n: nat)
    requires
        n <= blocks.len(),
        are_system_blocks(blocks),
    ensures
        entry_values(entries_of(blocks, blocks.len()), Seq::empty(), s, n).0 == Seq::new(
            n,
            |i: int| system_json(blocks[i]),
        ),
    decreases n,
{
    let all = entries_of(blocks, blocks.len());
    if n > 0 {
        entries_are_written(blocks, s, (n - 1) as nat);
        let b = blocks[n - 1];
        assert(system_block(b));
        assert(all[n - 1] == entry_of(b));
        let prev = entry_values(all, Seq::empty(), s, (n - 1) as nat);
        assert(extra_at(Seq::empty(), (n - 1) as nat, 0) is None);
        assert(entry_value(all[n - 1], Seq::empty(), (n - 1) as nat, prev.1).0 == system_json(b));
    }
    assert(entry_values(all, Seq::empty(), s, n).0 =~= Seq::new(n, |i: int| system_json(blocks[i])));
}

/// A system prompt of text becomes its canonical form.
pub proof fn text_prompt_is_written(blocks: Seq<ContentBlockV>, msgs: Seq<MessageV>, s: SinkV)
    requires
        all_text(blocks),
        blocks.len() > 0,
    ensures
        match system_value(Some(blocks), msgs, Seq::empty(), s) {
            Ok((v, _)) => v == canonical_blocks(blocks),
            Err(_) => false,
        },
{
    let n = blocks.len();
    assert(are_system_blocks(blocks));
    text_is_entered(blocks, n);
    let entries = entries_of(blocks, n);
    let h = HoistV { entries, extras: Seq::empty(), warnings: Seq::empty() };
    assert(hoist_all(h, msgs, Seq::empty(), 0) == Ok::<HoistV, ConversionErrorV>(h));
    entries_are_written(blocks, SinkV { warnings: s.warnings + h.warnings, log: s.log }, n);
    assert(entries[0] == entry_of(blocks[0]));
}

/// A system prompt that leads the history becomes its canonical form.
pub proof fn leading_prompt_is_written(blocks: Seq<ContentBlockV>, msgs: Seq<MessageV>, s: SinkV)
    requires
        are_system_blocks(blocks),
        blocks.len() > 0,
        msgs.len() > 0,
        msgs[0] == plain_message(Role::System, blocks),
    ensures
        match system_value(None, msgs, seq![0usize], s) {
            Ok((v, _)) => v == canonical_blocks(blocks),
            Err(_) => false,
        },
{
    let n = blocks.len();
    let hoisted = seq![0usize];
    let h0 = HoistV { entries: Seq::empty(), extras: Seq::empty(), warnings: Seq::empty() };
    blocks_are_hoisted(h0, msgs[0], 0, n);
    let entries = entries_of(blocks, n);
    let h = HoistV { entries, ..h0 };
    foreign_data_is_not_merged(msgs[0].extra, ANTHROPIC_MESSAGES@, JsonV::Null);
    reveal(extra_get);
    assert(!extra_has(msgs[0].extra, ANTHROPIC_MESSAGES@));
    assert(hoist_message(h0, msgs[0], 0) == Ok::<HoistV, ConversionErrorV>(h));
    assert(hoist_all(h0, msgs, hoisted, 0) == Ok::<HoistV, ConversionErrorV>(h0));
    assert(hoist_all(h0, msgs, hoisted, 1) == Ok::<HoistV, ConversionErrorV>(h));
    entries_are_written(blocks, SinkV { warnings: s.warnings + h.warnings, log: s.log }, n);
    assert(entries[0] == entry_of(blocks[0]));
}

/// The blocks of a system prompt are ones that it can have.
pub proof fn prompts_have_system_blocks(p: SystemPromptV)
    ensures
        are_system_blocks(prompt_blocks(p)),
{
}

/// The prompt that a canonical form stands for.
pub open spec fn prompt_of(v: Option<JsonV>) -> Option<SystemPromptV> {
    match v {
        Some(JsonV::Str(t)) => Some(SystemPromptV::Text(t)),
        Some(JsonV::Array(a)) => Some(SystemPromptV::Blocks(a)),
        _ => None,
    }
}

/// A system prompt stays in its canonical form: the same blocks are text, and
/// the same form comes of them.
pub proof fn prompt_settles(p: SystemPromptV)
    ensures
        ({
            let v = canonical_blocks(prompt_blocks(p));
            match prompt_of(v) {
                Some(q) => {
                    &&& v is Some
                    &&& canonical_blocks(prompt_blocks(q)) == v
                    &&& all_text(prompt_blocks(q)) == all_text(prompt_blocks(p))
                    &&& prompt_blocks(q).len() == prompt_blocks(p).len()
                },
                None => v is None && prompt_blocks(p).len() == 0,
            }
        }),
{
    reveal(extra_get);
    let blocks = prompt_blocks(p);
    let v = canonical_blocks(blocks);
    match v {
        Some(JsonV::Array(u)) => {
            let again = prompt_blocks(SystemPromptV::Blocks(u));
            match p {
                SystemPromptV::Blocks(a) => {
                    assert forall|i: int| 0 <= i < u.len() implies system_json(#[trigger] again[i]) == u[i]
                        && bare_block(again[i]) == bare_block(blocks[i]) && (again[i] is Text) == (blocks[i] is Text) by {
                        let x = a[i];
                        assert(blocks[i] == read_value(Role::System, x));
                        if type_of(x) == Some("text"@) {
                            kind_names();
                            assert(steady_block(x, false));
                            block_settles(Role::System, x, false);
                            assert(u[i] == system_json(blocks[i]));
                        } else {
                            assert(u[i] == x);
                        }
                    }
                    assert(Seq::new(again.len(), |i: int| system_json(again[i])) =~= u);
                    if all_text(blocks) {
                        assert forall|i: int| 0 <= i < again.len() implies (#[trigger] again[i]) is Text by {
                            assert(blocks[i] is Text);
                        }
                    }
                    if all_text(again) {
                        assert forall|i: int| 0 <= i < blocks.len() implies (#[trigger] blocks[i]) is Text by {
                            assert(again[i] is Text);
                        }
                    }
                    if u.len() == 1 {
                        assert(bare_block(again[0]) == bare_block(blocks[0]));
                    }
                },
                _ => {
                    assert(bare_block(blocks[0]));
                },
            }
        },
        Some(JsonV::Str(t)) => {
            let again = prompt_blocks(SystemPromptV::Text(t));
            assert(bare_block(again[0]));
            assert(blocks[0] is Text);
        },
        _ => {},
    }
}

/// The value of a tool definition.
pub open spec fn tool_json(t: ToolV) -> JsonV {
    match t {
        ToolV::Function(f) => extra_merged(f.extra, ANTHROPIC_MESSAGES@, function_tool(f)),
        ToolV::Opaque { format, value } => value,
    }
}

/// The tool that a definition stands for.
pub open spec fn tool_of(j: JsonV) -> ToolV {
    parsed_tool(j, 0, Seq::empty()).0
}

/// A definition that keeps its canonical form names each member once.
pub open spec fn steady_tool(j: JsonV) -> bool {
    match j {
        JsonV::Object(o) => obj_wf(o),
        _ => true,
    }
}

/// The members of `a` are members of `b`, and each is there once.
pub open spec fn drawn_from(a: ObjV, b: ObjV, n: nat) -> bool {
    &&& obj_wf(a)
    &&& forall|i: int| 0 <= i < a.len() ==> exists|k: int| 0 <= k < n && (#[trigger] a[i]) == (#[trigger] b[k])
}

pub proof fn unknown_is_drawn(o: ObjV, known: Seq<Seq<char>>, n: nat)
    requires
        obj_wf(o),
        n <= o.len(),
    ensures
        drawn_from(unknown_upto(o, known, n), o, n),
    decreases n,
{
    if n > 0 {
        unknown_is_drawn(o, known, (n - 1) as nat);
        one_more_is_drawn(unknown_upto(o, known, (n - 1) as nat), o, n);
    }
}

pub proof fn non_null_is_drawn(o: ObjV, n: nat)
    requires
        obj_wf(o),
        n <= o.len(),
    ensures
        drawn_from(non_null(o, n), o, n),
    decreases n,
{
    if n > 0 {
        non_null_is_drawn(o, (n - 1) as nat);
        one_more_is_drawn(non_null(o, (n - 1) as nat), o, n);
    }
}

proof fn one_more_is_drawn(a: ObjV, o: ObjV, n: nat)
    requires
        0 < n <= o.len(),
        obj_wf(o),
        drawn_from(a, o, (n - 1) as nat),
    ensures
        drawn_from(a, o, n),
        drawn_from(a.push(o[n - 1]), o, n),
{
    let r = a.push(o[n - 1]);
    assert forall|i: int| 0 <= i < a.len() implies exists|k: int| 0 <= k < n && (#[trigger] a[i]) == (#[trigger] o[k]) by {
        let k = choose|k: int| 0 <= k < n - 1 && a[i] == (#[trigger] o[k]);
        assert(a[i] == o[k]);
    }
    assert forall|i: int| 0 <= i < r.len() implies exists|k: int| 0 <= k < n && (#[trigger] r[i]) == (#[trigger] o[k]) by {
        if i < a.len() {
            assert(r[i] == a[i]);
        } else {
            assert(r[i] == o[n - 1]);
        }
    }
    assert forall|i: int, l: int| 0 <= i < l < r.len() implies #[trigger] r[i].0 != #[trigger] r[l].0 by {
        assert(r[i] == a[i]);
        if l < a.len() {
            assert(r[l] == a[l]);
        } else {
            let k = choose|k: int| 0 <= k < n - 1 && a[i] == (#[trigger] o[k]);
            assert(o[k].0 != o[n - 1].0);
        }
    }
}

/// A text that is read from kept fields was there before.
proof fn kept_text_was_there(o: ObjV, known: Seq<Seq<char>>, k: Seq<char>)
    requires
        obj_wf(o),
        json_as_str(obj_get(kept(unknown(o, known)), k)) is Some,
    ensures
        obj_get(o, k) == obj_get(kept(unknown(o, known)), k),
{
    broadcast use obj_index_props;
    let rest = unknown(o, known);
    let p = non_null(rest, rest.len());
    unknown_is_drawn(o, known, o.len());
    non_null_is_drawn(rest, rest.len());
    swept_member_is_read(p, k);
    reveal(obj_get);
    let i = obj_index(p, k);
    assert(p[i].0 == k);
    let a = choose|a: int| 0 <= a < rest.len() && p[i] == (#[trigger] rest[a]);
    let b = choose|b: int| 0 <= b < o.len() && rest[a] == (#[trigger] o[b]);
    assert(o[b] == p[i]);
    let c = obj_index(o, k);
    assert(c <= b);
    if c < b {
        assert(o[c].0 != o[b].0);
    }
}

spec fn tool_fields(f: FunctionToolParamV) -> Seq<(Seq<char>, Option<JsonV>)> {
    seq![
        ("name"@, Some(JsonV::Str(f.name))),
        (
            "description"@,
            match f.description {
                Some(d) => Some(JsonV::Str(d)),
                None => None,
            },
        ),
        ("input_schema"@, Some(f.input_schema)),
        (
            "strict"@,
            match f.strict {
                Some(b) => Some(JsonV::Bool(b)),
                None => None,
            },
        ),
    ]
}

/// The tool of a typed definition.
spec fn function_of(f: FunctionToolParamV) -> ToolV {
    let (cache, rest) = split_cache(f.cache_control, f.extra);
    ToolV::Function(
        FunctionToolV {
            name: f.name,
            description: f.description,
            parameters: Some(f.input_schema),
            strict: f.strict,
            cache,
            extra: leftover(rest),
        },
    )
}

proof fn function_is_node(f: FunctionToolParamV)
    ensures
        tool_json(function_of(f)) == node_value(put_all(tool_fields(f), 4), f.cache_control, f.extra),
{
    let l = tool_fields(f);
    assert(put_all(l, 4) == put_if(put_all(l, 3), l[3].0, l[3].1));
    assert(put_all(l, 3) == put_if(put_all(l, 2), l[2].0, l[2].1));
    assert(put_all(l, 2) == put_if(put_all(l, 1), l[1].0, l[1].1));
    assert(put_all(l, 1) == put_if(put_all(l, 0), l[0].0, l[0].1));
}

/// A tool definition stays in its canonical form.
pub proof fn tool_settles(j: JsonV)
    requires
        steady_tool(j),
    ensures
        tool_json(tool_of(tool_json(tool_of(j)))) == tool_json(tool_of(j)),
{
    tool_names();
    let t = type_of(j);
    let custom = t is None || t == Some("custom"@);
    if custom && decode_function_tool_param(j) is Ok {
        let o = j->Object_0;
        let f = decode_function_tool_param(j)->Ok_0;
        let l = tool_fields(f);
        let n = put_all(l, 4);
        function_is_node(f);
        let known = function_tool_param_keys();
        assert(known[0] == "name"@ && known[1] == "description"@ && known[2] == "input_schema"@ && known[3] == "strict"@
            && known[4] == "cache_control"@);
        assert(names_differ(l));
        assert forall|i: int| 0 <= i < 4 implies known.contains((#[trigger] l[i]).0) by {
            assert(l[i].0 == known[i]);
        }
        put_fields_are_known(l, 4, known);
        put_fields_are_named(l, 4, "cache_control"@);
        unknown_avoids(o, known, o.len());
        decoded_cache_is_apart(o);
        node_is_written(n, known, f.cache_control, f.extra);
        let cc = settled_cache(f.cache_control);
        let r = kept(f.extra);
        node_is_read(n, known, cc, r);
        put_fields_are_read(l, 4, 0);
        put_fields_are_read(l, 4, 1);
        put_fields_are_read(l, 4, 2);
        put_fields_are_read(l, 4, 3);
        let w = node_shape(n, cc, r);
        let u = JsonV::Object(w);
        assert(tool_json(tool_of(j)) == u);
        assert(obj_get(w, l[0].0) == l[0].1 && obj_get(w, l[1].0) == l[1].1 && obj_get(w, l[2].0) == l[2].1 && obj_get(
            w,
            l[3].0,
        ) == l[3].1);
        let g = FunctionToolParamV { cache_control: cc, extra: r, ..f };
        assert(decode_function_tool_param(u) == Ok::<FunctionToolParamV, Seq<char>>(g));
        assert(tool_fields(g) =~= l);
        assert(!known.contains("type"@));
        assert(obj_get(w, "type"@) == obj_get(r, "type"@));
        if type_of(u) is Some {
            kept_text_was_there(o, known, "type"@);
        }
        function_is_node(g);
        assert(tool_of(u) == function_of(g));
    }
}

proof fn tool_names()
    ensures
        "name"@ != "description"@,
        "name"@ != "input_schema"@,
        "name"@ != "strict"@,
        "name"@ != "cache_control"@,
        "description"@ != "input_schema"@,
        "description"@ != "strict"@,
        "description"@ != "cache_control"@,
        "input_schema"@ != "strict"@,
        "input_schema"@ != "cache_control"@,
        "strict"@ != "cache_control"@,
        "type"@ != "name"@,
        "type"@ != "description"@,
        "type"@ != "input_schema"@,
        "type"@ != "strict"@,
        "type"@ != "cache_control"@,
{
    reveal_strlit("name");
    reveal_strlit("description");
    reveal_strlit("input_schema");
    reveal_strlit("strict");
    reveal_strlit("cache_control");
    reveal_strlit("type");
    assert("name"@.len() == 4 && "description"@.len() == 11 && "input_schema"@.len() == 12 && "strict"@.len() == 6
        && "cache_control"@.len() == 13 && "type"@.len() == 4);
    assert("name"@[0] == 'n' && "type"@[0] == 't');
}

/// The values of tool definitions.
pub open spec fn tool_jsons(a: Seq<JsonV>) -> Seq<JsonV> {
    Seq::new(a.len(), |i: int| tool_json(tool_of(a[i])))
}

/// The tools that definitions stand for become the canonical definitions.
pub proof fn tools_are_written(a: Seq<JsonV>, ws: Seq<ConversionWarningV>, s: SinkV, n: nat)
    requires
        n <= a.len(),
    ensures
        ({
            let tools = parsed_tools(a, ws, a.len()).0;
            &&& tools.len() == a.len()
            &&& tool_values(tools, s, n).0 == tool_jsons(a).take(n as int)
        }),
    decreases n,
{
    tools_are_parsed(a, ws, a.len());
    let tools = parsed_tools(a, ws, a.len()).0;
    if n == 0 {
        assert(tool_jsons(a).take(0) =~= Seq::<JsonV>::empty());
    } else {
        tools_are_written(a, ws, s, (n - 1) as nat);
        assert(tools[n - 1] == tool_of(a[n - 1]));
        assert(tool_jsons(a).take(n as int) =~= tool_jsons(a).take(n - 1).push(tool_jsons(a)[n - 1]));
    }
}

proof fn tools_are_parsed(a: Seq<JsonV>, ws: Seq<ConversionWarningV>, n: nat)
    requires
        n <= a.len(),
    ensures
        parsed_tools(a, ws, n).0 == Seq::new(n, |i: int| tool_of(a[i])),
    decreases n,
{
    if n > 0 {
        tools_are_parsed(a, ws, (n - 1) as nat);
    }
    assert(parsed_tools(a, ws, n).0 =~= Seq::new(n, |i: int| tool_of(a[i])));
}

/// Tool definitions stay in their canonical forms.
pub proof fn tools_settle(a: Seq<JsonV>)
    requires
        forall|i: int| 0 <= i < a.len() ==> steady_tool(#[trigger] a[i]),
    ensures
        tool_jsons(tool_jsons(a)) == tool_jsons(a),
{
    assert forall|i: int| 0 <= i < a.len() implies #[trigger] tool_jsons(tool_jsons(a))[i] == tool_jsons(a)[i] by {
        assert(steady_tool(a[i]));
        tool_settles(a[i]);
    }
    assert(tool_jsons(tool_jsons(a)) =~= tool_jsons(a));
}

} // verus!
