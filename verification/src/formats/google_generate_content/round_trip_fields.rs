//! Laws: tools and configuration are read back from the fields that they
//! become.

use vstd::prelude::*;
use crate::merge::merged;
use crate::convert::ConversionWarningV;
use crate::decode::{all_strings, unknown};
use crate::format::GOOGLE_GENERATE_CONTENT;
use crate::formats::google_generate_content::from_ir::{calling_config, declaration, declarations, leading_system, prompt_parts, system_instruction, thinking_fields, thinking_level, tool_entries, ToolsV};
use crate::formats::google_generate_content::parse_parts::{system_part, with_object};
use crate::formats::google_generate_content::round_trip::{part_data, text_round_trip};
use crate::formats::google_generate_content::round_trip_history::{all_parts, parts_are_decoded, typed};
use crate::formats::google_generate_content::to_ir::{all_tools, calling_choice, config_reasoning, declared_tool, entry_tools, is_text_part, level_effort, parsed_system, parsed_tool_config, system_blocks, text_only, with_declared};
use crate::formats::google_generate_content::types::{content_keys, decode_content, decode_function_calling_config, decode_function_declaration, decode_part, decode_thinking_config, decode_tool, decode_tool_config, decode_vec_function_declaration, decode_vec_tool, function_calling_config_keys, function_declaration_keys, thinking_config_keys, tool_config_keys, tool_keys, FunctionDeclarationV, PartV};
use crate::formats::google_generate_content::types;
use crate::ir::{extra_merged, extra_ns, ContentBlockV, FunctionToolV, MessageV, ReasoningV, ToolChoiceV, ToolV};
use crate::json::{obj_get, obj_set, put_if, JsonV, ObjV};
use crate::namespaces::{absent_is_not_read, avoids, clean, data_under, first_named_is_read, foreign_data_is_not_merged, front_members_are_read, not_there, one_member_is_read, provider_data_survives, put_all, put_fields_are_known, put_fields_are_read, there, tidy_for, two_level, two_levels_are_merged, unmodeled_members_are_kept, within};
use crate::sink::SinkV;

verus! {

proof fn declaration_names()
    ensures
        "name"@ != "description"@,
        "name"@ != "parametersJsonSchema"@,
        "description"@ != "parametersJsonSchema"@,
        "mode"@ != "allowedFunctionNames"@,
        "includeThoughts"@ != "thinkingLevel"@,
{
    reveal_strlit("name");
    reveal_strlit("description");
    reveal_strlit("parametersJsonSchema");
    reveal_strlit("mode");
    reveal_strlit("allowedFunctionNames");
    reveal_strlit("includeThoughts");
    reveal_strlit("thinkingLevel");
    assert("name"@.len() == 4 && "description"@.len() == 11 && "parametersJsonSchema"@.len() == 20 && "mode"@.len() == 4
        && "allowedFunctionNames"@.len() == 20 && "includeThoughts"@.len() == 15 && "thinkingLevel"@.len() == 13);
}

/// A function that this format can carry.
pub open spec fn plain_function(f: FunctionToolV) -> bool {
    f.strict is None && f.cache is None && f.parameters != Some(JsonV::Null) && tidy_for(
        GOOGLE_GENERATE_CONTENT@,
        f.extra,
        function_declaration_keys(),
    )
}

/// A tool that this format can carry.
pub open spec fn plain_tool(t: ToolV) -> bool {
    match t {
        ToolV::Function(f) => plain_function(f),
        ToolV::Opaque { format, value } => format == GOOGLE_GENERATE_CONTENT@ && match value {
            JsonV::Object(o) => o.len() > 0 && avoids(o, tool_keys()),
            _ => false,
        },
    }
}

/// Tool `j` does not stand between functions, unless it is one.
pub open spec fn in_line(tools: Seq<ToolV>, i: int, j: int, k: int) -> bool {
    tools[i] is Function && tools[k] is Function ==> tools[j] is Function
}

/// Tools that this format can carry: the functions stand side by side.
pub open spec fn plain_tools(tools: Seq<ToolV>) -> bool {
    &&& forall|i: int| 0 <= i < tools.len() ==> plain_tool(#[trigger] tools[i])
    &&& forall|i: int, j: int, k: int| 0 <= i < j < k < tools.len() ==> #[trigger] in_line(tools, i, j, k)
}

/// A function is read back from the declaration that it becomes.
pub proof fn declaration_round_trip(f: FunctionToolV)
    requires
        plain_function(f),
    ensures
        match decode_function_declaration(extra_merged(f.extra, GOOGLE_GENERATE_CONTENT@, declaration(f))) {
            Ok(d) => declared_tool(d) == ToolV::Function(f),
            Err(_) => false,
        },
{
    declaration_names();
    let known = function_declaration_keys();
    let l = seq![
        ("name"@, Some(JsonV::Str(f.name))),
        (
            "description"@,
            match f.description {
                Some(d) => Some(JsonV::Str(d)),
                None => None,
            },
        ),
        ("parametersJsonSchema"@, f.parameters),
    ];
    let t = put_all(l, 3);
    let ns = extra_ns(f.extra, GOOGLE_GENERATE_CONTENT@);
    assert(known[0] == "name"@ && known[1] == "description"@ && known[2] == "parametersJsonSchema"@);
    assert forall|i: int| 0 <= i < l.len() implies known.contains((#[trigger] l[i]).0) by {
        assert(l[i].0 == known[i]);
    }
    assert(put_all(l, 1) == put_if(put_all(l, 0), l[0].0, l[0].1));
    assert(put_all(l, 2) == put_if(put_all(l, 1), l[1].0, l[1].1));
    assert(put_all(l, 3) == put_if(put_all(l, 2), l[2].0, l[2].1));
    assert(declaration(f) == JsonV::Object(t));
    put_fields_are_known(l, 3, known);
    provider_data_survives(GOOGLE_GENERATE_CONTENT@, t, ns, known);
    let o = t + ns;
    assert forall|i: int| 0 <= i < l.len() implies obj_get(o, (#[trigger] l[i]).0) == l[i].1 by {
        put_fields_are_read(l, 3, i);
        assert(known.contains(l[i].0));
        front_members_are_read(t, ns, known, l[i].0);
    }
    assert(obj_get(o, l[0].0) == l[0].1 && obj_get(o, l[1].0) == l[1].1 && obj_get(o, l[2].0) == l[2].1);
}

/// The declarations of an entry read as these functions.
pub open spec fn decls_read(d: Seq<JsonV>, fs: Seq<ToolV>) -> bool {
    &&& d.len() == fs.len()
    &&& forall|i: int|
        0 <= i < d.len() ==> match decode_function_declaration(#[trigger] d[i]) {
            Ok(x) => declared_tool(x) == fs[i],
            Err(_) => false,
        }
}

proof fn decls_are_decoded(d: Seq<JsonV>, fs: Seq<ToolV>, before: Seq<ToolV>, n: nat)
    requires
        decls_read(d, fs),
        n <= d.len(),
    ensures
        match decode_vec_function_declaration(d, n) {
            Ok(x) => x.len() == n && with_declared(before, x, n) == before + fs.take(n as int),
            Err(_) => false,
        },
    decreases n,
{
    if n == 0 {
        assert(before + fs.take(0) =~= before);
    } else {
        let q = (n - 1) as nat;
        decls_are_decoded(d, fs, before, q);
        assert(decode_function_declaration(d[q as int]) is Ok);
        let x0 = decode_vec_function_declaration(d, q)->Ok_0;
        let x = decode_vec_function_declaration(d, n)->Ok_0;
        declared_prefix(before, x0, x, q);
        assert((before + fs.take(q as int)).push(fs[q as int]) =~= before + fs.take(n as int));
    }
}

proof fn declared_prefix(before: Seq<ToolV>, a: Seq<FunctionDeclarationV>, b: Seq<FunctionDeclarationV>, n: nat)
    requires
        n <= a.len() <= b.len(),
        forall|i: int| 0 <= i < a.len() ==> (#[trigger] a[i]) == b[i],
    ensures
        with_declared(before, a, n) == with_declared(before, b, n),
    decreases n,
{
    if n > 0 {
        declared_prefix(before, a, b, (n - 1) as nat);
        assert(a[n - 1] == b[n - 1]);
    }
}

/// An entry adds these tools.
pub open spec fn entry_reads(v: JsonV, fs: Seq<ToolV>) -> bool {
    match decode_tool(v) {
        Ok(e) => forall|before: Seq<ToolV>| #[trigger] entry_tools(before, e) == before + fs,
        Err(_) => false,
    }
}

proof fn declarations_entry(d: Seq<JsonV>, fs: Seq<ToolV>)
    requires
        decls_read(d, fs),
    ensures
        entry_reads(declarations(d), fs),
{
    let known = tool_keys();
    assert(known[0] == "functionDeclarations"@);
    one_member_is_read("functionDeclarations"@, JsonV::Array(d), known);
    decls_are_decoded(d, fs, Seq::empty(), d.len());
    let e = decode_tool(declarations(d))->Ok_0;
    assert forall|before: Seq<ToolV>| #[trigger] entry_tools(before, e) == before + fs by {
        decls_are_decoded(d, fs, before, d.len());
        assert(fs.take(d.len() as int) =~= fs);
    }
}

proof fn opaque_entry(o: ObjV)
    requires
        o.len() > 0,
        avoids(o, tool_keys()),
    ensures
        entry_reads(
            JsonV::Object(o),
            seq![ToolV::Opaque { format: GOOGLE_GENERATE_CONTENT@, value: JsonV::Object(o) }],
        ),
{
    let known = tool_keys();
    let none = Seq::<(Seq<char>, JsonV)>::empty();
    assert(known[0] == "functionDeclarations"@);
    unmodeled_members_are_kept(none, o, known);
    assert(none + o =~= o);
    assert forall|j: int| 0 <= j < o.len() implies (#[trigger] o[j]).0 != "functionDeclarations"@ by {
        assert(!known.contains(o[j].0));
    }
    absent_is_not_read(o, "functionDeclarations"@, JsonV::Null);
    let fs = seq![ToolV::Opaque { format: GOOGLE_GENERATE_CONTENT@, value: JsonV::Object(o) }];
    let e = decode_tool(JsonV::Object(o))->Ok_0;
    assert forall|before: Seq<ToolV>| #[trigger] entry_tools(before, e) == before + fs by {
        assert(before.push(fs[0]) =~= before + fs);
    }
}

proof fn tools_prefix(a: Seq<types::ToolV>, b: Seq<types::ToolV>, n: nat)
    requires
        n <= a.len(),
        n <= b.len(),
        forall|i: int| 0 <= i < n ==> (#[trigger] a[i]) == b[i],
    ensures
        all_tools(a, n) == all_tools(b, n),
    decreases n,
{
    if n > 0 {
        tools_prefix(a, b, (n - 1) as nat);
        assert(a[n - 1] == b[n - 1]);
    }
}

proof fn entries_prefix(a: Seq<JsonV>, b: Seq<JsonV>, n: nat)
    requires
        n <= a.len(),
        n <= b.len(),
        forall|i: int| 0 <= i < n ==> (#[trigger] a[i]) == b[i],
    ensures
        decode_vec_tool(a, n) == decode_vec_tool(b, n),
    decreases n,
{
    if n > 0 {
        entries_prefix(a, b, (n - 1) as nat);
        assert(a[n - 1] == b[n - 1]);
    }
}

/// The first `n` entries read as these tools.
pub open spec fn entries_read(entries: Seq<JsonV>, n: nat, tools: Seq<ToolV>) -> bool {
    match decode_vec_tool(entries, n) {
        Ok(e) => e.len() == n && all_tools(e, n) == tools,
        Err(_) => false,
    }
}

proof fn one_more_entry(entries: Seq<JsonV>, n: nat, tools: Seq<ToolV>, fs: Seq<ToolV>)
    requires
        n < entries.len(),
        entries_read(entries, n, tools),
        entry_reads(entries[n as int], fs),
    ensures
        entries_read(entries, n + 1, tools + fs),
{
    let e0 = decode_vec_tool(entries, n)->Ok_0;
    let x = decode_tool(entries[n as int])->Ok_0;
    let e1 = e0.push(x);
    assert(decode_vec_tool(entries, n + 1) == Ok::<Seq<types::ToolV>, Seq<char>>(e1));
    tools_prefix(e0, e1, n);
    assert(all_tools(e1, n + 1) == entry_tools(all_tools(e1, n), x));
}

/// What the first `n` tools have become: the entries before the last one read
/// as the first `k` tools, and the last as the others.
spec fn written_upto(t: ToolsV, tools: Seq<ToolV>, n: nat, k: nat) -> bool {
    &&& k <= n
    &&& n == 0 ==> t.entries.len() == 0
    &&& n > 0 ==> t.entries.len() > 0 && k < n && entries_read(
        t.entries,
        (t.entries.len() - 1) as nat,
        tools.take(k as int),
    ) && entry_reads(t.entries.last(), tools.subrange(k as int, n as int))
    &&& match t.decls {
        Some((ei, d)) => {
            &&& exists|i: int| 0 <= i < n && tools[i] is Function
            &&& n > 0 && tools[n - 1] is Function ==> ei == t.entries.len() - 1 && decls_read(
                d,
                tools.subrange(k as int, n as int),
            )
        },
        None => forall|i: int| 0 <= i < n ==> !((#[trigger] tools[i]) is Function),
    }
}

proof fn tools_are_written(tools: Seq<ToolV>, s: SinkV, n: nat)
    requires
        plain_tools(tools),
        tools.len() <= usize::MAX,
        n <= tools.len(),
    ensures
        ({
            let t = tool_entries(tools, s, n);
            &&& t.entries.len() <= n
            &&& t.sink.warnings == s.warnings
            &&& (t.entries.len() == 0) == (n == 0)
            &&& entries_read(t.entries, t.entries.len(), tools.take(n as int))
            &&& exists|k: nat| #[trigger] written_upto(t, tools, n, k)
        }),
    decreases n,
{
    let t = tool_entries(tools, s, n);
    if n == 0 {
        assert(tools.take(0) =~= Seq::<ToolV>::empty());
        assert(written_upto(t, tools, 0, 0));
    } else {
        let q = (n - 1) as nat;
        tools_are_written(tools, s, q);
        let p = tool_entries(tools, s, q);
        let k = choose|k: nat| #[trigger] written_upto(p, tools, q, k);
        assert(plain_tool(tools[q as int]));
        match tools[q as int] {
            ToolV::Opaque { format, value } => {
                let o = value->Object_0;
                opaque_entry(o);
                let fs = seq![tools[q as int]];
                assert(tools.subrange(q as int, n as int) =~= fs);
                entries_prefix(p.entries, t.entries, p.entries.len());
                one_more_entry(t.entries, p.entries.len(), tools.take(q as int), fs);
                assert(tools.take(q as int) + fs =~= tools.take(n as int));
                assert(written_upto(t, tools, n, q));
            },
            ToolV::Function(f) => {
                declaration_round_trip(f);
                let v = extra_merged(f.extra, GOOGLE_GENERATE_CONTENT@, declaration(f));
                match p.decls {
                    None => {
                        let d = seq![v];
                        let fs = seq![tools[q as int]];
                        assert(tools.subrange(q as int, n as int) =~= fs);
                        assert(Seq::<JsonV>::empty().push(v) =~= d);
                        declarations_entry(d, fs);
                        assert(t.entries =~= p.entries.push(declarations(d)));
                        entries_prefix(p.entries, t.entries, p.entries.len());
                        one_more_entry(t.entries, p.entries.len(), tools.take(q as int), fs);
                        assert(tools.take(q as int) + fs =~= tools.take(n as int));
                        assert(written_upto(t, tools, n, q));
                    },
                    Some((ei, d0)) => {
                        let i = choose|i: int| 0 <= i < q && tools[i] is Function;
                        if i < q - 1 {
                            assert(in_line(tools, i, q - 1, q as int));
                        }
                        assert(tools[q - 1] is Function);
                        let d = d0.push(v);
                        let fs = tools.subrange(k as int, n as int);
                        assert(fs =~= tools.subrange(k as int, q as int).push(tools[q as int]));
                        declarations_entry(d, fs);
                        let last = (p.entries.len() - 1) as nat;
                        assert(t.entries =~= p.entries.update(last as int, declarations(d)));
                        entries_prefix(p.entries, t.entries, last);
                        one_more_entry(t.entries, last, tools.take(k as int), fs);
                        assert(tools.take(k as int) + fs =~= tools.take(n as int));
                        assert(written_upto(t, tools, n, k));
                    },
                }
            },
        }
    }
}

/// The tools of a request are read back from the entries that they become.
pub proof fn tools_round_trip(tools: Seq<ToolV>, s: SinkV)
    requires
        plain_tools(tools),
        tools.len() <= usize::MAX,
    ensures
        ({
            let t = tool_entries(tools, s, tools.len());
            &&& t.sink.warnings == s.warnings
            &&& (t.entries.len() == 0) == (tools.len() == 0)
            &&& entries_read(t.entries, t.entries.len(), tools)
        }),
{
    tools_are_written(tools, s, tools.len());
    assert(tools.take(tools.len() as int) =~= tools);
}

proof fn mode_names()
    ensures
        "AUTO"@ != "NONE"@,
        "AUTO"@ != "ANY"@,
        "NONE"@ != "ANY"@,
{
    reveal_strlit("AUTO");
    reveal_strlit("NONE");
    reveal_strlit("ANY");
    assert("AUTO"@[0] == 'A' && "NONE"@[0] == 'N' && "AUTO"@.len() == 4 && "NONE"@.len() == 4 && "ANY"@.len() == 3);
}

/// The members of the function-calling configuration of a choice.
pub open spec fn calling_members(c: ToolChoiceV) -> ObjV {
    let mode = JsonV::Str(
        match c {
            ToolChoiceV::Auto => "AUTO"@,
            ToolChoiceV::Disabled => "NONE"@,
            _ => "ANY"@,
        },
    );
    let o = obj_set(Seq::empty(), "mode"@, mode);
    match c {
        ToolChoiceV::Tool { name } => obj_set(o, "allowedFunctionNames"@, JsonV::Array(seq![JsonV::Str(name)])),
        _ => o,
    }
}

/// A function-calling configuration is read back, with what stands beside its
/// members.
proof fn calling_is_decoded(c: ToolChoiceV, q: ObjV)
    requires
        avoids(q, function_calling_config_keys()),
    ensures
        within(calling_members(c), function_calling_config_keys()),
        match decode_function_calling_config(JsonV::Object(calling_members(c) + q)) {
            Ok(f) => calling_choice(f) == (Some(c), q),
            Err(_) => false,
        },
{
    declaration_names();
    mode_names();
    let mode = match c {
        ToolChoiceV::Auto => "AUTO"@,
        ToolChoiceV::Disabled => "NONE"@,
        _ => "ANY"@,
    };
    let known = function_calling_config_keys();
    let l = seq![
        ("mode"@, Some(JsonV::Str(mode))),
        (
            "allowedFunctionNames"@,
            match c {
                ToolChoiceV::Tool { name } => Some(JsonV::Array(seq![JsonV::Str(name)])),
                _ => None,
            },
        ),
    ];
    assert(known[0] == "mode"@ && known[1] == "allowedFunctionNames"@);
    assert forall|i: int| 0 <= i < l.len() implies known.contains((#[trigger] l[i]).0) by {
        assert(l[i].0 == known[i]);
    }
    let o = put_all(l, 2);
    put_fields_are_known(l, 2, known);
    assert(put_all(l, 1) == put_if(put_all(l, 0), l[0].0, l[0].1));
    assert(put_all(l, 2) == put_if(put_all(l, 1), l[1].0, l[1].1));
    assert forall|i: int| 0 <= i < l.len() implies obj_get(o + q, (#[trigger] l[i]).0) == l[i].1 by {
        put_fields_are_read(l, 2, i);
        assert(known.contains(l[i].0));
        front_members_are_read(o, q, known, l[i].0);
    }
    assert(obj_get(o + q, l[0].0) == l[0].1 && obj_get(o + q, l[1].0) == l[1].1);
    unmodeled_members_are_kept(o, q, known);
    assert(calling_members(c) == o);
    if let ToolChoiceV::Tool { name } = c {
        let a = seq![JsonV::Str(name)];
        assert(all_strings(a, 0) == Some(Seq::<Seq<char>>::empty()));
        assert(all_strings(a, 1) == Some(Seq::<Seq<char>>::empty().push(name)));
    }
}

/// Data of a function-calling configuration alone chooses nothing.
proof fn calling_data_is_decoded(q: ObjV)
    requires
        avoids(q, function_calling_config_keys()),
    ensures
        match decode_function_calling_config(JsonV::Object(Seq::<(Seq<char>, JsonV)>::empty() + q)) {
            Ok(f) => calling_choice(f) == (None::<ToolChoiceV>, q),
            Err(_) => false,
        },
{
    mode_names();
    let known = function_calling_config_keys();
    let none = Seq::<(Seq<char>, JsonV)>::empty();
    assert(known[0] == "mode"@ && known[1] == "allowedFunctionNames"@);
    assert(known.contains(known[0]) && known.contains(known[1]));
    not_there(none, q, known, "mode"@);
    not_there(none, q, known, "allowedFunctionNames"@);
    unmodeled_members_are_kept(none, q, known);
}

/// The members of the tool configuration of a choice.
pub open spec fn choice_members(c: Option<ToolChoiceV>) -> ObjV {
    match c {
        Some(c) => seq![("functionCallingConfig"@, JsonV::Object(calling_members(c)))],
        None => Seq::empty(),
    }
}

/// Data of a tool configuration that the wire keeps as it is.
pub open spec fn tool_config_data(d: ObjV) -> bool {
    two_level(d, "functionCallingConfig"@, tool_config_keys(), function_calling_config_keys())
}

/// A tool choice is read back from the configuration that it becomes, and so is
/// the data of the configuration.
pub proof fn tool_choice_round_trip(c: Option<ToolChoiceV>, d: ObjV, ns: ObjV)
    requires
        clean(d),
        tool_config_data(d),
    ensures
        c is Some ==> calling_config(c->0) == JsonV::Object(choice_members(c)),
        match decode_tool_config(JsonV::Object(merged(choice_members(c), d))) {
            Ok(tc) => parsed_tool_config(tc, ns) == (c, with_object(ns, "toolConfig"@, d)),
            Err(_) => false,
        },
{
    let known = tool_config_keys();
    let key = "functionCallingConfig"@;
    let t = choice_members(c);
    let q = data_under(d, key);
    let none = Seq::<(Seq<char>, JsonV)>::empty();
    assert(known[0] == key);
    assert(known.contains(known[0]));
    if c is Some {
        first_named_is_read(t, key, 0);
        calling_is_decoded(c->0, q);
        calling_is_decoded(c->0, none);
        assert(calling_members(c->0) + none =~= calling_members(c->0));
    } else {
        absent_is_not_read(t, key, JsonV::Null);
        calling_data_is_decoded(q);
    }
    two_levels_are_merged(t, d, key, known, function_calling_config_keys());
    let m = merged(t, d);
    if q.len() == 0 {
        assert(unknown(d, known) == d);
        assert(q =~= none);
    }
}

/// A reasoning configuration that this format can carry: an effort tier or a
/// thoughts setting.
pub open spec fn plain_reasoning(r: ReasoningV) -> bool {
    &&& r.enabled is None
    &&& r.extra == Seq::<(Seq<char>, ObjV)>::empty()
    &&& r.effort is Some || r.include_thoughts is Some
    &&& match r.effort {
        Some(e) => match thinking_level(e) {
            Some(l) => level_effort(l) == e,
            None => false,
        },
        None => true,
    }
}

/// A reasoning configuration is read back from the thinking configuration that
/// it becomes, and so is the data of the configuration.
pub proof fn reasoning_round_trip(r: ReasoningV, s: SinkV, q: ObjV)
    requires
        plain_reasoning(r),
        avoids(q, thinking_config_keys()),
    ensures
        ({
            let (t, s1) = thinking_fields(r, s);
            &&& s1 == s
            &&& t.len() > 0
            &&& within(t, thinking_config_keys())
            &&& extra_merged(r.extra, GOOGLE_GENERATE_CONTENT@, JsonV::Object(t)) == JsonV::Object(t)
            &&& match decode_thinking_config(JsonV::Object(t + q)) {
                Ok(tc) => config_reasoning(tc) == Some(r) && tc.extra == q,
                Err(_) => false,
            }
        }),
{
    declaration_names();
    let known = thinking_config_keys();
    let l = seq![
        (
            "thinkingLevel"@,
            match r.effort {
                Some(e) => Some(JsonV::Str(thinking_level(e)->0)),
                None => None,
            },
        ),
        (
            "includeThoughts"@,
            match r.include_thoughts {
                Some(b) => Some(JsonV::Bool(b)),
                None => None,
            },
        ),
    ];
    assert(known[0] == "includeThoughts"@ && known[1] == "thinkingLevel"@);
    assert forall|i: int| 0 <= i < l.len() implies known.contains((#[trigger] l[i]).0) by {
        assert(l[i].0 == known[1 - i]);
    }
    let o = put_all(l, 2);
    put_fields_are_known(l, 2, known);
    assert(put_all(l, 1) == put_if(put_all(l, 0), l[0].0, l[0].1));
    assert(put_all(l, 2) == put_if(put_all(l, 1), l[1].0, l[1].1));
    assert forall|i: int| 0 <= i < l.len() implies obj_get(o + q, (#[trigger] l[i]).0) == l[i].1 && obj_get(
        o,
        l[i].0,
    ) == l[i].1 by {
        put_fields_are_read(l, 2, i);
        assert(known.contains(l[i].0));
        front_members_are_read(o, q, known, l[i].0);
    }
    assert(obj_get(o + q, l[0].0) == l[0].1 && obj_get(o + q, l[1].0) == l[1].1);
    unmodeled_members_are_kept(o, q, known);
    assert(thinking_fields(r, s).0 == o);
    if o.len() == 0 {
        absent_is_not_read(o, "thinkingLevel"@, JsonV::Null);
        absent_is_not_read(o, "includeThoughts"@, JsonV::Null);
        assert(obj_get(o, l[0].0) == l[0].1 && obj_get(o, l[1].0) == l[1].1);
    }
    foreign_data_is_not_merged(r.extra, GOOGLE_GENERATE_CONTENT@, JsonV::Object(o));
}

/// Data of a thinking configuration alone asks for no reasoning.
pub proof fn thinking_data_is_decoded(q: ObjV)
    requires
        avoids(q, thinking_config_keys()),
    ensures
        match decode_thinking_config(JsonV::Object(Seq::<(Seq<char>, JsonV)>::empty() + q)) {
            Ok(tc) => config_reasoning(tc) is None && tc.extra == q,
            Err(_) => false,
        },
{
    let known = thinking_config_keys();
    let none = Seq::<(Seq<char>, JsonV)>::empty();
    assert(known[0] == "includeThoughts"@ && known[1] == "thinkingLevel"@);
    assert(known.contains(known[0]) && known.contains(known[1]));
    not_there(none, q, known, "includeThoughts"@);
    not_there(none, q, known, "thinkingLevel"@);
    unmodeled_members_are_kept(none, q, known);
}

/// A block of a system prompt that this format can carry.
pub open spec fn plain_prompt_block(b: ContentBlockV) -> bool {
    match b {
        ContentBlockV::Text { text, cache, extra } => cache is None && part_data(extra),
        _ => false,
    }
}

/// A system prompt that this format can carry.
pub open spec fn plain_system(blocks: Seq<ContentBlockV>) -> bool {
    blocks.len() > 0 && forall|i: int| 0 <= i < blocks.len() ==> plain_prompt_block(#[trigger] blocks[i])
}

proof fn prompt_is_written(blocks: Seq<ContentBlockV>, n: nat)
    requires
        plain_system(blocks),
        n <= blocks.len(),
    ensures
        match prompt_parts(blocks, n) {
            Ok((parts, s)) => {
                &&& parts.len() == n
                &&& s.warnings.len() == 0
                &&& all_parts(parts)
                &&& text_only(typed(parts))
                &&& forall|i: int| 0 <= i < n ==> system_part(#[trigger] typed(parts)[i]) == blocks[i]
            },
            Err(_) => false,
        },
    decreases n,
{
    if n > 0 {
        let q = (n - 1) as nat;
        prompt_is_written(blocks, q);
        let (prev, s0) = prompt_parts(blocks, q)->Ok_0;
        let (parts, s) = prompt_parts(blocks, n)->Ok_0;
        let b = blocks[q as int];
        assert(plain_prompt_block(blocks[q as int]));
        text_round_trip(b->Text_text, b->Text_extra, Seq::empty(), Seq::empty());
        assert forall|i: int| 0 <= i < parts.len() implies decode_part(#[trigger] parts[i]) is Ok by {
            if i < q {
                assert(parts[i] == prev[i]);
                assert(decode_part(prev[i]) is Ok);
            }
        }
        assert forall|i: int| 0 <= i < n implies system_part(#[trigger] typed(parts)[i]) == blocks[i] && is_text_part(
            typed(parts)[i],
        ) by {
            if i < q {
                assert(typed(parts)[i] == typed(prev)[i]);
                assert(is_text_part(typed(prev)[i]));
            }
        }
    }
}

proof fn prompt_is_read(blocks: Seq<ContentBlockV>, parts: Seq<PartV>, n: nat)
    requires
        parts.len() == blocks.len(),
        n <= parts.len(),
        text_only(parts),
        forall|i: int| 0 <= i < parts.len() ==> system_part(#[trigger] parts[i]) == blocks[i],
    ensures
        system_blocks(parts, Seq::empty(), n) == (blocks.take(n as int), Seq::<ConversionWarningV>::empty()),
    decreases n,
{
    if n == 0 {
        assert(blocks.take(0) =~= Seq::<ContentBlockV>::empty());
    } else {
        prompt_is_read(blocks, parts, (n - 1) as nat);
        assert(is_text_part(parts[n - 1]));
        assert(system_part(parts[n - 1]) == blocks[n - 1]);
        assert(blocks.take(n - 1).push(blocks[n - 1]) =~= blocks.take(n as int));
    }
}

/// A system prompt is read back from the instruction that it becomes, and so is
/// the data of the instruction.
pub proof fn system_round_trip(blocks: Seq<ContentBlockV>, msgs: Seq<MessageV>, q: ObjV, ns: ObjV)
    requires
        plain_system(blocks),
        leading_system(msgs, 0) == 0,
        avoids(q, content_keys()),
    ensures
        match system_instruction(Some(blocks), msgs) {
            Ok((Some(JsonV::Object(o)), s)) => s.warnings.len() == 0 && within(o, content_keys())
                && match decode_content(JsonV::Object(o + q)) {
                Ok(si) => parsed_system(si, ns) == (
                    Some(blocks),
                    Seq::<MessageV>::empty(),
                    with_object(ns, "systemInstruction"@, q),
                    Seq::<ConversionWarningV>::empty(),
                ),
                Err(_) => false,
            },
            _ => false,
        },
{
    prompt_is_written(blocks, blocks.len());
    let (parts, s) = prompt_parts(blocks, blocks.len())->Ok_0;
    let known = content_keys();
    let o = seq![("parts"@, JsonV::Array(parts))];
    assert(known[0] == "role"@ && known[1] == "parts"@);
    assert(known.contains(known[0]) && known.contains(known[1]));
    one_member_is_read("parts"@, JsonV::Array(parts), known);
    reveal_strlit("role");
    reveal_strlit("parts");
    assert("role"@.len() == 4 && "parts"@.len() == 5);
    there(o, q, "parts"@, 0);
    not_there(o, q, known, "role"@);
    unmodeled_members_are_kept(o, q, known);
    parts_are_decoded(parts, parts.len());
    assert(typed(parts).take(parts.len() as int) =~= typed(parts));
    prompt_is_read(blocks, typed(parts), blocks.len());
    assert(blocks.take(blocks.len() as int) =~= blocks);
}

/// Data of an instruction alone is no system prompt.
pub proof fn system_data_is_decoded(q: ObjV, ns: ObjV)
    requires
        avoids(q, content_keys()),
    ensures
        match decode_content(JsonV::Object(Seq::<(Seq<char>, JsonV)>::empty() + q)) {
            Ok(si) => parsed_system(si, ns) == (
                None::<Seq<ContentBlockV>>,
                Seq::<MessageV>::empty(),
                with_object(ns, "systemInstruction"@, q),
                Seq::<ConversionWarningV>::empty(),
            ),
            Err(_) => false,
        },
{
    let known = content_keys();
    let none = Seq::<(Seq<char>, JsonV)>::empty();
    assert(known[0] == "role"@ && known[1] == "parts"@);
    assert(known.contains(known[0]) && known.contains(known[1]));
    not_there(none, q, known, "role"@);
    not_there(none, q, known, "parts"@);
    unmodeled_members_are_kept(none, q, known);
}

} // verus!
