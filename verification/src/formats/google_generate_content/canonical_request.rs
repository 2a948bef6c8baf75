//! Law: passing a request body through the IR canonicalizes it, and then
//! changes nothing more.

use vstd::prelude::*;
use crate::assembly::{combined, field_is_read, fields_have_no_nulls, field_of, no_field_is_read, no_null_fields, no_nulls, sound, tail_bodies_agree, tail_body_is_assembled, tail_body_of, FieldsV};
use crate::convert::{ConversionWarningV, ConvertOptionsV, OrphanToolCalls};
use crate::decode::{default_values, unknown};
use crate::format::GOOGLE_GENERATE_CONTENT;
use crate::formats::google_generate_content::canonical_contents::{content_json, tools_anywhere, CurrentV};
use crate::formats::google_generate_content::canonical_turns::{contents_again, contents_are_decoded, contents_avoid, contents_come_back, contents_json, messages_are_steady, messages_move, moved, parts_are_steady, progress_settles, settled_contents, steady_contents};
use crate::formats::google_generate_content::from_ir::{calling_config, generation_config, google_body, google_fields, google_prepared, leading_system, output_config, parallel_note, prompt_parts, sampling_config, system_instruction, system_merged, system_message, system_messages, thinking_fields, tool_entries, tools_field, turns, turns_start};
use crate::formats::google_generate_content::parse_parts::{g_leftover, with_object};
use crate::formats::google_generate_content::to_ir::{all_messages, all_tools, calling_choice, config_mirror, content_messages, google_parsed_request, google_request_of, google_request_outcome, parsed_system, parsed_tool_config, is_text_part, system_blocks, text_only};
use crate::formats::google_generate_content::types::{content_keys, decode_content, decode_generate_content_request, decode_generation_config, decode_tool_config, decode_vec_tool, generate_content_request_keys, ContentV, GenerateContentRequestV, GenerationConfigV, PartV, ToolConfigV};
use crate::formats::google_generate_content::types;
use crate::ir::{extra_merged, extra_ns, non_null, ContentBlockV, MessageV, RequestV, Role};
use crate::json::{obj_get, obj_set, obj_wf, put_if, JsonV, ObjV};
use crate::merge::merged;
use crate::namespaces::{absent, avoids, first_named_is_read, put_all, put_fields_are_read, unknown_avoids};
use crate::sink::{empty_sink, SinkV};
use crate::sweep::{changes_behind, clean_data_is_swept, clean_member_by_member, fields_are_merged, non_null_avoids, swept, swept_data_avoids, swept_data_is_clean};
use crate::value::{json_from_slice, json_to_bytes};

verus! {

/// The options repair nothing in the history.
pub open spec fn leaves_alone(conv: ConvertOptionsV) -> bool {
    &&& conv.orphan_tool_calls == OrphanToolCalls::Passthrough
    &&& conv.fill_missing_thinking is None
}

/// An object that has members.
pub open spec fn filled_object(o: ObjV) -> Option<JsonV> {
    if o.len() > 0 {
        Some(JsonV::Object(o))
    } else {
        None
    }
}

/// What a list of tools is written as.
pub open spec fn tools_value(x: Option<Seq<types::ToolV>>) -> Option<JsonV> {
    match x {
        Some(e) => {
            let tools = all_tools(e, e.len());
            let t = tool_entries(tools, empty_sink(), tools.len());
            if t.entries.len() > 0 || tools.len() == 0 {
                Some(JsonV::Array(t.entries))
            } else {
                None
            }
        },
        None => None,
    }
}

/// What the choice of a tool configuration is written as.
pub open spec fn choice_field(x: Option<ToolConfigV>) -> Option<JsonV> {
    match x {
        Some(tc) => match parsed_tool_config(tc, Seq::empty()).0 {
            Some(c) => Some(calling_config(c)),
            None => None,
        },
        None => None,
    }
}

/// What else a tool configuration holds.
pub open spec fn choice_data(x: Option<ToolConfigV>) -> Option<JsonV> {
    match x {
        Some(tc) => filled_object(
            match tc.function_calling_config {
                Some(f) => with_object(tc.extra, "functionCallingConfig"@, calling_choice(f).1),
                None => tc.extra,
            },
        ),
        None => None,
    }
}

/// The prompt and the leading message of a system instruction.
pub open spec fn lead(x: Option<ContentV>) -> (Option<Seq<ContentBlockV>>, Seq<MessageV>) {
    match x {
        Some(si) => {
            let (system, start, ns, ws) = parsed_system(si, Seq::empty());
            (system, start)
        },
        None => (None, Seq::empty()),
    }
}

/// What a system instruction is written as.
pub open spec fn system_field(x: Option<ContentV>) -> Option<JsonV> {
    system_instruction(lead(x).0, lead(x).1)->Ok_0.0
}

/// What else a system instruction of text alone holds.
pub open spec fn system_data(x: Option<ContentV>) -> Option<JsonV> {
    match x {
        Some(si) => if text_only(si.parts) {
            filled_object(si.extra)
        } else {
            None
        },
        None => None,
    }
}

/// A request of a generation configuration alone.
pub open spec fn config_alone(x: Option<GenerationConfigV>) -> GenerateContentRequestV {
    GenerateContentRequestV {
        contents: Seq::empty(),
        tools: None,
        tool_config: None,
        system_instruction: None,
        generation_config: x,
        extra: Seq::empty(),
    }
}

/// What the settings of a generation configuration are written as.
pub open spec fn config_field(x: Option<GenerationConfigV>) -> Option<JsonV> {
    filled_object(generation_config(google_request_of(config_alone(x)).0, empty_sink()).0)
}

/// What else a generation configuration holds.
pub open spec fn config_data(x: Option<GenerationConfigV>) -> Option<JsonV> {
    match x {
        Some(gc) => filled_object(config_mirror(gc)),
        None => None,
    }
}

/// The tools keep their canonical form: what they are written as is read as
/// tools that are written the same.
pub open spec fn steady_tools(x: Option<Seq<types::ToolV>>) -> bool {
    match tools_value(x) {
        Some(JsonV::Array(a)) => match decode_vec_tool(a, a.len()) {
            Ok(y) => tools_value(Some(y)) == tools_value(x),
            Err(_) => false,
        },
        _ => true,
    }
}

/// The tool configuration keeps its canonical form.
pub open spec fn steady_tool_config(x: Option<ToolConfigV>) -> bool {
    let v = combined(choice_field(x), choice_data(x));
    match v {
        Some(j) => match decode_tool_config(j) {
            Ok(y) => {
                &&& combined(choice_field(Some(y)), choice_data(Some(y))) == v
                &&& (choice_field(Some(y)) is Some) == (choice_field(x) is Some)
            },
            Err(_) => false,
        },
        None => true,
    }
}

/// The system instruction keeps its canonical form.
pub open spec fn steady_system(x: Option<ContentV>) -> bool {
    let v = combined(system_field(x), system_data(x));
    match v {
        Some(j) => match decode_content(j) {
            Ok(y) => {
                &&& combined(system_field(Some(y)), system_data(Some(y))) == v
                &&& (system_field(Some(y)) is Some) == (system_field(x) is Some)
            },
            Err(_) => false,
        },
        None => true,
    }
}

/// The generation configuration keeps its canonical form.
pub open spec fn steady_config(x: Option<GenerationConfigV>) -> bool {
    let v = combined(config_field(x), config_data(x));
    match v {
        Some(j) => match decode_generation_config(j) {
            Ok(y) => {
                &&& combined(config_field(Some(y)), config_data(Some(y))) == v
                &&& (config_field(Some(y)) is Some) == (config_field(x) is Some)
            },
            Err(_) => false,
        },
        None => true,
    }
}

/// A request that keeps its canonical form: each part, the tools, the tool
/// configuration, the system instruction and the generation configuration do,
/// each by itself, and no unmodeled member is named twice.
pub open spec fn steady_request(w: GenerateContentRequestV, as_text: bool) -> bool {
    &&& steady_contents(w.contents, as_text)
    &&& steady_tools(w.tools)
    &&& steady_tool_config(w.tool_config)
    &&& steady_system(w.system_instruction)
    &&& steady_config(w.generation_config)
    &&& obj_wf(w.extra)
}

/// The fields of the body.
pub open spec fn body_fields(w: GenerateContentRequestV, contents: Seq<JsonV>) -> FieldsV {
    seq![
        ("contents"@, Some(JsonV::Array(contents))),
        ("tools"@, tools_value(w.tools)),
        ("toolConfig"@, choice_field(w.tool_config)),
        ("systemInstruction"@, system_field(w.system_instruction)),
        ("generationConfig"@, config_field(w.generation_config)),
    ]
}

/// The data for the fields of the body.
pub open spec fn body_data(w: GenerateContentRequestV) -> FieldsV {
    seq![
        ("systemInstruction"@, system_data(w.system_instruction)),
        ("toolConfig"@, choice_data(w.tool_config)),
        ("generationConfig"@, config_data(w.generation_config)),
    ]
}

/// The unmodeled members that count.
pub open spec fn rest(w: GenerateContentRequestV) -> ObjV {
    non_null(w.extra, w.extra.len())
}

proof fn field_names()
    ensures
        ({
            let k = generate_content_request_keys();
            forall|i: int, j: int| 0 <= i < j < k.len() ==> (#[trigger] k[i]) != (#[trigger] k[j])
        }),
{
    reveal_strlit("contents");
    reveal_strlit("tools");
    reveal_strlit("toolConfig");
    reveal_strlit("systemInstruction");
    reveal_strlit("generationConfig");
    let k = generate_content_request_keys();
    assert(k[0].len() == 8 && k[1].len() == 5 && k[2].len() == 10 && k[3].len() == 17 && k[4].len() == 16);
}

proof fn names_stay(o: ObjV, n: nat)
    requires
        n <= o.len(),
        obj_wf(o),
    ensures
        obj_wf(non_null(o, n)),
        no_nulls(non_null(o, n)),
        forall|i: int|
            0 <= i < non_null(o, n).len() ==> exists|j: int| 0 <= j < n && (#[trigger] o[j]) == #[trigger] non_null(o, n)[i],
    decreases n,
{
    if n > 0 {
        names_stay(o, (n - 1) as nat);
        let a = non_null(o, (n - 1) as nat);
        let b = non_null(o, n);
        assert forall|i: int| 0 <= i < b.len() implies exists|j: int| 0 <= j < n && (#[trigger] o[j]) == #[trigger] b[i] by {
            if i < a.len() {
                assert(b[i] == a[i]);
                let j = choose|j: int| 0 <= j < n - 1 && (#[trigger] o[j]) == a[i];
                assert(o[j] == b[i]);
            } else {
                assert(o[n - 1] == b[i]);
            }
        }
        assert forall|i: int, j: int| 0 <= i < j < b.len() implies #[trigger] b[i].0 != #[trigger] b[j].0 by {
            if j < a.len() {
                assert(b[i] == a[i] && b[j] == a[j]);
            } else {
                assert(b[i] == a[i]);
                let x = choose|x: int| 0 <= x < n - 1 && (#[trigger] o[x]) == a[i];
                assert(o[x].0 != o[n - 1].0);
            }
        }
        assert forall|i: int| 0 <= i < b.len() implies !((#[trigger] b[i]).1 is Null) by {
            if i < a.len() {
                assert(b[i] == a[i]);
            }
        }
    }
}

/// The fields, the data and the unmodeled members of a body are told apart.
proof fn body_is_sound(w: GenerateContentRequestV, contents: Seq<JsonV>)
    requires
        obj_wf(w.extra),
        avoids(w.extra, generate_content_request_keys()),
    ensures
        sound(body_fields(w, contents), body_data(w), rest(w), generate_content_request_keys()),
{
    let known = generate_content_request_keys();
    let l = body_fields(w, contents);
    let nl = body_data(w);
    field_names();
    names_stay(w.extra, w.extra.len());
    non_null_avoids(w.extra, known);
    assert forall|i: int, j: int| 0 <= i < j < l.len() implies (#[trigger] l[i]).0 != (#[trigger] l[j]).0 by {
        assert(l[i].0 == known[i] && l[j].0 == known[j]);
    }
    assert(nl[0].0 == known[3] && nl[1].0 == known[2] && nl[2].0 == known[4]);
    assert(known[2] != known[3] && known[3] != known[4] && known[2] != known[4]);
    assert forall|i: int| 0 <= i < l.len() implies known.contains((#[trigger] l[i]).0) by {
        assert(l[i].0 == known[i]);
    }
    assert forall|i: int| 0 <= i < nl.len() implies known.contains((#[trigger] nl[i]).0) by {}
}

proof fn non_null_adds_up(a: ObjV, b: ObjV, n: nat)
    requires
        n <= b.len(),
    ensures
        non_null(a + b, a.len() + n) == non_null(a, a.len()) + non_null(b, n),
    decreases n,
{
    let o = a + b;
    if n == 0 {
        non_null_front(a, b, a.len());
        assert(non_null(a, a.len()) + Seq::<(Seq<char>, JsonV)>::empty() =~= non_null(a, a.len()));
    } else {
        non_null_adds_up(a, b, (n - 1) as nat);
        assert(o[a.len() + n - 1] == b[n - 1]);
        let u = non_null(b, (n - 1) as nat);
        assert((non_null(a, a.len()) + u).push(b[n - 1]) =~= non_null(a, a.len()) + u.push(b[n - 1]));
    }
}

proof fn non_null_front(a: ObjV, b: ObjV, n: nat)
    requires
        n <= a.len(),
    ensures
        non_null(a + b, n) == non_null(a, n),
    decreases n,
{
    if n > 0 {
        non_null_front(a, b, (n - 1) as nat);
        assert((a + b)[n - 1] == a[n - 1]);
    }
}

proof fn nothing_is_null(o: ObjV, n: nat)
    requires
        n <= o.len(),
        no_nulls(o),
    ensures
        non_null(o, n) == o.take(n as int),
    decreases n,
{
    if n == 0 {
        assert(o.take(0) =~= Seq::<(Seq<char>, JsonV)>::empty());
    } else {
        nothing_is_null(o, (n - 1) as nat);
        assert(o.take(n as int) =~= o.take(n - 1).push(o[n - 1]));
    }
}

proof fn put_behind(e: ObjV, p: ObjV, k: Seq<char>, v: Option<JsonV>)
    requires
        absent(e, k),
    ensures
        put_if(e + p, k, v) == e + put_if(p, k, v),
{
    if let Some(j) = v {
        changes_behind(e, p, k, j);
    }
}

/// The provider data of a parsed request: the unmodeled members, then the data
/// for the fields.
proof fn data_is_arranged(w: GenerateContentRequestV)
    requires
        avoids(w.extra, generate_content_request_keys()),
    ensures
        extra_ns(google_request_of(w).0.extra, GOOGLE_GENERATE_CONTENT@) == rest(w) + put_all(body_data(w), 3),
        forall|b: ObjV| #[trigger]
            extra_merged(google_request_of(w).0.extra, GOOGLE_GENERATE_CONTENT@, JsonV::Object(b)) == JsonV::Object(
                merged(b, rest(w) + put_all(body_data(w), 3)),
            ),
{
    let known = generate_content_request_keys();
    let nl = body_data(w);
    let e = w.extra;
    let none = Seq::<(Seq<char>, JsonV)>::empty();
    assert(known[2] == "toolConfig"@ && known[3] == "systemInstruction"@ && known[4] == "generationConfig"@);
    assert(absent(e, "systemInstruction"@) && absent(e, "toolConfig"@) && absent(e, "generationConfig"@)) by {
        assert forall|i: int| 0 <= i < e.len() implies (#[trigger] e[i]).0 != known[2] && e[i].0 != known[3] && e[i].0
            != known[4] by {
            assert(!known.contains(e[i].0));
        }
    }
    assert(put_all(nl, 0) == none);
    assert(put_all(nl, 1) == put_if(put_all(nl, 0), nl[0].0, nl[0].1));
    assert(put_all(nl, 2) == put_if(put_all(nl, 1), nl[1].0, nl[1].1));
    assert(put_all(nl, 3) == put_if(put_all(nl, 2), nl[2].0, nl[2].1));
    put_behind(e, none, nl[0].0, nl[0].1);
    put_behind(e, put_all(nl, 1), nl[1].0, nl[1].1);
    put_behind(e, put_all(nl, 2), nl[2].0, nl[2].1);
    assert(e + none =~= e);
    let n3 = e + put_all(nl, 3);
    assert(google_request_of(w).0.extra == g_leftover(n3));
    let p = put_all(nl, 3);
    assert(no_null_fields(nl));
    fields_have_no_nulls(nl, 3);
    non_null_adds_up(e, p, p.len());
    nothing_is_null(p, p.len());
    assert(p.take(p.len() as int) =~= p);
    fields_are_merged(GOOGLE_GENERATE_CONTENT@, none, n3);
    assert forall|b: ObjV| #[trigger]
        extra_merged(google_request_of(w).0.extra, GOOGLE_GENERATE_CONTENT@, JsonV::Object(b)) == JsonV::Object(
            merged(b, rest(w) + p),
        ) by {
        fields_are_merged(GOOGLE_GENERATE_CONTENT@, b, n3);
    }
}

/// Two requests have the same settings.
spec fn same_settings(a: RequestV, b: RequestV) -> bool {
    &&& a.max_output_tokens == b.max_output_tokens
    &&& a.temperature == b.temperature
    &&& a.top_p == b.top_p
    &&& a.top_k == b.top_k
    &&& a.stop_sequences == b.stop_sequences
    &&& a.seed == b.seed
    &&& a.frequency_penalty == b.frequency_penalty
    &&& a.presence_penalty == b.presence_penalty
    &&& a.output_format == b.output_format
    &&& a.reasoning == b.reasoning
}

proof fn settings_are_read(w: GenerateContentRequestV)
    ensures
        same_settings(google_request_of(w).0, google_request_of(config_alone(w.generation_config)).0),
{
}

proof fn settings_are_written(a: RequestV, b: RequestV, s: SinkV, s2: SinkV)
    requires
        same_settings(a, b),
    ensures
        generation_config(a, s).0 == generation_config(b, s2).0,
{
    assert(sampling_config(a) == sampling_config(b));
    let (c, t) = output_config(a.output_format, sampling_config(a), s);
    let (c2, t2) = output_config(b.output_format, sampling_config(b), s2);
    assert(c == c2);
    if let Some(r) = a.reasoning {
        assert(thinking_fields(r, t).0 == thinking_fields(r, t2).0);
    }
}

proof fn config_anywhere(w: GenerateContentRequestV, s: SinkV)
    ensures
        filled_object(generation_config(google_request_of(w).0, s).0) == config_field(w.generation_config),
{
    settings_are_read(w);
    settings_are_written(
        google_request_of(w).0,
        google_request_of(config_alone(w.generation_config)).0,
        s,
        empty_sink(),
    );
}

/// The fields of the body of a parsed request.
proof fn fields_are_put(w: GenerateContentRequestV, contents: Seq<JsonV>, s: SinkV)
    ensures
        ({
            let b0 = obj_set(Seq::<(Seq<char>, JsonV)>::empty(), "contents"@, JsonV::Array(contents));
            google_fields(google_request_of(w).0, system_field(w.system_instruction), b0, s).0 == put_all(
                body_fields(w, contents),
                5,
            )
        }),
{
    let l = body_fields(w, contents);
    let r = google_request_of(w).0;
    let b0 = obj_set(Seq::<(Seq<char>, JsonV)>::empty(), "contents"@, JsonV::Array(contents));
    assert(put_all(l, 0) == Seq::<(Seq<char>, JsonV)>::empty());
    assert(put_all(l, 1) == put_if(put_all(l, 0), l[0].0, l[0].1));
    assert(put_all(l, 2) == put_if(put_all(l, 1), l[1].0, l[1].1));
    assert(put_all(l, 3) == put_if(put_all(l, 2), l[2].0, l[2].1));
    assert(put_all(l, 4) == put_if(put_all(l, 3), l[3].0, l[3].1));
    assert(put_all(l, 5) == put_if(put_all(l, 4), l[4].0, l[4].1));
    if let Some(tools) = r.tools {
        tools_anywhere(tools, s, empty_sink(), tools.len());
    }
    let (b1, s1) = tools_field(r.tools, b0, s);
    let s2 = parallel_note(r.parallel_tool_calls, r.tools, s1);
    config_anywhere(w, s2);
}

proof fn no_turn_leads(start: Seq<MessageV>, a: Seq<ContentV>, ws: Seq<ConversionWarningV>, n: nat)
    requires
        n <= a.len(),
    ensures
        ({
            let msgs = all_messages(start, a, ws, n).0;
            &&& msgs.len() >= start.len()
            &&& forall|i: int| 0 <= i < start.len() ==> msgs[i] == #[trigger] start[i]
            &&& forall|i: int| start.len() <= i < msgs.len() ==> (#[trigger] msgs[i]).role != Role::System
        }),
    decreases n,
{
    if n > 0 {
        no_turn_leads(start, a, ws, (n - 1) as nat);
        let (prev, group, ws1) = all_messages(start, a, ws, (n - 1) as nat);
        let more = content_messages(
            a[n - 1],
            (n - 1) as nat,
            group,
            ws1,
        ).0;
        let msgs = all_messages(start, a, ws, n).0;
        assert(msgs == prev + more);
        assert forall|i: int| start.len() <= i < msgs.len() implies (#[trigger] msgs[i]).role != Role::System by {
            if i < prev.len() {
                assert(msgs[i] == prev[i]);
            } else {
                assert(msgs[i] == more[i - prev.len()]);
            }
        }
        assert forall|i: int| 0 <= i < start.len() implies msgs[i] == #[trigger] start[i] by {
            assert(msgs[i] == prev[i]);
        }
    }
}

proof fn lead_is_counted(start: Seq<MessageV>, msgs: Seq<MessageV>)
    requires
        start.len() <= 1,
        msgs.len() >= start.len(),
        forall|i: int| 0 <= i < start.len() ==> start[i].role == Role::System && msgs[i] == #[trigger] start[i],
        forall|i: int| start.len() <= i < msgs.len() ==> (#[trigger] msgs[i]).role != Role::System,
    ensures
        leading_system(msgs, 0) == start.len(),
        leading_system(start, 0) == start.len(),
{
    reveal_with_fuel(leading_system, 3);
    if start.len() == 1 {
        assert(msgs[0] == start[0]);
    }
}

proof fn instruction_of_the_lead(system: Option<Seq<ContentBlockV>>, start: Seq<MessageV>, msgs: Seq<MessageV>)
    requires
        start.len() <= 1,
        msgs.len() >= start.len(),
        forall|i: int| 0 <= i < start.len() ==> start[i].role == Role::System && msgs[i] == #[trigger] start[i],
        forall|i: int| start.len() <= i < msgs.len() ==> (#[trigger] msgs[i]).role != Role::System,
    ensures
        leading_system(msgs, 0) == start.len(),
        system_instruction(system, msgs) == system_instruction(system, start),
{
    lead_is_counted(start, msgs);
    reveal_with_fuel(system_messages, 2);
    reveal_with_fuel(system_merged, 2);
    if start.len() == 1 {
        assert(msgs[0] == start[0]);
    }
}

/// The body of a parsed request, given the contents that its history becomes.
proof fn body_is_written(w: GenerateContentRequestV, conv: ConvertOptionsV)
    requires
        leaves_alone(conv),
        avoids(w.extra, generate_content_request_keys()),
    ensures
        ({
            let (system, start) = lead(w.system_instruction);
            let msgs = google_request_of(w).0.messages;
            let from = start.len();
            let body = google_body(google_request_of(w).0, conv);
            &&& system_instruction(system, start) is Ok ==> {
                let s = system_instruction(system, start)->Ok_0.1;
                match turns(turns_start(msgs.len(), s), msgs, from, conv.thinking_as_text, msgs.len()) {
                    Ok(t) => body is Ok && body->Ok_0.body == JsonV::Object(
                        tail_body_of(body_fields(w, t.contents), rest(w), body_data(w)),
                    ),
                    Err(_) => body is Err,
                }
            }
            &&& system_instruction(system, start) is Err ==> body is Err
        }),
{
    let (system, start) = lead(w.system_instruction);
    let r = google_request_of(w).0;
    let ws1 = match w.system_instruction {
        Some(si) => parsed_system(si, w.extra).3,
        None => Seq::empty(),
    };
    no_turn_leads(start, w.contents, ws1, w.contents.len());
    assert(r.messages == all_messages(start, w.contents, ws1, w.contents.len()).0);
    assert(google_prepared(r, conv).0 == r.messages);
    instruction_of_the_lead(system, start, r.messages);
    data_is_arranged(w);
    if let Ok((v, s)) = system_instruction(system, start) {
        if let Ok(t) = turns(turns_start(r.messages.len(), s), r.messages, start.len(), conv.thinking_as_text, r.messages.len()) {
            fields_are_put(w, t.contents, t.sink);
        }
    }
}

proof fn blocks_are_allowed(parts: Seq<PartV>, ws: Seq<ConversionWarningV>, n: nat)
    requires
        n <= parts.len(),
    ensures
        ({
            let blocks = system_blocks(parts, ws, n).0;
            &&& blocks.len() == n
            &&& forall|i: int|
                0 <= i < n ==> match #[trigger] blocks[i] {
                    ContentBlockV::Text { .. } => true,
                    ContentBlockV::Opaque { format, value } => format == GOOGLE_GENERATE_CONTENT@ && !is_text_part(parts[i]),
                    _ => false,
                }
        }),
    decreases n,
{
    if n > 0 {
        blocks_are_allowed(parts, ws, (n - 1) as nat);
        let a = system_blocks(parts, ws, (n - 1) as nat).0;
        let b = system_blocks(parts, ws, n).0;
        assert forall|i: int| 0 <= i < n - 1 implies (#[trigger] b[i]) == a[i] by {}
    }
}

proof fn prompt_is_allowed(blocks: Seq<ContentBlockV>, n: nat)
    requires
        n <= blocks.len(),
        forall|i: int| 0 <= i < blocks.len() ==> (#[trigger] blocks[i]) is Text,
    ensures
        prompt_parts(blocks, n) is Ok,
    decreases n,
{
    if n > 0 {
        prompt_is_allowed(blocks, (n - 1) as nat);
        assert(blocks[n - 1] is Text);
    }
}

proof fn message_is_allowed(st: (Seq<JsonV>, SinkV), m: MessageV, n: nat)
    requires
        n <= m.content.len(),
        forall|i: int| 0 <= i < m.content.len() ==> (#[trigger] m.content[i]) is Text || m.content[i] is Opaque,
    ensures
        system_message(st, m, 0, n) is Ok,
    decreases n,
{
    if n > 0 {
        message_is_allowed(st, m, (n - 1) as nat);
        assert(m.content[n - 1] is Text || m.content[n - 1] is Opaque);
    }
}

/// A system instruction that was read can be written.
proof fn system_is_written(x: Option<ContentV>)
    ensures
        system_instruction(lead(x).0, lead(x).1) is Ok,
        system_field(None) is None,
{
    let none = Seq::<MessageV>::empty();
    let o = seq![("parts"@, JsonV::Array(Seq::<JsonV>::empty()))];
    first_named_is_read(o, "parts"@, 0);
    assert(leading_system(none, 0) == 0);
    if let Some(si) = x {
        let ws = Seq::<ConversionWarningV>::empty();
        let blocks = system_blocks(si.parts, ws, si.parts.len()).0;
        blocks_are_allowed(si.parts, ws, si.parts.len());
        if text_only(si.parts) {
            assert forall|i: int| 0 <= i < blocks.len() implies (#[trigger] blocks[i]) is Text by {
                assert(is_text_part(si.parts[i]));
            }
            prompt_is_allowed(blocks, blocks.len());
        } else {
            let m = lead(x).1[0];
            lead_is_counted(lead(x).1, lead(x).1);
            let st = (Seq::<JsonV>::empty(), empty_sink());
            assert forall|i: int| 0 <= i < m.content.len() implies (#[trigger] m.content[i]) is Text
                || m.content[i] is Opaque by {
                assert(blocks[i] == m.content[i]);
            }
            message_is_allowed(st, m, m.content.len());
            reveal_with_fuel(system_messages, 2);
        }
    }
}

/// The wire request that the body of a request is read as.
spec fn body_wire(w: GenerateContentRequestV, cs: Seq<CurrentV>) -> GenerateContentRequestV {
    GenerateContentRequestV {
        contents: contents_again(cs),
        tools: match tools_value(w.tools) {
            Some(JsonV::Array(a)) => Some(decode_vec_tool(a, a.len())->Ok_0),
            _ => None,
        },
        tool_config: match combined(choice_field(w.tool_config), choice_data(w.tool_config)) {
            Some(j) => Some(decode_tool_config(j)->Ok_0),
            None => None,
        },
        system_instruction: match combined(system_field(w.system_instruction), system_data(w.system_instruction)) {
            Some(j) => Some(decode_content(j)->Ok_0),
            None => None,
        },
        generation_config: match combined(config_field(w.generation_config), config_data(w.generation_config)) {
            Some(j) => Some(decode_generation_config(j)->Ok_0),
            None => None,
        },
        extra: swept(rest(w)),
    }
}

/// What is read at each name of the body.
proof fn members_are_read(w: GenerateContentRequestV, contents: Seq<JsonV>)
    requires
        obj_wf(w.extra),
        avoids(w.extra, generate_content_request_keys()),
    ensures
        ({
            let o = tail_body_of(body_fields(w, contents), rest(w), body_data(w));
            &&& obj_get(o, "contents"@) == Some(JsonV::Array(contents))
            &&& obj_get(o, "tools"@) == tools_value(w.tools)
            &&& obj_get(o, "toolConfig"@) == combined(choice_field(w.tool_config), choice_data(w.tool_config))
            &&& obj_get(o, "systemInstruction"@) == combined(
                system_field(w.system_instruction),
                system_data(w.system_instruction),
            )
            &&& obj_get(o, "generationConfig"@) == combined(
                config_field(w.generation_config),
                config_data(w.generation_config),
            )
            &&& unknown(o, generate_content_request_keys()) == swept(rest(w))
        }),
{
    let known = generate_content_request_keys();
    let l = body_fields(w, contents);
    let nl = body_data(w);
    body_is_sound(w, contents);
    tail_body_is_assembled(l, nl, rest(w), known);
    data_is_read(w);
    put_fields_are_read(l, 5, 0);
    put_fields_are_read(l, 5, 1);
    put_fields_are_read(l, 5, 2);
    put_fields_are_read(l, 5, 3);
    put_fields_are_read(l, 5, 4);
    assert(known[0] == "contents"@ && known[1] == "tools"@ && known[2] == "toolConfig"@);
    assert(known[3] == "systemInstruction"@ && known[4] == "generationConfig"@);
    assert(known.contains("contents"@) && known.contains("tools"@) && known.contains("toolConfig"@));
    assert(known.contains("systemInstruction"@) && known.contains("generationConfig"@));
}

/// The data for each name.
proof fn data_is_read(w: GenerateContentRequestV)
    ensures
        field_of(body_data(w), "contents"@) is None,
        field_of(body_data(w), "tools"@) is None,
        field_of(body_data(w), "toolConfig"@) == choice_data(w.tool_config),
        field_of(body_data(w), "systemInstruction"@) == system_data(w.system_instruction),
        field_of(body_data(w), "generationConfig"@) == config_data(w.generation_config),
{
    let known = generate_content_request_keys();
    let nl = body_data(w);
    field_names();
    assert(nl[0].0 == known[3] && nl[1].0 == known[2] && nl[2].0 == known[4]);
    assert(known[0] != known[2] && known[0] != known[3] && known[0] != known[4]);
    assert(known[1] != known[2] && known[1] != known[3] && known[1] != known[4]);
    assert(known[2] != known[3] && known[3] != known[4] && known[2] != known[4]);
    field_is_read(nl, 0);
    field_is_read(nl, 1);
    field_is_read(nl, 2);
    no_field_is_read(nl, known[0]);
    no_field_is_read(nl, known[1]);
}

proof fn body_is_decoded(w: GenerateContentRequestV, cs: Seq<CurrentV>, as_text: bool)
    requires
        steady_request(w, as_text),
        avoids(w.extra, generate_content_request_keys()),
        settled_contents(cs, as_text),
    ensures
        decode_generate_content_request(
            JsonV::Object(tail_body_of(body_fields(w, contents_json(cs)), rest(w), body_data(w))),
        ) == Ok::<GenerateContentRequestV, Seq<char>>(body_wire(w, cs)),
{
    members_are_read(w, contents_json(cs));
    contents_are_decoded(cs, as_text, cs.len());
    assert(contents_again(cs).take(cs.len() as int) =~= contents_again(cs));
}

/// The body that is read again has the same fields.
proof fn body_stays(w: GenerateContentRequestV, cs: Seq<CurrentV>, as_text: bool)
    requires
        steady_request(w, as_text),
        avoids(w.extra, generate_content_request_keys()),
    ensures
        ({
            let x = body_wire(w, cs);
            let contents = contents_json(cs);
            &&& avoids(x.extra, generate_content_request_keys())
            &&& tail_body_of(body_fields(x, contents), rest(x), body_data(x)) == tail_body_of(
                body_fields(w, contents),
                rest(w),
                body_data(w),
            )
        }),
{
    let known = generate_content_request_keys();
    let x = body_wire(w, cs);
    let contents = contents_json(cs);
    let l = body_fields(w, contents);
    let l2 = body_fields(x, contents);
    let nl = body_data(w);
    let nl2 = body_data(x);
    system_is_written(None);
    names_stay(w.extra, w.extra.len());
    non_null_avoids(w.extra, known);
    swept_data_is_clean(rest(w));
    swept_data_avoids(rest(w), known);
    clean_data_is_swept(x.extra);
    clean_member_by_member(x.extra);
    nothing_is_null(x.extra, x.extra.len());
    assert(x.extra.take(x.extra.len() as int) =~= x.extra);
    body_is_sound(w, contents);
    body_is_sound(x, contents);
    data_is_read(w);
    data_is_read(x);
    put_fields_are_read(l, 5, 2);
    put_fields_are_read(l, 5, 3);
    put_fields_are_read(l, 5, 4);
    put_fields_are_read(l2, 5, 2);
    put_fields_are_read(l2, 5, 3);
    put_fields_are_read(l2, 5, 4);
    assert(config_field(None) is None);
    tail_bodies_agree(l, nl, rest(w), l2, nl2, rest(x), known);
}

/// The contents of a history that was read, as the turns build them.
proof fn history_settles(w: GenerateContentRequestV, s: SinkV, as_text: bool) -> (cs: Seq<CurrentV>)
    requires
        steady_contents(w.contents, as_text),
        forall|i: int| 0 <= i < w.contents.len() ==> avoids((#[trigger] w.contents[i]).extra, content_keys()),
    ensures
        ({
            let msgs = google_request_of(w).0.messages;
            let from = lead(w.system_instruction).1.len();
            match turns(turns_start(msgs.len(), s), msgs, from, as_text, msgs.len()) {
                Ok(t) => settled_contents(cs, as_text) && t.contents == contents_json(cs),
                Err(_) => true,
            }
        }),
{
    let start = lead(w.system_instruction).1;
    let ws1 = match w.system_instruction {
        Some(si) => parsed_system(si, w.extra).3,
        None => Seq::empty(),
    };
    let msgs = all_messages(start, w.contents, ws1, w.contents.len()).0;
    assert(msgs == google_request_of(w).0.messages);
    messages_are_steady(start, w.contents, ws1, as_text, w.contents.len());
    messages_move(turns_start(msgs.len(), s), msgs, start.len(), as_text, msgs.len());
    let cs = progress_settles(msgs, start.len(), as_text, msgs.len());
    if let Some(p) = moved(msgs, start.len(), as_text, msgs.len()) {
        match p.current {
            Some(c) => {
                assert(contents_json(cs) =~= contents_json(cs.drop_last()).push(content_json(c)));
            },
            None => {
                assert(contents_json(cs) =~= p.done);
            },
        }
    }
    cs
}

/// Contents in their canonical form become the same contents again.
proof fn history_stays(x: GenerateContentRequestV, cs: Seq<CurrentV>, s: SinkV, as_text: bool)
    requires
        x.contents == contents_again(cs),
        settled_contents(cs, as_text),
    ensures
        ({
            let msgs = google_request_of(x).0.messages;
            let from = lead(x.system_instruction).1.len();
            match turns(turns_start(msgs.len(), s), msgs, from, as_text, msgs.len()) {
                Ok(t) => t.contents == contents_json(cs),
                Err(_) => false,
            }
        }),
{
    let start = lead(x.system_instruction).1;
    let ws1 = match x.system_instruction {
        Some(si) => parsed_system(si, x.extra).3,
        None => Seq::empty(),
    };
    let msgs = all_messages(start, x.contents, ws1, x.contents.len()).0;
    assert(msgs == google_request_of(x).0.messages);
    parts_are_steady(cs, as_text);
    messages_are_steady(start, x.contents, ws1, as_text, x.contents.len());
    contents_come_back(start, cs, ws1, as_text, cs.len());
    messages_move(turns_start(msgs.len(), s), msgs, start.len(), as_text, msgs.len());
    assert(cs.take(cs.len() as int) =~= cs);
}

/// Passing a request body through the IR canonicalizes it, and then changes
/// nothing more: what the body of a parsed request is parsed to becomes the same
/// body again, whatever warnings it raises. Neighbouring contents of one side
/// are joined on the first pass, contents of unknown roles become user contents,
/// and function declarations share one entry. `steady_request` says which bodies
/// are left out, leaf by leaf.
pub proof fn canonical_form_is_stable(j: JsonV, conv: ConvertOptionsV)
    requires
        decode_generate_content_request(j) is Ok,
        steady_request(decode_generate_content_request(j)->Ok_0, conv.thinking_as_text),
        leaves_alone(conv),
        google_body(google_parsed_request(j)->Ok_0.0, conv) is Ok,
    ensures
        ({
            let first = google_body(google_parsed_request(j)->Ok_0.0, conv)->Ok_0.body;
            let second = google_parsed_request(first);
            let again = google_body(second->Ok_0.0, conv);
            &&& second is Ok
            &&& again is Ok
            &&& again->Ok_0.body == first
        }),
{
    let as_text = conv.thinking_as_text;
    let w = decode_generate_content_request(j)->Ok_0;
    let o = j->Object_0;
    unknown_avoids(o, generate_content_request_keys(), o.len());
    if let Ok(a) = default_values(o, "contents"@) {
        contents_avoid(a, a.len());
    }
    system_is_written(w.system_instruction);
    body_is_written(w, conv);
    let s = system_instruction(lead(w.system_instruction).0, lead(w.system_instruction).1)->Ok_0.1;
    let cs = history_settles(w, s, as_text);
    body_is_decoded(w, cs, as_text);
    body_stays(w, cs, as_text);
    let x = body_wire(w, cs);
    system_is_written(x.system_instruction);
    body_is_written(x, conv);
    let s2 = system_instruction(lead(x.system_instruction).0, lead(x.system_instruction).1)->Ok_0.1;
    history_stays(x, cs, s2, as_text);
}

/// The same of bytes: the bytes of a body that went through the IR once are
/// parsed to a request with the same body again. The body has to be one that is
/// read as it is written.
pub proof fn canonical_bytes_are_stable(bytes: Seq<u8>, conv: ConvertOptionsV)
    requires
        google_request_outcome(bytes) is Ok,
        steady_request(
            decode_generate_content_request(json_from_slice(bytes)->Ok_0)->Ok_0,
            conv.thinking_as_text,
        ),
        leaves_alone(conv),
        google_body(google_request_outcome(bytes)->Ok_0.0, conv) is Ok,
        ({
            let body = google_body(google_request_outcome(bytes)->Ok_0.0, conv)->Ok_0.body;
            json_from_slice(json_to_bytes(body)) == Ok::<JsonV, Seq<char>>(body)
        }),
    ensures
        ({
            let body = google_body(google_request_outcome(bytes)->Ok_0.0, conv)->Ok_0.body;
            let second = google_request_outcome(json_to_bytes(body));
            let again = google_body(second->Ok_0.0, conv);
            &&& second is Ok
            &&& again is Ok
            &&& again->Ok_0.body == body
        }),
{
    canonical_form_is_stable(json_from_slice(bytes)->Ok_0, conv);
}

} // verus!
