//! IR requests as Google `generateContent` request JSON.

use vstd::prelude::*;
use crate::built::{BuiltBody, BuiltBodyV};
use crate::convert::sampling::{float_json, make_float};
use crate::convert::warnings::warning;
use crate::convert::{ConversionDirection, ConversionWarning, ConversionWarningV, ConvertOptions, ConvertOptionsV, WarningCode};
use crate::error::{ConversionError, ConversionErrorV};
use crate::format::GOOGLE_GENERATE_CONTENT;
use crate::formats::anthropic_messages::from_ir::{format_details, key_names, reasoning_conflict};
use crate::formats::anthropic_messages::system::{relocate, relocated};
use crate::formats::google_generate_content::parts::{gnoted, gnoted_if, hint_dropped, message_parts, opaque_dropped, serialize_message_blocks, Parts, PartsV};
use crate::history::{apply_missing_thinking, apply_orphan_policy, filled, middle_warnings, repaired, thinking_warnings, trailing_warnings, OrphanTexts, OrphanTextsV, Pending, PendingV};
use crate::ir::{block_kind, effort_name, enables_thinking, extra_merged, request_enables_thinking, CacheHintV, ContentBlock, ContentBlockV, Effort, EffortV, Extra, ExtraV, FunctionTool, FunctionToolV, Message, MessageV, OutputFormat, OutputFormatV, Reasoning, ReasoningV, Request, RequestV, Role, Tool, ToolChoice, ToolChoiceV, ToolV};
use crate::json::{json_as_array, json_get, json_int, json_strings, make1, make2, make_strings, obj_set, object1, object2, with_member, Json, JsonMap, JsonV, ObjV};
use crate::merge::MergeLog;
use crate::model::{dup_vec, group_views, opt_view, opt_views, views, Dup};
use crate::sink::{empty_sink, merge_noted, Sink, SinkV};
use crate::text::{cat2, cat3, cat4, dec_usize, decimal, join, joined, text_is};

verus! {

broadcast use group_views;

/// Which side of the conversation a wire turn is on.
#[derive(Clone, Copy, Debug, PartialEq, Eq, Structural)]
pub enum Side {
    /// `role: "user"`.
    User,
    /// `role: "model"`.
    Model,
}

/// The side of a role.
pub open spec fn side_of(role: Role) -> Side {
    if role == Role::Assistant { Side::Model } else { Side::User }
}

/// The wire role of a side.
pub open spec fn side_name(side: Side) -> Seq<char> {
    match side {
        Side::User => "user"@,
        Side::Model => "model"@,
    }
}

/// The IR role of a side.
pub open spec fn side_role(side: Side) -> Role {
    match side {
        Side::User => Role::User,
        Side::Model => Role::Assistant,
    }
}

/// The location of the next part of the system instruction.
pub open spec fn system_ptr(parts: Seq<JsonV>) -> Seq<char> {
    "/systemInstruction/parts/"@ + decimal(parts.len())
}

/// A text part of the system instruction.
pub open spec fn system_text(
    st: (Seq<JsonV>, SinkV),
    text: Seq<char>,
    cache: Option<CacheHintV>,
    extra: ExtraV,
) -> (Seq<JsonV>, SinkV) {
    let ptr = system_ptr(st.0);
    (
        st.0.push(extra_merged(extra, GOOGLE_GENERATE_CONTENT@, object1("text"@, JsonV::Str(text)))),
        merge_noted(hint_dropped(st.1, cache, ptr), extra, GOOGLE_GENERATE_CONTENT@, ptr),
    )
}

/// A block that the system channel does not allow.
pub open spec fn invalid_system(b: ContentBlockV, location: Seq<char>) -> ConversionErrorV {
    ConversionErrorV::InvalidBlockForRole { role: Role::System, block: block_kind(b), location }
}

/// The first `n` blocks of the request's system prompt.
pub open spec fn prompt_parts(system: Seq<ContentBlockV>, n: nat) -> Result<(Seq<JsonV>, SinkV), ConversionErrorV>
    decreases n,
{
    if n == 0 || n > system.len() {
        Ok((Seq::empty(), empty_sink()))
    } else {
        match prompt_parts(system, (n - 1) as nat) {
            Err(e) => Err(e),
            Ok(st) => match system[n - 1] {
                ContentBlockV::Text { text, cache, extra } => Ok(system_text(st, text, cache, extra)),
                b => Err(invalid_system(b, "/system/"@ + decimal((n - 1) as nat))),
            },
        }
    }
}

/// Block `bi` of leading system message `mi`.
pub open spec fn system_block(
    st: (Seq<JsonV>, SinkV),
    b: ContentBlockV,
    mi: nat,
    bi: nat,
) -> Result<(Seq<JsonV>, SinkV), ConversionErrorV> {
    match b {
        ContentBlockV::Text { text, cache, extra } => Ok(system_text(st, text, cache, extra)),
        ContentBlockV::Opaque { format, value } => if format == GOOGLE_GENERATE_CONTENT@ {
            Ok((st.0.push(value), st.1))
        } else {
            Ok((st.0, opaque_dropped(st.1, format, system_ptr(st.0))))
        },
        _ => Err(invalid_system(b, "/messages/"@ + decimal(mi) + "/content/"@ + decimal(bi))),
    }
}

/// The first `n` blocks of leading system message `mi`.
pub open spec fn system_message(
    st: (Seq<JsonV>, SinkV),
    m: MessageV,
    mi: nat,
    n: nat,
) -> Result<(Seq<JsonV>, SinkV), ConversionErrorV>
    decreases n,
{
    if n == 0 || n > m.content.len() {
        Ok(st)
    } else {
        match system_message(st, m, mi, (n - 1) as nat) {
            Err(e) => Err(e),
            Ok(prev) => system_block(prev, m.content[n - 1], mi, (n - 1) as nat),
        }
    }
}

/// Number of leading system messages, from message `i` on.
pub open spec fn leading_system(msgs: Seq<MessageV>, i: int) -> int
    decreases msgs.len() - i,
{
    if i < 0 || i >= msgs.len() || msgs[i].role != Role::System {
        i
    } else {
        leading_system(msgs, i + 1)
    }
}

/// The first `n` leading system messages.
pub open spec fn system_messages(
    st: (Seq<JsonV>, SinkV),
    msgs: Seq<MessageV>,
    n: nat,
) -> Result<(Seq<JsonV>, SinkV), ConversionErrorV>
    decreases n,
{
    if n == 0 || n > msgs.len() {
        Ok(st)
    } else {
        match system_messages(st, msgs, (n - 1) as nat) {
            Err(e) => Err(e),
            Ok(prev) => system_message(prev, msgs[n - 1], (n - 1) as nat, msgs[n - 1].content.len()),
        }
    }
}

/// The system instruction after the provider data of the first `n` messages
/// was merged.
pub open spec fn system_merged(v: JsonV, s: SinkV, msgs: Seq<MessageV>, n: nat) -> (JsonV, SinkV)
    decreases n,
{
    if n == 0 || n > msgs.len() {
        (v, s)
    } else {
        let (v1, s1) = system_merged(v, s, msgs, (n - 1) as nat);
        (
            extra_merged(msgs[n - 1].extra, GOOGLE_GENERATE_CONTENT@, v1),
            merge_noted(s1, msgs[n - 1].extra, GOOGLE_GENERATE_CONTENT@, "/systemInstruction"@),
        )
    }
}

/// The value is more than the empty system instruction.
pub open spec fn keeps_system(v: JsonV) -> bool {
    match v {
        JsonV::Object(o) => !(o.len() == 1 && json_as_array(json_get(v, "parts"@)) is Some && json_as_array(
            json_get(v, "parts"@),
        )->0.len() == 0),
        _ => false,
    }
}

/// The system instruction, if there is one, and the number of messages that
/// went into it.
pub open spec fn system_instruction(
    system: Option<Seq<ContentBlockV>>,
    msgs: Seq<MessageV>,
) -> Result<(Option<JsonV>, SinkV), ConversionErrorV> {
    let prompt = match system {
        Some(b) => prompt_parts(b, b.len()),
        None => Ok((Seq::empty(), empty_sink())),
    };
    let hoisted = leading_system(msgs, 0);
    match prompt {
        Err(e) => Err(e),
        Ok(st) => match system_messages(st, msgs, hoisted as nat) {
            Err(e) => Err(e),
            Ok((parts, s)) => {
                let (v, s1) = system_merged(
                    object1("parts"@, JsonV::Array(parts)),
                    s,
                    msgs,
                    hoisted as nat,
                );
                Ok((if keeps_system(v) { Some(v) } else { None }, s1))
            },
        },
    }
}

/// The wire turns so far.
pub struct TurnsV {
    pub contents: Seq<JsonV>,
    /// Side of the last turn.
    pub last: Option<Side>,
    pub pointers: Seq<(Seq<char>, Role)>,
    /// For each IR message, the turn that holds it.
    pub placed: Seq<Option<usize>>,
    /// Names of the calls so far, by id.
    pub names: ObjV,
    pub sink: SinkV,
}

/// Wire turns under construction.
#[derive(Debug)]
pub struct Turns {
    pub contents: Vec<Json>,
    pub last: Option<Side>,
    pub pointers: Vec<(String, Role)>,
    pub placed: Vec<Option<usize>>,
    pub names: JsonMap,
    pub sink: Sink,
}

impl View for Turns {
    type V = TurnsV;

    open spec fn view(&self) -> TurnsV {
        TurnsV {
            contents: views(self.contents@),
            last: self.last,
            pointers: views(self.pointers@),
            placed: self.placed@,
            names: self.names@,
            sink: self.sink@,
        }
    }
}

/// The parts that a turn already has.
pub open spec fn parts_of(v: JsonV) -> Seq<JsonV> {
    match json_as_array(json_get(v, "parts"@)) {
        Some(a) => a,
        None => Seq::empty(),
    }
}

/// An empty turn.
pub open spec fn new_turn(side: Side) -> JsonV {
    object2("role"@, JsonV::Str(side_name(side)), "parts"@, JsonV::Array(Seq::empty()))
}

/// The name of a role that has no wire role.
pub open spec fn lost_role(role: Role) -> Seq<char> {
    if role == Role::System { "system"@ } else { "developer"@ }
}

/// The warning about a message whose role was downgraded.
pub open spec fn downgraded(s: SinkV, role: Role, loc: Seq<char>) -> SinkV {
    gnoted_if(
        role == Role::System || role == Role::Developer,
        s,
        WarningCode::RoleDowngraded,
        loc,
        "Google has no "@ + lost_role(role) + " role; the message was downgraded to user"@,
    )
}

/// The turns after message `mi`. A message of the same side as the last turn
/// joins it; one whose blocks were all dropped leaves no turn.
pub open spec fn turn_step(t: TurnsV, m: MessageV, mi: nat, as_text: bool) -> Result<TurnsV, ConversionErrorV> {
    let side = side_of(m.role);
    let joins = t.last == Some(side) && t.contents.len() > 0;
    let ci = if joins { (t.contents.len() - 1) as nat } else { t.contents.len() };
    let base = "/contents/"@ + decimal(ci);
    let content = if joins { t.contents.last() } else { new_turn(side) };
    let before = parts_of(content);
    let inner = downgraded(SinkV { warnings: Seq::empty(), log: t.sink.log }, m.role, base);
    match message_parts(
        PartsV { parts: before, names: t.names, sink: inner },
        m,
        mi,
        ci,
        as_text,
        m.content.len(),
    ) {
        Err(e) => Err(e),
        Ok(p) => if p.parts.len() == before.len() && m.content.len() > 0 {
            Ok(
                TurnsV {
                    names: p.names,
                    sink: SinkV {
                        warnings: (t.sink.warnings + relocated(p.sink.warnings, "/contents"@)).push(
                            warning(
                                WarningCode::EmptyMessageDropped,
                                GOOGLE_GENERATE_CONTENT@,
                                ConversionDirection::ToFormat,
                                "/contents"@,
                                "IR message "@ + decimal(mi)
                                    + " serialized to zero wire content (every block was dropped); the empty wire turn was omitted"@,
                            ),
                        ),
                        log: p.sink.log,
                    },
                    ..t
                },
            )
        } else {
            let v = extra_merged(
                m.extra,
                GOOGLE_GENERATE_CONTENT@,
                with_member(content, "parts"@, JsonV::Array(p.parts)),
            );
            let s = merge_noted(
                SinkV { warnings: t.sink.warnings + p.sink.warnings, log: p.sink.log },
                m.extra,
                GOOGLE_GENERATE_CONTENT@,
                base,
            );
            Ok(
                TurnsV {
                    contents: if joins {
                        t.contents.update(t.contents.len() - 1, v)
                    } else {
                        t.contents.push(v)
                    },
                    last: Some(side),
                    pointers: if joins { t.pointers } else { t.pointers.push((base, side_role(side))) },
                    placed: if mi < t.placed.len() {
                        t.placed.update(mi as int, Some(ci as usize))
                    } else {
                        t.placed
                    },
                    names: p.names,
                    sink: s,
                },
            )
        },
    }
}

/// The turns of the messages from `from` up to `n`.
pub open spec fn turns(t: TurnsV, msgs: Seq<MessageV>, from: nat, as_text: bool, n: nat) -> Result<TurnsV, ConversionErrorV>
    decreases n,
{
    if n <= from || n > msgs.len() {
        Ok(t)
    } else {
        match turns(t, msgs, from, as_text, (n - 1) as nat) {
            Err(e) => Err(e),
            Ok(prev) => turn_step(prev, msgs[n - 1], (n - 1) as nat, as_text),
        }
    }
}

/// The tool entries so far.
pub struct ToolsV {
    pub entries: Seq<JsonV>,
    /// Position and contents of the entry that holds the declarations.
    pub decls: Option<(usize, Seq<JsonV>)>,
    pub sink: SinkV,
}

/// Tool entries under construction.
#[derive(Debug)]
pub struct Tools {
    pub entries: Vec<Json>,
    pub at: Option<usize>,
    pub decls: Vec<Json>,
    pub sink: Sink,
}

impl View for Tools {
    type V = ToolsV;

    open spec fn view(&self) -> ToolsV {
        ToolsV {
            entries: views(self.entries@),
            decls: match self.at {
                Some(i) => Some((i, views(self.decls@))),
                None => None,
            },
            sink: self.sink@,
        }
    }
}

/// A function declaration, before its provider data.
pub open spec fn declaration(f: FunctionToolV) -> JsonV {
    let o1 = obj_set(Seq::empty(), "name"@, JsonV::Str(f.name));
    let o2 = match f.description {
        Some(d) => obj_set(o1, "description"@, JsonV::Str(d)),
        None => o1,
    };
    JsonV::Object(
        match f.parameters {
            Some(p) => obj_set(o2, "parametersJsonSchema"@, p),
            None => o2,
        },
    )
}

/// The entry that holds the declarations.
pub open spec fn declarations(decls: Seq<JsonV>) -> JsonV {
    object1("functionDeclarations"@, JsonV::Array(decls))
}

/// The tool entries after one more tool. All functions share one entry, at
/// the place of the first.
pub open spec fn tool_added(t: ToolsV, tool: ToolV) -> ToolsV {
    match tool {
        ToolV::Function(f) => {
            let (ei, decls, entries) = match t.decls {
                Some((i, d)) => (i, d, t.entries),
                None => (
                    t.entries.len() as usize,
                    Seq::<JsonV>::empty(),
                    t.entries.push(declarations(Seq::empty())),
                ),
            };
            let ptr = "/tools/"@ + decimal(ei as nat) + "/functionDeclarations/"@ + decimal(decls.len());
            let s1 = gnoted_if(
                f.strict is Some,
                t.sink,
                WarningCode::StrictUnsupported,
                ptr,
                "Google has no per-tool strict flag; schema adherence cannot be requested"@,
            );
            let s2 = gnoted_if(
                f.cache is Some,
                s1,
                WarningCode::CacheHintDropped,
                ptr,
                "Google tool declarations have no cache_control equivalent"@,
            );
            let all = decls.push(extra_merged(f.extra, GOOGLE_GENERATE_CONTENT@, declaration(f)));
            ToolsV {
                entries: if ei < entries.len() { entries.update(ei as int, declarations(all)) } else { entries },
                decls: Some((ei, all)),
                sink: merge_noted(s2, f.extra, GOOGLE_GENERATE_CONTENT@, ptr),
            }
        },
        ToolV::Opaque { format, value } => if format == GOOGLE_GENERATE_CONTENT@ {
            ToolsV { entries: t.entries.push(value), ..t }
        } else {
            ToolsV {
                sink: gnoted(
                    t.sink,
                    WarningCode::OpaqueDropped,
                    "/tools/"@ + decimal(t.entries.len()),
                    "opaque tool belongs to format `"@ + format + "` and was dropped"@,
                ),
                ..t
            }
        },
    }
}

/// The entries of the first `n` tools.
pub open spec fn tool_entries(tools: Seq<ToolV>, s: SinkV, n: nat) -> ToolsV
    decreases n,
{
    if n == 0 || n > tools.len() {
        ToolsV { entries: Seq::empty(), decls: None, sink: s }
    } else {
        tool_added(tool_entries(tools, s, (n - 1) as nat), tools[n - 1])
    }
}

/// Tools: an empty list replays as such, a list that was dropped whole leaves
/// no key.
pub open spec fn tools_field(tools: Option<Seq<ToolV>>, body: ObjV, s: SinkV) -> (ObjV, SinkV) {
    match tools {
        Some(tools) => {
            let t = tool_entries(tools, s, tools.len());
            (
                if t.entries.len() > 0 || tools.len() == 0 {
                    obj_set(body, "tools"@, JsonV::Array(t.entries))
                } else {
                    body
                },
                t.sink,
            )
        },
        None => (body, s),
    }
}

/// The function-calling configuration of a choice.
pub open spec fn calling_config(c: ToolChoiceV) -> JsonV {
    let mode = JsonV::Str(
        match c {
            ToolChoiceV::Auto => "AUTO"@,
            ToolChoiceV::Disabled => "NONE"@,
            _ => "ANY"@,
        },
    );
    let o = obj_set(Seq::empty(), "mode"@, mode);
    object1(
        "functionCallingConfig"@,
        JsonV::Object(
            match c {
                ToolChoiceV::Tool { name } => obj_set(
                    o,
                    "allowedFunctionNames"@,
                    JsonV::Array(seq![JsonV::Str(name)]),
                ),
                _ => o,
            },
        ),
    )
}

/// The warning about the parallel-call setting, which has no field.
pub open spec fn parallel_note(parallel: Option<bool>, tools: Option<Seq<ToolV>>, s: SinkV) -> SinkV {
    match parallel {
        None => s,
        Some(p) => if !(tools is Some && tools->0.len() > 0) {
            gnoted(
                s,
                WarningCode::ParallelToolCallsIgnored,
                "/toolConfig"@,
                "parallel_tool_calls is meaningless without tools and was not emitted"@,
            )
        } else if p {
            gnoted(
                s,
                WarningCode::ParallelToolCallsIgnored,
                "/toolConfig"@,
                "Google has no parallel_tool_calls channel; parallel calling is its default"@,
            )
        } else {
            gnoted(
                s,
                WarningCode::SerialToolCallsDropped,
                "/toolConfig"@,
                "Google cannot express parallel_tool_calls: false; the serial-execution constraint was dropped"@,
            )
        },
    }
}

/// Sampling parameters.
pub open spec fn sampling_config(req: RequestV) -> ObjV {
    let c0 = Seq::<(Seq<char>, JsonV)>::empty();
    let c1 = match req.max_output_tokens {
        Some(v) => obj_set(c0, "maxOutputTokens"@, json_int(v as int)),
        None => c0,
    };
    let c2 = match req.temperature {
        Some(v) => obj_set(c1, "temperature"@, float_json(v)),
        None => c1,
    };
    let c3 = match req.top_p {
        Some(v) => obj_set(c2, "topP"@, float_json(v)),
        None => c2,
    };
    let c4 = match req.top_k {
        Some(v) => obj_set(c3, "topK"@, json_int(v as int)),
        None => c3,
    };
    let c5 = match req.stop_sequences {
        Some(v) => obj_set(c4, "stopSequences"@, json_strings(v)),
        None => c4,
    };
    let c6 = match req.seed {
        Some(v) => obj_set(c5, "seed"@, json_int(v as int)),
        None => c5,
    };
    let c7 = match req.frequency_penalty {
        Some(v) => obj_set(c6, "frequencyPenalty"@, float_json(v)),
        None => c6,
    };
    match req.presence_penalty {
        Some(v) => obj_set(c7, "presencePenalty"@, float_json(v)),
        None => c7,
    }
}

/// Structured output.
pub open spec fn output_config(f: Option<OutputFormatV>, c: ObjV, s: SinkV) -> (ObjV, SinkV) {
    match f {
        Some(OutputFormatV::JsonSchema { name, description, schema, strict }) => {
            let dropped = format_details(name is Some, description is Some, strict is Some);
            (
                obj_set(
                    obj_set(c, "responseMimeType"@, JsonV::Str("application/json"@)),
                    "responseJsonSchema"@,
                    schema,
                ),
                gnoted_if(
                    dropped.len() > 0,
                    s,
                    WarningCode::OutputFormatDetailDropped,
                    "/generationConfig/responseJsonSchema"@,
                    "Google responseJsonSchema carries only the schema; dropped: "@ + joined(dropped, ", "@),
                ),
            )
        },
        Some(OutputFormatV::JsonObject) => (
            obj_set(c, "responseMimeType"@, JsonV::Str("application/json"@)),
            s,
        ),
        None => (c, s),
    }
}

/// The thinking level of an effort tier, if there is one.
pub open spec fn thinking_level(e: EffortV) -> Option<Seq<char>> {
    match e {
        EffortV::Minimal => Some("MINIMAL"@),
        EffortV::Low => Some("LOW"@),
        EffortV::Medium => Some("MEDIUM"@),
        EffortV::High => Some("HIGH"@),
        EffortV::Other(s) => Some(s),
        _ => None,
    }
}

/// The location of the thinking configuration.
pub open spec fn thinking_ptr() -> Seq<char> {
    "/generationConfig/thinkingConfig"@
}

/// The thinking configuration before its provider data.
pub open spec fn thinking_fields(r: ReasoningV, s: SinkV) -> (ObjV, SinkV) {
    let s1 = gnoted_if(
        reasoning_conflict(r.enabled, r.effort),
        s,
        WarningCode::ReasoningConflict,
        thinking_ptr(),
        "reasoning.enabled and reasoning.effort conflict; effort wins"@,
    );
    let (t, s2) = match r.effort {
        Some(e) => match thinking_level(e) {
            Some(level) => (obj_set(Seq::empty(), "thinkingLevel"@, JsonV::Str(level)), s1),
            None => (
                Seq::empty(),
                gnoted(
                    s1,
                    WarningCode::EffortUnsupported,
                    thinking_ptr(),
                    "Google thinkingLevel accepts minimal/low/medium/high; `"@ + effort_name(e)
                        + "` was dropped"@,
                ),
            ),
        },
        None => (
            Seq::empty(),
            gnoted_if(
                r.enabled == Some(false),
                s1,
                WarningCode::ReasoningDisableUnsupported,
                thinking_ptr(),
                "Google thinkingConfig cannot disable thinking (thinkingBudget: 0 via extra may work on some models)"@,
            ),
        ),
    };
    (
        match r.include_thoughts {
            Some(b) => obj_set(t, "includeThoughts"@, JsonV::Bool(b)),
            None => t,
        },
        s2,
    )
}

/// The generation configuration.
pub open spec fn generation_config(req: RequestV, s: SinkV) -> (ObjV, SinkV) {
    let (c, s1) = output_config(req.output_format, sampling_config(req), s);
    match req.reasoning {
        Some(r) => {
            let (t, s2) = thinking_fields(r, s1);
            let v = extra_merged(r.extra, GOOGLE_GENERATE_CONTENT@, JsonV::Object(t));
            let s3 = merge_noted(s2, r.extra, GOOGLE_GENERATE_CONTENT@, thinking_ptr());
            (
                match v {
                    JsonV::Object(o) => if o.len() > 0 { obj_set(c, "thinkingConfig"@, v) } else { c },
                    _ => c,
                },
                s3,
            )
        },
        None => (c, s1),
    }
}

/// Warnings for the fields that have no channel.
pub open spec fn lost_fields(req: RequestV, s: SinkV) -> SinkV {
    let s1 = match req.metadata {
        Some(m) => gnoted(
            s,
            WarningCode::MetadataDropped,
            "/metadata"@,
            "Google has no request metadata channel; dropped keys: "@ + joined(key_names(m), ", "@),
        ),
        None => s,
    };
    gnoted_if(
        req.cache_key is Some,
        s1,
        WarningCode::CacheKeyDropped,
        "/cacheKey"@,
        "Google has no prompt cache key channel; cache_key was dropped"@,
    )
}

/// The wording of the history repairs.
pub open spec fn google_orphan_texts() -> OrphanTextsV {
    OrphanTextsV {
        middle: "assistant message contains tool calls without matching results; mid-conversation orphans are never repaired"@,
        dropped_before: "removed "@,
        dropped_after: " unmatched trailing tool call(s) as requested"@,
        thinking: "dropping trailing tool calls left a thinking block without any tool call; the upstream may reject the turn"@,
        appended_before: "appended "@,
        appended_after: " synthetic error tool result(s) as requested"@,
    }
}

/// The repaired history and the warnings that the repairs defer.
pub open spec fn google_prepared(req: RequestV, conv: ConvertOptionsV) -> (Seq<MessageV>, Seq<PendingV>) {
    let texts = google_orphan_texts();
    let m1 = repaired(req.messages, conv.orphan_tool_calls);
    let p1 = Seq::<PendingV>::empty() + middle_warnings(req.messages, texts.middle, req.messages.len())
        + trailing_warnings(req.messages, conv.orphan_tool_calls, texts);
    if enables_thinking(req.reasoning) {
        (
            filled(m1, conv.fill_missing_thinking),
            p1 + thinking_warnings(
                m1,
                conv.fill_missing_thinking,
                "inserted a placeholder thinking block before the tool calls"@,
                "assistant message carries tool calls but no thinking while the request enables thinking; Google requires thought signatures with function calls on thinking models"@,
                m1.len(),
            ),
        )
    } else {
        (m1, p1)
    }
}

/// Where a deferred warning points.
pub open spec fn deferred_location(p: PendingV, placed: Seq<Option<usize>>) -> Seq<char> {
    match p.message {
        Some(i) => if i < placed.len() && placed[i as int] is Some {
            "/contents/"@ + decimal(placed[i as int]->0 as nat)
        } else {
            "/contents"@
        },
        None => "/contents"@,
    }
}

/// The first `n` deferred warnings at their final locations.
pub open spec fn deferred(pending: Seq<PendingV>, placed: Seq<Option<usize>>, n: nat) -> Seq<ConversionWarningV>
    decreases n,
{
    if n == 0 || n > pending.len() {
        Seq::empty()
    } else {
        deferred(pending, placed, (n - 1) as nat).push(
            warning(
                pending[n - 1].code,
                GOOGLE_GENERATE_CONTENT@,
                ConversionDirection::ToFormat,
                deferred_location(pending[n - 1], placed),
                pending[n - 1].text,
            ),
        )
    }
}

/// The body after the turns are known: every remaining request field.
pub open spec fn google_fields(req: RequestV, system: Option<JsonV>, body: ObjV, s: SinkV) -> (ObjV, SinkV) {
    let (b1, s1) = tools_field(req.tools, body, s);
    let b2 = match req.tool_choice {
        Some(c) => obj_set(b1, "toolConfig"@, calling_config(c)),
        None => b1,
    };
    let s2 = parallel_note(req.parallel_tool_calls, req.tools, s1);
    let b3 = match system {
        Some(v) => obj_set(b2, "systemInstruction"@, v),
        None => b2,
    };
    let (c, s3) = generation_config(req, s2);
    let b4 = if c.len() > 0 { obj_set(b3, "generationConfig"@, JsonV::Object(c)) } else { b3 };
    (b4, lost_fields(req, s3))
}

/// No turn yet, for `n` IR messages.
pub open spec fn turns_start(n: nat, sink: SinkV) -> TurnsV {
    TurnsV {
        contents: Seq::empty(),
        last: None,
        pointers: Seq::empty(),
        placed: Seq::new(n, |i: int| None),
        names: Seq::empty(),
        sink,
    }
}

/// The request body that a request becomes, or the error that prevents it.
pub open spec fn google_body(req: RequestV, conv: ConvertOptionsV) -> Result<BuiltBodyV, ConversionErrorV> {
    let (msgs, pending) = google_prepared(req, conv);
    match system_instruction(req.system, msgs) {
        Err(e) => Err(e),
        Ok((system, s)) => match turns(
            turns_start(msgs.len(), s),
            msgs,
            leading_system(msgs, 0) as nat,
            conv.thinking_as_text,
            msgs.len(),
        ) {
            Err(e) => Err(e),
            Ok(t) => {
                let b0 = obj_set(Seq::empty(), "contents"@, JsonV::Array(t.contents));
                let (b, s1) = google_fields(req, system, b0, t.sink);
                let s2 = merge_noted(s1, req.extra, GOOGLE_GENERATE_CONTENT@, Seq::empty());
                Ok(
                    BuiltBodyV {
                        body: extra_merged(req.extra, GOOGLE_GENERATE_CONTENT@, JsonV::Object(b)),
                        warnings: s2.warnings + deferred(pending, t.placed, pending.len()),
                        merge_log: s2.log,
                        message_pointers: t.pointers,
                    },
                )
            },
        },
    }
}

proof fn prompt_parts_error_stays(system: Seq<ContentBlockV>, n: nat, m: nat)
    requires
        n <= m <= system.len(),
        prompt_parts(system, n) is Err,
    ensures
        prompt_parts(system, m) == prompt_parts(system, n),
    decreases m - n,
{
    if n < m {
        prompt_parts_error_stays(system, n, (m - 1) as nat);
    }
}

proof fn system_message_error_stays(st: (Seq<JsonV>, SinkV), msg: MessageV, mi: nat, n: nat, m: nat)
    requires
        n <= m <= msg.content.len(),
        system_message(st, msg, mi, n) is Err,
    ensures
        system_message(st, msg, mi, m) == system_message(st, msg, mi, n),
    decreases m - n,
{
    if n < m {
        system_message_error_stays(st, msg, mi, n, (m - 1) as nat);
    }
}

proof fn system_messages_error_stays(st: (Seq<JsonV>, SinkV), msgs: Seq<MessageV>, n: nat, m: nat)
    requires
        n <= m <= msgs.len(),
        system_messages(st, msgs, n) is Err,
    ensures
        system_messages(st, msgs, m) == system_messages(st, msgs, n),
    decreases m - n,
{
    if n < m {
        system_messages_error_stays(st, msgs, n, (m - 1) as nat);
    }
}

proof fn turns_error_stays(t: TurnsV, msgs: Seq<MessageV>, from: nat, as_text: bool, n: nat, m: nat)
    requires
        n <= m <= msgs.len(),
        turns(t, msgs, from, as_text, n) is Err,
    ensures
        turns(t, msgs, from, as_text, m) == turns(t, msgs, from, as_text, n),
    decreases m - n,
{
    if n < m {
        turns_error_stays(t, msgs, from, as_text, n, (m - 1) as nat);
    }
}

fn push_system_text(parts: &mut Vec<Json>, text: &String, has_cache: bool, extra: &Extra, sink: &mut Sink)
    ensures
        forall|cache: Option<CacheHintV>|
            cache is Some == has_cache ==> (views(final(parts)@), final(sink)@) == #[trigger] system_text(
                (views(old(parts)@), old(sink)@),
                text@,
                cache,
                extra@,
            ),
{
    let ptr = cat2("/systemInstruction/parts/", dec_usize(parts.len()).as_str());
    if has_cache {
        sink.warn(
            GOOGLE_GENERATE_CONTENT,
            WarningCode::CacheHintDropped,
            ptr.as_str(),
            "Google has no cache breakpoint channel; the hint was dropped",
        );
    }
    let mut v = make1("text", Json::Str(text.clone()));
    sink.merge(extra, GOOGLE_GENERATE_CONTENT, &mut v, ptr.as_str());
    parts.push(v);
}

fn build_prompt(system: &Vec<ContentBlock>, parts: &mut Vec<Json>, sink: &mut Sink) -> (r: Result<(), ConversionError>)
    requires
        old(parts)@.len() == 0,
        old(sink)@ == empty_sink(),
    ensures
        match r {
            Ok(_) => prompt_parts(views(system@), system@.len()) == Ok::<(Seq<JsonV>, SinkV), ConversionErrorV>(
                (views(final(parts)@), final(sink)@),
            ),
            Err(e) => prompt_parts(views(system@), system@.len()) == Err::<
                (Seq<JsonV>, SinkV),
                ConversionErrorV,
            >(e@),
        },
{
    let mut i: usize = 0;
    while i < system.len()
        invariant
            i <= system@.len(),
            prompt_parts(views(system@), i as nat) == Ok::<(Seq<JsonV>, SinkV), ConversionErrorV>(
                (views(parts@), sink@),
            ),
        decreases system@.len() - i,
    {
        proof {
            assert(views(system@)[i as int] == system@[i as int]@);
        }
        match &system[i] {
            ContentBlock::Text { text, cache, extra } => {
                let ghost st = (views(parts@), sink@);
                push_system_text(parts, text, cache.is_some(), extra, sink);
                proof {
                    assert((views(parts@), sink@) == system_text(st, text@, opt_view(*cache), extra@));
                }
            },
            b => {
                proof {
                    prompt_parts_error_stays(views(system@), i as nat + 1, system@.len());
                }
                return Err(
                    ConversionError::invalid_block_for_role(
                        Role::System,
                        b.kind_name(),
                        cat2("/system/", dec_usize(i).as_str()).as_str(),
                    ),
                );
            },
        }
        i += 1;
    }
    Ok(())
}

/// Serializes one block of a leading system message.
fn serialize_system_block(b: &ContentBlock, mi: usize, bi: usize, parts: &mut Vec<Json>, sink: &mut Sink) -> (r: Result<(), ConversionError>)
    ensures
        match r {
            Ok(_) => system_block((views(old(parts)@), old(sink)@), b@, mi as nat, bi as nat) == Ok::<
                (Seq<JsonV>, SinkV),
                ConversionErrorV,
            >((views(final(parts)@), final(sink)@)),
            Err(e) => system_block((views(old(parts)@), old(sink)@), b@, mi as nat, bi as nat) == Err::<
                (Seq<JsonV>, SinkV),
                ConversionErrorV,
            >(e@),
        },
{
    match b {
        ContentBlock::Text { text, cache, extra } => {
            let ghost st = (views(parts@), sink@);
            push_system_text(parts, text, cache.is_some(), extra, sink);
            proof {
                assert((views(parts@), sink@) == system_text(st, text@, opt_view(*cache), extra@));
            }
            Ok(())
        },
        ContentBlock::Opaque { format, value } => {
            if text_is(format, GOOGLE_GENERATE_CONTENT) {
                parts.push(value.copy());
            } else {
                let ptr = cat2("/systemInstruction/parts/", dec_usize(parts.len()).as_str());
                sink.warn(
                    GOOGLE_GENERATE_CONTENT,
                    WarningCode::OpaqueDropped,
                    ptr.as_str(),
                    cat3("opaque block belongs to format `", format.as_str(), "` and was dropped").as_str(),
                );
            }
            Ok(())
        },
        _ => Err(
            ConversionError::invalid_block_for_role(
                Role::System,
                b.kind_name(),
                cat4("/messages/", dec_usize(mi).as_str(), "/content/", dec_usize(bi).as_str()).as_str(),
            ),
        ),
    }
}

fn build_system_message(m: &Message, mi: usize, parts: &mut Vec<Json>, sink: &mut Sink) -> (r: Result<(), ConversionError>)
    ensures
        match r {
            Ok(_) => system_message((views(old(parts)@), old(sink)@), m@, mi as nat, m@.content.len()) == Ok::<
                (Seq<JsonV>, SinkV),
                ConversionErrorV,
            >((views(final(parts)@), final(sink)@)),
            Err(e) => system_message((views(old(parts)@), old(sink)@), m@, mi as nat, m@.content.len()) == Err::<
                (Seq<JsonV>, SinkV),
                ConversionErrorV,
            >(e@),
        },
{
    let ghost st = (views(parts@), sink@);
    let mut i: usize = 0;
    while i < m.content.len()
        invariant
            i <= m.content@.len(),
            st == (views(old(parts)@), old(sink)@),
            system_message(st, m@, mi as nat, i as nat) == Ok::<(Seq<JsonV>, SinkV), ConversionErrorV>(
                (views(parts@), sink@),
            ),
        decreases m.content@.len() - i,
    {
        match serialize_system_block(&m.content[i], mi, i, parts, sink) {
            Ok(_) => {},
            Err(e) => {
                proof {
                    system_message_error_stays(st, m@, mi as nat, i as nat + 1, m@.content.len());
                }
                return Err(e);
            },
        }
        i += 1;
    }
    Ok(())
}

fn count_leading(messages: &Vec<Message>) -> (r: usize)
    ensures
        r == leading_system(views(messages@), 0),
        r <= messages@.len(),
{
    let mut i: usize = 0;
    while i < messages.len() && messages[i].role == Role::System
        invariant
            i <= messages@.len(),
            leading_system(views(messages@), 0) == leading_system(views(messages@), i as int),
        decreases messages@.len() - i,
    {
        proof {
            assert(views(messages@)[i as int].role == messages@[i as int].role);
        }
        i += 1;
    }
    proof {
        if i < messages@.len() {
            assert(views(messages@)[i as int].role == messages@[i as int].role);
        }
    }
    i
}

fn is_kept(v: &Json) -> (r: bool)
    ensures
        r == keeps_system(v@),
{
    match v.as_object() {
        Some(o) => {
            if o.len() == 1 {
                match v.get("parts") {
                    Some(p) => match p.as_array() {
                        Some(a) => a.len() != 0,
                        None => true,
                    },
                    None => true,
                }
            } else {
                true
            }
        },
        None => false,
    }
}

/// Builds the system instruction from the request's system prompt and the
/// leading system messages.
fn build_system(system: &Option<Vec<ContentBlock>>, messages: &Vec<Message>, hoisted: usize) -> (r: Result<(Option<Json>, Sink), ConversionError>)
    requires
        hoisted == leading_system(views(messages@), 0),
        hoisted <= messages@.len(),
    ensures
        match r {
            Ok(v) => system_instruction(opt_views(*system), views(messages@)) == Ok::<
                (Option<JsonV>, SinkV),
                ConversionErrorV,
            >((opt_view(v.0), v.1@)),
            Err(e) => system_instruction(opt_views(*system), views(messages@)) == Err::<
                (Option<JsonV>, SinkV),
                ConversionErrorV,
            >(e@),
        },
{
    let ghost msgs = views(messages@);
    let mut parts: Vec<Json> = Vec::new();
    let mut sink = Sink::new();
    if let Some(b) = system {
        match build_prompt(b, &mut parts, &mut sink) {
            Ok(_) => {},
            Err(e) => {
                return Err(e);
            },
        }
    }
    let ghost st = (views(parts@), sink@);
    let ghost prompt = match opt_views(*system) {
        Some(b) => prompt_parts(b, b.len()),
        None => Ok((Seq::empty(), empty_sink())),
    };
    proof {
        assert(prompt == Ok::<(Seq<JsonV>, SinkV), ConversionErrorV>(st));
    }
    let mut i: usize = 0;
    while i < hoisted
        invariant
            i <= hoisted <= messages@.len(),
            hoisted == leading_system(msgs, 0),
            msgs == views(messages@),
            (match opt_views(*system) {
                Some(b) => prompt_parts(b, b.len()),
                None => Ok((Seq::empty(), empty_sink())),
            }) == Ok::<(Seq<JsonV>, SinkV), ConversionErrorV>(st),
            system_messages(st, msgs, i as nat) == Ok::<(Seq<JsonV>, SinkV), ConversionErrorV>(
                (views(parts@), sink@),
            ),
        decreases hoisted - i,
    {
        proof {
            assert(msgs[i as int] == messages@[i as int]@);
        }
        match build_system_message(&messages[i], i, &mut parts, &mut sink) {
            Ok(_) => {},
            Err(e) => {
                proof {
                    system_messages_error_stays(st, msgs, i as nat + 1, hoisted as nat);
                }
                return Err(e);
            },
        }
        i += 1;
    }
    let mut v = make1("parts", Json::array(parts));
    let ghost v0 = v@;
    let ghost s0 = sink@;
    let mut k: usize = 0;
    while k < hoisted
        invariant
            k <= hoisted <= messages@.len(),
            msgs == views(messages@),
            (v@, sink@) == system_merged(v0, s0, msgs, k as nat),
        decreases hoisted - k,
    {
        proof {
            assert(msgs[k as int] == messages@[k as int]@);
        }
        sink.merge(&messages[k].extra, GOOGLE_GENERATE_CONTENT, &mut v, "/systemInstruction");
        k += 1;
    }
    if is_kept(&v) {
        Ok((Some(v), sink))
    } else {
        Ok((None, sink))
    }
}

fn make_turn(side: Side) -> (r: Json)
    ensures
        r@ == new_turn(side),
{
    let name = match side {
        Side::User => "user",
        Side::Model => "model",
    };
    let empty: Vec<Json> = Vec::new();
    make2("role", Json::text(name), "parts", Json::array(empty))
}

fn turn_parts(v: &Json) -> (r: Vec<Json>)
    ensures
        views(r@) == parts_of(v@),
{
    match v.get("parts") {
        Some(p) => match p.as_array() {
            Some(a) => dup_vec(a),
            None => Vec::new(),
        },
        None => Vec::new(),
    }
}

fn push_message(t: &mut Turns, m: &Message, mi: usize, as_text: bool) -> (r: Result<(), ConversionError>)
    ensures
        match r {
            Ok(_) => turn_step(old(t)@, m@, mi as nat, as_text) == Ok::<TurnsV, ConversionErrorV>(final(t)@),
            Err(e) => turn_step(old(t)@, m@, mi as nat, as_text) == Err::<TurnsV, ConversionErrorV>(e@),
        },
{
    let ghost t0 = t@;
    let side = if m.role == Role::Assistant { Side::Model } else { Side::User };
    let n = t.contents.len();
    let joins = match t.last {
        Some(s) => s == side && n > 0,
        None => false,
    };
    let ci = if joins { n - 1 } else { n };
    let base = cat2("/contents/", dec_usize(ci).as_str());
    let content = if joins { t.contents[n - 1].copy() } else { make_turn(side) };
    let before = turn_parts(&content);
    let count = before.len();
    let mut log = MergeLog::new();
    std::mem::swap(&mut log, &mut t.sink.log);
    let mut inner = Sink { warnings: Vec::new(), log };
    let mut names = JsonMap::new();
    std::mem::swap(&mut names, &mut t.names);
    if m.role == Role::System || m.role == Role::Developer {
        let name = if m.role == Role::System { "system" } else { "developer" };
        inner.warn(
            GOOGLE_GENERATE_CONTENT,
            WarningCode::RoleDowngraded,
            base.as_str(),
            cat3("Google has no ", name, " role; the message was downgraded to user").as_str(),
        );
    }
    let mut p = Parts { parts: before, names, sink: inner };
    proof {
        assert(p@.sink == downgraded(SinkV { warnings: Seq::empty(), log: t0.sink.log }, m@.role, base@));
    }
    match serialize_message_blocks(&mut p, m, mi, ci, as_text) {
        Ok(_) => {},
        Err(e) => {
            return Err(e);
        },
    }
    t.names = p.names;
    t.sink.log = p.sink.log;
    if p.parts.len() == count && m.content.len() > 0 {
        let mut ws = relocate(p.sink.warnings, "/contents");
        t.sink.warnings.append(&mut ws);
        t.sink.warnings.push(
            ConversionWarning::to_format(
                WarningCode::EmptyMessageDropped,
                GOOGLE_GENERATE_CONTENT,
                "/contents",
                cat3(
                    "IR message ",
                    dec_usize(mi).as_str(),
                    " serialized to zero wire content (every block was dropped); the empty wire turn was omitted",
                ).as_str(),
            ),
        );
        return Ok(());
    }
    let mut ws = p.sink.warnings;
    t.sink.warnings.append(&mut ws);
    let mut v = content;
    v.put("parts", Json::array(p.parts));
    t.sink.merge(&m.extra, GOOGLE_GENERATE_CONTENT, &mut v, base.as_str());
    if joins {
        t.contents[n - 1] = v;
    } else {
        t.contents.push(v);
        t.pointers.push((base, if m.role == Role::Assistant { Role::Assistant } else { Role::User }));
    }
    t.last = Some(side);
    if mi < t.placed.len() {
        t.placed[mi] = Some(ci);
    }
    Ok(())
}

fn build_turns(t: &mut Turns, messages: &Vec<Message>, from: usize, as_text: bool) -> (r: Result<(), ConversionError>)
    requires
        from <= messages@.len(),
    ensures
        match r {
            Ok(_) => turns(old(t)@, views(messages@), from as nat, as_text, messages@.len()) == Ok::<
                TurnsV,
                ConversionErrorV,
            >(final(t)@),
            Err(e) => turns(old(t)@, views(messages@), from as nat, as_text, messages@.len()) == Err::<
                TurnsV,
                ConversionErrorV,
            >(e@),
        },
{
    let ghost t0 = t@;
    let ghost msgs = views(messages@);
    let mut i: usize = from;
    while i < messages.len()
        invariant
            from <= i <= messages@.len(),
            t0 == old(t)@,
            msgs == views(messages@),
            turns(t0, msgs, from as nat, as_text, i as nat) == Ok::<TurnsV, ConversionErrorV>(t@),
        decreases messages@.len() - i,
    {
        proof {
            assert(msgs[i as int] == messages@[i as int]@);
        }
        match push_message(t, &messages[i], i, as_text) {
            Ok(_) => {},
            Err(e) => {
                proof {
                    turns_error_stays(t0, msgs, from as nat, as_text, i as nat + 1, messages@.len());
                }
                return Err(e);
            },
        }
        i += 1;
    }
    Ok(())
}

fn make_declaration(f: &FunctionTool) -> (r: Json)
    ensures
        r@ == declaration(f@),
{
    let mut o = JsonMap::new();
    o.set("name", Json::Str(f.name.clone()));
    if let Some(d) = &f.description {
        o.set("description", Json::Str(d.clone()));
    }
    if let Some(p) = &f.parameters {
        o.set("parametersJsonSchema", p.copy());
    }
    Json::object(o)
}

fn push_tool(t: &mut Tools, tool: &Tool)
    requires
        old(t).at is None ==> old(t).decls@.len() == 0,
    ensures
        final(t)@ == tool_added(old(t)@, tool@),
        final(t).at is None ==> final(t).decls@.len() == 0,
{
    match tool {
        Tool::Function(f) => {
            let ei = match t.at {
                Some(i) => i,
                None => {
                    let i = t.entries.len();
                    let empty: Vec<Json> = Vec::new();
                    t.entries.push(make1("functionDeclarations", Json::array(empty)));
                    t.at = Some(i);
                    proof {
                        assert(views(t.decls@) =~= Seq::<JsonV>::empty());
                    }
                    i
                },
            };
            let ptr = cat4(
                "/tools/",
                dec_usize(ei).as_str(),
                "/functionDeclarations/",
                dec_usize(t.decls.len()).as_str(),
            );
            if f.strict.is_some() {
                t.sink.warn(
                    GOOGLE_GENERATE_CONTENT,
                    WarningCode::StrictUnsupported,
                    ptr.as_str(),
                    "Google has no per-tool strict flag; schema adherence cannot be requested",
                );
            }
            if f.cache.is_some() {
                t.sink.warn(
                    GOOGLE_GENERATE_CONTENT,
                    WarningCode::CacheHintDropped,
                    ptr.as_str(),
                    "Google tool declarations have no cache_control equivalent",
                );
            }
            let mut v = make_declaration(f);
            t.sink.merge(&f.extra, GOOGLE_GENERATE_CONTENT, &mut v, ptr.as_str());
            t.decls.push(v);
            if ei < t.entries.len() {
                t.entries[ei] = make1("functionDeclarations", Json::array(dup_vec(&t.decls)));
            }
        },
        Tool::Opaque { format, value } => {
            if text_is(format, GOOGLE_GENERATE_CONTENT) {
                t.entries.push(value.copy());
            } else {
                t.sink.warn(
                    GOOGLE_GENERATE_CONTENT,
                    WarningCode::OpaqueDropped,
                    cat2("/tools/", dec_usize(t.entries.len()).as_str()).as_str(),
                    cat3("opaque tool belongs to format `", format.as_str(), "` and was dropped").as_str(),
                );
            }
        },
    }
}

/// Serializes the tools.
fn serialize_tools(tools: &Option<Vec<Tool>>, body: &mut JsonMap, sink: Sink) -> (r: Sink)
    ensures
        (final(body)@, r@) == tools_field(opt_views(*tools), old(body)@, sink@),
{
    let tools = match tools {
        Some(t) => t,
        None => {
            return sink;
        },
    };
    let ghost s0 = sink@;
    let mut t = Tools { entries: Vec::new(), at: None, decls: Vec::new(), sink };
    let mut i: usize = 0;
    while i < tools.len()
        invariant
            i <= tools@.len(),
            t.at is None ==> t.decls@.len() == 0,
            t@ == tool_entries(views(tools@), s0, i as nat),
        decreases tools@.len() - i,
    {
        push_tool(&mut t, &tools[i]);
        i += 1;
    }
    if t.entries.len() > 0 || tools.len() == 0 {
        body.set("tools", Json::array(t.entries));
    }
    t.sink
}

fn make_calling_config(c: &ToolChoice) -> (r: Json)
    ensures
        r@ == calling_config(c@),
{
    let mode = match c {
        ToolChoice::Auto => "AUTO",
        ToolChoice::Disabled => "NONE",
        _ => "ANY",
    };
    let mut o = JsonMap::new();
    o.set("mode", Json::text(mode));
    if let ToolChoice::Tool { name } = c {
        let mut names: Vec<Json> = Vec::new();
        names.push(Json::Str(name.clone()));
        proof {
            assert(views(names@) =~= seq![JsonV::Str(name@)]);
        }
        o.set("allowedFunctionNames", Json::array(names));
    }
    make1("functionCallingConfig", Json::object(o))
}

fn note_parallel(parallel: Option<bool>, has_tools: bool, sink: &mut Sink)
    ensures
        forall|tools: Option<Seq<ToolV>>|
            (tools is Some && tools->0.len() > 0) == has_tools ==> final(sink)@ == #[trigger] parallel_note(
                parallel,
                tools,
                old(sink)@,
            ),
{
    if let Some(p) = parallel {
        if !has_tools {
            sink.warn(
                GOOGLE_GENERATE_CONTENT,
                WarningCode::ParallelToolCallsIgnored,
                "/toolConfig",
                "parallel_tool_calls is meaningless without tools and was not emitted",
            );
        } else if p {
            sink.warn(
                GOOGLE_GENERATE_CONTENT,
                WarningCode::ParallelToolCallsIgnored,
                "/toolConfig",
                "Google has no parallel_tool_calls channel; parallel calling is its default",
            );
        } else {
            sink.warn(
                GOOGLE_GENERATE_CONTENT,
                WarningCode::SerialToolCallsDropped,
                "/toolConfig",
                "Google cannot express parallel_tool_calls: false; the serial-execution constraint was dropped",
            );
        }
    }
}

fn build_sampling(req: &Request) -> (r: JsonMap)
    ensures
        r@ == sampling_config(req@),
{
    let mut c = JsonMap::new();
    if let Some(v) = req.max_output_tokens {
        c.set("maxOutputTokens", Json::uint(v as u64));
    }
    if let Some(v) = &req.temperature {
        c.set("temperature", make_float(v));
    }
    if let Some(v) = &req.top_p {
        c.set("topP", make_float(v));
    }
    if let Some(v) = req.top_k {
        c.set("topK", Json::uint(v as u64));
    }
    if let Some(v) = &req.stop_sequences {
        c.set("stopSequences", make_strings(v));
    }
    if let Some(v) = req.seed {
        c.set("seed", Json::sint(v));
    }
    if let Some(v) = &req.frequency_penalty {
        c.set("frequencyPenalty", make_float(v));
    }
    if let Some(v) = &req.presence_penalty {
        c.set("presencePenalty", make_float(v));
    }
    c
}

fn detail_names(name: bool, description: bool, strict: bool) -> (r: Vec<String>)
    ensures
        views(r@) == format_details(name, description, strict),
{
    let mut d: Vec<String> = Vec::new();
    if name {
        d.push("name".to_owned());
    }
    if description {
        d.push("description".to_owned());
    }
    if strict {
        d.push("strict".to_owned());
    }
    d
}

fn build_output(f: &Option<OutputFormat>, c: &mut JsonMap, sink: &mut Sink)
    ensures
        (final(c)@, final(sink)@) == output_config(opt_view(*f), old(c)@, old(sink)@),
{
    match f {
        Some(OutputFormat::JsonSchema { name, description, schema, strict }) => {
            c.set("responseMimeType", Json::text("application/json"));
            c.set("responseJsonSchema", schema.copy());
            let dropped = detail_names(name.is_some(), description.is_some(), strict.is_some());
            if dropped.len() > 0 {
                sink.warn(
                    GOOGLE_GENERATE_CONTENT,
                    WarningCode::OutputFormatDetailDropped,
                    "/generationConfig/responseJsonSchema",
                    cat2(
                        "Google responseJsonSchema carries only the schema; dropped: ",
                        join(&dropped, ", ").as_str(),
                    ).as_str(),
                );
            }
        },
        Some(OutputFormat::JsonObject) => {
            c.set("responseMimeType", Json::text("application/json"));
        },
        None => {},
    }
}

fn level_of(e: &Effort) -> (r: Option<String>)
    ensures
        opt_view(r) == thinking_level(e@),
{
    match e {
        Effort::Minimal => Some("MINIMAL".to_owned()),
        Effort::Low => Some("LOW".to_owned()),
        Effort::Medium => Some("MEDIUM".to_owned()),
        Effort::High => Some("HIGH".to_owned()),
        Effort::Other(s) => Some(s.clone()),
        _ => None,
    }
}

fn build_thinking(r: &Reasoning, sink: &mut Sink) -> (t: JsonMap)
    ensures
        (t@, final(sink)@) == thinking_fields(r@, old(sink)@),
{
    let conflict = match (r.enabled, &r.effort) {
        (Some(true), Some(Effort::Disabled)) => true,
        (Some(false), Some(Effort::Disabled)) => false,
        (Some(false), Some(_)) => true,
        _ => false,
    };
    if conflict {
        sink.warn(
            GOOGLE_GENERATE_CONTENT,
            WarningCode::ReasoningConflict,
            "/generationConfig/thinkingConfig",
            "reasoning.enabled and reasoning.effort conflict; effort wins",
        );
    }
    let mut t = JsonMap::new();
    match &r.effort {
        Some(e) => match level_of(e) {
            Some(level) => {
                t.set("thinkingLevel", Json::Str(level));
            },
            None => {
                sink.warn(
                    GOOGLE_GENERATE_CONTENT,
                    WarningCode::EffortUnsupported,
                    "/generationConfig/thinkingConfig",
                    cat3(
                        "Google thinkingLevel accepts minimal/low/medium/high; `",
                        e.as_str(),
                        "` was dropped",
                    ).as_str(),
                );
            },
        },
        None => {
            if let Some(false) = r.enabled {
                sink.warn(
                    GOOGLE_GENERATE_CONTENT,
                    WarningCode::ReasoningDisableUnsupported,
                    "/generationConfig/thinkingConfig",
                    "Google thinkingConfig cannot disable thinking (thinkingBudget: 0 via extra may work on some models)",
                );
            }
        },
    }
    if let Some(b) = r.include_thoughts {
        t.set("includeThoughts", Json::Bool(b));
    }
    t
}

/// Builds the generation configuration.
fn build_generation_config(req: &Request, sink: &mut Sink) -> (r: JsonMap)
    ensures
        (r@, final(sink)@) == generation_config(req@, old(sink)@),
{
    let mut c = build_sampling(req);
    build_output(&req.output_format, &mut c, sink);
    if let Some(r) = &req.reasoning {
        let t = build_thinking(r, sink);
        let mut v = Json::object(t);
        sink.merge(&r.extra, GOOGLE_GENERATE_CONTENT, &mut v, "/generationConfig/thinkingConfig");
        let keep = match v.as_object() {
            Some(o) => !o.is_empty(),
            None => false,
        };
        if keep {
            c.set("thinkingConfig", v);
        }
    }
    c
}

fn list_keys(o: &JsonMap) -> (r: Vec<String>)
    ensures
        views(r@) == key_names(o@),
{
    let ghost all = key_names(o@);
    let mut out: Vec<String> = Vec::new();
    let mut i: usize = 0;
    while i < o.entries.len()
        invariant
            i <= o.entries@.len(),
            all == key_names(o@),
            views(out@) == all.take(i as int),
        decreases o.entries@.len() - i,
    {
        out.push(o.entries[i].0.clone());
        proof {
            assert(o@[i as int].0 == o.entries@[i as int].0@);
            assert(all.take(i as int + 1) =~= all.take(i as int).push(all[i as int]));
        }
        i += 1;
    }
    proof {
        assert(all.take(i as int) =~= all);
    }
    out
}

fn note_lost_fields(req: &Request, sink: &mut Sink)
    ensures
        final(sink)@ == lost_fields(req@, old(sink)@),
{
    if let Some(m) = &req.metadata {
        sink.warn(
            GOOGLE_GENERATE_CONTENT,
            WarningCode::MetadataDropped,
            "/metadata",
            cat2(
                "Google has no request metadata channel; dropped keys: ",
                join(&list_keys(m), ", ").as_str(),
            ).as_str(),
        );
    }
    if req.cache_key.is_some() {
        sink.warn(
            GOOGLE_GENERATE_CONTENT,
            WarningCode::CacheKeyDropped,
            "/cacheKey",
            "Google has no prompt cache key channel; cache_key was dropped",
        );
    }
}

fn make_orphan_texts() -> (r: OrphanTexts)
    ensures
        r@ == google_orphan_texts(),
{
    OrphanTexts {
        middle: "assistant message contains tool calls without matching results; mid-conversation orphans are never repaired".to_owned(),
        dropped_before: "removed ".to_owned(),
        dropped_after: " unmatched trailing tool call(s) as requested".to_owned(),
        thinking: "dropping trailing tool calls left a thinking block without any tool call; the upstream may reject the turn".to_owned(),
        appended_before: "appended ".to_owned(),
        appended_after: " synthetic error tool result(s) as requested".to_owned(),
    }
}

fn prepare(req: &Request, convert: &ConvertOptions, messages: &mut Vec<Message>, pending: &mut Vec<Pending>)
    requires
        views(old(messages)@) == req@.messages,
        old(pending)@.len() == 0,
    ensures
        (views(final(messages)@), views(final(pending)@)) == google_prepared(req@, convert@),
{
    proof {
        assert(views(pending@) =~= Seq::<PendingV>::empty());
    }
    apply_orphan_policy(messages, convert.orphan_tool_calls, &make_orphan_texts(), pending);
    if request_enables_thinking(req.reasoning.as_ref()) {
        apply_missing_thinking(
            messages,
            &convert.fill_missing_thinking,
            "inserted a placeholder thinking block before the tool calls",
            "assistant message carries tool calls but no thinking while the request enables thinking; Google requires thought signatures with function calls on thinking models",
            pending,
        );
    }
}

fn locate(p: &Pending, placed: &Vec<Option<usize>>) -> (r: String)
    ensures
        r@ == deferred_location(p@, placed@),
{
    match p.message {
        Some(i) => {
            if i < placed.len() {
                if let Some(ci) = placed[i] {
                    return cat2("/contents/", dec_usize(ci).as_str());
                }
            }
            "/contents".to_owned()
        },
        None => "/contents".to_owned(),
    }
}

fn resolve_pending(pending: &Vec<Pending>, placed: &Vec<Option<usize>>, ws: &mut Vec<ConversionWarning>)
    ensures
        views(final(ws)@) == views(old(ws)@) + deferred(views(pending@), placed@, pending@.len()),
{
    let ghost w0 = views(ws@);
    let mut k: usize = 0;
    proof {
        assert(views(ws@) =~= w0 + deferred(views(pending@), placed@, 0));
    }
    while k < pending.len()
        invariant
            k <= pending@.len(),
            views(ws@) == w0 + deferred(views(pending@), placed@, k as nat),
        decreases pending@.len() - k,
    {
        let p = &pending[k];
        let loc = locate(p, placed);
        ws.push(ConversionWarning::to_format(p.code, GOOGLE_GENERATE_CONTENT, loc.as_str(), p.text.as_str()));
        proof {
            assert(views(ws@) =~= w0 + deferred(views(pending@), placed@, k as nat + 1));
        }
        k += 1;
    }
}

fn unplaced(n: usize) -> (r: Vec<Option<usize>>)
    ensures
        r@ == Seq::new(n as nat, |i: int| None::<usize>),
{
    let mut v: Vec<Option<usize>> = Vec::new();
    let mut i: usize = 0;
    while i < n
        invariant
            i <= n,
            v@.len() == i,
            forall|k: int| 0 <= k < i ==> v@[k] is None,
        decreases n - i,
    {
        v.push(None);
        i += 1;
    }
    proof {
        assert(v@ =~= Seq::new(n as nat, |i: int| None::<usize>));
    }
    v
}

fn build_fields(req: &Request, system: Option<Json>, body: &mut JsonMap, sink: Sink) -> (r: Sink)
    ensures
        (final(body)@, r@) == google_fields(req@, opt_view(system), old(body)@, sink@),
{
    let mut sink = serialize_tools(&req.tools, body, sink);
    if let Some(c) = &req.tool_choice {
        body.set("toolConfig", make_calling_config(c));
    }
    let has_tools = match &req.tools {
        Some(t) => t.len() > 0,
        None => false,
    };
    let ghost s1 = sink@;
    note_parallel(req.parallel_tool_calls, has_tools, &mut sink);
    proof {
        assert(sink@ == parallel_note(req@.parallel_tool_calls, req@.tools, s1));
    }
    if let Some(v) = system {
        body.set("systemInstruction", v);
    }
    let c = build_generation_config(req, &mut sink);
    if !c.is_empty() {
        body.set("generationConfig", Json::object(c));
    }
    note_lost_fields(req, &mut sink);
    sink
}

/// Builds the request body from the IR.
pub fn build_body(req: &Request, convert: &ConvertOptions) -> (r: Result<BuiltBody, ConversionError>)
    ensures
        match r {
            Ok(b) => google_body(req@, convert@) == Ok::<BuiltBodyV, ConversionErrorV>(b@),
            Err(e) => google_body(req@, convert@) == Err::<BuiltBodyV, ConversionErrorV>(e@),
        },
{
    let mut messages = dup_vec(&req.messages);
    let mut pending: Vec<Pending> = Vec::new();
    prepare(req, convert, &mut messages, &mut pending);
    let hoisted = count_leading(&messages);
    let (system, sink) = match build_system(&req.system, &messages, hoisted) {
        Ok(v) => v,
        Err(e) => {
            return Err(e);
        },
    };
    let mut t = Turns {
        contents: Vec::new(),
        last: None,
        pointers: Vec::new(),
        placed: unplaced(messages.len()),
        names: JsonMap::new(),
        sink,
    };
    match build_turns(&mut t, &messages, hoisted, convert.thinking_as_text) {
        Ok(_) => {},
        Err(e) => {
            return Err(e);
        },
    }
    let mut body = JsonMap::new();
    body.set("contents", Json::array(t.contents));
    let mut sink = build_fields(req, system, &mut body, t.sink);
    let mut value = Json::object(body);
    proof {
        reveal_strlit("");
        assert(""@ =~= Seq::<char>::empty());
    }
    sink.merge(&req.extra, GOOGLE_GENERATE_CONTENT, &mut value, "");
    let mut warnings = sink.warnings;
    resolve_pending(&pending, &t.placed, &mut warnings);
    Ok(
        BuiltBody {
            body: value,
            warnings,
            merge_log: sink.log,
            message_pointers: t.pointers,
        },
    )
}

} // verus!
