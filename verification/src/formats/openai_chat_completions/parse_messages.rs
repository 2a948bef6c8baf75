//! Chat Completions wire messages as IR messages.

use vstd::prelude::*;
use crate::convert::{ConversionWarning, ConversionWarningV};
use crate::decode::{extend_map, extended};
use crate::format::OPENAI_CHAT_COMPLETIONS;
use crate::formats::openai_chat_completions::parse_parts::{call_blocks, odd_field, opaque, output_blocks, own_extra, parse_calls, parse_output, parse_parts, part_blocks, refusal_block, refusal_text_block, warn_field};
use crate::formats::openai_chat_completions::types;
use crate::ir::{plain_message, text_block, text_output, thinking_block, ContentBlock, ContentBlockV, Extra, Message, MessageV, Role, ToolOutputBlock, ToolOutputBlockV};
use crate::json::{group_json, obj_set, put_if, put_opt, Json, JsonMap, JsonV, ObjV};
use crate::model::{dup_opt, group_views, opt_view, views, Dup};
use crate::text::{cat2, cat3, dec_usize, decimal, text_is};

verus! {

broadcast use group_views;

/// What the fields of a wire message have come to.
pub struct FieldsV {
    pub blocks: Seq<ContentBlockV>,
    pub ns: ObjV,
    pub warnings: Seq<ConversionWarningV>,
}

/// Fields of a wire message that are being parsed.
#[derive(Debug)]
pub struct Fields {
    pub blocks: Vec<ContentBlock>,
    pub ns: JsonMap,
    pub warnings: Vec<ConversionWarning>,
}

impl View for Fields {
    type V = FieldsV;

    open spec fn view(&self) -> FieldsV {
        FieldsV { blocks: views(self.blocks@), ns: self.ns@, warnings: views(self.warnings@) }
    }
}

/// A field of the wrong shape stays verbatim in the namespace.
pub open spec fn kept_field(f: FieldsV, key: Seq<char>, v: JsonV, ptr: Seq<char>, message: Seq<char>) -> FieldsV {
    FieldsV {
        blocks: f.blocks,
        ns: obj_set(f.ns, key, v),
        warnings: odd_field(f.warnings, ptr + "/"@ + key, message),
    }
}

/// The thinking channel.
pub open spec fn read_thinking(f: FieldsV, v: Option<JsonV>, ptr: Seq<char>) -> FieldsV {
    match v {
        None => f,
        Some(JsonV::Null) => f,
        Some(JsonV::Str(s)) => FieldsV { blocks: f.blocks.push(thinking_block(s)), ..f },
        Some(other) => kept_field(
            f,
            "reasoning_content"@,
            other,
            ptr,
            "non-string `reasoning_content` kept verbatim in the message extra"@,
        ),
    }
}

/// The content, of an input message or of an assistant message.
pub open spec fn read_content(f: FieldsV, v: Option<JsonV>, ptr: Seq<char>, input_side: bool) -> FieldsV {
    match v {
        None => f,
        Some(JsonV::Null) => f,
        Some(JsonV::Str(s)) => FieldsV { blocks: f.blocks.push(text_block(s)), ..f },
        Some(JsonV::Array(parts)) => {
            let (bs, ws) = part_blocks(parts, ptr, input_side, f.warnings, parts.len());
            FieldsV { blocks: f.blocks + bs, ns: f.ns, warnings: ws }
        },
        Some(other) => kept_field(
            f,
            "content"@,
            other,
            ptr,
            if input_side {
                "`content` is neither a string nor an array; kept verbatim in the message extra"@
            } else {
                "assistant `content` is neither a string nor an array; kept verbatim in the message extra"@
            },
        ),
    }
}

/// The refusal of the message.
pub open spec fn read_refusal(f: FieldsV, v: Option<JsonV>, ptr: Seq<char>) -> FieldsV {
    match v {
        None => f,
        Some(JsonV::Null) => f,
        Some(JsonV::Str(s)) => FieldsV { blocks: f.blocks.push(refusal_block(s, Seq::empty())), ..f },
        Some(other) => kept_field(
            f,
            "refusal"@,
            other,
            ptr,
            "non-string `refusal` kept verbatim in the message extra"@,
        ),
    }
}

/// The tool calls.
pub open spec fn read_calls(f: FieldsV, v: Option<JsonV>, ptr: Seq<char>) -> FieldsV {
    match v {
        None => f,
        Some(JsonV::Null) => f,
        Some(JsonV::Array(entries)) => {
            let (bs, ws) = call_blocks(entries, ptr, f.blocks, f.warnings, entries.len());
            FieldsV { blocks: bs, ns: f.ns, warnings: ws }
        },
        Some(other) => kept_field(
            f,
            "tool_calls"@,
            other,
            ptr,
            "non-array `tool_calls` kept verbatim in the message extra"@,
        ),
    }
}

/// No field read yet.
pub open spec fn no_fields(ws: Seq<ConversionWarningV>) -> FieldsV {
    FieldsV { blocks: Seq::empty(), ns: Seq::empty(), warnings: ws }
}

/// The blocks of an assistant message: thinking, content, refusal, calls.
pub open spec fn assistant_fields(w: types::MessageV, ptr: Seq<char>, ws: Seq<ConversionWarningV>) -> FieldsV {
    read_calls(
        read_refusal(
            read_content(
                read_thinking(no_fields(ws), w.reasoning_content, ptr),
                w.content,
                ptr,
                false,
            ),
            w.refusal,
            ptr,
        ),
        w.tool_calls,
        ptr,
    )
}

/// A message with provider data.
pub open spec fn message_with(role: Role, content: Seq<ContentBlockV>, ns: ObjV) -> MessageV {
    MessageV { extra: own_extra(ns), ..plain_message(role, content) }
}

/// An assistant message.
pub open spec fn assistant_of(
    w: types::MessageV,
    ptr: Seq<char>,
    ws: Seq<ConversionWarningV>,
) -> (MessageV, Seq<ConversionWarningV>) {
    let f = assistant_fields(w, ptr, ws);
    let ns = extended(put_if(put_if(f.ns, "name"@, w.name), "tool_call_id"@, w.tool_call_id), w.extra);
    (message_with(Role::Assistant, f.blocks, ns), f.warnings)
}

/// The assistant message of a response; empty when it does not parse.
pub open spec fn assistant_from(
    j: JsonV,
    ptr: Seq<char>,
    ws: Seq<ConversionWarningV>,
) -> (MessageV, Seq<ConversionWarningV>) {
    match types::decode_message(j) {
        Ok(w) => assistant_of(w, ptr, ws),
        Err(e) => (
            plain_message(Role::Assistant, Seq::empty()),
            odd_field(ws, ptr, "assistant message failed to parse; it is empty: "@ + e),
        ),
    }
}

/// The fields that an input message does not use.
pub open spec fn stashed(w: types::MessageV, ns: ObjV) -> ObjV {
    put_if(
        put_if(
            put_if(put_if(ns, "reasoning_content"@, w.reasoning_content), "refusal"@, w.refusal),
            "tool_calls"@,
            w.tool_calls,
        ),
        "tool_call_id"@,
        w.tool_call_id,
    )
}

/// A system, developer or user message.
pub open spec fn input_of(
    role: Role,
    w: types::MessageV,
    ptr: Seq<char>,
    ws: Seq<ConversionWarningV>,
) -> (MessageV, Seq<ConversionWarningV>) {
    let f = read_content(no_fields(ws), w.content, ptr, true);
    let ns = extended(put_if(stashed(w, f.ns), "name"@, w.name), w.extra);
    (message_with(role, f.blocks, ns), f.warnings)
}

/// The id of the answered call.
pub open spec fn answered_id(
    v: Option<JsonV>,
    ptr: Seq<char>,
    ws: Seq<ConversionWarningV>,
) -> (Option<Seq<char>>, ObjV, Seq<ConversionWarningV>) {
    match v {
        Some(JsonV::Str(s)) => (Some(s), Seq::empty(), ws),
        None => (None, Seq::empty(), ws),
        Some(JsonV::Null) => (None, Seq::empty(), ws),
        Some(other) => (
            None,
            obj_set(Seq::empty(), "tool_call_id"@, other),
            odd_field(
                ws,
                ptr + "/tool_call_id"@,
                "non-string `tool_call_id` kept verbatim in the block extra"@,
            ),
        ),
    }
}

/// The name of the answered tool.
pub open spec fn answered_name(v: Option<JsonV>, ns: ObjV) -> (Option<Seq<char>>, ObjV) {
    match v {
        Some(JsonV::Str(s)) => (Some(s), ns),
        None => (None, ns),
        Some(JsonV::Null) => (None, ns),
        Some(other) => (None, obj_set(ns, "name"@, other)),
    }
}

/// The output of the tool; an empty string is no output.
pub open spec fn answered_content(
    v: Option<JsonV>,
    ptr: Seq<char>,
    ns: ObjV,
    ws: Seq<ConversionWarningV>,
) -> (Seq<ToolOutputBlockV>, ObjV, Seq<ConversionWarningV>) {
    match v {
        None => (Seq::empty(), ns, ws),
        Some(JsonV::Null) => (Seq::empty(), ns, ws),
        Some(JsonV::Str(s)) => (if s.len() == 0 { Seq::empty() } else { seq![text_output(s)] }, ns, ws),
        Some(JsonV::Array(parts)) => (output_blocks(parts), ns, ws),
        Some(other) => (
            Seq::empty(),
            obj_set(ns, "content"@, other),
            odd_field(
                ws,
                ptr + "/content"@,
                "tool `content` is neither a string nor an array; kept verbatim in the block extra"@,
            ),
        ),
    }
}

/// A tool message: one result.
pub open spec fn tool_of(
    w: types::MessageV,
    ptr: Seq<char>,
    ws: Seq<ConversionWarningV>,
) -> (MessageV, Seq<ConversionWarningV>) {
    let (id, ns1, ws1) = answered_id(w.tool_call_id, ptr, ws);
    let (name, ns2) = answered_name(w.name, ns1);
    let (content, ns3, ws3) = answered_content(w.content, ptr, ns2, ws1);
    let ns4 = put_if(
        put_if(put_if(ns3, "reasoning_content"@, w.reasoning_content), "refusal"@, w.refusal),
        "tool_calls"@,
        w.tool_calls,
    );
    (
        plain_message(
            Role::Tool,
            seq![
                ContentBlockV::ToolResult {
                    tool_call_id: id,
                    name,
                    content,
                    is_error: None,
                    cache: None,
                    extra: own_extra(extended(ns4, w.extra)),
                },
            ],
        ),
        ws3,
    )
}

/// A message that is kept verbatim.
pub open spec fn verbatim_message(role: Role, j: JsonV) -> MessageV {
    plain_message(role, seq![opaque(j)])
}

/// Wire message `i` of a request.
pub open spec fn parsed_message(j: JsonV, i: nat, ws: Seq<ConversionWarningV>) -> (MessageV, Seq<ConversionWarningV>) {
    let ptr = "/messages/"@ + decimal(i);
    match types::decode_message(j) {
        Err(e) => (
            verbatim_message(Role::User, j),
            odd_field(ws, ptr, "message failed to parse and was kept verbatim: "@ + e),
        ),
        Ok(w) => match w.role {
            None => (
                verbatim_message(Role::User, j),
                odd_field(ws, ptr, "message has no `role`; kept verbatim"@),
            ),
            Some(role) => if role == "system"@ {
                input_of(Role::System, w, ptr, ws)
            } else if role == "developer"@ {
                input_of(Role::Developer, w, ptr, ws)
            } else if role == "user"@ {
                input_of(Role::User, w, ptr, ws)
            } else if role == "assistant"@ {
                assistant_of(w, ptr, ws)
            } else if role == "tool"@ {
                tool_of(w, ptr, ws)
            } else if role == "function"@ {
                (verbatim_message(Role::Tool, j), ws)
            } else {
                (
                    verbatim_message(Role::User, j),
                    odd_field(
                        ws,
                        ptr,
                        "unknown message role `"@ + role + "`; the message was kept verbatim"@,
                    ),
                )
            },
        },
    }
}

/// The first `n` wire messages of a request.
pub open spec fn parsed_messages(a: Seq<JsonV>, ws: Seq<ConversionWarningV>, n: nat) -> (Seq<MessageV>, Seq<ConversionWarningV>)
    decreases n,
{
    if n == 0 || n > a.len() {
        (Seq::empty(), ws)
    } else {
        let (prev, ws1) = parsed_messages(a, ws, (n - 1) as nat);
        let (m, ws2) = parsed_message(a[n - 1], (n - 1) as nat, ws1);
        (prev.push(m), ws2)
    }
}

fn keep_field(f: &mut Fields, key: &str, v: &Json, ptr: &str, message: &str)
    ensures
        final(f)@ == kept_field(old(f)@, key@, v@, ptr@, message@),
{
    f.ns.set(key, v.copy());
    warn_field(&mut f.warnings, cat3(ptr, "/", key).as_str(), message);
}

fn take_thinking(f: &mut Fields, v: &Option<Json>, ptr: &str)
    ensures
        final(f)@ == read_thinking(old(f)@, opt_view(*v), ptr@),
{
    match v {
        None => {},
        Some(Json::Null) => {},
        Some(Json::Str(s)) => {
            f.blocks.push(ContentBlock::thinking(s.clone()));
        },
        Some(other) => {
            keep_field(
                f,
                "reasoning_content",
                other,
                ptr,
                "non-string `reasoning_content` kept verbatim in the message extra",
            );
        },
    }
}

fn take_content(f: &mut Fields, v: &Option<Json>, ptr: &str, input_side: bool)
    ensures
        final(f)@ == read_content(old(f)@, opt_view(*v), ptr@, input_side),
{
    broadcast use group_json;
    let ghost b0 = views(f.blocks@);
    match v {
        None => {},
        Some(Json::Null) => {},
        Some(Json::Str(s)) => {
            f.blocks.push(ContentBlock::text(s.clone()));
        },
        Some(Json::Array(parts)) => {
            let mut bs = parse_parts(parts, ptr, input_side, &mut f.warnings);
            let ghost bv = views(bs@);
            f.blocks.append(&mut bs);
            proof {
                assert(views(f.blocks@) =~= b0 + bv);
            }
        },
        Some(other) => {
            keep_field(
                f,
                "content",
                other,
                ptr,
                if input_side {
                    "`content` is neither a string nor an array; kept verbatim in the message extra"
                } else {
                    "assistant `content` is neither a string nor an array; kept verbatim in the message extra"
                },
            );
        },
    }
}

fn take_refusal(f: &mut Fields, v: &Option<Json>, ptr: &str)
    ensures
        final(f)@ == read_refusal(old(f)@, opt_view(*v), ptr@),
{
    match v {
        None => {},
        Some(Json::Null) => {},
        Some(Json::Str(s)) => {
            f.blocks.push(refusal_text_block(s.clone(), JsonMap::new()));
        },
        Some(other) => {
            keep_field(
                f,
                "refusal",
                other,
                ptr,
                "non-string `refusal` kept verbatim in the message extra",
            );
        },
    }
}

fn take_calls(f: &mut Fields, v: &Option<Json>, ptr: &str)
    ensures
        final(f)@ == read_calls(old(f)@, opt_view(*v), ptr@),
{
    broadcast use group_json;
    match v {
        None => {},
        Some(Json::Null) => {},
        Some(Json::Array(entries)) => {
            parse_calls(entries, ptr, &mut f.blocks, &mut f.warnings);
        },
        Some(other) => {
            keep_field(
                f,
                "tool_calls",
                other,
                ptr,
                "non-array `tool_calls` kept verbatim in the message extra",
            );
        },
    }
}

fn start_fields(ws: Vec<ConversionWarning>) -> (r: Fields)
    ensures
        r@ == no_fields(views(ws@)),
{
    let f = Fields { blocks: Vec::new(), ns: JsonMap::new(), warnings: ws };
    proof {
        assert(f@.blocks =~= Seq::<ContentBlockV>::empty());
    }
    f
}

/// Extracts the blocks of an assistant message.
pub fn assistant_fields_to_blocks(w: &types::Message, ptr: &str, ws: Vec<ConversionWarning>) -> (r: Fields)
    ensures
        r@ == assistant_fields(w@, ptr@, views(ws@)),
{
    let mut f = start_fields(ws);
    take_thinking(&mut f, &w.reasoning_content, ptr);
    take_content(&mut f, &w.content, ptr, false);
    take_refusal(&mut f, &w.refusal, ptr);
    take_calls(&mut f, &w.tool_calls, ptr);
    f
}

fn make_message(role: Role, content: Vec<ContentBlock>, ns: JsonMap) -> (r: Message)
    ensures
        r@ == message_with(role, views(content@), ns@),
{
    let mut m = Message::new(role, content);
    m.extra = Extra::from_unknown(OPENAI_CHAT_COMPLETIONS, ns);
    m
}

/// Builds the IR assistant message from a typed wire message.
pub fn assistant_wire_to_message(w: types::Message, ptr: &str, ws: Vec<ConversionWarning>) -> (r: (Message, Vec<ConversionWarning>))
    ensures
        (r.0@, views(r.1@)) == assistant_of(w@, ptr@, views(ws@)),
{
    let f = assistant_fields_to_blocks(&w, ptr, ws);
    let mut ns = f.ns;
    put_opt(&mut ns, "name", w.name);
    put_opt(&mut ns, "tool_call_id", w.tool_call_id);
    extend_map(&mut ns, &w.extra);
    (make_message(Role::Assistant, f.blocks, ns), f.warnings)
}

/// Parses the assistant message of a response.
pub fn assistant_value_to_message(j: &Json, ptr: &str, ws: Vec<ConversionWarning>) -> (r: (Message, Vec<ConversionWarning>))
    ensures
        (r.0@, views(r.1@)) == assistant_from(j@, ptr@, views(ws@)),
{
    match types::Message::from_json(j) {
        Ok(w) => assistant_wire_to_message(w, ptr, ws),
        Err(e) => {
            let mut ws = ws;
            warn_field(
                &mut ws,
                ptr,
                cat2("assistant message failed to parse; it is empty: ", e.as_str()).as_str(),
            );
            let m = Message::assistant(Vec::new());
            proof {
                assert(m@.content =~= Seq::<ContentBlockV>::empty());
            }
            (m, ws)
        },
    }
}

fn stash_unused_message_fields(w: &types::Message, ns: &mut JsonMap)
    ensures
        final(ns)@ == stashed(w@, old(ns)@),
{
    put_opt(ns, "reasoning_content", dup_opt(&w.reasoning_content));
    put_opt(ns, "refusal", dup_opt(&w.refusal));
    put_opt(ns, "tool_calls", dup_opt(&w.tool_calls));
    put_opt(ns, "tool_call_id", dup_opt(&w.tool_call_id));
}

/// Parses a system, developer or user message.
pub fn input_message_to_ir(role: Role, w: types::Message, ptr: &str, ws: Vec<ConversionWarning>) -> (r: (Message, Vec<ConversionWarning>))
    ensures
        (r.0@, views(r.1@)) == input_of(role, w@, ptr@, views(ws@)),
{
    let mut f = start_fields(ws);
    take_content(&mut f, &w.content, ptr, true);
    let mut ns = f.ns;
    stash_unused_message_fields(&w, &mut ns);
    put_opt(&mut ns, "name", w.name);
    extend_map(&mut ns, &w.extra);
    (make_message(role, f.blocks, ns), f.warnings)
}

fn take_answered_id(v: &Option<Json>, ptr: &str, ns: &mut JsonMap, ws: &mut Vec<ConversionWarning>) -> (r: Option<String>)
    requires
        old(ns)@ == Seq::<(Seq<char>, JsonV)>::empty(),
    ensures
        (opt_view(r), final(ns)@, views(final(ws)@)) == answered_id(opt_view(*v), ptr@, views(old(ws)@)),
{
    match v {
        Some(Json::Str(s)) => Some(s.clone()),
        None => None,
        Some(Json::Null) => None,
        Some(other) => {
            warn_field(
                ws,
                cat2(ptr, "/tool_call_id").as_str(),
                "non-string `tool_call_id` kept verbatim in the block extra",
            );
            ns.set("tool_call_id", other.copy());
            None
        },
    }
}

fn take_answered_name(v: &Option<Json>, ns: &mut JsonMap) -> (r: Option<String>)
    ensures
        (opt_view(r), final(ns)@) == answered_name(opt_view(*v), old(ns)@),
{
    match v {
        Some(Json::Str(s)) => Some(s.clone()),
        None => None,
        Some(Json::Null) => None,
        Some(other) => {
            ns.set("name", other.copy());
            None
        },
    }
}

fn take_answered_content(v: &Option<Json>, ptr: &str, ns: &mut JsonMap, ws: &mut Vec<ConversionWarning>) -> (r: Vec<ToolOutputBlock>)
    ensures
        (views(r@), final(ns)@, views(final(ws)@)) == answered_content(
            opt_view(*v),
            ptr@,
            old(ns)@,
            views(old(ws)@),
        ),
{
    broadcast use group_json;
    let mut out: Vec<ToolOutputBlock> = Vec::new();
    proof {
        assert(views(out@) =~= Seq::<ToolOutputBlockV>::empty());
    }
    match v {
        None => {},
        Some(Json::Null) => {},
        Some(Json::Str(s)) => {
            if !s.as_str().is_empty() {
                out.push(ToolOutputBlock::text(s.clone()));
                proof {
                    assert(views(out@) =~= seq![text_output(s@)]);
                }
            }
        },
        Some(Json::Array(parts)) => {
            out = parse_output(parts);
        },
        Some(other) => {
            warn_field(
                ws,
                cat2(ptr, "/content").as_str(),
                "tool `content` is neither a string nor an array; kept verbatim in the block extra",
            );
            ns.set("content", other.copy());
        },
    }
    out
}

/// Parses a tool message.
pub fn tool_message_to_ir(w: types::Message, ptr: &str, ws: Vec<ConversionWarning>) -> (r: (Message, Vec<ConversionWarning>))
    ensures
        (r.0@, views(r.1@)) == tool_of(w@, ptr@, views(ws@)),
{
    let mut ws = ws;
    let mut ns = JsonMap::new();
    let tool_call_id = take_answered_id(&w.tool_call_id, ptr, &mut ns, &mut ws);
    let name = take_answered_name(&w.name, &mut ns);
    let content = take_answered_content(&w.content, ptr, &mut ns, &mut ws);
    put_opt(&mut ns, "reasoning_content", w.reasoning_content);
    put_opt(&mut ns, "refusal", w.refusal);
    put_opt(&mut ns, "tool_calls", w.tool_calls);
    extend_map(&mut ns, &w.extra);
    let block = ContentBlock::ToolResult {
        tool_call_id,
        name,
        content,
        is_error: None,
        cache: None,
        extra: Extra::from_unknown(OPENAI_CHAT_COMPLETIONS, ns),
    };
    let mut blocks: Vec<ContentBlock> = Vec::new();
    blocks.push(block);
    proof {
        assert(views(blocks@) =~= seq![block@]);
    }
    (Message::tool(blocks), ws)
}

fn keep_message(role: Role, j: &Json) -> (r: Message)
    ensures
        r@ == verbatim_message(role, j@),
{
    let b = ContentBlock::opaque(OPENAI_CHAT_COMPLETIONS, j.copy());
    let mut blocks: Vec<ContentBlock> = Vec::new();
    blocks.push(b);
    proof {
        assert(views(blocks@) =~= seq![b@]);
    }
    Message::new(role, blocks)
}

/// Parses one wire message of a request.
pub fn parse_message(j: &Json, i: usize, ws: Vec<ConversionWarning>) -> (r: (Message, Vec<ConversionWarning>))
    ensures
        (r.0@, views(r.1@)) == parsed_message(j@, i as nat, views(ws@)),
{
    let ptr = cat2("/messages/", dec_usize(i).as_str());
    let mut ws = ws;
    let w = match types::Message::from_json(j) {
        Ok(w) => w,
        Err(e) => {
            warn_field(
                &mut ws,
                ptr.as_str(),
                cat2("message failed to parse and was kept verbatim: ", e.as_str()).as_str(),
            );
            return (keep_message(Role::User, j), ws);
        },
    };
    let role = match &w.role {
        Some(role) => role.clone(),
        None => {
            warn_field(&mut ws, ptr.as_str(), "message has no `role`; kept verbatim");
            return (keep_message(Role::User, j), ws);
        },
    };
    if text_is(&role, "system") {
        input_message_to_ir(Role::System, w, ptr.as_str(), ws)
    } else if text_is(&role, "developer") {
        input_message_to_ir(Role::Developer, w, ptr.as_str(), ws)
    } else if text_is(&role, "user") {
        input_message_to_ir(Role::User, w, ptr.as_str(), ws)
    } else if text_is(&role, "assistant") {
        assistant_wire_to_message(w, ptr.as_str(), ws)
    } else if text_is(&role, "tool") {
        tool_message_to_ir(w, ptr.as_str(), ws)
    } else if text_is(&role, "function") {
        (keep_message(Role::Tool, j), ws)
    } else {
        warn_field(
            &mut ws,
            ptr.as_str(),
            cat3("unknown message role `", role.as_str(), "`; the message was kept verbatim").as_str(),
        );
        (keep_message(Role::User, j), ws)
    }
}

/// Parses the wire messages of a request.
pub fn parse_messages(a: &Vec<Json>, ws: Vec<ConversionWarning>) -> (r: (Vec<Message>, Vec<ConversionWarning>))
    ensures
        (views(r.0@), views(r.1@)) == parsed_messages(views(a@), views(ws@), a@.len()),
{
    let ghost w0 = views(ws@);
    let mut ws = ws;
    let mut out: Vec<Message> = Vec::new();
    let mut i: usize = 0;
    proof {
        assert(views(out@) =~= Seq::<MessageV>::empty());
    }
    while i < a.len()
        invariant
            i <= a@.len(),
            (views(out@), views(ws@)) == parsed_messages(views(a@), w0, i as nat),
        decreases a@.len() - i,
    {
        let (m, next) = parse_message(&a[i], i, ws);
        out.push(m);
        ws = next;
        i += 1;
    }
    (out, ws)
}

} // verus!
