//! Google content parts as IR blocks.

use vstd::prelude::*;
use crate::convert::{ConversionWarning, ConversionWarningV, WarningCode};
use crate::format::GOOGLE_GENERATE_CONTENT;
use crate::formats::google_generate_content::types::{encode_function_response_part, encode_part, Blob, BlobV, FileData, FileDataV, FunctionCall, FunctionCallV, FunctionResponse, FunctionResponsePart, FunctionResponsePartV, FunctionResponseV, Part, PartV};
use crate::ir::{extra_from_unknown, text_output, ContentBlock, ContentBlockV, Extra, ExtraV, ImageSource, ImageSourceV, ToolOutputBlock, ToolOutputBlockV};
use crate::json::{obj_get, obj_remove, obj_set, Json, JsonMap, JsonV, ObjV};
use crate::model::{dup_opt, group_views, opt_view, views, Dup};
use crate::response::{parse_warn, parse_warned};
use crate::text::cat2;
use crate::value::{json_to_text, to_text, wire};

verus! {

broadcast use group_views;

/// A parse-side warning of this format.
pub open spec fn gp_noted(
    ws: Seq<ConversionWarningV>,
    code: WarningCode,
    location: Seq<char>,
    message: Seq<char>,
) -> Seq<ConversionWarningV> {
    parse_warned(ws, GOOGLE_GENERATE_CONTENT@, code, location, message)
}

/// Provider data made of leftover fields.
pub open spec fn g_leftover(fields: ObjV) -> ExtraV {
    extra_from_unknown(GOOGLE_GENERATE_CONTENT@, fields)
}

/// `ns` with `k` set to an object, unless that is empty.
pub open spec fn with_object(ns: ObjV, k: Seq<char>, o: ObjV) -> ObjV {
    if o.len() > 0 {
        obj_set(ns, k, JsonV::Object(o))
    } else {
        ns
    }
}

/// Number of data-union members that a part sets.
pub open spec fn member_count(p: PartV) -> int {
    (if p.text is Some { 1int } else { 0 }) + (if p.inline_data is Some { 1int } else { 0 }) + (if p.function_call is Some {
        1int
    } else {
        0
    }) + (if p.function_response is Some { 1int } else { 0 }) + (if p.file_data is Some { 1int } else { 0 })
}

/// A part kept verbatim.
pub open spec fn opaque_part(p: PartV) -> ContentBlockV {
    ContentBlockV::Opaque { format: GOOGLE_GENERATE_CONTENT@, value: encode_part(p) }
}

/// Unknown fields of a part, with its thought modifiers.
pub open spec fn part_fields(p: PartV) -> ObjV {
    let n1 = if p.thought == Some(true) {
        obj_set(p.extra, "thought"@, JsonV::Bool(true))
    } else {
        p.extra
    };
    match p.thought_signature {
        Some(sig) => obj_set(n1, "thoughtSignature"@, JsonV::Str(sig)),
        None => n1,
    }
}

/// A text or thinking block. A thought records its marker.
pub open spec fn text_like(thought: bool, text: Seq<char>, signature: Option<Seq<char>>, ns: ObjV) -> ContentBlockV {
    if thought {
        ContentBlockV::Thinking {
            text: Some(text),
            signature,
            extra: g_leftover(obj_set(ns, "thought"@, JsonV::Bool(true))),
        }
    } else {
        ContentBlockV::Text {
            text,
            cache: None,
            extra: g_leftover(
                match signature {
                    Some(sig) => obj_set(ns, "thoughtSignature"@, JsonV::Str(sig)),
                    None => ns,
                },
            ),
        }
    }
}

/// The image of inline media.
pub open spec fn inline_image(p: PartV, b: BlobV) -> ContentBlockV {
    ContentBlockV::Image {
        source: ImageSourceV::Base64 { media_type: b.mime_type, data: b.data },
        cache: None,
        extra: g_leftover(with_object(part_fields(p), "inlineData"@, b.extra)),
    }
}

/// The image of a file reference.
pub open spec fn file_image(p: PartV, f: FileDataV) -> ContentBlockV {
    let fd = match f.mime_type {
        Some(m) => obj_set(f.extra, "mimeType"@, JsonV::Str(m)),
        None => f.extra,
    };
    ContentBlockV::Image {
        source: ImageSourceV::FileId(f.file_uri),
        cache: None,
        extra: g_leftover(with_object(part_fields(p), "fileData"@, fd)),
    }
}

/// A model-side part, classified: text may continue across stream chunks,
/// everything else arrives whole.
pub enum AssistantPartV {
    TextLike { thought: bool, text: Seq<char>, signature: Option<Seq<char>>, ns: ObjV },
    Complete(ContentBlockV),
}

/// A model-side part, classified.
#[derive(Debug)]
pub enum AssistantPart {
    /// A text part, plain or a thought.
    TextLike {
        thought: bool,
        text: String,
        signature: Option<String>,
        /// Unknown fields of the part.
        ns: JsonMap,
    },
    /// A complete block.
    Complete(ContentBlock),
}

impl View for AssistantPart {
    type V = AssistantPartV;

    open spec fn view(&self) -> AssistantPartV {
        match self {
            AssistantPart::TextLike { thought, text, signature, ns } => AssistantPartV::TextLike {
                thought: *thought,
                text: text@,
                signature: opt_view(*signature),
                ns: ns@,
            },
            AssistantPart::Complete(b) => AssistantPartV::Complete(b@),
        }
    }
}

/// The tool call of a function call.
pub open spec fn call_block(
    p: PartV,
    fc: FunctionCallV,
    loc: Seq<char>,
    ws: Seq<ConversionWarningV>,
) -> (ContentBlockV, Seq<ConversionWarningV>) {
    let ws1 = if fc.name is None {
        gp_noted(
            ws,
            WarningCode::MalformedToolCall,
            loc + "/functionCall/name"@,
            "functionCall.name is missing; treated as an empty string"@,
        )
    } else {
        ws
    };
    let ws2 = if fc.args is Some && !(fc.args->0 is Object) {
        gp_noted(
            ws1,
            WarningCode::MalformedField,
            loc + "/functionCall/args"@,
            "functionCall.args is not a JSON object"@,
        )
    } else {
        ws1
    };
    (
        ContentBlockV::ToolCall {
            id: fc.id,
            name: match fc.name {
                Some(n) => n,
                None => Seq::empty(),
            },
            arguments: match fc.args {
                Some(a) => json_to_text(wire(a)),
                None => "{}"@,
            },
            cache: None,
            extra: g_leftover(with_object(part_fields(p), "functionCall"@, fc.extra)),
        },
        ws2,
    )
}

/// What a model-side part is.
pub open spec fn classified(p: PartV, loc: Seq<char>, ws: Seq<ConversionWarningV>) -> (AssistantPartV, Seq<ConversionWarningV>) {
    if member_count(p) != 1 {
        (AssistantPartV::Complete(opaque_part(p)), ws)
    } else if p.function_call is Some {
        let (b, ws1) = call_block(p, p.function_call->0, loc, ws);
        (AssistantPartV::Complete(b), ws1)
    } else if p.text is Some {
        (
            AssistantPartV::TextLike {
                thought: p.thought == Some(true),
                text: p.text->0,
                signature: p.thought_signature,
                ns: p.extra,
            },
            ws,
        )
    } else if p.inline_data is Some {
        (AssistantPartV::Complete(inline_image(p, p.inline_data->0)), ws)
    } else if p.file_data is Some {
        (AssistantPartV::Complete(file_image(p, p.file_data->0)), ws)
    } else {
        (AssistantPartV::Complete(opaque_part(p)), ws)
    }
}

/// The block of a classified part.
pub open spec fn part_block(a: AssistantPartV) -> ContentBlockV {
    match a {
        AssistantPartV::TextLike { thought, text, signature, ns } => text_like(thought, text, signature, ns),
        AssistantPartV::Complete(b) => b,
    }
}

/// A user-side part other than a function response.
pub open spec fn user_part(p: PartV) -> ContentBlockV {
    if member_count(p) != 1 {
        opaque_part(p)
    } else if p.text is Some {
        if p.thought == Some(true) {
            opaque_part(p)
        } else {
            text_like(false, p.text->0, p.thought_signature, p.extra)
        }
    } else if p.inline_data is Some {
        inline_image(p, p.inline_data->0)
    } else if p.file_data is Some {
        file_image(p, p.file_data->0)
    } else {
        opaque_part(p)
    }
}

/// A system text part.
pub open spec fn system_part(p: PartV) -> ContentBlockV {
    ContentBlockV::Text {
        text: match p.text {
            Some(t) => t,
            None => Seq::empty(),
        },
        cache: None,
        extra: g_leftover(part_fields(p)),
    }
}

/// What a function response says: an `error` marks a failed call, an `output`
/// string is its text, and the rest is mirrored.
pub struct ResponseReadV {
    pub content: Seq<ToolOutputBlockV>,
    pub is_error: Option<bool>,
    pub fields: ObjV,
}

/// A function response that was read.
pub struct ResponseRead {
    pub content: Vec<ToolOutputBlock>,
    pub is_error: Option<bool>,
    pub fields: JsonMap,
}

impl View for ResponseRead {
    type V = ResponseReadV;

    open spec fn view(&self) -> ResponseReadV {
        ResponseReadV { content: views(self.content@), is_error: self.is_error, fields: self.fields@ }
    }
}

/// The reading of a `response` object.
pub open spec fn response_object(o: ObjV, fields: ObjV) -> ResponseReadV {
    match obj_get(o, "error"@) {
        Some(JsonV::Str(t)) => ResponseReadV {
            content: seq![text_output(t)],
            is_error: Some(true),
            fields: with_object(fields, "response"@, obj_remove(o, "error"@)),
        },
        Some(e) => ResponseReadV {
            content: Seq::empty(),
            is_error: Some(true),
            fields: with_object(fields, "response"@, obj_set(obj_remove(o, "error"@), "error"@, e)),
        },
        None => match obj_get(o, "output"@) {
            Some(JsonV::Str(t)) => ResponseReadV {
                content: seq![text_output(t)],
                is_error: None,
                fields: with_object(fields, "response"@, obj_remove(o, "output"@)),
            },
            _ => ResponseReadV {
                content: Seq::empty(),
                is_error: None,
                fields: with_object(fields, "response"@, o),
            },
        },
    }
}

/// The reading of a `response`.
pub open spec fn response_read(
    response: Option<JsonV>,
    fields: ObjV,
    loc: Seq<char>,
    ws: Seq<ConversionWarningV>,
) -> (ResponseReadV, Seq<ConversionWarningV>) {
    match response {
        Some(JsonV::Object(o)) => (response_object(o, fields), ws),
        Some(other) => (
            ResponseReadV {
                content: Seq::empty(),
                is_error: None,
                fields: obj_set(fields, "response"@, other),
            },
            gp_noted(
                ws,
                WarningCode::MalformedField,
                loc + "/functionResponse/response"@,
                "functionResponse.response is not a JSON object"@,
            ),
        ),
        None => (
            ResponseReadV { content: Seq::empty(), is_error: None, fields },
            gp_noted(
                ws,
                WarningCode::MalformedToolResult,
                loc + "/functionResponse/response"@,
                "functionResponse.response is missing; parsed as empty content, which re-serializes as an empty object the wire never carried"@,
            ),
        ),
    }
}

/// One media part of a function response.
pub open spec fn media_block(p: FunctionResponsePartV) -> ToolOutputBlockV {
    match p.inline_data {
        Some(b) => ToolOutputBlockV::Image {
            source: ImageSourceV::Base64 { media_type: b.mime_type, data: b.data },
            cache: None,
            extra: g_leftover(with_object(p.extra, "inlineData"@, b.extra)),
        },
        None => ToolOutputBlockV::Opaque {
            format: GOOGLE_GENERATE_CONTENT@,
            value: encode_function_response_part(p),
        },
    }
}

/// The content after the first `n` media parts.
pub open spec fn with_media(content: Seq<ToolOutputBlockV>, parts: Seq<FunctionResponsePartV>, n: nat) -> Seq<ToolOutputBlockV>
    decreases n,
{
    if n == 0 || n > parts.len() {
        content
    } else {
        with_media(content, parts, (n - 1) as nat).push(media_block(parts[n - 1]))
    }
}

/// The tool result of a function response.
pub open spec fn result_block(
    p: PartV,
    fr: FunctionResponseV,
    loc: Seq<char>,
    ws: Seq<ConversionWarningV>,
) -> (ContentBlockV, Seq<ConversionWarningV>) {
    let ws1 = if fr.name is None {
        gp_noted(
            ws,
            WarningCode::MalformedToolResult,
            loc + "/functionResponse/name"@,
            "functionResponse.name is missing; the block's name stays unset, so re-serialization needs an id matching an earlier tool call (or fails)"@,
        )
    } else {
        ws
    };
    let (r, ws2) = response_read(fr.response, fr.extra, loc, ws1);
    (
        ContentBlockV::ToolResult {
            tool_call_id: fr.id,
            name: fr.name,
            content: match fr.parts {
                Some(parts) => with_media(r.content, parts, parts.len()),
                None => r.content,
            },
            is_error: r.is_error,
            cache: None,
            extra: g_leftover(with_object(part_fields(p), "functionResponse"@, r.fields)),
        },
        ws2,
    )
}

/// Sets `k` to an object, unless that is empty.
pub fn put_object(ns: &mut JsonMap, k: &str, o: JsonMap)
    ensures
        final(ns)@ == with_object(old(ns)@, k@, o@),
{
    if !o.is_empty() {
        ns.set(k, Json::object(o));
    }
}

/// Number of data-union members that a part sets.
pub fn union_members(p: &Part) -> (r: u32)
    ensures
        r == member_count(p@),
{
    let mut n: u32 = 0;
    if p.text.is_some() {
        n += 1;
    }
    if p.inline_data.is_some() {
        n += 1;
    }
    if p.function_call.is_some() {
        n += 1;
    }
    if p.function_response.is_some() {
        n += 1;
    }
    if p.file_data.is_some() {
        n += 1;
    }
    n
}

/// Keeps a part verbatim.
pub fn keep_part(p: &Part) -> (r: ContentBlock)
    ensures
        r@ == opaque_part(p@),
{
    ContentBlock::opaque(GOOGLE_GENERATE_CONTENT, p.to_json())
}

fn part_ns(p: &Part) -> (r: JsonMap)
    ensures
        r@ == part_fields(p@),
{
    let mut ns = p.extra.copy();
    if let Some(true) = p.thought {
        ns.set("thought", Json::Bool(true));
    }
    if let Some(sig) = &p.thought_signature {
        ns.set("thoughtSignature", Json::Str(sig.clone()));
    }
    ns
}

/// Builds a text or thinking block.
pub fn text_like_block(thought: bool, text: String, signature: Option<String>, ns: JsonMap) -> (r: ContentBlock)
    ensures
        r@ == text_like(thought, text@, opt_view(signature), ns@),
{
    let mut ns = ns;
    if thought {
        ns.set("thought", Json::Bool(true));
        ContentBlock::Thinking {
            text: Some(text),
            signature,
            extra: Extra::from_unknown(GOOGLE_GENERATE_CONTENT, ns),
        }
    } else {
        if let Some(sig) = signature {
            ns.set("thoughtSignature", Json::Str(sig));
        }
        ContentBlock::Text { text, cache: None, extra: Extra::from_unknown(GOOGLE_GENERATE_CONTENT, ns) }
    }
}

fn image_block(p: &Part, b: &Blob) -> (r: ContentBlock)
    ensures
        r@ == inline_image(p@, b@),
{
    let mut ns = part_ns(p);
    put_object(&mut ns, "inlineData", b.extra.copy());
    ContentBlock::Image {
        source: ImageSource::Base64 { media_type: b.mime_type.clone(), data: b.data.clone() },
        cache: None,
        extra: Extra::from_unknown(GOOGLE_GENERATE_CONTENT, ns),
    }
}

fn file_image_block(p: &Part, f: &FileData) -> (r: ContentBlock)
    ensures
        r@ == file_image(p@, f@),
{
    let mut ns = part_ns(p);
    let mut fd = f.extra.copy();
    if let Some(m) = &f.mime_type {
        fd.set("mimeType", Json::Str(m.clone()));
    }
    put_object(&mut ns, "fileData", fd);
    ContentBlock::Image {
        source: ImageSource::FileId(f.file_uri.clone()),
        cache: None,
        extra: Extra::from_unknown(GOOGLE_GENERATE_CONTENT, ns),
    }
}

/// Builds the block of a system text part.
pub fn system_text_block(p: &Part) -> (r: ContentBlock)
    ensures
        r@ == system_part(p@),
{
    let text = match &p.text {
        Some(t) => t.clone(),
        None => String::new(),
    };
    ContentBlock::Text { text, cache: None, extra: Extra::from_unknown(GOOGLE_GENERATE_CONTENT, part_ns(p)) }
}

fn call_from_part(p: &Part, fc: &FunctionCall, loc: &str, ws: &mut Vec<ConversionWarning>) -> (r: ContentBlock)
    ensures
        (r@, views(final(ws)@)) == call_block(p@, fc@, loc@, views(old(ws)@)),
{
    let name = match &fc.name {
        Some(n) => n.clone(),
        None => {
            parse_warn(
                ws,
                GOOGLE_GENERATE_CONTENT,
                WarningCode::MalformedToolCall,
                cat2(loc, "/functionCall/name").as_str(),
                "functionCall.name is missing; treated as an empty string",
            );
            String::new()
        },
    };
    let arguments = match &fc.args {
        None => "{}".to_owned(),
        Some(a) => {
            if a.as_object().is_none() {
                parse_warn(
                    ws,
                    GOOGLE_GENERATE_CONTENT,
                    WarningCode::MalformedField,
                    cat2(loc, "/functionCall/args").as_str(),
                    "functionCall.args is not a JSON object",
                );
            }
            to_text(a)
        },
    };
    let mut ns = part_ns(p);
    put_object(&mut ns, "functionCall", fc.extra.copy());
    ContentBlock::ToolCall {
        id: dup_opt(&fc.id),
        name,
        arguments,
        cache: None,
        extra: Extra::from_unknown(GOOGLE_GENERATE_CONTENT, ns),
    }
}

/// Classifies a model-side part.
pub fn classify_assistant_part(p: &Part, loc: &str, ws: &mut Vec<ConversionWarning>) -> (r: AssistantPart)
    ensures
        (r@, views(final(ws)@)) == classified(p@, loc@, views(old(ws)@)),
{
    if union_members(p) != 1 {
        return AssistantPart::Complete(keep_part(p));
    }
    if let Some(fc) = &p.function_call {
        return AssistantPart::Complete(call_from_part(p, fc, loc, ws));
    }
    if let Some(t) = &p.text {
        let thought = match p.thought {
            Some(b) => b,
            None => false,
        };
        return AssistantPart::TextLike {
            thought,
            text: t.clone(),
            signature: dup_opt(&p.thought_signature),
            ns: p.extra.copy(),
        };
    }
    if let Some(b) = &p.inline_data {
        return AssistantPart::Complete(image_block(p, b));
    }
    if let Some(f) = &p.file_data {
        return AssistantPart::Complete(file_image_block(p, f));
    }
    AssistantPart::Complete(keep_part(p))
}

/// Builds the block of a classified part.
pub fn block_of_part(a: AssistantPart) -> (r: ContentBlock)
    ensures
        r@ == part_block(a@),
{
    match a {
        AssistantPart::TextLike { thought, text, signature, ns } => text_like_block(thought, text, signature, ns),
        AssistantPart::Complete(b) => b,
    }
}

/// Builds the block of a user-side part other than a function response.
pub fn user_block_from_part(p: &Part) -> (r: ContentBlock)
    ensures
        r@ == user_part(p@),
{
    if union_members(p) != 1 {
        return keep_part(p);
    }
    if let Some(t) = &p.text {
        if let Some(true) = p.thought {
            return keep_part(p);
        }
        return text_like_block(false, t.clone(), dup_opt(&p.thought_signature), p.extra.copy());
    }
    if let Some(b) = &p.inline_data {
        return image_block(p, b);
    }
    if let Some(f) = &p.file_data {
        return file_image_block(p, f);
    }
    keep_part(p)
}

fn one_output(text: &String) -> (r: Vec<ToolOutputBlock>)
    ensures
        views(r@) == seq![text_output(text@)],
{
    let mut v: Vec<ToolOutputBlock> = Vec::new();
    v.push(ToolOutputBlock::text(text.clone()));
    proof {
        assert(views(v@) =~= seq![text_output(text@)]);
    }
    v
}

fn read_response_object(o: &JsonMap, fields: JsonMap) -> (r: ResponseRead)
    ensures
        r@ == response_object(o@, fields@),
{
    let mut fields = fields;
    let mut rest = o.copy();
    match o.get("error") {
        Some(Json::Str(t)) => {
            let _ = rest.remove("error");
            put_object(&mut fields, "response", rest);
            ResponseRead { content: one_output(t), is_error: Some(true), fields }
        },
        Some(e) => {
            let _ = rest.remove("error");
            rest.set("error", e.copy());
            put_object(&mut fields, "response", rest);
            ResponseRead { content: Vec::new(), is_error: Some(true), fields }
        },
        None => match o.get("output") {
            Some(Json::Str(t)) => {
                let _ = rest.remove("output");
                put_object(&mut fields, "response", rest);
                ResponseRead { content: one_output(t), is_error: None, fields }
            },
            _ => {
                put_object(&mut fields, "response", rest);
                ResponseRead { content: Vec::new(), is_error: None, fields }
            },
        },
    }
}

fn read_response(response: &Option<Json>, fields: JsonMap, loc: &str, ws: &mut Vec<ConversionWarning>) -> (r: ResponseRead)
    ensures
        (r@, views(final(ws)@)) == response_read(opt_view(*response), fields@, loc@, views(old(ws)@)),
{
    match response {
        Some(j) => match j.as_object() {
            Some(o) => read_response_object(o, fields),
            None => {
                parse_warn(
                    ws,
                    GOOGLE_GENERATE_CONTENT,
                    WarningCode::MalformedField,
                    cat2(loc, "/functionResponse/response").as_str(),
                    "functionResponse.response is not a JSON object",
                );
                let mut fields = fields;
                fields.set("response", j.copy());
                ResponseRead { content: Vec::new(), is_error: None, fields }
            },
        },
        None => {
            parse_warn(
                ws,
                GOOGLE_GENERATE_CONTENT,
                WarningCode::MalformedToolResult,
                cat2(loc, "/functionResponse/response").as_str(),
                "functionResponse.response is missing; parsed as empty content, which re-serializes as an empty object the wire never carried",
            );
            ResponseRead { content: Vec::new(), is_error: None, fields }
        },
    }
}

fn media_from_part(p: &FunctionResponsePart) -> (r: ToolOutputBlock)
    ensures
        r@ == media_block(p@),
{
    match &p.inline_data {
        Some(b) => {
            let mut ns = p.extra.copy();
            put_object(&mut ns, "inlineData", b.extra.copy());
            ToolOutputBlock::Image {
                source: ImageSource::Base64 { media_type: b.mime_type.clone(), data: b.data.clone() },
                cache: None,
                extra: Extra::from_unknown(GOOGLE_GENERATE_CONTENT, ns),
            }
        },
        None => ToolOutputBlock::opaque(GOOGLE_GENERATE_CONTENT, p.to_json()),
    }
}

/// Builds the tool result of a function response.
pub fn tool_result_from_part(p: &Part, fr: &FunctionResponse, loc: &str, ws: &mut Vec<ConversionWarning>) -> (r: ContentBlock)
    ensures
        (r@, views(final(ws)@)) == result_block(p@, fr@, loc@, views(old(ws)@)),
{
    if fr.name.is_none() {
        parse_warn(
            ws,
            GOOGLE_GENERATE_CONTENT,
            WarningCode::MalformedToolResult,
            cat2(loc, "/functionResponse/name").as_str(),
            "functionResponse.name is missing; the block's name stays unset, so re-serialization needs an id matching an earlier tool call (or fails)",
        );
    }
    let read = read_response(&fr.response, fr.extra.copy(), loc, ws);
    let mut content = read.content;
    if let Some(parts) = &fr.parts {
        let ghost c0 = views(content@);
        let mut i: usize = 0;
        while i < parts.len()
            invariant
                i <= parts@.len(),
                views(content@) == with_media(c0, views(parts@), i as nat),
            decreases parts@.len() - i,
        {
            content.push(media_from_part(&parts[i]));
            i += 1;
        }
    }
    let mut ns = part_ns(p);
    put_object(&mut ns, "functionResponse", read.fields);
    ContentBlock::ToolResult {
        tool_call_id: dup_opt(&fr.id),
        name: dup_opt(&fr.name),
        content,
        is_error: read.is_error,
        cache: None,
        extra: Extra::from_unknown(GOOGLE_GENERATE_CONTENT, ns),
    }
}

} // verus!
