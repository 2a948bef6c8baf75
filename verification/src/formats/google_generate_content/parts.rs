//! IR content blocks as Google content parts.

use vstd::prelude::*;
use crate::convert::WarningCode;
use crate::error::{ConversionError, ConversionErrorV};
use crate::format::GOOGLE_GENERATE_CONTENT;
use crate::ir::{block_kind, extra_get, extra_has, extra_merged, CacheHintV, ContentBlock, ContentBlockV, Extra, ExtraV, ImageSource, ImageSourceV, Message, MessageV, Role, ToolOutputBlock, ToolOutputBlockV};
use crate::json::{make1, make2, obj_get, obj_set, object1, object2, Json, JsonMap, JsonV, ObjV};
use crate::model::{group_views, opt_view, views, Dup};
use crate::sink::{merge_noted, warned, warned_if, Sink, SinkV};
use crate::text::{cat2, cat3, cat4, dec_usize, decimal, join, joined, text_is};
use crate::value::{json_from_str, parse_text};

verus! {

broadcast use group_views;

/// A build-side warning of this format.
pub open spec fn gnoted(s: SinkV, code: WarningCode, location: Seq<char>, message: Seq<char>) -> SinkV {
    warned(s, GOOGLE_GENERATE_CONTENT@, code, location, message)
}

/// A build-side warning of this format, if `cond` holds.
pub open spec fn gnoted_if(cond: bool, s: SinkV, code: WarningCode, location: Seq<char>, message: Seq<char>) -> SinkV {
    warned_if(cond, s, GOOGLE_GENERATE_CONTENT@, code, location, message)
}

/// The warning about a cache hint.
pub open spec fn hint_dropped(s: SinkV, cache: Option<CacheHintV>, ptr: Seq<char>) -> SinkV {
    gnoted_if(
        cache is Some,
        s,
        WarningCode::CacheHintDropped,
        ptr,
        "Google has no cache breakpoint channel; the hint was dropped"@,
    )
}

/// The warning about an opaque block of another format.
pub open spec fn opaque_dropped(s: SinkV, format: Seq<char>, ptr: Seq<char>) -> SinkV {
    gnoted(
        s,
        WarningCode::OpaqueDropped,
        ptr,
        "opaque block belongs to format `"@ + format + "` and was dropped"@,
    )
}

/// Role and block combinations that are allowed.
pub open spec fn allowed(role: Role, b: ContentBlockV) -> bool {
    match b {
        ContentBlockV::Opaque { .. } => true,
        ContentBlockV::Text { .. } => role != Role::Tool,
        ContentBlockV::Image { .. } => role == Role::User || role == Role::Assistant,
        ContentBlockV::ToolCall { .. } => role == Role::Assistant,
        ContentBlockV::Thinking { .. } => role == Role::Assistant,
        ContentBlockV::ToolResult { .. } => role == Role::Tool,
    }
}

/// The cache hint of a block.
pub open spec fn block_cache(b: ContentBlockV) -> Option<CacheHintV> {
    match b {
        ContentBlockV::Text { cache, .. } => cache,
        ContentBlockV::Image { cache, .. } => cache,
        ContentBlockV::ToolCall { cache, .. } => cache,
        ContentBlockV::ToolResult { cache, .. } => cache,
        _ => None,
    }
}

/// Inline media.
pub open spec fn inline_data(media_type: Seq<char>, data: Seq<char>) -> JsonV {
    object1(
        "inlineData"@,
        object2("mimeType"@, JsonV::Str(media_type), "data"@, JsonV::Str(data)),
    )
}

/// A file reference.
pub open spec fn file_data(uri: Seq<char>) -> JsonV {
    object1("fileData"@, object1("fileUri"@, JsonV::Str(uri)))
}

/// An image, before its provider data. An arbitrary URL raises a warning.
pub open spec fn image_part(source: ImageSourceV, ptr: Seq<char>, s: SinkV) -> (JsonV, SinkV) {
    match source {
        ImageSourceV::Url(url) => (
            file_data(url),
            gnoted(
                s,
                WarningCode::ImageUrlAsFileUri,
                ptr + "/fileData/fileUri"@,
                "URL mapped to fileData.fileUri verbatim; documented URIs are Files API ones and arbitrary URLs may be rejected upstream"@,
            ),
        ),
        ImageSourceV::Base64 { media_type, data } => (inline_data(media_type, data), s),
        ImageSourceV::FileId(id) => (file_data(id), s),
    }
}

/// A thinking block belongs to this format: it has its namespace, or it is
/// signed and has no namespace at all.
pub open spec fn is_native(signature: Option<Seq<char>>, extra: ExtraV) -> bool {
    extra_get(extra, GOOGLE_GENERATE_CONTENT@) is Some || (signature is Some && extra.len() == 0)
}

/// A thought part.
pub open spec fn thought_part(text: Seq<char>, signature: Option<Seq<char>>) -> JsonV {
    let o = obj_set(
        obj_set(Seq::empty(), "text"@, JsonV::Str(text)),
        "thought"@,
        JsonV::Bool(true),
    );
    JsonV::Object(
        match signature {
            Some(sig) => obj_set(o, "thoughtSignature"@, JsonV::Str(sig)),
            None => o,
        },
    )
}

/// A thinking block, before its provider data; nothing when it is dropped.
pub open spec fn thinking_part(
    text: Option<Seq<char>>,
    signature: Option<Seq<char>>,
    extra: ExtraV,
    as_text: bool,
    ptr: Seq<char>,
    s: SinkV,
) -> (Option<JsonV>, SinkV) {
    if is_native(signature, extra) {
        (
            Some(
                thought_part(
                    match text {
                        Some(t) => t,
                        None => Seq::empty(),
                    },
                    signature,
                ),
            ),
            s,
        )
    } else if as_text && text is Some {
        (
            Some(object2("text"@, JsonV::Str(text->0), "thought"@, JsonV::Bool(true))),
            gnoted_if(
                signature is Some,
                s,
                WarningCode::ThinkingSignatureDropped,
                ptr,
                "thinking_as_text re-encoded a foreign thinking block; its signature was dropped"@,
            ),
        )
    } else {
        (
            None,
            gnoted(
                s,
                WarningCode::ThinkingDropped,
                ptr,
                "thinking block from another provider was dropped (enable thinking_as_text to re-encode plaintext thinking)"@,
            ),
        )
    }
}

/// The JSON object that the argument text of a call holds.
pub open spec fn call_args(name: Seq<char>, arguments: Seq<char>, ptr: Seq<char>) -> Result<JsonV, ConversionErrorV> {
    let location = ptr + "/functionCall/args"@;
    match json_from_str(arguments) {
        Err(e) => Err(ConversionErrorV::InvalidToolArguments { name, arguments, reason: e, location }),
        Ok(j) => if j is Object {
            Ok(j)
        } else {
            Err(
                ConversionErrorV::InvalidToolArguments {
                    name,
                    arguments,
                    reason: "not a JSON object"@,
                    location,
                },
            )
        },
    }
}

/// A function call, before its provider data.
pub open spec fn call_part(id: Option<Seq<char>>, name: Seq<char>, args: JsonV) -> JsonV {
    let o1 = match id {
        Some(id) => obj_set(Seq::empty(), "id"@, JsonV::Str(id)),
        None => Seq::empty(),
    };
    object1(
        "functionCall"@,
        JsonV::Object(obj_set(obj_set(o1, "name"@, JsonV::Str(name)), "args"@, args)),
    )
}

/// What the blocks of a tool result have come to.
pub struct ResultV {
    pub texts: Seq<Seq<char>>,
    pub media: Seq<JsonV>,
    /// Text followed media.
    pub order_lost: bool,
    pub seen_media: bool,
    pub sink: SinkV,
}

/// A tool result under construction.
#[derive(Debug)]
pub struct ResultParts {
    pub texts: Vec<String>,
    pub media: Vec<Json>,
    pub order_lost: bool,
    pub seen_media: bool,
    pub sink: Sink,
}

impl View for ResultParts {
    type V = ResultV;

    open spec fn view(&self) -> ResultV {
        ResultV {
            texts: views(self.texts@),
            media: views(self.media@),
            order_lost: self.order_lost,
            seen_media: self.seen_media,
            sink: self.sink@,
        }
    }
}

/// The warning about a hint on a nested block.
pub open spec fn nested_hint_dropped(s: SinkV, cache: Option<CacheHintV>, ptr: Seq<char>) -> SinkV {
    gnoted_if(
        cache is Some,
        s,
        WarningCode::CacheHintDropped,
        ptr,
        "cache hints on nested tool-output blocks are dropped on every target in v1"@,
    )
}

/// One more block of a tool result.
pub open spec fn result_step(r: ResultV, b: ToolOutputBlockV, ptr: Seq<char>) -> ResultV {
    let media_ptr = ptr + "/functionResponse/parts/"@ + decimal(r.media.len());
    match b {
        ToolOutputBlockV::Text { text, cache, extra } => ResultV {
            texts: r.texts.push(text),
            order_lost: r.order_lost || r.seen_media,
            sink: gnoted_if(
                extra_has(extra, GOOGLE_GENERATE_CONTENT@),
                nested_hint_dropped(r.sink, cache, ptr),
                WarningCode::ExtraDropped,
                ptr + "/functionResponse/response"@,
                "`extra` on a nested tool-output text block has no wire location on Google (text is flattened into `response`)"@,
            ),
            ..r
        },
        ToolOutputBlockV::Image { source, cache, extra } => {
            let s = nested_hint_dropped(r.sink, cache, ptr);
            match source {
                ImageSourceV::Base64 { media_type, data } => ResultV {
                    media: r.media.push(
                        extra_merged(extra, GOOGLE_GENERATE_CONTENT@, inline_data(media_type, data)),
                    ),
                    seen_media: true,
                    sink: merge_noted(s, extra, GOOGLE_GENERATE_CONTENT@, media_ptr),
                    ..r
                },
                _ => ResultV {
                    sink: gnoted(
                        s,
                        WarningCode::ToolResultImageDropped,
                        media_ptr,
                        "Google functionResponse media accepts only inline base64 (inlineData); URL/file-id images have no zero-IO channel and were dropped"@,
                    ),
                    ..r
                },
            }
        },
        ToolOutputBlockV::Opaque { format, value } => if format == GOOGLE_GENERATE_CONTENT@ {
            ResultV { media: r.media.push(value), seen_media: true, ..r }
        } else {
            ResultV {
                sink: gnoted(
                    r.sink,
                    WarningCode::OpaqueDropped,
                    media_ptr,
                    "opaque tool-output block belongs to format `"@ + format + "` and was dropped"@,
                ),
                ..r
            }
        },
    }
}

/// The first `n` blocks of a tool result.
pub open spec fn result_blocks(blocks: Seq<ToolOutputBlockV>, ptr: Seq<char>, s: SinkV, n: nat) -> ResultV
    decreases n,
{
    if n == 0 || n > blocks.len() {
        ResultV { texts: Seq::empty(), media: Seq::empty(), order_lost: false, seen_media: false, sink: s }
    } else {
        result_step(result_blocks(blocks, ptr, s, (n - 1) as nat), blocks[n - 1], ptr)
    }
}

/// The warnings about what the flattening of a result loses.
pub open spec fn result_losses(r: ResultV, ptr: Seq<char>) -> SinkV {
    gnoted_if(
        r.texts.len() > 1,
        gnoted_if(
            r.order_lost,
            r.sink,
            WarningCode::ToolResultOrderLost,
            ptr,
            "Google splits tool-result media (parts[]) from text (response); text following media cannot keep its position"@,
        ),
        WarningCode::ToolResultTextJoined,
        ptr + "/functionResponse/response/output"@,
        "Google flattens tool-result text into one string; multiple text blocks were joined with \\n\\n"@,
    )
}

/// The `response` of a result: text under `error` for a failed call, else
/// under `output`, if there is any.
pub open spec fn response_value(texts: Seq<Seq<char>>, is_error: Option<bool>) -> JsonV {
    let text = joined(texts, "\n\n"@);
    if is_error == Some(true) {
        object1("error"@, JsonV::Str(text))
    } else if texts.len() > 0 {
        object1("output"@, JsonV::Str(text))
    } else {
        JsonV::Object(Seq::empty())
    }
}

/// The name of the function that a result answers: its own, or that of the
/// earlier call with its id.
pub open spec fn result_name(id: Option<Seq<char>>, name: Option<Seq<char>>, names: ObjV) -> Option<Seq<char>> {
    match name {
        Some(n) => Some(n),
        None => match id {
            Some(id) => match obj_get(names, id) {
                Some(JsonV::Str(n)) => Some(n),
                _ => None,
            },
            None => None,
        },
    }
}

/// A function response, before its provider data.
pub open spec fn response_part(id: Option<Seq<char>>, name: Seq<char>, response: JsonV, media: Seq<JsonV>) -> JsonV {
    let o1 = match id {
        Some(id) => obj_set(Seq::empty(), "id"@, JsonV::Str(id)),
        None => Seq::empty(),
    };
    let o2 = obj_set(obj_set(o1, "name"@, JsonV::Str(name)), "response"@, response);
    object1(
        "functionResponse"@,
        JsonV::Object(
            if media.len() > 0 {
                obj_set(o2, "parts"@, JsonV::Array(media))
            } else {
                o2
            },
        ),
    )
}

/// A tool result as a part.
pub open spec fn tool_result_part(
    id: Option<Seq<char>>,
    name: Option<Seq<char>>,
    blocks: Seq<ToolOutputBlockV>,
    is_error: Option<bool>,
    names: ObjV,
    ptr: Seq<char>,
    s: SinkV,
) -> Result<(JsonV, SinkV), ConversionErrorV> {
    match result_name(id, name, names) {
        None => Err(
            ConversionErrorV::MissingRequired {
                what: "functionResponse.name (set ToolResult.name or give the result the id of an earlier tool call)"@,
                location: ptr + "/functionResponse/name"@,
            },
        ),
        Some(n) => {
            let r = result_blocks(blocks, ptr, s, blocks.len());
            Ok((response_part(id, n, response_value(r.texts, is_error), r.media), result_losses(r, ptr)))
        },
    }
}

/// What the parts of a message have come to.
pub struct PartsV {
    pub parts: Seq<JsonV>,
    /// Names of the calls so far, by id.
    pub names: ObjV,
    pub sink: SinkV,
}

/// Parts under construction.
#[derive(Debug)]
pub struct Parts {
    pub parts: Vec<Json>,
    pub names: JsonMap,
    pub sink: Sink,
}

impl View for Parts {
    type V = PartsV;

    open spec fn view(&self) -> PartsV {
        PartsV { parts: views(self.parts@), names: self.names@, sink: self.sink@ }
    }
}

/// A finished part, with its provider data.
pub open spec fn part_added(p: PartsV, v: JsonV, extra: ExtraV, ptr: Seq<char>, s: SinkV) -> PartsV {
    PartsV {
        parts: p.parts.push(extra_merged(extra, GOOGLE_GENERATE_CONTENT@, v)),
        sink: merge_noted(s, extra, GOOGLE_GENERATE_CONTENT@, ptr),
        ..p
    }
}

/// One allowed block as the next part.
pub open spec fn part_step(
    p: PartsV,
    b: ContentBlockV,
    ptr: Seq<char>,
    as_text: bool,
) -> Result<PartsV, ConversionErrorV> {
    let s = hint_dropped(p.sink, block_cache(b), ptr);
    match b {
        ContentBlockV::Text { text, extra, .. } => Ok(
            part_added(p, object1("text"@, JsonV::Str(text)), extra, ptr, s),
        ),
        ContentBlockV::Image { source, extra, .. } => {
            let (v, s1) = image_part(source, ptr, s);
            Ok(part_added(p, v, extra, ptr, s1))
        },
        ContentBlockV::ToolCall { id, name, arguments, extra, .. } => match call_args(name, arguments, ptr) {
            Err(e) => Err(e),
            Ok(args) => Ok(
                PartsV {
                    names: match id {
                        Some(id) => obj_set(p.names, id, JsonV::Str(name)),
                        None => p.names,
                    },
                    ..part_added(p, call_part(id, name, args), extra, ptr, s)
                },
            ),
        },
        ContentBlockV::Thinking { text, signature, extra } => {
            let (v, s1) = thinking_part(text, signature, extra, as_text, ptr, s);
            match v {
                Some(v) => Ok(part_added(p, v, extra, ptr, s1)),
                None => Ok(PartsV { sink: s1, ..p }),
            }
        },
        ContentBlockV::ToolResult { tool_call_id, name, content, is_error, extra, .. } => match tool_result_part(
            tool_call_id,
            name,
            content,
            is_error,
            p.names,
            ptr,
            s,
        ) {
            Err(e) => Err(e),
            Ok((v, s1)) => Ok(part_added(p, v, extra, ptr, s1)),
        },
        ContentBlockV::Opaque { format, value } => if format == GOOGLE_GENERATE_CONTENT@ {
            Ok(PartsV { parts: p.parts.push(value), sink: s, ..p })
        } else {
            Ok(PartsV { sink: opaque_dropped(s, format, ptr), ..p })
        },
    }
}

/// The first `n` blocks of message `mi` as parts of content `ci`, behind the
/// parts that it already has.
pub open spec fn message_parts(
    p: PartsV,
    m: MessageV,
    mi: nat,
    ci: nat,
    as_text: bool,
    n: nat,
) -> Result<PartsV, ConversionErrorV>
    decreases n,
{
    if n == 0 || n > m.content.len() {
        Ok(p)
    } else {
        match message_parts(p, m, mi, ci, as_text, (n - 1) as nat) {
            Err(e) => Err(e),
            Ok(prev) => if !allowed(m.role, m.content[n - 1]) {
                Err(
                    ConversionErrorV::InvalidBlockForRole {
                        role: m.role,
                        block: block_kind(m.content[n - 1]),
                        location: "/messages/"@ + decimal(mi) + "/content/"@ + decimal((n - 1) as nat),
                    },
                )
            } else {
                part_step(
                    prev,
                    m.content[n - 1],
                    "/contents/"@ + decimal(ci) + "/parts/"@ + decimal(prev.parts.len()),
                    as_text,
                )
            },
        }
    }
}

proof fn message_parts_error_stays(
    p: PartsV,
    msg: MessageV,
    mi: nat,
    ci: nat,
    as_text: bool,
    n: nat,
    m: nat,
)
    requires
        n <= m <= msg.content.len(),
        message_parts(p, msg, mi, ci, as_text, n) is Err,
    ensures
        message_parts(p, msg, mi, ci, as_text, m) == message_parts(p, msg, mi, ci, as_text, n),
    decreases m - n,
{
    if n < m {
        message_parts_error_stays(p, msg, mi, ci, as_text, n, (m - 1) as nat);
    }
}

/// `true` when the role allows the block.
pub fn block_allowed(role: Role, b: &ContentBlock) -> (r: bool)
    ensures
        r == allowed(role, b@),
{
    match b {
        ContentBlock::Opaque { .. } => true,
        ContentBlock::Text { .. } => role != Role::Tool,
        ContentBlock::Image { .. } => role == Role::User || role == Role::Assistant,
        ContentBlock::ToolCall { .. } => role == Role::Assistant,
        ContentBlock::Thinking { .. } => role == Role::Assistant,
        ContentBlock::ToolResult { .. } => role == Role::Tool,
    }
}

fn has_cache(b: &ContentBlock) -> (r: bool)
    ensures
        r == (block_cache(b@) is Some),
{
    match b {
        ContentBlock::Text { cache, .. } => cache.is_some(),
        ContentBlock::Image { cache, .. } => cache.is_some(),
        ContentBlock::ToolCall { cache, .. } => cache.is_some(),
        ContentBlock::ToolResult { cache, .. } => cache.is_some(),
        _ => false,
    }
}

fn make_inline(media_type: &String, data: &String) -> (r: Json)
    ensures
        r@ == inline_data(media_type@, data@),
{
    make1(
        "inlineData",
        make2("mimeType", Json::Str(media_type.clone()), "data", Json::Str(data.clone())),
    )
}

fn make_file(uri: &String) -> (r: Json)
    ensures
        r@ == file_data(uri@),
{
    make1("fileData", make1("fileUri", Json::Str(uri.clone())))
}

/// Serializes an image.
pub fn serialize_image(source: &ImageSource, ptr: &str, sink: &mut Sink) -> (r: Json)
    ensures
        (r@, final(sink)@) == image_part(source@, ptr@, old(sink)@),
{
    match source {
        ImageSource::Url(url) => {
            sink.warn(
                GOOGLE_GENERATE_CONTENT,
                WarningCode::ImageUrlAsFileUri,
                cat2(ptr, "/fileData/fileUri").as_str(),
                "URL mapped to fileData.fileUri verbatim; documented URIs are Files API ones and arbitrary URLs may be rejected upstream",
            );
            make_file(url)
        },
        ImageSource::Base64 { media_type, data } => make_inline(media_type, data),
        ImageSource::FileId(id) => make_file(id),
    }
}

/// Serializes a thinking block; nothing when it is dropped.
pub fn serialize_thinking(
    text: &Option<String>,
    signature: &Option<String>,
    extra: &Extra,
    as_text: bool,
    ptr: &str,
    sink: &mut Sink,
) -> (r: Option<Json>)
    ensures
        (opt_view(r), final(sink)@) == thinking_part(
            opt_view(*text),
            opt_view(*signature),
            extra@,
            as_text,
            ptr@,
            old(sink)@,
        ),
{
    let native = extra.get(GOOGLE_GENERATE_CONTENT).is_some() || (signature.is_some() && extra.namespaces.len() == 0);
    if native {
        let mut o = JsonMap::new();
        let t = match text {
            Some(t) => t.clone(),
            None => String::new(),
        };
        o.set("text", Json::Str(t));
        o.set("thought", Json::Bool(true));
        if let Some(sig) = signature {
            o.set("thoughtSignature", Json::Str(sig.clone()));
        }
        return Some(Json::object(o));
    }
    match text {
        Some(t) if as_text => {
            if signature.is_some() {
                sink.warn(
                    GOOGLE_GENERATE_CONTENT,
                    WarningCode::ThinkingSignatureDropped,
                    ptr,
                    "thinking_as_text re-encoded a foreign thinking block; its signature was dropped",
                );
            }
            Some(make2("text", Json::Str(t.clone()), "thought", Json::Bool(true)))
        },
        _ => {
            sink.warn(
                GOOGLE_GENERATE_CONTENT,
                WarningCode::ThinkingDropped,
                ptr,
                "thinking block from another provider was dropped (enable thinking_as_text to re-encode plaintext thinking)",
            );
            None
        },
    }
}

fn parse_args(name: &String, arguments: &String, ptr: &str) -> (r: Result<Json, ConversionError>)
    ensures
        match r {
            Ok(j) => call_args(name@, arguments@, ptr@) == Ok::<JsonV, ConversionErrorV>(j@),
            Err(e) => call_args(name@, arguments@, ptr@) == Err::<JsonV, ConversionErrorV>(e@),
        },
{
    let location = cat2(ptr, "/functionCall/args");
    match parse_text(arguments.as_str()) {
        Err(e) => Err(
            ConversionError::invalid_tool_arguments(
                name.as_str(),
                arguments.as_str(),
                e.as_str(),
                location.as_str(),
            ),
        ),
        Ok(j) => if j.as_object().is_some() {
            Ok(j)
        } else {
            Err(
                ConversionError::invalid_tool_arguments(
                    name.as_str(),
                    arguments.as_str(),
                    "not a JSON object",
                    location.as_str(),
                ),
            )
        },
    }
}

fn make_call(id: &Option<String>, name: &String, args: Json) -> (r: Json)
    ensures
        r@ == call_part(opt_view(*id), name@, args@),
{
    let mut o = JsonMap::new();
    if let Some(id) = id {
        o.set("id", Json::Str(id.clone()));
    }
    o.set("name", Json::Str(name.clone()));
    o.set("args", args);
    make1("functionCall", Json::object(o))
}

fn push_result_block(r: &mut ResultParts, b: &ToolOutputBlock, ptr: &str)
    ensures
        final(r)@ == result_step(old(r)@, b@, ptr@),
{
    let media_ptr = cat3(ptr, "/functionResponse/parts/", dec_usize(r.media.len()).as_str());
    match b {
        ToolOutputBlock::Text { text, cache, extra } => {
            if cache.is_some() {
                r.sink.warn(
                    GOOGLE_GENERATE_CONTENT,
                    WarningCode::CacheHintDropped,
                    ptr,
                    "cache hints on nested tool-output blocks are dropped on every target in v1",
                );
            }
            if extra.has(GOOGLE_GENERATE_CONTENT) {
                r.sink.warn(
                    GOOGLE_GENERATE_CONTENT,
                    WarningCode::ExtraDropped,
                    cat2(ptr, "/functionResponse/response").as_str(),
                    "`extra` on a nested tool-output text block has no wire location on Google (text is flattened into `response`)",
                );
            }
            if r.seen_media {
                r.order_lost = true;
            }
            r.texts.push(text.clone());
        },
        ToolOutputBlock::Image { source, cache, extra } => {
            if cache.is_some() {
                r.sink.warn(
                    GOOGLE_GENERATE_CONTENT,
                    WarningCode::CacheHintDropped,
                    ptr,
                    "cache hints on nested tool-output blocks are dropped on every target in v1",
                );
            }
            match source {
                ImageSource::Base64 { media_type, data } => {
                    let mut v = make_inline(media_type, data);
                    r.sink.merge(extra, GOOGLE_GENERATE_CONTENT, &mut v, media_ptr.as_str());
                    r.media.push(v);
                    r.seen_media = true;
                },
                _ => {
                    r.sink.warn(
                        GOOGLE_GENERATE_CONTENT,
                        WarningCode::ToolResultImageDropped,
                        media_ptr.as_str(),
                        "Google functionResponse media accepts only inline base64 (inlineData); URL/file-id images have no zero-IO channel and were dropped",
                    );
                },
            }
        },
        ToolOutputBlock::Opaque { format, value } => {
            if text_is(format, GOOGLE_GENERATE_CONTENT) {
                r.media.push(value.copy());
                r.seen_media = true;
            } else {
                r.sink.warn(
                    GOOGLE_GENERATE_CONTENT,
                    WarningCode::OpaqueDropped,
                    media_ptr.as_str(),
                    cat3(
                        "opaque tool-output block belongs to format `",
                        format.as_str(),
                        "` and was dropped",
                    ).as_str(),
                );
            }
        },
    }
}

fn warn_losses(texts: &Vec<String>, order_lost: bool, ptr: &str, sink: &mut Sink)
    ensures
        forall|r: ResultV|
            r.texts == views(texts@) && r.order_lost == order_lost && r.sink == old(sink)@ ==> final(sink)@
                == #[trigger] result_losses(r, ptr@),
{
    if order_lost {
        sink.warn(
            GOOGLE_GENERATE_CONTENT,
            WarningCode::ToolResultOrderLost,
            ptr,
            "Google splits tool-result media (parts[]) from text (response); text following media cannot keep its position",
        );
    }
    if texts.len() > 1 {
        sink.warn(
            GOOGLE_GENERATE_CONTENT,
            WarningCode::ToolResultTextJoined,
            cat2(ptr, "/functionResponse/response/output").as_str(),
            "Google flattens tool-result text into one string; multiple text blocks were joined with \\n\\n",
        );
    }
}

fn make_response(texts: &Vec<String>, is_error: Option<bool>) -> (r: Json)
    ensures
        r@ == response_value(views(texts@), is_error),
{
    let text = join(texts, "\n\n");
    match is_error {
        Some(true) => make1("error", Json::Str(text)),
        _ => if texts.len() > 0 {
            make1("output", Json::Str(text))
        } else {
            Json::object(JsonMap::new())
        },
    }
}

fn resolve_name(id: &Option<String>, name: &Option<String>, names: &JsonMap) -> (r: Option<String>)
    ensures
        opt_view(r) == result_name(opt_view(*id), opt_view(*name), names@),
{
    match name {
        Some(n) => Some(n.clone()),
        None => match id {
            Some(id) => match names.get(id.as_str()) {
                Some(Json::Str(n)) => Some(n.clone()),
                _ => None,
            },
            None => None,
        },
    }
}

/// Serializes a tool result into a `functionResponse` part.
pub fn serialize_tool_result(
    id: &Option<String>,
    name: &Option<String>,
    blocks: &Vec<ToolOutputBlock>,
    is_error: Option<bool>,
    names: &JsonMap,
    ptr: &str,
    sink: Sink,
) -> (r: Result<(Json, Sink), ConversionError>)
    ensures
        match r {
            Ok(v) => tool_result_part(
                opt_view(*id),
                opt_view(*name),
                views(blocks@),
                is_error,
                names@,
                ptr@,
                sink@,
            ) == Ok::<(JsonV, SinkV), ConversionErrorV>((v.0@, v.1@)),
            Err(e) => tool_result_part(
                opt_view(*id),
                opt_view(*name),
                views(blocks@),
                is_error,
                names@,
                ptr@,
                sink@,
            ) == Err::<(JsonV, SinkV), ConversionErrorV>(e@),
        },
{
    let fn_name = match resolve_name(id, name, names) {
        Some(n) => n,
        None => {
            return Err(
                ConversionError::missing(
                    "functionResponse.name (set ToolResult.name or give the result the id of an earlier tool call)",
                    cat2(ptr, "/functionResponse/name").as_str(),
                ),
            );
        },
    };
    let ghost s0 = sink@;
    let mut r = ResultParts {
        texts: Vec::new(),
        media: Vec::new(),
        order_lost: false,
        seen_media: false,
        sink,
    };
    let mut i: usize = 0;
    while i < blocks.len()
        invariant
            i <= blocks@.len(),
            r@ == result_blocks(views(blocks@), ptr@, s0, i as nat),
        decreases blocks@.len() - i,
    {
        push_result_block(&mut r, &blocks[i], ptr);
        i += 1;
    }
    let ghost rv = r@;
    let mut out = r.sink;
    warn_losses(&r.texts, r.order_lost, ptr, &mut out);
    proof {
        assert(out@ == result_losses(rv, ptr@));
    }
    let response = make_response(&r.texts, is_error);
    let mut o = JsonMap::new();
    if let Some(id) = id {
        o.set("id", Json::Str(id.clone()));
    }
    o.set("name", Json::Str(fn_name));
    o.set("response", response);
    if r.media.len() > 0 {
        o.set("parts", Json::array(r.media));
    }
    Ok((make1("functionResponse", Json::object(o)), out))
}

fn add_part(p: &mut Parts, v: Json, extra: &Extra, ptr: &str)
    ensures
        final(p)@ == part_added(old(p)@, v@, extra@, ptr@, old(p)@.sink),
{
    let mut v = v;
    p.sink.merge(extra, GOOGLE_GENERATE_CONTENT, &mut v, ptr);
    p.parts.push(v);
}

fn push_part(p: &mut Parts, b: &ContentBlock, ptr: &str, as_text: bool) -> (r: Result<(), ConversionError>)
    ensures
        match r {
            Ok(_) => part_step(old(p)@, b@, ptr@, as_text) == Ok::<PartsV, ConversionErrorV>(final(p)@),
            Err(e) => part_step(old(p)@, b@, ptr@, as_text) == Err::<PartsV, ConversionErrorV>(e@),
        },
{
    if has_cache(b) {
        p.sink.warn(
            GOOGLE_GENERATE_CONTENT,
            WarningCode::CacheHintDropped,
            ptr,
            "Google has no cache breakpoint channel; the hint was dropped",
        );
    }
    match b {
        ContentBlock::Text { text, extra, .. } => {
            add_part(p, make1("text", Json::Str(text.clone())), extra, ptr);
            Ok(())
        },
        ContentBlock::Image { source, extra, .. } => {
            let v = serialize_image(source, ptr, &mut p.sink);
            add_part(p, v, extra, ptr);
            Ok(())
        },
        ContentBlock::ToolCall { id, name, arguments, extra, .. } => {
            match parse_args(name, arguments, ptr) {
                Err(e) => Err(e),
                Ok(args) => {
                    if let Some(id) = id {
                        p.names.set(id.as_str(), Json::Str(name.clone()));
                    }
                    add_part(p, make_call(id, name, args), extra, ptr);
                    Ok(())
                },
            }
        },
        ContentBlock::Thinking { text, signature, extra } => {
            match serialize_thinking(text, signature, extra, as_text, ptr, &mut p.sink) {
                Some(v) => {
                    add_part(p, v, extra, ptr);
                },
                None => {},
            }
            Ok(())
        },
        ContentBlock::ToolResult { tool_call_id, name, content, is_error, extra, .. } => {
            let mut taken = Sink::new();
            std::mem::swap(&mut taken, &mut p.sink);
            match serialize_tool_result(tool_call_id, name, content, *is_error, &p.names, ptr, taken) {
                Err(e) => Err(e),
                Ok((v, sink)) => {
                    p.sink = sink;
                    add_part(p, v, extra, ptr);
                    Ok(())
                },
            }
        },
        ContentBlock::Opaque { format, value } => {
            if text_is(format, GOOGLE_GENERATE_CONTENT) {
                p.parts.push(value.copy());
            } else {
                p.sink.warn(
                    GOOGLE_GENERATE_CONTENT,
                    WarningCode::OpaqueDropped,
                    ptr,
                    cat3("opaque block belongs to format `", format.as_str(), "` and was dropped").as_str(),
                );
            }
            Ok(())
        },
    }
}

/// Serializes the blocks of message `mi` into parts of content `ci`.
pub fn serialize_message_blocks(
    p: &mut Parts,
    m: &Message,
    mi: usize,
    ci: usize,
    as_text: bool,
) -> (r: Result<(), ConversionError>)
    ensures
        match r {
            Ok(_) => message_parts(
                old(p)@,
                m@,
                mi as nat,
                ci as nat,
                as_text,
                m@.content.len(),
            ) == Ok::<PartsV, ConversionErrorV>(final(p)@),
            Err(e) => message_parts(
                old(p)@,
                m@,
                mi as nat,
                ci as nat,
                as_text,
                m@.content.len(),
            ) == Err::<PartsV, ConversionErrorV>(e@),
        },
{
    let ghost p0 = p@;
    let mut i: usize = 0;
    while i < m.content.len()
        invariant
            i <= m.content@.len(),
            p0 == old(p)@,
            message_parts(p0, m@, mi as nat, ci as nat, as_text, i as nat) == Ok::<
                PartsV,
                ConversionErrorV,
            >(p@),
        decreases m.content@.len() - i,
    {
        let b = &m.content[i];
        proof {
            assert(m@.content[i as int] == b@);
        }
        if !block_allowed(m.role, b) {
            proof {
                message_parts_error_stays(
                    p0,
                    m@,
                    mi as nat,
                    ci as nat,
                        as_text,
                    i as nat + 1,
                    m@.content.len(),
                );
            }
            return Err(
                ConversionError::invalid_block_for_role(
                    m.role,
                    b.kind_name(),
                    cat4(
                        "/messages/",
                        dec_usize(mi).as_str(),
                        "/content/",
                        dec_usize(i).as_str(),
                    ).as_str(),
                ),
            );
        }
        let ptr = cat4(
            "/contents/",
            dec_usize(ci).as_str(),
            "/parts/",
            dec_usize(p.parts.len()).as_str(),
        );
        match push_part(p, b, ptr.as_str(), as_text) {
            Ok(_) => {},
            Err(e) => {
                proof {
                    message_parts_error_stays(
                        p0,
                        m@,
                        mi as nat,
                        ci as nat,
                                as_text,
                        i as nat + 1,
                        m@.content.len(),
                    );
                }
                return Err(e);
            },
        }
        i += 1;
    }
    Ok(())
}

} // verus!
