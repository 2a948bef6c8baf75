//! IR content blocks as Anthropic Messages JSON.

use vstd::prelude::*;
use crate::convert::WarningCode;
use crate::error::{ConversionError, ConversionErrorV};
use crate::format::ANTHROPIC_MESSAGES;
use crate::ir::{block_kind, extra_has, extra_has_any, extra_merged, extra_ns, CacheHint, CacheHintV, ContentBlock, ContentBlockV, Extra, ExtraV, ImageSource, ImageSourceV, Role, ToolOutputBlock, ToolOutputBlockV};
use crate::json::{json_as_bool, make1, make2, make3, obj_get, obj_index, obj_remove, object1, object2, object3, with_member, Json, JsonMap, JsonV};
use crate::merge::{addressed, merge_patch, merged, obj_part};
use crate::model::{group_views, opt_view, views};
use crate::sink::{merge_noted, warned, warned_if, Sink, SinkV};
use crate::text::{cat2, cat3, dec_usize, decimal, text_is};
use crate::value::{json_from_str, parse_text};

verus! {

broadcast use group_views;

/// A cache hint as `cache_control`.
pub open spec fn cache_control(h: CacheHintV) -> JsonV {
    match h.ttl {
        Some(ttl) => object2("type"@, JsonV::Str("ephemeral"@), "ttl"@, JsonV::Str(ttl)),
        None => object1("type"@, JsonV::Str("ephemeral"@)),
    }
}

/// `v` with the `cache_control` of a hint, if there is one.
pub open spec fn with_cache(v: JsonV, cache: Option<CacheHintV>) -> JsonV {
    match cache {
        Some(h) => with_member(v, "cache_control"@, cache_control(h)),
        None => v,
    }
}

/// An image source as the `source` union.
pub open spec fn image_source(s: ImageSourceV) -> JsonV {
    match s {
        ImageSourceV::Url(url) => object2("type"@, JsonV::Str("url"@), "url"@, JsonV::Str(url)),
        ImageSourceV::Base64 { media_type, data } => object3(
            "type"@,
            JsonV::Str("base64"@),
            "media_type"@,
            JsonV::Str(media_type),
            "data"@,
            JsonV::Str(data),
        ),
        ImageSourceV::FileId(id) => object2("type"@, JsonV::Str("file"@), "file_id"@, JsonV::Str(id)),
    }
}

/// `{"type": "text", "text": …}`.
pub open spec fn text_value(text: Seq<char>) -> JsonV {
    object2("type"@, JsonV::Str("text"@), "text"@, JsonV::Str(text))
}

/// `{"type": "image", "source": …}`.
pub open spec fn image_value(source: ImageSourceV) -> JsonV {
    object2("type"@, JsonV::Str("image"@), "source"@, image_source(source))
}

/// The error for tool arguments that are no JSON object.
pub open spec fn bad_arguments(
    name: Seq<char>,
    arguments: Seq<char>,
    reason: Seq<char>,
    loc: Seq<char>,
) -> ConversionErrorV {
    ConversionErrorV::InvalidToolArguments { name, arguments, reason, location: loc }
}

/// The JSON object that the argument text of a call holds.
pub open spec fn tool_input(name: Seq<char>, arguments: Seq<char>, loc: Seq<char>) -> Result<JsonV, ConversionErrorV> {
    match json_from_str(arguments) {
        Err(e) => Err(bad_arguments(name, arguments, "invalid JSON: "@ + e, loc)),
        Ok(j) => if j is Object {
            Ok(j)
        } else {
            Err(bad_arguments(name, arguments, "arguments must be a JSON object"@, loc))
        },
    }
}

/// The warning about a hint on a nested block.
pub open spec fn nested_hint(s: SinkV, cache: Option<CacheHintV>, loc: Seq<char>) -> SinkV {
    warned_if(
        cache is Some,
        s,
        ANTHROPIC_MESSAGES@,
        WarningCode::CacheHintDropped,
        loc,
        "cache hints on nested tool-result blocks are dropped in v1"@,
    )
}

/// The warning about an opaque block of another format.
pub open spec fn foreign_opaque(s: SinkV, format: Seq<char>, loc: Seq<char>) -> SinkV {
    warned(
        s,
        ANTHROPIC_MESSAGES@,
        WarningCode::OpaqueDropped,
        loc,
        "opaque block belongs to format `"@ + format + "`; dropped"@,
    )
}

/// One more nested block of a tool result, and what it adds to the sink.
pub open spec fn nested_step(
    prev: (Seq<JsonV>, SinkV),
    b: ToolOutputBlockV,
    loc: Seq<char>,
) -> (Seq<JsonV>, SinkV) {
    let (parts, s) = prev;
    let at = loc + "/content/"@ + decimal(parts.len());
    match b {
        ToolOutputBlockV::Text { text, cache, extra } => (
            parts.push(extra_merged(extra, ANTHROPIC_MESSAGES@, text_value(text))),
            merge_noted(nested_hint(s, cache, at), extra, ANTHROPIC_MESSAGES@, at),
        ),
        ToolOutputBlockV::Image { source, cache, extra } => (
            parts.push(extra_merged(extra, ANTHROPIC_MESSAGES@, image_value(source))),
            merge_noted(nested_hint(s, cache, at), extra, ANTHROPIC_MESSAGES@, at),
        ),
        ToolOutputBlockV::Opaque { format, value } => if format == ANTHROPIC_MESSAGES@ {
            (parts.push(value), s)
        } else {
            (parts, foreign_opaque(s, format, at))
        },
    }
}

/// The first `n` nested blocks of a tool result.
pub open spec fn nested_parts(
    content: Seq<ToolOutputBlockV>,
    loc: Seq<char>,
    s: SinkV,
    n: nat,
) -> (Seq<JsonV>, SinkV)
    decreases n,
{
    if n == 0 || n > content.len() {
        (Seq::empty(), s)
    } else {
        nested_step(nested_parts(content, loc, s, (n - 1) as nat), content[n - 1], loc)
    }
}

/// A tool result with its content: nothing for no blocks, a string for a
/// single plain text block, else a block array.
pub open spec fn with_result_content(
    v: JsonV,
    content: Seq<ToolOutputBlockV>,
    loc: Seq<char>,
    s: SinkV,
) -> (JsonV, SinkV) {
    if content.len() == 0 {
        (v, s)
    } else if content.len() == 1 && content[0] is Text && !extra_has(content[0]->Text_extra, ANTHROPIC_MESSAGES@) {
        (
            with_member(v, "content"@, JsonV::Str(content[0]->Text_text)),
            nested_hint(s, content[0]->Text_cache, loc + "/content/"@ + decimal(0)),
        )
    } else {
        let (parts, s2) = nested_parts(content, loc, s, content.len());
        (with_member(v, "content"@, JsonV::Array(parts)), s2)
    }
}

/// A thinking block belongs to this format: its own namespace says so, or it
/// is signed and no namespace says otherwise.
pub open spec fn native_thinking(signature: Option<Seq<char>>, extra: ExtraV) -> bool {
    extra_has(extra, ANTHROPIC_MESSAGES@) || (signature is Some && !extra_has_any(extra))
}

/// The namespace marks the thinking as redacted.
pub open spec fn is_redacted(extra: ExtraV) -> bool {
    json_as_bool(obj_get(extra_ns(extra, ANTHROPIC_MESSAGES@), "redacted"@)) == Some(true)
}

/// A thinking value with its signature, if there is one.
pub open spec fn thinking_value(text: Seq<char>, signature: Option<Seq<char>>) -> JsonV {
    let v = object2("type"@, JsonV::Str("thinking"@), "thinking"@, JsonV::Str(text));
    match signature {
        Some(sig) => with_member(v, "signature"@, JsonV::Str(sig)),
        None => v,
    }
}

/// `v` after the thinking namespace, without its redaction marker, was merged
/// at `loc`.
pub open spec fn with_thinking_extra(v: JsonV, extra: ExtraV, loc: Seq<char>, s: SinkV) -> (JsonV, SinkV) {
    let patch = obj_remove(extra_ns(extra, ANTHROPIC_MESSAGES@), "redacted"@);
    if patch.len() > 0 {
        (
            JsonV::Object(merged(obj_part(Some(v)), patch)),
            SinkV { warnings: s.warnings, log: s.log + addressed(patch, loc) },
        )
    } else {
        (v, s)
    }
}

/// What becomes of a thinking block.
pub open spec fn thinking_block_value(
    text: Option<Seq<char>>,
    signature: Option<Seq<char>>,
    extra: ExtraV,
    loc: Seq<char>,
    as_text: bool,
    s: SinkV,
) -> Result<(Option<JsonV>, SinkV), ConversionErrorV> {
    if native_thinking(signature, extra) {
        if is_redacted(extra) {
            match signature {
                None => Err(
                    ConversionErrorV::MissingRequired {
                        what: "redacted thinking data (Thinking.signature)"@,
                        location: loc,
                    },
                ),
                Some(data) => {
                    let (v, s2) = with_thinking_extra(
                        object2("type"@, JsonV::Str("redacted_thinking"@), "data"@, JsonV::Str(data)),
                        extra,
                        loc,
                        s,
                    );
                    Ok((Some(v), s2))
                },
            }
        } else {
            let (v, s2) = with_thinking_extra(
                thinking_value(
                    match text {
                        Some(t) => t,
                        None => Seq::empty(),
                    },
                    signature,
                ),
                extra,
                loc,
                s,
            );
            Ok((Some(v), s2))
        }
    } else if as_text && text is Some {
        Ok(
            (
                Some(thinking_value(text->0, None)),
                warned_if(
                    signature is Some,
                    s,
                    ANTHROPIC_MESSAGES@,
                    WarningCode::ThinkingSignatureDropped,
                    loc,
                    "thinking_as_text cannot carry the foreign signature; dropped"@,
                ),
            ),
        )
    } else {
        Ok(
            (
                None,
                warned(
                    s,
                    ANTHROPIC_MESSAGES@,
                    WarningCode::ThinkingDropped,
                    loc,
                    "foreign thinking block dropped (enable thinking_as_text to keep its text)"@,
                ),
            ),
        )
    }
}

/// A block that its role does not allow.
pub open spec fn invalid_block(role: Role, b: ContentBlockV, ir_loc: Seq<char>) -> ConversionErrorV {
    ConversionErrorV::InvalidBlockForRole { role, block: block_kind(b), location: ir_loc }
}

/// A value with cache hint and provider data, merged at `loc`.
pub open spec fn finished(
    v: JsonV,
    cache: Option<CacheHintV>,
    extra: ExtraV,
    loc: Seq<char>,
    s: SinkV,
) -> (Option<JsonV>, SinkV) {
    (
        Some(extra_merged(extra, ANTHROPIC_MESSAGES@, with_cache(v, cache))),
        merge_noted(s, extra, ANTHROPIC_MESSAGES@, loc),
    )
}

/// What becomes of a content block of a message with this role: a value, or
/// nothing when it is dropped with a warning.
pub open spec fn block_value(
    role: Role,
    b: ContentBlockV,
    loc: Seq<char>,
    ir_loc: Seq<char>,
    as_text: bool,
    s: SinkV,
) -> Result<(Option<JsonV>, SinkV), ConversionErrorV> {
    match b {
        ContentBlockV::Text { text, cache, extra } => if role == Role::Tool {
            Err(invalid_block(role, b, ir_loc))
        } else {
            Ok(finished(text_value(text), cache, extra, loc, s))
        },
        ContentBlockV::Image { source, cache, extra } => match role {
            Role::User => Ok(finished(image_value(source), cache, extra, loc, s)),
            Role::Assistant => Ok(
                (
                    None,
                    warned(
                        s,
                        ANTHROPIC_MESSAGES@,
                        WarningCode::ImageSourceUnsupported,
                        loc,
                        "assistant images have no channel on Anthropic; dropped"@,
                    ),
                ),
            ),
            _ => Err(invalid_block(role, b, ir_loc)),
        },
        ContentBlockV::ToolCall { id, name, arguments, cache, extra } => if role != Role::Assistant {
            Err(invalid_block(role, b, ir_loc))
        } else {
            match id {
                None => Err(
                    ConversionErrorV::MissingRequired {
                        what: "tool call id (tool_use.id)"@,
                        location: loc,
                    },
                ),
                Some(id) => match tool_input(name, arguments, loc) {
                    Err(e) => Err(e),
                    Ok(input) => Ok(
                        finished(
                            with_member(
                                object3(
                                    "type"@,
                                    JsonV::Str("tool_use"@),
                                    "id"@,
                                    JsonV::Str(id),
                                    "name"@,
                                    JsonV::Str(name),
                                ),
                                "input"@,
                                input,
                            ),
                            cache,
                            extra,
                            loc,
                            s,
                        ),
                    ),
                },
            }
        },
        ContentBlockV::ToolResult { tool_call_id, content, is_error, cache, extra, .. } => if role != Role::Tool {
            Err(invalid_block(role, b, ir_loc))
        } else {
            match tool_call_id {
                None => Err(
                    ConversionErrorV::MissingRequired {
                        what: "tool result id (tool_result.tool_use_id)"@,
                        location: loc,
                    },
                ),
                Some(id) => {
                    let (v, s2) = with_result_content(
                        object2(
                            "type"@,
                            JsonV::Str("tool_result"@),
                            "tool_use_id"@,
                            JsonV::Str(id),
                        ),
                        content,
                        loc,
                        s,
                    );
                    let v2 = match is_error {
                        Some(e) => with_member(v, "is_error"@, JsonV::Bool(e)),
                        None => v,
                    };
                    Ok(finished(v2, cache, extra, loc, s2))
                },
            }
        },
        ContentBlockV::Thinking { text, signature, extra } => if role != Role::Assistant {
            Err(invalid_block(role, b, ir_loc))
        } else {
            thinking_block_value(text, signature, extra, loc, as_text, s)
        },
        ContentBlockV::Opaque { format, value } => if format == ANTHROPIC_MESSAGES@ {
            Ok((Some(value), s))
        } else {
            Ok((None, foreign_opaque(s, format, loc)))
        },
    }
}

/// Serializes a cache hint as `cache_control`.
pub fn cache_control_value(hint: &CacheHint) -> (r: Json)
    ensures
        r@ == cache_control(hint@),
{
    match &hint.ttl {
        Some(ttl) => make2("type", Json::text("ephemeral"), "ttl", Json::Str(ttl.clone())),
        None => make1("type", Json::text("ephemeral")),
    }
}

fn put_cache(v: &mut Json, cache: &Option<CacheHint>)
    ensures
        final(v)@ == with_cache(old(v)@, opt_view(*cache)),
{
    if let Some(h) = cache {
        v.put("cache_control", cache_control_value(h));
    }
}

/// Serializes an image source as the `source` union.
pub fn image_source_value(source: &ImageSource) -> (r: Json)
    ensures
        r@ == image_source(source@),
{
    match source {
        ImageSource::Url(url) => make2("type", Json::text("url"), "url", Json::Str(url.clone())),
        ImageSource::Base64 { media_type, data } => make3(
            "type",
            Json::text("base64"),
            "media_type",
            Json::Str(media_type.clone()),
            "data",
            Json::Str(data.clone()),
        ),
        ImageSource::FileId(id) => make2("type", Json::text("file"), "file_id", Json::Str(id.clone())),
    }
}

/// Builds `{"type": "text", "text": …}`.
pub fn make_text(text: &String) -> (r: Json)
    ensures
        r@ == text_value(text@),
{
    make2("type", Json::text("text"), "text", Json::Str(text.clone()))
}

fn make_image(source: &ImageSource) -> (r: Json)
    ensures
        r@ == image_value(source@),
{
    make2("type", Json::text("image"), "source", image_source_value(source))
}

/// Parses tool-call arguments into the JSON object that `input` requires.
pub fn parse_tool_arguments(name: &String, arguments: &String, loc: &str) -> (r: Result<Json, ConversionError>)
    ensures
        match r {
            Ok(j) => tool_input(name@, arguments@, loc@) == Ok::<JsonV, ConversionErrorV>(j@),
            Err(e) => tool_input(name@, arguments@, loc@) == Err::<JsonV, ConversionErrorV>(e@),
        },
{
    match parse_text(arguments.as_str()) {
        Err(e) => Err(
            ConversionError::invalid_tool_arguments(
                name.as_str(),
                arguments.as_str(),
                cat2("invalid JSON: ", e.as_str()).as_str(),
                loc,
            ),
        ),
        Ok(j) => match j.as_object() {
            Some(_) => Ok(j),
            None => Err(
                ConversionError::invalid_tool_arguments(
                    name.as_str(),
                    arguments.as_str(),
                    "arguments must be a JSON object",
                    loc,
                ),
            ),
        },
    }
}

fn warn_nested_hint(cache: &Option<CacheHint>, loc: &str, sink: &mut Sink)
    ensures
        final(sink)@ == nested_hint(old(sink)@, opt_view(*cache), loc@),
{
    if cache.is_some() {
        sink.warn(
            ANTHROPIC_MESSAGES,
            WarningCode::CacheHintDropped,
            loc,
            "cache hints on nested tool-result blocks are dropped in v1",
        );
    }
}

fn warn_foreign_opaque(format: &String, loc: &str, sink: &mut Sink)
    ensures
        final(sink)@ == foreign_opaque(old(sink)@, format@, loc@),
{
    sink.warn(
        ANTHROPIC_MESSAGES,
        WarningCode::OpaqueDropped,
        loc,
        cat3("opaque block belongs to format `", format.as_str(), "`; dropped").as_str(),
    );
}

fn push_nested(parts: &mut Vec<Json>, b: &ToolOutputBlock, loc: &str, sink: &mut Sink)
    ensures
        (views(final(parts)@), final(sink)@) == nested_step((views(old(parts)@), old(sink)@), b@, loc@),
{
    let at = cat3(loc, "/content/", dec_usize(parts.len()).as_str());
    match b {
        ToolOutputBlock::Text { text, cache, extra } => {
            warn_nested_hint(cache, at.as_str(), sink);
            let mut v = make_text(text);
            sink.merge(extra, ANTHROPIC_MESSAGES, &mut v, at.as_str());
            parts.push(v);
        },
        ToolOutputBlock::Image { source, cache, extra } => {
            warn_nested_hint(cache, at.as_str(), sink);
            let mut v = make_image(source);
            sink.merge(extra, ANTHROPIC_MESSAGES, &mut v, at.as_str());
            parts.push(v);
        },
        ToolOutputBlock::Opaque { format, value } => {
            if text_is(format, ANTHROPIC_MESSAGES) {
                parts.push(value.copy());
            } else {
                warn_foreign_opaque(format, at.as_str(), sink);
            }
        },
    }
}

/// Adds the content of a tool result: nothing for no blocks, a string for a
/// single plain text block, else a block array.
pub fn build_tool_result_content(content: &Vec<ToolOutputBlock>, loc: &str, sink: &mut Sink, out: &mut Json)
    ensures
        (final(out)@, final(sink)@) == with_result_content(old(out)@, views(content@), loc@, old(sink)@),
{
    if content.len() == 0 {
        return;
    }
    if content.len() == 1 {
        proof {
            assert(views(content@)[0] == content@[0]@);
        }
        if let ToolOutputBlock::Text { text, cache, extra } = &content[0] {
            if !extra.has(ANTHROPIC_MESSAGES) {
                let at = cat3(loc, "/content/", dec_usize(0).as_str());
                warn_nested_hint(cache, at.as_str(), sink);
                out.put("content", Json::Str(text.clone()));
                return;
            }
        }
    }
    let mut parts: Vec<Json> = Vec::new();
    let ghost s0 = sink@;
    let mut i: usize = 0;
    while i < content.len()
        invariant
            i <= content@.len(),
            (views(parts@), sink@) == nested_parts(views(content@), loc@, s0, i as nat),
        decreases content@.len() - i,
    {
        push_nested(&mut parts, &content[i], loc, sink);
        i += 1;
    }
    out.put("content", Json::array(parts));
}

fn merge_thinking_extra(extra: &Extra, v: &mut Json, loc: &str, sink: &mut Sink)
    ensures
        (final(v)@, final(sink)@) == with_thinking_extra(old(v)@, extra@, loc@, old(sink)@),
{
    let mut patch = match extra.get(ANTHROPIC_MESSAGES) {
        Some(ns) => ns.copy(),
        None => JsonMap::new(),
    };
    let _ = patch.remove("redacted");
    if !patch.is_empty() {
        merge_patch(v, &patch, loc, &mut sink.log);
    }
}

fn redacted(extra: &Extra) -> (r: bool)
    ensures
        r == is_redacted(extra@),
{
    reveal(obj_get);
    reveal(obj_index);
    match extra.get(ANTHROPIC_MESSAGES) {
        Some(ns) => match ns.get("redacted") {
            Some(j) => match j.as_bool() {
                Some(b) => b,
                None => false,
            },
            None => false,
        },
        None => false,
    }
}

/// Converts a thinking block by its provenance.
pub fn convert_thinking(
    text: &Option<String>,
    signature: &Option<String>,
    extra: &Extra,
    loc: &str,
    as_text: bool,
    sink: &mut Sink,
) -> (r: Result<Option<Json>, ConversionError>)
    ensures
        match r {
            Ok(v) => thinking_block_value(
                opt_view(*text),
                opt_view(*signature),
                extra@,
                loc@,
                as_text,
                old(sink)@,
            ) == Ok::<(Option<JsonV>, SinkV), ConversionErrorV>((opt_view(v), final(sink)@)),
            Err(e) => thinking_block_value(
                opt_view(*text),
                opt_view(*signature),
                extra@,
                loc@,
                as_text,
                old(sink)@,
            ) == Err::<(Option<JsonV>, SinkV), ConversionErrorV>(e@) && final(sink)@ == old(sink)@,
        },
{
    let native = extra.has(ANTHROPIC_MESSAGES) || (signature.is_some() && !extra.has_any());
    if native {
        if redacted(extra) {
            match signature {
                None => Err(
                    ConversionError::missing("redacted thinking data (Thinking.signature)", loc),
                ),
                Some(data) => {
                    let mut v = make2(
                        "type",
                        Json::text("redacted_thinking"),
                        "data",
                        Json::Str(data.clone()),
                    );
                    merge_thinking_extra(extra, &mut v, loc, sink);
                    Ok(Some(v))
                },
            }
        } else {
            let t = match text {
                Some(t) => t.clone(),
                None => String::new(),
            };
            let mut v = make2("type", Json::text("thinking"), "thinking", Json::Str(t));
            if let Some(sig) = signature {
                v.put("signature", Json::Str(sig.clone()));
            }
            merge_thinking_extra(extra, &mut v, loc, sink);
            Ok(Some(v))
        }
    } else {
        match text {
            Some(t) if as_text => {
                if signature.is_some() {
                    sink.warn(
                        ANTHROPIC_MESSAGES,
                        WarningCode::ThinkingSignatureDropped,
                        loc,
                        "thinking_as_text cannot carry the foreign signature; dropped",
                    );
                }
                Ok(Some(make2("type", Json::text("thinking"), "thinking", Json::Str(t.clone()))))
            },
            _ => {
                sink.warn(
                    ANTHROPIC_MESSAGES,
                    WarningCode::ThinkingDropped,
                    loc,
                    "foreign thinking block dropped (enable thinking_as_text to keep its text)",
                );
                Ok(None)
            },
        }
    }
}

fn finish(mut v: Json, cache: &Option<CacheHint>, extra: &Extra, loc: &str, sink: &mut Sink) -> (r: Option<Json>)
    ensures
        (opt_view(r), final(sink)@) == finished(v@, opt_view(*cache), extra@, loc@, old(sink)@),
{
    put_cache(&mut v, cache);
    sink.merge(extra, ANTHROPIC_MESSAGES, &mut v, loc);
    Some(v)
}

/// Converts one content block for its role. `loc` points into the would-be
/// output; `ir_loc` is the block's place in the IR. A block that is refused, for
/// whatever reason, leaves no warning behind.
pub fn convert_block(
    role: Role,
    block: &ContentBlock,
    loc: &str,
    ir_loc: &str,
    as_text: bool,
    sink: &mut Sink,
) -> (r: Result<Option<Json>, ConversionError>)
    ensures
        match r {
            Ok(v) => block_value(role, block@, loc@, ir_loc@, as_text, old(sink)@) == Ok::<
                (Option<JsonV>, SinkV),
                ConversionErrorV,
            >((opt_view(v), final(sink)@)),
            Err(e) => block_value(role, block@, loc@, ir_loc@, as_text, old(sink)@) == Err::<
                (Option<JsonV>, SinkV),
                ConversionErrorV,
            >(e@) && final(sink)@ == old(sink)@,
        },
{
    match block {
        ContentBlock::Text { text, cache, extra } => {
            if role == Role::Tool {
                return Err(ConversionError::invalid_block_for_role(role, block.kind_name(), ir_loc));
            }
            Ok(finish(make_text(text), cache, extra, loc, sink))
        },
        ContentBlock::Image { source, cache, extra } => match role {
            Role::User => Ok(finish(make_image(source), cache, extra, loc, sink)),
            Role::Assistant => {
                sink.warn(
                    ANTHROPIC_MESSAGES,
                    WarningCode::ImageSourceUnsupported,
                    loc,
                    "assistant images have no channel on Anthropic; dropped",
                );
                Ok(None)
            },
            _ => Err(ConversionError::invalid_block_for_role(role, block.kind_name(), ir_loc)),
        },
        ContentBlock::ToolCall { id, name, arguments, cache, extra } => {
            if role != Role::Assistant {
                return Err(ConversionError::invalid_block_for_role(role, block.kind_name(), ir_loc));
            }
            match id {
                None => Err(ConversionError::missing("tool call id (tool_use.id)", loc)),
                Some(id) => match parse_tool_arguments(name, arguments, loc) {
                    Err(e) => Err(e),
                    Ok(input) => {
                        let mut v = make3(
                            "type",
                            Json::text("tool_use"),
                            "id",
                            Json::Str(id.clone()),
                            "name",
                            Json::Str(name.clone()),
                        );
                        v.put("input", input);
                        Ok(finish(v, cache, extra, loc, sink))
                    },
                },
            }
        },
        ContentBlock::ToolResult { tool_call_id, content, is_error, cache, extra, .. } => {
            if role != Role::Tool {
                return Err(ConversionError::invalid_block_for_role(role, block.kind_name(), ir_loc));
            }
            match tool_call_id {
                None => Err(ConversionError::missing("tool result id (tool_result.tool_use_id)", loc)),
                Some(id) => {
                    let mut v = make2(
                        "type",
                        Json::text("tool_result"),
                        "tool_use_id",
                        Json::Str(id.clone()),
                    );
                    build_tool_result_content(content, loc, sink, &mut v);
                    if let Some(e) = is_error {
                        v.put("is_error", Json::Bool(*e));
                    }
                    Ok(finish(v, cache, extra, loc, sink))
                },
            }
        },
        ContentBlock::Thinking { text, signature, extra } => {
            if role != Role::Assistant {
                return Err(ConversionError::invalid_block_for_role(role, block.kind_name(), ir_loc));
            }
            convert_thinking(text, signature, extra, loc, as_text, sink)
        },
        ContentBlock::Opaque { format, value } => {
            if text_is(format, ANTHROPIC_MESSAGES) {
                Ok(Some(value.copy()))
            } else {
                warn_foreign_opaque(format, loc, sink);
                Ok(None)
            }
        },
    }
}

} // verus!
