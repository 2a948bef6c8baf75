//! Anthropic Messages content blocks as IR blocks.

use vstd::prelude::*;
use crate::convert::{ConversionWarning, ConversionWarningV, WarningCode};
use crate::decode::{unknown, unknown_members};
use crate::format::ANTHROPIC_MESSAGES;
use crate::formats::anthropic_messages::types::{decode_image_block, decode_image_source_param, decode_redacted_thinking_block, decode_text_block, decode_thinking_block, decode_tool_result_block, decode_tool_use_block, encode_cache_control, CacheControl, CacheControlV, ImageBlock, ImageSourceParam, ImageSourceParamV, RedactedThinkingBlock, TextBlock, ThinkingBlock, ToolResultBlock, ToolResultContent, ToolResultContentV, ToolUseBlock};
use crate::ir::{extra_from_unknown, non_null, text_output, CacheHint, CacheHintV, ContentBlock, ContentBlockV, Extra, ExtraV, ImageSource, ImageSourceV, ToolOutputBlock, ToolOutputBlockV};
use crate::json::{json_as_str, json_get, obj_get, obj_set, Json, JsonMap, JsonV, ObjV};
use crate::model::{group_views, opt_view, views};
use crate::response::{parse_warn, parse_warned};
use crate::text::{cat2, cat3, opt_is, text_is};
use crate::value::{json_to_text, to_text, wire};

verus! {

broadcast use group_views;

/// The `type` of a block.
pub open spec fn type_of(j: JsonV) -> Option<Seq<char>> {
    json_as_str(json_get(j, "type"@))
}

/// Reads the `type` of a block.
pub fn block_type(j: &Json) -> (r: Option<&String>)
    ensures
        opt_view(r) == type_of(j@),
{
    match j.get("type") {
        Some(t) => t.as_str(),
        None => None,
    }
}

/// Provider data made of leftover fields.
pub open spec fn leftover(fields: ObjV) -> ExtraV {
    extra_from_unknown(ANTHROPIC_MESSAGES@, fields)
}

/// A block kept verbatim.
pub open spec fn opaque_block(j: JsonV) -> ContentBlockV {
    ContentBlockV::Opaque { format: ANTHROPIC_MESSAGES@, value: j }
}

/// A nested block kept verbatim.
pub open spec fn opaque_output(j: JsonV) -> ToolOutputBlockV {
    ToolOutputBlockV::Opaque { format: ANTHROPIC_MESSAGES@, value: j }
}

/// The cache hint of a `cache_control`, and the leftover fields with what the
/// hint does not model.
pub open spec fn split_cache(cc: Option<CacheControlV>, rest: ObjV) -> (Option<CacheHintV>, ObjV) {
    match cc {
        None => (None, rest),
        Some(cc) => if cc.kind == "ephemeral"@ {
            let kept = non_null(cc.extra, cc.extra.len());
            (
                Some(CacheHintV { ttl: cc.ttl }),
                if kept.len() > 0 { obj_set(rest, "cache_control"@, JsonV::Object(kept)) } else { rest },
            )
        } else {
            (None, obj_set(rest, "cache_control"@, encode_cache_control(cc)))
        },
    }
}

/// The image source of a wire source.
pub open spec fn source_of(s: ImageSourceParamV) -> ImageSourceV {
    match s {
        ImageSourceParamV::Base64 { media_type, data } => ImageSourceV::Base64 { media_type, data },
        ImageSourceParamV::Url { url } => ImageSourceV::Url(url),
        ImageSourceParamV::File { file_id } => ImageSourceV::FileId(file_id),
    }
}

/// A known block whose shape is wrong stays verbatim, with a warning.
pub open spec fn malformed_block(
    j: JsonV,
    loc: Seq<char>,
    reason: Seq<char>,
    ws: Seq<ConversionWarningV>,
) -> (ContentBlockV, Seq<ConversionWarningV>) {
    (
        opaque_block(j),
        parse_warned(
            ws,
            ANTHROPIC_MESSAGES@,
            WarningCode::MalformedField,
            loc,
            "known block type failed to parse ("@ + reason + "); kept as opaque"@,
        ),
    )
}

/// A `text` block.
pub open spec fn parsed_text(j: JsonV, loc: Seq<char>, ws: Seq<ConversionWarningV>) -> (ContentBlockV, Seq<ConversionWarningV>) {
    match decode_text_block(j) {
        Err(e) => malformed_block(j, loc, e, ws),
        Ok(t) => {
            let (cache, rest) = split_cache(t.cache_control, t.extra);
            (ContentBlockV::Text { text: t.text, cache, extra: leftover(rest) }, ws)
        },
    }
}

/// A `tool_use` block.
pub open spec fn parsed_tool_use(j: JsonV, loc: Seq<char>, ws: Seq<ConversionWarningV>) -> (ContentBlockV, Seq<ConversionWarningV>) {
    match decode_tool_use_block(j) {
        Err(e) => malformed_block(j, loc, e, ws),
        Ok(t) => {
            let (cache, rest) = split_cache(t.cache_control, t.extra);
            (
                ContentBlockV::ToolCall {
                    id: Some(t.id),
                    name: t.name,
                    arguments: json_to_text(wire(t.input)),
                    cache,
                    extra: leftover(rest),
                },
                if t.input is Object {
                    ws
                } else {
                    parse_warned(
                        ws,
                        ANTHROPIC_MESSAGES@,
                        WarningCode::MalformedToolCall,
                        loc + "/input"@,
                        "tool_use.input is not a JSON object; kept verbatim in `arguments`, so rebuilding this call for Anthropic will fail"@,
                    )
                },
            )
        },
    }
}

/// An assistant-side block.
pub open spec fn parsed_assistant(j: JsonV, loc: Seq<char>, ws: Seq<ConversionWarningV>) -> (ContentBlockV, Seq<ConversionWarningV>) {
    let t = type_of(j);
    if t == Some("text"@) {
        parsed_text(j, loc, ws)
    } else if t == Some("tool_use"@) {
        parsed_tool_use(j, loc, ws)
    } else if t == Some("thinking"@) {
        match decode_thinking_block(j) {
            Err(e) => malformed_block(j, loc, e, ws),
            Ok(t) => (
                ContentBlockV::Thinking {
                    text: Some(t.thinking),
                    signature: t.signature,
                    extra: leftover(t.extra),
                },
                ws,
            ),
        }
    } else if t == Some("redacted_thinking"@) {
        match decode_redacted_thinking_block(j) {
            Err(e) => malformed_block(j, loc, e, ws),
            Ok(t) => (
                ContentBlockV::Thinking {
                    text: None,
                    signature: Some(t.data),
                    extra: leftover(obj_set(t.extra, "redacted"@, JsonV::Bool(true))),
                },
                ws,
            ),
        }
    } else {
        (opaque_block(j), ws)
    }
}

/// A user-side block other than a tool result.
pub open spec fn parsed_user(j: JsonV, loc: Seq<char>, ws: Seq<ConversionWarningV>) -> (ContentBlockV, Seq<ConversionWarningV>) {
    let t = type_of(j);
    if t == Some("text"@) {
        parsed_text(j, loc, ws)
    } else if t == Some("image"@) {
        match decode_image_block(j) {
            Err(e) => malformed_block(j, loc, e, ws),
            Ok(img) => {
                let (cache, rest) = split_cache(img.cache_control, img.extra);
                (ContentBlockV::Image { source: source_of(img.source), cache, extra: leftover(rest) }, ws)
            },
        }
    } else {
        (opaque_block(j), ws)
    }
}

/// A nested block of a tool result. Its `cache_control` stays among the
/// leftover fields.
pub open spec fn parsed_nested(j: JsonV) -> ToolOutputBlockV {
    let t = type_of(j);
    match j {
        JsonV::Object(o) => if t == Some("text"@) {
            match json_as_str(obj_get(o, "text"@)) {
                Some(text) => ToolOutputBlockV::Text {
                    text,
                    cache: None,
                    extra: leftover(unknown(o, seq!["type"@, "text"@])),
                },
                None => opaque_output(j),
            }
        } else if t == Some("image"@) {
            match obj_get(o, "source"@) {
                Some(s) => match decode_image_source_param(s) {
                    Ok(source) => ToolOutputBlockV::Image {
                        source: source_of(source),
                        cache: None,
                        extra: leftover(unknown(o, seq!["type"@, "source"@])),
                    },
                    Err(_) => opaque_output(j),
                },
                None => opaque_output(j),
            }
        } else {
            opaque_output(j)
        },
        _ => opaque_output(j),
    }
}

/// The first `n` nested blocks.
pub open spec fn parsed_nested_all(a: Seq<JsonV>, n: nat) -> Seq<ToolOutputBlockV>
    decreases n,
{
    if n == 0 || n > a.len() {
        Seq::empty()
    } else {
        parsed_nested_all(a, (n - 1) as nat).push(parsed_nested(a[n - 1]))
    }
}

/// The content of a tool result.
pub open spec fn parsed_result_content(c: Option<ToolResultContentV>) -> Seq<ToolOutputBlockV> {
    match c {
        None => Seq::empty(),
        Some(ToolResultContentV::Text(s)) => seq![text_output(s)],
        Some(ToolResultContentV::Blocks(a)) => parsed_nested_all(a, a.len()),
    }
}

/// A `tool_result` block.
pub open spec fn parsed_tool_result(j: JsonV, loc: Seq<char>, ws: Seq<ConversionWarningV>) -> (ContentBlockV, Seq<ConversionWarningV>) {
    match decode_tool_result_block(j) {
        Err(e) => malformed_block(j, loc, e, ws),
        Ok(t) => {
            let (cache, rest) = split_cache(t.cache_control, t.extra);
            (
                ContentBlockV::ToolResult {
                    tool_call_id: Some(t.tool_use_id),
                    name: None,
                    content: parsed_result_content(t.content),
                    is_error: t.is_error,
                    cache,
                    extra: leftover(rest),
                },
                ws,
            )
        },
    }
}

fn keep_non_null(o: &JsonMap) -> (r: JsonMap)
    ensures
        r@ == non_null(o@, o@.len()),
{
    let mut kept = JsonMap::new();
    let mut i: usize = 0;
    while i < o.entries.len()
        invariant
            i <= o.entries@.len(),
            kept@ == non_null(o@, i as nat),
        decreases o.entries@.len() - i,
    {
        proof {
            assert(o@[i as int] == (o.entries@[i as int].0@, o.entries@[i as int].1@));
        }
        if !o.entries[i].1.is_null() {
            kept.entries.push((o.entries[i].0.clone(), o.entries[i].1.copy()));
        }
        i += 1;
    }
    kept
}

/// Splits a `cache_control` into a hint and leftover fields.
pub fn split_cache_control(cc: Option<CacheControl>, rest: &mut JsonMap) -> (r: Option<CacheHint>)
    ensures
        (opt_view(r), final(rest)@) == split_cache(opt_view(cc), old(rest)@),
{
    match cc {
        None => None,
        Some(cc) => {
            if text_is(&cc.kind, "ephemeral") {
                let kept = keep_non_null(&cc.extra);
                if !kept.is_empty() {
                    rest.set("cache_control", Json::object(kept));
                }
                Some(CacheHint { ttl: cc.ttl })
            } else {
                rest.set("cache_control", cc.to_json());
                None
            }
        },
    }
}

fn image_source_from_wire(s: ImageSourceParam) -> (r: ImageSource)
    ensures
        r@ == source_of(s@),
{
    match s {
        ImageSourceParam::Base64 { media_type, data } => ImageSource::Base64 { media_type, data },
        ImageSourceParam::Url { url } => ImageSource::Url(url),
        ImageSourceParam::File { file_id } => ImageSource::FileId(file_id),
    }
}

fn keep_malformed(j: &Json, loc: &str, reason: &String, ws: &mut Vec<ConversionWarning>) -> (r: ContentBlock)
    ensures
        (r@, views(final(ws)@)) == malformed_block(j@, loc@, reason@, views(old(ws)@)),
{
    parse_warn(
        ws,
        ANTHROPIC_MESSAGES,
        WarningCode::MalformedField,
        loc,
        cat3("known block type failed to parse (", reason.as_str(), "); kept as opaque").as_str(),
    );
    ContentBlock::opaque(ANTHROPIC_MESSAGES, j.copy())
}

fn parse_text_block(j: &Json, loc: &str, ws: &mut Vec<ConversionWarning>) -> (r: ContentBlock)
    ensures
        (r@, views(final(ws)@)) == parsed_text(j@, loc@, views(old(ws)@)),
{
    match TextBlock::from_json(j) {
        Err(e) => keep_malformed(j, loc, &e, ws),
        Ok(t) => {
            let mut rest = t.extra;
            let cache = split_cache_control(t.cache_control, &mut rest);
            ContentBlock::Text { text: t.text, cache, extra: Extra::from_unknown(ANTHROPIC_MESSAGES, rest) }
        },
    }
}

fn parse_tool_use(j: &Json, loc: &str, ws: &mut Vec<ConversionWarning>) -> (r: ContentBlock)
    ensures
        (r@, views(final(ws)@)) == parsed_tool_use(j@, loc@, views(old(ws)@)),
{
    match ToolUseBlock::from_json(j) {
        Err(e) => keep_malformed(j, loc, &e, ws),
        Ok(t) => {
            if t.input.as_object().is_none() {
                parse_warn(
                    ws,
                    ANTHROPIC_MESSAGES,
                    WarningCode::MalformedToolCall,
                    cat2(loc, "/input").as_str(),
                    "tool_use.input is not a JSON object; kept verbatim in `arguments`, so rebuilding this call for Anthropic will fail",
                );
            }
            let mut rest = t.extra;
            let cache = split_cache_control(t.cache_control, &mut rest);
            ContentBlock::ToolCall {
                id: Some(t.id),
                name: t.name,
                arguments: to_text(&t.input),
                cache,
                extra: Extra::from_unknown(ANTHROPIC_MESSAGES, rest),
            }
        },
    }
}

/// Parses one assistant-side block.
pub fn parse_assistant_block(j: &Json, loc: &str, ws: &mut Vec<ConversionWarning>) -> (r: ContentBlock)
    ensures
        (r@, views(final(ws)@)) == parsed_assistant(j@, loc@, views(old(ws)@)),
{
    let t = block_type(j);
    if opt_is(t, "text") {
        parse_text_block(j, loc, ws)
    } else if opt_is(t, "tool_use") {
        parse_tool_use(j, loc, ws)
    } else if opt_is(t, "thinking") {
        match ThinkingBlock::from_json(j) {
            Err(e) => keep_malformed(j, loc, &e, ws),
            Ok(t) => ContentBlock::Thinking {
                text: Some(t.thinking),
                signature: t.signature,
                extra: Extra::from_unknown(ANTHROPIC_MESSAGES, t.extra),
            },
        }
    } else if opt_is(t, "redacted_thinking") {
        match RedactedThinkingBlock::from_json(j) {
            Err(e) => keep_malformed(j, loc, &e, ws),
            Ok(t) => {
                let mut rest = t.extra;
                rest.set("redacted", Json::Bool(true));
                ContentBlock::Thinking {
                    text: None,
                    signature: Some(t.data),
                    extra: Extra::from_unknown(ANTHROPIC_MESSAGES, rest),
                }
            },
        }
    } else {
        ContentBlock::opaque(ANTHROPIC_MESSAGES, j.copy())
    }
}

/// Parses one user-side block other than a tool result.
pub fn parse_user_block(j: &Json, loc: &str, ws: &mut Vec<ConversionWarning>) -> (r: ContentBlock)
    ensures
        (r@, views(final(ws)@)) == parsed_user(j@, loc@, views(old(ws)@)),
{
    let t = block_type(j);
    if opt_is(t, "text") {
        parse_text_block(j, loc, ws)
    } else if opt_is(t, "image") {
        match ImageBlock::from_json(j) {
            Err(e) => keep_malformed(j, loc, &e, ws),
            Ok(img) => {
                let mut rest = img.extra;
                let cache = split_cache_control(img.cache_control, &mut rest);
                ContentBlock::Image {
                    source: image_source_from_wire(img.source),
                    cache,
                    extra: Extra::from_unknown(ANTHROPIC_MESSAGES, rest),
                }
            },
        }
    } else {
        ContentBlock::opaque(ANTHROPIC_MESSAGES, j.copy())
    }
}

/// Parses one nested block of a tool result.
pub fn parse_nested_tool_block(j: &Json) -> (r: ToolOutputBlock)
    ensures
        r@ == parsed_nested(j@),
{
    let o = match j.as_object() {
        Some(o) => o,
        None => {
            return ToolOutputBlock::opaque(ANTHROPIC_MESSAGES, j.copy());
        },
    };
    let t = block_type(j);
    if opt_is(t, "text") {
        match o.get("text") {
            Some(Json::Str(text)) => {
                let mut known: Vec<&str> = Vec::new();
                known.push("type");
                known.push("text");
                proof {
                    assert(views(known@) =~= seq!["type"@, "text"@]);
                }
                ToolOutputBlock::Text {
                    text: text.clone(),
                    cache: None,
                    extra: Extra::from_unknown(ANTHROPIC_MESSAGES, unknown_members(o, &known)),
                }
            },
            _ => ToolOutputBlock::opaque(ANTHROPIC_MESSAGES, j.copy()),
        }
    } else if opt_is(t, "image") {
        match o.get("source") {
            Some(s) => match ImageSourceParam::from_json(s) {
                Ok(source) => {
                    let mut known: Vec<&str> = Vec::new();
                    known.push("type");
                    known.push("source");
                    proof {
                        assert(views(known@) =~= seq!["type"@, "source"@]);
                    }
                    ToolOutputBlock::Image {
                        source: image_source_from_wire(source),
                        cache: None,
                        extra: Extra::from_unknown(ANTHROPIC_MESSAGES, unknown_members(o, &known)),
                    }
                },
                Err(_) => ToolOutputBlock::opaque(ANTHROPIC_MESSAGES, j.copy()),
            },
            None => ToolOutputBlock::opaque(ANTHROPIC_MESSAGES, j.copy()),
        }
    } else {
        ToolOutputBlock::opaque(ANTHROPIC_MESSAGES, j.copy())
    }
}

fn parse_result_content(c: Option<ToolResultContent>) -> (r: Vec<ToolOutputBlock>)
    ensures
        views(r@) == parsed_result_content(opt_view(c)),
{
    let mut out: Vec<ToolOutputBlock> = Vec::new();
    match c {
        None => {},
        Some(ToolResultContent::Text(s)) => {
            out.push(ToolOutputBlock::text(s));
        },
        Some(ToolResultContent::Blocks(a)) => {
            let mut i: usize = 0;
            while i < a.len()
                invariant
                    i <= a@.len(),
                    views(out@) == parsed_nested_all(views(a@), i as nat),
                decreases a@.len() - i,
            {
                out.push(parse_nested_tool_block(&a[i]));
                i += 1;
            }
        },
    }
    out
}

/// Parses a `tool_result` block.
pub fn parse_tool_result(j: &Json, loc: &str, ws: &mut Vec<ConversionWarning>) -> (r: ContentBlock)
    ensures
        (r@, views(final(ws)@)) == parsed_tool_result(j@, loc@, views(old(ws)@)),
{
    match ToolResultBlock::from_json(j) {
        Err(e) => keep_malformed(j, loc, &e, ws),
        Ok(t) => {
            let mut rest = t.extra;
            let cache = split_cache_control(t.cache_control, &mut rest);
            ContentBlock::ToolResult {
                tool_call_id: Some(t.tool_use_id),
                name: None,
                content: parse_result_content(t.content),
                is_error: t.is_error,
                cache,
                extra: Extra::from_unknown(ANTHROPIC_MESSAGES, rest),
            }
        },
    }
}

} // verus!
