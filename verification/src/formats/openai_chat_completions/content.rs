//! Message content of Chat Completions requests: input parts and tool
//! messages.

use vstd::prelude::*;
use crate::convert::WarningCode;
use crate::error::{ConversionError, ConversionErrorV};
use crate::format::{data_url, to_data_url, OPENAI_CHAT_COMPLETIONS};
use crate::ir::{block_kind, extra_has, extra_merged, CacheHint, CacheHintV, ContentBlock, ContentBlockV, Extra, ExtraV, ImageSource, ImageSourceV, Role, ToolOutputBlock, ToolOutputBlockV};
use crate::json::{make1, make2, object1, object2, with_member, Json, JsonV};
use crate::model::{group_views, opt_view, views, Dup};
use crate::sink::{merge_noted, warned, warned_if, Sink, SinkV};
use crate::text::{cat2, cat3, dec_usize, decimal, text_is};

verus! {

broadcast use group_views;

/// A build-side warning of this format.
pub open spec fn onoted(s: SinkV, code: WarningCode, location: Seq<char>, message: Seq<char>) -> SinkV {
    warned(s, OPENAI_CHAT_COMPLETIONS@, code, location, message)
}

/// A build-side warning of this format, if `cond` holds.
pub open spec fn onoted_if(cond: bool, s: SinkV, code: WarningCode, location: Seq<char>, message: Seq<char>) -> SinkV {
    warned_if(cond, s, OPENAI_CHAT_COMPLETIONS@, code, location, message)
}

/// `v` after the provider data was merged.
pub open spec fn omerged(e: ExtraV, v: JsonV) -> JsonV {
    extra_merged(e, OPENAI_CHAT_COMPLETIONS@, v)
}

/// The sink after provider data was merged at `ptr`.
pub open spec fn omerge_noted(s: SinkV, e: ExtraV, ptr: Seq<char>) -> SinkV {
    merge_noted(s, e, OPENAI_CHAT_COMPLETIONS@, ptr)
}

/// A text part.
pub open spec fn text_part(text: Seq<char>) -> JsonV {
    object2("type"@, JsonV::Str("text"@), "text"@, JsonV::Str(text))
}

/// The warning about an opaque node of another format.
pub open spec fn opaque_lost(s: SinkV, format: Seq<char>, ptr: Seq<char>) -> SinkV {
    onoted(
        s,
        WarningCode::OpaqueDropped,
        ptr,
        "opaque block belongs to `"@ + format + "` and was dropped"@,
    )
}

/// A part with the breakpoint of a cache hint; the time to live has no
/// equivalent.
pub open spec fn with_breakpoint(part: JsonV, cache: Option<CacheHintV>, ptr: Seq<char>, s: SinkV) -> (JsonV, SinkV) {
    match cache {
        None => (part, s),
        Some(h) => (
            with_member(part, "prompt_cache_breakpoint"@, object1("mode"@, JsonV::Str("explicit"@))),
            onoted_if(
                h.ttl is Some,
                s,
                WarningCode::CacheTtlDropped,
                ptr + "/prompt_cache_breakpoint"@,
                "per-block cache TTLs have no OpenAI equivalent (the breakpoint itself was kept; set `prompt_cache_options.ttl` via `extra` for a request-level TTL)"@,
            ),
        ),
    }
}

/// The URL of an image, if it has a channel.
pub open spec fn image_url(source: ImageSourceV) -> Option<Seq<char>> {
    match source {
        ImageSourceV::Url(url) => Some(url),
        ImageSourceV::Base64 { media_type, data } => Some(data_url(media_type, data)),
        ImageSourceV::FileId(_) => None,
    }
}

/// An image part; nothing when the source has no channel.
pub open spec fn image_value(
    source: ImageSourceV,
    cache: Option<CacheHintV>,
    extra: ExtraV,
    ptr: Seq<char>,
    s: SinkV,
) -> (Option<JsonV>, SinkV) {
    match image_url(source) {
        Some(url) => {
            let (part, s1) = with_breakpoint(
                object2(
                    "type"@,
                    JsonV::Str("image_url"@),
                    "image_url"@,
                    object1("url"@, JsonV::Str(url)),
                ),
                cache,
                ptr,
                s,
            );
            (Some(omerged(extra, part)), omerge_noted(s1, extra, ptr))
        },
        None => (
            None,
            onoted(
                s,
                WarningCode::ImageSourceUnsupported,
                ptr,
                "Chat Completions has no image file-id channel (the `file` content part is a document channel); the image was dropped"@,
            ),
        ),
    }
}

/// The text that may stand as a bare string: that of a single plain,
/// non-empty text block.
pub open spec fn shorthand(blocks: Seq<ContentBlockV>) -> Option<Seq<char>> {
    if blocks.len() == 1 {
        match blocks[0] {
            ContentBlockV::Text { text, cache, extra } => if cache is None && text.len() > 0 && !extra_has(
                extra,
                OPENAI_CHAT_COMPLETIONS@,
            ) {
                Some(text)
            } else {
                None
            },
            _ => None,
        }
    } else {
        None
    }
}

/// One more block of input content.
pub open spec fn input_step(
    st: (Seq<JsonV>, SinkV),
    b: ContentBlockV,
    bi: nat,
    msg_ptr: Seq<char>,
    system: bool,
) -> Result<(Seq<JsonV>, SinkV), ConversionErrorV> {
    let (parts, s) = st;
    let ptr = msg_ptr + "/content/"@ + decimal(parts.len());
    match b {
        ContentBlockV::Text { text, cache, extra } => {
            let (part, s1) = with_breakpoint(text_part(text), cache, ptr, s);
            Ok((parts.push(omerged(extra, part)), omerge_noted(s1, extra, ptr)))
        },
        ContentBlockV::Image { source, cache, extra } if !system => {
            let (part, s1) = image_value(source, cache, extra, ptr, s);
            match part {
                Some(v) => Ok((parts.push(v), s1)),
                None => Ok((parts, s1)),
            }
        },
        ContentBlockV::Opaque { format, value } => if format == OPENAI_CHAT_COMPLETIONS@ {
            Ok((parts.push(value), s))
        } else {
            Ok((parts, opaque_lost(s, format, ptr)))
        },
        _ => Err(
            ConversionErrorV::InvalidBlockForRole {
                role: if system { Role::System } else { Role::User },
                block: block_kind(b),
                location: msg_ptr + "/content/"@ + decimal(bi),
            },
        ),
    }
}

/// The first `n` blocks of input content.
pub open spec fn input_parts(
    blocks: Seq<ContentBlockV>,
    msg_ptr: Seq<char>,
    system: bool,
    s: SinkV,
    n: nat,
) -> Result<(Seq<JsonV>, SinkV), ConversionErrorV>
    decreases n,
{
    if n == 0 || n > blocks.len() {
        Ok((Seq::empty(), s))
    } else {
        match input_parts(blocks, msg_ptr, system, s, (n - 1) as nat) {
            Err(e) => Err(e),
            Ok(prev) => input_step(prev, blocks[n - 1], (n - 1) as nat, msg_ptr, system),
        }
    }
}

/// Input content: a bare string where that is possible, else an array.
pub open spec fn input_content(
    blocks: Seq<ContentBlockV>,
    msg_ptr: Seq<char>,
    system: bool,
    s: SinkV,
) -> Result<(JsonV, SinkV), ConversionErrorV> {
    match shorthand(blocks) {
        Some(text) => Ok((JsonV::Str(text), s)),
        None => match input_parts(blocks, msg_ptr, system, s, blocks.len()) {
            Err(e) => Err(e),
            Ok((parts, s1)) => Ok((JsonV::Array(parts), s1)),
        },
    }
}

/// The warning about a hint on a nested block.
pub open spec fn nested_hint_lost(s: SinkV, cache: Option<CacheHintV>, ptr: Seq<char>) -> SinkV {
    onoted_if(
        cache is Some,
        s,
        WarningCode::CacheHintDropped,
        ptr,
        "cache hints on nested tool-output blocks are dropped on every target in v1"@,
    )
}

/// One more block of tool output.
pub open spec fn output_step(st: (Seq<JsonV>, SinkV), b: ToolOutputBlockV, msg_ptr: Seq<char>) -> (Seq<JsonV>, SinkV) {
    let (parts, s) = st;
    let ptr = msg_ptr + "/content/"@ + decimal(parts.len());
    match b {
        ToolOutputBlockV::Text { text, cache, extra } => (
            parts.push(omerged(extra, text_part(text))),
            omerge_noted(nested_hint_lost(s, cache, ptr), extra, ptr),
        ),
        ToolOutputBlockV::Image { .. } => (
            parts,
            onoted(
                s,
                WarningCode::ToolResultImageDropped,
                ptr,
                "Chat Completions tool messages are text-only; the image was dropped"@,
            ),
        ),
        ToolOutputBlockV::Opaque { format, value } => if format == OPENAI_CHAT_COMPLETIONS@ {
            (parts.push(value), s)
        } else {
            (
                parts,
                onoted(
                    s,
                    WarningCode::OpaqueDropped,
                    ptr,
                    "opaque tool-output block belongs to `"@ + format + "` and was dropped"@,
                ),
            )
        },
    }
}

/// The first `n` blocks of tool output.
pub open spec fn output_parts(blocks: Seq<ToolOutputBlockV>, msg_ptr: Seq<char>, s: SinkV, n: nat) -> (Seq<JsonV>, SinkV)
    decreases n,
{
    if n == 0 || n > blocks.len() {
        (Seq::empty(), s)
    } else {
        output_step(output_parts(blocks, msg_ptr, s, (n - 1) as nat), blocks[n - 1], msg_ptr)
    }
}

/// The content of a tool message: the empty string for no blocks, a bare
/// string for a single plain text, else an array.
pub open spec fn tool_content(blocks: Seq<ToolOutputBlockV>, msg_ptr: Seq<char>, s: SinkV) -> (JsonV, SinkV) {
    if blocks.len() == 0 {
        (JsonV::Str(Seq::empty()), s)
    } else if blocks.len() == 1 && blocks[0] is Text && blocks[0]->Text_text.len() > 0 && !extra_has(
        blocks[0]->Text_extra,
        OPENAI_CHAT_COMPLETIONS@,
    ) {
        (
            JsonV::Str(blocks[0]->Text_text),
            nested_hint_lost(s, blocks[0]->Text_cache, msg_ptr + "/content"@),
        )
    } else {
        let (parts, s1) = output_parts(blocks, msg_ptr, s, blocks.len());
        (JsonV::Array(parts), s1)
    }
}

proof fn input_parts_error_stays(blocks: Seq<ContentBlockV>, msg_ptr: Seq<char>, system: bool, s: SinkV, n: nat, m: nat)
    requires
        n <= m <= blocks.len(),
        input_parts(blocks, msg_ptr, system, s, n) is Err,
    ensures
        input_parts(blocks, msg_ptr, system, s, m) == input_parts(blocks, msg_ptr, system, s, n),
    decreases m - n,
{
    if n < m {
        input_parts_error_stays(blocks, msg_ptr, system, s, n, (m - 1) as nat);
    }
}

/// Builds a text part.
pub fn make_text_part(text: &String) -> (r: Json)
    ensures
        r@ == text_part(text@),
{
    make2("type", Json::text("text"), "text", Json::Str(text.clone()))
}

/// Notes an opaque node of another format.
pub fn warn_opaque(format: &String, ptr: &str, sink: &mut Sink)
    ensures
        final(sink)@ == opaque_lost(old(sink)@, format@, ptr@),
{
    sink.warn(
        OPENAI_CHAT_COMPLETIONS,
        WarningCode::OpaqueDropped,
        ptr,
        cat3("opaque block belongs to `", format.as_str(), "` and was dropped").as_str(),
    );
}

fn apply_breakpoint(part: &mut Json, cache: &Option<CacheHint>, ptr: &str, sink: &mut Sink)
    ensures
        (final(part)@, final(sink)@) == with_breakpoint(old(part)@, opt_view(*cache), ptr@, old(sink)@),
{
    if let Some(h) = cache {
        part.put("prompt_cache_breakpoint", make1("mode", Json::text("explicit")));
        if h.ttl.is_some() {
            sink.warn(
                OPENAI_CHAT_COMPLETIONS,
                WarningCode::CacheTtlDropped,
                cat2(ptr, "/prompt_cache_breakpoint").as_str(),
                "per-block cache TTLs have no OpenAI equivalent (the breakpoint itself was kept; set `prompt_cache_options.ttl` via `extra` for a request-level TTL)",
            );
        }
    }
}

/// Builds an image part; nothing when the source has no channel.
pub fn build_image_part(source: &ImageSource, cache: &Option<CacheHint>, extra: &Extra, ptr: &str, sink: &mut Sink) -> (r: Option<Json>)
    ensures
        (opt_view(r), final(sink)@) == image_value(source@, opt_view(*cache), extra@, ptr@, old(sink)@),
{
    let url = match source {
        ImageSource::Url(url) => url.clone(),
        ImageSource::Base64 { media_type, data } => to_data_url(media_type.as_str(), data.as_str()),
        ImageSource::FileId(_) => {
            sink.warn(
                OPENAI_CHAT_COMPLETIONS,
                WarningCode::ImageSourceUnsupported,
                ptr,
                "Chat Completions has no image file-id channel (the `file` content part is a document channel); the image was dropped",
            );
            return None;
        },
    };
    let mut part = make2("type", Json::text("image_url"), "image_url", make1("url", Json::Str(url)));
    apply_breakpoint(&mut part, cache, ptr, sink);
    sink.merge(extra, OPENAI_CHAT_COMPLETIONS, &mut part, ptr);
    Some(part)
}

/// The text that may stand as a bare string.
pub fn string_shorthand(blocks: &Vec<ContentBlock>) -> (r: Option<String>)
    ensures
        opt_view(r) == shorthand(views(blocks@)),
{
    if blocks.len() != 1 {
        return None;
    }
    proof {
        assert(views(blocks@)[0] == blocks@[0]@);
    }
    match &blocks[0] {
        ContentBlock::Text { text, cache, extra } => {
            if cache.is_none() && !text.as_str().is_empty() && !extra.has(OPENAI_CHAT_COMPLETIONS) {
                Some(text.clone())
            } else {
                None
            }
        },
        _ => None,
    }
}

fn push_input(parts: &mut Vec<Json>, b: &ContentBlock, bi: usize, msg_ptr: &str, system: bool, sink: &mut Sink) -> (r: Result<(), ConversionError>)
    ensures
        match r {
            Ok(_) => input_step((views(old(parts)@), old(sink)@), b@, bi as nat, msg_ptr@, system) == Ok::<
                (Seq<JsonV>, SinkV),
                ConversionErrorV,
            >((views(final(parts)@), final(sink)@)),
            Err(e) => input_step((views(old(parts)@), old(sink)@), b@, bi as nat, msg_ptr@, system) == Err::<
                (Seq<JsonV>, SinkV),
                ConversionErrorV,
            >(e@),
        },
{
    let ptr = cat3(msg_ptr, "/content/", dec_usize(parts.len()).as_str());
    match b {
        ContentBlock::Text { text, cache, extra } => {
            let mut part = make_text_part(text);
            apply_breakpoint(&mut part, cache, ptr.as_str(), sink);
            sink.merge(extra, OPENAI_CHAT_COMPLETIONS, &mut part, ptr.as_str());
            parts.push(part);
            Ok(())
        },
        ContentBlock::Image { source, cache, extra } if !system => {
            match build_image_part(source, cache, extra, ptr.as_str(), sink) {
                Some(v) => {
                    parts.push(v);
                },
                None => {},
            }
            Ok(())
        },
        ContentBlock::Opaque { format, value } => {
            if text_is(format, OPENAI_CHAT_COMPLETIONS) {
                parts.push(value.copy());
            } else {
                warn_opaque(format, ptr.as_str(), sink);
            }
            Ok(())
        },
        _ => Err(
            ConversionError::invalid_block_for_role(
                if system { Role::System } else { Role::User },
                b.kind_name(),
                cat3(msg_ptr, "/content/", dec_usize(bi).as_str()).as_str(),
            ),
        ),
    }
}

/// Encodes input content.
pub fn encode_input_content(blocks: &Vec<ContentBlock>, msg_ptr: &str, system: bool, sink: &mut Sink) -> (r: Result<Json, ConversionError>)
    ensures
        match r {
            Ok(v) => input_content(views(blocks@), msg_ptr@, system, old(sink)@) == Ok::<
                (JsonV, SinkV),
                ConversionErrorV,
            >((v@, final(sink)@)),
            Err(e) => input_content(views(blocks@), msg_ptr@, system, old(sink)@) == Err::<
                (JsonV, SinkV),
                ConversionErrorV,
            >(e@),
        },
{
    if let Some(text) = string_shorthand(blocks) {
        return Ok(Json::Str(text));
    }
    let ghost s0 = sink@;
    let ghost bv = views(blocks@);
    let mut parts: Vec<Json> = Vec::new();
    let mut i: usize = 0;
    while i < blocks.len()
        invariant
            i <= blocks@.len(),
            s0 == old(sink)@,
            bv == views(blocks@),
            shorthand(bv) is None,
            input_parts(bv, msg_ptr@, system, s0, i as nat) == Ok::<(Seq<JsonV>, SinkV), ConversionErrorV>(
                (views(parts@), sink@),
            ),
        decreases blocks@.len() - i,
    {
        match push_input(&mut parts, &blocks[i], i, msg_ptr, system, sink) {
            Ok(_) => {},
            Err(e) => {
                proof {
                    input_parts_error_stays(bv, msg_ptr@, system, s0, i as nat + 1, blocks@.len());
                }
                return Err(e);
            },
        }
        i += 1;
    }
    Ok(Json::array(parts))
}

fn warn_nested_hint(cache: &Option<CacheHint>, ptr: &str, sink: &mut Sink)
    ensures
        final(sink)@ == nested_hint_lost(old(sink)@, opt_view(*cache), ptr@),
{
    if cache.is_some() {
        sink.warn(
            OPENAI_CHAT_COMPLETIONS,
            WarningCode::CacheHintDropped,
            ptr,
            "cache hints on nested tool-output blocks are dropped on every target in v1",
        );
    }
}

fn push_output(parts: &mut Vec<Json>, b: &ToolOutputBlock, msg_ptr: &str, sink: &mut Sink)
    ensures
        (views(final(parts)@), final(sink)@) == output_step((views(old(parts)@), old(sink)@), b@, msg_ptr@),
{
    let ptr = cat3(msg_ptr, "/content/", dec_usize(parts.len()).as_str());
    match b {
        ToolOutputBlock::Text { text, cache, extra } => {
            warn_nested_hint(cache, ptr.as_str(), sink);
            let mut part = make_text_part(text);
            sink.merge(extra, OPENAI_CHAT_COMPLETIONS, &mut part, ptr.as_str());
            parts.push(part);
        },
        ToolOutputBlock::Image { .. } => {
            sink.warn(
                OPENAI_CHAT_COMPLETIONS,
                WarningCode::ToolResultImageDropped,
                ptr.as_str(),
                "Chat Completions tool messages are text-only; the image was dropped",
            );
        },
        ToolOutputBlock::Opaque { format, value } => {
            if text_is(format, OPENAI_CHAT_COMPLETIONS) {
                parts.push(value.copy());
            } else {
                sink.warn(
                    OPENAI_CHAT_COMPLETIONS,
                    WarningCode::OpaqueDropped,
                    ptr.as_str(),
                    cat3("opaque tool-output block belongs to `", format.as_str(), "` and was dropped").as_str(),
                );
            }
        },
    }
}

/// Encodes the content of a tool message.
pub fn build_tool_content(blocks: &Vec<ToolOutputBlock>, msg_ptr: &str, sink: &mut Sink) -> (r: Json)
    ensures
        (r@, final(sink)@) == tool_content(views(blocks@), msg_ptr@, old(sink)@),
{
    if blocks.len() == 0 {
        return Json::Str(String::new());
    }
    if blocks.len() == 1 {
        proof {
            assert(views(blocks@)[0] == blocks@[0]@);
        }
        if let ToolOutputBlock::Text { text, cache, extra } = &blocks[0] {
            if !text.as_str().is_empty() && !extra.has(OPENAI_CHAT_COMPLETIONS) {
                warn_nested_hint(cache, cat2(msg_ptr, "/content").as_str(), sink);
                return Json::Str(text.clone());
            }
        }
    }
    let ghost s0 = sink@;
    let mut parts: Vec<Json> = Vec::new();
    let mut i: usize = 0;
    while i < blocks.len()
        invariant
            i <= blocks@.len(),
            (views(parts@), sink@) == output_parts(views(blocks@), msg_ptr@, s0, i as nat),
        decreases blocks@.len() - i,
    {
        push_output(&mut parts, &blocks[i], msg_ptr, sink);
        i += 1;
    }
    Json::array(parts)
}

} // verus!
