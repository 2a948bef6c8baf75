//! Content parts and tool calls of Chat Completions messages as IR blocks.

use vstd::prelude::*;
use crate::convert::{ConversionWarning, ConversionWarningV, WarningCode};
use crate::decode::{extend_map, extended};
use crate::format::{data_url_parts, parse_data_url, OPENAI_CHAT_COMPLETIONS};
use crate::formats::openai_chat_completions::assistant::{REFUSAL_KEY, TYPE_KEY};
use crate::formats::openai_chat_completions::types;
use crate::ir::{extra_from_unknown, CacheHint, CacheHintV, ContentBlock, ContentBlockV, Extra, ExtraV, ImageSource, ImageSourceV, ToolOutputBlock, ToolOutputBlockV};
use crate::json::{json_as_str, json_get, make1, obj_remove, obj_set, object1, put_if, put_opt, Json, JsonMap, JsonV, ObjV};
use crate::model::{group_views, opt_view, views, Dup};
use crate::response::{parse_warn, parse_warned};
use crate::text::{cat2, cat3, cat5, dec_usize, decimal, opt_is, str_eq, text_is};

verus! {

broadcast use group_views;

/// A parse-side warning of this format.
pub open spec fn oparsed(
    ws: Seq<ConversionWarningV>,
    code: WarningCode,
    location: Seq<char>,
    message: Seq<char>,
) -> Seq<ConversionWarningV> {
    parse_warned(ws, OPENAI_CHAT_COMPLETIONS@, code, location, message)
}

/// A parse-side warning about a malformed field.
pub open spec fn odd_field(ws: Seq<ConversionWarningV>, location: Seq<char>, message: Seq<char>) -> Seq<ConversionWarningV> {
    oparsed(ws, WarningCode::MalformedField, location, message)
}

/// Provider data of this format.
pub open spec fn own_extra(ns: ObjV) -> ExtraV {
    extra_from_unknown(OPENAI_CHAT_COMPLETIONS@, ns)
}

/// The `type` of a value.
pub open spec fn part_type(j: JsonV) -> Option<Seq<char>> {
    json_as_str(json_get(j, "type"@))
}

/// A node of this format that is kept verbatim.
pub open spec fn opaque(j: JsonV) -> ContentBlockV {
    ContentBlockV::Opaque { format: OPENAI_CHAT_COMPLETIONS@, value: j }
}

/// A cache hint without time to live.
pub open spec fn plain_hint() -> CacheHintV {
    CacheHintV { ttl: None }
}

/// The breakpoint that the build side emits.
pub open spec fn explicit_breakpoint() -> JsonV {
    object1("mode"@, JsonV::Str("explicit"@))
}

/// The hint and the leftover of a breakpoint. On the input side it becomes a
/// hint, kept verbatim beside it unless it is the canonical one; elsewhere it
/// only stays verbatim.
pub open spec fn split_breakpoint(v: Option<JsonV>, input_side: bool) -> (Option<CacheHintV>, Option<JsonV>) {
    if input_side {
        match v {
            None => (None, None),
            Some(v) => (Some(plain_hint()), if v == explicit_breakpoint() { None } else { Some(v) }),
        }
    } else {
        (None, v)
    }
}

/// A text block that is marked as a refusal.
pub open spec fn refusal_block(text: Seq<char>, ns: ObjV) -> ContentBlockV {
    ContentBlockV::Text {
        text,
        cache: None,
        extra: own_extra(obj_set(ns, REFUSAL_KEY@, JsonV::Bool(true))),
    }
}

/// The source of an image URL.
pub open spec fn source_of(url: Seq<char>) -> ImageSourceV {
    match data_url_parts(url) {
        Some((media_type, data)) => ImageSourceV::Base64 { media_type, data },
        None => ImageSourceV::Url(url),
    }
}

/// `ns` with the members of a nested object, where it has some.
pub open spec fn nested(ns: ObjV, k: Seq<char>, inner: ObjV) -> ObjV {
    if inner.len() > 0 {
        obj_set(ns, k, JsonV::Object(inner))
    } else {
        ns
    }
}

/// The block of a text part.
pub open spec fn text_of(w: types::TextPartV, input_side: bool) -> ContentBlockV {
    let (cache, rest) = split_breakpoint(w.prompt_cache_breakpoint, input_side);
    ContentBlockV::Text {
        text: w.text,
        cache,
        extra: own_extra(put_if(w.extra, "prompt_cache_breakpoint"@, rest)),
    }
}

/// The block of an image part.
pub open spec fn image_of(w: types::ImagePartV, input_side: bool) -> ContentBlockV {
    let (cache, rest) = split_breakpoint(w.prompt_cache_breakpoint, input_side);
    ContentBlockV::Image {
        source: source_of(w.image_url.url),
        cache,
        extra: own_extra(
            put_if(
                nested(w.extra, "image_url"@, w.image_url.extra),
                "prompt_cache_breakpoint"@,
                rest,
            ),
        ),
    }
}

/// The block of a content part; unknown and malformed parts stay verbatim.
pub open spec fn part_block(
    part: JsonV,
    ptr: Seq<char>,
    input_side: bool,
    ws: Seq<ConversionWarningV>,
) -> (ContentBlockV, Seq<ConversionWarningV>) {
    let t = part_type(part);
    let parsed = if t == Some("text"@) {
        match types::decode_text_part(part) {
            Ok(w) => Ok(text_of(w, input_side)),
            Err(e) => Err(e),
        }
    } else if t == Some("image_url"@) {
        match types::decode_image_part(part) {
            Ok(w) => Ok(image_of(w, input_side)),
            Err(e) => Err(e),
        }
    } else if t == Some("refusal"@) {
        match types::decode_refusal_part(part) {
            Ok(w) => Ok(refusal_block(w.refusal, w.extra)),
            Err(e) => Err(e),
        }
    } else {
        Ok(opaque(part))
    };
    match parsed {
        Ok(b) => (b, ws),
        Err(e) => (
            opaque(part),
            odd_field(ws, ptr, "content part failed to parse and was kept verbatim: "@ + e),
        ),
    }
}

/// The blocks of the first `n` parts.
pub open spec fn part_blocks(
    parts: Seq<JsonV>,
    ptr: Seq<char>,
    input_side: bool,
    ws: Seq<ConversionWarningV>,
    n: nat,
) -> (Seq<ContentBlockV>, Seq<ConversionWarningV>)
    decreases n,
{
    if n == 0 || n > parts.len() {
        (Seq::empty(), ws)
    } else {
        let (prev, ws1) = part_blocks(parts, ptr, input_side, ws, (n - 1) as nat);
        let (b, ws2) = part_block(parts[n - 1], ptr + "/content/"@ + decimal((n - 1) as nat), input_side, ws1);
        (prev.push(b), ws2)
    }
}

/// The block of a part of tool output.
pub open spec fn output_block(part: JsonV) -> ToolOutputBlockV {
    let verbatim = ToolOutputBlockV::Opaque { format: OPENAI_CHAT_COMPLETIONS@, value: part };
    if part_type(part) == Some("text"@) {
        match types::decode_text_part(part) {
            Ok(w) => ToolOutputBlockV::Text {
                text: w.text,
                cache: None,
                extra: own_extra(put_if(w.extra, "prompt_cache_breakpoint"@, w.prompt_cache_breakpoint)),
            },
            Err(_) => verbatim,
        }
    } else {
        verbatim
    }
}

/// The blocks of tool output.
pub open spec fn output_blocks(parts: Seq<JsonV>) -> Seq<ToolOutputBlockV> {
    Seq::new(parts.len(), |i: int| output_block(parts[i]))
}

/// How a `tool_calls` entry is read.
#[derive(Clone, Copy, Debug, PartialEq, Eq, Structural)]
pub enum CallKind {
    Function,
    Custom,
    /// Kept verbatim.
    Other,
}

/// The entry declares a type that is no string.
pub open spec fn odd_type(entry: JsonV) -> bool {
    match json_get(entry, "type"@) {
        Some(t) => !(t is Null) && !(t is Str),
        None => false,
    }
}

/// The entry as it is decoded: a type that is no string is set aside.
pub open spec fn decodable(entry: JsonV) -> JsonV {
    match entry {
        JsonV::Object(o) => if odd_type(entry) { JsonV::Object(obj_remove(o, "type"@)) } else { entry },
        _ => entry,
    }
}

/// The kind of an entry. Without a type it is a function call, unless its only
/// payload is a custom one.
pub open spec fn call_kind(w: types::ToolCallEntryV, odd: bool) -> CallKind {
    if odd {
        CallKind::Other
    } else {
        match w.call_type {
            None => if w.function is None && w.custom is Some { CallKind::Custom } else { CallKind::Function },
            Some(t) => if t == "function"@ {
                CallKind::Function
            } else if t == "custom"@ {
                CallKind::Custom
            } else {
                CallKind::Other
            },
        }
    }
}

/// A member that upstream requires; empty when it is missing.
pub open spec fn call_member(
    v: Option<Seq<char>>,
    ptr: Seq<char>,
    payload: Seq<char>,
    member: Seq<char>,
    ws: Seq<ConversionWarningV>,
) -> (Seq<char>, Seq<ConversionWarningV>) {
    match v {
        Some(s) => (s, ws),
        None => (
            Seq::empty(),
            odd_field(
                ws,
                ptr + "/"@ + payload + "/"@ + member,
                "`"@ + payload + "."@ + member + "` is missing; it parses as an empty string and re-serializes as such"@,
            ),
        ),
    }
}

/// The payload of a function call; an absent one is empty.
pub open spec fn function_payload(p: Option<types::FunctionCallPayloadV>) -> types::FunctionCallPayloadV {
    match p {
        Some(p) => p,
        None => types::FunctionCallPayloadV { name: None, arguments: None, extra: Seq::empty() },
    }
}

/// The payload of a custom call; an absent one is empty.
pub open spec fn custom_payload(p: Option<types::CustomCallPayloadV>) -> types::CustomCallPayloadV {
    match p {
        Some(p) => p,
        None => types::CustomCallPayloadV { name: None, input: None, extra: Seq::empty() },
    }
}

/// What a call comes to: name, arguments, namespace and warnings.
pub struct CallV {
    pub name: Seq<char>,
    pub arguments: Seq<char>,
    pub ns: ObjV,
    pub warnings: Seq<ConversionWarningV>,
}

/// A function call.
pub open spec fn function_call(w: types::ToolCallEntryV, ptr: Seq<char>, ws: Seq<ConversionWarningV>) -> CallV {
    let p = function_payload(w.function);
    let ws1 = if w.function is None {
        odd_field(
            ws,
            ptr + "/function"@,
            "`function` tool call carries no `function` payload; `name` and `arguments` parse as empty strings"@,
        )
    } else {
        ws
    };
    let ns1 = nested(Seq::empty(), "function"@, p.extra);
    let ns2 = match w.custom {
        Some(c) => obj_set(ns1, "custom"@, types::encode_custom_call_payload(c)),
        None => ns1,
    };
    let (name, ws2) = call_member(p.name, ptr, "function"@, "name"@, ws1);
    let (arguments, ws3) = call_member(p.arguments, ptr, "function"@, "arguments"@, ws2);
    CallV { name, arguments, ns: ns2, warnings: ws3 }
}

/// A custom call.
pub open spec fn custom_call(w: types::ToolCallEntryV, ptr: Seq<char>, ws: Seq<ConversionWarningV>) -> CallV {
    let p = custom_payload(w.custom);
    let ws1 = if w.custom is None {
        odd_field(
            ws,
            ptr + "/custom"@,
            "`custom` tool call carries no `custom` payload; `name` and `input` parse as empty strings"@,
        )
    } else {
        ws
    };
    let ns0 = obj_set(Seq::empty(), TYPE_KEY@, JsonV::Str("custom"@));
    let ns1 = nested(ns0, "custom"@, p.extra);
    let ns2 = match w.function {
        Some(f) => obj_set(ns1, "function"@, types::encode_function_call_payload(f)),
        None => ns1,
    };
    let (name, ws2) = call_member(p.name, ptr, "custom"@, "name"@, ws1);
    let (arguments, ws3) = call_member(p.input, ptr, "custom"@, "input"@, ws2);
    CallV { name, arguments, ns: ns2, warnings: ws3 }
}

/// The first `n` members of an entry, the id left out.
pub open spec fn entry_mirror(o: ObjV, n: nat) -> ObjV
    decreases n,
{
    if n == 0 || n > o.len() {
        Seq::empty()
    } else if o[n - 1].0 == "id"@ {
        entry_mirror(o, (n - 1) as nat)
    } else {
        obj_set(entry_mirror(o, (n - 1) as nat), o[n - 1].0, o[n - 1].1)
    }
}

/// A call of a kind that is not modeled: the entry is mirrored.
pub open spec fn other_call(
    entry: JsonV,
    w: types::ToolCallEntryV,
    ptr: Seq<char>,
    ws: Seq<ConversionWarningV>,
) -> CallV {
    CallV {
        name: Seq::empty(),
        arguments: Seq::empty(),
        ns: match entry {
            JsonV::Object(o) => entry_mirror(o, o.len()),
            _ => Seq::empty(),
        },
        warnings: odd_field(
            ws,
            ptr,
            match w.call_type {
                Some(t) => "unknown tool call type `"@ + t + "`; the entry was mirrored verbatim"@,
                None => "non-string tool call `type`; the entry was mirrored verbatim"@,
            },
        ),
    }
}

/// The block of a `tool_calls` entry; one that does not parse is skipped.
pub open spec fn call_block(
    entry: JsonV,
    ptr: Seq<char>,
    ws: Seq<ConversionWarningV>,
) -> (Option<ContentBlockV>, Seq<ConversionWarningV>) {
    match types::decode_tool_call_entry(decodable(entry)) {
        Err(e) => (None, odd_field(ws, ptr, "tool call entry failed to parse and was skipped: "@ + e)),
        Ok(w) => {
            let ws1 = if w.id is None {
                odd_field(
                    ws,
                    ptr + "/id"@,
                    "tool call entry has no `id`; the IR keeps `id: None`, and formats that require tool call ids will fail to rebuild the call"@,
                )
            } else {
                ws
            };
            let c = match call_kind(w, odd_type(entry)) {
                CallKind::Function => function_call(w, ptr, ws1),
                CallKind::Custom => custom_call(w, ptr, ws1),
                CallKind::Other => other_call(entry, w, ptr, ws1),
            };
            (
                Some(
                    ContentBlockV::ToolCall {
                        id: w.id,
                        name: c.name,
                        arguments: c.arguments,
                        cache: None,
                        extra: own_extra(extended(c.ns, w.extra)),
                    },
                ),
                c.warnings,
            )
        },
    }
}

/// The blocks of the first `n` entries, behind `blocks`.
pub open spec fn call_blocks(
    entries: Seq<JsonV>,
    ptr: Seq<char>,
    blocks: Seq<ContentBlockV>,
    ws: Seq<ConversionWarningV>,
    n: nat,
) -> (Seq<ContentBlockV>, Seq<ConversionWarningV>)
    decreases n,
{
    if n == 0 || n > entries.len() {
        (blocks, ws)
    } else {
        let (prev, ws1) = call_blocks(entries, ptr, blocks, ws, (n - 1) as nat);
        let (b, ws2) = call_block(entries[n - 1], ptr + "/tool_calls/"@ + decimal((n - 1) as nat), ws1);
        (
            match b {
                Some(b) => prev.push(b),
                None => prev,
            },
            ws2,
        )
    }
}

/// Adds a parse-side warning about a malformed field.
pub fn warn_field(ws: &mut Vec<ConversionWarning>, location: &str, message: &str)
    ensures
        views(final(ws)@) == odd_field(views(old(ws)@), location@, message@),
{
    parse_warn(ws, OPENAI_CHAT_COMPLETIONS, WarningCode::MalformedField, location, message);
}

/// Reads the `type` of a value.
pub fn type_of_part(j: &Json) -> (r: Option<&String>)
    ensures
        match r {
            Some(s) => part_type(j@) == Some(s@),
            None => part_type(j@) is None,
        },
{
    match j.get("type") {
        Some(t) => t.as_str(),
        None => None,
    }
}

fn parse_breakpoint(v: Option<Json>, input_side: bool) -> (r: (Option<CacheHint>, Option<Json>))
    ensures
        (opt_view(r.0), opt_view(r.1)) == split_breakpoint(opt_view(v), input_side),
{
    if !input_side {
        return (None, v);
    }
    match v {
        None => (None, None),
        Some(v) => {
            let canonical = v.same(&make1("mode", Json::text("explicit")));
            (Some(CacheHint::new()), if canonical { None } else { Some(v) })
        },
    }
}

/// Builds a text block that is marked as a refusal.
pub fn refusal_text_block(text: String, ns: JsonMap) -> (r: ContentBlock)
    ensures
        r@ == refusal_block(text@, ns@),
{
    let mut ns = ns;
    ns.set(REFUSAL_KEY, Json::Bool(true));
    ContentBlock::Text { text, cache: None, extra: Extra::from_unknown(OPENAI_CHAT_COMPLETIONS, ns) }
}

fn make_source(url: String) -> (r: ImageSource)
    ensures
        r@ == source_of(url@),
{
    match parse_data_url(url.as_str()) {
        Some((media_type, data)) => ImageSource::Base64 { media_type, data },
        None => ImageSource::Url(url),
    }
}

/// Sets `k` to an object, unless that is empty.
pub fn nest(ns: &mut JsonMap, k: &str, inner: JsonMap)
    ensures
        final(ns)@ == nested(old(ns)@, k@, inner@),
{
    if !inner.is_empty() {
        ns.set(k, Json::object(inner));
    }
}

fn block_of_text(w: types::TextPart, input_side: bool) -> (r: ContentBlock)
    ensures
        r@ == text_of(w@, input_side),
{
    let (cache, rest) = parse_breakpoint(w.prompt_cache_breakpoint, input_side);
    let mut ns = w.extra;
    put_opt(&mut ns, "prompt_cache_breakpoint", rest);
    ContentBlock::Text { text: w.text, cache, extra: Extra::from_unknown(OPENAI_CHAT_COMPLETIONS, ns) }
}

fn block_of_image(w: types::ImagePart, input_side: bool) -> (r: ContentBlock)
    ensures
        r@ == image_of(w@, input_side),
{
    let (cache, rest) = parse_breakpoint(w.prompt_cache_breakpoint, input_side);
    let mut ns = w.extra;
    let image_url = w.image_url;
    nest(&mut ns, "image_url", image_url.extra);
    put_opt(&mut ns, "prompt_cache_breakpoint", rest);
    ContentBlock::Image {
        source: make_source(image_url.url),
        cache,
        extra: Extra::from_unknown(OPENAI_CHAT_COMPLETIONS, ns),
    }
}

/// Parses one content part.
pub fn content_part_to_block(part: &Json, ptr: &str, input_side: bool, ws: &mut Vec<ConversionWarning>) -> (r: ContentBlock)
    ensures
        (r@, views(final(ws)@)) == part_block(part@, ptr@, input_side, views(old(ws)@)),
{
    let t = type_of_part(part);
    let parsed: Result<ContentBlock, String> = if opt_is(t, "text") {
        match types::TextPart::from_json(part) {
            Ok(w) => Ok(block_of_text(w, input_side)),
            Err(e) => Err(e),
        }
    } else if opt_is(t, "image_url") {
        match types::ImagePart::from_json(part) {
            Ok(w) => Ok(block_of_image(w, input_side)),
            Err(e) => Err(e),
        }
    } else if opt_is(t, "refusal") {
        match types::RefusalPart::from_json(part) {
            Ok(w) => Ok(refusal_text_block(w.refusal, w.extra)),
            Err(e) => Err(e),
        }
    } else {
        Ok(ContentBlock::opaque(OPENAI_CHAT_COMPLETIONS, part.copy()))
    };
    match parsed {
        Ok(b) => b,
        Err(e) => {
            warn_field(
                ws,
                ptr,
                cat2("content part failed to parse and was kept verbatim: ", e.as_str()).as_str(),
            );
            ContentBlock::opaque(OPENAI_CHAT_COMPLETIONS, part.copy())
        },
    }
}

/// Parses an array of content parts.
pub fn parse_parts(parts: &Vec<Json>, ptr: &str, input_side: bool, ws: &mut Vec<ConversionWarning>) -> (r: Vec<ContentBlock>)
    ensures
        (views(r@), views(final(ws)@)) == part_blocks(
            views(parts@),
            ptr@,
            input_side,
            views(old(ws)@),
            parts@.len(),
        ),
{
    let ghost w0 = views(ws@);
    let mut out: Vec<ContentBlock> = Vec::new();
    let mut i: usize = 0;
    proof {
        assert(views(out@) =~= Seq::<ContentBlockV>::empty());
    }
    while i < parts.len()
        invariant
            i <= parts@.len(),
            (views(out@), views(ws@)) == part_blocks(views(parts@), ptr@, input_side, w0, i as nat),
        decreases parts@.len() - i,
    {
        let loc = cat3(ptr, "/content/", dec_usize(i).as_str());
        let b = content_part_to_block(&parts[i], loc.as_str(), input_side, ws);
        out.push(b);
        i += 1;
    }
    out
}

/// Parses one part of tool output.
pub fn tool_output_part_to_block(part: &Json) -> (r: ToolOutputBlock)
    ensures
        r@ == output_block(part@),
{
    if opt_is(type_of_part(part), "text") {
        match types::TextPart::from_json(part) {
            Ok(w) => {
                let mut ns = w.extra;
                put_opt(&mut ns, "prompt_cache_breakpoint", w.prompt_cache_breakpoint);
                return ToolOutputBlock::Text {
                    text: w.text,
                    cache: None,
                    extra: Extra::from_unknown(OPENAI_CHAT_COMPLETIONS, ns),
                };
            },
            Err(_) => {},
        }
    }
    ToolOutputBlock::opaque(OPENAI_CHAT_COMPLETIONS, part.copy())
}

/// Parses an array of tool-output parts.
pub fn parse_output(parts: &Vec<Json>) -> (r: Vec<ToolOutputBlock>)
    ensures
        views(r@) == output_blocks(views(parts@)),
{
    let mut out: Vec<ToolOutputBlock> = Vec::new();
    let mut i: usize = 0;
    while i < parts.len()
        invariant
            i <= parts@.len(),
            out@.len() == i,
            forall|k: int| 0 <= k < i ==> (#[trigger] out@[k])@ == output_block(parts@[k]@),
        decreases parts@.len() - i,
    {
        out.push(tool_output_part_to_block(&parts[i]));
        i += 1;
    }
    proof {
        assert(views(out@) =~= output_blocks(views(parts@)));
    }
    out
}

fn has_odd_type(entry: &Json) -> (r: bool)
    ensures
        r == odd_type(entry@),
{
    match entry.get("type") {
        Some(t) => !t.is_null() && t.as_str().is_none(),
        None => false,
    }
}

fn make_decodable(entry: &Json) -> (r: Json)
    ensures
        r@ == decodable(entry@),
{
    match entry.as_object() {
        Some(o) => {
            if has_odd_type(entry) {
                let mut rest = o.copy();
                let _ = rest.remove("type");
                Json::object(rest)
            } else {
                entry.copy()
            }
        },
        None => entry.copy(),
    }
}

fn kind_of_call(w: &types::ToolCallEntry, odd: bool) -> (r: CallKind)
    ensures
        r == call_kind(w@, odd),
{
    if odd {
        return CallKind::Other;
    }
    match &w.call_type {
        None => {
            if w.function.is_none() && w.custom.is_some() {
                CallKind::Custom
            } else {
                CallKind::Function
            }
        },
        Some(t) => {
            if text_is(t, "function") {
                CallKind::Function
            } else if text_is(t, "custom") {
                CallKind::Custom
            } else {
                CallKind::Other
            }
        },
    }
}

fn call_member_or_empty(v: &Option<String>, ptr: &str, payload: &str, member: &str, ws: &mut Vec<ConversionWarning>) -> (r: String)
    ensures
        (r@, views(final(ws)@)) == call_member(opt_view(*v), ptr@, payload@, member@, views(old(ws)@)),
{
    match v {
        Some(s) => s.clone(),
        None => {
            warn_field(
                ws,
                cat5(ptr, "/", payload, "/", member).as_str(),
                cat5(
                    "`",
                    payload,
                    ".",
                    member,
                    "` is missing; it parses as an empty string and re-serializes as such",
                ).as_str(),
            );
            String::new()
        },
    }
}

/// A call that is being parsed.
#[derive(Debug)]
pub struct Call {
    pub name: String,
    pub arguments: String,
    pub ns: JsonMap,
}

/// The call, with the warnings about it.
pub open spec fn call_parts(c: Call, ws: Seq<ConversionWarningV>) -> CallV {
    CallV { name: c.name@, arguments: c.arguments@, ns: c.ns@, warnings: ws }
}

fn parse_function_call(w: &types::ToolCallEntry, ptr: &str, ws: &mut Vec<ConversionWarning>) -> (r: Call)
    ensures
        call_parts(r, views(final(ws)@)) == function_call(w@, ptr@, views(old(ws)@)),
{
    let mut ns = JsonMap::new();
    match &w.function {
        Some(p) => {
            nest(&mut ns, "function", p.extra.copy());
            if let Some(c) = &w.custom {
                ns.set("custom", c.to_json());
            }
            let name = call_member_or_empty(&p.name, ptr, "function", "name", ws);
            let arguments = call_member_or_empty(&p.arguments, ptr, "function", "arguments", ws);
            Call { name, arguments, ns }
        },
        None => {
            warn_field(
                ws,
                cat2(ptr, "/function").as_str(),
                "`function` tool call carries no `function` payload; `name` and `arguments` parse as empty strings",
            );
            if let Some(c) = &w.custom {
                ns.set("custom", c.to_json());
            }
            let name = call_member_or_empty(&None, ptr, "function", "name", ws);
            let arguments = call_member_or_empty(&None, ptr, "function", "arguments", ws);
            Call { name, arguments, ns }
        },
    }
}

fn parse_custom_call(w: &types::ToolCallEntry, ptr: &str, ws: &mut Vec<ConversionWarning>) -> (r: Call)
    ensures
        call_parts(r, views(final(ws)@)) == custom_call(w@, ptr@, views(old(ws)@)),
{
    let mut ns = JsonMap::new();
    ns.set(TYPE_KEY, Json::text("custom"));
    match &w.custom {
        Some(p) => {
            nest(&mut ns, "custom", p.extra.copy());
            if let Some(f) = &w.function {
                ns.set("function", f.to_json());
            }
            let name = call_member_or_empty(&p.name, ptr, "custom", "name", ws);
            let arguments = call_member_or_empty(&p.input, ptr, "custom", "input", ws);
            Call { name, arguments, ns }
        },
        None => {
            warn_field(
                ws,
                cat2(ptr, "/custom").as_str(),
                "`custom` tool call carries no `custom` payload; `name` and `input` parse as empty strings",
            );
            if let Some(f) = &w.function {
                ns.set("function", f.to_json());
            }
            let name = call_member_or_empty(&None, ptr, "custom", "name", ws);
            let arguments = call_member_or_empty(&None, ptr, "custom", "input", ws);
            Call { name, arguments, ns }
        },
    }
}

fn mirror_entry(o: &JsonMap) -> (r: JsonMap)
    ensures
        r@ == entry_mirror(o@, o@.len()),
{
    let mut ns = JsonMap::new();
    let mut i: usize = 0;
    while i < o.entries.len()
        invariant
            i <= o.entries@.len(),
            ns@ == entry_mirror(o@, i as nat),
        decreases o.entries@.len() - i,
    {
        proof {
            assert(o@[i as int] == (o.entries@[i as int].0@, o.entries@[i as int].1@));
        }
        if !str_eq(o.entries[i].0.as_str(), "id") {
            ns.set(o.entries[i].0.as_str(), o.entries[i].1.copy());
        }
        i += 1;
    }
    ns
}

fn parse_other_call(entry: &Json, w: &types::ToolCallEntry, ptr: &str, ws: &mut Vec<ConversionWarning>) -> (r: Call)
    ensures
        call_parts(r, views(final(ws)@)) == other_call(entry@, w@, ptr@, views(old(ws)@)),
{
    match &w.call_type {
        Some(t) => {
            warn_field(
                ws,
                ptr,
                cat3("unknown tool call type `", t.as_str(), "`; the entry was mirrored verbatim").as_str(),
            );
        },
        None => {
            warn_field(ws, ptr, "non-string tool call `type`; the entry was mirrored verbatim");
        },
    }
    let ns = match entry.as_object() {
        Some(o) => mirror_entry(o),
        None => JsonMap::new(),
    };
    Call { name: String::new(), arguments: String::new(), ns }
}

/// Parses one `tool_calls` entry.
pub fn tool_call_entry_to_block(entry: &Json, ptr: &str, ws: &mut Vec<ConversionWarning>) -> (r: Option<ContentBlock>)
    ensures
        (opt_view(r), views(final(ws)@)) == call_block(entry@, ptr@, views(old(ws)@)),
{
    let w = match types::ToolCallEntry::from_json(&make_decodable(entry)) {
        Ok(w) => w,
        Err(e) => {
            warn_field(
                ws,
                ptr,
                cat2("tool call entry failed to parse and was skipped: ", e.as_str()).as_str(),
            );
            return None;
        },
    };
    if w.id.is_none() {
        warn_field(
            ws,
            cat2(ptr, "/id").as_str(),
            "tool call entry has no `id`; the IR keeps `id: None`, and formats that require tool call ids will fail to rebuild the call",
        );
    }
    let c = match kind_of_call(&w, has_odd_type(entry)) {
        CallKind::Function => parse_function_call(&w, ptr, ws),
        CallKind::Custom => parse_custom_call(&w, ptr, ws),
        CallKind::Other => parse_other_call(entry, &w, ptr, ws),
    };
    let mut ns = c.ns;
    extend_map(&mut ns, &w.extra);
    Some(
        ContentBlock::ToolCall {
            id: w.id,
            name: c.name,
            arguments: c.arguments,
            cache: None,
            extra: Extra::from_unknown(OPENAI_CHAT_COMPLETIONS, ns),
        },
    )
}

/// Parses an array of `tool_calls` entries and appends their blocks.
pub fn parse_calls(entries: &Vec<Json>, ptr: &str, blocks: &mut Vec<ContentBlock>, ws: &mut Vec<ConversionWarning>)
    ensures
        (views(final(blocks)@), views(final(ws)@)) == call_blocks(
            views(entries@),
            ptr@,
            views(old(blocks)@),
            views(old(ws)@),
            entries@.len(),
        ),
{
    let ghost w0 = views(ws@);
    let ghost b0 = views(blocks@);
    let mut i: usize = 0;
    while i < entries.len()
        invariant
            i <= entries@.len(),
            (views(blocks@), views(ws@)) == call_blocks(views(entries@), ptr@, b0, w0, i as nat),
        decreases entries@.len() - i,
    {
        let loc = cat3(ptr, "/tool_calls/", dec_usize(i).as_str());
        match tool_call_entry_to_block(&entries[i], loc.as_str(), ws) {
            Some(b) => {
                blocks.push(b);
            },
            None => {},
        }
        i += 1;
    }
}

} // verus!
