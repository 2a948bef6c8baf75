//! What the formats share: ids, call modes, options and small encodings.

use vstd::prelude::*;
use crate::json::{JsonMap, ObjV};
use crate::json::{json_as_str, json_get, obj_get, Json, JsonV};
use crate::model::{dup_opt, dup_vec, group_views, opt_view, views, Dup};
use crate::scan::{chars_of, contains, find, find_from, find_from_props, matches_at, occurs_at, percent_encode, percent_encoded, starts_with, string_of};
use crate::text::cat4;

verus! {

broadcast use group_views;

/// Format id of OpenAI Chat Completions.
pub const OPENAI_CHAT_COMPLETIONS: &'static str = "openai_chat_completions";
/// Format id of OpenAI Responses.
pub const OPENAI_RESPONSES: &'static str = "openai_responses";
/// Format id of Anthropic Messages.
pub const ANTHROPIC_MESSAGES: &'static str = "anthropic_messages";
/// Format id of Google `generateContent`.
pub const GOOGLE_GENERATE_CONTENT: &'static str = "google_generate_content";

/// Unary or streaming call.
#[derive(Clone, Copy, Debug, PartialEq, Eq, Structural)]
pub enum CallMode {
    /// A non-streaming call.
    Unary,
    /// A streaming (SSE) call.
    Streaming,
}

/// The call streams.
pub open spec fn streams(mode: CallMode) -> bool {
    mode == CallMode::Streaming
}

impl Default for CallMode {
    fn default() -> (r: Self)
        ensures
            r == CallMode::Unary,
    {
        CallMode::Unary
    }
}

/// Which auth header the Anthropic format sends.
#[derive(Clone, Copy, Debug, PartialEq, Eq, Structural)]
pub enum AnthropicAuthStyle {
    /// `x-api-key: <key>`.
    XApiKey,
    /// `Authorization: Bearer <key>`.
    Bearer,
}

impl Default for AnthropicAuthStyle {
    fn default() -> (r: Self)
        ensures
            r == AnthropicAuthStyle::XApiKey,
    {
        AnthropicAuthStyle::XApiKey
    }
}

/// Anthropic Messages options.
#[derive(Debug, PartialEq, Eq)]
pub struct AnthropicOptions {
    /// Auth header style.
    pub auth_style: AnthropicAuthStyle,
    /// `anthropic-version` header; omitted when absent.
    pub version: Option<String>,
    /// Beta flags, joined into an `anthropic-beta` header.
    pub betas: Vec<String>,
    /// Converts mid-conversation system messages to user messages.
    pub downgrade_mid_system: bool,
    /// Merges adjacent messages of one role; signed blocks are barriers.
    pub merge_consecutive_roles: bool,
    /// Fallback for the required `max_tokens`.
    pub default_max_tokens: Option<u32>,
}

/// The mathematical value of a [`AnthropicOptions`].
pub struct AnthropicOptionsV {
    pub auth_style: AnthropicAuthStyle,
    pub version: Option<Seq<char>>,
    pub betas: Seq<Seq<char>>,
    pub downgrade_mid_system: bool,
    pub merge_consecutive_roles: bool,
    pub default_max_tokens: Option<u32>,
}

impl View for AnthropicOptions {
    type V = AnthropicOptionsV;

    open spec fn view(&self) -> AnthropicOptionsV {
        AnthropicOptionsV {
            auth_style: self.auth_style,
            version: opt_view(self.version),
            betas: views(self.betas@),
            downgrade_mid_system: self.downgrade_mid_system,
            merge_consecutive_roles: self.merge_consecutive_roles,
            default_max_tokens: self.default_max_tokens,
        }
    }
}

impl Dup for AnthropicOptions {
    fn dup(&self) -> (r: Self) {
        AnthropicOptions {
            auth_style: self.auth_style,
            version: dup_opt(&self.version),
            betas: dup_vec(&self.betas),
            downgrade_mid_system: self.downgrade_mid_system,
            merge_consecutive_roles: self.merge_consecutive_roles,
            default_max_tokens: self.default_max_tokens,
        }
    }
}

/// OpenAI Chat Completions options.
#[derive(Debug, PartialEq, Eq)]
pub struct OpenAiChatCompletionsOptions {
    /// Injects `stream_options: {include_usage: true}` on streaming calls.
    pub inject_include_usage: bool,
    /// Wire field of the plaintext thinking channel.
    pub reasoning_field: String,
}

/// The mathematical value of a [`OpenAiChatCompletionsOptions`].
pub struct OpenAiChatCompletionsOptionsV {
    pub inject_include_usage: bool,
    pub reasoning_field: Seq<char>,
}

impl View for OpenAiChatCompletionsOptions {
    type V = OpenAiChatCompletionsOptionsV;

    open spec fn view(&self) -> OpenAiChatCompletionsOptionsV {
        OpenAiChatCompletionsOptionsV {
            inject_include_usage: self.inject_include_usage,
            reasoning_field: self.reasoning_field@,
        }
    }
}

impl Dup for OpenAiChatCompletionsOptions {
    fn dup(&self) -> (r: Self) {
        OpenAiChatCompletionsOptions {
            inject_include_usage: self.inject_include_usage,
            reasoning_field: self.reasoning_field.clone(),
        }
    }
}

/// Per-format configuration.
#[derive(Debug, PartialEq, Eq)]
pub struct FormatOptions {
    /// Anthropic Messages options.
    pub anthropic: AnthropicOptions,
    /// OpenAI Chat Completions options.
    pub openai_chat_completions: OpenAiChatCompletionsOptions,
    /// Options of other formats, by format id.
    pub custom: JsonMap,
}

/// The mathematical value of a [`FormatOptions`].
pub struct FormatOptionsV {
    pub anthropic: AnthropicOptionsV,
    pub openai_chat_completions: OpenAiChatCompletionsOptionsV,
    pub custom: ObjV,
}

impl View for FormatOptions {
    type V = FormatOptionsV;

    open spec fn view(&self) -> FormatOptionsV {
        FormatOptionsV {
            anthropic: self.anthropic@,
            openai_chat_completions: self.openai_chat_completions@,
            custom: self.custom@,
        }
    }
}

impl Dup for FormatOptions {
    fn dup(&self) -> (r: Self) {
        FormatOptions {
            anthropic: self.anthropic.dup(),
            openai_chat_completions: self.openai_chat_completions.dup(),
            custom: self.custom.copy(),
        }
    }
}

/// The options of a format that is not configured.
pub open spec fn default_format_options() -> FormatOptionsV {
    FormatOptionsV {
        anthropic: AnthropicOptionsV {
            auth_style: AnthropicAuthStyle::XApiKey,
            version: Some("2023-06-01"@),
            betas: Seq::empty(),
            downgrade_mid_system: false,
            merge_consecutive_roles: false,
            default_max_tokens: None,
        },
        openai_chat_completions: OpenAiChatCompletionsOptionsV {
            inject_include_usage: true,
            reasoning_field: "reasoning_content"@,
        },
        custom: Seq::empty(),
    }
}

impl Default for FormatOptions {
    fn default() -> (r: Self)
        ensures
            r@ == default_format_options(),
    {
        FormatOptions {
            anthropic: AnthropicOptions::default(),
            openai_chat_completions: OpenAiChatCompletionsOptions::default(),
            custom: JsonMap::new(),
        }
    }
}

impl Default for AnthropicOptions {
    fn default() -> (r: Self)
        ensures
            r@ == (AnthropicOptionsV {
                auth_style: AnthropicAuthStyle::XApiKey,
                version: Some("2023-06-01"@),
                betas: Seq::empty(),
                downgrade_mid_system: false,
                merge_consecutive_roles: false,
                default_max_tokens: None,
            }),
    {
        AnthropicOptions {
            auth_style: AnthropicAuthStyle::XApiKey,
            version: Some("2023-06-01".to_owned()),
            betas: Vec::new(),
            downgrade_mid_system: false,
            merge_consecutive_roles: false,
            default_max_tokens: None,
        }
    }
}

impl Default for OpenAiChatCompletionsOptions {
    fn default() -> (r: Self)
        ensures
            r@ == (OpenAiChatCompletionsOptionsV {
                inject_include_usage: true,
                reasoning_field: "reasoning_content"@,
            }),
    {
        OpenAiChatCompletionsOptions {
            inject_include_usage: true,
            reasoning_field: "reasoning_content".to_owned(),
        }
    }
}

/// The `data:` URL of a media type and base64 payload.
pub open spec fn data_url(media_type: Seq<char>, data: Seq<char>) -> Seq<char> {
    "data:"@ + media_type + ";base64,"@ + data
}

/// The media type and payload of a base64 `data:` URL.
pub open spec fn data_url_parts(url: Seq<char>) -> Option<(Seq<char>, Seq<char>)> {
    if starts_with(url, "data:"@) {
        let rest = url.subrange("data:"@.len() as int, url.len() as int);
        match find_from(rest, ";base64,"@, 0) {
            Some(i) => Some(
                (rest.subrange(0, i), rest.subrange(i + ";base64,"@.len(), rest.len() as int)),
            ),
            None => None,
        }
    } else {
        None
    }
}

/// Builds a `data:` URL from a media type and base64 payload.
pub fn to_data_url(media_type: &str, data: &str) -> (r: String)
    ensures
        r@ == data_url(media_type@, data@),
{
    cat4("data:", media_type, ";base64,", data)
}

/// Splits a base64 `data:` URL into media type and payload; nothing for any
/// other URL or encoding.
pub fn parse_data_url(url: &str) -> (r: Option<(String, String)>)
    ensures
        match r {
            Some(p) => data_url_parts(url@) == Some((p.0@, p.1@)),
            None => data_url_parts(url@) is None,
        },
{
    let v = chars_of(url);
    let head = chars_of("data:");
    if !matches_at(&v, &head, 0) {
        return None;
    }
    let n = head.len();
    let rest = chars_of(string_of(&v, n, v.len()).as_str());
    let mark = chars_of(";base64,");
    match find(&rest, &mark, 0) {
        Some(i) => {
            proof {
                find_from_props(rest@, mark@, 0);
            }
            Some((string_of(&rest, 0, i), string_of(&rest, i + mark.len(), rest.len())))
        },
        None => None,
    }
}

/// Media type and payload of a data URL make up the URL.
pub proof fn data_url_is_made_up(url: Seq<char>)
    ensures
        match data_url_parts(url) {
            Some((m, d)) => data_url(m, d) == url,
            None => true,
        },
{
    if let Some((m, d)) = data_url_parts(url) {
        let head = "data:"@;
        let mark = ";base64,"@;
        let rest = url.subrange(head.len() as int, url.len() as int);
        find_from_props(rest, mark, 0);
        let i = find_from(rest, mark, 0)->0;
        assert(rest.subrange(i, i + mark.len()) =~= mark);
        assert(url.subrange(0, head.len() as int) =~= head);
        assert(rest =~= m + mark + d);
        assert(url =~= head + rest);
        assert(data_url(m, d) =~= url);
    }
}

/// A data URL gives back its media type and payload, for every media type
/// that does not itself hold the base64 marker.
pub proof fn data_url_round_trip(media_type: Seq<char>, data: Seq<char>)
    requires
        !contains(media_type, ";base64,"@),
    ensures
        data_url_parts(data_url(media_type, data)) == Some((media_type, data)),
{
    reveal_strlit("data:");
    reveal_strlit(";base64,");
    let mark = ";base64,"@;
    let url = data_url(media_type, data);
    assert(url.subrange(0, 5) =~= "data:"@);
    let rest = url.subrange(5, url.len() as int);
    assert(rest =~= media_type + mark + data);
    let m = media_type.len() as int;
    assert(rest.subrange(m, m + 8) =~= mark);
    find_from_props(rest, mark, 0);
    find_from_props(media_type, mark, 0);
    assert forall|k: int| 0 <= k < m implies !occurs_at(rest, mark, k) by {
        if occurs_at(rest, mark, k) {
            if k + 8 <= m {
                assert(media_type.subrange(k, k + 8) =~= rest.subrange(k, k + 8));
                assert(occurs_at(media_type, mark, k));
            } else {
                assert(rest.subrange(k, k + 8)[m - k] == rest[m]);
                assert(rest[m] == mark[0]);
                assert(mark[m - k] == mark[0]);
            }
        }
    }
    let i = find_from(rest, mark, 0)->0;
    assert(occurs_at(rest, mark, m));
    assert(i == m);
    assert(rest.subrange(0, m) =~= media_type);
    assert(rest.subrange(m + 8, rest.len() as int) =~= data);
}

/// Percent-encodes a string as a single URL path segment.
pub fn encode_path_segment(s: &str) -> (r: String)
    ensures
        r@ == percent_encoded(s@),
{
    percent_encode(s)
}

/// The message in a common provider error shape: `{"error": {"message": …}}`,
/// `{"error": "…"}` or `{"message": …}`.
pub open spec fn error_message(body: JsonV) -> Option<Seq<char>> {
    match json_get(body, "error"@) {
        Some(JsonV::Str(s)) => Some(s),
        Some(JsonV::Object(o)) => json_as_str(obj_get(o, "message"@)),
        _ => json_as_str(json_get(body, "message"@)),
    }
}

fn string_member(j: Option<&Json>) -> (r: Option<String>)
    ensures
        opt_view(r) == json_as_str(opt_view(j)),
{
    match j {
        Some(Json::Str(s)) => Some(s.clone()),
        _ => None,
    }
}

/// Pulls a message out of the common provider error shapes.
pub fn extract_error_message(body: &Json) -> (r: Option<String>)
    ensures
        opt_view(r) == error_message(body@),
{
    match body.get("error") {
        Some(Json::Str(s)) => Some(s.clone()),
        Some(e) => match e.as_object() {
            Some(o) => string_member(o.get("message")),
            None => string_member(body.get("message")),
        },
        None => string_member(body.get("message")),
    }
}

} // verus!
