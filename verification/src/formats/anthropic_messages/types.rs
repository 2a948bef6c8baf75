//! Wire types of the Anthropic Messages API. Every object keeps the fields it
//! does not model.

use vstd::prelude::*;
use crate::decode::{default_u64, default_values, extend_map, extended, get_default_u64, get_default_values, get_opt_bool, get_opt_float, get_opt_object, get_opt_str, get_opt_strings, get_opt_u64, get_opt_value, get_opt_values, get_str, get_usize, get_value, not_an_object, opt_bool, opt_float, opt_object, opt_str, opt_strings, opt_u64, opt_value, opt_values, req_str, req_usize, req_value, res, res_opt, unknown, unknown_members};
use crate::json::{json_int, json_strings, make2, make3, make_strings, obj_get, obj_set, object2, object3, Json, JsonMap, JsonV, Num, NumV, ObjV};
use crate::model::{dup_vec, group_views, opt_view, opt_views, views, Dup};
use crate::text::text_is;

verus! {

broadcast use group_views;

/// Content of a message: a string or an array of blocks.
#[derive(Debug, PartialEq, Eq)]
pub enum MessageContent {
    Text(String),
    Blocks(Vec<Json>),
}

/// The mathematical value of a [`MessageContent`].
pub enum MessageContentV {
    Text(Seq<char>),
    Blocks(Seq<JsonV>),
}

impl View for MessageContent {
    type V = MessageContentV;

    open spec fn view(&self) -> MessageContentV {
        match self {
            MessageContent::Text(s) => MessageContentV::Text(s@),
            MessageContent::Blocks(b) => MessageContentV::Blocks(views(b@)),
        }
    }
}

/// The [`MessageContent`] that `j` holds, or why it holds none.
pub open spec fn decode_message_content(j: JsonV) -> Result<MessageContentV, Seq<char>> {
    match j {
        JsonV::Str(s) => Ok(MessageContentV::Text(s)),
        JsonV::Array(a) => Ok(MessageContentV::Blocks(a)),
        _ => Err("data did not match any variant of untagged enum MessageContent"@),
    }
}

/// `t` as JSON.
pub open spec fn encode_message_content(t: MessageContentV) -> JsonV {
    match t {
        MessageContentV::Text(s) => JsonV::Str(s),
        MessageContentV::Blocks(a) => JsonV::Array(a),
    }
}

impl MessageContent {
    /// Reads a [`MessageContent`] from JSON.
    pub fn from_json(j: &Json) -> (r: Result<MessageContent, String>)
        ensures
            res(r) == decode_message_content(j@),
    {
        match j {
            Json::Str(s) => Ok(MessageContent::Text(s.clone())),
            _ => match j.as_array() {
                Some(a) => Ok(MessageContent::Blocks(dup_vec(a))),
                None => Err("data did not match any variant of untagged enum MessageContent".to_owned()),
            },
        }
    }

    /// Writes this value as JSON.
    pub fn to_json(&self) -> (r: Json)
        ensures
            r@ == encode_message_content(self@),
    {
        match self {
            MessageContent::Text(s) => Json::Str(s.clone()),
            MessageContent::Blocks(b) => Json::array(dup_vec(b)),
        }
    }
}

/// A required [`MessageContent`].
pub open spec fn req_message_content(o: ObjV, k: Seq<char>) -> Result<MessageContentV, Seq<char>> {
    match req_value(o, k) {
        Err(e) => Err(e),
        Ok(j) => decode_message_content(j),
    }
}

fn get_message_content(o: &JsonMap, k: &str) -> (r: Result<MessageContent, String>)
    ensures
        res(r) == req_message_content(o@, k@),
{
    match get_value(o, k) {
        Err(e) => Err(e),
        Ok(j) => MessageContent::from_json(&j),
    }
}

/// System prompt: a string or an array of text blocks.
#[derive(Debug, PartialEq, Eq)]
pub enum SystemPrompt {
    Text(String),
    Blocks(Vec<Json>),
}

/// The mathematical value of a [`SystemPrompt`].
pub enum SystemPromptV {
    Text(Seq<char>),
    Blocks(Seq<JsonV>),
}

impl View for SystemPrompt {
    type V = SystemPromptV;

    open spec fn view(&self) -> SystemPromptV {
        match self {
            SystemPrompt::Text(s) => SystemPromptV::Text(s@),
            SystemPrompt::Blocks(b) => SystemPromptV::Blocks(views(b@)),
        }
    }
}

/// The [`SystemPrompt`] that `j` holds, or why it holds none.
pub open spec fn decode_system_prompt(j: JsonV) -> Result<SystemPromptV, Seq<char>> {
    match j {
        JsonV::Str(s) => Ok(SystemPromptV::Text(s)),
        JsonV::Array(a) => Ok(SystemPromptV::Blocks(a)),
        _ => Err("data did not match any variant of untagged enum SystemPrompt"@),
    }
}

/// `t` as JSON.
pub open spec fn encode_system_prompt(t: SystemPromptV) -> JsonV {
    match t {
        SystemPromptV::Text(s) => JsonV::Str(s),
        SystemPromptV::Blocks(a) => JsonV::Array(a),
    }
}

impl SystemPrompt {
    /// Reads a [`SystemPrompt`] from JSON.
    pub fn from_json(j: &Json) -> (r: Result<SystemPrompt, String>)
        ensures
            res(r) == decode_system_prompt(j@),
    {
        match j {
            Json::Str(s) => Ok(SystemPrompt::Text(s.clone())),
            _ => match j.as_array() {
                Some(a) => Ok(SystemPrompt::Blocks(dup_vec(a))),
                None => Err("data did not match any variant of untagged enum SystemPrompt".to_owned()),
            },
        }
    }

    /// Writes this value as JSON.
    pub fn to_json(&self) -> (r: Json)
        ensures
            r@ == encode_system_prompt(self@),
    {
        match self {
            SystemPrompt::Text(s) => Json::Str(s.clone()),
            SystemPrompt::Blocks(b) => Json::array(dup_vec(b)),
        }
    }
}

/// An optional [`SystemPrompt`].
pub open spec fn opt_system_prompt(o: ObjV, k: Seq<char>) -> Result<Option<SystemPromptV>, Seq<char>> {
    match obj_get(o, k) {
        None | Some(JsonV::Null) => Ok(None),
        Some(j) => match decode_system_prompt(j) {
            Ok(x) => Ok(Some(x)),
            Err(e) => Err(e),
        },
    }
}

fn get_opt_system_prompt(o: &JsonMap, k: &str) -> (r: Result<Option<SystemPrompt>, String>)
    ensures
        res_opt(r) == opt_system_prompt(o@, k@),
{
    match o.get(k) {
        None | Some(Json::Null) => Ok(None),
        Some(j) => match SystemPrompt::from_json(j) {
            Ok(x) => Ok(Some(x)),
            Err(e) => Err(e),
        },
    }
}

/// Content of a tool result: a string or an array of blocks.
#[derive(Debug, PartialEq, Eq)]
pub enum ToolResultContent {
    Text(String),
    Blocks(Vec<Json>),
}

/// The mathematical value of a [`ToolResultContent`].
pub enum ToolResultContentV {
    Text(Seq<char>),
    Blocks(Seq<JsonV>),
}

impl View for ToolResultContent {
    type V = ToolResultContentV;

    open spec fn view(&self) -> ToolResultContentV {
        match self {
            ToolResultContent::Text(s) => ToolResultContentV::Text(s@),
            ToolResultContent::Blocks(b) => ToolResultContentV::Blocks(views(b@)),
        }
    }
}

/// The [`ToolResultContent`] that `j` holds, or why it holds none.
pub open spec fn decode_tool_result_content(j: JsonV) -> Result<ToolResultContentV, Seq<char>> {
    match j {
        JsonV::Str(s) => Ok(ToolResultContentV::Text(s)),
        JsonV::Array(a) => Ok(ToolResultContentV::Blocks(a)),
        _ => Err("data did not match any variant of untagged enum ToolResultContent"@),
    }
}

/// `t` as JSON.
pub open spec fn encode_tool_result_content(t: ToolResultContentV) -> JsonV {
    match t {
        ToolResultContentV::Text(s) => JsonV::Str(s),
        ToolResultContentV::Blocks(a) => JsonV::Array(a),
    }
}

impl ToolResultContent {
    /// Reads a [`ToolResultContent`] from JSON.
    pub fn from_json(j: &Json) -> (r: Result<ToolResultContent, String>)
        ensures
            res(r) == decode_tool_result_content(j@),
    {
        match j {
            Json::Str(s) => Ok(ToolResultContent::Text(s.clone())),
            _ => match j.as_array() {
                Some(a) => Ok(ToolResultContent::Blocks(dup_vec(a))),
                None => Err("data did not match any variant of untagged enum ToolResultContent".to_owned()),
            },
        }
    }

    /// Writes this value as JSON.
    pub fn to_json(&self) -> (r: Json)
        ensures
            r@ == encode_tool_result_content(self@),
    {
        match self {
            ToolResultContent::Text(s) => Json::Str(s.clone()),
            ToolResultContent::Blocks(b) => Json::array(dup_vec(b)),
        }
    }
}

/// An optional [`ToolResultContent`].
pub open spec fn opt_tool_result_content(o: ObjV, k: Seq<char>) -> Result<Option<ToolResultContentV>, Seq<char>> {
    match obj_get(o, k) {
        None | Some(JsonV::Null) => Ok(None),
        Some(j) => match decode_tool_result_content(j) {
            Ok(x) => Ok(Some(x)),
            Err(e) => Err(e),
        },
    }
}

fn get_opt_tool_result_content(o: &JsonMap, k: &str) -> (r: Result<Option<ToolResultContent>, String>)
    ensures
        res_opt(r) == opt_tool_result_content(o@, k@),
{
    match o.get(k) {
        None | Some(Json::Null) => Ok(None),
        Some(j) => match ToolResultContent::from_json(j) {
            Ok(x) => Ok(Some(x)),
            Err(e) => Err(e),
        },
    }
}

/// A `cache_control` object.
#[derive(Debug, PartialEq, Eq)]
pub struct CacheControl {
    /// Type discriminator.
    pub kind: String,
    /// Time to live.
    pub ttl: Option<String>,
    /// Unknown fields.
    pub extra: JsonMap,
}

/// The mathematical value of a [`CacheControl`].
pub struct CacheControlV {
    pub kind: Seq<char>,
    pub ttl: Option<Seq<char>>,
    pub extra: ObjV,
}

impl View for CacheControl {
    type V = CacheControlV;

    open spec fn view(&self) -> CacheControlV {
        CacheControlV {
            kind: self.kind@,
            ttl: opt_view(self.ttl),
            extra: self.extra@,
        }
    }
}

/// The members that a [`CacheControl`] models.
pub open spec fn cache_control_keys() -> Seq<Seq<char>> {
    seq!["type"@, "ttl"@]
}

/// The [`CacheControl`] that `j` holds, or why it holds none.
pub open spec fn decode_cache_control(j: JsonV) -> Result<CacheControlV, Seq<char>> {
    match j {
        JsonV::Object(o) => match req_str(o, "type"@) {
            Err(e) => Err(e),
            Ok(kind) => match opt_str(o, "ttl"@) {
                Err(e) => Err(e),
                Ok(ttl) => Ok(
                    CacheControlV { kind, ttl, extra: unknown(o, cache_control_keys()) },
                ),
            },
        },
        _ => Err(not_an_object()),
    }
}

/// `t` as JSON: absent members are left out, unknown ones come last.
pub open spec fn encode_cache_control(t: CacheControlV) -> JsonV {
    let o0 = Seq::<(Seq<char>, JsonV)>::empty();
    let o1 = obj_set(o0, "type"@, JsonV::Str(t.kind));
    let o2 = match t.ttl {
        Some(x) => obj_set(o1, "ttl"@, JsonV::Str(x)),
        None => o1,
    };
    JsonV::Object(extended(o2, t.extra))
}

impl CacheControl {
    /// Reads a [`CacheControl`] from JSON.
    pub fn from_json(j: &Json) -> (r: Result<CacheControl, String>)
        ensures
            res(r) == decode_cache_control(j@),
    {
        let o = match j.as_object() {
            Some(o) => o,
            None => {
                return Err("invalid type: expected an object".to_owned());
            },
        };
        let kind = match get_str(o, "type") {
            Ok(x) => x,
            Err(e) => {
                return Err(e);
            },
        };
        let ttl = match get_opt_str(o, "ttl") {
            Ok(x) => x,
            Err(e) => {
                return Err(e);
            },
        };
        let mut known: Vec<&str> = Vec::new();
        known.push("type");
        known.push("ttl");
        proof {
            assert(views(known@) =~= cache_control_keys());
        }
        let extra = unknown_members(o, &known);
        Ok(CacheControl { kind, ttl, extra })
    }

    /// Writes this value as JSON.
    pub fn to_json(&self) -> (r: Json)
        ensures
            r@ == encode_cache_control(self@),
    {
        let mut o = JsonMap::new();
        o.set("type", Json::Str(self.kind.clone()));
        if let Some(x) = &self.ttl {
            o.set("ttl", Json::Str(x.clone()));
        }
        extend_map(&mut o, &self.extra);
        Json::object(o)
    }
}

/// An optional [`CacheControl`].
pub open spec fn opt_cache_control(o: ObjV, k: Seq<char>) -> Result<Option<CacheControlV>, Seq<char>> {
    match obj_get(o, k) {
        None | Some(JsonV::Null) => Ok(None),
        Some(j) => match decode_cache_control(j) {
            Ok(x) => Ok(Some(x)),
            Err(e) => Err(e),
        },
    }
}

fn get_opt_cache_control(o: &JsonMap, k: &str) -> (r: Result<Option<CacheControl>, String>)
    ensures
        res_opt(r) == opt_cache_control(o@, k@),
{
    match o.get(k) {
        None | Some(Json::Null) => Ok(None),
        Some(j) => match CacheControl::from_json(j) {
            Ok(x) => Ok(Some(x)),
            Err(e) => Err(e),
        },
    }
}

impl CacheControl {
    /// The documented `ephemeral` form.
    pub fn ephemeral(ttl: Option<String>) -> (r: CacheControl)
        ensures
            r@ == (CacheControlV { kind: "ephemeral"@, ttl: opt_view(ttl), extra: Seq::empty() }),
    {
        CacheControl { kind: "ephemeral".to_owned(), ttl, extra: JsonMap::new() }
    }
}

/// The `source` union of an image block.
#[derive(Debug, PartialEq, Eq)]
pub enum ImageSourceParam {
    /// Inline base64 data.
    Base64 { media_type: String, data: String },
    /// A remote URL.
    Url { url: String },
    /// A provider file id.
    File { file_id: String },
}

/// The mathematical value of an [`ImageSourceParam`].
pub enum ImageSourceParamV {
    Base64 { media_type: Seq<char>, data: Seq<char> },
    Url { url: Seq<char> },
    File { file_id: Seq<char> },
}

impl View for ImageSourceParam {
    type V = ImageSourceParamV;

    open spec fn view(&self) -> ImageSourceParamV {
        match self {
            ImageSourceParam::Base64 { media_type, data } => ImageSourceParamV::Base64 {
                media_type: media_type@,
                data: data@,
            },
            ImageSourceParam::Url { url } => ImageSourceParamV::Url { url: url@ },
            ImageSourceParam::File { file_id } => ImageSourceParamV::File { file_id: file_id@ },
        }
    }
}

/// The image source that `j` holds, or why it holds none.
pub open spec fn decode_image_source_param(j: JsonV) -> Result<ImageSourceParamV, Seq<char>> {
    match j {
        JsonV::Object(o) => match req_str(o, "type"@) {
            Err(e) => Err(e),
            Ok(t) => if t == "base64"@ {
                match (req_str(o, "media_type"@), req_str(o, "data"@)) {
                    (Err(e), _) => Err(e),
                    (_, Err(e)) => Err(e),
                    (Ok(media_type), Ok(data)) => Ok(ImageSourceParamV::Base64 { media_type, data }),
                }
            } else if t == "url"@ {
                match req_str(o, "url"@) {
                    Err(e) => Err(e),
                    Ok(url) => Ok(ImageSourceParamV::Url { url }),
                }
            } else if t == "file"@ {
                match req_str(o, "file_id"@) {
                    Err(e) => Err(e),
                    Ok(file_id) => Ok(ImageSourceParamV::File { file_id }),
                }
            } else {
                Err("unknown variant of `type`"@)
            },
        },
        _ => Err(not_an_object()),
    }
}

/// `t` as JSON.
pub open spec fn encode_image_source_param(t: ImageSourceParamV) -> JsonV {
    match t {
        ImageSourceParamV::Base64 { media_type, data } => object3(
            "type"@,
            JsonV::Str("base64"@),
            "media_type"@,
            JsonV::Str(media_type),
            "data"@,
            JsonV::Str(data),
        ),
        ImageSourceParamV::Url { url } => object2("type"@, JsonV::Str("url"@), "url"@, JsonV::Str(url)),
        ImageSourceParamV::File { file_id } => object2(
            "type"@,
            JsonV::Str("file"@),
            "file_id"@,
            JsonV::Str(file_id),
        ),
    }
}

impl ImageSourceParam {
    /// Reads an image source from JSON.
    pub fn from_json(j: &Json) -> (r: Result<ImageSourceParam, String>)
        ensures
            res(r) == decode_image_source_param(j@),
    {
        let o = match j.as_object() {
            Some(o) => o,
            None => {
                return Err("invalid type: expected an object".to_owned());
            },
        };
        let t = match get_str(o, "type") {
            Ok(t) => t,
            Err(e) => {
                return Err(e);
            },
        };
        if text_is(&t, "base64") {
            match (get_str(o, "media_type"), get_str(o, "data")) {
                (Err(e), _) => Err(e),
                (_, Err(e)) => Err(e),
                (Ok(media_type), Ok(data)) => Ok(ImageSourceParam::Base64 { media_type, data }),
            }
        } else if text_is(&t, "url") {
            match get_str(o, "url") {
                Err(e) => Err(e),
                Ok(url) => Ok(ImageSourceParam::Url { url }),
            }
        } else if text_is(&t, "file") {
            match get_str(o, "file_id") {
                Err(e) => Err(e),
                Ok(file_id) => Ok(ImageSourceParam::File { file_id }),
            }
        } else {
            Err("unknown variant of `type`".to_owned())
        }
    }

    /// Writes this value as JSON.
    pub fn to_json(&self) -> (r: Json)
        ensures
            r@ == encode_image_source_param(self@),
    {
        match self {
            ImageSourceParam::Base64 { media_type, data } => make3(
                "type",
                Json::text("base64"),
                "media_type",
                Json::Str(media_type.clone()),
                "data",
                Json::Str(data.clone()),
            ),
            ImageSourceParam::Url { url } => make2("type", Json::text("url"), "url", Json::Str(url.clone())),
            ImageSourceParam::File { file_id } => make2(
                "type",
                Json::text("file"),
                "file_id",
                Json::Str(file_id.clone()),
            ),
        }
    }
}

/// A required image source.
pub open spec fn req_image_source_param(o: ObjV, k: Seq<char>) -> Result<ImageSourceParamV, Seq<char>> {
    match req_value(o, k) {
        Err(e) => Err(e),
        Ok(j) => decode_image_source_param(j),
    }
}

fn get_image_source_param(o: &JsonMap, k: &str) -> (r: Result<ImageSourceParam, String>)
    ensures
        res(r) == req_image_source_param(o@, k@),
{
    match get_value(o, k) {
        Err(e) => Err(e),
        Ok(j) => ImageSourceParam::from_json(&j),
    }
}

/// A `text` content block.
#[derive(Debug, PartialEq, Eq)]
pub struct TextBlock {
    /// Type discriminator.
    pub kind: String,
    /// The text.
    pub text: String,
    /// Cache breakpoint.
    pub cache_control: Option<CacheControl>,
    /// Unknown fields.
    pub extra: JsonMap,
}

/// The mathematical value of a [`TextBlock`].
pub struct TextBlockV {
    pub kind: Seq<char>,
    pub text: Seq<char>,
    pub cache_control: Option<CacheControlV>,
    pub extra: ObjV,
}

impl View for TextBlock {
    type V = TextBlockV;

    open spec fn view(&self) -> TextBlockV {
        TextBlockV {
            kind: self.kind@,
            text: self.text@,
            cache_control: opt_view(self.cache_control),
            extra: self.extra@,
        }
    }
}

/// The members that a [`TextBlock`] models.
pub open spec fn text_block_keys() -> Seq<Seq<char>> {
    seq!["type"@, "text"@, "cache_control"@]
}

/// The [`TextBlock`] that `j` holds, or why it holds none.
pub open spec fn decode_text_block(j: JsonV) -> Result<TextBlockV, Seq<char>> {
    match j {
        JsonV::Object(o) => match req_str(o, "type"@) {
            Err(e) => Err(e),
            Ok(kind) => match req_str(o, "text"@) {
                Err(e) => Err(e),
                Ok(text) => match opt_cache_control(o, "cache_control"@) {
                    Err(e) => Err(e),
                    Ok(cache_control) => Ok(
                        TextBlockV { kind, text, cache_control, extra: unknown(o, text_block_keys()) },
                    ),
                },
            },
        },
        _ => Err(not_an_object()),
    }
}

/// `t` as JSON: absent members are left out, unknown ones come last.
pub open spec fn encode_text_block(t: TextBlockV) -> JsonV {
    let o0 = Seq::<(Seq<char>, JsonV)>::empty();
    let o1 = obj_set(o0, "type"@, JsonV::Str(t.kind));
    let o2 = obj_set(o1, "text"@, JsonV::Str(t.text));
    let o3 = match t.cache_control {
        Some(x) => obj_set(o2, "cache_control"@, encode_cache_control(x)),
        None => o2,
    };
    JsonV::Object(extended(o3, t.extra))
}

impl TextBlock {
    /// Reads a [`TextBlock`] from JSON.
    pub fn from_json(j: &Json) -> (r: Result<TextBlock, String>)
        ensures
            res(r) == decode_text_block(j@),
    {
        let o = match j.as_object() {
            Some(o) => o,
            None => {
                return Err("invalid type: expected an object".to_owned());
            },
        };
        let kind = match get_str(o, "type") {
            Ok(x) => x,
            Err(e) => {
                return Err(e);
            },
        };
        let text = match get_str(o, "text") {
            Ok(x) => x,
            Err(e) => {
                return Err(e);
            },
        };
        let cache_control = match get_opt_cache_control(o, "cache_control") {
            Ok(x) => x,
            Err(e) => {
                return Err(e);
            },
        };
        let mut known: Vec<&str> = Vec::new();
        known.push("type");
        known.push("text");
        known.push("cache_control");
        proof {
            assert(views(known@) =~= text_block_keys());
        }
        let extra = unknown_members(o, &known);
        Ok(TextBlock { kind, text, cache_control, extra })
    }

    /// Writes this value as JSON.
    pub fn to_json(&self) -> (r: Json)
        ensures
            r@ == encode_text_block(self@),
    {
        let mut o = JsonMap::new();
        o.set("type", Json::Str(self.kind.clone()));
        o.set("text", Json::Str(self.text.clone()));
        if let Some(x) = &self.cache_control {
            o.set("cache_control", x.to_json());
        }
        extend_map(&mut o, &self.extra);
        Json::object(o)
    }
}

/// An `image` content block.
#[derive(Debug, PartialEq, Eq)]
pub struct ImageBlock {
    /// Type discriminator.
    pub kind: String,
    /// Image data.
    pub source: ImageSourceParam,
    /// Cache breakpoint.
    pub cache_control: Option<CacheControl>,
    /// Unknown fields.
    pub extra: JsonMap,
}

/// The mathematical value of a [`ImageBlock`].
pub struct ImageBlockV {
    pub kind: Seq<char>,
    pub source: ImageSourceParamV,
    pub cache_control: Option<CacheControlV>,
    pub extra: ObjV,
}

impl View for ImageBlock {
    type V = ImageBlockV;

    open spec fn view(&self) -> ImageBlockV {
        ImageBlockV {
            kind: self.kind@,
            source: self.source@,
            cache_control: opt_view(self.cache_control),
            extra: self.extra@,
        }
    }
}

/// The members that a [`ImageBlock`] models.
pub open spec fn image_block_keys() -> Seq<Seq<char>> {
    seq!["type"@, "source"@, "cache_control"@]
}

/// The [`ImageBlock`] that `j` holds, or why it holds none.
pub open spec fn decode_image_block(j: JsonV) -> Result<ImageBlockV, Seq<char>> {
    match j {
        JsonV::Object(o) => match req_str(o, "type"@) {
            Err(e) => Err(e),
            Ok(kind) => match req_image_source_param(o, "source"@) {
                Err(e) => Err(e),
                Ok(source) => match opt_cache_control(o, "cache_control"@) {
                    Err(e) => Err(e),
                    Ok(cache_control) => Ok(
                        ImageBlockV { kind, source, cache_control, extra: unknown(o, image_block_keys()) },
                    ),
                },
            },
        },
        _ => Err(not_an_object()),
    }
}

/// `t` as JSON: absent members are left out, unknown ones come last.
pub open spec fn encode_image_block(t: ImageBlockV) -> JsonV {
    let o0 = Seq::<(Seq<char>, JsonV)>::empty();
    let o1 = obj_set(o0, "type"@, JsonV::Str(t.kind));
    let o2 = obj_set(o1, "source"@, encode_image_source_param(t.source));
    let o3 = match t.cache_control {
        Some(x) => obj_set(o2, "cache_control"@, encode_cache_control(x)),
        None => o2,
    };
    JsonV::Object(extended(o3, t.extra))
}

impl ImageBlock {
    /// Reads a [`ImageBlock`] from JSON.
    pub fn from_json(j: &Json) -> (r: Result<ImageBlock, String>)
        ensures
            res(r) == decode_image_block(j@),
    {
        let o = match j.as_object() {
            Some(o) => o,
            None => {
                return Err("invalid type: expected an object".to_owned());
            },
        };
        let kind = match get_str(o, "type") {
            Ok(x) => x,
            Err(e) => {
                return Err(e);
            },
        };
        let source = match get_image_source_param(o, "source") {
            Ok(x) => x,
            Err(e) => {
                return Err(e);
            },
        };
        let cache_control = match get_opt_cache_control(o, "cache_control") {
            Ok(x) => x,
            Err(e) => {
                return Err(e);
            },
        };
        let mut known: Vec<&str> = Vec::new();
        known.push("type");
        known.push("source");
        known.push("cache_control");
        proof {
            assert(views(known@) =~= image_block_keys());
        }
        let extra = unknown_members(o, &known);
        Ok(ImageBlock { kind, source, cache_control, extra })
    }

    /// Writes this value as JSON.
    pub fn to_json(&self) -> (r: Json)
        ensures
            r@ == encode_image_block(self@),
    {
        let mut o = JsonMap::new();
        o.set("type", Json::Str(self.kind.clone()));
        o.set("source", self.source.to_json());
        if let Some(x) = &self.cache_control {
            o.set("cache_control", x.to_json());
        }
        extend_map(&mut o, &self.extra);
        Json::object(o)
    }
}

/// A `tool_use` content block.
#[derive(Debug, PartialEq, Eq)]
pub struct ToolUseBlock {
    /// Type discriminator.
    pub kind: String,
    /// Call id.
    pub id: String,
    /// Tool name.
    pub name: String,
    /// Tool input.
    pub input: Json,
    /// Cache breakpoint.
    pub cache_control: Option<CacheControl>,
    /// Unknown fields.
    pub extra: JsonMap,
}

/// The mathematical value of a [`ToolUseBlock`].
pub struct ToolUseBlockV {
    pub kind: Seq<char>,
    pub id: Seq<char>,
    pub name: Seq<char>,
    pub input: JsonV,
    pub cache_control: Option<CacheControlV>,
    pub extra: ObjV,
}

impl View for ToolUseBlock {
    type V = ToolUseBlockV;

    open spec fn view(&self) -> ToolUseBlockV {
        ToolUseBlockV {
            kind: self.kind@,
            id: self.id@,
            name: self.name@,
            input: self.input@,
            cache_control: opt_view(self.cache_control),
            extra: self.extra@,
        }
    }
}

/// The members that a [`ToolUseBlock`] models.
pub open spec fn tool_use_block_keys() -> Seq<Seq<char>> {
    seq!["type"@, "id"@, "name"@, "input"@, "cache_control"@]
}

/// The [`ToolUseBlock`] that `j` holds, or why it holds none.
pub open spec fn decode_tool_use_block(j: JsonV) -> Result<ToolUseBlockV, Seq<char>> {
    match j {
        JsonV::Object(o) => match req_str(o, "type"@) {
            Err(e) => Err(e),
            Ok(kind) => match req_str(o, "id"@) {
                Err(e) => Err(e),
                Ok(id) => match req_str(o, "name"@) {
                    Err(e) => Err(e),
                    Ok(name) => match req_value(o, "input"@) {
                        Err(e) => Err(e),
                        Ok(input) => match opt_cache_control(o, "cache_control"@) {
                            Err(e) => Err(e),
                            Ok(cache_control) => Ok(
                                ToolUseBlockV { kind, id, name, input, cache_control, extra: unknown(o, tool_use_block_keys()) },
                            ),
                        },
                    },
                },
            },
        },
        _ => Err(not_an_object()),
    }
}

/// `t` as JSON: absent members are left out, unknown ones come last.
pub open spec fn encode_tool_use_block(t: ToolUseBlockV) -> JsonV {
    let o0 = Seq::<(Seq<char>, JsonV)>::empty();
    let o1 = obj_set(o0, "type"@, JsonV::Str(t.kind));
    let o2 = obj_set(o1, "id"@, JsonV::Str(t.id));
    let o3 = obj_set(o2, "name"@, JsonV::Str(t.name));
    let o4 = obj_set(o3, "input"@, t.input);
    let o5 = match t.cache_control {
        Some(x) => obj_set(o4, "cache_control"@, encode_cache_control(x)),
        None => o4,
    };
    JsonV::Object(extended(o5, t.extra))
}

impl ToolUseBlock {
    /// Reads a [`ToolUseBlock`] from JSON.
    pub fn from_json(j: &Json) -> (r: Result<ToolUseBlock, String>)
        ensures
            res(r) == decode_tool_use_block(j@),
    {
        let o = match j.as_object() {
            Some(o) => o,
            None => {
                return Err("invalid type: expected an object".to_owned());
            },
        };
        let kind = match get_str(o, "type") {
            Ok(x) => x,
            Err(e) => {
                return Err(e);
            },
        };
        let id = match get_str(o, "id") {
            Ok(x) => x,
            Err(e) => {
                return Err(e);
            },
        };
        let name = match get_str(o, "name") {
            Ok(x) => x,
            Err(e) => {
                return Err(e);
            },
        };
        let input = match get_value(o, "input") {
            Ok(x) => x,
            Err(e) => {
                return Err(e);
            },
        };
        let cache_control = match get_opt_cache_control(o, "cache_control") {
            Ok(x) => x,
            Err(e) => {
                return Err(e);
            },
        };
        let mut known: Vec<&str> = Vec::new();
        known.push("type");
        known.push("id");
        known.push("name");
        known.push("input");
        known.push("cache_control");
        proof {
            assert(views(known@) =~= tool_use_block_keys());
        }
        let extra = unknown_members(o, &known);
        Ok(ToolUseBlock { kind, id, name, input, cache_control, extra })
    }

    /// Writes this value as JSON.
    pub fn to_json(&self) -> (r: Json)
        ensures
            r@ == encode_tool_use_block(self@),
    {
        let mut o = JsonMap::new();
        o.set("type", Json::Str(self.kind.clone()));
        o.set("id", Json::Str(self.id.clone()));
        o.set("name", Json::Str(self.name.clone()));
        o.set("input", self.input.copy());
        if let Some(x) = &self.cache_control {
            o.set("cache_control", x.to_json());
        }
        extend_map(&mut o, &self.extra);
        Json::object(o)
    }
}

/// A `tool_result` content block.
#[derive(Debug, PartialEq, Eq)]
pub struct ToolResultBlock {
    /// Type discriminator.
    pub kind: String,
    /// Id of the call that this answers.
    pub tool_use_id: String,
    /// Result content.
    pub content: Option<ToolResultContent>,
    /// The call failed.
    pub is_error: Option<bool>,
    /// Cache breakpoint.
    pub cache_control: Option<CacheControl>,
    /// Unknown fields.
    pub extra: JsonMap,
}

/// The mathematical value of a [`ToolResultBlock`].
pub struct ToolResultBlockV {
    pub kind: Seq<char>,
    pub tool_use_id: Seq<char>,
    pub content: Option<ToolResultContentV>,
    pub is_error: Option<bool>,
    pub cache_control: Option<CacheControlV>,
    pub extra: ObjV,
}

impl View for ToolResultBlock {
    type V = ToolResultBlockV;

    open spec fn view(&self) -> ToolResultBlockV {
        ToolResultBlockV {
            kind: self.kind@,
            tool_use_id: self.tool_use_id@,
            content: opt_view(self.content),
            is_error: self.is_error,
            cache_control: opt_view(self.cache_control),
            extra: self.extra@,
        }
    }
}

/// The members that a [`ToolResultBlock`] models.
pub open spec fn tool_result_block_keys() -> Seq<Seq<char>> {
    seq!["type"@, "tool_use_id"@, "content"@, "is_error"@, "cache_control"@]
}

/// The [`ToolResultBlock`] that `j` holds, or why it holds none.
pub open spec fn decode_tool_result_block(j: JsonV) -> Result<ToolResultBlockV, Seq<char>> {
    match j {
        JsonV::Object(o) => match req_str(o, "type"@) {
            Err(e) => Err(e),
            Ok(kind) => match req_str(o, "tool_use_id"@) {
                Err(e) => Err(e),
                Ok(tool_use_id) => match opt_tool_result_content(o, "content"@) {
                    Err(e) => Err(e),
                    Ok(content) => match opt_bool(o, "is_error"@) {
                        Err(e) => Err(e),
                        Ok(is_error) => match opt_cache_control(o, "cache_control"@) {
                            Err(e) => Err(e),
                            Ok(cache_control) => Ok(
                                ToolResultBlockV { kind, tool_use_id, content, is_error, cache_control, extra: unknown(o, tool_result_block_keys()) },
                            ),
                        },
                    },
                },
            },
        },
        _ => Err(not_an_object()),
    }
}

/// `t` as JSON: absent members are left out, unknown ones come last.
pub open spec fn encode_tool_result_block(t: ToolResultBlockV) -> JsonV {
    let o0 = Seq::<(Seq<char>, JsonV)>::empty();
    let o1 = obj_set(o0, "type"@, JsonV::Str(t.kind));
    let o2 = obj_set(o1, "tool_use_id"@, JsonV::Str(t.tool_use_id));
    let o3 = match t.content {
        Some(x) => obj_set(o2, "content"@, encode_tool_result_content(x)),
        None => o2,
    };
    let o4 = match t.is_error {
        Some(x) => obj_set(o3, "is_error"@, JsonV::Bool(x)),
        None => o3,
    };
    let o5 = match t.cache_control {
        Some(x) => obj_set(o4, "cache_control"@, encode_cache_control(x)),
        None => o4,
    };
    JsonV::Object(extended(o5, t.extra))
}

impl ToolResultBlock {
    /// Reads a [`ToolResultBlock`] from JSON.
    pub fn from_json(j: &Json) -> (r: Result<ToolResultBlock, String>)
        ensures
            res(r) == decode_tool_result_block(j@),
    {
        let o = match j.as_object() {
            Some(o) => o,
            None => {
                return Err("invalid type: expected an object".to_owned());
            },
        };
        let kind = match get_str(o, "type") {
            Ok(x) => x,
            Err(e) => {
                return Err(e);
            },
        };
        let tool_use_id = match get_str(o, "tool_use_id") {
            Ok(x) => x,
            Err(e) => {
                return Err(e);
            },
        };
        let content = match get_opt_tool_result_content(o, "content") {
            Ok(x) => x,
            Err(e) => {
                return Err(e);
            },
        };
        let is_error = match get_opt_bool(o, "is_error") {
            Ok(x) => x,
            Err(e) => {
                return Err(e);
            },
        };
        let cache_control = match get_opt_cache_control(o, "cache_control") {
            Ok(x) => x,
            Err(e) => {
                return Err(e);
            },
        };
        let mut known: Vec<&str> = Vec::new();
        known.push("type");
        known.push("tool_use_id");
        known.push("content");
        known.push("is_error");
        known.push("cache_control");
        proof {
            assert(views(known@) =~= tool_result_block_keys());
        }
        let extra = unknown_members(o, &known);
        Ok(ToolResultBlock { kind, tool_use_id, content, is_error, cache_control, extra })
    }

    /// Writes this value as JSON.
    pub fn to_json(&self) -> (r: Json)
        ensures
            r@ == encode_tool_result_block(self@),
    {
        let mut o = JsonMap::new();
        o.set("type", Json::Str(self.kind.clone()));
        o.set("tool_use_id", Json::Str(self.tool_use_id.clone()));
        if let Some(x) = &self.content {
            o.set("content", x.to_json());
        }
        if let Some(x) = &self.is_error {
            o.set("is_error", Json::Bool(*x));
        }
        if let Some(x) = &self.cache_control {
            o.set("cache_control", x.to_json());
        }
        extend_map(&mut o, &self.extra);
        Json::object(o)
    }
}

/// A `thinking` content block.
#[derive(Debug, PartialEq, Eq)]
pub struct ThinkingBlock {
    /// Type discriminator.
    pub kind: String,
    /// Thinking text.
    pub thinking: String,
    /// Replay signature.
    pub signature: Option<String>,
    /// Unknown fields.
    pub extra: JsonMap,
}

/// The mathematical value of a [`ThinkingBlock`].
pub struct ThinkingBlockV {
    pub kind: Seq<char>,
    pub thinking: Seq<char>,
    pub signature: Option<Seq<char>>,
    pub extra: ObjV,
}

impl View for ThinkingBlock {
    type V = ThinkingBlockV;

    open spec fn view(&self) -> ThinkingBlockV {
        ThinkingBlockV {
            kind: self.kind@,
            thinking: self.thinking@,
            signature: opt_view(self.signature),
            extra: self.extra@,
        }
    }
}

/// The members that a [`ThinkingBlock`] models.
pub open spec fn thinking_block_keys() -> Seq<Seq<char>> {
    seq!["type"@, "thinking"@, "signature"@]
}

/// The [`ThinkingBlock`] that `j` holds, or why it holds none.
pub open spec fn decode_thinking_block(j: JsonV) -> Result<ThinkingBlockV, Seq<char>> {
    match j {
        JsonV::Object(o) => match req_str(o, "type"@) {
            Err(e) => Err(e),
            Ok(kind) => match req_str(o, "thinking"@) {
                Err(e) => Err(e),
                Ok(thinking) => match opt_str(o, "signature"@) {
                    Err(e) => Err(e),
                    Ok(signature) => Ok(
                        ThinkingBlockV { kind, thinking, signature, extra: unknown(o, thinking_block_keys()) },
                    ),
                },
            },
        },
        _ => Err(not_an_object()),
    }
}

/// `t` as JSON: absent members are left out, unknown ones come last.
pub open spec fn encode_thinking_block(t: ThinkingBlockV) -> JsonV {
    let o0 = Seq::<(Seq<char>, JsonV)>::empty();
    let o1 = obj_set(o0, "type"@, JsonV::Str(t.kind));
    let o2 = obj_set(o1, "thinking"@, JsonV::Str(t.thinking));
    let o3 = match t.signature {
        Some(x) => obj_set(o2, "signature"@, JsonV::Str(x)),
        None => o2,
    };
    JsonV::Object(extended(o3, t.extra))
}

impl ThinkingBlock {
    /// Reads a [`ThinkingBlock`] from JSON.
    pub fn from_json(j: &Json) -> (r: Result<ThinkingBlock, String>)
        ensures
            res(r) == decode_thinking_block(j@),
    {
        let o = match j.as_object() {
            Some(o) => o,
            None => {
                return Err("invalid type: expected an object".to_owned());
            },
        };
        let kind = match get_str(o, "type") {
            Ok(x) => x,
            Err(e) => {
                return Err(e);
            },
        };
        let thinking = match get_str(o, "thinking") {
            Ok(x) => x,
            Err(e) => {
                return Err(e);
            },
        };
        let signature = match get_opt_str(o, "signature") {
            Ok(x) => x,
            Err(e) => {
                return Err(e);
            },
        };
        let mut known: Vec<&str> = Vec::new();
        known.push("type");
        known.push("thinking");
        known.push("signature");
        proof {
            assert(views(known@) =~= thinking_block_keys());
        }
        let extra = unknown_members(o, &known);
        Ok(ThinkingBlock { kind, thinking, signature, extra })
    }

    /// Writes this value as JSON.
    pub fn to_json(&self) -> (r: Json)
        ensures
            r@ == encode_thinking_block(self@),
    {
        let mut o = JsonMap::new();
        o.set("type", Json::Str(self.kind.clone()));
        o.set("thinking", Json::Str(self.thinking.clone()));
        if let Some(x) = &self.signature {
            o.set("signature", Json::Str(x.clone()));
        }
        extend_map(&mut o, &self.extra);
        Json::object(o)
    }
}

/// A `redacted_thinking` content block.
#[derive(Debug, PartialEq, Eq)]
pub struct RedactedThinkingBlock {
    /// Type discriminator.
    pub kind: String,
    /// Encrypted thinking.
    pub data: String,
    /// Unknown fields.
    pub extra: JsonMap,
}

/// The mathematical value of a [`RedactedThinkingBlock`].
pub struct RedactedThinkingBlockV {
    pub kind: Seq<char>,
    pub data: Seq<char>,
    pub extra: ObjV,
}

impl View for RedactedThinkingBlock {
    type V = RedactedThinkingBlockV;

    open spec fn view(&self) -> RedactedThinkingBlockV {
        RedactedThinkingBlockV {
            kind: self.kind@,
            data: self.data@,
            extra: self.extra@,
        }
    }
}

/// The members that a [`RedactedThinkingBlock`] models.
pub open spec fn redacted_thinking_block_keys() -> Seq<Seq<char>> {
    seq!["type"@, "data"@]
}

/// The [`RedactedThinkingBlock`] that `j` holds, or why it holds none.
pub open spec fn decode_redacted_thinking_block(j: JsonV) -> Result<RedactedThinkingBlockV, Seq<char>> {
    match j {
        JsonV::Object(o) => match req_str(o, "type"@) {
            Err(e) => Err(e),
            Ok(kind) => match req_str(o, "data"@) {
                Err(e) => Err(e),
                Ok(data) => Ok(
                    RedactedThinkingBlockV { kind, data, extra: unknown(o, redacted_thinking_block_keys()) },
                ),
            },
        },
        _ => Err(not_an_object()),
    }
}

/// `t` as JSON: absent members are left out, unknown ones come last.
pub open spec fn encode_redacted_thinking_block(t: RedactedThinkingBlockV) -> JsonV {
    let o0 = Seq::<(Seq<char>, JsonV)>::empty();
    let o1 = obj_set(o0, "type"@, JsonV::Str(t.kind));
    let o2 = obj_set(o1, "data"@, JsonV::Str(t.data));
    JsonV::Object(extended(o2, t.extra))
}

impl RedactedThinkingBlock {
    /// Reads a [`RedactedThinkingBlock`] from JSON.
    pub fn from_json(j: &Json) -> (r: Result<RedactedThinkingBlock, String>)
        ensures
            res(r) == decode_redacted_thinking_block(j@),
    {
        let o = match j.as_object() {
            Some(o) => o,
            None => {
                return Err("invalid type: expected an object".to_owned());
            },
        };
        let kind = match get_str(o, "type") {
            Ok(x) => x,
            Err(e) => {
                return Err(e);
            },
        };
        let data = match get_str(o, "data") {
            Ok(x) => x,
            Err(e) => {
                return Err(e);
            },
        };
        let mut known: Vec<&str> = Vec::new();
        known.push("type");
        known.push("data");
        proof {
            assert(views(known@) =~= redacted_thinking_block_keys());
        }
        let extra = unknown_members(o, &known);
        Ok(RedactedThinkingBlock { kind, data, extra })
    }

    /// Writes this value as JSON.
    pub fn to_json(&self) -> (r: Json)
        ensures
            r@ == encode_redacted_thinking_block(self@),
    {
        let mut o = JsonMap::new();
        o.set("type", Json::Str(self.kind.clone()));
        o.set("data", Json::Str(self.data.clone()));
        extend_map(&mut o, &self.extra);
        Json::object(o)
    }
}

/// A custom tool definition.
#[derive(Debug, PartialEq, Eq)]
pub struct FunctionToolParam {
    /// Tool name.
    pub name: String,
    /// Description.
    pub description: Option<String>,
    /// JSON Schema of the input.
    pub input_schema: Json,
    /// Strict schema adherence.
    pub strict: Option<bool>,
    /// Cache breakpoint.
    pub cache_control: Option<CacheControl>,
    /// Unknown fields.
    pub extra: JsonMap,
}

/// The mathematical value of a [`FunctionToolParam`].
pub struct FunctionToolParamV {
    pub name: Seq<char>,
    pub description: Option<Seq<char>>,
    pub input_schema: JsonV,
    pub strict: Option<bool>,
    pub cache_control: Option<CacheControlV>,
    pub extra: ObjV,
}

impl View for FunctionToolParam {
    type V = FunctionToolParamV;

    open spec fn view(&self) -> FunctionToolParamV {
        FunctionToolParamV {
            name: self.name@,
            description: opt_view(self.description),
            input_schema: self.input_schema@,
            strict: self.strict,
            cache_control: opt_view(self.cache_control),
            extra: self.extra@,
        }
    }
}

/// The members that a [`FunctionToolParam`] models.
pub open spec fn function_tool_param_keys() -> Seq<Seq<char>> {
    seq!["name"@, "description"@, "input_schema"@, "strict"@, "cache_control"@]
}

/// The [`FunctionToolParam`] that `j` holds, or why it holds none.
pub open spec fn decode_function_tool_param(j: JsonV) -> Result<FunctionToolParamV, Seq<char>> {
    match j {
        JsonV::Object(o) => match req_str(o, "name"@) {
            Err(e) => Err(e),
            Ok(name) => match opt_str(o, "description"@) {
                Err(e) => Err(e),
                Ok(description) => match req_value(o, "input_schema"@) {
                    Err(e) => Err(e),
                    Ok(input_schema) => match opt_bool(o, "strict"@) {
                        Err(e) => Err(e),
                        Ok(strict) => match opt_cache_control(o, "cache_control"@) {
                            Err(e) => Err(e),
                            Ok(cache_control) => Ok(
                                FunctionToolParamV { name, description, input_schema, strict, cache_control, extra: unknown(o, function_tool_param_keys()) },
                            ),
                        },
                    },
                },
            },
        },
        _ => Err(not_an_object()),
    }
}

/// `t` as JSON: absent members are left out, unknown ones come last.
pub open spec fn encode_function_tool_param(t: FunctionToolParamV) -> JsonV {
    let o0 = Seq::<(Seq<char>, JsonV)>::empty();
    let o1 = obj_set(o0, "name"@, JsonV::Str(t.name));
    let o2 = match t.description {
        Some(x) => obj_set(o1, "description"@, JsonV::Str(x)),
        None => o1,
    };
    let o3 = obj_set(o2, "input_schema"@, t.input_schema);
    let o4 = match t.strict {
        Some(x) => obj_set(o3, "strict"@, JsonV::Bool(x)),
        None => o3,
    };
    let o5 = match t.cache_control {
        Some(x) => obj_set(o4, "cache_control"@, encode_cache_control(x)),
        None => o4,
    };
    JsonV::Object(extended(o5, t.extra))
}

impl FunctionToolParam {
    /// Reads a [`FunctionToolParam`] from JSON.
    pub fn from_json(j: &Json) -> (r: Result<FunctionToolParam, String>)
        ensures
            res(r) == decode_function_tool_param(j@),
    {
        let o = match j.as_object() {
            Some(o) => o,
            None => {
                return Err("invalid type: expected an object".to_owned());
            },
        };
        let name = match get_str(o, "name") {
            Ok(x) => x,
            Err(e) => {
                return Err(e);
            },
        };
        let description = match get_opt_str(o, "description") {
            Ok(x) => x,
            Err(e) => {
                return Err(e);
            },
        };
        let input_schema = match get_value(o, "input_schema") {
            Ok(x) => x,
            Err(e) => {
                return Err(e);
            },
        };
        let strict = match get_opt_bool(o, "strict") {
            Ok(x) => x,
            Err(e) => {
                return Err(e);
            },
        };
        let cache_control = match get_opt_cache_control(o, "cache_control") {
            Ok(x) => x,
            Err(e) => {
                return Err(e);
            },
        };
        let mut known: Vec<&str> = Vec::new();
        known.push("name");
        known.push("description");
        known.push("input_schema");
        known.push("strict");
        known.push("cache_control");
        proof {
            assert(views(known@) =~= function_tool_param_keys());
        }
        let extra = unknown_members(o, &known);
        Ok(FunctionToolParam { name, description, input_schema, strict, cache_control, extra })
    }

    /// Writes this value as JSON.
    pub fn to_json(&self) -> (r: Json)
        ensures
            r@ == encode_function_tool_param(self@),
    {
        let mut o = JsonMap::new();
        o.set("name", Json::Str(self.name.clone()));
        if let Some(x) = &self.description {
            o.set("description", Json::Str(x.clone()));
        }
        o.set("input_schema", self.input_schema.copy());
        if let Some(x) = &self.strict {
            o.set("strict", Json::Bool(*x));
        }
        if let Some(x) = &self.cache_control {
            o.set("cache_control", x.to_json());
        }
        extend_map(&mut o, &self.extra);
        Json::object(o)
    }
}

/// A tool-choice constraint.
#[derive(Debug, PartialEq, Eq)]
pub struct ToolChoiceParam {
    /// Type discriminator.
    pub kind: String,
    /// Tool name, for `tool`.
    pub name: Option<String>,
    /// At most one call.
    pub disable_parallel_tool_use: Option<bool>,
    /// Unknown fields.
    pub extra: JsonMap,
}

/// The mathematical value of a [`ToolChoiceParam`].
pub struct ToolChoiceParamV {
    pub kind: Seq<char>,
    pub name: Option<Seq<char>>,
    pub disable_parallel_tool_use: Option<bool>,
    pub extra: ObjV,
}

impl View for ToolChoiceParam {
    type V = ToolChoiceParamV;

    open spec fn view(&self) -> ToolChoiceParamV {
        ToolChoiceParamV {
            kind: self.kind@,
            name: opt_view(self.name),
            disable_parallel_tool_use: self.disable_parallel_tool_use,
            extra: self.extra@,
        }
    }
}

/// The members that a [`ToolChoiceParam`] models.
pub open spec fn tool_choice_param_keys() -> Seq<Seq<char>> {
    seq!["type"@, "name"@, "disable_parallel_tool_use"@]
}

/// The [`ToolChoiceParam`] that `j` holds, or why it holds none.
pub open spec fn decode_tool_choice_param(j: JsonV) -> Result<ToolChoiceParamV, Seq<char>> {
    match j {
        JsonV::Object(o) => match req_str(o, "type"@) {
            Err(e) => Err(e),
            Ok(kind) => match opt_str(o, "name"@) {
                Err(e) => Err(e),
                Ok(name) => match opt_bool(o, "disable_parallel_tool_use"@) {
                    Err(e) => Err(e),
                    Ok(disable_parallel_tool_use) => Ok(
                        ToolChoiceParamV { kind, name, disable_parallel_tool_use, extra: unknown(o, tool_choice_param_keys()) },
                    ),
                },
            },
        },
        _ => Err(not_an_object()),
    }
}

/// `t` as JSON: absent members are left out, unknown ones come last.
pub open spec fn encode_tool_choice_param(t: ToolChoiceParamV) -> JsonV {
    let o0 = Seq::<(Seq<char>, JsonV)>::empty();
    let o1 = obj_set(o0, "type"@, JsonV::Str(t.kind));
    let o2 = match t.name {
        Some(x) => obj_set(o1, "name"@, JsonV::Str(x)),
        None => o1,
    };
    let o3 = match t.disable_parallel_tool_use {
        Some(x) => obj_set(o2, "disable_parallel_tool_use"@, JsonV::Bool(x)),
        None => o2,
    };
    JsonV::Object(extended(o3, t.extra))
}

impl ToolChoiceParam {
    /// Reads a [`ToolChoiceParam`] from JSON.
    pub fn from_json(j: &Json) -> (r: Result<ToolChoiceParam, String>)
        ensures
            res(r) == decode_tool_choice_param(j@),
    {
        let o = match j.as_object() {
            Some(o) => o,
            None => {
                return Err("invalid type: expected an object".to_owned());
            },
        };
        let kind = match get_str(o, "type") {
            Ok(x) => x,
            Err(e) => {
                return Err(e);
            },
        };
        let name = match get_opt_str(o, "name") {
            Ok(x) => x,
            Err(e) => {
                return Err(e);
            },
        };
        let disable_parallel_tool_use = match get_opt_bool(o, "disable_parallel_tool_use") {
            Ok(x) => x,
            Err(e) => {
                return Err(e);
            },
        };
        let mut known: Vec<&str> = Vec::new();
        known.push("type");
        known.push("name");
        known.push("disable_parallel_tool_use");
        proof {
            assert(views(known@) =~= tool_choice_param_keys());
        }
        let extra = unknown_members(o, &known);
        Ok(ToolChoiceParam { kind, name, disable_parallel_tool_use, extra })
    }

    /// Writes this value as JSON.
    pub fn to_json(&self) -> (r: Json)
        ensures
            r@ == encode_tool_choice_param(self@),
    {
        let mut o = JsonMap::new();
        o.set("type", Json::Str(self.kind.clone()));
        if let Some(x) = &self.name {
            o.set("name", Json::Str(x.clone()));
        }
        if let Some(x) = &self.disable_parallel_tool_use {
            o.set("disable_parallel_tool_use", Json::Bool(*x));
        }
        extend_map(&mut o, &self.extra);
        Json::object(o)
    }
}

/// An optional [`ToolChoiceParam`].
pub open spec fn opt_tool_choice_param(o: ObjV, k: Seq<char>) -> Result<Option<ToolChoiceParamV>, Seq<char>> {
    match obj_get(o, k) {
        None | Some(JsonV::Null) => Ok(None),
        Some(j) => match decode_tool_choice_param(j) {
            Ok(x) => Ok(Some(x)),
            Err(e) => Err(e),
        },
    }
}

fn get_opt_tool_choice_param(o: &JsonMap, k: &str) -> (r: Result<Option<ToolChoiceParam>, String>)
    ensures
        res_opt(r) == opt_tool_choice_param(o@, k@),
{
    match o.get(k) {
        None | Some(Json::Null) => Ok(None),
        Some(j) => match ToolChoiceParam::from_json(j) {
            Ok(x) => Ok(Some(x)),
            Err(e) => Err(e),
        },
    }
}

/// Extended-thinking configuration.
#[derive(Debug, PartialEq, Eq)]
pub struct ThinkingConfig {
    /// Type discriminator.
    pub kind: String,
    /// Manual token budget.
    pub budget_tokens: Option<u64>,
    /// Display of thoughts.
    pub display: Option<String>,
    /// Unknown fields.
    pub extra: JsonMap,
}

/// The mathematical value of a [`ThinkingConfig`].
pub struct ThinkingConfigV {
    pub kind: Seq<char>,
    pub budget_tokens: Option<u64>,
    pub display: Option<Seq<char>>,
    pub extra: ObjV,
}

impl View for ThinkingConfig {
    type V = ThinkingConfigV;

    open spec fn view(&self) -> ThinkingConfigV {
        ThinkingConfigV {
            kind: self.kind@,
            budget_tokens: self.budget_tokens,
            display: opt_view(self.display),
            extra: self.extra@,
        }
    }
}

/// The members that a [`ThinkingConfig`] models.
pub open spec fn thinking_config_keys() -> Seq<Seq<char>> {
    seq!["type"@, "budget_tokens"@, "display"@]
}

/// The [`ThinkingConfig`] that `j` holds, or why it holds none.
pub open spec fn decode_thinking_config(j: JsonV) -> Result<ThinkingConfigV, Seq<char>> {
    match j {
        JsonV::Object(o) => match req_str(o, "type"@) {
            Err(e) => Err(e),
            Ok(kind) => match opt_u64(o, "budget_tokens"@) {
                Err(e) => Err(e),
                Ok(budget_tokens) => match opt_str(o, "display"@) {
                    Err(e) => Err(e),
                    Ok(display) => Ok(
                        ThinkingConfigV { kind, budget_tokens, display, extra: unknown(o, thinking_config_keys()) },
                    ),
                },
            },
        },
        _ => Err(not_an_object()),
    }
}

/// `t` as JSON: absent members are left out, unknown ones come last.
pub open spec fn encode_thinking_config(t: ThinkingConfigV) -> JsonV {
    let o0 = Seq::<(Seq<char>, JsonV)>::empty();
    let o1 = obj_set(o0, "type"@, JsonV::Str(t.kind));
    let o2 = match t.budget_tokens {
        Some(x) => obj_set(o1, "budget_tokens"@, json_int(x as int)),
        None => o1,
    };
    let o3 = match t.display {
        Some(x) => obj_set(o2, "display"@, JsonV::Str(x)),
        None => o2,
    };
    JsonV::Object(extended(o3, t.extra))
}

impl ThinkingConfig {
    /// Reads a [`ThinkingConfig`] from JSON.
    pub fn from_json(j: &Json) -> (r: Result<ThinkingConfig, String>)
        ensures
            res(r) == decode_thinking_config(j@),
    {
        let o = match j.as_object() {
            Some(o) => o,
            None => {
                return Err("invalid type: expected an object".to_owned());
            },
        };
        let kind = match get_str(o, "type") {
            Ok(x) => x,
            Err(e) => {
                return Err(e);
            },
        };
        let budget_tokens = match get_opt_u64(o, "budget_tokens") {
            Ok(x) => x,
            Err(e) => {
                return Err(e);
            },
        };
        let display = match get_opt_str(o, "display") {
            Ok(x) => x,
            Err(e) => {
                return Err(e);
            },
        };
        let mut known: Vec<&str> = Vec::new();
        known.push("type");
        known.push("budget_tokens");
        known.push("display");
        proof {
            assert(views(known@) =~= thinking_config_keys());
        }
        let extra = unknown_members(o, &known);
        Ok(ThinkingConfig { kind, budget_tokens, display, extra })
    }

    /// Writes this value as JSON.
    pub fn to_json(&self) -> (r: Json)
        ensures
            r@ == encode_thinking_config(self@),
    {
        let mut o = JsonMap::new();
        o.set("type", Json::Str(self.kind.clone()));
        if let Some(x) = &self.budget_tokens {
            o.set("budget_tokens", Json::uint(*x));
        }
        if let Some(x) = &self.display {
            o.set("display", Json::Str(x.clone()));
        }
        extend_map(&mut o, &self.extra);
        Json::object(o)
    }
}

/// An optional [`ThinkingConfig`].
pub open spec fn opt_thinking_config(o: ObjV, k: Seq<char>) -> Result<Option<ThinkingConfigV>, Seq<char>> {
    match obj_get(o, k) {
        None | Some(JsonV::Null) => Ok(None),
        Some(j) => match decode_thinking_config(j) {
            Ok(x) => Ok(Some(x)),
            Err(e) => Err(e),
        },
    }
}

fn get_opt_thinking_config(o: &JsonMap, k: &str) -> (r: Result<Option<ThinkingConfig>, String>)
    ensures
        res_opt(r) == opt_thinking_config(o@, k@),
{
    match o.get(k) {
        None | Some(Json::Null) => Ok(None),
        Some(j) => match ThinkingConfig::from_json(j) {
            Ok(x) => Ok(Some(x)),
            Err(e) => Err(e),
        },
    }
}

/// Structured-output format.
#[derive(Debug, PartialEq, Eq)]
pub struct OutputFormatConfig {
    /// Type discriminator.
    pub kind: String,
    /// JSON Schema of the output.
    pub schema: Option<Json>,
    /// Unknown fields.
    pub extra: JsonMap,
}

/// The mathematical value of a [`OutputFormatConfig`].
pub struct OutputFormatConfigV {
    pub kind: Seq<char>,
    pub schema: Option<JsonV>,
    pub extra: ObjV,
}

impl View for OutputFormatConfig {
    type V = OutputFormatConfigV;

    open spec fn view(&self) -> OutputFormatConfigV {
        OutputFormatConfigV {
            kind: self.kind@,
            schema: opt_view(self.schema),
            extra: self.extra@,
        }
    }
}

/// The members that a [`OutputFormatConfig`] models.
pub open spec fn output_format_config_keys() -> Seq<Seq<char>> {
    seq!["type"@, "schema"@]
}

/// The [`OutputFormatConfig`] that `j` holds, or why it holds none.
pub open spec fn decode_output_format_config(j: JsonV) -> Result<OutputFormatConfigV, Seq<char>> {
    match j {
        JsonV::Object(o) => match req_str(o, "type"@) {
            Err(e) => Err(e),
            Ok(kind) => match opt_value(o, "schema"@) {
                Err(e) => Err(e),
                Ok(schema) => Ok(
                    OutputFormatConfigV { kind, schema, extra: unknown(o, output_format_config_keys()) },
                ),
            },
        },
        _ => Err(not_an_object()),
    }
}

/// `t` as JSON: absent members are left out, unknown ones come last.
pub open spec fn encode_output_format_config(t: OutputFormatConfigV) -> JsonV {
    let o0 = Seq::<(Seq<char>, JsonV)>::empty();
    let o1 = obj_set(o0, "type"@, JsonV::Str(t.kind));
    let o2 = match t.schema {
        Some(x) => obj_set(o1, "schema"@, x),
        None => o1,
    };
    JsonV::Object(extended(o2, t.extra))
}

impl OutputFormatConfig {
    /// Reads a [`OutputFormatConfig`] from JSON.
    pub fn from_json(j: &Json) -> (r: Result<OutputFormatConfig, String>)
        ensures
            res(r) == decode_output_format_config(j@),
    {
        let o = match j.as_object() {
            Some(o) => o,
            None => {
                return Err("invalid type: expected an object".to_owned());
            },
        };
        let kind = match get_str(o, "type") {
            Ok(x) => x,
            Err(e) => {
                return Err(e);
            },
        };
        let schema = match get_opt_value(o, "schema") {
            Ok(x) => x,
            Err(e) => {
                return Err(e);
            },
        };
        let mut known: Vec<&str> = Vec::new();
        known.push("type");
        known.push("schema");
        proof {
            assert(views(known@) =~= output_format_config_keys());
        }
        let extra = unknown_members(o, &known);
        Ok(OutputFormatConfig { kind, schema, extra })
    }

    /// Writes this value as JSON.
    pub fn to_json(&self) -> (r: Json)
        ensures
            r@ == encode_output_format_config(self@),
    {
        let mut o = JsonMap::new();
        o.set("type", Json::Str(self.kind.clone()));
        if let Some(x) = &self.schema {
            o.set("schema", x.copy());
        }
        extend_map(&mut o, &self.extra);
        Json::object(o)
    }
}

/// An optional [`OutputFormatConfig`].
pub open spec fn opt_output_format_config(o: ObjV, k: Seq<char>) -> Result<Option<OutputFormatConfigV>, Seq<char>> {
    match obj_get(o, k) {
        None | Some(JsonV::Null) => Ok(None),
        Some(j) => match decode_output_format_config(j) {
            Ok(x) => Ok(Some(x)),
            Err(e) => Err(e),
        },
    }
}

fn get_opt_output_format_config(o: &JsonMap, k: &str) -> (r: Result<Option<OutputFormatConfig>, String>)
    ensures
        res_opt(r) == opt_output_format_config(o@, k@),
{
    match o.get(k) {
        None | Some(Json::Null) => Ok(None),
        Some(j) => match OutputFormatConfig::from_json(j) {
            Ok(x) => Ok(Some(x)),
            Err(e) => Err(e),
        },
    }
}

/// Output configuration.
#[derive(Debug, PartialEq, Eq)]
pub struct OutputConfig {
    /// Effort tier.
    pub effort: Option<String>,
    /// Structured-output format.
    pub format: Option<OutputFormatConfig>,
    /// Unknown fields.
    pub extra: JsonMap,
}

/// The mathematical value of a [`OutputConfig`].
pub struct OutputConfigV {
    pub effort: Option<Seq<char>>,
    pub format: Option<OutputFormatConfigV>,
    pub extra: ObjV,
}

impl View for OutputConfig {
    type V = OutputConfigV;

    open spec fn view(&self) -> OutputConfigV {
        OutputConfigV {
            effort: opt_view(self.effort),
            format: opt_view(self.format),
            extra: self.extra@,
        }
    }
}

/// The members that a [`OutputConfig`] models.
pub open spec fn output_config_keys() -> Seq<Seq<char>> {
    seq!["effort"@, "format"@]
}

/// The [`OutputConfig`] that `j` holds, or why it holds none.
pub open spec fn decode_output_config(j: JsonV) -> Result<OutputConfigV, Seq<char>> {
    match j {
        JsonV::Object(o) => match opt_str(o, "effort"@) {
            Err(e) => Err(e),
            Ok(effort) => match opt_output_format_config(o, "format"@) {
                Err(e) => Err(e),
                Ok(format) => Ok(
                    OutputConfigV { effort, format, extra: unknown(o, output_config_keys()) },
                ),
            },
        },
        _ => Err(not_an_object()),
    }
}

/// `t` as JSON: absent members are left out, unknown ones come last.
pub open spec fn encode_output_config(t: OutputConfigV) -> JsonV {
    let o0 = Seq::<(Seq<char>, JsonV)>::empty();
    let o1 = match t.effort {
        Some(x) => obj_set(o0, "effort"@, JsonV::Str(x)),
        None => o0,
    };
    let o2 = match t.format {
        Some(x) => obj_set(o1, "format"@, encode_output_format_config(x)),
        None => o1,
    };
    JsonV::Object(extended(o2, t.extra))
}

impl OutputConfig {
    /// Reads a [`OutputConfig`] from JSON.
    pub fn from_json(j: &Json) -> (r: Result<OutputConfig, String>)
        ensures
            res(r) == decode_output_config(j@),
    {
        let o = match j.as_object() {
            Some(o) => o,
            None => {
                return Err("invalid type: expected an object".to_owned());
            },
        };
        let effort = match get_opt_str(o, "effort") {
            Ok(x) => x,
            Err(e) => {
                return Err(e);
            },
        };
        let format = match get_opt_output_format_config(o, "format") {
            Ok(x) => x,
            Err(e) => {
                return Err(e);
            },
        };
        let mut known: Vec<&str> = Vec::new();
        known.push("effort");
        known.push("format");
        proof {
            assert(views(known@) =~= output_config_keys());
        }
        let extra = unknown_members(o, &known);
        Ok(OutputConfig { effort, format, extra })
    }

    /// Writes this value as JSON.
    pub fn to_json(&self) -> (r: Json)
        ensures
            r@ == encode_output_config(self@),
    {
        let mut o = JsonMap::new();
        if let Some(x) = &self.effort {
            o.set("effort", Json::Str(x.clone()));
        }
        if let Some(x) = &self.format {
            o.set("format", x.to_json());
        }
        extend_map(&mut o, &self.extra);
        Json::object(o)
    }
}

/// An optional [`OutputConfig`].
pub open spec fn opt_output_config(o: ObjV, k: Seq<char>) -> Result<Option<OutputConfigV>, Seq<char>> {
    match obj_get(o, k) {
        None | Some(JsonV::Null) => Ok(None),
        Some(j) => match decode_output_config(j) {
            Ok(x) => Ok(Some(x)),
            Err(e) => Err(e),
        },
    }
}

fn get_opt_output_config(o: &JsonMap, k: &str) -> (r: Result<Option<OutputConfig>, String>)
    ensures
        res_opt(r) == opt_output_config(o@, k@),
{
    match o.get(k) {
        None | Some(Json::Null) => Ok(None),
        Some(j) => match OutputConfig::from_json(j) {
            Ok(x) => Ok(Some(x)),
            Err(e) => Err(e),
        },
    }
}

/// One message of a request.
#[derive(Debug, PartialEq, Eq)]
pub struct MessageParam {
    /// Message role.
    pub role: String,
    /// Message content.
    pub content: MessageContent,
    /// Unknown fields.
    pub extra: JsonMap,
}

/// The mathematical value of a [`MessageParam`].
pub struct MessageParamV {
    pub role: Seq<char>,
    pub content: MessageContentV,
    pub extra: ObjV,
}

impl View for MessageParam {
    type V = MessageParamV;

    open spec fn view(&self) -> MessageParamV {
        MessageParamV {
            role: self.role@,
            content: self.content@,
            extra: self.extra@,
        }
    }
}

/// The members that a [`MessageParam`] models.
pub open spec fn message_param_keys() -> Seq<Seq<char>> {
    seq!["role"@, "content"@]
}

/// The [`MessageParam`] that `j` holds, or why it holds none.
pub open spec fn decode_message_param(j: JsonV) -> Result<MessageParamV, Seq<char>> {
    match j {
        JsonV::Object(o) => match req_str(o, "role"@) {
            Err(e) => Err(e),
            Ok(role) => match req_message_content(o, "content"@) {
                Err(e) => Err(e),
                Ok(content) => Ok(
                    MessageParamV { role, content, extra: unknown(o, message_param_keys()) },
                ),
            },
        },
        _ => Err(not_an_object()),
    }
}

/// `t` as JSON: absent members are left out, unknown ones come last.
pub open spec fn encode_message_param(t: MessageParamV) -> JsonV {
    let o0 = Seq::<(Seq<char>, JsonV)>::empty();
    let o1 = obj_set(o0, "role"@, JsonV::Str(t.role));
    let o2 = obj_set(o1, "content"@, encode_message_content(t.content));
    JsonV::Object(extended(o2, t.extra))
}

impl MessageParam {
    /// Reads a [`MessageParam`] from JSON.
    pub fn from_json(j: &Json) -> (r: Result<MessageParam, String>)
        ensures
            res(r) == decode_message_param(j@),
    {
        let o = match j.as_object() {
            Some(o) => o,
            None => {
                return Err("invalid type: expected an object".to_owned());
            },
        };
        let role = match get_str(o, "role") {
            Ok(x) => x,
            Err(e) => {
                return Err(e);
            },
        };
        let content = match get_message_content(o, "content") {
            Ok(x) => x,
            Err(e) => {
                return Err(e);
            },
        };
        let mut known: Vec<&str> = Vec::new();
        known.push("role");
        known.push("content");
        proof {
            assert(views(known@) =~= message_param_keys());
        }
        let extra = unknown_members(o, &known);
        Ok(MessageParam { role, content, extra })
    }

    /// Writes this value as JSON.
    pub fn to_json(&self) -> (r: Json)
        ensures
            r@ == encode_message_param(self@),
    {
        let mut o = JsonMap::new();
        o.set("role", Json::Str(self.role.clone()));
        o.set("content", self.content.to_json());
        extend_map(&mut o, &self.extra);
        Json::object(o)
    }
}

/// The `POST /v1/messages` request body. Messages are kept raw: each parses on its
/// own.
#[derive(Debug, PartialEq, Eq)]
pub struct MessagesRequest {
    /// Model id.
    pub model: Option<String>,
    /// The conversation.
    pub messages: Vec<Json>,
    /// Maximum tokens to generate.
    pub max_tokens: Option<u64>,
    /// System prompt.
    pub system: Option<SystemPrompt>,
    /// Request metadata.
    pub metadata: Option<JsonMap>,
    /// Stop strings.
    pub stop_sequences: Option<Vec<String>>,
    /// Streaming toggle.
    pub stream: Option<bool>,
    /// Sampling temperature.
    pub temperature: Option<Num>,
    /// Top-k sampling.
    pub top_k: Option<u64>,
    /// Nucleus sampling.
    pub top_p: Option<Num>,
    /// Tool definitions.
    pub tools: Option<Vec<Json>>,
    /// Tool-choice constraint.
    pub tool_choice: Option<ToolChoiceParam>,
    /// Thinking configuration.
    pub thinking: Option<ThinkingConfig>,
    /// Output configuration.
    pub output_config: Option<OutputConfig>,
    /// Unknown fields.
    pub extra: JsonMap,
}

/// The mathematical value of a [`MessagesRequest`].
pub struct MessagesRequestV {
    pub model: Option<Seq<char>>,
    pub messages: Seq<JsonV>,
    pub max_tokens: Option<u64>,
    pub system: Option<SystemPromptV>,
    pub metadata: Option<ObjV>,
    pub stop_sequences: Option<Seq<Seq<char>>>,
    pub stream: Option<bool>,
    pub temperature: Option<NumV>,
    pub top_k: Option<u64>,
    pub top_p: Option<NumV>,
    pub tools: Option<Seq<JsonV>>,
    pub tool_choice: Option<ToolChoiceParamV>,
    pub thinking: Option<ThinkingConfigV>,
    pub output_config: Option<OutputConfigV>,
    pub extra: ObjV,
}

impl View for MessagesRequest {
    type V = MessagesRequestV;

    open spec fn view(&self) -> MessagesRequestV {
        MessagesRequestV {
            model: opt_view(self.model),
            messages: views(self.messages@),
            max_tokens: self.max_tokens,
            system: opt_view(self.system),
            metadata: opt_view(self.metadata),
            stop_sequences: opt_views(self.stop_sequences),
            stream: self.stream,
            temperature: opt_view(self.temperature),
            top_k: self.top_k,
            top_p: opt_view(self.top_p),
            tools: opt_views(self.tools),
            tool_choice: opt_view(self.tool_choice),
            thinking: opt_view(self.thinking),
            output_config: opt_view(self.output_config),
            extra: self.extra@,
        }
    }
}

/// The members that a [`MessagesRequest`] models.
pub open spec fn messages_request_keys() -> Seq<Seq<char>> {
    seq!["model"@, "messages"@, "max_tokens"@, "system"@, "metadata"@, "stop_sequences"@, "stream"@, "temperature"@, "top_k"@, "top_p"@, "tools"@, "tool_choice"@, "thinking"@, "output_config"@]
}

/// The [`MessagesRequest`] that `j` holds, or why it holds none.
pub open spec fn decode_messages_request(j: JsonV) -> Result<MessagesRequestV, Seq<char>> {
    match j {
        JsonV::Object(o) => match opt_str(o, "model"@) {
            Err(e) => Err(e),
            Ok(model) => match default_values(o, "messages"@) {
                Err(e) => Err(e),
                Ok(messages) => match opt_u64(o, "max_tokens"@) {
                    Err(e) => Err(e),
                    Ok(max_tokens) => match opt_system_prompt(o, "system"@) {
                        Err(e) => Err(e),
                        Ok(system) => match opt_object(o, "metadata"@) {
                            Err(e) => Err(e),
                            Ok(metadata) => match opt_strings(o, "stop_sequences"@) {
                                Err(e) => Err(e),
                                Ok(stop_sequences) => match opt_bool(o, "stream"@) {
                                    Err(e) => Err(e),
                                    Ok(stream) => match opt_float(o, "temperature"@) {
                                        Err(e) => Err(e),
                                        Ok(temperature) => match opt_u64(o, "top_k"@) {
                                            Err(e) => Err(e),
                                            Ok(top_k) => match opt_float(o, "top_p"@) {
                                                Err(e) => Err(e),
                                                Ok(top_p) => match opt_values(o, "tools"@) {
                                                    Err(e) => Err(e),
                                                    Ok(tools) => match opt_tool_choice_param(o, "tool_choice"@) {
                                                        Err(e) => Err(e),
                                                        Ok(tool_choice) => match opt_thinking_config(o, "thinking"@) {
                                                            Err(e) => Err(e),
                                                            Ok(thinking) => match opt_output_config(o, "output_config"@) {
                                                                Err(e) => Err(e),
                                                                Ok(output_config) => Ok(
                                                                    MessagesRequestV { model, messages, max_tokens, system, metadata, stop_sequences, stream, temperature, top_k, top_p, tools, tool_choice, thinking, output_config, extra: unknown(o, messages_request_keys()) },
                                                                ),
                                                            },
                                                        },
                                                    },
                                                },
                                            },
                                        },
                                    },
                                },
                            },
                        },
                    },
                },
            },
        },
        _ => Err(not_an_object()),
    }
}

/// `t` as JSON: absent members are left out, unknown ones come last.
pub open spec fn encode_messages_request(t: MessagesRequestV) -> JsonV {
    let o0 = Seq::<(Seq<char>, JsonV)>::empty();
    let o1 = match t.model {
        Some(x) => obj_set(o0, "model"@, JsonV::Str(x)),
        None => o0,
    };
    let o2 = obj_set(o1, "messages"@, JsonV::Array(t.messages));
    let o3 = match t.max_tokens {
        Some(x) => obj_set(o2, "max_tokens"@, json_int(x as int)),
        None => o2,
    };
    let o4 = match t.system {
        Some(x) => obj_set(o3, "system"@, encode_system_prompt(x)),
        None => o3,
    };
    let o5 = match t.metadata {
        Some(x) => obj_set(o4, "metadata"@, JsonV::Object(x)),
        None => o4,
    };
    let o6 = match t.stop_sequences {
        Some(x) => obj_set(o5, "stop_sequences"@, json_strings(x)),
        None => o5,
    };
    let o7 = match t.stream {
        Some(x) => obj_set(o6, "stream"@, JsonV::Bool(x)),
        None => o6,
    };
    let o8 = match t.temperature {
        Some(x) => obj_set(o7, "temperature"@, JsonV::Number(x)),
        None => o7,
    };
    let o9 = match t.top_k {
        Some(x) => obj_set(o8, "top_k"@, json_int(x as int)),
        None => o8,
    };
    let o10 = match t.top_p {
        Some(x) => obj_set(o9, "top_p"@, JsonV::Number(x)),
        None => o9,
    };
    let o11 = match t.tools {
        Some(x) => obj_set(o10, "tools"@, JsonV::Array(x)),
        None => o10,
    };
    let o12 = match t.tool_choice {
        Some(x) => obj_set(o11, "tool_choice"@, encode_tool_choice_param(x)),
        None => o11,
    };
    let o13 = match t.thinking {
        Some(x) => obj_set(o12, "thinking"@, encode_thinking_config(x)),
        None => o12,
    };
    let o14 = match t.output_config {
        Some(x) => obj_set(o13, "output_config"@, encode_output_config(x)),
        None => o13,
    };
    JsonV::Object(extended(o14, t.extra))
}

impl MessagesRequest {
    /// Reads a [`MessagesRequest`] from JSON.
    pub fn from_json(j: &Json) -> (r: Result<MessagesRequest, String>)
        ensures
            res(r) == decode_messages_request(j@),
    {
        let o = match j.as_object() {
            Some(o) => o,
            None => {
                return Err("invalid type: expected an object".to_owned());
            },
        };
        let model = match get_opt_str(o, "model") {
            Ok(x) => x,
            Err(e) => {
                return Err(e);
            },
        };
        let messages = match get_default_values(o, "messages") {
            Ok(x) => x,
            Err(e) => {
                return Err(e);
            },
        };
        let max_tokens = match get_opt_u64(o, "max_tokens") {
            Ok(x) => x,
            Err(e) => {
                return Err(e);
            },
        };
        let system = match get_opt_system_prompt(o, "system") {
            Ok(x) => x,
            Err(e) => {
                return Err(e);
            },
        };
        let metadata = match get_opt_object(o, "metadata") {
            Ok(x) => x,
            Err(e) => {
                return Err(e);
            },
        };
        let stop_sequences = match get_opt_strings(o, "stop_sequences") {
            Ok(x) => x,
            Err(e) => {
                return Err(e);
            },
        };
        let stream = match get_opt_bool(o, "stream") {
            Ok(x) => x,
            Err(e) => {
                return Err(e);
            },
        };
        let temperature = match get_opt_float(o, "temperature") {
            Ok(x) => x,
            Err(e) => {
                return Err(e);
            },
        };
        let top_k = match get_opt_u64(o, "top_k") {
            Ok(x) => x,
            Err(e) => {
                return Err(e);
            },
        };
        let top_p = match get_opt_float(o, "top_p") {
            Ok(x) => x,
            Err(e) => {
                return Err(e);
            },
        };
        let tools = match get_opt_values(o, "tools") {
            Ok(x) => x,
            Err(e) => {
                return Err(e);
            },
        };
        let tool_choice = match get_opt_tool_choice_param(o, "tool_choice") {
            Ok(x) => x,
            Err(e) => {
                return Err(e);
            },
        };
        let thinking = match get_opt_thinking_config(o, "thinking") {
            Ok(x) => x,
            Err(e) => {
                return Err(e);
            },
        };
        let output_config = match get_opt_output_config(o, "output_config") {
            Ok(x) => x,
            Err(e) => {
                return Err(e);
            },
        };
        let mut known: Vec<&str> = Vec::new();
        known.push("model");
        known.push("messages");
        known.push("max_tokens");
        known.push("system");
        known.push("metadata");
        known.push("stop_sequences");
        known.push("stream");
        known.push("temperature");
        known.push("top_k");
        known.push("top_p");
        known.push("tools");
        known.push("tool_choice");
        known.push("thinking");
        known.push("output_config");
        proof {
            assert(views(known@) =~= messages_request_keys());
        }
        let extra = unknown_members(o, &known);
        Ok(MessagesRequest { model, messages, max_tokens, system, metadata, stop_sequences, stream, temperature, top_k, top_p, tools, tool_choice, thinking, output_config, extra })
    }

    /// Writes this value as JSON.
    pub fn to_json(&self) -> (r: Json)
        ensures
            r@ == encode_messages_request(self@),
    {
        let mut o = JsonMap::new();
        if let Some(x) = &self.model {
            o.set("model", Json::Str(x.clone()));
        }
        o.set("messages", Json::array(dup_vec(&self.messages)));
        if let Some(x) = &self.max_tokens {
            o.set("max_tokens", Json::uint(*x));
        }
        if let Some(x) = &self.system {
            o.set("system", x.to_json());
        }
        if let Some(x) = &self.metadata {
            o.set("metadata", Json::object(x.copy()));
        }
        if let Some(x) = &self.stop_sequences {
            o.set("stop_sequences", make_strings(x));
        }
        if let Some(x) = &self.stream {
            o.set("stream", Json::Bool(*x));
        }
        if let Some(x) = &self.temperature {
            o.set("temperature", Json::Number(x.copy()));
        }
        if let Some(x) = &self.top_k {
            o.set("top_k", Json::uint(*x));
        }
        if let Some(x) = &self.top_p {
            o.set("top_p", Json::Number(x.copy()));
        }
        if let Some(x) = &self.tools {
            o.set("tools", Json::array(dup_vec(x)));
        }
        if let Some(x) = &self.tool_choice {
            o.set("tool_choice", x.to_json());
        }
        if let Some(x) = &self.thinking {
            o.set("thinking", x.to_json());
        }
        if let Some(x) = &self.output_config {
            o.set("output_config", x.to_json());
        }
        extend_map(&mut o, &self.extra);
        Json::object(o)
    }
}

/// A response message. Usage is kept raw: a malformed one costs only the usage.
#[derive(Debug, PartialEq, Eq)]
pub struct MessagesResponse {
    /// Message id.
    pub id: Option<String>,
    /// Object type.
    pub kind: Option<String>,
    /// Message role.
    pub role: Option<String>,
    /// Model id.
    pub model: Option<String>,
    /// Content blocks.
    pub content: Vec<Json>,
    /// Stop reason.
    pub stop_reason: Option<String>,
    /// Matched stop sequence.
    pub stop_sequence: Option<String>,
    /// Token accounting.
    pub usage: Option<Json>,
    /// Unknown fields.
    pub extra: JsonMap,
}

/// The mathematical value of a [`MessagesResponse`].
pub struct MessagesResponseV {
    pub id: Option<Seq<char>>,
    pub kind: Option<Seq<char>>,
    pub role: Option<Seq<char>>,
    pub model: Option<Seq<char>>,
    pub content: Seq<JsonV>,
    pub stop_reason: Option<Seq<char>>,
    pub stop_sequence: Option<Seq<char>>,
    pub usage: Option<JsonV>,
    pub extra: ObjV,
}

impl View for MessagesResponse {
    type V = MessagesResponseV;

    open spec fn view(&self) -> MessagesResponseV {
        MessagesResponseV {
            id: opt_view(self.id),
            kind: opt_view(self.kind),
            role: opt_view(self.role),
            model: opt_view(self.model),
            content: views(self.content@),
            stop_reason: opt_view(self.stop_reason),
            stop_sequence: opt_view(self.stop_sequence),
            usage: opt_view(self.usage),
            extra: self.extra@,
        }
    }
}

/// The members that a [`MessagesResponse`] models.
pub open spec fn messages_response_keys() -> Seq<Seq<char>> {
    seq!["id"@, "type"@, "role"@, "model"@, "content"@, "stop_reason"@, "stop_sequence"@, "usage"@]
}

/// The [`MessagesResponse`] that `j` holds, or why it holds none.
pub open spec fn decode_messages_response(j: JsonV) -> Result<MessagesResponseV, Seq<char>> {
    match j {
        JsonV::Object(o) => match opt_str(o, "id"@) {
            Err(e) => Err(e),
            Ok(id) => match opt_str(o, "type"@) {
                Err(e) => Err(e),
                Ok(kind) => match opt_str(o, "role"@) {
                    Err(e) => Err(e),
                    Ok(role) => match opt_str(o, "model"@) {
                        Err(e) => Err(e),
                        Ok(model) => match default_values(o, "content"@) {
                            Err(e) => Err(e),
                            Ok(content) => match opt_str(o, "stop_reason"@) {
                                Err(e) => Err(e),
                                Ok(stop_reason) => match opt_str(o, "stop_sequence"@) {
                                    Err(e) => Err(e),
                                    Ok(stop_sequence) => match opt_value(o, "usage"@) {
                                        Err(e) => Err(e),
                                        Ok(usage) => Ok(
                                            MessagesResponseV { id, kind, role, model, content, stop_reason, stop_sequence, usage, extra: unknown(o, messages_response_keys()) },
                                        ),
                                    },
                                },
                            },
                        },
                    },
                },
            },
        },
        _ => Err(not_an_object()),
    }
}

/// `t` as JSON: absent members are left out, unknown ones come last.
pub open spec fn encode_messages_response(t: MessagesResponseV) -> JsonV {
    let o0 = Seq::<(Seq<char>, JsonV)>::empty();
    let o1 = match t.id {
        Some(x) => obj_set(o0, "id"@, JsonV::Str(x)),
        None => o0,
    };
    let o2 = match t.kind {
        Some(x) => obj_set(o1, "type"@, JsonV::Str(x)),
        None => o1,
    };
    let o3 = match t.role {
        Some(x) => obj_set(o2, "role"@, JsonV::Str(x)),
        None => o2,
    };
    let o4 = match t.model {
        Some(x) => obj_set(o3, "model"@, JsonV::Str(x)),
        None => o3,
    };
    let o5 = obj_set(o4, "content"@, JsonV::Array(t.content));
    let o6 = match t.stop_reason {
        Some(x) => obj_set(o5, "stop_reason"@, JsonV::Str(x)),
        None => o5,
    };
    let o7 = match t.stop_sequence {
        Some(x) => obj_set(o6, "stop_sequence"@, JsonV::Str(x)),
        None => o6,
    };
    let o8 = match t.usage {
        Some(x) => obj_set(o7, "usage"@, x),
        None => o7,
    };
    JsonV::Object(extended(o8, t.extra))
}

impl MessagesResponse {
    /// Reads a [`MessagesResponse`] from JSON.
    pub fn from_json(j: &Json) -> (r: Result<MessagesResponse, String>)
        ensures
            res(r) == decode_messages_response(j@),
    {
        let o = match j.as_object() {
            Some(o) => o,
            None => {
                return Err("invalid type: expected an object".to_owned());
            },
        };
        let id = match get_opt_str(o, "id") {
            Ok(x) => x,
            Err(e) => {
                return Err(e);
            },
        };
        let kind = match get_opt_str(o, "type") {
            Ok(x) => x,
            Err(e) => {
                return Err(e);
            },
        };
        let role = match get_opt_str(o, "role") {
            Ok(x) => x,
            Err(e) => {
                return Err(e);
            },
        };
        let model = match get_opt_str(o, "model") {
            Ok(x) => x,
            Err(e) => {
                return Err(e);
            },
        };
        let content = match get_default_values(o, "content") {
            Ok(x) => x,
            Err(e) => {
                return Err(e);
            },
        };
        let stop_reason = match get_opt_str(o, "stop_reason") {
            Ok(x) => x,
            Err(e) => {
                return Err(e);
            },
        };
        let stop_sequence = match get_opt_str(o, "stop_sequence") {
            Ok(x) => x,
            Err(e) => {
                return Err(e);
            },
        };
        let usage = match get_opt_value(o, "usage") {
            Ok(x) => x,
            Err(e) => {
                return Err(e);
            },
        };
        let mut known: Vec<&str> = Vec::new();
        known.push("id");
        known.push("type");
        known.push("role");
        known.push("model");
        known.push("content");
        known.push("stop_reason");
        known.push("stop_sequence");
        known.push("usage");
        proof {
            assert(views(known@) =~= messages_response_keys());
        }
        let extra = unknown_members(o, &known);
        Ok(MessagesResponse { id, kind, role, model, content, stop_reason, stop_sequence, usage, extra })
    }

    /// Writes this value as JSON.
    pub fn to_json(&self) -> (r: Json)
        ensures
            r@ == encode_messages_response(self@),
    {
        let mut o = JsonMap::new();
        if let Some(x) = &self.id {
            o.set("id", Json::Str(x.clone()));
        }
        if let Some(x) = &self.kind {
            o.set("type", Json::Str(x.clone()));
        }
        if let Some(x) = &self.role {
            o.set("role", Json::Str(x.clone()));
        }
        if let Some(x) = &self.model {
            o.set("model", Json::Str(x.clone()));
        }
        o.set("content", Json::array(dup_vec(&self.content)));
        if let Some(x) = &self.stop_reason {
            o.set("stop_reason", Json::Str(x.clone()));
        }
        if let Some(x) = &self.stop_sequence {
            o.set("stop_sequence", Json::Str(x.clone()));
        }
        if let Some(x) = &self.usage {
            o.set("usage", x.copy());
        }
        extend_map(&mut o, &self.extra);
        Json::object(o)
    }
}

/// A required [`MessagesResponse`].
pub open spec fn req_messages_response(o: ObjV, k: Seq<char>) -> Result<MessagesResponseV, Seq<char>> {
    match req_value(o, k) {
        Err(e) => Err(e),
        Ok(j) => decode_messages_response(j),
    }
}

fn get_messages_response(o: &JsonMap, k: &str) -> (r: Result<MessagesResponse, String>)
    ensures
        res(r) == req_messages_response(o@, k@),
{
    match get_value(o, k) {
        Err(e) => Err(e),
        Ok(j) => MessagesResponse::from_json(&j),
    }
}

/// Breakdown of output tokens.
#[derive(Debug, PartialEq, Eq)]
pub struct OutputTokensDetails {
    /// Thinking tokens.
    pub thinking_tokens: Option<u64>,
    /// Unknown fields.
    pub extra: JsonMap,
}

/// The mathematical value of a [`OutputTokensDetails`].
pub struct OutputTokensDetailsV {
    pub thinking_tokens: Option<u64>,
    pub extra: ObjV,
}

impl View for OutputTokensDetails {
    type V = OutputTokensDetailsV;

    open spec fn view(&self) -> OutputTokensDetailsV {
        OutputTokensDetailsV {
            thinking_tokens: self.thinking_tokens,
            extra: self.extra@,
        }
    }
}

/// The members that a [`OutputTokensDetails`] models.
pub open spec fn output_tokens_details_keys() -> Seq<Seq<char>> {
    seq!["thinking_tokens"@]
}

/// The [`OutputTokensDetails`] that `j` holds, or why it holds none.
pub open spec fn decode_output_tokens_details(j: JsonV) -> Result<OutputTokensDetailsV, Seq<char>> {
    match j {
        JsonV::Object(o) => match opt_u64(o, "thinking_tokens"@) {
            Err(e) => Err(e),
            Ok(thinking_tokens) => Ok(
                OutputTokensDetailsV { thinking_tokens, extra: unknown(o, output_tokens_details_keys()) },
            ),
        },
        _ => Err(not_an_object()),
    }
}

/// `t` as JSON: absent members are left out, unknown ones come last.
pub open spec fn encode_output_tokens_details(t: OutputTokensDetailsV) -> JsonV {
    let o0 = Seq::<(Seq<char>, JsonV)>::empty();
    let o1 = match t.thinking_tokens {
        Some(x) => obj_set(o0, "thinking_tokens"@, json_int(x as int)),
        None => o0,
    };
    JsonV::Object(extended(o1, t.extra))
}

impl OutputTokensDetails {
    /// Reads a [`OutputTokensDetails`] from JSON.
    pub fn from_json(j: &Json) -> (r: Result<OutputTokensDetails, String>)
        ensures
            res(r) == decode_output_tokens_details(j@),
    {
        let o = match j.as_object() {
            Some(o) => o,
            None => {
                return Err("invalid type: expected an object".to_owned());
            },
        };
        let thinking_tokens = match get_opt_u64(o, "thinking_tokens") {
            Ok(x) => x,
            Err(e) => {
                return Err(e);
            },
        };
        let mut known: Vec<&str> = Vec::new();
        known.push("thinking_tokens");
        proof {
            assert(views(known@) =~= output_tokens_details_keys());
        }
        let extra = unknown_members(o, &known);
        Ok(OutputTokensDetails { thinking_tokens, extra })
    }

    /// Writes this value as JSON.
    pub fn to_json(&self) -> (r: Json)
        ensures
            r@ == encode_output_tokens_details(self@),
    {
        let mut o = JsonMap::new();
        if let Some(x) = &self.thinking_tokens {
            o.set("thinking_tokens", Json::uint(*x));
        }
        extend_map(&mut o, &self.extra);
        Json::object(o)
    }
}

/// An optional [`OutputTokensDetails`].
pub open spec fn opt_output_tokens_details(o: ObjV, k: Seq<char>) -> Result<Option<OutputTokensDetailsV>, Seq<char>> {
    match obj_get(o, k) {
        None | Some(JsonV::Null) => Ok(None),
        Some(j) => match decode_output_tokens_details(j) {
            Ok(x) => Ok(Some(x)),
            Err(e) => Err(e),
        },
    }
}

fn get_opt_output_tokens_details(o: &JsonMap, k: &str) -> (r: Result<Option<OutputTokensDetails>, String>)
    ensures
        res_opt(r) == opt_output_tokens_details(o@, k@),
{
    match o.get(k) {
        None | Some(Json::Null) => Ok(None),
        Some(j) => match OutputTokensDetails::from_json(j) {
            Ok(x) => Ok(Some(x)),
            Err(e) => Err(e),
        },
    }
}

/// Token accounting.
#[derive(Debug, PartialEq, Eq)]
pub struct UsageWire {
    /// Uncached input tokens.
    pub input_tokens: Option<u64>,
    /// Output tokens.
    pub output_tokens: Option<u64>,
    /// Tokens written to the cache.
    pub cache_creation_input_tokens: Option<u64>,
    /// Tokens read from the cache.
    pub cache_read_input_tokens: Option<u64>,
    /// Breakdown of output tokens.
    pub output_tokens_details: Option<OutputTokensDetails>,
    /// Unknown fields.
    pub extra: JsonMap,
}

/// The mathematical value of a [`UsageWire`].
pub struct UsageWireV {
    pub input_tokens: Option<u64>,
    pub output_tokens: Option<u64>,
    pub cache_creation_input_tokens: Option<u64>,
    pub cache_read_input_tokens: Option<u64>,
    pub output_tokens_details: Option<OutputTokensDetailsV>,
    pub extra: ObjV,
}

impl View for UsageWire {
    type V = UsageWireV;

    open spec fn view(&self) -> UsageWireV {
        UsageWireV {
            input_tokens: self.input_tokens,
            output_tokens: self.output_tokens,
            cache_creation_input_tokens: self.cache_creation_input_tokens,
            cache_read_input_tokens: self.cache_read_input_tokens,
            output_tokens_details: opt_view(self.output_tokens_details),
            extra: self.extra@,
        }
    }
}

/// The members that a [`UsageWire`] models.
pub open spec fn usage_wire_keys() -> Seq<Seq<char>> {
    seq!["input_tokens"@, "output_tokens"@, "cache_creation_input_tokens"@, "cache_read_input_tokens"@, "output_tokens_details"@]
}

/// The [`UsageWire`] that `j` holds, or why it holds none.
pub open spec fn decode_usage_wire(j: JsonV) -> Result<UsageWireV, Seq<char>> {
    match j {
        JsonV::Object(o) => match opt_u64(o, "input_tokens"@) {
            Err(e) => Err(e),
            Ok(input_tokens) => match opt_u64(o, "output_tokens"@) {
                Err(e) => Err(e),
                Ok(output_tokens) => match opt_u64(o, "cache_creation_input_tokens"@) {
                    Err(e) => Err(e),
                    Ok(cache_creation_input_tokens) => match opt_u64(o, "cache_read_input_tokens"@) {
                        Err(e) => Err(e),
                        Ok(cache_read_input_tokens) => match opt_output_tokens_details(o, "output_tokens_details"@) {
                            Err(e) => Err(e),
                            Ok(output_tokens_details) => Ok(
                                UsageWireV { input_tokens, output_tokens, cache_creation_input_tokens, cache_read_input_tokens, output_tokens_details, extra: unknown(o, usage_wire_keys()) },
                            ),
                        },
                    },
                },
            },
        },
        _ => Err(not_an_object()),
    }
}

/// `t` as JSON: absent members are left out, unknown ones come last.
pub open spec fn encode_usage_wire(t: UsageWireV) -> JsonV {
    let o0 = Seq::<(Seq<char>, JsonV)>::empty();
    let o1 = match t.input_tokens {
        Some(x) => obj_set(o0, "input_tokens"@, json_int(x as int)),
        None => o0,
    };
    let o2 = match t.output_tokens {
        Some(x) => obj_set(o1, "output_tokens"@, json_int(x as int)),
        None => o1,
    };
    let o3 = match t.cache_creation_input_tokens {
        Some(x) => obj_set(o2, "cache_creation_input_tokens"@, json_int(x as int)),
        None => o2,
    };
    let o4 = match t.cache_read_input_tokens {
        Some(x) => obj_set(o3, "cache_read_input_tokens"@, json_int(x as int)),
        None => o3,
    };
    let o5 = match t.output_tokens_details {
        Some(x) => obj_set(o4, "output_tokens_details"@, encode_output_tokens_details(x)),
        None => o4,
    };
    JsonV::Object(extended(o5, t.extra))
}

impl UsageWire {
    /// Reads a [`UsageWire`] from JSON.
    pub fn from_json(j: &Json) -> (r: Result<UsageWire, String>)
        ensures
            res(r) == decode_usage_wire(j@),
    {
        let o = match j.as_object() {
            Some(o) => o,
            None => {
                return Err("invalid type: expected an object".to_owned());
            },
        };
        let input_tokens = match get_opt_u64(o, "input_tokens") {
            Ok(x) => x,
            Err(e) => {
                return Err(e);
            },
        };
        let output_tokens = match get_opt_u64(o, "output_tokens") {
            Ok(x) => x,
            Err(e) => {
                return Err(e);
            },
        };
        let cache_creation_input_tokens = match get_opt_u64(o, "cache_creation_input_tokens") {
            Ok(x) => x,
            Err(e) => {
                return Err(e);
            },
        };
        let cache_read_input_tokens = match get_opt_u64(o, "cache_read_input_tokens") {
            Ok(x) => x,
            Err(e) => {
                return Err(e);
            },
        };
        let output_tokens_details = match get_opt_output_tokens_details(o, "output_tokens_details") {
            Ok(x) => x,
            Err(e) => {
                return Err(e);
            },
        };
        let mut known: Vec<&str> = Vec::new();
        known.push("input_tokens");
        known.push("output_tokens");
        known.push("cache_creation_input_tokens");
        known.push("cache_read_input_tokens");
        known.push("output_tokens_details");
        proof {
            assert(views(known@) =~= usage_wire_keys());
        }
        let extra = unknown_members(o, &known);
        Ok(UsageWire { input_tokens, output_tokens, cache_creation_input_tokens, cache_read_input_tokens, output_tokens_details, extra })
    }

    /// Writes this value as JSON.
    pub fn to_json(&self) -> (r: Json)
        ensures
            r@ == encode_usage_wire(self@),
    {
        let mut o = JsonMap::new();
        if let Some(x) = &self.input_tokens {
            o.set("input_tokens", Json::uint(*x));
        }
        if let Some(x) = &self.output_tokens {
            o.set("output_tokens", Json::uint(*x));
        }
        if let Some(x) = &self.cache_creation_input_tokens {
            o.set("cache_creation_input_tokens", Json::uint(*x));
        }
        if let Some(x) = &self.cache_read_input_tokens {
            o.set("cache_read_input_tokens", Json::uint(*x));
        }
        if let Some(x) = &self.output_tokens_details {
            o.set("output_tokens_details", x.to_json());
        }
        extend_map(&mut o, &self.extra);
        Json::object(o)
    }
}

/// The `message_start` event.
#[derive(Debug, PartialEq, Eq)]
pub struct MessageStartEvent {
    /// The opening message.
    pub message: MessagesResponse,
}

/// The mathematical value of a [`MessageStartEvent`].
pub struct MessageStartEventV {
    pub message: MessagesResponseV,
}

impl View for MessageStartEvent {
    type V = MessageStartEventV;

    open spec fn view(&self) -> MessageStartEventV {
        MessageStartEventV {
            message: self.message@,
        }
    }
}

/// The [`MessageStartEvent`] that `j` holds, or why it holds none.
pub open spec fn decode_message_start_event(j: JsonV) -> Result<MessageStartEventV, Seq<char>> {
    match j {
        JsonV::Object(o) => match req_messages_response(o, "message"@) {
            Err(e) => Err(e),
            Ok(message) => Ok(
                MessageStartEventV { message },
            ),
        },
        _ => Err(not_an_object()),
    }
}

/// `t` as JSON: absent members are left out, unknown ones come last.
pub open spec fn encode_message_start_event(t: MessageStartEventV) -> JsonV {
    let o0 = Seq::<(Seq<char>, JsonV)>::empty();
    let o1 = obj_set(o0, "message"@, encode_messages_response(t.message));
    JsonV::Object(o1)
}

impl MessageStartEvent {
    /// Reads a [`MessageStartEvent`] from JSON.
    pub fn from_json(j: &Json) -> (r: Result<MessageStartEvent, String>)
        ensures
            res(r) == decode_message_start_event(j@),
    {
        let o = match j.as_object() {
            Some(o) => o,
            None => {
                return Err("invalid type: expected an object".to_owned());
            },
        };
        let message = match get_messages_response(o, "message") {
            Ok(x) => x,
            Err(e) => {
                return Err(e);
            },
        };
        Ok(MessageStartEvent { message })
    }

    /// Writes this value as JSON.
    pub fn to_json(&self) -> (r: Json)
        ensures
            r@ == encode_message_start_event(self@),
    {
        let mut o = JsonMap::new();
        o.set("message", self.message.to_json());
        Json::object(o)
    }
}

/// The `content_block_start` event.
#[derive(Debug, PartialEq, Eq)]
pub struct ContentBlockStartEvent {
    /// Position of the block.
    pub index: usize,
    /// The opening block.
    pub content_block: Json,
}

/// The mathematical value of a [`ContentBlockStartEvent`].
pub struct ContentBlockStartEventV {
    pub index: usize,
    pub content_block: JsonV,
}

impl View for ContentBlockStartEvent {
    type V = ContentBlockStartEventV;

    open spec fn view(&self) -> ContentBlockStartEventV {
        ContentBlockStartEventV {
            index: self.index,
            content_block: self.content_block@,
        }
    }
}

/// The [`ContentBlockStartEvent`] that `j` holds, or why it holds none.
pub open spec fn decode_content_block_start_event(j: JsonV) -> Result<ContentBlockStartEventV, Seq<char>> {
    match j {
        JsonV::Object(o) => match req_usize(o, "index"@) {
            Err(e) => Err(e),
            Ok(index) => match req_value(o, "content_block"@) {
                Err(e) => Err(e),
                Ok(content_block) => Ok(
                    ContentBlockStartEventV { index, content_block },
                ),
            },
        },
        _ => Err(not_an_object()),
    }
}

/// `t` as JSON: absent members are left out, unknown ones come last.
pub open spec fn encode_content_block_start_event(t: ContentBlockStartEventV) -> JsonV {
    let o0 = Seq::<(Seq<char>, JsonV)>::empty();
    let o1 = obj_set(o0, "index"@, json_int(t.index as int));
    let o2 = obj_set(o1, "content_block"@, t.content_block);
    JsonV::Object(o2)
}

impl ContentBlockStartEvent {
    /// Reads a [`ContentBlockStartEvent`] from JSON.
    pub fn from_json(j: &Json) -> (r: Result<ContentBlockStartEvent, String>)
        ensures
            res(r) == decode_content_block_start_event(j@),
    {
        let o = match j.as_object() {
            Some(o) => o,
            None => {
                return Err("invalid type: expected an object".to_owned());
            },
        };
        let index = match get_usize(o, "index") {
            Ok(x) => x,
            Err(e) => {
                return Err(e);
            },
        };
        let content_block = match get_value(o, "content_block") {
            Ok(x) => x,
            Err(e) => {
                return Err(e);
            },
        };
        Ok(ContentBlockStartEvent { index, content_block })
    }

    /// Writes this value as JSON.
    pub fn to_json(&self) -> (r: Json)
        ensures
            r@ == encode_content_block_start_event(self@),
    {
        let mut o = JsonMap::new();
        o.set("index", Json::uint(self.index as u64));
        o.set("content_block", self.content_block.copy());
        Json::object(o)
    }
}

/// The `content_block_delta` event.
#[derive(Debug, PartialEq, Eq)]
pub struct ContentBlockDeltaEvent {
    /// Target block.
    pub index: usize,
    /// The delta.
    pub delta: Json,
}

/// The mathematical value of a [`ContentBlockDeltaEvent`].
pub struct ContentBlockDeltaEventV {
    pub index: usize,
    pub delta: JsonV,
}

impl View for ContentBlockDeltaEvent {
    type V = ContentBlockDeltaEventV;

    open spec fn view(&self) -> ContentBlockDeltaEventV {
        ContentBlockDeltaEventV {
            index: self.index,
            delta: self.delta@,
        }
    }
}

/// The [`ContentBlockDeltaEvent`] that `j` holds, or why it holds none.
pub open spec fn decode_content_block_delta_event(j: JsonV) -> Result<ContentBlockDeltaEventV, Seq<char>> {
    match j {
        JsonV::Object(o) => match req_usize(o, "index"@) {
            Err(e) => Err(e),
            Ok(index) => match req_value(o, "delta"@) {
                Err(e) => Err(e),
                Ok(delta) => Ok(
                    ContentBlockDeltaEventV { index, delta },
                ),
            },
        },
        _ => Err(not_an_object()),
    }
}

/// `t` as JSON: absent members are left out, unknown ones come last.
pub open spec fn encode_content_block_delta_event(t: ContentBlockDeltaEventV) -> JsonV {
    let o0 = Seq::<(Seq<char>, JsonV)>::empty();
    let o1 = obj_set(o0, "index"@, json_int(t.index as int));
    let o2 = obj_set(o1, "delta"@, t.delta);
    JsonV::Object(o2)
}

impl ContentBlockDeltaEvent {
    /// Reads a [`ContentBlockDeltaEvent`] from JSON.
    pub fn from_json(j: &Json) -> (r: Result<ContentBlockDeltaEvent, String>)
        ensures
            res(r) == decode_content_block_delta_event(j@),
    {
        let o = match j.as_object() {
            Some(o) => o,
            None => {
                return Err("invalid type: expected an object".to_owned());
            },
        };
        let index = match get_usize(o, "index") {
            Ok(x) => x,
            Err(e) => {
                return Err(e);
            },
        };
        let delta = match get_value(o, "delta") {
            Ok(x) => x,
            Err(e) => {
                return Err(e);
            },
        };
        Ok(ContentBlockDeltaEvent { index, delta })
    }

    /// Writes this value as JSON.
    pub fn to_json(&self) -> (r: Json)
        ensures
            r@ == encode_content_block_delta_event(self@),
    {
        let mut o = JsonMap::new();
        o.set("index", Json::uint(self.index as u64));
        o.set("delta", self.delta.copy());
        Json::object(o)
    }
}

/// The `content_block_stop` event.
#[derive(Debug, PartialEq, Eq)]
pub struct ContentBlockStopEvent {
    /// Completed block.
    pub index: usize,
}

/// The mathematical value of a [`ContentBlockStopEvent`].
pub struct ContentBlockStopEventV {
    pub index: usize,
}

impl View for ContentBlockStopEvent {
    type V = ContentBlockStopEventV;

    open spec fn view(&self) -> ContentBlockStopEventV {
        ContentBlockStopEventV {
            index: self.index,
        }
    }
}

/// The [`ContentBlockStopEvent`] that `j` holds, or why it holds none.
pub open spec fn decode_content_block_stop_event(j: JsonV) -> Result<ContentBlockStopEventV, Seq<char>> {
    match j {
        JsonV::Object(o) => match req_usize(o, "index"@) {
            Err(e) => Err(e),
            Ok(index) => Ok(
                ContentBlockStopEventV { index },
            ),
        },
        _ => Err(not_an_object()),
    }
}

/// `t` as JSON: absent members are left out, unknown ones come last.
pub open spec fn encode_content_block_stop_event(t: ContentBlockStopEventV) -> JsonV {
    let o0 = Seq::<(Seq<char>, JsonV)>::empty();
    let o1 = obj_set(o0, "index"@, json_int(t.index as int));
    JsonV::Object(o1)
}

impl ContentBlockStopEvent {
    /// Reads a [`ContentBlockStopEvent`] from JSON.
    pub fn from_json(j: &Json) -> (r: Result<ContentBlockStopEvent, String>)
        ensures
            res(r) == decode_content_block_stop_event(j@),
    {
        let o = match j.as_object() {
            Some(o) => o,
            None => {
                return Err("invalid type: expected an object".to_owned());
            },
        };
        let index = match get_usize(o, "index") {
            Ok(x) => x,
            Err(e) => {
                return Err(e);
            },
        };
        Ok(ContentBlockStopEvent { index })
    }

    /// Writes this value as JSON.
    pub fn to_json(&self) -> (r: Json)
        ensures
            r@ == encode_content_block_stop_event(self@),
    {
        let mut o = JsonMap::new();
        o.set("index", Json::uint(self.index as u64));
        Json::object(o)
    }
}

/// Top-level changes to the final message.
#[derive(Debug, PartialEq, Eq)]
pub struct MessageDeltaBody {
    /// Stop reason.
    pub stop_reason: Option<String>,
    /// Matched stop sequence.
    pub stop_sequence: Option<String>,
    /// Unknown fields.
    pub extra: JsonMap,
}

/// The mathematical value of a [`MessageDeltaBody`].
pub struct MessageDeltaBodyV {
    pub stop_reason: Option<Seq<char>>,
    pub stop_sequence: Option<Seq<char>>,
    pub extra: ObjV,
}

impl View for MessageDeltaBody {
    type V = MessageDeltaBodyV;

    open spec fn view(&self) -> MessageDeltaBodyV {
        MessageDeltaBodyV {
            stop_reason: opt_view(self.stop_reason),
            stop_sequence: opt_view(self.stop_sequence),
            extra: self.extra@,
        }
    }
}

/// The members that a [`MessageDeltaBody`] models.
pub open spec fn message_delta_body_keys() -> Seq<Seq<char>> {
    seq!["stop_reason"@, "stop_sequence"@]
}

/// The [`MessageDeltaBody`] that `j` holds, or why it holds none.
pub open spec fn decode_message_delta_body(j: JsonV) -> Result<MessageDeltaBodyV, Seq<char>> {
    match j {
        JsonV::Object(o) => match opt_str(o, "stop_reason"@) {
            Err(e) => Err(e),
            Ok(stop_reason) => match opt_str(o, "stop_sequence"@) {
                Err(e) => Err(e),
                Ok(stop_sequence) => Ok(
                    MessageDeltaBodyV { stop_reason, stop_sequence, extra: unknown(o, message_delta_body_keys()) },
                ),
            },
        },
        _ => Err(not_an_object()),
    }
}

/// `t` as JSON: absent members are left out, unknown ones come last.
pub open spec fn encode_message_delta_body(t: MessageDeltaBodyV) -> JsonV {
    let o0 = Seq::<(Seq<char>, JsonV)>::empty();
    let o1 = match t.stop_reason {
        Some(x) => obj_set(o0, "stop_reason"@, JsonV::Str(x)),
        None => o0,
    };
    let o2 = match t.stop_sequence {
        Some(x) => obj_set(o1, "stop_sequence"@, JsonV::Str(x)),
        None => o1,
    };
    JsonV::Object(extended(o2, t.extra))
}

impl MessageDeltaBody {
    /// Reads a [`MessageDeltaBody`] from JSON.
    pub fn from_json(j: &Json) -> (r: Result<MessageDeltaBody, String>)
        ensures
            res(r) == decode_message_delta_body(j@),
    {
        let o = match j.as_object() {
            Some(o) => o,
            None => {
                return Err("invalid type: expected an object".to_owned());
            },
        };
        let stop_reason = match get_opt_str(o, "stop_reason") {
            Ok(x) => x,
            Err(e) => {
                return Err(e);
            },
        };
        let stop_sequence = match get_opt_str(o, "stop_sequence") {
            Ok(x) => x,
            Err(e) => {
                return Err(e);
            },
        };
        let mut known: Vec<&str> = Vec::new();
        known.push("stop_reason");
        known.push("stop_sequence");
        proof {
            assert(views(known@) =~= message_delta_body_keys());
        }
        let extra = unknown_members(o, &known);
        Ok(MessageDeltaBody { stop_reason, stop_sequence, extra })
    }

    /// Writes this value as JSON.
    pub fn to_json(&self) -> (r: Json)
        ensures
            r@ == encode_message_delta_body(self@),
    {
        let mut o = JsonMap::new();
        if let Some(x) = &self.stop_reason {
            o.set("stop_reason", Json::Str(x.clone()));
        }
        if let Some(x) = &self.stop_sequence {
            o.set("stop_sequence", Json::Str(x.clone()));
        }
        extend_map(&mut o, &self.extra);
        Json::object(o)
    }
}

/// A required [`MessageDeltaBody`].
pub open spec fn req_message_delta_body(o: ObjV, k: Seq<char>) -> Result<MessageDeltaBodyV, Seq<char>> {
    match req_value(o, k) {
        Err(e) => Err(e),
        Ok(j) => decode_message_delta_body(j),
    }
}

fn get_message_delta_body(o: &JsonMap, k: &str) -> (r: Result<MessageDeltaBody, String>)
    ensures
        res(r) == req_message_delta_body(o@, k@),
{
    match get_value(o, k) {
        Err(e) => Err(e),
        Ok(j) => MessageDeltaBody::from_json(&j),
    }
}

/// The `message_delta` event.
#[derive(Debug, PartialEq, Eq)]
pub struct MessageDeltaEvent {
    /// Changes.
    pub delta: MessageDeltaBody,
    /// Cumulative usage.
    pub usage: Option<JsonMap>,
    /// Unknown fields.
    pub extra: JsonMap,
}

/// The mathematical value of a [`MessageDeltaEvent`].
pub struct MessageDeltaEventV {
    pub delta: MessageDeltaBodyV,
    pub usage: Option<ObjV>,
    pub extra: ObjV,
}

impl View for MessageDeltaEvent {
    type V = MessageDeltaEventV;

    open spec fn view(&self) -> MessageDeltaEventV {
        MessageDeltaEventV {
            delta: self.delta@,
            usage: opt_view(self.usage),
            extra: self.extra@,
        }
    }
}

/// The members that a [`MessageDeltaEvent`] models.
pub open spec fn message_delta_event_keys() -> Seq<Seq<char>> {
    seq!["delta"@, "usage"@]
}

/// The [`MessageDeltaEvent`] that `j` holds, or why it holds none.
pub open spec fn decode_message_delta_event(j: JsonV) -> Result<MessageDeltaEventV, Seq<char>> {
    match j {
        JsonV::Object(o) => match req_message_delta_body(o, "delta"@) {
            Err(e) => Err(e),
            Ok(delta) => match opt_object(o, "usage"@) {
                Err(e) => Err(e),
                Ok(usage) => Ok(
                    MessageDeltaEventV { delta, usage, extra: unknown(o, message_delta_event_keys()) },
                ),
            },
        },
        _ => Err(not_an_object()),
    }
}

/// `t` as JSON: absent members are left out, unknown ones come last.
pub open spec fn encode_message_delta_event(t: MessageDeltaEventV) -> JsonV {
    let o0 = Seq::<(Seq<char>, JsonV)>::empty();
    let o1 = obj_set(o0, "delta"@, encode_message_delta_body(t.delta));
    let o2 = match t.usage {
        Some(x) => obj_set(o1, "usage"@, JsonV::Object(x)),
        None => o1,
    };
    JsonV::Object(extended(o2, t.extra))
}

impl MessageDeltaEvent {
    /// Reads a [`MessageDeltaEvent`] from JSON.
    pub fn from_json(j: &Json) -> (r: Result<MessageDeltaEvent, String>)
        ensures
            res(r) == decode_message_delta_event(j@),
    {
        let o = match j.as_object() {
            Some(o) => o,
            None => {
                return Err("invalid type: expected an object".to_owned());
            },
        };
        let delta = match get_message_delta_body(o, "delta") {
            Ok(x) => x,
            Err(e) => {
                return Err(e);
            },
        };
        let usage = match get_opt_object(o, "usage") {
            Ok(x) => x,
            Err(e) => {
                return Err(e);
            },
        };
        let mut known: Vec<&str> = Vec::new();
        known.push("delta");
        known.push("usage");
        proof {
            assert(views(known@) =~= message_delta_event_keys());
        }
        let extra = unknown_members(o, &known);
        Ok(MessageDeltaEvent { delta, usage, extra })
    }

    /// Writes this value as JSON.
    pub fn to_json(&self) -> (r: Json)
        ensures
            r@ == encode_message_delta_event(self@),
    {
        let mut o = JsonMap::new();
        o.set("delta", self.delta.to_json());
        if let Some(x) = &self.usage {
            o.set("usage", Json::object(x.copy()));
        }
        extend_map(&mut o, &self.extra);
        Json::object(o)
    }
}

/// The error object.
#[derive(Debug, PartialEq, Eq)]
pub struct ErrorBody {
    /// Error type.
    pub kind: Option<String>,
    /// Message.
    pub message: Option<String>,
    /// Unknown fields.
    pub extra: JsonMap,
}

/// The mathematical value of a [`ErrorBody`].
pub struct ErrorBodyV {
    pub kind: Option<Seq<char>>,
    pub message: Option<Seq<char>>,
    pub extra: ObjV,
}

impl View for ErrorBody {
    type V = ErrorBodyV;

    open spec fn view(&self) -> ErrorBodyV {
        ErrorBodyV {
            kind: opt_view(self.kind),
            message: opt_view(self.message),
            extra: self.extra@,
        }
    }
}

/// The members that a [`ErrorBody`] models.
pub open spec fn error_body_keys() -> Seq<Seq<char>> {
    seq!["type"@, "message"@]
}

/// The [`ErrorBody`] that `j` holds, or why it holds none.
pub open spec fn decode_error_body(j: JsonV) -> Result<ErrorBodyV, Seq<char>> {
    match j {
        JsonV::Object(o) => match opt_str(o, "type"@) {
            Err(e) => Err(e),
            Ok(kind) => match opt_str(o, "message"@) {
                Err(e) => Err(e),
                Ok(message) => Ok(
                    ErrorBodyV { kind, message, extra: unknown(o, error_body_keys()) },
                ),
            },
        },
        _ => Err(not_an_object()),
    }
}

/// `t` as JSON: absent members are left out, unknown ones come last.
pub open spec fn encode_error_body(t: ErrorBodyV) -> JsonV {
    let o0 = Seq::<(Seq<char>, JsonV)>::empty();
    let o1 = match t.kind {
        Some(x) => obj_set(o0, "type"@, JsonV::Str(x)),
        None => o0,
    };
    let o2 = match t.message {
        Some(x) => obj_set(o1, "message"@, JsonV::Str(x)),
        None => o1,
    };
    JsonV::Object(extended(o2, t.extra))
}

impl ErrorBody {
    /// Reads a [`ErrorBody`] from JSON.
    pub fn from_json(j: &Json) -> (r: Result<ErrorBody, String>)
        ensures
            res(r) == decode_error_body(j@),
    {
        let o = match j.as_object() {
            Some(o) => o,
            None => {
                return Err("invalid type: expected an object".to_owned());
            },
        };
        let kind = match get_opt_str(o, "type") {
            Ok(x) => x,
            Err(e) => {
                return Err(e);
            },
        };
        let message = match get_opt_str(o, "message") {
            Ok(x) => x,
            Err(e) => {
                return Err(e);
            },
        };
        let mut known: Vec<&str> = Vec::new();
        known.push("type");
        known.push("message");
        proof {
            assert(views(known@) =~= error_body_keys());
        }
        let extra = unknown_members(o, &known);
        Ok(ErrorBody { kind, message, extra })
    }

    /// Writes this value as JSON.
    pub fn to_json(&self) -> (r: Json)
        ensures
            r@ == encode_error_body(self@),
    {
        let mut o = JsonMap::new();
        if let Some(x) = &self.kind {
            o.set("type", Json::Str(x.clone()));
        }
        if let Some(x) = &self.message {
            o.set("message", Json::Str(x.clone()));
        }
        extend_map(&mut o, &self.extra);
        Json::object(o)
    }
}

/// A required [`ErrorBody`].
pub open spec fn req_error_body(o: ObjV, k: Seq<char>) -> Result<ErrorBodyV, Seq<char>> {
    match req_value(o, k) {
        Err(e) => Err(e),
        Ok(j) => decode_error_body(j),
    }
}

fn get_error_body(o: &JsonMap, k: &str) -> (r: Result<ErrorBody, String>)
    ensures
        res(r) == req_error_body(o@, k@),
{
    match get_value(o, k) {
        Err(e) => Err(e),
        Ok(j) => ErrorBody::from_json(&j),
    }
}

/// The error envelope.
#[derive(Debug, PartialEq, Eq)]
pub struct ErrorEnvelope {
    /// The error.
    pub error: ErrorBody,
    /// Unknown fields.
    pub extra: JsonMap,
}

/// The mathematical value of a [`ErrorEnvelope`].
pub struct ErrorEnvelopeV {
    pub error: ErrorBodyV,
    pub extra: ObjV,
}

impl View for ErrorEnvelope {
    type V = ErrorEnvelopeV;

    open spec fn view(&self) -> ErrorEnvelopeV {
        ErrorEnvelopeV {
            error: self.error@,
            extra: self.extra@,
        }
    }
}

/// The members that a [`ErrorEnvelope`] models.
pub open spec fn error_envelope_keys() -> Seq<Seq<char>> {
    seq!["error"@]
}

/// The [`ErrorEnvelope`] that `j` holds, or why it holds none.
pub open spec fn decode_error_envelope(j: JsonV) -> Result<ErrorEnvelopeV, Seq<char>> {
    match j {
        JsonV::Object(o) => match req_error_body(o, "error"@) {
            Err(e) => Err(e),
            Ok(error) => Ok(
                ErrorEnvelopeV { error, extra: unknown(o, error_envelope_keys()) },
            ),
        },
        _ => Err(not_an_object()),
    }
}

/// `t` as JSON: absent members are left out, unknown ones come last.
pub open spec fn encode_error_envelope(t: ErrorEnvelopeV) -> JsonV {
    let o0 = Seq::<(Seq<char>, JsonV)>::empty();
    let o1 = obj_set(o0, "error"@, encode_error_body(t.error));
    JsonV::Object(extended(o1, t.extra))
}

impl ErrorEnvelope {
    /// Reads a [`ErrorEnvelope`] from JSON.
    pub fn from_json(j: &Json) -> (r: Result<ErrorEnvelope, String>)
        ensures
            res(r) == decode_error_envelope(j@),
    {
        let o = match j.as_object() {
            Some(o) => o,
            None => {
                return Err("invalid type: expected an object".to_owned());
            },
        };
        let error = match get_error_body(o, "error") {
            Ok(x) => x,
            Err(e) => {
                return Err(e);
            },
        };
        let mut known: Vec<&str> = Vec::new();
        known.push("error");
        proof {
            assert(views(known@) =~= error_envelope_keys());
        }
        let extra = unknown_members(o, &known);
        Ok(ErrorEnvelope { error, extra })
    }

    /// Writes this value as JSON.
    pub fn to_json(&self) -> (r: Json)
        ensures
            r@ == encode_error_envelope(self@),
    {
        let mut o = JsonMap::new();
        o.set("error", self.error.to_json());
        extend_map(&mut o, &self.extra);
        Json::object(o)
    }
}

/// One page of the model list.
#[derive(Debug, PartialEq, Eq)]
pub struct ModelsPage {
    /// Model entries.
    pub data: Vec<Json>,
    /// First id.
    pub first_id: Option<String>,
    /// Last id, the cursor of the next page.
    pub last_id: Option<String>,
    /// More pages follow.
    pub has_more: Option<bool>,
    /// Unknown fields.
    pub extra: JsonMap,
}

/// The mathematical value of a [`ModelsPage`].
pub struct ModelsPageV {
    pub data: Seq<JsonV>,
    pub first_id: Option<Seq<char>>,
    pub last_id: Option<Seq<char>>,
    pub has_more: Option<bool>,
    pub extra: ObjV,
}

impl View for ModelsPage {
    type V = ModelsPageV;

    open spec fn view(&self) -> ModelsPageV {
        ModelsPageV {
            data: views(self.data@),
            first_id: opt_view(self.first_id),
            last_id: opt_view(self.last_id),
            has_more: self.has_more,
            extra: self.extra@,
        }
    }
}

/// The members that a [`ModelsPage`] models.
pub open spec fn models_page_keys() -> Seq<Seq<char>> {
    seq!["data"@, "first_id"@, "last_id"@, "has_more"@]
}

/// The [`ModelsPage`] that `j` holds, or why it holds none.
pub open spec fn decode_models_page(j: JsonV) -> Result<ModelsPageV, Seq<char>> {
    match j {
        JsonV::Object(o) => match default_values(o, "data"@) {
            Err(e) => Err(e),
            Ok(data) => match opt_str(o, "first_id"@) {
                Err(e) => Err(e),
                Ok(first_id) => match opt_str(o, "last_id"@) {
                    Err(e) => Err(e),
                    Ok(last_id) => match opt_bool(o, "has_more"@) {
                        Err(e) => Err(e),
                        Ok(has_more) => Ok(
                            ModelsPageV { data, first_id, last_id, has_more, extra: unknown(o, models_page_keys()) },
                        ),
                    },
                },
            },
        },
        _ => Err(not_an_object()),
    }
}

/// `t` as JSON: absent members are left out, unknown ones come last.
pub open spec fn encode_models_page(t: ModelsPageV) -> JsonV {
    let o0 = Seq::<(Seq<char>, JsonV)>::empty();
    let o1 = obj_set(o0, "data"@, JsonV::Array(t.data));
    let o2 = match t.first_id {
        Some(x) => obj_set(o1, "first_id"@, JsonV::Str(x)),
        None => o1,
    };
    let o3 = match t.last_id {
        Some(x) => obj_set(o2, "last_id"@, JsonV::Str(x)),
        None => o2,
    };
    let o4 = match t.has_more {
        Some(x) => obj_set(o3, "has_more"@, JsonV::Bool(x)),
        None => o3,
    };
    JsonV::Object(extended(o4, t.extra))
}

impl ModelsPage {
    /// Reads a [`ModelsPage`] from JSON.
    pub fn from_json(j: &Json) -> (r: Result<ModelsPage, String>)
        ensures
            res(r) == decode_models_page(j@),
    {
        let o = match j.as_object() {
            Some(o) => o,
            None => {
                return Err("invalid type: expected an object".to_owned());
            },
        };
        let data = match get_default_values(o, "data") {
            Ok(x) => x,
            Err(e) => {
                return Err(e);
            },
        };
        let first_id = match get_opt_str(o, "first_id") {
            Ok(x) => x,
            Err(e) => {
                return Err(e);
            },
        };
        let last_id = match get_opt_str(o, "last_id") {
            Ok(x) => x,
            Err(e) => {
                return Err(e);
            },
        };
        let has_more = match get_opt_bool(o, "has_more") {
            Ok(x) => x,
            Err(e) => {
                return Err(e);
            },
        };
        let mut known: Vec<&str> = Vec::new();
        known.push("data");
        known.push("first_id");
        known.push("last_id");
        known.push("has_more");
        proof {
            assert(views(known@) =~= models_page_keys());
        }
        let extra = unknown_members(o, &known);
        Ok(ModelsPage { data, first_id, last_id, has_more, extra })
    }

    /// Writes this value as JSON.
    pub fn to_json(&self) -> (r: Json)
        ensures
            r@ == encode_models_page(self@),
    {
        let mut o = JsonMap::new();
        o.set("data", Json::array(dup_vec(&self.data)));
        if let Some(x) = &self.first_id {
            o.set("first_id", Json::Str(x.clone()));
        }
        if let Some(x) = &self.last_id {
            o.set("last_id", Json::Str(x.clone()));
        }
        if let Some(x) = &self.has_more {
            o.set("has_more", Json::Bool(*x));
        }
        extend_map(&mut o, &self.extra);
        Json::object(o)
    }
}

/// The token-count response.
#[derive(Debug, PartialEq, Eq)]
pub struct CountTokensResponse {
    /// Input tokens.
    pub input_tokens: u64,
    /// Unknown fields.
    pub extra: JsonMap,
}

/// The mathematical value of a [`CountTokensResponse`].
pub struct CountTokensResponseV {
    pub input_tokens: u64,
    pub extra: ObjV,
}

impl View for CountTokensResponse {
    type V = CountTokensResponseV;

    open spec fn view(&self) -> CountTokensResponseV {
        CountTokensResponseV {
            input_tokens: self.input_tokens,
            extra: self.extra@,
        }
    }
}

/// The members that a [`CountTokensResponse`] models.
pub open spec fn count_tokens_response_keys() -> Seq<Seq<char>> {
    seq!["input_tokens"@]
}

/// The [`CountTokensResponse`] that `j` holds, or why it holds none.
pub open spec fn decode_count_tokens_response(j: JsonV) -> Result<CountTokensResponseV, Seq<char>> {
    match j {
        JsonV::Object(o) => match default_u64(o, "input_tokens"@) {
            Err(e) => Err(e),
            Ok(input_tokens) => Ok(
                CountTokensResponseV { input_tokens, extra: unknown(o, count_tokens_response_keys()) },
            ),
        },
        _ => Err(not_an_object()),
    }
}

/// `t` as JSON: absent members are left out, unknown ones come last.
pub open spec fn encode_count_tokens_response(t: CountTokensResponseV) -> JsonV {
    let o0 = Seq::<(Seq<char>, JsonV)>::empty();
    let o1 = obj_set(o0, "input_tokens"@, json_int(t.input_tokens as int));
    JsonV::Object(extended(o1, t.extra))
}

impl CountTokensResponse {
    /// Reads a [`CountTokensResponse`] from JSON.
    pub fn from_json(j: &Json) -> (r: Result<CountTokensResponse, String>)
        ensures
            res(r) == decode_count_tokens_response(j@),
    {
        let o = match j.as_object() {
            Some(o) => o,
            None => {
                return Err("invalid type: expected an object".to_owned());
            },
        };
        let input_tokens = match get_default_u64(o, "input_tokens") {
            Ok(x) => x,
            Err(e) => {
                return Err(e);
            },
        };
        let mut known: Vec<&str> = Vec::new();
        known.push("input_tokens");
        proof {
            assert(views(known@) =~= count_tokens_response_keys());
        }
        let extra = unknown_members(o, &known);
        Ok(CountTokensResponse { input_tokens, extra })
    }

    /// Writes this value as JSON.
    pub fn to_json(&self) -> (r: Json)
        ensures
            r@ == encode_count_tokens_response(self@),
    {
        let mut o = JsonMap::new();
        o.set("input_tokens", Json::uint(self.input_tokens));
        extend_map(&mut o, &self.extra);
        Json::object(o)
    }
}

} // verus!
