//! Wire types of the OpenAI Chat Completions API. Every object keeps the
//! fields it does not model.

use vstd::prelude::*;
use crate::decode::{default_values, extend_map, extended, get_default_values, get_opt_bool, get_opt_float, get_opt_i64, get_opt_object, get_opt_str, get_opt_u32, get_opt_u64, get_opt_value, get_opt_values, get_str, get_value, not_an_object, opt_bool, opt_float, opt_i64, opt_object, opt_str, opt_u32, opt_u64, opt_value, opt_values, req_str, req_value, res, res_opt, unknown, unknown_members};
use crate::json::{json_int, obj_get, obj_set, Json, JsonMap, JsonV, Num, NumV, ObjV};
use crate::model::{dup_vec, group_views, opt_view, opt_views, views};

verus! {

broadcast use group_views;

/// The URL of an image.
#[derive(Debug, PartialEq, Eq)]
pub struct ImageUrl {
    /// Plain or `data:` URL.
    pub url: String,
    /// Unknown fields.
    pub extra: JsonMap,
}

/// The mathematical value of a [`ImageUrl`].
pub struct ImageUrlV {
    pub url: Seq<char>,
    pub extra: ObjV,
}

impl View for ImageUrl {
    type V = ImageUrlV;

    open spec fn view(&self) -> ImageUrlV {
        ImageUrlV {
            url: self.url@,
            extra: self.extra@,
        }
    }
}

/// The members that a [`ImageUrl`] models.
pub open spec fn image_url_keys() -> Seq<Seq<char>> {
    seq!["url"@]
}

/// The [`ImageUrl`] that `j` holds, or why it holds none.
pub open spec fn decode_image_url(j: JsonV) -> Result<ImageUrlV, Seq<char>> {
    match j {
        JsonV::Object(o) => match req_str(o, "url"@) {
            Err(e) => Err(e),
            Ok(url) => Ok(
                ImageUrlV { url, extra: unknown(o, image_url_keys()) },
            ),
        },
        _ => Err(not_an_object()),
    }
}

/// `t` as JSON: absent members are left out, unknown ones come last.
pub open spec fn encode_image_url(t: ImageUrlV) -> JsonV {
    let o0 = Seq::<(Seq<char>, JsonV)>::empty();
    let o1 = obj_set(o0, "url"@, JsonV::Str(t.url));
    JsonV::Object(extended(o1, t.extra))
}

impl ImageUrl {
    /// Reads a [`ImageUrl`] from JSON.
    pub fn from_json(j: &Json) -> (r: Result<ImageUrl, String>)
        ensures
            res(r) == decode_image_url(j@),
    {
        let o = match j.as_object() {
            Some(o) => o,
            None => {
                return Err("invalid type: expected an object".to_owned());
            },
        };
        let url = match get_str(o, "url") {
            Ok(x) => x,
            Err(e) => {
                return Err(e);
            },
        };
        let mut known: Vec<&str> = Vec::new();
        known.push("url");
        proof {
            assert(views(known@) =~= image_url_keys());
        }
        let extra = unknown_members(o, &known);
        Ok(ImageUrl { url, extra })
    }

    /// Writes this value as JSON.
    pub fn to_json(&self) -> (r: Json)
        ensures
            r@ == encode_image_url(self@),
    {
        let mut o = JsonMap::new();
        o.set("url", Json::Str(self.url.clone()));
        extend_map(&mut o, &self.extra);
        Json::object(o)
    }
}

/// A required [`ImageUrl`].
pub open spec fn req_image_url(o: ObjV, k: Seq<char>) -> Result<ImageUrlV, Seq<char>> {
    match req_value(o, k) {
        Err(e) => Err(e),
        Ok(j) => decode_image_url(j),
    }
}

fn get_image_url(o: &JsonMap, k: &str) -> (r: Result<ImageUrl, String>)
    ensures
        res(r) == req_image_url(o@, k@),
{
    match get_value(o, k) {
        Err(e) => Err(e),
        Ok(j) => ImageUrl::from_json(&j),
    }
}

/// A text content part.
#[derive(Debug, PartialEq, Eq)]
pub struct TextPart {
    /// Part type.
    pub part_type: Option<String>,
    /// The text.
    pub text: String,
    /// Cache breakpoint.
    pub prompt_cache_breakpoint: Option<Json>,
    /// Unknown fields.
    pub extra: JsonMap,
}

/// The mathematical value of a [`TextPart`].
pub struct TextPartV {
    pub part_type: Option<Seq<char>>,
    pub text: Seq<char>,
    pub prompt_cache_breakpoint: Option<JsonV>,
    pub extra: ObjV,
}

impl View for TextPart {
    type V = TextPartV;

    open spec fn view(&self) -> TextPartV {
        TextPartV {
            part_type: opt_view(self.part_type),
            text: self.text@,
            prompt_cache_breakpoint: opt_view(self.prompt_cache_breakpoint),
            extra: self.extra@,
        }
    }
}

/// The members that a [`TextPart`] models.
pub open spec fn text_part_keys() -> Seq<Seq<char>> {
    seq!["type"@, "text"@, "prompt_cache_breakpoint"@]
}

/// The [`TextPart`] that `j` holds, or why it holds none.
pub open spec fn decode_text_part(j: JsonV) -> Result<TextPartV, Seq<char>> {
    match j {
        JsonV::Object(o) => match opt_str(o, "type"@) {
            Err(e) => Err(e),
            Ok(part_type) => match req_str(o, "text"@) {
                Err(e) => Err(e),
                Ok(text) => match opt_value(o, "prompt_cache_breakpoint"@) {
                    Err(e) => Err(e),
                    Ok(prompt_cache_breakpoint) => Ok(
                        TextPartV { part_type, text, prompt_cache_breakpoint, extra: unknown(o, text_part_keys()) },
                    ),
                },
            },
        },
        _ => Err(not_an_object()),
    }
}

/// `t` as JSON: absent members are left out, unknown ones come last.
pub open spec fn encode_text_part(t: TextPartV) -> JsonV {
    let o0 = Seq::<(Seq<char>, JsonV)>::empty();
    let o1 = match t.part_type {
        Some(x) => obj_set(o0, "type"@, JsonV::Str(x)),
        None => o0,
    };
    let o2 = obj_set(o1, "text"@, JsonV::Str(t.text));
    let o3 = match t.prompt_cache_breakpoint {
        Some(x) => obj_set(o2, "prompt_cache_breakpoint"@, x),
        None => o2,
    };
    JsonV::Object(extended(o3, t.extra))
}

impl TextPart {
    /// Reads a [`TextPart`] from JSON.
    pub fn from_json(j: &Json) -> (r: Result<TextPart, String>)
        ensures
            res(r) == decode_text_part(j@),
    {
        let o = match j.as_object() {
            Some(o) => o,
            None => {
                return Err("invalid type: expected an object".to_owned());
            },
        };
        let part_type = match get_opt_str(o, "type") {
            Ok(x) => x,
            Err(e) => {
                return Err(e);
            },
        };
        let text = match get_str(o, "text") {
            Ok(x) => x,
            Err(e) => {
                return Err(e);
            },
        };
        let prompt_cache_breakpoint = match get_opt_value(o, "prompt_cache_breakpoint") {
            Ok(x) => x,
            Err(e) => {
                return Err(e);
            },
        };
        let mut known: Vec<&str> = Vec::new();
        known.push("type");
        known.push("text");
        known.push("prompt_cache_breakpoint");
        proof {
            assert(views(known@) =~= text_part_keys());
        }
        let extra = unknown_members(o, &known);
        Ok(TextPart { part_type, text, prompt_cache_breakpoint, extra })
    }

    /// Writes this value as JSON.
    pub fn to_json(&self) -> (r: Json)
        ensures
            r@ == encode_text_part(self@),
    {
        let mut o = JsonMap::new();
        if let Some(x) = &self.part_type {
            o.set("type", Json::Str(x.clone()));
        }
        o.set("text", Json::Str(self.text.clone()));
        if let Some(x) = &self.prompt_cache_breakpoint {
            o.set("prompt_cache_breakpoint", x.copy());
        }
        extend_map(&mut o, &self.extra);
        Json::object(o)
    }
}

/// An image content part.
#[derive(Debug, PartialEq, Eq)]
pub struct ImagePart {
    /// Part type.
    pub part_type: Option<String>,
    /// The image.
    pub image_url: ImageUrl,
    /// Cache breakpoint.
    pub prompt_cache_breakpoint: Option<Json>,
    /// Unknown fields.
    pub extra: JsonMap,
}

/// The mathematical value of a [`ImagePart`].
pub struct ImagePartV {
    pub part_type: Option<Seq<char>>,
    pub image_url: ImageUrlV,
    pub prompt_cache_breakpoint: Option<JsonV>,
    pub extra: ObjV,
}

impl View for ImagePart {
    type V = ImagePartV;

    open spec fn view(&self) -> ImagePartV {
        ImagePartV {
            part_type: opt_view(self.part_type),
            image_url: self.image_url@,
            prompt_cache_breakpoint: opt_view(self.prompt_cache_breakpoint),
            extra: self.extra@,
        }
    }
}

/// The members that a [`ImagePart`] models.
pub open spec fn image_part_keys() -> Seq<Seq<char>> {
    seq!["type"@, "image_url"@, "prompt_cache_breakpoint"@]
}

/// The [`ImagePart`] that `j` holds, or why it holds none.
pub open spec fn decode_image_part(j: JsonV) -> Result<ImagePartV, Seq<char>> {
    match j {
        JsonV::Object(o) => match opt_str(o, "type"@) {
            Err(e) => Err(e),
            Ok(part_type) => match req_image_url(o, "image_url"@) {
                Err(e) => Err(e),
                Ok(image_url) => match opt_value(o, "prompt_cache_breakpoint"@) {
                    Err(e) => Err(e),
                    Ok(prompt_cache_breakpoint) => Ok(
                        ImagePartV { part_type, image_url, prompt_cache_breakpoint, extra: unknown(o, image_part_keys()) },
                    ),
                },
            },
        },
        _ => Err(not_an_object()),
    }
}

/// `t` as JSON: absent members are left out, unknown ones come last.
pub open spec fn encode_image_part(t: ImagePartV) -> JsonV {
    let o0 = Seq::<(Seq<char>, JsonV)>::empty();
    let o1 = match t.part_type {
        Some(x) => obj_set(o0, "type"@, JsonV::Str(x)),
        None => o0,
    };
    let o2 = obj_set(o1, "image_url"@, encode_image_url(t.image_url));
    let o3 = match t.prompt_cache_breakpoint {
        Some(x) => obj_set(o2, "prompt_cache_breakpoint"@, x),
        None => o2,
    };
    JsonV::Object(extended(o3, t.extra))
}

impl ImagePart {
    /// Reads a [`ImagePart`] from JSON.
    pub fn from_json(j: &Json) -> (r: Result<ImagePart, String>)
        ensures
            res(r) == decode_image_part(j@),
    {
        let o = match j.as_object() {
            Some(o) => o,
            None => {
                return Err("invalid type: expected an object".to_owned());
            },
        };
        let part_type = match get_opt_str(o, "type") {
            Ok(x) => x,
            Err(e) => {
                return Err(e);
            },
        };
        let image_url = match get_image_url(o, "image_url") {
            Ok(x) => x,
            Err(e) => {
                return Err(e);
            },
        };
        let prompt_cache_breakpoint = match get_opt_value(o, "prompt_cache_breakpoint") {
            Ok(x) => x,
            Err(e) => {
                return Err(e);
            },
        };
        let mut known: Vec<&str> = Vec::new();
        known.push("type");
        known.push("image_url");
        known.push("prompt_cache_breakpoint");
        proof {
            assert(views(known@) =~= image_part_keys());
        }
        let extra = unknown_members(o, &known);
        Ok(ImagePart { part_type, image_url, prompt_cache_breakpoint, extra })
    }

    /// Writes this value as JSON.
    pub fn to_json(&self) -> (r: Json)
        ensures
            r@ == encode_image_part(self@),
    {
        let mut o = JsonMap::new();
        if let Some(x) = &self.part_type {
            o.set("type", Json::Str(x.clone()));
        }
        o.set("image_url", self.image_url.to_json());
        if let Some(x) = &self.prompt_cache_breakpoint {
            o.set("prompt_cache_breakpoint", x.copy());
        }
        extend_map(&mut o, &self.extra);
        Json::object(o)
    }
}

/// A refusal content part.
#[derive(Debug, PartialEq, Eq)]
pub struct RefusalPart {
    /// Part type.
    pub part_type: Option<String>,
    /// The refusal.
    pub refusal: String,
    /// Unknown fields.
    pub extra: JsonMap,
}

/// The mathematical value of a [`RefusalPart`].
pub struct RefusalPartV {
    pub part_type: Option<Seq<char>>,
    pub refusal: Seq<char>,
    pub extra: ObjV,
}

impl View for RefusalPart {
    type V = RefusalPartV;

    open spec fn view(&self) -> RefusalPartV {
        RefusalPartV {
            part_type: opt_view(self.part_type),
            refusal: self.refusal@,
            extra: self.extra@,
        }
    }
}

/// The members that a [`RefusalPart`] models.
pub open spec fn refusal_part_keys() -> Seq<Seq<char>> {
    seq!["type"@, "refusal"@]
}

/// The [`RefusalPart`] that `j` holds, or why it holds none.
pub open spec fn decode_refusal_part(j: JsonV) -> Result<RefusalPartV, Seq<char>> {
    match j {
        JsonV::Object(o) => match opt_str(o, "type"@) {
            Err(e) => Err(e),
            Ok(part_type) => match req_str(o, "refusal"@) {
                Err(e) => Err(e),
                Ok(refusal) => Ok(
                    RefusalPartV { part_type, refusal, extra: unknown(o, refusal_part_keys()) },
                ),
            },
        },
        _ => Err(not_an_object()),
    }
}

/// `t` as JSON: absent members are left out, unknown ones come last.
pub open spec fn encode_refusal_part(t: RefusalPartV) -> JsonV {
    let o0 = Seq::<(Seq<char>, JsonV)>::empty();
    let o1 = match t.part_type {
        Some(x) => obj_set(o0, "type"@, JsonV::Str(x)),
        None => o0,
    };
    let o2 = obj_set(o1, "refusal"@, JsonV::Str(t.refusal));
    JsonV::Object(extended(o2, t.extra))
}

impl RefusalPart {
    /// Reads a [`RefusalPart`] from JSON.
    pub fn from_json(j: &Json) -> (r: Result<RefusalPart, String>)
        ensures
            res(r) == decode_refusal_part(j@),
    {
        let o = match j.as_object() {
            Some(o) => o,
            None => {
                return Err("invalid type: expected an object".to_owned());
            },
        };
        let part_type = match get_opt_str(o, "type") {
            Ok(x) => x,
            Err(e) => {
                return Err(e);
            },
        };
        let refusal = match get_str(o, "refusal") {
            Ok(x) => x,
            Err(e) => {
                return Err(e);
            },
        };
        let mut known: Vec<&str> = Vec::new();
        known.push("type");
        known.push("refusal");
        proof {
            assert(views(known@) =~= refusal_part_keys());
        }
        let extra = unknown_members(o, &known);
        Ok(RefusalPart { part_type, refusal, extra })
    }

    /// Writes this value as JSON.
    pub fn to_json(&self) -> (r: Json)
        ensures
            r@ == encode_refusal_part(self@),
    {
        let mut o = JsonMap::new();
        if let Some(x) = &self.part_type {
            o.set("type", Json::Str(x.clone()));
        }
        o.set("refusal", Json::Str(self.refusal.clone()));
        extend_map(&mut o, &self.extra);
        Json::object(o)
    }
}

/// The payload of a function call.
#[derive(Debug, PartialEq, Eq)]
pub struct FunctionCallPayload {
    /// Function name.
    pub name: Option<String>,
    /// Arguments, as JSON text.
    pub arguments: Option<String>,
    /// Unknown fields.
    pub extra: JsonMap,
}

/// The mathematical value of a [`FunctionCallPayload`].
pub struct FunctionCallPayloadV {
    pub name: Option<Seq<char>>,
    pub arguments: Option<Seq<char>>,
    pub extra: ObjV,
}

impl View for FunctionCallPayload {
    type V = FunctionCallPayloadV;

    open spec fn view(&self) -> FunctionCallPayloadV {
        FunctionCallPayloadV {
            name: opt_view(self.name),
            arguments: opt_view(self.arguments),
            extra: self.extra@,
        }
    }
}

/// The members that a [`FunctionCallPayload`] models.
pub open spec fn function_call_payload_keys() -> Seq<Seq<char>> {
    seq!["name"@, "arguments"@]
}

/// The [`FunctionCallPayload`] that `j` holds, or why it holds none.
pub open spec fn decode_function_call_payload(j: JsonV) -> Result<FunctionCallPayloadV, Seq<char>> {
    match j {
        JsonV::Object(o) => match opt_str(o, "name"@) {
            Err(e) => Err(e),
            Ok(name) => match opt_str(o, "arguments"@) {
                Err(e) => Err(e),
                Ok(arguments) => Ok(
                    FunctionCallPayloadV { name, arguments, extra: unknown(o, function_call_payload_keys()) },
                ),
            },
        },
        _ => Err(not_an_object()),
    }
}

/// `t` as JSON: absent members are left out, unknown ones come last.
pub open spec fn encode_function_call_payload(t: FunctionCallPayloadV) -> JsonV {
    let o0 = Seq::<(Seq<char>, JsonV)>::empty();
    let o1 = match t.name {
        Some(x) => obj_set(o0, "name"@, JsonV::Str(x)),
        None => o0,
    };
    let o2 = match t.arguments {
        Some(x) => obj_set(o1, "arguments"@, JsonV::Str(x)),
        None => o1,
    };
    JsonV::Object(extended(o2, t.extra))
}

impl FunctionCallPayload {
    /// Reads a [`FunctionCallPayload`] from JSON.
    pub fn from_json(j: &Json) -> (r: Result<FunctionCallPayload, String>)
        ensures
            res(r) == decode_function_call_payload(j@),
    {
        let o = match j.as_object() {
            Some(o) => o,
            None => {
                return Err("invalid type: expected an object".to_owned());
            },
        };
        let name = match get_opt_str(o, "name") {
            Ok(x) => x,
            Err(e) => {
                return Err(e);
            },
        };
        let arguments = match get_opt_str(o, "arguments") {
            Ok(x) => x,
            Err(e) => {
                return Err(e);
            },
        };
        let mut known: Vec<&str> = Vec::new();
        known.push("name");
        known.push("arguments");
        proof {
            assert(views(known@) =~= function_call_payload_keys());
        }
        let extra = unknown_members(o, &known);
        Ok(FunctionCallPayload { name, arguments, extra })
    }

    /// Writes this value as JSON.
    pub fn to_json(&self) -> (r: Json)
        ensures
            r@ == encode_function_call_payload(self@),
    {
        let mut o = JsonMap::new();
        if let Some(x) = &self.name {
            o.set("name", Json::Str(x.clone()));
        }
        if let Some(x) = &self.arguments {
            o.set("arguments", Json::Str(x.clone()));
        }
        extend_map(&mut o, &self.extra);
        Json::object(o)
    }
}

/// An optional [`FunctionCallPayload`].
pub open spec fn opt_function_call_payload(o: ObjV, k: Seq<char>) -> Result<Option<FunctionCallPayloadV>, Seq<char>> {
    match obj_get(o, k) {
        None | Some(JsonV::Null) => Ok(None),
        Some(j) => match decode_function_call_payload(j) {
            Ok(x) => Ok(Some(x)),
            Err(e) => Err(e),
        },
    }
}

fn get_opt_function_call_payload(o: &JsonMap, k: &str) -> (r: Result<Option<FunctionCallPayload>, String>)
    ensures
        res_opt(r) == opt_function_call_payload(o@, k@),
{
    match o.get(k) {
        None | Some(Json::Null) => Ok(None),
        Some(j) => match FunctionCallPayload::from_json(j) {
            Ok(x) => Ok(Some(x)),
            Err(e) => Err(e),
        },
    }
}

/// The payload of a custom call.
#[derive(Debug, PartialEq, Eq)]
pub struct CustomCallPayload {
    /// Tool name.
    pub name: Option<String>,
    /// Free-form input.
    pub input: Option<String>,
    /// Unknown fields.
    pub extra: JsonMap,
}

/// The mathematical value of a [`CustomCallPayload`].
pub struct CustomCallPayloadV {
    pub name: Option<Seq<char>>,
    pub input: Option<Seq<char>>,
    pub extra: ObjV,
}

impl View for CustomCallPayload {
    type V = CustomCallPayloadV;

    open spec fn view(&self) -> CustomCallPayloadV {
        CustomCallPayloadV {
            name: opt_view(self.name),
            input: opt_view(self.input),
            extra: self.extra@,
        }
    }
}

/// The members that a [`CustomCallPayload`] models.
pub open spec fn custom_call_payload_keys() -> Seq<Seq<char>> {
    seq!["name"@, "input"@]
}

/// The [`CustomCallPayload`] that `j` holds, or why it holds none.
pub open spec fn decode_custom_call_payload(j: JsonV) -> Result<CustomCallPayloadV, Seq<char>> {
    match j {
        JsonV::Object(o) => match opt_str(o, "name"@) {
            Err(e) => Err(e),
            Ok(name) => match opt_str(o, "input"@) {
                Err(e) => Err(e),
                Ok(input) => Ok(
                    CustomCallPayloadV { name, input, extra: unknown(o, custom_call_payload_keys()) },
                ),
            },
        },
        _ => Err(not_an_object()),
    }
}

/// `t` as JSON: absent members are left out, unknown ones come last.
pub open spec fn encode_custom_call_payload(t: CustomCallPayloadV) -> JsonV {
    let o0 = Seq::<(Seq<char>, JsonV)>::empty();
    let o1 = match t.name {
        Some(x) => obj_set(o0, "name"@, JsonV::Str(x)),
        None => o0,
    };
    let o2 = match t.input {
        Some(x) => obj_set(o1, "input"@, JsonV::Str(x)),
        None => o1,
    };
    JsonV::Object(extended(o2, t.extra))
}

impl CustomCallPayload {
    /// Reads a [`CustomCallPayload`] from JSON.
    pub fn from_json(j: &Json) -> (r: Result<CustomCallPayload, String>)
        ensures
            res(r) == decode_custom_call_payload(j@),
    {
        let o = match j.as_object() {
            Some(o) => o,
            None => {
                return Err("invalid type: expected an object".to_owned());
            },
        };
        let name = match get_opt_str(o, "name") {
            Ok(x) => x,
            Err(e) => {
                return Err(e);
            },
        };
        let input = match get_opt_str(o, "input") {
            Ok(x) => x,
            Err(e) => {
                return Err(e);
            },
        };
        let mut known: Vec<&str> = Vec::new();
        known.push("name");
        known.push("input");
        proof {
            assert(views(known@) =~= custom_call_payload_keys());
        }
        let extra = unknown_members(o, &known);
        Ok(CustomCallPayload { name, input, extra })
    }

    /// Writes this value as JSON.
    pub fn to_json(&self) -> (r: Json)
        ensures
            r@ == encode_custom_call_payload(self@),
    {
        let mut o = JsonMap::new();
        if let Some(x) = &self.name {
            o.set("name", Json::Str(x.clone()));
        }
        if let Some(x) = &self.input {
            o.set("input", Json::Str(x.clone()));
        }
        extend_map(&mut o, &self.extra);
        Json::object(o)
    }
}

/// An optional [`CustomCallPayload`].
pub open spec fn opt_custom_call_payload(o: ObjV, k: Seq<char>) -> Result<Option<CustomCallPayloadV>, Seq<char>> {
    match obj_get(o, k) {
        None | Some(JsonV::Null) => Ok(None),
        Some(j) => match decode_custom_call_payload(j) {
            Ok(x) => Ok(Some(x)),
            Err(e) => Err(e),
        },
    }
}

fn get_opt_custom_call_payload(o: &JsonMap, k: &str) -> (r: Result<Option<CustomCallPayload>, String>)
    ensures
        res_opt(r) == opt_custom_call_payload(o@, k@),
{
    match o.get(k) {
        None | Some(Json::Null) => Ok(None),
        Some(j) => match CustomCallPayload::from_json(j) {
            Ok(x) => Ok(Some(x)),
            Err(e) => Err(e),
        },
    }
}

/// One entry of `tool_calls`.
#[derive(Debug, PartialEq, Eq)]
pub struct ToolCallEntry {
    /// Call id.
    pub id: Option<String>,
    /// Call type.
    pub call_type: Option<String>,
    /// Payload of a function call.
    pub function: Option<FunctionCallPayload>,
    /// Payload of a custom call.
    pub custom: Option<CustomCallPayload>,
    /// Unknown fields.
    pub extra: JsonMap,
}

/// The mathematical value of a [`ToolCallEntry`].
pub struct ToolCallEntryV {
    pub id: Option<Seq<char>>,
    pub call_type: Option<Seq<char>>,
    pub function: Option<FunctionCallPayloadV>,
    pub custom: Option<CustomCallPayloadV>,
    pub extra: ObjV,
}

impl View for ToolCallEntry {
    type V = ToolCallEntryV;

    open spec fn view(&self) -> ToolCallEntryV {
        ToolCallEntryV {
            id: opt_view(self.id),
            call_type: opt_view(self.call_type),
            function: opt_view(self.function),
            custom: opt_view(self.custom),
            extra: self.extra@,
        }
    }
}

/// The members that a [`ToolCallEntry`] models.
pub open spec fn tool_call_entry_keys() -> Seq<Seq<char>> {
    seq!["id"@, "type"@, "function"@, "custom"@]
}

/// The [`ToolCallEntry`] that `j` holds, or why it holds none.
pub open spec fn decode_tool_call_entry(j: JsonV) -> Result<ToolCallEntryV, Seq<char>> {
    match j {
        JsonV::Object(o) => match opt_str(o, "id"@) {
            Err(e) => Err(e),
            Ok(id) => match opt_str(o, "type"@) {
                Err(e) => Err(e),
                Ok(call_type) => match opt_function_call_payload(o, "function"@) {
                    Err(e) => Err(e),
                    Ok(function) => match opt_custom_call_payload(o, "custom"@) {
                        Err(e) => Err(e),
                        Ok(custom) => Ok(
                            ToolCallEntryV { id, call_type, function, custom, extra: unknown(o, tool_call_entry_keys()) },
                        ),
                    },
                },
            },
        },
        _ => Err(not_an_object()),
    }
}

/// `t` as JSON: absent members are left out, unknown ones come last.
pub open spec fn encode_tool_call_entry(t: ToolCallEntryV) -> JsonV {
    let o0 = Seq::<(Seq<char>, JsonV)>::empty();
    let o1 = match t.id {
        Some(x) => obj_set(o0, "id"@, JsonV::Str(x)),
        None => o0,
    };
    let o2 = match t.call_type {
        Some(x) => obj_set(o1, "type"@, JsonV::Str(x)),
        None => o1,
    };
    let o3 = match t.function {
        Some(x) => obj_set(o2, "function"@, encode_function_call_payload(x)),
        None => o2,
    };
    let o4 = match t.custom {
        Some(x) => obj_set(o3, "custom"@, encode_custom_call_payload(x)),
        None => o3,
    };
    JsonV::Object(extended(o4, t.extra))
}

impl ToolCallEntry {
    /// Reads a [`ToolCallEntry`] from JSON.
    pub fn from_json(j: &Json) -> (r: Result<ToolCallEntry, String>)
        ensures
            res(r) == decode_tool_call_entry(j@),
    {
        let o = match j.as_object() {
            Some(o) => o,
            None => {
                return Err("invalid type: expected an object".to_owned());
            },
        };
        let id = match get_opt_str(o, "id") {
            Ok(x) => x,
            Err(e) => {
                return Err(e);
            },
        };
        let call_type = match get_opt_str(o, "type") {
            Ok(x) => x,
            Err(e) => {
                return Err(e);
            },
        };
        let function = match get_opt_function_call_payload(o, "function") {
            Ok(x) => x,
            Err(e) => {
                return Err(e);
            },
        };
        let custom = match get_opt_custom_call_payload(o, "custom") {
            Ok(x) => x,
            Err(e) => {
                return Err(e);
            },
        };
        let mut known: Vec<&str> = Vec::new();
        known.push("id");
        known.push("type");
        known.push("function");
        known.push("custom");
        proof {
            assert(views(known@) =~= tool_call_entry_keys());
        }
        let extra = unknown_members(o, &known);
        Ok(ToolCallEntry { id, call_type, function, custom, extra })
    }

    /// Writes this value as JSON.
    pub fn to_json(&self) -> (r: Json)
        ensures
            r@ == encode_tool_call_entry(self@),
    {
        let mut o = JsonMap::new();
        if let Some(x) = &self.id {
            o.set("id", Json::Str(x.clone()));
        }
        if let Some(x) = &self.call_type {
            o.set("type", Json::Str(x.clone()));
        }
        if let Some(x) = &self.function {
            o.set("function", x.to_json());
        }
        if let Some(x) = &self.custom {
            o.set("custom", x.to_json());
        }
        extend_map(&mut o, &self.extra);
        Json::object(o)
    }
}

/// The definition of a function.
#[derive(Debug, PartialEq, Eq)]
pub struct FunctionDef {
    /// Function name.
    pub name: String,
    /// Description.
    pub description: Option<String>,
    /// JSON Schema of the parameters.
    pub parameters: Option<Json>,
    /// Strict schema adherence.
    pub strict: Option<bool>,
    /// Unknown fields.
    pub extra: JsonMap,
}

/// The mathematical value of a [`FunctionDef`].
pub struct FunctionDefV {
    pub name: Seq<char>,
    pub description: Option<Seq<char>>,
    pub parameters: Option<JsonV>,
    pub strict: Option<bool>,
    pub extra: ObjV,
}

impl View for FunctionDef {
    type V = FunctionDefV;

    open spec fn view(&self) -> FunctionDefV {
        FunctionDefV {
            name: self.name@,
            description: opt_view(self.description),
            parameters: opt_view(self.parameters),
            strict: self.strict,
            extra: self.extra@,
        }
    }
}

/// The members that a [`FunctionDef`] models.
pub open spec fn function_def_keys() -> Seq<Seq<char>> {
    seq!["name"@, "description"@, "parameters"@, "strict"@]
}

/// The [`FunctionDef`] that `j` holds, or why it holds none.
pub open spec fn decode_function_def(j: JsonV) -> Result<FunctionDefV, Seq<char>> {
    match j {
        JsonV::Object(o) => match req_str(o, "name"@) {
            Err(e) => Err(e),
            Ok(name) => match opt_str(o, "description"@) {
                Err(e) => Err(e),
                Ok(description) => match opt_value(o, "parameters"@) {
                    Err(e) => Err(e),
                    Ok(parameters) => match opt_bool(o, "strict"@) {
                        Err(e) => Err(e),
                        Ok(strict) => Ok(
                            FunctionDefV { name, description, parameters, strict, extra: unknown(o, function_def_keys()) },
                        ),
                    },
                },
            },
        },
        _ => Err(not_an_object()),
    }
}

/// `t` as JSON: absent members are left out, unknown ones come last.
pub open spec fn encode_function_def(t: FunctionDefV) -> JsonV {
    let o0 = Seq::<(Seq<char>, JsonV)>::empty();
    let o1 = obj_set(o0, "name"@, JsonV::Str(t.name));
    let o2 = match t.description {
        Some(x) => obj_set(o1, "description"@, JsonV::Str(x)),
        None => o1,
    };
    let o3 = match t.parameters {
        Some(x) => obj_set(o2, "parameters"@, x),
        None => o2,
    };
    let o4 = match t.strict {
        Some(x) => obj_set(o3, "strict"@, JsonV::Bool(x)),
        None => o3,
    };
    JsonV::Object(extended(o4, t.extra))
}

impl FunctionDef {
    /// Reads a [`FunctionDef`] from JSON.
    pub fn from_json(j: &Json) -> (r: Result<FunctionDef, String>)
        ensures
            res(r) == decode_function_def(j@),
    {
        let o = match j.as_object() {
            Some(o) => o,
            None => {
                return Err("invalid type: expected an object".to_owned());
            },
        };
        let name = match get_str(o, "name") {
            Ok(x) => x,
            Err(e) => {
                return Err(e);
            },
        };
        let description = match get_opt_str(o, "description") {
            Ok(x) => x,
            Err(e) => {
                return Err(e);
            },
        };
        let parameters = match get_opt_value(o, "parameters") {
            Ok(x) => x,
            Err(e) => {
                return Err(e);
            },
        };
        let strict = match get_opt_bool(o, "strict") {
            Ok(x) => x,
            Err(e) => {
                return Err(e);
            },
        };
        let mut known: Vec<&str> = Vec::new();
        known.push("name");
        known.push("description");
        known.push("parameters");
        known.push("strict");
        proof {
            assert(views(known@) =~= function_def_keys());
        }
        let extra = unknown_members(o, &known);
        Ok(FunctionDef { name, description, parameters, strict, extra })
    }

    /// Writes this value as JSON.
    pub fn to_json(&self) -> (r: Json)
        ensures
            r@ == encode_function_def(self@),
    {
        let mut o = JsonMap::new();
        o.set("name", Json::Str(self.name.clone()));
        if let Some(x) = &self.description {
            o.set("description", Json::Str(x.clone()));
        }
        if let Some(x) = &self.parameters {
            o.set("parameters", x.copy());
        }
        if let Some(x) = &self.strict {
            o.set("strict", Json::Bool(*x));
        }
        extend_map(&mut o, &self.extra);
        Json::object(o)
    }
}

/// A required [`FunctionDef`].
pub open spec fn req_function_def(o: ObjV, k: Seq<char>) -> Result<FunctionDefV, Seq<char>> {
    match req_value(o, k) {
        Err(e) => Err(e),
        Ok(j) => decode_function_def(j),
    }
}

fn get_function_def(o: &JsonMap, k: &str) -> (r: Result<FunctionDef, String>)
    ensures
        res(r) == req_function_def(o@, k@),
{
    match get_value(o, k) {
        Err(e) => Err(e),
        Ok(j) => FunctionDef::from_json(&j),
    }
}

/// A function tool.
#[derive(Debug, PartialEq, Eq)]
pub struct FunctionToolDef {
    /// Tool type.
    pub tool_type: Option<String>,
    /// The function.
    pub function: FunctionDef,
    /// Unknown fields.
    pub extra: JsonMap,
}

/// The mathematical value of a [`FunctionToolDef`].
pub struct FunctionToolDefV {
    pub tool_type: Option<Seq<char>>,
    pub function: FunctionDefV,
    pub extra: ObjV,
}

impl View for FunctionToolDef {
    type V = FunctionToolDefV;

    open spec fn view(&self) -> FunctionToolDefV {
        FunctionToolDefV {
            tool_type: opt_view(self.tool_type),
            function: self.function@,
            extra: self.extra@,
        }
    }
}

/// The members that a [`FunctionToolDef`] models.
pub open spec fn function_tool_def_keys() -> Seq<Seq<char>> {
    seq!["type"@, "function"@]
}

/// The [`FunctionToolDef`] that `j` holds, or why it holds none.
pub open spec fn decode_function_tool_def(j: JsonV) -> Result<FunctionToolDefV, Seq<char>> {
    match j {
        JsonV::Object(o) => match opt_str(o, "type"@) {
            Err(e) => Err(e),
            Ok(tool_type) => match req_function_def(o, "function"@) {
                Err(e) => Err(e),
                Ok(function) => Ok(
                    FunctionToolDefV { tool_type, function, extra: unknown(o, function_tool_def_keys()) },
                ),
            },
        },
        _ => Err(not_an_object()),
    }
}

/// `t` as JSON: absent members are left out, unknown ones come last.
pub open spec fn encode_function_tool_def(t: FunctionToolDefV) -> JsonV {
    let o0 = Seq::<(Seq<char>, JsonV)>::empty();
    let o1 = match t.tool_type {
        Some(x) => obj_set(o0, "type"@, JsonV::Str(x)),
        None => o0,
    };
    let o2 = obj_set(o1, "function"@, encode_function_def(t.function));
    JsonV::Object(extended(o2, t.extra))
}

impl FunctionToolDef {
    /// Reads a [`FunctionToolDef`] from JSON.
    pub fn from_json(j: &Json) -> (r: Result<FunctionToolDef, String>)
        ensures
            res(r) == decode_function_tool_def(j@),
    {
        let o = match j.as_object() {
            Some(o) => o,
            None => {
                return Err("invalid type: expected an object".to_owned());
            },
        };
        let tool_type = match get_opt_str(o, "type") {
            Ok(x) => x,
            Err(e) => {
                return Err(e);
            },
        };
        let function = match get_function_def(o, "function") {
            Ok(x) => x,
            Err(e) => {
                return Err(e);
            },
        };
        let mut known: Vec<&str> = Vec::new();
        known.push("type");
        known.push("function");
        proof {
            assert(views(known@) =~= function_tool_def_keys());
        }
        let extra = unknown_members(o, &known);
        Ok(FunctionToolDef { tool_type, function, extra })
    }

    /// Writes this value as JSON.
    pub fn to_json(&self) -> (r: Json)
        ensures
            r@ == encode_function_tool_def(self@),
    {
        let mut o = JsonMap::new();
        if let Some(x) = &self.tool_type {
            o.set("type", Json::Str(x.clone()));
        }
        o.set("function", self.function.to_json());
        extend_map(&mut o, &self.extra);
        Json::object(o)
    }
}

/// A wire message of any role. Polymorphic fields are kept raw.
#[derive(Debug, PartialEq, Eq)]
pub struct Message {
    /// Role.
    pub role: Option<String>,
    /// Content.
    pub content: Option<Json>,
    /// Plaintext thinking.
    pub reasoning_content: Option<Json>,
    /// Refusal.
    pub refusal: Option<Json>,
    /// Tool calls.
    pub tool_calls: Option<Json>,
    /// Id of the answered call.
    pub tool_call_id: Option<Json>,
    /// Participant or tool name.
    pub name: Option<Json>,
    /// Unknown fields.
    pub extra: JsonMap,
}

/// The mathematical value of a [`Message`].
pub struct MessageV {
    pub role: Option<Seq<char>>,
    pub content: Option<JsonV>,
    pub reasoning_content: Option<JsonV>,
    pub refusal: Option<JsonV>,
    pub tool_calls: Option<JsonV>,
    pub tool_call_id: Option<JsonV>,
    pub name: Option<JsonV>,
    pub extra: ObjV,
}

impl View for Message {
    type V = MessageV;

    open spec fn view(&self) -> MessageV {
        MessageV {
            role: opt_view(self.role),
            content: opt_view(self.content),
            reasoning_content: opt_view(self.reasoning_content),
            refusal: opt_view(self.refusal),
            tool_calls: opt_view(self.tool_calls),
            tool_call_id: opt_view(self.tool_call_id),
            name: opt_view(self.name),
            extra: self.extra@,
        }
    }
}

/// The members that a [`Message`] models.
pub open spec fn message_keys() -> Seq<Seq<char>> {
    seq!["role"@, "content"@, "reasoning_content"@, "refusal"@, "tool_calls"@, "tool_call_id"@, "name"@]
}

/// The [`Message`] that `j` holds, or why it holds none.
pub open spec fn decode_message(j: JsonV) -> Result<MessageV, Seq<char>> {
    match j {
        JsonV::Object(o) => match opt_str(o, "role"@) {
            Err(e) => Err(e),
            Ok(role) => match opt_value(o, "content"@) {
                Err(e) => Err(e),
                Ok(content) => match opt_value(o, "reasoning_content"@) {
                    Err(e) => Err(e),
                    Ok(reasoning_content) => match opt_value(o, "refusal"@) {
                        Err(e) => Err(e),
                        Ok(refusal) => match opt_value(o, "tool_calls"@) {
                            Err(e) => Err(e),
                            Ok(tool_calls) => match opt_value(o, "tool_call_id"@) {
                                Err(e) => Err(e),
                                Ok(tool_call_id) => match opt_value(o, "name"@) {
                                    Err(e) => Err(e),
                                    Ok(name) => Ok(
                                        MessageV { role, content, reasoning_content, refusal, tool_calls, tool_call_id, name, extra: unknown(o, message_keys()) },
                                    ),
                                },
                            },
                        },
                    },
                },
            },
        },
        _ => Err(not_an_object()),
    }
}

/// `t` as JSON: absent members are left out, unknown ones come last.
pub open spec fn encode_message(t: MessageV) -> JsonV {
    let o0 = Seq::<(Seq<char>, JsonV)>::empty();
    let o1 = match t.role {
        Some(x) => obj_set(o0, "role"@, JsonV::Str(x)),
        None => o0,
    };
    let o2 = match t.content {
        Some(x) => obj_set(o1, "content"@, x),
        None => o1,
    };
    let o3 = match t.reasoning_content {
        Some(x) => obj_set(o2, "reasoning_content"@, x),
        None => o2,
    };
    let o4 = match t.refusal {
        Some(x) => obj_set(o3, "refusal"@, x),
        None => o3,
    };
    let o5 = match t.tool_calls {
        Some(x) => obj_set(o4, "tool_calls"@, x),
        None => o4,
    };
    let o6 = match t.tool_call_id {
        Some(x) => obj_set(o5, "tool_call_id"@, x),
        None => o5,
    };
    let o7 = match t.name {
        Some(x) => obj_set(o6, "name"@, x),
        None => o6,
    };
    JsonV::Object(extended(o7, t.extra))
}

impl Message {
    /// Reads a [`Message`] from JSON.
    pub fn from_json(j: &Json) -> (r: Result<Message, String>)
        ensures
            res(r) == decode_message(j@),
    {
        let o = match j.as_object() {
            Some(o) => o,
            None => {
                return Err("invalid type: expected an object".to_owned());
            },
        };
        let role = match get_opt_str(o, "role") {
            Ok(x) => x,
            Err(e) => {
                return Err(e);
            },
        };
        let content = match get_opt_value(o, "content") {
            Ok(x) => x,
            Err(e) => {
                return Err(e);
            },
        };
        let reasoning_content = match get_opt_value(o, "reasoning_content") {
            Ok(x) => x,
            Err(e) => {
                return Err(e);
            },
        };
        let refusal = match get_opt_value(o, "refusal") {
            Ok(x) => x,
            Err(e) => {
                return Err(e);
            },
        };
        let tool_calls = match get_opt_value(o, "tool_calls") {
            Ok(x) => x,
            Err(e) => {
                return Err(e);
            },
        };
        let tool_call_id = match get_opt_value(o, "tool_call_id") {
            Ok(x) => x,
            Err(e) => {
                return Err(e);
            },
        };
        let name = match get_opt_value(o, "name") {
            Ok(x) => x,
            Err(e) => {
                return Err(e);
            },
        };
        let mut known: Vec<&str> = Vec::new();
        known.push("role");
        known.push("content");
        known.push("reasoning_content");
        known.push("refusal");
        known.push("tool_calls");
        known.push("tool_call_id");
        known.push("name");
        proof {
            assert(views(known@) =~= message_keys());
        }
        let extra = unknown_members(o, &known);
        Ok(Message { role, content, reasoning_content, refusal, tool_calls, tool_call_id, name, extra })
    }

    /// Writes this value as JSON.
    pub fn to_json(&self) -> (r: Json)
        ensures
            r@ == encode_message(self@),
    {
        let mut o = JsonMap::new();
        if let Some(x) = &self.role {
            o.set("role", Json::Str(x.clone()));
        }
        if let Some(x) = &self.content {
            o.set("content", x.copy());
        }
        if let Some(x) = &self.reasoning_content {
            o.set("reasoning_content", x.copy());
        }
        if let Some(x) = &self.refusal {
            o.set("refusal", x.copy());
        }
        if let Some(x) = &self.tool_calls {
            o.set("tool_calls", x.copy());
        }
        if let Some(x) = &self.tool_call_id {
            o.set("tool_call_id", x.copy());
        }
        if let Some(x) = &self.name {
            o.set("name", x.copy());
        }
        extend_map(&mut o, &self.extra);
        Json::object(o)
    }
}

/// The request body.
#[derive(Debug, PartialEq, Eq)]
pub struct Request {
    /// Model.
    pub model: Option<String>,
    /// Messages.
    pub messages: Vec<Json>,
    /// Maximum tokens.
    pub max_completion_tokens: Option<u32>,
    /// Legacy maximum tokens.
    pub max_tokens: Option<u32>,
    /// Sampling temperature.
    pub temperature: Option<Num>,
    /// Nucleus sampling.
    pub top_p: Option<Num>,
    /// Stop sequences.
    pub stop: Option<Json>,
    /// Sampling seed.
    pub seed: Option<i64>,
    /// Frequency penalty.
    pub frequency_penalty: Option<Num>,
    /// Presence penalty.
    pub presence_penalty: Option<Num>,
    /// Metadata.
    pub metadata: Option<JsonMap>,
    /// Cache key.
    pub prompt_cache_key: Option<String>,
    /// Effort tier.
    pub reasoning_effort: Option<String>,
    /// Structured output.
    pub response_format: Option<Json>,
    /// Tools.
    pub tools: Option<Vec<Json>>,
    /// Tool choice.
    pub tool_choice: Option<Json>,
    /// Parallel calls.
    pub parallel_tool_calls: Option<bool>,
    /// Streaming.
    pub stream: Option<bool>,
    /// Streaming options.
    pub stream_options: Option<Json>,
    /// Unknown fields.
    pub extra: JsonMap,
}

/// The mathematical value of a [`Request`].
pub struct RequestV {
    pub model: Option<Seq<char>>,
    pub messages: Seq<JsonV>,
    pub max_completion_tokens: Option<u32>,
    pub max_tokens: Option<u32>,
    pub temperature: Option<NumV>,
    pub top_p: Option<NumV>,
    pub stop: Option<JsonV>,
    pub seed: Option<i64>,
    pub frequency_penalty: Option<NumV>,
    pub presence_penalty: Option<NumV>,
    pub metadata: Option<ObjV>,
    pub prompt_cache_key: Option<Seq<char>>,
    pub reasoning_effort: Option<Seq<char>>,
    pub response_format: Option<JsonV>,
    pub tools: Option<Seq<JsonV>>,
    pub tool_choice: Option<JsonV>,
    pub parallel_tool_calls: Option<bool>,
    pub stream: Option<bool>,
    pub stream_options: Option<JsonV>,
    pub extra: ObjV,
}

impl View for Request {
    type V = RequestV;

    open spec fn view(&self) -> RequestV {
        RequestV {
            model: opt_view(self.model),
            messages: views(self.messages@),
            max_completion_tokens: self.max_completion_tokens,
            max_tokens: self.max_tokens,
            temperature: opt_view(self.temperature),
            top_p: opt_view(self.top_p),
            stop: opt_view(self.stop),
            seed: self.seed,
            frequency_penalty: opt_view(self.frequency_penalty),
            presence_penalty: opt_view(self.presence_penalty),
            metadata: opt_view(self.metadata),
            prompt_cache_key: opt_view(self.prompt_cache_key),
            reasoning_effort: opt_view(self.reasoning_effort),
            response_format: opt_view(self.response_format),
            tools: opt_views(self.tools),
            tool_choice: opt_view(self.tool_choice),
            parallel_tool_calls: self.parallel_tool_calls,
            stream: self.stream,
            stream_options: opt_view(self.stream_options),
            extra: self.extra@,
        }
    }
}

/// The members that a [`Request`] models.
pub open spec fn request_keys() -> Seq<Seq<char>> {
    seq!["model"@, "messages"@, "max_completion_tokens"@, "max_tokens"@, "temperature"@, "top_p"@, "stop"@, "seed"@, "frequency_penalty"@, "presence_penalty"@, "metadata"@, "prompt_cache_key"@, "reasoning_effort"@, "response_format"@, "tools"@, "tool_choice"@, "parallel_tool_calls"@, "stream"@, "stream_options"@]
}

/// The [`Request`] that `j` holds, or why it holds none.
pub open spec fn decode_request(j: JsonV) -> Result<RequestV, Seq<char>> {
    match j {
        JsonV::Object(o) => match opt_str(o, "model"@) {
            Err(e) => Err(e),
            Ok(model) => match default_values(o, "messages"@) {
                Err(e) => Err(e),
                Ok(messages) => match opt_u32(o, "max_completion_tokens"@) {
                    Err(e) => Err(e),
                    Ok(max_completion_tokens) => match opt_u32(o, "max_tokens"@) {
                        Err(e) => Err(e),
                        Ok(max_tokens) => match opt_float(o, "temperature"@) {
                            Err(e) => Err(e),
                            Ok(temperature) => match opt_float(o, "top_p"@) {
                                Err(e) => Err(e),
                                Ok(top_p) => match opt_value(o, "stop"@) {
                                    Err(e) => Err(e),
                                    Ok(stop) => match opt_i64(o, "seed"@) {
                                        Err(e) => Err(e),
                                        Ok(seed) => match opt_float(o, "frequency_penalty"@) {
                                            Err(e) => Err(e),
                                            Ok(frequency_penalty) => match opt_float(o, "presence_penalty"@) {
                                                Err(e) => Err(e),
                                                Ok(presence_penalty) => match opt_object(o, "metadata"@) {
                                                    Err(e) => Err(e),
                                                    Ok(metadata) => match opt_str(o, "prompt_cache_key"@) {
                                                        Err(e) => Err(e),
                                                        Ok(prompt_cache_key) => match opt_str(o, "reasoning_effort"@) {
                                                            Err(e) => Err(e),
                                                            Ok(reasoning_effort) => match opt_value(o, "response_format"@) {
                                                                Err(e) => Err(e),
                                                                Ok(response_format) => match opt_values(o, "tools"@) {
                                                                    Err(e) => Err(e),
                                                                    Ok(tools) => match opt_value(o, "tool_choice"@) {
                                                                        Err(e) => Err(e),
                                                                        Ok(tool_choice) => match opt_bool(o, "parallel_tool_calls"@) {
                                                                            Err(e) => Err(e),
                                                                            Ok(parallel_tool_calls) => match opt_bool(o, "stream"@) {
                                                                                Err(e) => Err(e),
                                                                                Ok(stream) => match opt_value(o, "stream_options"@) {
                                                                                    Err(e) => Err(e),
                                                                                    Ok(stream_options) => Ok(
                                                                                        RequestV { model, messages, max_completion_tokens, max_tokens, temperature, top_p, stop, seed, frequency_penalty, presence_penalty, metadata, prompt_cache_key, reasoning_effort, response_format, tools, tool_choice, parallel_tool_calls, stream, stream_options, extra: unknown(o, request_keys()) },
                                                                                    ),
                                                                                },
                                                                            },
                                                                        },
                                                                    },
                                                                },
                                                            },
                                                        },
                                                    },
                                                },
                                            },
                                        },
                                    },
                                },
                            },
                        },
                    },
                },
            },
        },
        _ => Err(not_an_object()),
    }
}

/// The first members of a request as JSON.
pub open spec fn encode_request_start(t: RequestV) -> ObjV {
    let o0 = Seq::<(Seq<char>, JsonV)>::empty();
    let o1 = match t.model {
        Some(x) => obj_set(o0, "model"@, JsonV::Str(x)),
        None => o0,
    };
    let o2 = obj_set(o1, "messages"@, JsonV::Array(t.messages));
    let o3 = match t.max_completion_tokens {
        Some(x) => obj_set(o2, "max_completion_tokens"@, json_int(x as int)),
        None => o2,
    };
    let o4 = match t.max_tokens {
        Some(x) => obj_set(o3, "max_tokens"@, json_int(x as int)),
        None => o3,
    };
    let o5 = match t.temperature {
        Some(x) => obj_set(o4, "temperature"@, JsonV::Number(x)),
        None => o4,
    };
    let o6 = match t.top_p {
        Some(x) => obj_set(o5, "top_p"@, JsonV::Number(x)),
        None => o5,
    };
    let o7 = match t.stop {
        Some(x) => obj_set(o6, "stop"@, x),
        None => o6,
    };
    let o8 = match t.seed {
        Some(x) => obj_set(o7, "seed"@, json_int(x as int)),
        None => o7,
    };
    let o9 = match t.frequency_penalty {
        Some(x) => obj_set(o8, "frequency_penalty"@, JsonV::Number(x)),
        None => o8,
    };
    match t.presence_penalty {
        Some(x) => obj_set(o9, "presence_penalty"@, JsonV::Number(x)),
        None => o9,
    }
}

/// `t` as JSON: absent members are left out, unknown ones come last.
pub open spec fn encode_request(t: RequestV) -> JsonV {
    let o10 = encode_request_start(t);
    let o11 = match t.metadata {
        Some(x) => obj_set(o10, "metadata"@, JsonV::Object(x)),
        None => o10,
    };
    let o12 = match t.prompt_cache_key {
        Some(x) => obj_set(o11, "prompt_cache_key"@, JsonV::Str(x)),
        None => o11,
    };
    let o13 = match t.reasoning_effort {
        Some(x) => obj_set(o12, "reasoning_effort"@, JsonV::Str(x)),
        None => o12,
    };
    let o14 = match t.response_format {
        Some(x) => obj_set(o13, "response_format"@, x),
        None => o13,
    };
    let o15 = match t.tools {
        Some(x) => obj_set(o14, "tools"@, JsonV::Array(x)),
        None => o14,
    };
    let o16 = match t.tool_choice {
        Some(x) => obj_set(o15, "tool_choice"@, x),
        None => o15,
    };
    let o17 = match t.parallel_tool_calls {
        Some(x) => obj_set(o16, "parallel_tool_calls"@, JsonV::Bool(x)),
        None => o16,
    };
    let o18 = match t.stream {
        Some(x) => obj_set(o17, "stream"@, JsonV::Bool(x)),
        None => o17,
    };
    let o19 = match t.stream_options {
        Some(x) => obj_set(o18, "stream_options"@, x),
        None => o18,
    };
    JsonV::Object(extended(o19, t.extra))
}

impl Request {
    /// Reads a [`Request`] from JSON.
    pub fn from_json(j: &Json) -> (r: Result<Request, String>)
        ensures
            res(r) == decode_request(j@),
    {
        let o = match j.as_object() {
            Some(o) => o,
            None => {
                return Err("invalid type: expected an object".to_owned());
            },
        };
        let model = match get_opt_str(o, "model") {
            Ok(x) => x,
            Err(e) => {
                return Err(e);
            },
        };
        let messages = match get_default_values(o, "messages") {
            Ok(x) => x,
            Err(e) => {
                return Err(e);
            },
        };
        let max_completion_tokens = match get_opt_u32(o, "max_completion_tokens") {
            Ok(x) => x,
            Err(e) => {
                return Err(e);
            },
        };
        let max_tokens = match get_opt_u32(o, "max_tokens") {
            Ok(x) => x,
            Err(e) => {
                return Err(e);
            },
        };
        let temperature = match get_opt_float(o, "temperature") {
            Ok(x) => x,
            Err(e) => {
                return Err(e);
            },
        };
        let top_p = match get_opt_float(o, "top_p") {
            Ok(x) => x,
            Err(e) => {
                return Err(e);
            },
        };
        let stop = match get_opt_value(o, "stop") {
            Ok(x) => x,
            Err(e) => {
                return Err(e);
            },
        };
        let seed = match get_opt_i64(o, "seed") {
            Ok(x) => x,
            Err(e) => {
                return Err(e);
            },
        };
        let frequency_penalty = match get_opt_float(o, "frequency_penalty") {
            Ok(x) => x,
            Err(e) => {
                return Err(e);
            },
        };
        let presence_penalty = match get_opt_float(o, "presence_penalty") {
            Ok(x) => x,
            Err(e) => {
                return Err(e);
            },
        };
        let metadata = match get_opt_object(o, "metadata") {
            Ok(x) => x,
            Err(e) => {
                return Err(e);
            },
        };
        let prompt_cache_key = match get_opt_str(o, "prompt_cache_key") {
            Ok(x) => x,
            Err(e) => {
                return Err(e);
            },
        };
        let reasoning_effort = match get_opt_str(o, "reasoning_effort") {
            Ok(x) => x,
            Err(e) => {
                return Err(e);
            },
        };
        let response_format = match get_opt_value(o, "response_format") {
            Ok(x) => x,
            Err(e) => {
                return Err(e);
            },
        };
        let tools = match get_opt_values(o, "tools") {
            Ok(x) => x,
            Err(e) => {
                return Err(e);
            },
        };
        let tool_choice = match get_opt_value(o, "tool_choice") {
            Ok(x) => x,
            Err(e) => {
                return Err(e);
            },
        };
        let parallel_tool_calls = match get_opt_bool(o, "parallel_tool_calls") {
            Ok(x) => x,
            Err(e) => {
                return Err(e);
            },
        };
        let stream = match get_opt_bool(o, "stream") {
            Ok(x) => x,
            Err(e) => {
                return Err(e);
            },
        };
        let stream_options = match get_opt_value(o, "stream_options") {
            Ok(x) => x,
            Err(e) => {
                return Err(e);
            },
        };
        let mut known: Vec<&str> = Vec::new();
        known.push("model");
        known.push("messages");
        known.push("max_completion_tokens");
        known.push("max_tokens");
        known.push("temperature");
        known.push("top_p");
        known.push("stop");
        known.push("seed");
        known.push("frequency_penalty");
        known.push("presence_penalty");
        known.push("metadata");
        known.push("prompt_cache_key");
        known.push("reasoning_effort");
        known.push("response_format");
        known.push("tools");
        known.push("tool_choice");
        known.push("parallel_tool_calls");
        known.push("stream");
        known.push("stream_options");
        proof {
            assert(views(known@) =~= request_keys());
        }
        let extra = unknown_members(o, &known);
        Ok(Request { model, messages, max_completion_tokens, max_tokens, temperature, top_p, stop, seed, frequency_penalty, presence_penalty, metadata, prompt_cache_key, reasoning_effort, response_format, tools, tool_choice, parallel_tool_calls, stream, stream_options, extra })
    }

    fn start_to_json(&self) -> (r: JsonMap)
        ensures
            r@ == encode_request_start(self@),
    {
        let mut o = JsonMap::new();
        if let Some(x) = &self.model {
            o.set("model", Json::Str(x.clone()));
        }
        o.set("messages", Json::array(dup_vec(&self.messages)));
        if let Some(x) = &self.max_completion_tokens {
            o.set("max_completion_tokens", Json::uint(*x as u64));
        }
        if let Some(x) = &self.max_tokens {
            o.set("max_tokens", Json::uint(*x as u64));
        }
        if let Some(x) = &self.temperature {
            o.set("temperature", Json::Number(x.copy()));
        }
        if let Some(x) = &self.top_p {
            o.set("top_p", Json::Number(x.copy()));
        }
        if let Some(x) = &self.stop {
            o.set("stop", x.copy());
        }
        if let Some(x) = &self.seed {
            o.set("seed", Json::sint(*x));
        }
        if let Some(x) = &self.frequency_penalty {
            o.set("frequency_penalty", Json::Number(x.copy()));
        }
        if let Some(x) = &self.presence_penalty {
            o.set("presence_penalty", Json::Number(x.copy()));
        }
        o
    }

    /// Writes this value as JSON.
    pub fn to_json(&self) -> (r: Json)
        ensures
            r@ == encode_request(self@),
    {
        let mut o = self.start_to_json();
        if let Some(x) = &self.metadata {
            o.set("metadata", Json::object(x.copy()));
        }
        if let Some(x) = &self.prompt_cache_key {
            o.set("prompt_cache_key", Json::Str(x.clone()));
        }
        if let Some(x) = &self.reasoning_effort {
            o.set("reasoning_effort", Json::Str(x.clone()));
        }
        if let Some(x) = &self.response_format {
            o.set("response_format", x.copy());
        }
        if let Some(x) = &self.tools {
            o.set("tools", Json::array(dup_vec(x)));
        }
        if let Some(x) = &self.tool_choice {
            o.set("tool_choice", x.copy());
        }
        if let Some(x) = &self.parallel_tool_calls {
            o.set("parallel_tool_calls", Json::Bool(*x));
        }
        if let Some(x) = &self.stream {
            o.set("stream", Json::Bool(*x));
        }
        if let Some(x) = &self.stream_options {
            o.set("stream_options", x.copy());
        }
        extend_map(&mut o, &self.extra);
        Json::object(o)
    }
}

/// Details of the prompt tokens.
#[derive(Debug, PartialEq, Eq)]
pub struct PromptTokensDetails {
    /// Cached tokens.
    pub cached_tokens: Option<u64>,
    /// Tokens written to the cache.
    pub cache_write_tokens: Option<u64>,
    /// Unknown fields.
    pub extra: JsonMap,
}

/// The mathematical value of a [`PromptTokensDetails`].
pub struct PromptTokensDetailsV {
    pub cached_tokens: Option<u64>,
    pub cache_write_tokens: Option<u64>,
    pub extra: ObjV,
}

impl View for PromptTokensDetails {
    type V = PromptTokensDetailsV;

    open spec fn view(&self) -> PromptTokensDetailsV {
        PromptTokensDetailsV {
            cached_tokens: self.cached_tokens,
            cache_write_tokens: self.cache_write_tokens,
            extra: self.extra@,
        }
    }
}

/// The members that a [`PromptTokensDetails`] models.
pub open spec fn prompt_tokens_details_keys() -> Seq<Seq<char>> {
    seq!["cached_tokens"@, "cache_write_tokens"@]
}

/// The [`PromptTokensDetails`] that `j` holds, or why it holds none.
pub open spec fn decode_prompt_tokens_details(j: JsonV) -> Result<PromptTokensDetailsV, Seq<char>> {
    match j {
        JsonV::Object(o) => match opt_u64(o, "cached_tokens"@) {
            Err(e) => Err(e),
            Ok(cached_tokens) => match opt_u64(o, "cache_write_tokens"@) {
                Err(e) => Err(e),
                Ok(cache_write_tokens) => Ok(
                    PromptTokensDetailsV { cached_tokens, cache_write_tokens, extra: unknown(o, prompt_tokens_details_keys()) },
                ),
            },
        },
        _ => Err(not_an_object()),
    }
}

/// `t` as JSON: absent members are left out, unknown ones come last.
pub open spec fn encode_prompt_tokens_details(t: PromptTokensDetailsV) -> JsonV {
    let o0 = Seq::<(Seq<char>, JsonV)>::empty();
    let o1 = match t.cached_tokens {
        Some(x) => obj_set(o0, "cached_tokens"@, json_int(x as int)),
        None => o0,
    };
    let o2 = match t.cache_write_tokens {
        Some(x) => obj_set(o1, "cache_write_tokens"@, json_int(x as int)),
        None => o1,
    };
    JsonV::Object(extended(o2, t.extra))
}

impl PromptTokensDetails {
    /// Reads a [`PromptTokensDetails`] from JSON.
    pub fn from_json(j: &Json) -> (r: Result<PromptTokensDetails, String>)
        ensures
            res(r) == decode_prompt_tokens_details(j@),
    {
        let o = match j.as_object() {
            Some(o) => o,
            None => {
                return Err("invalid type: expected an object".to_owned());
            },
        };
        let cached_tokens = match get_opt_u64(o, "cached_tokens") {
            Ok(x) => x,
            Err(e) => {
                return Err(e);
            },
        };
        let cache_write_tokens = match get_opt_u64(o, "cache_write_tokens") {
            Ok(x) => x,
            Err(e) => {
                return Err(e);
            },
        };
        let mut known: Vec<&str> = Vec::new();
        known.push("cached_tokens");
        known.push("cache_write_tokens");
        proof {
            assert(views(known@) =~= prompt_tokens_details_keys());
        }
        let extra = unknown_members(o, &known);
        Ok(PromptTokensDetails { cached_tokens, cache_write_tokens, extra })
    }

    /// Writes this value as JSON.
    pub fn to_json(&self) -> (r: Json)
        ensures
            r@ == encode_prompt_tokens_details(self@),
    {
        let mut o = JsonMap::new();
        if let Some(x) = &self.cached_tokens {
            o.set("cached_tokens", Json::uint(*x));
        }
        if let Some(x) = &self.cache_write_tokens {
            o.set("cache_write_tokens", Json::uint(*x));
        }
        extend_map(&mut o, &self.extra);
        Json::object(o)
    }
}

/// An optional [`PromptTokensDetails`].
pub open spec fn opt_prompt_tokens_details(o: ObjV, k: Seq<char>) -> Result<Option<PromptTokensDetailsV>, Seq<char>> {
    match obj_get(o, k) {
        None | Some(JsonV::Null) => Ok(None),
        Some(j) => match decode_prompt_tokens_details(j) {
            Ok(x) => Ok(Some(x)),
            Err(e) => Err(e),
        },
    }
}

fn get_opt_prompt_tokens_details(o: &JsonMap, k: &str) -> (r: Result<Option<PromptTokensDetails>, String>)
    ensures
        res_opt(r) == opt_prompt_tokens_details(o@, k@),
{
    match o.get(k) {
        None | Some(Json::Null) => Ok(None),
        Some(j) => match PromptTokensDetails::from_json(j) {
            Ok(x) => Ok(Some(x)),
            Err(e) => Err(e),
        },
    }
}

/// Details of the completion tokens.
#[derive(Debug, PartialEq, Eq)]
pub struct CompletionTokensDetails {
    /// Reasoning tokens.
    pub reasoning_tokens: Option<u64>,
    /// Unknown fields.
    pub extra: JsonMap,
}

/// The mathematical value of a [`CompletionTokensDetails`].
pub struct CompletionTokensDetailsV {
    pub reasoning_tokens: Option<u64>,
    pub extra: ObjV,
}

impl View for CompletionTokensDetails {
    type V = CompletionTokensDetailsV;

    open spec fn view(&self) -> CompletionTokensDetailsV {
        CompletionTokensDetailsV {
            reasoning_tokens: self.reasoning_tokens,
            extra: self.extra@,
        }
    }
}

/// The members that a [`CompletionTokensDetails`] models.
pub open spec fn completion_tokens_details_keys() -> Seq<Seq<char>> {
    seq!["reasoning_tokens"@]
}

/// The [`CompletionTokensDetails`] that `j` holds, or why it holds none.
pub open spec fn decode_completion_tokens_details(j: JsonV) -> Result<CompletionTokensDetailsV, Seq<char>> {
    match j {
        JsonV::Object(o) => match opt_u64(o, "reasoning_tokens"@) {
            Err(e) => Err(e),
            Ok(reasoning_tokens) => Ok(
                CompletionTokensDetailsV { reasoning_tokens, extra: unknown(o, completion_tokens_details_keys()) },
            ),
        },
        _ => Err(not_an_object()),
    }
}

/// `t` as JSON: absent members are left out, unknown ones come last.
pub open spec fn encode_completion_tokens_details(t: CompletionTokensDetailsV) -> JsonV {
    let o0 = Seq::<(Seq<char>, JsonV)>::empty();
    let o1 = match t.reasoning_tokens {
        Some(x) => obj_set(o0, "reasoning_tokens"@, json_int(x as int)),
        None => o0,
    };
    JsonV::Object(extended(o1, t.extra))
}

impl CompletionTokensDetails {
    /// Reads a [`CompletionTokensDetails`] from JSON.
    pub fn from_json(j: &Json) -> (r: Result<CompletionTokensDetails, String>)
        ensures
            res(r) == decode_completion_tokens_details(j@),
    {
        let o = match j.as_object() {
            Some(o) => o,
            None => {
                return Err("invalid type: expected an object".to_owned());
            },
        };
        let reasoning_tokens = match get_opt_u64(o, "reasoning_tokens") {
            Ok(x) => x,
            Err(e) => {
                return Err(e);
            },
        };
        let mut known: Vec<&str> = Vec::new();
        known.push("reasoning_tokens");
        proof {
            assert(views(known@) =~= completion_tokens_details_keys());
        }
        let extra = unknown_members(o, &known);
        Ok(CompletionTokensDetails { reasoning_tokens, extra })
    }

    /// Writes this value as JSON.
    pub fn to_json(&self) -> (r: Json)
        ensures
            r@ == encode_completion_tokens_details(self@),
    {
        let mut o = JsonMap::new();
        if let Some(x) = &self.reasoning_tokens {
            o.set("reasoning_tokens", Json::uint(*x));
        }
        extend_map(&mut o, &self.extra);
        Json::object(o)
    }
}

/// An optional [`CompletionTokensDetails`].
pub open spec fn opt_completion_tokens_details(o: ObjV, k: Seq<char>) -> Result<Option<CompletionTokensDetailsV>, Seq<char>> {
    match obj_get(o, k) {
        None | Some(JsonV::Null) => Ok(None),
        Some(j) => match decode_completion_tokens_details(j) {
            Ok(x) => Ok(Some(x)),
            Err(e) => Err(e),
        },
    }
}

fn get_opt_completion_tokens_details(o: &JsonMap, k: &str) -> (r: Result<Option<CompletionTokensDetails>, String>)
    ensures
        res_opt(r) == opt_completion_tokens_details(o@, k@),
{
    match o.get(k) {
        None | Some(Json::Null) => Ok(None),
        Some(j) => match CompletionTokensDetails::from_json(j) {
            Ok(x) => Ok(Some(x)),
            Err(e) => Err(e),
        },
    }
}

/// Token usage.
#[derive(Debug, PartialEq, Eq)]
pub struct Usage {
    /// Prompt tokens, cached ones included.
    pub prompt_tokens: Option<u64>,
    /// Completion tokens.
    pub completion_tokens: Option<u64>,
    /// All tokens.
    pub total_tokens: Option<u64>,
    /// Details of the prompt tokens.
    pub prompt_tokens_details: Option<PromptTokensDetails>,
    /// Details of the completion tokens.
    pub completion_tokens_details: Option<CompletionTokensDetails>,
    /// Unknown fields.
    pub extra: JsonMap,
}

/// The mathematical value of a [`Usage`].
pub struct UsageV {
    pub prompt_tokens: Option<u64>,
    pub completion_tokens: Option<u64>,
    pub total_tokens: Option<u64>,
    pub prompt_tokens_details: Option<PromptTokensDetailsV>,
    pub completion_tokens_details: Option<CompletionTokensDetailsV>,
    pub extra: ObjV,
}

impl View for Usage {
    type V = UsageV;

    open spec fn view(&self) -> UsageV {
        UsageV {
            prompt_tokens: self.prompt_tokens,
            completion_tokens: self.completion_tokens,
            total_tokens: self.total_tokens,
            prompt_tokens_details: opt_view(self.prompt_tokens_details),
            completion_tokens_details: opt_view(self.completion_tokens_details),
            extra: self.extra@,
        }
    }
}

/// The members that a [`Usage`] models.
pub open spec fn usage_keys() -> Seq<Seq<char>> {
    seq!["prompt_tokens"@, "completion_tokens"@, "total_tokens"@, "prompt_tokens_details"@, "completion_tokens_details"@]
}

/// The [`Usage`] that `j` holds, or why it holds none.
pub open spec fn decode_usage(j: JsonV) -> Result<UsageV, Seq<char>> {
    match j {
        JsonV::Object(o) => match opt_u64(o, "prompt_tokens"@) {
            Err(e) => Err(e),
            Ok(prompt_tokens) => match opt_u64(o, "completion_tokens"@) {
                Err(e) => Err(e),
                Ok(completion_tokens) => match opt_u64(o, "total_tokens"@) {
                    Err(e) => Err(e),
                    Ok(total_tokens) => match opt_prompt_tokens_details(o, "prompt_tokens_details"@) {
                        Err(e) => Err(e),
                        Ok(prompt_tokens_details) => match opt_completion_tokens_details(o, "completion_tokens_details"@) {
                            Err(e) => Err(e),
                            Ok(completion_tokens_details) => Ok(
                                UsageV { prompt_tokens, completion_tokens, total_tokens, prompt_tokens_details, completion_tokens_details, extra: unknown(o, usage_keys()) },
                            ),
                        },
                    },
                },
            },
        },
        _ => Err(not_an_object()),
    }
}

/// `t` as JSON: absent members are left out, unknown ones come last.
pub open spec fn encode_usage(t: UsageV) -> JsonV {
    let o0 = Seq::<(Seq<char>, JsonV)>::empty();
    let o1 = match t.prompt_tokens {
        Some(x) => obj_set(o0, "prompt_tokens"@, json_int(x as int)),
        None => o0,
    };
    let o2 = match t.completion_tokens {
        Some(x) => obj_set(o1, "completion_tokens"@, json_int(x as int)),
        None => o1,
    };
    let o3 = match t.total_tokens {
        Some(x) => obj_set(o2, "total_tokens"@, json_int(x as int)),
        None => o2,
    };
    let o4 = match t.prompt_tokens_details {
        Some(x) => obj_set(o3, "prompt_tokens_details"@, encode_prompt_tokens_details(x)),
        None => o3,
    };
    let o5 = match t.completion_tokens_details {
        Some(x) => obj_set(o4, "completion_tokens_details"@, encode_completion_tokens_details(x)),
        None => o4,
    };
    JsonV::Object(extended(o5, t.extra))
}

impl Usage {
    /// Reads a [`Usage`] from JSON.
    pub fn from_json(j: &Json) -> (r: Result<Usage, String>)
        ensures
            res(r) == decode_usage(j@),
    {
        let o = match j.as_object() {
            Some(o) => o,
            None => {
                return Err("invalid type: expected an object".to_owned());
            },
        };
        let prompt_tokens = match get_opt_u64(o, "prompt_tokens") {
            Ok(x) => x,
            Err(e) => {
                return Err(e);
            },
        };
        let completion_tokens = match get_opt_u64(o, "completion_tokens") {
            Ok(x) => x,
            Err(e) => {
                return Err(e);
            },
        };
        let total_tokens = match get_opt_u64(o, "total_tokens") {
            Ok(x) => x,
            Err(e) => {
                return Err(e);
            },
        };
        let prompt_tokens_details = match get_opt_prompt_tokens_details(o, "prompt_tokens_details") {
            Ok(x) => x,
            Err(e) => {
                return Err(e);
            },
        };
        let completion_tokens_details = match get_opt_completion_tokens_details(o, "completion_tokens_details") {
            Ok(x) => x,
            Err(e) => {
                return Err(e);
            },
        };
        let mut known: Vec<&str> = Vec::new();
        known.push("prompt_tokens");
        known.push("completion_tokens");
        known.push("total_tokens");
        known.push("prompt_tokens_details");
        known.push("completion_tokens_details");
        proof {
            assert(views(known@) =~= usage_keys());
        }
        let extra = unknown_members(o, &known);
        Ok(Usage { prompt_tokens, completion_tokens, total_tokens, prompt_tokens_details, completion_tokens_details, extra })
    }

    /// Writes this value as JSON.
    pub fn to_json(&self) -> (r: Json)
        ensures
            r@ == encode_usage(self@),
    {
        let mut o = JsonMap::new();
        if let Some(x) = &self.prompt_tokens {
            o.set("prompt_tokens", Json::uint(*x));
        }
        if let Some(x) = &self.completion_tokens {
            o.set("completion_tokens", Json::uint(*x));
        }
        if let Some(x) = &self.total_tokens {
            o.set("total_tokens", Json::uint(*x));
        }
        if let Some(x) = &self.prompt_tokens_details {
            o.set("prompt_tokens_details", x.to_json());
        }
        if let Some(x) = &self.completion_tokens_details {
            o.set("completion_tokens_details", x.to_json());
        }
        extend_map(&mut o, &self.extra);
        Json::object(o)
    }
}

/// An optional [`Usage`].
pub open spec fn opt_usage(o: ObjV, k: Seq<char>) -> Result<Option<UsageV>, Seq<char>> {
    match obj_get(o, k) {
        None | Some(JsonV::Null) => Ok(None),
        Some(j) => match decode_usage(j) {
            Ok(x) => Ok(Some(x)),
            Err(e) => Err(e),
        },
    }
}

fn get_opt_usage(o: &JsonMap, k: &str) -> (r: Result<Option<Usage>, String>)
    ensures
        res_opt(r) == opt_usage(o@, k@),
{
    match o.get(k) {
        None | Some(Json::Null) => Ok(None),
        Some(j) => match Usage::from_json(j) {
            Ok(x) => Ok(Some(x)),
            Err(e) => Err(e),
        },
    }
}

/// One choice of a response.
#[derive(Debug, PartialEq, Eq)]
pub struct Choice {
    /// Index of the choice.
    pub index: Option<u64>,
    /// The assistant message.
    pub message: Option<Json>,
    /// Why generation stopped.
    pub finish_reason: Option<String>,
    /// Unknown fields.
    pub extra: JsonMap,
}

/// The mathematical value of a [`Choice`].
pub struct ChoiceV {
    pub index: Option<u64>,
    pub message: Option<JsonV>,
    pub finish_reason: Option<Seq<char>>,
    pub extra: ObjV,
}

impl View for Choice {
    type V = ChoiceV;

    open spec fn view(&self) -> ChoiceV {
        ChoiceV {
            index: self.index,
            message: opt_view(self.message),
            finish_reason: opt_view(self.finish_reason),
            extra: self.extra@,
        }
    }
}

/// The members that a [`Choice`] models.
pub open spec fn choice_keys() -> Seq<Seq<char>> {
    seq!["index"@, "message"@, "finish_reason"@]
}

/// The [`Choice`] that `j` holds, or why it holds none.
pub open spec fn decode_choice(j: JsonV) -> Result<ChoiceV, Seq<char>> {
    match j {
        JsonV::Object(o) => match opt_u64(o, "index"@) {
            Err(e) => Err(e),
            Ok(index) => match opt_value(o, "message"@) {
                Err(e) => Err(e),
                Ok(message) => match opt_str(o, "finish_reason"@) {
                    Err(e) => Err(e),
                    Ok(finish_reason) => Ok(
                        ChoiceV { index, message, finish_reason, extra: unknown(o, choice_keys()) },
                    ),
                },
            },
        },
        _ => Err(not_an_object()),
    }
}

/// `t` as JSON: absent members are left out, unknown ones come last.
pub open spec fn encode_choice(t: ChoiceV) -> JsonV {
    let o0 = Seq::<(Seq<char>, JsonV)>::empty();
    let o1 = match t.index {
        Some(x) => obj_set(o0, "index"@, json_int(x as int)),
        None => o0,
    };
    let o2 = match t.message {
        Some(x) => obj_set(o1, "message"@, x),
        None => o1,
    };
    let o3 = match t.finish_reason {
        Some(x) => obj_set(o2, "finish_reason"@, JsonV::Str(x)),
        None => o2,
    };
    JsonV::Object(extended(o3, t.extra))
}

impl Choice {
    /// Reads a [`Choice`] from JSON.
    pub fn from_json(j: &Json) -> (r: Result<Choice, String>)
        ensures
            res(r) == decode_choice(j@),
    {
        let o = match j.as_object() {
            Some(o) => o,
            None => {
                return Err("invalid type: expected an object".to_owned());
            },
        };
        let index = match get_opt_u64(o, "index") {
            Ok(x) => x,
            Err(e) => {
                return Err(e);
            },
        };
        let message = match get_opt_value(o, "message") {
            Ok(x) => x,
            Err(e) => {
                return Err(e);
            },
        };
        let finish_reason = match get_opt_str(o, "finish_reason") {
            Ok(x) => x,
            Err(e) => {
                return Err(e);
            },
        };
        let mut known: Vec<&str> = Vec::new();
        known.push("index");
        known.push("message");
        known.push("finish_reason");
        proof {
            assert(views(known@) =~= choice_keys());
        }
        let extra = unknown_members(o, &known);
        Ok(Choice { index, message, finish_reason, extra })
    }

    /// Writes this value as JSON.
    pub fn to_json(&self) -> (r: Json)
        ensures
            r@ == encode_choice(self@),
    {
        let mut o = JsonMap::new();
        if let Some(x) = &self.index {
            o.set("index", Json::uint(*x));
        }
        if let Some(x) = &self.message {
            o.set("message", x.copy());
        }
        if let Some(x) = &self.finish_reason {
            o.set("finish_reason", Json::Str(x.clone()));
        }
        extend_map(&mut o, &self.extra);
        Json::object(o)
    }
}

/// The response body.
#[derive(Debug, PartialEq, Eq)]
pub struct Response {
    /// Response id.
    pub id: Option<String>,
    /// Model.
    pub model: Option<String>,
    /// Choices.
    pub choices: Vec<Json>,
    /// Token usage.
    pub usage: Option<Usage>,
    /// Unknown fields.
    pub extra: JsonMap,
}

/// The mathematical value of a [`Response`].
pub struct ResponseV {
    pub id: Option<Seq<char>>,
    pub model: Option<Seq<char>>,
    pub choices: Seq<JsonV>,
    pub usage: Option<UsageV>,
    pub extra: ObjV,
}

impl View for Response {
    type V = ResponseV;

    open spec fn view(&self) -> ResponseV {
        ResponseV {
            id: opt_view(self.id),
            model: opt_view(self.model),
            choices: views(self.choices@),
            usage: opt_view(self.usage),
            extra: self.extra@,
        }
    }
}

/// The members that a [`Response`] models.
pub open spec fn response_keys() -> Seq<Seq<char>> {
    seq!["id"@, "model"@, "choices"@, "usage"@]
}

/// The [`Response`] that `j` holds, or why it holds none.
pub open spec fn decode_response(j: JsonV) -> Result<ResponseV, Seq<char>> {
    match j {
        JsonV::Object(o) => match opt_str(o, "id"@) {
            Err(e) => Err(e),
            Ok(id) => match opt_str(o, "model"@) {
                Err(e) => Err(e),
                Ok(model) => match default_values(o, "choices"@) {
                    Err(e) => Err(e),
                    Ok(choices) => match opt_usage(o, "usage"@) {
                        Err(e) => Err(e),
                        Ok(usage) => Ok(
                            ResponseV { id, model, choices, usage, extra: unknown(o, response_keys()) },
                        ),
                    },
                },
            },
        },
        _ => Err(not_an_object()),
    }
}

/// `t` as JSON: absent members are left out, unknown ones come last.
pub open spec fn encode_response(t: ResponseV) -> JsonV {
    let o0 = Seq::<(Seq<char>, JsonV)>::empty();
    let o1 = match t.id {
        Some(x) => obj_set(o0, "id"@, JsonV::Str(x)),
        None => o0,
    };
    let o2 = match t.model {
        Some(x) => obj_set(o1, "model"@, JsonV::Str(x)),
        None => o1,
    };
    let o3 = obj_set(o2, "choices"@, JsonV::Array(t.choices));
    let o4 = match t.usage {
        Some(x) => obj_set(o3, "usage"@, encode_usage(x)),
        None => o3,
    };
    JsonV::Object(extended(o4, t.extra))
}

impl Response {
    /// Reads a [`Response`] from JSON.
    pub fn from_json(j: &Json) -> (r: Result<Response, String>)
        ensures
            res(r) == decode_response(j@),
    {
        let o = match j.as_object() {
            Some(o) => o,
            None => {
                return Err("invalid type: expected an object".to_owned());
            },
        };
        let id = match get_opt_str(o, "id") {
            Ok(x) => x,
            Err(e) => {
                return Err(e);
            },
        };
        let model = match get_opt_str(o, "model") {
            Ok(x) => x,
            Err(e) => {
                return Err(e);
            },
        };
        let choices = match get_default_values(o, "choices") {
            Ok(x) => x,
            Err(e) => {
                return Err(e);
            },
        };
        let usage = match get_opt_usage(o, "usage") {
            Ok(x) => x,
            Err(e) => {
                return Err(e);
            },
        };
        let mut known: Vec<&str> = Vec::new();
        known.push("id");
        known.push("model");
        known.push("choices");
        known.push("usage");
        proof {
            assert(views(known@) =~= response_keys());
        }
        let extra = unknown_members(o, &known);
        Ok(Response { id, model, choices, usage, extra })
    }

    /// Writes this value as JSON.
    pub fn to_json(&self) -> (r: Json)
        ensures
            r@ == encode_response(self@),
    {
        let mut o = JsonMap::new();
        if let Some(x) = &self.id {
            o.set("id", Json::Str(x.clone()));
        }
        if let Some(x) = &self.model {
            o.set("model", Json::Str(x.clone()));
        }
        o.set("choices", Json::array(dup_vec(&self.choices)));
        if let Some(x) = &self.usage {
            o.set("usage", x.to_json());
        }
        extend_map(&mut o, &self.extra);
        Json::object(o)
    }
}

/// The model list.
#[derive(Debug, PartialEq, Eq)]
pub struct ModelList {
    /// Object type.
    pub object: Option<String>,
    /// Model entries.
    pub data: Vec<Json>,
    /// Unknown fields.
    pub extra: JsonMap,
}

/// The mathematical value of a [`ModelList`].
pub struct ModelListV {
    pub object: Option<Seq<char>>,
    pub data: Seq<JsonV>,
    pub extra: ObjV,
}

impl View for ModelList {
    type V = ModelListV;

    open spec fn view(&self) -> ModelListV {
        ModelListV {
            object: opt_view(self.object),
            data: views(self.data@),
            extra: self.extra@,
        }
    }
}

/// The members that a [`ModelList`] models.
pub open spec fn model_list_keys() -> Seq<Seq<char>> {
    seq!["object"@, "data"@]
}

/// The [`ModelList`] that `j` holds, or why it holds none.
pub open spec fn decode_model_list(j: JsonV) -> Result<ModelListV, Seq<char>> {
    match j {
        JsonV::Object(o) => match opt_str(o, "object"@) {
            Err(e) => Err(e),
            Ok(object) => match default_values(o, "data"@) {
                Err(e) => Err(e),
                Ok(data) => Ok(
                    ModelListV { object, data, extra: unknown(o, model_list_keys()) },
                ),
            },
        },
        _ => Err(not_an_object()),
    }
}

/// `t` as JSON: absent members are left out, unknown ones come last.
pub open spec fn encode_model_list(t: ModelListV) -> JsonV {
    let o0 = Seq::<(Seq<char>, JsonV)>::empty();
    let o1 = match t.object {
        Some(x) => obj_set(o0, "object"@, JsonV::Str(x)),
        None => o0,
    };
    let o2 = obj_set(o1, "data"@, JsonV::Array(t.data));
    JsonV::Object(extended(o2, t.extra))
}

impl ModelList {
    /// Reads a [`ModelList`] from JSON.
    pub fn from_json(j: &Json) -> (r: Result<ModelList, String>)
        ensures
            res(r) == decode_model_list(j@),
    {
        let o = match j.as_object() {
            Some(o) => o,
            None => {
                return Err("invalid type: expected an object".to_owned());
            },
        };
        let object = match get_opt_str(o, "object") {
            Ok(x) => x,
            Err(e) => {
                return Err(e);
            },
        };
        let data = match get_default_values(o, "data") {
            Ok(x) => x,
            Err(e) => {
                return Err(e);
            },
        };
        let mut known: Vec<&str> = Vec::new();
        known.push("object");
        known.push("data");
        proof {
            assert(views(known@) =~= model_list_keys());
        }
        let extra = unknown_members(o, &known);
        Ok(ModelList { object, data, extra })
    }

    /// Writes this value as JSON.
    pub fn to_json(&self) -> (r: Json)
        ensures
            r@ == encode_model_list(self@),
    {
        let mut o = JsonMap::new();
        if let Some(x) = &self.object {
            o.set("object", Json::Str(x.clone()));
        }
        o.set("data", Json::array(dup_vec(&self.data)));
        extend_map(&mut o, &self.extra);
        Json::object(o)
    }
}

/// The error of an error body.
#[derive(Debug, PartialEq, Eq)]
pub struct ErrorDetail {
    /// Message.
    pub message: Option<String>,
    /// Error type.
    pub error_type: Option<String>,
    /// Error code.
    pub code: Option<Json>,
    /// Offending parameter.
    pub param: Option<Json>,
    /// Unknown fields.
    pub extra: JsonMap,
}

/// The mathematical value of a [`ErrorDetail`].
pub struct ErrorDetailV {
    pub message: Option<Seq<char>>,
    pub error_type: Option<Seq<char>>,
    pub code: Option<JsonV>,
    pub param: Option<JsonV>,
    pub extra: ObjV,
}

impl View for ErrorDetail {
    type V = ErrorDetailV;

    open spec fn view(&self) -> ErrorDetailV {
        ErrorDetailV {
            message: opt_view(self.message),
            error_type: opt_view(self.error_type),
            code: opt_view(self.code),
            param: opt_view(self.param),
            extra: self.extra@,
        }
    }
}

/// The members that a [`ErrorDetail`] models.
pub open spec fn error_detail_keys() -> Seq<Seq<char>> {
    seq!["message"@, "type"@, "code"@, "param"@]
}

/// The [`ErrorDetail`] that `j` holds, or why it holds none.
pub open spec fn decode_error_detail(j: JsonV) -> Result<ErrorDetailV, Seq<char>> {
    match j {
        JsonV::Object(o) => match opt_str(o, "message"@) {
            Err(e) => Err(e),
            Ok(message) => match opt_str(o, "type"@) {
                Err(e) => Err(e),
                Ok(error_type) => match opt_value(o, "code"@) {
                    Err(e) => Err(e),
                    Ok(code) => match opt_value(o, "param"@) {
                        Err(e) => Err(e),
                        Ok(param) => Ok(
                            ErrorDetailV { message, error_type, code, param, extra: unknown(o, error_detail_keys()) },
                        ),
                    },
                },
            },
        },
        _ => Err(not_an_object()),
    }
}

/// `t` as JSON: absent members are left out, unknown ones come last.
pub open spec fn encode_error_detail(t: ErrorDetailV) -> JsonV {
    let o0 = Seq::<(Seq<char>, JsonV)>::empty();
    let o1 = match t.message {
        Some(x) => obj_set(o0, "message"@, JsonV::Str(x)),
        None => o0,
    };
    let o2 = match t.error_type {
        Some(x) => obj_set(o1, "type"@, JsonV::Str(x)),
        None => o1,
    };
    let o3 = match t.code {
        Some(x) => obj_set(o2, "code"@, x),
        None => o2,
    };
    let o4 = match t.param {
        Some(x) => obj_set(o3, "param"@, x),
        None => o3,
    };
    JsonV::Object(extended(o4, t.extra))
}

impl ErrorDetail {
    /// Reads a [`ErrorDetail`] from JSON.
    pub fn from_json(j: &Json) -> (r: Result<ErrorDetail, String>)
        ensures
            res(r) == decode_error_detail(j@),
    {
        let o = match j.as_object() {
            Some(o) => o,
            None => {
                return Err("invalid type: expected an object".to_owned());
            },
        };
        let message = match get_opt_str(o, "message") {
            Ok(x) => x,
            Err(e) => {
                return Err(e);
            },
        };
        let error_type = match get_opt_str(o, "type") {
            Ok(x) => x,
            Err(e) => {
                return Err(e);
            },
        };
        let code = match get_opt_value(o, "code") {
            Ok(x) => x,
            Err(e) => {
                return Err(e);
            },
        };
        let param = match get_opt_value(o, "param") {
            Ok(x) => x,
            Err(e) => {
                return Err(e);
            },
        };
        let mut known: Vec<&str> = Vec::new();
        known.push("message");
        known.push("type");
        known.push("code");
        known.push("param");
        proof {
            assert(views(known@) =~= error_detail_keys());
        }
        let extra = unknown_members(o, &known);
        Ok(ErrorDetail { message, error_type, code, param, extra })
    }

    /// Writes this value as JSON.
    pub fn to_json(&self) -> (r: Json)
        ensures
            r@ == encode_error_detail(self@),
    {
        let mut o = JsonMap::new();
        if let Some(x) = &self.message {
            o.set("message", Json::Str(x.clone()));
        }
        if let Some(x) = &self.error_type {
            o.set("type", Json::Str(x.clone()));
        }
        if let Some(x) = &self.code {
            o.set("code", x.copy());
        }
        if let Some(x) = &self.param {
            o.set("param", x.copy());
        }
        extend_map(&mut o, &self.extra);
        Json::object(o)
    }
}

/// An optional [`ErrorDetail`].
pub open spec fn opt_error_detail(o: ObjV, k: Seq<char>) -> Result<Option<ErrorDetailV>, Seq<char>> {
    match obj_get(o, k) {
        None | Some(JsonV::Null) => Ok(None),
        Some(j) => match decode_error_detail(j) {
            Ok(x) => Ok(Some(x)),
            Err(e) => Err(e),
        },
    }
}

fn get_opt_error_detail(o: &JsonMap, k: &str) -> (r: Result<Option<ErrorDetail>, String>)
    ensures
        res_opt(r) == opt_error_detail(o@, k@),
{
    match o.get(k) {
        None | Some(Json::Null) => Ok(None),
        Some(j) => match ErrorDetail::from_json(j) {
            Ok(x) => Ok(Some(x)),
            Err(e) => Err(e),
        },
    }
}

/// An error body.
#[derive(Debug, PartialEq, Eq)]
pub struct ErrorBody {
    /// The error.
    pub error: Option<ErrorDetail>,
    /// Unknown fields.
    pub extra: JsonMap,
}

/// The mathematical value of a [`ErrorBody`].
pub struct ErrorBodyV {
    pub error: Option<ErrorDetailV>,
    pub extra: ObjV,
}

impl View for ErrorBody {
    type V = ErrorBodyV;

    open spec fn view(&self) -> ErrorBodyV {
        ErrorBodyV {
            error: opt_view(self.error),
            extra: self.extra@,
        }
    }
}

/// The members that a [`ErrorBody`] models.
pub open spec fn error_body_keys() -> Seq<Seq<char>> {
    seq!["error"@]
}

/// The [`ErrorBody`] that `j` holds, or why it holds none.
pub open spec fn decode_error_body(j: JsonV) -> Result<ErrorBodyV, Seq<char>> {
    match j {
        JsonV::Object(o) => match opt_error_detail(o, "error"@) {
            Err(e) => Err(e),
            Ok(error) => Ok(
                ErrorBodyV { error, extra: unknown(o, error_body_keys()) },
            ),
        },
        _ => Err(not_an_object()),
    }
}

/// `t` as JSON: absent members are left out, unknown ones come last.
pub open spec fn encode_error_body(t: ErrorBodyV) -> JsonV {
    let o0 = Seq::<(Seq<char>, JsonV)>::empty();
    let o1 = match t.error {
        Some(x) => obj_set(o0, "error"@, encode_error_detail(x)),
        None => o0,
    };
    JsonV::Object(extended(o1, t.extra))
}

impl ErrorBody {
    /// Reads a [`ErrorBody`] from JSON.
    pub fn from_json(j: &Json) -> (r: Result<ErrorBody, String>)
        ensures
            res(r) == decode_error_body(j@),
    {
        let o = match j.as_object() {
            Some(o) => o,
            None => {
                return Err("invalid type: expected an object".to_owned());
            },
        };
        let error = match get_opt_error_detail(o, "error") {
            Ok(x) => x,
            Err(e) => {
                return Err(e);
            },
        };
        let mut known: Vec<&str> = Vec::new();
        known.push("error");
        proof {
            assert(views(known@) =~= error_body_keys());
        }
        let extra = unknown_members(o, &known);
        Ok(ErrorBody { error, extra })
    }

    /// Writes this value as JSON.
    pub fn to_json(&self) -> (r: Json)
        ensures
            r@ == encode_error_body(self@),
    {
        let mut o = JsonMap::new();
        if let Some(x) = &self.error {
            o.set("error", x.to_json());
        }
        extend_map(&mut o, &self.extra);
        Json::object(o)
    }
}

} // verus!
