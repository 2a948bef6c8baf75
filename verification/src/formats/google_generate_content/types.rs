//! Wire types of the Google `generateContent` API. Every object keeps the
//! fields it does not model.

use vstd::prelude::*;
use crate::decode::{default_str, default_values, extend_map, extended, get_default_str, get_default_values, get_opt_bool, get_opt_float, get_opt_i64, get_opt_str, get_opt_strings, get_opt_u32, get_opt_value, get_opt_values, not_an_object, opt_bool, opt_float, opt_i64, opt_str, opt_strings, opt_u32, opt_value, opt_values, res, res_opt, res_opt_vec, res_vec, unknown, unknown_members};
use crate::json::{json_int, json_strings, make_strings, obj_get, obj_set, Json, JsonMap, JsonV, Num, NumV, ObjV};
use crate::model::{dup_vec, group_views, opt_view, opt_views, views};

verus! {

broadcast use group_views;

/// Inline media bytes.
#[derive(Debug, PartialEq, Eq)]
pub struct Blob {
    /// MIME type.
    pub mime_type: String,
    /// Base64 data.
    pub data: String,
    /// Unknown fields.
    pub extra: JsonMap,
}

/// The mathematical value of a [`Blob`].
pub struct BlobV {
    pub mime_type: Seq<char>,
    pub data: Seq<char>,
    pub extra: ObjV,
}

impl View for Blob {
    type V = BlobV;

    open spec fn view(&self) -> BlobV {
        BlobV {
            mime_type: self.mime_type@,
            data: self.data@,
            extra: self.extra@,
        }
    }
}

/// The members that a [`Blob`] models.
pub open spec fn blob_keys() -> Seq<Seq<char>> {
    seq!["mimeType"@, "data"@]
}

/// The [`Blob`] that `j` holds, or why it holds none.
pub open spec fn decode_blob(j: JsonV) -> Result<BlobV, Seq<char>> {
    match j {
        JsonV::Object(o) => match default_str(o, "mimeType"@) {
            Err(e) => Err(e),
            Ok(mime_type) => match default_str(o, "data"@) {
                Err(e) => Err(e),
                Ok(data) => Ok(
                    BlobV { mime_type, data, extra: unknown(o, blob_keys()) },
                ),
            },
        },
        _ => Err(not_an_object()),
    }
}

/// `t` as JSON: absent members are left out, unknown ones come last.
pub open spec fn encode_blob(t: BlobV) -> JsonV {
    let o0 = Seq::<(Seq<char>, JsonV)>::empty();
    let o1 = obj_set(o0, "mimeType"@, JsonV::Str(t.mime_type));
    let o2 = obj_set(o1, "data"@, JsonV::Str(t.data));
    JsonV::Object(extended(o2, t.extra))
}

impl Blob {
    /// Reads a [`Blob`] from JSON.
    pub fn from_json(j: &Json) -> (r: Result<Blob, String>)
        ensures
            res(r) == decode_blob(j@),
    {
        let o = match j.as_object() {
            Some(o) => o,
            None => {
                return Err("invalid type: expected an object".to_owned());
            },
        };
        let mime_type = match get_default_str(o, "mimeType") {
            Ok(x) => x,
            Err(e) => {
                return Err(e);
            },
        };
        let data = match get_default_str(o, "data") {
            Ok(x) => x,
            Err(e) => {
                return Err(e);
            },
        };
        let mut known: Vec<&str> = Vec::new();
        known.push("mimeType");
        known.push("data");
        proof {
            assert(views(known@) =~= blob_keys());
        }
        let extra = unknown_members(o, &known);
        Ok(Blob { mime_type, data, extra })
    }

    /// Writes this value as JSON.
    pub fn to_json(&self) -> (r: Json)
        ensures
            r@ == encode_blob(self@),
    {
        let mut o = JsonMap::new();
        o.set("mimeType", Json::Str(self.mime_type.clone()));
        o.set("data", Json::Str(self.data.clone()));
        extend_map(&mut o, &self.extra);
        Json::object(o)
    }
}

/// An optional [`Blob`].
pub open spec fn opt_blob(o: ObjV, k: Seq<char>) -> Result<Option<BlobV>, Seq<char>> {
    match obj_get(o, k) {
        None | Some(JsonV::Null) => Ok(None),
        Some(j) => match decode_blob(j) {
            Ok(x) => Ok(Some(x)),
            Err(e) => Err(e),
        },
    }
}

fn get_opt_blob(o: &JsonMap, k: &str) -> (r: Result<Option<Blob>, String>)
    ensures
        res_opt(r) == opt_blob(o@, k@),
{
    match o.get(k) {
        None | Some(Json::Null) => Ok(None),
        Some(j) => match Blob::from_json(j) {
            Ok(x) => Ok(Some(x)),
            Err(e) => Err(e),
        },
    }
}

/// URI-based data.
#[derive(Debug, PartialEq, Eq)]
pub struct FileData {
    /// MIME type.
    pub mime_type: Option<String>,
    /// File URI.
    pub file_uri: String,
    /// Unknown fields.
    pub extra: JsonMap,
}

/// The mathematical value of a [`FileData`].
pub struct FileDataV {
    pub mime_type: Option<Seq<char>>,
    pub file_uri: Seq<char>,
    pub extra: ObjV,
}

impl View for FileData {
    type V = FileDataV;

    open spec fn view(&self) -> FileDataV {
        FileDataV {
            mime_type: opt_view(self.mime_type),
            file_uri: self.file_uri@,
            extra: self.extra@,
        }
    }
}

/// The members that a [`FileData`] models.
pub open spec fn file_data_keys() -> Seq<Seq<char>> {
    seq!["mimeType"@, "fileUri"@]
}

/// The [`FileData`] that `j` holds, or why it holds none.
pub open spec fn decode_file_data(j: JsonV) -> Result<FileDataV, Seq<char>> {
    match j {
        JsonV::Object(o) => match opt_str(o, "mimeType"@) {
            Err(e) => Err(e),
            Ok(mime_type) => match default_str(o, "fileUri"@) {
                Err(e) => Err(e),
                Ok(file_uri) => Ok(
                    FileDataV { mime_type, file_uri, extra: unknown(o, file_data_keys()) },
                ),
            },
        },
        _ => Err(not_an_object()),
    }
}

/// `t` as JSON: absent members are left out, unknown ones come last.
pub open spec fn encode_file_data(t: FileDataV) -> JsonV {
    let o0 = Seq::<(Seq<char>, JsonV)>::empty();
    let o1 = match t.mime_type {
        Some(x) => obj_set(o0, "mimeType"@, JsonV::Str(x)),
        None => o0,
    };
    let o2 = obj_set(o1, "fileUri"@, JsonV::Str(t.file_uri));
    JsonV::Object(extended(o2, t.extra))
}

impl FileData {
    /// Reads a [`FileData`] from JSON.
    pub fn from_json(j: &Json) -> (r: Result<FileData, String>)
        ensures
            res(r) == decode_file_data(j@),
    {
        let o = match j.as_object() {
            Some(o) => o,
            None => {
                return Err("invalid type: expected an object".to_owned());
            },
        };
        let mime_type = match get_opt_str(o, "mimeType") {
            Ok(x) => x,
            Err(e) => {
                return Err(e);
            },
        };
        let file_uri = match get_default_str(o, "fileUri") {
            Ok(x) => x,
            Err(e) => {
                return Err(e);
            },
        };
        let mut known: Vec<&str> = Vec::new();
        known.push("mimeType");
        known.push("fileUri");
        proof {
            assert(views(known@) =~= file_data_keys());
        }
        let extra = unknown_members(o, &known);
        Ok(FileData { mime_type, file_uri, extra })
    }

    /// Writes this value as JSON.
    pub fn to_json(&self) -> (r: Json)
        ensures
            r@ == encode_file_data(self@),
    {
        let mut o = JsonMap::new();
        if let Some(x) = &self.mime_type {
            o.set("mimeType", Json::Str(x.clone()));
        }
        o.set("fileUri", Json::Str(self.file_uri.clone()));
        extend_map(&mut o, &self.extra);
        Json::object(o)
    }
}

/// An optional [`FileData`].
pub open spec fn opt_file_data(o: ObjV, k: Seq<char>) -> Result<Option<FileDataV>, Seq<char>> {
    match obj_get(o, k) {
        None | Some(JsonV::Null) => Ok(None),
        Some(j) => match decode_file_data(j) {
            Ok(x) => Ok(Some(x)),
            Err(e) => Err(e),
        },
    }
}

fn get_opt_file_data(o: &JsonMap, k: &str) -> (r: Result<Option<FileData>, String>)
    ensures
        res_opt(r) == opt_file_data(o@, k@),
{
    match o.get(k) {
        None | Some(Json::Null) => Ok(None),
        Some(j) => match FileData::from_json(j) {
            Ok(x) => Ok(Some(x)),
            Err(e) => Err(e),
        },
    }
}

/// A function call predicted by the model.
#[derive(Debug, PartialEq, Eq)]
pub struct FunctionCall {
    /// Call id.
    pub id: Option<String>,
    /// Function name.
    pub name: Option<String>,
    /// Arguments.
    pub args: Option<Json>,
    /// Unknown fields.
    pub extra: JsonMap,
}

/// The mathematical value of a [`FunctionCall`].
pub struct FunctionCallV {
    pub id: Option<Seq<char>>,
    pub name: Option<Seq<char>>,
    pub args: Option<JsonV>,
    pub extra: ObjV,
}

impl View for FunctionCall {
    type V = FunctionCallV;

    open spec fn view(&self) -> FunctionCallV {
        FunctionCallV {
            id: opt_view(self.id),
            name: opt_view(self.name),
            args: opt_view(self.args),
            extra: self.extra@,
        }
    }
}

/// The members that a [`FunctionCall`] models.
pub open spec fn function_call_keys() -> Seq<Seq<char>> {
    seq!["id"@, "name"@, "args"@]
}

/// The [`FunctionCall`] that `j` holds, or why it holds none.
pub open spec fn decode_function_call(j: JsonV) -> Result<FunctionCallV, Seq<char>> {
    match j {
        JsonV::Object(o) => match opt_str(o, "id"@) {
            Err(e) => Err(e),
            Ok(id) => match opt_str(o, "name"@) {
                Err(e) => Err(e),
                Ok(name) => match opt_value(o, "args"@) {
                    Err(e) => Err(e),
                    Ok(args) => Ok(
                        FunctionCallV { id, name, args, extra: unknown(o, function_call_keys()) },
                    ),
                },
            },
        },
        _ => Err(not_an_object()),
    }
}

/// `t` as JSON: absent members are left out, unknown ones come last.
pub open spec fn encode_function_call(t: FunctionCallV) -> JsonV {
    let o0 = Seq::<(Seq<char>, JsonV)>::empty();
    let o1 = match t.id {
        Some(x) => obj_set(o0, "id"@, JsonV::Str(x)),
        None => o0,
    };
    let o2 = match t.name {
        Some(x) => obj_set(o1, "name"@, JsonV::Str(x)),
        None => o1,
    };
    let o3 = match t.args {
        Some(x) => obj_set(o2, "args"@, x),
        None => o2,
    };
    JsonV::Object(extended(o3, t.extra))
}

impl FunctionCall {
    /// Reads a [`FunctionCall`] from JSON.
    pub fn from_json(j: &Json) -> (r: Result<FunctionCall, String>)
        ensures
            res(r) == decode_function_call(j@),
    {
        let o = match j.as_object() {
            Some(o) => o,
            None => {
                return Err("invalid type: expected an object".to_owned());
            },
        };
        let id = match get_opt_str(o, "id") {
            Ok(x) => x,
            Err(e) => {
                return Err(e);
            },
        };
        let name = match get_opt_str(o, "name") {
            Ok(x) => x,
            Err(e) => {
                return Err(e);
            },
        };
        let args = match get_opt_value(o, "args") {
            Ok(x) => x,
            Err(e) => {
                return Err(e);
            },
        };
        let mut known: Vec<&str> = Vec::new();
        known.push("id");
        known.push("name");
        known.push("args");
        proof {
            assert(views(known@) =~= function_call_keys());
        }
        let extra = unknown_members(o, &known);
        Ok(FunctionCall { id, name, args, extra })
    }

    /// Writes this value as JSON.
    pub fn to_json(&self) -> (r: Json)
        ensures
            r@ == encode_function_call(self@),
    {
        let mut o = JsonMap::new();
        if let Some(x) = &self.id {
            o.set("id", Json::Str(x.clone()));
        }
        if let Some(x) = &self.name {
            o.set("name", Json::Str(x.clone()));
        }
        if let Some(x) = &self.args {
            o.set("args", x.copy());
        }
        extend_map(&mut o, &self.extra);
        Json::object(o)
    }
}

/// An optional [`FunctionCall`].
pub open spec fn opt_function_call(o: ObjV, k: Seq<char>) -> Result<Option<FunctionCallV>, Seq<char>> {
    match obj_get(o, k) {
        None | Some(JsonV::Null) => Ok(None),
        Some(j) => match decode_function_call(j) {
            Ok(x) => Ok(Some(x)),
            Err(e) => Err(e),
        },
    }
}

fn get_opt_function_call(o: &JsonMap, k: &str) -> (r: Result<Option<FunctionCall>, String>)
    ensures
        res_opt(r) == opt_function_call(o@, k@),
{
    match o.get(k) {
        None | Some(Json::Null) => Ok(None),
        Some(j) => match FunctionCall::from_json(j) {
            Ok(x) => Ok(Some(x)),
            Err(e) => Err(e),
        },
    }
}

/// One media part of a function response.
#[derive(Debug, PartialEq, Eq)]
pub struct FunctionResponsePart {
    /// Inline media.
    pub inline_data: Option<Blob>,
    /// Unknown fields.
    pub extra: JsonMap,
}

/// The mathematical value of a [`FunctionResponsePart`].
pub struct FunctionResponsePartV {
    pub inline_data: Option<BlobV>,
    pub extra: ObjV,
}

impl View for FunctionResponsePart {
    type V = FunctionResponsePartV;

    open spec fn view(&self) -> FunctionResponsePartV {
        FunctionResponsePartV {
            inline_data: opt_view(self.inline_data),
            extra: self.extra@,
        }
    }
}

/// The members that a [`FunctionResponsePart`] models.
pub open spec fn function_response_part_keys() -> Seq<Seq<char>> {
    seq!["inlineData"@]
}

/// The [`FunctionResponsePart`] that `j` holds, or why it holds none.
pub open spec fn decode_function_response_part(j: JsonV) -> Result<FunctionResponsePartV, Seq<char>> {
    match j {
        JsonV::Object(o) => match opt_blob(o, "inlineData"@) {
            Err(e) => Err(e),
            Ok(inline_data) => Ok(
                FunctionResponsePartV { inline_data, extra: unknown(o, function_response_part_keys()) },
            ),
        },
        _ => Err(not_an_object()),
    }
}

/// `t` as JSON: absent members are left out, unknown ones come last.
pub open spec fn encode_function_response_part(t: FunctionResponsePartV) -> JsonV {
    let o0 = Seq::<(Seq<char>, JsonV)>::empty();
    let o1 = match t.inline_data {
        Some(x) => obj_set(o0, "inlineData"@, encode_blob(x)),
        None => o0,
    };
    JsonV::Object(extended(o1, t.extra))
}

impl FunctionResponsePart {
    /// Reads a [`FunctionResponsePart`] from JSON.
    pub fn from_json(j: &Json) -> (r: Result<FunctionResponsePart, String>)
        ensures
            res(r) == decode_function_response_part(j@),
    {
        let o = match j.as_object() {
            Some(o) => o,
            None => {
                return Err("invalid type: expected an object".to_owned());
            },
        };
        let inline_data = match get_opt_blob(o, "inlineData") {
            Ok(x) => x,
            Err(e) => {
                return Err(e);
            },
        };
        let mut known: Vec<&str> = Vec::new();
        known.push("inlineData");
        proof {
            assert(views(known@) =~= function_response_part_keys());
        }
        let extra = unknown_members(o, &known);
        Ok(FunctionResponsePart { inline_data, extra })
    }

    /// Writes this value as JSON.
    pub fn to_json(&self) -> (r: Json)
        ensures
            r@ == encode_function_response_part(self@),
    {
        let mut o = JsonMap::new();
        if let Some(x) = &self.inline_data {
            o.set("inlineData", x.to_json());
        }
        extend_map(&mut o, &self.extra);
        Json::object(o)
    }
}

/// The first `n` elements, each a [`FunctionResponsePart`].
pub open spec fn decode_vec_function_response_part(a: Seq<JsonV>, n: nat) -> Result<Seq<FunctionResponsePartV>, Seq<char>>
    decreases n,
{
    if n == 0 || n > a.len() {
        Ok(Seq::empty())
    } else {
        match decode_vec_function_response_part(a, (n - 1) as nat) {
            Err(e) => Err(e),
            Ok(prev) => match decode_function_response_part(a[n - 1]) {
                Err(e) => Err(e),
                Ok(x) => Ok(prev.push(x)),
            },
        }
    }
}

proof fn decode_vec_function_response_part_error_stays(a: Seq<JsonV>, n: nat, m: nat)
    requires
        n <= m <= a.len(),
        decode_vec_function_response_part(a, n) is Err,
    ensures
        decode_vec_function_response_part(a, m) == decode_vec_function_response_part(a, n),
    decreases m - n,
{
    if n < m {
        decode_vec_function_response_part_error_stays(a, n, (m - 1) as nat);
    }
}

fn read_vec_function_response_part(a: &Vec<Json>) -> (r: Result<Vec<FunctionResponsePart>, String>)
    ensures
        res_vec(r) == decode_vec_function_response_part(views(a@), a@.len()),
{
    let mut out: Vec<FunctionResponsePart> = Vec::new();
    let mut i: usize = 0;
    while i < a.len()
        invariant
            i <= a@.len(),
            decode_vec_function_response_part(views(a@), i as nat) == Ok::<Seq<FunctionResponsePartV>, Seq<char>>(views(out@)),
        decreases a@.len() - i,
    {
        match FunctionResponsePart::from_json(&a[i]) {
            Ok(x) => {
                out.push(x);
            },
            Err(e) => {
                proof {
                    decode_vec_function_response_part_error_stays(views(a@), i as nat + 1, a@.len());
                }
                return Err(e);
            },
        }
        i += 1;
    }
    Ok(out)
}

/// The elements as a JSON array.
pub open spec fn encode_vec_function_response_part(v: Seq<FunctionResponsePartV>) -> JsonV {
    JsonV::Array(v.map_values(|t: FunctionResponsePartV| encode_function_response_part(t)))
}

fn vec_function_response_part_to_json(v: &Vec<FunctionResponsePart>) -> (r: Json)
    ensures
        r@ == encode_vec_function_response_part(views(v@)),
{
    let ghost all = encode_vec_function_response_part(views(v@))->Array_0;
    let mut out: Vec<Json> = Vec::new();
    let mut i: usize = 0;
    while i < v.len()
        invariant
            i <= v@.len(),
            all == encode_vec_function_response_part(views(v@))->Array_0,
            views(out@) == all.take(i as int),
        decreases v@.len() - i,
    {
        out.push(v[i].to_json());
        proof {
            assert(all.take(i as int + 1) =~= all.take(i as int).push(all[i as int]));
        }
        i += 1;
    }
    proof {
        assert(all.take(i as int) =~= all);
    }
    Json::array(out)
}

/// An optional array of [`FunctionResponsePart`].
pub open spec fn opt_vec_function_response_part(o: ObjV, k: Seq<char>) -> Result<Option<Seq<FunctionResponsePartV>>, Seq<char>> {
    match opt_values(o, k) {
        Err(e) => Err(e),
        Ok(None) => Ok(None),
        Ok(Some(a)) => match decode_vec_function_response_part(a, a.len()) {
            Err(e) => Err(e),
            Ok(v) => Ok(Some(v)),
        },
    }
}

fn get_opt_vec_function_response_part(o: &JsonMap, k: &str) -> (r: Result<Option<Vec<FunctionResponsePart>>, String>)
    ensures
        res_opt_vec(r) == opt_vec_function_response_part(o@, k@),
{
    match get_opt_values(o, k) {
        Err(e) => Err(e),
        Ok(None) => Ok(None),
        Ok(Some(a)) => match read_vec_function_response_part(&a) {
            Err(e) => Err(e),
            Ok(v) => Ok(Some(v)),
        },
    }
}

/// The result of a function call.
#[derive(Debug, PartialEq, Eq)]
pub struct FunctionResponse {
    /// Call id.
    pub id: Option<String>,
    /// Function name.
    pub name: Option<String>,
    /// Function output.
    pub response: Option<Json>,
    /// Media parts.
    pub parts: Option<Vec<FunctionResponsePart>>,
    /// Unknown fields.
    pub extra: JsonMap,
}

/// The mathematical value of a [`FunctionResponse`].
pub struct FunctionResponseV {
    pub id: Option<Seq<char>>,
    pub name: Option<Seq<char>>,
    pub response: Option<JsonV>,
    pub parts: Option<Seq<FunctionResponsePartV>>,
    pub extra: ObjV,
}

impl View for FunctionResponse {
    type V = FunctionResponseV;

    open spec fn view(&self) -> FunctionResponseV {
        FunctionResponseV {
            id: opt_view(self.id),
            name: opt_view(self.name),
            response: opt_view(self.response),
            parts: opt_views(self.parts),
            extra: self.extra@,
        }
    }
}

/// The members that a [`FunctionResponse`] models.
pub open spec fn function_response_keys() -> Seq<Seq<char>> {
    seq!["id"@, "name"@, "response"@, "parts"@]
}

/// The [`FunctionResponse`] that `j` holds, or why it holds none.
pub open spec fn decode_function_response(j: JsonV) -> Result<FunctionResponseV, Seq<char>> {
    match j {
        JsonV::Object(o) => match opt_str(o, "id"@) {
            Err(e) => Err(e),
            Ok(id) => match opt_str(o, "name"@) {
                Err(e) => Err(e),
                Ok(name) => match opt_value(o, "response"@) {
                    Err(e) => Err(e),
                    Ok(response) => match opt_vec_function_response_part(o, "parts"@) {
                        Err(e) => Err(e),
                        Ok(parts) => Ok(
                            FunctionResponseV { id, name, response, parts, extra: unknown(o, function_response_keys()) },
                        ),
                    },
                },
            },
        },
        _ => Err(not_an_object()),
    }
}

/// `t` as JSON: absent members are left out, unknown ones come last.
pub open spec fn encode_function_response(t: FunctionResponseV) -> JsonV {
    let o0 = Seq::<(Seq<char>, JsonV)>::empty();
    let o1 = match t.id {
        Some(x) => obj_set(o0, "id"@, JsonV::Str(x)),
        None => o0,
    };
    let o2 = match t.name {
        Some(x) => obj_set(o1, "name"@, JsonV::Str(x)),
        None => o1,
    };
    let o3 = match t.response {
        Some(x) => obj_set(o2, "response"@, x),
        None => o2,
    };
    let o4 = match t.parts {
        Some(x) => obj_set(o3, "parts"@, encode_vec_function_response_part(x)),
        None => o3,
    };
    JsonV::Object(extended(o4, t.extra))
}

impl FunctionResponse {
    /// Reads a [`FunctionResponse`] from JSON.
    pub fn from_json(j: &Json) -> (r: Result<FunctionResponse, String>)
        ensures
            res(r) == decode_function_response(j@),
    {
        let o = match j.as_object() {
            Some(o) => o,
            None => {
                return Err("invalid type: expected an object".to_owned());
            },
        };
        let id = match get_opt_str(o, "id") {
            Ok(x) => x,
            Err(e) => {
                return Err(e);
            },
        };
        let name = match get_opt_str(o, "name") {
            Ok(x) => x,
            Err(e) => {
                return Err(e);
            },
        };
        let response = match get_opt_value(o, "response") {
            Ok(x) => x,
            Err(e) => {
                return Err(e);
            },
        };
        let parts = match get_opt_vec_function_response_part(o, "parts") {
            Ok(x) => x,
            Err(e) => {
                return Err(e);
            },
        };
        let mut known: Vec<&str> = Vec::new();
        known.push("id");
        known.push("name");
        known.push("response");
        known.push("parts");
        proof {
            assert(views(known@) =~= function_response_keys());
        }
        let extra = unknown_members(o, &known);
        Ok(FunctionResponse { id, name, response, parts, extra })
    }

    /// Writes this value as JSON.
    pub fn to_json(&self) -> (r: Json)
        ensures
            r@ == encode_function_response(self@),
    {
        let mut o = JsonMap::new();
        if let Some(x) = &self.id {
            o.set("id", Json::Str(x.clone()));
        }
        if let Some(x) = &self.name {
            o.set("name", Json::Str(x.clone()));
        }
        if let Some(x) = &self.response {
            o.set("response", x.copy());
        }
        if let Some(x) = &self.parts {
            o.set("parts", vec_function_response_part_to_json(x));
        }
        extend_map(&mut o, &self.extra);
        Json::object(o)
    }
}

/// An optional [`FunctionResponse`].
pub open spec fn opt_function_response(o: ObjV, k: Seq<char>) -> Result<Option<FunctionResponseV>, Seq<char>> {
    match obj_get(o, k) {
        None | Some(JsonV::Null) => Ok(None),
        Some(j) => match decode_function_response(j) {
            Ok(x) => Ok(Some(x)),
            Err(e) => Err(e),
        },
    }
}

fn get_opt_function_response(o: &JsonMap, k: &str) -> (r: Result<Option<FunctionResponse>, String>)
    ensures
        res_opt(r) == opt_function_response(o@, k@),
{
    match o.get(k) {
        None | Some(Json::Null) => Ok(None),
        Some(j) => match FunctionResponse::from_json(j) {
            Ok(x) => Ok(Some(x)),
            Err(e) => Err(e),
        },
    }
}

/// One part of a content: one member of the data union, and modifiers.
#[derive(Debug, PartialEq, Eq)]
pub struct Part {
    /// Inline text.
    pub text: Option<String>,
    /// Inline media.
    pub inline_data: Option<Blob>,
    /// A function call.
    pub function_call: Option<FunctionCall>,
    /// A function response.
    pub function_response: Option<FunctionResponse>,
    /// A file reference.
    pub file_data: Option<FileData>,
    /// The part is a thought.
    pub thought: Option<bool>,
    /// Signature of the thought.
    pub thought_signature: Option<String>,
    /// Unknown fields.
    pub extra: JsonMap,
}

/// The mathematical value of a [`Part`].
pub struct PartV {
    pub text: Option<Seq<char>>,
    pub inline_data: Option<BlobV>,
    pub function_call: Option<FunctionCallV>,
    pub function_response: Option<FunctionResponseV>,
    pub file_data: Option<FileDataV>,
    pub thought: Option<bool>,
    pub thought_signature: Option<Seq<char>>,
    pub extra: ObjV,
}

impl View for Part {
    type V = PartV;

    open spec fn view(&self) -> PartV {
        PartV {
            text: opt_view(self.text),
            inline_data: opt_view(self.inline_data),
            function_call: opt_view(self.function_call),
            function_response: opt_view(self.function_response),
            file_data: opt_view(self.file_data),
            thought: self.thought,
            thought_signature: opt_view(self.thought_signature),
            extra: self.extra@,
        }
    }
}

/// The members that a [`Part`] models.
pub open spec fn part_keys() -> Seq<Seq<char>> {
    seq!["text"@, "inlineData"@, "functionCall"@, "functionResponse"@, "fileData"@, "thought"@, "thoughtSignature"@]
}

/// The [`Part`] that `j` holds, or why it holds none.
pub open spec fn decode_part(j: JsonV) -> Result<PartV, Seq<char>> {
    match j {
        JsonV::Object(o) => match opt_str(o, "text"@) {
            Err(e) => Err(e),
            Ok(text) => match opt_blob(o, "inlineData"@) {
                Err(e) => Err(e),
                Ok(inline_data) => match opt_function_call(o, "functionCall"@) {
                    Err(e) => Err(e),
                    Ok(function_call) => match opt_function_response(o, "functionResponse"@) {
                        Err(e) => Err(e),
                        Ok(function_response) => match opt_file_data(o, "fileData"@) {
                            Err(e) => Err(e),
                            Ok(file_data) => match opt_bool(o, "thought"@) {
                                Err(e) => Err(e),
                                Ok(thought) => match opt_str(o, "thoughtSignature"@) {
                                    Err(e) => Err(e),
                                    Ok(thought_signature) => Ok(
                                        PartV { text, inline_data, function_call, function_response, file_data, thought, thought_signature, extra: unknown(o, part_keys()) },
                                    ),
                                },
                            },
                        },
                    },
                },
            },
        },
        _ => Err(not_an_object()),
    }
}

/// `t` as JSON: absent members are left out, unknown ones come last.
pub open spec fn encode_part(t: PartV) -> JsonV {
    let o0 = Seq::<(Seq<char>, JsonV)>::empty();
    let o1 = match t.text {
        Some(x) => obj_set(o0, "text"@, JsonV::Str(x)),
        None => o0,
    };
    let o2 = match t.inline_data {
        Some(x) => obj_set(o1, "inlineData"@, encode_blob(x)),
        None => o1,
    };
    let o3 = match t.function_call {
        Some(x) => obj_set(o2, "functionCall"@, encode_function_call(x)),
        None => o2,
    };
    let o4 = match t.function_response {
        Some(x) => obj_set(o3, "functionResponse"@, encode_function_response(x)),
        None => o3,
    };
    let o5 = match t.file_data {
        Some(x) => obj_set(o4, "fileData"@, encode_file_data(x)),
        None => o4,
    };
    let o6 = match t.thought {
        Some(x) => obj_set(o5, "thought"@, JsonV::Bool(x)),
        None => o5,
    };
    let o7 = match t.thought_signature {
        Some(x) => obj_set(o6, "thoughtSignature"@, JsonV::Str(x)),
        None => o6,
    };
    JsonV::Object(extended(o7, t.extra))
}

impl Part {
    /// Reads a [`Part`] from JSON.
    pub fn from_json(j: &Json) -> (r: Result<Part, String>)
        ensures
            res(r) == decode_part(j@),
    {
        let o = match j.as_object() {
            Some(o) => o,
            None => {
                return Err("invalid type: expected an object".to_owned());
            },
        };
        let text = match get_opt_str(o, "text") {
            Ok(x) => x,
            Err(e) => {
                return Err(e);
            },
        };
        let inline_data = match get_opt_blob(o, "inlineData") {
            Ok(x) => x,
            Err(e) => {
                return Err(e);
            },
        };
        let function_call = match get_opt_function_call(o, "functionCall") {
            Ok(x) => x,
            Err(e) => {
                return Err(e);
            },
        };
        let function_response = match get_opt_function_response(o, "functionResponse") {
            Ok(x) => x,
            Err(e) => {
                return Err(e);
            },
        };
        let file_data = match get_opt_file_data(o, "fileData") {
            Ok(x) => x,
            Err(e) => {
                return Err(e);
            },
        };
        let thought = match get_opt_bool(o, "thought") {
            Ok(x) => x,
            Err(e) => {
                return Err(e);
            },
        };
        let thought_signature = match get_opt_str(o, "thoughtSignature") {
            Ok(x) => x,
            Err(e) => {
                return Err(e);
            },
        };
        let mut known: Vec<&str> = Vec::new();
        known.push("text");
        known.push("inlineData");
        known.push("functionCall");
        known.push("functionResponse");
        known.push("fileData");
        known.push("thought");
        known.push("thoughtSignature");
        proof {
            assert(views(known@) =~= part_keys());
        }
        let extra = unknown_members(o, &known);
        Ok(Part { text, inline_data, function_call, function_response, file_data, thought, thought_signature, extra })
    }

    /// Writes this value as JSON.
    pub fn to_json(&self) -> (r: Json)
        ensures
            r@ == encode_part(self@),
    {
        let mut o = JsonMap::new();
        if let Some(x) = &self.text {
            o.set("text", Json::Str(x.clone()));
        }
        if let Some(x) = &self.inline_data {
            o.set("inlineData", x.to_json());
        }
        if let Some(x) = &self.function_call {
            o.set("functionCall", x.to_json());
        }
        if let Some(x) = &self.function_response {
            o.set("functionResponse", x.to_json());
        }
        if let Some(x) = &self.file_data {
            o.set("fileData", x.to_json());
        }
        if let Some(x) = &self.thought {
            o.set("thought", Json::Bool(*x));
        }
        if let Some(x) = &self.thought_signature {
            o.set("thoughtSignature", Json::Str(x.clone()));
        }
        extend_map(&mut o, &self.extra);
        Json::object(o)
    }
}

/// The first `n` elements, each a [`Part`].
pub open spec fn decode_vec_part(a: Seq<JsonV>, n: nat) -> Result<Seq<PartV>, Seq<char>>
    decreases n,
{
    if n == 0 || n > a.len() {
        Ok(Seq::empty())
    } else {
        match decode_vec_part(a, (n - 1) as nat) {
            Err(e) => Err(e),
            Ok(prev) => match decode_part(a[n - 1]) {
                Err(e) => Err(e),
                Ok(x) => Ok(prev.push(x)),
            },
        }
    }
}

proof fn decode_vec_part_error_stays(a: Seq<JsonV>, n: nat, m: nat)
    requires
        n <= m <= a.len(),
        decode_vec_part(a, n) is Err,
    ensures
        decode_vec_part(a, m) == decode_vec_part(a, n),
    decreases m - n,
{
    if n < m {
        decode_vec_part_error_stays(a, n, (m - 1) as nat);
    }
}

fn read_vec_part(a: &Vec<Json>) -> (r: Result<Vec<Part>, String>)
    ensures
        res_vec(r) == decode_vec_part(views(a@), a@.len()),
{
    let mut out: Vec<Part> = Vec::new();
    let mut i: usize = 0;
    while i < a.len()
        invariant
            i <= a@.len(),
            decode_vec_part(views(a@), i as nat) == Ok::<Seq<PartV>, Seq<char>>(views(out@)),
        decreases a@.len() - i,
    {
        match Part::from_json(&a[i]) {
            Ok(x) => {
                out.push(x);
            },
            Err(e) => {
                proof {
                    decode_vec_part_error_stays(views(a@), i as nat + 1, a@.len());
                }
                return Err(e);
            },
        }
        i += 1;
    }
    Ok(out)
}

/// The elements as a JSON array.
pub open spec fn encode_vec_part(v: Seq<PartV>) -> JsonV {
    JsonV::Array(v.map_values(|t: PartV| encode_part(t)))
}

fn vec_part_to_json(v: &Vec<Part>) -> (r: Json)
    ensures
        r@ == encode_vec_part(views(v@)),
{
    let ghost all = encode_vec_part(views(v@))->Array_0;
    let mut out: Vec<Json> = Vec::new();
    let mut i: usize = 0;
    while i < v.len()
        invariant
            i <= v@.len(),
            all == encode_vec_part(views(v@))->Array_0,
            views(out@) == all.take(i as int),
        decreases v@.len() - i,
    {
        out.push(v[i].to_json());
        proof {
            assert(all.take(i as int + 1) =~= all.take(i as int).push(all[i as int]));
        }
        i += 1;
    }
    proof {
        assert(all.take(i as int) =~= all);
    }
    Json::array(out)
}

/// An array of [`Part`] that is empty when absent.
pub open spec fn default_vec_part(o: ObjV, k: Seq<char>) -> Result<Seq<PartV>, Seq<char>> {
    match default_values(o, k) {
        Err(e) => Err(e),
        Ok(a) => decode_vec_part(a, a.len()),
    }
}

fn get_vec_part(o: &JsonMap, k: &str) -> (r: Result<Vec<Part>, String>)
    ensures
        res_vec(r) == default_vec_part(o@, k@),
{
    match get_default_values(o, k) {
        Err(e) => Err(e),
        Ok(a) => read_vec_part(&a),
    }
}

/// The content of one message.
#[derive(Debug, PartialEq, Eq)]
pub struct Content {
    /// Producer of the content.
    pub role: Option<String>,
    /// Parts, in order.
    pub parts: Vec<Part>,
    /// Unknown fields.
    pub extra: JsonMap,
}

/// The mathematical value of a [`Content`].
pub struct ContentV {
    pub role: Option<Seq<char>>,
    pub parts: Seq<PartV>,
    pub extra: ObjV,
}

impl View for Content {
    type V = ContentV;

    open spec fn view(&self) -> ContentV {
        ContentV {
            role: opt_view(self.role),
            parts: views(self.parts@),
            extra: self.extra@,
        }
    }
}

/// The members that a [`Content`] models.
pub open spec fn content_keys() -> Seq<Seq<char>> {
    seq!["role"@, "parts"@]
}

/// The [`Content`] that `j` holds, or why it holds none.
pub open spec fn decode_content(j: JsonV) -> Result<ContentV, Seq<char>> {
    match j {
        JsonV::Object(o) => match opt_str(o, "role"@) {
            Err(e) => Err(e),
            Ok(role) => match default_vec_part(o, "parts"@) {
                Err(e) => Err(e),
                Ok(parts) => Ok(
                    ContentV { role, parts, extra: unknown(o, content_keys()) },
                ),
            },
        },
        _ => Err(not_an_object()),
    }
}

/// `t` as JSON: absent members are left out, unknown ones come last.
pub open spec fn encode_content(t: ContentV) -> JsonV {
    let o0 = Seq::<(Seq<char>, JsonV)>::empty();
    let o1 = match t.role {
        Some(x) => obj_set(o0, "role"@, JsonV::Str(x)),
        None => o0,
    };
    let o2 = obj_set(o1, "parts"@, encode_vec_part(t.parts));
    JsonV::Object(extended(o2, t.extra))
}

impl Content {
    /// Reads a [`Content`] from JSON.
    pub fn from_json(j: &Json) -> (r: Result<Content, String>)
        ensures
            res(r) == decode_content(j@),
    {
        let o = match j.as_object() {
            Some(o) => o,
            None => {
                return Err("invalid type: expected an object".to_owned());
            },
        };
        let role = match get_opt_str(o, "role") {
            Ok(x) => x,
            Err(e) => {
                return Err(e);
            },
        };
        let parts = match get_vec_part(o, "parts") {
            Ok(x) => x,
            Err(e) => {
                return Err(e);
            },
        };
        let mut known: Vec<&str> = Vec::new();
        known.push("role");
        known.push("parts");
        proof {
            assert(views(known@) =~= content_keys());
        }
        let extra = unknown_members(o, &known);
        Ok(Content { role, parts, extra })
    }

    /// Writes this value as JSON.
    pub fn to_json(&self) -> (r: Json)
        ensures
            r@ == encode_content(self@),
    {
        let mut o = JsonMap::new();
        if let Some(x) = &self.role {
            o.set("role", Json::Str(x.clone()));
        }
        o.set("parts", vec_part_to_json(&self.parts));
        extend_map(&mut o, &self.extra);
        Json::object(o)
    }
}

/// An optional [`Content`].
pub open spec fn opt_content(o: ObjV, k: Seq<char>) -> Result<Option<ContentV>, Seq<char>> {
    match obj_get(o, k) {
        None | Some(JsonV::Null) => Ok(None),
        Some(j) => match decode_content(j) {
            Ok(x) => Ok(Some(x)),
            Err(e) => Err(e),
        },
    }
}

fn get_opt_content(o: &JsonMap, k: &str) -> (r: Result<Option<Content>, String>)
    ensures
        res_opt(r) == opt_content(o@, k@),
{
    match o.get(k) {
        None | Some(Json::Null) => Ok(None),
        Some(j) => match Content::from_json(j) {
            Ok(x) => Ok(Some(x)),
            Err(e) => Err(e),
        },
    }
}

/// The first `n` elements, each a [`Content`].
pub open spec fn decode_vec_content(a: Seq<JsonV>, n: nat) -> Result<Seq<ContentV>, Seq<char>>
    decreases n,
{
    if n == 0 || n > a.len() {
        Ok(Seq::empty())
    } else {
        match decode_vec_content(a, (n - 1) as nat) {
            Err(e) => Err(e),
            Ok(prev) => match decode_content(a[n - 1]) {
                Err(e) => Err(e),
                Ok(x) => Ok(prev.push(x)),
            },
        }
    }
}

proof fn decode_vec_content_error_stays(a: Seq<JsonV>, n: nat, m: nat)
    requires
        n <= m <= a.len(),
        decode_vec_content(a, n) is Err,
    ensures
        decode_vec_content(a, m) == decode_vec_content(a, n),
    decreases m - n,
{
    if n < m {
        decode_vec_content_error_stays(a, n, (m - 1) as nat);
    }
}

fn read_vec_content(a: &Vec<Json>) -> (r: Result<Vec<Content>, String>)
    ensures
        res_vec(r) == decode_vec_content(views(a@), a@.len()),
{
    let mut out: Vec<Content> = Vec::new();
    let mut i: usize = 0;
    while i < a.len()
        invariant
            i <= a@.len(),
            decode_vec_content(views(a@), i as nat) == Ok::<Seq<ContentV>, Seq<char>>(views(out@)),
        decreases a@.len() - i,
    {
        match Content::from_json(&a[i]) {
            Ok(x) => {
                out.push(x);
            },
            Err(e) => {
                proof {
                    decode_vec_content_error_stays(views(a@), i as nat + 1, a@.len());
                }
                return Err(e);
            },
        }
        i += 1;
    }
    Ok(out)
}

/// The elements as a JSON array.
pub open spec fn encode_vec_content(v: Seq<ContentV>) -> JsonV {
    JsonV::Array(v.map_values(|t: ContentV| encode_content(t)))
}

fn vec_content_to_json(v: &Vec<Content>) -> (r: Json)
    ensures
        r@ == encode_vec_content(views(v@)),
{
    let ghost all = encode_vec_content(views(v@))->Array_0;
    let mut out: Vec<Json> = Vec::new();
    let mut i: usize = 0;
    while i < v.len()
        invariant
            i <= v@.len(),
            all == encode_vec_content(views(v@))->Array_0,
            views(out@) == all.take(i as int),
        decreases v@.len() - i,
    {
        out.push(v[i].to_json());
        proof {
            assert(all.take(i as int + 1) =~= all.take(i as int).push(all[i as int]));
        }
        i += 1;
    }
    proof {
        assert(all.take(i as int) =~= all);
    }
    Json::array(out)
}

/// An array of [`Content`] that is empty when absent.
pub open spec fn default_vec_content(o: ObjV, k: Seq<char>) -> Result<Seq<ContentV>, Seq<char>> {
    match default_values(o, k) {
        Err(e) => Err(e),
        Ok(a) => decode_vec_content(a, a.len()),
    }
}

fn get_vec_content(o: &JsonMap, k: &str) -> (r: Result<Vec<Content>, String>)
    ensures
        res_vec(r) == default_vec_content(o@, k@),
{
    match get_default_values(o, k) {
        Err(e) => Err(e),
        Ok(a) => read_vec_content(&a),
    }
}

/// A function the model may call.
#[derive(Debug, PartialEq, Eq)]
pub struct FunctionDeclaration {
    /// Function name.
    pub name: String,
    /// Description.
    pub description: Option<String>,
    /// JSON Schema of the parameters.
    pub parameters_json_schema: Option<Json>,
    /// Unknown fields.
    pub extra: JsonMap,
}

/// The mathematical value of a [`FunctionDeclaration`].
pub struct FunctionDeclarationV {
    pub name: Seq<char>,
    pub description: Option<Seq<char>>,
    pub parameters_json_schema: Option<JsonV>,
    pub extra: ObjV,
}

impl View for FunctionDeclaration {
    type V = FunctionDeclarationV;

    open spec fn view(&self) -> FunctionDeclarationV {
        FunctionDeclarationV {
            name: self.name@,
            description: opt_view(self.description),
            parameters_json_schema: opt_view(self.parameters_json_schema),
            extra: self.extra@,
        }
    }
}

/// The members that a [`FunctionDeclaration`] models.
pub open spec fn function_declaration_keys() -> Seq<Seq<char>> {
    seq!["name"@, "description"@, "parametersJsonSchema"@]
}

/// The [`FunctionDeclaration`] that `j` holds, or why it holds none.
pub open spec fn decode_function_declaration(j: JsonV) -> Result<FunctionDeclarationV, Seq<char>> {
    match j {
        JsonV::Object(o) => match default_str(o, "name"@) {
            Err(e) => Err(e),
            Ok(name) => match opt_str(o, "description"@) {
                Err(e) => Err(e),
                Ok(description) => match opt_value(o, "parametersJsonSchema"@) {
                    Err(e) => Err(e),
                    Ok(parameters_json_schema) => Ok(
                        FunctionDeclarationV { name, description, parameters_json_schema, extra: unknown(o, function_declaration_keys()) },
                    ),
                },
            },
        },
        _ => Err(not_an_object()),
    }
}

/// `t` as JSON: absent members are left out, unknown ones come last.
pub open spec fn encode_function_declaration(t: FunctionDeclarationV) -> JsonV {
    let o0 = Seq::<(Seq<char>, JsonV)>::empty();
    let o1 = obj_set(o0, "name"@, JsonV::Str(t.name));
    let o2 = match t.description {
        Some(x) => obj_set(o1, "description"@, JsonV::Str(x)),
        None => o1,
    };
    let o3 = match t.parameters_json_schema {
        Some(x) => obj_set(o2, "parametersJsonSchema"@, x),
        None => o2,
    };
    JsonV::Object(extended(o3, t.extra))
}

impl FunctionDeclaration {
    /// Reads a [`FunctionDeclaration`] from JSON.
    pub fn from_json(j: &Json) -> (r: Result<FunctionDeclaration, String>)
        ensures
            res(r) == decode_function_declaration(j@),
    {
        let o = match j.as_object() {
            Some(o) => o,
            None => {
                return Err("invalid type: expected an object".to_owned());
            },
        };
        let name = match get_default_str(o, "name") {
            Ok(x) => x,
            Err(e) => {
                return Err(e);
            },
        };
        let description = match get_opt_str(o, "description") {
            Ok(x) => x,
            Err(e) => {
                return Err(e);
            },
        };
        let parameters_json_schema = match get_opt_value(o, "parametersJsonSchema") {
            Ok(x) => x,
            Err(e) => {
                return Err(e);
            },
        };
        let mut known: Vec<&str> = Vec::new();
        known.push("name");
        known.push("description");
        known.push("parametersJsonSchema");
        proof {
            assert(views(known@) =~= function_declaration_keys());
        }
        let extra = unknown_members(o, &known);
        Ok(FunctionDeclaration { name, description, parameters_json_schema, extra })
    }

    /// Writes this value as JSON.
    pub fn to_json(&self) -> (r: Json)
        ensures
            r@ == encode_function_declaration(self@),
    {
        let mut o = JsonMap::new();
        o.set("name", Json::Str(self.name.clone()));
        if let Some(x) = &self.description {
            o.set("description", Json::Str(x.clone()));
        }
        if let Some(x) = &self.parameters_json_schema {
            o.set("parametersJsonSchema", x.copy());
        }
        extend_map(&mut o, &self.extra);
        Json::object(o)
    }
}

/// The first `n` elements, each a [`FunctionDeclaration`].
pub open spec fn decode_vec_function_declaration(a: Seq<JsonV>, n: nat) -> Result<Seq<FunctionDeclarationV>, Seq<char>>
    decreases n,
{
    if n == 0 || n > a.len() {
        Ok(Seq::empty())
    } else {
        match decode_vec_function_declaration(a, (n - 1) as nat) {
            Err(e) => Err(e),
            Ok(prev) => match decode_function_declaration(a[n - 1]) {
                Err(e) => Err(e),
                Ok(x) => Ok(prev.push(x)),
            },
        }
    }
}

proof fn decode_vec_function_declaration_error_stays(a: Seq<JsonV>, n: nat, m: nat)
    requires
        n <= m <= a.len(),
        decode_vec_function_declaration(a, n) is Err,
    ensures
        decode_vec_function_declaration(a, m) == decode_vec_function_declaration(a, n),
    decreases m - n,
{
    if n < m {
        decode_vec_function_declaration_error_stays(a, n, (m - 1) as nat);
    }
}

fn read_vec_function_declaration(a: &Vec<Json>) -> (r: Result<Vec<FunctionDeclaration>, String>)
    ensures
        res_vec(r) == decode_vec_function_declaration(views(a@), a@.len()),
{
    let mut out: Vec<FunctionDeclaration> = Vec::new();
    let mut i: usize = 0;
    while i < a.len()
        invariant
            i <= a@.len(),
            decode_vec_function_declaration(views(a@), i as nat) == Ok::<Seq<FunctionDeclarationV>, Seq<char>>(views(out@)),
        decreases a@.len() - i,
    {
        match FunctionDeclaration::from_json(&a[i]) {
            Ok(x) => {
                out.push(x);
            },
            Err(e) => {
                proof {
                    decode_vec_function_declaration_error_stays(views(a@), i as nat + 1, a@.len());
                }
                return Err(e);
            },
        }
        i += 1;
    }
    Ok(out)
}

/// The elements as a JSON array.
pub open spec fn encode_vec_function_declaration(v: Seq<FunctionDeclarationV>) -> JsonV {
    JsonV::Array(v.map_values(|t: FunctionDeclarationV| encode_function_declaration(t)))
}

fn vec_function_declaration_to_json(v: &Vec<FunctionDeclaration>) -> (r: Json)
    ensures
        r@ == encode_vec_function_declaration(views(v@)),
{
    let ghost all = encode_vec_function_declaration(views(v@))->Array_0;
    let mut out: Vec<Json> = Vec::new();
    let mut i: usize = 0;
    while i < v.len()
        invariant
            i <= v@.len(),
            all == encode_vec_function_declaration(views(v@))->Array_0,
            views(out@) == all.take(i as int),
        decreases v@.len() - i,
    {
        out.push(v[i].to_json());
        proof {
            assert(all.take(i as int + 1) =~= all.take(i as int).push(all[i as int]));
        }
        i += 1;
    }
    proof {
        assert(all.take(i as int) =~= all);
    }
    Json::array(out)
}

/// An optional array of [`FunctionDeclaration`].
pub open spec fn opt_vec_function_declaration(o: ObjV, k: Seq<char>) -> Result<Option<Seq<FunctionDeclarationV>>, Seq<char>> {
    match opt_values(o, k) {
        Err(e) => Err(e),
        Ok(None) => Ok(None),
        Ok(Some(a)) => match decode_vec_function_declaration(a, a.len()) {
            Err(e) => Err(e),
            Ok(v) => Ok(Some(v)),
        },
    }
}

fn get_opt_vec_function_declaration(o: &JsonMap, k: &str) -> (r: Result<Option<Vec<FunctionDeclaration>>, String>)
    ensures
        res_opt_vec(r) == opt_vec_function_declaration(o@, k@),
{
    match get_opt_values(o, k) {
        Err(e) => Err(e),
        Ok(None) => Ok(None),
        Ok(Some(a)) => match read_vec_function_declaration(&a) {
            Err(e) => Err(e),
            Ok(v) => Ok(Some(v)),
        },
    }
}

/// One entry of the `tools` array.
#[derive(Debug, PartialEq, Eq)]
pub struct Tool {
    /// Functions the model may call.
    pub function_declarations: Option<Vec<FunctionDeclaration>>,
    /// Unknown fields.
    pub extra: JsonMap,
}

/// The mathematical value of a [`Tool`].
pub struct ToolV {
    pub function_declarations: Option<Seq<FunctionDeclarationV>>,
    pub extra: ObjV,
}

impl View for Tool {
    type V = ToolV;

    open spec fn view(&self) -> ToolV {
        ToolV {
            function_declarations: opt_views(self.function_declarations),
            extra: self.extra@,
        }
    }
}

/// The members that a [`Tool`] models.
pub open spec fn tool_keys() -> Seq<Seq<char>> {
    seq!["functionDeclarations"@]
}

/// The [`Tool`] that `j` holds, or why it holds none.
pub open spec fn decode_tool(j: JsonV) -> Result<ToolV, Seq<char>> {
    match j {
        JsonV::Object(o) => match opt_vec_function_declaration(o, "functionDeclarations"@) {
            Err(e) => Err(e),
            Ok(function_declarations) => Ok(
                ToolV { function_declarations, extra: unknown(o, tool_keys()) },
            ),
        },
        _ => Err(not_an_object()),
    }
}

/// `t` as JSON: absent members are left out, unknown ones come last.
pub open spec fn encode_tool(t: ToolV) -> JsonV {
    let o0 = Seq::<(Seq<char>, JsonV)>::empty();
    let o1 = match t.function_declarations {
        Some(x) => obj_set(o0, "functionDeclarations"@, encode_vec_function_declaration(x)),
        None => o0,
    };
    JsonV::Object(extended(o1, t.extra))
}

impl Tool {
    /// Reads a [`Tool`] from JSON.
    pub fn from_json(j: &Json) -> (r: Result<Tool, String>)
        ensures
            res(r) == decode_tool(j@),
    {
        let o = match j.as_object() {
            Some(o) => o,
            None => {
                return Err("invalid type: expected an object".to_owned());
            },
        };
        let function_declarations = match get_opt_vec_function_declaration(o, "functionDeclarations") {
            Ok(x) => x,
            Err(e) => {
                return Err(e);
            },
        };
        let mut known: Vec<&str> = Vec::new();
        known.push("functionDeclarations");
        proof {
            assert(views(known@) =~= tool_keys());
        }
        let extra = unknown_members(o, &known);
        Ok(Tool { function_declarations, extra })
    }

    /// Writes this value as JSON.
    pub fn to_json(&self) -> (r: Json)
        ensures
            r@ == encode_tool(self@),
    {
        let mut o = JsonMap::new();
        if let Some(x) = &self.function_declarations {
            o.set("functionDeclarations", vec_function_declaration_to_json(x));
        }
        extend_map(&mut o, &self.extra);
        Json::object(o)
    }
}

/// The first `n` elements, each a [`Tool`].
pub open spec fn decode_vec_tool(a: Seq<JsonV>, n: nat) -> Result<Seq<ToolV>, Seq<char>>
    decreases n,
{
    if n == 0 || n > a.len() {
        Ok(Seq::empty())
    } else {
        match decode_vec_tool(a, (n - 1) as nat) {
            Err(e) => Err(e),
            Ok(prev) => match decode_tool(a[n - 1]) {
                Err(e) => Err(e),
                Ok(x) => Ok(prev.push(x)),
            },
        }
    }
}

proof fn decode_vec_tool_error_stays(a: Seq<JsonV>, n: nat, m: nat)
    requires
        n <= m <= a.len(),
        decode_vec_tool(a, n) is Err,
    ensures
        decode_vec_tool(a, m) == decode_vec_tool(a, n),
    decreases m - n,
{
    if n < m {
        decode_vec_tool_error_stays(a, n, (m - 1) as nat);
    }
}

fn read_vec_tool(a: &Vec<Json>) -> (r: Result<Vec<Tool>, String>)
    ensures
        res_vec(r) == decode_vec_tool(views(a@), a@.len()),
{
    let mut out: Vec<Tool> = Vec::new();
    let mut i: usize = 0;
    while i < a.len()
        invariant
            i <= a@.len(),
            decode_vec_tool(views(a@), i as nat) == Ok::<Seq<ToolV>, Seq<char>>(views(out@)),
        decreases a@.len() - i,
    {
        match Tool::from_json(&a[i]) {
            Ok(x) => {
                out.push(x);
            },
            Err(e) => {
                proof {
                    decode_vec_tool_error_stays(views(a@), i as nat + 1, a@.len());
                }
                return Err(e);
            },
        }
        i += 1;
    }
    Ok(out)
}

/// The elements as a JSON array.
pub open spec fn encode_vec_tool(v: Seq<ToolV>) -> JsonV {
    JsonV::Array(v.map_values(|t: ToolV| encode_tool(t)))
}

fn vec_tool_to_json(v: &Vec<Tool>) -> (r: Json)
    ensures
        r@ == encode_vec_tool(views(v@)),
{
    let ghost all = encode_vec_tool(views(v@))->Array_0;
    let mut out: Vec<Json> = Vec::new();
    let mut i: usize = 0;
    while i < v.len()
        invariant
            i <= v@.len(),
            all == encode_vec_tool(views(v@))->Array_0,
            views(out@) == all.take(i as int),
        decreases v@.len() - i,
    {
        out.push(v[i].to_json());
        proof {
            assert(all.take(i as int + 1) =~= all.take(i as int).push(all[i as int]));
        }
        i += 1;
    }
    proof {
        assert(all.take(i as int) =~= all);
    }
    Json::array(out)
}

/// An optional array of [`Tool`].
pub open spec fn opt_vec_tool(o: ObjV, k: Seq<char>) -> Result<Option<Seq<ToolV>>, Seq<char>> {
    match opt_values(o, k) {
        Err(e) => Err(e),
        Ok(None) => Ok(None),
        Ok(Some(a)) => match decode_vec_tool(a, a.len()) {
            Err(e) => Err(e),
            Ok(v) => Ok(Some(v)),
        },
    }
}

fn get_opt_vec_tool(o: &JsonMap, k: &str) -> (r: Result<Option<Vec<Tool>>, String>)
    ensures
        res_opt_vec(r) == opt_vec_tool(o@, k@),
{
    match get_opt_values(o, k) {
        Err(e) => Err(e),
        Ok(None) => Ok(None),
        Ok(Some(a)) => match read_vec_tool(&a) {
            Err(e) => Err(e),
            Ok(v) => Ok(Some(v)),
        },
    }
}

/// Function calling behavior.
#[derive(Debug, PartialEq, Eq)]
pub struct FunctionCallingConfig {
    /// Calling mode.
    pub mode: Option<String>,
    /// Functions that may be called.
    pub allowed_function_names: Option<Vec<String>>,
    /// Unknown fields.
    pub extra: JsonMap,
}

/// The mathematical value of a [`FunctionCallingConfig`].
pub struct FunctionCallingConfigV {
    pub mode: Option<Seq<char>>,
    pub allowed_function_names: Option<Seq<Seq<char>>>,
    pub extra: ObjV,
}

impl View for FunctionCallingConfig {
    type V = FunctionCallingConfigV;

    open spec fn view(&self) -> FunctionCallingConfigV {
        FunctionCallingConfigV {
            mode: opt_view(self.mode),
            allowed_function_names: opt_views(self.allowed_function_names),
            extra: self.extra@,
        }
    }
}

/// The members that a [`FunctionCallingConfig`] models.
pub open spec fn function_calling_config_keys() -> Seq<Seq<char>> {
    seq!["mode"@, "allowedFunctionNames"@]
}

/// The [`FunctionCallingConfig`] that `j` holds, or why it holds none.
pub open spec fn decode_function_calling_config(j: JsonV) -> Result<FunctionCallingConfigV, Seq<char>> {
    match j {
        JsonV::Object(o) => match opt_str(o, "mode"@) {
            Err(e) => Err(e),
            Ok(mode) => match opt_strings(o, "allowedFunctionNames"@) {
                Err(e) => Err(e),
                Ok(allowed_function_names) => Ok(
                    FunctionCallingConfigV { mode, allowed_function_names, extra: unknown(o, function_calling_config_keys()) },
                ),
            },
        },
        _ => Err(not_an_object()),
    }
}

/// `t` as JSON: absent members are left out, unknown ones come last.
pub open spec fn encode_function_calling_config(t: FunctionCallingConfigV) -> JsonV {
    let o0 = Seq::<(Seq<char>, JsonV)>::empty();
    let o1 = match t.mode {
        Some(x) => obj_set(o0, "mode"@, JsonV::Str(x)),
        None => o0,
    };
    let o2 = match t.allowed_function_names {
        Some(x) => obj_set(o1, "allowedFunctionNames"@, json_strings(x)),
        None => o1,
    };
    JsonV::Object(extended(o2, t.extra))
}

impl FunctionCallingConfig {
    /// Reads a [`FunctionCallingConfig`] from JSON.
    pub fn from_json(j: &Json) -> (r: Result<FunctionCallingConfig, String>)
        ensures
            res(r) == decode_function_calling_config(j@),
    {
        let o = match j.as_object() {
            Some(o) => o,
            None => {
                return Err("invalid type: expected an object".to_owned());
            },
        };
        let mode = match get_opt_str(o, "mode") {
            Ok(x) => x,
            Err(e) => {
                return Err(e);
            },
        };
        let allowed_function_names = match get_opt_strings(o, "allowedFunctionNames") {
            Ok(x) => x,
            Err(e) => {
                return Err(e);
            },
        };
        let mut known: Vec<&str> = Vec::new();
        known.push("mode");
        known.push("allowedFunctionNames");
        proof {
            assert(views(known@) =~= function_calling_config_keys());
        }
        let extra = unknown_members(o, &known);
        Ok(FunctionCallingConfig { mode, allowed_function_names, extra })
    }

    /// Writes this value as JSON.
    pub fn to_json(&self) -> (r: Json)
        ensures
            r@ == encode_function_calling_config(self@),
    {
        let mut o = JsonMap::new();
        if let Some(x) = &self.mode {
            o.set("mode", Json::Str(x.clone()));
        }
        if let Some(x) = &self.allowed_function_names {
            o.set("allowedFunctionNames", make_strings(x));
        }
        extend_map(&mut o, &self.extra);
        Json::object(o)
    }
}

/// An optional [`FunctionCallingConfig`].
pub open spec fn opt_function_calling_config(o: ObjV, k: Seq<char>) -> Result<Option<FunctionCallingConfigV>, Seq<char>> {
    match obj_get(o, k) {
        None | Some(JsonV::Null) => Ok(None),
        Some(j) => match decode_function_calling_config(j) {
            Ok(x) => Ok(Some(x)),
            Err(e) => Err(e),
        },
    }
}

fn get_opt_function_calling_config(o: &JsonMap, k: &str) -> (r: Result<Option<FunctionCallingConfig>, String>)
    ensures
        res_opt(r) == opt_function_calling_config(o@, k@),
{
    match o.get(k) {
        None | Some(Json::Null) => Ok(None),
        Some(j) => match FunctionCallingConfig::from_json(j) {
            Ok(x) => Ok(Some(x)),
            Err(e) => Err(e),
        },
    }
}

/// Configuration of the tools.
#[derive(Debug, PartialEq, Eq)]
pub struct ToolConfig {
    /// Function calling behavior.
    pub function_calling_config: Option<FunctionCallingConfig>,
    /// Unknown fields.
    pub extra: JsonMap,
}

/// The mathematical value of a [`ToolConfig`].
pub struct ToolConfigV {
    pub function_calling_config: Option<FunctionCallingConfigV>,
    pub extra: ObjV,
}

impl View for ToolConfig {
    type V = ToolConfigV;

    open spec fn view(&self) -> ToolConfigV {
        ToolConfigV {
            function_calling_config: opt_view(self.function_calling_config),
            extra: self.extra@,
        }
    }
}

/// The members that a [`ToolConfig`] models.
pub open spec fn tool_config_keys() -> Seq<Seq<char>> {
    seq!["functionCallingConfig"@]
}

/// The [`ToolConfig`] that `j` holds, or why it holds none.
pub open spec fn decode_tool_config(j: JsonV) -> Result<ToolConfigV, Seq<char>> {
    match j {
        JsonV::Object(o) => match opt_function_calling_config(o, "functionCallingConfig"@) {
            Err(e) => Err(e),
            Ok(function_calling_config) => Ok(
                ToolConfigV { function_calling_config, extra: unknown(o, tool_config_keys()) },
            ),
        },
        _ => Err(not_an_object()),
    }
}

/// `t` as JSON: absent members are left out, unknown ones come last.
pub open spec fn encode_tool_config(t: ToolConfigV) -> JsonV {
    let o0 = Seq::<(Seq<char>, JsonV)>::empty();
    let o1 = match t.function_calling_config {
        Some(x) => obj_set(o0, "functionCallingConfig"@, encode_function_calling_config(x)),
        None => o0,
    };
    JsonV::Object(extended(o1, t.extra))
}

impl ToolConfig {
    /// Reads a [`ToolConfig`] from JSON.
    pub fn from_json(j: &Json) -> (r: Result<ToolConfig, String>)
        ensures
            res(r) == decode_tool_config(j@),
    {
        let o = match j.as_object() {
            Some(o) => o,
            None => {
                return Err("invalid type: expected an object".to_owned());
            },
        };
        let function_calling_config = match get_opt_function_calling_config(o, "functionCallingConfig") {
            Ok(x) => x,
            Err(e) => {
                return Err(e);
            },
        };
        let mut known: Vec<&str> = Vec::new();
        known.push("functionCallingConfig");
        proof {
            assert(views(known@) =~= tool_config_keys());
        }
        let extra = unknown_members(o, &known);
        Ok(ToolConfig { function_calling_config, extra })
    }

    /// Writes this value as JSON.
    pub fn to_json(&self) -> (r: Json)
        ensures
            r@ == encode_tool_config(self@),
    {
        let mut o = JsonMap::new();
        if let Some(x) = &self.function_calling_config {
            o.set("functionCallingConfig", x.to_json());
        }
        extend_map(&mut o, &self.extra);
        Json::object(o)
    }
}

/// An optional [`ToolConfig`].
pub open spec fn opt_tool_config(o: ObjV, k: Seq<char>) -> Result<Option<ToolConfigV>, Seq<char>> {
    match obj_get(o, k) {
        None | Some(JsonV::Null) => Ok(None),
        Some(j) => match decode_tool_config(j) {
            Ok(x) => Ok(Some(x)),
            Err(e) => Err(e),
        },
    }
}

fn get_opt_tool_config(o: &JsonMap, k: &str) -> (r: Result<Option<ToolConfig>, String>)
    ensures
        res_opt(r) == opt_tool_config(o@, k@),
{
    match o.get(k) {
        None | Some(Json::Null) => Ok(None),
        Some(j) => match ToolConfig::from_json(j) {
            Ok(x) => Ok(Some(x)),
            Err(e) => Err(e),
        },
    }
}

/// Thinking configuration.
#[derive(Debug, PartialEq, Eq)]
pub struct ThinkingConfig {
    /// Return thought summaries.
    pub include_thoughts: Option<bool>,
    /// Depth of reasoning.
    pub thinking_level: Option<String>,
    /// Unknown fields.
    pub extra: JsonMap,
}

/// The mathematical value of a [`ThinkingConfig`].
pub struct ThinkingConfigV {
    pub include_thoughts: Option<bool>,
    pub thinking_level: Option<Seq<char>>,
    pub extra: ObjV,
}

impl View for ThinkingConfig {
    type V = ThinkingConfigV;

    open spec fn view(&self) -> ThinkingConfigV {
        ThinkingConfigV {
            include_thoughts: self.include_thoughts,
            thinking_level: opt_view(self.thinking_level),
            extra: self.extra@,
        }
    }
}

/// The members that a [`ThinkingConfig`] models.
pub open spec fn thinking_config_keys() -> Seq<Seq<char>> {
    seq!["includeThoughts"@, "thinkingLevel"@]
}

/// The [`ThinkingConfig`] that `j` holds, or why it holds none.
pub open spec fn decode_thinking_config(j: JsonV) -> Result<ThinkingConfigV, Seq<char>> {
    match j {
        JsonV::Object(o) => match opt_bool(o, "includeThoughts"@) {
            Err(e) => Err(e),
            Ok(include_thoughts) => match opt_str(o, "thinkingLevel"@) {
                Err(e) => Err(e),
                Ok(thinking_level) => Ok(
                    ThinkingConfigV { include_thoughts, thinking_level, extra: unknown(o, thinking_config_keys()) },
                ),
            },
        },
        _ => Err(not_an_object()),
    }
}

/// `t` as JSON: absent members are left out, unknown ones come last.
pub open spec fn encode_thinking_config(t: ThinkingConfigV) -> JsonV {
    let o0 = Seq::<(Seq<char>, JsonV)>::empty();
    let o1 = match t.include_thoughts {
        Some(x) => obj_set(o0, "includeThoughts"@, JsonV::Bool(x)),
        None => o0,
    };
    let o2 = match t.thinking_level {
        Some(x) => obj_set(o1, "thinkingLevel"@, JsonV::Str(x)),
        None => o1,
    };
    JsonV::Object(extended(o2, t.extra))
}

impl ThinkingConfig {
    /// Reads a [`ThinkingConfig`] from JSON.
    pub fn from_json(j: &Json) -> (r: Result<ThinkingConfig, String>)
        ensures
            res(r) == decode_thinking_config(j@),
    {
        let o = match j.as_object() {
            Some(o) => o,
            None => {
                return Err("invalid type: expected an object".to_owned());
            },
        };
        let include_thoughts = match get_opt_bool(o, "includeThoughts") {
            Ok(x) => x,
            Err(e) => {
                return Err(e);
            },
        };
        let thinking_level = match get_opt_str(o, "thinkingLevel") {
            Ok(x) => x,
            Err(e) => {
                return Err(e);
            },
        };
        let mut known: Vec<&str> = Vec::new();
        known.push("includeThoughts");
        known.push("thinkingLevel");
        proof {
            assert(views(known@) =~= thinking_config_keys());
        }
        let extra = unknown_members(o, &known);
        Ok(ThinkingConfig { include_thoughts, thinking_level, extra })
    }

    /// Writes this value as JSON.
    pub fn to_json(&self) -> (r: Json)
        ensures
            r@ == encode_thinking_config(self@),
    {
        let mut o = JsonMap::new();
        if let Some(x) = &self.include_thoughts {
            o.set("includeThoughts", Json::Bool(*x));
        }
        if let Some(x) = &self.thinking_level {
            o.set("thinkingLevel", Json::Str(x.clone()));
        }
        extend_map(&mut o, &self.extra);
        Json::object(o)
    }
}

/// An optional [`ThinkingConfig`].
pub open spec fn opt_thinking_config(o: ObjV, k: Seq<char>) -> Result<Option<ThinkingConfigV>, Seq<char>> {
    match obj_get(o, k) {
        None | Some(JsonV::Null) => Ok(None),
        Some(j) => match decode_thinking_config(j) {
            Ok(x) => Ok(Some(x)),
            Err(e) => Err(e),
        },
    }
}

fn get_opt_thinking_config(o: &JsonMap, k: &str) -> (r: Result<Option<ThinkingConfig>, String>)
    ensures
        res_opt(r) == opt_thinking_config(o@, k@),
{
    match o.get(k) {
        None | Some(Json::Null) => Ok(None),
        Some(j) => match ThinkingConfig::from_json(j) {
            Ok(x) => Ok(Some(x)),
            Err(e) => Err(e),
        },
    }
}

/// Generation and output options.
#[derive(Debug, PartialEq, Eq)]
pub struct GenerationConfig {
    /// Stop sequences.
    pub stop_sequences: Option<Vec<String>>,
    /// Output MIME type.
    pub response_mime_type: Option<String>,
    /// Output schema.
    pub response_json_schema: Option<Json>,
    /// Maximum tokens.
    pub max_output_tokens: Option<u32>,
    /// Sampling temperature.
    pub temperature: Option<Num>,
    /// Nucleus sampling.
    pub top_p: Option<Num>,
    /// Top-k sampling.
    pub top_k: Option<u32>,
    /// Decoding seed.
    pub seed: Option<i64>,
    /// Presence penalty.
    pub presence_penalty: Option<Num>,
    /// Frequency penalty.
    pub frequency_penalty: Option<Num>,
    /// Thinking configuration.
    pub thinking_config: Option<ThinkingConfig>,
    /// Unknown fields.
    pub extra: JsonMap,
}

/// The mathematical value of a [`GenerationConfig`].
pub struct GenerationConfigV {
    pub stop_sequences: Option<Seq<Seq<char>>>,
    pub response_mime_type: Option<Seq<char>>,
    pub response_json_schema: Option<JsonV>,
    pub max_output_tokens: Option<u32>,
    pub temperature: Option<NumV>,
    pub top_p: Option<NumV>,
    pub top_k: Option<u32>,
    pub seed: Option<i64>,
    pub presence_penalty: Option<NumV>,
    pub frequency_penalty: Option<NumV>,
    pub thinking_config: Option<ThinkingConfigV>,
    pub extra: ObjV,
}

impl View for GenerationConfig {
    type V = GenerationConfigV;

    open spec fn view(&self) -> GenerationConfigV {
        GenerationConfigV {
            stop_sequences: opt_views(self.stop_sequences),
            response_mime_type: opt_view(self.response_mime_type),
            response_json_schema: opt_view(self.response_json_schema),
            max_output_tokens: self.max_output_tokens,
            temperature: opt_view(self.temperature),
            top_p: opt_view(self.top_p),
            top_k: self.top_k,
            seed: self.seed,
            presence_penalty: opt_view(self.presence_penalty),
            frequency_penalty: opt_view(self.frequency_penalty),
            thinking_config: opt_view(self.thinking_config),
            extra: self.extra@,
        }
    }
}

/// The members that a [`GenerationConfig`] models.
pub open spec fn generation_config_keys() -> Seq<Seq<char>> {
    seq!["stopSequences"@, "responseMimeType"@, "responseJsonSchema"@, "maxOutputTokens"@, "temperature"@, "topP"@, "topK"@, "seed"@, "presencePenalty"@, "frequencyPenalty"@, "thinkingConfig"@]
}

/// The [`GenerationConfig`] that `j` holds, or why it holds none.
pub open spec fn decode_generation_config(j: JsonV) -> Result<GenerationConfigV, Seq<char>> {
    match j {
        JsonV::Object(o) => match opt_strings(o, "stopSequences"@) {
            Err(e) => Err(e),
            Ok(stop_sequences) => match opt_str(o, "responseMimeType"@) {
                Err(e) => Err(e),
                Ok(response_mime_type) => match opt_value(o, "responseJsonSchema"@) {
                    Err(e) => Err(e),
                    Ok(response_json_schema) => match opt_u32(o, "maxOutputTokens"@) {
                        Err(e) => Err(e),
                        Ok(max_output_tokens) => match opt_float(o, "temperature"@) {
                            Err(e) => Err(e),
                            Ok(temperature) => match opt_float(o, "topP"@) {
                                Err(e) => Err(e),
                                Ok(top_p) => match opt_u32(o, "topK"@) {
                                    Err(e) => Err(e),
                                    Ok(top_k) => match opt_i64(o, "seed"@) {
                                        Err(e) => Err(e),
                                        Ok(seed) => match opt_float(o, "presencePenalty"@) {
                                            Err(e) => Err(e),
                                            Ok(presence_penalty) => match opt_float(o, "frequencyPenalty"@) {
                                                Err(e) => Err(e),
                                                Ok(frequency_penalty) => match opt_thinking_config(o, "thinkingConfig"@) {
                                                    Err(e) => Err(e),
                                                    Ok(thinking_config) => Ok(
                                                        GenerationConfigV { stop_sequences, response_mime_type, response_json_schema, max_output_tokens, temperature, top_p, top_k, seed, presence_penalty, frequency_penalty, thinking_config, extra: unknown(o, generation_config_keys()) },
                                                    ),
                                                },
                                            },
                                        },
                                    },
                                },
                            },
                        },
                    },
                },
            },
        },
        _ => Err(not_an_object()),
    }
}

/// `t` as JSON: absent members are left out, unknown ones come last.
pub open spec fn encode_generation_config(t: GenerationConfigV) -> JsonV {
    let o0 = Seq::<(Seq<char>, JsonV)>::empty();
    let o1 = match t.stop_sequences {
        Some(x) => obj_set(o0, "stopSequences"@, json_strings(x)),
        None => o0,
    };
    let o2 = match t.response_mime_type {
        Some(x) => obj_set(o1, "responseMimeType"@, JsonV::Str(x)),
        None => o1,
    };
    let o3 = match t.response_json_schema {
        Some(x) => obj_set(o2, "responseJsonSchema"@, x),
        None => o2,
    };
    let o4 = match t.max_output_tokens {
        Some(x) => obj_set(o3, "maxOutputTokens"@, json_int(x as int)),
        None => o3,
    };
    let o5 = match t.temperature {
        Some(x) => obj_set(o4, "temperature"@, JsonV::Number(x)),
        None => o4,
    };
    let o6 = match t.top_p {
        Some(x) => obj_set(o5, "topP"@, JsonV::Number(x)),
        None => o5,
    };
    let o7 = match t.top_k {
        Some(x) => obj_set(o6, "topK"@, json_int(x as int)),
        None => o6,
    };
    let o8 = match t.seed {
        Some(x) => obj_set(o7, "seed"@, json_int(x as int)),
        None => o7,
    };
    let o9 = match t.presence_penalty {
        Some(x) => obj_set(o8, "presencePenalty"@, JsonV::Number(x)),
        None => o8,
    };
    let o10 = match t.frequency_penalty {
        Some(x) => obj_set(o9, "frequencyPenalty"@, JsonV::Number(x)),
        None => o9,
    };
    let o11 = match t.thinking_config {
        Some(x) => obj_set(o10, "thinkingConfig"@, encode_thinking_config(x)),
        None => o10,
    };
    JsonV::Object(extended(o11, t.extra))
}

impl GenerationConfig {
    /// Reads a [`GenerationConfig`] from JSON.
    pub fn from_json(j: &Json) -> (r: Result<GenerationConfig, String>)
        ensures
            res(r) == decode_generation_config(j@),
    {
        let o = match j.as_object() {
            Some(o) => o,
            None => {
                return Err("invalid type: expected an object".to_owned());
            },
        };
        let stop_sequences = match get_opt_strings(o, "stopSequences") {
            Ok(x) => x,
            Err(e) => {
                return Err(e);
            },
        };
        let response_mime_type = match get_opt_str(o, "responseMimeType") {
            Ok(x) => x,
            Err(e) => {
                return Err(e);
            },
        };
        let response_json_schema = match get_opt_value(o, "responseJsonSchema") {
            Ok(x) => x,
            Err(e) => {
                return Err(e);
            },
        };
        let max_output_tokens = match get_opt_u32(o, "maxOutputTokens") {
            Ok(x) => x,
            Err(e) => {
                return Err(e);
            },
        };
        let temperature = match get_opt_float(o, "temperature") {
            Ok(x) => x,
            Err(e) => {
                return Err(e);
            },
        };
        let top_p = match get_opt_float(o, "topP") {
            Ok(x) => x,
            Err(e) => {
                return Err(e);
            },
        };
        let top_k = match get_opt_u32(o, "topK") {
            Ok(x) => x,
            Err(e) => {
                return Err(e);
            },
        };
        let seed = match get_opt_i64(o, "seed") {
            Ok(x) => x,
            Err(e) => {
                return Err(e);
            },
        };
        let presence_penalty = match get_opt_float(o, "presencePenalty") {
            Ok(x) => x,
            Err(e) => {
                return Err(e);
            },
        };
        let frequency_penalty = match get_opt_float(o, "frequencyPenalty") {
            Ok(x) => x,
            Err(e) => {
                return Err(e);
            },
        };
        let thinking_config = match get_opt_thinking_config(o, "thinkingConfig") {
            Ok(x) => x,
            Err(e) => {
                return Err(e);
            },
        };
        let mut known: Vec<&str> = Vec::new();
        known.push("stopSequences");
        known.push("responseMimeType");
        known.push("responseJsonSchema");
        known.push("maxOutputTokens");
        known.push("temperature");
        known.push("topP");
        known.push("topK");
        known.push("seed");
        known.push("presencePenalty");
        known.push("frequencyPenalty");
        known.push("thinkingConfig");
        proof {
            assert(views(known@) =~= generation_config_keys());
        }
        let extra = unknown_members(o, &known);
        Ok(GenerationConfig { stop_sequences, response_mime_type, response_json_schema, max_output_tokens, temperature, top_p, top_k, seed, presence_penalty, frequency_penalty, thinking_config, extra })
    }

    /// Writes this value as JSON.
    pub fn to_json(&self) -> (r: Json)
        ensures
            r@ == encode_generation_config(self@),
    {
        let mut o = JsonMap::new();
        if let Some(x) = &self.stop_sequences {
            o.set("stopSequences", make_strings(x));
        }
        if let Some(x) = &self.response_mime_type {
            o.set("responseMimeType", Json::Str(x.clone()));
        }
        if let Some(x) = &self.response_json_schema {
            o.set("responseJsonSchema", x.copy());
        }
        if let Some(x) = &self.max_output_tokens {
            o.set("maxOutputTokens", Json::uint(*x as u64));
        }
        if let Some(x) = &self.temperature {
            o.set("temperature", Json::Number(x.copy()));
        }
        if let Some(x) = &self.top_p {
            o.set("topP", Json::Number(x.copy()));
        }
        if let Some(x) = &self.top_k {
            o.set("topK", Json::uint(*x as u64));
        }
        if let Some(x) = &self.seed {
            o.set("seed", Json::sint(*x));
        }
        if let Some(x) = &self.presence_penalty {
            o.set("presencePenalty", Json::Number(x.copy()));
        }
        if let Some(x) = &self.frequency_penalty {
            o.set("frequencyPenalty", Json::Number(x.copy()));
        }
        if let Some(x) = &self.thinking_config {
            o.set("thinkingConfig", x.to_json());
        }
        extend_map(&mut o, &self.extra);
        Json::object(o)
    }
}

/// An optional [`GenerationConfig`].
pub open spec fn opt_generation_config(o: ObjV, k: Seq<char>) -> Result<Option<GenerationConfigV>, Seq<char>> {
    match obj_get(o, k) {
        None | Some(JsonV::Null) => Ok(None),
        Some(j) => match decode_generation_config(j) {
            Ok(x) => Ok(Some(x)),
            Err(e) => Err(e),
        },
    }
}

fn get_opt_generation_config(o: &JsonMap, k: &str) -> (r: Result<Option<GenerationConfig>, String>)
    ensures
        res_opt(r) == opt_generation_config(o@, k@),
{
    match o.get(k) {
        None | Some(Json::Null) => Ok(None),
        Some(j) => match GenerationConfig::from_json(j) {
            Ok(x) => Ok(Some(x)),
            Err(e) => Err(e),
        },
    }
}

/// The request body.
#[derive(Debug, PartialEq, Eq)]
pub struct GenerateContentRequest {
    /// The conversation.
    pub contents: Vec<Content>,
    /// Tools.
    pub tools: Option<Vec<Tool>>,
    /// Tool configuration.
    pub tool_config: Option<ToolConfig>,
    /// System instruction.
    pub system_instruction: Option<Content>,
    /// Generation options.
    pub generation_config: Option<GenerationConfig>,
    /// Unknown fields.
    pub extra: JsonMap,
}

/// The mathematical value of a [`GenerateContentRequest`].
pub struct GenerateContentRequestV {
    pub contents: Seq<ContentV>,
    pub tools: Option<Seq<ToolV>>,
    pub tool_config: Option<ToolConfigV>,
    pub system_instruction: Option<ContentV>,
    pub generation_config: Option<GenerationConfigV>,
    pub extra: ObjV,
}

impl View for GenerateContentRequest {
    type V = GenerateContentRequestV;

    open spec fn view(&self) -> GenerateContentRequestV {
        GenerateContentRequestV {
            contents: views(self.contents@),
            tools: opt_views(self.tools),
            tool_config: opt_view(self.tool_config),
            system_instruction: opt_view(self.system_instruction),
            generation_config: opt_view(self.generation_config),
            extra: self.extra@,
        }
    }
}

/// The members that a [`GenerateContentRequest`] models.
pub open spec fn generate_content_request_keys() -> Seq<Seq<char>> {
    seq!["contents"@, "tools"@, "toolConfig"@, "systemInstruction"@, "generationConfig"@]
}

/// The [`GenerateContentRequest`] that `j` holds, or why it holds none.
pub open spec fn decode_generate_content_request(j: JsonV) -> Result<GenerateContentRequestV, Seq<char>> {
    match j {
        JsonV::Object(o) => match default_vec_content(o, "contents"@) {
            Err(e) => Err(e),
            Ok(contents) => match opt_vec_tool(o, "tools"@) {
                Err(e) => Err(e),
                Ok(tools) => match opt_tool_config(o, "toolConfig"@) {
                    Err(e) => Err(e),
                    Ok(tool_config) => match opt_content(o, "systemInstruction"@) {
                        Err(e) => Err(e),
                        Ok(system_instruction) => match opt_generation_config(o, "generationConfig"@) {
                            Err(e) => Err(e),
                            Ok(generation_config) => Ok(
                                GenerateContentRequestV { contents, tools, tool_config, system_instruction, generation_config, extra: unknown(o, generate_content_request_keys()) },
                            ),
                        },
                    },
                },
            },
        },
        _ => Err(not_an_object()),
    }
}

/// `t` as JSON: absent members are left out, unknown ones come last.
pub open spec fn encode_generate_content_request(t: GenerateContentRequestV) -> JsonV {
    let o0 = Seq::<(Seq<char>, JsonV)>::empty();
    let o1 = obj_set(o0, "contents"@, encode_vec_content(t.contents));
    let o2 = match t.tools {
        Some(x) => obj_set(o1, "tools"@, encode_vec_tool(x)),
        None => o1,
    };
    let o3 = match t.tool_config {
        Some(x) => obj_set(o2, "toolConfig"@, encode_tool_config(x)),
        None => o2,
    };
    let o4 = match t.system_instruction {
        Some(x) => obj_set(o3, "systemInstruction"@, encode_content(x)),
        None => o3,
    };
    let o5 = match t.generation_config {
        Some(x) => obj_set(o4, "generationConfig"@, encode_generation_config(x)),
        None => o4,
    };
    JsonV::Object(extended(o5, t.extra))
}

impl GenerateContentRequest {
    /// Reads a [`GenerateContentRequest`] from JSON.
    pub fn from_json(j: &Json) -> (r: Result<GenerateContentRequest, String>)
        ensures
            res(r) == decode_generate_content_request(j@),
    {
        let o = match j.as_object() {
            Some(o) => o,
            None => {
                return Err("invalid type: expected an object".to_owned());
            },
        };
        let contents = match get_vec_content(o, "contents") {
            Ok(x) => x,
            Err(e) => {
                return Err(e);
            },
        };
        let tools = match get_opt_vec_tool(o, "tools") {
            Ok(x) => x,
            Err(e) => {
                return Err(e);
            },
        };
        let tool_config = match get_opt_tool_config(o, "toolConfig") {
            Ok(x) => x,
            Err(e) => {
                return Err(e);
            },
        };
        let system_instruction = match get_opt_content(o, "systemInstruction") {
            Ok(x) => x,
            Err(e) => {
                return Err(e);
            },
        };
        let generation_config = match get_opt_generation_config(o, "generationConfig") {
            Ok(x) => x,
            Err(e) => {
                return Err(e);
            },
        };
        let mut known: Vec<&str> = Vec::new();
        known.push("contents");
        known.push("tools");
        known.push("toolConfig");
        known.push("systemInstruction");
        known.push("generationConfig");
        proof {
            assert(views(known@) =~= generate_content_request_keys());
        }
        let extra = unknown_members(o, &known);
        Ok(GenerateContentRequest { contents, tools, tool_config, system_instruction, generation_config, extra })
    }

    /// Writes this value as JSON.
    pub fn to_json(&self) -> (r: Json)
        ensures
            r@ == encode_generate_content_request(self@),
    {
        let mut o = JsonMap::new();
        o.set("contents", vec_content_to_json(&self.contents));
        if let Some(x) = &self.tools {
            o.set("tools", vec_tool_to_json(x));
        }
        if let Some(x) = &self.tool_config {
            o.set("toolConfig", x.to_json());
        }
        if let Some(x) = &self.system_instruction {
            o.set("systemInstruction", x.to_json());
        }
        if let Some(x) = &self.generation_config {
            o.set("generationConfig", x.to_json());
        }
        extend_map(&mut o, &self.extra);
        Json::object(o)
    }
}

/// One candidate response.
#[derive(Debug, PartialEq, Eq)]
pub struct Candidate {
    /// Generated content.
    pub content: Option<Content>,
    /// Why generation stopped.
    pub finish_reason: Option<String>,
    /// Index of the candidate.
    pub index: Option<i64>,
    /// Unknown fields.
    pub extra: JsonMap,
}

/// The mathematical value of a [`Candidate`].
pub struct CandidateV {
    pub content: Option<ContentV>,
    pub finish_reason: Option<Seq<char>>,
    pub index: Option<i64>,
    pub extra: ObjV,
}

impl View for Candidate {
    type V = CandidateV;

    open spec fn view(&self) -> CandidateV {
        CandidateV {
            content: opt_view(self.content),
            finish_reason: opt_view(self.finish_reason),
            index: self.index,
            extra: self.extra@,
        }
    }
}

/// The members that a [`Candidate`] models.
pub open spec fn candidate_keys() -> Seq<Seq<char>> {
    seq!["content"@, "finishReason"@, "index"@]
}

/// The [`Candidate`] that `j` holds, or why it holds none.
pub open spec fn decode_candidate(j: JsonV) -> Result<CandidateV, Seq<char>> {
    match j {
        JsonV::Object(o) => match opt_content(o, "content"@) {
            Err(e) => Err(e),
            Ok(content) => match opt_str(o, "finishReason"@) {
                Err(e) => Err(e),
                Ok(finish_reason) => match opt_i64(o, "index"@) {
                    Err(e) => Err(e),
                    Ok(index) => Ok(
                        CandidateV { content, finish_reason, index, extra: unknown(o, candidate_keys()) },
                    ),
                },
            },
        },
        _ => Err(not_an_object()),
    }
}

/// `t` as JSON: absent members are left out, unknown ones come last.
pub open spec fn encode_candidate(t: CandidateV) -> JsonV {
    let o0 = Seq::<(Seq<char>, JsonV)>::empty();
    let o1 = match t.content {
        Some(x) => obj_set(o0, "content"@, encode_content(x)),
        None => o0,
    };
    let o2 = match t.finish_reason {
        Some(x) => obj_set(o1, "finishReason"@, JsonV::Str(x)),
        None => o1,
    };
    let o3 = match t.index {
        Some(x) => obj_set(o2, "index"@, json_int(x as int)),
        None => o2,
    };
    JsonV::Object(extended(o3, t.extra))
}

impl Candidate {
    /// Reads a [`Candidate`] from JSON.
    pub fn from_json(j: &Json) -> (r: Result<Candidate, String>)
        ensures
            res(r) == decode_candidate(j@),
    {
        let o = match j.as_object() {
            Some(o) => o,
            None => {
                return Err("invalid type: expected an object".to_owned());
            },
        };
        let content = match get_opt_content(o, "content") {
            Ok(x) => x,
            Err(e) => {
                return Err(e);
            },
        };
        let finish_reason = match get_opt_str(o, "finishReason") {
            Ok(x) => x,
            Err(e) => {
                return Err(e);
            },
        };
        let index = match get_opt_i64(o, "index") {
            Ok(x) => x,
            Err(e) => {
                return Err(e);
            },
        };
        let mut known: Vec<&str> = Vec::new();
        known.push("content");
        known.push("finishReason");
        known.push("index");
        proof {
            assert(views(known@) =~= candidate_keys());
        }
        let extra = unknown_members(o, &known);
        Ok(Candidate { content, finish_reason, index, extra })
    }

    /// Writes this value as JSON.
    pub fn to_json(&self) -> (r: Json)
        ensures
            r@ == encode_candidate(self@),
    {
        let mut o = JsonMap::new();
        if let Some(x) = &self.content {
            o.set("content", x.to_json());
        }
        if let Some(x) = &self.finish_reason {
            o.set("finishReason", Json::Str(x.clone()));
        }
        if let Some(x) = &self.index {
            o.set("index", Json::sint(*x));
        }
        extend_map(&mut o, &self.extra);
        Json::object(o)
    }
}

/// The first `n` elements, each a [`Candidate`].
pub open spec fn decode_vec_candidate(a: Seq<JsonV>, n: nat) -> Result<Seq<CandidateV>, Seq<char>>
    decreases n,
{
    if n == 0 || n > a.len() {
        Ok(Seq::empty())
    } else {
        match decode_vec_candidate(a, (n - 1) as nat) {
            Err(e) => Err(e),
            Ok(prev) => match decode_candidate(a[n - 1]) {
                Err(e) => Err(e),
                Ok(x) => Ok(prev.push(x)),
            },
        }
    }
}

proof fn decode_vec_candidate_error_stays(a: Seq<JsonV>, n: nat, m: nat)
    requires
        n <= m <= a.len(),
        decode_vec_candidate(a, n) is Err,
    ensures
        decode_vec_candidate(a, m) == decode_vec_candidate(a, n),
    decreases m - n,
{
    if n < m {
        decode_vec_candidate_error_stays(a, n, (m - 1) as nat);
    }
}

fn read_vec_candidate(a: &Vec<Json>) -> (r: Result<Vec<Candidate>, String>)
    ensures
        res_vec(r) == decode_vec_candidate(views(a@), a@.len()),
{
    let mut out: Vec<Candidate> = Vec::new();
    let mut i: usize = 0;
    while i < a.len()
        invariant
            i <= a@.len(),
            decode_vec_candidate(views(a@), i as nat) == Ok::<Seq<CandidateV>, Seq<char>>(views(out@)),
        decreases a@.len() - i,
    {
        match Candidate::from_json(&a[i]) {
            Ok(x) => {
                out.push(x);
            },
            Err(e) => {
                proof {
                    decode_vec_candidate_error_stays(views(a@), i as nat + 1, a@.len());
                }
                return Err(e);
            },
        }
        i += 1;
    }
    Ok(out)
}

/// The elements as a JSON array.
pub open spec fn encode_vec_candidate(v: Seq<CandidateV>) -> JsonV {
    JsonV::Array(v.map_values(|t: CandidateV| encode_candidate(t)))
}

fn vec_candidate_to_json(v: &Vec<Candidate>) -> (r: Json)
    ensures
        r@ == encode_vec_candidate(views(v@)),
{
    let ghost all = encode_vec_candidate(views(v@))->Array_0;
    let mut out: Vec<Json> = Vec::new();
    let mut i: usize = 0;
    while i < v.len()
        invariant
            i <= v@.len(),
            all == encode_vec_candidate(views(v@))->Array_0,
            views(out@) == all.take(i as int),
        decreases v@.len() - i,
    {
        out.push(v[i].to_json());
        proof {
            assert(all.take(i as int + 1) =~= all.take(i as int).push(all[i as int]));
        }
        i += 1;
    }
    proof {
        assert(all.take(i as int) =~= all);
    }
    Json::array(out)
}

/// An array of [`Candidate`] that is empty when absent.
pub open spec fn default_vec_candidate(o: ObjV, k: Seq<char>) -> Result<Seq<CandidateV>, Seq<char>> {
    match default_values(o, k) {
        Err(e) => Err(e),
        Ok(a) => decode_vec_candidate(a, a.len()),
    }
}

fn get_vec_candidate(o: &JsonMap, k: &str) -> (r: Result<Vec<Candidate>, String>)
    ensures
        res_vec(r) == default_vec_candidate(o@, k@),
{
    match get_default_values(o, k) {
        Err(e) => Err(e),
        Ok(a) => read_vec_candidate(&a),
    }
}

/// Content-filter feedback on the prompt.
#[derive(Debug, PartialEq, Eq)]
pub struct PromptFeedback {
    /// Why the prompt was blocked.
    pub block_reason: Option<String>,
    /// Unknown fields.
    pub extra: JsonMap,
}

/// The mathematical value of a [`PromptFeedback`].
pub struct PromptFeedbackV {
    pub block_reason: Option<Seq<char>>,
    pub extra: ObjV,
}

impl View for PromptFeedback {
    type V = PromptFeedbackV;

    open spec fn view(&self) -> PromptFeedbackV {
        PromptFeedbackV {
            block_reason: opt_view(self.block_reason),
            extra: self.extra@,
        }
    }
}

/// The members that a [`PromptFeedback`] models.
pub open spec fn prompt_feedback_keys() -> Seq<Seq<char>> {
    seq!["blockReason"@]
}

/// The [`PromptFeedback`] that `j` holds, or why it holds none.
pub open spec fn decode_prompt_feedback(j: JsonV) -> Result<PromptFeedbackV, Seq<char>> {
    match j {
        JsonV::Object(o) => match opt_str(o, "blockReason"@) {
            Err(e) => Err(e),
            Ok(block_reason) => Ok(
                PromptFeedbackV { block_reason, extra: unknown(o, prompt_feedback_keys()) },
            ),
        },
        _ => Err(not_an_object()),
    }
}

/// `t` as JSON: absent members are left out, unknown ones come last.
pub open spec fn encode_prompt_feedback(t: PromptFeedbackV) -> JsonV {
    let o0 = Seq::<(Seq<char>, JsonV)>::empty();
    let o1 = match t.block_reason {
        Some(x) => obj_set(o0, "blockReason"@, JsonV::Str(x)),
        None => o0,
    };
    JsonV::Object(extended(o1, t.extra))
}

impl PromptFeedback {
    /// Reads a [`PromptFeedback`] from JSON.
    pub fn from_json(j: &Json) -> (r: Result<PromptFeedback, String>)
        ensures
            res(r) == decode_prompt_feedback(j@),
    {
        let o = match j.as_object() {
            Some(o) => o,
            None => {
                return Err("invalid type: expected an object".to_owned());
            },
        };
        let block_reason = match get_opt_str(o, "blockReason") {
            Ok(x) => x,
            Err(e) => {
                return Err(e);
            },
        };
        let mut known: Vec<&str> = Vec::new();
        known.push("blockReason");
        proof {
            assert(views(known@) =~= prompt_feedback_keys());
        }
        let extra = unknown_members(o, &known);
        Ok(PromptFeedback { block_reason, extra })
    }

    /// Writes this value as JSON.
    pub fn to_json(&self) -> (r: Json)
        ensures
            r@ == encode_prompt_feedback(self@),
    {
        let mut o = JsonMap::new();
        if let Some(x) = &self.block_reason {
            o.set("blockReason", Json::Str(x.clone()));
        }
        extend_map(&mut o, &self.extra);
        Json::object(o)
    }
}

/// An optional [`PromptFeedback`].
pub open spec fn opt_prompt_feedback(o: ObjV, k: Seq<char>) -> Result<Option<PromptFeedbackV>, Seq<char>> {
    match obj_get(o, k) {
        None | Some(JsonV::Null) => Ok(None),
        Some(j) => match decode_prompt_feedback(j) {
            Ok(x) => Ok(Some(x)),
            Err(e) => Err(e),
        },
    }
}

fn get_opt_prompt_feedback(o: &JsonMap, k: &str) -> (r: Result<Option<PromptFeedback>, String>)
    ensures
        res_opt(r) == opt_prompt_feedback(o@, k@),
{
    match o.get(k) {
        None | Some(Json::Null) => Ok(None),
        Some(j) => match PromptFeedback::from_json(j) {
            Ok(x) => Ok(Some(x)),
            Err(e) => Err(e),
        },
    }
}

/// Token usage; absent counts are zero.
#[derive(Debug, PartialEq, Eq)]
pub struct UsageMetadata {
    /// Prompt tokens, cached ones included.
    pub prompt_token_count: Option<i64>,
    /// Cached prompt tokens.
    pub cached_content_token_count: Option<i64>,
    /// Generated tokens, thoughts excluded.
    pub candidates_token_count: Option<i64>,
    /// Tool-use prompt tokens.
    pub tool_use_prompt_token_count: Option<i64>,
    /// Thought tokens.
    pub thoughts_token_count: Option<i64>,
    /// All tokens.
    pub total_token_count: Option<i64>,
    /// Unknown fields.
    pub extra: JsonMap,
}

/// The mathematical value of a [`UsageMetadata`].
pub struct UsageMetadataV {
    pub prompt_token_count: Option<i64>,
    pub cached_content_token_count: Option<i64>,
    pub candidates_token_count: Option<i64>,
    pub tool_use_prompt_token_count: Option<i64>,
    pub thoughts_token_count: Option<i64>,
    pub total_token_count: Option<i64>,
    pub extra: ObjV,
}

impl View for UsageMetadata {
    type V = UsageMetadataV;

    open spec fn view(&self) -> UsageMetadataV {
        UsageMetadataV {
            prompt_token_count: self.prompt_token_count,
            cached_content_token_count: self.cached_content_token_count,
            candidates_token_count: self.candidates_token_count,
            tool_use_prompt_token_count: self.tool_use_prompt_token_count,
            thoughts_token_count: self.thoughts_token_count,
            total_token_count: self.total_token_count,
            extra: self.extra@,
        }
    }
}

/// The members that a [`UsageMetadata`] models.
pub open spec fn usage_metadata_keys() -> Seq<Seq<char>> {
    seq!["promptTokenCount"@, "cachedContentTokenCount"@, "candidatesTokenCount"@, "toolUsePromptTokenCount"@, "thoughtsTokenCount"@, "totalTokenCount"@]
}

/// The [`UsageMetadata`] that `j` holds, or why it holds none.
pub open spec fn decode_usage_metadata(j: JsonV) -> Result<UsageMetadataV, Seq<char>> {
    match j {
        JsonV::Object(o) => match opt_i64(o, "promptTokenCount"@) {
            Err(e) => Err(e),
            Ok(prompt_token_count) => match opt_i64(o, "cachedContentTokenCount"@) {
                Err(e) => Err(e),
                Ok(cached_content_token_count) => match opt_i64(o, "candidatesTokenCount"@) {
                    Err(e) => Err(e),
                    Ok(candidates_token_count) => match opt_i64(o, "toolUsePromptTokenCount"@) {
                        Err(e) => Err(e),
                        Ok(tool_use_prompt_token_count) => match opt_i64(o, "thoughtsTokenCount"@) {
                            Err(e) => Err(e),
                            Ok(thoughts_token_count) => match opt_i64(o, "totalTokenCount"@) {
                                Err(e) => Err(e),
                                Ok(total_token_count) => Ok(
                                    UsageMetadataV { prompt_token_count, cached_content_token_count, candidates_token_count, tool_use_prompt_token_count, thoughts_token_count, total_token_count, extra: unknown(o, usage_metadata_keys()) },
                                ),
                            },
                        },
                    },
                },
            },
        },
        _ => Err(not_an_object()),
    }
}

/// `t` as JSON: absent members are left out, unknown ones come last.
pub open spec fn encode_usage_metadata(t: UsageMetadataV) -> JsonV {
    let o0 = Seq::<(Seq<char>, JsonV)>::empty();
    let o1 = match t.prompt_token_count {
        Some(x) => obj_set(o0, "promptTokenCount"@, json_int(x as int)),
        None => o0,
    };
    let o2 = match t.cached_content_token_count {
        Some(x) => obj_set(o1, "cachedContentTokenCount"@, json_int(x as int)),
        None => o1,
    };
    let o3 = match t.candidates_token_count {
        Some(x) => obj_set(o2, "candidatesTokenCount"@, json_int(x as int)),
        None => o2,
    };
    let o4 = match t.tool_use_prompt_token_count {
        Some(x) => obj_set(o3, "toolUsePromptTokenCount"@, json_int(x as int)),
        None => o3,
    };
    let o5 = match t.thoughts_token_count {
        Some(x) => obj_set(o4, "thoughtsTokenCount"@, json_int(x as int)),
        None => o4,
    };
    let o6 = match t.total_token_count {
        Some(x) => obj_set(o5, "totalTokenCount"@, json_int(x as int)),
        None => o5,
    };
    JsonV::Object(extended(o6, t.extra))
}

impl UsageMetadata {
    /// Reads a [`UsageMetadata`] from JSON.
    pub fn from_json(j: &Json) -> (r: Result<UsageMetadata, String>)
        ensures
            res(r) == decode_usage_metadata(j@),
    {
        let o = match j.as_object() {
            Some(o) => o,
            None => {
                return Err("invalid type: expected an object".to_owned());
            },
        };
        let prompt_token_count = match get_opt_i64(o, "promptTokenCount") {
            Ok(x) => x,
            Err(e) => {
                return Err(e);
            },
        };
        let cached_content_token_count = match get_opt_i64(o, "cachedContentTokenCount") {
            Ok(x) => x,
            Err(e) => {
                return Err(e);
            },
        };
        let candidates_token_count = match get_opt_i64(o, "candidatesTokenCount") {
            Ok(x) => x,
            Err(e) => {
                return Err(e);
            },
        };
        let tool_use_prompt_token_count = match get_opt_i64(o, "toolUsePromptTokenCount") {
            Ok(x) => x,
            Err(e) => {
                return Err(e);
            },
        };
        let thoughts_token_count = match get_opt_i64(o, "thoughtsTokenCount") {
            Ok(x) => x,
            Err(e) => {
                return Err(e);
            },
        };
        let total_token_count = match get_opt_i64(o, "totalTokenCount") {
            Ok(x) => x,
            Err(e) => {
                return Err(e);
            },
        };
        let mut known: Vec<&str> = Vec::new();
        known.push("promptTokenCount");
        known.push("cachedContentTokenCount");
        known.push("candidatesTokenCount");
        known.push("toolUsePromptTokenCount");
        known.push("thoughtsTokenCount");
        known.push("totalTokenCount");
        proof {
            assert(views(known@) =~= usage_metadata_keys());
        }
        let extra = unknown_members(o, &known);
        Ok(UsageMetadata { prompt_token_count, cached_content_token_count, candidates_token_count, tool_use_prompt_token_count, thoughts_token_count, total_token_count, extra })
    }

    /// Writes this value as JSON.
    pub fn to_json(&self) -> (r: Json)
        ensures
            r@ == encode_usage_metadata(self@),
    {
        let mut o = JsonMap::new();
        if let Some(x) = &self.prompt_token_count {
            o.set("promptTokenCount", Json::sint(*x));
        }
        if let Some(x) = &self.cached_content_token_count {
            o.set("cachedContentTokenCount", Json::sint(*x));
        }
        if let Some(x) = &self.candidates_token_count {
            o.set("candidatesTokenCount", Json::sint(*x));
        }
        if let Some(x) = &self.tool_use_prompt_token_count {
            o.set("toolUsePromptTokenCount", Json::sint(*x));
        }
        if let Some(x) = &self.thoughts_token_count {
            o.set("thoughtsTokenCount", Json::sint(*x));
        }
        if let Some(x) = &self.total_token_count {
            o.set("totalTokenCount", Json::sint(*x));
        }
        extend_map(&mut o, &self.extra);
        Json::object(o)
    }
}

/// The response body, and the payload of one stream chunk. Usage is kept raw: a
/// malformed one costs only the usage.
#[derive(Debug, PartialEq, Eq)]
pub struct GenerateContentResponse {
    /// Candidates.
    pub candidates: Vec<Candidate>,
    /// Feedback on the prompt.
    pub prompt_feedback: Option<PromptFeedback>,
    /// Token usage.
    pub usage_metadata: Option<Json>,
    /// Model version.
    pub model_version: Option<String>,
    /// Response id.
    pub response_id: Option<String>,
    /// Unknown fields.
    pub extra: JsonMap,
}

/// The mathematical value of a [`GenerateContentResponse`].
pub struct GenerateContentResponseV {
    pub candidates: Seq<CandidateV>,
    pub prompt_feedback: Option<PromptFeedbackV>,
    pub usage_metadata: Option<JsonV>,
    pub model_version: Option<Seq<char>>,
    pub response_id: Option<Seq<char>>,
    pub extra: ObjV,
}

impl View for GenerateContentResponse {
    type V = GenerateContentResponseV;

    open spec fn view(&self) -> GenerateContentResponseV {
        GenerateContentResponseV {
            candidates: views(self.candidates@),
            prompt_feedback: opt_view(self.prompt_feedback),
            usage_metadata: opt_view(self.usage_metadata),
            model_version: opt_view(self.model_version),
            response_id: opt_view(self.response_id),
            extra: self.extra@,
        }
    }
}

/// The members that a [`GenerateContentResponse`] models.
pub open spec fn generate_content_response_keys() -> Seq<Seq<char>> {
    seq!["candidates"@, "promptFeedback"@, "usageMetadata"@, "modelVersion"@, "responseId"@]
}

/// The [`GenerateContentResponse`] that `j` holds, or why it holds none.
pub open spec fn decode_generate_content_response(j: JsonV) -> Result<GenerateContentResponseV, Seq<char>> {
    match j {
        JsonV::Object(o) => match default_vec_candidate(o, "candidates"@) {
            Err(e) => Err(e),
            Ok(candidates) => match opt_prompt_feedback(o, "promptFeedback"@) {
                Err(e) => Err(e),
                Ok(prompt_feedback) => match opt_value(o, "usageMetadata"@) {
                    Err(e) => Err(e),
                    Ok(usage_metadata) => match opt_str(o, "modelVersion"@) {
                        Err(e) => Err(e),
                        Ok(model_version) => match opt_str(o, "responseId"@) {
                            Err(e) => Err(e),
                            Ok(response_id) => Ok(
                                GenerateContentResponseV { candidates, prompt_feedback, usage_metadata, model_version, response_id, extra: unknown(o, generate_content_response_keys()) },
                            ),
                        },
                    },
                },
            },
        },
        _ => Err(not_an_object()),
    }
}

/// `t` as JSON: absent members are left out, unknown ones come last.
pub open spec fn encode_generate_content_response(t: GenerateContentResponseV) -> JsonV {
    let o0 = Seq::<(Seq<char>, JsonV)>::empty();
    let o1 = obj_set(o0, "candidates"@, encode_vec_candidate(t.candidates));
    let o2 = match t.prompt_feedback {
        Some(x) => obj_set(o1, "promptFeedback"@, encode_prompt_feedback(x)),
        None => o1,
    };
    let o3 = match t.usage_metadata {
        Some(x) => obj_set(o2, "usageMetadata"@, x),
        None => o2,
    };
    let o4 = match t.model_version {
        Some(x) => obj_set(o3, "modelVersion"@, JsonV::Str(x)),
        None => o3,
    };
    let o5 = match t.response_id {
        Some(x) => obj_set(o4, "responseId"@, JsonV::Str(x)),
        None => o4,
    };
    JsonV::Object(extended(o5, t.extra))
}

impl GenerateContentResponse {
    /// Reads a [`GenerateContentResponse`] from JSON.
    pub fn from_json(j: &Json) -> (r: Result<GenerateContentResponse, String>)
        ensures
            res(r) == decode_generate_content_response(j@),
    {
        let o = match j.as_object() {
            Some(o) => o,
            None => {
                return Err("invalid type: expected an object".to_owned());
            },
        };
        let candidates = match get_vec_candidate(o, "candidates") {
            Ok(x) => x,
            Err(e) => {
                return Err(e);
            },
        };
        let prompt_feedback = match get_opt_prompt_feedback(o, "promptFeedback") {
            Ok(x) => x,
            Err(e) => {
                return Err(e);
            },
        };
        let usage_metadata = match get_opt_value(o, "usageMetadata") {
            Ok(x) => x,
            Err(e) => {
                return Err(e);
            },
        };
        let model_version = match get_opt_str(o, "modelVersion") {
            Ok(x) => x,
            Err(e) => {
                return Err(e);
            },
        };
        let response_id = match get_opt_str(o, "responseId") {
            Ok(x) => x,
            Err(e) => {
                return Err(e);
            },
        };
        let mut known: Vec<&str> = Vec::new();
        known.push("candidates");
        known.push("promptFeedback");
        known.push("usageMetadata");
        known.push("modelVersion");
        known.push("responseId");
        proof {
            assert(views(known@) =~= generate_content_response_keys());
        }
        let extra = unknown_members(o, &known);
        Ok(GenerateContentResponse { candidates, prompt_feedback, usage_metadata, model_version, response_id, extra })
    }

    /// Writes this value as JSON.
    pub fn to_json(&self) -> (r: Json)
        ensures
            r@ == encode_generate_content_response(self@),
    {
        let mut o = JsonMap::new();
        o.set("candidates", vec_candidate_to_json(&self.candidates));
        if let Some(x) = &self.prompt_feedback {
            o.set("promptFeedback", x.to_json());
        }
        if let Some(x) = &self.usage_metadata {
            o.set("usageMetadata", x.copy());
        }
        if let Some(x) = &self.model_version {
            o.set("modelVersion", Json::Str(x.clone()));
        }
        if let Some(x) = &self.response_id {
            o.set("responseId", Json::Str(x.clone()));
        }
        extend_map(&mut o, &self.extra);
        Json::object(o)
    }
}

/// The token-count response.
#[derive(Debug, PartialEq, Eq)]
pub struct CountTokensResponse {
    /// Number of tokens.
    pub total_tokens: Option<i64>,
    /// Unknown fields.
    pub extra: JsonMap,
}

/// The mathematical value of a [`CountTokensResponse`].
pub struct CountTokensResponseV {
    pub total_tokens: Option<i64>,
    pub extra: ObjV,
}

impl View for CountTokensResponse {
    type V = CountTokensResponseV;

    open spec fn view(&self) -> CountTokensResponseV {
        CountTokensResponseV {
            total_tokens: self.total_tokens,
            extra: self.extra@,
        }
    }
}

/// The members that a [`CountTokensResponse`] models.
pub open spec fn count_tokens_response_keys() -> Seq<Seq<char>> {
    seq!["totalTokens"@]
}

/// The [`CountTokensResponse`] that `j` holds, or why it holds none.
pub open spec fn decode_count_tokens_response(j: JsonV) -> Result<CountTokensResponseV, Seq<char>> {
    match j {
        JsonV::Object(o) => match opt_i64(o, "totalTokens"@) {
            Err(e) => Err(e),
            Ok(total_tokens) => Ok(
                CountTokensResponseV { total_tokens, extra: unknown(o, count_tokens_response_keys()) },
            ),
        },
        _ => Err(not_an_object()),
    }
}

/// `t` as JSON: absent members are left out, unknown ones come last.
pub open spec fn encode_count_tokens_response(t: CountTokensResponseV) -> JsonV {
    let o0 = Seq::<(Seq<char>, JsonV)>::empty();
    let o1 = match t.total_tokens {
        Some(x) => obj_set(o0, "totalTokens"@, json_int(x as int)),
        None => o0,
    };
    JsonV::Object(extended(o1, t.extra))
}

impl CountTokensResponse {
    /// Reads a [`CountTokensResponse`] from JSON.
    pub fn from_json(j: &Json) -> (r: Result<CountTokensResponse, String>)
        ensures
            res(r) == decode_count_tokens_response(j@),
    {
        let o = match j.as_object() {
            Some(o) => o,
            None => {
                return Err("invalid type: expected an object".to_owned());
            },
        };
        let total_tokens = match get_opt_i64(o, "totalTokens") {
            Ok(x) => x,
            Err(e) => {
                return Err(e);
            },
        };
        let mut known: Vec<&str> = Vec::new();
        known.push("totalTokens");
        proof {
            assert(views(known@) =~= count_tokens_response_keys());
        }
        let extra = unknown_members(o, &known);
        Ok(CountTokensResponse { total_tokens, extra })
    }

    /// Writes this value as JSON.
    pub fn to_json(&self) -> (r: Json)
        ensures
            r@ == encode_count_tokens_response(self@),
    {
        let mut o = JsonMap::new();
        if let Some(x) = &self.total_tokens {
            o.set("totalTokens", Json::sint(*x));
        }
        extend_map(&mut o, &self.extra);
        Json::object(o)
    }
}

/// One page of the model list.
#[derive(Debug, PartialEq, Eq)]
pub struct ListModelsResponse {
    /// Model entries.
    pub models: Vec<Json>,
    /// Cursor of the next page.
    pub next_page_token: Option<String>,
    /// Unknown fields.
    pub extra: JsonMap,
}

/// The mathematical value of a [`ListModelsResponse`].
pub struct ListModelsResponseV {
    pub models: Seq<JsonV>,
    pub next_page_token: Option<Seq<char>>,
    pub extra: ObjV,
}

impl View for ListModelsResponse {
    type V = ListModelsResponseV;

    open spec fn view(&self) -> ListModelsResponseV {
        ListModelsResponseV {
            models: views(self.models@),
            next_page_token: opt_view(self.next_page_token),
            extra: self.extra@,
        }
    }
}

/// The members that a [`ListModelsResponse`] models.
pub open spec fn list_models_response_keys() -> Seq<Seq<char>> {
    seq!["models"@, "nextPageToken"@]
}

/// The [`ListModelsResponse`] that `j` holds, or why it holds none.
pub open spec fn decode_list_models_response(j: JsonV) -> Result<ListModelsResponseV, Seq<char>> {
    match j {
        JsonV::Object(o) => match default_values(o, "models"@) {
            Err(e) => Err(e),
            Ok(models) => match opt_str(o, "nextPageToken"@) {
                Err(e) => Err(e),
                Ok(next_page_token) => Ok(
                    ListModelsResponseV { models, next_page_token, extra: unknown(o, list_models_response_keys()) },
                ),
            },
        },
        _ => Err(not_an_object()),
    }
}

/// `t` as JSON: absent members are left out, unknown ones come last.
pub open spec fn encode_list_models_response(t: ListModelsResponseV) -> JsonV {
    let o0 = Seq::<(Seq<char>, JsonV)>::empty();
    let o1 = obj_set(o0, "models"@, JsonV::Array(t.models));
    let o2 = match t.next_page_token {
        Some(x) => obj_set(o1, "nextPageToken"@, JsonV::Str(x)),
        None => o1,
    };
    JsonV::Object(extended(o2, t.extra))
}

impl ListModelsResponse {
    /// Reads a [`ListModelsResponse`] from JSON.
    pub fn from_json(j: &Json) -> (r: Result<ListModelsResponse, String>)
        ensures
            res(r) == decode_list_models_response(j@),
    {
        let o = match j.as_object() {
            Some(o) => o,
            None => {
                return Err("invalid type: expected an object".to_owned());
            },
        };
        let models = match get_default_values(o, "models") {
            Ok(x) => x,
            Err(e) => {
                return Err(e);
            },
        };
        let next_page_token = match get_opt_str(o, "nextPageToken") {
            Ok(x) => x,
            Err(e) => {
                return Err(e);
            },
        };
        let mut known: Vec<&str> = Vec::new();
        known.push("models");
        known.push("nextPageToken");
        proof {
            assert(views(known@) =~= list_models_response_keys());
        }
        let extra = unknown_members(o, &known);
        Ok(ListModelsResponse { models, next_page_token, extra })
    }

    /// Writes this value as JSON.
    pub fn to_json(&self) -> (r: Json)
        ensures
            r@ == encode_list_models_response(self@),
    {
        let mut o = JsonMap::new();
        o.set("models", Json::array(dup_vec(&self.models)));
        if let Some(x) = &self.next_page_token {
            o.set("nextPageToken", Json::Str(x.clone()));
        }
        extend_map(&mut o, &self.extra);
        Json::object(o)
    }
}

} // verus!
