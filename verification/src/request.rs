//! Requests ready for the transport.

use vstd::prelude::*;
use vstd::utf8::encode_utf8;
use crate::built::{BuiltBody, BuiltBodyV};
use crate::convert::gate::gate_result;
use crate::convert::options::lenient_options;
use crate::convert::{ConversionWarning, ConversionWarningV, ConvertOptions};
use crate::error::{ConversionErrorV, Error, ErrorV, HookError};
use crate::format::{default_format_options, CallMode, FormatOptions};
use crate::headers::{header_count, header_value, header_values, insert_header, is_value_byte, is_value_text, no_headers, static_name};
use crate::ir::Role;
use crate::json::{Json, JsonV};
use crate::model::{group_views, opt_view, views, Dup};
use crate::pipeline::{callable, check_request, finalize_request, hook_failed, hooked, marked, RequestHooks};
use crate::url::{EndpointUrl, Uri, UriV};
use crate::value::{json_to_bytes, to_bytes, wire};

verus! {

broadcast use group_views;

/// Request method.
#[derive(Clone, Copy, Debug, PartialEq, Eq, Structural)]
pub enum Method {
    Get,
    Post,
}

/// How the API key is sent: a header, and a prefix before the key.
#[derive(Debug, PartialEq, Eq)]
pub struct AuthScheme {
    /// Header name, in lower case.
    pub header: String,
    /// Prefix of the value.
    pub prefix: Option<String>,
}

/// The mathematical value of an [`AuthScheme`].
pub struct AuthSchemeV {
    pub header: Seq<char>,
    pub prefix: Option<Seq<char>>,
}

impl View for AuthScheme {
    type V = AuthSchemeV;

    open spec fn view(&self) -> AuthSchemeV {
        AuthSchemeV { header: self.header@, prefix: opt_view(self.prefix) }
    }
}

/// `authorization: Bearer <key>`.
pub open spec fn bearer_scheme() -> AuthSchemeV {
    AuthSchemeV { header: "authorization"@, prefix: Some("Bearer "@) }
}

/// `<name>: <key>`.
pub open spec fn plain_scheme(name: Seq<char>) -> AuthSchemeV {
    AuthSchemeV { header: name, prefix: None }
}

impl AuthScheme {
    /// `authorization: Bearer <key>`.
    pub fn bearer() -> (r: AuthScheme)
        ensures
            r@ == bearer_scheme(),
    {
        AuthScheme { header: "authorization".to_owned(), prefix: Some("Bearer ".to_owned()) }
    }

    /// `<name>: <key>`.
    pub fn header(name: &str) -> (r: AuthScheme)
        ensures
            r@ == plain_scheme(name@),
    {
        AuthScheme { header: name.to_owned(), prefix: None }
    }
}

/// Everything a format needs to build a request.
#[derive(Debug)]
pub struct BuildCtx<M, R> {
    /// Endpoint of the capability.
    pub url: EndpointUrl,
    /// Model name.
    pub model: String,
    /// Unary or streaming.
    pub mode: CallMode,
    /// Conversion options.
    pub convert: ConvertOptions,
    /// Per-format options.
    pub format_options: FormatOptions,
    /// Hooks.
    pub hooks: RequestHooks<M, R>,
    /// Query parameters of the user, provider first.
    pub extra_query: Vec<(String, String)>,
}

impl<M, R> BuildCtx<M, R> {
    /// A context with default options, without hooks or query parameters.
    pub fn new(url: EndpointUrl, model: String, mode: CallMode) -> (r: BuildCtx<M, R>)
        ensures
            r.url == url,
            r.model == model,
            r.mode == mode,
            r.convert@ == lenient_options(),
            r.format_options@ == default_format_options(),
            r.hooks.on_message is None,
            r.hooks.on_request is None,
            r.extra_query@.len() == 0,
    {
        BuildCtx {
            url,
            model,
            mode,
            convert: ConvertOptions::new(),
            format_options: FormatOptions::default(),
            hooks: RequestHooks::new(),
            extra_query: Vec::new(),
        }
    }
}

/// A request ready for the transport.
#[derive(Debug)]
pub struct BuiltRequest {
    pub method: Method,
    pub url: Uri,
    /// Headers of the format.
    pub headers: http::HeaderMap,
    /// Serialized body; empty for GET.
    pub body: Vec<u8>,
    /// How to send the API key.
    pub auth: Option<AuthScheme>,
    /// Build-side warnings.
    pub warnings: Vec<ConversionWarning>,
}

/// The mathematical value of a [`BuiltRequest`], but for the headers.
pub struct BuiltRequestV {
    pub method: Method,
    pub url: UriV,
    pub body: Seq<u8>,
    pub auth: Option<AuthSchemeV>,
    pub warnings: Seq<ConversionWarningV>,
}

impl View for BuiltRequest {
    type V = BuiltRequestV;

    open spec fn view(&self) -> BuiltRequestV {
        BuiltRequestV {
            method: self.method,
            url: self.url@,
            body: self.body@,
            auth: opt_view(self.auth),
            warnings: views(self.warnings@),
        }
    }
}

/// The headers of a JSON request, by name.
pub open spec fn json_header(name: Seq<char>) -> Seq<Seq<u8>> {
    if name == "content-type"@ {
        seq![encode_utf8("application/json"@)]
    } else {
        Seq::empty()
    }
}

/// A POST request with a JSON body.
pub open spec fn post_request(url: UriV, body: JsonV) -> BuiltRequestV {
    BuiltRequestV {
        method: Method::Post,
        url,
        body: json_to_bytes(wire(body)),
        auth: None,
        warnings: Seq::empty(),
    }
}

/// A GET request.
pub open spec fn get_request(url: UriV) -> BuiltRequestV {
    BuiltRequestV { method: Method::Get, url, body: Seq::empty(), auth: None, warnings: Seq::empty() }
}

proof fn json_type_is_a_value()
    ensures
        is_value_text("application/json"@),
{
    reveal_strlit("application/json");
    let s = "application/json"@;
    assert(vstd::utf8::is_ascii_chars(s));
    vstd::utf8::is_ascii_chars_encode_utf8(s);
    assert forall|i: int| 0 <= i < encode_utf8(s).len() implies is_value_byte(
        #[trigger] encode_utf8(s)[i],
    ) by {
        assert(encode_utf8(s)[i] == s[i] as u8);
    }
}

impl BuiltRequest {
    /// A POST request with a JSON body.
    pub fn post_json(url: Uri, body: &Json) -> (r: BuiltRequest)
        ensures
            r@ == post_request(url@, body@),
            forall|k: Seq<char>| #[trigger] header_values(r.headers, k) == json_header(k),
            header_count(r.headers) <= 1,
    {
        let mut headers = no_headers();
        proof {
            reveal_strlit("content-type");
            json_type_is_a_value();
        }
        match header_value("application/json") {
            Some(v) => {
                let _ = insert_header(&mut headers, &static_name("content-type"), v);
            },
            None => {},
        }
        let warnings: Vec<ConversionWarning> = Vec::new();
        proof {
            assert(views(warnings@) =~= Seq::<ConversionWarningV>::empty());
        }
        BuiltRequest { method: Method::Post, url, headers, body: to_bytes(body), auth: None, warnings }
    }

    /// A GET request without body.
    pub fn get(url: Uri) -> (r: BuiltRequest)
        ensures
            r@ == get_request(url@),
            forall|k: Seq<char>| #[trigger] header_values(r.headers, k).len() == 0,
            header_count(r.headers) == 0,
    {
        let warnings: Vec<ConversionWarning> = Vec::new();
        let body: Vec<u8> = Vec::new();
        proof {
            assert(views(warnings@) =~= Seq::<ConversionWarningV>::empty());
            assert(body@ =~= Seq::<u8>::empty());
        }
        BuiltRequest { method: Method::Get, url, headers: no_headers(), body, auth: None, warnings }
    }
}

/// A body after the last steps of the build, with its warnings.
pub type FinishedV = Result<(JsonV, Seq<ConversionWarningV>), ErrorV>;

/// `out` is what the last steps of the build can make of `built`: its error;
/// that of the strict gate or of a hook; or what the hooks made of the body,
/// with the marked warnings.
pub open spec fn finished<
    M: Fn(usize, Role, Json) -> Result<Json, HookError>,
    R: Fn(Json) -> Result<Json, HookError>,
>(hooks: RequestHooks<M, R>, strict: bool, built: Result<BuiltBodyV, ConversionErrorV>, out: FinishedV) -> bool {
    match built {
        Err(c) => out == FinishedV::Err(ErrorV::Conversion(c)),
        Ok(b) => {
            let ws = marked(b.warnings, b.merge_log);
            match gate_result(strict, ws) {
                Err(c) => out == FinishedV::Err(ErrorV::Conversion(c)),
                Ok(_) => match out {
                    Ok((body, warnings)) => warnings == ws && hooked(
                        hooks,
                        b.merge_log,
                        b.message_pointers,
                        b.body,
                        body,
                    ),
                    Err(ErrorV::Hook(h)) => hook_failed(hooks, b.merge_log, b.message_pointers, b.body, h),
                    Err(_) => false,
                },
            }
        },
    }
}

/// The view of a finished body.
pub open spec fn finished_view(r: Result<(Json, Vec<ConversionWarning>), Error>) -> FinishedV {
    match r {
        Ok(v) => Ok((v.0@, views(v.1@))),
        Err(e) => Err(e@),
    }
}

/// Takes a built body through the last steps.
pub fn finish_body<M: Fn(usize, Role, Json) -> Result<Json, HookError>, R: Fn(Json) -> Result<Json, HookError>>(
    built: BuiltBody,
    strict: bool,
    hooks: &RequestHooks<M, R>,
) -> (r: Result<(Json, Vec<ConversionWarning>), Error>)
    requires
        callable(*hooks),
    ensures
        finished(*hooks, strict, Ok(built@), finished_view(r)),
{
    let mut body = built.body;
    let mut warnings = built.warnings;
    match finalize_request(
        &mut body,
        &mut warnings,
        &built.merge_log,
        strict,
        hooks,
        &built.message_pointers,
    ) {
        Ok(_) => Ok((body, warnings)),
        Err(e) => Err(e),
    }
}

/// The request that a finished body becomes.
pub open spec fn posted(
    body: FinishedV,
    url: Result<UriV, ErrorV>,
    auth: AuthSchemeV,
) -> Result<BuiltRequestV, ErrorV> {
    match body {
        Err(e) => Err(e),
        Ok((body, ws)) => match url {
            Err(e) => Err(e),
            Ok(u) => Ok(BuiltRequestV { auth: Some(auth), warnings: ws, ..post_request(u, body) }),
        },
    }
}

/// The GET request of a URL.
pub open spec fn fetched(url: Result<UriV, ErrorV>, auth: AuthSchemeV) -> Result<BuiltRequestV, ErrorV> {
    match url {
        Err(e) => Err(e),
        Ok(u) => Ok(BuiltRequestV { auth: Some(auth), ..get_request(u) }),
    }
}

/// The view of a built request.
pub open spec fn request_view(r: Result<BuiltRequest, Error>) -> Result<BuiltRequestV, ErrorV> {
    match r {
        Ok(b) => Ok(b@),
        Err(e) => Err(e@),
    }
}

/// Makes a POST request of a finished body.
pub fn post(body: &Json, warnings: Vec<ConversionWarning>, url: Uri, auth: AuthScheme) -> (r: BuiltRequest)
    ensures
        posted(Ok((body@, views(warnings@))), Ok(url@), auth@) == Ok::<BuiltRequestV, ErrorV>(r@),
        forall|k: Seq<char>| #[trigger] header_values(r.headers, k) == json_header(k),
        header_count(r.headers) <= 1,
{
    let mut r = BuiltRequest::post_json(url, body);
    r.auth = Some(auth);
    r.warnings = warnings;
    r
}

/// What the strict gate makes of a built body, without hooks.
pub open spec fn checked(strict: bool, built: Result<BuiltBodyV, ConversionErrorV>) -> FinishedV {
    match built {
        Err(c) => Err(ErrorV::Conversion(c)),
        Ok(b) => {
            let ws = marked(b.warnings, b.merge_log);
            match gate_result(strict, ws) {
                Err(c) => Err(ErrorV::Conversion(c)),
                Ok(_) => Ok((b.body, ws)),
            }
        },
    }
}

/// Takes a built body through the strict gate.
pub fn check_body(built: BuiltBody, strict: bool) -> (r: Result<(Json, Vec<ConversionWarning>), Error>)
    ensures
        finished_view(r) == checked(strict, Ok(built@)),
{
    let mut warnings = built.warnings;
    match check_request(&mut warnings, &built.merge_log, strict) {
        Ok(_) => Ok((built.body, warnings)),
        Err(e) => Err(e),
    }
}

/// Makes a GET request.
pub fn fetch(url: Uri, auth: AuthScheme) -> (r: BuiltRequest)
    ensures
        fetched(Ok(url@), auth@) == Ok::<BuiltRequestV, ErrorV>(r@),
        forall|k: Seq<char>| #[trigger] header_values(r.headers, k).len() == 0,
        header_count(r.headers) == 0,
{
    let mut r = BuiltRequest::get(url);
    r.auth = Some(auth);
    r
}

/// Parameters of a query, by their mathematical values.
pub type QueryV = Seq<(Seq<char>, Seq<char>)>;

} // verus!
