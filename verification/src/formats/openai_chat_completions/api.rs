//! OpenAI Chat Completions as a provider format: requests, errors and model
//! lists.

use vstd::prelude::*;
use crate::api_error::{api_error, body_excerpt, body_json, excerpt, parse_body, utf8_lossy};
use crate::convert::{ConversionWarning, ConversionWarningV, ConvertOptions, ConvertOptionsV};
use crate::error::{kind_of_status, ApiErrorKind, ApiErrorKindV, Error, ErrorV, HookError};
use crate::format::{CallMode, OpenAiChatCompletionsOptions, OPENAI_CHAT_COMPLETIONS};
use crate::formats::openai_chat_completions::from_ir::{build_body, openai_body};
use crate::formats::openai_chat_completions::round_trip_request::{request_round_trip, written_as};
use crate::formats::openai_chat_completions::stream::{fresh_stream, ChatCompletionsStreamParser};
use crate::formats::openai_chat_completions::to_ir::{openai_request_outcome, openai_response_outcome, request_to_ir, response_to_ir};
use crate::formats::openai_chat_completions::types::{decode_error_body, decode_model_list, ErrorBody, ErrorDetail, ErrorDetailV, ModelList};
use crate::headers::header_values;
use crate::ir::{Request, RequestV, Role};
use crate::json::{json_as_i64, json_as_str, json_get, Json, JsonV};
use crate::model::{group_views, opt_view, views};
use crate::models::{bad_body, page_view, parse_problem, text_member, Created, CreatedV, Model, ModelV, PageV};
use crate::pipeline::callable;
use crate::request::{bearer_scheme, check_body, checked, fetch, fetched, finish_body, finished, finished_view, json_header, post, posted, request_view, AuthScheme, BuildCtx, BuiltRequest, FinishedV};
use crate::response::{Response, ResponseMeta, ResponseV};
use crate::text::{cat2, str_eq};
use crate::url::{build_url, request_url};
use crate::value::{json_from_slice, parse_slice};

verus! {

broadcast use group_views;

/// The OpenAI Chat Completions format.
#[derive(Clone, Copy, Debug, Default)]
pub struct OpenAiChatCompletions;

/// The error object of a body.
pub open spec fn error_detail(body: Seq<u8>) -> Option<ErrorDetailV> {
    match body_json(body) {
        Some(j) => match decode_error_body(j) {
            Ok(b) => b.error,
            Err(_) => None,
        },
        None => None,
    }
}

/// The classification by error code, for the codes that refine the type.
pub open spec fn code_kind(code: Seq<char>) -> Option<ApiErrorKindV> {
    if code == "invalid_api_key"@ || code == "invalid_organization"@ || code == "account_deactivated"@ {
        Some(ApiErrorKindV::Auth)
    } else if code == "model_not_found"@ {
        Some(ApiErrorKindV::NotFound)
    } else if code == "insufficient_quota"@ || code == "rate_limit_exceeded"@ {
        Some(ApiErrorKindV::RateLimit)
    } else {
        None
    }
}

/// The classification by error type.
pub open spec fn type_kind(t: Seq<char>) -> Option<ApiErrorKindV> {
    if t == "invalid_request_error"@ {
        Some(ApiErrorKindV::InvalidRequest)
    } else if t == "authentication_error"@ {
        Some(ApiErrorKindV::Auth)
    } else if t == "permission_error"@ {
        Some(ApiErrorKindV::PermissionDenied)
    } else if t == "not_found_error"@ {
        Some(ApiErrorKindV::NotFound)
    } else if t == "rate_limit_error"@ || t == "insufficient_quota"@ || t == "tokens"@ {
        Some(ApiErrorKindV::RateLimit)
    } else if t == "overloaded_error"@ {
        Some(ApiErrorKindV::Overloaded)
    } else if t == "server_error"@ {
        Some(ApiErrorKindV::ServerError)
    } else {
        None
    }
}

/// The classification of an error: by its code, else by its type, else by the
/// status.
pub open spec fn openai_kind(d: Option<ErrorDetailV>, status: u16) -> ApiErrorKindV {
    let by_code = match d {
        Some(d) => match json_as_str(d.code) {
            Some(c) => code_kind(c),
            None => None,
        },
        None => None,
    };
    let by_type = match d {
        Some(d) => match d.error_type {
            Some(t) => type_kind(t),
            None => None,
        },
        None => None,
    };
    match by_code {
        Some(k) => k,
        None => match by_type {
            Some(k) => k,
            None => kind_of_status(status),
        },
    }
}

/// The error of a non-2xx response.
pub open spec fn openai_error(status: u16, headers: http::HeaderMap, body: Seq<u8>) -> ErrorV {
    let d = error_detail(body);
    let message = match d {
        Some(d) => d.message,
        None => None,
    };
    api_error(
        status,
        openai_kind(d, status),
        match message {
            Some(m) => m,
            None => excerpt(utf8_lossy(body)),
        },
        body,
        headers,
    )
}

/// The models among the first `n` entries: those with an id.
pub open spec fn openai_models(a: Seq<JsonV>, n: nat) -> Seq<ModelV>
    decreases n,
{
    if n == 0 || n > a.len() {
        Seq::empty()
    } else {
        let prev = openai_models(a, (n - 1) as nat);
        match json_as_str(json_get(a[n - 1], "id"@)) {
            Some(id) => prev.push(
                ModelV {
                    id,
                    display_name: None,
                    created: match json_as_i64(json_get(a[n - 1], "created"@)) {
                        Some(t) => Some(CreatedV::UnixSeconds(t)),
                        None => None,
                    },
                    raw: a[n - 1],
                },
            ),
            None => prev,
        }
    }
}

/// The model list: one page.
pub open spec fn openai_page(body: Seq<u8>) -> Result<PageV, ErrorV> {
    match json_from_slice(body) {
        Err(e) => Err(bad_body("invalid model list: "@ + e, body)),
        Ok(j) => match decode_model_list(j) {
            Err(e) => Err(bad_body("invalid model list: "@ + e, body)),
            Ok(l) => Ok((openai_models(l.data, l.data.len()), None)),
        },
    }
}

fn kind_of_code(code: &str) -> (r: Option<ApiErrorKind>)
    ensures
        opt_view(r) == code_kind(code@),
{
    if str_eq(code, "invalid_api_key") || str_eq(code, "invalid_organization") || str_eq(
        code,
        "account_deactivated",
    ) {
        Some(ApiErrorKind::Auth)
    } else if str_eq(code, "model_not_found") {
        Some(ApiErrorKind::NotFound)
    } else if str_eq(code, "insufficient_quota") || str_eq(code, "rate_limit_exceeded") {
        Some(ApiErrorKind::RateLimit)
    } else {
        None
    }
}

fn kind_of_type(t: &str) -> (r: Option<ApiErrorKind>)
    ensures
        opt_view(r) == type_kind(t@),
{
    if str_eq(t, "invalid_request_error") {
        Some(ApiErrorKind::InvalidRequest)
    } else if str_eq(t, "authentication_error") {
        Some(ApiErrorKind::Auth)
    } else if str_eq(t, "permission_error") {
        Some(ApiErrorKind::PermissionDenied)
    } else if str_eq(t, "not_found_error") {
        Some(ApiErrorKind::NotFound)
    } else if str_eq(t, "rate_limit_error") || str_eq(t, "insufficient_quota") || str_eq(t, "tokens") {
        Some(ApiErrorKind::RateLimit)
    } else if str_eq(t, "overloaded_error") {
        Some(ApiErrorKind::Overloaded)
    } else if str_eq(t, "server_error") {
        Some(ApiErrorKind::ServerError)
    } else {
        None
    }
}

fn classify(d: &Option<ErrorDetail>, status: u16) -> (r: ApiErrorKind)
    ensures
        r@ == openai_kind(opt_view(*d), status),
{
    if let Some(d) = d {
        if let Some(c) = &d.code {
            if let Some(c) = c.as_str() {
                if let Some(k) = kind_of_code(c.as_str()) {
                    return k;
                }
            }
        }
        if let Some(t) = &d.error_type {
            if let Some(k) = kind_of_type(t.as_str()) {
                return k;
            }
        }
    }
    ApiErrorKind::from_status(status)
}

fn find_detail(body: &[u8]) -> (r: Option<ErrorDetail>)
    ensures
        opt_view(r) == error_detail(body@),
{
    match parse_body(body) {
        Some(j) => match ErrorBody::from_json(&j) {
            Ok(b) => b.error,
            Err(_) => None,
        },
        None => None,
    }
}

fn collect_models(a: &Vec<Json>) -> (r: Vec<Model>)
    ensures
        views(r@) == openai_models(views(a@), a@.len()),
{
    let mut out: Vec<Model> = Vec::new();
    let mut i: usize = 0;
    proof {
        assert(views(out@) =~= Seq::<ModelV>::empty());
    }
    while i < a.len()
        invariant
            i <= a@.len(),
            views(out@) == openai_models(views(a@), i as nat),
        decreases a@.len() - i,
    {
        let entry = &a[i];
        proof {
            assert(views(a@)[i as int] == entry@);
        }
        if let Some(id) = text_member(entry, "id") {
            let mut m = Model::new(id, entry.copy());
            let created = match entry.get("created") {
                Some(j) => j.as_i64(),
                None => None,
            };
            m.created = match created {
                Some(t) => Some(Created::UnixSeconds(t)),
                None => None,
            };
            out.push(m);
        }
        i += 1;
    }
    out
}

/// Converts an IR request into request JSON, without hooks.
pub fn request_from_ir(
    req: &Request,
    model: Option<&str>,
    mode: CallMode,
    convert: &ConvertOptions,
    options: &OpenAiChatCompletionsOptions,
) -> (r: Result<(Json, Vec<ConversionWarning>), Error>)
    ensures
        finished_view(r) == checked(
            convert.strict,
            openai_body(req@, opt_view(model), mode, convert@, options.inject_include_usage),
        ),
{
    match build_body(req, model, mode, convert, options) {
        Ok(b) => check_body(b, convert.strict),
        Err(e) => Err(Error::Conversion(e)),
    }
}

impl OpenAiChatCompletions {
    /// The format id.
    pub fn id(&self) -> (r: &'static str)
        ensures
            r@ == OPENAI_CHAT_COMPLETIONS@,
    {
        OPENAI_CHAT_COMPLETIONS
    }

    /// Builds a chat request.
    pub fn build_request<
        M: Fn(usize, Role, Json) -> Result<Json, HookError>,
        R: Fn(Json) -> Result<Json, HookError>,
    >(&self, req: &Request, ctx: &BuildCtx<M, R>) -> (r: Result<BuiltRequest, Error>)
        requires
            callable(ctx.hooks),
        ensures
            exists|out: FinishedV| #[trigger]
                finished(
                    ctx.hooks,
                    ctx.convert.strict,
                    openai_body(
                        req@,
                        Some(ctx.model@),
                        ctx.mode,
                        ctx.convert@,
                        ctx.format_options.openai_chat_completions.inject_include_usage,
                    ),
                    out,
                ) && request_view(r) == posted(
                    out,
                    request_url(
                        ctx.url@,
                        "chat/completions"@,
                        ctx.model@,
                        None,
                        Seq::empty(),
                        views(ctx.extra_query@),
                    ),
                    bearer_scheme(),
                ),
            r is Ok ==> forall|k: Seq<char>| #[trigger] header_values(r->Ok_0.headers, k) == json_header(k),
    {
        let ghost built = openai_body(
            req@,
            Some(ctx.model@),
            ctx.mode,
            ctx.convert@,
            ctx.format_options.openai_chat_completions.inject_include_usage,
        );
        let body = match build_body(
            req,
            Some(ctx.model.as_str()),
            ctx.mode,
            &ctx.convert,
            &ctx.format_options.openai_chat_completions,
        ) {
            Ok(b) => b,
            Err(e) => {
                proof {
                    assert(finished(
                        ctx.hooks,
                        ctx.convert.strict,
                        built,
                        FinishedV::Err(ErrorV::Conversion(e@)),
                    ));
                }
                return Err(Error::Conversion(e));
            },
        };
        let out = finish_body(body, ctx.convert.strict, &ctx.hooks);
        proof {
            assert(finished(ctx.hooks, ctx.convert.strict, built, finished_view(out)));
        }
        let (body, warnings) = match out {
            Ok(v) => v,
            Err(e) => {
                return Err(e);
            },
        };
        let none: Vec<(String, String)> = Vec::new();
        proof {
            assert(views(none@) =~= Seq::<(Seq<char>, Seq<char>)>::empty());
        }
        match build_url(&ctx.url, "chat/completions", ctx.model.as_str(), None, &none, &ctx.extra_query) {
            Ok(url) => Ok(post(&body, warnings, url, AuthScheme::bearer())),
            Err(e) => Err(e),
        }
    }

    /// Parses a 2xx chat response.
    pub fn parse_response(&self, body: &[u8], meta: &ResponseMeta) -> (r: Result<Response, Error>)
        ensures
            match r {
                Ok(v) => openai_response_outcome(body@, meta.status, meta.headers) == Ok::<ResponseV, ErrorV>(v@),
                Err(e) => openai_response_outcome(body@, meta.status, meta.headers) == Err::<ResponseV, ErrorV>(e@),
            },
    {
        response_to_ir(body, meta)
    }

    /// Classifies a non-2xx response.
    pub fn parse_error(&self, status: u16, headers: &http::HeaderMap, body: &[u8]) -> (r: Error)
        ensures
            r@ == openai_error(status, *headers, body@),
    {
        let d = find_detail(body);
        let kind = classify(&d, status);
        let found = match d {
            Some(d) => d.message,
            None => None,
        };
        let message = match found {
            Some(m) => m,
            None => body_excerpt(body),
        };
        Error::api(status, kind, message, body, headers)
    }

    /// A parser for one stream.
    pub fn stream_parser(&self) -> (r: ChatCompletionsStreamParser)
        ensures
            r@ == fresh_stream("reasoning_content"@),
    {
        ChatCompletionsStreamParser::new()
    }

    /// A parser for one stream that honors the options.
    pub fn stream_parser_with(&self, options: &OpenAiChatCompletionsOptions) -> (r: ChatCompletionsStreamParser)
        ensures
            r@ == fresh_stream(options@.reasoning_field),
    {
        ChatCompletionsStreamParser::with_options(options)
    }

    /// Parses a request body into the IR. A body that a request was written as
    /// is read as this request, without a warning.
    pub fn parse_request(&self, body: &[u8]) -> (r: Result<(Request, Vec<ConversionWarning>), Error>)
        ensures
            match r {
                Ok(v) => openai_request_outcome(body@) == Ok::<(RequestV, Seq<ConversionWarningV>), ErrorV>(
                    (v.0@, views(v.1@)),
                ),
                Err(e) => openai_request_outcome(body@) == Err::<(RequestV, Seq<ConversionWarningV>), ErrorV>(e@),
            },
            forall|
                req: RequestV,
                model: Option<Seq<char>>,
                conv: ConvertOptionsV,
                usage: bool,
            | #[trigger]
                written_as(body@, req, model, conv, usage) ==> match r {
                    Ok(v) => v.0@ == req && v.1@.len() == 0,
                    Err(_) => false,
                },
    {
        let r = request_to_ir(body);
        proof {
            assert forall|
                req: RequestV,
                model: Option<Seq<char>>,
                conv: ConvertOptionsV,
                usage: bool,
            | #[trigger]
                written_as(body@, req, model, conv, usage) implies match r {
                    Ok(v) => v.0@ == req && v.1@.len() == 0,
                    Err(_) => false,
                } by {
                request_round_trip(req, model, conv, usage);
                if let Ok(v) = r {
                    assert(views(v.1@).len() == v.1@.len());
                }
            }
        }
        r
    }

    /// Builds a request for the model list, which is one page.
    pub fn build_models_request<M, R>(&self, ctx: &BuildCtx<M, R>) -> (r: Result<BuiltRequest, Error>)
        ensures
            request_view(r) == fetched(
                request_url(
                    ctx.url@,
                    "models"@,
                    ctx.model@,
                    None,
                    Seq::empty(),
                    views(ctx.extra_query@),
                ),
                bearer_scheme(),
            ),
            r is Ok ==> forall|k: Seq<char>| #[trigger] header_values(r->Ok_0.headers, k).len() == 0,
    {
        let none: Vec<(String, String)> = Vec::new();
        proof {
            assert(views(none@) =~= Seq::<(Seq<char>, Seq<char>)>::empty());
        }
        match build_url(&ctx.url, "models", ctx.model.as_str(), None, &none, &ctx.extra_query) {
            Ok(url) => Ok(fetch(url, AuthScheme::bearer())),
            Err(e) => Err(e),
        }
    }

    /// Parses the model list.
    pub fn parse_models_response(&self, body: &[u8]) -> (r: Result<(Vec<Model>, Option<String>), Error>)
        ensures
            page_view(r) == openai_page(body@),
    {
        let j = match parse_slice(body) {
            Err(e) => {
                return Err(parse_problem(cat2("invalid model list: ", e.as_str()), body));
            },
            Ok(j) => j,
        };
        match ModelList::from_json(&j) {
            Err(e) => Err(parse_problem(cat2("invalid model list: ", e.as_str()), body)),
            Ok(l) => Ok((collect_models(&l.data), None)),
        }
    }
}

} // verus!
