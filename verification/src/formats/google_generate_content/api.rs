//! Google `generateContent` as a provider format: requests, model lists and
//! token counts.

use vstd::prelude::*;
use crate::convert::{ConversionWarning, ConversionWarningV, ConvertOptions, ConvertOptionsV};
use crate::error::{Error, ErrorV, HookError};
use crate::format::{streams, CallMode, GOOGLE_GENERATE_CONTENT};
use crate::formats::google_generate_content::errors::{google_error, parse_error};
use crate::formats::google_generate_content::from_ir::{build_body, google_body};
use crate::formats::google_generate_content::round_trip_history::ExchangeV;
use crate::formats::google_generate_content::round_trip_request::{request_round_trip, written_as};
use crate::formats::google_generate_content::stream::{fresh_stream, GoogleStreamParser};
use crate::formats::google_generate_content::to_ir::{google_request_outcome, google_response_outcome, request_to_ir, response_to_ir};
use crate::formats::google_generate_content::types::{decode_count_tokens_response, decode_list_models_response, CountTokensResponse, ListModelsResponse};
use crate::headers::header_values;
use crate::ir::{Request, RequestV, Role};
use crate::json::{group_json, json_as_str, json_get, make1, obj_set, object1, Json, JsonV};
use crate::model::{group_views, opt_view, views};
use crate::models::{bad_body, count_view, page_view, parse_problem, text_member, Model, ModelV, PageV, TokenCount, TokenCountV};
use crate::pipeline::callable;
use crate::request::{check_body, checked, fetch, fetched, finish_body, finished, finished_view, json_header, plain_scheme, post, posted, request_view, AuthScheme, BuildCtx, BuiltRequest, FinishedV, QueryV};
use crate::response::{Response, ResponseMeta, ResponseV};
use crate::text::{cat2, dec, decimal};
use crate::url::{bare_model, build_url, request_url, strip_models};
use crate::value::{json_from_slice, parse_slice};

verus! {

broadcast use group_views;

/// The Google `generateContent` format.
#[derive(Clone, Copy, Debug, Default)]
pub struct GoogleGenerateContent;

/// The method that the URL of a chat call names.
pub open spec fn chat_method(mode: CallMode) -> Seq<char> {
    if streams(mode) {
        "streamGenerateContent"@
    } else {
        "generateContent"@
    }
}

/// The query parameters that a chat call owns.
pub open spec fn chat_query(mode: CallMode) -> QueryV {
    if streams(mode) {
        seq![("alt"@, "sse"@)]
    } else {
        Seq::empty()
    }
}

/// The query parameters that a model listing owns.
pub open spec fn page_query(cursor: Option<Seq<char>>) -> QueryV {
    match cursor {
        Some(c) => seq![("pageSize"@, "1000"@), ("pageToken"@, c)],
        None => seq![("pageSize"@, "1000"@)],
    }
}

/// A chat body as the count endpoint takes it: wrapped, with the resource name
/// of the model.
pub open spec fn wrapped(body: JsonV, model: Seq<char>) -> JsonV {
    object1(
        "generateContentRequest"@,
        match body {
            JsonV::Object(o) => JsonV::Object(
                obj_set(o, "model"@, JsonV::Str("models/"@ + bare_model(model))),
            ),
            _ => body,
        },
    )
}

/// A finished chat body for the count endpoint.
pub open spec fn count_wrapped(out: FinishedV, model: Seq<char>) -> FinishedV {
    match out {
        Ok((body, ws)) => Ok((wrapped(body, model), ws)),
        Err(e) => Err(e),
    }
}

/// The models among the first `n` entries: those with a resource name.
pub open spec fn google_models(a: Seq<JsonV>, n: nat) -> Seq<ModelV>
    decreases n,
{
    if n == 0 || n > a.len() {
        Seq::empty()
    } else {
        let prev = google_models(a, (n - 1) as nat);
        match json_as_str(json_get(a[n - 1], "name"@)) {
            Some(name) => prev.push(
                ModelV {
                    id: bare_model(name),
                    display_name: json_as_str(json_get(a[n - 1], "displayName"@)),
                    created: None,
                    raw: a[n - 1],
                },
            ),
            None => prev,
        }
    }
}

/// The cursor, unless it is empty.
pub open spec fn usable_cursor(t: Option<Seq<char>>) -> Option<Seq<char>> {
    match t {
        Some(t) => if t.len() > 0 { Some(t) } else { None },
        None => None,
    }
}

/// One page of the model list.
pub open spec fn google_page(body: Seq<u8>) -> Result<PageV, ErrorV> {
    match json_from_slice(body) {
        Err(e) => Err(bad_body("invalid Google models response: "@ + e, body)),
        Ok(j) => match decode_list_models_response(j) {
            Err(e) => Err(bad_body("invalid Google models response: "@ + e, body)),
            Ok(w) => Ok((google_models(w.models, w.models.len()), usable_cursor(w.next_page_token))),
        },
    }
}

/// A signed number in decimal.
pub open spec fn signed(n: i64) -> Seq<char> {
    if n < 0 {
        "-"@ + decimal((-n) as nat)
    } else {
        decimal(n as nat)
    }
}

/// The token count of a response; an absent total is zero.
pub open spec fn google_count(body: Seq<u8>) -> Result<TokenCountV, ErrorV> {
    match json_from_slice(body) {
        Err(e) => Err(bad_body("invalid Google countTokens response: "@ + e, body)),
        Ok(j) => match decode_count_tokens_response(j) {
            Err(e) => Err(bad_body("invalid Google countTokens response: "@ + e, body)),
            Ok(w) => match w.total_tokens {
                None => Ok(TokenCountV { input_tokens: 0, raw: Some(j), warnings: Seq::empty() }),
                Some(t) => if t < 0 {
                    Err(
                        bad_body(
                            "Google countTokens response has a negative totalTokens: "@ + signed(t),
                            body,
                        ),
                    )
                } else {
                    Ok(TokenCountV { input_tokens: t as u64, raw: Some(j), warnings: Seq::empty() })
                },
            },
        },
    }
}

fn write_negative(n: i64) -> (r: String)
    requires
        n < 0,
    ensures
        r@ == signed(n),
{
    let m: u64 = if n == i64::MIN { 9223372036854775808 } else { (-n) as u64 };
    cat2("-", dec(m).as_str())
}

fn pair(k: &str, v: &str) -> (r: (String, String))
    ensures
        r.0@ == k@,
        r.1@ == v@,
{
    (k.to_owned(), v.to_owned())
}

fn own_chat_query(mode: CallMode) -> (r: Vec<(String, String)>)
    ensures
        views(r@) == chat_query(mode),
{
    let mut q: Vec<(String, String)> = Vec::new();
    if mode == CallMode::Streaming {
        q.push(pair("alt", "sse"));
    }
    proof {
        assert(views(q@) =~= chat_query(mode));
    }
    q
}

fn own_page_query(cursor: Option<&str>) -> (r: Vec<(String, String)>)
    ensures
        views(r@) == page_query(opt_view(cursor)),
{
    let mut q: Vec<(String, String)> = Vec::new();
    q.push(pair("pageSize", "1000"));
    if let Some(c) = cursor {
        q.push(pair("pageToken", c));
    }
    proof {
        assert(views(q@) =~= page_query(opt_view(cursor)));
    }
    q
}

fn wrap(body: Json, model: &str) -> (r: Json)
    ensures
        r@ == wrapped(body@, model@),
{
    broadcast use group_json;
    let inner = match body {
        Json::Object(o) => {
            let mut o = o;
            o.set("model", Json::Str(cat2("models/", strip_models(model).as_str())));
            Json::object(o)
        },
        other => other,
    };
    make1("generateContentRequest", inner)
}

fn collect_models(a: &Vec<Json>) -> (r: Vec<Model>)
    ensures
        views(r@) == google_models(views(a@), a@.len()),
{
    let mut out: Vec<Model> = Vec::new();
    let mut i: usize = 0;
    proof {
        assert(views(out@) =~= Seq::<ModelV>::empty());
    }
    while i < a.len()
        invariant
            i <= a@.len(),
            views(out@) == google_models(views(a@), i as nat),
        decreases a@.len() - i,
    {
        let entry = &a[i];
        proof {
            assert(views(a@)[i as int] == entry@);
        }
        if let Some(name) = text_member(entry, "name") {
            let mut m = Model::new(strip_models(name.as_str()), entry.copy());
            m.display_name = text_member(entry, "displayName");
            out.push(m);
        }
        i += 1;
    }
    out
}

/// Converts an IR request into request JSON, without hooks.
pub fn request_from_ir(req: &Request, options: &ConvertOptions) -> (r: Result<(Json, Vec<ConversionWarning>), Error>)
    ensures
        finished_view(r) == checked(options.strict, google_body(req@, options@)),
{
    match build_body(req, options) {
        Ok(b) => check_body(b, options.strict),
        Err(e) => Err(Error::Conversion(e)),
    }
}

impl GoogleGenerateContent {
    /// The format id.
    pub fn id(&self) -> (r: &'static str)
        ensures
            r@ == GOOGLE_GENERATE_CONTENT@,
    {
        GOOGLE_GENERATE_CONTENT
    }

    /// Builds a chat request.
    pub fn build_request<
        M: Fn(usize, Role, Json) -> Result<Json, HookError>,
        R: Fn(Json) -> Result<Json, HookError>,
    >(&self, req: &Request, ctx: &BuildCtx<M, R>) -> (r: Result<BuiltRequest, Error>)
        requires
            callable(ctx.hooks),
        ensures
            exists|out: FinishedV| #[trigger]
                finished(ctx.hooks, ctx.convert.strict, google_body(req@, ctx.convert@), out) && request_view(r)
                    == posted(
                    out,
                    request_url(
                        ctx.url@,
                        "models/{model}:{method}"@,
                        ctx.model@,
                        Some(chat_method(ctx.mode)),
                        chat_query(ctx.mode),
                        views(ctx.extra_query@),
                    ),
                    plain_scheme("x-goog-api-key"@),
                ),
            r is Ok ==> forall|k: Seq<char>| #[trigger] header_values(r->Ok_0.headers, k) == json_header(k),
    {
        let ghost built = google_body(req@, ctx.convert@);
        let body = match build_body(req, &ctx.convert) {
            Ok(b) => b,
            Err(e) => {
                proof {
                    assert(finished(
                        ctx.hooks,
                        ctx.convert.strict,
                        built,
                        FinishedV::Err(ErrorV::Conversion(e@)),
                    ));
                }
                return Err(Error::Conversion(e));
            },
        };
        let out = finish_body(body, ctx.convert.strict, &ctx.hooks);
        proof {
            assert(finished(ctx.hooks, ctx.convert.strict, built, finished_view(out)));
        }
        let (body, warnings) = match out {
            Ok(v) => v,
            Err(e) => {
                return Err(e);
            },
        };
        let method = if ctx.mode == CallMode::Streaming { "streamGenerateContent" } else { "generateContent" };
        let own = own_chat_query(ctx.mode);
        match build_url(
            &ctx.url,
            "models/{model}:{method}",
            ctx.model.as_str(),
            Some(method),
            &own,
            &ctx.extra_query,
        ) {
            Ok(url) => Ok(post(&body, warnings, url, AuthScheme::header("x-goog-api-key"))),
            Err(e) => Err(e),
        }
    }

    /// Parses a 2xx chat response.
    pub fn parse_response(&self, body: &[u8], meta: &ResponseMeta) -> (r: Result<Response, Error>)
        ensures
            match r {
                Ok(v) => google_response_outcome(body@, meta.status, meta.headers) == Ok::<ResponseV, ErrorV>(v@),
                Err(e) => google_response_outcome(body@, meta.status, meta.headers) == Err::<ResponseV, ErrorV>(e@),
            },
    {
        response_to_ir(body, meta)
    }

    /// Classifies a non-2xx response.
    pub fn parse_error(&self, status: u16, headers: &http::HeaderMap, body: &[u8]) -> (r: Error)
        ensures
            r@ == google_error(status, *headers, body@),
    {
        parse_error(status, headers, body)
    }

    /// A parser for one stream.
    pub fn stream_parser(&self) -> (r: GoogleStreamParser)
        ensures
            r@ == fresh_stream(),
    {
        GoogleStreamParser::new()
    }

    /// Parses a request body into the IR. A body that a request was written as
    /// is read as this request, without a warning.
    pub fn parse_request(&self, body: &[u8]) -> (r: Result<(Request, Vec<ConversionWarning>), Error>)
        ensures
            match r {
                Ok(v) => google_request_outcome(body@) == Ok::<(RequestV, Seq<ConversionWarningV>), ErrorV>(
                    (v.0@, views(v.1@)),
                ),
                Err(e) => google_request_outcome(body@) == Err::<(RequestV, Seq<ConversionWarningV>), ErrorV>(e@),
            },
            forall|
                req: RequestV,
                all: Seq<ExchangeV>,
                conv: ConvertOptionsV,
            | #[trigger]
                written_as(body@, req, all, conv) ==> match r {
                    Ok(v) => v.0@ == req && v.1@.len() == 0,
                    Err(_) => false,
                },
    {
        let r = request_to_ir(body);
        proof {
            assert forall|
                req: RequestV,
                all: Seq<ExchangeV>,
                conv: ConvertOptionsV,
            | #[trigger]
                written_as(body@, req, all, conv) implies match r {
                    Ok(v) => v.0@ == req && v.1@.len() == 0,
                    Err(_) => false,
                } by {
                request_round_trip(req, all, conv);
                if let Ok(v) = r {
                    assert(views(v.1@).len() == v.1@.len());
                }
            }
        }
        r
    }

    /// Builds a request for one page of models.
    pub fn build_models_request<M, R>(&self, ctx: &BuildCtx<M, R>, cursor: Option<&str>) -> (r: Result<BuiltRequest, Error>)
        ensures
            request_view(r) == fetched(
                request_url(
                    ctx.url@,
                    "models"@,
                    ctx.model@,
                    None,
                    page_query(opt_view(cursor)),
                    views(ctx.extra_query@),
                ),
                plain_scheme("x-goog-api-key"@),
            ),
            r is Ok ==> forall|k: Seq<char>| #[trigger] header_values(r->Ok_0.headers, k).len() == 0,
    {
        let own = own_page_query(cursor);
        match build_url(&ctx.url, "models", ctx.model.as_str(), None, &own, &ctx.extra_query) {
            Ok(url) => Ok(fetch(url, AuthScheme::header("x-goog-api-key"))),
            Err(e) => Err(e),
        }
    }

    /// Parses one page of models.
    pub fn parse_models_response(&self, body: &[u8]) -> (r: Result<(Vec<Model>, Option<String>), Error>)
        ensures
            page_view(r) == google_page(body@),
    {
        let j = match parse_slice(body) {
            Err(e) => {
                return Err(parse_problem(cat2("invalid Google models response: ", e.as_str()), body));
            },
            Ok(j) => j,
        };
        let w = match ListModelsResponse::from_json(&j) {
            Err(e) => {
                return Err(parse_problem(cat2("invalid Google models response: ", e.as_str()), body));
            },
            Ok(w) => w,
        };
        let models = collect_models(&w.models);
        let next = match w.next_page_token {
            Some(t) => {
                if t.as_str().is_empty() {
                    None
                } else {
                    Some(t)
                }
            },
            None => None,
        };
        Ok((models, next))
    }

    /// Builds a token-count request: the chat request, wrapped.
    pub fn build_count_tokens_request<
        M: Fn(usize, Role, Json) -> Result<Json, HookError>,
        R: Fn(Json) -> Result<Json, HookError>,
    >(&self, req: &Request, ctx: &BuildCtx<M, R>) -> (r: Result<BuiltRequest, Error>)
        requires
            callable(ctx.hooks),
        ensures
            exists|out: FinishedV| #[trigger]
                finished(ctx.hooks, ctx.convert.strict, google_body(req@, ctx.convert@), out) && request_view(r)
                    == posted(
                    count_wrapped(out, ctx.model@),
                    request_url(
                        ctx.url@,
                        "models/{model}:countTokens"@,
                        ctx.model@,
                        None,
                        Seq::empty(),
                        views(ctx.extra_query@),
                    ),
                    plain_scheme("x-goog-api-key"@),
                ),
            r is Ok ==> forall|k: Seq<char>| #[trigger] header_values(r->Ok_0.headers, k) == json_header(k),
    {
        let ghost built = google_body(req@, ctx.convert@);
        let body = match build_body(req, &ctx.convert) {
            Ok(b) => b,
            Err(e) => {
                proof {
                    assert(finished(
                        ctx.hooks,
                        ctx.convert.strict,
                        built,
                        FinishedV::Err(ErrorV::Conversion(e@)),
                    ));
                }
                return Err(Error::Conversion(e));
            },
        };
        let out = finish_body(body, ctx.convert.strict, &ctx.hooks);
        proof {
            assert(finished(ctx.hooks, ctx.convert.strict, built, finished_view(out)));
        }
        let (body, warnings) = match out {
            Ok(v) => v,
            Err(e) => {
                return Err(e);
            },
        };
        let none: Vec<(String, String)> = Vec::new();
        proof {
            assert(views(none@) =~= Seq::<(Seq<char>, Seq<char>)>::empty());
        }
        match build_url(
            &ctx.url,
            "models/{model}:countTokens",
            ctx.model.as_str(),
            None,
            &none,
            &ctx.extra_query,
        ) {
            Ok(url) => Ok(
                post(&wrap(body, ctx.model.as_str()), warnings, url, AuthScheme::header("x-goog-api-key")),
            ),
            Err(e) => Err(e),
        }
    }

    /// Parses a token-count response.
    pub fn parse_count_tokens_response(&self, body: &[u8]) -> (r: Result<TokenCount, Error>)
        ensures
            count_view(r) == google_count(body@),
    {
        let j = match parse_slice(body) {
            Err(e) => {
                return Err(parse_problem(cat2("invalid Google countTokens response: ", e.as_str()), body));
            },
            Ok(j) => j,
        };
        let w = match CountTokensResponse::from_json(&j) {
            Err(e) => {
                return Err(parse_problem(cat2("invalid Google countTokens response: ", e.as_str()), body));
            },
            Ok(w) => w,
        };
        let total: u64 = match w.total_tokens {
            None => 0,
            Some(t) => {
                if t < 0 {
                    return Err(
                        parse_problem(
                            cat2(
                                "Google countTokens response has a negative totalTokens: ",
                                write_negative(t).as_str(),
                            ),
                            body,
                        ),
                    );
                }
                t as u64
            },
        };
        let mut c = TokenCount::new(total);
        c.raw = Some(j);
        Ok(c)
    }
}

} // verus!
