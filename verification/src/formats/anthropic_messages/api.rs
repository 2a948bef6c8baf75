//! Anthropic Messages as a provider format: requests, errors, model lists and
//! token counts.

use vstd::prelude::*;
use vstd::utf8::encode_utf8;
use crate::api_error::{api_error, body_json, generic_api_error, generic_error, parse_body};
use crate::built::{BuiltBody, BuiltBodyV};
use crate::convert::gate::{gate_result, strict_gate};
use crate::convert::warnings::warning;
use crate::convert::{ConversionDirection, ConversionWarning, ConversionWarningV, ConvertOptionsV, WarningCode};
use crate::display::{quote, quoted};
use crate::error::{kind_of_status, ApiErrorKind, ConversionError, ConversionErrorV, Error, ErrorV, HookError};
use crate::format::{streams, AnthropicAuthStyle, AnthropicOptions, AnthropicOptionsV, CallMode, ANTHROPIC_MESSAGES};
use crate::formats::anthropic_messages::from_ir::{build_chat_body, chat_body, ChatBody, ChatBodyV};
use crate::formats::anthropic_messages::round_trip_messages::TurnV;
use crate::formats::anthropic_messages::round_trip_request::{request_round_trip, written_as};
use crate::formats::anthropic_messages::stream::{fresh_stream, kind_named, map_error_kind, AnthropicStreamParser};
use crate::formats::anthropic_messages::to_ir::{parse_request_body, parse_response_body, request_outcome, response_outcome};
use crate::formats::anthropic_messages::types::{decode_count_tokens_response, decode_error_envelope, decode_models_page, CountTokensResponse, ErrorEnvelope, ModelsPage};
use crate::headers::{header_count, header_room, header_value, header_values, headers_full, insert_header, is_value_text, static_name};
use crate::ir::{Request, RequestV, Role};
use crate::json::{group_json, json_as_str, json_get, Json, JsonMap, JsonV, ObjV};
use crate::merge::{escape_pointer_token, escape_token};
use crate::model::{dup_vec, group_views, opt_view, views};
use crate::models::{bad_body, count_view, page_view, parse_problem, text_member, Created, CreatedV, Model, ModelV, PageV, TokenCount, TokenCountV};
use crate::pipeline::callable;
use crate::request::{bearer_scheme, fetch, fetched, finish_body, finished, finished_view, json_header, plain_scheme, post, posted, request_view, AuthScheme, AuthSchemeV, BuildCtx, BuiltRequest, BuiltRequestV, FinishedV, QueryV};
use crate::response::{Response, ResponseMeta, ResponseV};
use crate::text::{cat2, cat3, dec, decimal, join, joined, text_is};
use crate::url::{build_url, other_error, request_url};
use crate::value::{json_from_slice, parse_slice};

verus! {

broadcast use group_views;

/// The Anthropic Messages format.
#[derive(Clone, Copy, Debug, Default)]
pub struct AnthropicMessages;

/// The body of a request, without the record of its own keys.
pub open spec fn chat_built(c: ChatBodyV) -> BuiltBodyV {
    BuiltBodyV {
        body: c.body,
        warnings: c.warnings,
        merge_log: c.merge_log,
        message_pointers: c.message_pointers,
    }
}

/// The body of a request.
pub open spec fn anthropic_built(
    req: RequestV,
    model: Seq<char>,
    opts: AnthropicOptionsV,
    conv: ConvertOptionsV,
    streaming: bool,
) -> Result<BuiltBodyV, ConversionErrorV> {
    match chat_body(req, model, opts, conv, streaming) {
        Ok(c) => Ok(chat_built(c)),
        Err(e) => Err(e),
    }
}

/// How the API key is sent.
pub open spec fn anthropic_auth(opts: AnthropicOptionsV) -> AuthSchemeV {
    match opts.auth_style {
        AnthropicAuthStyle::XApiKey => plain_scheme("x-api-key"@),
        AnthropicAuthStyle::Bearer => bearer_scheme(),
    }
}

/// The `anthropic-beta` header.
pub open spec fn beta_text(opts: AnthropicOptionsV) -> Seq<char> {
    joined(opts.betas, ","@)
}

/// The headers of a request, by name, over those in `base`.
pub open spec fn anthropic_header(opts: AnthropicOptionsV, name: Seq<char>, base: Seq<Seq<u8>>) -> Seq<Seq<u8>> {
    if name == "anthropic-beta"@ && opts.betas.len() > 0 {
        seq![encode_utf8(beta_text(opts))]
    } else if name == "anthropic-version"@ && opts.version is Some {
        seq![encode_utf8(opts.version->0)]
    } else {
        base
    }
}

/// The error for options that cannot be headers.
pub open spec fn header_problem(opts: AnthropicOptionsV) -> Option<ErrorV> {
    if opts.version is Some && !is_value_text(opts.version->0) {
        Some(other_error("invalid anthropic-version value: "@ + quoted(opts.version->0)))
    } else if opts.betas.len() > 0 && !is_value_text(beta_text(opts)) {
        Some(other_error("invalid anthropic-beta value: "@ + quoted(beta_text(opts))))
    } else {
        None
    }
}

/// A request, or the error for its headers.
pub open spec fn with_headers(
    r: Result<BuiltRequestV, ErrorV>,
    opts: AnthropicOptionsV,
) -> Result<BuiltRequestV, ErrorV> {
    match r {
        Err(e) => Err(e),
        Ok(b) => match header_problem(opts) {
            Some(e) => Err(e),
            None => Ok(b),
        },
    }
}

/// The field is one that the count endpoint takes.
pub open spec fn count_accepts(key: Seq<char>) -> bool {
    key == "model"@ || key == "messages"@ || key == "system"@ || key == "tools"@ || key == "tool_choice"@ || key
        == "thinking"@ || key == "cache_control"@ || key == "context_management"@ || key == "mcp_servers"@ || key
        == "output_config"@ || key == "output_format"@ || key == "speed"@
}

/// The warning about a field that the count endpoint does not take.
pub open spec fn count_warning(key: Seq<char>) -> ConversionWarningV {
    warning(
        WarningCode::CountTokensFieldDropped,
        ANTHROPIC_MESSAGES@,
        ConversionDirection::ToFormat,
        "/"@ + escape_token(key, key.len()),
        "`"@ + key + "` is not accepted by the count_tokens endpoint; the count may not be exact"@,
    )
}

/// The first `n` fields for the count endpoint. A dropped field is reported,
/// unless the conversion itself made it.
pub open spec fn count_fields(o: ObjV, own: Seq<Seq<char>>, n: nat) -> (ObjV, Seq<ConversionWarningV>)
    decreases n,
{
    if n == 0 || n > o.len() {
        (Seq::empty(), Seq::empty())
    } else {
        let (kept, ws) = count_fields(o, own, (n - 1) as nat);
        if count_accepts(o[n - 1].0) {
            (kept.push(o[n - 1]), ws)
        } else if own.contains(o[n - 1].0) {
            (kept, ws)
        } else {
            (kept, ws.push(count_warning(o[n - 1].0)))
        }
    }
}

/// A body for the count endpoint.
pub open spec fn count_body(body: JsonV, own: Seq<Seq<char>>) -> (JsonV, Seq<ConversionWarningV>) {
    match body {
        JsonV::Object(o) => {
            let (kept, ws) = count_fields(o, own, o.len());
            (JsonV::Object(kept), ws)
        },
        _ => (body, Seq::empty()),
    }
}

/// A finished body for the count endpoint. Under `strict` a dropped field is
/// an error.
pub open spec fn counted(out: FinishedV, own: Seq<Seq<char>>, strict: bool) -> FinishedV {
    match out {
        Err(e) => Err(e),
        Ok((body, ws)) => {
            let (b, extra) = count_body(body, own);
            match gate_result(strict, extra) {
                Err(c) => Err(ErrorV::Conversion(c)),
                Ok(_) => Ok((b, ws + extra)),
            }
        },
    }
}

/// The keys that the conversion itself makes.
pub open spec fn own_keys(
    req: RequestV,
    model: Seq<char>,
    opts: AnthropicOptionsV,
    conv: ConvertOptionsV,
) -> Seq<Seq<char>> {
    match chat_body(req, model, opts, conv, false) {
        Ok(c) => c.generated_keys,
        Err(_) => Seq::empty(),
    }
}

/// The error of a non-2xx response.
pub open spec fn anthropic_error(status: u16, headers: http::HeaderMap, body: Seq<u8>) -> ErrorV {
    match body_json(body) {
        None => generic_error(status, headers, body),
        Some(j) => match decode_error_envelope(j) {
            Err(_) => generic_error(status, headers, body),
            Ok(env) => api_error(
                status,
                match env.error.kind {
                    Some(t) => kind_named(t),
                    None => kind_of_status(status),
                },
                match env.error.message {
                    Some(m) => m,
                    None => "HTTP "@ + decimal(status as nat),
                },
                body,
                headers,
            ),
        },
    }
}

/// The query of a model listing.
pub open spec fn models_query(extra: QueryV, cursor: Option<Seq<char>>) -> QueryV {
    match cursor {
        Some(c) => extra.push(("after_id"@, c)),
        None => extra,
    }
}

/// The models among the first `n` entries: those with an id.
pub open spec fn anthropic_models(a: Seq<JsonV>, n: nat) -> Seq<ModelV>
    decreases n,
{
    if n == 0 || n > a.len() {
        Seq::empty()
    } else {
        let prev = anthropic_models(a, (n - 1) as nat);
        match json_as_str(json_get(a[n - 1], "id"@)) {
            Some(id) => prev.push(
                ModelV {
                    id,
                    display_name: json_as_str(json_get(a[n - 1], "display_name"@)),
                    created: match json_as_str(json_get(a[n - 1], "created_at"@)) {
                        Some(t) => Some(CreatedV::Timestamp(t)),
                        None => None,
                    },
                    raw: a[n - 1],
                },
            ),
            None => prev,
        }
    }
}

/// One page of the model list. More pages without a cursor are an error.
pub open spec fn anthropic_page(body: Seq<u8>) -> Result<PageV, ErrorV> {
    match json_from_slice(body) {
        Err(e) => Err(bad_body("invalid Anthropic models page: "@ + e, body)),
        Ok(j) => match decode_models_page(j) {
            Err(e) => Err(bad_body("invalid Anthropic models page: "@ + e, body)),
            Ok(p) => {
                let models = anthropic_models(p.data, p.data.len());
                if p.has_more == Some(true) {
                    match p.last_id {
                        Some(id) => if id.len() > 0 {
                            Ok((models, Some(id)))
                        } else {
                            Err(bad_body("malformed pagination: has_more=true without last_id"@, body))
                        },
                        None => Err(bad_body("malformed pagination: has_more=true without last_id"@, body)),
                    }
                } else {
                    Ok((models, None))
                }
            },
        },
    }
}

/// The token count of a response.
pub open spec fn anthropic_count(body: Seq<u8>) -> Result<TokenCountV, ErrorV> {
    match json_from_slice(body) {
        Err(e) => Err(bad_body("invalid count_tokens response: "@ + e, body)),
        Ok(j) => match decode_count_tokens_response(j) {
            Err(e) => Err(bad_body("invalid count_tokens response: "@ + e, body)),
            Ok(w) => Ok(TokenCountV { input_tokens: w.input_tokens, raw: Some(j), warnings: Seq::empty() }),
        },
    }
}

fn auth_scheme(opts: &AnthropicOptions) -> (r: AuthScheme)
    ensures
        r@ == anthropic_auth(opts@),
{
    match opts.auth_style {
        AnthropicAuthStyle::XApiKey => AuthScheme::header("x-api-key"),
        AnthropicAuthStyle::Bearer => AuthScheme::bearer(),
    }
}

/// Adds the headers of the format. Beside an option that makes no header value,
/// this fails only when the map is full, never with two places below
/// `header_room()`.
pub fn apply_default_headers(opts: &AnthropicOptions, headers: &mut http::HeaderMap) -> (r: Result<(), Error>)
    ensures
        match r {
            Ok(_) => header_problem(opts@) is None && forall|k: Seq<char>| #[trigger]
                header_values(*final(headers), k) == anthropic_header(opts@, k, header_values(*old(headers), k)),
            Err(e) => header_problem(opts@) == Some(e@) || (e@ == ErrorV::Conversion(headers_full())
                && header_count(*old(headers)) + 2 > header_room()),
        },
{
    proof {
        reveal_strlit("anthropic-version");
        reveal_strlit("anthropic-beta");
        assert("anthropic-version"@.len() != "anthropic-beta"@.len());
    }
    if let Some(version) = &opts.version {
        match header_value(version.as_str()) {
            Some(v) => {
                if !insert_header(headers, &static_name("anthropic-version"), v) {
                    return Err(Error::Conversion(ConversionError::other("too many headers")));
                }
            },
            None => {
                return Err(
                    Error::Conversion(
                        ConversionError::other(
                            cat2("invalid anthropic-version value: ", quote(version.as_str()).as_str()).as_str(),
                        ),
                    ),
                );
            },
        }
    }
    if opts.betas.len() > 0 {
        let text = join(&opts.betas, ",");
        match header_value(text.as_str()) {
            Some(v) => {
                if !insert_header(headers, &static_name("anthropic-beta"), v) {
                    return Err(Error::Conversion(ConversionError::other("too many headers")));
                }
            },
            None => {
                return Err(
                    Error::Conversion(
                        ConversionError::other(
                            cat2("invalid anthropic-beta value: ", quote(text.as_str()).as_str()).as_str(),
                        ),
                    ),
                );
            },
        }
    }
    Ok(())
}

fn is_count_field(key: &String) -> (r: bool)
    ensures
        r == count_accepts(key@),
{
    text_is(key, "model") || text_is(key, "messages") || text_is(key, "system") || text_is(key, "tools") || text_is(
        key,
        "tool_choice",
    ) || text_is(key, "thinking") || text_is(key, "cache_control") || text_is(key, "context_management") || text_is(
        key,
        "mcp_servers",
    ) || text_is(key, "output_config") || text_is(key, "output_format") || text_is(key, "speed")
}

fn names_key(own: &Vec<String>, key: &String) -> (r: bool)
    ensures
        r == views(own@).contains(key@),
{
    let mut i: usize = 0;
    while i < own.len()
        invariant
            i <= own@.len(),
            forall|k: int| 0 <= k < i ==> (#[trigger] views(own@)[k]) != key@,
        decreases own@.len() - i,
    {
        proof {
            assert(views(own@)[i as int] == own@[i as int]@);
        }
        if text_is(&own[i], key.as_str()) {
            return true;
        }
        i += 1;
    }
    false
}

/// Adapts a body to the count endpoint.
pub fn adapt_count_body(body: Json, own: &Vec<String>) -> (r: (Json, Vec<ConversionWarning>))
    ensures
        (r.0@, views(r.1@)) == count_body(body@, views(own@)),
{
    broadcast use crate::json::group_json;
    let mut ws: Vec<ConversionWarning> = Vec::new();
    proof {
        assert(views(ws@) =~= Seq::<ConversionWarningV>::empty());
    }
    match body {
        Json::Object(o) => {
            let mut kept = JsonMap::new();
            let mut i: usize = 0;
            while i < o.entries.len()
                invariant
                    i <= o.entries@.len(),
                    (kept@, views(ws@)) == count_fields(o@, views(own@), i as nat),
                decreases o.entries@.len() - i,
            {
                let key = &o.entries[i].0;
                let ghost k0 = kept@;
                proof {
                    assert(o@[i as int] == (key@, o.entries@[i as int].1@));
                }
                if is_count_field(key) {
                    kept.entries.push((key.clone(), o.entries[i].1.copy()));
                    proof {
                        assert(kept@ =~= k0.push(o@[i as int]));
                    }
                } else if !names_key(own, key) {
                    ws.push(
                        ConversionWarning::to_format(
                            WarningCode::CountTokensFieldDropped,
                            ANTHROPIC_MESSAGES,
                            cat2("/", escape_pointer_token(key.as_str()).as_str()).as_str(),
                            cat3(
                                "`",
                                key.as_str(),
                                "` is not accepted by the count_tokens endpoint; the count may not be exact",
                            ).as_str(),
                        ),
                    );
                }
                i += 1;
            }
            (Json::object(kept), ws)
        },
        other => (other, ws),
    }
}

fn collect_models(a: &Vec<Json>) -> (r: Vec<Model>)
    ensures
        views(r@) == anthropic_models(views(a@), a@.len()),
{
    let mut out: Vec<Model> = Vec::new();
    let mut i: usize = 0;
    proof {
        assert(views(out@) =~= Seq::<ModelV>::empty());
    }
    while i < a.len()
        invariant
            i <= a@.len(),
            views(out@) == anthropic_models(views(a@), i as nat),
        decreases a@.len() - i,
    {
        let entry = &a[i];
        proof {
            assert(views(a@)[i as int] == entry@);
        }
        if let Some(id) = text_member(entry, "id") {
            let mut m = Model::new(id, entry.copy());
            m.display_name = text_member(entry, "display_name");
            m.created = match text_member(entry, "created_at") {
                Some(t) => Some(Created::Timestamp(t)),
                None => None,
            };
            out.push(m);
        }
        i += 1;
    }
    out
}

fn split_chat(c: ChatBody) -> (r: (BuiltBody, Vec<String>))
    ensures
        r.0@ == chat_built(c@),
        views(r.1@) == c@.generated_keys,
{
    (
        BuiltBody {
            body: c.body,
            warnings: c.warnings,
            merge_log: c.merge_log,
            message_pointers: c.message_pointers,
        },
        c.generated_keys,
    )
}

impl AnthropicMessages {
    /// The format id.
    pub fn id(&self) -> (r: &'static str)
        ensures
            r@ == ANTHROPIC_MESSAGES@,
    {
        ANTHROPIC_MESSAGES
    }

    /// Builds a chat request.
    pub fn build_request<
        M: Fn(usize, Role, Json) -> Result<Json, HookError>,
        R: Fn(Json) -> Result<Json, HookError>,
    >(&self, req: &Request, ctx: &BuildCtx<M, R>) -> (r: Result<BuiltRequest, Error>)
        requires
            callable(ctx.hooks),
        ensures
            exists|out: FinishedV| #[trigger]
                finished(
                    ctx.hooks,
                    ctx.convert.strict,
                    anthropic_built(
                        req@,
                        ctx.model@,
                        ctx.format_options.anthropic@,
                        ctx.convert@,
                        streams(ctx.mode),
                    ),
                    out,
                ) && request_view(r) == with_headers(
                    posted(
                        out,
                        request_url(
                            ctx.url@,
                            "messages"@,
                            ctx.model@,
                            None,
                            Seq::empty(),
                            views(ctx.extra_query@),
                        ),
                        anthropic_auth(ctx.format_options.anthropic@),
                    ),
                    ctx.format_options.anthropic@,
                ),
            r is Ok ==> forall|k: Seq<char>| #[trigger]
                header_values(r->Ok_0.headers, k) == anthropic_header(
                    ctx.format_options.anthropic@,
                    k,
                    json_header(k),
                ),
    {
        let streaming = ctx.mode == CallMode::Streaming;
        let ghost built = anthropic_built(
            req@,
            ctx.model@,
            ctx.format_options.anthropic@,
            ctx.convert@,
            streaming,
        );
        let chat = match build_chat_body(
            req,
            ctx.model.as_str(),
            &ctx.format_options.anthropic,
            &ctx.convert,
            streaming,
        ) {
            Ok(c) => c,
            Err(e) => {
                proof {
                    assert(finished(
                        ctx.hooks,
                        ctx.convert.strict,
                        built,
                        FinishedV::Err(ErrorV::Conversion(e@)),
                    ));
                }
                return Err(Error::Conversion(e));
            },
        };
        let (body, _) = split_chat(chat);
        let out = finish_body(body, ctx.convert.strict, &ctx.hooks);
        proof {
            assert(finished(ctx.hooks, ctx.convert.strict, built, finished_view(out)));
        }
        let (body, warnings) = match out {
            Ok(v) => v,
            Err(e) => {
                return Err(e);
            },
        };
        let none: Vec<(String, String)> = Vec::new();
        proof {
            assert(views(none@) =~= Seq::<(Seq<char>, Seq<char>)>::empty());
        }
        let url = match build_url(&ctx.url, "messages", ctx.model.as_str(), None, &none, &ctx.extra_query) {
            Ok(u) => u,
            Err(e) => {
                return Err(e);
            },
        };
        let mut r = post(&body, warnings, url, auth_scheme(&ctx.format_options.anthropic));
        match apply_default_headers(&ctx.format_options.anthropic, &mut r.headers) {
            Ok(_) => Ok(r),
            Err(e) => Err(e),
        }
    }

    /// Parses a 2xx chat response.
    pub fn parse_response(&self, body: &[u8], meta: &ResponseMeta) -> (r: Result<Response, Error>)
        ensures
            match r {
                Ok(v) => response_outcome(body@, meta.status, meta.headers) == Ok::<ResponseV, ErrorV>(v@),
                Err(e) => response_outcome(body@, meta.status, meta.headers) == Err::<ResponseV, ErrorV>(e@),
            },
    {
        parse_response_body(body, meta)
    }

    /// Classifies a non-2xx response.
    pub fn parse_error(&self, status: u16, headers: &http::HeaderMap, body: &[u8]) -> (r: Error)
        ensures
            r@ == anthropic_error(status, *headers, body@),
    {
        let env = match parse_body(body) {
            None => {
                return generic_api_error(status, headers, body);
            },
            Some(j) => match ErrorEnvelope::from_json(&j) {
                Err(_) => {
                    return generic_api_error(status, headers, body);
                },
                Ok(env) => env,
            },
        };
        let kind = match &env.error.kind {
            Some(t) => map_error_kind(t.as_str()),
            None => ApiErrorKind::from_status(status),
        };
        let message = match env.error.message {
            Some(m) => m,
            None => cat2("HTTP ", dec(status as u64).as_str()),
        };
        Error::api(status, kind, message, body, headers)
    }

    /// A parser for one stream.
    pub fn stream_parser(&self) -> (r: AnthropicStreamParser)
        ensures
            r@ == fresh_stream(),
    {
        AnthropicStreamParser::new()
    }

    /// Parses a request body into the IR. A body that a request was written as
    /// is read as this request, without a warning.
    pub fn parse_request(&self, body: &[u8]) -> (r: Result<(Request, Vec<ConversionWarning>), Error>)
        ensures
            match r {
                Ok(v) => request_outcome(body@) == Ok::<(RequestV, Seq<ConversionWarningV>), ErrorV>(
                    (v.0@, views(v.1@)),
                ),
                Err(e) => request_outcome(body@) == Err::<(RequestV, Seq<ConversionWarningV>), ErrorV>(e@),
            },
            forall|
                req: RequestV,
                turns: Seq<TurnV>,
                model: Seq<char>,
                opts: AnthropicOptionsV,
                conv: ConvertOptionsV,
                streaming: bool,
            | #[trigger]
                written_as(body@, req, turns, model, opts, conv, streaming) ==> match r {
                    Ok(v) => v.0@ == req && v.1@.len() == 0,
                    Err(_) => false,
                },
    {
        let r = parse_request_body(body);
        proof {
            assert forall|
                req: RequestV,
                turns: Seq<TurnV>,
                model: Seq<char>,
                opts: AnthropicOptionsV,
                conv: ConvertOptionsV,
                streaming: bool,
            | #[trigger]
                written_as(body@, req, turns, model, opts, conv, streaming) implies match r {
                    Ok(v) => v.0@ == req && v.1@.len() == 0,
                    Err(_) => false,
                } by {
                request_round_trip(req, turns, model, opts, conv, streaming);
                if let Ok(v) = r {
                    assert(views(v.1@).len() == v.1@.len());
                }
            }
        }
        r
    }

    /// Builds a request for one page of models.
    pub fn build_models_request<M, R>(&self, ctx: &BuildCtx<M, R>, cursor: Option<&str>) -> (r: Result<BuiltRequest, Error>)
        ensures
            request_view(r) == with_headers(
                fetched(
                    request_url(
                        ctx.url@,
                        "models"@,
                        ctx.model@,
                        None,
                        Seq::empty(),
                        models_query(views(ctx.extra_query@), opt_view(cursor)),
                    ),
                    anthropic_auth(ctx.format_options.anthropic@),
                ),
                ctx.format_options.anthropic@,
            ),
            r is Ok ==> forall|k: Seq<char>| #[trigger]
                header_values(r->Ok_0.headers, k) == anthropic_header(
                    ctx.format_options.anthropic@,
                    k,
                    Seq::empty(),
                ),
    {
        let mut query = dup_vec(&ctx.extra_query);
        if let Some(c) = cursor {
            query.push(("after_id".to_owned(), c.to_owned()));
            proof {
                assert(views(query@) =~= models_query(views(ctx.extra_query@), opt_view(cursor)));
            }
        }
        let none: Vec<(String, String)> = Vec::new();
        proof {
            assert(views(none@) =~= Seq::<(Seq<char>, Seq<char>)>::empty());
        }
        let url = match build_url(&ctx.url, "models", ctx.model.as_str(), None, &none, &query) {
            Ok(u) => u,
            Err(e) => {
                return Err(e);
            },
        };
        let mut r = fetch(url, auth_scheme(&ctx.format_options.anthropic));
        proof {
            assert forall|k: Seq<char>| #[trigger] header_values(r.headers, k) == Seq::<Seq<u8>>::empty() by {
                assert(header_values(r.headers, k).len() == 0);
            }
        }
        match apply_default_headers(&ctx.format_options.anthropic, &mut r.headers) {
            Ok(_) => Ok(r),
            Err(e) => Err(e),
        }
    }

    /// Parses one page of models.
    pub fn parse_models_response(&self, body: &[u8]) -> (r: Result<(Vec<Model>, Option<String>), Error>)
        ensures
            page_view(r) == anthropic_page(body@),
    {
        let j = match parse_slice(body) {
            Err(e) => {
                return Err(parse_problem(cat2("invalid Anthropic models page: ", e.as_str()), body));
            },
            Ok(j) => j,
        };
        let p = match ModelsPage::from_json(&j) {
            Err(e) => {
                return Err(parse_problem(cat2("invalid Anthropic models page: ", e.as_str()), body));
            },
            Ok(p) => p,
        };
        let models = collect_models(&p.data);
        if p.has_more == Some(true) {
            if let Some(id) = p.last_id {
                if !id.as_str().is_empty() {
                    return Ok((models, Some(id)));
                }
            }
            return Err(
                parse_problem("malformed pagination: has_more=true without last_id".to_owned(), body),
            );
        }
        Ok((models, None))
    }

    /// Builds a token-count request: the chat request, reduced to what the
    /// count endpoint takes.
    pub fn build_count_tokens_request<
        M: Fn(usize, Role, Json) -> Result<Json, HookError>,
        R: Fn(Json) -> Result<Json, HookError>,
    >(&self, req: &Request, ctx: &BuildCtx<M, R>) -> (r: Result<BuiltRequest, Error>)
        requires
            callable(ctx.hooks),
        ensures
            exists|out: FinishedV| #[trigger]
                finished(
                    ctx.hooks,
                    ctx.convert.strict,
                    anthropic_built(
                        req@,
                        ctx.model@,
                        ctx.format_options.anthropic@,
                        ctx.convert@,
                        false,
                    ),
                    out,
                ) && request_view(r) == with_headers(
                    posted(
                        counted(
                            out,
                            own_keys(req@, ctx.model@, ctx.format_options.anthropic@, ctx.convert@),
                            ctx.convert.strict,
                        ),
                        request_url(
                            ctx.url@,
                            "messages/count_tokens"@,
                            ctx.model@,
                            None,
                            Seq::empty(),
                            views(ctx.extra_query@),
                        ),
                        anthropic_auth(ctx.format_options.anthropic@),
                    ),
                    ctx.format_options.anthropic@,
                ),
            r is Ok ==> forall|k: Seq<char>| #[trigger]
                header_values(r->Ok_0.headers, k) == anthropic_header(
                    ctx.format_options.anthropic@,
                    k,
                    json_header(k),
                ),
    {
        let ghost built = anthropic_built(
            req@,
            ctx.model@,
            ctx.format_options.anthropic@,
            ctx.convert@,
            false,
        );
        let chat = match build_chat_body(
            req,
            ctx.model.as_str(),
            &ctx.format_options.anthropic,
            &ctx.convert,
            false,
        ) {
            Ok(c) => c,
            Err(e) => {
                proof {
                    assert(finished(
                        ctx.hooks,
                        ctx.convert.strict,
                        built,
                        FinishedV::Err(ErrorV::Conversion(e@)),
                    ));
                }
                return Err(Error::Conversion(e));
            },
        };
        let (body, own) = split_chat(chat);
        let out = finish_body(body, ctx.convert.strict, &ctx.hooks);
        proof {
            assert(finished(ctx.hooks, ctx.convert.strict, built, finished_view(out)));
        }
        let (body, warnings) = match out {
            Ok(v) => v,
            Err(e) => {
                return Err(e);
            },
        };
        let (body, extra) = adapt_count_body(body, &own);
        match strict_gate(ctx.convert.strict, extra.as_slice()) {
            Ok(_) => {},
            Err(c) => {
                return Err(Error::Conversion(c));
            },
        }
        let ghost ev = views(extra@);
        let ghost wv = views(warnings@);
        let mut all = warnings;
        let mut extra = extra;
        all.append(&mut extra);
        let none: Vec<(String, String)> = Vec::new();
        proof {
            assert(views(all@) =~= wv + ev);
            assert(views(none@) =~= Seq::<(Seq<char>, Seq<char>)>::empty());
        }
        let url = match build_url(
            &ctx.url,
            "messages/count_tokens",
            ctx.model.as_str(),
            None,
            &none,
            &ctx.extra_query,
        ) {
            Ok(u) => u,
            Err(e) => {
                return Err(e);
            },
        };
        let mut r = post(&body, all, url, auth_scheme(&ctx.format_options.anthropic));
        match apply_default_headers(&ctx.format_options.anthropic, &mut r.headers) {
            Ok(_) => Ok(r),
            Err(e) => Err(e),
        }
    }

    /// Parses a token-count response.
    pub fn parse_count_tokens_response(&self, body: &[u8]) -> (r: Result<TokenCount, Error>)
        ensures
            count_view(r) == anthropic_count(body@),
    {
        let j = match parse_slice(body) {
            Err(e) => {
                return Err(parse_problem(cat2("invalid count_tokens response: ", e.as_str()), body));
            },
            Ok(j) => j,
        };
        let w = match CountTokensResponse::from_json(&j) {
            Err(e) => {
                return Err(parse_problem(cat2("invalid count_tokens response: ", e.as_str()), body));
            },
            Ok(w) => w,
        };
        let mut c = TokenCount::new(w.input_tokens);
        c.raw = Some(j);
        Ok(c)
    }
}

} // verus!
