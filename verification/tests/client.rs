//! Configuration, call decisions and streaming calls.

use http::{HeaderMap, HeaderName, HeaderValue};
use llm_api::client::call::{
    apply_header_layers, check_count_format, count_warnings, effective_options, error_from_body, is_decoupled,
    is_success, prepend_warnings, resolve_auth, resolve_secondary_endpoint, success_body, BodyEnd, CappedBody, Pages,
};
use llm_api::client::config::{AuthHeader, CallOptions, EndpointConfig, Limits, Override, ProviderConfig};
use llm_api::client::stream::{Next, State, StreamHandle, StreamItem};
use llm_api::convert::{ConversionWarning, ConvertOptions, WarningCode};
use llm_api::error::{ApiErrorKind, BodyKind, ConversionError, Error};
use llm_api::formats::google_generate_content::stream::GoogleStreamParser;
use llm_api::formats::openai_chat_completions::stream::ChatCompletionsStreamParser;
use llm_api::headers::layer_headers;
use llm_api::ir::{Message, SseEvent, StreamEvent};
use llm_api::request::AuthScheme;
use llm_api::response::Response;
use llm_api::url::EndpointUrl;

fn name(s: &'static str) -> HeaderName {
    HeaderName::from_static(s)
}

fn value(s: &'static str) -> HeaderValue {
    HeaderValue::from_static(s)
}

/// An API key whose debug output hides it.
struct ApiKey(String);

impl ApiKey {
    fn expose(&self) -> &str {
        &self.0
    }
}

impl std::fmt::Debug for ApiKey {
    fn fmt(&self, f: &mut std::fmt::Formatter<'_>) -> std::fmt::Result {
        f.write_str("ApiKey(..)")
    }
}

#[derive(Debug)]
struct NullFormat;

#[test]
fn layer_headers_replaces_same_name_and_adds() {
    let mut base = HeaderMap::new();
    base.append(name("x-a"), value("1"));
    base.append(name("x-a"), value("2"));
    base.append(name("x-b"), value("keep"));

    let mut layer = HeaderMap::new();
    layer.append(name("x-a"), value("9"));
    layer.append(name("x-c"), value("new"));
    layer.append(name("x-c"), value("new2"));

    layer_headers(&mut base, &layer).unwrap();
    assert_eq!(base.get_all("x-a").iter().collect::<Vec<_>>(), vec!["9"]);
    assert_eq!(base.get("x-b").unwrap(), "keep");
    assert_eq!(base.get_all("x-c").iter().collect::<Vec<_>>(), vec!["new", "new2"]);
}

#[test]
fn header_layer_precedence_and_disable() {
    let mut fmt = HeaderMap::new();
    fmt.insert(name("x-fmt"), value("f"));
    fmt.insert(name("x-a"), value("f"));

    let mut provider = HeaderMap::new();
    provider.insert(name("x-a"), value("p"));
    provider.insert(name("x-b"), value("p"));

    let mut endpoint = HeaderMap::new();
    endpoint.insert(name("x-b"), value("e"));
    endpoint.insert(name("x-c"), value("e"));

    let mut call = HeaderMap::new();
    call.insert(name("x-c"), value("c"));

    let mut headers = fmt.clone();
    apply_header_layers(&mut headers, &provider, &Override::Replace(endpoint.clone()), &call).unwrap();
    assert_eq!(headers.get("x-fmt").unwrap(), "f");
    assert_eq!(headers.get("x-a").unwrap(), "p");
    assert_eq!(headers.get("x-b").unwrap(), "e");
    assert_eq!(headers.get("x-c").unwrap(), "c");

    // Disabling drops the provider layer only; format defaults stay.
    let mut headers = fmt.clone();
    apply_header_layers(&mut headers, &provider, &Override::Disable, &call).unwrap();
    assert_eq!(headers.get("x-a").unwrap(), "f");
    assert!(headers.get("x-b").is_none());
    assert_eq!(headers.get("x-c").unwrap(), "c");
}

#[test]
fn resolve_auth_three_states() {
    let scheme = AuthScheme::bearer();
    let key = ApiKey("k".to_owned());

    let inherit: Override<AuthHeader<ApiKey>> = Override::Inherit;
    let inherited = resolve_auth(&inherit, Some(&scheme), Some(&key)).expect("auth");
    assert_eq!(inherited.name, http::header::AUTHORIZATION.as_str());
    assert_eq!(inherited.prefix.map(String::as_str), Some("Bearer "));
    assert_eq!(inherited.value.expose(), "k");

    assert!(resolve_auth(&inherit, Some(&scheme), None).is_none());
    assert!(resolve_auth(&inherit, None, Some(&key)).is_none());
    let disable: Override<AuthHeader<ApiKey>> = Override::Disable;
    assert!(resolve_auth(&disable, Some(&scheme), Some(&key)).is_none());

    let set = Override::Replace(AuthHeader {
        name: "x-api-key".to_owned(),
        prefix: None,
        value: ApiKey("other".to_owned()),
    });
    let resolved = resolve_auth(&set, Some(&scheme), Some(&key)).expect("auth");
    assert_eq!(resolved.name, "x-api-key");
    assert!(resolved.prefix.is_none());
    assert_eq!(resolved.value.expose(), "other");
}

/// Reads scripted chunks, as the transport would deliver them.
fn read_capped(chunks: Vec<Result<Vec<u8>, &str>>, cap: usize) -> (Vec<u8>, BodyEnd) {
    let mut body = CappedBody::new(cap);
    for chunk in chunks {
        match chunk {
            Ok(bytes) => {
                if !body.push(&bytes) {
                    return body.finish(None);
                }
            }
            Err(e) => return body.finish(Some(e.to_owned())),
        }
    }
    body.finish(None)
}

#[test]
fn read_capped_complete_cap_and_failure() {
    let (buf, end) = read_capped(vec![Ok(b"hello ".to_vec()), Ok(b"world".to_vec())], 100);
    assert_eq!(buf, b"hello world");
    assert!(matches!(end, BodyEnd::Complete));

    // A body of exactly `cap` bytes is complete, not truncated.
    let (buf, end) = read_capped(vec![Ok(b"12345678".to_vec())], 8);
    assert_eq!(buf.len(), 8);
    assert!(matches!(end, BodyEnd::Complete));

    let (buf, end) = read_capped(vec![Ok(b"0123456789".to_vec())], 4);
    assert_eq!(buf, b"0123");
    assert!(matches!(end, BodyEnd::CapHit));

    let (buf, end) = read_capped(vec![Ok(b"par".to_vec()), Err("body")], 100);
    assert_eq!(buf, b"par");
    assert!(matches!(end, BodyEnd::Failed(_)));
}

#[test]
fn read_capped_slices_oversized_chunk() {
    let (buf, end) = read_capped(vec![Ok(vec![b'x'; 1000])], 8);
    assert!(matches!(end, BodyEnd::CapHit));
    assert_eq!(buf, vec![b'x'; 8]);
    assert!(
        buf.capacity() < 1000,
        "an oversized chunk must not be copied whole (capacity {})",
        buf.capacity()
    );
}

#[test]
fn read_capped_cap_boundary_across_chunks() {
    let (buf, end) = read_capped(
        vec![Ok(b"12345".to_vec()), Ok(b"678".to_vec()), Ok(Vec::new()), Ok(b"9".to_vec())],
        8,
    );
    assert_eq!(buf, b"12345678");
    assert!(matches!(end, BodyEnd::CapHit));

    // Crossing the cap mid-chunk keeps the prefix up to the cap.
    let (buf, end) = read_capped(vec![Ok(b"12345".to_vec()), Ok(b"6789".to_vec())], 8);
    assert_eq!(buf, b"12345678");
    assert!(matches!(end, BodyEnd::CapHit));
}

#[test]
fn limits_defaults() {
    let limits = Limits::default();
    assert_eq!(limits.max_response_body, 256 * 1024 * 1024);
    assert_eq!(limits.max_error_body, 8 * 1024 * 1024);
    assert_eq!(limits.max_sse_event, 64 * 1024 * 1024);
    let tuned = Limits::new().with_max_sse_event(16).with_max_error_body(8).with_max_response_body(4);
    assert_eq!(
        (tuned.max_response_body, tuned.max_error_body, tuned.max_sse_event),
        (4, 8, 16)
    );
}

#[test]
fn override_defaults_to_inherit() {
    assert_eq!(Override::<u8>::default(), Override::Inherit);
}

#[test]
fn call_options_default_inherits_everything() {
    let opts: CallOptions<()> = CallOptions::default();
    assert!(opts.model.is_none());
    assert!(opts.convert.is_none());
    assert!(opts.hooks.is_none());
    assert!(opts.extra_headers.is_empty());
    assert!(opts.extra_query.is_empty());
    assert!(!opts.include_raw);
}

#[test]
fn provider_config_new_rejects_invalid_url() {
    let err = ProviderConfig::<NullFormat, (), ApiKey>::new(NullFormat, "http://exa mple.com", "m", ()).unwrap_err();
    assert!(matches!(err, Error::Conversion(_)));
}

#[test]
fn provider_config_builders() {
    let provider = ProviderConfig::new(NullFormat, "http://h/v1", "m", ())
        .unwrap()
        .with_auth(ApiKey("sk-super-secret".to_owned()))
        .with_model("m2".to_owned())
        .with_query("a".to_owned(), "1".to_owned())
        .with_header(&name("x-p"), &value("1"))
        .unwrap()
        .with_limits(Limits::new().with_max_error_body(9))
        .with_models_endpoint(EndpointConfig::new(NullFormat, EndpointUrl::full("http://h/models")));
    assert_eq!(provider.model, "m2");
    assert_eq!(provider.auth.as_ref().unwrap().expose(), "sk-super-secret");
    assert_eq!(provider.extra_query, vec![("a".to_owned(), "1".to_owned())]);
    assert_eq!(provider.extra_headers.get("x-p").unwrap(), "1");
    assert_eq!(provider.limits.max_error_body, 9);
    assert!(provider.models.is_some());
    assert!(provider.count_tokens.is_none());
    // Debug does not leak the key.
    let debug = format!("{provider:?}");
    assert!(
        !debug.contains("sk-super-secret"),
        "debug output must not leak the API key: {debug}"
    );
}

fn provider(url: &str) -> ProviderConfig<&'static str, u8, ApiKey> {
    ProviderConfig::new("fmt", url, "m", 1u8).unwrap()
}

#[test]
fn call_options_replace_and_stack() {
    let p = provider("http://h/v1").with_query("a".to_owned(), "1".to_owned());
    let inherited = CallOptions::new();
    let eff = effective_options(&p, &inherited);
    assert_eq!(eff.model, "m");
    assert_eq!(*eff.hooks, 1);
    assert!(!eff.convert.strict);
    assert_eq!(eff.extra_query, vec![("a".to_owned(), "1".to_owned())]);

    let opts = CallOptions::new()
        .with_model("other".to_owned())
        .with_hooks(2u8)
        .with_convert(ConvertOptions::new().strict(true))
        .with_query("b".to_owned(), "2".to_owned())
        .with_include_raw(true);
    let eff = effective_options(&p, &opts);
    assert_eq!(eff.model, "other");
    assert_eq!(*eff.hooks, 2);
    assert!(eff.convert.strict);
    assert_eq!(
        eff.extra_query,
        vec![("a".to_owned(), "1".to_owned()), ("b".to_owned(), "2".to_owned())]
    );
}

#[test]
fn success_is_2xx() {
    assert!(!is_success(199));
    assert!(is_success(200));
    assert!(is_success(299));
    assert!(!is_success(300));
}

#[test]
fn secondary_endpoint_derives_from_a_base_url_only() {
    let p = provider("http://h/v1");
    assert_eq!(resolve_secondary_endpoint(&p, None, "no").unwrap().format, "fmt");

    let full: ProviderConfig<&str, (), ApiKey> =
        ProviderConfig::from_endpoint(EndpointConfig::new("fmt", EndpointUrl::full("http://h/chat")), "m", ());
    let err = resolve_secondary_endpoint(&full, None, "no").unwrap_err();
    assert_eq!(err, Error::NotSupported("no".to_owned()));

    let explicit = EndpointConfig::new("own", EndpointUrl::full("http://h/models"));
    assert_eq!(resolve_secondary_endpoint(&full, Some(&explicit), "no").unwrap().format, "own");
}

#[test]
fn success_body_fails_beyond_the_cap() {
    let mut headers = HeaderMap::new();
    headers.insert(name("x-id"), value("7"));
    assert_eq!(success_body(b"ok".to_vec(), BodyEnd::Complete, 9, 200, &headers).unwrap(), b"ok");
    let err = success_body(b"ab".to_vec(), BodyEnd::CapHit, 2, 200, &headers).unwrap_err();
    assert_eq!(
        err,
        Error::BodyTooLarge {
            kind: BodyKind::SuccessBody,
            limit: 2,
            status: Some(200),
            headers: Some(headers.clone()),
            prefix: b"ab".to_vec(),
        }
    );
    assert_eq!(err.text(), "response body exceeded the configured cap of 2 bytes");
    let err = success_body(Vec::new(), BodyEnd::Failed("reset".to_owned()), 2, 200, &headers).unwrap_err();
    assert_eq!(err, Error::Transport("reset".to_owned()));
    assert_eq!(err.text(), "transport error: reset");
}

#[test]
fn truncated_error_bodies_keep_the_prefix() {
    let headers = HeaderMap::new();
    let error = llm_api::api_error::generic_api_error(500, &headers, b"abc");
    match error_from_body(error, b"ab".to_vec(), &BodyEnd::CapHit) {
        Error::Api { status, raw, truncated, kind, .. } => {
            assert_eq!(status, 500);
            assert_eq!(kind, ApiErrorKind::ServerError);
            assert_eq!(raw, b"ab");
            assert!(truncated);
        }
        other => panic!("unexpected: {other:?}"),
    }
    let error = llm_api::api_error::generic_api_error(500, &headers, b"abc");
    match error_from_body(error, b"abc".to_vec(), &BodyEnd::Complete) {
        Error::Api { truncated, .. } => assert!(!truncated),
        other => panic!("unexpected: {other:?}"),
    }
}

#[test]
fn pagination_stops_on_repeats_and_runaways() {
    let mut pages = Pages::new();
    assert_eq!(pages.advance(Some("a".to_owned()), 4, b"").unwrap().as_deref(), Some("a"));
    assert_eq!(pages.advance(Some("b".to_owned()), 4, b"").unwrap().as_deref(), Some("b"));
    let err = pages.advance(Some("a".to_owned()), 9, b"raw").unwrap_err();
    assert_eq!(
        err,
        Error::Parse {
            message: "malformed pagination: cursor `a` was already seen".to_owned(),
            raw: b"raw".to_vec(),
        }
    );
    let err = pages.advance(Some("c".to_owned()), 4, b"").unwrap_err();
    assert_eq!(err.text(), "parse error: malformed pagination: exceeded 4 pages without an end");
    assert_eq!(pages.advance(None, 4, b"").unwrap(), None);
}

fn noted(message: &str) -> ConversionWarning {
    ConversionWarning::from_format(WarningCode::MalformedField, "f", "", message)
}

#[test]
fn build_warnings_come_first() {
    let response = Response {
        message: Message::assistant(Vec::new()),
        id: None,
        model: None,
        stop_reason: None,
        usage: None,
        status: 200,
        headers: HeaderMap::new(),
        raw: None,
        warnings: vec![noted("parse")],
    };
    let merged = prepend_warnings(vec![noted("build")], response);
    let texts: Vec<&str> = merged.warnings.iter().map(|w| w.message.as_str()).collect();
    assert_eq!(texts, vec!["build", "parse"]);
}

#[test]
fn decoupled_counts_are_approximate() {
    assert!(!is_decoupled(true, "a", "b"));
    assert!(!is_decoupled(false, "a", "a"));
    assert!(is_decoupled(false, "a", "b"));
    assert!(check_count_format(true, false, "f").is_ok());
    assert!(check_count_format(false, true, "f").is_ok());
    match check_count_format(true, true, "f") {
        Err(ConversionError::Strict { warnings }) => {
            assert_eq!(warnings.len(), 1);
            assert_eq!(warnings[0].code, WarningCode::CountTokensApproximate);
        }
        other => panic!("unexpected: {other:?}"),
    }
    let all = count_warnings(vec![noted("build")], true, "f", vec![noted("parse")]);
    let codes: Vec<WarningCode> = all.iter().map(|w| w.code).collect();
    assert_eq!(
        codes,
        vec![WarningCode::MalformedField, WarningCode::CountTokensApproximate, WarningCode::MalformedField]
    );
    assert_eq!(count_warnings(vec![noted("build")], false, "f", vec![noted("parse")]).len(), 2);
}

fn sse(data: &str) -> SseEvent {
    SseEvent { event: None, data: data.to_owned() }
}

fn handle() -> StreamHandle<ChatCompletionsStreamParser> {
    let mut headers = HeaderMap::new();
    headers.insert(http::header::RETRY_AFTER, value("3"));
    StreamHandle::new(
        200,
        headers,
        vec![noted("build")],
        ChatCompletionsStreamParser::new(),
        "openai_chat_completions",
        false,
    )
}

fn drain<P: llm_api::stream::StreamParser>(h: &mut StreamHandle<P>) -> Vec<Result<StreamItem, Error>> {
    let mut out = Vec::new();
    loop {
        match h.next_step() {
            Next::Item(i) => out.push(i),
            Next::Flush => h.on_eof(&Vec::new(), None),
            Next::Read => return out,
            Next::End => return out,
        }
    }
}

#[test]
fn stream_delivers_items_then_ends() {
    let mut h = handle();
    assert_eq!(h.status(), 200);
    assert_eq!(h.warnings().len(), 1);
    assert!(h.headers().contains_key("retry-after"));
    assert!(matches!(h.next_step(), Next::Read));
    h.on_bytes(
        &vec![
            sse(r#"{"id":"c","choices":[{"index":0,"delta":{"content":"hi"}}]}"#),
            sse("not json"),
        ],
        None,
    );
    let items = drain(&mut h);
    assert_eq!(items.len(), 4);
    match &items[3] {
        Ok(item) => {
            assert_eq!(item.event, StreamEvent::Unknown);
            // Unknown events carry their raw data, others do not.
            assert_eq!(item.raw.as_deref(), Some("not json"));
            assert_eq!(item.warnings.len(), 1);
        }
        other => panic!("unexpected: {other:?}"),
    }
    assert!(items[0].as_ref().unwrap().raw.is_none());
    h.on_bytes(&vec![sse("[DONE]")], None);
    h.on_body_end();
    let items = drain(&mut h);
    assert_eq!(items.last().unwrap().as_ref().unwrap().event, StreamEvent::MessageStop);
    assert!(matches!(h.next_step(), Next::End));
    assert_eq!(h.state, State::Done);
}

#[test]
fn truncated_stream_fails_once() {
    let mut h = handle();
    h.on_bytes(&vec![sse(r#"{"id":"c","choices":[]}"#)], None);
    h.on_body_end();
    let items = drain(&mut h);
    assert_eq!(items.len(), 2);
    assert!(matches!(items[1], Err(Error::Parse { .. })));
    assert!(matches!(h.next_step(), Next::End));
}

#[test]
fn transport_failure_before_the_terminator_is_fatal() {
    let mut h = handle();
    h.on_transport_error("reset".to_owned());
    let items = drain(&mut h);
    assert_eq!(items, vec![Err(Error::Transport("reset".to_owned()))]);
}

#[test]
fn failure_after_the_terminator_is_a_warning() {
    let mut h = handle();
    h.on_bytes(&vec![sse("[DONE]")], Some(Error::Transport("reset".to_owned())));
    let items = drain(&mut h);
    assert!(items.iter().all(Result::is_ok));
    let last = items.last().unwrap().as_ref().unwrap();
    assert_eq!(last.event, StreamEvent::Unknown);
    assert_eq!(last.warnings[0].code, WarningCode::PostTerminalStreamFailure);
    assert_eq!(
        last.warnings[0].message,
        "stream failure after the protocol terminator: transport error: reset"
    );
    assert!(matches!(h.next_step(), Next::End));
}

#[test]
fn oversized_event_gets_status_and_headers() {
    let mut h = handle();
    h.on_bytes(
        &Vec::new(),
        Some(Error::BodyTooLarge {
            kind: BodyKind::SseEvent,
            limit: 4,
            status: None,
            headers: None,
            prefix: b"data".to_vec(),
        }),
    );
    let items = drain(&mut h);
    match &items[0] {
        Err(Error::BodyTooLarge { status, headers, .. }) => {
            assert_eq!(*status, Some(200));
            assert!(headers.as_ref().unwrap().contains_key("retry-after"));
        }
        other => panic!("unexpected: {other:?}"),
    }
}

#[test]
fn in_stream_api_error_gets_headers_and_retry_delay() {
    let mut headers = HeaderMap::new();
    headers.insert(http::header::RETRY_AFTER, value("3"));
    let mut h = StreamHandle::new(
        200,
        headers,
        Vec::new(),
        GoogleStreamParser::new(),
        "google_generate_content",
        true,
    );
    h.on_bytes(
        &vec![sse(r#"{"error":{"code":429,"status":"RESOURCE_EXHAUSTED","message":"slow"}}"#)],
        None,
    );
    match &drain(&mut h)[0] {
        Err(Error::Api { status, kind, message, retry_after, headers, .. }) => {
            assert_eq!(*status, 429);
            assert_eq!(*kind, ApiErrorKind::RateLimit);
            assert_eq!(message, "slow");
            assert_eq!(*retry_after, Some(3));
            assert!(headers.contains_key("retry-after"));
        }
        other => panic!("unexpected: {other:?}"),
    }
}
