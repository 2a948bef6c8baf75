//! Anthropic Messages.

use http::HeaderMap;
use llm_api::convert::{ConvertOptions, WarningCode};
use llm_api::error::{ApiErrorKind, ConversionError, Error, HookError};
use llm_api::format::{AnthropicAuthStyle, CallMode};
use llm_api::formats::anthropic_messages::api::{apply_default_headers, AnthropicMessages};
use llm_api::formats::anthropic_messages::blocks::convert_block;
use llm_api::ir::{ContentBlock, Extra, Message, Request, Role, SseEvent, StopReason, StreamEvent};
use llm_api::json::Json;
use llm_api::models::Created;
use llm_api::request::{BuildCtx, Method};
use llm_api::response::ResponseMeta;
use llm_api::sink::Sink;
use llm_api::stream::StreamParser;
use llm_api::url::EndpointUrl;
use llm_api::value::{parse_text, to_text};

type MessageHook = fn(usize, Role, Json) -> Result<Json, HookError>;
type RequestHook = fn(Json) -> Result<Json, HookError>;

fn ctx() -> BuildCtx<MessageHook, RequestHook> {
    BuildCtx::new(EndpointUrl::base("https://a/v1").unwrap(), "modelx".to_owned(), CallMode::Unary)
}

fn user(text: &str) -> Request {
    let mut req = Request::new();
    req.messages = vec![Message::user(vec![ContentBlock::text(text.to_owned())])];
    req.max_output_tokens = Some(16);
    req
}

fn text_of(body: Vec<u8>) -> String {
    String::from_utf8(body).unwrap()
}

#[test]
fn anthropic_chat_request_is_built() {
    let mut c = ctx();
    c.format_options.anthropic.betas = vec!["x".to_owned(), "y".to_owned()];
    let built = AnthropicMessages.build_request(&user("hi"), &c).unwrap();
    assert_eq!(built.method, Method::Post);
    assert_eq!(built.url.text, "https://a/v1/messages");
    assert_eq!(built.headers.get("content-type").unwrap(), "application/json");
    assert_eq!(built.headers.get("anthropic-version").unwrap(), "2023-06-01");
    assert_eq!(built.headers.get("anthropic-beta").unwrap(), "x,y");
    assert_eq!(built.auth.unwrap().header, "x-api-key");
    assert_eq!(
        text_of(built.body),
        r#"{"model":"modelx","max_tokens":16,"messages":[{"role":"user","content":[{"type":"text","text":"hi"}]}]}"#
    );
    c.format_options.anthropic.auth_style = AnthropicAuthStyle::Bearer;
    c.format_options.anthropic.version = None;
    c.format_options.anthropic.betas = Vec::new();
    let built = AnthropicMessages.build_request(&user("hi"), &c).unwrap();
    assert!(built.headers.get("anthropic-version").is_none());
    let auth = built.auth.unwrap();
    assert_eq!(auth.header, "authorization");
    assert_eq!(auth.prefix.as_deref(), Some("Bearer "));
}

#[test]
fn header_values_are_checked() {
    let mut c = ctx();
    c.format_options.anthropic.version = Some("a\nb".to_owned());
    let err = AnthropicMessages.build_request(&user("hi"), &c).unwrap_err();
    assert_eq!(err.text(), "conversion error: invalid anthropic-version value: \"a\\nb\"");
    c.format_options.anthropic.version = None;
    c.format_options.anthropic.betas = vec!["\u{7f}".to_owned()];
    let err = AnthropicMessages.build_models_request(&c, None).unwrap_err();
    assert_eq!(err.text(), "conversion error: invalid anthropic-beta value: \"\\u{7f}\"");
}

#[test]
fn max_tokens_is_required() {
    let mut req = user("hi");
    req.max_output_tokens = None;
    let err = AnthropicMessages.build_request(&req, &ctx()).unwrap_err();
    assert!(matches!(err, Error::Conversion(ConversionError::MissingRequired { .. })));
    let mut c = ctx();
    c.format_options.anthropic.default_max_tokens = Some(3);
    let built = AnthropicMessages.build_request(&req, &c).unwrap();
    assert!(text_of(built.body).contains(r#""max_tokens":3"#));
}

#[test]
fn models_are_paged() {
    let a = AnthropicMessages;
    let mut c = ctx();
    c.extra_query = vec![("limit".to_owned(), "5".to_owned())];
    let built = a.build_models_request(&c, Some("m/1")).unwrap();
    assert_eq!(built.url.text, "https://a/v1/models?limit=5&after_id=m%2F1");
    let (models, next) = a
        .parse_models_response(
            br#"{"data":[{"id":"m1","display_name":"M","created_at":"2025-01-01T00:00:00Z"},{"x":1}],"has_more":true,"last_id":"m1"}"#,
        )
        .unwrap();
    assert_eq!(models.len(), 1);
    assert_eq!(models[0].display_name.as_deref(), Some("M"));
    assert_eq!(models[0].created, Some(Created::Timestamp("2025-01-01T00:00:00Z".to_owned())));
    assert_eq!(next.as_deref(), Some("m1"));
    let err = a.parse_models_response(br#"{"data":[],"has_more":true}"#).unwrap_err();
    assert_eq!(err.text(), "parse error: malformed pagination: has_more=true without last_id");
}

#[test]
fn count_requests_drop_what_is_not_accepted() {
    let mut req = user("hi");
    req.extra.set("anthropic_messages", "odd/key", Json::Bool(true));
    let built = AnthropicMessages.build_count_tokens_request(&req, &ctx()).unwrap();
    assert_eq!(built.url.text, "https://a/v1/messages/count_tokens");
    assert_eq!(
        text_of(built.body),
        r#"{"model":"modelx","messages":[{"role":"user","content":[{"type":"text","text":"hi"}]}]}"#
    );
    assert_eq!(built.warnings.len(), 1);
    assert_eq!(built.warnings[0].code, WarningCode::CountTokensFieldDropped);
    assert_eq!(built.warnings[0].location, "/odd~1key");
    let mut c = ctx();
    c.convert = ConvertOptions::new().strict(true);
    let err = AnthropicMessages.build_count_tokens_request(&req, &c).unwrap_err();
    assert!(matches!(err, Error::Conversion(ConversionError::Strict { .. })));

    let count = AnthropicMessages.parse_count_tokens_response(br#"{"input_tokens":7}"#).unwrap();
    assert_eq!(count.input_tokens, 7);
    assert!(AnthropicMessages.parse_count_tokens_response(br#"{"input_tokens":-7}"#).is_err());
}

#[test]
fn errors_go_by_type() {
    let headers = HeaderMap::new();
    match AnthropicMessages.parse_error(
        500,
        &headers,
        br#"{"type":"error","error":{"type":"overloaded_error"}}"#,
    ) {
        Error::Api { kind, message, .. } => {
            assert_eq!(kind, ApiErrorKind::Overloaded);
            assert_eq!(message, "HTTP 500");
        }
        other => panic!("unexpected: {other:?}"),
    }
    match AnthropicMessages.parse_error(404, &headers, b"gone") {
        Error::Api { kind, message, .. } => {
            assert_eq!(kind, ApiErrorKind::NotFound);
            assert_eq!(message, "gone");
        }
        other => panic!("unexpected: {other:?}"),
    }
}

#[test]
fn anthropic_request_round_trips() {
    let src = r#"{"model":"modelx","max_tokens":16,"system":[{"type":"text","text":"s","cache_control":{"type":"ephemeral"}}],"messages":[{"role":"user","content":[{"type":"text","text":"hi","citations":[1]}]},{"role":"assistant","content":[{"type":"thinking","thinking":"t","signature":"sig"},{"type":"tool_use","id":"c","name":"f","input":{"a":1}}]},{"role":"user","content":[{"type":"tool_result","tool_use_id":"c","content":"ok"}]}],"top_k":4,"service_tier":"auto"}"#;
    let (req, warnings) = AnthropicMessages.parse_request(src.as_bytes()).unwrap();
    assert!(warnings.is_empty());
    let built = AnthropicMessages.build_request(&req, &ctx()).unwrap();
    assert!(built.warnings.is_empty());
    let again = parse_text(&text_of(built.body)).unwrap();
    for key in ["model", "max_tokens", "system", "messages", "top_k", "service_tier"] {
        assert_eq!(again.get(key), parse_text(src).unwrap().get(key), "{key}");
    }
}

#[test]
fn hooks_see_wire_messages() {
    let mut c = ctx();
    fn mark(i: usize, role: Role, mut j: Json) -> Result<Json, HookError> {
        assert_eq!((i, role), (0, Role::User));
        j.put("seen", Json::Bool(true));
        Ok(j)
    }
    c.hooks = c.hooks.with_on_message(mark);
    let built = AnthropicMessages.build_request(&user("hi"), &c).unwrap();
    assert!(text_of(built.body).contains(r#"{"role":"user","content":[{"type":"text","text":"hi"}],"seen":true}"#));
}

#[test]
fn anthropic_responses_are_parsed() {
    let meta = ResponseMeta::new(200, HeaderMap::new());
    let r = AnthropicMessages
        .parse_response(
            br#"{"id":"m","model":"modelx","content":[{"type":"text","text":"yes"}],"stop_reason":"max_tokens","usage":{"input_tokens":2,"cache_read_input_tokens":3,"output_tokens":4}}"#,
            &meta,
        )
        .unwrap();
    assert_eq!(r.message.content, vec![ContentBlock::text("yes".to_owned())]);
    assert_eq!(r.stop_reason, Some(StopReason::MaxTokens));
    let usage = r.usage.unwrap();
    assert_eq!((usage.input_tokens, usage.output_tokens, usage.cache_read_tokens), (5, 4, Some(3)));
    assert_eq!(to_text(&r.raw.unwrap()).len(), 168);
}

fn sse(event: &str, data: &str) -> SseEvent {
    SseEvent { event: Some(event.to_owned()), data: data.to_owned() }
}

#[test]
fn stream_runs_to_its_terminator() {
    let mut p = AnthropicMessages.stream_parser();
    let mut all = Vec::new();
    for (event, data) in [
        ("message_start", r#"{"type":"message_start","message":{"id":"m","model":"c","usage":{"input_tokens":1}}}"#),
        ("ping", r#"{"type":"ping"}"#),
        ("content_block_start", r#"{"type":"content_block_start","index":0,"content_block":{"type":"text","text":""}}"#),
        ("content_block_delta", r#"{"type":"content_block_delta","index":0,"delta":{"type":"text_delta","text":"hi"}}"#),
        ("content_block_stop", r#"{"type":"content_block_stop","index":0}"#),
        ("message_delta", r#"{"type":"message_delta","delta":{"stop_reason":"end_turn"},"usage":{"output_tokens":2}}"#),
    ] {
        let (events, warnings) = p.parse(&sse(event, data)).unwrap();
        assert!(warnings.is_empty(), "{event}: {warnings:?}");
        all.extend(events);
    }
    let (events, _) = p.parse(&sse("message_stop", r#"{"type":"message_stop"}"#)).unwrap();
    assert_eq!(events, vec![StreamEvent::MessageStop]);
    assert!(p.finish().is_ok());
    assert!(all.iter().any(|e| matches!(e, StreamEvent::BlockDelta { .. })));
}

#[test]
fn stream_errors_and_truncation() {
    let mut p = AnthropicMessages.stream_parser();
    assert!(matches!(p.finish(), Err(Error::Parse { .. })));
    match p.parse(&sse("error", r#"{"type":"error","error":{"type":"overloaded_error","message":"busy"}}"#)) {
        Err(Error::Api { kind, message, .. }) => {
            assert_eq!(kind, ApiErrorKind::Overloaded);
            assert_eq!(message, "busy");
        }
        other => panic!("unexpected: {other:?}"),
    }
}

#[test]
fn split_turns_are_joined_again() {
    let src = r#"{"model":"modelx","max_tokens":16,"messages":[{"role":"user","content":[{"type":"text","text":"go"}]},{"role":"assistant","content":[{"type":"tool_use","id":"c","name":"f","input":{}},{"type":"tool_use","id":"d","name":"f","input":{}}]},{"role":"user","content":[{"type":"tool_result","tool_use_id":"c","content":"1"},{"type":"text","text":"and"},{"type":"tool_result","tool_use_id":"d","content":"2"}],"name":"n"}],"thinking":{"type":"enabled","budget_tokens":1024},"output_config":{"effort":"high"}}"#;
    let (req, warnings) = AnthropicMessages.parse_request(src.as_bytes()).unwrap();
    assert!(warnings.is_empty());
    let roles: Vec<Role> = req.messages.iter().map(|m| m.role).collect();
    assert_eq!(roles, vec![Role::User, Role::Assistant, Role::Tool, Role::User, Role::Tool]);
    assert_eq!(req.messages[2].turn_group_id(), req.messages[4].turn_group_id());
    assert!(req.messages[2].turn_group_id().is_some());
    let mut c = ctx();
    c.convert.fill_missing_thinking = None;
    let built = AnthropicMessages.build_request(&req, &c).unwrap();
    let again = parse_text(&text_of(built.body.clone())).unwrap();
    for key in ["messages", "thinking", "output_config"] {
        assert_eq!(again.get(key), parse_text(src).unwrap().get(key), "{key}");
    }
    let (twice, _) = AnthropicMessages.parse_request(&built.body).unwrap();
    assert_eq!(twice, req);
}

#[test]
fn in_array_system_messages_keep_their_place() {
    let src = r#"{"model":"modelx","max_tokens":16,"messages":[{"role":"user","content":[{"type":"text","text":"hi"}]},{"role":"system","content":[{"type":"text","text":"be brief"}]},{"role":"user","content":[{"type":"text","text":"now"}]}]}"#;
    let (req, warnings) = AnthropicMessages.parse_request(src.as_bytes()).unwrap();
    assert!(warnings.is_empty());
    assert_eq!(req.messages[1].role, Role::System);
    let built = AnthropicMessages.build_request(&req, &ctx()).unwrap();
    assert_eq!(text_of(built.body), src);
}

#[test]
fn malformed_stream_usage_is_kept_raw() {
    let mut p = AnthropicMessages.stream_parser();
    let (events, warnings) = p
        .parse(&sse("message_start", r#"{"type":"message_start","message":{"usage":{"input_tokens":"x"}}}"#))
        .unwrap();
    assert_eq!(warnings.len(), 1);
    assert!(matches!(&events[0], StreamEvent::MessageStart { usage: None, .. }));
    let (events, warnings) = p
        .parse(&sse("message_delta", r#"{"type":"message_delta","delta":{},"usage":{"output_tokens":2}}"#))
        .unwrap();
    assert!(warnings.is_empty());
    match &events[0] {
        StreamEvent::MessageDelta { usage: Some(u), .. } => {
            assert_eq!((u.input_tokens, u.output_tokens), (0, 0));
            assert_eq!(to_text(u.raw.as_ref().unwrap()), r#"{"input_tokens":"x","output_tokens":2}"#);
        }
        other => panic!("unexpected: {other:?}"),
    }
    let (events, _) = p
        .parse(&sse("message_delta", r#"{"type":"message_delta","delta":{},"usage":{"input_tokens":1}}"#))
        .unwrap();
    match &events[0] {
        StreamEvent::MessageDelta { usage: Some(u), .. } => {
            assert_eq!((u.input_tokens, u.output_tokens), (1, 2));
        }
        other => panic!("unexpected: {other:?}"),
    }
}

#[test]
fn nested_data_round_trips_here_too() {
    let src = r#"{"model":"modelx","max_tokens":16,"messages":[{"role":"user","content":[{"type":"text","text":"hi"}]}],"metadata":{"user_id":"u","team":"t"},"tools":[{"name":"f","input_schema":{"type":"object"}}],"tool_choice":{"type":"auto","disable_parallel_tool_use":true,"hint":1},"output_config":{"format":{"type":"json_schema","schema":{"type":"object"},"strictness":2},"task":3},"container":"c"}"#;
    let (req, warnings) = AnthropicMessages.parse_request(src.as_bytes()).unwrap();
    assert!(warnings.is_empty());
    let built = AnthropicMessages.build_request(&req, &ctx()).unwrap();
    assert!(built.warnings.is_empty());
    assert_eq!(text_of(built.body.clone()), src);
    assert_eq!(AnthropicMessages.parse_request(&built.body).unwrap().0, req);
}

#[test]
fn thinking_and_cache_data_round_trip() {
    let src = r#"{"model":"modelx","max_tokens":16,"messages":[{"role":"user","content":[{"type":"text","text":"hi","cache_control":{"type":"ephemeral","ttl":"1h","scope":"x"},"note":1}]}],"thinking":{"type":"enabled","budget_tokens":1024,"flavor":1}}"#;
    let (req, warnings) = AnthropicMessages.parse_request(src.as_bytes()).unwrap();
    assert!(warnings.is_empty());
    let built = AnthropicMessages.build_request(&req, &ctx()).unwrap();
    assert!(built.warnings.is_empty());
    let again = parse_text(&text_of(built.body.clone())).unwrap();
    assert_eq!(again.get("thinking"), parse_text(src).unwrap().get("thinking"));
    let (twice, _) = AnthropicMessages.parse_request(&built.body).unwrap();
    assert_eq!(text_of(AnthropicMessages.build_request(&twice, &ctx()).unwrap().body), text_of(built.body));
}

fn pass(text: &str) -> String {
    let (req, _) = AnthropicMessages.parse_request(text.as_bytes()).unwrap();
    text_of(AnthropicMessages.build_request(&req, &ctx()).unwrap().body)
}

#[test]
fn canonical_bodies_stay() {
    let bodies = [
        // A system array with an entry that is no text.
        r#"{"model":"modelx","max_tokens":16,"system":[{"text":"a","type":"text","x":{"y":null}},{"type":"blob","z":1}],"messages":[{"role":"user","content":"hi"}]}"#,
        // A message of an unknown role, kept verbatim.
        r#"{"model":"modelx","max_tokens":16,"messages":[{"content":"p","role":"critic","w":null},{"role":"user","content":"hi"}]}"#,
        // A call that is never answered, thinking that is missing, and thinking without a signature.
        r#"{"model":"modelx","max_tokens":16,"thinking":{"type":"adaptive","u":{"v":null,"w":1}},"messages":[{"role":"assistant","content":[{"type":"thinking","thinking":"t"},{"type":"tool_use","id":"1","name":"f","input":{"a":[1,null]}}]},{"role":"user","content":[{"type":"text","text":"b","cache_control":{"ttl":"1h","type":"lasting","q":null}}]}]}"#,
        // A tool choice without tools, and metadata with nulls.
        r#"{"model":"modelx","max_tokens":16,"tool_choice":{"type":"auto"},"metadata":{"user_id":"u","a":null,"b":{"c":null}},"messages":[{"role":"user","content":[]}]}"#,
        // The setting for parallel calls beside a choice of none.
        r#"{"model":"modelx","max_tokens":16,"tools":[{"type":"custom","name":"f","input_schema":{},"k":{"l":null}}],"tool_choice":{"type":"none","disable_parallel_tool_use":true},"output_config":{"effort":"minimal","format":{"type":"json_schema","schema":{},"m":1},"n":2},"messages":[{"role":"system","content":[{"type":"image"},{"type":"text","text":"s"}]},{"role":"user","content":[{"type":"tool_result","tool_use_id":"1","content":[{"type":"text","text":"r","o":{"p":null}}]},{"type":"text","text":"c"},{"type":"tool_result","tool_use_id":"2","content":[{"type":"text","text":"r"}]}]}]}"#,
        // A tool choice and thinking of unknown kinds, and a cutoff beyond its range.
        r#"{"model":"modelx","max_tokens":16,"tools":[{"name":"f","input_schema":{}}],"tool_choice":{"type":"zzz"},"thinking":{"type":"zzz","u":null},"top_k":4294967296,"messages":[{"role":"user","content":"hi"}]}"#,
        // Redacted thinking, with a signature on it.
        r#"{"model":"modelx","max_tokens":16,"messages":[{"role":"assistant","content":[{"type":"redacted_thinking","data":"d","signature":"s","n":null},{"type":"text","text":"a"}]},{"role":"user","content":"hi"}]}"#,
    ];
    for body in bodies {
        let once = pass(body);
        assert_ne!(once, body);
        assert_eq!(pass(&once), once);
    }
}

#[test]
fn refused_blocks_leave_no_warning() {
    let mut sink = Sink::new();
    sink.warn("anthropic_messages", WarningCode::OpaqueDropped, "/x", "kept");
    let blocks = [
        (Role::Tool, ContentBlock::text("a".to_owned())),
        (
            Role::User,
            ContentBlock::ToolCall {
                id: Some("1".to_owned()),
                name: "f".to_owned(),
                arguments: "{}".to_owned(),
                cache: None,
                extra: Extra::new(),
            },
        ),
    ];
    for (role, block) in &blocks {
        let r = convert_block(*role, block, "/messages/0/content/0", "/messages/3/content/1", false, &mut sink);
        match r {
            Err(ConversionError::InvalidBlockForRole { role: refused, location, .. }) => {
                assert_eq!(refused, *role);
                assert_eq!(location, "/messages/3/content/1");
            },
            other => panic!("{other:?}"),
        }
        assert_eq!(sink.warnings.len(), 1);
    }
}

#[test]
fn default_headers_join_those_that_are_there() {
    let mut headers = HeaderMap::new();
    for name in ["x-a", "x-b", "x-c"] {
        headers.insert(name, http::HeaderValue::from_static("1"));
    }
    apply_default_headers(&ctx().format_options.anthropic, &mut headers).unwrap();
    assert_eq!(headers.len(), 4);
    assert_eq!(headers.get("anthropic-version").unwrap(), "2023-06-01");
}
