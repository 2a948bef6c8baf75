//! OpenAI Chat Completions.

use http::HeaderMap;
use llm_api::convert::{ConvertOptions, OrphanToolCalls, WarningCode};
use llm_api::error::{ApiErrorKind, ConversionError, Error, HookError};
use llm_api::format::{CallMode, OpenAiChatCompletionsOptions};
use llm_api::formats::openai_chat_completions::api::{request_from_ir, OpenAiChatCompletions};
use llm_api::formats::openai_chat_completions::to_ir::{request_to_ir, response_to_ir};
use llm_api::ir::{
    BlockDelta, CacheHint, ContentBlock, Effort, ImageSource, Message, Reasoning, Request, Role, SseEvent, StopReason,
    StreamEvent, ToolOutputBlock,
};
use llm_api::json::{Json, Num};
use llm_api::models::Created;
use llm_api::request::BuildCtx;
use llm_api::response::ResponseMeta;
use llm_api::stream::StreamParser;
use llm_api::url::EndpointUrl;
use llm_api::value::{parse_text, to_text};

type MessageHook = fn(usize, Role, Json) -> Result<Json, HookError>;
type RequestHook = fn(Json) -> Result<Json, HookError>;

fn ctx(mode: CallMode) -> BuildCtx<MessageHook, RequestHook> {
    BuildCtx::new(EndpointUrl::base("https://o/v1").unwrap(), "gpt".to_owned(), mode)
}

fn text(s: &str) -> ContentBlock {
    ContentBlock::text(s.to_owned())
}

fn build(req: &Request, convert: &ConvertOptions) -> (String, Vec<WarningCode>) {
    let (body, warnings) =
        request_from_ir(req, None, CallMode::Unary, convert, &OpenAiChatCompletionsOptions::default()).unwrap();
    (to_text(&body), warnings.iter().map(|w| w.code).collect())
}

fn with_messages(messages: Vec<Message>) -> Request {
    let mut req = Request::new();
    req.messages = messages;
    req
}

fn call(id: Option<&str>, name: &str, arguments: &str) -> ContentBlock {
    let (mut req, _) = request_to_ir(
        br#"{"messages":[{"role":"assistant","tool_calls":[{"id":"x","type":"function","function":{"name":"n","arguments":"{}"}}]}]}"#,
    )
    .unwrap();
    match req.messages.remove(0).content.remove(0) {
        ContentBlock::ToolCall { cache, extra, .. } => ContentBlock::ToolCall {
            id: id.map(str::to_owned),
            name: name.to_owned(),
            arguments: arguments.to_owned(),
            cache,
            extra,
        },
        other => panic!("unexpected: {other:?}"),
    }
}

#[test]
fn openai_chat_request_is_built() {
    let mut req = with_messages(vec![Message::user(vec![text("hi")])]);
    req.system = Some(vec![text("sys")]);
    req.temperature = Some(Num::Float("0.5".to_owned()));
    req.top_k = Some(3);
    let built = OpenAiChatCompletions.build_request(&req, &ctx(CallMode::Streaming)).unwrap();
    assert_eq!(built.url.text, "https://o/v1/chat/completions");
    assert_eq!(built.auth.unwrap().prefix.as_deref(), Some("Bearer "));
    assert_eq!(built.warnings.len(), 1);
    assert_eq!(built.warnings[0].code, WarningCode::SamplingParameterDropped);
    assert_eq!(
        String::from_utf8(built.body).unwrap(),
        r#"{"model":"gpt","messages":[{"role":"system","content":"sys"},{"role":"user","content":"hi"}],"temperature":0.5,"stream":true,"stream_options":{"include_usage":true}}"#
    );
    let mut quiet = ctx(CallMode::Streaming);
    quiet.format_options.openai_chat_completions.inject_include_usage = false;
    let built = OpenAiChatCompletions.build_request(&req, &quiet).unwrap();
    assert!(!String::from_utf8(built.body).unwrap().contains("stream_options"));
}

#[test]
fn not_finite_sampling_is_an_error() {
    let mut req = with_messages(Vec::new());
    req.top_p = Some(Num::Float("inf".to_owned()));
    let err = OpenAiChatCompletions.build_request(&req, &ctx(CallMode::Unary)).unwrap_err();
    assert_eq!(
        err.text(),
        "conversion error: sampling parameter `/top_p` is not a finite number"
    );
}

#[test]
fn openai_request_round_trips() {
    let src = r#"{"messages":[{"role":"system","content":"s"},{"role":"developer","content":"d"},{"role":"user","content":[{"type":"text","text":"look","prompt_cache_breakpoint":{"mode":"explicit"}},{"type":"image_url","image_url":{"url":"data:image/png;base64,AAAA","detail":"low"}}],"name":"bob"},{"role":"assistant","content":"ok","reasoning_content":"hm","tool_calls":[{"id":"c","type":"function","function":{"name":"f","arguments":"{}"},"x":1},{"id":"d","type":"custom","custom":{"name":"g","input":"in"}},{"id":"e","type":"odd","payload":[1]}]},{"role":"tool","tool_call_id":"c","content":"42","name":"f"},{"role":"tool","tool_call_id":"d","content":""},{"role":"tool","tool_call_id":"e","content":[{"type":"text","text":"a"},{"type":"text","text":"b"}]},{"role":"function","name":"old","content":"x"}],"max_completion_tokens":9,"stop":["a","b"],"seed":-4,"metadata":{"k":"v"},"prompt_cache_key":"pk","reasoning_effort":"low","response_format":{"type":"json_schema","json_schema":{"name":"n","schema":{"type":"object"},"strict":true}},"tools":[{"type":"function","function":{"name":"f","description":"d","parameters":{}}},{"type":"custom","custom":{"name":"g"}}],"tool_choice":{"type":"function","function":{"name":"f"}},"parallel_tool_calls":true,"service_tier":"flex"}"#;
    let (req, warnings) = request_to_ir(src.as_bytes()).unwrap();
    assert_eq!(warnings.len(), 1, "{warnings:?}");
    assert_eq!(warnings[0].message, "unknown tool call type `odd`; the entry was mirrored verbatim");
    let (body, warnings) = build(&req, &ConvertOptions::new());
    assert!(warnings.is_empty(), "{warnings:?}");
    let again = parse_text(&body).unwrap();
    let wanted = parse_text(src).unwrap();
    for key in [
        "messages", "max_completion_tokens", "stop", "seed", "metadata", "prompt_cache_key", "reasoning_effort",
        "response_format", "tools", "tool_choice", "parallel_tool_calls", "service_tier",
    ] {
        assert_eq!(again.get(key), wanted.get(key), "{key}");
    }
    let (req2, _) = request_to_ir(body.as_bytes()).unwrap();
    assert_eq!(req2, req);
}

#[test]
fn canonical_forms() {
    let (req, warnings) = request_to_ir(
        br#"{"model":"m","stream":true,"stream_options":{"include_usage":false,"x":1},"messages":[{"role":"assistant","content":null,"refusal":"no","tool_calls":[{"id":"c","custom":{"name":"g","input":"i"}},{"id":"n","type":7,"function":{"name":"f"}}]}],"max_tokens":5,"stop":"s","tool_choice":"none"}"#,
    )
    .unwrap();
    let codes: Vec<WarningCode> = warnings.iter().map(|w| w.code).collect();
    assert_eq!(codes, vec![WarningCode::MalformedField, WarningCode::StreamOptionsDropped]);
    assert_eq!(
        warnings[1].message,
        "`stream_options` member(s) `include_usage`, `x` were dropped; the build side reconstructs only a literal `include_usage: true` (per `OpenAiChatCompletionsOptions`); set `inject_include_usage: false` to stream without the usage chunk"
    );
    let (body, _) = build(&req, &ConvertOptions::new());
    assert_eq!(
        body,
        r#"{"messages":[{"role":"assistant","content":[{"type":"refusal","refusal":"no"}],"tool_calls":[{"id":"c","type":"custom","custom":{"name":"g","input":"i"}},{"id":"n","type":7,"function":{"name":"f"}}]}],"max_completion_tokens":5,"stop":["s"],"tool_choice":"none"}"#
    );
}

#[test]
fn malformed_requests() {
    assert!(matches!(request_to_ir(b"nope"), Err(Error::Parse { .. })));
    let err = request_to_ir(br#"{"messages":3}"#).unwrap_err();
    assert_eq!(
        err.text(),
        "parse error: invalid Chat Completions request: invalid type for field `messages`"
    );
    let (req, warnings) = request_to_ir(
        br#"{"messages":[5,{"content":"x"},{"role":"bot"},{"role":"user","content":7}],"max_tokens":1,"max_completion_tokens":2,"stop":[1]}"#,
    )
    .unwrap();
    assert_eq!(warnings.len(), 6);
    assert_eq!(req.max_output_tokens, Some(2));
    let (body, warnings) = build(&req, &ConvertOptions::new());
    assert!(warnings.is_empty());
    assert!(body.contains(r#"{"role":"bot"}"#));
    assert!(body.contains(r#"{"role":"user","content":7}"#));
    assert!(body.contains(r#""stop":[1]"#));
}

#[test]
fn assistant_lanes_and_losses() {
    let blocks = vec![
        text("first"),
        ContentBlock::thinking("t1".to_owned()),
        call(Some("c"), "f", "{}"),
        ContentBlock::thinking("t2".to_owned()),
        ContentBlock::Image { source: ImageSource::Url("u".to_owned()), cache: None, extra: llm_api::ir::Extra::new() },
    ];
    let mut req = with_messages(vec![
        Message::assistant(blocks),
        Message::tool(vec![ContentBlock::ToolResult {
            tool_call_id: Some("c".to_owned()),
            name: None,
            content: vec![ToolOutputBlock::text("r".to_owned())],
            is_error: Some(true),
            cache: Some(CacheHint::new()),
            extra: llm_api::ir::Extra::new(),
        }]),
    ]);
    req.parallel_tool_calls = Some(true);
    let (body, codes) = build(&req, &ConvertOptions::new());
    assert_eq!(
        body,
        r#"{"messages":[{"role":"assistant","content":"first","reasoning_content":"t1\n\nt2","tool_calls":[{"id":"c","type":"function","function":{"name":"f","arguments":"{}"}}]},{"role":"tool","tool_call_id":"c","content":"r"}]}"#
    );
    assert_eq!(
        codes,
        vec![
            WarningCode::ImageSourceUnsupported,
            WarningCode::BlockOrderLost,
            WarningCode::ThinkingBlocksJoined,
            WarningCode::IsErrorDropped,
            WarningCode::CacheHintDropped,
            WarningCode::ParallelToolCallsIgnored,
        ]
    );
}

#[test]
fn conversion_errors() {
    let err = |m: Message| {
        request_from_ir(
            &with_messages(vec![m]),
            None,
            CallMode::Unary,
            &ConvertOptions::new(),
            &OpenAiChatCompletionsOptions::default(),
        )
        .unwrap_err()
        .text()
    };
    assert_eq!(
        err(Message::user(vec![call(Some("c"), "f", "{}")])),
        "conversion error: tool_call block is not valid in a User message (at /messages/0/content/0)"
    );
    assert_eq!(
        err(Message::assistant(vec![call(None, "f", "{}")])),
        "conversion error: missing required data: tool call `f` requires an `id` on the Chat Completions API (at /messages/0/tool_calls/0)"
    );
    assert_eq!(
        err(Message::tool(vec![text("x")])),
        "conversion error: text block is not valid in a Tool message (at /messages/0/content/0)"
    );
}

#[test]
fn orphans_and_missing_thinking() {
    let req = with_messages(vec![
        Message::assistant(vec![call(Some("a"), "f", "{}"), text("x")]),
        Message::user(vec![text("y")]),
        Message::assistant(vec![ContentBlock::thinking("t".to_owned()), call(Some("b"), "f", "{}")]),
    ]);
    let mut options = ConvertOptions::new();
    options.orphan_tool_calls = OrphanToolCalls::DropTrailing;
    let (body, codes) = build(&req, &options);
    assert_eq!(
        codes,
        vec![
            WarningCode::OrphanToolCalls,
            WarningCode::ThinkingOrphaned,
            WarningCode::OrphanToolCallsDropped,
            WarningCode::BlockOrderLost,
        ]
    );
    assert!(!body.contains(r#""id":"b""#));

    options.orphan_tool_calls = OrphanToolCalls::SynthesizeError;
    options.fill_missing_thinking = Some("...".to_owned());
    let mut thinking = with_messages(vec![Message::assistant(vec![call(Some("b"), "f", "{}")])]);
    let mut reasoning = Reasoning::new();
    reasoning.effort = Some(Effort::High);
    thinking.reasoning = Some(reasoning);
    let (body, codes) = build(&thinking, &options);
    assert_eq!(codes, vec![WarningCode::OrphanToolCallsSynthesized, WarningCode::MissingThinkingFilled, WarningCode::IsErrorDropped]);
    assert_eq!(
        body,
        r#"{"messages":[{"role":"assistant","reasoning_content":"...","tool_calls":[{"id":"b","type":"function","function":{"name":"f","arguments":"{}"}}]},{"role":"tool","tool_call_id":"b","content":"cancelled","name":"f"}],"reasoning_effort":"high"}"#
    );
}

#[test]
fn developer_messages_can_be_downgraded() {
    let req = with_messages(vec![Message::new(Role::Developer, vec![text("d")])]);
    let mut options = ConvertOptions::new();
    options.downgrade_developer = true;
    let (body, codes) = build(&req, &options);
    assert_eq!(body, r#"{"messages":[{"role":"user","content":"d"}]}"#);
    assert_eq!(codes, vec![WarningCode::RoleDowngraded]);
    let mut strict = ConvertOptions::new().strict(true);
    strict.downgrade_developer = true;
    let r = request_from_ir(&req, None, CallMode::Unary, &strict, &OpenAiChatCompletionsOptions::default());
    assert!(matches!(r, Err(Error::Conversion(ConversionError::Strict { .. }))));
}

#[test]
fn openai_responses_are_parsed() {
    let meta = ResponseMeta::new(200, HeaderMap::new());
    let r = response_to_ir(
        br#"{"id":"r","model":"gpt","choices":[{"index":0,"message":{"role":"assistant","content":"hi","annotations":[]},"finish_reason":"length"},{}],"usage":{"prompt_tokens":5,"completion_tokens":2,"total_tokens":7,"prompt_tokens_details":{"cached_tokens":1},"completion_tokens_details":{"reasoning_tokens":2}}}"#,
        &meta,
    )
    .unwrap();
    assert_eq!(r.message.content, vec![text("hi")]);
    assert_eq!(r.stop_reason, Some(StopReason::MaxTokens));
    assert_eq!(r.warnings[0].code, WarningCode::MultipleCandidates);
    let u = r.usage.unwrap();
    assert_eq!(
        (u.input_tokens, u.output_tokens, u.total_tokens, u.cache_read_tokens, u.reasoning_tokens),
        (5, 2, Some(7), Some(1), Some(2))
    );
    let empty = response_to_ir(br#"{"choices":[]}"#, &meta).unwrap();
    assert_eq!(empty.warnings[0].message, "the response carries no choices; the assistant message is empty");
    assert!(response_to_ir(br#"{"choices":{}}"#, &meta).is_err());
}

#[test]
fn errors_and_models() {
    let o = OpenAiChatCompletions;
    let headers = HeaderMap::new();
    let kind = |status: u16, body: &[u8]| match o.parse_error(status, &headers, body) {
        Error::Api { kind, .. } => kind,
        other => panic!("unexpected: {other:?}"),
    };
    assert_eq!(
        kind(400, br#"{"error":{"type":"invalid_request_error","code":"invalid_api_key"}}"#),
        ApiErrorKind::Auth
    );
    assert_eq!(kind(400, br#"{"error":{"type":"tokens"}}"#), ApiErrorKind::RateLimit);
    assert_eq!(kind(503, b"busy"), ApiErrorKind::Overloaded);
    let built = o.build_models_request(&ctx(CallMode::Unary)).unwrap();
    assert_eq!(built.url.text, "https://o/v1/models");
    let (models, next) =
        o.parse_models_response(br#"{"object":"list","data":[{"id":"a","created":12},{"id":5}]}"#).unwrap();
    assert_eq!(models.len(), 1);
    assert_eq!(models[0].created, Some(Created::UnixSeconds(12)));
    assert_eq!(next, None);
}

fn sse(data: &str) -> SseEvent {
    SseEvent { event: None, data: data.to_owned() }
}

fn delta(d: &str) -> SseEvent {
    sse(&format!(r#"{{"id":"i","model":"m","choices":[{{"index":0,"delta":{d}}}]}}"#))
}

#[test]
fn stream_switches_channels() {
    let mut p = OpenAiChatCompletions.stream_parser();
    let (events, _) = p.parse(&delta(r#"{"role":"assistant","reasoning_content":"t"}"#)).unwrap();
    assert_eq!(events.len(), 3);
    let (events, _) = p.parse(&delta(r#"{"content":"a","annotations":[1]}"#)).unwrap();
    assert!(matches!(events[0], StreamEvent::BlockStop { index: 0, block: None }));
    let (events, _) = p.parse(&delta(r#"{"content":"b","annotations":[2]}"#)).unwrap();
    assert_eq!(events.len(), 2);
    let (events, warnings) = p
        .parse(&sse(r#"{"choices":[{"index":0,"delta":{},"finish_reason":"stop"}],"usage":{"prompt_tokens":1}}"#))
        .unwrap();
    assert!(warnings.is_empty());
    match &events[0] {
        StreamEvent::BlockStop { index: 1, block: Some(ContentBlock::Text { text, extra, .. }) } => {
            assert_eq!(text, "ab");
            let ns = extra.get("openai_chat_completions").unwrap();
            assert_eq!(to_text(ns.get("message").unwrap()), r#"{"annotations":[1,2]}"#);
        }
        other => panic!("unexpected: {other:?}"),
    }
    assert!(matches!(&events[1], StreamEvent::MessageDelta { stop_reason: Some(StopReason::EndTurn), usage: Some(_) }));
    let (events, _) = p.parse(&sse(" [DONE]\n")).unwrap();
    assert_eq!(events, vec![StreamEvent::MessageStop]);
    assert!(p.finish().is_ok());
}

#[test]
fn carried_message_fields_return_to_the_message() {
    let (req, _) = request_to_ir(br#"{"messages":[{"role":"assistant","content":"x"}]}"#).unwrap();
    let mut req = req;
    if let ContentBlock::Text { extra, .. } = &mut req.messages[0].content[0] {
        extra.set(
            "openai_chat_completions",
            "message",
            parse_text(r#"{"annotations":[1]}"#).unwrap(),
        );
    }
    let (body, _) = build(&req, &ConvertOptions::new());
    assert_eq!(
        body,
        r#"{"messages":[{"role":"assistant","content":[{"type":"text","text":"x"}],"annotations":[1]}]}"#
    );
}

#[test]
fn stream_assembles_tool_calls() {
    let mut p = OpenAiChatCompletions.stream_parser();
    p.parse(&delta(r#"{"content":"x"}"#)).unwrap();
    let (events, _) = p
        .parse(&delta(
            r#"{"tool_calls":[{"index":1,"id":"b","type":"function","function":{"name":"g","arguments":""}},{"index":0,"id":"a","function":{"name":"f","arguments":"{"}}]}"#,
        ))
        .unwrap();
    assert_eq!(events.len(), 3);
    assert_eq!(
        events[2],
        StreamEvent::BlockDelta { index: 2, delta: BlockDelta::ToolArguments("{".to_owned()) }
    );
    p.parse(&delta(r#"{"tool_calls":[{"index":0,"function":{"arguments":"}"}}]}"#)).unwrap();
    let (_, warnings) = p.parse(&delta(r#"{"content":"late"}"#)).unwrap();
    assert_eq!(warnings[0].code, WarningCode::BlockOrderLost);
    let (events, warnings) =
        p.parse(&sse(r#"{"choices":[{"index":0,"finish_reason":"tool_calls"}]}"#)).unwrap();
    assert!(warnings.is_empty(), "{warnings:?}");
    let stops: Vec<usize> = events
        .iter()
        .filter_map(|e| match e {
            StreamEvent::BlockStop { index, .. } => Some(*index),
            _ => None,
        })
        .collect();
    assert_eq!(stops, vec![0, 1, 2]);
    match &events[2] {
        StreamEvent::BlockStop { block: Some(ContentBlock::ToolCall { id, name, arguments, .. }), .. } => {
            assert_eq!((id.as_deref(), name.as_str(), arguments.as_str()), (Some("a"), "f", "{}"));
        }
        other => panic!("unexpected: {other:?}"),
    }
}

#[test]
fn stream_mirrors_unknown_call_types() {
    let mut p = OpenAiChatCompletions.stream_parser();
    p.parse(&delta(r#"{"tool_calls":[{"index":0,"function":{"name":"a"}}]}"#)).unwrap();
    p.parse(&delta(r#"{"tool_calls":[{"index":0,"type":"odd","function":{"name":"b","x":1}}]}"#)).unwrap();
    let (_, warnings) = p.parse(&delta(r#"{"tool_calls":[{"index":0,"type":"function"}]}"#)).unwrap();
    assert_eq!(warnings[0].code, WarningCode::MalformedToolCall);
    let (events, warnings) = p.parse(&sse("[DONE]")).unwrap();
    let codes: Vec<WarningCode> = warnings.iter().map(|w| w.code).collect();
    assert_eq!(codes, vec![WarningCode::MalformedToolCall, WarningCode::MalformedField]);
    match &events[0] {
        StreamEvent::BlockStop { block: Some(ContentBlock::ToolCall { name, extra, .. }), .. } => {
            assert_eq!(name, "");
            let ns = extra.get("openai_chat_completions").unwrap();
            assert_eq!(to_text(ns.get("function").unwrap()), r#"{"x":1,"name":"ab"}"#);
            assert_eq!(ns.get("type"), Some(&Json::text("odd")));
        }
        other => panic!("unexpected: {other:?}"),
    }
}

#[test]
fn stream_oddities() {
    let mut p = OpenAiChatCompletions.stream_parser();
    let (events, warnings) = p.parse(&sse("{")).unwrap();
    assert_eq!(events, vec![StreamEvent::Unknown]);
    assert_eq!(warnings[0].code, WarningCode::MalformedField);
    let (events, warnings) = p.parse(&delta(r#"{"odd":1}"#)).unwrap();
    assert_eq!(events[1], StreamEvent::Unknown);
    assert_eq!(warnings[0].code, WarningCode::UnknownStreamEvent);
    let (_, warnings) = p.parse(&delta(r#"{"odd":2}"#)).unwrap();
    assert!(warnings.is_empty());
    let (_, warnings) = p.parse(&sse(r#"{"choices":[{"index":3}]}"#)).unwrap();
    assert_eq!(warnings[0].code, WarningCode::MultipleCandidates);
    assert!(matches!(p.finish(), Err(Error::Parse { .. })));
    p.parse(&sse("[DONE]")).unwrap();
    let (events, _) = p.parse(&sse("[DONE]")).unwrap();
    assert_eq!(events, vec![StreamEvent::Unknown]);
}

#[test]
fn thinking_field_is_configurable() {
    let mut options = OpenAiChatCompletionsOptions::default();
    options.reasoning_field = "reasoning".to_owned();
    let mut p = OpenAiChatCompletions.stream_parser_with(&options);
    let (events, _) = p.parse(&delta(r#"{"reasoning":"t"}"#)).unwrap();
    assert_eq!(events[2], StreamEvent::BlockDelta { index: 0, delta: BlockDelta::Thinking("t".to_owned()) });
    options.reasoning_field = "content".to_owned();
    let mut p = OpenAiChatCompletions.stream_parser_with(&options);
    assert!(matches!(p.parse(&delta("{}")), Err(Error::Conversion(_))));
}

#[test]
fn chat_bodies_stay_canonical() {
    let bodies = [
        r#"{"messages":[{"role":"user","content":"hi"}],"tools":[],"parallel_tool_calls":true}"#,
        r#"{"messages":[{"role":"user","content":"hi"}],"parallel_tool_calls":false}"#,
        r#"{"messages":[{"role":"user","content":"hi"}],"response_format":{"type":"json_schema","json_schema":{"schema":{}}}}"#,
        // Messages of a retired and of an unknown role, kept verbatim.
        r#"{"messages":[{"content":"r","role":"function","name":"f","w":null},{"x":1,"role":"critic"}],"tools":null}"#,
        // A call of an unknown kind.
        r#"{"messages":[{"role":"assistant","tool_calls":[{"id":"1","type":"custom","custom":{"name":"g","input":"i"}}],"n":null},{"role":"user","content":[{"type":"text","text":"a"},{"type":"blob","b":1}]}]}"#,
        // A format, a choice and a stop of unknown shapes.
        r#"{"messages":[{"role":"user","content":"hi"}],"response_format":{"type":"grammar","g":null},"tool_choice":{"type":"allowed_tools","m":{"n":null}},"stop":7,"tools":[{"type":"custom","c":1}]}"#,
    ];
    let pass = |text: &str| build(&request_to_ir(text.as_bytes()).unwrap().0, &ConvertOptions::new()).0;
    let streamed = |text: &str| {
        let options = OpenAiChatCompletionsOptions::default();
        let req = request_to_ir(text.as_bytes()).unwrap().0;
        to_text(&request_from_ir(&req, None, CallMode::Streaming, &ConvertOptions::new(), &options).unwrap().0)
    };
    for body in bodies {
        let once = pass(body);
        assert_ne!(once, body);
        assert_eq!(pass(&once), once);
        let once = streamed(body);
        assert_ne!(once, body);
        assert_eq!(streamed(&once), once);
    }
}
