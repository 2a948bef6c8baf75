//! Google `generateContent`.

use http::HeaderMap;
use llm_api::convert::{ConvertOptions, OrphanToolCalls, WarningCode};
use llm_api::error::{ApiErrorKind, ConversionError, Error, HookError};
use llm_api::format::CallMode;
use llm_api::formats::google_generate_content::api::{request_from_ir, GoogleGenerateContent};
use llm_api::formats::google_generate_content::to_ir::{request_to_ir, response_to_ir};
use llm_api::formats::google_generate_content::types::{
    Candidate, GenerateContentRequest, GenerateContentResponse, Part,
};
use llm_api::ir::{ContentBlock, Message, Request, Role, SseEvent, StopReason, StreamEvent};
use llm_api::json::Json;
use llm_api::request::{BuildCtx, Method};
use llm_api::response::ResponseMeta;
use llm_api::stream::StreamParser;
use llm_api::url::EndpointUrl;
use llm_api::value::{parse_text, to_text};

type MessageHook = fn(usize, Role, Json) -> Result<Json, HookError>;
type RequestHook = fn(Json) -> Result<Json, HookError>;

fn json(text: &str) -> Json {
    parse_text(text).unwrap()
}

fn ctx(mode: CallMode) -> BuildCtx<MessageHook, RequestHook> {
    BuildCtx::new(EndpointUrl::base("https://gl/v1beta").unwrap(), "models/g".to_owned(), mode)
}

fn user(text: &str) -> Request {
    let mut req = Request::new();
    req.messages = vec![Message::user(vec![ContentBlock::text(text.to_owned())])];
    req
}

fn meta() -> ResponseMeta {
    ResponseMeta::new(200, HeaderMap::new())
}

#[test]
fn unknown_fields_round_trip_through_extra() {
    let src = json(
        r#"{
        "contents": [{
            "role": "user",
            "parts": [{"text": "hi", "partMetadata": {"k": 1}}],
            "customContentField": true
        }],
        "safetySettings": [{"category": "HARM_CATEGORY_HARASSMENT", "threshold": "BLOCK_NONE"}]
    }"#,
    );
    let req = GenerateContentRequest::from_json(&src).unwrap();
    assert_eq!(req.contents[0].parts[0].text.as_deref(), Some("hi"));
    assert_eq!(req.contents[0].parts[0].extra.get("partMetadata"), Some(&json(r#"{"k": 1}"#)));
    assert_eq!(req.contents[0].extra.get("customContentField"), Some(&Json::Bool(true)));
    assert!(req.extra.contains_key("safetySettings"));
    assert_eq!(req.to_json(), src);
}

#[test]
fn part_union_members_parse() {
    let part = Part::from_json(&json(
        r#"{
        "functionCall": {"id": "c1", "name": "f", "args": {"a": 1}},
        "thoughtSignature": "sig"
    }"#,
    ))
    .unwrap();
    let fc = part.function_call.unwrap();
    assert_eq!(fc.id.as_deref(), Some("c1"));
    assert_eq!(fc.args, Some(json(r#"{"a": 1}"#)));
    assert_eq!(part.thought_signature.as_deref(), Some("sig"));
}

#[test]
fn response_defaults_are_lenient() {
    // A blocked-prompt response has no candidates at all.
    let resp = GenerateContentResponse::from_json(&json(r#"{"promptFeedback": {"blockReason": "SAFETY"}}"#)).unwrap();
    assert!(resp.candidates.is_empty());
    assert_eq!(resp.prompt_feedback.unwrap().block_reason.as_deref(), Some("SAFETY"));

    // A final stream chunk may carry content without parts.
    let cand =
        Candidate::from_json(&json(r#"{"content": {"role": "model"}, "finishReason": "STOP"}"#)).unwrap();
    assert!(cand.content.unwrap().parts.is_empty());
}

#[test]
fn google_chat_request_is_built() {
    let mut req = user("hi");
    req.system = Some(vec![ContentBlock::text("be brief".to_owned())]);
    req.max_output_tokens = Some(9);
    let built = GoogleGenerateContent.build_request(&req, &ctx(CallMode::Unary)).unwrap();
    assert_eq!(built.method, Method::Post);
    assert_eq!(built.url.text, "https://gl/v1beta/models/g:generateContent");
    assert_eq!(built.headers.get("content-type").unwrap(), "application/json");
    let auth = built.auth.unwrap();
    assert_eq!(auth.header, "x-goog-api-key");
    assert_eq!(auth.prefix, None);
    assert_eq!(
        String::from_utf8(built.body).unwrap(),
        r#"{"contents":[{"role":"user","parts":[{"text":"hi"}]}],"systemInstruction":{"parts":[{"text":"be brief"}]},"generationConfig":{"maxOutputTokens":9}}"#
    );
    let built = GoogleGenerateContent.build_request(&req, &ctx(CallMode::Streaming)).unwrap();
    assert_eq!(built.url.text, "https://gl/v1beta/models/g:streamGenerateContent?alt=sse");
}

#[test]
fn models_and_counts() {
    let g = GoogleGenerateContent;
    let built = g.build_models_request(&ctx(CallMode::Unary), Some("next")).unwrap();
    assert_eq!(built.method, Method::Get);
    assert_eq!(built.url.text, "https://gl/v1beta/models?pageSize=1000&pageToken=next");
    let mut conflicting = ctx(CallMode::Unary);
    conflicting.extra_query = vec![("pageSize".to_owned(), "1".to_owned())];
    assert!(matches!(
        g.build_models_request(&conflicting, None),
        Err(Error::Conversion(ConversionError::ProtectedQueryKey { .. }))
    ));
    let (models, next) = g
        .parse_models_response(br#"{"models":[{"name":"models/a","displayName":"A"},{}],"nextPageToken":""}"#)
        .unwrap();
    assert_eq!(models.len(), 1);
    assert_eq!(models[0].id, "a");
    assert_eq!(models[0].display_name.as_deref(), Some("A"));
    assert_eq!(next, None);
    assert!(g.parse_models_response(b"[]").is_err());

    let built = g.build_count_tokens_request(&user("hi"), &ctx(CallMode::Unary)).unwrap();
    assert_eq!(built.url.text, "https://gl/v1beta/models/g:countTokens");
    assert_eq!(
        String::from_utf8(built.body).unwrap(),
        r#"{"generateContentRequest":{"contents":[{"role":"user","parts":[{"text":"hi"}]}],"model":"models/g"}}"#
    );
    assert_eq!(g.parse_count_tokens_response(br#"{"totalTokens":5}"#).unwrap().input_tokens, 5);
    assert_eq!(g.parse_count_tokens_response(b"{}").unwrap().input_tokens, 0);
    let err = g.parse_count_tokens_response(br#"{"totalTokens":-9223372036854775808}"#).unwrap_err();
    assert_eq!(
        err.text(),
        "parse error: Google countTokens response has a negative totalTokens: -9223372036854775808"
    );
}

#[test]
fn errors_go_by_grpc_status() {
    let headers = HeaderMap::new();
    match GoogleGenerateContent.parse_error(
        400,
        &headers,
        br#"{"error":{"status":"RESOURCE_EXHAUSTED","message":"quota"}}"#,
    ) {
        Error::Api { kind, message, .. } => {
            assert_eq!(kind, ApiErrorKind::RateLimit);
            assert_eq!(message, "quota");
        }
        other => panic!("unexpected: {other:?}"),
    }
}

#[test]
fn google_request_round_trips() {
    let src = r#"{"contents":[{"role":"user","parts":[{"text":"hi"}]},{"role":"model","parts":[{"functionCall":{"id":"c","name":"f","args":{"a":1}}}]},{"role":"user","parts":[{"functionResponse":{"id":"c","name":"f","response":{"output":"ok"}}}]}],"safetySettings":[1]}"#;
    let (req, warnings) = request_to_ir(src.as_bytes()).unwrap();
    assert!(warnings.is_empty());
    assert_eq!(req.messages.len(), 3);
    let (body, warnings) = request_from_ir(&req, &ConvertOptions::new()).unwrap();
    assert!(warnings.is_empty());
    assert_eq!(to_text(&body), src);
}

#[test]
fn google_responses_are_parsed() {
    let body = br#"{"candidates":[{"content":{"role":"model","parts":[{"text":"yes"}]},"finishReason":"STOP"}],"usageMetadata":{"promptTokenCount":3,"toolUsePromptTokenCount":2,"candidatesTokenCount":4,"thoughtsTokenCount":1,"totalTokenCount":10},"responseId":"r","modelVersion":"g"}"#;
    let r = response_to_ir(body, &meta()).unwrap();
    assert_eq!(r.message.content, vec![ContentBlock::text("yes".to_owned())]);
    assert_eq!(r.stop_reason, Some(StopReason::EndTurn));
    let usage = r.usage.unwrap();
    assert_eq!((usage.input_tokens, usage.output_tokens, usage.total_tokens), (5, 5, Some(10)));
    assert_eq!(r.id.as_deref(), Some("r"));

    let blocked = response_to_ir(br#"{"promptFeedback":{"blockReason":"SAFETY"}}"#, &meta()).unwrap();
    assert_eq!(blocked.stop_reason, Some(StopReason::ContentFilter));
    assert!(response_to_ir(b"no", &meta()).is_err());
}

#[test]
fn trailing_tool_calls_follow_the_policy() {
    let (mut req, _) = request_to_ir(
        br#"{"contents":[{"role":"user","parts":[{"text":"hi"}]},{"role":"model","parts":[{"functionCall":{"id":"c","name":"f","args":{}}}]}]}"#,
    )
    .unwrap();
    req.reasoning = None;
    let mut options = ConvertOptions::new();
    options.orphan_tool_calls = OrphanToolCalls::DropTrailing;
    let (body, warnings) = request_from_ir(&req, &options).unwrap();
    assert_eq!(to_text(&body), r#"{"contents":[{"role":"user","parts":[{"text":"hi"}]}]}"#);
    assert_eq!(warnings[0].code, WarningCode::OrphanToolCallsDropped);

    options.orphan_tool_calls = OrphanToolCalls::SynthesizeError;
    let (body, warnings) = request_from_ir(&req, &options).unwrap();
    assert!(to_text(&body).contains(r#""functionResponse":{"#));
    assert!(to_text(&body).contains(r#"{"error":"cancelled"}"#));
    assert_eq!(warnings[0].code, WarningCode::OrphanToolCallsSynthesized);
}

fn sse(data: &str) -> SseEvent {
    SseEvent { event: None, data: data.to_owned() }
}

#[test]
fn stream_infers_blocks() {
    let mut p = GoogleGenerateContent.stream_parser();
    let (events, _) = p
        .parse(&sse(r#"{"responseId":"r","candidates":[{"content":{"parts":[{"text":"a","thought":true},{"text":"b"}]}}]}"#))
        .unwrap();
    let kinds: Vec<&str> = events.iter().map(kind).collect();
    assert_eq!(kinds, vec!["start", "open 0", "delta 0", "close 0", "open 1", "delta 1"]);
    let (events, _) = p
        .parse(&sse(r#"{"candidates":[{"content":{"parts":[{"text":"c"}]},"finishReason":"STOP"}]}"#))
        .unwrap();
    let kinds: Vec<&str> = events.iter().map(kind).collect();
    assert_eq!(kinds, vec!["delta 1", "close 1", "message", "stop"]);
    assert!(p.finish().is_ok());
    let (events, warnings) = p.parse(&sse(r#"{"candidates":[{"finishReason":"STOP"}]}"#)).unwrap();
    assert_eq!(events, vec![StreamEvent::Unknown]);
    assert_eq!(warnings[0].code, WarningCode::UnknownStreamEvent);
}

fn kind(e: &StreamEvent) -> &'static str {
    match e {
        StreamEvent::MessageStart { .. } => "start",
        StreamEvent::BlockStart { index: 0, .. } => "open 0",
        StreamEvent::BlockStart { .. } => "open 1",
        StreamEvent::BlockDelta { index: 0, .. } => "delta 0",
        StreamEvent::BlockDelta { .. } => "delta 1",
        StreamEvent::BlockStop { index: 0, .. } => "close 0",
        StreamEvent::BlockStop { .. } => "close 1",
        StreamEvent::MessageDelta { .. } => "message",
        StreamEvent::MessageStop => "stop",
        StreamEvent::Unknown => "unknown",
    }
}

#[test]
fn stream_without_terminator_is_truncated() {
    let mut p = GoogleGenerateContent.stream_parser();
    p.parse(&sse(r#"{"responseId":"r"}"#)).unwrap();
    assert!(matches!(p.finish(), Err(Error::Parse { .. })));
}

#[test]
fn every_channel_round_trips() {
    let src = r#"{"contents":[{"role":"user","parts":[{"text":"hi","note":1},{"inlineData":{"mimeType":"image/png","data":"AA=="}},{"fileData":{"fileUri":"files/1"}}]},{"role":"model","parts":[{"text":"t","thought":true,"thoughtSignature":"s"},{"functionCall":{"id":"c","name":"f","args":{"a":1}},"thoughtSignature":"z"}]},{"role":"user","parts":[{"functionResponse":{"id":"c","name":"f","response":{"error":"no"},"parts":[{"inlineData":{"mimeType":"image/png","data":"BB=="}}]}},{"text":"next"}],"tag":true}],"tools":[{"functionDeclarations":[{"name":"f","description":"d","parametersJsonSchema":{"type":"object"}},{"name":"g"}]},{"googleSearch":{}}],"toolConfig":{"functionCallingConfig":{"mode":"ANY","allowedFunctionNames":["f"]}},"systemInstruction":{"parts":[{"text":"s"}]},"generationConfig":{"maxOutputTokens":5,"temperature":0.5,"topK":3,"stopSequences":["x"],"seed":7,"responseMimeType":"application/json","responseJsonSchema":{"type":"object"},"thinkingConfig":{"thinkingLevel":"LOW","includeThoughts":true}},"safetySettings":[1]}"#;
    let (req, warnings) = request_to_ir(src.as_bytes()).unwrap();
    assert!(warnings.is_empty());
    assert_eq!(req.messages.len(), 4);
    assert_eq!(req.messages[2].role, Role::Tool);
    assert_eq!(req.messages[3].turn_group_id(), req.messages[2].turn_group_id());
    assert_eq!(req.tools.as_ref().unwrap().len(), 3);
    let (body, warnings) = request_from_ir(&req, &ConvertOptions::new()).unwrap();
    assert!(warnings.is_empty());
    assert_eq!(to_text(&body), src);
    let (again, _) = request_to_ir(to_text(&body).as_bytes()).unwrap();
    assert_eq!(again, req);
}

#[test]
fn calls_in_the_middle_are_left_alone() {
    let (req, _) = request_to_ir(
        br#"{"contents":[{"role":"model","parts":[{"functionCall":{"id":"a","name":"f","args":{}}}]},{"role":"user","parts":[{"text":"hi"}]},{"role":"model","parts":[{"functionCall":{"id":"b","name":"f","args":{}}}]}]}"#,
    )
    .unwrap();
    for policy in [
        OrphanToolCalls::Passthrough,
        OrphanToolCalls::DropTrailing,
        OrphanToolCalls::SynthesizeError,
    ] {
        let mut options = ConvertOptions::new();
        options.orphan_tool_calls = policy;
        let (body, warnings) = request_from_ir(&req, &options).unwrap();
        let contents = to_text(body.get("contents").unwrap());
        assert!(contents.starts_with(
            r#"[{"role":"model","parts":[{"functionCall":{"id":"a","name":"f","args":{}}}]},{"role":"user","parts":[{"text":"hi"}]}"#
        ));
        assert!(warnings.iter().any(|w| w.code == WarningCode::OrphanToolCalls));
        assert_eq!(contents.contains(r#""id":"b""#), policy != OrphanToolCalls::DropTrailing);
    }
}

#[test]
fn nested_data_round_trips() {
    let src = r#"{"contents":[{"role":"user","parts":[{"fileData":{"fileUri":"files/1","displayName":"d","mimeType":"image/png"},"videoMetadata":{"fps":1}},{"inlineData":{"mimeType":"image/png","data":"AA==","displayName":"p"}}]},{"role":"model","parts":[{"functionCall":{"id":"c","name":"f","args":{},"partial":true},"thoughtSignature":"z"}]},{"role":"user","parts":[{"functionResponse":{"id":"c","name":"f","response":{"output":"ok"},"scheduling":"SILENT"}}]}],"toolConfig":{"functionCallingConfig":{"mode":"AUTO","strict":1},"retrievalConfig":{"languageCode":"en"}},"systemInstruction":{"parts":[{"text":"s"}],"tag":1},"generationConfig":{"topK":3,"thinkingConfig":{"includeThoughts":true,"thinkingBudget":128},"responseModalities":["TEXT"]},"cachedContent":"x"}"#;
    let (req, warnings) = request_to_ir(src.as_bytes()).unwrap();
    assert!(warnings.is_empty());
    let (body, warnings) = request_from_ir(&req, &ConvertOptions::new()).unwrap();
    assert!(warnings.is_empty());
    assert_eq!(to_text(&body), src);
    assert_eq!(request_to_ir(to_text(&body).as_bytes()).unwrap().0, req);
}

#[test]
fn canonical_form_is_stable() {
    let bodies = [
        r#"{"cachedContent":"x","nothing":null,"contents":[{"parts":[{"text":"a","thought":false}]},{"role":"user","parts":[{"text":"b"}]}],"tools":[{"googleSearch":{},"functionDeclarations":[{"name":"f"}]}]}"#,
        // An unknown role, and a system instruction with a part that is no text.
        r#"{"systemInstruction":{"role":"system","parts":[{"text":"s"},{"inlineData":{"mimeType":"image/png","data":"AA=="}}],"tag":1},"contents":[{"role":"critic","parts":[{"text":"a"}]},{"role":"user","parts":[{"executableCode":{"code":"c"}}]}]}"#,
        // Configurations of unknown shapes.
        r#"{"toolConfig":{"functionCallingConfig":{"mode":"VALIDATED","allowedFunctionNames":["f","g"],"x":null},"r":1},"generationConfig":{"responseMimeType":"text/x.enum","responseJsonSchema":{"type":"string"},"thinkingConfig":{"thinkingBudget":1},"m":null},"contents":[{"role":"model","parts":[{"functionCall":{"name":"f","args":{"a":null}}}]},{"role":"model","parts":[]}]}"#,
        // A response to a call without a name of its own, and a thought on the user's side.
        r#"{"contents":[{"role":"user","parts":[{"functionResponse":{"name":"f","response":{"r":1}}},{"text":"t","thought":true},{"text":"a","fileData":{"fileUri":"u"}}],"y":{"z":null}}],"tools":[{"functionDeclarations":[{"name":"f"}]},{"functionDeclarations":[{"name":"g","k":null}]}]}"#,
    ];
    let pass = |text: &str| {
        let (req, _) = request_to_ir(text.as_bytes()).unwrap();
        to_text(&request_from_ir(&req, &ConvertOptions::new()).unwrap().0)
    };
    for src in bodies {
        let once = pass(src);
        assert_ne!(once, src);
        assert_eq!(pass(&once), once);
    }
}
