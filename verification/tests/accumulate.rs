//! Streams put together.

use http::{HeaderMap, HeaderName, HeaderValue};
use llm_api::accumulate::Accumulator;
use llm_api::client::stream::StreamItem;
use llm_api::convert::{ConversionWarning, WarningCode};
use llm_api::error::Error;
use llm_api::formats::anthropic_messages::api::AnthropicMessages;
use llm_api::formats::google_generate_content::api::GoogleGenerateContent;
use llm_api::formats::openai_chat_completions::api::OpenAiChatCompletions;
use llm_api::ir::{BlockDelta, ContentBlock, SseEvent, StopReason, StreamEvent};
use llm_api::response::{Response, ResponseMeta};
use llm_api::stream::StreamParser;

fn item(event: StreamEvent) -> StreamItem {
    StreamItem { event, raw: None, warnings: Vec::new() }
}

fn collect<P: StreamParser>(mut p: P, events: &[(Option<&str>, &str)]) -> Result<Response, Error> {
    let mut acc = Accumulator::new();
    for (event, data) in events {
        let sse = SseEvent { event: event.map(str::to_owned), data: (*data).to_owned() };
        let (events, warnings) = p.parse(&sse)?;
        acc.extend_warnings(warnings);
        for e in events {
            acc.push(&item(e))?;
        }
    }
    p.finish()?;
    acc.finish()
}

#[test]
fn streamed_text_equals_the_whole() {
    let r = collect(
        OpenAiChatCompletions.stream_parser(),
        &[
            (None, r#"{"id":"r","model":"m","choices":[{"index":0,"delta":{"role":"assistant","reasoning_content":"th"}}]}"#),
            (None, r#"{"choices":[{"index":0,"delta":{"reasoning_content":"ink"}}]}"#),
            (None, r#"{"choices":[{"index":0,"delta":{"content":"a"}}]}"#),
            (None, r#"{"choices":[{"index":0,"delta":{"content":"bc"}}]}"#),
            (None, r#"{"choices":[{"index":0,"delta":{"refusal":"no"}}]}"#),
            (None, r#"{"choices":[{"index":0,"delta":{},"finish_reason":"stop"}]}"#),
            (None, "[DONE]"),
        ],
    )
    .unwrap();
    let whole = OpenAiChatCompletions
        .parse_response(
            br#"{"id":"r","model":"m","choices":[{"index":0,"message":{"role":"assistant","reasoning_content":"think","content":"abc","refusal":"no"},"finish_reason":"stop"}]}"#,
            &ResponseMeta::new(200, HeaderMap::new()),
        )
        .unwrap();
    assert_eq!(r.message, whole.message);
    assert_eq!(r.message.content.len(), 3);
    assert_eq!((r.id, r.model, r.stop_reason), (whole.id, whole.model, whole.stop_reason));
}

#[test]
fn streamed_calls_equal_the_whole() {
    let r = collect(
        OpenAiChatCompletions.stream_parser(),
        &[
            (None, r#"{"choices":[{"index":0,"delta":{"tool_calls":[{"index":0,"id":"c","type":"function","function":{"name":"f","arguments":"{\"a\""}}]}}]}"#),
            (None, r#"{"choices":[{"index":0,"delta":{"tool_calls":[{"index":0,"function":{"arguments":":1}"}}]}}]}"#),
            (None, r#"{"choices":[{"index":0,"delta":{},"finish_reason":"stop"}],"usage":{"prompt_tokens":1,"completion_tokens":2,"total_tokens":3}}"#),
            (None, "[DONE]"),
        ],
    )
    .unwrap();
    let whole = OpenAiChatCompletions
        .parse_response(
            br#"{"choices":[{"index":0,"message":{"role":"assistant","content":null,"tool_calls":[{"id":"c","type":"function","function":{"name":"f","arguments":"{\"a\":1}"}}]},"finish_reason":"stop"}],"usage":{"prompt_tokens":1,"completion_tokens":2,"total_tokens":3}}"#,
            &ResponseMeta::new(200, HeaderMap::new()),
        )
        .unwrap();
    assert_eq!(r.message, whole.message);
    assert_eq!(r.stop_reason, Some(StopReason::ToolUse));
    assert_eq!(r.usage, whole.usage);
}

#[test]
fn every_format_adds_up() {
    let anthropic = collect(
        AnthropicMessages.stream_parser(),
        &[
            (Some("message_start"), r#"{"type":"message_start","message":{"id":"m","usage":{"input_tokens":1}}}"#),
            (Some("content_block_start"), r#"{"type":"content_block_start","index":0,"content_block":{"type":"text","text":""}}"#),
            (Some("content_block_delta"), r#"{"type":"content_block_delta","index":0,"delta":{"type":"text_delta","text":"h"}}"#),
            (Some("content_block_delta"), r#"{"type":"content_block_delta","index":0,"delta":{"type":"text_delta","text":"i"}}"#),
            (Some("content_block_stop"), r#"{"type":"content_block_stop","index":0}"#),
            (Some("message_delta"), r#"{"type":"message_delta","delta":{"stop_reason":"end_turn"},"usage":{"output_tokens":2}}"#),
            (Some("message_stop"), r#"{"type":"message_stop"}"#),
        ],
    )
    .unwrap();
    let google = collect(
        GoogleGenerateContent.stream_parser(),
        &[
            (None, r#"{"responseId":"m","candidates":[{"content":{"parts":[{"text":"h"}]}}]}"#),
            (None, r#"{"candidates":[{"content":{"parts":[{"text":"i"}]},"finishReason":"STOP"}]}"#),
        ],
    )
    .unwrap();
    for r in [anthropic, google] {
        assert_eq!(r.message.content, vec![ContentBlock::text("hi".to_owned())]);
        assert_eq!(r.id.as_deref(), Some("m"));
        assert_eq!(r.stop_reason, Some(StopReason::EndTurn));
    }
}

#[test]
fn head_and_warnings_are_kept() {
    let mut acc = Accumulator::new();
    acc.set_status(201);
    let mut headers = HeaderMap::new();
    headers.insert(HeaderName::from_static("x"), HeaderValue::from_static("1"));
    acc.set_headers(headers);
    let warn = |s: &str| ConversionWarning::to_format(WarningCode::ThinkingDropped, "f", "/x", s);
    acc.extend_warnings(vec![warn("a")]);
    acc.push(&StreamItem { event: StreamEvent::Unknown, raw: None, warnings: vec![warn("b")] }).unwrap();
    acc.push(&item(StreamEvent::MessageStop)).unwrap();
    let r = acc.finish().unwrap();
    assert_eq!(r.status, 201);
    assert_eq!(r.headers.get("x").unwrap(), "1");
    let texts: Vec<&str> = r.warnings.iter().map(|w| w.message.as_str()).collect();
    assert_eq!(texts, vec!["a", "b"]);
}

#[test]
fn unknown_blocks_and_missing_ends_are_errors() {
    let mut acc = Accumulator::new();
    let delta = StreamEvent::BlockDelta { index: 3, delta: BlockDelta::Text("x".to_owned()) };
    match acc.push(&item(delta)) {
        Err(Error::Parse { message, raw }) => {
            assert_eq!(message, "stream event for unknown block index 3");
            assert!(raw.is_empty());
        }
        other => panic!("unexpected: {other:?}"),
    }
    assert!(acc.push(&item(StreamEvent::BlockStop { index: 0, block: None })).is_err());
    assert!(matches!(acc.finish(), Err(Error::Parse { .. })));
}
