//! Warnings, the strict gate, errors and the last steps of a build.

use http::HeaderMap;
use llm_api::api_error::generic_api_error;
use llm_api::convert::gate::strict_gate;
use llm_api::convert::{
    ConversionDirection, ConversionWarning, WarningCode, WarningSeverity,
};
use llm_api::error::{ApiErrorKind, ConversionError, Error, HookError};
use llm_api::headers::retry_after_from_headers;
use llm_api::ir::Role;
use llm_api::json::Json;
use llm_api::merge::{merge_patch, MergeLog};
use llm_api::pipeline::{finalize_request, RequestHooks};
use llm_api::value::{parse_text, to_text};

fn json(text: &str) -> Json {
    parse_text(text).unwrap()
}

#[test]
fn strict_gate_escalates_only_semantic_unoverridden_build_warnings() {
    let semantic = || {
        ConversionWarning::to_format(WarningCode::ThinkingDropped, "f", "/messages/0", "dropped")
    };
    let cosmetic = ConversionWarning::to_format(WarningCode::CacheKeyDropped, "f", "/x", "dropped");
    let mut overridden = semantic();
    overridden.overridden = true;
    let parse_side =
        ConversionWarning::from_format(WarningCode::MultipleCandidates, "f", "/choices", "skipped");

    assert!(strict_gate(false, &[semantic()]).is_ok());
    assert!(strict_gate(true, &[cosmetic, overridden, parse_side]).is_ok());
    let err = strict_gate(true, &[semantic()]).unwrap_err();
    assert!(matches!(&err, ConversionError::Strict { warnings, .. } if warnings.len() == 1));
    assert_eq!(
        err.text(),
        "strict mode: 1 semantic warning(s) escalated to an error; first: dropped"
    );
}

#[test]
fn severity_is_fixed_per_code() {
    let w = ConversionWarning::to_format(
        WarningCode::ThinkingDropped,
        "google_generate_content",
        "/contents/0",
        "thinking dropped",
    );
    assert_eq!(w.severity, WarningSeverity::Semantic);
    assert!(!w.overridden);

    let c = ConversionWarning::from_format(
        WarningCode::MalformedField,
        "openai_chat_completions",
        "/usage",
        "bad usage",
    );
    assert_eq!(c.severity, WarningSeverity::Cosmetic);
    assert_eq!(c.direction, ConversionDirection::FromFormat);
}

#[test]
fn api_error_kind_from_status() {
    assert_eq!(ApiErrorKind::from_status(400), ApiErrorKind::InvalidRequest);
    assert_eq!(ApiErrorKind::from_status(401), ApiErrorKind::Auth);
    assert_eq!(ApiErrorKind::from_status(403), ApiErrorKind::PermissionDenied);
    assert_eq!(ApiErrorKind::from_status(404), ApiErrorKind::NotFound);
    assert_eq!(ApiErrorKind::from_status(422), ApiErrorKind::InvalidRequest);
    assert_eq!(ApiErrorKind::from_status(429), ApiErrorKind::RateLimit);
    assert_eq!(ApiErrorKind::from_status(500), ApiErrorKind::ServerError);
    assert_eq!(ApiErrorKind::from_status(503), ApiErrorKind::Overloaded);
    assert_eq!(ApiErrorKind::from_status(529), ApiErrorKind::Overloaded);
    assert_eq!(ApiErrorKind::from_status(302), ApiErrorKind::Other("302".to_owned()));
}

#[test]
fn retry_after_parses_seconds_only() {
    let mut h = HeaderMap::new();
    h.insert(http::header::RETRY_AFTER, http::HeaderValue::from_static("12"));
    assert_eq!(retry_after_from_headers(&h), Some(12));

    h.insert(
        http::header::RETRY_AFTER,
        http::HeaderValue::from_static("Sun, 06 Nov 1994 08:49:37 GMT"),
    );
    assert_eq!(retry_after_from_headers(&h), None);
}

#[test]
fn retry_after_edge_values() {
    let mut h = HeaderMap::new();
    assert_eq!(retry_after_from_headers(&h), None);
    h.insert(http::header::RETRY_AFTER, http::HeaderValue::from_static("  7 "));
    assert_eq!(retry_after_from_headers(&h), Some(7));
    h.insert(http::header::RETRY_AFTER, http::HeaderValue::from_static("18446744073709551616"));
    assert_eq!(retry_after_from_headers(&h), None);
    h.insert(http::header::RETRY_AFTER, http::HeaderValue::from_bytes(b"\xff").unwrap());
    assert_eq!(retry_after_from_headers(&h), None);
}

#[test]
fn generic_error_extracts_messages() {
    let headers = HeaderMap::new();
    let err = generic_api_error(
        429,
        &headers,
        br#"{"error": {"message": "slow down", "type": "rate_limit"}}"#,
    );
    match err {
        Error::Api { status, kind, message, parsed, .. } => {
            assert_eq!(status, 429);
            assert_eq!(kind, ApiErrorKind::RateLimit);
            assert_eq!(message, "slow down");
            assert!(parsed.is_some());
        }
        other => panic!("unexpected: {other:?}"),
    }

    // Non-JSON body degrades to a text prefix.
    let err2 = generic_api_error(502, &headers, b"<html>Bad Gateway</html>");
    match err2 {
        Error::Api { message, parsed, .. } => {
            assert!(message.contains("Bad Gateway"));
            assert!(parsed.is_none());
        }
        other => panic!("unexpected: {other:?}"),
    }
}

#[test]
fn generic_error_excerpts_long_and_broken_text() {
    let headers = HeaderMap::new();
    let mut body = vec![b'x'; 300];
    body[0] = 0xff;
    match generic_api_error(500, &headers, &body) {
        Error::Api { message, raw, .. } => {
            assert_eq!(message.chars().count(), 200);
            assert!(message.starts_with('\u{fffd}'));
            assert_eq!(raw.len(), 300);
        }
        other => panic!("unexpected: {other:?}"),
    }
}

#[test]
fn errors_as_text() {
    let headers = HeaderMap::new();
    let err = generic_api_error(418, &headers, br#"{"error": "teapot"}"#);
    assert_eq!(err.text(), "API error (HTTP 418, InvalidRequest): teapot");
    let err = generic_api_error(302, &headers, br#"{"message": "moved"}"#);
    assert_eq!(err.text(), "API error (HTTP 302, Other(\"302\")): moved");
    let err = Error::Conversion(ConversionError::invalid_block_for_role(Role::Tool, "text", "/messages/0/content/0"));
    assert_eq!(
        err.text(),
        "conversion error: text block is not valid in a Tool message (at /messages/0/content/0)"
    );
    let err = Error::Conversion(ConversionError::missing("model name", "/"));
    assert_eq!(err.text(), "conversion error: missing required data: model name (at /)");
    let err = Error::Hook(HookError::with_source("nope", "inner"));
    assert_eq!(err.text(), "request hook failed: nope");
    assert_eq!(Error::NotSupported("x".to_owned()).text(), "not supported: x");
}

fn no_message(_: usize, _: Role, j: Json) -> Result<Json, HookError> {
    Ok(j)
}

fn no_request(j: Json) -> Result<Json, HookError> {
    Ok(j)
}

#[test]
fn finalize_request_pipeline() {
    // Warning at /top_k gets overridden by an extra merge that set it.
    let mut body = json(r#"{"messages": [{"role": "user", "content": "hi"}]}"#);
    let mut log = MergeLog::new();
    let patch = json(r#"{"top_k": 40}"#);
    merge_patch(&mut body, patch.as_object().unwrap(), "", &mut log);

    let mut warnings = vec![ConversionWarning::to_format(
        WarningCode::SamplingParameterDropped,
        "f",
        "/top_k",
        "dropped",
    )];
    let hooks = RequestHooks::new()
        .with_on_message(|index: usize, role: Role, mut value: Json| {
            assert_eq!(index, 0);
            assert_eq!(role, Role::User);
            value.put("hooked", Json::Bool(true));
            Ok(value)
        })
        .with_on_request(|mut value: Json| {
            value.put("done", Json::Bool(true));
            Ok(value)
        });
    finalize_request(
        &mut body,
        &mut warnings,
        &log,
        true, // strict passes: the only warning is cosmetic anyway
        &hooks,
        &vec![("/messages/0".to_owned(), Role::User)],
    )
    .unwrap();
    assert!(warnings[0].overridden);
    assert_eq!(
        body,
        json(r#"{"messages": [{"role": "user", "content": "hi", "hooked": true}], "top_k": 40, "done": true}"#)
    );
}

#[test]
fn finalize_request_hook_error_aborts() {
    let mut body = json("{}");
    let hooks = RequestHooks::new()
        .with_on_message(no_message)
        .with_on_request(|_: Json| Err(HookError::new("nope")));
    let err = finalize_request(&mut body, &mut Vec::new(), &MergeLog::new(), false, &hooks, &Vec::new()).unwrap_err();
    assert!(matches!(err, Error::Hook(_)));
}

#[test]
fn message_hook_error_aborts() {
    let mut body = json(r#"{"messages": [{}, {}]}"#);
    let hooks = RequestHooks::new()
        .with_on_message(|i: usize, _: Role, j: Json| if i == 1 { Err(HookError::new("second")) } else { Ok(j) })
        .with_on_request(no_request);
    let messages = vec![("/messages/0".to_owned(), Role::User), ("/messages/1".to_owned(), Role::Tool)];
    match finalize_request(&mut body, &mut Vec::new(), &MergeLog::new(), false, &hooks, &messages) {
        Err(Error::Hook(e)) => assert_eq!(e.message, "second"),
        other => panic!("unexpected: {other:?}"),
    }
}

#[test]
fn rewritten_messages_are_not_visited() {
    let mut body = json(r#"{"messages": [{"role": "user"}, {"role": "user"}, {"role": "user"}]}"#);
    let mut log = MergeLog::new();
    let patch = json(r#"{"role": "tool"}"#);
    let mut message = json(r#"{"role": "user"}"#);
    merge_patch(&mut message, patch.as_object().unwrap(), "/messages/1", &mut log);
    let hooks = RequestHooks::new()
        .with_on_message(|_: usize, _: Role, mut j: Json| {
            j.put("seen", Json::Bool(true));
            Ok(j)
        })
        .with_on_request(no_request);
    let messages = vec![
        ("/messages/0".to_owned(), Role::User),
        ("/messages/1".to_owned(), Role::User),
        ("/messages/9".to_owned(), Role::User),
    ];
    finalize_request(&mut body, &mut Vec::new(), &log, false, &hooks, &messages).unwrap();
    assert_eq!(
        to_text(&body),
        r#"{"messages":[{"role":"user","seen":true},{"role":"user"},{"role":"user"}]}"#
    );
}

#[test]
fn strict_gate_runs_before_hooks() {
    let mut body = json("{}");
    let mut warnings =
        vec![ConversionWarning::to_format(WarningCode::ThinkingDropped, "f", "/messages/0", "dropped")];
    let hooks = RequestHooks::new()
        .with_on_message(no_message)
        .with_on_request(|_: Json| Err(HookError::new("must not run")));
    let err = finalize_request(&mut body, &mut warnings, &MergeLog::new(), true, &hooks, &Vec::new()).unwrap_err();
    assert!(matches!(err, Error::Conversion(ConversionError::Strict { .. })));
    let none: RequestHooks<fn(usize, Role, Json) -> Result<Json, HookError>, fn(Json) -> Result<Json, HookError>> =
        RequestHooks::new();
    assert!(none.is_empty());
    assert!(!hooks.is_empty());
}
