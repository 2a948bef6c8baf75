//! URLs, data URLs, JSON merging and pointers.

use llm_api::error::{ConversionError, Error};
use llm_api::format::{encode_path_segment, parse_data_url, to_data_url};
use llm_api::ir::{Effort, Extra, Request};
use llm_api::json::{Json, JsonMap, Num};
use llm_api::merge::{merge_patch, MergeLog};
use llm_api::pointer::{find_value, parse_pointer, put_value};
use llm_api::scan::trim;
use llm_api::url::{build_url, parse_query, EndpointUrl, Piece};
use llm_api::value::{json_of_value, parse_slice, parse_text, to_bytes, to_text, value_of_json};

fn none() -> Vec<(String, String)> {
    Vec::new()
}

fn pair(k: &str, v: &str) -> (String, String) {
    (k.to_owned(), v.to_owned())
}

fn json(text: &str) -> Json {
    parse_text(text).unwrap()
}

#[test]
fn base_join_trims_and_appends() {
    let base = EndpointUrl::base("https://api.example.com/v1/").unwrap();
    let url = build_url(&base, "chat/completions", "m", None, &none(), &none()).unwrap();
    assert_eq!(url.text, "https://api.example.com/v1/chat/completions");
}

#[test]
fn base_query_preserved_and_rebuilt() {
    let base = EndpointUrl::base("https://h/v1?key=abc").unwrap();
    let url = build_url(&base, "models", "m", None, &none(), &none()).unwrap();
    assert_eq!(url.text, "https://h/v1/models?key=abc");
}

#[test]
fn model_substitution_encodes_and_strips_prefix() {
    let base = EndpointUrl::base("https://gl/v1beta").unwrap();
    let url = build_url(
        &base,
        "models/{model}:{method}",
        "models/gemini-2.5-flash",
        Some("generateContent"),
        &none(),
        &none(),
    )
    .unwrap();
    assert_eq!(url.text, "https://gl/v1beta/models/gemini-2.5-flash:generateContent");

    // Special characters are percent-encoded as one segment.
    let url2 = build_url(&base, "models/{model}", "a/b c", None, &none(), &none()).unwrap();
    assert_eq!(url2.text, "https://gl/v1beta/models/a%2Fb%20c");
}

#[test]
fn tuned_models_not_supported() {
    let base = EndpointUrl::base("https://gl/v1beta").unwrap();
    let err = build_url(&base, "models/{model}", "tunedModels/x", None, &none(), &none()).unwrap_err();
    assert!(matches!(err, Error::NotSupported(_)));
}

#[test]
fn full_url_used_verbatim_with_substitution() {
    let full = EndpointUrl::full("https://h/api/custom/{model}:{method}?x=1");
    let url = build_url(&full, "ignored", "m", Some("streamGenerateContent"), &none(), &none()).unwrap();
    assert_eq!(url.text, "https://h/api/custom/m:streamGenerateContent?x=1");

    // Without placeholders the URL is used as-is.
    let plain = EndpointUrl::full("https://h/chat");
    let url2 = build_url(&plain, "ignored", "m", None, &none(), &none()).unwrap();
    assert_eq!(url2.text, "https://h/chat");
}

#[test]
fn protected_query_conflicts_error() {
    let base = EndpointUrl::base("https://h/v1?alt=json").unwrap();
    let sse = vec![pair("alt", "sse")];
    let err = build_url(&base, "p", "m", None, &sse, &none()).unwrap_err();
    assert!(matches!(err, Error::Conversion(ConversionError::ProtectedQueryKey { .. })));

    let base2 = EndpointUrl::base("https://h/v1").unwrap();
    let err2 = build_url(&base2, "p", "m", None, &sse, &vec![pair("alt", "json")]).unwrap_err();
    assert!(matches!(err2, Error::Conversion(ConversionError::ProtectedQueryKey { .. })));

    // Protected key appended when no conflict.
    let ok = build_url(&base2, "p", "m", None, &sse, &none()).unwrap();
    assert_eq!(ok.text, "https://h/v1/p?alt=sse");
}

#[test]
fn extra_query_replaces_same_key() {
    let base = EndpointUrl::base("https://h/v1?a=1&b=2").unwrap();
    let url = build_url(&base, "p", "m", None, &none(), &vec![pair("a", "9"), pair("c", "3")]).unwrap();
    assert_eq!(url.text, "https://h/v1/p?a=9&b=2&c=3");
}

#[test]
fn url_errors() {
    let relative = EndpointUrl::base("/v1").unwrap();
    let err = build_url(&relative, "p", "m", None, &none(), &none()).unwrap_err();
    assert_eq!(err.text(), "conversion error: base URL must include a scheme");
    let full = EndpointUrl::full("https://h/{method}");
    let err = build_url(&full, "p", "m", None, &none(), &none()).unwrap_err();
    assert_eq!(err.text(), "conversion error: URL template contains {method} but no method was provided");
    let base = EndpointUrl::base("https://h").unwrap();
    let err = build_url(&base, "{model}", "models/", None, &none(), &none()).unwrap_err();
    assert_eq!(err.text(), "conversion error: missing required data: model name (at /)");
    let bad = EndpointUrl::full("https://h/a b");
    let err = build_url(&bad, "p", "m", None, &none(), &none()).unwrap_err();
    assert!(err.text().starts_with("conversion error: constructed URL is invalid: "));
}

fn piece(name: Option<&str>, value: &str, text: &str) -> Piece {
    Piece { name: name.map(|n| n.to_owned()), value: value.to_owned(), text: text.to_owned() }
}

#[test]
fn queries_split_into_raw_pieces() {
    assert_eq!(
        parse_query("a=1&&b&c=d=e&f="),
        vec![
            piece(Some("a"), "1", "a=1"),
            piece(None, "", ""),
            piece(Some("b"), "", "b"),
            piece(Some("c"), "d=e", "c=d=e"),
            piece(Some("f"), "", "f="),
        ]
    );
    assert_eq!(parse_query(""), Vec::new());
}

#[test]
fn full_urls_are_used_verbatim() {
    for text in [
        "https://h/p?a=&b=1",
        "https://h/p?a&&b=1&",
        "https://h/p?",
        "https://h/p?=x&a=b=c",
        "https://h/p/",
    ] {
        let url = build_url(&EndpointUrl::full(text), "ignored", "m", None, &none(), &none()).unwrap();
        assert_eq!(url.text, text);
    }
}

#[test]
fn own_queries_are_kept_beside_what_is_added() {
    let full = EndpointUrl::full("https://h/p?a=&&b=1&c=");
    let url = build_url(&full, "ignored", "m", None, &vec![pair("alt", "sse")], &vec![pair("b", "2"), pair("d", "")])
        .unwrap();
    assert_eq!(url.text, "https://h/p?a=&&b=2&c=&alt=sse&d");
    let bare = EndpointUrl::full("https://h/p?");
    let url2 = build_url(&bare, "ignored", "m", None, &none(), &vec![pair("d", "4")]).unwrap();
    assert_eq!(url2.text, "https://h/p?d=4");
    let base = EndpointUrl::base("https://h/v1/?key=&&x").unwrap();
    let url3 = build_url(&base, "models", "m", None, &none(), &none()).unwrap();
    assert_eq!(url3.text, "https://h/v1/models?key=&&x");
    let url4 = build_url(&base, "models", "m", None, &vec![pair("key", "1")], &none());
    assert!(url4.is_err());
}

#[test]
fn path_segments_are_percent_encoded() {
    assert_eq!(encode_path_segment("aZ0-._~"), "aZ0-._~");
    assert_eq!(encode_path_segment("a/é"), "a%2F%C3%A9");
}

#[test]
fn data_url_round_trip() {
    let url = to_data_url("image/png", "AAAA");
    assert_eq!(url, "data:image/png;base64,AAAA");
    assert_eq!(parse_data_url(&url).unwrap(), ("image/png".to_owned(), "AAAA".to_owned()));
    assert!(parse_data_url("https://x/y.png").is_none());
    assert!(parse_data_url("data:text/plain,hello").is_none());
}

#[test]
fn merge_patch_sets_merges_and_deletes() {
    let mut target = json(r#"{"a": {"x": 1, "y": 2}, "b": 1, "c": [1]}"#);
    let patch = json(r#"{"a": {"y": null, "z": {"n": null, "k": 3}}, "b": null, "d/e~": [null]}"#);
    let mut log = MergeLog::new();
    merge_patch(&mut target, patch.as_object().unwrap(), "/p", &mut log);
    assert_eq!(to_text(&target), r#"{"a":{"x":1,"z":{"k":3}},"c":[1],"d/e~":[null]}"#);
    assert_eq!(log.pointers, vec!["/p/a/y", "/p/a/z/n", "/p/a/z/k", "/p/b", "/p/d~1e~0"]);
    assert!(log.overrides("/p/b"));
    assert!(log.overrides("/p/b/deeper"));
    assert!(!log.overrides("/p/bb"));
    assert!(!log.overrides("/p/a"));
}

#[test]
fn merging_twice_changes_nothing_more() {
    let patch = json(r#"{"a": {"y": null, "z": 1}, "b": null}"#);
    let mut log = MergeLog::new();
    let mut once = json(r#"{"a": {"y": 2}, "b": 1, "c": 0}"#);
    merge_patch(&mut once, patch.as_object().unwrap(), "", &mut log);
    let mut twice = once.copy();
    merge_patch(&mut twice, patch.as_object().unwrap(), "", &mut log);
    assert_eq!(once, twice);
    assert_eq!(to_text(&once), r#"{"a":{"z":1},"c":0}"#);
}

#[test]
fn extras_stay_in_their_namespace() {
    let mut extra = Extra::new();
    extra.set("x", "k", Json::Bool(true));
    extra.set("y", "k", Json::Bool(false));
    let mut target = json(r#"{"a": 1}"#);
    let mut log = MergeLog::new();
    extra.merge_into("z", &mut target, "", &mut log);
    assert_eq!(to_text(&target), r#"{"a":1}"#);
    extra.merge_into("x", &mut target, "", &mut log);
    assert_eq!(to_text(&target), r#"{"a":1,"k":true}"#);
    assert_eq!(extra.formats(), vec!["x".to_owned(), "y".to_owned()]);
}

#[test]
fn pointers_read_and_write() {
    let doc = json(r#"{"a": [{"x/y": 1}, 2], "m~n": 3}"#);
    let at = |ptr: &str| {
        let toks = parse_pointer(ptr)?;
        find_value(&doc, &toks, 0).map(to_text)
    };
    assert_eq!(at("").as_deref(), Some(to_text(&doc).as_str()));
    assert_eq!(at("/a/0/x~1y").as_deref(), Some("1"));
    assert_eq!(at("/a/1").as_deref(), Some("2"));
    assert_eq!(at("/m~0n").as_deref(), Some("3"));
    assert_eq!(at("/a/2"), None);
    assert_eq!(at("/a/01"), None);
    assert_eq!(at("/a/+1"), None);
    assert_eq!(at("a"), None);
    let toks = parse_pointer("/a/1").unwrap();
    let written = put_value(doc.copy(), &toks, 0, Json::Null);
    assert_eq!(to_text(&written), r#"{"a":[{"x/y":1},null],"m~n":3}"#);
}

#[test]
fn json_text_round_trips() {
    let text = r#"{"b":[1,-2,1.5,true,null,"x\n"],"a":{"k":18446744073709551615}}"#;
    let j = json(text);
    assert_eq!(to_text(&j), text);
    assert_eq!(to_bytes(&j), text.as_bytes());
    assert_eq!(json_of_value(value_of_json(&j)), j);
    assert!(parse_slice(b"{").is_err());
    assert!(parse_text("{\"a\"}").is_err());
}

#[test]
fn numbers_that_are_not_finite_become_null() {
    assert_eq!(to_text(&Json::Number(Num::Float("NaN".to_owned()))), "null");
    assert_eq!(to_text(&Json::Number(Num::Float("0.50".to_owned()))), "0.5");
    assert_eq!(Num::PosInt(2).to_float(), Some(Num::Float("2.0".to_owned())));
}

#[test]
fn white_space_is_trimmed() {
    assert_eq!(trim(" \t[DONE]\u{a0}\r\n"), "[DONE]");
    assert_eq!(trim("  "), "");
    assert_eq!(trim("a b"), "a b");
}

#[test]
fn effort_names_round_trip() {
    for name in ["none", "minimal", "low", "medium", "high", "custom"] {
        assert_eq!(Effort::from_str_lossy(name).as_str(), name);
    }
    assert_eq!(Effort::from_str_lossy("none"), Effort::Disabled);
    assert_eq!(Request::new().messages.len(), 0);
    assert_eq!(JsonMap::new().len(), 0);
}

#[test]
fn last_query_parameter_wins() {
    let base = EndpointUrl::base("https://h/v1?a=1").unwrap();
    let extra = vec![pair("a", "2"), pair("b", "3"), pair("a", "4")];
    let url = build_url(&base, "p", "m", None, &vec![pair("alt", "sse")], &extra).unwrap();
    assert_eq!(url.text, "https://h/v1/p?a=4&alt=sse&b=3");
}

#[test]
fn percent_encoding_keeps_texts_apart() {
    let texts = ["a b", "a%20b", "a+b", "\u{e4}", "%C3%A4", "~"];
    for (i, a) in texts.iter().enumerate() {
        for b in &texts[i + 1..] {
            assert_ne!(encode_path_segment(a), encode_path_segment(b));
        }
    }
    assert_eq!(encode_path_segment("\u{e4} b"), "%C3%A4%20b");
}

#[test]
fn nesting_is_read_up_to_the_limit() {
    let deep = |n: usize| format!("{}{}", "[".repeat(n), "]".repeat(n));
    let j = parse_text(&deep(127)).unwrap();
    assert_eq!(to_text(&j), deep(127));
    assert!(parse_text(&deep(128)).is_err());
    let src = r#"{"a":[18446744073709551615,-9223372036854775808,null,true,"\u0001\"\u00e4"],"":{}}"#;
    let j = parse_text(src).unwrap();
    assert_eq!(parse_text(&to_text(&j)).unwrap(), j);
}
