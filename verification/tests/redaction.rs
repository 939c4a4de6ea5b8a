//! Credentials in the output of a process.
use course2md_desktop::json::Json;
use course2md_desktop::redaction::Redactions;

#[test]
fn child_output_redacts_json_escaped_unicode_and_prefixed_credentials() {
    let key = "fake\"\\秘密\ncredential";
    let redactions = Redactions(vec![key.into()]);
    let escaped: String = key
        .encode_utf16()
        .map(|unit| format!("\\u{unit:04x}"))
        .collect();
    let source = format!(
        "{{\"type\":\"error\",\"message\":\"failed {escaped}\"}}\n\
         {{\"type\":\"blocked\",\"reason\":\"paused\",\"request_id\":null,\"purpose\":null,\"description\":null,\"message\":\"paused\"}}\n"
    );
    let lines: Vec<serde_json::Value> = source
        .lines()
        .map(|line| serde_json::from_str(&redactions.shown(line).unwrap()).unwrap())
        .collect();
    assert_eq!(lines[0]["type"].as_str(), Some("error"));
    assert_eq!(
        lines[0]["message"].as_str(),
        Some("failed [已隐藏密钥]")
    );
    assert_eq!(lines[1]["type"].as_str(), Some("blocked"));
    assert!(lines[1]["request_id"].is_null());
    let stderr = format!("HTTP response: {{\"echo\":\"{escaped}\"}}");
    let clean = redactions.line(&stderr);
    assert!(clean.contains("[已隐藏密钥]"));
    assert!(!clean.contains("credential") && !clean.contains("\\u0063"));
    let mut fields = serde_json::Map::new();
    fields.insert("type".into(), serde_json::Value::String("log".into()));
    fields.insert(
        "message".into(),
        serde_json::Value::String(format!("{{\"echo\":\"{escaped}\"}}")),
    );
    let nested = serde_json::Value::Object(fields);
    let clean: serde_json::Value =
        serde_json::from_str(&redactions.line(&nested.to_string())).unwrap();
    assert!(clean["message"].as_str().unwrap().contains("[已隐藏密钥]"));
}

#[test]
fn longer_keys_are_hidden_before_the_keys_that_begin_them() {
    let redactions = Redactions(vec!["abc".into(), String::new(), "abcdef".into()]);
    assert_eq!(
        redactions.text("abcdef abc abcd"),
        "[已隐藏密钥] [已隐藏密钥] [已隐藏密钥]d"
    );
    assert_eq!(redactions.text("nothing"), "nothing");
}

#[test]
fn a_key_is_hidden_as_json_spells_it() {
    let redactions = Redactions(vec!["a\"b".into()]);
    assert_eq!(redactions.text("x a\\\"b y"), "x [已隐藏密钥] y");
}

#[test]
fn numbers_and_shape_survive() {
    let redactions = Redactions(vec!["key".into()]);
    assert_eq!(
        redactions.line("{\"a\":[1,2.5,true,null,\"key\"],\"key\":{}}"),
        "{\"[已隐藏密钥]\":{},\"a\":[1,2.5,true,null,\"[已隐藏密钥]\"]}"
    );
}

#[test]
fn field_names_that_become_one_keep_the_later_value() {
    let redactions = Redactions(vec!["k1".into(), "k2".into()]);
    assert_eq!(
        redactions.line("{\"k1\":1,\"k2\":2}"),
        "{\"[已隐藏密钥]\":2}"
    );
}

#[test]
fn tokens_that_cannot_be_decoded_stay_plain() {
    let redactions = Redactions(vec!["key".into()]);
    assert_eq!(
        redactions.line("a \"\\x\" key \"open"),
        "a \"\\x\" [已隐藏密钥] \"open"
    );
    assert_eq!(redactions.line("pre \"key\" post"), "pre \"[已隐藏密钥]\" post");
}

#[test]
fn without_keys_a_line_is_left_alone() {
    let redactions = Redactions(Vec::new());
    assert_eq!(redactions.line("{ \"a\" : 1 }"), "{ \"a\" : 1 }");
    assert_eq!(redactions.shown("  \t"), None);
}

#[test]
fn the_keys_of_a_request_are_found() {
    let request = "{\"config\":{\"llm\":{\"api_key\":\"one\"},\"asr_api\":{\"api_key\":\"two\"}}}";
    let mut redactions = Redactions::of_request(request.as_bytes());
    assert_eq!(redactions.0, vec!["one".to_owned(), "two".to_owned()]);
    redactions.wipe();
    assert!(redactions.0.is_empty());
    let partial = "{\"config\":{\"llm\":{\"api_key\":\"\"},\"asr_api\":{\"api_key\":3}}}";
    assert!(Redactions::of_request(partial.as_bytes()).0.is_empty());
    assert!(Redactions::of_request(b"not json").0.is_empty());
}

#[test]
fn documents_are_hidden_field_by_field() {
    let redactions = Redactions(vec!["key".into()]);
    match redactions.value(Json::List(vec![
        Json::Text("my key".into()),
        Json::Bool(true),
        Json::Null,
    ])) {
        Json::List(items) => {
            assert!(matches!(&items[0], Json::Text(text) if text == "my [已隐藏密钥]"));
            assert!(matches!(items[1], Json::Bool(true)));
            assert!(matches!(items[2], Json::Null));
        }
        _ => panic!("a list stays a list"),
    }
}

#[test]
fn keys_beside_the_marker_are_hidden_too() {
    // The key shares a bracket with the marker, but cannot overlap it.
    let redactions = Redactions(vec!["a[b".into(), "zz".into()]);
    assert_eq!(redactions.text("a[b zz"), "[已隐藏密钥] [已隐藏密钥]");
}

#[test]
fn no_key_is_left_in_a_diagnostic_line() {
    let redactions = Redactions(vec!["sk-secret".into(), "x1".into()]);
    for line in [
        "warn: \"sk-secret\" and sk-secret",
        "warn: \"\\u0073k-secret\" x1",
        "warn: \"sk-\" secret \"x1",
    ] {
        let shown = redactions.line(line);
        assert!(!shown.contains("sk-secret"), "{shown}");
        assert!(!shown.contains("x1"), "{shown}");
    }
    assert_eq!(
        redactions.line("warn: \"a\\tb\" sk-secret"),
        "warn: \"a\\tb\" [已隐藏密钥]"
    );
}

#[test]
fn control_characters_are_spelled_as_json_spells_them() {
    let redactions = Redactions(vec!["k\u{1}\n\u{7f}".into()]);
    assert_eq!(
        redactions.text("see k\\u0001\\n\u{7f} here"),
        "see [已隐藏密钥] here"
    );
}

#[test]
fn a_secret_is_not_retained_because_its_spelling_is_escaped() {
    let redactions = Redactions(vec!["secret".into()]);
    for (line, shown) in [
        ("5\" x \"\\u0073ecret\"", "5\" x \"[已隐藏密钥]\""),
        ("err \\u0073ecret", "err [已隐藏密钥]"),
        ("a \"\\x \\\"\\u0073ecret\" b", "a \"\\x \\\"[已隐藏密钥]\" b"),
        ("\"a\" \\u0073ecret \"b\"", "\"a\" [已隐藏密钥] \"b\""),
        ("say \"\\u0073ecret\" C:\\x", "say \"[已隐藏密钥]\" C:\\x"),
        ("say \"\\u0041\" C:\\x", "say \"A\" C:\\x"),
    ] {
        assert_eq!(redactions.line(line), shown, "{line}");
    }
}

#[test]
fn a_line_that_cannot_be_cleaned_is_not_shown() {
    // Hiding the first key makes a run of the rest that says the second.
    let redactions = Redactions(vec!["\\x".into(), "secret".into()]);
    let shown = redactions.line("a \"\\x\\u0073ecret\"");
    assert!(!shown.contains("\\u0073ecret"), "{shown}");
}

#[test]
fn texts_of_a_document_are_hidden_at_any_depth() {
    let redactions = Redactions(vec!["secret".into()]);
    assert_eq!(
        redactions.line("{\"a\":[{\"b\":\"5\\\" \\\"\\\\u0073ecret\\\"\"}]}"),
        "{\"a\":[{\"b\":\"5\\\" \\\"[已隐藏密钥]\\\"\"}]}"
    );
}
