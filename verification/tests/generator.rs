use controlpath_cli::generator::sdk_language;
use controlpath_cli::generator::typescript::{
    flag_names, needs_package_json, template_flags, template_urls, to_ts_string_literal, SdkFlag,
};
use controlpath_cli::json::{json_to_string, JsonNumber, JsonValue};

fn to_value(v: &serde_json::Value) -> JsonValue {
    match v {
        serde_json::Value::Null => JsonValue::Null,
        serde_json::Value::Bool(b) => JsonValue::Bool(*b),
        serde_json::Value::Number(n) => match (n.as_u64(), n.as_i64()) {
            (Some(u), _) => JsonValue::Number(JsonNumber::PosInt(u)),
            (None, Some(i)) => JsonValue::Number(JsonNumber::NegInt(i)),
            _ => {
                let f = n.as_f64().unwrap();
                JsonValue::Number(JsonNumber::Float { bits: f.to_bits(), text: n.to_string() })
            },
        },
        serde_json::Value::String(s) => JsonValue::String(s.clone()),
        serde_json::Value::Array(xs) => JsonValue::Array(xs.iter().map(to_value).collect()),
        serde_json::Value::Object(m) => {
            let mut entries: Vec<(String, JsonValue)> = m.iter().map(|(k, x)| (k.clone(), to_value(x))).collect();
            entries.sort_by(|a, b| a.0.cmp(&b.0));
            JsonValue::Object(entries)
        },
    }
}

#[test]
fn to_ts_string_literal_escapes_single_quotes_in_urls() {
    let literal = to_ts_string_literal("https://flags.example.com/o'reilly/rules.ast");
    assert_eq!(literal, "\"https://flags.example.com/o'reilly/rules.ast\"");
}

#[test]
fn ts_string_literals_match_json_strings() {
    let samples = [
        "",
        "plain",
        "quote \" and backslash \\",
        "tab\tnewline\nreturn\r",
        "bell \u{7} and unit separator \u{1f} and delete \u{7f}",
        "backspace \u{8} form feed \u{c}",
        "unicode é ✓ 🚀",
        "</script>",
    ];
    for s in samples {
        assert_eq!(to_ts_string_literal(s), serde_json::to_string(s).unwrap(), "{s:?}");
    }
}

#[test]
fn compact_json_text_matches_serde_json() {
    let samples = [
        r#"null"#,
        r#"true"#,
        r#"[1, -2, 3.5, "x", null, false]"#,
        r#"{"b": {"z": [], "a": {}}, "a": "é\n\"q\""}"#,
        r#"{"n": 18446744073709551615, "m": -9223372036854775808, "f": 1e100, "g": 0.1}"#,
    ];
    for text in samples {
        let v: serde_json::Value = serde_json::from_str(text).unwrap();
        assert_eq!(json_to_string(&to_value(&v)), serde_json::to_string(&v).unwrap(), "{text}");
    }
}

#[test]
fn sdk_language_accepts_typescript_only() {
    assert!(sdk_language("typescript").is_ok());
    assert!(sdk_language("ts").is_ok());
    assert_eq!(
        sdk_language("python").unwrap_err().message(),
        "Unsupported language: python. Supported languages: typescript"
    );
}

#[test]
fn template_entries_follow_the_sdk_catalog() {
    let flags = vec![
        SdkFlag {
            qualified_name: "new_dashboard".to_string(),
            sdk_method_name: "newDashboard".to_string(),
            default: true,
            deprecated: false,
            description: Some("Dashboard".to_string()),
        },
        SdkFlag {
            qualified_name: "platform.kill".to_string(),
            sdk_method_name: "platformKill".to_string(),
            default: false,
            deprecated: true,
            description: None,
        },
    ];
    let entries = template_flags(&flags);
    assert_eq!(entries.len(), 2);
    assert_eq!(entries[0].camel_name, "newDashboard");
    assert_eq!(entries[0].method_name, "newDashboard");
    assert_eq!(entries[0].default_value, "true");
    assert_eq!(entries[1].qualified_name, "platform.kill");
    assert_eq!(entries[1].default_value, "false");
    assert!(entries[1].is_deprecated);
    assert_eq!(flag_names(&entries), vec!["'newDashboard'".to_string(), "'platformKill'".to_string()]);
    let urls = template_urls(&vec![("production".to_string(), "https://cdn/x\"y".to_string())]);
    assert_eq!(urls[0].env, "production");
    assert_eq!(urls[0].url_json, "\"https://cdn/x\\\"y\"");
}

#[test]
fn package_manifest_only_under_node_modules() {
    assert!(needs_package_json("node_modules/@controlpath/generated"));
    assert!(!needs_package_json("./flags"));
}
