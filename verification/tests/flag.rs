use controlpath_cli::commands::flag::{
    add_flag_request, parse_flag_default, catalog_flag_names, environment_rule_count, find_similar_flag_names, flag_not_found_error, format_value,
    validate_flag_name, validate_flag_type, OutputFormat,
};
use controlpath_cli::json::{JsonNumber, JsonValue};

fn from_yaml(text: &str) -> JsonValue {
    let v: serde_json::Value = serde_yaml::from_str(text).unwrap();
    convert(&v)
}

fn convert(v: &serde_json::Value) -> JsonValue {
    match v {
        serde_json::Value::Null => JsonValue::Null,
        serde_json::Value::Bool(b) => JsonValue::Bool(*b),
        serde_json::Value::Number(n) => {
            if let Some(u) = n.as_u64() {
                JsonValue::Number(JsonNumber::PosInt(u))
            } else if let Some(i) = n.as_i64() {
                JsonValue::Number(JsonNumber::NegInt(i))
            } else {
                let f = n.as_f64().unwrap();
                JsonValue::Number(JsonNumber::Float { bits: f.to_bits(), text: n.to_string() })
            }
        },
        serde_json::Value::String(s) => JsonValue::String(s.clone()),
        serde_json::Value::Array(xs) => JsonValue::Array(xs.iter().map(convert).collect()),
        serde_json::Value::Object(m) => {
            let mut entries: Vec<(String, JsonValue)> = m.iter().map(|(k, x)| (k.clone(), convert(x))).collect();
            entries.sort_by(|a, b| a.0.cmp(&b.0));
            JsonValue::Object(entries)
        },
    }
}

#[test]
fn test_validate_flag_name() {
    assert!(validate_flag_name("my_flag").is_ok());
    assert!(validate_flag_name("flag123").is_ok());
    assert!(validate_flag_name("a").is_ok());
    assert!(validate_flag_name("").is_err());
    assert!(validate_flag_name("MyFlag").is_err());
    assert!(validate_flag_name("my-flag").is_err());
    assert!(validate_flag_name("123flag").is_err());
}

#[test]
fn test_validate_flag_name_additional_cases() {
    assert!(validate_flag_name("flag_name_123").is_ok());
    assert!(validate_flag_name("a1b2c3").is_ok());
}

#[test]
fn validate_flag_name_explains_the_rules() {
    let err = validate_flag_name("Bad-Name").unwrap_err();
    let text = err.message();
    assert!(text.starts_with("Invalid flag name: 'Bad-Name'"));
    assert!(text.contains("Start with a lowercase letter"));
}

#[test]
fn test_find_similar_flag_names() {
    let unified = from_yaml(
        "catalog:\n  id: test\nmode: local\nflags:\n  test_flag:\n    default: false\n    kind: release\n  test_flag_2:\n    default: false\n    kind: release\n  other_flag:\n    default: false\n    kind: release\n  test:\n    default: false\n    kind: release\n",
    );
    let similar = find_similar_flag_names(&catalog_flag_names(&unified), "test_flag_1");
    assert!(!similar.is_empty());
    assert!(similar.len() <= 3);
}

#[test]
fn test_find_similar_flag_names_no_similar() {
    let unified = from_yaml(
        "catalog:\n  id: test\nmode: local\nflags:\n  abc:\n    default: false\n    kind: release\n  xyz:\n    default: false\n    kind: release\n",
    );
    let similar = find_similar_flag_names(&catalog_flag_names(&unified), "completely_different");
    assert!(similar.len() <= 3);
}

#[test]
fn test_find_similar_flag_names_empty_definitions() {
    let unified = from_yaml("catalog:\n  id: test\nmode: local\nflags: {}\n");
    let similar = find_similar_flag_names(&catalog_flag_names(&unified), "test_flag");
    assert!(similar.is_empty());
}

#[test]
fn similar_names_come_closest_first() {
    let names = vec!["test_flag".to_string(), "test_flag_2".to_string(), "other_flag".to_string(), "test".to_string()];
    let similar = find_similar_flag_names(&names, "test_flag_1");
    assert_eq!(similar, vec!["test_flag_2".to_string(), "test_flag".to_string()]);
}

#[test]
fn catalog_flag_names_are_sorted() {
    let unified = from_yaml("flags:\n  zeta:\n    default: false\n  alpha:\n    default: true\n");
    assert_eq!(catalog_flag_names(&unified), vec!["alpha".to_string(), "zeta".to_string()]);
}

#[test]
fn flag_test_output_format_from_str() {
    assert!(OutputFormat::from_str("table").is_ok());
    assert!(OutputFormat::from_str("json").is_ok());
    assert!(OutputFormat::from_str("yaml").is_ok());
    assert!(OutputFormat::from_str("TABLE").is_ok());
    assert!(OutputFormat::from_str("invalid").is_err());
}

#[test]
fn output_format_error_names_the_input() {
    let err = OutputFormat::from_str("xml").unwrap_err();
    assert_eq!(err.message(), "Invalid format: xml. Use table, json, or yaml");
    assert_eq!(OutputFormat::from_str("Yaml").unwrap(), OutputFormat::Yaml);
}

#[test]
fn test_validate_flag_type() {
    assert!(validate_flag_type("boolean").is_ok());
    assert!(validate_flag_type("multivariate").is_err());
    assert!(validate_flag_type("invalid").is_err());
}

#[test]
fn test_format_value() {
    assert_eq!(format_value(&JsonValue::Bool(true)), "true");
    assert_eq!(format_value(&JsonValue::Bool(false)), "false");
    assert_eq!(format_value(&JsonValue::String("test".to_string())), "test");
    assert_eq!(format_value(&JsonValue::Number(JsonNumber::PosInt(42))), "42");
}

#[test]
fn test_format_value_edge_cases() {
    assert_eq!(format_value(&JsonValue::Null), "null");
    assert_eq!(format_value(&JsonValue::Array(vec![])), "[]");
    assert_eq!(format_value(&JsonValue::Object(vec![])), "{}");
}

#[test]
fn format_value_prints_nested_json_compactly() {
    let v = from_yaml("b: [1, -2]\na: \"x\"\n");
    assert_eq!(format_value(&v), "{\"a\":\"x\",\"b\":[1,-2]}");
}

#[test]
fn environment_rule_count_counts_lists_only() {
    assert_eq!(environment_rule_count(&from_yaml("[1, 2, 3]")), 3);
    assert_eq!(environment_rule_count(&JsonValue::Null), 0);
}

#[test]
fn flag_not_found_error_lists_flags_and_suggestions() {
    let unified = from_yaml("flags:\n  new_dashboard:\n    default: false\n  other:\n    default: false\n");
    let text = flag_not_found_error(&unified, "new_dashbord").message();
    assert!(text.starts_with("Flag 'new_dashbord' not found."));
    assert!(text.contains("Available flags: new_dashboard, other"));
    assert!(text.contains("Did you mean: new_dashboard?"));
    assert!(text.ends_with("Tip: Use 'controlpath flag list' to see all flags"));
}

#[test]
fn flag_add_request_checks_name_type_and_default() {
    let unified = from_yaml("flags:\n  existing: {default: false}\n");
    assert_eq!(add_flag_request(&unified, Some("new_one"), None, None).unwrap(), ("new_one".to_string(), false));
    assert_eq!(add_flag_request(&unified, Some("new_one"), Some("boolean"), Some("ON")).unwrap(), ("new_one".to_string(), true));
    assert_eq!(add_flag_request(&unified, Some("new_one"), None, Some("OFF")).unwrap(), ("new_one".to_string(), false));
    assert_eq!(
        add_flag_request(&unified, None, None, None).unwrap_err().message(),
        "Flag name is required. Use --name <name> or run in interactive mode"
    );
    assert_eq!(add_flag_request(&unified, Some("existing"), None, None).unwrap_err().message(), "Flag 'existing' already exists");
    assert!(add_flag_request(&unified, Some("Bad"), None, None).unwrap_err().message().starts_with("Invalid flag name: 'Bad'"));
    assert_eq!(
        add_flag_request(&unified, Some("new_one"), Some("string"), None).unwrap_err().message(),
        "Invalid flag type: 'string'\n  v2 catalogs support boolean flags only."
    );
    assert_eq!(
        add_flag_request(&unified, Some("new_one"), None, Some("yes")).unwrap_err().message(),
        "Boolean flags require default true or false"
    );
}

#[test]
fn flag_defaults_accept_true_false_on_off() {
    assert_eq!(parse_flag_default("true"), Some(true));
    assert_eq!(parse_flag_default("ON"), Some(true));
    assert_eq!(parse_flag_default("false"), Some(false));
    assert_eq!(parse_flag_default("OFF"), Some(false));
    assert_eq!(parse_flag_default("on"), None);
    assert_eq!(parse_flag_default("True"), None);
}

#[test]
fn test_flag_add_multivariate() {
    let unified = from_yaml("flags:\n  placeholder_flag: {default: false}\n");
    assert!(add_flag_request(&unified, Some("multivar_flag"), Some("multivariate"), Some("variant_a")).is_err());
}
