use controlpath_cli::commands::flag_listing::{
    catalog_environments_for_output, environment_flag_info, environment_flag_table, environment_rule_lines,
    flag_list_table, flag_show_document, flag_show_table,
};
use controlpath_cli::json::{json_to_string, JsonNumber, JsonValue};

fn yaml(text: &str) -> JsonValue {
    let v: serde_json::Value = serde_yaml::from_str(text).unwrap();
    convert(&v)
}

fn convert(v: &serde_json::Value) -> JsonValue {
    match v {
        serde_json::Value::Null => JsonValue::Null,
        serde_json::Value::Bool(b) => JsonValue::Bool(*b),
        serde_json::Value::Number(n) => match n.as_u64() {
            Some(u) => JsonValue::Number(JsonNumber::PosInt(u)),
            None => JsonValue::Number(JsonNumber::NegInt(n.as_i64().unwrap())),
        },
        serde_json::Value::String(s) => JsonValue::String(s.clone()),
        serde_json::Value::Array(xs) => JsonValue::Array(xs.iter().map(convert).collect()),
        serde_json::Value::Object(m) => {
            let mut entries: Vec<(String, JsonValue)> = m.iter().map(|(k, x)| (k.clone(), convert(x))).collect();
            entries.sort_by(|a, b| a.0.cmp(&b.0));
            JsonValue::Object(entries)
        },
    }
}

const CATALOG: &str = "flags:\n  beta:\n    default: false\n    description: Beta UI\n    kind: release\n  alpha:\n    default: true\nenvironments:\n  production:\n    rules:\n      beta:\n        - serve: true\n      alpha: []\n  staging:\n    rules:\n      beta:\n        - serve: true\n        - serve: false\n";

#[test]
fn test_flag_list_command() {
    let lines = flag_list_table(&yaml(CATALOG)).unwrap();
    assert_eq!(lines[0], "Flags:");
    assert_eq!(lines[1], "-".repeat(80));
    assert_eq!(lines[2], format!("{:<30} {:<15} {:<20} Description", "Name", "Type", "Default"));
    assert_eq!(lines[4], format!("{:<30} {:<15} {:<20} {}", "alpha", "boolean", "true", ""));
    assert_eq!(lines[5], format!("{:<30} {:<15} {:<20} {}", "beta", "boolean", "false", "Beta UI"));
    assert_eq!(lines.len(), 6);
    assert!(flag_list_table(&yaml("flags: []\n")).is_err());
}

#[test]
fn test_flag_list_from_deployment() {
    let u = yaml(CATALOG);
    let infos = environment_flag_info(&u, "production").unwrap();
    assert_eq!(infos.len(), 2);
    assert_eq!(
        json_to_string(&infos[1]),
        "{\"default\":false,\"description\":\"Beta UI\",\"name\":\"beta\",\"status\":\"configured\",\"type\":\"boolean\"}"
    );
    assert_eq!(json_to_string(&infos[0]), "{\"default\":true,\"name\":\"alpha\",\"status\":\"not configured\",\"type\":\"boolean\"}");
    let err = environment_flag_info(&u, "qa").unwrap_err();
    assert_eq!(err.message(), "Environment 'qa' not found in control-path.yaml");
    let table = environment_flag_table(&u, "staging").unwrap();
    assert_eq!(table[0], "Flags in environment 'staging':");
    assert_eq!(table[4], format!("{:<30} {:<15} {:<20} {:<15}", "beta", "boolean", "false", "configured"));
}

#[test]
fn test_flag_show_json_format() {
    let u = yaml(CATALOG);
    let doc = flag_show_document(&u, "beta", None).unwrap();
    let text = json_to_string(&doc);
    assert!(text.starts_with("{\"environments\":{\"production\":[{\"serve\":true}],\"staging\":"));
    assert!(text.contains("\"flag\":{\"default\":false,\"description\":\"Beta UI\",\"kind\":\"release\",\"name\":\"beta\"}"));
    let only = catalog_environments_for_output(&u, "beta", Some("staging"));
    assert_eq!(json_to_string(&only), "{\"staging\":[{\"serve\":true},{\"serve\":false}]}");
}

#[test]
fn test_flag_show_command() {
    let u = yaml(CATALOG);
    let lines = flag_show_table(&u, "beta", None).unwrap();
    assert_eq!(lines[0], "Flag: beta");
    assert_eq!(lines[2], "Type: boolean");
    assert_eq!(lines[3], "Default: false");
    assert_eq!(lines[4], "Kind: release");
    assert_eq!(lines[5], "Description: Beta UI");
    assert_eq!(lines[6], "\nEnvironment rules:");
    assert_eq!(lines[7], "  production: 1 rule(s)");
    assert_eq!(lines[8], "  staging: 2 rule(s)");
}

#[test]
fn test_flag_show_with_deployment_env() {
    let u = yaml(CATALOG);
    assert_eq!(
        environment_rule_lines(&u, "alpha", Some("staging")),
        vec!["\nEnvironment (staging): Not configured".to_string()]
    );
    assert_eq!(
        environment_rule_lines(&u, "beta", Some("staging")),
        vec!["\nEnvironment (staging):".to_string(), "  Rules: 2".to_string()]
    );
}

#[test]
fn test_flag_show_nonexistent_flag() {
    let err = flag_show_table(&yaml(CATALOG), "gamma", None).unwrap_err();
    assert!(err.message().starts_with("Flag 'gamma' not found."));
    assert!(flag_show_document(&yaml(CATALOG), "gamma", None).is_err());
}
