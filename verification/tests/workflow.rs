use controlpath_cli::commands::workflow::{
    add_new_flag, check_new_flag_name, check_new_flag_type, deploy_targets, enable_in_environments,
    enable_serve_value, enable_targets, parse_new_flag_default,
};
use controlpath_cli::json::{JsonNumber, JsonValue};
use controlpath_cli::utils::unified_config::{flag_exists, get_environments, remove_environment};

fn to_value(v: &serde_json::Value) -> JsonValue {
    match v {
        serde_json::Value::Null => JsonValue::Null,
        serde_json::Value::Bool(b) => JsonValue::Bool(*b),
        serde_json::Value::Number(n) => match (n.as_u64(), n.as_i64()) {
            (Some(u), _) => JsonValue::Number(JsonNumber::PosInt(u)),
            (None, Some(i)) => JsonValue::Number(JsonNumber::NegInt(i)),
            _ => {
                let f = n.as_f64().unwrap();
                JsonValue::Number(JsonNumber::Float { bits: f.to_bits(), text: n.to_string() })
            },
        },
        serde_json::Value::String(s) => JsonValue::String(s.clone()),
        serde_json::Value::Array(xs) => JsonValue::Array(xs.iter().map(to_value).collect()),
        serde_json::Value::Object(m) => {
            let mut entries: Vec<(String, JsonValue)> = m.iter().map(|(k, x)| (k.clone(), to_value(x))).collect();
            entries.sort_by(|a, b| a.0.cmp(&b.0));
            JsonValue::Object(entries)
        },
    }
}

fn get<'a>(v: &'a JsonValue, key: &str) -> Option<&'a JsonValue> {
    match v {
        JsonValue::Object(entries) => entries.iter().find(|(k, _)| k == key).map(|(_, x)| x),
        _ => None,
    }
}

const PROJECT: &str = r#"catalog:
  id: test-service
mode: local
flags:
  existing_flag:
    default: false
    kind: release
    description: An existing flag
environments:
  production:
    rules:
      existing_flag:
        - serve: false
"#;

fn project() -> JsonValue {
    to_value(&serde_yaml::from_str::<serde_json::Value>(PROJECT).unwrap())
}

/// What `new-flag` does to the catalog, without enabling anything.
fn new_flag(unified: &mut JsonValue, name: &str, flag_type: Option<&str>, default: Option<&str>, description: Option<&str>) -> Result<String, String> {
    check_new_flag_name(unified, name).map_err(|e| e.message())?;
    check_new_flag_type(flag_type).map_err(|e| e.message())?;
    add_new_flag(unified, name, parse_new_flag_default(default), description).map_err(|e| e.message())?;
    Ok(name.to_string())
}

fn rules<'a>(unified: &'a JsonValue, env: &str, flag: &str) -> Option<&'a Vec<JsonValue>> {
    match get(get(get(get(unified, "environments")?, env)?, "rules")?, flag)? {
        JsonValue::Array(items) => Some(items),
        _ => None,
    }
}

#[test]
fn test_new_flag_basic() {
    let mut unified = project();
    let result = new_flag(&mut unified, "test_flag", Some("boolean"), Some("false"), Some("Test flag"));
    assert_eq!(result.unwrap(), "test_flag");
    assert!(flag_exists(&unified, "test_flag"));
}

#[test]
fn test_enable_flag() {
    let mut unified = project();
    new_flag(&mut unified, "test_flag", Some("boolean"), Some("false"), None).unwrap();
    let envs = enable_targets(&unified, Some("production"), None).unwrap();
    let serve = enable_serve_value(&unified, "test_flag", None).unwrap();
    assert!(enable_in_environments(&mut unified, "test_flag", &envs, None, serve, false).is_ok());
    let env_rules = rules(&unified, "production", "test_flag").expect("production rules for test_flag");
    assert_eq!(get(&env_rules[0], "serve"), Some(&JsonValue::Bool(true)));
}

#[test]
fn test_deploy() {
    let unified = project();
    let envs = deploy_targets(Some("production"), None, get_environments(&unified)).unwrap();
    assert_eq!(envs, vec!["production"]);
}

#[test]
fn test_enable_with_rule_expression() {
    let mut unified = project();
    new_flag(&mut unified, "test_flag", Some("boolean"), Some("false"), None).unwrap();
    let envs = enable_targets(&unified, Some("production"), None).unwrap();
    let serve = enable_serve_value(&unified, "test_flag", None).unwrap();
    assert!(enable_in_environments(&mut unified, "test_flag", &envs, Some("user.role == 'admin'"), serve, false).is_ok());
    let env_rules = rules(&unified, "production", "test_flag").expect("production rules for test_flag");
    let rule = env_rules.last().expect("at least one rule");
    assert!(get(rule, "when").is_some(), "Rule should have 'when' field");
    assert_eq!(get(rule, "when"), Some(&JsonValue::String("user.role == 'admin'".to_string())));
    assert!(get(rule, "if").is_none(), "Rule should not have 'if' field");
}

#[test]
fn test_new_flag_enable_in_nonexistent_env() {
    let mut unified = project();
    new_flag(&mut unified, "test_flag", Some("boolean"), Some("false"), None).unwrap();
    let envs = vec!["nonexistent".to_string()];
    assert!(enable_in_environments(&mut unified, "test_flag", &envs, None, true, false).is_ok());
    assert!(rules(&unified, "nonexistent", "test_flag").is_some(), "Environment 'nonexistent' should have been created");
}

#[test]
fn test_new_flag_with_enable_in() {
    let mut unified = project();
    let result = new_flag(&mut unified, "new_flag", Some("boolean"), Some("true"), None);
    assert!(result.is_ok());
    let envs = vec!["production".to_string()];
    assert!(enable_in_environments(&mut unified, "new_flag", &envs, None, false, false).is_ok());
}

#[test]
fn test_enable_flag_with_all_flag() {
    let mut unified = project();
    let envs = enable_targets(&unified, None, None).unwrap();
    let serve = enable_serve_value(&unified, "existing_flag", None).unwrap();
    let updated_envs = enable_in_environments(&mut unified, "existing_flag", &envs, None, serve, false).unwrap();
    assert!(!updated_envs.is_empty());
}

#[test]
fn test_deploy_dry_run() {
    let unified = project();
    assert!(deploy_targets(None, None, get_environments(&unified)).is_ok());
}

#[test]
fn test_deploy_specific_env() {
    let unified = project();
    let envs = deploy_targets(Some("production"), None, get_environments(&unified)).unwrap();
    assert_eq!(envs.len(), 1);
    assert_eq!(envs[0], "production");
}

#[test]
fn test_env_remove_nonexistent() {
    let mut unified = project();
    let result = remove_environment(&mut unified, "nonexistent");
    assert!(result.is_err());
    assert!(result.unwrap_err().message().contains("not found"));
}
