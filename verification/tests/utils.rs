use controlpath_cli::json::{JsonNumber, JsonValue};
use controlpath_cli::utils::config::{empty_config, environment_defaults, with_default_env, with_language};
use controlpath_cli::utils::environment::resolve_environment_from_branch;
use controlpath_cli::utils::kill_switch::{
    check_kill_switch_flag, clear_kill_switch_value, empty_kill_switch_file, kill_switch_path, list_kill_switches,
    normalize_kill_switch_file, parse_bool_value, require_kill_switch_env, resolve_kill_switch_env,
    set_kill_switch_value,
};
use controlpath_cli::utils::language::{detect_language, determine_language, LanguageProbes};
use controlpath_cli::utils::runtime::{
    current, init_runtime_options, is_json_output, require_interactive, verbose_level, RuntimeOptions,
};
use controlpath_cli::utils::unified_config::{
    can_add_flag, can_deprecate, can_take_rules,
    add_environment, add_flag, deprecate_flag, enable_flag_in_environment, flag_exists, get_environments,
    get_sdk_output_path, get_unified_config_path, is_flag_deprecated, is_saas_mode, remove_environment, remove_flag,
};

fn yaml(text: &str) -> JsonValue {
    let v: serde_json::Value = serde_yaml::from_str(text).unwrap();
    to_value(&v)
}

fn to_value(v: &serde_json::Value) -> JsonValue {
    match v {
        serde_json::Value::Null => JsonValue::Null,
        serde_json::Value::Bool(b) => JsonValue::Bool(*b),
        serde_json::Value::Number(n) => match (n.as_u64(), n.as_i64()) {
            (Some(u), _) => JsonValue::Number(JsonNumber::PosInt(u)),
            (None, Some(i)) => JsonValue::Number(JsonNumber::NegInt(i)),
            _ => {
                let f = n.as_f64().unwrap();
                JsonValue::Number(JsonNumber::Float { bits: f.to_bits(), text: n.to_string() })
            },
        },
        serde_json::Value::String(s) => JsonValue::String(s.clone()),
        serde_json::Value::Array(xs) => JsonValue::Array(xs.iter().map(to_value).collect()),
        serde_json::Value::Object(m) => {
            let mut entries: Vec<(String, JsonValue)> = m.iter().map(|(k, x)| (k.clone(), to_value(x))).collect();
            entries.sort_by(|a, b| a.0.cmp(&b.0));
            JsonValue::Object(entries)
        },
    }
}

fn get<'a>(v: &'a JsonValue, key: &str) -> Option<&'a JsonValue> {
    match v {
        JsonValue::Object(entries) => entries.iter().find(|(k, _)| k == key).map(|(_, x)| x),
        _ => None,
    }
}

fn v2_fixture() -> JsonValue {
    yaml("catalog:\n  id: test\nmode: local\nflags:\n  my_flag:\n    default: false\n    kind: release\nenvironments:\n  production:\n    rules:\n      my_flag:\n        - serve: true\n")
}

fn branch_map(pairs: &[(&str, &str)]) -> Option<Vec<(String, String)>> {
    Some(pairs.iter().map(|(b, e)| (b.to_string(), e.to_string())).collect())
}

#[test]
fn resolve_environment_from_branch_mapping_takes_precedence_over_default() {
    let branch_envs = branch_map(&[("staging", "staging"), ("main", "production")]);
    let default_env = Some("production".to_string());
    assert_eq!(resolve_environment_from_branch(Some("staging"), &branch_envs, &default_env), Some("staging".to_string()));
    assert_eq!(resolve_environment_from_branch(Some("main"), &branch_envs, &default_env), Some("production".to_string()));
}

#[test]
fn resolve_environment_from_branch_falls_back_to_default_env() {
    let branch_envs = branch_map(&[("main", "production")]);
    let default_env = Some("staging".to_string());
    assert_eq!(resolve_environment_from_branch(Some("feature-x"), &branch_envs, &default_env), Some("staging".to_string()));
    assert_eq!(resolve_environment_from_branch(None, &branch_envs, &default_env), Some("staging".to_string()));
}

#[test]
fn test_determine_environment_no_config() {
    let (branches, default_env) = environment_defaults(None);
    assert_eq!(resolve_environment_from_branch(Some("main"), &branches, &default_env), None);
}

#[test]
fn test_determine_environment_reads_config_from_disk() {
    let config = with_default_env(empty_config(), "staging");
    let (branches, default_env) = environment_defaults(Some(config));
    assert_eq!(resolve_environment_from_branch(Some("main"), &branches, &default_env), Some("staging".to_string()));
}

#[test]
fn test_write_config_default_env_preserves_language() {
    let config = with_default_env(with_language(empty_config(), "python"), "staging");
    assert_eq!(config.language.as_deref(), Some("python"));
    assert_eq!(config.default_env.as_deref(), Some("staging"));
    assert_eq!(config.default_env_alt.as_deref(), Some("staging"));
}

fn probes() -> LanguageProbes {
    LanguageProbes {
        config_language: None,
        package_json: false,
        requirements_txt: false,
        pyproject_toml: false,
        go_mod: false,
        cargo_toml: false,
    }
}

#[test]
fn test_detect_language_default() {
    assert_eq!(detect_language(&probes()), "typescript");
}

#[test]
fn test_detect_language_from_go_mod() {
    assert_eq!(detect_language(&LanguageProbes { go_mod: true, ..probes() }), "go");
    assert_eq!(detect_language(&LanguageProbes { cargo_toml: true, ..probes() }), "rust");
    assert_eq!(detect_language(&LanguageProbes { pyproject_toml: true, ..probes() }), "python");
    let configured = LanguageProbes { config_language: Some("java".to_string()), package_json: true, ..probes() };
    assert_eq!(detect_language(&configured), "java");
}

#[test]
fn test_determine_language_with_cli_flag() {
    assert_eq!(determine_language(Some("python".to_string()), &probes()), "python");
}

#[test]
fn test_determine_language_without_cli_flag() {
    assert_eq!(determine_language(None, &LanguageProbes { package_json: true, ..probes() }), "typescript");
}

#[test]
fn get_environments_from_v2_top_level() {
    assert_eq!(get_environments(&v2_fixture()), vec!["production".to_string()]);
}

#[test]
fn add_and_enable_flag_in_v2_config() {
    let mut unified = yaml("catalog:\n  id: test\nmode: local\nflags: {}\n");
    add_flag(&mut unified, "new_flag", false, "release", None, &["staging".to_string()]).unwrap();
    enable_flag_in_environment(&mut unified, "new_flag", "staging", None, true, false).unwrap();
    assert!(flag_exists(&unified, "new_flag"));
    let rules = get(&unified, "environments")
        .and_then(|e| get(e, "staging"))
        .and_then(|e| get(e, "rules"))
        .and_then(|r| get(r, "new_flag"))
        .unwrap();
    match rules {
        JsonValue::Array(items) => assert_eq!(items.len(), 2),
        other => panic!("rules are not a list: {other:?}"),
    }
}

#[test]
fn deprecated_flag_blocks_rule_changes_without_force() {
    let mut unified = v2_fixture();
    deprecate_flag(&mut unified, "my_flag").unwrap();
    assert!(is_flag_deprecated(&unified, "my_flag"));
    let err = enable_flag_in_environment(&mut unified, "my_flag", "production", None, true, false).unwrap_err();
    assert!(err.message().contains("deprecated"));
    assert!(enable_flag_in_environment(&mut unified, "my_flag", "production", None, true, true).is_ok());
}

#[test]
fn add_and_remove_environment() {
    let mut unified = v2_fixture();
    let before = yaml("catalog:\n  id: test\nmode: local\nflags:\n  my_flag:\n    default: false\n    kind: release\nenvironments:\n  production:\n    rules:\n      my_flag:\n        - serve: true\n");
    add_environment(&mut unified, "staging").unwrap();
    assert_eq!(get_environments(&unified), vec!["production".to_string(), "staging".to_string()]);
    assert!(add_environment(&mut unified, "staging").unwrap_err().message().contains("already exists"));
    remove_environment(&mut unified, "staging").unwrap();
    assert_eq!(unified, before);
    assert!(remove_environment(&mut unified, "qa").unwrap_err().message().contains("not found"));
}

#[test]
fn remove_flag_env_only_leaves_definition() {
    let mut unified = v2_fixture();
    remove_flag(&mut unified, "my_flag", Some("production")).unwrap();
    assert!(flag_exists(&unified, "my_flag"));
    remove_flag(&mut unified, "my_flag", None).unwrap();
    assert!(!flag_exists(&unified, "my_flag"));
    assert!(remove_flag(&mut unified, "my_flag", None).is_err());
}

#[test]
fn catalog_settings_are_read() {
    assert_eq!(get_unified_config_path(), "control-path.yaml");
    let u = yaml("mode: saas\nsdk:\n  output: custom/generated\n");
    assert!(is_saas_mode(&u));
    assert_eq!(get_sdk_output_path(&u).as_deref(), Some("custom/generated"));
    assert!(!is_saas_mode(&v2_fixture()));
}

#[test]
fn kill_switch_set_list_and_clear() {
    let mut file = empty_kill_switch_file();
    set_kill_switch_value(&mut file, "checkout", "OFF").unwrap();
    set_kill_switch_value(&mut file, "search", "yes").unwrap();
    let listed = list_kill_switches(&file);
    assert_eq!(get(&listed, "checkout"), Some(&JsonValue::Bool(false)));
    assert_eq!(get(&listed, "search"), Some(&JsonValue::Bool(true)));
    clear_kill_switch_value(&mut file, "checkout", "p").unwrap();
    assert_eq!(get(&list_kill_switches(&file), "checkout"), None);
    let err = clear_kill_switch_value(&mut file, "checkout", ".controlpath/production.kill-switches.json").unwrap_err();
    assert_eq!(err.message(), "Kill switch for flag 'checkout' not found in .controlpath/production.kill-switches.json");
    assert!(set_kill_switch_value(&mut file, "x", "maybe").is_err());
}

#[test]
fn kill_switch_file_is_normalized() {
    let normalized = normalize_kill_switch_file(&JsonValue::Null);
    assert_eq!(get(&normalized, "version"), Some(&JsonValue::String("2.0".to_string())));
    assert_eq!(get(&normalized, "flags"), Some(&JsonValue::Object(vec![])));
    assert_eq!(kill_switch_path("production"), ".controlpath/production.kill-switches.json");
}

#[test]
fn kill_switch_values_parse_in_any_case() {
    assert!(parse_bool_value("TRUE").unwrap());
    assert!(!parse_bool_value("Off").unwrap());
    assert_eq!(
        parse_bool_value("2").unwrap_err().message(),
        "Invalid boolean kill switch value: '2'. Use true/false or ON/OFF."
    );
}

#[test]
fn test_kill_switch_rejects_unknown_env() {
    let envs = vec!["production".to_string(), "staging".to_string()];
    let err = require_kill_switch_env(Some("qa"), &envs).unwrap_err();
    assert_eq!(err.message(), "Environment 'qa' not found in control-path.yaml. Available: production, staging");
    assert!(require_kill_switch_env(None, &envs).is_err());
}

#[test]
fn test_kill_switch_rejects_stale_default_env() {
    let envs = vec!["production".to_string()];
    let err = resolve_kill_switch_env(None, &envs, Some("old")).unwrap_err();
    assert!(err.message().starts_with("defaultEnv 'old' in .controlpath/config.yaml is not defined"));
    assert_eq!(resolve_kill_switch_env(None, &envs, None).unwrap(), "production");
    assert_eq!(resolve_kill_switch_env(None, &vec![], None).unwrap(), "production");
}

#[test]
fn test_kill_switch_set_rejects_non_kill_switch_flag() {
    let err = check_kill_switch_flag("checkout", Some("Release")).unwrap_err();
    assert!(err.message().contains("cannot be used as a kill switch"));
    assert!(check_kill_switch_flag("checkout", Some("KillSwitch")).is_ok());
    assert!(check_kill_switch_flag("checkout", None).unwrap_err().message().contains("not found"));
}

#[test]
fn runtime_options_install_once() {
    let mut slot: Option<RuntimeOptions> = None;
    assert!(!is_json_output(slot.as_ref()));
    let opts = RuntimeOptions { json_output: true, non_interactive: true, verbose: 2, quiet: false };
    init_runtime_options(&mut slot, opts).unwrap();
    assert!(init_runtime_options(&mut slot, RuntimeOptions { json_output: false, ..opts }).is_err());
    assert!(current(slot.as_ref()).json_output);
    assert_eq!(verbose_level(slot.as_ref()), 2);
    let err = require_interactive(slot.as_ref(), "prompt").unwrap_err();
    assert_eq!(err.message(), "Cannot prompt in non-interactive mode. Pass required flags or remove --non-interactive.");
}

#[test]
fn catalog_shape_checks_guard_edits() {
    let ok = yaml("flags:\n  a: {default: false}\nenvironments:\n  staging: {rules: {}}\n  empty: null\n");
    assert!(can_take_rules(&ok, "staging"));
    assert!(can_take_rules(&ok, "empty"));
    assert!(can_take_rules(&ok, "missing"));
    assert!(can_add_flag(&ok, &["staging".to_string(), "new".to_string()]));
    assert!(can_deprecate(&ok, "a"));
    assert!(can_deprecate(&ok, "missing"));
    let bad = yaml("flags:\n  a: true\nenvironments:\n  staging: [1]\n");
    assert!(!can_take_rules(&bad, "staging"));
    assert!(!can_add_flag(&bad, &["staging".to_string()]));
    assert!(can_add_flag(&bad, &[]));
    assert!(!can_deprecate(&bad, "a"));
    let scalar_flags = yaml("flags: 3\n");
    assert!(!can_add_flag(&scalar_flags, &[]));
}

#[test]
fn enabling_appends_after_existing_rules() {
    let mut unified = yaml("flags:\n  f: {default: false}\nenvironments:\n  prod:\n    rules:\n      f:\n        - serve: false\n");
    enable_flag_in_environment(&mut unified, "f", "prod", Some("user.tier == 'gold'"), true, false).unwrap();
    let rules = get(get(get(get(&unified, "environments").unwrap(), "prod").unwrap(), "rules").unwrap(), "f").unwrap();
    match rules {
        JsonValue::Array(items) => {
            assert_eq!(items.len(), 2);
            assert_eq!(get(&items[0], "serve"), Some(&JsonValue::Bool(false)));
            assert_eq!(get(&items[1], "serve"), Some(&JsonValue::Bool(true)));
            assert_eq!(get(&items[1], "when"), Some(&JsonValue::String("user.tier == 'gold'".to_string())));
        },
        other => panic!("expected a rule list, got {other:?}"),
    }
}
