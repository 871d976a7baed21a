use controlpath_cli::commands::debug::{Artifact, Rule, ServePayload};
use controlpath_cli::commands::explain::{
    catalog_metadata_warning, catalog_rules_location, determine_ast_path, env_ast_warnings, human_lines,
    is_compiled_catalog_default, kill_switch_outcome, kill_switch_value, payload_to_bool, requested_environment,
    rules_outcome, CatalogRule, MatchedLayer, Options, RolloutRule,
};
use controlpath_cli::json::{JsonNumber, JsonValue};

fn explain_options(env: Option<&str>, ast: Option<&str>) -> Options {
    Options {
        flag: "f".to_string(),
        user: None,
        context: None,
        env: env.map(|e| e.to_string()),
        trace: false,
        ast: ast.map(|a| a.to_string()),
    }
}

fn two_rule_artifact() -> Artifact {
    Artifact {
        version: "1.0".to_string(),
        environment: "production".to_string(),
        string_table: vec!["ON".to_string(), "OFF".to_string()],
        flags: vec![vec![
            Rule::ServeWithoutWhen(ServePayload::Number(0)),
            Rule::ServeWithoutWhen(ServePayload::Number(1)),
        ]],
        flag_names: vec![0],
        signature: None,
    }
}

#[test]
fn determine_ast_path_prefers_explicit_ast() {
    let options = explain_options(None, Some("custom.ast"));
    assert_eq!(determine_ast_path(&options, "production", true, vec![]).unwrap(), "custom.ast");
}

#[test]
fn determine_ast_path_falls_back_to_single_artifact() {
    let options = explain_options(None, None);
    assert_eq!(
        determine_ast_path(&options, "production", true, vec![]).unwrap(),
        ".controlpath/production.ast"
    );
    assert_eq!(
        determine_ast_path(&options, "production", false, vec![".controlpath/staging.ast".to_string()]).unwrap(),
        ".controlpath/staging.ast"
    );
    let err = determine_ast_path(&options, "production", false, vec!["a".to_string(), "b".to_string()]).unwrap_err();
    assert!(err.message().contains("multiple .ast files"));
}

#[test]
fn kill_switch_value_reads_boolean_map() {
    let flags = JsonValue::Object(vec![("my_flag".to_string(), JsonValue::Bool(true))]);
    let file = JsonValue::Object(vec![
        ("flags".to_string(), flags),
        ("version".to_string(), JsonValue::String("2.0".to_string())),
    ]);
    assert_eq!(kill_switch_value(&file, "my_flag"), Some(true));
    assert_eq!(kill_switch_value(&file, "other"), None);
}

#[test]
fn payload_to_bool_maps_on_off() {
    assert_eq!(payload_to_bool(&Some(JsonValue::String("ON".to_string()))), Some(true));
    assert_eq!(payload_to_bool(&Some(JsonValue::String("OFF".to_string()))), Some(false));
}

#[test]
fn payload_to_bool_reads_booleans_and_numbers() {
    assert_eq!(payload_to_bool(&Some(JsonValue::Bool(false))), Some(false));
    assert_eq!(payload_to_bool(&Some(JsonValue::String("true".to_string()))), Some(true));
    assert_eq!(payload_to_bool(&Some(JsonValue::Number(JsonNumber::PosInt(2)))), Some(true));
    assert_eq!(payload_to_bool(&Some(JsonValue::Number(JsonNumber::PosInt(0)))), Some(false));
    assert_eq!(payload_to_bool(&Some(JsonValue::String("maybe".to_string()))), None);
    assert_eq!(payload_to_bool(&None), None);
}

#[test]
fn compiled_catalog_default_is_trailing_ast_rule() {
    let artifact = two_rule_artifact();
    assert!(!is_compiled_catalog_default(&artifact, 0, 0));
    assert!(is_compiled_catalog_default(&artifact, 0, 1));
}

#[test]
fn catalog_rules_for_imported_flag() {
    let (namespace, key) = catalog_rules_location("platform.emergency_kill_switch");
    assert_eq!(namespace.as_deref(), Some("platform"));
    assert_eq!(key, "emergency_kill_switch");
    let (namespace, key) = catalog_rules_location("local_flag");
    assert_eq!(namespace, None);
    assert_eq!(key, "local_flag");
}

#[test]
fn catalog_metadata_warning_when_rules_out_of_sync() {
    let rules = vec![CatalogRule { when: None, serve: Some(true), rollout: None, reason: None }];
    let msg = catalog_metadata_warning(&rules, 1, false, false, "production").unwrap();
    assert!(msg.contains("AST rule 2"));
    assert!(msg.contains("1 rule"));
}

#[test]
fn catalog_metadata_warning_skipped_for_saas_without_local_rules() {
    assert!(catalog_metadata_warning(&vec![], 0, false, true, "production").is_none());
}

#[test]
fn env_ast_warnings_when_env_and_ast_stem_differ() {
    let artifact = Artifact {
        version: "1.0".to_string(),
        environment: "production".to_string(),
        string_table: vec![],
        flags: vec![vec![]],
        flag_names: vec![0],
        signature: None,
    };
    let options = explain_options(Some("staging"), Some(".controlpath/production.ast"));
    let warnings = env_ast_warnings(&options, "staging", &artifact);
    assert_eq!(warnings.len(), 2);
    assert!(warnings[0].contains("--env 'staging'"));
    assert!(warnings[1].contains("artifact env is 'production'"));
}

#[test]
fn requested_environment_uses_env_then_ast_stem() {
    assert_eq!(requested_environment(&explain_options(Some("dev"), Some("x/prod.ast"))), Some("dev".to_string()));
    assert_eq!(requested_environment(&explain_options(None, Some("x/prod.ast"))), Some("prod".to_string()));
    assert_eq!(requested_environment(&explain_options(None, None)), None);
}

#[test]
fn rules_outcome_marks_catalog_default_and_rollouts() {
    let artifact = two_rule_artifact();
    let rules = vec![CatalogRule {
        when: Some("user.role == 'admin'".to_string()),
        serve: None,
        rollout: Some(RolloutRule { percentage: 25, serve: true }),
        reason: Some("beta".to_string()),
    }];
    let on = Some(JsonValue::String("ON".to_string()));
    let o = rules_outcome("f", "production".to_string(), Some(0), &on, false, &artifact, 0, &rules, false,
        "production", false, false, false, Some(7), vec![]).unwrap();
    assert_eq!(o.layer, MatchedLayer::EnvironmentRule);
    assert!(o.value);
    assert_eq!(o.rollout_bucket, Some(7));
    assert!(o.missing_user_id);
    let lines = human_lines("f", &o);
    assert!(lines.iter().any(|l| l == "  Rule: 1 (1-based in environment)"));
    assert!(lines.iter().any(|l| l == "  Rollout: 25% → serve true"));
    assert!(lines.iter().any(|l| l == "  Reason: beta"));

    let off = Some(JsonValue::String("OFF".to_string()));
    let d = rules_outcome("f", "production".to_string(), Some(1), &off, true, &artifact, 0, &rules, false,
        "production", false, false, true, None, vec![]).unwrap();
    assert_eq!(d.layer, MatchedLayer::CatalogDefault);
    assert!(!d.value);
    assert!(d.catalog_rule.is_none());

    let err = rules_outcome("f", "production".to_string(), None, &off, true, &artifact, 0, &rules, false,
        "production", false, false, true, None, vec![]).unwrap_err();
    assert!(err.message().contains("No rules matched for flag 'f'"));
}

#[test]
fn kill_switch_outcome_prints_its_layer() {
    let o = kill_switch_outcome("staging".to_string(), false, false, true, vec!["careful".to_string()]);
    let lines = human_lines("checkout", &o);
    assert_eq!(lines[0], "Flag: checkout");
    assert_eq!(lines[1], "Environment: staging");
    assert!(lines.iter().any(|l| l == "Warning: flag lifecycle is deprecated"));
    assert!(lines.iter().any(|l| l == "Warning: careful"));
    assert!(lines.iter().any(|l| l == "  Value: false"));
    assert_eq!(lines.last().map(|s| s.as_str()), Some(""));
}
