use controlpath_cli::commands::ci::{saas_sync_lines, validate_deployment_envs};
use controlpath_cli::commands::init::{
    already_exists_error, directory_name, merge_scaffold_into_catalog, standalone_catalog_content,
    workspace_file_candidates, workspace_file_content,
};
use controlpath_cli::commands::kill_switch::{
    check_kill_switch_command, clear_message, kill_switch_list_lines, set_message, KillSwitchSubcommand,
};
use controlpath_cli::commands::overrides::{history_line, ignored_file_note, ignored_option_notes};
use controlpath_cli::commands::services::{
    brief_service_info, list_environments, service_status, status_lines, sync_status, OutputFormat,
};
use controlpath_cli::commands::workflow::{
    check_new_flag_name, check_new_flag_type, compile_failure, deploy_targets, enable_serve_value, enable_targets,
    parse_new_flag_default, sdk_failure, validate_flag_name,
};
use controlpath_cli::json::JsonValue;
use controlpath_cli::monorepo::service::Service;

fn obj(pairs: Vec<(&str, JsonValue)>) -> JsonValue {
    let mut entries: Vec<(String, JsonValue)> = pairs.into_iter().map(|(k, v)| (k.to_string(), v)).collect();
    entries.sort_by(|a, b| a.0.cmp(&b.0));
    JsonValue::Object(entries)
}

fn catalog_with(flag: &str, default: bool, envs: &[&str]) -> JsonValue {
    let flags = obj(vec![(flag, obj(vec![("default", JsonValue::Bool(default))]))]);
    let environments = JsonValue::Object(
        envs.iter().map(|e| (e.to_string(), obj(vec![("rules", JsonValue::Object(vec![]))]))).collect(),
    );
    obj(vec![("flags", flags), ("environments", environments)])
}

#[test]
fn new_flag_names_are_checked() {
    assert_eq!(validate_flag_name("").unwrap_err().message(), "Flag name cannot be empty");
    assert_eq!(
        validate_flag_name("Bad").unwrap_err().message(),
        "Flag name must be snake_case (lowercase letters, digits, and underscores only)"
    );
    assert_eq!(validate_flag_name("1abc").unwrap_err().message(), "Flag name must start with a lowercase letter");
    let catalog = catalog_with("existing", false, &["production"]);
    assert_eq!(check_new_flag_name(&catalog, "existing").unwrap_err().message(), "Flag 'existing' already exists");
    assert!(check_new_flag_name(&catalog, "fresh").is_ok());
}

#[test]
fn test_new_flag_multivariate() {
    assert_eq!(check_new_flag_type(Some("multivariate")).unwrap_err().message(), "v2 catalogs support boolean flags only");
    assert!(check_new_flag_type(None).is_ok());
    assert!(parse_new_flag_default(Some("True")));
    assert!(!parse_new_flag_default(Some("yes")));
}

#[test]
fn test_enable_flag_with_value() {
    let catalog = catalog_with("f", false, &["production", "staging"]);
    assert!(enable_serve_value(&catalog, "f", None).unwrap());
    assert!(!enable_serve_value(&catalog, "f", Some("false")).unwrap());
    assert_eq!(
        enable_targets(&catalog, Some("staging, production"), None).unwrap(),
        vec!["staging".to_string(), "production".to_string()]
    );
    assert_eq!(enable_targets(&catalog, None, Some("staging")).unwrap(), vec!["staging".to_string()]);
    assert_eq!(
        enable_targets(&catalog, None, Some("qa")).unwrap(),
        vec!["production".to_string(), "staging".to_string()]
    );
}

#[test]
fn test_deploy_no_environments() {
    let err = deploy_targets(None, None, vec![]).unwrap_err();
    assert!(err.message().starts_with("No environments found in control-path.yaml."));
    assert_eq!(deploy_targets(Some("a,b"), None, vec![]).unwrap(), vec!["a".to_string(), "b".to_string()]);
}

#[test]
fn failures_are_warnings_in_best_effort_mode() {
    let envs = vec!["production".to_string(), "staging".to_string()];
    let w = compile_failure(true, "enabling", "f", &envs, "boom").unwrap();
    assert_eq!(w[1], "  You can compile manually with: controlpath compile --env production,staging");
    let e = compile_failure(false, "enabling", "f", &envs, "boom").unwrap_err();
    assert_eq!(e.message(), "Failed to compile ASTs after enabling flag 'f': boom");
    assert_eq!(sdk_failure(false, "f", "x").unwrap_err().message(), "SDK regeneration failed after adding flag 'f': x");
}

#[test]
fn test_ci_respects_env_filter() {
    let all = vec!["production".to_string(), "staging".to_string()];
    assert_eq!(validate_deployment_envs(Some(&vec!["staging".to_string()]), &all).unwrap(), 1);
    assert_eq!(validate_deployment_envs(None, &all).unwrap(), 2);
    let err = validate_deployment_envs(Some(&vec!["qa".to_string(), "dev".to_string()]), &all).unwrap_err();
    assert_eq!(err.message(), "Unknown environment(s): qa, dev");
    assert!(validate_deployment_envs(None, &vec![]).is_err());
}

#[test]
fn ci_sync_report_lines() {
    assert_eq!(saas_sync_lines(0, 0, &vec![]), vec!["  ✓ Catalog is in sync".to_string()]);
    let lines = saas_sync_lines(2, 1, &vec!["production".to_string()]);
    assert_eq!(lines, vec![
        "  ✓ Synced 2 flag(s)".to_string(),
        "  ✓ Retired 1 flag(s)".to_string(),
        "  ✓ Downloaded 1 remote AST artifact(s): production".to_string(),
    ]);
}

#[test]
fn init_candidates_walk_up_to_root() {
    assert_eq!(workspace_file_candidates("/a/b"), vec![
        "/a/b/control-path.workspace.yaml".to_string(),
        "/a/control-path.workspace.yaml".to_string(),
        "/control-path.workspace.yaml".to_string(),
    ]);
}

#[test]
fn init_file_contents() {
    assert!(workspace_file_content(Some("acme")).starts_with("namespace: acme\n"));
    assert_eq!(
        standalone_catalog_content(None, "acme"),
        "catalog:\n  id: example-service\n  namespace: acme\nmode: local\nflags: {}\n"
    );
    assert_eq!(already_exists_error("control-path.yaml", "/x").message(), "control-path.yaml already exists at /x");
    assert_eq!(directory_name("/work/my-svc"), "my-svc");
}

#[test]
fn scaffold_defaults_do_not_replace_existing_flags() {
    let mut catalog = obj(vec![
        ("flags", obj(vec![("a", JsonValue::Bool(true))])),
        ("mode", JsonValue::String("local".to_string())),
    ]);
    let scaffold = obj(vec![
        ("defaults", obj(vec![("a", JsonValue::Bool(false)), ("b", JsonValue::Bool(false))])),
        ("mode", JsonValue::String("saas".to_string())),
    ]);
    merge_scaffold_into_catalog(&mut catalog, &scaffold);
    let expected = obj(vec![
        ("flags", obj(vec![("a", JsonValue::Bool(true)), ("b", JsonValue::Bool(false))])),
        ("mode", JsonValue::String("saas".to_string())),
    ]);
    assert_eq!(catalog, expected);
}

#[test]
fn test_kill_switch_set_rejects_saas_mode() {
    let set = KillSwitchSubcommand::SetSwitch { flag: "f".to_string(), value: "on".to_string(), env: "production".to_string() };
    let err = check_kill_switch_command(true, true, &set).unwrap_err();
    assert!(err.message().starts_with("Kill switch set/clear are local-mode only."));
    assert!(check_kill_switch_command(true, false, &set).is_ok());
    assert!(check_kill_switch_command(false, false, &set).is_err());
}

#[test]
fn kill_switch_command_messages() {
    assert_eq!(kill_switch_list_lines("production", &JsonValue::Object(vec![])), vec!["No kill switches set for production.".to_string()]);
    let lines = kill_switch_list_lines("production", &obj(vec![("f", JsonValue::Bool(false))]));
    assert_eq!(lines.len(), 2);
    assert_eq!(lines[1], "  f: false");
    assert_eq!(set_message("f", "p", "e"), "✓ Set kill switch for 'f' in p (environment: e)");
    assert_eq!(clear_message("f", "p"), "✓ Cleared kill switch for 'f' in p");
}

#[test]
fn override_notes() {
    assert_eq!(ignored_option_notes(false, false, false).len(), 0);
    assert_eq!(ignored_option_notes(true, true, true).len(), 3);
    assert!(ignored_file_note("x.json", "y.json").contains("--file x.json is ignored"));
    let flags = obj(vec![("f", JsonValue::Bool(true))]);
    assert_eq!(history_line(&flags, "f", "p").unwrap(), "f: true");
    assert!(history_line(&flags, "g", "p").is_err());
}

#[test]
fn services_test_output_format_from_str() {
    assert!(OutputFormat::from_str("table").is_some());
    assert!(OutputFormat::from_str("json").is_some());
    assert!(OutputFormat::from_str("TABLE").is_some());
    assert!(OutputFormat::from_str("invalid").is_none());
}

#[test]
fn services_environments_and_sync() {
    let names = vec![
        "staging.deployment.yaml".to_string(),
        "config.yaml".to_string(),
        "production.deployment.yaml".to_string(),
    ];
    assert_eq!(list_environments(&names), vec!["production".to_string(), "staging".to_string()]);
    let s = sync_status(&vec!["a".to_string(), "b".to_string()], &vec!["b".to_string(), "c".to_string()]);
    assert!(!s.in_sync);
    assert_eq!(s.missing_in_deployments, Some(vec!["a".to_string()]));
    assert_eq!(s.extra_in_deployments, Some(vec!["c".to_string()]));
    let same = sync_status(&vec!["a".to_string()], &vec!["a".to_string()]);
    assert!(same.in_sync && same.missing_in_deployments.is_none());
}

#[test]
fn services_status_lines() {
    let service = Service::from_path("/w/services/api", "/w");
    let info = brief_service_info(&service);
    assert_eq!(info.relative_path, "services/api");
    let st = service_status(&service, true, false, 3, vec!["production".to_string()], false, None, true);
    assert_eq!(st.flag_count, Some(3));
    assert!(st.sync_status.is_none());
    let lines = status_lines(&st);
    assert!(lines.iter().any(|l| l.contains("api")));
}
