use controlpath_cli::commands::env::{
    env_table_lines, required_env_name, sync_line, sync_targets, validate_environment_name, OutputFormat,
};

#[test]
fn test_validate_environment_name() {
    assert!(validate_environment_name("production").is_ok());
    assert!(validate_environment_name("staging").is_ok());
    assert!(validate_environment_name("dev_env").is_ok());
    assert!(validate_environment_name("test-env").is_ok());
    assert!(validate_environment_name("").is_err());
    assert!(validate_environment_name("Production").is_err());
    assert!(validate_environment_name("env name").is_err());
}

#[test]
fn empty_environment_name_has_its_own_message() {
    let err = validate_environment_name("").unwrap_err();
    assert!(err.message().starts_with("Environment name cannot be empty."));
    let err = validate_environment_name("a b").unwrap_err();
    assert!(err.message().starts_with("Invalid environment name: 'a b'"));
}

#[test]
fn env_output_format_from_str() {
    assert_eq!(OutputFormat::from_str("JSON").unwrap(), OutputFormat::Json);
    assert!(OutputFormat::from_str("csv").is_err());
}

#[test]
fn env_name_is_required_without_interaction() {
    assert_eq!(required_env_name(&Some("qa".to_string())).unwrap(), "qa");
    assert!(required_env_name(&None).unwrap_err().message().contains("Environment name is required"));
}

#[test]
fn sync_targets_single_or_all() {
    let all = vec!["production".to_string(), "staging".to_string()];
    assert_eq!(sync_targets(&Some("staging".to_string()), all.clone()).unwrap(), vec!["staging".to_string()]);
    assert_eq!(sync_targets(&None, all.clone()).unwrap(), all);
    let err = sync_targets(&None, vec![]).unwrap_err();
    assert_eq!(err.message(), "No environments found in control-path.yaml.");
}

#[test]
fn sync_line_and_table() {
    assert_eq!(sync_line("staging", true), "staging is up to date");
    assert_eq!(sync_line("staging", false), "✓ Synced staging");
    let lines = env_table_lines(&vec!["production".to_string()]);
    assert_eq!(lines, vec!["Environments:".to_string(), "  production".to_string()]);
    assert_eq!(env_table_lines(&vec![]), vec!["No environments found.".to_string()]);
}
