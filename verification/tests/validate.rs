use controlpath_cli::commands::dev::{env_info, validate_core_files};
use controlpath_cli::commands::validate::{
    check_environment_exists, collect_files_from_options, dedupe_warnings, files_to_validate,
    validation_passed_line, FileToValidate, Options, ValidationWarning,
};

#[test]
fn test_collect_files_from_options() {
    let options = Options { env: None, all: false };
    assert_eq!(collect_files_from_options(&options).len(), 0);
}

#[test]
fn test_collect_files_with_env() {
    let options = Options { env: Some("production".to_string()), all: false };
    let files = collect_files_from_options(&options);
    assert_eq!(files.len(), 1);
    match &files[0] {
        FileToValidate::Environment(env) => assert_eq!(env, "production"),
        _ => panic!("Expected environment"),
    }
}

#[test]
fn files_to_validate_falls_back_to_catalog() {
    let files = files_to_validate(&Options { env: None, all: false });
    assert_eq!(files.len(), 1);
    assert!(matches!(files[0], FileToValidate::UnifiedConfig));
}

#[test]
fn unknown_environment_is_refused() {
    let envs = vec!["production".to_string()];
    assert!(check_environment_exists("production", &envs).is_ok());
    let err = check_environment_exists("qa", &envs).unwrap_err();
    assert_eq!(err.message(), "Environment 'qa' not found in control-path.yaml");
}

#[test]
fn duplicate_warnings_are_dropped() {
    let w = |m: &str| ValidationWarning { file: "f".to_string(), message: m.to_string(), path: "p".to_string() };
    let out = dedupe_warnings(vec![w("a"), w("b"), w("a")]);
    assert_eq!(out.len(), 2);
    assert_eq!(out[0].message, "a");
    assert_eq!(out[1].message, "b");
}

#[test]
fn passed_line_counts_files() {
    assert_eq!(validation_passed_line(2), "✓ Validation passed (2 files)");
    assert_eq!(validation_passed_line(1), "✓ Validation passed (1 file)");
}

#[test]
fn test_validate_core_files_missing_config() {
    let err = validate_core_files(false, &vec![], false).unwrap_err();
    assert!(err.message().contains("control-path.yaml"));
}

#[test]
fn dev_env_info_names_environment() {
    assert_eq!(env_info(Some("staging")), " (env: staging)");
    assert_eq!(env_info(None), "");
}
