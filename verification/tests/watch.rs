use controlpath_cli::commands::watch::{
    catalog_not_found_error, compiled_summary, determine_catalog_path, determine_output_path_for_sdk,
    watch_actions, watch_language, Options,
};
use std::path::PathBuf;

#[test]
fn test_watch_actions_defaults() {
    let options = Options { lang: None, definitions: false, deployments: false };
    assert_eq!(watch_actions(&options), (true, true));
}

#[test]
fn test_watch_actions_deployments_only() {
    let options = Options { lang: None, definitions: false, deployments: true };
    assert_eq!(watch_actions(&options), (false, true));
}

#[test]
fn watch_actions_definitions_only() {
    let options = Options { lang: None, definitions: true, deployments: false };
    assert_eq!(watch_actions(&options), (true, false));
}

#[test]
fn test_determine_catalog_path() {
    assert_eq!(PathBuf::from(determine_catalog_path()), PathBuf::from("control-path.yaml"));
}

#[test]
fn test_determine_output_path_for_sdk() {
    let path = determine_output_path_for_sdk(None);
    assert_eq!(PathBuf::from(path), PathBuf::from("node_modules/@controlpath/generated"));
    assert_eq!(determine_output_path_for_sdk(Some("custom/sdk".to_string())), "custom/sdk");
}

#[test]
fn test_run_inner_catalog_not_found() {
    let err = catalog_not_found_error("control-path.yaml");
    assert!(err.message().contains("Catalog file not found"));
}

#[test]
fn watch_language_is_lowercased() {
    assert_eq!(watch_language(Some("Python")), "python");
    assert_eq!(watch_language(None), "typescript");
}

#[test]
fn compiled_summary_names_environments() {
    let s = compiled_summary(&vec!["production".to_string(), "staging".to_string()]);
    assert_eq!(s, "✓ Compiled 2 environment(s): production, staging");
}
