use controlpath_cli::commands::setup::{
    check_existing_project, example_usage_file, get_file_extension, initial_envs, runtime_install_plan,
    unified_config_content, Options, RuntimeInstall,
};

#[test]
fn test_get_file_extension() {
    assert_eq!(get_file_extension("typescript"), "ts");
    assert_eq!(get_file_extension("ts"), "ts");
    assert_eq!(get_file_extension("python"), "py");
    assert_eq!(get_file_extension("py"), "py");
    assert_eq!(get_file_extension("javascript"), "js");
    assert_eq!(get_file_extension("unknown"), "txt");
}

#[test]
fn test_get_file_extension_variations() {
    assert_eq!(get_file_extension("typescript"), "ts");
    assert_eq!(get_file_extension("ts"), "ts");
    assert_eq!(get_file_extension("python"), "py");
    assert_eq!(get_file_extension("py"), "py");
    assert_eq!(get_file_extension("javascript"), "js");
    assert_eq!(get_file_extension("js"), "js");
    assert_eq!(get_file_extension("rust"), "txt");
    assert_eq!(get_file_extension(""), "txt");
}

#[test]
fn test_options_struct() {
    let opts = Options { lang: Some("typescript".to_string()), skip_install: false, no_examples: false };
    assert_eq!(opts.lang, Some("typescript".to_string()));
    assert!(!opts.skip_install);
    assert!(!opts.no_examples);
    let opts2 = Options { lang: None, skip_install: true, no_examples: true };
    assert_eq!(opts2.lang, None);
    assert!(opts2.skip_install);
    assert!(opts2.no_examples);
}

#[test]
fn test_setup_with_invalid_language_option() {
    let options = Options { lang: Some("invalid_lang".to_string()), skip_install: true, no_examples: false };
    assert_eq!(options.lang, Some("invalid_lang".to_string()));
}

#[test]
fn test_create_example_usage_file_other_lang() {
    let (name, _content) = example_usage_file("python");
    assert_eq!(name, "example_usage.py");
}

#[test]
fn test_create_example_usage_file_javascript() {
    let (name, _content) = example_usage_file("javascript");
    assert_eq!(name, "example_usage.js");
}

#[test]
fn typescript_example_shows_the_evaluator() {
    let (name, content) = example_usage_file("typescript");
    assert_eq!(name, "example_usage.ts");
    assert!(content.contains("evaluator"));
    assert!(content.contains(".controlpath/production.ast"));
    assert!(content.contains("evaluateAll"));
    assert!(content.contains("evaluateBatch"));
}

#[test]
fn existing_project_is_detected_by_either_marker() {
    assert!(!check_existing_project(false, false));
    assert!(check_existing_project(true, false));
    assert!(check_existing_project(false, true));
}

#[test]
fn minimal_project_has_one_environment() {
    assert_eq!(initial_envs(false), vec!["production".to_string()]);
    assert_eq!(initial_envs(true), vec!["production".to_string(), "staging".to_string()]);
    assert!(unified_config_content(false).contains("mode: local"));
}

#[test]
fn runtime_install_depends_on_language() {
    assert!(matches!(runtime_install_plan("typescript"), RuntimeInstall::Npm));
    match runtime_install_plan("go") {
        RuntimeInstall::Note(n) => assert_eq!(n, "  Note: Runtime SDK installation for go not yet implemented"),
        RuntimeInstall::Npm => panic!("go installs nothing"),
    }
}
