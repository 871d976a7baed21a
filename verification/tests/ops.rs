use controlpath_cli::commands::compile::{compile_paths, Options as CompileCommandOptions};
use controlpath_cli::commands::generate_sdk::{determine_output_path, Options as GenerateCommandOptions};
use controlpath_cli::json::JsonValue;
use controlpath_cli::ops::generate_sdk::{resolve_sdk_output_path, DEFAULT_SDK_OUTPUT};
use std::path::PathBuf;

fn sdk_config(output: &str) -> JsonValue {
    JsonValue::Object(vec![(
        "sdk".to_string(),
        JsonValue::Object(vec![("output".to_string(), JsonValue::String(output.to_string()))]),
    )])
}

#[test]
fn resolve_sdk_output_path_prefers_cli_output() {
    let unified = sdk_config("from-config");
    assert_eq!(PathBuf::from(resolve_sdk_output_path(Some("from-cli"), Some(&unified))), PathBuf::from("from-cli"));
}

#[test]
fn resolve_sdk_output_path_uses_config_sdk_output() {
    let unified = sdk_config("custom/generated");
    assert_eq!(PathBuf::from(resolve_sdk_output_path(None, Some(&unified))), PathBuf::from("custom/generated"));
}

#[test]
fn resolve_sdk_output_path_defaults_without_config() {
    assert_eq!(PathBuf::from(resolve_sdk_output_path(None, None)), PathBuf::from(DEFAULT_SDK_OUTPUT));
    assert_eq!(resolve_sdk_output_path(None, Some(&JsonValue::Object(vec![]))), DEFAULT_SDK_OUTPUT);
}

#[test]
fn compile_needs_an_environment() {
    let err = compile_paths(&CompileCommandOptions { env: None, output: None }).unwrap_err();
    assert_eq!(err.message(), "Use --env <env> with control-path.yaml");
    let (env, ast, out) =
        compile_paths(&CompileCommandOptions { env: Some("production".to_string()), output: None }).unwrap();
    assert_eq!((env.as_str(), ast.as_str(), out.as_str()), ("production", ".controlpath/production.ast", ".controlpath/production.ast"));
    let (_, _, out) = compile_paths(&CompileCommandOptions {
        env: Some("staging".to_string()),
        output: Some("build/staging.ast".to_string()),
    })
    .unwrap();
    assert_eq!(out, "build/staging.ast");
}

#[test]
fn test_generate_sdk() {
    let options = GenerateCommandOptions { lang: None, output: None };
    assert_eq!(determine_output_path(&options, Some(&sdk_config("gen/sdk"))), "gen/sdk");
}
