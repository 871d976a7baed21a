use controlpath_cli::saas::ast::{
    check_remote_artifact, stale_environments, decode_public_key, ensure_signature_config, remote_ast_options, remote_ast_output_path,
    verify_artifact_signature, RemoteAstOptions,
};
use controlpath_cli::saas::ast_cache::FilesystemAstCache;
use controlpath_cli::saas::client::FlagTelemetry;
use controlpath_cli::saas::endpoints::{resolve_saas_endpoints, SaasUrls};
use controlpath_cli::saas::http::{encode_path_segment, map_http_error, project_path, trim_trailing_slashes};
use controlpath_cli::saas::report::{build_flag_rot_report, rot_report_table, rot_warning_messages, FlagRotReportEntry, RotFlag};
use controlpath_cli::saas::sync::flags_to_retire;
use ed25519_dalek::{Signer, SigningKey};

fn rot_flag(name: &str, deprecated: bool, imported: bool) -> RotFlag {
    RotFlag { qualified_name: name.to_string(), deprecated, is_imported: imported }
}

fn signed(message: &[u8], seed: u8) -> (Vec<u8>, Vec<u8>) {
    let key = SigningKey::from_bytes(&[seed; 32]);
    let signature = key.sign(message).to_bytes().to_vec();
    (signature, key.verifying_key().to_bytes().to_vec())
}

#[test]
fn merges_telemetry_into_declared_catalog_rows() {
    let flags = vec![rot_flag("stale_feature", false, false)];
    let telemetry = vec![FlagTelemetry {
        flag_key: "stale_feature".to_string(),
        last_evaluated: Some("2026-01-15".to_string()),
        evaluation_count: 0,
        rot_suggestion: Some("unused".to_string()),
    }];
    let report = build_flag_rot_report(&flags, &telemetry);
    assert_eq!(report.len(), 1);
    assert_eq!(report[0].rot_suggestion.as_deref(), Some("unused"));
    assert_eq!(report[0].evaluation_count, Some(0));
}

#[test]
fn includes_imported_flags_with_qualified_names() {
    let flags = vec![rot_flag("new_dashboard", false, false), rot_flag("platform.emergency_kill_switch", false, true)];
    let telemetry = vec![FlagTelemetry {
        flag_key: "platform.emergency_kill_switch".to_string(),
        last_evaluated: Some("2026-05-01".to_string()),
        evaluation_count: 42,
        rot_suggestion: Some("review".to_string()),
    }];
    let report = build_flag_rot_report(&flags, &telemetry);
    assert_eq!(report.len(), 2);
    let imported = report.iter().find(|e| e.flag_key == "platform.emergency_kill_switch").unwrap();
    assert!(imported.imported);
    assert_eq!(imported.rot_suggestion.as_deref(), Some("review"));
}

#[test]
fn report_rows_are_sorted_by_flag_key() {
    let flags = vec![rot_flag("zeta", true, false), rot_flag("alpha", false, false)];
    let report = build_flag_rot_report(&flags, &vec![]);
    assert_eq!(report[0].flag_key, "alpha");
    assert_eq!(report[1].flag_key, "zeta");
    assert_eq!(report[1].lifecycle, "deprecated");
    assert_eq!(report[0].evaluation_count, None);
}

#[test]
fn rot_warning_messages_cover_deprecated_and_rot_suggestions() {
    let entries = vec![
        FlagRotReportEntry {
            flag_key: "old_flow".to_string(),
            lifecycle: "deprecated".to_string(),
            last_evaluated: None,
            evaluation_count: None,
            rot_suggestion: None,
            imported: false,
        },
        FlagRotReportEntry {
            flag_key: "stale".to_string(),
            lifecycle: "active".to_string(),
            last_evaluated: Some("2026-01-01".to_string()),
            evaluation_count: Some(0),
            rot_suggestion: Some("unused".to_string()),
            imported: false,
        },
    ];
    let messages = rot_warning_messages(&entries);
    assert_eq!(messages.len(), 2);
    assert!(messages[0].contains("old_flow") && messages[0].contains("deprecated"));
    assert!(messages[1].contains("stale") && messages[1].contains("unused"));
}

#[test]
fn accepts_unsigned_artifact_when_signature_not_required() {
    let options = RemoteAstOptions::default();
    assert!(ensure_signature_config(&options).is_ok());
    assert!(verify_artifact_signature(None, &b"artifact".to_vec(), &vec![], options.require_signature).is_ok());
}

#[test]
fn rejects_unsigned_artifact_when_signature_required() {
    let options = RemoteAstOptions { require_signature: true, ..Default::default() };
    let err = ensure_signature_config(&options).unwrap_err();
    assert!(err.message().contains("ast_public_key is required"));
    let (_, key) = signed(b"m", 7);
    let err = verify_artifact_signature(None, &b"m".to_vec(), &key, true).unwrap_err();
    assert_eq!(err.message(), "Signature required but not present in artifact");
}

#[test]
fn verifies_signed_artifact_with_public_key() {
    let message = b"serialized artifact without signature".to_vec();
    let (signature, key) = signed(&message, 7);
    assert!(verify_artifact_signature(Some(&signature), &message, &key, true).is_ok());
}

#[test]
fn rejects_bogus_signature_when_signature_required() {
    let message = b"serialized artifact".to_vec();
    let (_, key) = signed(&message, 7);
    let err = verify_artifact_signature(Some(&vec![0u8; 64]), &message, &key, true).unwrap_err();
    assert!(err.message().contains("Signature verification failed"));
}

#[test]
fn rejects_invalid_signature() {
    let message = b"serialized artifact".to_vec();
    let (signature, _) = signed(&message, 7);
    let (_, other_key) = signed(&message, 9);
    let err = verify_artifact_signature(Some(&signature), &message, &other_key, true).unwrap_err();
    assert!(err.message().contains("Signature verification failed"));
}

#[test]
fn signature_and_key_lengths_are_checked() {
    let message = b"m".to_vec();
    let err = verify_artifact_signature(Some(&vec![1u8; 10]), &message, &vec![0u8; 32], true).unwrap_err();
    assert_eq!(err.message(), "Invalid signature length: expected 64 bytes, got 10");
    let err = verify_artifact_signature(Some(&vec![1u8; 64]), &message, &vec![0u8; 5], true).unwrap_err();
    assert_eq!(err.message(), "Invalid public key length: expected 32 bytes, got 5");
}

#[test]
fn remote_ast_options_from_catalog_reads_saas_config() {
    let key = SigningKey::from_bytes(&[7u8; 32]);
    let encoded = base64::Engine::encode(&base64::engine::general_purpose::STANDARD, key.verifying_key().to_bytes());
    let options = remote_ast_options(true, Some(encoded.as_str()), true).unwrap();
    assert!(options.require_signature);
    assert_eq!(options.public_key.as_ref().map(|k| k.len()), Some(32));
    assert_eq!(options.public_key.unwrap(), key.verifying_key().to_bytes().to_vec());
}

#[test]
fn public_key_must_be_base64_of_32_bytes() {
    let short = base64::Engine::encode(&base64::engine::general_purpose::STANDARD, [1u8; 4]);
    let err = decode_public_key(&short).unwrap_err();
    assert_eq!(err.message(), "Invalid saas.ast_public_key length: expected 32 bytes, got 4");
    let err = decode_public_key("!!not base64!!").unwrap_err();
    assert!(err.message().starts_with("Invalid saas.ast_public_key base64: "));
    assert!(remote_ast_options(false, Some("ignored"), true).unwrap().public_key.is_none());
}

#[test]
fn rejects_unsafe_environment_names() {
    for environment in ["../outside", ".", ".."] {
        let err = remote_ast_output_path("/tmp/test", environment, false).unwrap_err();
        assert!(err.message().contains("Invalid environment name"), "expected rejection for {environment:?}");
    }
    assert_eq!(remote_ast_output_path("/tmp/test", "production", true).unwrap(), "/tmp/test/.controlpath/production.ast");
}

#[test]
fn discover_environments_returns_sorted_env_names_from_ast_files() {
    let envs = FilesystemAstCache::discover_environments(true, vec!["staging".to_string(), "production".to_string()]).unwrap();
    assert_eq!(envs, vec!["production".to_string(), "staging".to_string()]);
}

#[test]
fn discover_environments_fails_when_no_ast_files() {
    let err = FilesystemAstCache::discover_environments(true, vec![]).unwrap_err();
    assert!(err.message().contains("no compiled artifacts"));
    let err = FilesystemAstCache::discover_environments(false, vec!["x".to_string()]).unwrap_err();
    assert!(err.message().contains("no compiled artifacts"));
}

#[test]
fn flags_to_retire_lists_removed_flags_sorted() {
    let remote = vec!["b_flag".to_string(), "kept".to_string(), "a_flag".to_string()];
    let git = vec!["kept".to_string()];
    assert_eq!(flags_to_retire(&remote, &git), vec!["a_flag".to_string(), "b_flag".to_string()]);
    assert!(flags_to_retire(&remote, &remote).is_empty());
}

#[test]
fn endpoints_prefer_catalog_then_workspace() {
    let catalog = SaasUrls { api_url: None, cdn_url: Some("  https://cdn.example/  ".to_string()) };
    let workspace = SaasUrls { api_url: Some("https://api.example".to_string()), cdn_url: None };
    let e = resolve_saas_endpoints(Some(&catalog), Some(&workspace), true, "https://default").unwrap();
    assert_eq!(e.api_url.as_deref(), Some("https://api.example"));
    assert_eq!(e.cdn_url, "https://cdn.example/");
    assert_eq!(e.catalog_scope, "org");
    let empty = SaasUrls { api_url: None, cdn_url: Some("   ".to_string()) };
    let e = resolve_saas_endpoints(Some(&empty), None, false, "https://default").unwrap();
    assert_eq!(e.cdn_url, "https://default");
    assert_eq!(e.catalog_scope, "service");
    assert!(resolve_saas_endpoints(None, None, false, "x").is_err());
}

#[test]
fn http_paths_are_percent_encoded() {
    assert_eq!(encode_path_segment("a b/ü"), "a%20b%2F%C3%BC");
    assert_eq!(project_path("acme//svc one"), "acme/svc%20one");
    assert_eq!(trim_trailing_slashes("https://x.io///"), "https://x.io");
    assert_eq!(map_http_error(404, "missing").message(), "SaaS API error (404): missing");
}

#[test]
fn rot_report_table_pads_columns_and_marks_missing_cells() {
    let entries = vec![FlagRotReportEntry {
        flag_key: "stale".to_string(),
        lifecycle: "active".to_string(),
        last_evaluated: None,
        evaluation_count: Some(42),
        rot_suggestion: Some("unused".to_string()),
        imported: false,
    }];
    let lines = rot_report_table(&entries);
    assert_eq!(lines.len(), 5);
    assert_eq!(lines[0], "Flag rot report:");
    assert_eq!(lines[1], "-".repeat(96));
    assert_eq!(lines[2], format!("{:<32} {:<12} {:<16} {:<12} Rot suggestion", "Flag", "Lifecycle", "Last evaluated", "Evaluations"));
    assert_eq!(lines[4], format!("{:<32} {:<12} {:<16} {:<12} {}", "stale", "active", "-", "42", "unused"));
    assert_eq!(rot_report_table(&vec![]), vec!["No flags in catalog.".to_string()]);
}

#[test]
fn remote_artifacts_are_checked_as_configured() {
    let message = b"artifact".to_vec();
    let (signature, key) = signed(&message, 3);
    let none = RemoteAstOptions { public_key: None, require_signature: false };
    assert!(check_remote_artifact(None, &message, &none).is_ok());
    assert!(check_remote_artifact(Some(&vec![1u8; 3]), &message, &none).is_ok());
    let optional = RemoteAstOptions { public_key: Some(key.clone()), require_signature: false };
    assert!(check_remote_artifact(None, &message, &optional).is_ok());
    assert!(check_remote_artifact(Some(&signature), &message, &optional).is_ok());
    assert_eq!(
        check_remote_artifact(Some(&vec![0u8; 64]), &message, &optional).unwrap_err().message(),
        "Signature verification failed"
    );
    let required = RemoteAstOptions { public_key: Some(key), require_signature: true };
    assert_eq!(
        check_remote_artifact(None, &message, &required).unwrap_err().message(),
        "Signature required but not present in artifact"
    );
    let broken = RemoteAstOptions { public_key: None, require_signature: true };
    assert!(check_remote_artifact(Some(&signature), &message, &broken).unwrap_err().message().contains("ast_public_key is required"));
}

#[test]
fn stale_environments_are_those_not_sent() {
    let found = vec!["production".to_string(), "old".to_string(), "staging".to_string()];
    let active = vec!["staging".to_string(), "production".to_string()];
    assert_eq!(stale_environments(&found, &active), vec!["old".to_string()]);
    assert!(stale_environments(&vec![], &active).is_empty());
}
