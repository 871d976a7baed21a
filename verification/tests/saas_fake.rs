use controlpath_cli::json::JsonValue;
use controlpath_cli::saas::client::{FlagTelemetry, RemoteAstArtifact};
use controlpath_cli::saas::fake::{FakeSaasClient, ProjectTelemetry};
use controlpath_cli::saas::sync::sync_catalog_to_saas;

const PROJECT: &str = "acme/checkout";
const CATALOG: &str = "acme.checkout";

fn flag_definition(default: bool) -> JsonValue {
    JsonValue::Object(vec![
        ("default".to_string(), JsonValue::Bool(default)),
        ("kind".to_string(), JsonValue::String("release".to_string())),
        ("owner".to_string(), JsonValue::String("team".to_string())),
    ])
}

fn payload(flags: &[(&str, bool)]) -> Vec<(String, JsonValue)> {
    let mut entries: Vec<(String, JsonValue)> =
        flags.iter().map(|(k, d)| (k.to_string(), flag_definition(*d))).collect();
    entries.sort_by(|a, b| a.0.cmp(&b.0));
    entries
}

#[test]
fn sync_catalog_alone_does_not_retire_removed_flags() {
    let mut client = FakeSaasClient::new();
    client.sync_catalog(PROJECT, CATALOG, &payload(&[("keep", true), ("remove", false)])).unwrap();
    client.sync_catalog(PROJECT, CATALOG, &payload(&[("keep", true)])).unwrap();
    assert!(client.synced_flag(PROJECT, "remove").is_some());
    assert!(!client.is_retired(PROJECT, "remove"));
}

#[test]
fn retire_flags_preserves_history_without_hard_delete() {
    let mut client = FakeSaasClient::new();
    client.sync_catalog(PROJECT, CATALOG, &payload(&[("keep", true), ("remove", false)])).unwrap();
    client.retire_flags(PROJECT, CATALOG, &vec!["remove".to_string()]).unwrap();
    assert!(client.synced_flag(PROJECT, "remove").is_none());
    assert!(client.is_retired(PROJECT, "remove"));
    assert!(client.synced_flag(PROJECT, "keep").is_some());
}

#[test]
fn open_rejects_mismatched_catalog_id_for_project() {
    let mut client = FakeSaasClient::new();
    client.sync_catalog(PROJECT, CATALOG, &payload(&[("keep", true)])).unwrap();
    let err = client.sync_catalog(PROJECT, "acme.other", &payload(&[("keep", true)])).unwrap_err();
    assert!(err.message().contains("bound to catalog"));
    assert_eq!(
        err.message(),
        "SaaS project 'acme/checkout' is bound to catalog 'acme.checkout', not 'acme.other'"
    );
}

#[test]
fn sync_reports_only_changed_flags() {
    let mut client = FakeSaasClient::new();
    let first = client.sync_catalog(PROJECT, CATALOG, &payload(&[("a", true), ("b", false)])).unwrap();
    assert_eq!(first.upserted_flags, vec!["a".to_string(), "b".to_string()]);
    let second = client.sync_catalog(PROJECT, CATALOG, &payload(&[("a", true), ("b", true)])).unwrap();
    assert_eq!(second.upserted_flags, vec!["b".to_string()]);
    assert_eq!(client.list_active_flags(PROJECT), vec!["a".to_string(), "b".to_string()]);
    assert!(client.list_active_flags("unknown/project").is_empty());
}

#[test]
fn syncing_a_retired_flag_revives_it() {
    let mut client = FakeSaasClient::new();
    client.sync_catalog(PROJECT, CATALOG, &payload(&[("a", true)])).unwrap();
    client.retire_flags(PROJECT, CATALOG, &vec!["a".to_string()]).unwrap();
    assert!(client.is_retired(PROJECT, "a"));
    client.sync_catalog(PROJECT, CATALOG, &payload(&[("a", true)])).unwrap();
    assert!(!client.is_retired(PROJECT, "a"));
    assert!(client.synced_flag(PROJECT, "a").is_some());
}

#[test]
fn sync_pushes_flag_catalog_without_telemetry() {
    let mut client = FakeSaasClient::new();
    let outcome = sync_catalog_to_saas(&mut client, PROJECT, CATALOG, &payload(&[("feature_a", false)])).unwrap();
    assert_eq!(outcome.upserted_flags, vec!["feature_a".to_string()]);
    assert!(outcome.retired_flags.is_empty());
    let synced = client.synced_flag(PROJECT, "feature_a").unwrap();
    assert_eq!(synced, &flag_definition(false));
    assert!(client.fetch_flag_telemetry(PROJECT, CATALOG).unwrap().is_empty());
}

#[test]
fn removing_flag_from_git_retires_it_in_saas() {
    let mut client = FakeSaasClient::new();
    sync_catalog_to_saas(&mut client, PROJECT, CATALOG, &payload(&[("keep_me", true), ("remove_me", false)])).unwrap();
    let outcome = sync_catalog_to_saas(&mut client, PROJECT, CATALOG, &payload(&[("keep_me", true)])).unwrap();
    assert_eq!(outcome.retired_flags, vec!["remove_me".to_string()]);
    assert!(client.is_retired(PROJECT, "remove_me"));
    assert!(client.synced_flag(PROJECT, "remove_me").is_none());
    assert!(client.synced_flag(PROJECT, "keep_me").is_some());
}

#[test]
fn downloads_remote_asts_to_controlpath() {
    let mut client = FakeSaasClient::new();
    client.remote_asts.push(RemoteAstArtifact { environment: "production".to_string(), bytes: vec![1, 2, 3] });
    let asts = client.download_compiled_asts();
    assert_eq!(asts.len(), 1);
    assert_eq!(asts[0].environment, "production");
    assert_eq!(asts[0].bytes, vec![1, 2, 3]);
}

#[test]
fn telemetry_is_refused_for_another_catalog() {
    let mut client = FakeSaasClient::new();
    client.sync_catalog(PROJECT, CATALOG, &payload(&[("a", true)])).unwrap();
    client.flag_telemetry.push(ProjectTelemetry {
        project: PROJECT.to_string(),
        rows: vec![FlagTelemetry {
            flag_key: "a".to_string(),
            last_evaluated: Some("2026-01-01".to_string()),
            evaluation_count: 3,
            rot_suggestion: None,
        }],
    });
    let rows = client.fetch_flag_telemetry(PROJECT, CATALOG).unwrap();
    assert_eq!(rows.len(), 1);
    assert_eq!(rows[0].evaluation_count, 3);
    let err = client.fetch_flag_telemetry(PROJECT, "other").unwrap_err();
    assert_eq!(
        err.message(),
        "Telemetry request catalog 'other' does not match SaaS project binding 'acme.checkout'"
    );
}

#[test]
fn second_sync_of_the_same_catalog_changes_nothing() {
    let mut client = FakeSaasClient::new();
    sync_catalog_to_saas(&mut client, PROJECT, CATALOG, &payload(&[("a", true), ("b", false), ("c", true)])).unwrap();
    let first = sync_catalog_to_saas(&mut client, PROJECT, CATALOG, &payload(&[("a", true), ("c", false)])).unwrap();
    assert_eq!(first.retired_flags, vec!["b".to_string()]);
    let second = sync_catalog_to_saas(&mut client, PROJECT, CATALOG, &payload(&[("a", true), ("c", false)])).unwrap();
    assert!(second.retired_flags.is_empty());
    assert!(second.upserted_flags.is_empty());
}

#[test]
fn telemetry_comes_back_in_flag_key_order() {
    let mut client = FakeSaasClient::new();
    let row = |key: &str, count: u64| FlagTelemetry {
        flag_key: key.to_string(),
        last_evaluated: None,
        evaluation_count: count,
        rot_suggestion: None,
    };
    client.flag_telemetry.push(ProjectTelemetry {
        project: PROJECT.to_string(),
        rows: vec![row("zeta", 1), row("alpha", 2), row("mid", 3)],
    });
    let rows = client.fetch_flag_telemetry(PROJECT, CATALOG).unwrap();
    let keys: Vec<&str> = rows.iter().map(|r| r.flag_key.as_str()).collect();
    assert_eq!(keys, vec!["alpha", "mid", "zeta"]);
    assert_eq!(rows[0].evaluation_count, 2);
}
