use controlpath_cli::monorepo::detection::{
    discovery_plan, is_service, service_directory_patterns, Discovery, MonorepoConfig,
};
use controlpath_cli::monorepo::paths::{resolve_service_path, ServicePathResolver};
use controlpath_cli::monorepo::service::{resolve_context, strip_prefix, Service, ServiceContext};
use std::path::PathBuf;

const ROOT: &str = "/work/repo";

fn service_a() -> (Service, PathBuf) {
    let service_path = PathBuf::from(ROOT).join("services").join("service-a");
    let service = Service::from_path(service_path.to_str().unwrap(), ROOT);
    (service, service_path)
}

fn monorepo_context(service: Service) -> ServiceContext {
    ServiceContext { service: Some(service), workspace_root: Some(ROOT.to_string()), is_monorepo: true }
}

#[test]
fn test_resolve_service_path_relative() {
    let context = ServiceContext::single_project();
    let path = resolve_service_path("flags.definitions.yaml", &context);
    assert_eq!(PathBuf::from(path), PathBuf::from(".").join("flags.definitions.yaml"));
}

#[test]
fn test_resolve_service_path_absolute() {
    let context = ServiceContext::single_project();
    let absolute_path = "/absolute/path";
    let path = resolve_service_path(absolute_path, &context);
    assert_eq!(PathBuf::from(path), PathBuf::from(absolute_path));
}

#[test]
fn test_resolve_service_path_with_service() {
    let (service, service_path) = service_a();
    let context = monorepo_context(service);
    let path = resolve_service_path("flags.definitions.yaml", &context);
    assert_eq!(PathBuf::from(path), service_path.join("flags.definitions.yaml"));
}

#[test]
fn test_service_path_resolver_definitions_file() {
    let resolver = ServicePathResolver::new(ServiceContext::single_project());
    assert_eq!(PathBuf::from(resolver.definitions_file()), PathBuf::from(".").join("flags.definitions.yaml"));
}

#[test]
fn test_service_path_resolver_deployment_file() {
    let resolver = ServicePathResolver::new(ServiceContext::single_project());
    assert_eq!(
        PathBuf::from(resolver.deployment_file("production")),
        PathBuf::from(".").join(".controlpath/production.deployment.yaml")
    );
}

#[test]
fn test_service_path_resolver_ast_file() {
    let resolver = ServicePathResolver::new(ServiceContext::single_project());
    assert_eq!(PathBuf::from(resolver.ast_file("production")), PathBuf::from(".").join(".controlpath/production.ast"));
}

#[test]
fn test_service_path_resolver_controlpath_dir() {
    let resolver = ServicePathResolver::new(ServiceContext::single_project());
    assert_eq!(PathBuf::from(resolver.controlpath_dir()), PathBuf::from(".").join(".controlpath"));
}

#[test]
fn test_service_path_resolver_sdk_output() {
    let resolver = ServicePathResolver::new(ServiceContext::single_project());
    assert_eq!(PathBuf::from(resolver.sdk_output("./flags")), PathBuf::from(".").join("./flags"));
}

#[test]
fn test_service_path_resolver_config_file() {
    let resolver = ServicePathResolver::new(ServiceContext::single_project());
    assert_eq!(PathBuf::from(resolver.config_file()), PathBuf::from(".").join(".controlpath/config.yaml"));
}

#[test]
fn test_service_path_resolver_with_service() {
    let (service, service_path) = service_a();
    let resolver = ServicePathResolver::new(monorepo_context(service));
    assert_eq!(PathBuf::from(resolver.definitions_file()), service_path.join("flags.definitions.yaml"));
    assert_eq!(
        PathBuf::from(resolver.deployment_file("staging")),
        service_path.join(".controlpath/staging.deployment.yaml")
    );
    assert_eq!(PathBuf::from(resolver.ast_file("staging")), service_path.join(".controlpath/staging.ast"));
    assert_eq!(PathBuf::from(resolver.controlpath_dir()), service_path.join(".controlpath"));
    assert_eq!(PathBuf::from(resolver.config_file()), service_path.join(".controlpath/config.yaml"));
}

#[test]
fn test_service_path_resolver_base_path() {
    let (service, service_path) = service_a();
    let resolver = ServicePathResolver::new(monorepo_context(service));
    assert_eq!(PathBuf::from(resolver.base_path()), service_path);
}

#[test]
fn test_service_from_path() {
    let (service, service_path) = service_a();
    assert_eq!(service.name, "service-a");
    assert_eq!(PathBuf::from(&service.path), service_path);
    assert_eq!(PathBuf::from(&service.relative_path), PathBuf::from("services/service-a"));
    assert_eq!(service.workspace_root, ROOT);
}

#[test]
fn test_service_context_single_project() {
    let context = ServiceContext::single_project();
    assert!(!context.is_monorepo);
    assert!(context.service.is_none());
    assert!(context.workspace_root.is_none());
}

#[test]
fn test_service_context_base_path_with_service() {
    let (service, service_path) = service_a();
    assert_eq!(PathBuf::from(monorepo_context(service).base_path()), service_path);
}

#[test]
fn test_service_context_base_path_without_service() {
    let context = ServiceContext::single_project();
    assert_eq!(PathBuf::from(context.base_path()), PathBuf::from("."));
}

#[test]
fn service_from_name_uses_found_pattern() {
    let s = Service::from_name("billing", ROOT, Some("packages"));
    assert_eq!(s.name, "billing");
    assert_eq!(s.path, "/work/repo/packages/billing");
    assert_eq!(s.relative_path, "packages/billing");
    let s = Service::from_name("tools/cli", ROOT, None);
    assert_eq!(s.name, "cli");
    assert_eq!(s.path, "/work/repo/tools/cli");
}

#[test]
fn strip_prefix_works_by_components() {
    assert_eq!(strip_prefix("/a/b/c", "/a"), Some("b/c".to_string()));
    assert_eq!(strip_prefix("/ab/c", "/a"), None);
    assert_eq!(strip_prefix("/a", "/a"), Some(String::new()));
}

#[test]
fn resolve_context_prefers_service_flag() {
    let (service, _) = service_a();
    let c = resolve_context(Some(ROOT.to_string()), true, Some(service.clone()), None, false);
    assert_eq!(c.service.map(|s| s.name), Some("service-a".to_string()));
    let c = resolve_context(Some(ROOT.to_string()), true, None, None, true);
    assert!(c.service.is_none() && c.is_monorepo);
    let c = resolve_context(None, false, Some(service), None, false);
    assert!(!c.is_monorepo && c.service.is_none());
}

#[test]
fn services_are_marked_by_definitions_or_directory() {
    assert!(is_service(true, false));
    assert!(is_service(false, true));
    assert!(!is_service(false, false));
}

#[test]
fn discovery_defaults_to_standard_directories() {
    match discovery_plan(None) {
        Discovery::Scan(dirs) => assert_eq!(dirs, service_directory_patterns()),
        Discovery::Named(_) => panic!("expected a scan"),
    }
    let config = MonorepoConfig {
        discovery: "explicit".to_string(),
        services: Some(vec!["a".to_string()]),
        service_directories: vec![],
    };
    match discovery_plan(Some(&config)) {
        Discovery::Named(names) => assert_eq!(names, vec!["a".to_string()]),
        Discovery::Scan(_) => panic!("expected named services"),
    }
}
