//! `services`: options, what is reported for each service of a monorepo, and
//! how the reports are laid out.

use vstd::prelude::*;
use crate::error::CliError;
use crate::monorepo::service::Service;
use crate::text::{
    owned, push_text, push_padded, pad_right, join, join_texts, texts_of, list_contains, sort_strings, texts_sorted,
    text_ends_with, is_suffix_of, chars_of, string_from_chars, eq_ignore_ascii_case, text_eq_ignore_ascii_case,
};
use crate::json::decimal;

verus! {

pub struct Options {
    pub subcommand: ServicesSubcommand,
}

#[derive(Debug, Clone)]
pub enum ServicesSubcommand {
    /// List the services of the monorepo.
    List {
        /// Show flag counts, environments and the SDK.
        detailed: bool,
        format: OutputFormat,
    },
    /// Show the status of the services.
    Status {
        /// One service (all when `None`).
        service: Option<String>,
        check_sync: bool,
    },
}

#[derive(Debug, Clone, Copy, PartialEq, Eq, Structural)]
pub enum OutputFormat {
    Table,
    Json,
}

impl OutputFormat {
    /// The format named in any case, if it is one (see the flag command's formats).
    pub fn from_str(s: &str) -> (r: Option<OutputFormat>)
        ensures
            match r {
                Some(f) => (f == OutputFormat::Table && eq_ignore_ascii_case(s@, "table"@))
                    || (f == OutputFormat::Json && eq_ignore_ascii_case(s@, "json"@)),
                None => !eq_ignore_ascii_case(s@, "table"@) && !eq_ignore_ascii_case(s@, "json"@),
            },
    {
        if text_eq_ignore_ascii_case(s, "table") {
            Some(OutputFormat::Table)
        } else if text_eq_ignore_ascii_case(s, "json") {
            Some(OutputFormat::Json)
        } else {
            None
        }
    }
}

/// What is listed for a service.
#[derive(Debug, Clone)]
pub struct ServiceInfo {
    pub name: String,
    pub path: String,
    pub relative_path: String,
    pub flag_count: Option<usize>,
    pub environments: Option<Vec<String>>,
    pub has_sdk: Option<bool>,
}

/// The status of a service.
#[derive(Debug, Clone)]
pub struct ServiceStatus {
    pub name: String,
    pub path: String,
    pub relative_path: String,
    pub has_definitions: bool,
    pub has_deployments: bool,
    pub flag_count: Option<usize>,
    pub environments: Vec<String>,
    pub sdk_generated: bool,
    pub sync_status: Option<SyncStatus>,
}

/// Whether the flags of the definitions and of the deployments agree.
#[derive(Debug, Clone)]
pub struct SyncStatus {
    pub in_sync: bool,
    pub missing_in_deployments: Option<Vec<String>>,
    pub extra_in_deployments: Option<Vec<String>>,
}

/// The plain listing of a service: its names and paths only.
pub fn brief_service_info(service: &Service) -> (r: ServiceInfo)
    ensures
        r.name@ == service.name@,
        r.path@ == service.path@,
        r.relative_path@ == service.relative_path@,
        r.flag_count is None && r.environments is None && r.has_sdk is None,
{
    ServiceInfo {
        name: service.name.clone(),
        path: service.path.clone(),
        relative_path: service.relative_path.clone(),
        flag_count: None,
        environments: None,
        has_sdk: None,
    }
}

/// The detailed listing of a service, from what was found on disk.
pub fn get_detailed_service_info(service: &Service, flag_count: usize, environments: Vec<String>, has_sdk: bool) -> (r: ServiceInfo)
    ensures
        r.name@ == service.name@,
        r.path@ == service.path@,
        r.relative_path@ == service.relative_path@,
        r.flag_count == Some(flag_count),
        r.environments == Some(environments),
        r.has_sdk == Some(has_sdk),
{
    ServiceInfo {
        name: service.name.clone(),
        path: service.path.clone(),
        relative_path: service.relative_path.clone(),
        flag_count: Some(flag_count),
        environments: Some(environments),
        has_sdk: Some(has_sdk),
    }
}

/// The status of a service from what was found on disk: the flag count only
/// with definitions, the sync status only when asked and both kinds of files exist.
pub fn service_status(
    service: &Service,
    has_definitions: bool,
    has_deployments: bool,
    flag_count: usize,
    environments: Vec<String>,
    sdk_generated: bool,
    sync: Option<SyncStatus>,
    check_sync: bool,
) -> (r: ServiceStatus)
    ensures
        r.name@ == service.name@,
        r.path@ == service.path@,
        r.relative_path@ == service.relative_path@,
        r.has_definitions == has_definitions,
        r.has_deployments == has_deployments,
        r.flag_count == (if has_definitions { Some(flag_count) } else { None }),
        r.environments == environments,
        r.sdk_generated == sdk_generated,
        r.sync_status == (if check_sync && has_definitions && has_deployments { sync } else { None }),
{
    ServiceStatus {
        name: service.name.clone(),
        path: service.path.clone(),
        relative_path: service.relative_path.clone(),
        has_definitions,
        has_deployments,
        flag_count: if has_definitions { Some(flag_count) } else { None },
        environments,
        sdk_generated,
        sync_status: if check_sync && has_definitions && has_deployments { sync } else { None },
    }
}

/// The SDK was generated when the service has a `flags` directory.
pub fn check_sdk_generated(flags_dir_exists: bool, flags_dir_is_dir: bool) -> (r: bool)
    ensures
        r == (flags_dir_exists && flags_dir_is_dir),
{
    flags_dir_exists && flags_dir_is_dir
}

/// The environments with a deployment file: the names ending in
/// `.deployment.yaml`, without that ending.
pub open spec fn deployment_names(names: Seq<Seq<char>>) -> Seq<Seq<char>>
    decreases names.len(),
{
    if names.len() == 0 {
        seq![]
    } else {
        let prev = deployment_names(names.drop_last());
        let n = names.last();
        if is_suffix_of(".deployment.yaml"@, n) { prev.push(n.take(n.len() - ".deployment.yaml"@.len())) } else { prev }
    }
}

/// The environments of a service's `.controlpath` directory, in ascending order.
pub fn list_environments(file_names: &Vec<String>) -> (r: Vec<String>)
    ensures
        texts_of(r@).to_multiset() == deployment_names(texts_of(file_names@)).to_multiset(),
        texts_sorted(texts_of(r@)),
{
    let mut envs: Vec<String> = Vec::new();
    let mut i: usize = 0;
    proof {
        assert(texts_of(file_names@).take(0) =~= Seq::<Seq<char>>::empty());
        assert(texts_of(envs@) =~= seq![]);
    }
    while i < file_names.len()
        invariant
            i <= file_names@.len(),
            texts_of(envs@) == deployment_names(texts_of(file_names@).take(i as int)),
        decreases file_names@.len() - i,
    {
        proof {
            assert(texts_of(file_names@).take(i + 1).drop_last() =~= texts_of(file_names@).take(i as int));
            assert(texts_of(file_names@).take(i + 1).last() == file_names@[i as int]@);
        }
        let name = file_names[i].as_str();
        if text_ends_with(name, ".deployment.yaml") {
            let cs = chars_of(name);
            let suffix = chars_of(".deployment.yaml");
            let ghost before = envs@;
            let stem = string_from_chars(&cs.as_slice()[0..cs.len() - suffix.len()]);
            envs.push(stem);
            proof {
                assert(cs@.subrange(0, cs@.len() - suffix@.len()) =~= name@.take(name@.len() - ".deployment.yaml"@.len()));
                assert(texts_of(envs@) =~= texts_of(before).push(name@.take(name@.len() - ".deployment.yaml"@.len())));
            }
        }
        i = i + 1;
    }
    proof {
        assert(texts_of(file_names@).take(file_names@.len() as int) =~= texts_of(file_names@));
    }
    sort_strings(envs)
}

/// The names of `a` not in `b`, each once, in the order of first appearance.
pub open spec fn difference(a: Seq<Seq<char>>, b: Seq<Seq<char>>) -> Seq<Seq<char>>
    decreases a.len(),
{
    if a.len() == 0 {
        seq![]
    } else {
        let prev = difference(a.drop_last(), b);
        if b.contains(a.last()) || prev.contains(a.last()) { prev } else { prev.push(a.last()) }
    }
}

fn difference_of(a: &Vec<String>, b: &Vec<String>) -> (r: Vec<String>)
    ensures
        texts_of(r@) == difference(texts_of(a@), texts_of(b@)),
{
    let mut out: Vec<String> = Vec::new();
    let mut i: usize = 0;
    proof {
        assert(texts_of(a@).take(0) =~= Seq::<Seq<char>>::empty());
        assert(texts_of(out@) =~= seq![]);
    }
    while i < a.len()
        invariant
            i <= a@.len(),
            texts_of(out@) == difference(texts_of(a@).take(i as int), texts_of(b@)),
        decreases a@.len() - i,
    {
        proof {
            assert(texts_of(a@).take(i + 1).drop_last() =~= texts_of(a@).take(i as int));
            assert(texts_of(a@).take(i + 1).last() == a@[i as int]@);
        }
        if !list_contains(b, a[i].as_str()) && !list_contains(&out, a[i].as_str()) {
            let ghost before = out@;
            out.push(a[i].clone());
            proof {
                assert(texts_of(out@) =~= texts_of(before).push(a@[i as int]@));
            }
        }
        i = i + 1;
    }
    proof {
        assert(texts_of(a@).take(a@.len() as int) =~= texts_of(a@));
    }
    out
}

/// Compares the flags of the definitions with those of the deployments.
/// (Which names are listed is stated; their order is one that a hash set
/// may give.)
pub fn sync_status(definition_flags: &Vec<String>, deployment_flags: &Vec<String>) -> (r: SyncStatus)
    ensures
        ({
            let missing = difference(texts_of(definition_flags@), texts_of(deployment_flags@));
            let extra = difference(texts_of(deployment_flags@), texts_of(definition_flags@));
            &&& r.in_sync == (missing.len() == 0 && extra.len() == 0)
            &&& match r.missing_in_deployments {
                Some(m) => missing.len() > 0 && texts_of(m@) == missing,
                None => missing.len() == 0,
            }
            &&& match r.extra_in_deployments {
                Some(x) => extra.len() > 0 && texts_of(x@) == extra,
                None => extra.len() == 0,
            }
        }),
{
    let missing = difference_of(definition_flags, deployment_flags);
    let extra = difference_of(deployment_flags, definition_flags);
    let in_sync = missing.len() == 0 && extra.len() == 0;
    SyncStatus {
        in_sync,
        missing_in_deployments: if missing.len() == 0 { None } else { Some(missing) },
        extra_in_deployments: if extra.len() == 0 { None } else { Some(extra) },
    }
}

pub open spec fn mark(b: bool) -> Seq<char> {
    if b { "✓"@ } else { "✗"@ }
}

fn mark_str(b: bool) -> (r: &'static str)
    ensures
        r@ == mark(b),
{
    if b { "✓" } else { "✗" }
}

/// The lines reported for one service's status.
pub open spec fn spec_status_lines(s: ServiceStatus) -> Seq<Seq<char>> {
    let base = seq![
        "\nService: "@ + s.name@,
        "  Path: "@ + s.relative_path@,
        "  Definitions: "@ + mark(s.has_definitions),
        "  Deployments: "@ + mark(s.has_deployments)
    ];
    let with_count = match s.flag_count {
        Some(c) => base.push("  Flags: "@ + decimal(c as nat)),
        None => base,
    };
    let with_envs = with_count.push(if s.environments@.len() > 0 {
        "  Environments: "@ + join_texts(texts_of(s.environments@), ", "@)
    } else {
        "  Environments: (none)"@
    }).push("  SDK Generated: "@ + mark(s.sdk_generated));
    match s.sync_status {
        Some(sync) => {
            let l1 = with_envs.push("  Sync Status: "@ + (if sync.in_sync { "✓ In sync"@ } else { "✗ Out of sync"@ }));
            let l2 = match sync.missing_in_deployments {
                Some(m) => l1.push("    Missing in deployments: "@ + join_texts(texts_of(m@), ", "@)),
                None => l1,
            };
            match sync.extra_in_deployments {
                Some(x) => l2.push("    Extra in deployments: "@ + join_texts(texts_of(x@), ", "@)),
                None => l2,
            }
        },
        None => with_envs,
    }
}

pub fn status_lines(s: &ServiceStatus) -> (r: Vec<String>)
    ensures
        texts_of(r@) == spec_status_lines(*s),
{
    let mut v: Vec<String> = Vec::new();
    let mut l = owned("\nService: ");
    push_text(&mut l, s.name.as_str());
    v.push(l);
    let mut l = owned("  Path: ");
    push_text(&mut l, s.relative_path.as_str());
    v.push(l);
    let mut l = owned("  Definitions: ");
    push_text(&mut l, mark_str(s.has_definitions));
    v.push(l);
    let mut l = owned("  Deployments: ");
    push_text(&mut l, mark_str(s.has_deployments));
    v.push(l);
    if let Some(c) = s.flag_count {
        let mut l = owned("  Flags: ");
        crate::json::write_decimal(&mut l, c as u64);
        v.push(l);
    }
    if s.environments.len() > 0 {
        let mut l = owned("  Environments: ");
        let e = join(&s.environments, ", ");
        push_text(&mut l, e.as_str());
        v.push(l);
    } else {
        v.push(owned("  Environments: (none)"));
    }
    let mut l = owned("  SDK Generated: ");
    push_text(&mut l, mark_str(s.sdk_generated));
    v.push(l);
    if let Some(sync) = &s.sync_status {
        let mut l = owned("  Sync Status: ");
        push_text(&mut l, if sync.in_sync { "✓ In sync" } else { "✗ Out of sync" });
        v.push(l);
        if let Some(m) = &sync.missing_in_deployments {
            let mut l = owned("    Missing in deployments: ");
            let j = join(m, ", ");
            push_text(&mut l, j.as_str());
            v.push(l);
        }
        if let Some(x) = &sync.extra_in_deployments {
            let mut l = owned("    Extra in deployments: ");
            let j = join(x, ", ");
            push_text(&mut l, j.as_str());
            v.push(l);
        }
    }
    proof {
        assert(texts_of(v@) =~= spec_status_lines(*s));
    }
    v
}

} // verus!
