//! Which directories hold services.

use vstd::prelude::*;
use crate::text::{owned, texts_of, text_eq};

verus! {

/// The directories where services are looked for, in order.
pub open spec fn spec_service_patterns() -> Seq<Seq<char>> {
    seq!["services"@, "packages"@, "apps"@, "microservices"@]
}

pub fn service_directory_patterns() -> (r: Vec<String>)
    ensures
        texts_of(r@) == spec_service_patterns(),
{
    let mut v: Vec<String> = Vec::new();
    v.push(owned("services"));
    v.push(owned("packages"));
    v.push(owned("apps"));
    v.push(owned("microservices"));
    proof {
        assert(texts_of(v@) =~= spec_service_patterns());
    }
    v
}

/// A directory is a service when it has `flags.definitions.yaml` or a
/// `.controlpath` directory.
pub fn is_service(has_definitions: bool, has_controlpath_dir: bool) -> (r: bool)
    ensures
        r == (has_definitions || has_controlpath_dir),
{
    has_definitions || has_controlpath_dir
}

/// The monorepo section of the project configuration.
#[derive(Debug, Clone)]
pub struct MonorepoConfig {
    pub discovery: String,
    pub services: Option<Vec<String>>,
    pub service_directories: Vec<String>,
}

/// How services are found: listed by name (explicit discovery with a list), or
/// by scanning directories.
pub enum Discovery {
    Named(Vec<String>),
    Scan(Vec<String>),
}

pub fn discovery_plan(config: Option<&MonorepoConfig>) -> (r: Discovery)
    ensures
        match config {
            Some(c) => if c.discovery@ == "explicit"@ && c.services is Some {
                r matches Discovery::Named(v) && texts_of(v@) == texts_of(c.services->Some_0@)
            } else {
                r matches Discovery::Scan(v) && texts_of(v@) == texts_of(c.service_directories@)
            },
            None => (r matches Discovery::Scan(v) && texts_of(v@) == spec_service_patterns()),
        },
{
    match config {
        Some(c) => {
            if text_eq(c.discovery.as_str(), "explicit") {
                if let Some(s) = &c.services {
                    return Discovery::Named(s.clone());
                }
            }
            Discovery::Scan(c.service_directories.clone())
        },
        None => Discovery::Scan(service_directory_patterns()),
    }
}

} // verus!
