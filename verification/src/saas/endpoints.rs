//! The SaaS API and CDN endpoints of a catalog.

use vstd::prelude::*;
use crate::error::CliError;
use crate::text::{owned, trim, trimmed, chars_of};

verus! {

#[derive(Debug, Clone)]
pub struct ResolvedSaasEndpoints {
    pub api_url: Option<String>,
    pub cdn_url: String,
    pub catalog_scope: String,
}

/// The URLs a `saas` section (of the catalog or of the workspace) sets.
pub struct SaasUrls {
    pub api_url: Option<String>,
    pub cdn_url: Option<String>,
}

pub open spec fn opt_view(s: Option<String>) -> Option<Seq<char>> {
    match s {
        Some(x) => Some(x@),
        None => None,
    }
}

/// A URL: the catalog's, else the workspace's, trimmed; an empty one is none.
pub open spec fn pick_url(catalog: Option<Seq<char>>, workspace: Option<Seq<char>>) -> Option<Seq<char>> {
    let chosen = match catalog {
        Some(c) => Some(c),
        None => workspace,
    };
    match chosen {
        Some(u) => if trimmed(u).len() > 0 { Some(trimmed(u)) } else { None },
        None => None,
    }
}

fn pick(catalog: &Option<String>, workspace: Option<&Option<String>>) -> (r: Option<String>)
    ensures
        opt_view(r) == pick_url(opt_view(*catalog), match workspace { Some(w) => opt_view(*w), None => None }),
{
    let chosen: Option<&String> = match catalog {
        Some(c) => Some(c),
        None => match workspace {
            Some(Some(w)) => Some(w),
            _ => None,
        },
    };
    match chosen {
        Some(u) => {
            let t = trim(u.as_str());
            if chars_of(t.as_str()).len() > 0 { Some(t) } else { None }
        },
        None => None,
    }
}

/// The endpoints of a SaaS catalog: the API URL and the CDN URL of the catalog,
/// else of the workspace (the CDN URL defaults to `default_cdn`), and the
/// catalog's scope. A catalog without a `saas` section is refused.
pub fn resolve_saas_endpoints(
    catalog_saas: Option<&SaasUrls>,
    workspace_saas: Option<&SaasUrls>,
    scope_is_org: bool,
    default_cdn: &str,
) -> (r: Result<ResolvedSaasEndpoints, CliError>)
    ensures
        match catalog_saas {
            None => (r matches Err(e) && e.text() == "SaaS mode requires saas.project in control-path.yaml"@),
            Some(c) => (r matches Ok(x)
                && opt_view(x.api_url) == pick_url(opt_view(c.api_url), match workspace_saas { Some(w) => opt_view(w.api_url), None => None })
                && Some(x.cdn_url@) == (match pick_url(opt_view(c.cdn_url), match workspace_saas { Some(w) => opt_view(w.cdn_url), None => None }) {
                    Some(u) => Some(u),
                    None => Some(default_cdn@),
                })
                && x.catalog_scope@ == (if scope_is_org { "org"@ } else { "service"@ })),
        },
{
    let c = match catalog_saas {
        Some(c) => c,
        None => return Err(CliError::Message(owned("SaaS mode requires saas.project in control-path.yaml"))),
    };
    let api_url = pick(&c.api_url, match workspace_saas { Some(w) => Some(&w.api_url), None => None });
    let cdn_url = match pick(&c.cdn_url, match workspace_saas { Some(w) => Some(&w.cdn_url), None => None }) {
        Some(u) => u,
        None => owned(default_cdn),
    };
    Ok(ResolvedSaasEndpoints {
        api_url,
        cdn_url,
        catalog_scope: if scope_is_org { owned("org") } else { owned("service") },
    })
}

} // verus!
