//! Paths of a service's files.

use vstd::prelude::*;
use crate::paths::{spec_path_join, path_join};
use crate::monorepo::service::{ServiceContext, spec_base_path};
use crate::text::{owned, push_text};

verus! {

/// A path for a service: an absolute path as it is, a relative one under the
/// service's directory (`.` outside a monorepo).
pub fn resolve_service_path(path: &str, context: &ServiceContext) -> (r: String)
    ensures
        r@ == spec_path_join(spec_base_path(*context), path@),
{
    let base = context.base_path();
    path_join(base.as_str(), path)
}

/// Paths of the files a command reads and writes, for one service context.
pub struct ServicePathResolver {
    pub context: ServiceContext,
}

impl ServicePathResolver {
    pub fn new(context: ServiceContext) -> (r: Self)
        ensures
            r.context == context,
    {
        ServicePathResolver { context }
    }

    pub fn base_path(&self) -> (r: String)
        ensures
            r@ == spec_base_path(self.context),
    {
        self.context.base_path()
    }

    pub fn definitions_file(&self) -> (r: String)
        ensures
            r@ == spec_path_join(spec_base_path(self.context), "flags.definitions.yaml"@),
    {
        resolve_service_path("flags.definitions.yaml", &self.context)
    }

    pub fn deployment_file(&self, env: &str) -> (r: String)
        ensures
            r@ == spec_path_join(spec_base_path(self.context), ".controlpath/"@ + env@ + ".deployment.yaml"@),
    {
        let mut p = owned(".controlpath/");
        push_text(&mut p, env);
        push_text(&mut p, ".deployment.yaml");
        resolve_service_path(p.as_str(), &self.context)
    }

    pub fn ast_file(&self, env: &str) -> (r: String)
        ensures
            r@ == spec_path_join(spec_base_path(self.context), ".controlpath/"@ + env@ + ".ast"@),
    {
        let mut p = owned(".controlpath/");
        push_text(&mut p, env);
        push_text(&mut p, ".ast");
        resolve_service_path(p.as_str(), &self.context)
    }

    pub fn controlpath_dir(&self) -> (r: String)
        ensures
            r@ == spec_path_join(spec_base_path(self.context), ".controlpath"@),
    {
        resolve_service_path(".controlpath", &self.context)
    }

    pub fn sdk_output(&self, default: &str) -> (r: String)
        ensures
            r@ == spec_path_join(spec_base_path(self.context), default@),
    {
        resolve_service_path(default, &self.context)
    }

    pub fn config_file(&self) -> (r: String)
        ensures
            r@ == spec_path_join(spec_base_path(self.context), ".controlpath/config.yaml"@),
    {
        resolve_service_path(".controlpath/config.yaml", &self.context)
    }
}

} // verus!
