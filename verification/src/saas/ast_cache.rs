//! SaaS environments found from the compiled artifacts on disk.

use vstd::prelude::*;
use crate::error::CliError;
use crate::text::{owned, texts_of, sort_strings, texts_sorted};

verus! {

/// Discovers SaaS environments from the `.controlpath/<env>.ast` files.
#[derive(Debug, Clone, Copy)]
pub struct FilesystemAstCache;

pub open spec fn no_cache_text() -> Seq<char> {
    "SaaS mode: no compiled artifacts in .controlpath/*.ast. Run `controlpath ci` (or sync with the SaaS client) before `generate-sdk`. Remove stray *.ast files you did not intend to embed (sync prunes only on download)."@
}

impl FilesystemAstCache {
    /// The environments with an artifact, sorted; there must be a cache
    /// directory and at least one. `environments` are those the files name.
    pub fn discover_environments(cache_dir_exists: bool, environments: Vec<String>) -> (r: Result<Vec<String>, CliError>)
        ensures
            !cache_dir_exists || environments@.len() == 0 ==> (r matches Err(e) && e.text() == no_cache_text()),
            cache_dir_exists && environments@.len() > 0 ==> (r matches Ok(v)
                && texts_of(v@).to_multiset() == texts_of(environments@).to_multiset() && texts_sorted(texts_of(v@))),
    {
        if !cache_dir_exists || environments.len() == 0 {
            return Err(CliError::Message(owned(
                "SaaS mode: no compiled artifacts in .controlpath/*.ast. Run `controlpath ci` (or sync with the SaaS client) before `generate-sdk`. Remove stray *.ast files you did not intend to embed (sync prunes only on download).",
            )));
        }
        Ok(sort_strings(environments))
    }
}

} // verus!
