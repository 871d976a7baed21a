//! Values exchanged with the SaaS service.

use vstd::prelude::*;

verus! {

/// Compiled AST bytes of one environment.
#[derive(Debug, Clone)]
pub struct RemoteAstArtifact {
    pub environment: String,
    pub bytes: Vec<u8>,
}

/// Result of upserting the catalog's flags.
#[derive(Debug, Clone)]
pub struct CatalogSyncResult {
    pub upserted_flags: Vec<String>,
}

/// Outcome of a full sync: flags retired, then flags upserted.
#[derive(Debug, Clone)]
pub struct CatalogSyncOutcome {
    pub retired_flags: Vec<String>,
    pub upserted_flags: Vec<String>,
}

/// Observed runtime signals of one flag.
#[derive(Debug, Clone)]
pub struct FlagTelemetry {
    pub flag_key: String,
    pub last_evaluated: Option<String>,
    pub evaluation_count: u64,
    pub rot_suggestion: Option<String>,
}

} // verus!
