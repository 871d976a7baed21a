//! Options of the compile operation.

use vstd::prelude::*;

verus! {

/// Options for compiling AST artifacts.
pub struct CompileOptions {
    /// Environment names to compile (all when `None`).
    pub envs: Option<Vec<String>>,
}

} // verus!
