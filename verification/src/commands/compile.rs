//! `compile`: options and the artifact paths the command uses.

use vstd::prelude::*;
use crate::error::CliError;
use crate::text::{owned, push_text};

verus! {

pub struct Options {
    pub env: Option<String>,
    pub output: Option<String>,
}

pub open spec fn default_ast_path(env: Seq<char>) -> Seq<char> {
    ".controlpath/"@ + env + ".ast"@
}

/// The environment to compile, where the compiler writes its artifact, and where
/// the command delivers it (`--output`, else that same place).
pub fn compile_paths(options: &Options) -> (r: Result<(String, String, String), CliError>)
    ensures
        match options.env {
            None => (r matches Err(e) && e.text() == "Use --env <env> with control-path.yaml"@),
            Some(env) => (r matches Ok(t) && t.0@ == env@ && t.1@ == default_ast_path(env@)
                && t.2@ == match options.output { Some(o) => o@, None => default_ast_path(env@) }),
        },
{
    let env = match &options.env {
        Some(e) => e,
        None => return Err(CliError::Message(owned("Use --env <env> with control-path.yaml"))),
    };
    let mut default_output = owned(".controlpath/");
    push_text(&mut default_output, env.as_str());
    push_text(&mut default_output, ".ast");
    let output = match &options.output {
        Some(o) => o.clone(),
        None => default_output.clone(),
    };
    Ok((env.clone(), default_output, output))
}

} // verus!
