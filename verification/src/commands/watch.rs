//! `watch`: which actions run on a change, and the paths and language used.

use vstd::prelude::*;
use crate::error::CliError;
use crate::text::{owned, push_text, join, join_texts, texts_of, unicode_lowercase, to_lowercase};
use crate::json::decimal;

verus! {

pub struct Options {
    pub lang: Option<String>,
    pub definitions: bool,
    pub deployments: bool,
}

/// The catalog file watched.
pub fn determine_catalog_path() -> (r: String)
    ensures
        r@ == "control-path.yaml"@,
{
    crate::utils::unified_config::get_unified_config_path()
}

/// The SDK directory: the catalog's `sdk.output` when the catalog exists, is
/// readable and sets it; else the default.
pub fn determine_output_path_for_sdk(config_output: Option<String>) -> (r: String)
    ensures
        r@ == match config_output {
            Some(o) => o@,
            None => "node_modules/@controlpath/generated"@,
        },
{
    match config_output {
        Some(o) => o,
        None => owned("node_modules/@controlpath/generated"),
    }
}

/// Which actions run: `(regenerate the SDK, recompile the ASTs)`. `--definitions`
/// alone limits to the SDK, `--deployments` alone to the ASTs; otherwise both run.
pub fn watch_actions(options: &Options) -> (r: (bool, bool))
    ensures
        r == (if options.definitions && !options.deployments {
            (true, false)
        } else if !options.definitions && options.deployments {
            (false, true)
        } else {
            (true, true)
        }),
{
    match (options.definitions, options.deployments) {
        (false, false) => (true, true),
        (true, false) => (true, false),
        (false, true) => (false, true),
        (true, true) => (true, true),
    }
}

/// The SDK language: the option lowercased, else `typescript`.
pub fn watch_language(lang: Option<&str>) -> (r: String)
    ensures
        r@ == unicode_lowercase(match lang { Some(l) => l@, None => "typescript"@ }),
{
    match lang {
        Some(l) => to_lowercase(l),
        None => to_lowercase("typescript"),
    }
}

/// Refusal when the catalog file does not exist.
pub fn catalog_not_found_error(path: &str) -> (r: CliError)
    ensures
        r.text() == "Catalog file not found: "@ + path@ + ". Run 'controlpath setup' or 'controlpath init'."@,
{
    let mut m = owned("Catalog file not found: ");
    push_text(&mut m, path);
    push_text(&mut m, ". Run 'controlpath setup' or 'controlpath init'.");
    CliError::Message(m)
}

/// `✓ Compiled <n> environment(s): <names>`.
pub fn compiled_summary(compiled: &Vec<String>) -> (r: String)
    ensures
        r@ == "✓ Compiled "@ + decimal(compiled@.len()) + " environment(s): "@ + join_texts(texts_of(compiled@), ", "@),
{
    let mut s = owned("✓ Compiled ");
    crate::json::write_decimal(&mut s, compiled.len() as u64);
    push_text(&mut s, " environment(s): ");
    let names = join(compiled, ", ");
    push_text(&mut s, names.as_str());
    s
}

} // verus!
