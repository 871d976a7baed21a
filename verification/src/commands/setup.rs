//! `setup`: options and the files and steps a new project gets.

use vstd::prelude::*;
use crate::error::CliError;
use crate::text::{owned, push_text, text_eq};

verus! {

/// Where `setup` writes the SDK.
pub const SDK_OUTPUT_DIR: &'static str = "./flags";
/// The catalog file.
pub const UNIFIED_CONFIG_FILE: &'static str = "control-path.yaml";

pub struct Options {
    /// Language for SDK generation (detected when `None`).
    pub lang: Option<String>,
    /// Skip installing the runtime SDK package.
    pub skip_install: bool,
    /// Create a minimal project, without example flags or example usage files.
    pub no_examples: bool,
}

pub open spec fn is_typescript(lang: Seq<char>) -> bool {
    lang == "typescript"@ || lang == "ts"@
}

pub open spec fn spec_file_extension(lang: Seq<char>) -> Seq<char> {
    if is_typescript(lang) {
        "ts"@
    } else if lang == "python"@ || lang == "py"@ {
        "py"@
    } else if lang == "javascript"@ || lang == "js"@ {
        "js"@
    } else {
        "txt"@
    }
}

/// File extension of a language's example file.
pub fn get_file_extension(lang: &str) -> (r: &'static str)
    ensures
        r@ == spec_file_extension(lang@),
{
    if text_eq(lang, "typescript") || text_eq(lang, "ts") {
        "ts"
    } else if text_eq(lang, "python") || text_eq(lang, "py") {
        "py"
    } else if text_eq(lang, "javascript") || text_eq(lang, "js") {
        "js"
    } else {
        "txt"
    }
}

/// A project exists when its catalog or its `.controlpath` directory does.
pub fn check_existing_project(catalog_exists: bool, controlpath_dir_exists: bool) -> (r: bool)
    ensures
        r == (catalog_exists || controlpath_dir_exists),
{
    catalog_exists || controlpath_dir_exists
}

/// Catalog written with an example flag.
pub const EXAMPLE_CATALOG: &'static str = "mode: local
flags:
  - name: example_flag
    type: boolean
    default: false
    description: An example feature flag
    environments:
      production:
        - serve: false
      staging:
        - serve: false
";

/// Catalog written without examples.
pub const MINIMAL_CATALOG: &'static str = "mode: local
flags: []
";

/// The catalog a new project starts with.
pub fn unified_config_content(with_examples: bool) -> (r: &'static str)
    ensures
        r@ == (if with_examples { EXAMPLE_CATALOG@ } else { MINIMAL_CATALOG@ }),
{
    if with_examples { EXAMPLE_CATALOG } else { MINIMAL_CATALOG }
}

/// The environments compiled for a new project.
pub fn initial_envs(with_examples: bool) -> (r: Vec<String>)
    ensures
        with_examples ==> r@.len() == 2 && r@[0]@ == "production"@ && r@[1]@ == "staging"@,
        !with_examples ==> r@.len() == 1 && r@[0]@ == "production"@,
{
    let mut v: Vec<String> = Vec::new();
    v.push(owned("production"));
    if with_examples {
        v.push(owned("staging"));
    }
    v
}

/// Example usage file written for TypeScript projects.
pub const TS_EXAMPLE_USAGE: &'static str = "// Example usage of Control Path SDK
import { evaluator } from './flags';
import type { User } from './flags';

async function main() {
  await evaluator.init({ artifact: './.controlpath/production.ast' });
  
  const user: User = {
    id: 'user123',
    role: 'admin',
    email: 'user@example.com',
  };
  
  evaluator.setContext(user);
  const newDashboardEnabled = await evaluator.exampleFlag();
  console.log('Example flag enabled:', newDashboardEnabled);
  
  const result = await evaluator.exampleFlag(user);
  console.log('Example flag (explicit user):', result);
  
  const allFlags = await evaluator.evaluateAll(user);
  console.log('All flags:', allFlags);
  
  const batch = await evaluator.evaluateBatch(['exampleFlag'], user);
  console.log('Batch evaluation:', batch);
}

main().catch(console.error);
";

/// The example usage file of a language: its name and its content.
pub fn example_usage_file(lang: &str) -> (r: (String, String))
    ensures
        r.0@ == "example_usage."@ + spec_file_extension(lang@),
        is_typescript(lang@) ==> r.1@ == TS_EXAMPLE_USAGE@,
        !is_typescript(lang@) ==> r.1@ == "// Example usage of Control Path SDK for "@ + lang@ + "\n"@,
{
    let ext = get_file_extension(lang);
    let mut name = owned("example_usage.");
    push_text(&mut name, ext);
    if text_eq(lang, "typescript") || text_eq(lang, "ts") {
        (name, owned(TS_EXAMPLE_USAGE))
    } else {
        let mut content = owned("// Example usage of Control Path SDK for ");
        push_text(&mut content, lang);
        push_text(&mut content, "\n");
        (name, content)
    }
}

/// The error reported when an example file cannot be written.
pub fn example_write_error(file_name: &str, cause: &str) -> (r: CliError)
    ensures
        r.text() == "Failed to write "@ + file_name@ + ": "@ + cause@
            + ". Ensure you have write permissions in the current directory."@,
{
    let mut m = owned("Failed to write ");
    push_text(&mut m, file_name);
    push_text(&mut m, ": ");
    push_text(&mut m, cause);
    push_text(&mut m, ". Ensure you have write permissions in the current directory.");
    CliError::Message(m)
}

/// How the runtime SDK is installed for a language.
#[derive(Debug)]
pub enum RuntimeInstall {
    /// `npm install @controlpath/runtime` (after writing a `package.json` when there is none).
    Npm,
    /// Nothing is installed; the note is printed.
    Note(String),
}

/// The `package.json` written for a TypeScript project that has none.
pub const DEFAULT_PACKAGE_JSON: &'static str = "{
  \"name\": \"my-control-path-project\",
  \"version\": \"1.0.0\",
  \"type\": \"module\",
  \"scripts\": {
    \"start\": \"node example.js\"
  }
}
";

pub fn runtime_install_plan(lang: &str) -> (r: RuntimeInstall)
    ensures
        is_typescript(lang@) ==> r is Npm,
        !is_typescript(lang@) && (lang@ == "python"@ || lang@ == "py"@) ==> (r matches RuntimeInstall::Note(n)
            && n@ == "  Note: Python runtime SDK installation not yet implemented"@),
        !is_typescript(lang@) && !(lang@ == "python"@ || lang@ == "py"@) ==> (r matches RuntimeInstall::Note(n)
            && n@ == "  Note: Runtime SDK installation for "@ + lang@ + " not yet implemented"@),
{
    if text_eq(lang, "typescript") || text_eq(lang, "ts") {
        RuntimeInstall::Npm
    } else if text_eq(lang, "python") || text_eq(lang, "py") {
        RuntimeInstall::Note(owned("  Note: Python runtime SDK installation not yet implemented"))
    } else {
        let mut n = owned("  Note: Runtime SDK installation for ");
        push_text(&mut n, lang);
        push_text(&mut n, " not yet implemented");
        RuntimeInstall::Note(n)
    }
}

/// Refusal when the project already exists.
pub fn existing_project_error() -> (r: CliError)
    ensures
        r.text() == "Project already initialized. Remove control-path.yaml or .controlpath directory to start fresh."@,
{
    CliError::Message(owned("Project already initialized. Remove control-path.yaml or .controlpath directory to start fresh."))
}

} // verus!
