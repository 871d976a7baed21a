//! `env`: options, environment name checks and what the subcommands print.

use vstd::prelude::*;
use crate::error::CliError;
use crate::text::{owned, push_text, chars_of, texts_of, text_eq_ignore_ascii_case, eq_ignore_ascii_case};

verus! {

pub struct Options {
    pub subcommand: EnvSubcommand,
}

#[derive(Debug, Clone)]
pub enum EnvSubcommand {
    Add {
        name: Option<String>,
        interactive: bool,
    },
    Sync {
        env: Option<String>,
        dry_run: bool,
    },
    List {
        format: OutputFormat,
    },
    Remove {
        name: String,
    },
}

#[derive(Debug, Clone, Copy, PartialEq, Eq, Structural)]
pub enum OutputFormat {
    Table,
    Json,
    Yaml,
}

impl OutputFormat {
    /// The format named in any case (see the flag command's formats).
    pub fn from_str(s: &str) -> (r: Result<OutputFormat, CliError>)
        ensures
            match r {
                Ok(f) => (f == OutputFormat::Table && eq_ignore_ascii_case(s@, "table"@))
                    || (f == OutputFormat::Json && eq_ignore_ascii_case(s@, "json"@))
                    || (f == OutputFormat::Yaml && eq_ignore_ascii_case(s@, "yaml"@)),
                Err(e) => !eq_ignore_ascii_case(s@, "table"@) && !eq_ignore_ascii_case(s@, "json"@)
                    && !eq_ignore_ascii_case(s@, "yaml"@)
                    && e.text() == "Invalid format: "@ + s@ + ". Use table, json, or yaml"@,
            },
    {
        if text_eq_ignore_ascii_case(s, "table") {
            Ok(OutputFormat::Table)
        } else if text_eq_ignore_ascii_case(s, "json") {
            Ok(OutputFormat::Json)
        } else if text_eq_ignore_ascii_case(s, "yaml") {
            Ok(OutputFormat::Yaml)
        } else {
            let mut m = owned("Invalid format: ");
            push_text(&mut m, s);
            push_text(&mut m, ". Use table, json, or yaml");
            Err(CliError::Message(m))
        }
    }
}

/// A character of an environment name: lowercase ASCII letter, digit, `_` or `-`.
pub open spec fn env_char(c: char) -> bool {
    ('a' <= c && c <= 'z') || ('0' <= c && c <= '9') || c == '_' || c == '-'
}

pub open spec fn valid_environment_name(name: Seq<char>) -> bool {
    name.len() > 0 && forall|i: int| 0 <= i < name.len() ==> env_char(#[trigger] name[i])
}

/// Checks an environment name: not empty, and made of lowercase letters,
/// digits, underscores and hyphens.
pub fn validate_environment_name(name: &str) -> (r: Result<(), CliError>)
    ensures
        r is Ok <==> valid_environment_name(name@),
        name@.len() == 0 ==> (r matches Err(e) && e.text() ==
            "Environment name cannot be empty.\n  Tip: Environment names must be lowercase identifiers (e.g., 'production', 'staging', 'dev-env')"@),
        name@.len() > 0 && !valid_environment_name(name@) ==> (r matches Err(e) && e.text() ==
            "Invalid environment name: '"@ + name@
            + "'\n  Environment names must:\n  - Contain only lowercase letters, digits, underscores, and hyphens\n  - Not contain spaces or special characters\n  Examples: 'production', 'staging', 'dev-env', 'test_env'\n  Your input: '"@
            + name@ + "'"@),
{
    let cs = chars_of(name);
    if cs.len() == 0 {
        return Err(CliError::Message(owned(
            "Environment name cannot be empty.\n  Tip: Environment names must be lowercase identifiers (e.g., 'production', 'staging', 'dev-env')",
        )));
    }
    let mut i: usize = 0;
    while i < cs.len()
        invariant
            i <= cs@.len(),
            cs@ == name@,
            forall|j: int| 0 <= j < i ==> env_char(#[trigger] cs@[j]),
        decreases cs@.len() - i,
    {
        let c = cs[i];
        if !(('a' <= c && c <= 'z') || ('0' <= c && c <= '9') || c == '_' || c == '-') {
            let mut m = owned("Invalid environment name: '");
            push_text(&mut m, name);
            push_text(&mut m, "'\n  Environment names must:\n  - Contain only lowercase letters, digits, underscores, and hyphens\n  - Not contain spaces or special characters\n  Examples: 'production', 'staging', 'dev-env', 'test_env'\n  Your input: '");
            push_text(&mut m, name);
            push_text(&mut m, "'");
            return Err(CliError::Message(m));
        }
        i = i + 1;
    }
    Ok(())
}

/// The name `env add` works with: the one given, required outside interactive mode.
pub fn required_env_name(name: &Option<String>) -> (r: Result<String, CliError>)
    ensures
        match name {
            Some(n) => (r matches Ok(x) && x@ == n@),
            None => (r matches Err(e) && e.text()
                == "Environment name is required. Use --name <name> or run in interactive mode"@),
        },
{
    match name {
        Some(n) => Ok(n.clone()),
        None => Err(CliError::Message(owned("Environment name is required. Use --name <name> or run in interactive mode"))),
    }
}

/// The environments `env sync` reports on: the one named, else all (sorted by
/// the caller); there must be one.
pub fn sync_targets(env: &Option<String>, all_sorted: Vec<String>) -> (r: Result<Vec<String>, CliError>)
    ensures
        match env {
            Some(e) => (r matches Ok(v) && v@.len() == 1 && v@[0]@ == e@),
            None => if all_sorted@.len() == 0 {
                r matches Err(e) && e.text() == "No environments found in control-path.yaml."@
            } else {
                r matches Ok(v) && v@ == all_sorted@
            },
        },
{
    match env {
        Some(e) => {
            let mut v: Vec<String> = Vec::new();
            v.push(e.clone());
            Ok(v)
        },
        None => if all_sorted.len() == 0 {
            Err(CliError::Message(owned("No environments found in control-path.yaml.")))
        } else {
            Ok(all_sorted)
        },
    }
}

/// The line `env sync` prints for an environment.
pub fn sync_line(env: &str, dry_run: bool) -> (r: String)
    ensures
        r@ == if dry_run { env@ + " is up to date"@ } else { "✓ Synced "@ + env@ },
{
    if dry_run {
        let mut s = owned(env);
        push_text(&mut s, " is up to date");
        s
    } else {
        let mut s = owned("✓ Synced ");
        push_text(&mut s, env);
        s
    }
}

/// The lines of `env list` as a table.
pub fn env_table_lines(envs: &Vec<String>) -> (r: Vec<String>)
    ensures
        envs@.len() == 0 ==> r@.len() == 1 && r@[0]@ == "No environments found."@,
        envs@.len() > 0 ==> r@.len() == envs@.len() + 1 && r@[0]@ == "Environments:"@
            && forall|i: int| 0 <= i < envs@.len() ==> #[trigger] r@[i + 1]@ == "  "@ + envs@[i]@,
{
    let mut lines: Vec<String> = Vec::new();
    if envs.len() == 0 {
        lines.push(owned("No environments found."));
        return lines;
    }
    lines.push(owned("Environments:"));
    let mut i: usize = 0;
    while i < envs.len()
        invariant
            i <= envs@.len(),
            lines@.len() == i + 1,
            lines@[0]@ == "Environments:"@,
            forall|j: int| 0 <= j < i ==> #[trigger] lines@[j + 1]@ == "  "@ + envs@[j]@,
        decreases envs@.len() - i,
    {
        let mut s = owned("  ");
        push_text(&mut s, envs[i].as_str());
        lines.push(s);
        i = i + 1;
    }
    lines
}

} // verus!
