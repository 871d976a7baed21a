//! `override`: options (a kill switch command under its older name), the notes
//! on options it ignores, and the history lookup.

use vstd::prelude::*;
use std::path::PathBuf;
use crate::error::{CliError, err_text};
use crate::json::{JsonValue, JsonView, json_text, json_to_string, view_get, value_get};
use crate::text::{owned, push_text};

verus! {

/// `std::path::PathBuf`, carried through unchanged.
#[verifier::external_type_specification]
#[verifier::external_body]
pub struct ExPathBuf(std::path::PathBuf);

pub struct Options {
    pub subcommand: OverrideSubcommand,
}

pub enum OverrideSubcommand {
    SetOverride {
        flag: String,
        value: String,
        reason: Option<String>,
        operator: Option<String>,
        file: Option<PathBuf>,
        definitions: Option<PathBuf>,
        env: Option<String>,
    },
    Clear {
        flag: String,
        file: Option<PathBuf>,
        env: Option<String>,
    },
    List {
        file: Option<PathBuf>,
        env: Option<String>,
    },
    History {
        flag: Option<String>,
        file: Option<PathBuf>,
        env: Option<String>,
    },
}

/// The notes printed for options a kill switch file cannot hold.
pub fn ignored_option_notes(operator: bool, definitions: bool, reason: bool) -> (r: Vec<String>)
    ensures
        r@.len() == (if operator { 1nat } else { 0nat }) + (if definitions { 1nat } else { 0nat }) + (if reason { 1nat } else { 0nat }),
        operator ==> r@[0]@ == "⚠ Note: --operator is not persisted in kill switch files."@,
        definitions ==> r@[if operator { 1int } else { 0int }]@ == "⚠ Note: --definitions is ignored for kill switch commands."@,
        reason ==> r@.last()@ == "⚠ Note: kill switch files store boolean values only; --reason is not persisted."@,
{
    let mut v: Vec<String> = Vec::new();
    if operator {
        v.push(owned("⚠ Note: --operator is not persisted in kill switch files."));
    }
    if definitions {
        v.push(owned("⚠ Note: --definitions is ignored for kill switch commands."));
    }
    if reason {
        v.push(owned("⚠ Note: kill switch files store boolean values only; --reason is not persisted."));
    }
    v
}

/// The note for a `--file` that is not the environment's kill switch file.
pub fn ignored_file_note(file: &str, canonical: &str) -> (r: String)
    ensures
        r@ == "⚠ Note: --file "@ + file@ + " is ignored; kill switches are stored in "@ + canonical@,
{
    let mut s = owned("⚠ Note: --file ");
    push_text(&mut s, file);
    push_text(&mut s, " is ignored; kill switches are stored in ");
    push_text(&mut s, canonical);
    s
}

/// The history of one flag: its switch as `<name>: <value>`, or an error naming the file.
pub fn history_line(flags: &JsonValue, name: &str, path: &str) -> (r: Result<String, CliError>)
    ensures
        match view_get(flags@, name@) {
            Some(v) => (r matches Ok(s) && s@ == name@ + ": "@ + json_text(v)),
            None => err_text(r) == Some("No kill switch set for '"@ + name@ + "' in "@ + path@),
        },
{
    match value_get(flags, name) {
        Some(v) => {
            let mut s = owned(name);
            push_text(&mut s, ": ");
            let t = json_to_string(v);
            push_text(&mut s, t.as_str());
            Ok(s)
        },
        None => {
            let mut m = owned("No kill switch set for '");
            push_text(&mut m, name);
            push_text(&mut m, "' in ");
            push_text(&mut m, path);
            Err(CliError::Message(m))
        },
    }
}

} // verus!
