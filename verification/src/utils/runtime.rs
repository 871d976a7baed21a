//! Process-wide command line behaviour: JSON output, interactivity, verbosity.
//!
//! The options are installed once per process; the functions here take what is
//! installed (`None` before installation) and answer from it.

use vstd::prelude::*;
use crate::error::CliError;
use crate::text::{owned, push_text};

verus! {

#[derive(Clone, Copy, Debug)]
pub struct RuntimeOptions {
    pub json_output: bool,
    pub non_interactive: bool,
    pub verbose: u8,
    pub quiet: bool,
}

/// The options in force when none were installed.
pub open spec fn default_runtime() -> RuntimeOptions {
    RuntimeOptions { json_output: false, non_interactive: false, verbose: 0, quiet: false }
}

pub open spec fn spec_current(installed: Option<&RuntimeOptions>) -> RuntimeOptions {
    match installed {
        Some(o) => *o,
        None => default_runtime(),
    }
}

/// Installs the options once; a second installation is refused and changes nothing.
pub fn init_runtime_options(slot: &mut Option<RuntimeOptions>, options: RuntimeOptions) -> (r: Result<(), CliError>)
    ensures
        *old(slot) is None ==> r is Ok && *final(slot) == Some(options),
        *old(slot) is Some ==> *final(slot) == *old(slot) && (r matches Err(e)
            && e.text() == "Runtime options were already initialized for this process"@),
{
    if slot.is_some() {
        return Err(CliError::Message(owned("Runtime options were already initialized for this process")));
    }
    *slot = Some(options);
    Ok(())
}

/// The options in force: the installed ones, else the defaults.
pub fn current(installed: Option<&RuntimeOptions>) -> (r: RuntimeOptions)
    ensures
        r == spec_current(installed),
{
    match installed {
        Some(o) => *o,
        None => RuntimeOptions { json_output: false, non_interactive: false, verbose: 0, quiet: false },
    }
}

pub fn is_json_output(installed: Option<&RuntimeOptions>) -> (r: bool)
    ensures
        r == spec_current(installed).json_output,
{
    current(installed).json_output
}

pub fn is_non_interactive(installed: Option<&RuntimeOptions>) -> (r: bool)
    ensures
        r == spec_current(installed).non_interactive,
{
    current(installed).non_interactive
}

pub fn is_quiet(installed: Option<&RuntimeOptions>) -> (r: bool)
    ensures
        r == spec_current(installed).quiet,
{
    current(installed).quiet
}

pub fn verbose_level(installed: Option<&RuntimeOptions>) -> (r: u8)
    ensures
        r == spec_current(installed).verbose,
{
    current(installed).verbose
}

/// Refuses an interactive `action` in non-interactive mode.
pub fn require_interactive(installed: Option<&RuntimeOptions>, action: &str) -> (r: Result<(), CliError>)
    ensures
        r is Ok <==> !spec_current(installed).non_interactive,
        r matches Err(e) ==> e.text() == "Cannot "@ + action@
            + " in non-interactive mode. Pass required flags or remove --non-interactive."@,
{
    if is_non_interactive(installed) {
        let mut m = owned("Cannot ");
        push_text(&mut m, action);
        push_text(&mut m, " in non-interactive mode. Pass required flags or remove --non-interactive.");
        return Err(CliError::Message(m));
    }
    Ok(())
}

} // verus!
