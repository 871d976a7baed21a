//! `dev`: the project checks made before watching, and the banner text.

use vstd::prelude::*;
use crate::error::CliError;
use crate::text::{owned, push_text};

verus! {

pub struct Options {
    /// Language override (the configured or detected one when `None`).
    pub lang: Option<String>,
}

/// The files dev mode needs: the catalog, at least one environment in it, and
/// the `.controlpath` directory, checked in that order. (`envs` is not consulted
/// when the catalog is missing.)
pub fn validate_core_files(config_exists: bool, envs: &Vec<String>, controlpath_dir_exists: bool) -> (r: Result<(), CliError>)
    ensures
        !config_exists ==> (r matches Err(e) && e.text() ==
            "Configuration file not found: control-path.yaml\n  Run 'controlpath setup' or 'controlpath init' to initialize the project."@),
        config_exists && envs@.len() == 0 ==> (r matches Err(e) && e.text() ==
            "No environments found in control-path.yaml\n  Run 'controlpath env add --name <env>' first."@),
        config_exists && envs@.len() > 0 && !controlpath_dir_exists ==> (r matches Err(e) && e.text() ==
            ".controlpath directory not found\n  Run 'controlpath setup' to initialize the project."@),
        config_exists && envs@.len() > 0 && controlpath_dir_exists ==> r is Ok,
{
    if !config_exists {
        return Err(CliError::Message(owned(
            "Configuration file not found: control-path.yaml\n  Run 'controlpath setup' or 'controlpath init' to initialize the project.",
        )));
    }
    if envs.len() == 0 {
        return Err(CliError::Message(owned(
            "No environments found in control-path.yaml\n  Run 'controlpath env add --name <env>' first.",
        )));
    }
    if !controlpath_dir_exists {
        return Err(CliError::Message(owned(".controlpath directory not found\n  Run 'controlpath setup' to initialize the project.")));
    }
    Ok(())
}

/// The environment note of the banner: ` (env: <env>)`, or nothing.
pub fn env_info(env: Option<&str>) -> (r: String)
    ensures
        r@ == match env {
            Some(e) => " (env: "@ + e@ + ")"@,
            None => Seq::<char>::empty(),
        },
{
    match env {
        Some(e) => {
            let mut s = owned(" (env: ");
            push_text(&mut s, e);
            push_text(&mut s, ")");
            s
        },
        None => String::new(),
    }
}

} // verus!
