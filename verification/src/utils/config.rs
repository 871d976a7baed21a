//! The project configuration file (`.controlpath/config.yaml`).

use vstd::prelude::*;

verus! {

/// The configuration file's fields. `branch_environments` maps git branches to
/// environments, one entry per branch.
#[derive(Debug, Clone)]
pub struct ConfigFile {
    pub language: Option<String>,
    pub default_env: Option<String>,
    pub default_env_alt: Option<String>,
    pub sdk_output: Option<String>,
    pub sign_key: Option<String>,
    pub branch_environments: Option<Vec<(String, String)>>,
    pub mode: Option<String>,
}

/// A configuration with no field set (what a missing or unreadable file stands for).
pub fn empty_config() -> (r: ConfigFile)
    ensures
        r.language is None,
        r.default_env is None,
        r.default_env_alt is None,
        r.sdk_output is None,
        r.sign_key is None,
        r.branch_environments is None,
        r.mode is None,
{
    ConfigFile {
        language: None,
        default_env: None,
        default_env_alt: None,
        sdk_output: None,
        sign_key: None,
        branch_environments: None,
        mode: None,
    }
}

/// The configuration with its language set; nothing else changes.
pub fn with_language(config: ConfigFile, language: &str) -> (r: ConfigFile)
    ensures
        r.language matches Some(l) && l@ == language@,
        r.default_env == config.default_env,
        r.default_env_alt == config.default_env_alt,
        r.sdk_output == config.sdk_output,
        r.sign_key == config.sign_key,
        r.branch_environments == config.branch_environments,
        r.mode == config.mode,
{
    ConfigFile { language: Some(language.to_string()), ..config }
}

/// The configuration with its default environment set, under both spellings;
/// nothing else changes.
pub fn with_default_env(config: ConfigFile, env: &str) -> (r: ConfigFile)
    ensures
        r.default_env matches Some(d) && d@ == env@,
        r.default_env_alt matches Some(d) && d@ == env@,
        r.language == config.language,
        r.sdk_output == config.sdk_output,
        r.sign_key == config.sign_key,
        r.branch_environments == config.branch_environments,
        r.mode == config.mode,
{
    ConfigFile { default_env: Some(env.to_string()), default_env_alt: Some(env.to_string()), ..config }
}

/// The branch mapping and the default environment (`default_env`, else `defaultEnv`).
pub fn environment_defaults(config: Option<ConfigFile>) -> (r: (Option<Vec<(String, String)>>, Option<String>))
    ensures
        match config {
            Some(c) => r.0 == c.branch_environments && r.1 == (if c.default_env is Some { c.default_env } else { c.default_env_alt }),
            None => r.0 is None && r.1 is None,
        },
{
    match config {
        Some(c) => {
            let d = match c.default_env {
                Some(d) => Some(d),
                None => c.default_env_alt,
            };
            (c.branch_environments, d)
        },
        None => (None, None),
    }
}

} // verus!
