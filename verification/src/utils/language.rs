//! Choice of the SDK language.

use vstd::prelude::*;
use crate::text::owned;

verus! {

/// What language detection looks at: the configured language and which project
/// files exist.
pub struct LanguageProbes {
    pub config_language: Option<String>,
    pub package_json: bool,
    pub requirements_txt: bool,
    pub pyproject_toml: bool,
    pub go_mod: bool,
    pub cargo_toml: bool,
}

pub open spec fn spec_detect_language(p: LanguageProbes) -> Seq<char> {
    match p.config_language {
        Some(l) => l@,
        None => if p.package_json {
            "typescript"@
        } else if p.requirements_txt || p.pyproject_toml {
            "python"@
        } else if p.go_mod {
            "go"@
        } else if p.cargo_toml {
            "rust"@
        } else {
            "typescript"@
        },
    }
}

/// The language: the configured one, else the one the project files suggest,
/// else TypeScript.
pub fn detect_language(probes: &LanguageProbes) -> (r: String)
    ensures
        r@ == spec_detect_language(*probes),
{
    match &probes.config_language {
        Some(l) => l.clone(),
        None => if probes.package_json {
            owned("typescript")
        } else if probes.requirements_txt || probes.pyproject_toml {
            owned("python")
        } else if probes.go_mod {
            owned("go")
        } else if probes.cargo_toml {
            owned("rust")
        } else {
            owned("typescript")
        },
    }
}

/// The language given on the command line, else the detected one.
pub fn determine_language(cli_lang: Option<String>, probes: &LanguageProbes) -> (r: String)
    ensures
        r@ == match cli_lang {
            Some(l) => l@,
            None => spec_detect_language(*probes),
        },
{
    match cli_lang {
        Some(l) => l,
        None => detect_language(probes),
    }
}

} // verus!
