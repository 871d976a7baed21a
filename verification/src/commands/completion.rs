//! `completion`: which shell a completion script is generated for.

use vstd::prelude::*;
use crate::error::CliError;
use crate::text::{chars_of, owned, push_text, text_eq_ignore_ascii_case, eq_ignore_ascii_case};

verus! {

pub struct Options {
    pub shell: String,
}

#[derive(Debug, Clone, Copy, PartialEq, Eq, Structural)]
pub enum ShellKind {
    Bash,
    Zsh,
    Fish,
}

/// The shell named by the option, in any case. (Lowercasing maps no character
/// but ASCII ones onto the ASCII letters of these names, so comparing without
/// regard to ASCII case decides the same.)
pub fn parse_shell(shell: &str) -> (r: Result<ShellKind, CliError>)
    ensures
        shell@.len() == 0 ==> (r matches Err(e) && e.text() == "Shell name is required. Supported shells: bash, zsh, fish"@),
        shell@.len() > 0 ==> match r {
            Ok(k) => (k == ShellKind::Bash && eq_ignore_ascii_case(shell@, "bash"@))
                || (k == ShellKind::Zsh && eq_ignore_ascii_case(shell@, "zsh"@))
                || (k == ShellKind::Fish && eq_ignore_ascii_case(shell@, "fish"@)),
            Err(e) => !eq_ignore_ascii_case(shell@, "bash"@) && !eq_ignore_ascii_case(shell@, "zsh"@)
                && !eq_ignore_ascii_case(shell@, "fish"@)
                && e.text() == "Unsupported shell: "@ + shell@ + ". Supported shells: bash, zsh, fish"@,
        },
{
    if chars_of(shell).len() == 0 {
        return Err(CliError::Message(owned("Shell name is required. Supported shells: bash, zsh, fish")));
    }
    if text_eq_ignore_ascii_case(shell, "bash") {
        Ok(ShellKind::Bash)
    } else if text_eq_ignore_ascii_case(shell, "zsh") {
        Ok(ShellKind::Zsh)
    } else if text_eq_ignore_ascii_case(shell, "fish") {
        Ok(ShellKind::Fish)
    } else {
        let mut m = owned("Unsupported shell: ");
        push_text(&mut m, shell);
        push_text(&mut m, ". Supported shells: bash, zsh, fish");
        Err(CliError::Message(m))
    }
}

} // verus!
