//! Error type of the library.

use vstd::prelude::*;

verus! {

/// An error carrying the message that the command line prints.
#[derive(Debug)]
pub enum CliError {
    Message(String),
}

impl CliError {
    pub open spec fn text(&self) -> Seq<char> {
        match self {
            CliError::Message(m) => m@,
        }
    }

    /// The message text (what `to_string()` prints for the error).
    pub fn message(&self) -> (r: String)
        ensures
            r@ == self.text(),
    {
        match self {
            CliError::Message(m) => m.clone(),
        }
    }
}

/// The text of an error result, if it is one.
pub open spec fn err_text<T>(r: Result<T, CliError>) -> Option<Seq<char>> {
    match r {
        Ok(_) => None,
        Err(e) => Some(e.text()),
    }
}

} // verus!
