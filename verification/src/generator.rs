//! SDK generation: which language is generated, and what its templates receive.

pub mod typescript;

use vstd::prelude::*;
use crate::error::CliError;
use crate::text::{owned, push_text, text_eq};

verus! {

/// The languages an SDK is generated for.
#[derive(Debug, Clone, Copy, PartialEq, Eq, Structural)]
pub enum SdkLanguage {
    TypeScript,
}

/// The generator for a language: TypeScript (`typescript` or `ts`); any other
/// language is refused.
pub fn sdk_language(language: &str) -> (r: Result<SdkLanguage, CliError>)
    ensures
        (language@ == "typescript"@ || language@ == "ts"@) ==> r == Ok::<SdkLanguage, CliError>(SdkLanguage::TypeScript),
        !(language@ == "typescript"@ || language@ == "ts"@) ==> (r matches Err(e)
            && e.text() == "Unsupported language: "@ + language@ + ". Supported languages: typescript"@),
{
    if text_eq(language, "typescript") || text_eq(language, "ts") {
        Ok(SdkLanguage::TypeScript)
    } else {
        let mut m = owned("Unsupported language: ");
        push_text(&mut m, language);
        push_text(&mut m, ". Supported languages: typescript");
        Err(CliError::Message(m))
    }
}

} // verus!
