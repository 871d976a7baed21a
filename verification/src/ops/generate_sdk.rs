//! Options of the SDK generation operation, and where the SDK is written.

use vstd::prelude::*;
use crate::json::{JsonValue, JsonView};
use crate::text::owned;
use crate::utils::unified_config::{get_sdk_output_path, spec_sdk_output_path};

verus! {

/// Default directory of the generated SDK.
pub const DEFAULT_SDK_OUTPUT: &'static str = "node_modules/@controlpath/generated";

/// Options for generating the SDK.
pub struct GenerateOptions {
    /// Language to generate (detected when `None`).
    pub lang: Option<String>,
    /// Output directory (the catalog's `sdk.output`, else the default, when `None`).
    pub output: Option<String>,
}

/// The SDK directory: `--output`, then the catalog's `sdk.output`, then the default.
pub open spec fn spec_sdk_output(cli_output: Option<Seq<char>>, unified: Option<JsonView>) -> Seq<char> {
    match cli_output {
        Some(o) => o,
        None => match unified {
            Some(u) => match spec_sdk_output_path(u) {
                Some(p) => p,
                None => "node_modules/@controlpath/generated"@,
            },
            None => "node_modules/@controlpath/generated"@,
        },
    }
}

/// Resolves the SDK directory (see [`spec_sdk_output`]).
pub fn resolve_sdk_output_path(cli_output: Option<&str>, unified: Option<&JsonValue>) -> (r: String)
    ensures
        r@ == spec_sdk_output(
            match cli_output { Some(o) => Some(o@), None => None },
            match unified { Some(u) => Some(u@), None => None },
        ),
{
    match cli_output {
        Some(o) => owned(o),
        None => match unified {
            Some(u) => match get_sdk_output_path(u) {
                Some(p) => p,
                None => owned(DEFAULT_SDK_OUTPUT),
            },
            None => owned(DEFAULT_SDK_OUTPUT),
        },
    }
}

} // verus!
