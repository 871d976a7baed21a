//! `generate-sdk`: options and the output directory.

use vstd::prelude::*;
use crate::json::{JsonValue, JsonView};
use crate::ops::generate_sdk::{resolve_sdk_output_path, spec_sdk_output};

verus! {

pub struct Options {
    pub lang: Option<String>,
    pub output: Option<String>,
}

/// The SDK directory: `--output`, then the catalog's `sdk.output`, then the default.
pub fn determine_output_path(options: &Options, unified: Option<&JsonValue>) -> (r: String)
    ensures
        r@ == spec_sdk_output(
            match options.output { Some(o) => Some(o@), None => None },
            match unified { Some(u) => Some(u@), None => None },
        ),
{
    match &options.output {
        Some(o) => resolve_sdk_output_path(Some(o.as_str()), unified),
        None => resolve_sdk_output_path(None, unified),
    }
}

} // verus!
