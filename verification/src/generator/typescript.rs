//! What the TypeScript SDK templates receive: one entry per flag, the quoted
//! flag names, and the runtime URLs as TypeScript string literals.

use vstd::prelude::*;
use crate::json::{quoted, write_quoted};
use crate::text::{owned, push_text, contains_text, text_contains, texts_of};

verus! {

/// A flag of the SDK catalog, as the generator reads it.
#[derive(Debug, Clone)]
pub struct SdkFlag {
    pub qualified_name: String,
    pub sdk_method_name: String,
    pub default: bool,
    pub deprecated: bool,
    pub description: Option<String>,
}

/// A flag as the templates receive it.
#[derive(Debug, Clone)]
pub struct TemplateFlag {
    pub camel_name: String,
    pub method_name: String,
    pub qualified_name: String,
    pub default_value: String,
    pub is_deprecated: bool,
    pub description: Option<String>,
}

/// An environment's runtime URL as the templates receive it.
#[derive(Debug, Clone)]
pub struct TemplateUrl {
    pub env: String,
    /// The URL as a JSON string literal, which is a valid TypeScript one.
    pub url_json: String,
}

/// A value as a TypeScript string literal: its JSON string form, so quotes of
/// either kind in it are safe.
pub fn to_ts_string_literal(value: &str) -> (r: String)
    ensures
        r@ == quoted(value@),
{
    let mut out = String::new();
    write_quoted(&mut out, value);
    out
}

pub open spec fn opt_text(s: Option<String>) -> Option<Seq<char>> {
    match s {
        Some(x) => Some(x@),
        None => None,
    }
}

/// A flag's template entry: its SDK method name (as both names), qualified
/// name, default as `true`/`false`, deprecation and description.
pub open spec fn template_flag_fits(t: TemplateFlag, f: SdkFlag) -> bool {
    &&& t.camel_name@ == f.sdk_method_name@
    &&& t.method_name@ == f.sdk_method_name@
    &&& t.qualified_name@ == f.qualified_name@
    &&& t.default_value@ == (if f.default { "true"@ } else { "false"@ })
    &&& t.is_deprecated == f.deprecated
    &&& opt_text(t.description) == opt_text(f.description)
}

pub fn template_flag(flag: &SdkFlag) -> (r: TemplateFlag)
    ensures
        template_flag_fits(r, *flag),
{
    TemplateFlag {
        camel_name: flag.sdk_method_name.clone(),
        method_name: flag.sdk_method_name.clone(),
        qualified_name: flag.qualified_name.clone(),
        default_value: if flag.default { owned("true") } else { owned("false") },
        is_deprecated: flag.deprecated,
        description: match &flag.description {
            Some(d) => Some(d.clone()),
            None => None,
        },
    }
}

pub fn template_flags(flags: &Vec<SdkFlag>) -> (r: Vec<TemplateFlag>)
    ensures
        r@.len() == flags@.len(),
        forall|i: int| 0 <= i < r@.len() ==> #[trigger] template_flag_fits(r@[i], flags@[i]),
{
    let mut out: Vec<TemplateFlag> = Vec::new();
    let mut i: usize = 0;
    while i < flags.len()
        invariant
            i <= flags@.len(),
            out@.len() == i,
            forall|j: int| 0 <= j < i ==> #[trigger] template_flag_fits(out@[j], flags@[j]),
        decreases flags@.len() - i,
    {
        out.push(template_flag(&flags[i]));
        i = i + 1;
    }
    out
}

/// The names the templates list: each flag's method name in single quotes.
pub fn flag_names(flags: &Vec<TemplateFlag>) -> (r: Vec<String>)
    ensures
        texts_of(r@) == flags@.map_values(|t: TemplateFlag| "'"@ + t.camel_name@ + "'"@),
{
    let mut out: Vec<String> = Vec::new();
    let mut i: usize = 0;
    while i < flags.len()
        invariant
            i <= flags@.len(),
            texts_of(out@) == flags@.take(i as int).map_values(|t: TemplateFlag| "'"@ + t.camel_name@ + "'"@),
        decreases flags@.len() - i,
    {
        let mut s = owned("'");
        push_text(&mut s, flags[i].camel_name.as_str());
        push_text(&mut s, "'");
        let ghost before = out@;
        out.push(s);
        proof {
            assert(texts_of(out@) =~= texts_of(before).push(s@));
            assert(flags@.take(i + 1).map_values(|t: TemplateFlag| "'"@ + t.camel_name@ + "'"@)
                =~= flags@.take(i as int).map_values(|t: TemplateFlag| "'"@ + t.camel_name@ + "'"@).push("'"@ + flags@[i as int].camel_name@ + "'"@));
        }
        i = i + 1;
    }
    proof {
        assert(flags@.take(flags@.len() as int) =~= flags@);
    }
    out
}

/// The runtime URLs of the environments (environment and URL, in order) as
/// the templates receive them.
pub fn template_urls(urls: &Vec<(String, String)>) -> (r: Vec<TemplateUrl>)
    ensures
        r@.len() == urls@.len(),
        forall|i: int| 0 <= i < r@.len() ==> #[trigger] r@[i].env@ == urls@[i].0@ && r@[i].url_json@ == quoted(urls@[i].1@),
{
    let mut out: Vec<TemplateUrl> = Vec::new();
    let mut i: usize = 0;
    while i < urls.len()
        invariant
            i <= urls@.len(),
            out@.len() == i,
            forall|j: int| 0 <= j < i ==> #[trigger] out@[j].env@ == urls@[j].0@ && out@[j].url_json@ == quoted(urls@[j].1@),
        decreases urls@.len() - i,
    {
        let ghost before = out@;
        out.push(TemplateUrl { env: urls[i].0.clone(), url_json: to_ts_string_literal(urls[i].1.as_str()) });
        proof {
            assert forall|j: int| 0 <= j < i + 1 implies #[trigger] out@[j].env@ == urls@[j].0@ && out@[j].url_json@ == quoted(urls@[j].1@) by {
                if j < i {
                    assert(out@[j] == before[j]);
                }
            }
        }
        i = i + 1;
    }
    out
}

/// A package manifest is written with the SDK when it goes under `node_modules`.
pub fn needs_package_json(output_dir: &str) -> (r: bool)
    ensures
        r == contains_text(output_dir@, "node_modules"@),
{
    text_contains(output_dir, "node_modules")
}

/// The package manifest of a generated SDK.
pub const PACKAGE_JSON: &'static str = "{
  \"name\": \"@controlpath/generated\",
  \"version\": \"0.1.0\",
  \"type\": \"module\",
  \"main\": \"index.ts\",
  \"types\": \"index.ts\",
  \"exports\": {
    \".\": {
      \"types\": \"./index.ts\",
      \"import\": \"./index.ts\",
      \"default\": \"./index.ts\"
    }
  },
  \"dependencies\": {
    \"@controlpath/runtime\": \"^0.1.0\"
  }
}";

} // verus!
