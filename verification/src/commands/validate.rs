//! `validate`: which files are validated, the environment check, and warnings.

use vstd::prelude::*;
use crate::error::CliError;
use crate::text::{owned, push_text, list_contains, texts_of, text_eq};
use crate::json::decimal;

verus! {

pub struct Options {
    pub env: Option<String>,
    pub all: bool,
}

#[derive(Debug, Clone)]
pub enum FileToValidate {
    UnifiedConfig,
    Environment(String),
}

/// Files the options name: the `--env` environment, else the catalog with `--all`.
pub fn collect_files_from_options(options: &Options) -> (r: Vec<FileToValidate>)
    ensures
        match options.env {
            Some(e) => r@.len() == 1 && (r@[0] matches FileToValidate::Environment(x) && x@ == e@),
            None => if options.all { r@.len() == 1 && r@[0] is UnifiedConfig } else { r@.len() == 0 },
        },
{
    let mut files: Vec<FileToValidate> = Vec::new();
    match &options.env {
        Some(env) => files.push(FileToValidate::Environment(env.clone())),
        None => if options.all {
            files.push(FileToValidate::UnifiedConfig);
        },
    }
    files
}

/// Files validated without options: the catalog.
pub fn auto_detect_files() -> (r: Vec<FileToValidate>)
    ensures
        r@.len() == 1 && r@[0] is UnifiedConfig,
{
    let mut v: Vec<FileToValidate> = Vec::new();
    v.push(FileToValidate::UnifiedConfig);
    v
}

/// All files to validate: those the options name, followed by the detected ones
/// when the options name none or ask for all.
pub fn files_to_validate(options: &Options) -> (r: Vec<FileToValidate>)
    ensures
        match options.env {
            Some(e) => (r@[0] matches FileToValidate::Environment(x) && x@ == e@)
                && (if options.all { r@.len() == 2 && r@[1] is UnifiedConfig } else { r@.len() == 1 }),
            None => if options.all {
                r@.len() == 2 && r@[0] is UnifiedConfig && r@[1] is UnifiedConfig
            } else {
                r@.len() == 1 && r@[0] is UnifiedConfig
            },
        },
{
    let mut files = collect_files_from_options(options);
    if files.len() == 0 || options.all {
        files.push(FileToValidate::UnifiedConfig);
    }
    files
}

/// An environment file is validated only when the catalog defines the environment.
pub fn check_environment_exists(env: &str, envs: &Vec<String>) -> (r: Result<(), CliError>)
    ensures
        r is Ok <==> texts_of(envs@).contains(env@),
        r matches Err(e) ==> e.text() == "Environment '"@ + env@ + "' not found in control-path.yaml"@,
{
    if list_contains(envs, env) {
        Ok(())
    } else {
        let mut m = owned("Environment '");
        push_text(&mut m, env);
        push_text(&mut m, "' not found in control-path.yaml");
        Err(CliError::Message(m))
    }
}

/// A catalog warning: the file, the message and where in the file.
#[derive(Debug, Clone)]
pub struct ValidationWarning {
    pub file: String,
    pub message: String,
    pub path: String,
}

pub open spec fn warning_key(w: ValidationWarning) -> (Seq<char>, Seq<char>, Seq<char>) {
    (w.file@, w.message@, w.path@)
}

pub open spec fn keys_of(ws: Seq<ValidationWarning>) -> Seq<(Seq<char>, Seq<char>, Seq<char>)> {
    ws.map_values(|w: ValidationWarning| warning_key(w))
}

/// The warnings kept by dedupe: each one whose file, message and path no earlier
/// warning has.
pub open spec fn deduped(ws: Seq<ValidationWarning>) -> Seq<(Seq<char>, Seq<char>, Seq<char>)>
    decreases ws.len(),
{
    if ws.len() == 0 {
        seq![]
    } else {
        let prev = deduped(ws.drop_last());
        let k = warning_key(ws.last());
        if keys_of(ws.drop_last()).contains(k) { prev } else { prev.push(k) }
    }
}

fn same_warning(a: &ValidationWarning, b: &ValidationWarning) -> (r: bool)
    ensures
        r == (warning_key(*a) == warning_key(*b)),
{
    text_eq(a.file.as_str(), b.file.as_str()) && text_eq(a.message.as_str(), b.message.as_str())
        && text_eq(a.path.as_str(), b.path.as_str())
}

fn copy_warning(w: &ValidationWarning) -> (r: ValidationWarning)
    ensures
        warning_key(r) == warning_key(*w),
{
    ValidationWarning { file: w.file.clone(), message: w.message.clone(), path: w.path.clone() }
}

/// Drops repeated warnings, keeping the first of each (see [`deduped`]).
pub fn dedupe_warnings(warnings: Vec<ValidationWarning>) -> (r: Vec<ValidationWarning>)
    ensures
        keys_of(r@) == deduped(warnings@),
{
    let mut out: Vec<ValidationWarning> = Vec::new();
    let mut i: usize = 0;
    proof {
        assert(warnings@.take(0) =~= Seq::<ValidationWarning>::empty());
        assert(keys_of(out@) =~= seq![]);
    }
    while i < warnings.len()
        invariant
            i <= warnings@.len(),
            keys_of(out@) == deduped(warnings@.take(i as int)),
            forall|k: (Seq<char>, Seq<char>, Seq<char>)| keys_of(out@).contains(k) <==> keys_of(warnings@.take(i as int)).contains(k),
        decreases warnings@.len() - i,
    {
        let w = &warnings[i];
        let mut seen = false;
        let mut j: usize = 0;
        while j < out.len()
            invariant
                j <= out@.len(),
                seen <==> exists|m: int| 0 <= m < j && warning_key(out@[m]) == warning_key(*w),
            decreases out@.len() - j,
        {
            if same_warning(&out[j], w) {
                seen = true;
            }
            j = j + 1;
        }
        let ghost before = out@;
        let ghost t = warnings@.take(i + 1);
        proof {
            assert(t.drop_last() =~= warnings@.take(i as int));
            assert(t.last() == warnings@[i as int]);
            assert(seen <==> keys_of(before).contains(warning_key(*w))) by {
                if seen {
                    let m = choose|m: int| 0 <= m < out@.len() && warning_key(out@[m]) == warning_key(*w);
                    assert(keys_of(before)[m] == warning_key(*w));
                }
                if keys_of(before).contains(warning_key(*w)) {
                    let m = choose|m: int| 0 <= m < keys_of(before).len() && keys_of(before)[m] == warning_key(*w);
                    assert(warning_key(out@[m]) == warning_key(*w));
                }
            }
        }
        if !seen {
            out.push(copy_warning(w));
        }
        proof {
            assert(keys_of(t) =~= keys_of(warnings@.take(i as int)).push(warning_key(warnings@[i as int])));
            if !seen {
                assert(keys_of(out@) =~= keys_of(before).push(warning_key(*w)));
            } else {
                assert(out@ == before);
            }
            assert forall|k: (Seq<char>, Seq<char>, Seq<char>)| keys_of(out@).contains(k) <==> keys_of(t).contains(k) by {
                if keys_of(t).contains(k) {
                    let m = choose|m: int| 0 <= m < keys_of(t).len() && keys_of(t)[m] == k;
                    if m < i {
                        assert(keys_of(warnings@.take(i as int))[m] == k);
                        assert(keys_of(before).contains(k));
                        let q = choose|q: int| 0 <= q < keys_of(before).len() && keys_of(before)[q] == k;
                        assert(keys_of(out@)[q] == k);
                    } else if !seen {
                        assert(keys_of(out@)[before.len() as int] == k);
                    }
                }
                if keys_of(out@).contains(k) {
                    let m = choose|m: int| 0 <= m < keys_of(out@).len() && keys_of(out@)[m] == k;
                    if m < before.len() {
                        assert(keys_of(before)[m] == k);
                        assert(keys_of(before).contains(k));
                        assert(keys_of(warnings@.take(i as int)).contains(k));
                        let q = choose|q: int| 0 <= q < keys_of(warnings@.take(i as int)).len() && keys_of(warnings@.take(i as int))[q] == k;
                        assert(keys_of(t)[q] == k);
                    } else {
                        assert(keys_of(t)[i as int] == k);
                    }
                }
            }
        }
        i = i + 1;
    }
    proof {
        assert(warnings@.take(warnings@.len() as int) =~= warnings@);
    }
    out
}

/// The success line: `✓ Validation passed (<n> file)` or `(<n> files)`.
pub fn validation_passed_line(count: usize) -> (r: String)
    ensures
        r@ == "✓ Validation passed ("@ + decimal(count as nat) + " file"@ + (if count > 1 { "s"@ } else { Seq::<char>::empty() }) + ")"@,
{
    let mut s = owned("✓ Validation passed (");
    crate::json::write_decimal(&mut s, count as u64);
    push_text(&mut s, " file");
    if count > 1 {
        push_text(&mut s, "s");
    }
    push_text(&mut s, ")");
    s
}

} // verus!
