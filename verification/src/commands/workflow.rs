//! Workflow commands (`new-flag`, `enable`, `deploy`): the catalog edits they
//! make and the choices between their steps. Reading and writing the catalog,
//! prompting, compiling and SDK generation are done by the caller between these
//! steps.

use vstd::prelude::*;
use crate::error::{CliError, err_text};
use crate::json::{
    JsonValue, JsonView, entries_set, entries_get, view_get, view_entries_of, value_get, copy_value, set_index,
    lemma_entries_set_get,
};
use crate::text::{
    owned, push_text, chars_of, text_eq, join, join_texts, texts_of, list_contains, split_comma_list,
    comma_items, texts_sorted,
};
use crate::utils::unified_config::{
    flag_exists, spec_flag_exists, add_flag, add_flag_outcome, add_flag_safe, enable_flag_in_environment,
    enable_outcome, enable_safe, env_slot_ok, environments_or_empty, environments_of, get_environments,
    spec_environments, environments_sorted, flags_of, normalized_env, env_rules_entries, append_rule,
    new_rule_view,
};
use crate::commands::flag::{catalog_flag_names, flag_keys, snake_char};

verus! {

pub struct NewFlagOptions {
    pub name: Option<String>,
    pub flag_type: Option<String>,
    pub default: Option<String>,
    pub description: Option<String>,
    /// Comma-separated environments to enable the flag in.
    pub enable_in: Option<String>,
    pub skip_sdk: bool,
    pub best_effort: bool,
}

pub struct EnableOptions {
    pub name: String,
    /// Comma-separated environments.
    pub env: Option<String>,
    pub rule: Option<String>,
    /// Enable for all users (no rule).
    pub all: bool,
    /// Value to serve.
    pub value: Option<String>,
    pub interactive: bool,
    /// Skip automatic compilation.
    pub no_compile: bool,
    pub best_effort: bool,
    pub force: bool,
}

pub struct DeployOptions {
    /// Comma-separated environments.
    pub env: Option<String>,
    pub dry_run: bool,
}

/// What is wrong with a flag name for `new-flag`, in the order it is checked.
pub open spec fn name_error(name: Seq<char>) -> Option<Seq<char>> {
    if name.len() == 0 {
        Some("Flag name cannot be empty"@)
    } else if !(forall|i: int| 0 <= i < name.len() ==> snake_char(#[trigger] name[i])) {
        Some("Flag name must be snake_case (lowercase letters, digits, and underscores only)"@)
    } else if !('a' <= name[0] && name[0] <= 'z') {
        Some("Flag name must start with a lowercase letter"@)
    } else {
        None
    }
}

/// Checks a flag name for `new-flag`: not empty, snake_case, starting with a
/// lowercase letter.
pub fn validate_flag_name(name: &str) -> (r: Result<(), CliError>)
    ensures
        err_text(r) == name_error(name@),
{
    let cs = chars_of(name);
    if cs.len() == 0 {
        return Err(CliError::Message(owned("Flag name cannot be empty")));
    }
    let mut i: usize = 0;
    while i < cs.len()
        invariant
            i <= cs@.len(),
            cs@ == name@,
            forall|j: int| 0 <= j < i ==> snake_char(#[trigger] cs@[j]),
        decreases cs@.len() - i,
    {
        let c = cs[i];
        if !(('a' <= c && c <= 'z') || ('0' <= c && c <= '9') || c == '_') {
            return Err(CliError::Message(owned("Flag name must be snake_case (lowercase letters, digits, and underscores only)")));
        }
        i = i + 1;
    }
    if !('a' <= cs[0] && cs[0] <= 'z') {
        return Err(CliError::Message(owned("Flag name must start with a lowercase letter")));
    }
    Ok(())
}

/// Checks the name `new-flag` adds: valid, and not yet in the catalog.
pub fn check_new_flag_name(unified: &JsonValue, name: &str) -> (r: Result<(), CliError>)
    ensures
        err_text(r) == match name_error(name@) {
            Some(m) => Some(m),
            None => if spec_flag_exists(unified@, name@) { Some("Flag '"@ + name@ + "' already exists"@) } else { None },
        },
{
    validate_flag_name(name)?;
    if flag_exists(unified, name) {
        let mut m = owned("Flag '");
        push_text(&mut m, name);
        push_text(&mut m, "' already exists");
        return Err(CliError::Message(m));
    }
    Ok(())
}

/// `new-flag` adds boolean flags only (the type defaults to `boolean`).
pub fn check_new_flag_type(flag_type: Option<&str>) -> (r: Result<(), CliError>)
    ensures
        err_text(r) == (if (match flag_type { Some(t) => t@, None => "boolean"@ }) == "boolean"@ {
            None
        } else {
            Some("v2 catalogs support boolean flags only"@)
        }),
{
    let t = match flag_type {
        Some(t) => t,
        None => "boolean",
    };
    if text_eq(t, "boolean") {
        Ok(())
    } else {
        Err(CliError::Message(owned("v2 catalogs support boolean flags only")))
    }
}

/// The default of a new flag: true for `true` or `True`, false otherwise.
pub fn parse_new_flag_default(default: Option<&str>) -> (r: bool)
    ensures
        r == (match default { Some(d) => d@ == "true"@ || d@ == "True"@, None => false }),
{
    match default {
        Some(d) => text_eq(d, "true") || text_eq(d, "True"),
        None => false,
    }
}

/// Adds the flag `new-flag` creates: a release flag with its default and description.
pub fn add_new_flag(unified: &mut JsonValue, name: &str, default: bool, description: Option<&str>) -> (r: Result<(), CliError>)
    requires
        add_flag_safe(old(unified)@, seq![]),
    ensures
        final(unified)@ == add_flag_outcome(old(unified)@, name@, default, "release"@,
            match description { Some(d) => Some(d@), None => None }, seq![]).0,
        err_text(r) == add_flag_outcome(old(unified)@, name@, default, "release"@,
            match description { Some(d) => Some(d@), None => None }, seq![]).1,
{
    let none: Vec<String> = Vec::new();
    proof {
        assert(none@.map_values(|s: String| s@) =~= seq![]);
    }
    add_flag(unified, name, default, "release", description, none.as_slice())
}

/// Every environment of a list can be enabled in (see [`enable_safe`]).
pub open spec fn all_enable_safe(u: JsonView, envs: Seq<Seq<char>>) -> bool {
    forall|i: int| 0 <= i < envs.len() ==> enable_safe(u, #[trigger] envs[i])
}

/// Enabling a flag in one environment keeps every environment enabled-in-able.
pub proof fn lemma_enable_keeps_safe(u: JsonView, flag: Seq<char>, env: Seq<char>, rule_expr: Option<Seq<char>>, serve: bool, force: bool, other: Seq<char>)
    requires
        enable_safe(u, env),
        enable_safe(u, other),
        enable_outcome(u, flag, env, rule_expr, serve, force).1 is None,
    ensures
        enable_safe(enable_outcome(u, flag, env, rule_expr, serve, force).0, other),
{
    let es = view_entries_of(environments_or_empty(u));
    let e1 = normalized_env(entries_get(es, env));
    let re = env_rules_entries(e1);
    let e2 = set_index(e1, "rules"@, JsonView::Object(entries_set(re, flag, append_rule(entries_get(re, flag), new_rule_view(serve, rule_expr)))));
    let x = JsonView::Object(entries_set(es, env, e2));
    let u2 = enable_outcome(u, flag, env, rule_expr, serve, force).0;
    assert(u2 == JsonView::Object(entries_set(view_entries_of(u), "environments"@, x)));
    lemma_entries_set_get(view_entries_of(u), "environments"@, x);
    assert(environments_or_empty(u2) == x);
    lemma_entries_set_get(es, env, e2);
    if other == env {
        assert(e1 is Object);
        assert(e2 is Object);
    } else {
        assert(view_get(x, other) == entries_get(es, other));
    }
}

/// Enabling a flag in each environment of a list in turn, stopping at the first error.
pub open spec fn enable_all(u: JsonView, flag: Seq<char>, envs: Seq<Seq<char>>, rule_expr: Option<Seq<char>>, serve: bool, force: bool) -> (JsonView, Option<Seq<char>>)
    decreases envs.len(),
{
    if envs.len() == 0 {
        (u, None)
    } else {
        let step = enable_outcome(u, flag, envs[0], rule_expr, serve, force);
        if step.1 is Some { step } else { enable_all(step.0, flag, envs.drop_first(), rule_expr, serve, force) }
    }
}

/// Enables a flag in each listed environment (see [`enable_all`]); on success
/// the list of environments is returned.
#[verifier::loop_isolation(false)]
pub fn enable_in_environments(
    unified: &mut JsonValue,
    flag: &str,
    envs: &Vec<String>,
    rule_expr: Option<&str>,
    serve: bool,
    force: bool,
) -> (r: Result<Vec<String>, CliError>)
    requires
        all_enable_safe(old(unified)@, texts_of(envs@)),
    ensures
        final(unified)@ == enable_all(old(unified)@, flag@, texts_of(envs@),
            match rule_expr { Some(e) => Some(e@), None => None }, serve, force).0,
        err_text(r) == enable_all(old(unified)@, flag@, texts_of(envs@),
            match rule_expr { Some(e) => Some(e@), None => None }, serve, force).1,
        r matches Ok(v) ==> texts_of(v@) == texts_of(envs@),
{
    let ghost re = match rule_expr { Some(e) => Some(e@), None => None };
    let ghost all = texts_of(envs@);
    let ghost u0 = unified@;
    let mut done: Vec<String> = Vec::new();
    let mut i: usize = 0;
    proof {
        assert(all.skip(0) =~= all);
        assert(texts_of(done@) =~= all.take(0));
    }
    while i < envs.len()
        invariant
            i <= envs@.len(),
            all == texts_of(envs@),
            enable_all(u0, flag@, all, re, serve, force) == enable_all(unified@, flag@, all.skip(i as int), re, serve, force),
            all_enable_safe(unified@, all),
            texts_of(done@) == all.take(i as int),
        decreases envs@.len() - i,
    {
        let ghost before = unified@;
        proof {
            assert(all.skip(i as int)[0] == all[i as int]);
            assert(all.skip(i as int).drop_first() =~= all.skip(i + 1));
            assert(enable_safe(before, all[i as int]));
        }
        match enable_flag_in_environment(unified, flag, envs[i].as_str(), rule_expr, serve, force) {
            Err(e) => {
                return Err(e);
            },
            Ok(()) => {},
        }
        proof {
            assert forall|j: int| 0 <= j < all.len() implies enable_safe(unified@, #[trigger] all[j]) by {
                lemma_enable_keeps_safe(before, flag@, all[i as int], re, serve, force, all[j]);
            }
        }
        let ghost d0 = done@;
        done.push(envs[i].clone());
        proof {
            assert(texts_of(done@) =~= texts_of(d0).push(all[i as int]));
            assert(all.take(i + 1) =~= all.take(i as int).push(all[i as int]));
        }
        i = i + 1;
    }
    proof {
        assert(all.skip(envs@.len() as int) =~= Seq::<Seq<char>>::empty());
        assert(all.take(envs@.len() as int) =~= all);
    }
    Ok(done)
}

/// The error for enabling a flag the catalog does not declare.
pub open spec fn flag_missing_text(name: Seq<char>, available: Seq<Seq<char>>) -> Seq<char> {
    "Flag '"@ + name + "' not found in configuration."@
        + (if available.len() > 0 { "\n  Available flags: "@ + join_texts(available, ", "@) } else { Seq::<char>::empty() })
        + "\n  Tip: Use 'controlpath flag list' to see all flags"@
        + "\n  Or add it with: controlpath new-flag "@ + name
}

pub fn flag_missing_error(unified: &JsonValue, name: &str) -> (r: CliError)
    ensures
        exists|available: Seq<Seq<char>>| #![trigger flag_missing_text(name@, available)]
            available.to_multiset() == flag_keys(unified@).to_multiset() && texts_sorted(available)
            && r.text() == flag_missing_text(name@, available),
{
    let available = catalog_flag_names(unified);
    let mut m = owned("Flag '");
    push_text(&mut m, name);
    push_text(&mut m, "' not found in configuration.");
    if available.len() > 0 {
        push_text(&mut m, "\n  Available flags: ");
        let a = join(&available, ", ");
        push_text(&mut m, a.as_str());
    }
    push_text(&mut m, "\n  Tip: Use 'controlpath flag list' to see all flags");
    push_text(&mut m, "\n  Or add it with: controlpath new-flag ");
    push_text(&mut m, name);
    proof {
        assert(m@ =~= flag_missing_text(name@, texts_of(available@)));
    }
    CliError::Message(m)
}

/// A flag's declared default, or `false`.
pub open spec fn spec_flag_default(u: JsonView, name: Seq<char>) -> JsonView {
    match flags_of(u) {
        Some(f) => match view_get(f, name) {
            Some(flag) => match view_get(flag, "default"@) {
                Some(d) => d,
                None => JsonView::Bool(false),
            },
            None => JsonView::Bool(false),
        },
        None => JsonView::Bool(false),
    }
}

pub fn default_bool_from_flag(unified: &JsonValue, name: &str) -> (r: JsonValue)
    ensures
        r@ == spec_flag_default(unified@, name@),
{
    match value_get(unified, "flags") {
        Some(f) => match value_get(f, name) {
            Some(flag) => match value_get(flag, "default") {
                Some(d) => copy_value(d),
                None => JsonValue::Bool(false),
            },
            None => JsonValue::Bool(false),
        },
        None => JsonValue::Bool(false),
    }
}

/// The environments `enable` updates: the listed ones; else the detected
/// environment when the catalog defines it; else all the catalog's environments,
/// of which there must be one.
pub open spec fn spec_enable_targets(u: JsonView, env_option: Option<Seq<char>>, detected: Option<Seq<char>>) -> Result<Seq<Seq<char>>, Seq<char>> {
    match env_option {
        Some(list) => Ok(comma_items(list)),
        None => match detected {
            Some(d) if spec_environments(u).contains(d) => Ok(seq![d]),
            _ => if spec_environments(u).len() == 0 {
                Err("No environments found. Add flags with environment rules first."@)
            } else {
                Ok(spec_environments(u))
            },
        },
    }
}

pub open spec fn list_result_view(r: Result<Vec<String>, CliError>) -> Result<Seq<Seq<char>>, Seq<char>> {
    match r {
        Ok(v) => Ok(texts_of(v@)),
        Err(e) => Err(e.text()),
    }
}

pub fn enable_targets(unified: &JsonValue, env_option: Option<&str>, detected: Option<&str>) -> (r: Result<Vec<String>, CliError>)
    requires
        environments_sorted(unified@),
    ensures
        list_result_view(r) == spec_enable_targets(unified@,
            match env_option { Some(e) => Some(e@), None => None },
            match detected { Some(d) => Some(d@), None => None }),
{
    if let Some(list) = env_option {
        return Ok(split_comma_list(list));
    }
    let all = get_environments(unified);
    proof {
        assert(texts_of(all@) =~= spec_environments(unified@));
    }
    if let Some(d) = detected {
        if list_contains(&all, d) {
            let mut v: Vec<String> = Vec::new();
            v.push(owned(d));
            proof {
                assert(texts_of(v@) =~= seq![d@]);
            }
            return Ok(v);
        }
    }
    if all.len() == 0 {
        return Err(CliError::Message(owned("No environments found. Add flags with environment rules first.")));
    }
    Ok(all)
}

/// The value `enable` serves: `--value` (true for `true` or `True`, else
/// false); otherwise the opposite of the flag's boolean default. A default that
/// is not a boolean is refused.
pub open spec fn spec_enable_serve(u: JsonView, name: Seq<char>, value: Option<Seq<char>>) -> Result<bool, Seq<char>> {
    match value {
        Some(v) => Ok(v == "true"@ || v == "True"@),
        None => match spec_flag_default(u, name) {
            JsonView::Bool(b) => Ok(!b),
            _ => Err("v2 catalogs only support boolean serve values"@),
        },
    }
}

pub fn enable_serve_value(unified: &JsonValue, name: &str, value: Option<&str>) -> (r: Result<bool, CliError>)
    ensures
        match r {
            Ok(b) => spec_enable_serve(unified@, name@, match value { Some(v) => Some(v@), None => None }) == Ok::<bool, Seq<char>>(b),
            Err(e) => spec_enable_serve(unified@, name@, match value { Some(v) => Some(v@), None => None }) == Err::<bool, Seq<char>>(e.text()),
        },
{
    match value {
        Some(v) => Ok(text_eq(v, "true") || text_eq(v, "True")),
        None => match default_bool_from_flag(unified, name) {
            JsonValue::Bool(b) => Ok(!b),
            _ => Err(CliError::Message(owned("v2 catalogs only support boolean serve values"))),
        },
    }
}

/// What a failed compile step leaves: with best effort, the warnings printed
/// and the workflow goes on; otherwise the error that ends it. `after` is what
/// the workflow did (`enabling` or `adding`).
pub fn compile_failure(best_effort: bool, after: &str, flag: &str, envs: &Vec<String>, cause: &str) -> (r: Result<Vec<String>, CliError>)
    ensures
        best_effort ==> (r matches Ok(w) && w@.len() == 2
            && w@[0]@ == "⚠ Warning: Failed to compile ASTs: "@ + cause@
            && w@[1]@ == "  You can compile manually with: controlpath compile --env "@ + join_texts(texts_of(envs@), ","@)),
        !best_effort ==> err_text(r) == Some("Failed to compile ASTs after "@ + after@ + " flag '"@ + flag@ + "': "@ + cause@),
{
    if best_effort {
        let mut w: Vec<String> = Vec::new();
        let mut a = owned("⚠ Warning: Failed to compile ASTs: ");
        push_text(&mut a, cause);
        w.push(a);
        let mut b = owned("  You can compile manually with: controlpath compile --env ");
        let names = join(envs, ",");
        push_text(&mut b, names.as_str());
        w.push(b);
        Ok(w)
    } else {
        let mut m = owned("Failed to compile ASTs after ");
        push_text(&mut m, after);
        push_text(&mut m, " flag '");
        push_text(&mut m, flag);
        push_text(&mut m, "': ");
        push_text(&mut m, cause);
        Err(CliError::Message(m))
    }
}

/// What a failed SDK regeneration leaves after `new-flag` (see [`compile_failure`]).
pub fn sdk_failure(best_effort: bool, flag: &str, cause: &str) -> (r: Result<Vec<String>, CliError>)
    ensures
        best_effort ==> (r matches Ok(w) && w@.len() == 2
            && w@[0]@ == "⚠ Warning: SDK regeneration failed: "@ + cause@
            && w@[1]@ == "  You can regenerate manually with: controlpath generate-sdk"@),
        !best_effort ==> err_text(r) == Some("SDK regeneration failed after adding flag '"@ + flag@ + "': "@ + cause@),
{
    if best_effort {
        let mut w: Vec<String> = Vec::new();
        let mut a = owned("⚠ Warning: SDK regeneration failed: ");
        push_text(&mut a, cause);
        w.push(a);
        w.push(owned("  You can regenerate manually with: controlpath generate-sdk"));
        Ok(w)
    } else {
        let mut m = owned("SDK regeneration failed after adding flag '");
        push_text(&mut m, flag);
        push_text(&mut m, "': ");
        push_text(&mut m, cause);
        Err(CliError::Message(m))
    }
}

pub open spec fn no_deploy_envs_text() -> Seq<char> {
    "No environments found in control-path.yaml.\n  Tip: Add flags with environment rules first using:\n    controlpath new-flag <flag-name> --enable-in <env>\n  Or enable an existing flag:\n    controlpath flag enable <flag-name> --env <env>"@
}

/// The environments `deploy` compiles: the listed ones; else the detected
/// environment when the catalog defines it; else all the catalog's, of which
/// there must be one.
pub open spec fn spec_deploy_targets(env_option: Option<Seq<char>>, detected: Option<Seq<char>>, all: Seq<Seq<char>>) -> Result<Seq<Seq<char>>, Seq<char>> {
    match env_option {
        Some(list) => Ok(comma_items(list)),
        None => match detected {
            Some(d) if all.contains(d) => Ok(seq![d]),
            _ => if all.len() == 0 { Err(no_deploy_envs_text()) } else { Ok(all) },
        },
    }
}

pub fn deploy_targets(env_option: Option<&str>, detected: Option<&str>, all_envs: Vec<String>) -> (r: Result<Vec<String>, CliError>)
    ensures
        list_result_view(r) == spec_deploy_targets(
            match env_option { Some(e) => Some(e@), None => None },
            match detected { Some(d) => Some(d@), None => None },
            texts_of(all_envs@)),
{
    if let Some(list) = env_option {
        return Ok(split_comma_list(list));
    }
    if let Some(d) = detected {
        if list_contains(&all_envs, d) {
            let mut v: Vec<String> = Vec::new();
            v.push(owned(d));
            proof {
                assert(texts_of(v@) =~= seq![d@]);
            }
            return Ok(v);
        }
    }
    if all_envs.len() == 0 {
        return Err(CliError::Message(owned(
            "No environments found in control-path.yaml.\n  Tip: Add flags with environment rules first using:\n    controlpath new-flag <flag-name> --enable-in <env>\n  Or enable an existing flag:\n    controlpath flag enable <flag-name> --env <env>",
        )));
    }
    Ok(all_envs)
}

} // verus!
