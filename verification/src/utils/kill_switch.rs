//! Kill switch files: where they live, which environment a command targets, and
//! how a file's `flags` map is read and changed.
//!
//! Environment resolution: an explicit environment wins (it must be one of the
//! catalog's, when the catalog names any); else `defaultEnv` from the project
//! configuration when the catalog names no environment or names that one (a stale
//! one is refused); else the first catalog environment; else `production`.

use vstd::prelude::*;
use crate::error::CliError;
use crate::json::{
    JsonValue, JsonView, entries_set, entries_remove, entries_get, keys_sorted, view_get, view_entries_of, set_index, indexable,
    value_get, object_set, set_index_value, copy_value, object_remove,
};
use crate::text::{owned, push_text, join, join_texts, texts_of, list_contains, text_eq_ignore_ascii_case, eq_ignore_ascii_case};

verus! {

/// Format version written into kill switch files.
pub const KILL_SWITCH_VERSION: &'static str = "2.0";

pub open spec fn spec_kill_switch_path(env: Seq<char>) -> Seq<char> {
    ".controlpath/"@ + env + ".kill-switches.json"@
}

/// Default path of an environment's kill switch file.
pub fn kill_switch_path(env: &str) -> (r: String)
    ensures
        r@ == spec_kill_switch_path(env@),
{
    let mut p = owned(".controlpath/");
    push_text(&mut p, env);
    push_text(&mut p, ".kill-switches.json");
    p
}

pub open spec fn env_not_found_text(env: Seq<char>, envs: Seq<Seq<char>>) -> Seq<char> {
    "Environment '"@ + env + "' not found in control-path.yaml. Available: "@ + join_texts(envs, ", "@)
}

/// An environment is accepted when the catalog names none or names it.
pub open spec fn env_accepted(env: Seq<char>, envs: Seq<Seq<char>>) -> bool {
    envs.len() == 0 || envs.contains(env)
}

/// Checks an environment against the catalog's environments.
pub fn validate_env_in_catalog(env: &str, envs: &Vec<String>) -> (r: Result<(), CliError>)
    ensures
        r is Ok <==> env_accepted(env@, texts_of(envs@)),
        r matches Err(e) ==> e.text() == env_not_found_text(env@, texts_of(envs@)),
{
    if envs.len() == 0 {
        return Ok(());
    }
    if !list_contains(envs, env) {
        let mut m = owned("Environment '");
        push_text(&mut m, env);
        push_text(&mut m, "' not found in control-path.yaml. Available: ");
        let all = join(envs, ", ");
        push_text(&mut m, all.as_str());
        return Err(CliError::Message(m));
    }
    Ok(())
}

pub open spec fn stale_default_text(default: Seq<char>, envs: Seq<Seq<char>>) -> Seq<char> {
    "defaultEnv '"@ + default + "' in .controlpath/config.yaml is not defined in control-path.yaml. Available: "@
        + join_texts(envs, ", "@)
}

/// The environment a reading kill switch command targets (see the module documentation).
pub open spec fn spec_resolve_kill_switch_env(explicit: Option<Seq<char>>, envs: Seq<Seq<char>>, default_env: Option<Seq<char>>) -> Result<Seq<char>, Seq<char>> {
    match explicit {
        Some(e) => if env_accepted(e, envs) { Ok(e) } else { Err(env_not_found_text(e, envs)) },
        None => match default_env {
            Some(d) => if env_accepted(d, envs) { Ok(d) } else { Err(stale_default_text(d, envs)) },
            None => if envs.len() > 0 { Ok(envs[0]) } else { Ok("production"@) },
        },
    }
}

pub open spec fn string_result_view(r: Result<String, CliError>) -> Result<Seq<char>, Seq<char>> {
    match r {
        Ok(s) => Ok(s@),
        Err(e) => Err(e.text()),
    }
}

/// Resolves the environment of a reading command; `default_env` is the
/// configuration's `defaultEnv`, when it has one.
pub fn resolve_kill_switch_env(explicit: Option<&str>, envs: &Vec<String>, default_env: Option<&str>) -> (r: Result<String, CliError>)
    ensures
        string_result_view(r) == spec_resolve_kill_switch_env(
            match explicit { Some(e) => Some(e@), None => None },
            texts_of(envs@),
            match default_env { Some(d) => Some(d@), None => None },
        ),
{
    if let Some(env) = explicit {
        validate_env_in_catalog(env, envs)?;
        return Ok(owned(env));
    }
    if let Some(d) = default_env {
        if envs.len() == 0 || list_contains(envs, d) {
            return Ok(owned(d));
        }
        let mut m = owned("defaultEnv '");
        push_text(&mut m, d);
        push_text(&mut m, "' in .controlpath/config.yaml is not defined in control-path.yaml. Available: ");
        let all = join(envs, ", ");
        push_text(&mut m, all.as_str());
        return Err(CliError::Message(m));
    }
    if envs.len() > 0 {
        return Ok(envs[0].clone());
    }
    Ok(owned("production"))
}

/// Resolves the environment of a changing command: it must be named.
pub fn require_kill_switch_env(explicit: Option<&str>, envs: &Vec<String>) -> (r: Result<String, CliError>)
    ensures
        string_result_view(r) == match explicit {
            None => Err::<Seq<char>, Seq<char>>("Missing required --env for kill-switch command."@),
            Some(e) => if env_accepted(e@, texts_of(envs@)) {
                Ok(e@)
            } else {
                Err(env_not_found_text(e@, texts_of(envs@)))
            },
        },
{
    let env = match explicit {
        Some(e) => e,
        None => return Err(CliError::Message(owned("Missing required --env for kill-switch command."))),
    };
    validate_env_in_catalog(env, envs)?;
    Ok(owned(env))
}

/// The file a missing kill switch file stands for: version and an empty `flags` map.
pub open spec fn empty_switch_file() -> JsonView {
    JsonView::Object(entries_set(entries_set(seq![], "version"@, JsonView::Str("2.0"@)), "flags"@, JsonView::Object(seq![])))
}

pub fn empty_kill_switch_file() -> (r: JsonValue)
    ensures
        r@ == empty_switch_file(),
{
    let mut v = JsonValue::Null;
    set_index_value(&mut v, owned("version"), JsonValue::String(owned(KILL_SWITCH_VERSION)));
    set_index_value(&mut v, owned("flags"), JsonValue::Object(Vec::new()));
    proof {
        crate::json::lemma_view_entries_ext(Seq::<(String, JsonValue)>::empty(), seq![]);
    }
    v
}

/// What is written for a file: `version` and `flags` filled in where missing.
pub open spec fn normalized_switch_file(v: JsonView) -> JsonView {
    let v1 = if view_get(v, "version"@) is None { set_index(v, "version"@, JsonView::Str("2.0"@)) } else { v };
    if view_get(v1, "flags"@) is None { set_index(v1, "flags"@, JsonView::Object(seq![])) } else { v1 }
}

/// Fills in a file's `version` and `flags` before it is written; the file is a
/// map (or null, which becomes one).
pub fn normalize_kill_switch_file(data: &JsonValue) -> (r: JsonValue)
    requires
        indexable(data@),
    ensures
        r@ == normalized_switch_file(data@),
{
    let mut v = copy_value(data);
    if value_get(&v, "version").is_none() {
        set_index_value(&mut v, owned("version"), JsonValue::String(owned(KILL_SWITCH_VERSION)));
    }
    if value_get(&v, "flags").is_none() {
        proof {
            crate::json::lemma_view_entries_ext(Seq::<(String, JsonValue)>::empty(), seq![]);
        }
        set_index_value(&mut v, owned("flags"), JsonValue::Object(Vec::new()));
    }
    v
}

pub open spec fn spec_parse_bool(value: Seq<char>) -> Result<bool, Seq<char>> {
    if eq_ignore_ascii_case(value, "true"@) || eq_ignore_ascii_case(value, "on"@)
        || eq_ignore_ascii_case(value, "1"@) || eq_ignore_ascii_case(value, "yes"@) {
        Ok(true)
    } else if eq_ignore_ascii_case(value, "false"@) || eq_ignore_ascii_case(value, "off"@)
        || eq_ignore_ascii_case(value, "0"@) || eq_ignore_ascii_case(value, "no"@) {
        Ok(false)
    } else {
        Err("Invalid boolean kill switch value: '"@ + value + "'. Use true/false or ON/OFF."@)
    }
}

/// A kill switch value: true/on/1/yes or false/off/0/no, in any ASCII case.
pub fn parse_bool_value(value: &str) -> (r: Result<bool, CliError>)
    ensures
        match r {
            Ok(b) => spec_parse_bool(value@) == Ok::<bool, Seq<char>>(b),
            Err(e) => spec_parse_bool(value@) == Err::<bool, Seq<char>>(e.text()),
        },
{
    if text_eq_ignore_ascii_case(value, "true") || text_eq_ignore_ascii_case(value, "on")
        || text_eq_ignore_ascii_case(value, "1") || text_eq_ignore_ascii_case(value, "yes") {
        Ok(true)
    } else if text_eq_ignore_ascii_case(value, "false") || text_eq_ignore_ascii_case(value, "off")
        || text_eq_ignore_ascii_case(value, "0") || text_eq_ignore_ascii_case(value, "no") {
        Ok(false)
    } else {
        let mut m = owned("Invalid boolean kill switch value: '");
        push_text(&mut m, value);
        push_text(&mut m, "'. Use true/false or ON/OFF.");
        Err(CliError::Message(m))
    }
}

/// A flag can carry a kill switch when the catalog declares it with kind
/// `KillSwitch`; `kind` is the catalog kind's name, `None` when the flag is not declared.
pub fn check_kill_switch_flag(flag: &str, kind: Option<&str>) -> (r: Result<(), CliError>)
    ensures
        match kind {
            None => r matches Err(e) && e.text() == "Flag '"@ + flag@ + "' not found in control-path.yaml catalog"@,
            Some(k) => if k@ == "KillSwitch"@ {
                r is Ok
            } else {
                r matches Err(e) && e.text() == "Flag '"@ + flag@ + "' is kind '"@ + k@
                    + "' and cannot be used as a kill switch. Use kind 'kill_switch'."@
            },
        },
{
    match kind {
        None => {
            let mut m = owned("Flag '");
            push_text(&mut m, flag);
            push_text(&mut m, "' not found in control-path.yaml catalog");
            Err(CliError::Message(m))
        },
        Some(k) => {
            if crate::text::text_eq(k, "KillSwitch") {
                Ok(())
            } else {
                let mut m = owned("Flag '");
                push_text(&mut m, flag);
                push_text(&mut m, "' is kind '");
                push_text(&mut m, k);
                push_text(&mut m, "' and cannot be used as a kill switch. Use kind 'kill_switch'.");
                Err(CliError::Message(m))
            }
        },
    }
}

/// Setting a flag's switch in a file: the `flags` map gets the parsed value.
pub open spec fn set_switch_outcome(file: JsonView, flag: Seq<char>, value: Seq<char>) -> (JsonView, Option<Seq<char>>) {
    match view_get(file, "flags"@) {
        Some(JsonView::Object(fe)) => match spec_parse_bool(value) {
            Ok(b) => (
                JsonView::Object(entries_set(view_entries_of(file), "flags"@, JsonView::Object(entries_set(fe, flag, JsonView::Bool(b))))),
                None,
            ),
            Err(m) => (file, Some(m)),
        },
        _ => (file, Some("Invalid kill switch file: missing flags"@)),
    }
}

pub open spec fn unit_err_text(r: Result<(), CliError>) -> Option<Seq<char>> {
    match r {
        Ok(_) => None,
        Err(e) => Some(e.text()),
    }
}

/// Sets a flag's kill switch in a file's contents.
pub fn set_kill_switch_value(file: &mut JsonValue, flag: &str, value: &str) -> (r: Result<(), CliError>)
    ensures
        final(file)@ == set_switch_outcome(old(file)@, flag@, value@).0,
        unit_err_text(r) == set_switch_outcome(old(file)@, flag@, value@).1,
{
    let mut flags = match value_get(file, "flags") {
        Some(f) => {
            if !matches!(f, JsonValue::Object(_)) {
                return Err(CliError::Message(owned("Invalid kill switch file: missing flags")));
            }
            copy_value(f)
        },
        None => return Err(CliError::Message(owned("Invalid kill switch file: missing flags"))),
    };
    let b = parse_bool_value(value)?;
    proof {
        assert(old(file)@ is Object);
    }
    object_set(&mut flags, owned(flag), JsonValue::Bool(b));
    object_set(file, owned("flags"), flags);
    Ok(())
}

/// Clearing a flag's switch: the flag leaves the `flags` map.
pub open spec fn clear_switch_outcome(file: JsonView, flag: Seq<char>, path: Seq<char>) -> (JsonView, Option<Seq<char>>) {
    match view_get(file, "flags"@) {
        Some(JsonView::Object(fe)) => if view_get(JsonView::Object(fe), flag) is Some {
            (JsonView::Object(entries_set(view_entries_of(file), "flags"@, JsonView::Object(entries_remove(fe, flag)))), None)
        } else {
            (file, Some("Kill switch for flag '"@ + flag + "' not found in "@ + path))
        },
        _ => (file, Some("Invalid kill switch file: missing flags"@)),
    }
}

/// Clears a flag's kill switch in a file's contents (`path` names the file in the error).
pub fn clear_kill_switch_value(file: &mut JsonValue, flag: &str, path: &str) -> (r: Result<(), CliError>)
    ensures
        final(file)@ == clear_switch_outcome(old(file)@, flag@, path@).0,
        unit_err_text(r) == clear_switch_outcome(old(file)@, flag@, path@).1,
{
    let mut flags = match value_get(file, "flags") {
        Some(f) => {
            if !matches!(f, JsonValue::Object(_)) {
                return Err(CliError::Message(owned("Invalid kill switch file: missing flags")));
            }
            copy_value(f)
        },
        None => return Err(CliError::Message(owned("Invalid kill switch file: missing flags"))),
    };
    match object_remove(&mut flags, flag) {
        Some(_) => {},
        None => {
            let mut m = owned("Kill switch for flag '");
            push_text(&mut m, flag);
            push_text(&mut m, "' not found in ");
            push_text(&mut m, path);
            return Err(CliError::Message(m));
        },
    }
    proof {
        assert(old(file)@ is Object);
    }
    object_set(file, owned("flags"), flags);
    Ok(())
}

/// The switches of a file: its `flags` map, or an empty map.
pub fn list_kill_switches(file: &JsonValue) -> (r: JsonValue)
    ensures
        r@ == match view_get(file@, "flags"@) {
            Some(JsonView::Object(fe)) => JsonView::Object(fe),
            _ => JsonView::Object(seq![]),
        },
{
    match value_get(file, "flags") {
        Some(f) if matches!(f, JsonValue::Object(_)) => copy_value(f),
        _ => {
            proof {
                crate::json::lemma_view_entries_ext(Seq::<(String, JsonValue)>::empty(), seq![]);
            }
            JsonValue::Object(Vec::new())
        },
    }
}

/// The switch a file holds for a flag: `flags.<flag>` when it is a boolean.
pub open spec fn switch_value(file: JsonView, flag: Seq<char>) -> Option<bool> {
    match view_get(file, "flags"@) {
        Some(f) => match view_get(f, flag) {
            Some(JsonView::Bool(b)) => Some(b),
            _ => None,
        },
        None => None,
    }
}

/// A switch that was set reads back as the value given: after a successful set,
/// the file holds the parsed boolean for the flag, and every other flag's switch
/// is what it was.
pub proof fn law_set_switch_reads_back(file: JsonView, flag: Seq<char>, value: Seq<char>, other: Seq<char>)
    requires
        set_switch_outcome(file, flag, value).1 is None,
        other != flag,
    ensures
        spec_parse_bool(value) is Ok,
        switch_value(set_switch_outcome(file, flag, value).0, flag) == Some(spec_parse_bool(value)->Ok_0),
        switch_value(set_switch_outcome(file, flag, value).0, other) == switch_value(file, other),
{
    let fe = view_entries_of(view_get(file, "flags"@)->Some_0);
    let b = spec_parse_bool(value)->Ok_0;
    crate::json::lemma_entries_set_get(view_entries_of(file), "flags"@, JsonView::Object(entries_set(fe, flag, JsonView::Bool(b))));
    crate::json::lemma_entries_set_get(fe, flag, JsonView::Bool(b));
}

/// A switch that was cleared reads as unset, and every other flag's switch is
/// what it was (for a file whose `flags` map is a valid object: keys in order).
pub proof fn law_cleared_switch_reads_unset(file: JsonView, flag: Seq<char>, path: Seq<char>, other: Seq<char>)
    requires
        clear_switch_outcome(file, flag, path).1 is None,
        keys_sorted(view_entries_of(view_get(file, "flags"@)->Some_0)),
        other != flag,
    ensures
        switch_value(clear_switch_outcome(file, flag, path).0, flag) is None,
        switch_value(clear_switch_outcome(file, flag, path).0, other) == switch_value(file, other),
{
    let fe = view_entries_of(view_get(file, "flags"@)->Some_0);
    crate::json::lemma_entries_set_get(view_entries_of(file), "flags"@, JsonView::Object(entries_remove(fe, flag)));
    crate::json::lemma_entries_remove(fe, flag);
}


/// The kill switch values: each of false, off, 0 and no (in any ASCII case)
/// sets the switch to false, and each of true, on, 1 and yes sets it to true.
pub proof fn law_kill_switch_words(value: Seq<char>)
    ensures
        (eq_ignore_ascii_case(value, "false"@) || eq_ignore_ascii_case(value, "off"@)
            || eq_ignore_ascii_case(value, "0"@) || eq_ignore_ascii_case(value, "no"@))
            ==> spec_parse_bool(value) == Ok::<bool, Seq<char>>(false),
        (eq_ignore_ascii_case(value, "true"@) || eq_ignore_ascii_case(value, "on"@)
            || eq_ignore_ascii_case(value, "1"@) || eq_ignore_ascii_case(value, "yes"@))
            ==> spec_parse_bool(value) == Ok::<bool, Seq<char>>(true),
{
    reveal_strlit("true");
    reveal_strlit("on");
    reveal_strlit("1");
    reveal_strlit("yes");
    reveal_strlit("false");
    reveal_strlit("off");
    reveal_strlit("0");
    reveal_strlit("no");
    if value.len() > 0 {
        // The first character tells the words of equal length apart.
        assert(eq_ignore_ascii_case(value, "off"@) ==> crate::text::ascii_lower(value[0]) == 'o');
        assert(eq_ignore_ascii_case(value, "yes"@) ==> crate::text::ascii_lower(value[0]) == 'y');
        assert(eq_ignore_ascii_case(value, "0"@) ==> crate::text::ascii_lower(value[0]) == '0');
        assert(eq_ignore_ascii_case(value, "1"@) ==> crate::text::ascii_lower(value[0]) == '1');
        assert(eq_ignore_ascii_case(value, "no"@) ==> crate::text::ascii_lower(value[0]) == 'n');
        assert(eq_ignore_ascii_case(value, "on"@) ==> crate::text::ascii_lower(value[0]) == 'o');
    }
}
} // verus!
