//! Reading and editing the catalog document `control-path.yaml`.
//!
//! The document is held as a [`JsonValue`] (the YAML file parsed into JSON
//! values); every operation here is a pure edit of that value.

use vstd::prelude::*;
use crate::error::{CliError, err_text};
use crate::json::{
    JsonValue, JsonView, value_get, value_as_str, copy_value, object_set, entries_find,
    entries_insert, entries_delete, view_get, view_entries_of, entries_set, entries_remove,
    entries_get, has_key, key_pos, entry_keys, keys_sorted, view_entries, lemma_view_entries,
    lemma_key_pos, lemma_entries_set_sorted, lemma_entries_remove,
};
use crate::json::{set_index, indexable, set_index_value, object_remove, lemma_entries_set_get, entries_lookup};
use crate::text::{text_lt, cat3, owned};

verus! {

pub open spec fn flags_of(u: JsonView) -> Option<JsonView> {
    view_get(u, "flags"@)
}

pub open spec fn environments_of(u: JsonView) -> Option<JsonView> {
    view_get(u, "environments"@)
}

/// The configuration file name.
pub fn get_unified_config_path() -> (r: String)
    ensures
        r@ == "control-path.yaml"@,
{
    owned("control-path.yaml")
}

/// `flags` is a map (the v2 catalog format) rather than a v1 array.
pub fn is_v2_flags_format(unified: &JsonValue) -> (r: bool)
    ensures
        r == (flags_of(unified@) matches Some(JsonView::Object(_))),
{
    match value_get(unified, "flags") {
        Some(JsonValue::Object(_)) => true,
        _ => false,
    }
}

/// The catalog declares `mode: saas`.
pub fn is_saas_mode(unified: &JsonValue) -> (r: bool)
    ensures
        r == (view_get(unified@, "mode"@) == Some(JsonView::Str("saas"@))),
{
    match value_get(unified, "mode") {
        Some(JsonValue::String(m)) => crate::text::text_eq(m.as_str(), "saas"),
        _ => false,
    }
}

/// The environment names: the keys of `environments`, or none when it is not a map.
pub open spec fn spec_environments(u: JsonView) -> Seq<Seq<char>> {
    match environments_of(u) {
        Some(JsonView::Object(e)) => entry_keys(e),
        _ => seq![],
    }
}

/// The `environments` map, when present, keeps its keys in ascending order.
pub open spec fn environments_sorted(u: JsonView) -> bool {
    environments_of(u) matches Some(JsonView::Object(e)) ==> keys_sorted(e)
}

/// All environment names, in ascending order.
pub fn get_environments(unified: &JsonValue) -> (r: Vec<String>)
    requires
        environments_sorted(unified@),
    ensures
        r@.len() == spec_environments(unified@).len(),
        forall|i: int| 0 <= i < r@.len() ==> #[trigger] r@[i]@ == spec_environments(unified@)[i],
        forall|i: int, j: int| 0 <= i < j < r@.len() ==> text_lt(#[trigger] r@[i]@, #[trigger] r@[j]@),
{
    let mut out: Vec<String> = Vec::new();
    match value_get(unified, "environments") {
        Some(JsonValue::Object(entries)) => {
            let ghost ev = view_entries(entries@);
            proof {
                lemma_view_entries(entries@);
            }
            let mut i: usize = 0;
            while i < entries.len()
                invariant
                    ev == view_entries(entries@),
                    environments_of(unified@) == Some(JsonView::Object(ev)),
                    keys_sorted(ev),
                    ev.len() == entries@.len(),
                    forall|j: int| 0 <= j < ev.len() ==> #[trigger] ev[j] == (entries@[j].0@, crate::json::json_view(entries@[j].1)),
                    i <= entries@.len(),
                    out@.len() == i,
                    forall|j: int| 0 <= j < i ==> #[trigger] out@[j]@ == ev[j].0,
                decreases entries@.len() - i,
            {
                out.push(entries[i].0.clone());
                i = i + 1;
            }
            proof {
                assert forall|a: int, b: int| 0 <= a < b < out@.len() implies text_lt(#[trigger] out@[a]@, #[trigger] out@[b]@) by {
                    assert(out@[a]@ == ev[a].0);
                    assert(out@[b]@ == ev[b].0);
                }
            }
        },
        _ => {},
    }
    out
}

pub open spec fn spec_flag_exists(u: JsonView, name: Seq<char>) -> bool {
    flags_of(u) matches Some(JsonView::Object(e)) && has_key(e, name)
}

/// The flag is declared in the `flags` map.
pub fn flag_exists(unified: &JsonValue, name: &str) -> (r: bool)
    ensures
        r == spec_flag_exists(unified@, name@),
{
    match value_get(unified, "flags") {
        Some(JsonValue::Object(entries)) => entries_find(entries, name).is_some(),
        _ => false,
    }
}

pub open spec fn spec_flag_lifecycle(u: JsonView, name: Seq<char>) -> Option<Seq<char>> {
    match flags_of(u) {
        Some(f) => match view_get(f, name) {
            Some(flag) => match view_get(flag, "lifecycle"@) {
                Some(JsonView::Str(s)) => Some(s),
                _ => None,
            },
            None => None,
        },
        None => None,
    }
}

/// The `lifecycle` string of a flag, when it has one.
pub fn flag_lifecycle<'a>(unified: &'a JsonValue, name: &str) -> (r: Option<&'a str>)
    ensures
        r matches Some(s) ==> spec_flag_lifecycle(unified@, name@) == Some(s@),
        r is None ==> spec_flag_lifecycle(unified@, name@) is None,
{
    let flags = match value_get(unified, "flags") {
        Some(f) => f,
        None => return None,
    };
    let flag = match value_get(flags, name) {
        Some(f) => f,
        None => return None,
    };
    match value_get(flag, "lifecycle") {
        Some(l) => match value_as_str(l) {
            Some(s) => Some(s.as_str()),
            None => None,
        },
        None => None,
    }
}

pub open spec fn spec_is_deprecated(u: JsonView, name: Seq<char>) -> bool {
    spec_flag_lifecycle(u, name) == Some("deprecated"@)
}

/// The flag's lifecycle is `deprecated`.
pub fn is_flag_deprecated(unified: &JsonValue, name: &str) -> (r: bool)
    ensures
        r == spec_is_deprecated(unified@, name@),
{
    match flag_lifecycle(unified, name) {
        Some(l) => crate::text::text_eq(l, "deprecated"),
        None => false,
    }
}

pub open spec fn spec_sdk_output_path(u: JsonView) -> Option<Seq<char>> {
    match view_get(u, "sdk"@) {
        Some(sdk) => match view_get(sdk, "output"@) {
            Some(JsonView::Str(s)) => Some(s),
            _ => None,
        },
        None => None,
    }
}

/// `sdk.output` from the catalog, when it is a string.
pub fn get_sdk_output_path(unified: &JsonValue) -> (r: Option<String>)
    ensures
        r matches Some(s) ==> spec_sdk_output_path(unified@) == Some(s@),
        r is None ==> spec_sdk_output_path(unified@) is None,
{
    let sdk = match value_get(unified, "sdk") {
        Some(s) => s,
        None => return None,
    };
    match value_get(sdk, "output") {
        Some(JsonValue::String(s)) => Some(s.clone()),
        _ => None,
    }
}

pub open spec fn empty_object() -> JsonView {
    JsonView::Object(seq![])
}

pub open spec fn v1_array_message() -> Seq<char> {
    "v1 flag array format is not supported for this operation; migrate to v2 map format"@
}

/// What `ensure_v2_flags_map` makes of a document: the new document, or the error text.
pub open spec fn ensure_v2_outcome(u: JsonView) -> Result<JsonView, Seq<char>> {
    if flags_of(u) matches Some(JsonView::Object(_)) {
        Ok(u)
    } else if flags_of(u) matches Some(JsonView::Array(_)) {
        Err(v1_array_message())
    } else if !(u is Object) {
        Err("Invalid config root"@)
    } else if has_key(view_entries_of(u), "flags"@) {
        Ok(u)
    } else {
        Ok(JsonView::Object(entries_set(view_entries_of(u), "flags"@, empty_object())))
    }
}

fn message(text: &str) -> (r: CliError)
    ensures
        r.text() == text@,
{
    CliError::Message(owned(text))
}

/// Makes sure `flags` is a map: adds an empty one when missing, refuses a v1 array.
pub fn ensure_v2_flags_map(unified: &mut JsonValue) -> (r: Result<(), CliError>)
    ensures
        match ensure_v2_outcome(old(unified)@) {
            Ok(v) => r is Ok && final(unified)@ == v,
            Err(m) => r is Err && err_text(r) == Some(m) && final(unified)@ == old(unified)@,
        },
{
    if is_v2_flags_format(unified) {
        return Ok(());
    }
    match value_get(unified, "flags") {
        Some(JsonValue::Array(_)) => {
            return Err(message(
                "v1 flag array format is not supported for this operation; migrate to v2 map format",
            ));
        },
        _ => {},
    }
    match unified {
        JsonValue::Object(entries) => {
            if entries_find(entries, "flags").is_none() {
                entries_insert(entries, owned("flags"), JsonValue::Object(Vec::new()));
                proof {
                    crate::json::lemma_view_entries_ext(Seq::<(String, JsonValue)>::empty(), seq![]);
                }
            }
            Ok(())
        },
        _ => Err(message("Invalid config root")),
    }
}

pub open spec fn flag_not_found_message(name: Seq<char>) -> Seq<char> {
    "Flag '"@ + name + "' not found"@
}

/// What `deprecate_flag` makes of a document: the new document and the error text, if any.
pub open spec fn deprecate_outcome(u: JsonView, name: Seq<char>) -> (JsonView, Option<Seq<char>>) {
    match ensure_v2_outcome(u) {
        Err(m) => (u, Some(m)),
        Ok(u2) => match flags_of(u2) {
            Some(JsonView::Object(fe)) => match entries_get(fe, name) {
                Some(flag) => (
                    JsonView::Object(entries_set(view_entries_of(u2), "flags"@,
                        JsonView::Object(entries_set(fe, name, set_index(flag, "lifecycle"@, JsonView::Str("deprecated"@)))))),
                    None,
                ),
                None => (u2, Some(flag_not_found_message(name))),
            },
            _ => (u2, Some("Invalid config: flags must be a map"@)),
        },
    }
}

/// The flag entry that `deprecate_flag` would write into is a map or null.
pub open spec fn deprecate_safe(u: JsonView, name: Seq<char>) -> bool {
    match ensure_v2_outcome(u) {
        Ok(u2) => match flags_of(u2) {
            Some(JsonView::Object(fe)) => match entries_get(fe, name) {
                Some(flag) => indexable(flag),
                None => true,
            },
            _ => true,
        },
        Err(_) => true,
    }
}

/// Sets `lifecycle: deprecated` on a flag.
pub fn deprecate_flag(unified: &mut JsonValue, flag_name: &str) -> (r: Result<(), CliError>)
    requires
        deprecate_safe(old(unified)@, flag_name@),
    ensures
        final(unified)@ == deprecate_outcome(old(unified)@, flag_name@).0,
        err_text(r) == deprecate_outcome(old(unified)@, flag_name@).1,
{
    ensure_v2_flags_map(unified)?;
    let mut flags = match value_get(unified, "flags") {
        Some(f) => match f {
            JsonValue::Object(_) => copy_value(f),
            _ => return Err(message("Invalid config: flags must be a map")),
        },
        None => return Err(message("Invalid config: flags must be a map")),
    };
    let mut flag = match value_get(&flags, flag_name) {
        Some(f) => copy_value(f),
        None => return Err(CliError::Message(cat3("Flag '", flag_name, "' not found"))),
    };
    set_index_value(&mut flag, owned("lifecycle"), JsonValue::String(owned("deprecated")));
    object_set(&mut flags, owned(flag_name), flag);
    object_set(unified, owned("flags"), flags);
    Ok(())
}

pub open spec fn rules_template() -> JsonView {
    JsonView::Object(entries_set(seq![], "rules"@, empty_object()))
}

/// `environments: {}` as `entry(..).or_insert` leaves it: the current value, or an empty map.
pub open spec fn environments_or_empty(u: JsonView) -> JsonView {
    match environments_of(u) {
        Some(x) => x,
        None => empty_object(),
    }
}

/// What `add_environment` makes of a document.
pub open spec fn add_environment_outcome(u: JsonView, name: Seq<char>) -> (JsonView, Option<Seq<char>>) {
    if environments_of(u) matches Some(JsonView::Object(e)) && has_key(e, name) {
        (u, Some("Environment '"@ + name + "' already exists."@))
    } else if !(u is Object) {
        (u, Some("Invalid config root"@))
    } else if !(environments_or_empty(u) is Object) {
        (u, Some("Invalid environments block"@))
    } else {
        (
            JsonView::Object(entries_set(view_entries_of(u), "environments"@,
                JsonView::Object(entries_set(view_entries_of(environments_or_empty(u)), name, rules_template())))),
            None,
        )
    }
}

fn new_rules_template() -> (r: JsonValue)
    ensures
        r@ == rules_template(),
{
    let mut entries: Vec<(String, JsonValue)> = Vec::new();
    proof {
        crate::json::lemma_view_entries_ext(Seq::<(String, JsonValue)>::empty(), seq![]);
    }
    entries_insert(&mut entries, owned("rules"), JsonValue::Object(Vec::new()));
    JsonValue::Object(entries)
}

fn environments_copy(unified: &JsonValue) -> (r: JsonValue)
    ensures
        r@ == environments_or_empty(unified@),
{
    match value_get(unified, "environments") {
        Some(e) => copy_value(e),
        None => {
            proof {
                crate::json::lemma_view_entries_ext(Seq::<(String, JsonValue)>::empty(), seq![]);
            }
            JsonValue::Object(Vec::new())
        },
    }
}

/// Adds an environment with an empty rules map.
pub fn add_environment(unified: &mut JsonValue, name: &str) -> (r: Result<(), CliError>)
    ensures
        final(unified)@ == add_environment_outcome(old(unified)@, name@).0,
        err_text(r) == add_environment_outcome(old(unified)@, name@).1,
{
    match value_get(unified, "environments") {
        Some(JsonValue::Object(entries)) => {
            if entries_find(entries, name).is_some() {
                return Err(CliError::Message(cat3("Environment '", name, "' already exists.")));
            }
        },
        _ => {},
    }
    if !matches!(unified, JsonValue::Object(_)) {
        return Err(message("Invalid config root"));
    }
    let mut envs = environments_copy(unified);
    if !matches!(envs, JsonValue::Object(_)) {
        return Err(message("Invalid environments block"));
    }
    object_set(&mut envs, owned(name), new_rules_template());
    object_set(unified, owned("environments"), envs);
    Ok(())
}

/// What `remove_environment` makes of a document.
pub open spec fn remove_environment_outcome(u: JsonView, name: Seq<char>) -> (JsonView, Option<Seq<char>>) {
    if environments_of(u) matches Some(JsonView::Object(e)) && has_key(e, name) {
        (JsonView::Object(entries_set(view_entries_of(u), "environments"@, JsonView::Object(entries_remove(view_entries_of(environments_or_empty(u)), name)))), None)
    } else {
        (u, Some("Environment '"@ + name + "' not found."@))
    }
}

/// Removes an environment block.
pub fn remove_environment(unified: &mut JsonValue, name: &str) -> (r: Result<(), CliError>)
    ensures
        final(unified)@ == remove_environment_outcome(old(unified)@, name@).0,
        err_text(r) == remove_environment_outcome(old(unified)@, name@).1,
{
    let mut envs = match value_get(unified, "environments") {
        Some(e) => match e {
            JsonValue::Object(entries) => {
                if entries_find(entries, name).is_none() {
                    return Err(CliError::Message(cat3("Environment '", name, "' not found.")));
                }
                copy_value(e)
            },
            _ => return Err(CliError::Message(cat3("Environment '", name, "' not found."))),
        },
        None => return Err(CliError::Message(cat3("Environment '", name, "' not found."))),
    };
    object_remove(&mut envs, name);
    object_set(unified, owned("environments"), envs);
    Ok(())
}

/// An environment block with `flag` dropped from its `rules` map (when that is a map).
pub open spec fn strip_flag_from_env(env: JsonView, flag: Seq<char>) -> JsonView {
    match view_get(env, "rules"@) {
        Some(JsonView::Object(re)) => JsonView::Object(entries_set(view_entries_of(env), "rules"@, JsonView::Object(entries_remove(re, flag)))),
        _ => env,
    }
}

pub open spec fn strip_flag_from_envs(es: Seq<(Seq<char>, JsonView)>, flag: Seq<char>) -> Seq<(Seq<char>, JsonView)> {
    es.map_values(|p: (Seq<char>, JsonView)| (p.0, strip_flag_from_env(p.1, flag)))
}

/// What `remove_flag` makes of a document.
pub open spec fn remove_flag_outcome(u: JsonView, flag: Seq<char>, env: Option<Seq<char>>) -> (JsonView, Option<Seq<char>>) {
    match ensure_v2_outcome(u) {
        Err(m) => (u, Some(m)),
        Ok(u2) => match env {
            Some(t) => match environments_of(u2) {
                Some(envs) => match view_get(envs, t) {
                    Some(ev) => match view_get(ev, "rules"@) {
                        Some(JsonView::Object(_)) => (
                            JsonView::Object(entries_set(view_entries_of(u2), "environments"@,
                                JsonView::Object(entries_set(view_entries_of(envs), t, strip_flag_from_env(ev, flag))))),
                            None,
                        ),
                        _ => (u2, None),
                    },
                    None => (u2, None),
                },
                None => (u2, None),
            },
            None => match flags_of(u2) {
                Some(JsonView::Object(fe)) => if has_key(fe, flag) {
                    let u3 = JsonView::Object(entries_set(view_entries_of(u2), "flags"@, JsonView::Object(entries_remove(fe, flag))));
                    match environments_of(u3) {
                        Some(JsonView::Object(es)) => (
                            JsonView::Object(entries_set(view_entries_of(u3), "environments"@, JsonView::Object(strip_flag_from_envs(es, flag)))),
                            None,
                        ),
                        _ => (u3, None),
                    }
                } else {
                    (u2, Some("Flag '"@ + flag + "' not found."@))
                },
                _ => (u2, Some("Flag '"@ + flag + "' not found."@)),
            },
        },
    }
}

fn strip_flag_from_env_value(env: &JsonValue, flag: &str) -> (r: JsonValue)
    ensures
        r@ == strip_flag_from_env(env@, flag@),
{
    match value_get(env, "rules") {
        Some(rules) => match rules {
            JsonValue::Object(_) => {
                let mut rules2 = copy_value(rules);
                object_remove(&mut rules2, flag);
                let mut env2 = copy_value(env);
                object_set(&mut env2, owned("rules"), rules2);
                env2
            },
            _ => copy_value(env),
        },
        None => copy_value(env),
    }
}

/// Removes a flag everywhere, or only its rules in one environment.
pub fn remove_flag(unified: &mut JsonValue, flag_name: &str, env: Option<&str>) -> (r: Result<(), CliError>)
    ensures
        final(unified)@ == remove_flag_outcome(old(unified)@, flag_name@, match env { Some(t) => Some(t@), None => None }).0,
        err_text(r) == remove_flag_outcome(old(unified)@, flag_name@, match env { Some(t) => Some(t@), None => None }).1,
{
    ensure_v2_flags_map(unified)?;
    match env {
        Some(target) => {
            let mut envs = match value_get(unified, "environments") {
                Some(e) => copy_value(e),
                None => return Ok(()),
            };
            let new_env = match value_get(&envs, target) {
                Some(ev) => match value_get(ev, "rules") {
                    Some(JsonValue::Object(_)) => strip_flag_from_env_value(ev, flag_name),
                    _ => return Ok(()),
                },
                None => return Ok(()),
            };
            object_set(&mut envs, owned(target), new_env);
            object_set(unified, owned("environments"), envs);
            Ok(())
        },
        None => {
            let mut flags = match value_get(unified, "flags") {
                Some(f) => match f {
                    JsonValue::Object(entries) => {
                        if entries_find(entries, flag_name).is_none() {
                            return Err(CliError::Message(cat3("Flag '", flag_name, "' not found.")));
                        }
                        copy_value(f)
                    },
                    _ => return Err(CliError::Message(cat3("Flag '", flag_name, "' not found."))),
                },
                None => return Err(CliError::Message(cat3("Flag '", flag_name, "' not found."))),
            };
            object_remove(&mut flags, flag_name);
            object_set(unified, owned("flags"), flags);
            let stripped = match value_get(unified, "environments") {
                Some(JsonValue::Object(entries)) => {
                    let ghost ev = view_entries(entries@);
                    proof {
                        lemma_view_entries(entries@);
                    }
                    let mut out: Vec<(String, JsonValue)> = Vec::new();
                    let mut i: usize = 0;
                    while i < entries.len()
                        invariant
                            ev == view_entries(entries@),
                            ev.len() == entries@.len(),
                            forall|j: int| 0 <= j < ev.len() ==> #[trigger] ev[j] == (entries@[j].0@, crate::json::json_view(entries@[j].1)),
                            i <= entries@.len(),
                            out@.len() == i,
                            forall|j: int| 0 <= j < i ==> (#[trigger] out@[j].0@, crate::json::json_view(out@[j].1)) == strip_flag_from_envs(ev, flag_name@)[j],
                        decreases entries@.len() - i,
                    {
                        let v = strip_flag_from_env_value(&entries[i].1, flag_name);
                        out.push((entries[i].0.clone(), v));
                        i = i + 1;
                    }
                    proof {
                        crate::json::lemma_view_entries_ext(out@, strip_flag_from_envs(ev, flag_name@));
                    }
                    Some(JsonValue::Object(out))
                },
                _ => None,
            };
            match stripped {
                Some(s) => object_set(unified, owned("environments"), s),
                None => {},
            }
            Ok(())
        },
    }
}

/// `{"default": .., "kind": .., "description": ..}` for a new flag.
pub open spec fn new_flag_view(default: bool, kind: Seq<char>, description: Option<Seq<char>>) -> JsonView {
    let base = entries_set(entries_set(seq![], "default"@, JsonView::Bool(default)), "kind"@, JsonView::Str(kind));
    match description {
        Some(d) => JsonView::Object(entries_set(base, "description"@, JsonView::Str(d))),
        None => JsonView::Object(base),
    }
}

/// `[{"serve": default}]`.
pub open spec fn serve_rules_view(default: bool) -> JsonView {
    JsonView::Array(seq![JsonView::Object(entries_set(seq![], "serve"@, JsonView::Bool(default)))])
}

/// An environment block as `entry(env).or_insert({"rules": {}})` and the
/// `rules` repair leave it: its `rules` is then always a map.
pub open spec fn normalized_env(entry: Option<JsonView>) -> JsonView {
    let e0 = match entry {
        Some(x) => x,
        None => rules_template(),
    };
    if view_get(e0, "rules"@) matches Some(JsonView::Object(_)) {
        e0
    } else {
        set_index(e0, "rules"@, empty_object())
    }
}

pub open spec fn env_rules_entries(env: JsonView) -> Seq<(Seq<char>, JsonView)> {
    match view_get(env, "rules"@) {
        Some(r) => view_entries_of(r),
        None => seq![],
    }
}

/// The environment block after `rules[flag] = rules_value`.
pub open spec fn env_with_rules(entry: Option<JsonView>, flag: Seq<char>, rules_value: JsonView) -> JsonView {
    let e1 = normalized_env(entry);
    set_index(e1, "rules"@, JsonView::Object(entries_set(env_rules_entries(e1), flag, rules_value)))
}

/// The environments map after writing the flag's rules into each listed environment, in order.
pub open spec fn synced_environments(es: Seq<(Seq<char>, JsonView)>, envs: Seq<Seq<char>>, flag: Seq<char>, rules_value: JsonView) -> Seq<(Seq<char>, JsonView)>
    decreases envs.len(),
{
    if envs.len() == 0 {
        es
    } else {
        let es2 = synced_environments(es, envs.drop_last(), flag, rules_value);
        entries_set(es2, envs.last(), env_with_rules(entries_get(es2, envs.last()), flag, rules_value))
    }
}

/// An environment entry that can take a `rules` key: missing, null or a map.
pub open spec fn env_slot_ok(entry: Option<JsonView>) -> bool {
    match entry {
        Some(x) => indexable(x),
        None => true,
    }
}

/// What `add_flag` makes of a document.
pub open spec fn add_flag_outcome(
    u: JsonView,
    name: Seq<char>,
    default: bool,
    kind: Seq<char>,
    description: Option<Seq<char>>,
    sync: Seq<Seq<char>>,
) -> (JsonView, Option<Seq<char>>) {
    match ensure_v2_outcome(u) {
        Err(m) => (u, Some(m)),
        Ok(u2) => {
            let fe = view_entries_of(flags_of(u2).unwrap());
            if has_key(fe, name) {
                (u2, Some("Flag '"@ + name + "' already exists"@))
            } else {
                let u3 = JsonView::Object(entries_set(view_entries_of(u2), "flags"@,
                    JsonView::Object(entries_set(fe, name, new_flag_view(default, kind, description)))));
                if sync.len() == 0 {
                    (u3, None)
                } else if !(environments_or_empty(u3) is Object) {
                    (u3, Some("Invalid environments block"@))
                } else {
                    (
                        JsonView::Object(entries_set(view_entries_of(u3), "environments"@,
                            JsonView::Object(synced_environments(view_entries_of(environments_or_empty(u3)), sync, name, serve_rules_view(default))))),
                        None,
                    )
                }
            }
        },
    }
}

/// The cases in which `add_flag` can run without a panic: `flags`, when present
/// and not an array, is a map; every listed environment block is missing, null or a map.
pub open spec fn add_flag_safe(u: JsonView, sync: Seq<Seq<char>>) -> bool {
    &&& (flags_of(u) matches Some(f) ==> (f is Object || f is Array))
    &&& forall|i: int| 0 <= i < sync.len() ==> env_slot_ok(#[trigger] view_get(environments_or_empty(u), sync[i]))
}

fn new_flag_value(default: bool, kind: &str, description: Option<&str>) -> (r: JsonValue)
    ensures
        r@ == new_flag_view(default, kind@, match description { Some(d) => Some(d@), None => None }),
{
    let mut entries: Vec<(String, JsonValue)> = Vec::new();
    proof {
        crate::json::lemma_view_entries_ext(Seq::<(String, JsonValue)>::empty(), seq![]);
    }
    entries_insert(&mut entries, owned("default"), JsonValue::Bool(default));
    entries_insert(&mut entries, owned("kind"), JsonValue::String(owned(kind)));
    match description {
        Some(d) => entries_insert(&mut entries, owned("description"), JsonValue::String(owned(d))),
        None => {},
    }
    JsonValue::Object(entries)
}

fn serve_rules_value(default: bool) -> (r: JsonValue)
    ensures
        r@ == serve_rules_view(default),
{
    let mut rule: Vec<(String, JsonValue)> = Vec::new();
    proof {
        crate::json::lemma_view_entries_ext(Seq::<(String, JsonValue)>::empty(), seq![]);
    }
    entries_insert(&mut rule, owned("serve"), JsonValue::Bool(default));
    let mut items: Vec<JsonValue> = Vec::new();
    items.push(JsonValue::Object(rule));
    proof {
        crate::json::lemma_view_items_ext(items@, serve_rules_view(default)->Array_0);
    }
    JsonValue::Array(items)
}

fn normalized_env_value(entry: Option<&JsonValue>) -> (r: JsonValue)
    requires
        env_slot_ok(match entry { Some(x) => Some(x@), None => None }),
    ensures
        r@ == normalized_env(match entry { Some(x) => Some(x@), None => None }),
        r@ is Object,
        view_get(r@, "rules"@) matches Some(JsonView::Object(_)),
{
    let mut e0 = match entry {
        Some(x) => copy_value(x),
        None => new_rules_template(),
    };
    proof {
        lemma_entries_set_get(Seq::<(Seq<char>, JsonView)>::empty(), "rules"@, empty_object());
    }
    match value_get(&e0, "rules") {
        Some(JsonValue::Object(_)) => e0,
        _ => {
            proof {
                lemma_entries_set_get(view_entries_of(e0@), "rules"@, empty_object());
                lemma_entries_set_get(Seq::<(Seq<char>, JsonView)>::empty(), "rules"@, empty_object());
            }
            set_index_value(&mut e0, owned("rules"), JsonValue::Object(Vec::new()));
            proof {
                crate::json::lemma_view_entries_ext(Seq::<(String, JsonValue)>::empty(), seq![]);
            }
            e0
        },
    }
}

fn env_with_rules_value(entry: Option<&JsonValue>, flag: &str, rules_value: JsonValue) -> (r: JsonValue)
    requires
        env_slot_ok(match entry { Some(x) => Some(x@), None => None }),
    ensures
        r@ == env_with_rules(match entry { Some(x) => Some(x@), None => None }, flag@, rules_value@),
        r@ is Object,
{
    let mut e1 = normalized_env_value(entry);
    let mut rules = match value_get(&e1, "rules") {
        Some(r) => copy_value(r),
        None => JsonValue::Object(Vec::new()),
    };
    object_set(&mut rules, owned(flag), rules_value);
    set_index_value(&mut e1, owned("rules"), rules);
    e1
}

/// Adds a boolean flag to the `flags` map, optionally seeding `[{serve: default}]`
/// rules in the listed environments.
pub fn add_flag(
    unified: &mut JsonValue,
    flag_name: &str,
    default: bool,
    kind: &str,
    description: Option<&str>,
    sync_envs: &[String],
) -> (r: Result<(), CliError>)
    requires
        add_flag_safe(old(unified)@, sync_envs@.map_values(|s: String| s@)),
    ensures
        final(unified)@ == add_flag_outcome(old(unified)@, flag_name@, default, kind@,
            match description { Some(d) => Some(d@), None => None }, sync_envs@.map_values(|s: String| s@)).0,
        err_text(r) == add_flag_outcome(old(unified)@, flag_name@, default, kind@,
            match description { Some(d) => Some(d@), None => None }, sync_envs@.map_values(|s: String| s@)).1,
{
    let ghost sync = sync_envs@.map_values(|s: String| s@);
    let ghost u0 = unified@;
    ensure_v2_flags_map(unified)?;
    let ghost u2 = unified@;
    proof {
        reveal_strlit("environments");
        reveal_strlit("flags");
        assert("environments"@ != "flags"@) by {
            assert("environments"@.len() != "flags"@.len());
        }
        if !(flags_of(u0) matches Some(JsonView::Object(_))) && u0 is Object && !has_key(view_entries_of(u0), "flags"@) {
            lemma_entries_set_get(view_entries_of(u0), "flags"@, empty_object());
        }
        assert(environments_or_empty(u2) == environments_or_empty(u0));
    }
    let mut flags = match value_get(unified, "flags") {
        Some(f) => copy_value(f),
        None => JsonValue::Object(Vec::new()),
    };
    assert(flags@ is Object);
    match &flags {
        JsonValue::Object(entries) => {
            if entries_find(entries, flag_name).is_some() {
                return Err(CliError::Message(cat3("Flag '", flag_name, "' already exists")));
            }
        },
        _ => {},
    }
    object_set(&mut flags, owned(flag_name), new_flag_value(default, kind, description));
    object_set(unified, owned("flags"), flags);
    let ghost u3 = unified@;
    if sync_envs.len() == 0 {
        return Ok(());
    }
    proof {
        lemma_entries_set_get(view_entries_of(u2), "flags"@, flags@);
        assert(environments_or_empty(u3) == environments_or_empty(u0));
    }
    let mut envs = environments_copy(unified);
    if !matches!(envs, JsonValue::Object(_)) {
        return Err(message("Invalid environments block"));
    }
    let ghost es0 = view_entries_of(envs@);
    assert(synced_environments(es0, sync.take(0), flag_name@, serve_rules_view(default)) == es0) by {
        assert(sync.take(0).len() == 0);
    }
    assert forall|j: int| 0 <= j < sync.len() implies env_slot_ok(#[trigger] entries_get(view_entries_of(envs@), sync[j])) by {
        assert(view_get(environments_or_empty(u0), sync[j]) == entries_get(es0, sync[j]));
    }
    let mut i: usize = 0;
    while i < sync_envs.len()
        invariant
            sync == sync_envs@.map_values(|s: String| s@),
            i <= sync_envs@.len(),
            envs@ is Object,
            view_entries_of(envs@) == synced_environments(es0, sync.take(i as int), flag_name@, serve_rules_view(default)),
            forall|j: int| i <= j < sync.len() ==> env_slot_ok(#[trigger] entries_get(view_entries_of(envs@), sync[j])),
        decreases sync_envs@.len() - i,
    {
        let name = &sync_envs[i];
        let ghost cur = view_entries_of(envs@);
        assert(sync[i as int] == name@);
        let new_env = env_with_rules_value(value_get(&envs, name.as_str()), flag_name, serve_rules_value(default));
        object_set(&mut envs, name.clone(), new_env);
        proof {
            lemma_entries_set_get(cur, name@, new_env@);
            assert(sync.take(i + 1).drop_last() =~= sync.take(i as int));
            assert(sync.take(i + 1).last() == name@);
            assert forall|j: int| i + 1 <= j < sync.len() implies env_slot_ok(#[trigger] entries_get(view_entries_of(envs@), sync[j])) by {
                if sync[j] != name@ {
                    assert(entries_get(view_entries_of(envs@), sync[j]) == entries_get(cur, sync[j]));
                } else {
                    assert(entries_get(view_entries_of(envs@), sync[j]) == Some(new_env@));
                }
            }
        }
        i = i + 1;
    }
    proof {
        assert(sync.take(sync.len() as int) =~= sync);
    }
    object_set(unified, owned("environments"), envs);
    Ok(())
}

/// `{"serve": serve, "when": expr}` (no `when` without an expression).
pub open spec fn new_rule_view(serve: bool, rule_expr: Option<Seq<char>>) -> JsonView {
    let base = entries_set(seq![], "serve"@, JsonView::Bool(serve));
    match rule_expr {
        Some(e) => JsonView::Object(entries_set(base, "when"@, JsonView::Str(e))),
        None => JsonView::Object(base),
    }
}

/// A flag's rule list with one more rule at the end (a non-list is left as it is).
pub open spec fn append_rule(rules: Option<JsonView>, rule: JsonView) -> JsonView {
    match rules {
        Some(JsonView::Array(xs)) => JsonView::Array(xs.push(rule)),
        Some(other) => other,
        None => JsonView::Array(seq![rule]),
    }
}

pub open spec fn deprecated_message(name: Seq<char>) -> Seq<char> {
    "Flag '"@ + name + "' is deprecated. Rule changes are blocked unless --force is set."@
}

/// What `enable_flag_in_environment` makes of a document.
pub open spec fn enable_outcome(
    u: JsonView,
    flag: Seq<char>,
    env: Seq<char>,
    rule_expr: Option<Seq<char>>,
    serve: bool,
    force: bool,
) -> (JsonView, Option<Seq<char>>) {
    if !spec_flag_exists(u, flag) {
        (u, Some(flag_not_found_message(flag)))
    } else if spec_is_deprecated(u, flag) && !force {
        (u, Some(deprecated_message(flag)))
    } else if !(environments_or_empty(u) is Object) {
        (u, Some("Invalid environments block"@))
    } else {
        let es = view_entries_of(environments_or_empty(u));
        let e1 = normalized_env(entries_get(es, env));
        let re = env_rules_entries(e1);
        let e2 = set_index(e1, "rules"@, JsonView::Object(entries_set(re, flag, append_rule(entries_get(re, flag), new_rule_view(serve, rule_expr)))));
        (JsonView::Object(entries_set(view_entries_of(u), "environments"@, JsonView::Object(entries_set(es, env, e2)))), None)
    }
}

/// The environment block that `enable_flag_in_environment` writes into is missing, null or a map.
pub open spec fn enable_safe(u: JsonView, env: Seq<char>) -> bool {
    env_slot_ok(view_get(environments_or_empty(u), env))
}

/// Tells whether an environment's block can take rules (see [`enable_safe`]).
pub fn can_take_rules(unified: &JsonValue, env: &str) -> (r: bool)
    ensures
        r == enable_safe(unified@, env@),
{
    match value_get(unified, "environments") {
        Some(envs) => match value_get(envs, env) {
            Some(JsonValue::Null) => true,
            Some(JsonValue::Object(_)) => true,
            Some(_) => false,
            None => true,
        },
        None => {
            proof {
                assert(!has_key(Seq::<(Seq<char>, JsonView)>::empty(), env@));
            }
            true
        },
    }
}

/// Tells whether `add_flag` can work on the document (see [`add_flag_safe`]).
pub fn can_add_flag(unified: &JsonValue, sync_envs: &[String]) -> (r: bool)
    ensures
        r == add_flag_safe(unified@, sync_envs@.map_values(|s: String| s@)),
{
    let ghost sync = sync_envs@.map_values(|s: String| s@);
    match value_get(unified, "flags") {
        Some(JsonValue::Object(_)) => {},
        Some(JsonValue::Array(_)) => {},
        Some(_) => {
            return false;
        },
        None => {},
    }
    let mut i: usize = 0;
    while i < sync_envs.len()
        invariant
            i <= sync_envs@.len(),
            sync == sync_envs@.map_values(|s: String| s@),
            forall|j: int| 0 <= j < i ==> env_slot_ok(#[trigger] view_get(environments_or_empty(unified@), sync[j])),
        decreases sync_envs@.len() - i,
    {
        if !can_take_rules(unified, sync_envs[i].as_str()) {
            proof {
                assert(sync[i as int] == sync_envs@[i as int]@);
                assert(!env_slot_ok(view_get(environments_or_empty(unified@), sync[i as int])));
            }
            return false;
        }
        i = i + 1;
    }
    true
}

/// Tells whether `deprecate_flag` can work on the document (see [`deprecate_safe`]).
pub fn can_deprecate(unified: &JsonValue, flag_name: &str) -> (r: bool)
    ensures
        r == deprecate_safe(unified@, flag_name@),
{
    let mut probe = copy_value(unified);
    match ensure_v2_flags_map(&mut probe) {
        Err(_) => true,
        Ok(()) => match value_get(&probe, "flags") {
            Some(JsonValue::Object(entries)) => match entries_lookup(entries, flag_name) {
                Some(JsonValue::Null) => true,
                Some(JsonValue::Object(_)) => true,
                Some(_) => false,
                None => true,
            },
            _ => true,
        },
    }
}

fn new_rule_value(serve: bool, rule_expr: Option<&str>) -> (r: JsonValue)
    ensures
        r@ == new_rule_view(serve, match rule_expr { Some(e) => Some(e@), None => None }),
{
    let mut entries: Vec<(String, JsonValue)> = Vec::new();
    proof {
        crate::json::lemma_view_entries_ext(Seq::<(String, JsonValue)>::empty(), seq![]);
    }
    entries_insert(&mut entries, owned("serve"), JsonValue::Bool(serve));
    match rule_expr {
        Some(e) => entries_insert(&mut entries, owned("when"), JsonValue::String(owned(e))),
        None => {},
    }
    JsonValue::Object(entries)
}

fn append_rule_value(rules: Option<&JsonValue>, rule: JsonValue) -> (r: JsonValue)
    ensures
        r@ == append_rule(match rules { Some(x) => Some(x@), None => None }, rule@),
{
    match rules {
        Some(x) => match x {
            JsonValue::Array(items) => {
                let ghost iv = crate::json::view_items(items@);
                proof {
                    crate::json::lemma_view_items(items@);
                }
                let mut out: Vec<JsonValue> = Vec::new();
                let mut i: usize = 0;
                while i < items.len()
                    invariant
                        iv == crate::json::view_items(items@),
                        iv.len() == items@.len(),
                        forall|j: int| 0 <= j < iv.len() ==> #[trigger] iv[j] == crate::json::json_view(items@[j]),
                        i <= items@.len(),
                        out@.len() == i,
                        forall|j: int| 0 <= j < i ==> crate::json::json_view(#[trigger] out@[j]) == iv[j],
                    decreases items@.len() - i,
                {
                    out.push(copy_value(&items[i]));
                    i = i + 1;
                }
                let ghost rv = rule@;
                out.push(rule);
                proof {
                    crate::json::lemma_view_items_ext(out@, iv.push(rv));
                }
                JsonValue::Array(out)
            },
            _ => copy_value(x),
        },
        None => {
            let ghost rv = rule@;
            let mut out: Vec<JsonValue> = Vec::new();
            out.push(rule);
            proof {
                crate::json::lemma_view_items_ext(out@, seq![rv]);
            }
            JsonValue::Array(out)
        },
    }
}

/// Appends a rule (`serve`, optional `when`) for a flag in one environment.
pub fn enable_flag_in_environment(
    unified: &mut JsonValue,
    flag_name: &str,
    environment: &str,
    rule_expr: Option<&str>,
    serve: bool,
    force_deprecated: bool,
) -> (r: Result<(), CliError>)
    requires
        enable_safe(old(unified)@, environment@),
    ensures
        final(unified)@ == enable_outcome(old(unified)@, flag_name@, environment@,
            match rule_expr { Some(e) => Some(e@), None => None }, serve, force_deprecated).0,
        err_text(r) == enable_outcome(old(unified)@, flag_name@, environment@,
            match rule_expr { Some(e) => Some(e@), None => None }, serve, force_deprecated).1,
{
    if !flag_exists(unified, flag_name) {
        return Err(CliError::Message(cat3("Flag '", flag_name, "' not found")));
    }
    if is_flag_deprecated(unified, flag_name) && !force_deprecated {
        return Err(CliError::Message(cat3(
            "Flag '",
            flag_name,
            "' is deprecated. Rule changes are blocked unless --force is set.",
        )));
    }
    let mut envs = environments_copy(unified);
    if !matches!(envs, JsonValue::Object(_)) {
        return Err(message("Invalid environments block"));
    }
    let mut e1 = normalized_env_value(value_get(&envs, environment));
    let mut rules = match value_get(&e1, "rules") {
        Some(r) => copy_value(r),
        None => JsonValue::Object(Vec::new()),
    };
    let list = append_rule_value(value_get(&rules, flag_name), new_rule_value(serve, rule_expr));
    object_set(&mut rules, owned(flag_name), list);
    set_index_value(&mut e1, owned("rules"), rules);
    object_set(&mut envs, owned(environment), e1);
    object_set(unified, owned("environments"), envs);
    Ok(())
}

// ---------------------------------------------------------------------------
// Laws of the catalog operations
// ---------------------------------------------------------------------------

/// A flag that `add_flag` accepted is declared afterwards.
pub proof fn law_added_flag_exists(
    u: JsonView,
    name: Seq<char>,
    default: bool,
    kind: Seq<char>,
    description: Option<Seq<char>>,
    sync: Seq<Seq<char>>,
)
    requires
        add_flag_outcome(u, name, default, kind, description, sync).1 is None,
    ensures
        spec_flag_exists(add_flag_outcome(u, name, default, kind, description, sync).0, name),
{
    reveal_strlit("environments");
    reveal_strlit("flags");
    assert("environments"@ != "flags"@) by {
        assert("environments"@.len() != "flags"@.len());
    }
    let u2 = ensure_v2_outcome(u)->Ok_0;
    if !(flags_of(u) matches Some(JsonView::Object(_))) && u is Object && !has_key(view_entries_of(u), "flags"@) {
        lemma_entries_set_get(view_entries_of(u), "flags"@, empty_object());
    }
    let fe = view_entries_of(flags_of(u2).unwrap());
    let f2 = JsonView::Object(entries_set(fe, name, new_flag_view(default, kind, description)));
    lemma_entries_set_get(fe, name, new_flag_view(default, kind, description));
    lemma_entries_set_get(view_entries_of(u2), "flags"@, f2);
    let u3 = JsonView::Object(entries_set(view_entries_of(u2), "flags"@, f2));
    lemma_key_pos(entries_set(fe, name, new_flag_view(default, kind, description)), name);
    if sync.len() > 0 {
        let x = JsonView::Object(synced_environments(view_entries_of(environments_or_empty(u3)), sync, name, serve_rules_view(default)));
        lemma_entries_set_get(view_entries_of(u3), "environments"@, x);
    }
}

/// The rules of a flag in an environment, where the catalog has them.
pub open spec fn flag_rules(u: JsonView, env: Seq<char>, flag: Seq<char>) -> Option<JsonView> {
    match view_get(environments_or_empty(u), env) {
        Some(e) => match view_get(e, "rules"@) {
            Some(r) => view_get(r, flag),
            None => None,
        },
        None => None,
    }
}

/// The items of a rule list (none when there is no list).
pub open spec fn rule_items(rules: Option<JsonView>) -> Seq<JsonView> {
    match rules {
        Some(JsonView::Array(xs)) => xs,
        _ => seq![],
    }
}

/// Enabling a flag in an environment appends the new rule to the flag's rules
/// there: what was there stays, in order, and the new rule comes last.
pub proof fn law_enable_appends_rule(
    u: JsonView,
    flag: Seq<char>,
    env: Seq<char>,
    rule_expr: Option<Seq<char>>,
    serve: bool,
    force: bool,
)
    requires
        enable_safe(u, env),
        enable_outcome(u, flag, env, rule_expr, serve, force).1 is None,
        flag_rules(u, env, flag) is None || flag_rules(u, env, flag) matches Some(JsonView::Array(_)),
    ensures
        flag_rules(enable_outcome(u, flag, env, rule_expr, serve, force).0, env, flag)
            == Some(JsonView::Array(rule_items(flag_rules(u, env, flag)).push(new_rule_view(serve, rule_expr)))),
{
    reveal_strlit("environments");
    reveal_strlit("rules");
    let es = view_entries_of(environments_or_empty(u));
    let entry = entries_get(es, env);
    let e1 = normalized_env(entry);
    let re = env_rules_entries(e1);
    let appended = append_rule(entries_get(re, flag), new_rule_view(serve, rule_expr));
    let rules2 = JsonView::Object(entries_set(re, flag, appended));
    let e2 = set_index(e1, "rules"@, rules2);
    let envs2 = JsonView::Object(entries_set(es, env, e2));
    let out = enable_outcome(u, flag, env, rule_expr, serve, force).0;
    assert(out == JsonView::Object(entries_set(view_entries_of(u), "environments"@, envs2)));
    lemma_entries_set_get(view_entries_of(u), "environments"@, envs2);
    assert(environments_or_empty(out) == envs2);
    lemma_entries_set_get(es, env, e2);
    assert(view_get(envs2, env) == Some(e2));
    // The normalized block is a map whose `rules` is a map.
    let e0 = match entry { Some(x) => x, None => rules_template() };
    if entry is None {
        lemma_entries_set_get(Seq::<(Seq<char>, JsonView)>::empty(), "rules"@, empty_object());
    }
    if !(view_get(e0, "rules"@) matches Some(JsonView::Object(_))) {
        if e0 is Null {
            lemma_entries_set_get(Seq::<(Seq<char>, JsonView)>::empty(), "rules"@, empty_object());
        } else {
            lemma_entries_set_get(view_entries_of(e0), "rules"@, empty_object());
        }
    }
    assert(e1 is Object);
    lemma_entries_set_get(view_entries_of(e1), "rules"@, rules2);
    assert(view_get(e2, "rules"@) == Some(rules2));
    lemma_entries_set_get(re, flag, appended);
    assert(view_get(rules2, flag) == Some(appended));
    // What the flag had before is what the normalized block holds for it.
    if view_get(e0, "rules"@) matches Some(JsonView::Object(_)) {
        assert(entries_get(re, flag) == flag_rules(u, env, flag));
    } else {
        assert(re == Seq::<(Seq<char>, JsonView)>::empty()) by {
            assert(view_get(e1, "rules"@) == Some(empty_object()));
        }
        assert(entries_get(re, flag) is None);
        assert(flag_rules(u, env, flag) is None);
    }
}

/// A deprecated flag refuses new rules unless forced.
pub proof fn law_deprecated_flag_blocks_enable(u: JsonView, name: Seq<char>, env: Seq<char>, rule_expr: Option<Seq<char>>, serve: bool)
    requires
        deprecate_safe(u, name),
        deprecate_outcome(u, name).1 is None,
    ensures
        enable_outcome(deprecate_outcome(u, name).0, name, env, rule_expr, serve, false).1 == Some(deprecated_message(name)),
{
    reveal_strlit("flags");
    reveal_strlit("lifecycle");
    let u2 = ensure_v2_outcome(u)->Ok_0;
    if !(flags_of(u) matches Some(JsonView::Object(_))) && u is Object && !has_key(view_entries_of(u), "flags"@) {
        lemma_entries_set_get(view_entries_of(u), "flags"@, empty_object());
    }
    let fe = view_entries_of(flags_of(u2).unwrap());
    let flag = entries_get(fe, name)->Some_0;
    let flag2 = set_index(flag, "lifecycle"@, JsonView::Str("deprecated"@));
    match flag {
        JsonView::Null => lemma_entries_set_get(Seq::<(Seq<char>, JsonView)>::empty(), "lifecycle"@, JsonView::Str("deprecated"@)),
        JsonView::Object(e) => lemma_entries_set_get(e, "lifecycle"@, JsonView::Str("deprecated"@)),
        _ => {},
    }
    lemma_entries_set_get(fe, name, flag2);
    lemma_entries_set_get(view_entries_of(u2), "flags"@, JsonView::Object(entries_set(fe, name, flag2)));
    lemma_key_pos(entries_set(fe, name, flag2), name);
    let d = deprecate_outcome(u, name).0;
    assert(flags_of(d) == Some(JsonView::Object(entries_set(fe, name, flag2))));
    assert(view_get(flag2, "lifecycle"@) == Some(JsonView::Str("deprecated"@)));
    assert(spec_flag_lifecycle(d, name) == Some("deprecated"@));
    assert(spec_flag_exists(d, name));
}

/// Removing an environment that was just added gives back the document it was added to,
/// when that document already had an `environments` map.
pub proof fn law_remove_environment_undoes_add(u: JsonView, name: Seq<char>)
    requires
        environments_of(u) matches Some(JsonView::Object(_)),
        add_environment_outcome(u, name).1 is None,
    ensures
        remove_environment_outcome(add_environment_outcome(u, name).0, name) == (u, None::<Seq<char>>),
{
    let root = view_entries_of(u);
    let e = view_entries_of(environments_or_empty(u));
    let e2 = entries_set(e, name, rules_template());
    lemma_entries_set_get(e, name, rules_template());
    lemma_entries_set_get(root, "environments"@, JsonView::Object(e2));
    lemma_key_pos(e, name);
    lemma_key_pos(e2, name);
    lemma_insert_then_remove(e, name, rules_template());
    let u1 = JsonView::Object(entries_set(root, "environments"@, JsonView::Object(e2)));
    lemma_set_twice(root, "environments"@, JsonView::Object(e2), JsonView::Object(e));
    lemma_set_same(root, "environments"@);
    assert(entries_set(root, "environments"@, JsonView::Object(e)) == root);
}

/// A flag removed everywhere is no longer declared (for a `flags` map whose keys
/// are in order, as every parsed map's are).
pub proof fn law_removed_flag_not_declared(u: JsonView, name: Seq<char>)
    requires
        remove_flag_outcome(u, name, None).1 is None,
        flags_of(u) matches Some(JsonView::Object(fe)) ==> keys_sorted(fe),
    ensures
        !spec_flag_exists(remove_flag_outcome(u, name, None).0, name),
{
    reveal_strlit("environments");
    reveal_strlit("flags");
    assert("environments"@ != "flags"@) by {
        assert("environments"@.len() != "flags"@.len());
    }
    let u2 = ensure_v2_outcome(u)->Ok_0;
    if !(flags_of(u) matches Some(JsonView::Object(_))) && u is Object && !has_key(view_entries_of(u), "flags"@) {
        lemma_entries_set_get(view_entries_of(u), "flags"@, empty_object());
    }
    let fe = view_entries_of(flags_of(u2).unwrap());
    let f3 = JsonView::Object(entries_remove(fe, name));
    lemma_entries_set_get(view_entries_of(u2), "flags"@, f3);
    crate::json::lemma_entries_remove(fe, name);
    let u3 = JsonView::Object(entries_set(view_entries_of(u2), "flags"@, f3));
    match environments_of(u3) {
        Some(JsonView::Object(es)) => {
            lemma_entries_set_get(view_entries_of(u3), "environments"@, JsonView::Object(strip_flag_from_envs(es, name)));
        },
        _ => {},
    }
}

/// Inserting a new key and removing it again restores the entries.
pub proof fn lemma_insert_then_remove<V>(e: Seq<(Seq<char>, V)>, k: Seq<char>, v: V)
    requires
        !has_key(e, k),
    ensures
        entries_remove(entries_set(e, k, v), k) == e,
{
    let r = entries_set(e, k, v);
    let p = crate::json::insert_pos(e, k);
    crate::json::lemma_insert_pos(e, k);
    lemma_key_pos(e, k);
    lemma_key_pos(r, k);
    assert(r[p] == (k, v));
    assert(key_pos(r, k) == p) by {
        if key_pos(r, k) < p {
            assert(r[key_pos(r, k)] == e[key_pos(r, k)]);
        }
    }
    assert(r.remove(p) =~= e);
}

/// Setting a key twice keeps only the second value.
pub proof fn lemma_set_twice<V>(e: Seq<(Seq<char>, V)>, k: Seq<char>, v1: V, v2: V)
    ensures
        entries_set(entries_set(e, k, v1), k, v2) == entries_set(e, k, v2),
{
    let r = entries_set(e, k, v1);
    lemma_key_pos(e, k);
    lemma_key_pos(r, k);
    lemma_entries_set_get(e, k, v1);
    if has_key(e, k) {
        assert(r[key_pos(e, k)].0 == k);
        assert(key_pos(r, k) == key_pos(e, k)) by {
            if key_pos(r, k) < key_pos(e, k) {
                assert(r[key_pos(r, k)] == e[key_pos(r, k)]);
            }
        }
        assert(r.update(key_pos(r, k), (k, v2)) =~= e.update(key_pos(e, k), (k, v2)));
    } else {
        let p = crate::json::insert_pos(e, k);
        crate::json::lemma_insert_pos(e, k);
        assert(r[p] == (k, v1));
        assert(key_pos(r, k) == p) by {
            if key_pos(r, k) < p {
                assert(r[key_pos(r, k)] == e[key_pos(r, k)]);
            }
        }
        assert(r.update(p, (k, v2)) =~= e.insert(p, (k, v2)));
    }
}

/// Setting a key to the value it already has changes nothing.
pub proof fn lemma_set_same<V>(e: Seq<(Seq<char>, V)>, k: Seq<char>)
    requires
        has_key(e, k),
    ensures
        entries_set(e, k, entries_get(e, k)->Some_0) == e,
{
    lemma_key_pos(e, k);
    assert(e.update(key_pos(e, k), (k, e[key_pos(e, k)].1)) =~= e);
}

/// An environment that `add_environment` accepted is listed afterwards.
pub proof fn law_added_environment_listed(u: JsonView, name: Seq<char>)
    requires
        add_environment_outcome(u, name).1 is None,
    ensures
        spec_environments(add_environment_outcome(u, name).0).contains(name),
{
    let e = view_entries_of(environments_or_empty(u));
    let e2 = entries_set(e, name, rules_template());
    lemma_entries_set_get(e, name, rules_template());
    lemma_entries_set_get(view_entries_of(u), "environments"@, JsonView::Object(e2));
    lemma_key_pos(e2, name);
    let i = key_pos(e2, name);
    assert(entry_keys(e2)[i] == name);
}


/// A field of a flag's entry in the catalog's `flags` map.
pub open spec fn flag_field(u: JsonView, name: Seq<char>, field: Seq<char>) -> Option<JsonView> {
    match flags_of(u) {
        Some(f) => match view_get(f, name) {
            Some(e) => view_get(e, field),
            None => None,
        },
        None => None,
    }
}

/// A flag that `add_flag` accepted reads back as requested: its `default` is
/// the default given, its `kind` the kind given, and its `description` the
/// description given (none when none was given).
pub proof fn law_added_flag_reads_back(
    u: JsonView,
    name: Seq<char>,
    default: bool,
    kind: Seq<char>,
    description: Option<Seq<char>>,
    sync: Seq<Seq<char>>,
)
    requires
        add_flag_outcome(u, name, default, kind, description, sync).1 is None,
    ensures
        flag_field(add_flag_outcome(u, name, default, kind, description, sync).0, name, "default"@) == Some(JsonView::Bool(default)),
        flag_field(add_flag_outcome(u, name, default, kind, description, sync).0, name, "kind"@) == Some(JsonView::Str(kind)),
        flag_field(add_flag_outcome(u, name, default, kind, description, sync).0, name, "description"@) == match description {
            Some(d) => Some(JsonView::Str(d)),
            None => None,
        },
{
    reveal_strlit("environments");
    reveal_strlit("flags");
    reveal_strlit("default");
    reveal_strlit("kind");
    reveal_strlit("description");
    assert("environments"@ != "flags"@) by {
        assert("environments"@.len() != "flags"@.len());
    }
    assert("default"@ != "kind"@) by {
        assert("default"@.len() != "kind"@.len());
    }
    assert("description"@ != "kind"@) by {
        assert("description"@.len() != "kind"@.len());
    }
    assert("description"@ != "default"@) by {
        assert("description"@.len() != "default"@.len());
    }
    let u2 = ensure_v2_outcome(u)->Ok_0;
    if !(flags_of(u) matches Some(JsonView::Object(_))) && u is Object && !has_key(view_entries_of(u), "flags"@) {
        lemma_entries_set_get(view_entries_of(u), "flags"@, empty_object());
    }
    let fe = view_entries_of(flags_of(u2).unwrap());
    let nv = new_flag_view(default, kind, description);
    let f2 = JsonView::Object(entries_set(fe, name, nv));
    lemma_entries_set_get(fe, name, nv);
    lemma_entries_set_get(view_entries_of(u2), "flags"@, f2);
    let u3 = JsonView::Object(entries_set(view_entries_of(u2), "flags"@, f2));
    assert(flags_of(u3) == Some(f2));
    if sync.len() > 0 {
        let x = JsonView::Object(synced_environments(view_entries_of(environments_or_empty(u3)), sync, name, serve_rules_view(default)));
        lemma_entries_set_get(view_entries_of(u3), "environments"@, x);
    }
    let e0 = entries_set(Seq::<(Seq<char>, JsonView)>::empty(), "default"@, JsonView::Bool(default));
    lemma_entries_set_get(Seq::<(Seq<char>, JsonView)>::empty(), "default"@, JsonView::Bool(default));
    let base = entries_set(e0, "kind"@, JsonView::Str(kind));
    lemma_entries_set_get(e0, "kind"@, JsonView::Str(kind));
    assert(entries_get(base, "default"@) == Some(JsonView::Bool(default)));
    assert(!has_key(Seq::<(Seq<char>, JsonView)>::empty(), "description"@));
    assert(entries_get(e0, "description"@) is None);
    assert(entries_get(base, "description"@) is None);
    if let Some(d) = description {
        lemma_entries_set_get(base, "description"@, JsonView::Str(d));
    }
}
} // verus!
