//! What `flag list` and `flag show` print: the rows of the catalog's flags, the
//! flags of one environment, and a flag's rules per environment.

use vstd::prelude::*;
use crate::error::CliError;
use crate::json::{
    JsonValue, JsonView, view_get, value_get, view_entries, lemma_view_entries, lemma_view_entries_ext, copy_value,
    decimal, json_view, entries_set, object_set,
};
use crate::text::{owned, push_text, push_char, push_padded, pad_right, texts_of, list_contains};
use crate::commands::flag::{
    spec_format_value, format_value, environment_rule_count, flag_not_found_error, flag_not_found_text, flag_keys,
    spec_similar_names,
};
use crate::text::texts_sorted;
use crate::utils::unified_config::{spec_environments, environments_sorted, get_environments};

verus! {

/// `n` dashes.
pub open spec fn dashes(n: nat) -> Seq<char> {
    Seq::new(n, |i: int| '-')
}

pub fn dash_line(n: usize) -> (r: String)
    ensures
        r@ == dashes(n as nat),
{
    let mut s = String::new();
    let mut k: usize = 0;
    while k < n
        invariant
            k <= n,
            s@ == dashes(k as nat),
        decreases n - k,
    {
        push_char(&mut s, '-');
        proof {
            assert(s@ =~= dashes((k + 1) as nat));
        }
        k = k + 1;
    }
    s
}

/// A flag's default as listed (`?` when it has none).
pub open spec fn default_text(flag: JsonView) -> Seq<char> {
    match view_get(flag, "default"@) {
        Some(d) => spec_format_value(d),
        None => "?"@,
    }
}

/// A flag's description as listed (empty when it has no text one).
pub open spec fn description_text(flag: JsonView) -> Seq<char> {
    match view_get(flag, "description"@) {
        Some(JsonView::Str(s)) => s,
        _ => seq![],
    }
}

/// One row of `flag list`: name, type, default and description in columns.
pub open spec fn flag_row(name: Seq<char>, flag: JsonView) -> Seq<char> {
    pad_right(name, 30) + " "@ + pad_right("boolean"@, 15) + " "@ + pad_right(default_text(flag), 20) + " "@
        + description_text(flag)
}

pub open spec fn flag_table_header() -> Seq<Seq<char>> {
    seq![
        "Flags:"@,
        dashes(80),
        pad_right("Name"@, 30) + " "@ + pad_right("Type"@, 15) + " "@ + pad_right("Default"@, 20) + " Description"@,
        dashes(80),
    ]
}

/// The table of `flag list`: the header, then a row per flag in key order.
pub open spec fn spec_flag_table(u: JsonView) -> Result<Seq<Seq<char>>, Seq<char>> {
    match view_get(u, "flags"@) {
        Some(JsonView::Object(fe)) => Ok(flag_table_header() + fe.map_values(|p: (Seq<char>, JsonView)| flag_row(p.0, p.1))),
        _ => Err("Invalid catalog: flags must be a map"@),
    }
}

fn default_string(flag: &JsonValue) -> (r: String)
    ensures
        r@ == default_text(flag@),
{
    match value_get(flag, "default") {
        Some(d) => format_value(d),
        None => owned("?"),
    }
}

fn description_string(flag: &JsonValue) -> (r: String)
    ensures
        r@ == description_text(flag@),
{
    match value_get(flag, "description") {
        Some(JsonValue::String(s)) => s.clone(),
        _ => String::new(),
    }
}

fn flag_row_string(name: &str, flag: &JsonValue) -> (r: String)
    ensures
        r@ == flag_row(name@, flag@),
{
    let mut s = String::new();
    push_padded(&mut s, name, 30);
    push_text(&mut s, " ");
    push_padded(&mut s, "boolean", 15);
    push_text(&mut s, " ");
    let d = default_string(flag);
    push_padded(&mut s, d.as_str(), 20);
    push_text(&mut s, " ");
    let desc = description_string(flag);
    push_text(&mut s, desc.as_str());
    proof {
        assert(s@ =~= flag_row(name@, flag@));
    }
    s
}

pub open spec fn lines_of(v: Seq<String>) -> Seq<Seq<char>> {
    v.map_values(|s: String| s@)
}

fn push_line(lines: &mut Vec<String>, s: String)
    ensures
        lines_of(final(lines)@) == lines_of(old(lines)@).push(s@),
{
    lines.push(s);
    proof {
        assert(lines_of(lines@) =~= lines_of(old(lines)@).push(s@));
    }
}

/// The table `flag list` prints for the catalog's flags.
pub fn flag_list_table(unified: &JsonValue) -> (r: Result<Vec<String>, CliError>)
    ensures
        match spec_flag_table(unified@) {
            Ok(t) => r matches Ok(v) && lines_of(v@) == t,
            Err(m) => r matches Err(e) && e.text() == m,
        },
{
    let entries = match value_get(unified, "flags") {
        Some(JsonValue::Object(entries)) => entries,
        _ => return Err(CliError::Message(owned("Invalid catalog: flags must be a map"))),
    };
    let mut lines: Vec<String> = Vec::new();
    proof {
        assert(lines_of(lines@) =~= seq![]);
    }
    push_line(&mut lines, owned("Flags:"));
    push_line(&mut lines, dash_line(80));
    let mut h = String::new();
    push_padded(&mut h, "Name", 30);
    push_text(&mut h, " ");
    push_padded(&mut h, "Type", 15);
    push_text(&mut h, " ");
    push_padded(&mut h, "Default", 20);
    push_text(&mut h, " Description");
    push_line(&mut lines, h);
    push_line(&mut lines, dash_line(80));
    let ghost ev = view_entries(entries@);
    proof {
        lemma_view_entries(entries@);
        assert(lines_of(lines@) =~= flag_table_header());
    }
    let mut j: usize = 0;
    while j < entries.len()
        invariant
            ev == view_entries(entries@),
            ev.len() == entries@.len(),
            forall|m: int| 0 <= m < ev.len() ==> #[trigger] ev[m] == (entries@[m].0@, json_view(entries@[m].1)),
            j <= entries@.len(),
            lines_of(lines@) == flag_table_header() + ev.take(j as int).map_values(|p: (Seq<char>, JsonView)| flag_row(p.0, p.1)),
        decreases entries@.len() - j,
    {
        let row = flag_row_string(entries[j].0.as_str(), &entries[j].1);
        push_line(&mut lines, row);
        proof {
            assert(ev.take(j + 1).map_values(|p: (Seq<char>, JsonView)| flag_row(p.0, p.1))
                =~= ev.take(j as int).map_values(|p: (Seq<char>, JsonView)| flag_row(p.0, p.1)).push(flag_row(ev[j as int].0, ev[j as int].1)));
        }
        j = j + 1;
    }
    proof {
        assert(ev.take(ev.len() as int) =~= ev);
    }
    Ok(lines)
}

// ---------------------------------------------------------------------------
// The flags of one environment
// ---------------------------------------------------------------------------

pub open spec fn opt_entry(key: Seq<char>, v: Option<JsonView>) -> Seq<(Seq<char>, JsonView)> {
    match v {
        Some(x) => seq![(key, x)],
        None => seq![],
    }
}

/// A flag's definition in the catalog.
pub open spec fn flag_def(u: JsonView, name: Seq<char>) -> Option<JsonView> {
    match view_get(u, "flags"@) {
        Some(f) => view_get(f, name),
        None => None,
    }
}

pub open spec fn def_field(def: Option<JsonView>, key: Seq<char>) -> Option<JsonView> {
    match def {
        Some(f) => view_get(f, key),
        None => None,
    }
}

/// `configured` when the environment has at least one rule for the flag.
pub open spec fn status_text(rules: JsonView) -> Seq<char> {
    match rules {
        JsonView::Array(xs) => if xs.len() > 0 { "configured"@ } else { "not configured"@ },
        _ => "not configured"@,
    }
}

/// What `flag list --deployment <env>` reports of a flag with rules in the
/// environment: name, type, status, and the default and description declared.
pub open spec fn flag_info(u: JsonView, name: Seq<char>, rules: JsonView) -> JsonView {
    let def = flag_def(u, name);
    JsonView::Object(opt_entry("default"@, def_field(def, "default"@)) + opt_entry("description"@, def_field(def, "description"@))
        + seq![("name"@, JsonView::Str(name)), ("status"@, JsonView::Str(status_text(rules))), ("type"@, JsonView::Str("boolean"@))])
}

/// The rules map of an environment.
pub open spec fn env_rules_map(u: JsonView, env: Seq<char>) -> Option<Seq<(Seq<char>, JsonView)>> {
    match view_get(u, "environments"@) {
        Some(es) => match view_get(es, env) {
            Some(e) => match view_get(e, "rules"@) {
                Some(JsonView::Object(re)) => Some(re),
                _ => None,
            },
            None => None,
        },
        None => None,
    }
}

pub open spec fn env_not_found(env: Seq<char>) -> Seq<char> {
    "Environment '"@ + env + "' not found in control-path.yaml"@
}

/// The flags that have rules in an environment, in key order; an environment
/// the catalog does not define is refused (unless it defines none).
pub open spec fn spec_env_flag_info(u: JsonView, env: Seq<char>) -> Result<Seq<JsonView>, Seq<char>> {
    let envs = spec_environments(u);
    if envs.len() > 0 && !envs.contains(env) {
        Err(env_not_found(env))
    } else {
        match env_rules_map(u, env) {
            Some(re) => Ok(re.map_values(|p: (Seq<char>, JsonView)| flag_info(u, p.0, p.1))),
            None => Ok(seq![]),
        }
    }
}

fn env_rules<'a>(unified: &'a JsonValue, env: &str) -> (r: Option<&'a Vec<(String, JsonValue)>>)
    ensures
        match env_rules_map(unified@, env@) {
            Some(re) => r matches Some(v) && view_entries(v@) == re,
            None => r is None,
        },
{
    let es = match value_get(unified, "environments") {
        Some(es) => es,
        None => return None,
    };
    let e = match value_get(es, env) {
        Some(e) => e,
        None => return None,
    };
    match value_get(e, "rules") {
        Some(JsonValue::Object(re)) => Some(re),
        _ => None,
    }
}

fn flag_definition<'a>(unified: &'a JsonValue, name: &str) -> (r: Option<&'a JsonValue>)
    ensures
        match flag_def(unified@, name@) {
            Some(d) => r matches Some(v) && v@ == d,
            None => r is None,
        },
{
    match value_get(unified, "flags") {
        Some(f) => value_get(f, name),
        None => None,
    }
}

fn def_field_value(def: Option<&JsonValue>, key: &str) -> (r: Option<JsonValue>)
    ensures
        match def_field(match def { Some(d) => Some(d@), None => None }, key@) {
            Some(x) => r matches Some(v) && v@ == x,
            None => r is None,
        },
{
    match def {
        Some(d) => match value_get(d, key) {
            Some(x) => Some(copy_value(x)),
            None => None,
        },
        None => None,
    }
}

fn status_string(rules: &JsonValue) -> (r: &'static str)
    ensures
        r@ == status_text(rules@),
{
    match rules {
        JsonValue::Array(xs) => {
            proof {
                crate::json::lemma_view_items(xs@);
            }
            if xs.len() > 0 { "configured" } else { "not configured" }
        },
        _ => "not configured",
    }
}

fn push_entry(entries: &mut Vec<(String, JsonValue)>, key: &str, v: JsonValue)
    ensures
        view_entries(final(entries)@) == view_entries(old(entries)@).push((key@, v@)),
{
    let ghost before = entries@;
    entries.push((owned(key), v));
    proof {
        assert(entries@.drop_last() =~= before);
    }
}

fn flag_info_value(unified: &JsonValue, name: &str, rules: &JsonValue) -> (r: JsonValue)
    ensures
        r@ == flag_info(unified@, name@, rules@),
{
    let def = flag_definition(unified, name);
    let ghost dv = match def { Some(d) => Some(d@), None => None::<JsonView> };
    let mut entries: Vec<(String, JsonValue)> = Vec::new();
    proof {
        assert(view_entries(entries@) =~= seq![]);
    }
    match def_field_value(def, "default") {
        Some(x) => push_entry(&mut entries, "default", x),
        None => {},
    }
    match def_field_value(def, "description") {
        Some(x) => push_entry(&mut entries, "description", x),
        None => {},
    }
    push_entry(&mut entries, "name", JsonValue::String(owned(name)));
    push_entry(&mut entries, "status", JsonValue::String(owned(status_string(rules))));
    push_entry(&mut entries, "type", JsonValue::String(owned("boolean")));
    proof {
        assert(dv == flag_def(unified@, name@));
        assert(view_entries(entries@) =~= opt_entry("default"@, def_field(dv, "default"@))
            + opt_entry("description"@, def_field(dv, "description"@))
            + seq![("name"@, JsonView::Str(name@)), ("status"@, JsonView::Str(status_text(rules@))), ("type"@, JsonView::Str("boolean"@))]);
    }
    JsonValue::Object(entries)
}

/// The flags `flag list --deployment <env>` reports (see [`spec_env_flag_info`]).
pub fn environment_flag_info(unified: &JsonValue, env: &str) -> (r: Result<Vec<JsonValue>, CliError>)
    requires
        environments_sorted(unified@),
    ensures
        match spec_env_flag_info(unified@, env@) {
            Ok(infos) => r matches Ok(v) && v@.map_values(|x: JsonValue| x@) == infos,
            Err(m) => r matches Err(e) && e.text() == m,
        },
{
    let envs = get_environments(unified);
    proof {
        assert(texts_of(envs@) =~= spec_environments(unified@));
    }
    if envs.len() > 0 && !list_contains(&envs, env) {
        let mut m = owned("Environment '");
        push_text(&mut m, env);
        push_text(&mut m, "' not found in control-path.yaml");
        return Err(CliError::Message(m));
    }
    let mut out: Vec<JsonValue> = Vec::new();
    let rules = match env_rules(unified, env) {
        Some(re) => re,
        None => {
            proof {
                assert(out@.map_values(|x: JsonValue| x@) =~= Seq::<JsonView>::empty());
            }
            return Ok(out);
        },
    };
    let ghost ev = view_entries(rules@);
    proof {
        lemma_view_entries(rules@);
        assert(out@.map_values(|x: JsonValue| x@) =~= ev.take(0).map_values(|p: (Seq<char>, JsonView)| flag_info(unified@, p.0, p.1)));
    }
    let mut j: usize = 0;
    while j < rules.len()
        invariant
            ev == view_entries(rules@),
            ev.len() == rules@.len(),
            forall|m: int| 0 <= m < ev.len() ==> #[trigger] ev[m] == (rules@[m].0@, json_view(rules@[m].1)),
            j <= rules@.len(),
            out@.map_values(|x: JsonValue| x@) == ev.take(j as int).map_values(|p: (Seq<char>, JsonView)| flag_info(unified@, p.0, p.1)),
        decreases rules@.len() - j,
    {
        let info = flag_info_value(unified, rules[j].0.as_str(), &rules[j].1);
        let ghost before = out@;
        out.push(info);
        proof {
            assert(out@.map_values(|x: JsonValue| x@) =~= before.map_values(|x: JsonValue| x@).push(flag_info(unified@, ev[j as int].0, ev[j as int].1)));
            assert(ev.take(j + 1).map_values(|p: (Seq<char>, JsonView)| flag_info(unified@, p.0, p.1))
                =~= ev.take(j as int).map_values(|p: (Seq<char>, JsonView)| flag_info(unified@, p.0, p.1)).push(flag_info(unified@, ev[j as int].0, ev[j as int].1)));
        }
        j = j + 1;
    }
    proof {
        assert(ev.take(ev.len() as int) =~= ev);
    }
    Ok(out)
}

/// One row of the environment table: name, type, default and status in columns.
pub open spec fn env_flag_row(u: JsonView, name: Seq<char>, rules: JsonView) -> Seq<char> {
    pad_right(name, 30) + " "@ + pad_right("boolean"@, 15) + " "@
        + pad_right(match def_field(flag_def(u, name), "default"@) { Some(d) => spec_format_value(d), None => "?"@ }, 20)
        + " "@ + pad_right(status_text(rules), 15)
}

pub open spec fn env_table_header(env: Seq<char>) -> Seq<Seq<char>> {
    seq![
        "Flags in environment '"@ + env + "':"@,
        dashes(80),
        pad_right("Name"@, 30) + " "@ + pad_right("Type"@, 15) + " "@ + pad_right("Default"@, 20) + " "@ + pad_right("Status"@, 15),
        dashes(80),
    ]
}

/// The table `flag list --deployment <env>` prints.
pub open spec fn spec_env_flag_table(u: JsonView, env: Seq<char>) -> Result<Seq<Seq<char>>, Seq<char>> {
    let envs = spec_environments(u);
    if envs.len() > 0 && !envs.contains(env) {
        Err(env_not_found(env))
    } else {
        match env_rules_map(u, env) {
            Some(re) => Ok(env_table_header(env) + re.map_values(|p: (Seq<char>, JsonView)| env_flag_row(u, p.0, p.1))),
            None => Ok(env_table_header(env)),
        }
    }
}

fn env_flag_row_string(unified: &JsonValue, name: &str, rules: &JsonValue) -> (r: String)
    ensures
        r@ == env_flag_row(unified@, name@, rules@),
{
    let def = flag_definition(unified, name);
    let d = match def_field_value(def, "default") {
        Some(x) => format_value(&x),
        None => owned("?"),
    };
    let mut s = String::new();
    push_padded(&mut s, name, 30);
    push_text(&mut s, " ");
    push_padded(&mut s, "boolean", 15);
    push_text(&mut s, " ");
    push_padded(&mut s, d.as_str(), 20);
    push_text(&mut s, " ");
    push_padded(&mut s, status_string(rules), 15);
    proof {
        assert(s@ =~= env_flag_row(unified@, name@, rules@));
    }
    s
}

pub fn environment_flag_table(unified: &JsonValue, env: &str) -> (r: Result<Vec<String>, CliError>)
    requires
        environments_sorted(unified@),
    ensures
        match spec_env_flag_table(unified@, env@) {
            Ok(t) => r matches Ok(v) && lines_of(v@) == t,
            Err(m) => r matches Err(e) && e.text() == m,
        },
{
    let envs = get_environments(unified);
    proof {
        assert(texts_of(envs@) =~= spec_environments(unified@));
    }
    if envs.len() > 0 && !list_contains(&envs, env) {
        let mut m = owned("Environment '");
        push_text(&mut m, env);
        push_text(&mut m, "' not found in control-path.yaml");
        return Err(CliError::Message(m));
    }
    let mut lines: Vec<String> = Vec::new();
    proof {
        assert(lines_of(lines@) =~= seq![]);
    }
    let mut t = owned("Flags in environment '");
    push_text(&mut t, env);
    push_text(&mut t, "':");
    push_line(&mut lines, t);
    push_line(&mut lines, dash_line(80));
    let mut h = String::new();
    push_padded(&mut h, "Name", 30);
    push_text(&mut h, " ");
    push_padded(&mut h, "Type", 15);
    push_text(&mut h, " ");
    push_padded(&mut h, "Default", 20);
    push_text(&mut h, " ");
    push_padded(&mut h, "Status", 15);
    push_line(&mut lines, h);
    push_line(&mut lines, dash_line(80));
    proof {
        assert(lines_of(lines@) =~= env_table_header(env@));
    }
    let rules = match env_rules(unified, env) {
        Some(re) => re,
        None => return Ok(lines),
    };
    let ghost ev = view_entries(rules@);
    proof {
        lemma_view_entries(rules@);
        assert(lines_of(lines@) =~= env_table_header(env@) + ev.take(0).map_values(|p: (Seq<char>, JsonView)| env_flag_row(unified@, p.0, p.1)));
    }
    let mut j: usize = 0;
    while j < rules.len()
        invariant
            ev == view_entries(rules@),
            ev.len() == rules@.len(),
            forall|m: int| 0 <= m < ev.len() ==> #[trigger] ev[m] == (rules@[m].0@, json_view(rules@[m].1)),
            j <= rules@.len(),
            lines_of(lines@) == env_table_header(env@) + ev.take(j as int).map_values(|p: (Seq<char>, JsonView)| env_flag_row(unified@, p.0, p.1)),
        decreases rules@.len() - j,
    {
        let row = env_flag_row_string(unified, rules[j].0.as_str(), &rules[j].1);
        push_line(&mut lines, row);
        proof {
            assert(ev.take(j + 1).map_values(|p: (Seq<char>, JsonView)| env_flag_row(unified@, p.0, p.1))
                =~= ev.take(j as int).map_values(|p: (Seq<char>, JsonView)| env_flag_row(unified@, p.0, p.1)).push(env_flag_row(unified@, ev[j as int].0, ev[j as int].1)));
        }
        j = j + 1;
    }
    proof {
        assert(ev.take(ev.len() as int) =~= ev);
    }
    Ok(lines)
}

// ---------------------------------------------------------------------------
// A flag's rules per environment
// ---------------------------------------------------------------------------

/// An environment's rules for a flag.
pub open spec fn rules_for(env_value: Option<JsonView>, flag: Seq<char>) -> Option<JsonView> {
    match env_value {
        Some(ev) => match view_get(ev, "rules"@) {
            Some(r) => view_get(r, flag),
            None => None,
        },
        None => None,
    }
}

/// The environments with rules for a flag, and those rules, in order.
pub open spec fn env_rules_entries(es: Seq<(Seq<char>, JsonView)>, flag: Seq<char>) -> Seq<(Seq<char>, JsonView)>
    decreases es.len(),
{
    if es.len() == 0 {
        seq![]
    } else {
        let prev = env_rules_entries(es.drop_last(), flag);
        match rules_for(Some(es.last().1), flag) {
            Some(r) => prev.push((es.last().0, r)),
            None => prev,
        }
    }
}

/// The `environments` part of `flag show` output: the one environment asked
/// for, else every environment with rules for the flag.
pub open spec fn spec_env_output(u: JsonView, flag: Seq<char>, env: Option<Seq<char>>) -> Seq<(Seq<char>, JsonView)> {
    match view_get(u, "environments"@) {
        Some(JsonView::Object(es)) => match env {
            Some(e) => match rules_for(view_get(JsonView::Object(es), e), flag) {
                Some(r) => seq![(e, r)],
                None => seq![],
            },
            None => env_rules_entries(es, flag),
        },
        _ => seq![],
    }
}

fn rules_of_env<'a>(env_value: Option<&'a JsonValue>, flag: &str) -> (r: Option<&'a JsonValue>)
    ensures
        match rules_for(match env_value { Some(v) => Some(v@), None => None }, flag@) {
            Some(x) => r matches Some(v) && v@ == x,
            None => r is None,
        },
{
    match env_value {
        Some(ev) => match value_get(ev, "rules") {
            Some(r) => value_get(r, flag),
            None => None,
        },
        None => None,
    }
}

pub fn catalog_environments_for_output(unified: &JsonValue, flag_name: &str, deployment_env: Option<&str>) -> (r: JsonValue)
    ensures
        r@ == JsonView::Object(spec_env_output(unified@, flag_name@, match deployment_env { Some(e) => Some(e@), None => None })),
{
    let mut out: Vec<(String, JsonValue)> = Vec::new();
    proof {
        assert(view_entries(out@) =~= seq![]);
    }
    let entries = match value_get(unified, "environments") {
        Some(JsonValue::Object(entries)) => entries,
        _ => return JsonValue::Object(out),
    };
    let ghost es = view_entries(entries@);
    proof {
        lemma_view_entries(entries@);
    }
    match deployment_env {
        Some(e) => {
            let envs_value = value_get(unified, "environments").unwrap();
            match rules_of_env(value_get(envs_value, e), flag_name) {
                Some(r) => push_entry(&mut out, e, copy_value(r)),
                None => {},
            }
            proof {
                assert(view_entries(out@) =~= spec_env_output(unified@, flag_name@, Some(e@)));
            }
            JsonValue::Object(out)
        },
        None => {
            let mut j: usize = 0;
            proof {
                assert(es.take(0) =~= Seq::<(Seq<char>, JsonView)>::empty());
            }
            while j < entries.len()
                invariant
                    es == view_entries(entries@),
                    es.len() == entries@.len(),
                    forall|m: int| 0 <= m < es.len() ==> #[trigger] es[m] == (entries@[m].0@, json_view(entries@[m].1)),
                    j <= entries@.len(),
                    view_entries(out@) == env_rules_entries(es.take(j as int), flag_name@),
                decreases entries@.len() - j,
            {
                proof {
                    assert(es.take(j + 1).drop_last() =~= es.take(j as int));
                    assert(es.take(j + 1).last() == es[j as int]);
                }
                match rules_of_env(Some(&entries[j].1), flag_name) {
                    Some(r) => push_entry(&mut out, entries[j].0.as_str(), copy_value(r)),
                    None => {},
                }
                j = j + 1;
            }
            proof {
                assert(es.take(es.len() as int) =~= es);
            }
            JsonValue::Object(out)
        },
    }
}

/// The number of rules in an environment entry: the length of its list, else 0.
pub open spec fn rule_count(rules: JsonView) -> nat {
    match rules {
        JsonView::Array(xs) => xs.len(),
        _ => 0,
    }
}

/// The environments where a flag has at least one rule, with the count.
pub open spec fn configured_envs(es: Seq<(Seq<char>, JsonView)>, flag: Seq<char>) -> Seq<(Seq<char>, nat)>
    decreases es.len(),
{
    if es.len() == 0 {
        seq![]
    } else {
        let prev = configured_envs(es.drop_last(), flag);
        match rules_for(Some(es.last().1), flag) {
            Some(JsonView::Array(xs)) => if xs.len() > 0 { prev.push((es.last().0, xs.len())) } else { prev },
            _ => prev,
        }
    }
}

/// What `flag show` prints of a flag's rules: for the one environment asked
/// for, its rule count or that it is not configured; else each environment with
/// rules and its count (nothing when there is none).
pub open spec fn env_rule_lines(u: JsonView, flag: Seq<char>, env: Option<Seq<char>>) -> Seq<Seq<char>> {
    match view_get(u, "environments"@) {
        Some(JsonView::Object(es)) => match env {
            Some(e) => match rules_for(view_get(JsonView::Object(es), e), flag) {
                Some(r) => seq!["\nEnvironment ("@ + e + "):"@, "  Rules: "@ + decimal(rule_count(r))],
                None => seq!["\nEnvironment ("@ + e + "): Not configured"@],
            },
            None => {
                let c = configured_envs(es, flag);
                if c.len() > 0 {
                    seq!["\nEnvironment rules:"@] + c.map_values(|p: (Seq<char>, nat)| "  "@ + p.0 + ": "@ + decimal(p.1) + " rule(s)"@)
                } else {
                    seq![]
                }
            },
        },
        _ => seq![],
    }
}

fn count_line(name: &str, count: usize) -> (r: String)
    ensures
        r@ == "  "@ + name@ + ": "@ + decimal(count as nat) + " rule(s)"@,
{
    let mut s = owned("  ");
    push_text(&mut s, name);
    push_text(&mut s, ": ");
    crate::json::write_decimal(&mut s, count as u64);
    push_text(&mut s, " rule(s)");
    s
}

pub fn environment_rule_lines(unified: &JsonValue, flag_name: &str, deployment_env: Option<&str>) -> (r: Vec<String>)
    ensures
        lines_of(r@) == env_rule_lines(unified@, flag_name@, match deployment_env { Some(e) => Some(e@), None => None }),
{
    let mut lines: Vec<String> = Vec::new();
    proof {
        assert(lines_of(lines@) =~= seq![]);
    }
    let entries = match value_get(unified, "environments") {
        Some(JsonValue::Object(entries)) => entries,
        _ => return lines,
    };
    let ghost es = view_entries(entries@);
    proof {
        lemma_view_entries(entries@);
    }
    match deployment_env {
        Some(e) => {
            let envs_value = value_get(unified, "environments").unwrap();
            match rules_of_env(value_get(envs_value, e), flag_name) {
                Some(r) => {
                    let mut a = owned("\nEnvironment (");
                    push_text(&mut a, e);
                    push_text(&mut a, "):");
                    push_line(&mut lines, a);
                    let mut b = owned("  Rules: ");
                    crate::json::write_decimal(&mut b, environment_rule_count(r) as u64);
                    push_line(&mut lines, b);
                },
                None => {
                    let mut a = owned("\nEnvironment (");
                    push_text(&mut a, e);
                    push_text(&mut a, "): Not configured");
                    push_line(&mut lines, a);
                },
            }
            proof {
                assert(lines_of(lines@) =~= env_rule_lines(unified@, flag_name@, Some(e@)));
            }
            lines
        },
        None => {
            let mut found: Vec<String> = Vec::new();
            let mut j: usize = 0;
            proof {
                assert(es.take(0) =~= Seq::<(Seq<char>, JsonView)>::empty());
                assert(lines_of(found@) =~= configured_envs(es.take(0), flag_name@).map_values(|p: (Seq<char>, nat)| "  "@ + p.0 + ": "@ + decimal(p.1) + " rule(s)"@));
            }
            while j < entries.len()
                invariant
                    es == view_entries(entries@),
                    es.len() == entries@.len(),
                    forall|m: int| 0 <= m < es.len() ==> #[trigger] es[m] == (entries@[m].0@, json_view(entries@[m].1)),
                    j <= entries@.len(),
                    lines_of(found@) == configured_envs(es.take(j as int), flag_name@)
                        .map_values(|p: (Seq<char>, nat)| "  "@ + p.0 + ": "@ + decimal(p.1) + " rule(s)"@),
                decreases entries@.len() - j,
            {
                proof {
                    assert(es.take(j + 1).drop_last() =~= es.take(j as int));
                    assert(es.take(j + 1).last() == es[j as int]);
                }
                let ghost prev = configured_envs(es.take(j as int), flag_name@);
                match rules_of_env(Some(&entries[j].1), flag_name) {
                    Some(JsonValue::Array(xs)) => {
                        proof {
                            crate::json::lemma_view_items(xs@);
                        }
                        if xs.len() > 0 {
                            push_line(&mut found, count_line(entries[j].0.as_str(), xs.len()));
                            proof {
                                let q = (es[j as int].0, xs@.len());
                                assert(configured_envs(es.take(j + 1), flag_name@) == prev.push(q));
                                assert(prev.push(q).map_values(|p: (Seq<char>, nat)| "  "@ + p.0 + ": "@ + decimal(p.1) + " rule(s)"@)
                                    =~= prev.map_values(|p: (Seq<char>, nat)| "  "@ + p.0 + ": "@ + decimal(p.1) + " rule(s)"@)
                                        .push("  "@ + q.0 + ": "@ + decimal(q.1) + " rule(s)"@));
                            }
                        }
                    },
                    _ => {},
                }
                j = j + 1;
            }
            proof {
                assert(es.take(es.len() as int) =~= es);
            }
            if found.len() > 0 {
                push_line(&mut lines, owned("\nEnvironment rules:"));
                let mut k: usize = 0;
                let ghost head = lines_of(lines@);
                while k < found.len()
                    invariant
                        k <= found@.len(),
                        lines_of(lines@) == head + lines_of(found@).take(k as int),
                    decreases found@.len() - k,
                {
                    push_line(&mut lines, found[k].clone());
                    proof {
                        assert(lines_of(found@).take(k + 1) =~= lines_of(found@).take(k as int).push(found@[k as int]@));
                    }
                    k = k + 1;
                }
                proof {
                    assert(lines_of(found@).take(found@.len() as int) =~= lines_of(found@));
                    assert(lines_of(lines@) =~= env_rule_lines(unified@, flag_name@, None));
                }
            } else {
                proof {
                    assert(lines_of(lines@) =~= env_rule_lines(unified@, flag_name@, None));
                }
            }
            lines
        },
    }
}

// ---------------------------------------------------------------------------
// One flag
// ---------------------------------------------------------------------------

pub open spec fn text_line(prefix: Seq<char>, v: Option<JsonView>) -> Seq<Seq<char>> {
    match v {
        Some(JsonView::Str(s)) => seq![prefix + s],
        _ => seq![],
    }
}

/// The lines `flag show` prints for a flag's definition.
pub open spec fn flag_detail_lines(name: Seq<char>, flag: JsonView) -> Seq<Seq<char>> {
    seq!["Flag: "@ + name, dashes(60), "Type: boolean"@]
        + (match view_get(flag, "default"@) { Some(d) => seq!["Default: "@ + spec_format_value(d)], None => Seq::<Seq<char>>::empty() })
        + text_line("Kind: "@, view_get(flag, "kind"@))
        + text_line("Description: "@, view_get(flag, "description"@))
        + text_line("Lifecycle: "@, view_get(flag, "lifecycle"@))
}

/// The error for a flag the catalog does not declare.
pub open spec fn is_flag_not_found(u: JsonView, name: Seq<char>, e: CliError) -> bool {
    exists|available: Seq<Seq<char>>| #![trigger flag_not_found_text(name, available, spec_similar_names(available, name))]
        available.to_multiset() == flag_keys(u).to_multiset() && texts_sorted(available)
        && e.text() == flag_not_found_text(name, available, spec_similar_names(available, name))
}

fn push_text_line(lines: &mut Vec<String>, prefix: &str, v: Option<&JsonValue>)
    ensures
        lines_of(final(lines)@) == lines_of(old(lines)@) + text_line(prefix@, match v { Some(x) => Some(x@), None => None }),
{
    match v {
        Some(JsonValue::String(s)) => {
            let mut l = owned(prefix);
            push_text(&mut l, s.as_str());
            push_line(lines, l);
        },
        _ => {
            proof {
                assert(lines_of(lines@) =~= lines_of(old(lines)@) + Seq::<Seq<char>>::empty());
            }
        },
    }
}

/// The table `flag show` prints: the flag's definition, then its rules per environment.
pub fn flag_show_table(unified: &JsonValue, name: &str, deployment_env: Option<&str>) -> (r: Result<Vec<String>, CliError>)
    ensures
        match flag_def(unified@, name@) {
            Some(f) => r matches Ok(v) && lines_of(v@) == flag_detail_lines(name@, f)
                + env_rule_lines(unified@, name@, match deployment_env { Some(e) => Some(e@), None => None }),
            None => r matches Err(e) && is_flag_not_found(unified@, name@, e),
        },
{
    let flag = match flag_definition(unified, name) {
        Some(f) => f,
        None => return Err(flag_not_found_error(unified, name)),
    };
    let mut lines: Vec<String> = Vec::new();
    proof {
        assert(lines_of(lines@) =~= seq![]);
    }
    let mut t = owned("Flag: ");
    push_text(&mut t, name);
    push_line(&mut lines, t);
    push_line(&mut lines, dash_line(60));
    push_line(&mut lines, owned("Type: boolean"));
    match value_get(flag, "default") {
        Some(d) => {
            let mut l = owned("Default: ");
            let v = format_value(d);
            push_text(&mut l, v.as_str());
            push_line(&mut lines, l);
        },
        None => {},
    }
    push_text_line(&mut lines, "Kind: ", value_get(flag, "kind"));
    push_text_line(&mut lines, "Description: ", value_get(flag, "description"));
    push_text_line(&mut lines, "Lifecycle: ", value_get(flag, "lifecycle"));
    proof {
        assert(lines_of(lines@) =~= flag_detail_lines(name@, flag@));
    }
    let rest = environment_rule_lines(unified, name, deployment_env);
    let ghost head = lines_of(lines@);
    let mut k: usize = 0;
    while k < rest.len()
        invariant
            k <= rest@.len(),
            lines_of(lines@) == head + lines_of(rest@).take(k as int),
        decreases rest@.len() - k,
    {
        push_line(&mut lines, rest[k].clone());
        proof {
            assert(lines_of(rest@).take(k + 1) =~= lines_of(rest@).take(k as int).push(rest@[k as int]@));
        }
        k = k + 1;
    }
    proof {
        assert(lines_of(rest@).take(rest@.len() as int) =~= lines_of(rest@));
    }
    Ok(lines)
}

/// The flag as `flag show` outputs it in JSON or YAML: its definition with its
/// name added (when it is a map).
pub open spec fn flag_with_name(flag: JsonView, name: Seq<char>) -> JsonView {
    match flag {
        JsonView::Object(fe) => JsonView::Object(entries_set(fe, "name"@, JsonView::Str(name))),
        other => other,
    }
}

/// The document `flag show` outputs in JSON or YAML: the environments' rules
/// and the flag.
pub open spec fn spec_show_document(u: JsonView, name: Seq<char>, env: Option<Seq<char>>, flag: JsonView) -> JsonView {
    JsonView::Object(seq![
        ("environments"@, JsonView::Object(spec_env_output(u, name, env))),
        ("flag"@, flag_with_name(flag, name)),
    ])
}

pub fn flag_show_document(unified: &JsonValue, name: &str, deployment_env: Option<&str>) -> (r: Result<JsonValue, CliError>)
    ensures
        match flag_def(unified@, name@) {
            Some(f) => r matches Ok(v) && v@ == spec_show_document(unified@, name@,
                match deployment_env { Some(e) => Some(e@), None => None }, f),
            None => r matches Err(e) && is_flag_not_found(unified@, name@, e),
        },
{
    let flag = match flag_definition(unified, name) {
        Some(f) => f,
        None => return Err(flag_not_found_error(unified, name)),
    };
    let mut flag_output = copy_value(flag);
    if matches!(flag_output, JsonValue::Object(_)) {
        object_set(&mut flag_output, owned("name"), JsonValue::String(owned(name)));
    }
    assert(flag_output@ == flag_with_name(flag@, name@));
    let envs = catalog_environments_for_output(unified, name, deployment_env);
    let mut entries: Vec<(String, JsonValue)> = Vec::new();
    proof {
        assert(view_entries(entries@) =~= seq![]);
    }
    push_entry(&mut entries, "environments", envs);
    push_entry(&mut entries, "flag", flag_output);
    proof {
        assert(view_entries(entries@) =~= seq![
            ("environments"@, JsonView::Object(spec_env_output(unified@, name@, match deployment_env { Some(e) => Some(e@), None => None }))),
            ("flag"@, flag_with_name(flag@, name@)),
        ]);
        assert(flag_def(unified@, name@) == Some(flag@));
    }
    let doc = JsonValue::Object(entries);
    assert(doc@ == JsonView::Object(view_entries(entries@)));
    let ghost envopt = match deployment_env { Some(e) => Some(e@), None => None::<Seq<char>> };
    let ghost want = seq![
        ("environments"@, JsonView::Object(spec_env_output(unified@, name@, envopt))),
        ("flag"@, flag_with_name(flag@, name@)),
    ];
    assert(view_entries(entries@) == want);
    assert(spec_show_document(unified@, name@, envopt, flag@) == JsonView::Object(want));
    assert(doc@ == spec_show_document(unified@, name@, envopt, flag@));
    Ok(doc)
}

} // verus!
