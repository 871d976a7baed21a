//! `flag`: options, name and type checks, suggestions for mistyped names, and
//! what the listings and the detail view show.

use vstd::prelude::*;
use crate::error::CliError;
use crate::json::{
    JsonValue, JsonView, json_text, json_to_string, view_get, value_get, view_entries_of, entries_set, entries_get,
    copy_value, entry_keys, lemma_view_entries,
};
use crate::text::{
    owned, push_text, chars_of, join, join_texts, texts_of, sort_strings, texts_sorted, text_eq,
    text_eq_ignore_ascii_case, eq_ignore_ascii_case,
};

verus! {

pub struct Options {
    pub subcommand: FlagSubcommand,
}

#[derive(Debug, Clone)]
pub enum FlagSubcommand {
    Add {
        name: Option<String>,
        flag_type: Option<String>,
        default: Option<String>,
        description: Option<String>,
        lang: Option<String>,
        sync: bool,
        interactive: bool,
    },
    List {
        definitions: bool,
        deployment: Option<String>,
        format: OutputFormat,
    },
    Show {
        name: String,
        deployment: Option<String>,
        format: OutputFormat,
    },
    Remove {
        name: String,
        env: Option<String>,
    },
    Deprecate {
        name: String,
    },
    Report,
}

#[derive(Debug, Clone, Copy, PartialEq, Eq, Structural)]
pub enum OutputFormat {
    Table,
    Json,
    Yaml,
}

impl OutputFormat {
    /// The format named in any case. (Lowercasing maps no character but ASCII
    /// ones onto the letters of these names, so an ASCII-case-insensitive
    /// comparison decides the same.)
    pub fn from_str(s: &str) -> (r: Result<OutputFormat, CliError>)
        ensures
            match r {
                Ok(f) => (f == OutputFormat::Table && eq_ignore_ascii_case(s@, "table"@))
                    || (f == OutputFormat::Json && eq_ignore_ascii_case(s@, "json"@))
                    || (f == OutputFormat::Yaml && eq_ignore_ascii_case(s@, "yaml"@)),
                Err(e) => !eq_ignore_ascii_case(s@, "table"@) && !eq_ignore_ascii_case(s@, "json"@)
                    && !eq_ignore_ascii_case(s@, "yaml"@)
                    && e.text() == "Invalid format: "@ + s@ + ". Use table, json, or yaml"@,
            },
    {
        if text_eq_ignore_ascii_case(s, "table") {
            Ok(OutputFormat::Table)
        } else if text_eq_ignore_ascii_case(s, "json") {
            Ok(OutputFormat::Json)
        } else if text_eq_ignore_ascii_case(s, "yaml") {
            Ok(OutputFormat::Yaml)
        } else {
            let mut m = owned("Invalid format: ");
            push_text(&mut m, s);
            push_text(&mut m, ". Use table, json, or yaml");
            Err(CliError::Message(m))
        }
    }
}

/// A snake_case character: a lowercase ASCII letter, a digit or `_`.
pub open spec fn snake_char(c: char) -> bool {
    ('a' <= c && c <= 'z') || ('0' <= c && c <= '9') || c == '_'
}

/// A flag name: a lowercase ASCII letter, then snake_case characters.
pub open spec fn valid_flag_name(name: Seq<char>) -> bool {
    name.len() > 0 && 'a' <= name[0] && name[0] <= 'z' && forall|i: int| 0 <= i < name.len() ==> snake_char(#[trigger] name[i])
}

pub open spec fn invalid_flag_name_text(name: Seq<char>) -> Seq<char> {
    "Invalid flag name: '"@ + name
        + "'\n  Flag names must:\n  - Start with a lowercase letter\n  - Contain only lowercase letters, digits, and underscores\n  - Be in snake_case format\n  Examples: 'new_feature', 'api_v2', 'dashboard_enabled'\n  Your input: '"@
        + name + "'"@
}

/// Whether every character is snake_case.
fn all_snake(cs: &Vec<char>) -> (r: bool)
    ensures
        r == forall|i: int| 0 <= i < cs@.len() ==> snake_char(#[trigger] cs@[i]),
{
    let mut i: usize = 0;
    while i < cs.len()
        invariant
            i <= cs@.len(),
            forall|j: int| 0 <= j < i ==> snake_char(#[trigger] cs@[j]),
        decreases cs@.len() - i,
    {
        let c = cs[i];
        if !(('a' <= c && c <= 'z') || ('0' <= c && c <= '9') || c == '_') {
            return false;
        }
        i = i + 1;
    }
    true
}

/// Checks a flag name (see [`valid_flag_name`]).
pub fn validate_flag_name(name: &str) -> (r: Result<(), CliError>)
    ensures
        r is Ok <==> valid_flag_name(name@),
        name@.len() == 0 ==> (r matches Err(e) && e.text()
            == "Flag name cannot be empty.\n  Tip: Flag names must be in snake_case format (e.g., 'new_feature', 'api_v2')"@),
        name@.len() > 0 && !valid_flag_name(name@) ==> (r matches Err(e) && e.text() == invalid_flag_name_text(name@)),
{
    let cs = chars_of(name);
    if cs.len() == 0 {
        return Err(CliError::Message(owned(
            "Flag name cannot be empty.\n  Tip: Flag names must be in snake_case format (e.g., 'new_feature', 'api_v2')",
        )));
    }
    if !('a' <= cs[0] && cs[0] <= 'z') || !all_snake(&cs) {
        let mut m = owned("Invalid flag name: '");
        push_text(&mut m, name);
        push_text(&mut m, "'\n  Flag names must:\n  - Start with a lowercase letter\n  - Contain only lowercase letters, digits, and underscores\n  - Be in snake_case format\n  Examples: 'new_feature', 'api_v2', 'dashboard_enabled'\n  Your input: '");
        push_text(&mut m, name);
        push_text(&mut m, "'");
        return Err(CliError::Message(m));
    }
    Ok(())
}

/// v2 catalogs hold boolean flags only.
pub fn validate_flag_type(flag_type: &str) -> (r: Result<(), CliError>)
    ensures
        r is Ok <==> flag_type@ == "boolean"@,
        r matches Err(e) ==> e.text() == "Invalid flag type: '"@ + flag_type@ + "'\n  v2 catalogs support boolean flags only."@,
{
    if text_eq(flag_type, "boolean") {
        Ok(())
    } else {
        let mut m = owned("Invalid flag type: '");
        push_text(&mut m, flag_type);
        push_text(&mut m, "'\n  v2 catalogs support boolean flags only.");
        Err(CliError::Message(m))
    }
}

/// What `validate_flag_name` answers for a name.
pub open spec fn flag_name_error(name: Seq<char>) -> Option<Seq<char>> {
    if valid_flag_name(name) {
        None
    } else if name.len() == 0 {
        Some("Flag name cannot be empty.\n  Tip: Flag names must be in snake_case format (e.g., 'new_feature', 'api_v2')"@)
    } else {
        Some(invalid_flag_name_text(name))
    }
}

/// The boolean a `--default` value names: `true`/`ON` or `false`/`OFF`.
pub open spec fn spec_flag_default(d: Seq<char>) -> Option<bool> {
    if d == "true"@ || d == "ON"@ {
        Some(true)
    } else if d == "false"@ || d == "OFF"@ {
        Some(false)
    } else {
        None
    }
}

pub fn parse_flag_default(d: &str) -> (r: Option<bool>)
    ensures
        r == spec_flag_default(d@),
{
    proof {
        reveal_strlit("true");
        reveal_strlit("ON");
        reveal_strlit("false");
        reveal_strlit("OFF");
    }
    if text_eq(d, "true") || text_eq(d, "ON") {
        Some(true)
    } else if text_eq(d, "false") || text_eq(d, "OFF") {
        Some(false)
    } else {
        None
    }
}

/// What `flag add` does with the options it was given, before any change:
/// the checked name and the default, or the message it stops with.
pub open spec fn add_request_outcome(
    u: JsonView,
    name: Option<Seq<char>>,
    flag_type: Option<Seq<char>>,
    default: Option<Seq<char>>,
) -> Result<(Seq<char>, bool), Seq<char>> {
    match name {
        None => Err("Flag name is required. Use --name <name> or run in interactive mode"@),
        Some(n) => match flag_name_error(n) {
            Some(m) => Err(m),
            None => if crate::utils::unified_config::spec_flag_exists(u, n) {
                Err("Flag '"@ + n + "' already exists"@)
            } else {
                let t = match flag_type { Some(t) => t, None => "boolean"@ };
                if t != "boolean"@ {
                    Err("Invalid flag type: '"@ + t + "'\n  v2 catalogs support boolean flags only."@)
                } else {
                    match default {
                        None => Ok((n, false)),
                        Some(d) => match spec_flag_default(d) {
                            Some(b) => Ok((n, b)),
                            None => Err("Boolean flags require default true or false"@),
                        },
                    }
                }
            },
        },
    }
}

/// Checks the options of `flag add` (given on the command line, not prompted
/// for) against the catalog: the name to add and its boolean default.
pub fn add_flag_request(
    unified: &JsonValue,
    name: Option<&str>,
    flag_type: Option<&str>,
    default: Option<&str>,
) -> (r: Result<(String, bool), CliError>)
    ensures
        match r {
            Ok((n, b)) => add_request_outcome(unified@,
                match name { Some(x) => Some(x@), None => None },
                match flag_type { Some(x) => Some(x@), None => None },
                match default { Some(x) => Some(x@), None => None }) == Ok::<(Seq<char>, bool), Seq<char>>((n@, b)),
            Err(e) => add_request_outcome(unified@,
                match name { Some(x) => Some(x@), None => None },
                match flag_type { Some(x) => Some(x@), None => None },
                match default { Some(x) => Some(x@), None => None }) == Err::<(Seq<char>, bool), Seq<char>>(e.text()),
        },
{
    let n = match name {
        Some(n) => n,
        None => {
            return Err(CliError::Message(owned(
                "Flag name is required. Use --name <name> or run in interactive mode",
            )));
        },
    };
    validate_flag_name(n)?;
    if crate::utils::unified_config::flag_exists(unified, n) {
        let mut m = owned("Flag '");
        push_text(&mut m, n);
        push_text(&mut m, "' already exists");
        return Err(CliError::Message(m));
    }
    let t = match flag_type {
        Some(t) => t,
        None => "boolean",
    };
    validate_flag_type(t)?;
    let b = match default {
        None => false,
        Some(d) => match parse_flag_default(d) {
            Some(b) => b,
            None => {
                return Err(CliError::Message(owned("Boolean flags require default true or false")));
            },
        },
    };
    Ok((owned(n), b))
}

/// The keys of the catalog's `flags` map, when it is one.
pub open spec fn flag_keys(u: JsonView) -> Seq<Seq<char>> {
    match view_get(u, "flags"@) {
        Some(JsonView::Object(e)) => entry_keys(e),
        _ => seq![],
    }
}

/// The flag names of the catalog, in ascending order.
pub fn catalog_flag_names(unified: &JsonValue) -> (r: Vec<String>)
    ensures
        texts_of(r@).to_multiset() == flag_keys(unified@).to_multiset(),
        texts_sorted(texts_of(r@)),
{
    let mut names: Vec<String> = Vec::new();
    match value_get(unified, "flags") {
        Some(JsonValue::Object(entries)) => {
            proof {
                lemma_view_entries(entries@);
            }
            let ghost ev = crate::json::view_entries(entries@);
            let mut i: usize = 0;
            proof {
                assert(texts_of(names@) =~= entry_keys(ev).take(0));
            }
            while i < entries.len()
                invariant
                    i <= entries@.len(),
                    ev == crate::json::view_entries(entries@),
                    ev.len() == entries@.len(),
                    forall|j: int| 0 <= j < ev.len() ==> #[trigger] ev[j] == (entries@[j].0@, crate::json::json_view(entries@[j].1)),
                    texts_of(names@) == entry_keys(ev).take(i as int),
                decreases entries@.len() - i,
            {
                let ghost before = names@;
                names.push(entries[i].0.clone());
                proof {
                    assert(texts_of(names@) =~= texts_of(before).push(ev[i as int].0));
                    assert(entry_keys(ev).take(i + 1) =~= entry_keys(ev).take(i as int).push(ev[i as int].0));
                }
                i = i + 1;
            }
            proof {
                assert(entry_keys(ev).take(ev.len() as int) =~= entry_keys(ev));
            }
        },
        _ => {
            proof {
                assert(texts_of(names@) =~= seq![]);
            }
        },
    }
    sort_strings(names)
}

/// The minimum number of insertions, deletions and substitutions of characters
/// that turn `a` into `b`.
pub open spec fn levenshtein(a: Seq<char>, b: Seq<char>) -> nat
    decreases a.len() + b.len(),
{
    if a.len() == 0 {
        b.len()
    } else if b.len() == 0 {
        a.len()
    } else {
        let del = levenshtein(a.drop_last(), b) + 1;
        let ins = levenshtein(a, b.drop_last()) + 1;
        let sub = levenshtein(a.drop_last(), b.drop_last()) + (if a.last() == b.last() { 0nat } else { 1nat });
        if del <= ins && del <= sub { del } else if ins <= sub { ins } else { sub }
    }
}

/// Calls `strsim::levenshtein`, the edit distance between the character
/// sequences of two strings, as its documentation states it.
#[verifier::external_body]
fn edit_distance(a: &str, b: &str) -> (r: usize)
    ensures
        r as nat == levenshtein(a@, b@),
{
    strsim::levenshtein(a, b)
}

/// Byte length of a string.
pub open spec fn byte_len(s: Seq<char>) -> nat {
    (vstd::utf8::encode_utf8(s).len() as usize) as nat
}

/// A name is suggested for `name` when it differs from it, by at most half the
/// longer byte length.
pub open spec fn is_similar(candidate: Seq<char>, name: Seq<char>) -> bool {
    let d = levenshtein(name, candidate);
    d > 0 && d <= (if byte_len(name) >= byte_len(candidate) { byte_len(name) } else { byte_len(candidate) }) / 2
}

/// Inserts a scored name after every entry whose score is at most its own.
pub open spec fn insert_by_score(s: Seq<(Seq<char>, nat)>, x: (Seq<char>, nat)) -> Seq<(Seq<char>, nat)>
    decreases s.len(),
{
    if s.len() == 0 {
        seq![x]
    } else if s.last().1 <= x.1 {
        s.push(x)
    } else {
        insert_by_score(s.drop_last(), x).push(s.last())
    }
}

/// The similar names with their distances, ordered by distance, names of equal
/// distance in the order they were given.
pub open spec fn scored_similar(names: Seq<Seq<char>>, name: Seq<char>) -> Seq<(Seq<char>, nat)>
    decreases names.len(),
{
    if names.len() == 0 {
        seq![]
    } else {
        let prev = scored_similar(names.drop_last(), name);
        let c = names.last();
        if is_similar(c, name) { insert_by_score(prev, (c, levenshtein(name, c))) } else { prev }
    }
}

/// Suggestions for a mistyped name: the closest similar names, at most three.
pub open spec fn spec_similar_names(names: Seq<Seq<char>>, name: Seq<char>) -> Seq<Seq<char>> {
    let s = scored_similar(names, name);
    let k = if s.len() < 3 { s.len() as int } else { 3 };
    s.take(k).map_values(|p: (Seq<char>, nat)| p.0)
}

pub open spec fn scored_view(v: Seq<(String, usize)>) -> Seq<(Seq<char>, nat)> {
    v.map_values(|p: (String, usize)| (p.0@, p.1 as nat))
}

/// Position at which `insert_by_score` puts an entry: after the last entry
/// whose score is at most its own... computed from the front.
proof fn lemma_insert_by_score(s: Seq<(Seq<char>, nat)>, x: (Seq<char>, nat), p: int)
    requires
        0 <= p <= s.len(),
        forall|j: int| 0 <= j < p ==> #[trigger] s[j].1 <= x.1,
        p < s.len() ==> s[p].1 > x.1,
        forall|a: int, b: int| 0 <= a < b < s.len() ==> s[a].1 <= s[b].1,
    ensures
        insert_by_score(s, x) == s.insert(p, x),
    decreases s.len(),
{
    if s.len() == 0 {
        assert(s.insert(p, x) =~= seq![x]);
    } else if s.last().1 <= x.1 {
        if p < s.len() {
            assert(s[p].1 <= s.last().1);
        }
        assert(s.insert(p, x) =~= s.push(x));
    } else {
        lemma_insert_by_score(s.drop_last(), x, p);
        assert(s.drop_last().insert(p, x).push(s.last()) =~= s.insert(p, x));
    }
}

/// Sorted by score.
pub open spec fn scores_sorted(s: Seq<(Seq<char>, nat)>) -> bool {
    forall|a: int, b: int| 0 <= a < b < s.len() ==> s[a].1 <= s[b].1
}

/// Suggestions for a mistyped flag name (see [`spec_similar_names`]).
pub fn find_similar_flag_names(flag_names: &Vec<String>, name: &str) -> (r: Vec<String>)
    ensures
        texts_of(r@) == spec_similar_names(texts_of(flag_names@), name@),
{
    let mut scored: Vec<(String, usize)> = Vec::new();
    let mut i: usize = 0;
    let name_len = name.len();
    proof {
        assert(texts_of(flag_names@).take(0) =~= Seq::<Seq<char>>::empty());
        assert(scored_view(scored@) =~= seq![]);
    }
    while i < flag_names.len()
        invariant
            i <= flag_names@.len(),
            name_len == byte_len(name@),
            scored_view(scored@) == scored_similar(texts_of(flag_names@).take(i as int), name@),
            scores_sorted(scored_view(scored@)),
        decreases flag_names@.len() - i,
    {
        let ghost names_i = texts_of(flag_names@).take(i + 1);
        proof {
            assert(names_i.drop_last() =~= texts_of(flag_names@).take(i as int));
            assert(names_i.last() == flag_names@[i as int]@);
        }
        let candidate = &flag_names[i];
        let d = edit_distance(name, candidate.as_str());
        let clen = candidate.as_str().len();
        let longer = if name_len >= clen { name_len } else { clen };
        if d > 0 && d <= longer / 2 {
            let mut p: usize = 0;
            while p < scored.len() && scored[p].1 <= d
                invariant
                    p <= scored@.len(),
                    forall|j: int| 0 <= j < p ==> #[trigger] scored@[j].1 <= d,
                decreases scored@.len() - p,
            {
                p = p + 1;
            }
            let ghost before = scored_view(scored@);
            scored.insert(p, (candidate.clone(), d));
            proof {
                let x = (candidate@, d as nat);
                assert forall|j: int| 0 <= j < p implies #[trigger] before[j].1 <= x.1 by {
                    assert(before[j].1 == scored@[j].1);
                }
                lemma_insert_by_score(before, x, p as int);
                assert(scored_view(scored@) =~= before.insert(p as int, x));
                assert(scores_sorted(scored_view(scored@))) by {
                    let s = scored_view(scored@);
                    assert forall|a: int, b: int| 0 <= a < b < s.len() implies s[a].1 <= s[b].1 by {
                        if b < p {
                            assert(s[a] == before[a] && s[b] == before[b]);
                        } else if b == p {
                            assert(s[a] == before[a]);
                        } else if a == p {
                            assert(s[b] == before[b - 1]);
                        } else if a < p {
                            assert(s[a] == before[a] && s[b] == before[b - 1]);
                        } else {
                            assert(s[a] == before[a - 1] && s[b] == before[b - 1]);
                        }
                    }
                }
            }
        }
        i = i + 1;
    }
    proof {
        assert(texts_of(flag_names@).take(flag_names@.len() as int) =~= texts_of(flag_names@));
    }
    let mut out: Vec<String> = Vec::new();
    let mut k: usize = 0;
    let ghost s = scored_view(scored@);
    let limit: usize = if scored.len() < 3 { scored.len() } else { 3 };
    while k < limit
        invariant
            k <= limit,
            limit <= scored@.len(),
            s == scored_view(scored@),
            texts_of(out@) == s.take(k as int).map_values(|p: (Seq<char>, nat)| p.0),
        decreases limit - k,
    {
        let ghost before = out@;
        out.push(scored[k].0.clone());
        proof {
            assert(texts_of(out@) =~= texts_of(before).push(s[k as int].0));
            assert(s.take(k + 1).map_values(|p: (Seq<char>, nat)| p.0)
                =~= s.take(k as int).map_values(|p: (Seq<char>, nat)| p.0).push(s[k as int].0));
        }
        k = k + 1;
    }
    out
}

/// How a value is shown: a string as its text, anything else as JSON.
pub open spec fn spec_format_value(v: JsonView) -> Seq<char> {
    match v {
        JsonView::Str(s) => s,
        _ => json_text(v),
    }
}

pub fn format_value(value: &JsonValue) -> (r: String)
    ensures
        r@ == spec_format_value(value@),
{
    match value {
        JsonValue::String(s) => s.clone(),
        _ => json_to_string(value),
    }
}

/// Number of rules of an environment entry: the length of its list, else 0.
pub fn environment_rule_count(rules: &JsonValue) -> (r: usize)
    ensures
        r as nat == match rules@ {
            JsonView::Array(xs) => xs.len(),
            _ => 0,
        },
{
    match rules {
        JsonValue::Array(xs) => {
            proof {
                crate::json::lemma_view_items(xs@);
            }
            xs.len()
        },
        _ => 0,
    }
}

/// The error for a flag that `flag show` cannot find: the available names, the
/// suggestions, and a tip.
pub open spec fn flag_not_found_text(name: Seq<char>, available: Seq<Seq<char>>, similar: Seq<Seq<char>>) -> Seq<char> {
    "Flag '"@ + name + "' not found."@
        + (if available.len() > 0 { "\n  Available flags: "@ + join_texts(available, ", "@) } else { Seq::<char>::empty() })
        + (if similar.len() > 0 { "\n  Did you mean: "@ + join_texts(similar, ", "@) + "?"@ } else { Seq::<char>::empty() })
        + "\n  Tip: Use 'controlpath flag list' to see all flags"@
}

pub fn flag_not_found_error(unified: &JsonValue, name: &str) -> (r: CliError)
    ensures
        exists|available: Seq<Seq<char>>| #![trigger flag_not_found_text(name@, available, spec_similar_names(available, name@))]
            available.to_multiset() == flag_keys(unified@).to_multiset() && texts_sorted(available)
            && r.text() == flag_not_found_text(name@, available, spec_similar_names(available, name@)),
{
    let available = catalog_flag_names(unified);
    let similar = find_similar_flag_names(&available, name);
    let mut m = owned("Flag '");
    push_text(&mut m, name);
    push_text(&mut m, "' not found.");
    if available.len() > 0 {
        push_text(&mut m, "\n  Available flags: ");
        let a = join(&available, ", ");
        push_text(&mut m, a.as_str());
    }
    if similar.len() > 0 {
        push_text(&mut m, "\n  Did you mean: ");
        let s = join(&similar, ", ");
        push_text(&mut m, s.as_str());
        push_text(&mut m, "?");
    }
    push_text(&mut m, "\n  Tip: Use 'controlpath flag list' to see all flags");
    proof {
        let av = texts_of(available@);
        assert(m@ =~= flag_not_found_text(name@, av, spec_similar_names(av, name@)));
    }
    CliError::Message(m)
}

} // verus!
