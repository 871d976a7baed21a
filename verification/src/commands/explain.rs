//! `explain`: which layer decides a flag's value for a user, and how the
//! answer is reported.

use vstd::prelude::*;
use crate::error::{CliError, err_text};
use crate::json::{JsonValue, JsonView, NumberView, JsonNumber, view_get, value_get, decimal};
use crate::commands::debug::Artifact;
use crate::paths::{spec_file_stem, file_stem};
use crate::text::{
    owned, push_text, text_eq, texts_of, eq_ignore_ascii_case, text_eq_ignore_ascii_case, chars_of,
    string_from_chars,
};

verus! {

pub struct Options {
    pub flag: String,
    pub user: Option<String>,
    pub context: Option<String>,
    pub env: Option<String>,
    pub trace: bool,
    pub ast: Option<String>,
}

/// The layer that decided a value.
#[derive(Debug, Clone, Copy, PartialEq, Eq, Structural)]
pub enum MatchedLayer {
    KillSwitch,
    EnvironmentRule,
    CatalogDefault,
}

pub open spec fn spec_layer_label(layer: MatchedLayer) -> Seq<char> {
    match layer {
        MatchedLayer::KillSwitch => "kill switch file"@,
        MatchedLayer::EnvironmentRule => "environment rule"@,
        MatchedLayer::CatalogDefault => "catalog default"@,
    }
}

pub fn layer_label(layer: &MatchedLayer) -> (r: &'static str)
    ensures
        r@ == spec_layer_label(*layer),
{
    match layer {
        MatchedLayer::KillSwitch => "kill switch file",
        MatchedLayer::EnvironmentRule => "environment rule",
        MatchedLayer::CatalogDefault => "catalog default",
    }
}

/// A percentage rollout of a catalog rule.
#[derive(Debug, Clone)]
pub struct RolloutRule {
    pub percentage: u32,
    pub serve: bool,
}

/// A rule of an environment in the catalog.
#[derive(Debug, Clone)]
pub struct CatalogRule {
    pub when: Option<String>,
    pub serve: Option<bool>,
    pub rollout: Option<RolloutRule>,
    pub reason: Option<String>,
}

/// What `explain` found.
#[derive(Debug, Clone)]
pub struct ExplainOutcome {
    pub environment: String,
    pub layer: MatchedLayer,
    pub value: bool,
    pub rule_index: Option<usize>,
    pub catalog_rule: Option<CatalogRule>,
    pub imported: bool,
    pub deprecated: bool,
    pub rollout_bucket: Option<u32>,
    pub missing_user_id: bool,
    pub warnings: Vec<String>,
}

/// The compiler appends the catalog default as the last rule of each flag.
pub open spec fn spec_is_default_rule(a: &Artifact, flag_index: int, rule_index: int) -> bool {
    0 <= flag_index < a.flags@.len() && a.flags@[flag_index]@.len() > 0 && rule_index == a.flags@[flag_index]@.len() - 1
}

pub fn is_compiled_catalog_default(artifact: &Artifact, flag_index: usize, rule_index: usize) -> (r: bool)
    ensures
        r == spec_is_default_rule(artifact, flag_index as int, rule_index as int),
{
    if flag_index < artifact.flags.len() {
        let n = artifact.flags[flag_index].len();
        n > 0 && rule_index == n - 1
    } else {
        false
    }
}

/// What a catalog rule says: its condition, served value, rollout and reason.
pub open spec fn rule_view(c: CatalogRule) -> (Option<Seq<char>>, Option<bool>, Option<(u32, bool)>, Option<Seq<char>>) {
    (
        crate::paths::opt_text(c.when),
        c.serve,
        match c.rollout { Some(r) => Some((r.percentage, r.serve)), None => None },
        crate::paths::opt_text(c.reason),
    )
}

fn copy_text(s: &Option<String>) -> (r: Option<String>)
    ensures
        crate::paths::opt_text(r) == crate::paths::opt_text(*s),
{
    match s {
        Some(t) => Some(t.clone()),
        None => None,
    }
}

/// A copy of a catalog rule.
pub fn copy_rule(c: &CatalogRule) -> (r: CatalogRule)
    ensures
        rule_view(r) == rule_view(*c),
{
    CatalogRule {
        when: copy_text(&c.when),
        serve: c.serve,
        rollout: match &c.rollout {
            Some(ro) => Some(RolloutRule { percentage: ro.percentage, serve: ro.serve }),
            None => None,
        },
        reason: copy_text(&c.reason),
    }
}

/// The catalog row of an AST rule: none for the compiled default, else the row
/// at the same position, if there is one.
pub fn catalog_rule_for_ast_index(catalog_rules: &Vec<CatalogRule>, ast_rule_index: usize, is_compiled_default: bool) -> (r: Option<CatalogRule>)
    ensures
        is_compiled_default ==> r is None,
        !is_compiled_default ==> (r is Some <==> ast_rule_index < catalog_rules@.len()),
        r matches Some(c) ==> rule_view(c) == rule_view(catalog_rules@[ast_rule_index as int]),
{
    if is_compiled_default {
        return None;
    }
    if ast_rule_index < catalog_rules.len() {
        Some(copy_rule(&catalog_rules[ast_rule_index]))
    } else {
        None
    }
}

/// The warning for a rule that decided without a catalog row.
pub open spec fn spec_metadata_warning(rules_len: nat, idx: nat, is_default: bool, saas_mode: bool, env: Seq<char>) -> Option<Seq<char>> {
    if is_default || idx < rules_len {
        None
    } else if saas_mode && rules_len == 0 {
        None
    } else if rules_len == 0 {
        Some("No environment rules for this flag in control-path.yaml for '"@ + env
            + "'; when/reason/rollout metadata unavailable"@)
    } else {
        Some("No catalog metadata for AST rule "@ + decimal(idx + 1) + " (catalog lists "@ + decimal(rules_len)
            + " rule(s) for this flag; recompile or check --env)"@)
    }
}

pub fn catalog_metadata_warning(
    catalog_rules: &Vec<CatalogRule>,
    ast_rule_index: usize,
    is_compiled_default: bool,
    saas_mode: bool,
    environment: &str,
) -> (r: Option<String>)
    requires
        ast_rule_index < usize::MAX,
    ensures
        crate::paths::opt_text(r) == spec_metadata_warning(catalog_rules@.len(), ast_rule_index as nat, is_compiled_default, saas_mode, environment@),
{
    if is_compiled_default || ast_rule_index < catalog_rules.len() {
        return None;
    }
    if saas_mode && catalog_rules.len() == 0 {
        return None;
    }
    if catalog_rules.len() == 0 {
        let mut m = owned("No environment rules for this flag in control-path.yaml for '");
        push_text(&mut m, environment);
        push_text(&mut m, "'; when/reason/rollout metadata unavailable");
        return Some(m);
    }
    let mut m = owned("No catalog metadata for AST rule ");
    crate::json::write_decimal(&mut m, (ast_rule_index + 1) as u64);
    push_text(&mut m, " (catalog lists ");
    crate::json::write_decimal(&mut m, catalog_rules.len() as u64);
    push_text(&mut m, " rule(s) for this flag; recompile or check --env)");
    Some(m)
}

/// The catalog note of a rule in a trace.
pub open spec fn spec_trace_note(rules_len: nat, idx: nat, is_default: bool, saas_mode: bool) -> Option<Seq<char>> {
    if is_default {
        Some("compiled catalog default (no YAML row)"@)
    } else if idx < rules_len {
        None
    } else if saas_mode && rules_len == 0 {
        Some("no local YAML rules (SaaS / remote AST)"@)
    } else if rules_len == 0 {
        Some("no local YAML rules for this flag/env"@)
    } else {
        Some("catalog metadata missing for this AST index"@)
    }
}

pub fn trace_catalog_note(
    catalog_rules: &Vec<CatalogRule>,
    ast_rule_index: usize,
    flag_index: usize,
    artifact: &Artifact,
    saas_mode: bool,
) -> (r: Option<&'static str>)
    ensures
        match r { Some(s) => Some(s@), None => None } == spec_trace_note(catalog_rules@.len(), ast_rule_index as nat,
            spec_is_default_rule(artifact, flag_index as int, ast_rule_index as int), saas_mode),
{
    if is_compiled_catalog_default(artifact, flag_index, ast_rule_index) {
        return Some("compiled catalog default (no YAML row)");
    }
    if ast_rule_index < catalog_rules.len() {
        return None;
    }
    if saas_mode && catalog_rules.len() == 0 {
        return Some("no local YAML rules (SaaS / remote AST)");
    }
    if catalog_rules.len() == 0 {
        return Some("no local YAML rules for this flag/env");
    }
    Some("catalog metadata missing for this AST index")
}

/// Warnings about an environment and an artifact that may not belong together.
pub open spec fn spec_env_ast_warnings(env: Option<Seq<char>>, ast: Option<Seq<char>>, environment: Seq<char>, artifact_env: Seq<char>) -> Seq<Seq<char>> {
    let first: Seq<Seq<char>> = match (env, ast) {
        (Some(e), Some(a)) => {
            let stem = match spec_file_stem(a) { Some(s) => s, None => seq![] };
            if stem.len() > 0 && stem != e {
                seq!["--env '"@ + e + "' does not match --ast path stem '"@ + stem
                    + "'; kill-switch path and catalog metadata use --env, evaluation uses "@ + a]
            } else {
                seq![]
            }
        },
        _ => seq![],
    };
    if artifact_env != environment {
        first.push("AST artifact env is '"@ + artifact_env + "' but explain resolved env is '"@ + environment
            + "' (check --env and --ast)"@)
    } else {
        first
    }
}

fn warnings_for(env: Option<&str>, ast: Option<&str>, environment: &str, artifact_env: &str) -> (r: Vec<String>)
    ensures
        texts_of(r@) == spec_env_ast_warnings(
            match env { Some(e) => Some(e@), None => None },
            match ast { Some(a) => Some(a@), None => None },
            environment@, artifact_env@),
{
    let mut warnings: Vec<String> = Vec::new();
    if let (Some(e), Some(a)) = (env, ast) {
        let stem = match file_stem(a) {
            Some(s) => s,
            None => String::new(),
        };
        if chars_of(stem.as_str()).len() > 0 && !text_eq(stem.as_str(), e) {
            let mut m = owned("--env '");
            push_text(&mut m, e);
            push_text(&mut m, "' does not match --ast path stem '");
            push_text(&mut m, stem.as_str());
            push_text(&mut m, "'; kill-switch path and catalog metadata use --env, evaluation uses ");
            push_text(&mut m, a);
            warnings.push(m);
        }
    }
    let ghost first = texts_of(warnings@);
    if !text_eq(artifact_env, environment) {
        let mut m = owned("AST artifact env is '");
        push_text(&mut m, artifact_env);
        push_text(&mut m, "' but explain resolved env is '");
        push_text(&mut m, environment);
        push_text(&mut m, "' (check --env and --ast)");
        warnings.push(m);
        proof {
            assert(texts_of(warnings@) =~= first.push(m@));
        }
    }
    proof {
        assert(texts_of(warnings@) =~= spec_env_ast_warnings(
            match env { Some(e) => Some(e@), None => None },
            match ast { Some(a) => Some(a@), None => None },
            environment@, artifact_env@));
    }
    warnings
}

/// Warnings that `--env`, `--ast` and the artifact read do not name one environment.
pub fn env_ast_warnings(options: &Options, environment: &str, artifact: &Artifact) -> (r: Vec<String>)
    ensures
        texts_of(r@) == spec_env_ast_warnings(
            crate::paths::opt_text(options.env),
            crate::paths::opt_text(options.ast),
            environment@, artifact.environment@),
{
    let env = match &options.env {
        Some(e) => Some(e.as_str()),
        None => None,
    };
    let ast = match &options.ast {
        Some(a) => Some(a.as_str()),
        None => None,
    };
    warnings_for(env, ast, environment, artifact.environment.as_str())
}

/// The environment `explain` asks the kill switch resolution for: `--env`, else
/// the stem of `--ast` (`production` without one), else none.
pub fn requested_environment(options: &Options) -> (r: Option<String>)
    ensures
        crate::paths::opt_text(r) == match options.env {
            Some(e) => Some(e@),
            None => match options.ast {
                Some(a) => Some(match spec_file_stem(a@) { Some(s) => s, None => "production"@ }),
                None => None,
            },
        },
{
    if let Some(e) = &options.env {
        return Some(e.clone());
    }
    if let Some(a) = &options.ast {
        return match file_stem(a.as_str()) {
            Some(s) => Some(s),
            None => Some(owned("production")),
        };
    }
    None
}

/// The artifact `explain` reads: `--ast`; else the environment's artifact when
/// it exists (and `--ast` was not given); else the single `.ast` file of
/// `.controlpath` (`ast_files`).
pub fn determine_ast_path(options: &Options, environment: &str, env_file_exists: bool, ast_files: Vec<String>) -> (r: Result<String, CliError>)
    ensures
        match options.ast {
            Some(a) => (r matches Ok(p) && p@ == a@),
            None => if env_file_exists {
                r matches Ok(p) && p@ == ".controlpath/"@ + environment@ + ".ast"@
            } else if ast_files@.len() == 1 {
                r matches Ok(p) && p@ == ast_files@[0]@
            } else if ast_files@.len() == 0 {
                err_text(r) == Some("Either --ast <file> or --env <env> must be provided (no .ast files found in .controlpath/)"@)
            } else {
                err_text(r) == Some("Either --ast <file> or --env <env> must be provided (multiple .ast files found in .controlpath/)"@)
            },
        },
{
    if let Some(a) = &options.ast {
        return Ok(a.clone());
    }
    if env_file_exists {
        let mut p = owned(".controlpath/");
        push_text(&mut p, environment);
        push_text(&mut p, ".ast");
        return Ok(p);
    }
    if ast_files.len() == 1 {
        return Ok(ast_files[0].clone());
    }
    if ast_files.len() == 0 {
        return Err(CliError::Message(owned(
            "Either --ast <file> or --env <env> must be provided (no .ast files found in .controlpath/)",
        )));
    }
    Err(CliError::Message(owned(
        "Either --ast <file> or --env <env> must be provided (multiple .ast files found in .controlpath/)",
    )))
}

/// A flag's kill switch in a file: `flags.<flag>` when it is a boolean.
pub fn kill_switch_value(kill_file: &JsonValue, flag: &str) -> (r: Option<bool>)
    ensures
        r == crate::utils::kill_switch::switch_value(kill_file@, flag@),
{
    match value_get(kill_file, "flags") {
        Some(f) => match value_get(f, flag) {
            Some(JsonValue::Bool(b)) => Some(*b),
            _ => None,
        },
        None => None,
    }
}

/// A served payload as a boolean: a boolean; ON/TRUE or OFF/FALSE in any ASCII
/// case; an integer (non-zero is true; one above `i64::MAX` has none).
pub open spec fn spec_payload_to_bool(v: Option<JsonView>) -> Option<bool> {
    match v {
        Some(JsonView::Bool(b)) => Some(b),
        Some(JsonView::Str(s)) => if eq_ignore_ascii_case(s, "ON"@) || eq_ignore_ascii_case(s, "TRUE"@) {
            Some(true)
        } else if eq_ignore_ascii_case(s, "OFF"@) || eq_ignore_ascii_case(s, "FALSE"@) {
            Some(false)
        } else {
            None
        },
        Some(JsonView::Number(NumberView::PosInt(n))) => if n <= 0x7fff_ffff_ffff_ffff { Some(n != 0) } else { None },
        Some(JsonView::Number(NumberView::NegInt(n))) => Some(n != 0),
        _ => None,
    }
}

pub fn payload_to_bool(value: &Option<JsonValue>) -> (r: Option<bool>)
    ensures
        r == spec_payload_to_bool(crate::commands::debug::opt_ref_view(value)),
{
    match value {
        Some(JsonValue::Bool(b)) => Some(*b),
        Some(JsonValue::String(s)) => {
            if text_eq_ignore_ascii_case(s.as_str(), "ON") || text_eq_ignore_ascii_case(s.as_str(), "TRUE") {
                Some(true)
            } else if text_eq_ignore_ascii_case(s.as_str(), "OFF") || text_eq_ignore_ascii_case(s.as_str(), "FALSE") {
                Some(false)
            } else {
                None
            }
        },
        Some(JsonValue::Number(JsonNumber::PosInt(n))) => if *n <= 0x7fff_ffff_ffff_ffff { Some(*n != 0) } else { None },
        Some(JsonValue::Number(JsonNumber::NegInt(n))) => Some(*n != 0),
        _ => None,
    }
}

/// The outcome when a kill switch decides.
pub fn kill_switch_outcome(environment: String, value: bool, imported: bool, deprecated: bool, warnings: Vec<String>) -> (r: ExplainOutcome)
    ensures
        r.environment == environment,
        r.layer == MatchedLayer::KillSwitch,
        r.value == value,
        r.rule_index is None && r.catalog_rule is None && r.rollout_bucket is None && !r.missing_user_id,
        r.imported == imported && r.deprecated == deprecated,
        r.warnings == warnings,
{
    ExplainOutcome {
        environment,
        layer: MatchedLayer::KillSwitch,
        value,
        rule_index: None,
        catalog_rule: None,
        imported,
        deprecated,
        rollout_bucket: None,
        missing_user_id: false,
        warnings,
    }
}

/// The outcome when the rules decide: the value is the served payload as a
/// boolean (the catalog default when it is none); the layer is the catalog
/// default when the compiled default rule matched, else an environment rule;
/// the rule's catalog row, a warning when it has none, and for a rollout the
/// user's bucket (`bucket`) and whether the user has an id.
pub fn rules_outcome(
    flag: &str,
    environment: String,
    matched_rule: Option<usize>,
    raw_value: &Option<JsonValue>,
    catalog_default: bool,
    artifact: &Artifact,
    flag_index: usize,
    catalog_rules: &Vec<CatalogRule>,
    saas_mode: bool,
    env_name: &str,
    imported: bool,
    deprecated: bool,
    has_user_id: bool,
    bucket: Option<u32>,
    warnings: Vec<String>,
) -> (r: Result<ExplainOutcome, CliError>)
    requires
        matched_rule matches Some(i) ==> i < usize::MAX,
    ensures
        matched_rule is None ==> err_text(r) == Some("No rules matched for flag '"@ + flag@ + "' (artifact may be corrupt)"@),
        matched_rule matches Some(i) ==> (r matches Ok(o) && {
            let is_default = spec_is_default_rule(artifact, flag_index as int, i as int);
            &&& o.environment == environment
            &&& o.value == match spec_payload_to_bool(crate::commands::debug::opt_ref_view(raw_value)) { Some(b) => b, None => catalog_default }
            &&& o.layer == (if is_default { MatchedLayer::CatalogDefault } else { MatchedLayer::EnvironmentRule })
            &&& o.rule_index == Some(i)
            &&& (is_default ==> o.catalog_rule is None)
            &&& (!is_default ==> (o.catalog_rule is Some <==> i < catalog_rules@.len()))
            &&& (o.catalog_rule matches Some(c) ==> rule_view(c) == rule_view(catalog_rules@[i as int]))
            &&& o.imported == imported && o.deprecated == deprecated
            &&& {
                let rollout = o.catalog_rule matches Some(c) && c.rollout is Some;
                &&& o.missing_user_id == (rollout && !has_user_id)
                &&& o.rollout_bucket == (if rollout { bucket } else { None })
            }
            &&& texts_of(o.warnings@) == texts_of(warnings@) + (match spec_metadata_warning(catalog_rules@.len(), i as nat, is_default, saas_mode, env_name@) {
                Some(w) => seq![w],
                None => Seq::<Seq<char>>::empty(),
            })
        }),
{
    let i = match matched_rule {
        Some(i) => i,
        None => {
            let mut m = owned("No rules matched for flag '");
            push_text(&mut m, flag);
            push_text(&mut m, "' (artifact may be corrupt)");
            return Err(CliError::Message(m));
        },
    };
    let value = match payload_to_bool(raw_value) {
        Some(b) => b,
        None => catalog_default,
    };
    let is_default = is_compiled_catalog_default(artifact, flag_index, i);
    let layer = if is_default { MatchedLayer::CatalogDefault } else { MatchedLayer::EnvironmentRule };
    let catalog_rule = catalog_rule_for_ast_index(catalog_rules, i, is_default);
    let mut warnings = warnings;
    let ghost w0 = texts_of(warnings@);
    match catalog_metadata_warning(catalog_rules, i, is_default, saas_mode, env_name) {
        Some(w) => {
            warnings.push(w);
            proof {
                assert(texts_of(warnings@) =~= w0 + seq![warnings@.last()@]);
            }
        },
        None => {
            proof {
                assert(texts_of(warnings@) =~= w0 + Seq::<Seq<char>>::empty());
            }
        },
    }
    let rollout = match &catalog_rule {
        Some(c) => c.rollout.is_some(),
        None => false,
    };
    Ok(ExplainOutcome {
        environment,
        layer,
        value,
        rule_index: Some(i),
        catalog_rule,
        imported,
        deprecated,
        rollout_bucket: if rollout { bucket } else { None },
        missing_user_id: rollout && !has_user_id,
        warnings,
    })
}

/// Where a flag's catalog rules live: an imported flag (`namespace.flag`) in its
/// namespace's catalog under its own key, any other in the service catalog.
pub fn catalog_rules_location(qualified_name: &str) -> (r: (Option<String>, String))
    ensures
        ({
            let n = qualified_name@;
            if exists|k: int| 0 <= k < n.len() && n[k] == '.' {
                let k = choose|k: int| 0 <= k < n.len() && n[k] == '.' && forall|j: int| 0 <= j < k ==> n[j] != '.';
                r.0 matches Some(ns) && ns@ == n.take(k) && r.1@ == n.skip(k + 1)
            } else {
                r.0 is None && r.1@ == n
            }
        }),
{
    let cs = chars_of(qualified_name);
    let mut i: usize = 0;
    while i < cs.len() && cs[i] != '.'
        invariant
            i <= cs@.len(),
            cs@ == qualified_name@,
            forall|j: int| 0 <= j < i ==> cs@[j] != '.',
        decreases cs@.len() - i,
    {
        i = i + 1;
    }
    if i < cs.len() {
        proof {
            let n = qualified_name@;
            assert(n[i as int] == '.');
            let k = choose|k: int| 0 <= k < n.len() && n[k] == '.' && forall|j: int| 0 <= j < k ==> n[j] != '.';
            if k < i {
                assert(cs@[k] != '.');
            } else if k > i {
                assert(n[i as int] != '.');
            }
        }
        let ns = string_from_chars(&cs.as_slice()[0..i]);
        let key = string_from_chars(&cs.as_slice()[i + 1..cs.len()]);
        proof {
            assert(cs@.subrange(0, i as int) =~= qualified_name@.take(i as int));
            assert(cs@.subrange(i + 1, cs@.len() as int) =~= qualified_name@.skip(i + 1));
        }
        (Some(ns), key)
    } else {
        (None, owned(qualified_name))
    }
}

pub open spec fn bool_text(b: bool) -> Seq<char> {
    if b { "true"@ } else { "false"@ }
}

/// The opening lines of the report: flag, environment, notes, warnings and the result.
pub open spec fn spec_head_lines(flag: Seq<char>, o: ExplainOutcome) -> Seq<Seq<char>> {
    seq!["Flag: "@ + flag, "Environment: "@ + o.environment@]
        + (if o.imported { seq!["Source: imported catalog projection"@] } else { Seq::<Seq<char>>::empty() })
        + (if o.deprecated { seq!["Warning: flag lifecycle is deprecated"@] } else { Seq::<Seq<char>>::empty() })
        + texts_of(o.warnings@).map_values(|w: Seq<char>| "Warning: "@ + w)
        + seq![Seq::<char>::empty(), "Result:"@, "  Layer: "@ + spec_layer_label(o.layer), "  Value: "@ + bool_text(o.value)]
}

/// The line that names the matched rule, where there is one.
pub open spec fn spec_rule_line(o: ExplainOutcome) -> Seq<Seq<char>> {
    match o.rule_index {
        Some(i) => if o.layer == MatchedLayer::EnvironmentRule {
            seq!["  Rule: "@ + decimal((i + 1) as nat) + " (1-based in environment)"@]
        } else if o.layer == MatchedLayer::CatalogDefault {
            seq!["  Rule: catalog default (compiled trailing rule "@ + decimal((i + 1) as nat) + ")"@]
        } else {
            seq![]
        },
        None => seq![],
    }
}

/// The lines that describe the catalog rule behind the match.
pub open spec fn spec_rule_meta(o: ExplainOutcome) -> Seq<Seq<char>> {
    match o.catalog_rule {
        Some(c) => (match c.when { Some(w) => seq!["  When: "@ + w@], None => Seq::<Seq<char>>::empty() })
            + (match c.rollout {
                Some(ro) => seq!["  Rollout: "@ + decimal(ro.percentage as nat) + "% → serve "@ + bool_text(ro.serve)]
                    + (match o.rollout_bucket {
                        Some(b) => seq!["  Rollout bucket: "@ + decimal(b as nat) + " (0–99, user id hash)"@],
                        None => Seq::<Seq<char>>::empty(),
                    }),
                None => Seq::<Seq<char>>::empty(),
            })
            + (match c.reason { Some(r) => seq!["  Reason: "@ + r@], None => Seq::<Seq<char>>::empty() }),
        None => seq![],
    }
}

/// The closing lines: a note on a missing user id, then a blank line.
pub open spec fn spec_tail_lines(o: ExplainOutcome) -> Seq<Seq<char>> {
    if o.missing_user_id {
        seq![Seq::<char>::empty(), "  ⚠ Missing user.id — rollout rules need a stable identity for bucketing"@, Seq::<char>::empty()]
    } else {
        seq![Seq::<char>::empty()]
    }
}

/// The human-readable report of an outcome, line by line.
pub open spec fn spec_human_lines(flag: Seq<char>, o: ExplainOutcome) -> Seq<Seq<char>> {
    spec_head_lines(flag, o) + spec_rule_line(o) + spec_rule_meta(o) + spec_tail_lines(o)
}

fn push_line(lines: &mut Vec<String>, s: String)
    ensures
        texts_of(final(lines)@) == texts_of(old(lines)@).push(s@),
{
    lines.push(s);
    proof {
        assert(texts_of(lines@) =~= texts_of(old(lines)@).push(s@));
    }
}

fn bool_str(b: bool) -> (r: &'static str)
    ensures
        r@ == bool_text(b),
{
    if b { "true" } else { "false" }
}

fn push_head_lines(lines: &mut Vec<String>, flag: &str, o: &ExplainOutcome)
    ensures
        texts_of(final(lines)@) == texts_of(old(lines)@) + spec_head_lines(flag@, *o),
{
    let ghost start = texts_of(lines@);
    let mut l = owned("Flag: ");
    push_text(&mut l, flag);
    push_line(lines, l);
    let mut l = owned("Environment: ");
    push_text(&mut l, o.environment.as_str());
    push_line(lines, l);
    if o.imported {
        push_line(lines, owned("Source: imported catalog projection"));
    }
    if o.deprecated {
        push_line(lines, owned("Warning: flag lifecycle is deprecated"));
    }
    let ghost before_w = texts_of(lines@);
    let mut k: usize = 0;
    while k < o.warnings.len()
        invariant
            k <= o.warnings@.len(),
            texts_of(lines@) == before_w + texts_of(o.warnings@).take(k as int).map_values(|w: Seq<char>| "Warning: "@ + w),
        decreases o.warnings@.len() - k,
    {
        let mut l = owned("Warning: ");
        push_text(&mut l, o.warnings[k].as_str());
        push_line(lines, l);
        proof {
            assert(texts_of(o.warnings@).take(k + 1).map_values(|w: Seq<char>| "Warning: "@ + w)
                =~= texts_of(o.warnings@).take(k as int).map_values(|w: Seq<char>| "Warning: "@ + w).push("Warning: "@ + o.warnings@[k as int]@));
        }
        k = k + 1;
    }
    proof {
        assert(texts_of(o.warnings@).take(o.warnings@.len() as int) =~= texts_of(o.warnings@));
    }
    push_line(lines, String::new());
    push_line(lines, owned("Result:"));
    let mut l = owned("  Layer: ");
    push_text(&mut l, layer_label(&o.layer));
    push_line(lines, l);
    let mut l = owned("  Value: ");
    push_text(&mut l, bool_str(o.value));
    push_line(lines, l);
    proof {
        assert(texts_of(lines@) =~= start + spec_head_lines(flag@, *o));
    }
}

fn push_rule_line(lines: &mut Vec<String>, o: &ExplainOutcome)
    requires
        o.rule_index matches Some(i) ==> i < usize::MAX,
    ensures
        texts_of(final(lines)@) == texts_of(old(lines)@) + spec_rule_line(*o),
{
    if let Some(i) = o.rule_index {
        if o.layer == MatchedLayer::EnvironmentRule {
            let mut l = owned("  Rule: ");
            crate::json::write_decimal(&mut l, (i + 1) as u64);
            push_text(&mut l, " (1-based in environment)");
            push_line(lines, l);
        } else if o.layer == MatchedLayer::CatalogDefault {
            let mut l = owned("  Rule: catalog default (compiled trailing rule ");
            crate::json::write_decimal(&mut l, (i + 1) as u64);
            push_text(&mut l, ")");
            push_line(lines, l);
        }
    }
    proof {
        assert(texts_of(lines@) =~= texts_of(old(lines)@) + spec_rule_line(*o));
    }
}

fn push_rule_meta(lines: &mut Vec<String>, o: &ExplainOutcome)
    ensures
        texts_of(final(lines)@) == texts_of(old(lines)@) + spec_rule_meta(*o),
{
    if let Some(c) = &o.catalog_rule {
        let ghost a = texts_of(lines@);
        if let Some(w) = &c.when {
            let mut l = owned("  When: ");
            push_text(&mut l, w.as_str());
            push_line(lines, l);
        }
        let ghost b = texts_of(lines@);
        if let Some(ro) = &c.rollout {
            let mut l = owned("  Rollout: ");
            crate::json::write_decimal(&mut l, ro.percentage as u64);
            push_text(&mut l, "% → serve ");
            push_text(&mut l, bool_str(ro.serve));
            push_line(lines, l);
            if let Some(bk) = o.rollout_bucket {
                let mut l = owned("  Rollout bucket: ");
                crate::json::write_decimal(&mut l, bk as u64);
                push_text(&mut l, " (0–99, user id hash)");
                push_line(lines, l);
            }
        }
        let ghost d = texts_of(lines@);
        if let Some(r) = &c.reason {
            let mut l = owned("  Reason: ");
            push_text(&mut l, r.as_str());
            push_line(lines, l);
        }
        proof {
            assert(texts_of(lines@) =~= a + spec_rule_meta(*o));
        }
    } else {
        proof {
            assert(texts_of(lines@) =~= texts_of(old(lines)@) + spec_rule_meta(*o));
        }
    }
}

/// The report that the explain command prints for an outcome, one line per element.
pub fn human_lines(flag: &str, o: &ExplainOutcome) -> (r: Vec<String>)
    requires
        o.rule_index matches Some(i) ==> i < usize::MAX,
    ensures
        texts_of(r@) == spec_human_lines(flag@, *o),
{
    let mut lines: Vec<String> = Vec::new();
    proof {
        assert(texts_of(lines@) =~= Seq::<Seq<char>>::empty());
    }
    push_head_lines(&mut lines, flag, o);
    push_rule_line(&mut lines, o);
    push_rule_meta(&mut lines, o);
    if o.missing_user_id {
        push_line(&mut lines, String::new());
        push_line(&mut lines, owned("  ⚠ Missing user.id — rollout rules need a stable identity for bucketing"));
    }
    push_line(&mut lines, String::new());
    proof {
        assert(texts_of(lines@) =~= spec_human_lines(flag@, *o));
    }
    lines
}


/// The words a served string payload may spell: ON or TRUE (in any ASCII case)
/// read as true, OFF or FALSE as false, and no string is both kinds of word.
pub proof fn law_payload_words(s: Seq<char>)
    ensures
        (eq_ignore_ascii_case(s, "ON"@) || eq_ignore_ascii_case(s, "TRUE"@))
            ==> spec_payload_to_bool(Some(JsonView::Str(s))) == Some(true),
        (eq_ignore_ascii_case(s, "OFF"@) || eq_ignore_ascii_case(s, "FALSE"@))
            ==> spec_payload_to_bool(Some(JsonView::Str(s))) == Some(false),
        !((eq_ignore_ascii_case(s, "ON"@) || eq_ignore_ascii_case(s, "TRUE"@))
            && (eq_ignore_ascii_case(s, "OFF"@) || eq_ignore_ascii_case(s, "FALSE"@))),
{
    reveal_strlit("ON");
    reveal_strlit("TRUE");
    reveal_strlit("OFF");
    reveal_strlit("FALSE");
}
} // verus!
