//! Evaluation of whole expressions, rules and flags for the debug UI.
//!
//! Comparison operators coerce their operands to floating-point numbers. That
//! coercion is not computed here: the caller keeps a table of the comparisons it
//! has made, and an evaluation that meets a pair of operands missing from the
//! table stops and names that pair. The caller computes it, adds it to the table
//! and evaluates again; with every pair present the evaluation completes.

use vstd::prelude::*;
use crate::json::{JsonValue, JsonView, json_equal, values_equal, decimal, write_decimal, copy_value};
use crate::text::{owned, push_text};
use crate::commands::debug::{
    Artifact, Expression, Rule, ServePayload, RolloutValue, Variation, pct_sum, spec_select_variation,
    spec_select_rollout, str_view_opt, table_get, select_variation, select_rollout, table_string,
    spec_format_expression, format_expression, coerce_to_boolean, spec_coerce_to_boolean, flag_name_at,
    find_flag_index, NumericComparison, LOGIC_NOT, opt_view, opt_ref_view, spec_property_value,
    spec_literal_value, spec_binary_op, spec_logical_node, spec_logical_op, spec_arity, spec_function,
    args_view, property_value, literal_value, evaluate_binary_op, evaluate_logical_node, function_arity,
    evaluate_function, lemma_args_decreases,
};

verus! {

/// One comparison made by the caller: the floating-point coercion of `left` and
/// `right` (`None` when one of them is not a number).
#[derive(Debug)]
pub struct NumericEntry {
    pub left: JsonValue,
    pub right: JsonValue,
    pub outcome: Option<NumericComparison>,
}

/// A pair of operands whose comparison the table lacks.
#[derive(Debug)]
pub struct NumericRequest {
    pub left: JsonValue,
    pub right: JsonValue,
}

/// The outcome recorded for a pair of operands: the first entry whose operands equal them.
pub open spec fn numeric_lookup(t: Seq<NumericEntry>, l: JsonView, r: JsonView) -> Option<Option<NumericComparison>>
    decreases t.len(),
{
    if t.len() == 0 {
        None
    } else if json_equal(t[0].left@, l) && json_equal(t[0].right@, r) {
        Some(t[0].outcome)
    } else {
        numeric_lookup(t.drop_first(), l, r)
    }
}

/// Looks a pair of operands up in the table.
pub fn lookup_comparison(table: &Vec<NumericEntry>, l: &JsonValue, r: &JsonValue) -> (res: Option<Option<NumericComparison>>)
    ensures
        res == numeric_lookup(table@, l@, r@),
{
    let mut i: usize = 0;
    proof {
        assert(table@.skip(0) =~= table@);
    }
    while i < table.len()
        invariant
            i <= table@.len(),
            numeric_lookup(table@, l@, r@) == numeric_lookup(table@.skip(i as int), l@, r@),
        decreases table@.len() - i,
    {
        proof {
            assert(table@.skip(i as int)[0] == table@[i as int]);
            assert(table@.skip(i as int).drop_first() =~= table@.skip(i + 1));
        }
        if values_equal(&table[i].left, l) && values_equal(&table[i].right, r) {
            return Some(table[i].outcome);
        }
        i = i + 1;
    }
    None
}

/// An evaluation step's outcome: a result, or the pair of operands it waits for.
pub type Step<T> = Result<T, (JsonView, JsonView)>;

pub open spec fn request_view(q: NumericRequest) -> (JsonView, JsonView) {
    (q.left@, q.right@)
}

pub open spec fn value_step_view(r: Result<Option<JsonValue>, NumericRequest>) -> Step<Option<JsonView>> {
    match r {
        Ok(v) => Ok(opt_view(v)),
        Err(q) => Err(request_view(q)),
    }
}

/// The value of an expression for a user and context (`None` where the
/// expression has no value), given the comparisons in `t`.
pub open spec fn spec_eval(e: Expression, a: &Artifact, user: JsonView, ctx: Option<JsonView>, t: Seq<NumericEntry>) -> Step<Option<JsonView>>
    decreases e, 3nat,
{
    match e {
        Expression::Property { prop_index } => Ok(spec_property_value(prop_index, a, user, ctx)),
        Expression::Literal { value } => Ok(Some(spec_literal_value(value@, a))),
        Expression::BinaryOp { op_code, left, right } => match spec_eval(*left, a, user, ctx, t) {
            Err(m) => Err(m),
            Ok(None) => Ok(None),
            Ok(Some(lv)) => match spec_eval(*right, a, user, ctx, t) {
                Err(m) => Err(m),
                Ok(None) => Ok(None),
                Ok(Some(rv)) => match numeric_lookup(t, lv, rv) {
                    None => Err((lv, rv)),
                    Some(n) => Ok(spec_binary_op(op_code, lv, rv, n)),
                },
            },
        },
        Expression::LogicalOp { op_code, left, right } => match spec_eval(*left, a, user, ctx, t) {
            Err(m) => Err(m),
            Ok(None) => Ok(None),
            Ok(Some(lv)) => if op_code == LOGIC_NOT {
                Ok(spec_logical_node(op_code, Some(lv), None))
            } else {
                match right {
                    None => Ok(None),
                    Some(r) => match spec_eval(*r, a, user, ctx, t) {
                        Err(m) => Err(m),
                        Ok(None) => Ok(None),
                        Ok(Some(rv)) => Ok(spec_logical_op(op_code, lv, rv)),
                    },
                }
            },
        },
        Expression::Func { func_code, args } => {
            let n = if args@.len() >= spec_arity(func_code) { spec_arity(func_code) } else { 0 };
            match eval_args(args@, n, a, user, ctx, t) {
                Err(m) => Err(m),
                Ok(None) => Ok(None),
                Ok(Some(vals)) => Ok(spec_function(func_code, vals)),
            }
        },
    }
}

/// The values of the first `k` arguments, in order; `Ok(None)` when one of them has no value.
pub open spec fn eval_args(args: Seq<Expression>, k: nat, a: &Artifact, user: JsonView, ctx: Option<JsonView>, t: Seq<NumericEntry>) -> Step<Option<Seq<Option<JsonView>>>>
    decreases args, k,
{
    if k == 0 {
        Ok(Some(seq![]))
    } else {
        match eval_args(args, (k - 1) as nat, a, user, ctx, t) {
            Err(m) => Err(m),
            Ok(None) => Ok(None),
            Ok(Some(prev)) => if k - 1 < args.len() {
                match spec_eval(args[k - 1], a, user, ctx, t) {
                    Err(m) => Err(m),
                    Ok(None) => Ok(None),
                    Ok(Some(v)) => Ok(Some(prev.push(Some(v)))),
                }
            } else {
                Ok(Some(prev))
            },
        }
    }
}

/// Once the arguments stop (a missing comparison, or an argument without a
/// value), evaluating more of them changes nothing.
pub proof fn lemma_eval_args_stops(args: Seq<Expression>, k: nat, j: nat, a: &Artifact, user: JsonView, ctx: Option<JsonView>, t: Seq<NumericEntry>)
    requires
        k <= j,
        !(eval_args(args, k, a, user, ctx, t) matches Ok(Some(_))),
    ensures
        eval_args(args, j, a, user, ctx, t) == eval_args(args, k, a, user, ctx, t),
    decreases j - k,
{
    if k < j {
        lemma_eval_args_stops(args, k, (j - 1) as nat, a, user, ctx, t);
    }
}

/// Evaluates an expression (see [`spec_eval`]).
#[verifier::loop_isolation(false)]
pub fn evaluate_expression_value(expr: &Expression, artifact: &Artifact, user: &JsonValue, context: &Option<JsonValue>, table: &Vec<NumericEntry>) -> (r: Result<Option<JsonValue>, NumericRequest>)
    ensures
        value_step_view(r) == spec_eval(*expr, artifact, user@, opt_ref_view(context), table@),
    decreases expr,
{
    let ghost ctx = opt_ref_view(context);
    match expr {
        Expression::Property { prop_index } => Ok(property_value(*prop_index, artifact, user, context)),
        Expression::Literal { value } => Ok(Some(literal_value(value, artifact))),
        Expression::BinaryOp { op_code, left, right } => {
            let lv = match evaluate_expression_value(left, artifact, user, context, table) {
                Err(q) => return Err(q),
                Ok(None) => return Ok(None),
                Ok(Some(v)) => v,
            };
            let rv = match evaluate_expression_value(right, artifact, user, context, table) {
                Err(q) => return Err(q),
                Ok(None) => return Ok(None),
                Ok(Some(v)) => v,
            };
            match lookup_comparison(table, &lv, &rv) {
                None => Err(NumericRequest { left: lv, right: rv }),
                Some(n) => Ok(evaluate_binary_op(*op_code, &lv, &rv, n)),
            }
        },
        Expression::LogicalOp { op_code, left, right } => {
            let lv = match evaluate_expression_value(left, artifact, user, context, table) {
                Err(q) => return Err(q),
                Ok(None) => return Ok(None),
                Ok(Some(v)) => v,
            };
            if *op_code == LOGIC_NOT {
                return Ok(evaluate_logical_node(*op_code, Some(&lv), None));
            }
            match right {
                None => Ok(None),
                Some(re) => {
                    let rv = match evaluate_expression_value(re, artifact, user, context, table) {
                        Err(q) => return Err(q),
                        Ok(None) => return Ok(None),
                        Ok(Some(v)) => v,
                    };
                    let res = evaluate_logical_node(*op_code, Some(&lv), Some(&rv));
                    Ok(res)
                },
            }
        },
        Expression::Func { func_code, args } => {
            let arity = function_arity(*func_code);
            let n: usize = if args.len() >= arity { arity } else { 0 };
            let mut vals: Vec<Option<JsonValue>> = Vec::new();
            let mut i: usize = 0;
            proof {
                assert(args_view(vals@) =~= seq![]);
            }
            while i < n
                invariant
                    i <= n,
                    n <= args@.len(),
                    n == (if args@.len() >= spec_arity(*func_code) { spec_arity(*func_code) } else { 0 }),
                    eval_args(args@, i as nat, artifact, user@, ctx, table@) == Ok::<Option<Seq<Option<JsonView>>>, (JsonView, JsonView)>(Some(args_view(vals@))),
                decreases n - i,
            {
                proof {
                    lemma_args_decreases(*expr, i as int);
                }
                let v = evaluate_expression_value(&args[i], artifact, user, context, table);
                match v {
                    Err(q) => {
                        proof {
                            lemma_eval_args_stops(args@, (i + 1) as nat, n as nat, artifact, user@, ctx, table@);
                        }
                        return Err(q);
                    },
                    Ok(None) => {
                        proof {
                            lemma_eval_args_stops(args@, (i + 1) as nat, n as nat, artifact, user@, ctx, table@);
                        }
                        return Ok(None);
                    },
                    Ok(Some(x)) => {
                        let ghost prev = vals@;
                        vals.push(Some(x));
                        proof {
                            assert(vals@.drop_last() =~= prev);
                            assert(args_view(vals@) =~= args_view(prev).push(opt_view(vals@.last())));
                        }
                    },
                }
                i = i + 1;
            }
            Ok(evaluate_function(*func_code, &vals))
        },
    }
}

/// The truth of a `when` clause: its value coerced to a boolean, false when it has none.
pub open spec fn spec_eval_bool(e: Expression, a: &Artifact, user: JsonView, ctx: Option<JsonView>, t: Seq<NumericEntry>) -> Step<bool> {
    match spec_eval(e, a, user, ctx, t) {
        Err(m) => Err(m),
        Ok(v) => Ok(match v {
            Some(x) => spec_coerce_to_boolean(x) == Some(true),
            None => false,
        }),
    }
}

/// Evaluates a `when` clause (see [`spec_eval_bool`]).
pub fn evaluate_expression(expr: &Expression, artifact: &Artifact, user: &JsonValue, context: &Option<JsonValue>, table: &Vec<NumericEntry>) -> (r: Result<bool, NumericRequest>)
    ensures
        match r {
            Ok(b) => spec_eval_bool(*expr, artifact, user@, opt_ref_view(context), table@) == Ok::<bool, (JsonView, JsonView)>(b),
            Err(q) => spec_eval_bool(*expr, artifact, user@, opt_ref_view(context), table@) == Err::<bool, (JsonView, JsonView)>(request_view(q)),
        },
{
    match evaluate_expression_value(expr, artifact, user, context, table) {
        Err(q) => Err(q),
        Ok(None) => Ok(false),
        Ok(Some(v)) => Ok(match coerce_to_boolean(&v) {
            Some(b) => b,
            None => false,
        }),
    }
}

/// What the debug UI shows for one rule of a flag.
#[derive(Debug)]
pub struct RuleEvaluation {
    pub index: usize,
    pub matched: bool,
    pub reason: String,
    pub value: Option<JsonValue>,
    pub rule_type: String,
    pub when_clause: Option<String>,
    pub when_result: Option<bool>,
}

pub struct RuleEvaluationView {
    pub index: int,
    pub matched: bool,
    pub reason: Seq<char>,
    pub value: Option<JsonView>,
    pub rule_type: Seq<char>,
    pub when_clause: Option<Seq<char>>,
    pub when_result: Option<bool>,
}

pub open spec fn opt_text_view(s: Option<String>) -> Option<Seq<char>> {
    match s {
        Some(x) => Some(x@),
        None => None,
    }
}

impl View for RuleEvaluation {
    type V = RuleEvaluationView;

    open spec fn view(&self) -> RuleEvaluationView {
        RuleEvaluationView {
            index: self.index as int,
            matched: self.matched,
            reason: self.reason@,
            value: opt_view(self.value),
            rule_type: self.rule_type@,
            when_clause: opt_text_view(self.when_clause),
            when_result: self.when_result,
        }
    }
}

/// The value a serve rule serves: its string, or the string-table entry it indexes.
pub open spec fn payload_value(p: ServePayload, a: &Artifact) -> Option<JsonView> {
    match p {
        ServePayload::String(s) => Some(JsonView::Str(s@)),
        ServePayload::Number(i) => str_view_opt(table_get(a, i as int)),
    }
}

pub open spec fn rollout_value(v: RolloutValue, a: &Artifact) -> Option<JsonView> {
    match v {
        RolloutValue::String(s) => Some(JsonView::Str(s@)),
        RolloutValue::Number(i) => str_view_opt(table_get(a, i as int)),
    }
}

pub open spec fn selected_text(b: bool) -> Seq<char> {
    if b { "selected"@ } else { "not selected"@ }
}

pub open spec fn bool_text(b: bool) -> Seq<char> {
    if b { "true"@ } else { "false"@ }
}

/// Variation percentages add up to at most 255 (their sum is taken in a byte).
pub open spec fn rule_fits(rule: Rule) -> bool {
    match rule {
        Rule::VariationsWithoutWhen(vs) => pct_sum(vs@) <= 255,
        Rule::VariationsWithWhen(_, vs) => pct_sum(vs@) <= 255,
        _ => true,
    }
}

pub open spec fn rule_eval_view(
    matched: bool,
    reason: Seq<char>,
    value: Option<JsonView>,
    rule_type: Seq<char>,
    when_clause: Option<Seq<char>>,
    when_result: Option<bool>,
) -> RuleEvaluationView {
    RuleEvaluationView { index: 0, matched, reason, value, rule_type, when_clause, when_result }
}

/// What one rule gives for a user and context, at index 0.
pub open spec fn spec_rule_evaluation(rule: Rule, a: &Artifact, user: JsonView, ctx: Option<JsonView>, t: Seq<NumericEntry>) -> Step<RuleEvaluationView> {
    match rule {
        Rule::ServeWithoutWhen(p) => Ok(rule_eval_view(
            true,
            "Serve rule without when clause - always matches"@,
            payload_value(p, a),
            "serve"@,
            None,
            None,
        )),
        Rule::ServeWithWhen(w, p) => match spec_eval_bool(w, a, user, ctx, t) {
            Err(m) => Err(m),
            Ok(b) => Ok(rule_eval_view(
                b,
                if b { "When clause evaluated to true"@ } else { "When clause evaluated to false"@ },
                if b { payload_value(p, a) } else { None },
                "serve"@,
                Some(spec_format_expression(w, a, 0)),
                Some(b),
            )),
        },
        Rule::VariationsWithoutWhen(vs) => {
            let v = str_view_opt(spec_select_variation(vs@, a, user));
            Ok(rule_eval_view(
                v is Some,
                "Variations rule without when clause - always matches"@,
                v,
                "variations"@,
                None,
                None,
            ))
        },
        Rule::VariationsWithWhen(w, vs) => match spec_eval_bool(w, a, user, ctx, t) {
            Err(m) => Err(m),
            Ok(b) => {
                let v = if b { str_view_opt(spec_select_variation(vs@, a, user)) } else { None };
                Ok(rule_eval_view(
                    b && v is Some,
                    if b { "When clause evaluated to true, variation selected"@ } else { "When clause evaluated to false"@ },
                    v,
                    "variations"@,
                    Some(spec_format_expression(w, a, 0)),
                    Some(b),
                ))
            },
        },
        Rule::RolloutWithoutWhen(p) => {
            let m = spec_select_rollout(user, p.percentage);
            Ok(rule_eval_view(
                m,
                "Rollout rule: "@ + decimal(p.percentage as nat) + "% chance, "@ + selected_text(m),
                if m { rollout_value(p.value_index, a) } else { None },
                "rollout"@,
                None,
                None,
            ))
        },
        Rule::RolloutWithWhen(w, p) => match spec_eval_bool(w, a, user, ctx, t) {
            Err(e) => Err(e),
            Ok(b) => {
                let m = b && spec_select_rollout(user, p.percentage);
                Ok(rule_eval_view(
                    m,
                    "When clause: "@ + bool_text(b) + ", Rollout: "@ + decimal(p.percentage as nat) + "% chance, "@
                        + selected_text(m),
                    if m { rollout_value(p.value_index, a) } else { None },
                    "rollout"@,
                    Some(spec_format_expression(w, a, 0)),
                    Some(b),
                ))
            },
        },
    }
}

fn payload_json(p: &ServePayload, artifact: &Artifact) -> (r: Option<JsonValue>)
    ensures
        opt_view(r) == payload_value(*p, artifact),
{
    match p {
        ServePayload::String(s) => Some(JsonValue::String(s.clone())),
        ServePayload::Number(i) => match table_string(artifact, *i as u64) {
            Some(s) => Some(JsonValue::String(s)),
            None => None,
        },
    }
}

fn rollout_json(v: &RolloutValue, artifact: &Artifact) -> (r: Option<JsonValue>)
    ensures
        opt_view(r) == rollout_value(*v, artifact),
{
    match v {
        RolloutValue::String(s) => Some(JsonValue::String(s.clone())),
        RolloutValue::Number(i) => match table_string(artifact, *i as u64) {
            Some(s) => Some(JsonValue::String(s)),
            None => None,
        },
    }
}

fn selected_str(b: bool) -> (r: &'static str)
    ensures
        r@ == selected_text(b),
{
    if b { "selected" } else { "not selected" }
}

fn bool_str(b: bool) -> (r: &'static str)
    ensures
        r@ == bool_text(b),
{
    if b { "true" } else { "false" }
}

pub open spec fn rule_step_view(r: Result<RuleEvaluation, NumericRequest>) -> Step<RuleEvaluationView> {
    match r {
        Ok(ev) => Ok(ev@),
        Err(q) => Err(request_view(q)),
    }
}

/// Evaluates one rule for the debug UI (see [`spec_rule_evaluation`]).
pub fn evaluate_rule_detailed(rule: &Rule, artifact: &Artifact, user: &JsonValue, context: &Option<JsonValue>, table: &Vec<NumericEntry>) -> (r: Result<RuleEvaluation, NumericRequest>)
    requires
        rule_fits(*rule),
    ensures
        rule_step_view(r) == spec_rule_evaluation(*rule, artifact, user@, opt_ref_view(context), table@),
{
    match rule {
        Rule::ServeWithoutWhen(p) => Ok(RuleEvaluation {
            index: 0,
            matched: true,
            reason: owned("Serve rule without when clause - always matches"),
            value: payload_json(p, artifact),
            rule_type: owned("serve"),
            when_clause: None,
            when_result: None,
        }),
        Rule::ServeWithWhen(w, p) => {
            let b = match evaluate_expression(w, artifact, user, context, table) {
                Err(q) => return Err(q),
                Ok(b) => b,
            };
            let value = if b { payload_json(p, artifact) } else { None };
            Ok(RuleEvaluation {
                index: 0,
                matched: b,
                reason: if b { owned("When clause evaluated to true") } else { owned("When clause evaluated to false") },
                value,
                rule_type: owned("serve"),
                when_clause: Some(format_expression(w, artifact, 0)),
                when_result: Some(b),
            })
        },
        Rule::VariationsWithoutWhen(vs) => {
            let v = select_variation(vs.as_slice(), artifact, user);
            let m = v.is_some();
            Ok(RuleEvaluation {
                index: 0,
                matched: m,
                reason: owned("Variations rule without when clause - always matches"),
                value: v,
                rule_type: owned("variations"),
                when_clause: None,
                when_result: None,
            })
        },
        Rule::VariationsWithWhen(w, vs) => {
            let b = match evaluate_expression(w, artifact, user, context, table) {
                Err(q) => return Err(q),
                Ok(b) => b,
            };
            let v = if b { select_variation(vs.as_slice(), artifact, user) } else { None };
            let m = b && v.is_some();
            Ok(RuleEvaluation {
                index: 0,
                matched: m,
                reason: if b { owned("When clause evaluated to true, variation selected") } else { owned("When clause evaluated to false") },
                value: v,
                rule_type: owned("variations"),
                when_clause: Some(format_expression(w, artifact, 0)),
                when_result: Some(b),
            })
        },
        Rule::RolloutWithoutWhen(p) => {
            let m = select_rollout(user, p.percentage);
            let mut reason = owned("Rollout rule: ");
            write_decimal(&mut reason, p.percentage as u64);
            push_text(&mut reason, "% chance, ");
            push_text(&mut reason, selected_str(m));
            Ok(RuleEvaluation {
                index: 0,
                matched: m,
                reason,
                value: if m { rollout_json(&p.value_index, artifact) } else { None },
                rule_type: owned("rollout"),
                when_clause: None,
                when_result: None,
            })
        },
        Rule::RolloutWithWhen(w, p) => {
            let b = match evaluate_expression(w, artifact, user, context, table) {
                Err(q) => return Err(q),
                Ok(b) => b,
            };
            let m = b && select_rollout(user, p.percentage);
            let mut reason = owned("When clause: ");
            push_text(&mut reason, bool_str(b));
            push_text(&mut reason, ", Rollout: ");
            write_decimal(&mut reason, p.percentage as u64);
            push_text(&mut reason, "% chance, ");
            push_text(&mut reason, selected_str(m));
            Ok(RuleEvaluation {
                index: 0,
                matched: m,
                reason,
                value: if m { rollout_json(&p.value_index, artifact) } else { None },
                rule_type: owned("rollout"),
                when_clause: Some(format_expression(w, artifact, 0)),
                when_result: Some(b),
            })
        },
    }
}

// ---------------------------------------------------------------------------
// A whole flag
// ---------------------------------------------------------------------------

/// What the debug UI answers for a flag: every rule's evaluation, the first
/// matching rule and its value.
#[derive(Debug)]
pub struct EvaluationResult {
    pub flag: String,
    pub value: Option<JsonValue>,
    pub matched_rule: Option<usize>,
    pub rules: Vec<RuleEvaluation>,
    pub environment: String,
}

pub struct EvaluationResultView {
    pub flag: Seq<char>,
    pub value: Option<JsonView>,
    pub matched_rule: Option<int>,
    pub rules: Seq<RuleEvaluationView>,
    pub environment: Seq<char>,
}

pub open spec fn evaluations_view(s: Seq<RuleEvaluation>) -> Seq<RuleEvaluationView> {
    s.map_values(|e: RuleEvaluation| e@)
}

pub open spec fn opt_index_view(i: Option<usize>) -> Option<int> {
    match i {
        Some(x) => Some(x as int),
        None => None,
    }
}

impl View for EvaluationResult {
    type V = EvaluationResultView;

    open spec fn view(&self) -> EvaluationResultView {
        EvaluationResultView {
            flag: self.flag@,
            value: opt_view(self.value),
            matched_rule: opt_index_view(self.matched_rule),
            rules: evaluations_view(self.rules@),
            environment: self.environment@,
        }
    }
}

/// A request the debug UI refuses: an unknown flag (not found) or input that is
/// not a JSON object (bad request).
#[derive(Debug)]
pub enum EvaluateError {
    NotFound(String),
    BadRequest(String),
}

pub enum EvaluateErrorView {
    NotFound(Seq<char>),
    BadRequest(Seq<char>),
}

impl View for EvaluateError {
    type V = EvaluateErrorView;

    open spec fn view(&self) -> EvaluateErrorView {
        match self {
            EvaluateError::NotFound(m) => EvaluateErrorView::NotFound(m@),
            EvaluateError::BadRequest(m) => EvaluateErrorView::BadRequest(m@),
        }
    }
}

/// A flag evaluation: complete, or waiting for a comparison the table lacks.
#[derive(Debug)]
pub enum FlagEvaluation {
    Complete(EvaluationResult),
    NeedsComparison(NumericRequest),
}

pub enum FlagEvaluationView {
    Complete(EvaluationResultView),
    NeedsComparison(JsonView, JsonView),
}

impl View for FlagEvaluation {
    type V = FlagEvaluationView;

    open spec fn view(&self) -> FlagEvaluationView {
        match self {
            FlagEvaluation::Complete(r) => FlagEvaluationView::Complete(r@),
            FlagEvaluation::NeedsComparison(q) => FlagEvaluationView::NeedsComparison(q.left@, q.right@),
        }
    }
}

pub open spec fn with_index(ev: RuleEvaluationView, i: int) -> RuleEvaluationView {
    RuleEvaluationView {
        index: i,
        matched: ev.matched,
        reason: ev.reason,
        value: ev.value,
        rule_type: ev.rule_type,
        when_clause: ev.when_clause,
        when_result: ev.when_result,
    }
}

pub open spec fn mark_matched(ev: RuleEvaluationView) -> RuleEvaluationView {
    RuleEvaluationView {
        index: ev.index,
        matched: true,
        reason: ev.reason,
        value: ev.value,
        rule_type: ev.rule_type,
        when_clause: ev.when_clause,
        when_result: ev.when_result,
    }
}

/// Every rule evaluated in order, each carrying its position.
pub open spec fn spec_rule_evaluations(rules: Seq<Rule>, a: &Artifact, user: JsonView, ctx: Option<JsonView>, t: Seq<NumericEntry>) -> Step<Seq<RuleEvaluationView>>
    decreases rules.len(),
{
    if rules.len() == 0 {
        Ok(seq![])
    } else {
        match spec_rule_evaluations(rules.drop_last(), a, user, ctx, t) {
            Err(m) => Err(m),
            Ok(prev) => match spec_rule_evaluation(rules.last(), a, user, ctx, t) {
                Err(m) => Err(m),
                Ok(ev) => Ok(prev.push(with_index(ev, prev.len() as int))),
            },
        }
    }
}

/// Position of the first evaluation that matched.
pub open spec fn first_matched(evals: Seq<RuleEvaluationView>) -> Option<int>
    decreases evals.len(),
{
    if evals.len() == 0 {
        None
    } else {
        match first_matched(evals.drop_last()) {
            Some(i) => Some(i),
            None => if evals.last().matched { Some(evals.len() - 1) } else { None },
        }
    }
}

/// The answer built from the evaluations: the first matching rule gives the
/// value; when none matched, the last rule (the compiler's default) does and is
/// shown as matched.
pub open spec fn finish_evaluation(flag: Seq<char>, evals: Seq<RuleEvaluationView>, env: Seq<char>) -> EvaluationResultView {
    match first_matched(evals) {
        Some(i) => EvaluationResultView { flag, value: evals[i].value, matched_rule: Some(i), rules: evals, environment: env },
        None => if evals.len() == 0 {
            EvaluationResultView { flag, value: None, matched_rule: None, rules: evals, environment: env }
        } else {
            let last = evals.len() - 1;
            EvaluationResultView {
                flag,
                value: evals[last].value,
                matched_rule: Some(last),
                rules: evals.update(last, mark_matched(evals[last])),
                environment: env,
            }
        },
    }
}

/// `i` is the first position whose flag name is `name`.
pub open spec fn is_first_flag(a: &Artifact, name: Seq<char>, i: int) -> bool {
    &&& 0 <= i < a.flag_names@.len()
    &&& flag_name_at(a, i) == Some(name)
    &&& forall|j: int| 0 <= j < i ==> flag_name_at(a, j) != Some(name)
}

pub open spec fn has_flag(a: &Artifact, name: Seq<char>) -> bool {
    exists|i: int| 0 <= i < a.flag_names@.len() && flag_name_at(a, i) == Some(name)
}

pub open spec fn is_object(v: JsonView) -> bool {
    v is Object
}

/// Every variation rule of the artifact fits (see [`rule_fits`]).
pub open spec fn artifact_fits(a: &Artifact) -> bool {
    forall|f: int, k: int| 0 <= f < a.flags@.len() && 0 <= k < a.flags@[f]@.len() ==> rule_fits(#[trigger] a.flags@[f]@[k])
}

/// Whether the percentages of a list of variations add up to at most 255.
fn percentages_fit(vs: &Vec<Variation>) -> (r: bool)
    ensures
        r == (pct_sum(vs@) <= 255),
{
    let mut sum: u32 = 0;
    let mut i: usize = 0;
    while i < vs.len()
        invariant
            i <= vs@.len(),
            sum == pct_sum(vs@.take(i as int)),
            sum <= 255,
        decreases vs@.len() - i,
    {
        proof {
            assert(vs@.take(i + 1).drop_last() =~= vs@.take(i as int));
        }
        sum = sum + vs[i].percentage as u32;
        if sum > 255 {
            proof {
                lemma_pct_sum_prefix(vs@, i + 1);
            }
            return false;
        }
        i = i + 1;
    }
    proof {
        assert(vs@.take(vs@.len() as int) =~= vs@);
    }
    true
}

/// A longer list of variations never has a smaller percentage sum.
proof fn lemma_pct_sum_prefix(vs: Seq<Variation>, n: int)
    requires
        0 <= n <= vs.len(),
    ensures
        pct_sum(vs.take(n)) <= pct_sum(vs),
    decreases vs.len() - n,
{
    if n < vs.len() {
        lemma_pct_sum_prefix(vs, n + 1);
        assert(vs.take(n + 1).drop_last() =~= vs.take(n));
    } else {
        assert(vs.take(n) =~= vs);
    }
}

/// Tells whether every variation rule of the artifact fits (see [`artifact_fits`]).
pub fn artifact_within_limits(artifact: &Artifact) -> (r: bool)
    ensures
        r == artifact_fits(artifact),
{
    let mut f: usize = 0;
    while f < artifact.flags.len()
        invariant
            f <= artifact.flags@.len(),
            forall|g: int, k: int| 0 <= g < f && 0 <= k < artifact.flags@[g]@.len() ==> rule_fits(#[trigger] artifact.flags@[g]@[k]),
        decreases artifact.flags@.len() - f,
    {
        let rules = &artifact.flags[f];
        let mut k: usize = 0;
        while k < rules.len()
            invariant
                f < artifact.flags@.len(),
                rules@ == artifact.flags@[f as int]@,
                k <= rules@.len(),
                forall|g: int, j: int| 0 <= g < f && 0 <= j < artifact.flags@[g]@.len() ==> rule_fits(#[trigger] artifact.flags@[g]@[j]),
                forall|j: int| 0 <= j < k ==> rule_fits(#[trigger] artifact.flags@[f as int]@[j]),
            decreases rules@.len() - k,
        {
            let ok = match &rules[k] {
                Rule::VariationsWithoutWhen(vs) => percentages_fit(vs),
                Rule::VariationsWithWhen(_, vs) => percentages_fit(vs),
                _ => true,
            };
            if !ok {
                proof {
                    assert(!rule_fits(artifact.flags@[f as int]@[k as int]));
                }
                return false;
            }
            k = k + 1;
        }
        f = f + 1;
    }
    true
}

/// The debug UI's answer to a request for `flag` with an optional user and context.
pub open spec fn spec_evaluate_flag(a: &Artifact, flag: Seq<char>, user: Option<JsonView>, ctx: Option<JsonView>, t: Seq<NumericEntry>) -> Result<FlagEvaluationView, EvaluateErrorView> {
    if !has_flag(a, flag) {
        Err(EvaluateErrorView::NotFound("Flag '"@ + flag + "' not found"@))
    } else {
        let i = choose|i: int| is_first_flag(a, flag, i);
        if i >= a.flags@.len() {
            Err(EvaluateErrorView::NotFound("Flag '"@ + flag + "' has no rules"@))
        } else if user matches Some(u) && !is_object(u) {
            Err(EvaluateErrorView::BadRequest("User must be a JSON object"@))
        } else if ctx matches Some(c) && !is_object(c) {
            Err(EvaluateErrorView::BadRequest("Context must be a JSON object"@))
        } else {
            let u = match user {
                Some(u) => u,
                None => JsonView::Object(seq![]),
            };
            match spec_rule_evaluations(a.flags@[i]@, a, u, ctx, t) {
                Err(m) => Ok(FlagEvaluationView::NeedsComparison(m.0, m.1)),
                Ok(evals) => Ok(FlagEvaluationView::Complete(finish_evaluation(flag, evals, a.environment@))),
            }
        }
    }
}

pub open spec fn flag_result_view(r: Result<FlagEvaluation, EvaluateError>) -> Result<FlagEvaluationView, EvaluateErrorView> {
    match r {
        Ok(v) => Ok(v@),
        Err(e) => Err(e@),
    }
}

proof fn lemma_first_flag_unique(a: &Artifact, name: Seq<char>, i: int, j: int)
    requires
        is_first_flag(a, name, i),
        is_first_flag(a, name, j),
    ensures
        i == j,
{
}

/// An evaluation that stopped at a prefix of the rules stops the whole list.
proof fn lemma_rule_evaluations_stop(rules: Seq<Rule>, k: int, a: &Artifact, user: JsonView, ctx: Option<JsonView>, t: Seq<NumericEntry>)
    requires
        0 <= k <= rules.len(),
        spec_rule_evaluations(rules.take(k), a, user, ctx, t) is Err,
    ensures
        spec_rule_evaluations(rules, a, user, ctx, t) == spec_rule_evaluations(rules.take(k), a, user, ctx, t),
    decreases rules.len() - k,
{
    if k < rules.len() {
        assert(rules.take(k + 1).drop_last() =~= rules.take(k));
        lemma_rule_evaluations_stop(rules, k + 1, a, user, ctx, t);
    } else {
        assert(rules.take(k) =~= rules);
    }
}

fn flag_message(flag: &str, tail: &str) -> (r: String)
    ensures
        r@ == "Flag '"@ + flag@ + tail@,
{
    let mut m = owned("Flag '");
    push_text(&mut m, flag);
    push_text(&mut m, tail);
    m
}

fn copy_opt(v: &Option<JsonValue>) -> (r: Option<JsonValue>)
    ensures
        opt_view(r) == opt_view(*v),
{
    match v {
        Some(x) => Some(copy_value(x)),
        None => None,
    }
}

/// Evaluates every rule of a flag for a user and context and picks the first
/// matching one (see [`spec_evaluate_flag`]).
#[verifier::rlimit(30)]
#[verifier::loop_isolation(false)]
pub fn evaluate_flag(artifact: &Artifact, flag: &str, user: Option<JsonValue>, context: Option<JsonValue>, table: &Vec<NumericEntry>) -> (r: Result<FlagEvaluation, EvaluateError>)
    requires
        artifact_fits(artifact),
    ensures
        flag_result_view(r) == spec_evaluate_flag(artifact, flag@, opt_view(user), opt_view(context), table@),
{
    let flag_index = match find_flag_index(artifact, flag) {
        Some(i) => i,
        None => return Err(EvaluateError::NotFound(flag_message(flag, "' not found"))),
    };
    proof {
        assert(is_first_flag(artifact, flag@, flag_index as int));
        let c = choose|i: int| is_first_flag(artifact, flag@, i);
        lemma_first_flag_unique(artifact, flag@, c, flag_index as int);
    }
    if flag_index >= artifact.flags.len() {
        return Err(EvaluateError::NotFound(flag_message(flag, "' has no rules")));
    }
    let user_value = match user {
        Some(u) => {
            if !matches!(u, JsonValue::Object(_)) {
                return Err(EvaluateError::BadRequest(owned("User must be a JSON object")));
            }
            u
        },
        None => JsonValue::Object(Vec::new()),
    };
    match &context {
        Some(c) => {
            if !matches!(c, JsonValue::Object(_)) {
                return Err(EvaluateError::BadRequest(owned("Context must be a JSON object")));
            }
        },
        None => {},
    }
    proof {
        if user is None {
            assert(user_value@ == JsonView::Object(seq![]));
        }
    }
    let rules = &artifact.flags[flag_index];
    let ghost u = user_value@;
    let ghost ctx = opt_ref_view(&context);
    let mut evals: Vec<RuleEvaluation> = Vec::new();
    let mut k: usize = 0;
    proof {
        assert(rules@.take(0) =~= seq![]);
        assert(evaluations_view(evals@) =~= seq![]);
    }
    while k < rules.len()
        invariant
            k <= rules@.len(),
            rules == &artifact.flags@[flag_index as int],
            flag_index < artifact.flags@.len(),
            artifact_fits(artifact),
            u == user_value@,
            ctx == opt_ref_view(&context),
            spec_rule_evaluations(rules@.take(k as int), artifact, u, ctx, table@) == Ok::<Seq<RuleEvaluationView>, (JsonView, JsonView)>(evaluations_view(evals@)),
            evals@.len() == k,
        decreases rules@.len() - k,
    {
        proof {
            assert(rules@.take(k + 1).drop_last() =~= rules@.take(k as int));
            assert(rules@.take(k + 1).last() == rules@[k as int]);
            assert(rule_fits(artifact.flags@[flag_index as int]@[k as int]));
        }
        match evaluate_rule_detailed(&rules[k], artifact, &user_value, &context, table) {
            Err(q) => {
                proof {
                    let t = rules@.take(k + 1);
                    assert(spec_rule_evaluations(t, artifact, u, ctx, table@) == Err::<Seq<RuleEvaluationView>, (JsonView, JsonView)>(request_view(q)));
                    lemma_rule_evaluations_stop(rules@, k + 1, artifact, u, ctx, table@);
                }
                return Ok(FlagEvaluation::NeedsComparison(q));
            },
            Ok(ev) => {
                let ghost prev = evals@;
                let ev = RuleEvaluation { index: k, ..ev };
                evals.push(ev);
                proof {
                    assert(evals@.drop_last() =~= prev);
                    assert(evaluations_view(evals@) =~= evaluations_view(prev).push(evals@.last()@));
                }
            },
        }
        k = k + 1;
    }
    proof {
        assert(rules@.take(rules@.len() as int) =~= rules@);
    }
    let ghost ev_view = evaluations_view(evals@);
    // The first matching rule.
    let mut j: usize = 0;
    let mut found: Option<usize> = None;
    proof {
        assert(ev_view.take(0) =~= seq![]);
    }
    while j < evals.len() && found.is_none()
        invariant
            j <= evals@.len(),
            ev_view == evaluations_view(evals@),
            found is None ==> first_matched(ev_view.take(j as int)) is None,
            found matches Some(i) ==> first_matched(ev_view) == Some(i as int) && i < evals@.len(),
        decreases evals@.len() - j + (if found is None { 1int } else { 0int }),
    {
        proof {
            assert(ev_view.take(j + 1).drop_last() =~= ev_view.take(j as int));
        }
        if evals[j].matched {
            proof {
                lemma_first_matched_prefix(ev_view, j as int + 1);
            }
            found = Some(j);
        } else {
            j = j + 1;
        }
    }
    proof {
        if found is None {
            assert(ev_view.take(evals@.len() as int) =~= ev_view);
        }
    }
    let (matched_rule, value) = match found {
        Some(i) => (Some(i), copy_opt(&evals[i].value)),
        None => {
            if evals.len() == 0 {
                (None, None)
            } else {
                let last = evals.len() - 1;
                let mut last_eval = evals.pop().unwrap();
                last_eval.matched = true;
                let v = copy_opt(&last_eval.value);
                let ghost before = evals@;
                evals.push(last_eval);
                proof {
                    assert(evaluations_view(evals@) =~= ev_view.update(last as int, mark_matched(ev_view[last as int])));
                }
                (Some(last), v)
            }
        },
    };
    let result = EvaluationResult {
        flag: owned(flag),
        value,
        matched_rule,
        rules: evals,
        environment: artifact.environment.clone(),
    };
    Ok(FlagEvaluation::Complete(result))
}

/// When a prefix already has a match, the whole list has the same first match.
proof fn lemma_first_matched_prefix(evals: Seq<RuleEvaluationView>, k: int)
    requires
        0 <= k <= evals.len(),
        first_matched(evals.take(k)) is Some,
    ensures
        first_matched(evals) == first_matched(evals.take(k)),
    decreases evals.len() - k,
{
    if k < evals.len() {
        assert(evals.take(k + 1).drop_last() =~= evals.take(k));
        lemma_first_matched_prefix(evals, k + 1);
    } else {
        assert(evals.take(k) =~= evals);
    }
}

/// `first_matched` finds a matching evaluation with none matching before it.
pub proof fn lemma_first_matched(evals: Seq<RuleEvaluationView>)
    ensures
        first_matched(evals) matches Some(i) ==> 0 <= i < evals.len() && evals[i].matched
            && forall|j: int| 0 <= j < i ==> !evals[j].matched,
        first_matched(evals) is None ==> forall|j: int| 0 <= j < evals.len() ==> !evals[j].matched,
    decreases evals.len(),
{
    if evals.len() > 0 {
        let d = evals.drop_last();
        lemma_first_matched(d);
        assert(forall|j: int| 0 <= j < d.len() ==> d[j] == evals[j]);
    }
}

/// The answer for a flag serves the first rule whose evaluation matched, with
/// none matching before it; when none matched, the last rule (the compiler's
/// default) is served and shown as matched. An answer has a served rule exactly
/// when the flag has rules, and it lists one evaluation per rule.
pub proof fn law_first_match_served(flag: Seq<char>, evals: Seq<RuleEvaluationView>, env: Seq<char>)
    ensures
        (finish_evaluation(flag, evals, env).matched_rule is None) == (evals.len() == 0),
        finish_evaluation(flag, evals, env).rules.len() == evals.len(),
        finish_evaluation(flag, evals, env).matched_rule matches Some(i) ==> {
            let r = finish_evaluation(flag, evals, env);
            &&& 0 <= i < evals.len()
            &&& r.rules[i].matched
            &&& r.value == evals[i].value
            &&& (evals[i].matched ==> forall|j: int| 0 <= j < i ==> !evals[j].matched)
            &&& (!evals[i].matched ==> i == evals.len() - 1 && forall|j: int| 0 <= j < evals.len() ==> !evals[j].matched)
        },
{
    lemma_first_matched(evals);
}

/// Every rule of a flag is evaluated, in order, and each evaluation carries its position.
pub proof fn law_every_rule_evaluated(rules: Seq<Rule>, a: &Artifact, user: JsonView, ctx: Option<JsonView>, t: Seq<NumericEntry>)
    ensures
        spec_rule_evaluations(rules, a, user, ctx, t) matches Ok(evals) ==> evals.len() == rules.len()
            && forall|i: int| 0 <= i < evals.len() ==> evals[i].index == i,
    decreases rules.len(),
{
    if rules.len() > 0 {
        law_every_rule_evaluated(rules.drop_last(), a, user, ctx, t);
    }
}

} // verus!
