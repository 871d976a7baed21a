use controlpath_cli::commands::debug::{
    coerce_to_boolean, determine_ast_path, evaluate_binary_op, evaluate_function, evaluate_logical_op,
    find_flag_index, format_expression, get_property, hash_string, list_flags, select_rollout, select_variation,
    Artifact, Expression, Options, Rule, ServePayload, Variation, FUNC_CONTAINS, FUNC_IN, FUNC_LENGTH, FUNC_LOWER,
    FUNC_MATCHES, FUNC_STARTS_WITH, FUNC_UPPER, LOGIC_AND, LOGIC_NOT, LOGIC_OR, OP_EQ, OP_GT, OP_NE,
};
use controlpath_cli::commands::debug::NumericComparison;
use controlpath_cli::commands::evaluation::{
    artifact_within_limits, evaluate_flag, evaluate_rule_detailed, EvaluateError, EvaluationResult, FlagEvaluation, NumericEntry,
};
use controlpath_cli::json::{copy_value, JsonNumber, JsonValue};

fn text(s: &str) -> JsonValue {
    JsonValue::String(s.to_string())
}

fn object(pairs: Vec<(&str, JsonValue)>) -> JsonValue {
    let mut entries: Vec<(String, JsonValue)> = pairs.into_iter().map(|(k, v)| (k.to_string(), v)).collect();
    entries.sort_by(|a, b| a.0.cmp(&b.0));
    JsonValue::Object(entries)
}

fn table_artifact(strings: &[&str], flags: Vec<Vec<Rule>>, names: Vec<u32>) -> Artifact {
    Artifact {
        version: "1.0".to_string(),
        environment: "test".to_string(),
        string_table: strings.iter().map(|s| s.to_string()).collect(),
        flags,
        flag_names: names,
        signature: None,
    }
}

#[test]
fn test_find_flag_index() {
    let artifact = table_artifact(&["test_flag", "other_flag"], vec![vec![], vec![]], vec![0, 1]);
    assert_eq!(find_flag_index(&artifact, "test_flag"), Some(0));
    assert_eq!(find_flag_index(&artifact, "other_flag"), Some(1));
    assert_eq!(find_flag_index(&artifact, "nonexistent"), None);
}

#[test]
fn test_get_property_from_user() {
    let user = object(vec![("id", text("user-1")), ("role", text("admin"))]);
    let context = None;
    assert_eq!(get_property("user.id", &user, &context), Some(text("user-1")));
    assert_eq!(get_property("user.role", &user, &context), Some(text("admin")));
}

#[test]
fn test_get_property_prototype_pollution_protection() {
    let user = object(vec![("id", text("user-1"))]);
    let context = None;
    assert_eq!(get_property("__proto__", &user, &context), None);
    assert_eq!(get_property("constructor", &user, &context), None);
    assert_eq!(get_property("prototype", &user, &context), None);
    assert_eq!(get_property("user.__proto__", &user, &context), None);
}

#[test]
fn get_property_reads_context_paths() {
    let user = object(vec![("id", text("u"))]);
    let context = Some(object(vec![("device", object(vec![("os", text("ios"))]))]));
    assert_eq!(get_property("context.device.os", &user, &context), Some(text("ios")));
    assert_eq!(get_property("context.device.missing", &user, &context), None);
}

#[test]
fn test_evaluate_binary_op_equality() {
    assert_eq!(evaluate_binary_op(OP_EQ, &text("test"), &text("test"), None), Some(JsonValue::Bool(true)));
    assert_eq!(evaluate_binary_op(OP_EQ, &text("test"), &text("other"), None), Some(JsonValue::Bool(false)));
}

#[test]
fn test_evaluate_binary_op_null_comparison() {
    assert_eq!(evaluate_binary_op(OP_EQ, &JsonValue::Null, &JsonValue::Null, None), Some(JsonValue::Bool(true)));
    assert_eq!(evaluate_binary_op(OP_EQ, &JsonValue::Null, &text("test"), None), Some(JsonValue::Bool(false)));
}

#[test]
fn binary_op_uses_numeric_comparison_when_given() {
    let l = JsonValue::Number(JsonNumber::PosInt(3));
    let r = JsonValue::Number(JsonNumber::PosInt(2));
    let greater = NumericComparison { equal: false, sign: 1 };
    assert_eq!(evaluate_binary_op(OP_GT, &l, &r, Some(greater)), Some(JsonValue::Bool(true)));
    assert_eq!(evaluate_binary_op(OP_NE, &l, &r, Some(greater)), Some(JsonValue::Bool(true)));
}

#[test]
fn test_evaluate_logical_op_and() {
    let t = JsonValue::Bool(true);
    let f = JsonValue::Bool(false);
    assert_eq!(evaluate_logical_op(LOGIC_AND, &t, &t), Some(JsonValue::Bool(true)));
    assert_eq!(evaluate_logical_op(LOGIC_AND, &t, &f), Some(JsonValue::Bool(false)));
}

#[test]
fn test_evaluate_logical_op_or() {
    let t = JsonValue::Bool(true);
    let f = JsonValue::Bool(false);
    assert_eq!(evaluate_logical_op(LOGIC_OR, &f, &t), Some(JsonValue::Bool(true)));
    assert_eq!(evaluate_logical_op(LOGIC_OR, &f, &f), Some(JsonValue::Bool(false)));
}

#[test]
fn test_coerce_to_boolean() {
    assert_eq!(coerce_to_boolean(&JsonValue::Bool(true)), Some(true));
    assert_eq!(coerce_to_boolean(&JsonValue::Bool(false)), Some(false));
    assert_eq!(coerce_to_boolean(&text("true")), Some(true));
    assert_eq!(coerce_to_boolean(&text("false")), Some(false));
    assert_eq!(coerce_to_boolean(&JsonValue::Number(JsonNumber::PosInt(1))), Some(true));
    assert_eq!(coerce_to_boolean(&JsonValue::Number(JsonNumber::PosInt(0))), Some(false));
}

#[test]
fn test_hash_string() {
    let hash1 = hash_string("test");
    let hash2 = hash_string("test");
    assert_eq!(hash1, hash2);
    let hash3 = hash_string("other");
    assert_ne!(hash1, hash3);
}

#[test]
fn hash_string_is_djb2_over_utf8_bytes() {
    // 5381 * 33 + 'a' (97)
    assert_eq!(hash_string("a"), 177670);
    assert_eq!(hash_string(""), 5381);
}

#[test]
fn test_select_rollout() {
    let user = object(vec![("id", text("user-123"))]);
    assert!(select_rollout(&user, 100));
    assert!(!select_rollout(&user, 0));
    let result1 = select_rollout(&user, 50);
    let result2 = select_rollout(&user, 50);
    assert_eq!(result1, result2);
}

#[test]
fn rollout_grows_monotonically() {
    let user = object(vec![("id", text("someone"))]);
    let mut inside = false;
    for pct in 0..=100u8 {
        let now = select_rollout(&user, pct);
        assert!(!inside || now, "left the rollout at {pct}%");
        inside = now;
    }
    assert!(inside);
}

#[test]
fn select_variation_picks_by_bucket() {
    let artifact = table_artifact(&["A", "B"], vec![], vec![]);
    let user = object(vec![("id", text("user-1"))]);
    let all_to_b = vec![Variation { var_index: 0, percentage: 0 }, Variation { var_index: 1, percentage: 100 }];
    assert_eq!(select_variation(&all_to_b, &artifact, &user), Some(text("B")));
    let none: Vec<Variation> = vec![];
    assert_eq!(select_variation(&none, &artifact, &user), None);
}

#[test]
fn test_determine_ast_path_with_ast() {
    let options = Options { port: None, env: None, ast: Some("test.ast".to_string()), open: false };
    assert_eq!(determine_ast_path(&options, false, None).unwrap(), "test.ast");
}

#[test]
fn test_determine_ast_path_with_env() {
    let options = Options { port: None, env: Some("production".to_string()), ast: None, open: false };
    assert_eq!(determine_ast_path(&options, false, None).unwrap(), ".controlpath/production.ast");
}

#[test]
fn determine_ast_path_without_any_artifact_fails() {
    let options = Options { port: None, env: None, ast: None, open: false };
    let err = determine_ast_path(&options, false, None).unwrap_err();
    assert!(err.message().contains("Either --ast <file> or --env <env> must be provided"));
    assert_eq!(determine_ast_path(&options, true, None).unwrap(), ".controlpath/production.ast");
}

#[test]
fn test_evaluate_rule_detailed_serve_without_when() {
    let artifact = table_artifact(&["ON"], vec![], vec![]);
    let user = object(vec![("id", text("user-1"))]);
    let rule = Rule::ServeWithoutWhen(ServePayload::Number(0));
    let table: Vec<NumericEntry> = vec![];
    let eval = evaluate_rule_detailed(&rule, &artifact, &user, &None, &table).unwrap();
    assert!(eval.matched);
    assert_eq!(eval.rule_type, "serve");
    assert_eq!(eval.value, Some(text("ON")));
}

#[test]
fn functions_evaluate_on_strings_and_arrays() {
    assert_eq!(evaluate_function(FUNC_STARTS_WITH, &vec![Some(text("Hello World")), Some(text("Hello"))]), Some(JsonValue::Bool(true)));
    assert_eq!(evaluate_function(FUNC_CONTAINS, &vec![Some(text("Hello World")), Some(text("lo W"))]), Some(JsonValue::Bool(true)));
    assert_eq!(evaluate_function(FUNC_UPPER, &vec![Some(text("Hello World"))]), Some(text("HELLO WORLD")));
    assert_eq!(evaluate_function(FUNC_LOWER, &vec![Some(text("Hello World"))]), Some(text("hello world")));
    assert_eq!(evaluate_function(FUNC_LENGTH, &vec![Some(text("Hello World"))]), Some(JsonValue::Number(JsonNumber::PosInt(11))));
    let list = Some(JsonValue::Array(vec![text("a"), text("b")]));
    assert_eq!(evaluate_function(FUNC_IN, &vec![Some(text("b")), list]), Some(JsonValue::Bool(true)));
}

#[test]
fn matches_function_uses_regular_expressions() {
    assert_eq!(
        evaluate_function(FUNC_MATCHES, &vec![Some(text("user-42")), Some(text("^user-[0-9]+$"))]),
        Some(JsonValue::Bool(true))
    );
    assert_eq!(
        evaluate_function(FUNC_MATCHES, &vec![Some(text("admin")), Some(text("^user-"))]),
        Some(JsonValue::Bool(false))
    );
}

#[test]
fn format_expression_renders_operators() {
    let artifact = table_artifact(&["user.role"], vec![], vec![]);
    let expr = Expression::BinaryOp {
        op_code: OP_EQ,
        left: Box::new(Expression::Property { prop_index: 0 }),
        right: Box::new(Expression::Literal { value: text("admin") }),
    };
    let shown = format_expression(&expr, &artifact, 0);
    assert!(shown.contains("user.role"));
    assert!(shown.contains("admin"));
    let not = Expression::LogicalOp { op_code: LOGIC_NOT, left: Box::new(expr), right: None };
    assert!(format_expression(&not, &artifact, 0).starts_with("!("));
}

#[test]
fn list_flags_names_each_flag() {
    let artifact = table_artifact(&["a", "b"], vec![vec![], vec![]], vec![0, 1]);
    let flags = list_flags(&artifact);
    assert_eq!(flags.len(), 2);
    assert_eq!(flags[0].name, "a");
    assert_eq!(flags[1].index, 1);
}

fn as_number(v: &JsonValue) -> Option<f64> {
    match v {
        JsonValue::Number(JsonNumber::PosInt(n)) => Some(*n as f64),
        JsonValue::Number(JsonNumber::NegInt(n)) => Some(*n as f64),
        JsonValue::Number(JsonNumber::Float { bits, .. }) => Some(f64::from_bits(*bits)),
        JsonValue::String(s) => s.parse::<f64>().ok(),
        JsonValue::Bool(b) => Some(if *b { 1.0 } else { 0.0 }),
        _ => None,
    }
}

/// Evaluates a flag, answering each numeric comparison the library asks for.
fn evaluate_answering(artifact: &Artifact, flag: &str, user: &JsonValue) -> (EvaluationResult, usize) {
    let mut table: Vec<NumericEntry> = vec![];
    loop {
        match evaluate_flag(artifact, flag, Some(copy_value(user)), None, &table).unwrap() {
            FlagEvaluation::Complete(r) => return (r, table.len()),
            FlagEvaluation::NeedsComparison(q) => {
                let outcome = match (as_number(&q.left), as_number(&q.right)) {
                    (Some(a), Some(b)) => Some(NumericComparison {
                        equal: a == b,
                        sign: (a - b).signum() as i8,
                    }),
                    _ => None,
                };
                table.push(NumericEntry { left: q.left, right: q.right, outcome });
            },
        }
    }
}

#[test]
fn evaluate_flag_serves_first_matching_rule() {
    let when = Expression::BinaryOp {
        op_code: OP_EQ,
        left: Box::new(Expression::Property { prop_index: 1 }),
        right: Box::new(Expression::Literal { value: text("admin") }),
    };
    let rules = vec![
        Rule::ServeWithWhen(when, ServePayload::Number(2)),
        Rule::ServeWithoutWhen(ServePayload::Number(3)),
    ];
    let artifact = table_artifact(&["flag", "user.role", "ON", "OFF"], vec![rules], vec![0]);
    let admin = object(vec![("id", text("u1")), ("role", text("admin"))]);
    let (r, asked) = evaluate_answering(&artifact, "flag", &admin);
    assert_eq!(r.value, Some(text("ON")));
    assert_eq!(r.matched_rule, Some(0));
    assert_eq!(r.rules.len(), 2);
    assert_eq!(asked, 1);
    let guest = object(vec![("id", text("u2")), ("role", text("guest"))]);
    let (r, _) = evaluate_answering(&artifact, "flag", &guest);
    assert_eq!(r.value, Some(text("OFF")));
    assert_eq!(r.matched_rule, Some(1));
}

#[test]
fn numeric_strings_compare_as_numbers() {
    let when = Expression::BinaryOp {
        op_code: OP_GT,
        left: Box::new(Expression::Property { prop_index: 1 }),
        right: Box::new(Expression::Literal { value: JsonValue::Number(JsonNumber::PosInt(9)) }),
    };
    let rules = vec![Rule::ServeWithWhen(when, ServePayload::Number(2)), Rule::ServeWithoutWhen(ServePayload::Number(3))];
    let artifact = table_artifact(&["flag", "user.age", "ON", "OFF"], vec![rules], vec![0]);
    let older = object(vec![("id", text("u")), ("age", text("10"))]);
    assert_eq!(evaluate_answering(&artifact, "flag", &older).0.value, Some(text("ON")));
    let younger = object(vec![("id", text("u")), ("age", text("8.5"))]);
    assert_eq!(evaluate_answering(&artifact, "flag", &younger).0.value, Some(text("OFF")));
}

#[test]
fn evaluate_flag_reports_unknown_flags_and_bad_users() {
    let artifact = table_artifact(&["flag"], vec![vec![]], vec![0]);
    let table: Vec<NumericEntry> = vec![];
    match evaluate_flag(&artifact, "missing", None, None, &table) {
        Err(EvaluateError::NotFound(_)) => {},
        other => panic!("expected not found, got {other:?}"),
    }
    match evaluate_flag(&artifact, "flag", Some(text("not an object")), None, &table) {
        Err(EvaluateError::BadRequest(_)) => {},
        other => panic!("expected bad request, got {other:?}"),
    }
}

#[test]
fn artifact_limits_bound_variation_percentages() {
    let fits = vec![Rule::VariationsWithoutWhen(vec![
        Variation { var_index: 0, percentage: 200 },
        Variation { var_index: 1, percentage: 55 },
    ])];
    assert!(artifact_within_limits(&table_artifact(&["flag", "a", "b"], vec![fits], vec![0])));
    let over = vec![
        Rule::ServeWithoutWhen(ServePayload::Number(1)),
        Rule::VariationsWithoutWhen(vec![
            Variation { var_index: 0, percentage: 200 },
            Variation { var_index: 1, percentage: 56 },
        ]),
    ];
    assert!(!artifact_within_limits(&table_artifact(&["flag", "a", "b"], vec![over], vec![0])));
}
