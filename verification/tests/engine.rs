use ednq::EdnValue;
use ednq::expr::Expr;
use ednq::analyzer::analyze;
use ednq::evaluator::evaluate;

fn kw(s: &str) -> EdnValue {
    EdnValue::Keyword(s.to_string())
}

fn sym(s: &str) -> EdnValue {
    EdnValue::Symbol(s.to_string())
}

fn s(text: &str) -> EdnValue {
    EdnValue::String(text.to_string())
}

fn num(i: i64) -> EdnValue {
    EdnValue::Integer(i)
}

fn dot() -> Expr {
    Expr::Symbol(".".to_string())
}

fn call(name: &str, args: Vec<Expr>) -> Expr {
    Expr::Function { name: name.to_string(), args }
}

fn lit(v: EdnValue) -> Expr {
    Expr::Literal(v)
}

#[test]
fn evaluator_test_identity() {
    let input = num(42);
    let result = evaluate(&dot(), &input).unwrap();
    assert_eq!(result, input);
}

#[test]
fn evaluator_test_keyword_access() {
    let input = EdnValue::MapV(vec![(kw("name"), s("Alice"))]);
    let result = evaluate(&Expr::KeywordAccess("name".to_string()), &input).unwrap();
    assert_eq!(result, s("Alice"));
}

#[test]
fn evaluator_test_first() {
    let input = EdnValue::Vector(vec![num(1), num(2), num(3)]);
    let expr = call("first", vec![dot()]);
    let result = evaluate(&expr, &input).unwrap();
    assert_eq!(result, num(1));
}

#[test]
fn evaluator_test_count() {
    let input = EdnValue::Vector(vec![num(1), num(2), num(3)]);
    let expr = call("count", vec![dot()]);
    let result = evaluate(&expr, &input).unwrap();
    assert_eq!(result, num(3));
}

#[test]
fn evaluator_test_predicates() {
    let nil_expr = call("nil?", vec![dot()]);
    assert_eq!(evaluate(&nil_expr, &EdnValue::Nil).unwrap(), EdnValue::Bool(true));
    assert_eq!(evaluate(&nil_expr, &num(42)).unwrap(), EdnValue::Bool(false));

    let number_expr = call("number?", vec![dot()]);
    assert_eq!(evaluate(&number_expr, &num(42)).unwrap(), EdnValue::Bool(true));
    assert_eq!(evaluate(&number_expr, &s("hello")).unwrap(), EdnValue::Bool(false));
}

#[test]
fn evaluator_test_comparison() {
    // equality with several arguments - all equal
    let eq_expr = call("=", vec![lit(num(42)), lit(num(42)), lit(num(42))]);
    assert_eq!(evaluate(&eq_expr, &EdnValue::Nil).unwrap(), EdnValue::Bool(true));

    // not all equal
    let eq_false_expr = call("=", vec![lit(num(42)), lit(num(42)), lit(num(43))]);
    assert_eq!(evaluate(&eq_false_expr, &EdnValue::Nil).unwrap(), EdnValue::Bool(false));

    // 0-argument and 1-argument cases are vacuously true
    let empty_eq = call("=", vec![]);
    assert_eq!(evaluate(&empty_eq, &EdnValue::Nil).unwrap(), EdnValue::Bool(true));
    let single_eq = call("=", vec![lit(num(42))]);
    assert_eq!(evaluate(&single_eq, &EdnValue::Nil).unwrap(), EdnValue::Bool(true));

    // ascending chain
    let lt_expr = call("<", vec![lit(num(1)), lit(num(2)), lit(num(3))]);
    assert_eq!(evaluate(&lt_expr, &EdnValue::Nil).unwrap(), EdnValue::Bool(true));

    // descending chain fails `<`
    let lt_false_expr = call("<", vec![lit(num(3)), lit(num(2)), lit(num(1))]);
    assert_eq!(evaluate(&lt_false_expr, &EdnValue::Nil).unwrap(), EdnValue::Bool(false));

    let le_expr = call("<=", vec![lit(num(1)), lit(num(3)), lit(num(2))]);
    assert_eq!(evaluate(&le_expr, &EdnValue::Nil).unwrap(), EdnValue::Bool(false));

    let gt_expr = call(">", vec![lit(num(5)), lit(num(3)), lit(num(1))]);
    assert_eq!(evaluate(&gt_expr, &EdnValue::Nil).unwrap(), EdnValue::Bool(true));

    let ge_expr = call(">=", vec![lit(num(3)), lit(num(3)), lit(num(1))]);
    assert_eq!(evaluate(&ge_expr, &EdnValue::Nil).unwrap(), EdnValue::Bool(true));

    let empty_lt = call("<", vec![]);
    assert_eq!(evaluate(&empty_lt, &EdnValue::Nil).unwrap(), EdnValue::Bool(true));
    let empty_gt = call(">", vec![]);
    assert_eq!(evaluate(&empty_gt, &EdnValue::Nil).unwrap(), EdnValue::Bool(true));
    let single_lt = call("<", vec![lit(num(42))]);
    assert_eq!(evaluate(&single_lt, &EdnValue::Nil).unwrap(), EdnValue::Bool(true));
}

#[test]
fn evaluator_test_take_drop() {
    let input = EdnValue::Vector(vec![num(1), num(2), num(3), num(4)]);

    let take_expr = call("take", vec![lit(num(2)), dot()]);
    let result = evaluate(&take_expr, &input).unwrap();
    assert_eq!(result, EdnValue::Vector(vec![num(1), num(2)]));

    let drop_expr = call("drop", vec![lit(num(2)), dot()]);
    let result = evaluate(&drop_expr, &input).unwrap();
    assert_eq!(result, EdnValue::Vector(vec![num(3), num(4)]));
}

#[test]
fn negative_take_and_drop() {
    let input = EdnValue::Vector(vec![num(1), num(2)]);
    // a negative count to take yields empty, to drop the whole collection
    let take_expr = call("take", vec![lit(num(-1)), dot()]);
    assert_eq!(evaluate(&take_expr, &input).unwrap(), EdnValue::Vector(vec![]));
    let drop_expr = call("drop", vec![lit(num(-1)), dot()]);
    assert_eq!(evaluate(&drop_expr, &input).unwrap(), input);
    // a non-integer count is a type error
    let bad = call("take", vec![lit(kw("x")), dot()]);
    assert!(evaluate(&bad, &input).is_err());
}

#[test]
fn test_composition() {
    // first, then count
    let expr = Expr::Comp(vec![call("first", vec![dot()]), call("count", vec![dot()])]);
    let input = EdnValue::Vector(vec![
        EdnValue::Vector(vec![num(1), num(2)]),
        EdnValue::Vector(vec![num(3), num(4)]),
    ]);
    let result = evaluate(&expr, &input).unwrap();
    assert_eq!(result, num(2));
}

#[test]
fn test_if_expression() {
    let expr = call(
        "if",
        vec![
            call("nil?", vec![dot()]),
            lit(s("it's nil")),
            lit(s("not nil")),
        ],
    );
    assert_eq!(evaluate(&expr, &EdnValue::Nil).unwrap(), s("it's nil"));
    assert_eq!(evaluate(&expr, &num(42)).unwrap(), s("not nil"));
}

#[test]
fn test_function_with_higher_order() {
    let input = EdnValue::Vector(vec![s("a"), s("b"), s("a")]);
    let expr = call("frequencies", vec![dot()]);
    let result = evaluate(&expr, &input).unwrap();
    match result {
        EdnValue::MapV(pairs) => {
            assert_eq!(pairs.len(), 2);
            // ordered by first occurrence
            assert_eq!(pairs[0], (s("a"), num(2)));
            assert_eq!(pairs[1], (s("b"), num(1)));
        },
        other => panic!("Expected map result from frequencies, got {:?}", other),
    }
}

#[test]
fn test_lambda_parsing() {
    // (fn [x] (< 10 x)) analyzes to a lambda literal
    let expr = analyze(Expr::List(vec![
        sym("fn"),
        EdnValue::Vector(vec![sym("x")]),
        EdnValue::List(vec![sym("<"), num(10), sym("x")]),
    ]))
    .unwrap();

    let result = evaluate(&expr, &EdnValue::Nil).unwrap();
    match result {
        EdnValue::Lambda { params, body: _ } => {
            assert_eq!(params, vec!["x".to_string()]);
        },
        other => panic!("Expected lambda result, got {:?}", other),
    }
}

fn less_than_lambda(threshold: i64) -> EdnValue {
    EdnValue::Lambda {
        params: vec!["x".to_string()],
        body: Box::new(EdnValue::List(vec![sym("<"), num(threshold), sym("x")])),
    }
}

#[test]
fn test_map_with_lambda() {
    let input = EdnValue::Vector(vec![num(1), num(2), num(3), num(4), num(5)]);
    let expr = call("map", vec![lit(less_than_lambda(3)), dot()]);
    let result = evaluate(&expr, &input).unwrap();
    let expected = EdnValue::Vector(vec![
        EdnValue::Bool(false),
        EdnValue::Bool(false),
        EdnValue::Bool(false),
        EdnValue::Bool(true),
        EdnValue::Bool(true),
    ]);
    assert_eq!(result, expected);
}

#[test]
fn test_select_with_lambda() {
    let input = EdnValue::Vector(vec![num(1), num(2), num(3), num(4), num(5)]);
    let expr = call("select", vec![lit(less_than_lambda(3)), dot()]);
    let result = evaluate(&expr, &input).unwrap();
    assert_eq!(result, EdnValue::Vector(vec![num(4), num(5)]));
}

#[test]
fn test_remove_with_lambda() {
    let input = EdnValue::Vector(vec![num(1), num(2), num(3), num(4), num(5)]);
    let expr = call("remove", vec![lit(less_than_lambda(3)), dot()]);
    let result = evaluate(&expr, &input).unwrap();
    assert_eq!(result, EdnValue::Vector(vec![num(1), num(2), num(3)]));
}

#[test]
fn unknown_function_is_a_query_error() {
    let expr = call("no-such-function", vec![dot()]);
    match evaluate(&expr, &EdnValue::Nil) {
        Err(ednq::error::EqError::QueryError { .. }) => {},
        other => panic!("expected a query error, got {:?}", other),
    }
}

#[test]
fn non_lambda_to_map_is_a_type_error() {
    let input = EdnValue::Vector(vec![num(1)]);
    let expr = call("map", vec![lit(num(7)), dot()]);
    match evaluate(&expr, &input) {
        Err(ednq::error::EqError::TypeError { .. }) => {},
        other => panic!("expected a type error, got {:?}", other),
    }
}

#[test]
fn select_keys_projects_in_map_order() {
    let m = EdnValue::MapV(vec![
        (kw("a"), num(1)),
        (kw("b"), num(2)),
        (kw("c"), num(3)),
    ]);
    let keys = EdnValue::Vector(vec![kw("c"), kw("a")]);
    let expr = call("select-keys", vec![lit(m), lit(keys)]);
    let result = evaluate(&expr, &EdnValue::Nil).unwrap();
    // every key kept is drawn from the requested keys, values from the map,
    // entries in map insertion order
    assert_eq!(
        result,
        EdnValue::MapV(vec![(kw("a"), num(1)), (kw("c"), num(3))])
    );
}
