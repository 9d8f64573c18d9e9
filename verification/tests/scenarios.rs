//! End-to-end runs: a raw query form is staged, analyzed to a fixed
//! point and evaluated against an input document.

use ednq::EdnValue;
use ednq::expr::Expr;
use ednq::analyzer::analyze;
use ednq::evaluator::evaluate;

fn kw(s: &str) -> EdnValue {
    EdnValue::Keyword(s.to_string())
}

fn sym(s: &str) -> EdnValue {
    EdnValue::Symbol(s.to_string())
}

fn s(text: &str) -> EdnValue {
    EdnValue::String(text.to_string())
}

fn num(i: i64) -> EdnValue {
    EdnValue::Integer(i)
}

fn run(raw: Expr, input: &EdnValue) -> EdnValue {
    let analyzed = analyze(raw).unwrap();
    evaluate(&analyzed, input).unwrap()
}

#[test]
fn scenario_keyword_field_access() {
    // input {:name "Alice" :age 30}, query (:name)
    let input = EdnValue::MapV(vec![(kw("name"), s("Alice")), (kw("age"), num(30))]);
    let raw = Expr::List(vec![kw("name")]);
    assert_eq!(run(raw, &input), s("Alice"));
}

#[test]
fn scenario_take_and_drop() {
    // input [1 2 3 4 5], (take 2 .) and (drop 2 .)
    let input = EdnValue::Vector(vec![num(1), num(2), num(3), num(4), num(5)]);
    let take_raw = Expr::List(vec![sym("take"), num(2), sym(".")]);
    assert_eq!(run(take_raw, &input), EdnValue::Vector(vec![num(1), num(2)]));
    let drop_raw = Expr::List(vec![sym("drop"), num(2), sym(".")]);
    assert_eq!(run(drop_raw, &input), EdnValue::Vector(vec![num(3), num(4), num(5)]));
}

#[test]
fn scenario_threading_first() {
    // input [{:name "Alice"} {:name "Bob"}], query (-> . (first) (:name))
    let input = EdnValue::Vector(vec![
        EdnValue::MapV(vec![(kw("name"), s("Alice"))]),
        EdnValue::MapV(vec![(kw("name"), s("Bob"))]),
    ]);
    let raw = Expr::List(vec![
        sym("->"),
        sym("."),
        EdnValue::List(vec![sym("first")]),
        EdnValue::List(vec![kw("name")]),
    ]);
    assert_eq!(run(raw, &input), s("Alice"));
}

#[test]
fn scenario_conditional_on_nil() {
    // input nil, query (if (nil? .) "empty" "value")
    let raw = Expr::List(vec![
        sym("if"),
        EdnValue::List(vec![sym("nil?"), sym(".")]),
        s("empty"),
        s("value"),
    ]);
    assert_eq!(run(raw, &EdnValue::Nil), s("empty"));
}

#[test]
fn scenario_map_with_lambda() {
    // input [1 2 3 4 5], query (map (fn [x] (< 3 x)) .)
    let input = EdnValue::Vector(vec![num(1), num(2), num(3), num(4), num(5)]);
    let raw = Expr::List(vec![
        sym("map"),
        EdnValue::List(vec![
            sym("fn"),
            EdnValue::Vector(vec![sym("x")]),
            EdnValue::List(vec![sym("<"), num(3), sym("x")]),
        ]),
        sym("."),
    ]);
    assert_eq!(
        run(raw, &input),
        EdnValue::Vector(vec![
            EdnValue::Bool(false),
            EdnValue::Bool(false),
            EdnValue::Bool(false),
            EdnValue::Bool(true),
            EdnValue::Bool(true),
        ])
    );
}

#[test]
fn scenario_frequencies_by_first_occurrence() {
    // input ["a" "b" "a"], query (frequencies .)
    let input = EdnValue::Vector(vec![s("a"), s("b"), s("a")]);
    let raw = Expr::List(vec![sym("frequencies"), sym(".")]);
    assert_eq!(
        run(raw, &input),
        EdnValue::MapV(vec![(s("a"), num(2)), (s("b"), num(1))])
    );
}

#[test]
fn scenario_when_behaves_like_if_with_nil() {
    // (when t b) against (if t b nil), on a truthy and a falsy test
    let input = num(5);
    let when_raw = Expr::List(vec![
        sym("when"),
        EdnValue::List(vec![sym("number?"), sym(".")]),
        s("num"),
    ]);
    let if_raw = Expr::List(vec![
        sym("if"),
        EdnValue::List(vec![sym("number?"), sym(".")]),
        s("num"),
        EdnValue::Nil,
    ]);
    assert_eq!(run(when_raw, &input), run(if_raw, &input));

    let when_falsy = Expr::List(vec![
        sym("when"),
        EdnValue::List(vec![sym("string?"), sym(".")]),
        s("str"),
    ]);
    let if_falsy = Expr::List(vec![
        sym("if"),
        EdnValue::List(vec![sym("string?"), sym(".")]),
        s("str"),
        EdnValue::Nil,
    ]);
    assert_eq!(run(ednq::expr::copy_expr(&when_falsy), &input), EdnValue::Nil);
    assert_eq!(run(when_falsy, &input), run(if_falsy, &input));
}

#[test]
fn scenario_threading_last_placement() {
    // (->> . (take 2)) puts the threaded value last: (take 2 .)
    let input = EdnValue::Vector(vec![num(7), num(8), num(9)]);
    let raw = Expr::List(vec![
        sym("->>"),
        sym("."),
        EdnValue::List(vec![sym("take"), num(2)]),
    ]);
    assert_eq!(run(raw, &input), EdnValue::Vector(vec![num(7), num(8)]));
}

#[test]
fn threading_resolves_stage_identifiers() {
    // (-> 1 (= .)) must evaluate exactly like the nested (= 1 .):
    // the stage's own argument `.` is an identifier and resolves to
    // the ambient input, not to a literal symbol value.
    let input = num(1);
    let threaded = Expr::List(vec![
        sym("->"),
        num(1),
        EdnValue::List(vec![sym("="), sym(".")]),
    ]);
    let nested = Expr::List(vec![sym("="), num(1), sym(".")]);
    let threaded_result = run(threaded, &input);
    let nested_result = run(nested, &input);
    assert_eq!(threaded_result, EdnValue::Bool(true));
    assert_eq!(threaded_result, nested_result);

    // an unbound identifier in a stage argument fails in the threaded
    // form exactly as it does in the nested application
    let threaded_bad = Expr::List(vec![
        sym("->"),
        num(1),
        EdnValue::List(vec![sym("="), sym("x")]),
    ]);
    let nested_bad = Expr::List(vec![sym("="), num(1), sym("x")]);
    let threaded_err = evaluate(&analyze(threaded_bad).unwrap(), &input);
    let nested_err = evaluate(&analyze(nested_bad).unwrap(), &input);
    assert!(threaded_err.is_err());
    assert!(nested_err.is_err());
}

#[test]
fn threading_resolves_nested_stage_forms() {
    // (->> . (take (count .))) : the stage argument (count .) is a
    // nested form and must be analyzed, not carried as a literal.
    let input = EdnValue::Vector(vec![num(4), num(5), num(6)]);
    let threaded = Expr::List(vec![
        sym("->>"),
        sym("."),
        EdnValue::List(vec![
            sym("take"),
            EdnValue::List(vec![sym("count"), sym(".")]),
        ]),
    ]);
    let nested = Expr::List(vec![
        sym("take"),
        EdnValue::List(vec![sym("count"), sym(".")]),
        sym("."),
    ]);
    let threaded_result = run(threaded, &input);
    let nested_result = run(nested, &input);
    assert_eq!(threaded_result, input);
    assert_eq!(threaded_result, nested_result);
}

#[test]
fn scenario_analysis_is_idempotent() {
    // analyzing an already-analyzed expression returns it unchanged
    let raw = Expr::List(vec![
        sym("->"),
        sym("."),
        EdnValue::List(vec![sym("first")]),
        EdnValue::List(vec![kw("name")]),
    ]);
    let once = analyze(raw).unwrap();
    let twice = analyze(ednq::expr::copy_expr(&once)).unwrap();
    assert_eq!(once, twice);
}

#[test]
fn scenario_negative_index_is_last() {
    // nth(v, -1) and get(v, -1) both equal last(v)
    let input = EdnValue::Vector(vec![num(10), num(20), num(30)]);
    let nth_raw = Expr::List(vec![sym("nth"), sym("."), num(-1)]);
    let get_raw = Expr::List(vec![sym("get"), sym("."), num(-1)]);
    let last_raw = Expr::List(vec![sym("last"), sym(".")]);
    let nth_v = run(nth_raw, &input);
    let get_v = run(get_raw, &input);
    let last_v = run(last_raw, &input);
    assert_eq!(nth_v, num(30));
    assert_eq!(get_v, num(30));
    assert_eq!(last_v, num(30));
}
