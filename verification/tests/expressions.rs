use ednq::EdnValue;
use ednq::expr::Expr;

#[test]
fn test_expr_creation() {
    let identity = Expr::Symbol(".".to_string());
    assert_eq!(identity, Expr::Symbol(".".to_string()));

    let _get_expr = Expr::Function {
        name: "get".to_string(),
        args: vec![Expr::Literal(EdnValue::Keyword("name".to_string()))],
    };

    let keyword_expr = Expr::KeywordAccess("age".to_string());
    assert_eq!(keyword_expr, Expr::KeywordAccess("age".to_string()));
}

#[test]
fn ast_test_complex_expressions() {
    let _function_expr = Expr::Function {
        name: "select".to_string(),
        args: vec![Expr::Function { name: "number?".to_string(), args: vec![] }],
    };

    let keyword_expr = Expr::KeywordAccess("name".to_string());
    assert_eq!(keyword_expr, Expr::KeywordAccess("name".to_string()));
}

#[test]
fn test_composition_expressions() {
    let comp_expr = Expr::Comp(vec![
        Expr::Symbol(".".to_string()),
        Expr::Function { name: "first".to_string(), args: vec![] },
        Expr::KeywordAccess("name".to_string()),
    ]);

    match comp_expr {
        Expr::Comp(exprs) => {
            assert_eq!(exprs.len(), 3);
            assert_eq!(exprs[0], Expr::Symbol(".".to_string()));
            assert!(matches!(exprs[1], Expr::Function { .. }));
            assert_eq!(exprs[2], Expr::KeywordAccess("name".to_string()));
        },
        _ => panic!("Expected Comp"),
    }
}

use ednq::query::QueryParser;

#[test]
fn staging_shapes_raw_expressions() {
    // identifiers become symbol nodes, forms raw lists, the rest literals
    let sym = EdnValue::Symbol(".".to_string());
    assert_eq!(QueryParser::edn_to_expr(&sym), Expr::Symbol(".".to_string()));
    let form = EdnValue::List(vec![EdnValue::Symbol("first".to_string())]);
    assert_eq!(
        QueryParser::edn_to_expr(&form),
        Expr::List(vec![EdnValue::Symbol("first".to_string())])
    );
    let lit = EdnValue::Integer(42);
    assert_eq!(QueryParser::edn_to_expr(&lit), Expr::Literal(EdnValue::Integer(42)));
}
