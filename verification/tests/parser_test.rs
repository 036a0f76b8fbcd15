//! Tests of the expression and statement parser.
use ldpl::ast::Rule;
use ldpl::parser::{parse_expr, parse_stmt};

#[test]
fn test_number() {
    let node = parse_expr("3.14").unwrap();
    assert_eq!(Rule::Number, node.rule);
    assert_eq!("3.14", node.text);

    let node = parse_expr("314").unwrap();
    assert_eq!(Rule::Number, node.rule);
    assert_eq!("314", node.text);

    let node = parse_expr("+10213").unwrap();
    assert_eq!(Rule::Number, node.rule);
    assert_eq!("+10213", node.text);

    let node = parse_expr("-12051205.0325035").unwrap();
    assert_eq!(Rule::Number, node.rule);
    assert_eq!("-12051205.0325035", node.text);
}

#[test]
fn test_text() {
    let node = parse_expr(r#""hiya""#).unwrap();
    assert_eq!(Rule::Text, node.rule);
    assert_eq!(r#""hiya""#, node.text);

    let node = parse_expr(r#""spaces, too""#).unwrap();
    assert_eq!(Rule::Text, node.rule);
    assert_eq!(r#""spaces, too""#, node.text);

    let node = parse_expr(r#""and \"inner strings\" too""#).unwrap();
    assert_eq!(Rule::Text, node.rule);
    assert_eq!(r#""and \"inner strings\" too""#, node.text);
}

#[test]
fn test_lookup() {
    let node = parse_expr("abc:5").unwrap();
    assert_eq!(Rule::Var, node.rule);
    assert_eq!("abc:5", node.text);

    let node = parse_expr(r#"person:"name""#).unwrap();
    assert_eq!(Rule::Var, node.rule);
    assert_eq!(r#"person:"name""#, node.text);

    let node = parse_expr(r#"people:500"#).unwrap();
    assert_eq!(Rule::Var, node.rule);
    assert_eq!(r#"people:500"#, node.text);

    let node = parse_expr(r#"nested:50:20:30"#).unwrap();
    assert_eq!(Rule::Var, node.rule);
    assert_eq!(r#"nested:50:20:30"#, node.text);

    let node = parse_expr(r#"nested-map:"ages":20:"year""#).unwrap();
    assert_eq!(Rule::Var, node.rule);
    assert_eq!(r#"nested-map:"ages":20:"year""#, node.text);
    let mut parts = vec!["nested-map", "\"ages\"", "20", "\"year\""];
    for lookup in &node.children {
        for part in &lookup.children {
            assert_eq!(part.text, parts.remove(0));
        }
    }
    assert!(parts.is_empty());
}

#[test]
fn test_var() {
    let node = parse_expr(r#"somevar"#).unwrap();
    assert_eq!(Rule::Var, node.rule);
    assert_eq!("somevar", node.text);

    let node = parse_expr(r#"some-other-var"#).unwrap();
    assert_eq!(Rule::Var, node.rule);
    assert_eq!("some-other-var", node.text);

    let node = parse_expr(r#"dots.in.var.name"#).unwrap();
    assert_eq!(Rule::Var, node.rule);
    assert_eq!("dots.in.var.name", node.text);

    let node = parse_expr(r#"_start_with_underbar"#).unwrap();
    assert_eq!(Rule::Var, node.rule);
    assert_eq!("_start_with_underbar", node.text);

    let err = parse_expr(r#".cant_start_with_dot"#).unwrap_err();
    assert_eq!(err.details, "expected number, text, linefeed, or var");
    assert_eq!(err.line, 1);
    assert_eq!(err.col, 1);
}

#[test]
fn test_store_stmt() {
    let node = parse_stmt("store 3.14 in x").unwrap();
    assert_eq!(Rule::StoreStmt, node.rule);
    let node = &node.children[0];
    assert_eq!(Rule::Number, node.rule);
    assert_eq!("3.14", node.text);

    let node = parse_stmt("store 314 in x").unwrap();
    assert_eq!(Rule::StoreStmt, node.rule);
    let node = &node.children[0];
    assert_eq!(Rule::Number, node.rule);
    assert_eq!("314", node.text);

    let node = parse_stmt("store +10213 in x").unwrap();
    assert_eq!(Rule::StoreStmt, node.rule);
    let node = &node.children[0];
    assert_eq!(Rule::Number, node.rule);
    assert_eq!("+10213", node.text);

    let node = parse_stmt("store -12051205.0325035 in x").unwrap();
    assert_eq!(Rule::StoreStmt, node.rule);
    let node = &node.children[0];
    assert_eq!(Rule::Number, node.rule);
    assert_eq!("-12051205.0325035", node.text);
}
