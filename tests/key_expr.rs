use zenoh_client::key_expr::{KeyExpr, KeyExprInput};

fn ke(s: &str) -> KeyExpr {
    KeyExpr::from_str(s)
}

#[test]
fn wildcard_one_chunk_matches_one_chunk() {
    assert!(KeyExpr::intersect(&ke("a/*"), &ke("a/b")));
}

#[test]
fn wildcard_one_chunk_does_not_match_two() {
    assert!(!KeyExpr::intersect(&ke("a/*"), &ke("a/b/c")));
}

#[test]
fn double_wildcard_matches_many_chunks() {
    assert!(KeyExpr::intersect(&ke("a/**"), &ke("a/b/c")));
}

#[test]
fn single_and_double_wildcards_meet() {
    assert!(KeyExpr::intersect(&ke("a/*"), &ke("a/**")));
}

#[test]
fn intersection_is_symmetric_on_examples() {
    let exprs = ["a/*", "a/b", "a/b/c", "a/**", "*/b", "x/y", "**", "a*b", "a//b", "a/**/**", "**/*"];
    for x in exprs.iter() {
        for y in exprs.iter() {
            assert_eq!(
                KeyExpr::intersect(&ke(x), &ke(y)),
                KeyExpr::intersect(&ke(y), &ke(x)),
                "{} vs {}",
                x,
                y
            );
        }
    }
}

#[test]
fn different_scopes_never_intersect() {
    let a = KeyExpr::with_suffix(1, "a/b".to_string());
    let b = KeyExpr::with_suffix(2, "a/b".to_string());
    assert!(!KeyExpr::intersect(&a, &b));
    let c = KeyExpr::with_suffix(1, "a/*".to_string());
    assert!(KeyExpr::intersect(&a, &c));
}

#[test]
fn malformed_suffix_only_meets_itself() {
    assert!(KeyExpr::intersect(&ke("a*b"), &ke("a*b")));
    assert!(!KeyExpr::intersect(&ke("a*b"), &ke("**")));
    assert!(!KeyExpr::intersect(&ke("a//b"), &ke("a/**")));
}

#[test]
fn redundant_wildcards_are_canonised_first() {
    assert!(KeyExpr::intersect(&ke("a/**/**"), &ke("a/b")));
    assert!(KeyExpr::intersect(&ke("a/b"), &ke("a/**/**")));
    assert!(KeyExpr::intersect(&ke("**/*"), &ke("x")));
    assert!(!KeyExpr::intersect(&ke("a/**/**"), &ke("b/c")));
}

#[test]
fn disjoint_literals_do_not_intersect() {
    assert!(!KeyExpr::intersect(&ke("a/b"), &ke("a/c")));
    assert!(KeyExpr::intersect(&ke("*/b"), &ke("a/*")));
}

#[test]
fn key_expr_inputs() {
    let k = KeyExpr::new(KeyExprInput::Id(7));
    assert_eq!(k.scope(), 7);
    assert_eq!(k.suffix(), "");
    let k = KeyExpr::new(KeyExprInput::Text("x/y".to_string()));
    assert_eq!(k.scope(), 0);
    assert_eq!(k.suffix(), "x/y");
    let k = KeyExpr::new(KeyExprInput::IdSuffix(3, "/z".to_string()));
    assert_eq!(k.scope(), 3);
    assert_eq!(k.suffix(), "/z");
    let k = KeyExpr::new(KeyExprInput::Expr(ke("q")));
    assert_eq!(k.scope(), 0);
    assert_eq!(k.suffix(), "q");
}
