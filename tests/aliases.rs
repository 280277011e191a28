use zenoh_client::aliases::AliasTable;
use zenoh_client::key_expr::KeyExpr;

#[test]
fn aliases_expand_scoped_key_expressions() {
    let mut t = AliasTable::new();
    let a = t.declare("demo/example".to_string()).unwrap();
    let b = t.declare("other".to_string()).unwrap();
    assert_ne!(a, 0);
    assert_ne!(a, b);
    assert_eq!(t.resolve(&KeyExpr::with_suffix(a, "/x".to_string())), Some("demo/example/x".to_string()));
    assert_eq!(t.resolve(&KeyExpr::from_id(b)), Some("other".to_string()));
    assert_eq!(t.resolve(&KeyExpr::from_str("plain/key")), Some("plain/key".to_string()));
    assert!(t.undeclare(a));
    assert!(!t.undeclare(a));
    assert_eq!(t.resolve(&KeyExpr::with_suffix(a, "/x".to_string())), None);
    assert_eq!(t.resolve(&KeyExpr::from_id(b)), Some("other".to_string()));
    let c = t.declare("again".to_string()).unwrap();
    assert_ne!(c, a);
    assert_ne!(c, b);
}

#[test]
fn unknown_alias_does_not_resolve() {
    let t = AliasTable::new();
    assert_eq!(t.resolve(&KeyExpr::from_id(5)), None);
}
