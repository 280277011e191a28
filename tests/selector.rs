use zenoh_client::properties::{ParseErrorKind, Properties};
use zenoh_client::selector::{Selector, ValueSelector};

#[test]
fn value_selector_parts() {
    let vs = ValueSelector::parse("f1>1(p1=v1;p2=v2)[a;b]").unwrap();
    assert_eq!(vs.filter(), "f1>1");
    let p = vs.properties();
    assert_eq!(p.len(), 2);
    assert_eq!(p.get("p1"), Some("v1"));
    assert_eq!(p.get("p2"), Some("v2"));
    assert_eq!(p.entry(0), ("p1", "v1"));
    let f = vs.fragment().unwrap();
    assert_eq!(f, &vec!["a".to_string(), "b".to_string()]);
}

#[test]
fn duplicate_property_key_is_a_parse_error() {
    let e = ValueSelector::parse("(p1=v1;p1=v2)").err().unwrap();
    assert_eq!(e.kind, ParseErrorKind::DuplicateProperty);
    assert_eq!(e.token, "p1");
}

#[test]
fn property_without_value_is_a_parse_error() {
    let e = ValueSelector::parse("(p1=v1;p2)").err().unwrap();
    assert_eq!(e.kind, ParseErrorKind::MalformedProperty);
    assert_eq!(e.token, "p2");
}

#[test]
fn absent_parts_give_empty_properties_and_no_fragment() {
    let vs = ValueSelector::parse("x>1&y<2").unwrap();
    assert_eq!(vs.filter(), "x>1&y<2");
    assert_eq!(vs.properties().len(), 0);
    assert!(vs.fragment().is_none());
    let vs = ValueSelector::parse("").unwrap();
    assert_eq!(vs.filter(), "");
    assert_eq!(vs.properties().len(), 0);
    assert!(vs.fragment().is_none());
}

#[test]
fn fragment_alone_keeps_order_and_duplicates() {
    let vs = ValueSelector::parse("[b;a;b]").unwrap();
    assert_eq!(vs.filter(), "");
    assert_eq!(vs.properties().len(), 0);
    let f = vs.fragment().unwrap();
    assert_eq!(f, &vec!["b".to_string(), "a".to_string(), "b".to_string()]);
}

#[test]
fn empty_properties_and_value_with_equals() {
    let vs = ValueSelector::parse("()").unwrap();
    assert_eq!(vs.properties().len(), 0);
    let vs = ValueSelector::parse("(k=a=b)").unwrap();
    assert_eq!(vs.properties().get("k"), Some("a=b"));
}

#[test]
fn unclosed_and_trailing_parts_are_errors() {
    assert_eq!(ValueSelector::parse("f(p=v").err().unwrap().kind, ParseErrorKind::UnclosedProperties);
    assert_eq!(ValueSelector::parse("f[a").err().unwrap().kind, ParseErrorKind::UnclosedFragment);
    let e = ValueSelector::parse("f[a]x").err().unwrap();
    assert_eq!(e.kind, ParseErrorKind::TrailingCharacters);
    assert_eq!(e.token, "x");
    let e = ValueSelector::parse("(p=v)z").err().unwrap();
    assert_eq!(e.kind, ParseErrorKind::TrailingCharacters);
    assert_eq!(e.token, "z");
}

#[test]
fn selector_splits_at_first_question_mark() {
    let s = Selector::parse("a/b/*?f1>1(p1=v1)[x]");
    assert_eq!(s.key_selector().scope(), 0);
    assert_eq!(s.key_selector().suffix(), "a/b/*");
    assert_eq!(s.value_selector(), "?f1>1(p1=v1)[x]");
    let vs = s.parse_value_selector().unwrap();
    assert_eq!(vs.filter(), "f1>1");
    assert_eq!(vs.properties().get("p1"), Some("v1"));
    let s = Selector::parse("a/b");
    assert_eq!(s.key_selector().suffix(), "a/b");
    assert_eq!(s.value_selector(), "");
    let s = Selector::parse("a?b?c");
    assert_eq!(s.key_selector().suffix(), "a");
    assert_eq!(s.value_selector(), "?b?c");
}

#[test]
fn property_list_text_and_insert() {
    let p = Properties::new()
        .insert("a".to_string(), "1".to_string())
        .insert("b".to_string(), "2".to_string())
        .insert("a".to_string(), "3".to_string());
    assert_eq!(p.len(), 2);
    assert_eq!(p.to_text(), "a=3;b=2");
    let q = Properties::parse("a=3;b=2").unwrap();
    assert_eq!(q.entry(0), ("a", "3"));
    assert_eq!(q.entry(1), ("b", "2"));
    assert_eq!(Properties::parse("").unwrap().len(), 0);
    assert_eq!(Properties::parse("a=1;").err().unwrap().kind, ParseErrorKind::MalformedProperty);
}
