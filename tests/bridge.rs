use std::cell::RefCell;
use std::rc::Rc;
use vstd::seq::Seq;
use zenoh_client::bridge::{Bridge, Callback, CallbackError, Delivery};
use zenoh_client::key_expr::{KeyExpr, KeyExprInput};
use zenoh_client::sample::{Sample, _Query};
use zenoh_client::selector::Selector;
use zenoh_client::session::Session;
use zenoh_client::value::{Decoded, TypedInput, Value};

struct FailsFirst {
    calls: u32,
}

impl Callback<u32> for FailsFirst {
    fn received(&self) -> Seq<u32> {
        Seq::empty()
    }

    fn call(&mut self, event: u32) -> Result<(), CallbackError> {
        self.calls += 1;
        if self.calls == 1 {
            Err(CallbackError { message: format!("cannot handle {}", event) })
        } else {
            Ok(())
        }
    }
}

#[test]
fn failing_callback_does_not_stop_delivery() {
    let mut b = Bridge::new(FailsFirst { calls: 0 });
    match b.deliver(1) {
        Delivery::Failed(e) => assert_eq!(e.message, "cannot handle 1"),
        _ => panic!("first delivery should fail"),
    }
    assert!(b.is_open());
    assert!(matches!(b.deliver(2), Delivery::Handled));
    b.close();
    assert!(matches!(b.deliver(3), Delivery::Dropped));
}

struct Recorder {
    seen: Rc<RefCell<Vec<(String, Decoded)>>>,
}

impl Callback<Sample> for Recorder {
    fn received(&self) -> Seq<Sample> {
        Seq::empty()
    }

    fn call(&mut self, sample: Sample) -> Result<(), CallbackError> {
        let d = sample.decode().map_err(|_| CallbackError { message: "undecodable".to_string() })?;
        self.seen.borrow_mut().push((sample.key_expr().suffix().to_string(), d));
        Ok(())
    }
}

struct LocalEngine {
    subscriptions: RefCell<Vec<(KeyExpr, Bridge<Recorder>)>>,
}

impl LocalEngine {
    fn route(&self, key: &KeyExpr, value: &Value) -> usize {
        let mut n = 0;
        for (k, b) in self.subscriptions.borrow_mut().iter_mut() {
            if KeyExpr::intersect(k, key) {
                let copy = Value::new(TypedInput::Encoded(value.payload().to_vec(), value.encoding().clone()));
                let s = Sample::new(KeyExprInput::Expr(key.clone()), TypedInput::Value(copy));
                if let Delivery::Handled = b.deliver(s) {
                    n += 1;
                }
            }
        }
        n
    }
}

#[test]
fn published_value_reaches_the_subscriber() {
    let session = Session::new(LocalEngine { subscriptions: RefCell::new(Vec::new()) });
    let seen = Rc::new(RefCell::new(Vec::new()));
    let (engine, k, bridge) = session
        .subscribe(KeyExprInput::Text("x/y".to_string()), Recorder { seen: seen.clone() })
        .unwrap();
    engine.subscriptions.borrow_mut().push((k, bridge));
    let (engine, k, v) = session.put(KeyExprInput::Text("x/y".to_string()), TypedInput::Integer(42)).unwrap();
    assert_eq!(engine.route(&k, &v), 1);
    let (engine, k, v) = session.put(KeyExprInput::Text("x/z".to_string()), TypedInput::Integer(1)).unwrap();
    assert_eq!(engine.route(&k, &v), 0);
    let seen = seen.borrow();
    assert_eq!(seen.len(), 1);
    assert_eq!(seen[0].0, "x/y");
    assert!(matches!(seen[0].1, Decoded::Integer(42)));
}

#[test]
fn query_exposes_its_selector() {
    let q = _Query::new(Selector::parse("a/b?(x=1;y=2)"), 11u8);
    let q = _Query::pynew(q);
    assert_eq!(q.key_expr().suffix(), "a/b");
    assert_eq!(q.value_selector(), "?(x=1;y=2)");
    assert_eq!(q.selector().value_selector(), "?(x=1;y=2)");
    assert_eq!(*q.handle(), 11);
    let p = q.decode_value_selector().unwrap();
    assert_eq!(p.get("x"), Some("1"));
    assert_eq!(p.get("y"), Some("2"));
    let dup = _Query::new(Selector::parse("a?(x=1;x=2)"), 0u8);
    assert!(dup.decode_value_selector().is_err());
}
