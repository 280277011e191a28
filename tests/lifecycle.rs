use zenoh_client::handle::HandleError;
use zenoh_client::key_expr::KeyExprInput;
use zenoh_client::session::{Queryable, SelectorInput, Session, Subscriber};
use zenoh_client::value::TypedInput;

#[test]
fn closed_session_refuses_every_operation() {
    let mut s = Session::new(String::from("engine"));
    assert!(s.is_open());
    assert_eq!(s.close().unwrap(), "engine");
    assert!(!s.is_open());
    assert_eq!(s.close().err(), Some(HandleError::ClosedResource));
    assert_eq!(s.info().err(), Some(HandleError::ClosedResource));
    assert_eq!(s.config().err(), Some(HandleError::ClosedResource));
    assert_eq!(
        s.put(KeyExprInput::Text("a".to_string()), TypedInput::Integer(1)).err(),
        Some(HandleError::ClosedResource)
    );
    assert_eq!(s.delete(KeyExprInput::Text("a".to_string())).err(), Some(HandleError::ClosedResource));
    assert_eq!(s.declare_expr(KeyExprInput::Text("a".to_string())).err(), Some(HandleError::ClosedResource));
    assert_eq!(s.undeclare_expr(3).err(), Some(HandleError::ClosedResource));
    assert_eq!(s.get(SelectorInput::Id(1)).err(), Some(HandleError::ClosedResource));
    assert!(s.subscribe(KeyExprInput::Id(1), ()).is_err());
    assert!(s.share().is_err());
}

#[test]
fn shared_session_closes_with_its_last_holder() {
    let mut first = Session::new(7u32);
    let mut second = first.share().unwrap();
    assert_eq!(first.close().err(), Some(HandleError::NotSoleOwner));
    assert!(!first.is_open());
    assert!(second.is_open());
    assert_eq!(*second.info().unwrap(), 7);
    assert_eq!(second.close(), Ok(7));
    assert_eq!(second.close().err(), Some(HandleError::ClosedResource));
    assert_eq!(first.close().err(), Some(HandleError::ClosedResource));
}

#[test]
fn open_session_prepares_operations() {
    let s = Session::new(1u8);
    let (e, k, v) = s.put(KeyExprInput::IdSuffix(4, "/x".to_string()), TypedInput::Text("hi".to_string())).unwrap();
    assert_eq!(*e, 1);
    assert_eq!(k.scope(), 4);
    assert_eq!(k.suffix(), "/x");
    assert_eq!(v.payload(), b"hi");
    let (_, id) = s.undeclare_expr(9).unwrap();
    assert_eq!(id, 9);
    let (_, sel) = s.get(SelectorInput::Text("a/*?(p=1)".to_string())).unwrap();
    assert_eq!(sel.key_selector().suffix(), "a/*");
    assert_eq!(sel.value_selector(), "?(p=1)");
}

#[test]
fn subscriber_and_queryable_close_once() {
    let mut sub = Subscriber::new("sub");
    assert_eq!(*sub.pull().unwrap(), "sub");
    assert_eq!(sub.close(), Ok("sub"));
    assert_eq!(sub.pull().err(), Some(HandleError::ClosedResource));
    assert_eq!(sub.close().err(), Some(HandleError::ClosedResource));
    let mut q = Queryable::new(5);
    assert_eq!(q.close(), Ok(5));
    assert_eq!(q.close().err(), Some(HandleError::ClosedResource));
}
