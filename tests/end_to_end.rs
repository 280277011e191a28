use std::sync::{Arc, Mutex};
use vstd::seq::Seq;
use zenoh::prelude::{KnownEncoding, SessionDeclarations, SplitBuffer, ValidatedMap};
use zenoh_core::SyncResolve;
use zenoh_client::bridge::{Callback, CallbackError, Delivery};
use zenoh_client::key_expr::{KeyExpr, KeyExprInput};
use zenoh_client::sample::Sample;
use zenoh_client::session::Session;
use zenoh_client::value::{Decoded, Encoding, TypedInput, Value};

struct Collect {
    seen: Arc<Mutex<Vec<(String, Option<i64>)>>>,
}

impl Callback<Sample> for Collect {
    fn received(&self) -> Seq<Sample> {
        Seq::empty()
    }

    fn call(&mut self, s: Sample) -> Result<(), CallbackError> {
        let n = match s.decode() {
            Ok(Decoded::Integer(i)) => Some(i),
            _ => None,
        };
        self.seen.lock().unwrap().push((s.key_expr().suffix().to_string(), n));
        Ok(())
    }
}

fn tag(e: &zenoh::prelude::Encoding) -> Encoding {
    match e.prefix() {
        KnownEncoding::AppInteger => Encoding::Integer,
        KnownEncoding::TextPlain => Encoding::Text,
        KnownEncoding::AppOctetStream => Encoding::Bytes,
        _ => Encoding::Custom(e.to_string()),
    }
}

#[test]
fn subscription_receives_a_local_publication() {
    let mut config = zenoh::config::Config::default();
    config.insert_json5("scouting/multicast/enabled", "false").unwrap();
    config.insert_json5("listen/endpoints", "[\"tcp/127.0.0.1:0\"]").unwrap();
    let engine = zenoh::open(config).res().unwrap().into_arc();
    let session = Session::new(engine);
    let seen = Arc::new(Mutex::new(Vec::new()));
    let (engine, k, bridge) = session
        .subscribe(KeyExprInput::Text("x/y".to_string()), Collect { seen: seen.clone() })
        .unwrap();
    let bridge = Mutex::new(bridge);
    let _sub = SessionDeclarations::declare_subscriber(engine, k.suffix().to_string())
        .callback(move |s: zenoh::sample::Sample| {
            let payload = s.value.payload.contiguous().to_vec();
            let value = Value::new(TypedInput::Encoded(payload, tag(&s.value.encoding)));
            let key = KeyExpr::from_str(s.key_expr.as_str());
            let sample = Sample::new(KeyExprInput::Expr(key), TypedInput::Value(value));
            let mut b = bridge.lock().unwrap();
            assert!(!matches!(b.deliver(sample), Delivery::Dropped));
        })
        .res()
        .unwrap();
    let (engine, k, v) = session.put(KeyExprInput::Text("x/y".to_string()), TypedInput::Integer(42)).unwrap();
    let zv = zenoh::value::Value::new(v.payload().to_vec().into()).encoding(KnownEncoding::AppInteger.into());
    engine.put(k.suffix().to_string(), zv).res().unwrap();
    let seen = seen.lock().unwrap();
    assert_eq!(seen.len(), 1);
    assert_eq!(seen[0], ("x/y".to_string(), Some(42)));
}
