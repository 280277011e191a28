use zenoh_client::properties::Properties;
use zenoh_client::value::{DecodeError, Decoded, Encoding, TypedInput, Value};

fn decode(x: TypedInput) -> Result<Decoded, DecodeError> {
    Value::new(x).decode()
}

#[test]
fn bytes_round_trip() {
    let b = vec![0u8, 255, 72, 105];
    match decode(TypedInput::Bytes(b.clone())).unwrap() {
        Decoded::Bytes(out) => assert_eq!(out, b),
        _ => panic!("not bytes"),
    }
}

#[test]
fn text_round_trip() {
    for s in ["", "Hello World!", "h\u{e9}llo \u{1F600}"] {
        match decode(TypedInput::Text(s.to_string())).unwrap() {
            Decoded::Text(out) => assert_eq!(out, s),
            _ => panic!("not text"),
        }
    }
}

#[test]
fn integer_round_trip() {
    for i in [0i64, 42, -42, 7, 10, i64::MAX, i64::MIN, -1, 1000000] {
        let v = Value::new(TypedInput::Integer(i));
        assert_eq!(v.payload(), i.to_string().as_bytes());
        match v.decode().unwrap() {
            Decoded::Integer(out) => assert_eq!(out, i),
            _ => panic!("not an integer"),
        }
    }
}

#[test]
fn float_round_trip_through_text() {
    for f in [3.14f64, -0.5, 0.0, 1e300] {
        let v = Value::new(TypedInput::EncodedText(f.to_string(), Encoding::Float));
        match v.decode().unwrap() {
            Decoded::Float(t) => assert_eq!(t.parse::<f64>().unwrap(), f),
            _ => panic!("not a float"),
        }
    }
}

#[test]
fn properties_round_trip() {
    let p = Properties::new()
        .insert("p1".to_string(), "v1".to_string())
        .insert("p2".to_string(), "v=2".to_string());
    let v = Value::new(TypedInput::Properties(p));
    assert!(matches!(v.encoding(), Encoding::Properties));
    let text = std::str::from_utf8(v.payload()).unwrap();
    assert!(text == "p1=v1;p2=v=2" || text == "p2=v=2;p1=v1", "{}", text);
    match v.decode().unwrap() {
        Decoded::Properties(out) => {
            assert_eq!(out.len(), 2);
            assert_eq!(out.get("p1"), Some("v1"));
            assert_eq!(out.get("p2"), Some("v=2"));
        }
        _ => panic!("not properties"),
    }
    match decode(TypedInput::Properties(Properties::new())).unwrap() {
        Decoded::Properties(out) => assert_eq!(out.len(), 0),
        _ => panic!("not properties"),
    }
}

#[test]
fn properties_text_is_read_leniently() {
    let v = Value::new(TypedInput::EncodedText(" a = 1 ;a=2\nflag;# note\nb:3;".to_string(), Encoding::Properties));
    match v.decode().unwrap() {
        Decoded::Properties(out) => {
            assert_eq!(out.len(), 3);
            assert_eq!(out.get("a"), Some("2"));
            assert_eq!(out.get("flag"), Some(""));
            assert_eq!(out.get("b"), Some("3"));
        }
        _ => panic!("not properties"),
    }
}

#[test]
fn custom_encoding_is_unsupported() {
    let v = Value::new(TypedInput::Encoded(vec![1, 2, 3], Encoding::Custom("my_encoding".to_string())));
    match v.decode() {
        Err(DecodeError::UnsupportedEncoding(Encoding::Custom(s))) => assert_eq!(s, "my_encoding"),
        _ => panic!("expected an unsupported encoding"),
    }
}

#[test]
fn malformed_integers_fail() {
    for t in ["", "-", "+", "12a", "9223372036854775808", "-9223372036854775809", " 1", "1.5"] {
        let v = Value::new(TypedInput::EncodedText(t.to_string(), Encoding::Integer));
        assert!(matches!(v.decode(), Err(DecodeError::Malformed(Encoding::Integer))), "{}", t);
    }
    let v = Value::new(TypedInput::EncodedText("+17".to_string(), Encoding::Integer));
    assert!(matches!(v.decode(), Ok(Decoded::Integer(17))));
    let v = Value::new(TypedInput::EncodedText("-0042".to_string(), Encoding::Integer));
    assert!(matches!(v.decode(), Ok(Decoded::Integer(-42))));
}

#[test]
fn invalid_utf8_text_is_replaced() {
    let v = Value::new(TypedInput::Encoded(vec![104, 0xff, 105], Encoding::Text));
    match v.decode().unwrap() {
        Decoded::Text(t) => assert_eq!(t, "h\u{FFFD}i"),
        _ => panic!("not text"),
    }
}

#[test]
fn json_is_checked() {
    let v = Value::new(TypedInput::EncodedText("[\"foo\", {\"bar\": null}]".to_string(), Encoding::Json));
    match v.decode().unwrap() {
        Decoded::Json(t) => assert_eq!(t, "[\"foo\", {\"bar\": null}]"),
        _ => panic!("not json"),
    }
    let v = Value::new(TypedInput::EncodedText("{\"a\": ".to_string(), Encoding::Json));
    assert!(matches!(v.decode(), Err(DecodeError::Malformed(Encoding::Json))));
}

#[test]
fn properties_that_are_not_utf8_fail() {
    let v = Value::new(TypedInput::Encoded(vec![97, 61, 0xff], Encoding::Properties));
    assert!(matches!(v.decode(), Err(DecodeError::Malformed(Encoding::Properties))));
}

#[test]
fn empty_and_octet_stream_give_bytes() {
    let v = Value::new(TypedInput::Encoded(vec![9, 8], Encoding::Empty));
    assert!(matches!(v.decode(), Ok(Decoded::Bytes(b)) if b == vec![9, 8]));
    let v = Value::new(TypedInput::EncodedText("xy".to_string(), Encoding::Bytes));
    assert!(matches!(v.decode(), Ok(Decoded::Bytes(b)) if b == b"xy".to_vec()));
}

#[test]
fn value_input_is_kept() {
    let inner = Value::new(TypedInput::Integer(5));
    let v = Value::new(TypedInput::Value(inner));
    assert_eq!(v.payload(), b"5");
    assert!(matches!(v.encoding(), Encoding::Integer));
}
