use qapi::codec::{encode, FramingError, JsonLinesCodec};
use qapi::json::{json_to_vec, parse_json, Json};

fn obj(fields: Vec<(&str, Json)>) -> Json {
    Json::Object(fields.into_iter().map(|(k, v)| (k.to_string(), v)).collect())
}

#[test]
fn encoded_value_decodes_back() {
    let v = obj(vec![("return", Json::Str("a\nb".to_string())), ("id", Json::UInt(7))]);
    let mut buf = Vec::new();
    encode(&v, &mut buf);
    assert_eq!(buf.iter().filter(|b| **b == b'\n').count(), 1);
    assert_eq!(*buf.last().unwrap(), b'\n');
    let mut codec = JsonLinesCodec::new();
    let back = codec.decode(&mut buf).unwrap().unwrap();
    assert_eq!(json_to_vec(&back), json_to_vec(&v));
    assert!(buf.is_empty());
}

#[test]
fn concatenated_values_decode_in_order() {
    let values = vec![Json::UInt(1), Json::Str("two".to_string()), obj(vec![("three", Json::Bool(true))]), Json::Null];
    let mut buf = Vec::new();
    for v in &values {
        encode(v, &mut buf);
    }
    let mut codec = JsonLinesCodec::new();
    for v in &values {
        let got = codec.decode(&mut buf).unwrap().unwrap();
        assert_eq!(json_to_vec(&got), json_to_vec(v));
    }
    assert!(codec.decode(&mut buf).unwrap().is_none());
}

#[test]
fn partial_line_waits_for_more_bytes() {
    let mut codec = JsonLinesCodec::new();
    let mut buf = b"{\"return\":".to_vec();
    assert!(codec.decode(&mut buf).unwrap().is_none());
    assert_eq!(buf.len(), 10);
    buf.extend_from_slice(b"42}\n{\"ret");
    let v = codec.decode(&mut buf).unwrap().unwrap();
    assert!(matches!(v.field("return"), Some(Json::UInt(42))));
    assert_eq!(buf, b"{\"ret".to_vec());
}

#[test]
fn trailing_bytes_at_eof_are_one_value() {
    let mut codec = JsonLinesCodec::new();
    let mut buf = b"{\"return\":{}}".to_vec();
    assert!(codec.decode(&mut buf).unwrap().is_none());
    let v = codec.decode_eof(&mut buf).unwrap().unwrap();
    assert!(matches!(v.field("return"), Some(Json::Object(f)) if f.is_empty()));
    assert!(buf.is_empty());
    assert!(codec.decode_eof(&mut buf).unwrap().is_none());
}

#[test]
fn malformed_line_is_a_framing_error() {
    let mut codec = JsonLinesCodec::new();
    let mut buf = b"{oops}\n".to_vec();
    assert_eq!(codec.decode(&mut buf).unwrap_err(), FramingError::InvalidJson);
    let mut rest = b"nope".to_vec();
    assert_eq!(codec.decode_eof(&mut rest).unwrap_err(), FramingError::InvalidJson);
}

#[test]
fn json_text_is_compact() {
    let v = obj(vec![("execute", Json::Str("guest-sync".to_string())), ("arguments", obj(vec![("id", Json::UInt(42))]))]);
    assert_eq!(json_to_vec(&v), b"{\"execute\":\"guest-sync\",\"arguments\":{\"id\":42}}".to_vec());
    assert!(matches!(parse_json(b"-3"), Some(Json::Int(-3))));
    assert!(matches!(parse_json(b"1.5"), Some(Json::Real(s)) if s == "1.5"));
    assert!(parse_json(b"{").is_none());
}
