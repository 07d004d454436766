use kendra::json::JsonValue;
use kendra::memory::safe_json_loads as parse_json_value;

#[test]
fn test_parse_and_read_back() {
    let v = parse_json_value(r#"{"a": "b", "n": 42, "neg": -3, "ok": true}"#).unwrap();
    assert_eq!(v.get_str("a"), Some("b"));
    assert_eq!(v.get("n").unwrap().as_u64(), Some(42));
    assert_eq!(v.get("neg").unwrap().as_i64(), Some(-3));
    assert!(matches!(v.get("ok"), Some(JsonValue::Bool(true))));
    assert!(v.get("missing").is_none());
}

#[test]
fn test_parse_error() {
    assert!(parse_json_value("{not json").is_err());
}

#[test]
fn test_put_and_remove() {
    let mut v = JsonValue::Object(vec![]);
    v.put("k", JsonValue::string("one"));
    v.put("k", JsonValue::string("two"));
    v.put("j", JsonValue::Null);
    assert_eq!(v.get_str("k"), Some("two"));
    v.remove("k");
    assert!(v.get("k").is_none());
    assert!(v.get("j").is_some());
    let mut s = JsonValue::string("x");
    s.remove("k");
    assert_eq!(s.as_str(), Some("x"));
}

#[test]
fn test_numbers() {
    assert_eq!(JsonValue::from_u64(7).as_u64(), Some(7));
    assert_eq!(JsonValue::from_i64(-9).as_i64(), Some(-9));
    assert_eq!(JsonValue::Number("1.5".to_string()).as_u64(), None);
    assert_eq!(JsonValue::Number("-1".to_string()).as_u64(), None);
}
