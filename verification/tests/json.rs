use docstore::json::{JsonMap, JsonNumber, JsonValue};

fn number(text: &str) -> JsonValue {
    JsonValue::Number(JsonNumber::parse(text).unwrap())
}

#[test]
fn values_print_as_json() {
    assert_eq!(JsonValue::Null.to_json().unwrap(), "null");
    assert_eq!(JsonValue::Bool(true).to_json().unwrap(), "true");
    assert_eq!(JsonValue::Bool(false).to_json().unwrap(), "false");
    assert_eq!(JsonValue::String("a\"b".to_string()).to_json().unwrap(), r#""a\"b""#);
    assert_eq!(JsonValue::Array(Vec::new()).to_json().unwrap(), "[]");
    assert_eq!(JsonValue::Object(JsonMap::new()).to_json().unwrap(), "{}");
    assert_eq!(
        JsonValue::Array(vec![JsonValue::Null, JsonValue::Bool(true)]).to_json().unwrap(),
        "[null,true]"
    );
}

#[test]
fn numbers_print_by_kind() {
    assert_eq!(JsonValue::Number(JsonNumber::from_u64(120)).to_json().unwrap(), "120");
    assert_eq!(
        JsonValue::Number(JsonNumber::from_u64(u64::MAX)).to_json().unwrap(),
        "18446744073709551615"
    );
    assert_eq!(JsonValue::Number(JsonNumber::from_i64(-5)).to_json().unwrap(), "-5");
    assert_eq!(JsonValue::Number(JsonNumber::from_i64(5)).to_json().unwrap(), "5");
    assert_eq!(
        JsonValue::Number(JsonNumber::from_i64(i64::MIN)).to_json().unwrap(),
        "-9223372036854775808"
    );
    assert_eq!(number("0.95").to_json().unwrap(), "0.95");
    assert_eq!(number("1e2").to_json().unwrap(), "100.0");
    assert_eq!(number("-0.0").to_json().unwrap(), "-0.0");
}

#[test]
fn numbers_parse_from_json_text_only() {
    assert!(JsonNumber::parse("").is_none());
    assert!(JsonNumber::parse("abc").is_none());
    assert!(JsonNumber::parse("NaN").is_none());
    assert_eq!(JsonNumber::parse("42").unwrap(), JsonNumber::from_u64(42));
    assert_eq!(JsonNumber::parse("-42").unwrap(), JsonNumber::from_i64(-42));
}

#[test]
fn numbers_compare_numerically_within_a_kind() {
    assert_eq!(JsonNumber::from_u64(7), JsonNumber::from_i64(7));
    assert_ne!(JsonNumber::from_u64(7), JsonNumber::from_u64(8));
    assert_ne!(JsonNumber::from_i64(-7), JsonNumber::from_i64(-8));
    assert_ne!(JsonNumber::from_u64(1), JsonNumber::parse("1.0").unwrap());
    assert_eq!(JsonNumber::parse("0.5").unwrap(), JsonNumber::parse("0.50").unwrap());
    assert_eq!(JsonNumber::parse("0.0").unwrap(), JsonNumber::parse("-0.0").unwrap());
    assert_ne!(JsonNumber::parse("0.5").unwrap(), JsonNumber::parse("0.25").unwrap());
    let n = JsonNumber::parse("3.5").unwrap();
    assert_eq!(n.clone(), n);
}

#[test]
fn integers_convert_to_floats() {
    let one = JsonNumber::from_u64(1).to_float();
    assert_eq!(JsonValue::Number(one.clone()).to_json().unwrap(), "1.0");
    assert_eq!(one, JsonNumber::parse("1.0").unwrap());
    let minus = JsonNumber::from_i64(-2).to_float();
    assert_eq!(JsonValue::Number(minus).to_json().unwrap(), "-2.0");
    let same = JsonNumber::parse("0.75").unwrap().to_float();
    assert_eq!(JsonValue::Number(same).to_json().unwrap(), "0.75");
}

#[test]
fn values_read_from_json() {
    assert_eq!(JsonValue::from_json(" null ").unwrap(), JsonValue::Null);
    assert_eq!(JsonValue::from_json("true").unwrap(), JsonValue::Bool(true));
    assert_eq!(JsonValue::from_json(r#""x""#).unwrap(), JsonValue::String("x".to_string()));
    assert_eq!(JsonValue::from_json("12").unwrap(), JsonValue::Number(JsonNumber::from_u64(12)));
    assert_eq!(JsonValue::from_json("-12").unwrap(), JsonValue::Number(JsonNumber::from_i64(-12)));
    assert_eq!(JsonValue::from_json("1.5").unwrap(), number("1.5"));
    let read = JsonValue::from_json(r#"{"b":[1,{"c":null}],"a":"x"}"#).unwrap();
    let mut inner = JsonMap::new();
    inner.insert("c".to_string(), JsonValue::Null);
    let mut expected = JsonMap::new();
    expected.insert("a".to_string(), JsonValue::String("x".to_string()));
    expected.insert(
        "b".to_string(),
        JsonValue::Array(vec![JsonValue::Number(JsonNumber::from_u64(1)), JsonValue::Object(inner)]),
    );
    assert_eq!(read, JsonValue::Object(expected));
    assert_eq!(read.to_json().unwrap(), r#"{"a":"x","b":[1,{"c":null}]}"#);
}

#[test]
fn later_duplicate_keys_win_when_reading() {
    let read = JsonValue::from_json(r#"{"k":1,"k":2}"#).unwrap();
    let mut expected = JsonMap::new();
    expected.insert("k".to_string(), JsonValue::Number(JsonNumber::from_u64(2)));
    assert_eq!(read, JsonValue::Object(expected));
}

#[test]
fn malformed_json_is_an_error_with_a_message() {
    let err = JsonValue::from_json("[1,").unwrap_err();
    assert_eq!(err.message, "EOF while parsing a value at line 1 column 3");
    let err = JsonValue::from_json("nul").unwrap_err();
    assert_eq!(err.message, "EOF while parsing a value at line 1 column 3");
    assert!(JsonValue::from_json("1 2").is_err());
}

#[test]
fn nested_values_round_trip() {
    let text = r#"{"a":[[],[[1.25,-3,"s"]],{}],"z":{"y":{"x":[true,false,null]}}}"#;
    let value = JsonValue::from_json(text).unwrap();
    assert_eq!(value.to_json().unwrap(), text);
    assert_eq!(JsonValue::from_json(&value.to_json().unwrap()).unwrap(), value);
    assert_eq!(value.clone(), value);
}

#[test]
fn maps_hold_one_value_per_key() {
    let mut map = JsonMap::new();
    assert!(map.is_empty());
    assert_eq!(map.len(), 0);
    assert_eq!(map.get("a"), None);
    assert!(!map.contains_key("a"));

    assert_eq!(map.insert("a".to_string(), JsonValue::Bool(true)), None);
    assert_eq!(map.insert("b".to_string(), JsonValue::Null), None);
    assert_eq!(map.len(), 2);
    assert!(!map.is_empty());
    assert!(map.contains_key("a"));
    assert!(!map.contains_key("A"));
    assert_eq!(map.get("a"), Some(&JsonValue::Bool(true)));

    assert_eq!(map.insert("a".to_string(), JsonValue::Bool(false)), Some(JsonValue::Bool(true)));
    assert_eq!(map.len(), 2);
    assert_eq!(map.get("a"), Some(&JsonValue::Bool(false)));
    assert_eq!(map.get("b"), Some(&JsonValue::Null));
    assert_eq!(map.get(""), None);
}

#[test]
fn maps_compare_without_regard_to_order() {
    let mut a = JsonMap::new();
    a.insert("x".to_string(), JsonValue::Bool(true));
    a.insert("y".to_string(), JsonValue::Null);
    let mut b = JsonMap::new();
    b.insert("y".to_string(), JsonValue::Null);
    assert_ne!(a, b);
    assert_ne!(b, a);
    b.insert("x".to_string(), JsonValue::Bool(true));
    assert_eq!(a, b);
    assert_eq!(a.clone(), b);
    b.insert("x".to_string(), JsonValue::Bool(false));
    assert_ne!(a, b);
    assert_eq!(JsonValue::Object(a).to_json().unwrap(), r#"{"x":true,"y":null}"#);
}

#[test]
fn values_of_different_kinds_differ() {
    let values = vec![
        JsonValue::Null,
        JsonValue::Bool(false),
        JsonValue::Number(JsonNumber::from_u64(0)),
        JsonValue::String(String::new()),
        JsonValue::Array(Vec::new()),
        JsonValue::Object(JsonMap::new()),
    ];
    for (i, a) in values.iter().enumerate() {
        for (j, b) in values.iter().enumerate() {
            assert_eq!(a == b, i == j);
        }
    }
    assert_ne!(
        JsonValue::Array(vec![JsonValue::Null]),
        JsonValue::Array(vec![JsonValue::Null, JsonValue::Null])
    );
    assert_ne!(
        JsonValue::Array(vec![JsonValue::Bool(true)]),
        JsonValue::Array(vec![JsonValue::Bool(false)])
    );
    assert_ne!(JsonValue::String("a".to_string()), JsonValue::String("b".to_string()));
}

#[test]
fn keys_come_once_each() {
    let mut map = JsonMap::new();
    assert!(map.keys().is_empty());
    map.insert("b".to_string(), JsonValue::Null);
    map.insert("a".to_string(), JsonValue::Null);
    map.insert("b".to_string(), JsonValue::Bool(true));
    let mut keys = map.keys();
    keys.sort();
    assert_eq!(keys, vec!["a".to_string(), "b".to_string()]);
}

#[test]
fn nesting_beyond_the_depth_that_the_reader_takes_is_an_error() {
    let mut shallow = JsonValue::Null;
    for _ in 0..100 {
        shallow = JsonValue::Array(vec![shallow]);
    }
    let text = shallow.to_json().unwrap();
    assert_eq!(JsonValue::from_json(&text).unwrap(), shallow);

    let mut deep = JsonValue::Null;
    for _ in 0..200 {
        deep = JsonValue::Array(vec![deep]);
    }
    let text = deep.to_json().unwrap();
    assert_eq!(text.len(), 404);
    let err = JsonValue::from_json(&text).unwrap_err();
    assert_eq!(err.message, "recursion limit exceeded at line 1 column 128");
}
