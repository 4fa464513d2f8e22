use column_mapping_lab::{is_exact, parse_json, render_json, Json, LabError};

#[test]
fn values_are_read() {
    let value = parse_json(r#"{"b": [1, -2, 1.5], "a": "x\ny", "c": null, "d": true}"#).unwrap();
    assert_eq!(value.get("a").and_then(|text| text.as_str()), Some("x\ny"));
    let items = value.get("b").and_then(|list| list.as_array()).unwrap();
    assert_eq!(items.len(), 3);
    assert!(matches!(items[0], Json::Unsigned(1)));
    assert!(matches!(items[1], Json::Signed(-2)));
    assert!(matches!(items[2], Json::Float(_)));
    assert!(value.get("c").unwrap().is_null());
    assert!(matches!(value.get("d"), Some(Json::Bool(true))));
    assert!(value.get("e").is_none());
}

#[test]
fn members_come_in_the_order_of_their_names() {
    let value = parse_json(r#"{"z": 1, "a": 2, "m": 3}"#).unwrap();
    let members = value.as_object().unwrap();
    assert_eq!(members.len(), 3);
    assert_eq!(members.entry(0).0, "a");
    assert_eq!(members.entry(1).0, "m");
    assert_eq!(members.entry(2).0, "z");
}

#[test]
fn other_values_have_no_parts() {
    let text = Json::text("x");
    assert!(text.get("a").is_none());
    assert!(text.as_array().is_none());
    assert!(text.as_object().is_none());
    assert!(text.take("a").is_none());
    assert!(Json::integer(1).as_str().is_none());
    assert!(!Json::flag(false).is_null());
}

#[test]
fn broken_texts_are_refused() {
    assert!(parse_json("").is_err());
    assert!(parse_json("{").is_err());
    assert!(parse_json("{} {}").is_err());
}

#[test]
fn values_are_written_on_one_line() {
    let value = Json::object()
        .with("text", Json::text("a\r\n\"b\""))
        .with("flag", Json::flag(true))
        .with("number", Json::integer(18446744073709551615));
    assert_eq!(render_json(&value), r#"{"flag":true,"number":18446744073709551615,"text":"a\r\n\"b\""}"#);
}

#[test]
fn written_values_read_back() {
    for text in [r#"{"a":[1,-2,{"b":null}],"c":"\u0001"}"#, "[]", "{}", "null", r#""x""#] {
        let value = parse_json(text).unwrap();
        let written = render_json(&value);
        assert_eq!(written, text);
        assert_eq!(render_json(&parse_json(&written).unwrap()), written);
    }
}

#[test]
fn nesting_is_limited() {
    let deep = |depth: usize| format!("{}{}", "[".repeat(depth), "]".repeat(depth));
    assert_eq!(render_json(&parse_json(&deep(127)).unwrap()), deep(127));
    assert!(parse_json(&deep(128)).is_err());
}

#[test]
fn setting_a_member_replaces_it() {
    let value = Json::object().with("a", Json::integer(1)).with("a", Json::integer(2));
    assert_eq!(render_json(&value), r#"{"a":2}"#);
    assert!(matches!(value.take("a"), Some(Json::Unsigned(2))));
}

#[test]
fn floats_come_back_as_numbers() {
    let mut values = vec![0.0, -0.0, 0.1, 1.5, 1e16, 1e21, 123456789012345680.0, f64::MIN_POSITIVE, 5e-324, f64::EPSILON];
    for step in 0..1000 {
        values.push(f64::from_bits(f64::MAX.to_bits() - step));
        values.push(f64::from_bits(f64::MIN.to_bits() - step));
    }
    for value in values {
        let number = serde_json::Number::from_f64(value).unwrap();
        let written = render_json(&Json::object().with("a", Json::Float(number)).with("b", Json::text("x")));
        let read = parse_json(&written).unwrap();
        assert_eq!(read.as_object().unwrap().len(), 2);
        assert!(matches!(read.get("a"), Some(Json::Float(_))));
        assert_eq!(read.get("b").and_then(|text| text.as_str()), Some("x"));
    }
    let whole = render_json(&Json::Float(serde_json::Number::from(5u64)));
    assert!(matches!(parse_json(&whole), Ok(Json::Unsigned(5))));
}

#[test]
fn exact_values_are_told_by_depth_and_floats() {
    let exact = |text: &str, depth: usize| is_exact(&parse_json(text).unwrap(), depth);
    assert!(exact("1", 0));
    assert!(!exact("1.5", 9));
    assert!(!exact("[]", 0));
    assert!(exact("[]", 1));
    assert!(!exact(r#"{"a":{"b":1}}"#, 1));
    assert!(exact(r#"{"a":{"b":1}}"#, 2));
    assert!(!exact(r#"{"a":[1,{"b":0.5}],"c":1}"#, 9));
}

#[test]
fn parser_words_are_those_of_the_text() {
    let words = |text: &str| LabError::Json(parse_json(text).unwrap_err()).message().unwrap();
    assert_eq!(words("x"), "expected value at line 1 column 1");
    assert_eq!(words("{"), "EOF while parsing an object at line 1 column 1");
    assert_ne!(words("{"), words("[1,"));
    let failure = parse_json("[1,").unwrap_err();
    assert_eq!(failure.words, failure.error.to_string());
}
