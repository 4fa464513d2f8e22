use column_mapping_lab::{
    compare_bytes, compare_text, decimal_text, join_path, padded_text, parse_i64, parse_u64, same_text,
    signed_decimal_text, starts_with, text_lines, IntegerError, Order, TextMap,
};

#[test]
fn bytes_are_ordered_by_the_first_difference() {
    assert_eq!(compare_bytes(b"abc", b"abd"), Order::Less);
    assert_eq!(compare_bytes(b"abd", b"abc"), Order::Greater);
    assert_eq!(compare_bytes(b"abc", b"abc"), Order::Equal);
    assert_eq!(compare_bytes(b"ab", b"abc"), Order::Less);
    assert_eq!(compare_bytes(b"", b""), Order::Equal);
    assert_eq!(compare_bytes(&[0xff], &[0x7f, 0xff]), Order::Greater);
}

#[test]
fn text_is_ordered_as_its_bytes_are() {
    assert_eq!(compare_text("a", "b"), Order::Less);
    assert_eq!(compare_text("\u{e9}", "z"), Order::Greater);
    assert_eq!(compare_text("\u{ffff}", "\u{10000}"), Order::Less);
    assert_eq!(compare_text("same", "same"), Order::Equal);
}

#[test]
fn prefixes_are_found() {
    assert!(starts_with("partition_year", "partition_"));
    assert!(starts_with("anything", ""));
    assert!(!starts_with("part", "partition_"));
    assert!(!starts_with("event_id", "partition_"));
    assert!(same_text("event_id", "event_id"));
    assert!(!same_text("event_id", "event_ids"));
}

#[test]
fn lines_end_as_in_text_files() {
    assert_eq!(text_lines("a\nb"), vec!["a", "b"]);
    assert_eq!(text_lines("a\nb\n"), vec!["a", "b"]);
    assert_eq!(text_lines("a\r\nb\r"), vec!["a", "b\r"]);
    assert_eq!(text_lines("\n\n"), vec!["", ""]);
    assert!(text_lines("").is_empty());
    let text = "one\r\n\ntwo\rthree\n\n";
    let expected: Vec<&str> = text.lines().collect();
    assert_eq!(text_lines(text), expected);
}

#[test]
fn paths_are_joined() {
    assert_eq!(join_path("/lab", "tables"), "/lab/tables");
    assert_eq!(join_path("/lab/", "tables"), "/lab/tables");
    assert_eq!(join_path("", "tables"), "tables");
    assert_eq!(join_path("/lab", "/tables"), "/tables");
    assert_eq!(join_path("/lab", ""), "/lab/");
    for (base, path) in [("/lab", "a/b"), ("/", "a"), ("x", ""), ("", ""), ("x", "/y")] {
        assert_eq!(join_path(base, path), std::path::Path::new(base).join(path).to_str().unwrap());
    }
}

#[test]
fn numbers_are_written() {
    assert_eq!(decimal_text(0), "0");
    assert_eq!(decimal_text(u64::MAX), "18446744073709551615");
    assert_eq!(signed_decimal_text(9), "9");
    assert_eq!(signed_decimal_text(-12), "-12");
    assert_eq!(signed_decimal_text(i64::MIN), "-9223372036854775808");
    assert_eq!(padded_text(7, 20), "00000000000000000007");
    assert_eq!(padded_text(123, 2), "23");
}

#[test]
fn numbers_are_read() {
    assert_eq!(parse_i64("100001"), Ok(100001));
    assert_eq!(parse_i64("-5"), Ok(-5));
    assert_eq!(parse_i64("+5"), Ok(5));
    assert_eq!(parse_i64("9223372036854775807"), Ok(i64::MAX));
    assert_eq!(parse_i64("-9223372036854775808"), Ok(i64::MIN));
    assert_eq!(parse_i64("9223372036854775808"), Err(IntegerError::TooLarge));
    assert_eq!(parse_i64("-9223372036854775809"), Err(IntegerError::TooSmall));
    assert_eq!(parse_i64(""), Err(IntegerError::Empty));
    assert_eq!(parse_i64("12a"), Err(IntegerError::InvalidDigit));
    assert_eq!(parse_i64(" 1"), Err(IntegerError::InvalidDigit));
    assert_eq!(parse_i64("-"), Err(IntegerError::InvalidDigit));
    assert_eq!(parse_u64("00000000000000000003"), Ok(3));
    assert_eq!(parse_u64("18446744073709551615"), Ok(u64::MAX));
    assert_eq!(parse_u64("18446744073709551616"), Err(IntegerError::TooLarge));
    assert_eq!(parse_u64("-1"), Err(IntegerError::InvalidDigit));
}

#[test]
fn written_numbers_read_back() {
    for n in [0, 9, 10, 99, 1000, u64::MAX] {
        assert_eq!(parse_u64(&decimal_text(n)), Ok(n));
        assert_eq!(parse_u64(&padded_text(n, 20)), Ok(n));
    }
    for n in [0, -1, 7, i64::MIN, i64::MAX] {
        assert_eq!(parse_i64(&signed_decimal_text(n)), Ok(n));
    }
}

#[test]
fn reading_agrees_with_std() {
    for text in ["", "+", "-", "-0", "+0", "007", "1_000", "99999999999999999999", "-99999999999999999999", "1a"] {
        assert_eq!(parse_i64(text).ok(), text.parse::<i64>().ok());
        assert_eq!(parse_u64(text).ok(), text.parse::<u64>().ok());
    }
}

#[test]
fn map_keeps_its_keys_in_order() {
    let map = TextMap::new()
        .with("b".to_string(), 1)
        .with("c".to_string(), 2)
        .with("a".to_string(), 3)
        .with("b".to_string(), 4);
    assert_eq!(map.len(), 3);
    assert_eq!(map.entry(0), ("a", &3));
    assert_eq!(map.entry(1), ("b", &4));
    assert_eq!(map.entry(2), ("c", &2));
    assert_eq!(map.get("c"), Some(&2));
    assert_eq!(map.get("d"), None);
    assert_eq!(map.take("a"), Some(3));
    assert_eq!(TextMap::<i32>::new().take("a"), None);
}
