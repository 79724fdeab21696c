use obelisk::text::{
    chars_equal_str, chars_of, eq_ignore_ascii_case, parse_u32, push_decimal, push_decimal_signed,
    push_hex2_i32, split_chars, split_once_chars, str_equals,
};

#[test]
fn text_comparisons() {
    assert!(str_equals("H264", "H264"));
    assert!(!str_equals("H264", "h264"));
    assert!(eq_ignore_ascii_case("Telephone-Event", "telephone-event"));
    assert!(!eq_ignore_ascii_case("telephone-event", "telephone-events"));
    assert!(chars_equal_str(&chars_of("abc"), "abc"));
}

#[test]
fn splitting() {
    let parts = split_chars(&chars_of("a;b;;c"), ';');
    let parts: Vec<String> = parts.iter().map(|p| p.iter().collect()).collect();
    assert_eq!(parts, vec!["a", "b", "", "c"]);
    let parts = split_chars(&chars_of(""), ';');
    assert_eq!(parts.len(), 1);
    let (k, v) = split_once_chars(&chars_of("max-fs=8160=x"), '=').unwrap();
    assert_eq!((k.iter().collect::<String>(), v.iter().collect::<String>()), ("max-fs".to_string(), "8160=x".to_string()));
    assert!(split_once_chars(&chars_of("novalue"), '=').is_none());
}

#[test]
fn number_parsing_like_from_str() {
    assert_eq!(parse_u32(&chars_of("0")), Some(0));
    assert_eq!(parse_u32(&chars_of("+42")), Some(42));
    assert_eq!(parse_u32(&chars_of("4294967295")), Some(u32::MAX));
    assert_eq!(parse_u32(&chars_of("4294967296")), None);
    assert_eq!(parse_u32(&chars_of("")), None);
    assert_eq!(parse_u32(&chars_of("+")), None);
    assert_eq!(parse_u32(&chars_of("-1")), None);
    assert_eq!(parse_u32(&chars_of(" 1")), None);
    assert_eq!(parse_u32(&chars_of("0012")), Some(12));
}

#[test]
fn number_formatting() {
    let mut s = String::new();
    push_decimal(&mut s, 0);
    push_decimal(&mut s, 1234567890);
    push_decimal_signed(&mut s, -45);
    assert_eq!(s, "01234567890-45");
    let mut h = String::new();
    push_hex2_i32(&mut h, 10);
    push_hex2_i32(&mut h, 255);
    push_hex2_i32(&mut h, -2);
    assert_eq!(h, "0AFFFFFFFFFE");
}
