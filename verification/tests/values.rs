use cc_proxy::json::Json;
use cc_proxy::table::Table;
use cc_proxy::text::{
    at_most, blank, byte_length, find_char, starts_with, strip_prefix, to_ascii_lowercase,
    to_decimal, trim, trim_end_matches,
};

#[test]
fn json_goes_through_text_and_back() {
    let value = Json::parse(r#" {"b": [1, -2, 3.5, null, true, "x"], "a": {"c": ""}} "#).unwrap();
    assert_eq!(
        value.to_text(),
        r#"{"a":{"c":""},"b":[1,-2,3.5,null,true,"x"]}"#
    );
    assert_eq!(Json::from_value(value.to_value()), value.clone());
    assert_eq!(Json::parse("{"), None);
    assert_eq!(Json::parse(""), None);
}

#[test]
fn the_later_of_two_members_counts() {
    let value = Json::parse(r#"{"a": 1, "a": 2}"#).unwrap();
    assert_eq!(value.get("a").and_then(|v| v.as_u32()), Some(2));
    let doubled = Json::Object(vec![
        ("a".to_string(), Json::Bool(false)),
        ("a".to_string(), Json::Bool(true)),
    ]);
    assert_eq!(doubled.get("a"), Some(&Json::Bool(true)));
    assert_eq!(doubled.to_text(), r#"{"a":true}"#);
}

#[test]
fn members_are_set_and_removed() {
    let mut value = Json::Null;
    value.set("a", Json::string("x"));
    value.set("b", Json::Null);
    value.set("a", Json::string("y"));
    assert_eq!(value.to_text(), r#"{"a":"y","b":null}"#);
    value.remove("b");
    value.remove("none");
    assert_eq!(value.to_text(), r#"{"a":"y"}"#);
    let mut list = Json::Array(vec![]);
    list.remove("a");
    assert_eq!(list, Json::Array(vec![]));
    let nested = Json::object().with("k", Json::object().with("l", Json::Bool(true)));
    assert_eq!(nested.to_text(), r#"{"k":{"l":true}}"#);
}

#[test]
fn values_are_read_by_their_kind() {
    let value = Json::parse(r#"{"s": "t", "n": 7, "big": 4294967296, "neg": -1, "l": [1]}"#).unwrap();
    assert_eq!(value.get("s").and_then(|v| v.as_str()), Some("t"));
    assert_eq!(value.get("n").and_then(|v| v.as_str()), None);
    assert_eq!(value.get("n").and_then(|v| v.as_u32()), Some(7));
    assert_eq!(value.get("big").and_then(|v| v.as_u32()), None);
    assert_eq!(value.get("neg").and_then(|v| v.as_u32()), None);
    assert_eq!(value.get("l").and_then(|v| v.as_array()).map(|l| l.len()), Some(1));
    assert_eq!(value.get("l").and_then(|v| v.get("s")), None);
}

#[test]
fn tables_keep_one_value_per_name() {
    let mut t = Table::new();
    t.insert("a".to_string(), 1);
    t.insert("b".to_string(), 2);
    t.insert("a".to_string(), 3);
    assert_eq!(t.len(), 2);
    assert_eq!(t.get("a"), Some(&3));
    assert_eq!(t.get("c"), None);
    let copy = t.clone();
    t.insert("c".to_string(), 4);
    assert_eq!(copy.get("c"), None);
    assert_eq!(copy.get("b"), Some(&2));
    assert_eq!(*t.value_at(1), 2);
}

#[test]
fn text_is_trimmed_like_white_space() {
    assert_eq!(trim(" \t\r\n a b \u{a0}\u{3000}"), "a b");
    assert_eq!(trim("\u{1680}\u{2003}\u{2028}\u{202f}\u{205f}\u{85}"), "");
    assert_eq!(trim("\u{200b}x"), "\u{200b}x");
    assert!(blank(" \u{2029}\u{b}"));
    assert!(!blank(" x "));
    for c in (0u32..0x3100).filter_map(char::from_u32) {
        assert_eq!(blank(&c.to_string()), c.is_whitespace(), "{c:?}");
    }
}

#[test]
fn text_is_cut_at_its_ends() {
    assert_eq!(strip_prefix("data: x", "data: "), Some("x"));
    assert_eq!(strip_prefix("data:x", "data: "), None);
    assert!(starts_with("glm-5.2", "glm-5"));
    assert!(!starts_with("glm", "glm-5"));
    assert_eq!(trim_end_matches("m[1m][1m]", "[1m]"), "m");
    assert_eq!(trim_end_matches("[1m]", "[1m]"), "");
    assert_eq!(trim_end_matches("m[1m", "[1m]"), "m[1m");
    assert_eq!(find_char("aéb\nc\n", '\n'), Some(3));
    assert_eq!(find_char("abc", '\n'), None);
    assert_eq!(byte_length("é中"), 5);
}

#[test]
fn numbers_and_orders() {
    assert_eq!(to_decimal(0), "0");
    assert_eq!(to_decimal(10), "10");
    assert_eq!(to_decimal(u64::MAX), "18446744073709551615");
    for (a, b) in [("", "a"), ("a", "ab"), ("ab", "b"), ("Z", "a"), ("z", "é"), ("x", "x")] {
        assert!(at_most(a, b));
        assert_eq!(at_most(b, a), b <= a);
    }
}

#[test]
fn ascii_letters_lose_their_case() {
    assert_eq!(
        to_ascii_lowercase("ABCDEFGHIJKLMNOPQRSTUVWXYZ@[`{0ÉΣ"),
        "abcdefghijklmnopqrstuvwxyz@[`{0ÉΣ"
    );
    assert_eq!(to_ascii_lowercase(""), "");
}

#[test]
fn shadowed_members_are_left_out() {
    let value = Json::Object(vec![
        ("a".to_string(), Json::string("old")),
        ("b".to_string(), Json::Null),
        ("a".to_string(), Json::string("new")),
    ]);
    assert_eq!(value.to_text(), r#"{"a":"new","b":null}"#);
    assert_eq!(Json::from_value(value.to_value()).get("a"), Some(&Json::string("new")));
}
