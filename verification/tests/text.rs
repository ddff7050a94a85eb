//! Percent-encoding, JSON access and text helpers.

use web_search::encoding::{decode, encode};
use web_search::json::{first_str, get, parse_json, str_field, JsonValue};
use web_search::text::{str_contains, str_starts_with};

#[test]
fn query_components_are_percent_encoded() {
    assert_eq!(encode("a b&c=d/é"), "a%20b%26c%3Dd%2F%C3%A9");
    assert_eq!(encode("safe-._~AZaz09"), "safe-._~AZaz09");
    assert_eq!(decode("a%20b"), Some("a b".to_string()));
    assert_eq!(decode("plain"), Some("plain".to_string()));
    assert_eq!(decode("%FF"), None);
}

#[test]
fn json_members_are_read_by_key() {
    let v = parse_json(r#"{"a":"x","b":["y","z"],"n":3,"neg":-1,"o":{"k":null}}"#).unwrap();
    assert_eq!(str_field(&v, "a"), "x");
    assert_eq!(str_field(&v, "missing"), "");
    assert_eq!(first_str(get(&v, "b")), "y");
    assert_eq!(first_str(get(&v, "a")), "x");
    assert_eq!(first_str(get(&v, "n")), "");
    assert!(matches!(get(&v, "n"), Some(JsonValue::Number(Some(3)))));
    assert!(matches!(get(&v, "neg"), Some(JsonValue::Number(None))));
    assert!(matches!(get(&v, "o"), Some(JsonValue::Object(_))));
    assert!(parse_json("not json").is_none());
    assert!(get(&JsonValue::Null, "a").is_none());
}

#[test]
fn substring_tests() {
    assert!(str_contains("https://mojeek.com/x", "mojeek.com"));
    assert!(str_contains("abc", ""));
    assert!(!str_contains("ab", "abc"));
    assert!(str_starts_with("/url?q=x", "/url?q="));
    assert!(!str_starts_with("/u", "/url"));
}
