//! JSON, texts, names and paths.

use pi_acp::glob::glob_matches_chars;
use pi_acp::json::{from_value, parse, to_value, Json, JsonMap, JsonNumber};
use pi_acp::path::{is_absolute, resolve_path};
use pi_acp::table::Table;
use pi_acp::text::{
    comes_before, contains, decimal_text, integer_text, lines, read_unsigned, replace, sort,
    split_once, take_chars, trim,
};
use pi_acp::translate::prompt::{prompt_to_pi_message, ContentBlock};
use serde_json::Value;

#[test]
fn values_are_read_as_they_are_written() {
    let text = r#"{"b":[1,-2,0.5,true,null,"x"],"a":{"nested":"y"},"big":18446744073709551615}"#;
    let v = parse(text).expect("JSON");
    assert_eq!(v.compact(), text);
    assert_eq!(v.get("big").and_then(|b| b.as_u64()), Some(u64::MAX));
    assert_eq!(v.get_array("b").map(|b| b.len()), Some(6));
    let outside: Value = serde_json::from_str(text).unwrap();
    assert_eq!(to_value(&v), outside);
    assert_eq!(from_value(&outside), v);
    assert_eq!(v.clone(), v);
    assert!(parse("{ not json").is_none());
    assert_eq!(
        v.pretty(),
        serde_json::to_string_pretty(&outside).unwrap()
    );
}

#[test]
fn numbers_keep_their_kinds() {
    assert!(matches!(
        parse("3"),
        Some(Json::Number(JsonNumber::Unsigned(3)))
    ));
    assert!(matches!(
        parse("-3"),
        Some(Json::Number(JsonNumber::Signed(-3)))
    ));
    match parse("0.50") {
        Some(Json::Number(JsonNumber::Real(r))) => assert_eq!(r.text(), "0.5"),
        other => panic!("unexpected number: {other:?}"),
    }
    assert_eq!(Json::unsigned(7).as_i64(), Some(7));
    assert_eq!(Json::signed(-7).as_i64(), Some(-7));
    assert_eq!(Json::signed(-7).as_u64(), None);
}

#[test]
fn members_are_put_once() {
    let m = JsonMap::new()
        .with("a", Json::unsigned(1))
        .with("b", Json::text("x"))
        .with("a", Json::unsigned(2));
    assert_eq!(m.len(), 2);
    assert_eq!(m.name_at(0), "a");
    assert_eq!(m.get("a").and_then(|a| a.as_u64()), Some(2));
    assert_eq!(m.get("b").and_then(|b| b.as_str()), Some("x"));
    assert!(m.get("c").is_none());
    let m = m.with_opt("c", None).with_text("d", &Some("y".to_string()));
    assert_eq!(m.len(), 3);
}

#[test]
fn shown_numbers_are_read_back() {
    for n in [0, 9, 10, 4_294_967_296, u64::MAX] {
        assert_eq!(read_unsigned(&decimal_text(n)), Some(n));
    }
    assert_eq!(integer_text(i64::MIN), "-9223372036854775808");
    assert_eq!(read_unsigned("18446744073709551616"), None);
    assert_eq!(read_unsigned(""), None);
}

#[test]
fn texts_are_ordered_by_their_characters() {
    let v = vec!["b".to_string(), "a".to_string(), "ab".to_string()];
    let sorted = sort(v);
    assert_eq!(sorted, vec!["a", "ab", "b"]);
    assert!(comes_before("a", "ab"));
    assert!(!comes_before("a", "a"));
}

#[test]
fn texts_are_taken_apart() {
    assert_eq!(trim(" \u{a0}x\n"), "x");
    assert!(contains("hello", "ell"));
    assert_eq!(lines("a\r\nb\n"), vec!["a", "b"]);
    assert_eq!(split_once("a:b:c", ':'), Some(("a", "b:c")));
    assert_eq!(replace("a-b-c", "-", "+"), "a+b+c");
    assert_eq!(take_chars("h\u{e9}llo", 2), "h\u{e9}");
}

fn matches(value: &str, pattern: &str) -> bool {
    glob_matches_chars(&value.chars().collect(), &pattern.chars().collect())
}

#[test]
fn a_star_stays_within_its_part() {
    assert!(matches("abc", "abc"));
    assert!(matches("a/b", "a/*"));
    assert!(!matches("a/b/c", "a/*"));
    assert!(matches("abc", "a*c"));
    assert!(!matches("abd", "a*c"));
}

#[test]
fn a_table_holds_one_value_per_name() {
    let mut t: Table<String> = Table::new();
    assert!(t.is_empty());
    t.set("a", "1".to_string());
    t.set("a", "2".to_string());
    assert_eq!(t.get("a").map(String::as_str), Some("2"));
    t.remove("a");
    assert!(t.get("a").is_none());
}

#[test]
fn a_resolved_path_is_absolute() {
    assert!(is_absolute(&resolve_path("/w", "a/b", false), false));
    assert!(is_absolute(&resolve_path("/w", "/a/b", false), false));
    assert!(!is_absolute("a/b", false));
}

#[test]
fn texts_of_a_prompt_are_kept_in_order() {
    let out = prompt_to_pi_message(&vec![
        ContentBlock::Text("a".to_string()),
        ContentBlock::Other,
        ContentBlock::Text("b".to_string()),
    ]);
    let a = out.message.find('a').expect("the first text");
    let b = out.message.rfind('b').expect("the second text");
    assert!(a < b);
}

#[test]
fn an_object_with_the_parsers_name_first_is_a_text_of_its_own() {
    let v = parse(r#"{"$serde_json::private::RawValue":"[1,2]"}"#).expect("JSON");
    assert_eq!(v.compact(), "[1,2]");
    let v = parse(r#"{"a":1,"$serde_json::private::RawValue":"2"}"#).expect("JSON");
    assert_eq!(v.compact(), r#"{"a":1,"$serde_json::private::RawValue":"2"}"#);
    assert!(parse(r#"{"$serde_json::private::RawValue":1}"#).is_none());
}

#[test]
fn whole_numbers_can_be_told_with_a_fraction() {
    for (n, shown) in [("1", "1.0"), ("0", "0.0"), ("-3", "-3.0"), ("0.25", "0.25")] {
        match parse(n) {
            Some(Json::Number(x)) => assert_eq!(Json::Number(x.to_real()).compact(), shown),
            other => panic!("unexpected value: {other:?}"),
        }
    }
    let large = JsonNumber::Unsigned(u64::MAX).to_real();
    assert_eq!(to_value(&Json::Number(large)).as_f64(), Some(u64::MAX as f64));
}
