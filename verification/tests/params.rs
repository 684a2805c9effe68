use xcurl::cli::{parse_kv, Param, KV};
use xcurl::error::ToolError;

fn kv(key: &str, value: &str) -> KV {
    KV { key: key.to_string(), value: value.to_string() }
}

fn rejected(token: &str) -> bool {
    match parse_kv(token) {
        Err(ToolError::InvalidParameter(t)) => t == token,
        _ => false,
    }
}

#[test]
fn colon_makes_a_header() {
    assert_eq!(parse_kv("a:b").unwrap(), Param::Header(kv("a", "b")));
}

#[test]
fn double_equals_makes_a_query_parameter() {
    assert_eq!(parse_kv("a==b").unwrap(), Param::Query(kv("a", "b")));
}

#[test]
fn single_equals_makes_a_body_field() {
    assert_eq!(parse_kv("a=b").unwrap(), Param::Body(kv("a", "b")));
}

#[test]
fn only_the_first_delimiter_counts() {
    assert_eq!(parse_kv("host:example.test:8080").unwrap(), Param::Header(kv("host", "example.test:8080")));
    assert_eq!(parse_kv("expr=a=b").unwrap(), Param::Body(kv("expr", "a=b")));
    assert_eq!(parse_kv("when=12:30").unwrap(), Param::Body(kv("when", "12:30")));
    assert_eq!(parse_kv("q==a==b").unwrap(), Param::Query(kv("q", "a==b")));
    assert_eq!(parse_kv("x:=1").unwrap(), Param::Header(kv("x", "=1")));
}

#[test]
fn key_and_value_are_trimmed() {
    assert_eq!(parse_kv("  accept :  text/html  ").unwrap(), Param::Header(kv("accept", "text/html")));
    assert_eq!(parse_kv(" name = bob ").unwrap(), Param::Body(kv("name", "bob")));
    assert_eq!(parse_kv(" tag == urgent ").unwrap(), Param::Query(kv("tag", "urgent")));
    assert_eq!(parse_kv("\u{a0}a\t:\u{3000}b\u{2003}").unwrap(), Param::Header(kv("a", "b")));
}

#[test]
fn white_space_inside_a_value_stays() {
    assert_eq!(parse_kv("title=hello  big world").unwrap(), Param::Body(kv("title", "hello  big world")));
    assert_eq!(parse_kv("first name:x").unwrap(), Param::Header(kv("first name", "x")));
}

#[test]
fn equals_after_a_gap_is_part_of_the_value() {
    assert_eq!(parse_kv("a= =b").unwrap(), Param::Body(kv("a", "=b")));
}

#[test]
fn values_may_be_empty() {
    assert_eq!(parse_kv("a:").unwrap(), Param::Header(kv("a", "")));
    assert_eq!(parse_kv("a=").unwrap(), Param::Body(kv("a", "")));
    assert_eq!(parse_kv("a==").unwrap(), Param::Query(kv("a", "")));
    assert_eq!(parse_kv("a:   ").unwrap(), Param::Header(kv("a", "")));
}

#[test]
fn token_without_delimiter_is_rejected() {
    assert!(rejected("abc"));
    assert!(rejected(""));
    assert!(rejected("   "));
}

#[test]
fn token_with_empty_key_is_rejected() {
    assert!(rejected(":b"));
    assert!(rejected("=b"));
    assert!(rejected("==b"));
    assert!(rejected("  :b"));
    assert!(rejected(" \t =b"));
}

#[test]
fn classes_are_told_apart() {
    let q = parse_kv("a==b").unwrap();
    let h = parse_kv("a:b").unwrap();
    let b = parse_kv("a=b").unwrap();
    assert!(q.is_query() && !q.is_header() && !q.is_body());
    assert!(!h.is_query() && h.is_header() && !h.is_body());
    assert!(!b.is_query() && !b.is_header() && b.is_body());
}

#[test]
fn clones_are_equal() {
    let p = parse_kv("a==b").unwrap();
    assert_eq!(p.clone(), p);
    let pair = kv("k", "v");
    assert_eq!(pair.clone(), pair);
}

#[test]
fn non_ascii_text_is_kept() {
    assert_eq!(parse_kv("名前=太郎").unwrap(), Param::Body(kv("名前", "太郎")));
    assert_eq!(parse_kv("münze==€").unwrap(), Param::Query(kv("münze", "€")));
}
