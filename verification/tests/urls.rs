use xcurl::cli::{parse_url, query_params, strip_query, with_default_scheme, Param, KV};
use xcurl::error::ToolError;

fn query(key: &str, value: &str) -> Param {
    Param::Query(KV { key: key.to_string(), value: value.to_string() })
}

#[test]
fn query_string_becomes_parameters() {
    let part = parse_url("http://x.test/p?a=1&b=2").unwrap();
    assert_eq!(part.url, "http://x.test/p");
    assert_eq!(part.query, vec![query("a", "1"), query("b", "2")]);
}

#[test]
fn default_scheme_is_put_in_front() {
    let part = parse_url("example.test/items?x=1").unwrap();
    assert_eq!(part.url, "http://example.test/items");
    assert_eq!(part.query, vec![query("x", "1")]);
}

#[test]
fn secure_scheme_is_kept() {
    let part = parse_url("https://example.test/a/b").unwrap();
    assert_eq!(part.url, "https://example.test/a/b");
    assert!(part.query.is_empty());
}

#[test]
fn url_is_normalized() {
    let part = parse_url("http://Example.TEST").unwrap();
    assert_eq!(part.url, "http://example.test/");
    let part = parse_url("localhost:8080").unwrap();
    assert_eq!(part.url, "http://localhost:8080/");
    let part = parse_url("http://x.test:80/a/../b").unwrap();
    assert_eq!(part.url, "http://x.test/b");
}

#[test]
fn fragment_is_no_part_of_url_or_query() {
    let part = parse_url("http://x.test/p?a=1#b?c=2").unwrap();
    assert_eq!(part.url, "http://x.test/p");
    assert_eq!(part.query, vec![query("a", "1")]);
    let part = parse_url("http://x.test/p#frag?x=1").unwrap();
    assert_eq!(part.url, "http://x.test/p");
    assert!(part.query.is_empty());
}

#[test]
fn url_never_holds_a_question_mark() {
    for target in ["x.test?", "x.test/?a", "http://x.test/a?b?c", "x.test/%3F?q=%3F", "x.test/#?"] {
        let part = parse_url(target).unwrap();
        assert!(!part.url.contains('?'), "{}", part.url);
        assert!(part.query.iter().all(|p| p.is_query()));
    }
}

#[test]
fn query_pairs_are_decoded() {
    let part = parse_url("x.test/?q=a%20b&r=c+d&s=%E2%82%AC&t").unwrap();
    assert_eq!(part.query, vec![query("q", "a b"), query("r", "c d"), query("s", "€"), query("t", "")]);
}

#[test]
fn repeated_and_empty_pairs() {
    let part = parse_url("x.test/?a=1&&a=2&=3&b==4").unwrap();
    assert_eq!(part.query, vec![query("a", "1"), query("a", "2"), query("", "3"), query("b", "=4")]);
}

#[test]
fn malformed_url_is_rejected() {
    assert!(matches!(parse_url("http://"), Err(ToolError::InvalidUrl(_))));
    assert!(matches!(parse_url(""), Err(ToolError::InvalidUrl(_))));
    assert!(matches!(parse_url("http://x.test:notaport/"), Err(ToolError::InvalidUrl(_))));
    assert!(matches!(parse_url("http://a b/"), Err(ToolError::InvalidUrl(_))));
}

#[test]
fn url_part_clone_is_equal() {
    let part = parse_url("http://x.test/p?a=1&b=2").unwrap();
    assert_eq!(part.clone(), part);
}

#[test]
fn serialized_url_is_cut_at_the_end_of_its_path() {
    assert_eq!(strip_query("http://x.test/p?a=1&b=2#f"), "http://x.test/p");
    assert_eq!(strip_query("http://x.test/p#f?x=1"), "http://x.test/p");
    assert_eq!(strip_query("http://x.test/p?"), "http://x.test/p");
    assert_eq!(strip_query("http://x.test/p?a?b"), "http://x.test/p");
    assert_eq!(strip_query("http://x.test/"), "http://x.test/");
    assert_eq!(strip_query(""), "");
}

#[test]
fn scheme_goes_in_front_unless_the_target_has_one() {
    assert_eq!(with_default_scheme("x.test/a"), "http://x.test/a");
    assert_eq!(with_default_scheme("https://x.test"), "https://x.test");
    assert_eq!(with_default_scheme("http://x.test"), "http://x.test");
    assert_eq!(with_default_scheme("httpbin.org/get"), "http://httpbin.org/get");
    assert_eq!(with_default_scheme("https.test"), "http://https.test");
    assert_eq!(with_default_scheme("http:/x"), "http://http:/x");
    assert_eq!(with_default_scheme("ftp://x.test"), "http://ftp://x.test");
    assert_eq!(with_default_scheme(""), "http://");
}

#[test]
fn target_that_begins_with_the_letters_of_the_scheme() {
    let part = parse_url("httpbin.org/get").unwrap();
    assert_eq!(part.url, "http://httpbin.org/get");
    assert!(part.query.is_empty());
    let part = parse_url("httpx").unwrap();
    assert_eq!(part.url, "http://httpx/");
}

#[test]
fn pairs_become_query_parameters() {
    let pairs = vec![("a".to_string(), "1".to_string()), ("b".to_string(), String::new())];
    assert_eq!(query_params(pairs), vec![query("a", "1"), query("b", "")]);
    assert_eq!(query_params(vec![]), Vec::<Param>::new());
}
