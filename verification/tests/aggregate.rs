use xcurl::cli::{parse_kv, parse_url, CurlArg, Param, UrlPart, KV};
use xcurl::pairs::upsert;
use xcurl::request::merge;

fn kv(key: &str, value: &str) -> KV {
    KV { key: key.to_string(), value: value.to_string() }
}

fn arg(target: &str, tokens: &[&str]) -> CurlArg {
    CurlArg {
        url_and_query: parse_url(target).unwrap(),
        method: None,
        form: false,
        multipart: false,
        offline: false,
        headers_and_body: tokens.iter().map(|t| parse_kv(t).unwrap()).collect(),
    }
}

#[test]
fn query_of_the_url_comes_back_in_order() {
    let a = arg("http://x.test/p?a=1&b=2", &[]);
    assert_eq!(a.get_base_url(), "http://x.test/p");
    assert_eq!(a.get_query(), vec![kv("a", "1"), kv("b", "2")]);
}

#[test]
fn explicit_query_replaces_the_value_of_the_url() {
    let a = arg("http://x.test/p?a=1", &["a==2"]);
    assert_eq!(a.get_query(), vec![kv("a", "2")]);
}

#[test]
fn replaced_keys_keep_their_place() {
    let a = arg("x.test/?a=1&b=2&c=3", &["d==4", "b==5", "a==6", "d==7"]);
    assert_eq!(a.get_query(), vec![kv("a", "6"), kv("b", "5"), kv("c", "3"), kv("d", "7")]);
}

#[test]
fn repeated_key_in_the_url_keeps_its_last_value() {
    let a = arg("x.test/?a=1&b=2&a=3", &[]);
    assert_eq!(a.get_query(), vec![kv("a", "3"), kv("b", "2")]);
}

#[test]
fn query_keys_are_case_sensitive() {
    let a = arg("x.test/?a=1", &["A==2"]);
    assert_eq!(a.get_query(), vec![kv("a", "1"), kv("A", "2")]);
}

#[test]
fn other_classes_in_the_url_slot_are_passed_over() {
    let a = CurlArg {
        url_and_query: UrlPart {
            url: "http://x.test/".to_string(),
            query: vec![Param::Header(kv("h", "1")), Param::Query(kv("q", "2")), Param::Body(kv("b", "3"))],
        },
        method: None,
        form: false,
        multipart: false,
        offline: false,
        headers_and_body: vec![],
    };
    assert_eq!(a.get_query(), vec![kv("q", "2")]);
}

#[test]
fn headers_are_lower_case_and_last_write_wins() {
    let a = arg("x.test", &["Accept:text/html", "X-Id:1", "ACCEPT:application/json", "x-id:2"]);
    assert_eq!(
        a.get_headers(),
        vec![kv("accept", "application/json"), kv("x-id", "2"), kv("content-type", "application/json")]
    );
}

#[test]
fn content_type_defaults_to_json() {
    let a = arg("x.test", &[]);
    assert_eq!(a.get_headers(), vec![kv("content-type", "application/json")]);
}

#[test]
fn form_mode_sets_the_content_type() {
    let mut a = arg("x.test", &[]);
    a.form = true;
    assert_eq!(a.get_headers(), vec![kv("content-type", "application/x-www-form-urlencoded")]);
    a.multipart = true;
    assert_eq!(a.get_headers(), vec![kv("content-type", "application/x-www-form-urlencoded")]);
}

#[test]
fn multipart_mode_sets_the_content_type() {
    let mut a = arg("x.test", &[]);
    a.multipart = true;
    assert_eq!(a.get_headers(), vec![kv("content-type", "multipart/form-data")]);
}

#[test]
fn explicit_content_type_wins_over_the_mode() {
    let mut a = arg("x.test", &["Content-Type:text/plain", "a:b"]);
    a.form = true;
    a.multipart = true;
    assert_eq!(a.get_headers(), vec![kv("content-type", "text/plain"), kv("a", "b")]);
}

#[test]
fn body_fields_keep_order_and_duplicates() {
    let a = arg("x.test", &["b=2", "h:1", "a=1", "q==0", "b=3"]);
    assert_eq!(a.get_body(), vec![kv("b", "2"), kv("a", "1"), kv("b", "3")]);
}

#[test]
fn method_defaults_to_get() {
    let mut a = arg("x.test", &[]);
    assert_eq!(a.get_method(), "GET");
    a.method = Some("POST".to_string());
    assert_eq!(a.get_method(), "POST");
}

#[test]
fn upsert_replaces_in_place_or_appends() {
    let mut m = vec![kv("a", "1"), kv("b", "2")];
    upsert(&mut m, kv("a", "3"));
    assert_eq!(m, vec![kv("a", "3"), kv("b", "2")]);
    upsert(&mut m, kv("c", "4"));
    assert_eq!(m, vec![kv("a", "3"), kv("b", "2"), kv("c", "4")]);
}

#[test]
fn merge_keeps_first_place_and_last_value() {
    let m = merge(&vec![kv("b", "1"), kv("a", "2"), kv("b", "3"), kv("c", "4"), kv("a", "5")]);
    assert_eq!(m, vec![kv("b", "3"), kv("a", "5"), kv("c", "4")]);
    assert_eq!(merge(&vec![]), Vec::<KV>::new());
}

#[test]
fn parameters_are_sorted_into_three_parts() {
    let a = arg("x.test/?a=1", &["A:1", "a==2", "b=3", "a:4", "b=5"]);
    let parts = a.aggregate();
    assert_eq!(parts.headers, vec![kv("a", "4"), kv("content-type", "application/json")]);
    assert_eq!(parts.query, vec![kv("a", "2")]);
    assert_eq!(parts.body, vec![kv("b", "3"), kv("b", "5")]);
}
