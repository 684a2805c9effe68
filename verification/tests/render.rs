use xcurl::cli::KV;
use xcurl::error::ToolError;
use xcurl::output::colorful_tty::{join_spaced, request_output, response_output};
use xcurl::output::tools::{format_body, get_header_text_in_yaml, highlight_text, join, split_lines};
use xcurl::output::{ColorfulTTY, HttpRequest, HttpResponse, Output, Registry};

fn kv(key: &str, value: &str) -> KV {
    KV { key: key.to_string(), value: value.to_string() }
}

fn plain() -> ColorfulTTY {
    ColorfulTTY { stdout_color_mode: false, stderr_color_mode: false }
}

fn response(headers: Vec<KV>, body: &str) -> HttpResponse {
    HttpResponse {
        version: "HTTP/1.1".to_string(),
        status: "200 OK".to_string(),
        headers,
        body: body.to_string(),
    }
}

fn request(headers: Vec<KV>, body: Option<&str>) -> HttpRequest {
    HttpRequest {
        method: "POST".to_string(),
        path: "/items".to_string(),
        version: "HTTP/1.1".to_string(),
        headers,
        body: body.map(|b| b.to_string()),
    }
}

#[test]
fn no_body_formats_to_nothing() {
    assert_eq!(format_body("application/json", None).unwrap(), (String::new(), None));
    assert_eq!(format_body("text/html", None).unwrap(), (String::new(), None));
}

#[test]
fn json_body_is_pretty_printed() {
    let (kind, text) = format_body("application/json", Some("{\"b\":[1,2],\"a\":{\"c\":null}}".to_string())).unwrap();
    assert_eq!(kind, "json");
    assert_eq!(text.unwrap(), "{\n  \"a\": {\n    \"c\": null\n  },\n  \"b\": [\n    1,\n    2\n  ]\n}");
}

#[test]
fn malformed_json_body_is_refused() {
    assert!(matches!(format_body("application/json", Some("{oops".to_string())), Err(ToolError::MalformedBody(_))));
    assert!(matches!(format_body("application/json", Some("".to_string())), Err(ToolError::MalformedBody(_))));
}

#[test]
fn other_bodies_pass_through() {
    let xml = "<a>\n<b/></a>".to_string();
    assert_eq!(format_body("application/xml", Some(xml.clone())).unwrap(), ("xml".to_string(), Some(xml)));
    let html = "<p>{not json</p>".to_string();
    assert_eq!(format_body("text/html", Some(html.clone())).unwrap(), ("html".to_string(), Some(html)));
    let text = "{not json".to_string();
    assert_eq!(format_body("text/plain", Some(text.clone())).unwrap(), ("txt".to_string(), Some(text.clone())));
    assert_eq!(format_body("image/png", Some(text.clone())).unwrap(), ("txt".to_string(), Some(text.clone())));
    assert_eq!(format_body("a=1", Some(text.clone())).unwrap(), ("txt".to_string(), Some(text)));
}

#[test]
fn headers_are_written_one_per_line() {
    let headers = vec![kv("content-type", "text/html"), kv("x-id", "7"), kv("empty", "")];
    assert_eq!(get_header_text_in_yaml(&headers), "content-type: text/html\nx-id: 7\nempty: \n");
    assert_eq!(get_header_text_in_yaml(&vec![]), "");
}

#[test]
fn lines_keep_their_endings() {
    assert_eq!(split_lines("foo\nbar\nbaz"), vec!["foo\n", "bar\n", "baz"]);
    assert_eq!(split_lines("foo\n"), vec!["foo\n"]);
    assert_eq!(split_lines("\n\nx"), vec!["\n", "\n", "x"]);
    assert_eq!(split_lines(""), Vec::<String>::new());
}

#[test]
fn lines_are_those_of_the_highlighter() {
    for text in ["", "a", "a\n", "\n", "a\nb", "a\r\nb\n\n", "é\n€"] {
        let lines: Vec<String> = syntect::util::LinesWithEndings::from(text).map(|l| l.to_string()).collect();
        assert_eq!(split_lines(text), lines);
    }
}

#[test]
fn join_puts_parts_together() {
    assert_eq!(join(&vec!["ab".to_string(), "".to_string(), "c\n".to_string()]), "abc\n");
    assert_eq!(join(&vec![]), "");
    assert_eq!(join(&split_lines("x\ny\n\nz")), "x\ny\n\nz");
}

#[test]
fn highlighting_colors_each_line() {
    let registry = Registry::load();
    let out = highlight_text(&registry, "{\"a\": 1}\n", "json", None).unwrap();
    assert!(out.contains("\u{1b}[38;2;"));
    assert!(out.ends_with("\n"));
    let bare: String = strip_codes(&out);
    assert_eq!(bare, "{\"a\": 1}\n");
}

fn strip_codes(s: &str) -> String {
    let mut out = String::new();
    let mut rest = s;
    while let Some(i) = rest.find('\u{1b}') {
        out.push_str(&rest[..i]);
        let end = rest[i..].find('m').unwrap();
        rest = &rest[i + end + 1..];
    }
    out.push_str(rest);
    out
}

#[test]
fn highlighting_twice_gives_the_same_text() {
    let registry = Registry::load();
    let text = "<a href=\"x\">\n  <b>bold</b>\n</a>\n";
    let first = highlight_text(&registry, text, "html", Some("InspiredGitHub")).unwrap();
    let second = highlight_text(&registry, text, "html", Some("InspiredGitHub")).unwrap();
    assert_eq!(first, second);
    let other = Registry::load();
    assert_eq!(highlight_text(&other, text, "html", Some("InspiredGitHub")).unwrap(), first);
}

#[test]
fn highlighting_falls_back_to_plain_text() {
    let registry = Registry::load();
    let unknown = highlight_text(&registry, "a: 1\n", "no-such-kind", None).unwrap();
    let plain = highlight_text(&registry, "a: 1\n", "txt", None).unwrap();
    assert_eq!(unknown, plain);
    assert_eq!(strip_codes(&unknown), "a: 1\n");
}

#[test]
fn highlighting_nothing_gives_nothing() {
    let registry = Registry::load();
    assert_eq!(highlight_text(&registry, "", "json", None).unwrap(), "");
}

#[test]
fn unknown_theme_is_an_error() {
    let registry = Registry::load();
    match highlight_text(&registry, "x", "txt", Some("no-such-theme")) {
        Err(ToolError::RenderError(m)) => assert_eq!(m, "unknown theme: no-such-theme"),
        other => panic!("{:?}", other),
    }
    assert!(highlight_text(&registry, "x", "txt", Some("base16-ocean.dark")).is_ok());
    assert!(highlight_text(&registry, "x", "txt", Some("Solarized (dark)")).is_ok());
}

#[test]
fn default_theme_is_base16_ocean_dark() {
    let registry = Registry::load();
    let text = "{\"a\": [1, true]}";
    assert_eq!(
        highlight_text(&registry, text, "json", None).unwrap(),
        highlight_text(&registry, text, "json", Some("base16-ocean.dark")).unwrap()
    );
}

#[test]
fn words_are_joined_with_spaces() {
    assert_eq!(join_spaced("GET", "/", "HTTP/1.1"), "GET / HTTP/1.1");
    assert_eq!(join_spaced("", "", ""), "  ");
}

#[test]
fn streams_are_put_together() {
    assert_eq!(
        response_output("HTTP/1.1 200 OK", "a: b\n", "body".to_string()),
        ("body".to_string(), "HTTP/1.1 200 OK\na: b\n".to_string())
    );
    assert_eq!(
        request_output("GET / HTTP/1.1", "a: b\n", "{}"),
        (String::new(), "GET / HTTP/1.1\na: b\n{}".to_string())
    );
}

#[test]
fn plain_response_is_rendered_exactly() {
    let registry = Registry::load();
    let resp = response(vec![kv("content-type", "application/json; charset=utf-8"), kv("x-id", "7")], "{\"a\":1}");
    let (out, err) = plain().print_response(&registry, &resp).unwrap();
    assert_eq!(out, "{\n  \"a\": 1\n}");
    assert_eq!(err, "HTTP/1.1 200 OK\ncontent-type: application/json; charset=utf-8\nx-id: 7\n");
}

#[test]
fn response_without_body_has_an_empty_stream() {
    let registry = Registry::load();
    let resp = response(vec![kv("content-type", "application/json")], "");
    let (out, err) = plain().print_response(&registry, &resp).unwrap();
    assert_eq!(out, "");
    assert_eq!(err, "HTTP/1.1 200 OK\ncontent-type: application/json\n");
    let colorful = ColorfulTTY { stdout_color_mode: true, stderr_color_mode: false };
    assert_eq!(colorful.print_response(&registry, &resp).unwrap(), (out, err));
}

#[test]
fn response_without_content_type_is_read_as_json() {
    let registry = Registry::load();
    let resp = response(vec![kv("server", "x")], "[1]");
    let (out, _) = plain().print_response(&registry, &resp).unwrap();
    assert_eq!(out, "[\n  1\n]");
    let resp = response(vec![kv("server", "x")], "not json");
    assert!(matches!(plain().print_response(&registry, &resp), Err(ToolError::MalformedBody(_))));
    let colorful = ColorfulTTY { stdout_color_mode: true, stderr_color_mode: true };
    assert!(matches!(colorful.print_response(&registry, &resp), Err(ToolError::MalformedBody(_))));
}

#[test]
fn response_of_unknown_type_is_read_as_json() {
    let registry = Registry::load();
    let resp = response(vec![kv("content-type", "image/png")], "\u{89}PNG");
    assert!(matches!(plain().print_response(&registry, &resp), Err(ToolError::MalformedBody(_))));
}

#[test]
fn html_response_passes_through() {
    let registry = Registry::load();
    let resp = response(vec![kv("Content-Type", "text/html")], "<p>hi</p>");
    let (out, err) = plain().print_response(&registry, &resp).unwrap();
    assert_eq!(out, "<p>hi</p>");
    assert_eq!(err, "HTTP/1.1 200 OK\nContent-Type: text/html\n");
}

#[test]
fn each_stream_has_its_own_color_mode() {
    let registry = Registry::load();
    let resp = response(vec![kv("content-type", "text/html")], "<p>hi</p>\n");
    let plain_out = plain().print_response(&registry, &resp).unwrap();
    let only_out = ColorfulTTY { stdout_color_mode: true, stderr_color_mode: false };
    let (out, err) = only_out.print_response(&registry, &resp).unwrap();
    assert_eq!(err, plain_out.1);
    assert_eq!(out, highlight_text(&registry, "<p>hi</p>\n", "html", None).unwrap());
    let only_err = ColorfulTTY { stdout_color_mode: false, stderr_color_mode: true };
    let (out, err) = only_err.print_response(&registry, &resp).unwrap();
    assert_eq!(out, plain_out.0);
    let headers = highlight_text(&registry, "content-type: text/html\n", "yaml", None).unwrap();
    assert_eq!(err, format!("HTTP/1.1 200 OK\n{}", headers));
}

#[test]
fn plain_request_is_rendered_exactly() {
    let registry = Registry::load();
    let req = request(vec![kv("content-type", "application/json"), kv("accept", "*/*")], Some("{\"name\":\"bob\"}"));
    let (out, err) = plain().print_request(&registry, &req).unwrap();
    assert_eq!(out, "");
    assert_eq!(
        err,
        "POST /items HTTP/1.1\ncontent-type: application/json\naccept: */*\n{\n  \"name\": \"bob\"\n}"
    );
}

#[test]
fn form_request_body_passes_through() {
    let registry = Registry::load();
    let req = request(vec![kv("content-type", "application/x-www-form-urlencoded")], Some("a=1&b=2"));
    let (out, err) = plain().print_request(&registry, &req).unwrap();
    assert_eq!(out, "");
    assert_eq!(err, "POST /items HTTP/1.1\ncontent-type: application/x-www-form-urlencoded\na=1&b=2");
}

#[test]
fn request_without_body() {
    let registry = Registry::load();
    let req = request(vec![kv("accept", "*/*")], None);
    let (out, err) = plain().print_request(&registry, &req).unwrap();
    assert_eq!(out, "");
    assert_eq!(err, "POST /items HTTP/1.1\naccept: */*\n");
}

#[test]
fn malformed_request_body_is_refused() {
    let registry = Registry::load();
    let req = request(vec![kv("content-type", "application/json")], Some("a=1"));
    assert!(matches!(plain().print_request(&registry, &req), Err(ToolError::MalformedBody(_))));
}

#[test]
fn colored_request_goes_to_the_second_stream() {
    let registry = Registry::load();
    let tty = ColorfulTTY { stdout_color_mode: true, stderr_color_mode: true };
    let req = request(vec![kv("content-type", "application/json")], Some("{\"a\":1}"));
    let (out, err) = tty.print_request(&registry, &req).unwrap();
    assert_eq!(out, "");
    let bare = strip_codes(&err);
    assert_eq!(bare, "POST /items HTTP/1.1\ncontent-type: application/json\n{\n  \"a\": 1\n}");
}

#[test]
fn bundled_themes_are_found() {
    let registry = Registry::load();
    for theme in [
        "base16-ocean.dark",
        "base16-eighties.dark",
        "base16-mocha.dark",
        "base16-ocean.light",
        "InspiredGitHub",
        "Solarized (dark)",
        "Solarized (light)",
    ] {
        assert!(highlight_text(&registry, "a\n", "txt", Some(theme)).is_ok(), "{}", theme);
    }
}

fn is_part(s: &str) -> bool {
    !s.is_empty() && s.len() <= 3 && s.bytes().all(|b| b.is_ascii_digit()) && s.parse::<u16>().unwrap() <= 255
        && (s == "0" || !s.starts_with('0'))
}

#[test]
fn colors_are_set_by_foreground_codes_only() {
    let registry = Registry::load();
    let text = "{\n  \"a\": [1, true, null],\n  \"b\": \"x\"\n}\n";
    let out = highlight_text(&registry, text, "json", None).unwrap();
    assert!(out.starts_with("\u{1b}[38;2;"));
    let mut bare = String::new();
    let mut pieces = out.split('\u{1b}');
    assert_eq!(pieces.next(), Some(""));
    for piece in pieces {
        let rest = piece.strip_prefix("[38;2;").unwrap();
        let end = rest.find('m').unwrap();
        let parts: Vec<&str> = rest[..end].split(';').collect();
        assert_eq!(parts.len(), 3);
        assert!(parts.iter().all(|p| is_part(p)), "{:?}", parts);
        bare.push_str(&rest[end + 1..]);
    }
    assert_eq!(bare, text);
    assert!(out.len() > text.len());
}

#[test]
fn unknown_kinds_are_all_plain_text() {
    let registry = Registry::load();
    let text = "{\"a\": 1}\nkey: value\n";
    let one = highlight_text(&registry, text, "nosuchkind", None).unwrap();
    let other = highlight_text(&registry, text, "", None).unwrap();
    assert_eq!(one, other);
    assert_ne!(one, highlight_text(&registry, text, "json", None).unwrap());
}

#[test]
fn colored_body_is_the_highlighted_readable_body() {
    let registry = Registry::load();
    let tty = ColorfulTTY { stdout_color_mode: true, stderr_color_mode: true };
    let resp = response(vec![kv("content-type", "application/json")], "{\"a\":[1,2]}");
    let (out, err) = tty.print_response(&registry, &resp).unwrap();
    let (kind, readable) = format_body("application/json", Some("{\"a\":[1,2]}".to_string())).unwrap();
    assert_eq!(out, highlight_text(&registry, &readable.unwrap(), &kind, None).unwrap());
    let headers = highlight_text(&registry, "content-type: application/json\n", "yaml", None).unwrap();
    assert_eq!(err, format!("HTTP/1.1 200 OK\n{}", headers));
}

#[test]
fn colored_request_blocks_are_highlighted_once() {
    let registry = Registry::load();
    let tty = ColorfulTTY { stdout_color_mode: false, stderr_color_mode: true };
    let req = request(vec![kv("content-type", "application/json")], Some("{\"a\":1}"));
    let (out, err) = tty.print_request(&registry, &req).unwrap();
    assert_eq!(out, "");
    let headers = highlight_text(&registry, "content-type: application/json\n", "yaml", None).unwrap();
    let body = highlight_text(&registry, "{\n  \"a\": 1\n}", "json", None).unwrap();
    assert!(err.ends_with(&format!("\n{}{}", headers, body)));
}
