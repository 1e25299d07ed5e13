use httpie::error::HttpError;
use httpie::render::HttpResponse;
use httpie::render::is_json_response;
use httpie::render::quote_value;
use httpie::render::render_body;
use httpie::render::render_response;
use httpie::render::render_status_line;

fn response(headers: Vec<(&str, &str)>, body: &str) -> HttpResponse {
    HttpResponse {
        version: "HTTP/1.1".to_string(),
        status: "200 OK".to_string(),
        headers: headers
            .into_iter()
            .map(|(k, v)| (k.to_string(), v.to_string()))
            .collect(),
        body: body.to_string(),
    }
}

#[test]
fn status_line_format() {
    let line = render_status_line("HTTP/2.0", "404 Not Found");
    assert_eq!(line, "HTTP/2.0: 404 Not Found");
}

#[test]
fn quote_value_wraps_in_quotes() {
    assert_eq!(quote_value("abc"), "\"abc\"");
    assert_eq!(quote_value(""), "\"\"");
}

#[test]
fn header_value_with_quotes_is_debug_escaped() {
    assert_eq!(quote_value("\"v1\""), "\"\\\"v1\\\"\"");
}

#[test]
fn header_value_control_char_is_hex_escaped() {
    assert_eq!(quote_value("a\u{7f}b"), "\"a\\x7fb\"");
    assert_eq!(quote_value("\u{1}"), "\"\\x1\"");
}

#[test]
fn header_value_tab_passes_through() {
    assert_eq!(quote_value("a\tb"), "\"a\tb\"");
}

#[test]
fn etag_value_renders_escaped_in_full_response() {
    let resp = response(vec![("etag", "\"v1\"")], "ok");
    let out = render_response(&resp).unwrap();
    assert_eq!(out.headers[0].0, "etag");
    assert_eq!(out.headers[0].1, "\"\\\"v1\\\"\"");
}

#[test]
fn json_body_is_reindented() {
    let r = render_body(true, &"{\"a\":1,\"b\":2}".to_string()).unwrap();
    assert_eq!(r, "{\n  \"a\": 1,\n  \"b\": 2\n}");
}

#[test]
fn plain_body_is_verbatim() {
    let r = render_body(false, &"hello".to_string()).unwrap();
    assert_eq!(r, "hello");
}

#[test]
fn invalid_json_body_fails_when_json_declared() {
    let r = render_body(true, &"not json".to_string());
    assert!(matches!(r, Err(HttpError::MalformedJson)));
}

#[test]
fn json_response_is_pretty_printed() {
    let resp = response(vec![("Content-Type", "application/json")], "{\"a\":1}");
    let out = render_response(&resp).unwrap();
    assert!(out.body_is_json);
    assert_eq!(out.body, "{\n  \"a\": 1\n}");
}

#[test]
fn text_plain_response_renders_raw() {
    let resp = response(vec![("Content-Type", "text/plain")], "hello");
    let out = render_response(&resp).unwrap();
    assert!(!out.body_is_json);
    assert_eq!(out.body, "hello");
}

#[test]
fn json_declared_but_invalid_body_is_malformed_json() {
    let resp = response(vec![("Content-Type", "application/json")], "not json");
    let r = render_response(&resp);
    assert!(matches!(r, Err(HttpError::MalformedJson)));
}

#[test]
fn full_render_of_plain_response() {
    let resp = response(vec![("x-test", "1")], "ok");
    let out = render_response(&resp).unwrap();
    assert!(out.status_line.contains("200"));
    assert_eq!(out.status_line, "HTTP/1.1: 200 OK");
    assert_eq!(out.headers.len(), 1);
    assert_eq!(out.headers[0].0, "x-test");
    assert_eq!(out.headers[0].1, "\"1\"");
    assert_eq!(out.body, "ok");
    assert!(!out.body_is_json);
}

#[test]
fn content_type_header_name_is_case_insensitive() {
    let resp = response(vec![("CONTENT-TYPE", "application/json")], "{}");
    assert!(is_json_response(&resp));
}

#[test]
fn media_type_comparison_is_not_literal_string_equality() {
    let resp = response(vec![("content-type", "Application/JSON")], "{}");
    assert!(is_json_response(&resp));
}

#[test]
fn media_type_with_parameters_is_not_exactly_json() {
    let resp = response(vec![("content-type", "application/json; charset=utf-8")], "{}");
    assert!(!is_json_response(&resp));
}

#[test]
fn missing_content_type_renders_raw() {
    let resp = response(vec![], "{\"a\":1}");
    let out = render_response(&resp).unwrap();
    assert!(!out.body_is_json);
    assert_eq!(out.body, "{\"a\":1}");
}

#[test]
fn first_content_type_header_decides() {
    let resp = response(
        vec![("content-type", "text/plain"), ("content-type", "application/json")],
        "{}",
    );
    assert!(!is_json_response(&resp));
}

#[test]
fn error_messages_name_the_failure() {
    assert_eq!(HttpError::MalformedUrl.message(), "malformed URL");
    assert_eq!(HttpError::MalformedPair.message(), "malformed key=value pair");
    assert_eq!(
        HttpError::NetworkError("timed out".to_string()).message(),
        "network error: timed out"
    );
    assert_eq!(
        HttpError::BodyReadError("bad bytes".to_string()).message(),
        "could not read the response body: bad bytes"
    );
    assert_eq!(
        HttpError::MalformedJson.message(),
        "the response declared JSON but its body is not valid JSON"
    );
}
