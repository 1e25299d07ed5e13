use httpie::args::Command;
use httpie::args::parse_kv_pair;
use httpie::args::parse_url;
use httpie::error::HttpError;

#[test]
fn accepts_valid_absolute_url() {
    let r = parse_url("https://example.com/");
    assert_eq!(r.unwrap(), "https://example.com/".to_string());
}

#[test]
fn rejects_malformed_url() {
    let r = parse_url("not a url");
    assert!(matches!(r, Err(HttpError::MalformedUrl)));
}

#[test]
fn rejects_relative_url() {
    let r = parse_url("example.com/index.html");
    assert!(matches!(r, Err(HttpError::MalformedUrl)));
}

#[test]
fn splits_simple_pair() {
    let p = parse_kv_pair("a=1").unwrap();
    assert_eq!(p.k, "a");
    assert_eq!(p.v, "1");
}

#[test]
fn splits_at_first_eq_only() {
    let p = parse_kv_pair("token=abc=def").unwrap();
    assert_eq!(p.k, "token");
    assert_eq!(p.v, "abc=def");
}

#[test]
fn empty_sides_are_accepted() {
    let p = parse_kv_pair("=v").unwrap();
    assert_eq!(p.k, "");
    assert_eq!(p.v, "v");
    let q = parse_kv_pair("k=").unwrap();
    assert_eq!(q.k, "k");
    assert_eq!(q.v, "");
}

#[test]
fn rejects_token_without_separator() {
    assert!(matches!(parse_kv_pair("noseparator"), Err(HttpError::MalformedPair)));
}

#[test]
fn get_command_keeps_url() {
    match Command::new_get("https://example.com/").unwrap() {
        Command::Get { url } => assert_eq!(url, "https://example.com/"),
        _ => panic!("expected a GET command"),
    }
}

#[test]
fn get_command_rejects_bad_url() {
    assert!(matches!(Command::new_get("not a url"), Err(HttpError::MalformedUrl)));
}

#[test]
fn post_command_splits_tokens() {
    let tokens = vec!["a=1".to_string(), "b=2".to_string()];
    match Command::new_post("https://example.com/", &tokens).unwrap() {
        Command::Post { url, body } => {
            assert_eq!(url, "https://example.com/");
            assert_eq!(body.len(), 2);
            assert_eq!(body[0].k, "a");
            assert_eq!(body[0].v, "1");
            assert_eq!(body[1].k, "b");
            assert_eq!(body[1].v, "2");
        },
        _ => panic!("expected a POST command"),
    }
}

#[test]
fn post_command_rejects_bad_token() {
    let tokens = vec!["a=1".to_string(), "bad".to_string()];
    let r = Command::new_post("https://example.com/", &tokens);
    assert!(matches!(r, Err(HttpError::MalformedPair)));
}

#[test]
fn post_command_rejects_bad_url_before_tokens() {
    let tokens = vec!["bad".to_string()];
    let r = Command::new_post("not a url", &tokens);
    assert!(matches!(r, Err(HttpError::MalformedUrl)));
}
