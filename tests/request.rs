use httpie::{build_body, build_request, parse_url, parse_url_param, ParseError, Post, Request, SubCmd, Get, UrlKV};

fn kv(k: &str, v: &str) -> UrlKV {
    UrlKV(k.to_string(), v.to_string())
}

#[test]
fn key_value_single_equals() {
    let r = UrlKV::from_str("a=b").unwrap();
    assert_eq!(r.0, "a");
    assert_eq!(r.1, "b");
}

#[test]
fn key_value_longer_parts() {
    let r = parse_url_param("name=tyr").unwrap();
    assert_eq!(r.0, "name");
    assert_eq!(r.1, "tyr");
}

#[test]
fn key_value_three_fragments_fails() {
    assert!(UrlKV::from_str("a=b=c").is_err());
}

#[test]
fn key_value_empty_key_fails() {
    assert!(UrlKV::from_str("=b").is_err());
}

#[test]
fn key_value_no_equals_fails() {
    match UrlKV::from_str("noequals") {
        Err(ParseError::InvalidParam(t)) => assert_eq!(t, "noequals"),
        _ => panic!("expected a parameter error"),
    }
}

#[test]
fn key_value_empty_fragments_dropped() {
    let r = UrlKV::from_str("a==b=").unwrap();
    assert_eq!(r.0, "a");
    assert_eq!(r.1, "b");
}

#[test]
fn key_value_empty_token_fails() {
    assert!(UrlKV::from_str("").is_err());
    assert!(UrlKV::from_str("===").is_err());
}

#[test]
fn key_value_error_message() {
    let e = UrlKV::from_str("x").unwrap_err();
    assert_eq!(e.message(), "parse url param error: x");
}

#[test]
fn url_valid_is_returned_unchanged() {
    assert_eq!(parse_url("https://example.com").unwrap(), "https://example.com");
    assert_eq!(
        parse_url("http://localhost:8080/a/b?c=d").unwrap(),
        "http://localhost:8080/a/b?c=d"
    );
}

#[test]
fn url_without_scheme_fails() {
    assert!(parse_url("example.com").is_err());
    assert!(parse_url("/just/a/path").is_err());
    assert!(parse_url("").is_err());
}

#[test]
fn url_error_message() {
    let e = parse_url("example.com").unwrap_err();
    assert_eq!(e.message(), "invalid url: example.com");
}

#[test]
fn body_last_pair_wins() {
    let body = build_body(&vec![kv("a", "1"), kv("a", "2")]);
    assert_eq!(body, vec![("a".to_string(), "2".to_string())]);
}

#[test]
fn body_keeps_distinct_keys() {
    let body = build_body(&vec![kv("a", "1"), kv("b", "2"), kv("a", "3")]);
    assert_eq!(
        body,
        vec![("a".to_string(), "3".to_string()), ("b".to_string(), "2".to_string())]
    );
}

#[test]
fn body_empty() {
    assert!(build_body(&vec![]).is_empty());
}

#[test]
fn request_for_get_has_no_body() {
    let r = build_request(&SubCmd::Get(Get { url: "https://example.com".to_string() }));
    match r {
        Request::Get { url } => assert_eq!(url, "https://example.com"),
        _ => panic!("expected a GET"),
    }
}

#[test]
fn request_for_post_builds_body() {
    let cmd = SubCmd::Post(Post {
        url: "https://example.com/post".to_string(),
        body: vec![kv("a", "1"), kv("a", "2")],
    });
    match build_request(&cmd) {
        Request::Post { url, body } => {
            assert_eq!(url, "https://example.com/post");
            assert_eq!(body, vec![("a".to_string(), "2".to_string())]);
        }
        _ => panic!("expected a POST"),
    }
}
