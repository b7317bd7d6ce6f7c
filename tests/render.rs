use httpie::{
    body_kind, body_lines, header_line, header_line_with, kind_for_mime, status_line,
    status_line_with, BodyKind, RenderError,
};

#[test]
fn json_content_type_is_highlighted() {
    assert_eq!(body_kind(Some("application/json")).unwrap(), BodyKind::Highlighted);
}

#[test]
fn json_body_is_highlighted_then_reset() {
    let lines = body_lines(BodyKind::Highlighted, "{\"x\":1}");
    assert!(lines.len() >= 2);
    assert_eq!(lines.last().unwrap(), "\x1b[0m");
    assert!(lines[0].contains("\x1b["));
    assert!(lines[0].contains('x'));
    assert!(lines.iter().all(|l| l != "\"{\\\"x\\\":1}\""));
}

#[test]
fn json_with_parameters_is_quoted() {
    assert_eq!(
        body_kind(Some("application/json; charset=utf-8")).unwrap(),
        BodyKind::Quoted
    );
}

#[test]
fn plain_text_is_quoted() {
    assert_eq!(body_kind(Some("text/plain")).unwrap(), BodyKind::Quoted);
    assert_eq!(body_lines(BodyKind::Quoted, "hello"), vec!["\"hello\"".to_string()]);
}

#[test]
fn quoted_body_is_escaped() {
    assert_eq!(
        body_lines(BodyKind::Quoted, "a\"b\n"),
        vec!["\"a\\\"b\\n\"".to_string()]
    );
}

#[test]
fn missing_content_type_is_raw() {
    assert_eq!(body_kind(None).unwrap(), BodyKind::Raw);
    assert_eq!(body_lines(BodyKind::Raw, "hello"), vec!["hello".to_string()]);
}

#[test]
fn malformed_content_type_fails() {
    match body_kind(Some("not a mime type")) {
        Err(RenderError::InvalidContentType(h)) => assert_eq!(h, "not a mime type"),
        _ => panic!("expected a content type error"),
    }
}

#[test]
fn parsed_mime_decides_kind() {
    assert_eq!(
        kind_for_mime("application/json", Some("application/json".to_string())).unwrap(),
        BodyKind::Highlighted
    );
    assert_eq!(
        kind_for_mime("text/html", Some("text/html".to_string())).unwrap(),
        BodyKind::Quoted
    );
    assert!(kind_for_mime("???", None).is_err());
}

#[test]
fn status_line_layout() {
    assert_eq!(status_line_with("HTTP/1.1", "200 OK"), "HTTP/1.1 200 OK\n");
    let line = status_line("HTTP/1.1", "200 OK");
    assert!(line.starts_with("HTTP/1.1 "));
    assert!(line.contains("200 OK"));
    assert!(line.ends_with('\n'));
}

#[test]
fn header_line_layout() {
    assert_eq!(
        header_line_with("content-type", "\"text/plain\""),
        "content-type: \"text/plain\""
    );
    let line = header_line("content-type", "\"text/plain\"");
    assert!(line.contains("content-type"));
    assert!(line.ends_with(": \"text/plain\""));
}

#[test]
fn get_response_renders_status_header_and_quoted_body() {
    let mut out: Vec<String> = Vec::new();
    out.push(status_line("HTTP/1.1", "200 OK"));
    out.push(header_line("content-type", "\"text/plain\""));
    let kind = body_kind(Some("text/plain")).unwrap();
    out.extend(body_lines(kind, "ok"));
    assert!(out[0].contains("HTTP/1.1") && out[0].contains("200 OK"));
    assert!(out[1].contains("content-type") && out[1].contains("text/plain"));
    assert_eq!(out[2], "\"ok\"");
    assert_eq!(out.len(), 3);
}
