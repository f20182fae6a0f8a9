use restless::method::ReqMethod;
use restless::request::{ParseError, Req};

#[test]
fn parses_request_with_query_and_host() {
    let req = Req::new("GET /index?a=1&b=2 HTTP/1.1\r\nHost: x\r\n\r\n").unwrap();
    assert_eq!(req.method, ReqMethod::Get);
    assert_eq!(req.path, "/index");
    assert_eq!(req.queries.get("a"), Some("1"));
    assert_eq!(req.queries.get("b"), Some("2"));
    assert_eq!(req.queries.len(), 2);
    assert_eq!(req.body, None);
    assert_eq!(req.hostname, "x");
    assert_eq!(req.protocol, "HTTP/1.1");
    assert_eq!(req.get("Host"), Some("x"));
}

#[test]
fn unsupported_method_is_refused() {
    let r = Req::new("FETCH /index HTTP/1.1\r\nHost: x\r\n\r\n");
    assert_eq!(r.err(), Some(ParseError::UnsupportedMethod));
    let lower = Req::new("get /index HTTP/1.1\r\n\r\n");
    assert_eq!(lower.err(), Some(ParseError::UnsupportedMethod));
}

#[test]
fn malformed_request_lines_are_refused() {
    assert_eq!(Req::new("").err(), Some(ParseError::MalformedRequestLine));
    assert_eq!(Req::new("GET /x\r\n\r\n").err(), Some(ParseError::MalformedRequestLine));
    assert_eq!(Req::new("GET index HTTP/1.1\r\n\r\n").err(), Some(ParseError::MalformedRequestLine));
    assert_eq!(Req::new("GET /x \r\n\r\n").err(), Some(ParseError::MalformedRequestLine));
}

#[test]
fn line_shape_is_checked_before_method() {
    assert_eq!(Req::new("\r\n").err(), Some(ParseError::MalformedRequestLine));
    assert_eq!(Req::new("\r\nHost: x\r\n\r\n").err(), Some(ParseError::MalformedRequestLine));
    assert_eq!(Req::new("FETCH /x\r\n\r\n").err(), Some(ParseError::MalformedRequestLine));
    assert_eq!(Req::new("FETCH x HTTP/1.1\r\n\r\n").err(), Some(ParseError::MalformedRequestLine));
    assert_eq!(Req::new("FETCH /x HTTP/1.1\r\n\r\n").err(), Some(ParseError::UnsupportedMethod));
}

#[test]
fn blank_or_whitespace_parts_are_malformed() {
    assert_eq!(Req::new("GET / \t\r\n\r\n").err(), Some(ParseError::MalformedRequestLine));
    assert_eq!(Req::new(" / HTTP/1.1\r\n\r\n").err(), Some(ParseError::MalformedRequestLine));
    assert_eq!(Req::new("GET /\tx HTTP/1.1\r\n\r\n").err(), Some(ParseError::MalformedRequestLine));
    assert_eq!(Req::new("GET  / HTTP/1.1\r\n\r\n").err(), Some(ParseError::MalformedRequestLine));
    assert_eq!(Req::new("GET /\r\n\r\n").err(), Some(ParseError::MalformedRequestLine));
}

#[test]
fn header_without_separator_is_refused() {
    let r = Req::new("GET / HTTP/1.1\r\nHost x\r\n\r\n");
    assert_eq!(r.err(), Some(ParseError::MalformedHeader));
}

#[test]
fn header_value_keeps_later_separators() {
    let req = Req::new("GET / HTTP/1.1\r\nX-Note: a: b\r\n\r\n").unwrap();
    assert_eq!(req.get("X-Note"), Some("a: b"));
}

#[test]
fn header_lookup_is_case_sensitive_and_last_wins() {
    let req = Req::new("GET / HTTP/1.1\r\nHost: one\r\nHost: two\r\n\r\n").unwrap();
    assert_eq!(req.get("Host"), Some("two"));
    assert_eq!(req.get("host"), None);
    assert_eq!(req.hostname, "two");
}

#[test]
fn body_lines_are_joined() {
    let req = Req::new("POST /a HTTP/1.1\r\nA: b\r\n\r\nhello\r\nworld").unwrap();
    assert_eq!(req.method, ReqMethod::Post);
    assert_eq!(req.body, Some(String::from("helloworld")));
    assert_eq!(req.hostname, "");
}

#[test]
fn newline_only_line_endings_are_accepted() {
    let req = Req::new("DELETE /item/3 HTTP/1.1\nHost: h\n\nbody").unwrap();
    assert_eq!(req.method, ReqMethod::Delete);
    assert_eq!(req.path, "/item/3");
    assert_eq!(req.get("Host"), Some("h"));
    assert_eq!(req.body, Some(String::from("body")));
}

#[test]
fn query_pairs_without_equals_are_skipped() {
    let req = Req::new("GET /s?x=1&flag&x=2&y=a=b HTTP/1.1\r\n\r\n").unwrap();
    assert_eq!(req.path, "/s");
    assert_eq!(req.queries.get("x"), Some("2"));
    assert_eq!(req.queries.get("flag"), None);
    assert_eq!(req.queries.get("y"), Some("a=b"));
    assert_eq!(req.queries.len(), 2);
}

#[test]
fn query_starts_after_first_question_mark() {
    let req = Req::new("GET /p?a=1?b HTTP/1.1\r\n\r\n").unwrap();
    assert_eq!(req.path, "/p");
    assert_eq!(req.queries.get("a"), Some("1?b"));
}

#[test]
fn path_without_query_is_kept() {
    let req = Req::new("PUT /plain HTTP/1.0\r\n\r\n").unwrap();
    assert_eq!(req.method, ReqMethod::Put);
    assert_eq!(req.path, "/plain");
    assert_eq!(req.protocol, "HTTP/1.0");
    assert_eq!(req.queries.len(), 0);
}

#[test]
fn method_tokens_round_trip() {
    for m in [ReqMethod::Get, ReqMethod::Post, ReqMethod::Patch, ReqMethod::Put, ReqMethod::Delete] {
        assert_eq!(ReqMethod::from_str(m.as_str()), Ok(m));
    }
    assert_eq!(ReqMethod::Patch.as_str(), "PATCH");
    assert_eq!(ReqMethod::from_str("OPTIONS"), Err(()));
}
