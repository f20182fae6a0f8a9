use restless::fields::FieldMap;
use restless::response::{Res, SerializeError};
use restless::status::status_title;

#[test]
fn serializes_plain_text_response() {
    let mut res = Res::new().status(200);
    res.set("content-type", "text/plain");
    let res = res.send("Hello world!");
    assert_eq!(
        res.serialize().unwrap(),
        "HTTP/1.1 200 OK\r\ncontent-type: text/plain\r\n\r\nHello world!"
    );
}

#[test]
fn fresh_response_defaults() {
    let res = Res::new();
    assert_eq!(res.status, 200);
    assert_eq!(res.outcome, "");
    assert_eq!(res.serialize().unwrap(), "HTTP/1.1 200 OK\r\n\r\n");
}

#[test]
fn last_set_of_a_header_wins() {
    let mut res = Res::new().status(404);
    res.set("a", "1").set("b", "2").set("a", "3");
    assert_eq!(res.get("a"), Some("3"));
    assert_eq!(res.get("c"), None);
    assert_eq!(res.format_headers(), "a: 3\r\nb: 2\r\n");
    assert_eq!(res.serialize().unwrap(), "HTTP/1.1 404 Not Found\r\na: 3\r\nb: 2\r\n\r\n");
}

#[test]
fn send_appends_to_the_body() {
    let res = Res::new().send("ab").send("cd");
    assert_eq!(res.outcome, "abcd");
}

#[test]
fn unknown_status_cannot_be_serialized() {
    let res = Res::new().status(299);
    assert_eq!(res.status_title(), None);
    assert_eq!(res.serialize(), Err(SerializeError::UnknownStatusCode));
}

#[test]
fn reason_phrases() {
    assert_eq!(status_title(100), Some("Continue"));
    assert_eq!(status_title(418), Some("I'm a teapot"));
    assert_eq!(status_title(511), Some("Network Authentication Required"));
    assert_eq!(status_title(509), None);
    assert_eq!(Res::new().status(503).serialize().unwrap(), "HTTP/1.1 503 Service Unavailable\r\n\r\n");
}

#[test]
fn field_map_insert_and_get() {
    let mut m = FieldMap::new();
    assert_eq!(m.len(), 0);
    m.insert(String::from("k"), String::from("v"));
    m.insert(String::from("k"), String::from("w"));
    assert_eq!(m.len(), 1);
    assert_eq!(m.get("k"), Some("w"));
    assert_eq!(m.pair_at(0), ("k", "w"));
}

#[test]
fn two_headers_each_written_once_in_either_order() {
    let mut a = Res::new();
    a.set("x", "1").set("y", "2");
    let mut b = Res::new();
    b.set("y", "2").set("x", "1");
    let ta = a.send("b").serialize().unwrap();
    let tb = b.send("b").serialize().unwrap();
    assert_eq!(ta, "HTTP/1.1 200 OK\r\nx: 1\r\ny: 2\r\n\r\nb");
    assert_eq!(tb, "HTTP/1.1 200 OK\r\ny: 2\r\nx: 1\r\n\r\nb");
    assert_eq!(ta.matches("x: 1\r\n").count(), 1);
    assert_eq!(tb.matches("y: 2\r\n").count(), 1);
}
