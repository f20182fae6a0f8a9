use restless::app::{bad_request, App, RouteHandler};
use restless::connection::{read_step, trim_nul_text, ReadAction, ReadEvent};
use restless::request::Req;
use restless::response::Res;

type Handler = fn(Req, Res) -> Res;

fn hi(_req: Req, res: Res) -> Res {
    res.send("hi")
}

fn app() -> App<Handler> {
    let mut app: App<Handler> = App::new();
    app.get("/", hi).unwrap();
    app
}

#[test]
fn data_is_appended_and_reading_goes_on() {
    let mut buf = vec![1u8];
    assert_eq!(read_step(&mut buf, ReadEvent::Data(vec![2, 3])), ReadAction::ReadAgain);
    assert_eq!(buf, vec![1, 2, 3]);
}

#[test]
fn read_phase_ends_without_error() {
    let mut buf = vec![7u8];
    assert_eq!(read_step(&mut buf, ReadEvent::Data(vec![])), ReadAction::Done);
    assert_eq!(read_step(&mut buf, ReadEvent::Closed), ReadAction::Done);
    assert_eq!(read_step(&mut buf, ReadEvent::WouldBlock), ReadAction::Done);
    assert_eq!(buf, vec![7]);
}

#[test]
fn failed_read_gives_up() {
    let mut buf = vec![7u8];
    assert_eq!(read_step(&mut buf, ReadEvent::Failed), ReadAction::Fail);
    assert_eq!(buf, vec![7]);
}

#[test]
fn nul_padding_is_trimmed() {
    let s = String::from("\0\0ab\0c\0");
    assert_eq!(trim_nul_text(&s), "ab\0c");
    assert_eq!(trim_nul_text(&String::from("\0\0")), "");
    assert_eq!(trim_nul_text(&String::from("x")), "x");
}

#[test]
fn nothing_read_gets_no_reply() {
    assert_eq!(app().reply_for(vec![]), None);
}

#[test]
fn bytes_that_are_not_utf8_get_bad_request() {
    assert_eq!(app().reply_for(vec![0x47, 0xff, 0xfe]), Some(bad_request()));
}

#[test]
fn padded_request_is_answered() {
    let mut bytes = b"GET / HTTP/1.1\r\n\r\n".to_vec();
    bytes.push(0);
    bytes.push(0);
    assert_eq!(app().reply_for(bytes), Some(String::from("HTTP/1.1 200 OK\r\n\r\nhi")));
}
