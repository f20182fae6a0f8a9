use restless::app::{bad_request, App, RouteHandler};
use restless::method::ReqMethod;
use restless::request::Req;
use restless::response::Res;
use restless::route::{PathItem, PathItemType, PatternError, Route};

type Handler = fn(Req, Res) -> Res;

fn home(_req: Req, res: Res) -> Res {
    res.send("home")
}

fn login(_req: Req, res: Res) -> Res {
    res.send("user login")
}

fn plain_login(_req: Req, res: Res) -> Res {
    res.send("login")
}

fn first(_req: Req, res: Res) -> Res {
    res.send("first")
}

fn second(_req: Req, res: Res) -> Res {
    res.send("second")
}

fn missing(req: Req, res: Res) -> Res {
    let body = format!("no page at {}", req.path);
    res.status(404).send(&body)
}

fn broken(_req: Req, res: Res) -> Res {
    res.status(799)
}

fn echo_host(req: Req, mut res: Res) -> Res {
    let host = req.get("Host").unwrap_or("").to_string();
    res.set("content-type", "text/plain");
    res.send(&host)
}

fn sample_app() -> App<Handler> {
    let mut app: App<Handler> = App::new();
    app.get("/home", home).unwrap();
    app.get("/:user_id/login", login).unwrap();
    app.get("/login", plain_login).unwrap();
    app
}

#[test]
fn dynamic_route_is_chosen() {
    let app = sample_app();
    assert_eq!(app.find_route("/234sdf/login", ReqMethod::Get), Some(1));
    assert_eq!(app.find_route("/login", ReqMethod::Get), Some(2));
    assert_eq!(app.find_route("/home", ReqMethod::Get), Some(0));
    let out = app.respond("GET /234sdf/login HTTP/1.1\r\n\r\n");
    assert_eq!(out, "HTTP/1.1 200 OK\r\n\r\nuser login");
}

#[test]
fn segment_counts_must_agree() {
    let app = sample_app();
    assert_eq!(app.find_route("/home/more", ReqMethod::Get), None);
    assert_eq!(app.find_route("/a/b/login", ReqMethod::Get), None);
    assert_eq!(app.find_route("/home/", ReqMethod::Get), None);
}

#[test]
fn static_segments_must_be_equal() {
    let app = sample_app();
    assert_eq!(app.find_route("/abc/logout", ReqMethod::Get), None);
    assert_eq!(app.find_route("/Home", ReqMethod::Get), None);
}

#[test]
fn dynamic_segment_needs_a_value() {
    let app = sample_app();
    assert_eq!(app.find_route("//login", ReqMethod::Get), None);
}

#[test]
fn method_must_agree() {
    let app = sample_app();
    assert_eq!(app.find_route("/home", ReqMethod::Post), None);
    let mut app2: App<Handler> = App::new();
    app2.post("/home", second).unwrap();
    app2.get("/home", first).unwrap();
    assert_eq!(app2.find_route("/home", ReqMethod::Get), Some(1));
    assert_eq!(app2.find_route("/home", ReqMethod::Post), Some(0));
}

#[test]
fn first_registered_route_wins() {
    let mut app: App<Handler> = App::new();
    app.get("/same", first).unwrap();
    app.get("/same", second).unwrap();
    assert_eq!(app.find_route("/same", ReqMethod::Get), Some(0));
    assert_eq!(app.respond("GET /same HTTP/1.1\r\n\r\n"), "HTTP/1.1 200 OK\r\n\r\nfirst");
}

#[test]
fn pattern_without_leading_slash_is_refused() {
    let mut app: App<Handler> = App::new();
    assert_eq!(app.get("home", home), Err(PatternError::MissingLeadingSlash));
    assert_eq!(app.put("", home), Err(PatternError::MissingLeadingSlash));
    assert_eq!(app.routes.len(), 0);
    assert!(app.patch("/ok", home).is_ok());
    assert!(app.delete("/ok", home).is_ok());
    assert_eq!(app.routes.len(), 2);
    let r: Result<Route<Handler>, PatternError> = Route::new("x/y", home as Handler, None);
    assert!(r.is_err());
}

#[test]
fn patterns_compile_to_items() {
    let route: Route<Handler> = Route::new("/users/:id", home as Handler, Some(ReqMethod::Get)).unwrap();
    assert_eq!(route.paths.len(), 3);
    assert_eq!(route.paths[0].kind, PathItemType::Static);
    assert_eq!(route.paths[0].value, "");
    assert_eq!(route.paths[1].kind, PathItemType::Static);
    assert_eq!(route.paths[1].value, "users");
    assert_eq!(route.paths[2].kind, PathItemType::Dynamic);
    assert_eq!(route.paths[2].value, ":id");
    let item = PathItem::new(":x", PathItemType::Dynamic);
    assert_eq!(item.value, ":x");
}

#[test]
fn root_pattern_matches_root_path() {
    let mut app: App<Handler> = App::new();
    app.get("/", home).unwrap();
    assert_eq!(app.find_route("/", ReqMethod::Get), Some(0));
}

#[test]
fn unreadable_request_gets_bad_request() {
    let app = sample_app();
    assert_eq!(
        app.respond("BREW /home HTTP/1.1\r\n\r\n"),
        "HTTP/1.1 400 Bad Request\r\n\r\nBad Request"
    );
    assert_eq!(app.respond(""), "HTTP/1.1 400 Bad Request\r\n\r\nBad Request");
}

#[test]
fn unmatched_request_without_fallback_gets_bare_not_found() {
    let app = sample_app();
    assert_eq!(app.respond("GET /nowhere HTTP/1.1\r\n\r\n"), "HTTP/1.1 404 Not Found\r\n\r\nNot found");
}

#[test]
fn unmatched_request_goes_to_not_found_route() {
    let mut app = sample_app();
    app.get("/404", missing).unwrap();
    assert_eq!(app.not_found_route(), Some(3));
    assert_eq!(
        app.respond("POST /nowhere HTTP/1.1\r\n\r\n"),
        "HTTP/1.1 404 Not Found\r\n\r\nno page at /nowhere"
    );
}

#[test]
fn unknown_status_from_handler_becomes_server_error() {
    let mut app: App<Handler> = App::new();
    app.get("/broken", broken).unwrap();
    assert_eq!(
        app.respond("GET /broken HTTP/1.1\r\n\r\n"),
        "HTTP/1.1 500 Internal Server Error\r\n\r\n"
    );
}

#[test]
fn handler_sees_request_and_sets_headers() {
    let mut app: App<Handler> = App::new();
    app.get("/host", echo_host).unwrap();
    let req = Req::new("GET /host?q=1 HTTP/1.1\r\nHost: example\r\n\r\n").unwrap();
    assert!(app.get_route(&req).is_some());
    assert_eq!(
        app.respond("GET /host?q=1 HTTP/1.1\r\nHost: example\r\n\r\n"),
        "HTTP/1.1 200 OK\r\ncontent-type: text/plain\r\n\r\nexample"
    );
}

#[test]
fn register_records_method() {
    let mut app: App<Handler> = App::new();
    app.register(ReqMethod::Patch, "/p", home).unwrap();
    assert_eq!(app.routes[0].method, Some(ReqMethod::Patch));
    assert_eq!(app.find_route("/p", ReqMethod::Patch), Some(0));
    assert_eq!(app.find_route("/p", ReqMethod::Get), None);
}

#[test]
fn handlers_are_stored_in_registration_order() {
    let mut app: App<Handler> = App::new();
    app.post("/a", first).unwrap();
    assert!(app.get("b", second).is_err());
    app.put("/c", second).unwrap();
    assert_eq!(app.routes.len(), 2);
    assert!(app.routes[0].callback == first as Handler);
    assert!(app.routes[1].callback == second as Handler);
    assert_eq!(app.routes[0].method, Some(ReqMethod::Post));
    assert_eq!(app.routes[1].method, Some(ReqMethod::Put));
}

#[test]
fn bad_request_text() {
    assert_eq!(bad_request(), "HTTP/1.1 400 Bad Request\r\n\r\nBad Request");
    let app = sample_app();
    assert_eq!(app.respond("\r\n"), bad_request());
}
