use vstd::prelude::*;
use crate::method::ReqMethod;
use crate::request::{parse_request, Req, RequestView};
use crate::response::{render, Res, ResponseView};
use crate::route::{
    items_view, pattern_of, route_fits, segments, valid_pattern, PathItem, PatternError, Route,
    RouteView,
};
use crate::connection::{decode_utf8_text, trim_nul, trim_nul_text};
use crate::text::{chars_of, split_chars, views};
use vstd::utf8::{decode_utf8, valid_utf8};

verus! {

/// The routes as the matcher sees them, in registration order.
pub open spec fn table_of<H>(rs: Seq<Route<H>>) -> Seq<RouteView> {
    rs.map_values(|r: Route<H>| r@)
}

/// Route `i` answers the request, and no earlier route does.
pub open spec fn is_first_fit(rs: Seq<RouteView>, segs: Seq<Seq<char>>, m: ReqMethod, i: int) -> bool {
    0 <= i < rs.len() && route_fits(rs[i], segs, m) && forall|j: int|
        0 <= j < i ==> !route_fits(rs[j], segs, m)
}

/// The first route that answers the request, if any.
pub open spec fn first_fit(rs: Seq<RouteView>, segs: Seq<Seq<char>>, m: ReqMethod) -> Option<int> {
    if exists|i: int| is_first_fit(rs, segs, m, i) {
        Some(choose|i: int| is_first_fit(rs, segs, m, i))
    } else {
        None
    }
}

/// The route registered at `/404` serves requests that no route answers.
pub open spec fn serves_not_found(r: RouteView) -> bool {
    r.pattern == pattern_of("/404"@)
}

/// Route `i` is the first that serves requests no route answers.
pub open spec fn is_first_fallback(rs: Seq<RouteView>, i: int) -> bool {
    0 <= i < rs.len() && serves_not_found(rs[i]) && forall|j: int|
        0 <= j < i ==> !serves_not_found(rs[j])
}

/// The first route that serves requests no route answers, if any.
pub open spec fn first_fallback(rs: Seq<RouteView>) -> Option<int> {
    if exists|i: int| is_first_fallback(rs, i) {
        Some(choose|i: int| is_first_fallback(rs, i))
    } else {
        None
    }
}

/// The route whose handler a request goes to: the first that answers it,
/// else the not-found route, if either exists.
pub open spec fn handler_for(rs: Seq<RouteView>, rq: RequestView) -> Option<int> {
    match first_fit(rs, segments(rq.path), rq.method) {
        Some(i) => Some(i),
        None => first_fallback(rs),
    }
}

/// A response with no headers.
pub open spec fn plain(status: nat, body: Seq<char>) -> ResponseView {
    ResponseView {
        status,
        fields: Seq::empty(),
        headers: Map::empty(),
        body,
    }
}

/// What goes on the wire for a request that could not be read.
pub open spec fn bad_request_text() -> Seq<char> {
    render(plain(400, "Bad Request"@))->0
}

/// What goes on the wire when no route answers and none serves not-found.
pub open spec fn not_found_text() -> Seq<char> {
    render(plain(404, "Not found"@))->0
}

/// What goes on the wire for a handler's response: the response itself, or
/// a bare 500 where its status code is unknown.
pub open spec fn finish(out: ResponseView) -> Seq<char> {
    match render(out) {
        Some(t) => t,
        None => render(plain(500, Seq::empty()))->0,
    }
}

proof fn lemma_first_fit_unique(rs: Seq<RouteView>, segs: Seq<Seq<char>>, m: ReqMethod, i: int)
    requires
        is_first_fit(rs, segs, m, i),
    ensures
        first_fit(rs, segs, m) == Some(i),
{
    let k = choose|k: int| is_first_fit(rs, segs, m, k);
    assert(is_first_fit(rs, segs, m, k));
    if k < i {
        assert(!route_fits(rs[k], segs, m));
    } else if k > i {
        assert(!route_fits(rs[i], segs, m));
    }
}

proof fn lemma_first_fallback_unique(rs: Seq<RouteView>, i: int)
    requires
        is_first_fallback(rs, i),
    ensures
        first_fallback(rs) == Some(i),
{
    let k = choose|k: int| is_first_fallback(rs, k);
    assert(is_first_fallback(rs, k));
    if k < i {
        assert(!serves_not_found(rs[k]));
    } else if k > i {
        assert(!serves_not_found(rs[i]));
    }
}

proof fn lemma_first_fit_exists(rs: Seq<RouteView>, segs: Seq<Seq<char>>, m: ReqMethod, k: int)
    requires
        0 <= k < rs.len(),
        route_fits(rs[k], segs, m),
    ensures
        first_fit(rs, segs, m) is Some,
        first_fit(rs, segs, m)->0 <= k,
    decreases k,
{
    if exists|j: int| 0 <= j < k && route_fits(rs[j], segs, m) {
        let j = choose|j: int| 0 <= j < k && route_fits(rs[j], segs, m);
        lemma_first_fit_exists(rs, segs, m, j);
    } else {
        assert(is_first_fit(rs, segs, m, k));
        lemma_first_fit_unique(rs, segs, m, k);
    }
}

/// First match wins: where routes `a` and `b` (`a` registered first) have the
/// same pattern and method, a request that either answers goes to `a` or to
/// a route registered before it, never to `b`.
pub proof fn lemma_earlier_route_wins(rs: Seq<RouteView>, a: int, b: int, rq: RequestView)
    requires
        0 <= a < b < rs.len(),
        rs[a] == rs[b],
        route_fits(rs[b], segments(rq.path), rq.method),
    ensures
        handler_for(rs, rq) == first_fit(rs, segments(rq.path), rq.method),
        handler_for(rs, rq) is Some,
        handler_for(rs, rq)->0 <= a,
{
    lemma_first_fit_exists(rs, segments(rq.path), rq.method, a);
}

/// Of two routes with the same pattern and method, the one registered later
/// is never chosen, for any request: neither as the route that answers it nor
/// as the not-found route.
pub proof fn lemma_later_duplicate_never_chosen(rs: Seq<RouteView>, a: int, b: int, rq: RequestView)
    requires
        0 <= a < b < rs.len(),
        rs[a] == rs[b],
    ensures
        handler_for(rs, rq) != Some(b),
{
    let segs = segments(rq.path);
    let m = rq.method;
    if first_fit(rs, segs, m) is Some {
        let k = first_fit(rs, segs, m)->0;
        assert(is_first_fit(rs, segs, m, k));
        if k == b {
            assert(!route_fits(rs[a], segs, m));
        }
    } else if first_fallback(rs) is Some {
        let k = first_fallback(rs)->0;
        assert(is_first_fallback(rs, k));
        if k == b {
            assert(!serves_not_found(rs[a]));
        }
    }
}

/// The text of a response with no headers; `status` must be a known code.
fn plain_text(status: usize, body: &str) -> (r: String)
    requires
        render(plain(status as nat, body@)) is Some,
    ensures
        r@ == render(plain(status as nat, body@))->0,
{
    let res = Res::new().status(status).send(body);
    assert(res@ =~= plain(status as nat, body@));
    match res.serialize() {
        Ok(t) => t,
        Err(_) => String::new(),
    }
}

/// What goes on the wire for a request that could not be read.
pub fn bad_request() -> (r: String)
    ensures
        r@ == bad_request_text(),
{
    plain_text(400, "Bad Request")
}

/// What goes on the wire for a handler's response.
pub fn finish_response(out: &Res) -> (r: String)
    ensures
        r@ == finish(out@),
{
    match out.serialize() {
        Ok(t) => t,
        Err(_) => {
            assert(""@ =~= Seq::<char>::empty()) by {
                reveal_strlit("");
            }
            plain_text(500, "")
        },
    }
}

/// A route table: registered routes, tried in registration order.
pub struct App<H> {
    pub routes: Vec<Route<H>>,
}

/// Registration of `path` for `m` went as it must: refused exactly when the
/// pattern does not start with `/`, and otherwise appended to the table.
pub open spec fn registered(
    before: Seq<RouteView>,
    after: Seq<RouteView>,
    path: Seq<char>,
    m: ReqMethod,
    r: Result<(), PatternError>,
) -> bool {
    &&& r is Ok <==> valid_pattern(path)
    &&& r is Ok ==> after == before.push(RouteView { pattern: pattern_of(path), method: Some(m) })
    &&& r is Err ==> after == before
}

/// Whether two compiled patterns are the same.
fn same_items(a: &Vec<PathItem>, b: &Vec<PathItem>) -> (r: bool)
    ensures
        r == (items_view(a@) == items_view(b@)),
{
    if a.len() != b.len() {
        assert(items_view(a@).len() != items_view(b@).len());
        return false;
    }
    let mut i: usize = 0;
    while i < a.len()
        invariant
            i <= a@.len() == b@.len(),
            forall|j: int| 0 <= j < i ==> a@[j]@ == b@[j]@,
        decreases a@.len() - i,
    {
        let x = chars_of(a[i].value.as_str());
        let y = chars_of(b[i].value.as_str());
        if a[i].kind != b[i].kind || !crate::text::same_chars(&x, &y) {
            assert(items_view(a@)[i as int] != items_view(b@)[i as int]);
            return false;
        }
        i = i + 1;
    }
    assert(items_view(a@) =~= items_view(b@));
    true
}

impl<H> App<H> {
    /// An empty table.
    pub fn new() -> (r: App<H>)
        ensures
            r.routes@.len() == 0,
    {
        App { routes: Vec::new() }
    }

    /// The routes as the matcher sees them.
    pub open spec fn table(&self) -> Seq<RouteView> {
        table_of(self.routes@)
    }

    /// The handlers of the routes, in registration order.
    pub open spec fn handlers(&self) -> Seq<H> {
        self.routes@.map_values(|r: Route<H>| r.callback)
    }

    /// The first route that answers a request for `path` with `method`.
    pub fn find_route(&self, path: &str, method: ReqMethod) -> (r: Option<usize>)
        ensures
            r matches Some(i) ==> is_first_fit(self.table(), segments(path@), method, i as int),
            r is None ==> first_fit(self.table(), segments(path@), method) is None,
    {
        let cs = chars_of(path);
        let segs = split_chars(&cs, '/');
        let ghost t = self.table();
        let ghost v = views(segs@);
        let mut i: usize = 0;
        while i < self.routes.len()
            invariant
                i <= self.routes@.len() == t.len(),
                t == self.table(),
                v == views(segs@),
                v == segments(path@),
                forall|j: int| 0 <= j < i ==> !route_fits(t[j], v, method),
            decreases self.routes@.len() - i,
        {
            assert(t[i as int] == self.routes@[i as int]@);
            if self.routes[i].matches(&segs, method) {
                return Some(i);
            }
            i = i + 1;
        }
        None
    }

    /// The route that answers `req`, if any.
    pub fn get_route(&self, req: &Req) -> (r: Option<&Route<H>>)
        ensures
            r matches Some(route) ==> exists|i: int|
                is_first_fit(self.table(), segments(req.path@), req.method, i) && *route
                    == self.routes@[i],
            r is None ==> first_fit(self.table(), segments(req.path@), req.method) is None,
    {
        match self.find_route(req.path.as_str(), req.method) {
            Some(i) => Some(&self.routes[i]),
            None => None,
        }
    }

    /// The first route registered at `/404`, if any.
    pub fn not_found_route(&self) -> (r: Option<usize>)
        ensures
            r matches Some(i) ==> is_first_fallback(self.table(), i as int),
            r is None ==> first_fallback(self.table()) is None,
    {
        assert(valid_pattern("/404"@)) by {
            reveal_strlit("/404");
        }
        let target = match Route::<H>::parse_path(&chars_of("/404")) {
            Ok(items) => items,
            Err(_) => {
                return None;
            },
        };
        let ghost t = self.table();
        let mut i: usize = 0;
        while i < self.routes.len()
            invariant
                i <= self.routes@.len() == t.len(),
                t == self.table(),
                items_view(target@) == pattern_of("/404"@),
                forall|j: int| 0 <= j < i ==> !serves_not_found(t[j]),
            decreases self.routes@.len() - i,
        {
            assert(t[i as int] == self.routes@[i as int]@);
            if same_items(&self.routes[i].paths, &target) {
                return Some(i);
            }
            i = i + 1;
        }
        None
    }

    /// Adds a route for `path` and `method`; refused, with the table left as
    /// it was, where the pattern does not start with `/`.
    pub fn register(&mut self, method: ReqMethod, path: &str, handler: H) -> (r: Result<(), PatternError>)
        ensures
            registered(old(self).table(), final(self).table(), path@, method, r),
            r is Ok ==> final(self).routes@.len() == old(self).routes@.len() + 1
                && final(self).routes@.drop_last() == old(self).routes@
                && final(self).routes@.last().callback == handler,
            r is Ok ==> final(self).handlers() == old(self).handlers().push(handler),
            r is Err ==> final(self).routes@ == old(self).routes@,
    {
        match Route::new(path, handler, Some(method)) {
            Ok(route) => {
                let ghost before = self.routes@;
                self.routes.push(route);
                assert(self.routes@.drop_last() =~= before);
                assert(self.handlers() =~= before.map_values(|r: Route<H>| r.callback).push(
                    self.routes@.last().callback,
                ));
                assert(self.table() =~= table_of(before).push(
                    RouteView { pattern: pattern_of(path@), method: Some(method) },
                ));
                Ok(())
            },
            Err(e) => Err(e),
        }
    }
}

/// Registration of a handler for one method at a time.
pub trait RouteHandler<H> {
    /// The routes as the matcher sees them, in registration order.
    spec fn route_table(&self) -> Seq<RouteView>;

    /// The handlers of the routes, in registration order.
    spec fn route_handlers(&self) -> Seq<H>;

    /// Registers `handler` for GET requests to `path`.
    fn get(&mut self, path: &str, handler: H) -> (r: Result<(), PatternError>)
        ensures
            registered(old(self).route_table(), final(self).route_table(), path@, ReqMethod::Get, r),
            r is Ok ==> final(self).route_handlers() == old(self).route_handlers().push(handler),
            r is Err ==> final(self).route_handlers() == old(self).route_handlers(),
    ;

    /// Registers `handler` for POST requests to `path`.
    fn post(&mut self, path: &str, handler: H) -> (r: Result<(), PatternError>)
        ensures
            registered(old(self).route_table(), final(self).route_table(), path@, ReqMethod::Post, r),
            r is Ok ==> final(self).route_handlers() == old(self).route_handlers().push(handler),
            r is Err ==> final(self).route_handlers() == old(self).route_handlers(),
    ;

    /// Registers `handler` for PUT requests to `path`.
    fn put(&mut self, path: &str, handler: H) -> (r: Result<(), PatternError>)
        ensures
            registered(old(self).route_table(), final(self).route_table(), path@, ReqMethod::Put, r),
            r is Ok ==> final(self).route_handlers() == old(self).route_handlers().push(handler),
            r is Err ==> final(self).route_handlers() == old(self).route_handlers(),
    ;

    /// Registers `handler` for DELETE requests to `path`.
    fn delete(&mut self, path: &str, handler: H) -> (r: Result<(), PatternError>)
        ensures
            registered(old(self).route_table(), final(self).route_table(), path@, ReqMethod::Delete, r),
            r is Ok ==> final(self).route_handlers() == old(self).route_handlers().push(handler),
            r is Err ==> final(self).route_handlers() == old(self).route_handlers(),
    ;

    /// Registers `handler` for PATCH requests to `path`.
    fn patch(&mut self, path: &str, handler: H) -> (r: Result<(), PatternError>)
        ensures
            registered(old(self).route_table(), final(self).route_table(), path@, ReqMethod::Patch, r),
            r is Ok ==> final(self).route_handlers() == old(self).route_handlers().push(handler),
            r is Err ==> final(self).route_handlers() == old(self).route_handlers(),
    ;
}

impl<H> RouteHandler<H> for App<H> {
    open spec fn route_table(&self) -> Seq<RouteView> {
        self.table()
    }

    open spec fn route_handlers(&self) -> Seq<H> {
        self.handlers()
    }

    fn get(&mut self, path: &str, handler: H) -> (r: Result<(), PatternError>) {
        self.register(ReqMethod::Get, path, handler)
    }

    fn post(&mut self, path: &str, handler: H) -> (r: Result<(), PatternError>) {
        self.register(ReqMethod::Post, path, handler)
    }

    fn put(&mut self, path: &str, handler: H) -> (r: Result<(), PatternError>) {
        self.register(ReqMethod::Put, path, handler)
    }

    fn delete(&mut self, path: &str, handler: H) -> (r: Result<(), PatternError>) {
        self.register(ReqMethod::Delete, path, handler)
    }

    fn patch(&mut self, path: &str, handler: H) -> (r: Result<(), PatternError>) {
        self.register(ReqMethod::Patch, path, handler)
    }
}

impl<H: Fn(Req, Res) -> Res> App<H> {
    /// Every handler accepts every request and response.
    pub open spec fn handlers_ready(&self) -> bool {
        forall|i: int, q: Req, s: Res|
            0 <= i < self.routes@.len() ==> #[trigger] call_requires(self.routes@[i].callback, (q, s))
    }

    /// `text` is a right answer to the request text `raw`: a 400 response
    /// where it cannot be read; else the response of the handler that
    /// [`handler_for`] picks, called with the request and a fresh response;
    /// else a bare 404.
    pub open spec fn answers(&self, raw: Seq<char>, text: Seq<char>) -> bool {
        &&& parse_request(raw) is Err ==> text == bad_request_text()
        &&& parse_request(raw) is Ok && handler_for(self.table(), parse_request(raw)->Ok_0) is None
            ==> text == not_found_text()
        &&& parse_request(raw) is Ok && handler_for(self.table(), parse_request(raw)->Ok_0) is Some
            ==> exists|q: Req, s: Res, out: Res|
            q@ == parse_request(raw)->Ok_0 && s@ == plain(200, Seq::empty()) && #[trigger] call_ensures(
                self.routes@[handler_for(self.table(), parse_request(raw)->Ok_0)->0].callback,
                (q, s),
                out,
            ) && finish(out@) == text
    }

    /// The text to send back for the raw text of a request.
    pub fn respond(&self, raw_req: &str) -> (r: String)
        requires
            self.handlers_ready(),
        ensures
            self.answers(raw_req@, r@),
    {
        let req = match Req::new(raw_req) {
            Ok(q) => q,
            Err(_) => {
                return bad_request();
            },
        };
        let ghost rq = req@;
        let ghost t = self.table();
        let idx = match self.find_route(req.path.as_str(), req.method) {
            Some(i) => {
                proof {
                    lemma_first_fit_unique(t, segments(rq.path), rq.method, i as int);
                }
                Some(i)
            },
            None => {
                let f = self.not_found_route();
                proof {
                    if f is Some {
                        lemma_first_fallback_unique(t, f->0 as int);
                    }
                }
                f
            },
        };
        match idx {
            Some(i) => {
                let fresh = Res::new();
                let ghost q0 = req;
                let ghost s0 = fresh;
                assert(s0@ =~= plain(200, Seq::empty()));
                assert(call_requires(self.routes@[i as int].callback, (req, fresh)));
                let out = (self.routes[i].callback)(req, fresh);
                let r = finish_response(&out);
                assert(finish(out@) == r@);
                assert(call_ensures(self.routes@[i as int].callback, (q0, s0), out));
                r
            },
            None => plain_text(404, "Not found"),
        }
    }

    /// The reply for the bytes a client sent; `None` closes the connection
    /// without one. Nothing sent gets no reply; bytes that are not UTF-8 get
    /// a 400; otherwise the text, without NUL padding at either end, gets
    /// the answer of [`App::respond`].
    pub fn reply_for(&self, bytes: Vec<u8>) -> (r: Option<String>)
        requires
            self.handlers_ready(),
        ensures
            bytes@.len() == 0 ==> r is None,
            bytes@.len() > 0 && !valid_utf8(bytes@) ==> r is Some && r->0@ == bad_request_text(),
            bytes@.len() > 0 && valid_utf8(bytes@) ==> r is Some && self.answers(
                trim_nul(decode_utf8(bytes@)),
                r->0@,
            ),
    {
        if bytes.len() == 0 {
            return None;
        }
        match decode_utf8_text(bytes) {
            Some(text) => {
                let trimmed = trim_nul_text(&text);
                Some(self.respond(trimmed.as_str()))
            },
            None => Some(bad_request()),
        }
    }
}

} // verus!
