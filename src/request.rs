use vstd::prelude::*;
use crate::fields::{pairs_to_map, FieldMap};
use crate::method::{method_of, ReqMethod};
use crate::text::{
    chars_of, cut, cut_chars, lemma_split_nonempty, split_chars, split_on, string_of, views,
};

verus! {

/// Why a raw request could not be read.
#[derive(Debug, Clone, Copy, PartialEq, Eq, Structural)]
pub enum ParseError {
    /// There is no request line, or it is not `METHOD SP PATH SP PROTOCOL`.
    MalformedRequestLine,
    /// The request line names a method outside the supported set.
    UnsupportedMethod,
    /// A header line lacks the `": "` that parts name from value.
    MalformedHeader,
}

/// A line without the carriage return that may end it.
pub open spec fn strip_cr(l: Seq<char>) -> Seq<char> {
    if l.len() > 0 && l.last() == '\r' {
        l.drop_last()
    } else {
        l
    }
}

/// The lines of `s`: split at each `\n`, each without a trailing `\r`; a final
/// line terminator does not start another line.
pub open spec fn lines_of(s: Seq<char>) -> Seq<Seq<char>> {
    let p = split_on(s, '\n');
    let q = if p.last().len() == 0 {
        p.drop_last()
    } else {
        p
    };
    q.map_values(|l: Seq<char>| strip_cr(l))
}

/// The index of the first empty line at or after `i`, or the number of lines.
pub open spec fn blank_from(ls: Seq<Seq<char>>, i: int) -> int
    decreases ls.len() - i,
{
    if i >= ls.len() {
        ls.len() as int
    } else if ls[i].len() == 0 {
        i
    } else {
        blank_from(ls, i + 1)
    }
}

/// Each header line split at its first `": "`; `None` if one has none.
pub open spec fn header_pairs(hs: Seq<Seq<char>>) -> Option<Seq<(Seq<char>, Seq<char>)>>
    decreases hs.len(),
{
    if hs.len() == 0 {
        Some(Seq::empty())
    } else {
        match (header_pairs(hs.drop_last()), cut(hs.last(), seq![':', ' '])) {
            (Some(p), Some(nv)) => Some(p.push(nv)),
            _ => None,
        }
    }
}

/// The `name=value` pieces split at their first `=`; pieces without one are
/// left out.
pub open spec fn query_pairs(pieces: Seq<Seq<char>>) -> Seq<(Seq<char>, Seq<char>)>
    decreases pieces.len(),
{
    if pieces.len() == 0 {
        Seq::empty()
    } else {
        let prev = query_pairs(pieces.drop_last());
        match cut(pieces.last(), seq!['=']) {
            Some(nv) => prev.push(nv),
            None => prev,
        }
    }
}

/// The parameters of a query string: pieces split at `&`, later names win.
pub open spec fn query_map(q: Seq<char>) -> Map<Seq<char>, Seq<char>> {
    pairs_to_map(query_pairs(split_on(q, '&')))
}

/// The path of a request target: what precedes the first `?`.
pub open spec fn target_path(t: Seq<char>) -> Seq<char> {
    match cut(t, seq!['?']) {
        Some(pq) => pq.0,
        None => t,
    }
}

/// The query parameters of a request target: from what follows the first `?`.
pub open spec fn target_queries(t: Seq<char>) -> Map<Seq<char>, Seq<char>> {
    match cut(t, seq!['?']) {
        Some(pq) => query_map(pq.1),
        None => Map::empty(),
    }
}

/// The lines joined with nothing between them.
pub open spec fn concat(ls: Seq<Seq<char>>) -> Seq<char>
    decreases ls.len(),
{
    if ls.len() == 0 {
        Seq::empty()
    } else {
        concat(ls.drop_last()) + ls.last()
    }
}

/// The value of the `Host` header, or nothing.
pub open spec fn host_of(headers: Map<Seq<char>, Seq<char>>) -> Seq<char> {
    if headers.contains_key("Host"@) {
        headers["Host"@]
    } else {
        Seq::empty()
    }
}

/// What a request holds.
pub struct RequestView {
    pub method: ReqMethod,
    pub path: Seq<char>,
    pub protocol: Seq<char>,
    pub queries: Map<Seq<char>, Seq<char>>,
    pub headers: Map<Seq<char>, Seq<char>>,
    pub hostname: Seq<char>,
    pub body: Option<Seq<char>>,
}

/// A whitespace character.
pub open spec fn is_space(c: char) -> bool {
    c == ' ' || c == '\t' || c == '\r' || c == '\n' || c == '\x0B' || c == '\x0C'
}

/// A token: not empty, and without whitespace.
pub open spec fn is_token(t: Seq<char>) -> bool {
    t.len() > 0 && forall|i: int| 0 <= i < t.len() ==> !is_space(t[i])
}

/// The request line `METHOD SP TARGET SP PROTOCOL` is well formed: three
/// tokens, of which the target starts with `/`.
pub open spec fn line_well_formed(w: Seq<Seq<char>>) -> bool {
    w.len() == 3 && is_token(w[0]) && is_token(w[1]) && is_token(w[2]) && w[1][0] == '/'
}

/// The method, target and protocol of the request line `line`: its shape is
/// checked first, the method after.
pub open spec fn request_line(line: Seq<char>) -> Result<(ReqMethod, Seq<char>, Seq<char>), ParseError> {
    let w = split_on(line, ' ');
    if !line_well_formed(w) {
        Err(ParseError::MalformedRequestLine)
    } else if method_of(w[0]) is None {
        Err(ParseError::UnsupportedMethod)
    } else {
        Ok((method_of(w[0])->0, w[1], w[2]))
    }
}

/// The request that the raw text `s` holds, or why it holds none.
pub open spec fn parse_request(s: Seq<char>) -> Result<RequestView, ParseError> {
    let ls = lines_of(s);
    if ls.len() == 0 {
        Err(ParseError::MalformedRequestLine)
    } else {
        match request_line(ls[0]) {
            Err(e) => Err(e),
            Ok(first) => {
                let k = blank_from(ls, 1);
                match header_pairs(ls.subrange(1, k)) {
                    None => Err(ParseError::MalformedHeader),
                    Some(hp) => {
                        let body = concat(ls.subrange(k, ls.len() as int));
                        Ok(
                            RequestView {
                                method: first.0,
                                path: target_path(first.1),
                                protocol: first.2,
                                queries: target_queries(first.1),
                                headers: pairs_to_map(hp),
                                hostname: host_of(pairs_to_map(hp)),
                                body: if body.len() == 0 {
                                    None
                                } else {
                                    Some(body)
                                },
                            },
                        )
                    },
                }
            },
        }
    }
}

/// A parsed request.
pub struct Req {
    pub body: Option<String>,
    pub path: String,
    pub method: ReqMethod,
    pub hostname: String,
    pub queries: FieldMap,
    pub protocol: String,
    pub headers: FieldMap,
}

impl View for Req {
    type V = RequestView;

    open spec fn view(&self) -> RequestView {
        RequestView {
            method: self.method,
            path: self.path@,
            protocol: self.protocol@,
            queries: self.queries@,
            headers: self.headers@,
            hostname: self.hostname@,
            body: match self.body {
                Some(b) => Some(b@),
                None => None,
            },
        }
    }
}

/// A request whose well-formed first line starts with no supported method is
/// refused for that reason, whatever follows.
pub proof fn lemma_unsupported_method(s: Seq<char>)
    requires
        lines_of(s).len() > 0,
        line_well_formed(split_on(lines_of(s)[0], ' ')),
        method_of(split_on(lines_of(s)[0], ' ')[0]) is None,
    ensures
        parse_request(s) == Err::<RequestView, ParseError>(ParseError::UnsupportedMethod),
{
}

proof fn lemma_header_none_extends(a: Seq<Seq<char>>, b: Seq<Seq<char>>)
    requires
        header_pairs(a) is None,
    ensures
        header_pairs(a + b) is None,
    decreases b.len(),
{
    if b.len() > 0 {
        lemma_header_none_extends(a, b.drop_last());
        assert((a + b).drop_last() =~= a + b.drop_last());
    } else {
        assert(a + b =~= a);
    }
}

proof fn lemma_blank_from(ls: Seq<Seq<char>>, i: int, j: int)
    requires
        1 <= i <= j <= ls.len(),
        forall|m: int| i <= m < j ==> ls[m].len() > 0,
    ensures
        blank_from(ls, i) == blank_from(ls, j),
    decreases j - i,
{
    if i < j {
        lemma_blank_from(ls, i + 1, j);
    }
}

/// `l` without the carriage return that may end it.
fn strip_cr_chars(l: Vec<char>) -> (r: Vec<char>)
    ensures
        r@ == strip_cr(l@),
{
    let mut l = l;
    if l.len() > 0 && l[l.len() - 1] == '\r' {
        l.pop();
    }
    l
}

/// The lines of `s`.
fn lines_chars(s: &Vec<char>) -> (r: Vec<Vec<char>>)
    ensures
        views(r@) == lines_of(s@),
{
    let mut pieces = split_chars(s, '\n');
    proof {
        lemma_split_nonempty(s@, '\n');
    }
    let ghost p = views(pieces@);
    if pieces[pieces.len() - 1].len() == 0 {
        pieces.pop();
        assert(views(pieces@) =~= p.drop_last());
    }
    let ghost q = views(pieces@);
    let mut out: Vec<Vec<char>> = Vec::new();
    let mut i: usize = 0;
    while i < pieces.len()
        invariant
            i <= pieces@.len() == q.len(),
            q == views(pieces@),
            out@.len() == i,
            forall|j: int| 0 <= j < i ==> out@[j]@ == strip_cr(q[j]),
        decreases pieces@.len() - i,
    {
        out.push(strip_cr_chars(slice_all(&pieces[i])));
        i = i + 1;
    }
    assert(views(out@) =~= lines_of(s@));
    out
}

/// The index of the first empty line after the request line, or the number
/// of lines.
fn blank_index(ls: &Vec<Vec<char>>) -> (r: usize)
    requires
        ls@.len() >= 1,
    ensures
        r == blank_from(views(ls@), 1),
        1 <= r <= ls@.len(),
{
    let ghost v = views(ls@);
    let mut i: usize = 1;
    while i < ls.len()
        invariant
            1 <= i <= ls@.len(),
            v == views(ls@),
            blank_from(v, 1) == blank_from(v, i as int),
        decreases ls@.len() - i,
    {
        if ls[i].len() == 0 {
            return i;
        }
        proof {
            lemma_blank_from(v, i as int, i + 1);
        }
        i = i + 1;
    }
    i
}

/// The header lines `ls[1..k]`, each split at its first `": "`.
fn parse_headers(ls: &Vec<Vec<char>>, k: usize) -> (r: Result<FieldMap, ParseError>)
    requires
        1 <= k <= ls@.len(),
    ensures
        r matches Ok(m) ==> m.wf() && header_pairs(views(ls@).subrange(1, k as int)) is Some
            && m@ == pairs_to_map(header_pairs(views(ls@).subrange(1, k as int))->0),
        r is Err ==> r == Err::<FieldMap, ParseError>(ParseError::MalformedHeader) && header_pairs(
            views(ls@).subrange(1, k as int),
        ) is None,
{
    let ghost v = views(ls@);
    let sep = chars_of(": ");
    assert(sep@ == seq![':', ' ']) by {
        reveal_strlit(": ");
    }
    let mut m = FieldMap::new();
    let ghost mut hp: Seq<(Seq<char>, Seq<char>)> = Seq::empty();
    let mut i: usize = 1;
    assert(v.subrange(1, 1) =~= Seq::<Seq<char>>::empty());
    while i < k
        invariant
            1 <= i <= k <= ls@.len(),
            v == views(ls@),
            sep@ == seq![':', ' '],
            m.wf(),
            header_pairs(v.subrange(1, i as int)) == Some(hp),
            m@ == pairs_to_map(hp),
        decreases k - i,
    {
        assert(v.subrange(1, i + 1).drop_last() =~= v.subrange(1, i as int));
        match cut_chars(&ls[i], &sep) {
            Some(nv) => {
                let (name, value) = nv;
                let name_s = string_of(&name, 0, name.len());
                let value_s = string_of(&value, 0, value.len());
                assert(name_s@ =~= name@);
                assert(value_s@ =~= value@);
                m.insert(name_s, value_s);
                proof {
                    let old_hp = hp;
                    hp = hp.push((name@, value@));
                    assert(hp.drop_last() =~= old_hp);
                }
            },
            None => {
                proof {
                    lemma_header_none_extends(v.subrange(1, i + 1), v.subrange(i + 1, k as int));
                    assert(v.subrange(1, i + 1) + v.subrange(i + 1, k as int) =~= v.subrange(
                        1,
                        k as int,
                    ));
                }
                return Err(ParseError::MalformedHeader);
            },
        }
        i = i + 1;
    }
    Ok(m)
}

/// The lines `ls[k..]` joined with nothing between them.
fn join_lines(ls: &Vec<Vec<char>>, k: usize) -> (r: Vec<char>)
    requires
        k <= ls@.len(),
    ensures
        r@ == concat(views(ls@).subrange(k as int, ls@.len() as int)),
{
    let ghost v = views(ls@);
    let mut acc: Vec<char> = Vec::new();
    let mut i: usize = k;
    assert(v.subrange(k as int, k as int) =~= Seq::<Seq<char>>::empty());
    while i < ls.len()
        invariant
            k <= i <= ls@.len(),
            v == views(ls@),
            acc@ == concat(v.subrange(k as int, i as int)),
        decreases ls@.len() - i,
    {
        let line = &ls[i];
        let ghost start = acc@;
        let mut j: usize = 0;
        while j < line.len()
            invariant
                j <= line@.len(),
                acc@ == start + line@.take(j as int),
            decreases line@.len() - j,
        {
            acc.push(line[j]);
            j = j + 1;
            assert(acc@ =~= start + line@.take(j as int));
        }
        assert(line@.take(line@.len() as int) =~= line@);
        assert(v.subrange(k as int, i + 1).drop_last() =~= v.subrange(k as int, i as int));
        i = i + 1;
    }
    acc
}

impl Req {
    /// The method, target and protocol of a request line.
    pub fn parse_first_line(line: &Vec<char>) -> (r: Result<(ReqMethod, Vec<char>, Vec<char>), ParseError>)
        ensures
            r matches Ok(t) ==> request_line(line@) == Ok::<_, ParseError>((t.0, t.1@, t.2@)),
            r matches Err(e) ==> request_line(line@) == Err::<(ReqMethod, Seq<char>, Seq<char>), _>(e),
    {
        let w = split_chars(line, ' ');
        proof {
            lemma_split_nonempty(line@, ' ');
        }
        if w.len() != 3 || !token(&w[0]) || !token(&w[1]) || !token(&w[2]) || w[1][0] != '/' {
            return Err(ParseError::MalformedRequestLine);
        }
        let method = match ReqMethod::from_chars(&w[0]) {
            Some(m) => m,
            None => {
                return Err(ParseError::UnsupportedMethod);
            },
        };
        let target = slice_all(&w[1]);
        let protocol = slice_all(&w[2]);
        Ok((method, target, protocol))
    }

    /// The query parameters of a query string.
    pub fn parse_query_string(q: &Vec<char>) -> (r: FieldMap)
        ensures
            r.wf(),
            r@ == query_map(q@),
    {
        let pieces = split_chars(q, '&');
        let ghost v = views(pieces@);
        let eq = chars_of("=");
        assert(eq@ == seq!['=']) by {
            reveal_strlit("=");
        }
        let mut m = FieldMap::new();
        let mut i: usize = 0;
        assert(v.take(0) =~= Seq::<Seq<char>>::empty());
        while i < pieces.len()
            invariant
                i <= pieces@.len(),
                v == views(pieces@),
                eq@ == seq!['='],
                m.wf(),
                m@ == pairs_to_map(query_pairs(v.take(i as int))),
            decreases pieces@.len() - i,
        {
            assert(v.take(i + 1).drop_last() =~= v.take(i as int));
            match cut_chars(&pieces[i], &eq) {
                Some(nv) => {
                    let (name, value) = nv;
                    let name_s = string_of(&name, 0, name.len());
                    let value_s = string_of(&value, 0, value.len());
                    assert(name_s@ =~= name@);
                    assert(value_s@ =~= value@);
                    m.insert(name_s, value_s);
                    assert(query_pairs(v.take(i + 1)).drop_last() =~= query_pairs(v.take(i as int)));
                },
                None => {},
            }
            i = i + 1;
        }
        assert(v.take(v.len() as int) =~= v);
        m
    }

    /// The path and query parameters of a request target.
    pub fn derive_queries(target: &Vec<char>) -> (r: (String, FieldMap))
        ensures
            r.0@ == target_path(target@),
            r.1.wf(),
            r.1@ == target_queries(target@),
    {
        let qm = chars_of("?");
        assert(qm@ == seq!['?']) by {
            reveal_strlit("?");
        }
        match cut_chars(target, &qm) {
            Some(pq) => {
                let (path, query) = pq;
                let p = string_of(&path, 0, path.len());
                assert(p@ =~= path@);
                (p, Req::parse_query_string(&query))
            },
            None => {
                let p = string_of(target, 0, target.len());
                assert(p@ =~= target@);
                (p, FieldMap::new())
            },
        }
    }

    /// The value of the `Host` header, or an empty string.
    pub fn derive_hostname(headers: &FieldMap) -> (r: String)
        requires
            headers.wf(),
        ensures
            r@ == host_of(headers@),
    {
        match headers.get("Host") {
            Some(h) => h.to_owned(),
            None => String::new(),
        }
    }

    /// Reads a request from the raw text that a client sent.
    pub fn new(raw_req: &str) -> (r: Result<Req, ParseError>)
        ensures
            r matches Ok(q) ==> q.wf() && parse_request(raw_req@) == Ok::<_, ParseError>(q@),
            r matches Err(e) ==> parse_request(raw_req@) == Err::<RequestView, _>(e),
    {
        let cs = chars_of(raw_req);
        let ls = lines_chars(&cs);
        if ls.len() == 0 {
            return Err(ParseError::MalformedRequestLine);
        }
        let (method, target, protocol) = match Req::parse_first_line(&ls[0]) {
            Ok(t) => t,
            Err(e) => {
                return Err(e);
            },
        };
        let k = blank_index(&ls);
        let headers = match parse_headers(&ls, k) {
            Ok(m) => m,
            Err(e) => {
                return Err(e);
            },
        };
        let (path, queries) = Req::derive_queries(&target);
        let hostname = Req::derive_hostname(&headers);
        let body_chars = join_lines(&ls, k);
        let body = if body_chars.len() == 0 {
            None
        } else {
            Some(string_of(&body_chars, 0, body_chars.len()))
        };
        assert(body_chars@.subrange(0, body_chars@.len() as int) =~= body_chars@);
        let protocol_s = string_of(&protocol, 0, protocol.len());
        assert(protocol@.subrange(0, protocol@.len() as int) =~= protocol@);
        Ok(Req { body, path, method, hostname, queries, protocol: protocol_s, headers })
    }

    /// Parts hold their invariants.
    pub open spec fn wf(&self) -> bool {
        self.queries.wf() && self.headers.wf()
    }

    /// The value of a header, by its name as sent.
    pub fn get(&self, header_key: &str) -> (r: Option<&str>)
        requires
            self.wf(),
        ensures
            r matches Some(v) ==> self@.headers.contains_key(header_key@) && self@.headers[header_key@]
                == v@,
            r is None ==> !self@.headers.contains_key(header_key@),
    {
        self.headers.get(header_key)
    }
}

/// Whether `t` is a token: not empty, and without whitespace.
fn token(t: &Vec<char>) -> (r: bool)
    ensures
        r == is_token(t@),
{
    if t.len() == 0 {
        return false;
    }
    let mut i: usize = 0;
    while i < t.len()
        invariant
            i <= t@.len(),
            forall|j: int| 0 <= j < i ==> !is_space(t@[j]),
        decreases t@.len() - i,
    {
        let c = t[i];
        if c == ' ' || c == '\t' || c == '\r' || c == '\n' || c == '\x0B' || c == '\x0C' {
            return false;
        }
        i = i + 1;
    }
    true
}

/// A copy of `v`.
fn slice_all(v: &Vec<char>) -> (r: Vec<char>)
    ensures
        r@ == v@,
{
    let r = crate::text::slice_of(v, 0, v.len());
    assert(r@ =~= v@);
    r
}

} // verus!
