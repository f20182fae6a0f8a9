use vstd::prelude::*;
use crate::fields::{lemma_key_has_pair, lemma_present, names_unique, pairs_to_map, FieldMap};
use crate::status::{reason_phrase, status_title};
use crate::text::push_char;

verus! {

/// Why a response could not be written out.
#[derive(Debug, Clone, Copy, PartialEq, Eq, Structural)]
pub enum SerializeError {
    /// The status code has no reason phrase.
    UnknownStatusCode,
}

/// The decimal digit `d`, for `0 <= d < 10`.
pub open spec fn digit(d: int) -> char {
    if d == 0 {
        '0'
    } else if d == 1 {
        '1'
    } else if d == 2 {
        '2'
    } else if d == 3 {
        '3'
    } else if d == 4 {
        '4'
    } else if d == 5 {
        '5'
    } else if d == 6 {
        '6'
    } else if d == 7 {
        '7'
    } else if d == 8 {
        '8'
    } else {
        '9'
    }
}

/// A three-digit code written in decimal.
pub open spec fn three_digits(code: int) -> Seq<char> {
    seq![digit(code / 100), digit((code / 10) % 10), digit(code % 10)]
}

/// One `name: value` line for each pair, in order.
pub open spec fn header_lines(p: Seq<(Seq<char>, Seq<char>)>) -> Seq<char>
    decreases p.len(),
{
    if p.len() == 0 {
        Seq::empty()
    } else {
        header_lines(p.drop_last()) + p.last().0 + ": "@ + p.last().1 + "\r\n"@
    }
}

/// The line that writes one header.
pub open spec fn header_line(k: Seq<char>, v: Seq<char>) -> Seq<char> {
    k + ": "@ + v + "\r\n"@
}

/// The status line of a 200 response.
pub open spec fn ok_status_line() -> Seq<char> {
    "HTTP/1.1 "@ + three_digits(200) + " "@ + "OK"@ + "\r\n"@
}

/// What a response holds.
pub struct ResponseView {
    pub status: nat,
    /// The headers, in the order in which they were first set.
    pub fields: Seq<(Seq<char>, Seq<char>)>,
    pub headers: Map<Seq<char>, Seq<char>>,
    pub body: Seq<char>,
}

/// The bytes on the wire for a response: status line, header lines, a blank
/// line, the body; `None` where the status code is unknown.
pub open spec fn render(r: ResponseView) -> Option<Seq<char>> {
    match reason_phrase(r.status as int) {
        Some(title) => Some(
            "HTTP/1.1 "@ + three_digits(r.status as int) + " "@ + title + "\r\n"@ + header_lines(
                r.fields,
            ) + "\r\n"@ + r.body,
        ),
        None => None,
    }
}

/// A response with status 200 and two distinct headers is written with one
/// line for each header, each exactly once, in one order or the other,
/// whatever order they were set in.
pub proof fn lemma_two_headers_either_order(
    r: ResponseView,
    k1: Seq<char>,
    v1: Seq<char>,
    k2: Seq<char>,
    v2: Seq<char>,
)
    requires
        names_unique(r.fields),
        r.headers == pairs_to_map(r.fields),
        r.status == 200,
        k1 != k2,
        r.headers == Map::<Seq<char>, Seq<char>>::empty().insert(k1, v1).insert(k2, v2),
    ensures
        render(r) == Some(
            ok_status_line() + header_line(k1, v1) + header_line(k2, v2) + "\r\n"@ + r.body,
        ) || render(r) == Some(
            ok_status_line() + header_line(k2, v2) + header_line(k1, v1) + "\r\n"@ + r.body,
        ),
{
    let p = r.fields;
    let m = pairs_to_map(p);
    assert(m.contains_key(k1));
    assert(m.contains_key(k2));
    lemma_key_has_pair(p, k1);
    lemma_key_has_pair(p, k2);
    let i = choose|i: int| 0 <= i < p.len() && p[i].0 == k1;
    let j = choose|j: int| 0 <= j < p.len() && p[j].0 == k2;
    assert(i != j);
    assert forall|n: int| 0 <= n < p.len() implies p[n].0 == k1 || p[n].0 == k2 by {
        lemma_present(p, n);
    }
    if p.len() > 2 {
        assert(p[0].0 == k1 || p[0].0 == k2);
        assert(p[1].0 == k1 || p[1].0 == k2);
        assert(p[2].0 == k1 || p[2].0 == k2);
        assert(false);
    }
    assert(p.len() == 2);
    lemma_present(p, 0);
    lemma_present(p, 1);
    assert(p.drop_last().drop_last() =~= Seq::<(Seq<char>, Seq<char>)>::empty());
    let h = header_lines(p);
    assert(header_lines(p.drop_last().drop_last()) == Seq::<char>::empty());
    assert(p.drop_last().last() == p[0]);
    assert(p.drop_last().len() == 1);
    assert(header_lines(p.drop_last()) =~= header_line(p[0].0, p[0].1));
    assert(h =~= header_line(p[0].0, p[0].1) + header_line(p[1].0, p[1].1));
    assert(reason_phrase(200) == Some("OK"@));
    if p[0].0 == k1 {
        assert(p[1].0 == k2);
        assert(render(r)->0 =~= ok_status_line() + header_line(k1, v1) + header_line(k2, v2)
            + "\r\n"@ + r.body);
    } else {
        assert(p[0].0 == k2 && p[1].0 == k1);
        assert(render(r)->0 =~= ok_status_line() + header_line(k2, v2) + header_line(k1, v1)
            + "\r\n"@ + r.body);
    }
}

/// The response that a handler builds.
pub struct Res {
    pub outcome: String,
    pub status: usize,
    pub headers: FieldMap,
}

impl View for Res {
    type V = ResponseView;

    open spec fn view(&self) -> ResponseView {
        ResponseView {
            status: self.status as nat,
            fields: self.headers.pairs(),
            headers: self.headers@,
            body: self.outcome@,
        }
    }
}

/// The digit character for `d`.
fn digit_char(d: usize) -> (r: char)
    requires
        d < 10,
    ensures
        r == digit(d as int),
{
    if d == 0 {
        '0'
    } else if d == 1 {
        '1'
    } else if d == 2 {
        '2'
    } else if d == 3 {
        '3'
    } else if d == 4 {
        '4'
    } else if d == 5 {
        '5'
    } else if d == 6 {
        '6'
    } else if d == 7 {
        '7'
    } else if d == 8 {
        '8'
    } else {
        '9'
    }
}

impl Res {
    /// Parts hold their invariants.
    pub open spec fn wf(&self) -> bool {
        self.headers.wf()
    }

    /// A fresh response: status 200, no headers, empty body.
    pub fn new() -> (r: Res)
        ensures
            r.wf(),
            r@.status == 200,
            r@.fields == Seq::<(Seq<char>, Seq<char>)>::empty(),
            r@.headers == Map::<Seq<char>, Seq<char>>::empty(),
            r@.body == Seq::<char>::empty(),
    {
        Res { outcome: String::new(), status: 200, headers: FieldMap::new() }
    }

    /// The same response with another status code.
    pub fn status(self, status: usize) -> (r: Res)
        ensures
            r.wf() == self.wf(),
            r@ == (ResponseView { status: status as nat, ..self@ }),
    {
        let mut r = self;
        r.status = status;
        r
    }

    /// Sets a header, replacing the value it had; returns the response for
    /// further calls.
    pub fn set(&mut self, header_key: &str, header_value: &str) -> (r: &mut Res)
        requires
            old(self).wf(),
        ensures
            r.wf(),
            r@.status == old(self)@.status,
            r@.body == old(self)@.body,
            r@.headers == old(self)@.headers.insert(header_key@, header_value@),
            old(self)@.headers.contains_key(header_key@) ==> exists|i: int|
                0 <= i < old(self)@.fields.len() && old(self)@.fields[i].0 == header_key@
                    && r@.fields == #[trigger] old(self)@.fields.update(i, (header_key@, header_value@)),
            !old(self)@.headers.contains_key(header_key@) ==> r@.fields == old(self)@.fields.push(
                (header_key@, header_value@),
            ),
            *final(self) == *final(r),
    {
        let ghost before = self.headers.pairs();
        let k = header_key.to_owned();
        let v = header_value.to_owned();
        self.headers.insert(k, v);
        proof {
            if old(self)@.headers.contains_key(header_key@) {
                let i = choose|i: int|
                    0 <= i < before.len() && before[i].0 == k@ && self.headers.pairs()
                        == #[trigger] before.update(i, (k@, v@));
                assert(self@.fields == old(self)@.fields.update(i, (header_key@, header_value@)));
            }
        }
        self
    }

    /// The value of a header, if it is set.
    pub fn get(&self, header_key: &str) -> (r: Option<&str>)
        requires
            self.wf(),
        ensures
            r matches Some(v) ==> self@.headers.contains_key(header_key@) && self@.headers[header_key@]
                == v@,
            r is None ==> !self@.headers.contains_key(header_key@),
    {
        self.headers.get(header_key)
    }

    /// The reason phrase of the status code, if it is a known one.
    pub fn status_title(&self) -> (r: Option<&'static str>)
        ensures
            r matches Some(t) ==> reason_phrase(self@.status as int) == Some(t@),
            r is None ==> reason_phrase(self@.status as int) is None,
    {
        status_title(self.status)
    }

    /// The same response with `outcome` added to the end of its body.
    pub fn send(self, outcome: &str) -> (r: Res)
        ensures
            r.wf() == self.wf(),
            r@ == (ResponseView { body: self@.body + outcome@, ..self@ }),
    {
        let mut r = self;
        r.outcome.append(outcome);
        r
    }

    /// One `name: value\r\n` line for each header.
    pub fn format_headers(&self) -> (r: String)
        ensures
            r@ == header_lines(self@.fields),
    {
        let mut out = String::new();
        let mut i: usize = 0;
        let n = self.headers.len();
        while i < n
            invariant
                i <= n == self.headers.pairs().len(),
                out@ == header_lines(self.headers.pairs().take(i as int)),
            decreases n - i,
        {
            let (k, v) = self.headers.pair_at(i);
            out.append(k);
            out.append(": ");
            out.append(v);
            out.append("\r\n");
            let ghost p = self.headers.pairs();
            assert(p.take(i + 1).drop_last() =~= p.take(i as int));
            i = i + 1;
        }
        assert(self.headers.pairs().take(n as int) =~= self.headers.pairs());
        out
    }

    /// The response as it goes on the wire.
    pub fn serialize(&self) -> (r: Result<String, SerializeError>)
        ensures
            r matches Ok(s) ==> render(self@) == Some(s@),
            r is Err ==> render(self@) is None,
    {
        let title = match self.status_title() {
            Some(t) => t,
            None => {
                return Err(SerializeError::UnknownStatusCode);
            },
        };
        let code = self.status;
        let mut out = String::new();
        out.append("HTTP/1.1 ");
        push_char(&mut out, digit_char(code / 100));
        push_char(&mut out, digit_char((code / 10) % 10));
        push_char(&mut out, digit_char(code % 10));
        out.append(" ");
        out.append(title);
        out.append("\r\n");
        let headers = self.format_headers();
        out.append(headers.as_str());
        out.append("\r\n");
        out.append(self.outcome.as_str());
        assert(out@ =~= render(self@)->0);
        Ok(out)
    }
}

} // verus!
