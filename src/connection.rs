use vstd::prelude::*;
use vstd::utf8::{decode_utf8, valid_utf8};
use crate::text::{chars_of, string_of};

verus! {

/// What one read from a client's socket gave.
#[derive(Debug)]
pub enum ReadEvent {
    /// These bytes arrived (none where the read returned zero bytes).
    Data(Vec<u8>),
    /// The client closed its side.
    Closed,
    /// No more data is pending right now.
    WouldBlock,
    /// The read failed.
    Failed,
}

/// What to do after a read.
#[derive(Debug, Clone, Copy, PartialEq, Eq, Structural)]
pub enum ReadAction {
    /// Read again without waiting.
    ReadAgain,
    /// The request is complete: stop reading.
    Done,
    /// Give up on the connection.
    Fail,
}

/// One step of the read phase: data is added and reading goes on; a
/// zero-byte read, a closed side or "would block" ends the phase; a failure
/// gives up.
pub fn read_step(buf: &mut Vec<u8>, ev: ReadEvent) -> (r: ReadAction)
    ensures
        ev is Data && ev->Data_0@.len() > 0 ==> r == ReadAction::ReadAgain && final(buf)@ == old(buf)@ + ev->Data_0@,
        (ev is Data && ev->Data_0@.len() == 0) || ev is Closed || ev is WouldBlock ==> r
            == ReadAction::Done && final(buf)@ == old(buf)@,
        ev is Failed ==> r == ReadAction::Fail && final(buf)@ == old(buf)@,
{
    match ev {
        ReadEvent::Data(b) => {
            if b.len() == 0 {
                return ReadAction::Done;
            }
            let ghost start = buf@;
            let mut i: usize = 0;
            while i < b.len()
                invariant
                    i <= b@.len(),
                    buf@ == start + b@.take(i as int),
                decreases b@.len() - i,
            {
                buf.push(b[i]);
                i = i + 1;
                assert(buf@ =~= start + b@.take(i as int));
            }
            assert(b@.take(b@.len() as int) =~= b@);
            ReadAction::ReadAgain
        },
        ReadEvent::Closed => ReadAction::Done,
        ReadEvent::WouldBlock => ReadAction::Done,
        ReadEvent::Failed => ReadAction::Fail,
    }
}

/// Relies on `String::from_utf8`: it succeeds exactly when the bytes are
/// valid UTF-8, and the string then holds the characters they encode.
#[verifier::external_body]
pub(crate) fn decode_utf8_text(b: Vec<u8>) -> (r: Option<String>)
    ensures
        r is Some <==> valid_utf8(b@),
        r matches Some(s) ==> s@ == decode_utf8(b@),
{
    String::from_utf8(b).ok()
}

/// `s` without the NUL characters at its start.
pub open spec fn trim_front(s: Seq<char>) -> Seq<char>
    decreases s.len(),
{
    if s.len() > 0 && s[0] == '\0' {
        trim_front(s.drop_first())
    } else {
        s
    }
}

/// `s` without the NUL characters at its end.
pub open spec fn trim_back(s: Seq<char>) -> Seq<char>
    decreases s.len(),
{
    if s.len() > 0 && s.last() == '\0' {
        trim_back(s.drop_last())
    } else {
        s
    }
}

/// `s` without the NUL characters at either end.
pub open spec fn trim_nul(s: Seq<char>) -> Seq<char> {
    trim_back(trim_front(s))
}

/// `s` without the NUL characters at either end.
pub fn trim_nul_text(s: &String) -> (r: String)
    ensures
        r@ == trim_nul(s@),
{
    let v = chars_of(s.as_str());
    let n = v.len();
    let mut lo: usize = 0;
    assert(v@.subrange(0, n as int) =~= v@);
    while lo < n && v[lo] == '\0'
        invariant
            lo <= n == v@.len(),
            trim_front(v@) == trim_front(v@.subrange(lo as int, n as int)),
        decreases n - lo,
    {
        assert(v@.subrange(lo + 1, n as int) =~= v@.subrange(lo as int, n as int).drop_first());
        lo = lo + 1;
    }
    assert(trim_front(v@) == v@.subrange(lo as int, n as int));
    let mut hi: usize = n;
    while hi > lo && v[hi - 1] == '\0'
        invariant
            lo <= hi <= n == v@.len(),
            trim_nul(v@) == trim_back(v@.subrange(lo as int, hi as int)),
        decreases hi - lo,
    {
        assert(v@.subrange(lo as int, hi - 1) =~= v@.subrange(lo as int, hi as int).drop_last());
        hi = hi - 1;
    }
    assert(trim_back(v@.subrange(lo as int, hi as int)) == v@.subrange(lo as int, hi as int));
    string_of(&v, lo, hi)
}

} // verus!
