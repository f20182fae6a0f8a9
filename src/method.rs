use vstd::prelude::*;
use crate::text::{chars_of, same_chars};

verus! {

/// The request methods that the server understands.
#[derive(Debug, Clone, Copy, PartialEq, Eq, Structural)]
pub enum ReqMethod {
    Get,
    Post,
    Patch,
    Put,
    Delete,
}

/// The token that names each method on the wire.
pub open spec fn method_token(m: ReqMethod) -> Seq<char> {
    match m {
        ReqMethod::Get => "GET"@,
        ReqMethod::Post => "POST"@,
        ReqMethod::Patch => "PATCH"@,
        ReqMethod::Put => "PUT"@,
        ReqMethod::Delete => "DELETE"@,
    }
}

/// The method a token names, if any (exact, case-sensitive).
pub open spec fn method_of(t: Seq<char>) -> Option<ReqMethod> {
    if t == "GET"@ {
        Some(ReqMethod::Get)
    } else if t == "POST"@ {
        Some(ReqMethod::Post)
    } else if t == "PATCH"@ {
        Some(ReqMethod::Patch)
    } else if t == "PUT"@ {
        Some(ReqMethod::Put)
    } else if t == "DELETE"@ {
        Some(ReqMethod::Delete)
    } else {
        None
    }
}

impl ReqMethod {
    /// The method that `s` names: one of the five tokens, exactly.
    pub fn from_str(s: &str) -> (r: Result<ReqMethod, ()>)
        ensures
            r matches Ok(m) ==> method_of(s@) == Some(m),
            r is Err ==> method_of(s@) is None,
    {
        let t = chars_of(s);
        match ReqMethod::from_chars(&t) {
            Some(m) => Ok(m),
            None => Err(()),
        }
    }

    /// The method that the characters `t` name.
    pub fn from_chars(t: &Vec<char>) -> (r: Option<ReqMethod>)
        ensures
            r == method_of(t@),
    {
        if same_chars(t, &chars_of("GET")) {
            Some(ReqMethod::Get)
        } else if same_chars(t, &chars_of("POST")) {
            Some(ReqMethod::Post)
        } else if same_chars(t, &chars_of("PATCH")) {
            Some(ReqMethod::Patch)
        } else if same_chars(t, &chars_of("PUT")) {
            Some(ReqMethod::Put)
        } else if same_chars(t, &chars_of("DELETE")) {
            Some(ReqMethod::Delete)
        } else {
            None
        }
    }

    /// The token that names this method on the wire.
    pub fn as_str(&self) -> (r: &'static str)
        ensures
            r@ == method_token(*self),
    {
        match self {
            ReqMethod::Get => "GET",
            ReqMethod::Post => "POST",
            ReqMethod::Patch => "PATCH",
            ReqMethod::Put => "PUT",
            ReqMethod::Delete => "DELETE",
        }
    }
}

} // verus!
