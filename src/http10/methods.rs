//! The request methods this server understands.
use vstd::prelude::*;

use crate::text::eq_str;

verus! {

/// A request token that names no supported method.
#[derive(Debug)]
pub struct InvalidMethodErr;

#[derive(Debug, PartialEq, Eq, Clone, Copy, Structural)]
pub enum Method {
    GET,
    POST,
    HEAD,
}

/// The method that a request token names, if any.
pub open spec fn method_of(s: Seq<char>) -> Option<Method> {
    if s == "GET"@ {
        Some(Method::GET)
    } else if s == "POST"@ {
        Some(Method::POST)
    } else if s == "HEAD"@ {
        Some(Method::HEAD)
    } else {
        None
    }
}

/// The token of a method on the wire.
pub open spec fn method_name(m: Method) -> Seq<char> {
    match m {
        Method::GET => "GET"@,
        Method::POST => "POST"@,
        Method::HEAD => "HEAD"@,
    }
}

/// Each method's token names that method.
pub proof fn lemma_method_name_parses(m: Method)
    ensures
        method_of(method_name(m)) == Some(m),
        !method_name(m).contains(','),
        method_name(m).len() > 0,
{
    reveal_strlit("GET");
    reveal_strlit("POST");
    reveal_strlit("HEAD");
    assert("GET"@ =~= seq!['G', 'E', 'T']);
    assert("POST"@ =~= seq!['P', 'O', 'S', 'T']);
    assert("HEAD"@ =~= seq!['H', 'E', 'A', 'D']);
    assert("HEAD"@ != "POST"@) by {
        assert("HEAD"@[0] != "POST"@[0]);
    }
}

impl Method {
    /// Reads a method from its token; the match is exact and case-sensitive.
    pub fn parse(s: &[char]) -> (r: Result<Method, InvalidMethodErr>)
        ensures
            r matches Ok(m) ==> method_of(s@) == Some(m),
            r is Err <==> method_of(s@) is None,
    {
        if eq_str(s, "GET") {
            Ok(Method::GET)
        } else if eq_str(s, "POST") {
            Ok(Method::POST)
        } else if eq_str(s, "HEAD") {
            Ok(Method::HEAD)
        } else {
            Err(InvalidMethodErr)
        }
    }

    /// The method's token.
    pub fn name(&self) -> (r: &'static str)
        ensures
            r@ == method_name(*self),
    {
        match self {
            Method::GET => "GET",
            Method::POST => "POST",
            Method::HEAD => "HEAD",
        }
    }

    /// The method's token as an owned string.
    pub fn to_string(&self) -> (r: String)
        ensures
            r@ == method_name(*self),
    {
        String::from_str(self.name())
    }
}

impl TryFrom<&str> for Method {
    type Error = InvalidMethodErr;

    fn try_from(value: &str) -> Result<Method, InvalidMethodErr> {
        let v = crate::text::chars_of(value);
        match Method::parse(v.as_slice()) {
            Ok(x) => Ok(x),
            Err(_) => Err(InvalidMethodErr),
        }
    }
}

impl TryFrom<String> for Method {
    type Error = InvalidMethodErr;

    fn try_from(value: String) -> Result<Method, InvalidMethodErr> {
        let v = crate::text::chars_of(value.as_str());
        match Method::parse(v.as_slice()) {
            Ok(x) => Ok(x),
            Err(_) => Err(InvalidMethodErr),
        }
    }
}


impl vstd::std_specs::convert::TryFromSpecImpl<&str> for Method {
    open spec fn obeys_try_from_spec() -> bool {
        true
    }

    open spec fn try_from_spec(v: &str) -> Result<Method, InvalidMethodErr> {
        match method_of(v@) {
            Some(x) => Ok(x),
            None => Err(InvalidMethodErr),
        }
    }
}

impl vstd::std_specs::convert::TryFromSpecImpl<String> for Method {
    open spec fn obeys_try_from_spec() -> bool {
        true
    }

    open spec fn try_from_spec(v: String) -> Result<Method, InvalidMethodErr> {
        match method_of(v@) {
            Some(x) => Ok(x),
            None => Err(InvalidMethodErr),
        }
    }
}

} // verus!
