//! Content codings named by `Accept-Encoding` and `Content-Encoding`.
use vstd::prelude::*;

use crate::text::eq_str;

verus! {

/// A token that names no supported content coding.
#[derive(Debug)]
pub struct InvalidContentEncodingErr;

#[derive(Debug, PartialEq, Eq, Clone, Copy, Structural)]
pub enum ContentEncoding {
    GZIP,
    DEFLATE,
    TOKEN,
}

/// The coding that a token names, if any (`x-gzip` is an alias of `gzip`).
pub open spec fn coding_of(s: Seq<char>) -> Option<ContentEncoding> {
    if s == "gzip"@ || s == "x-gzip"@ {
        Some(ContentEncoding::GZIP)
    } else if s == "deflate"@ {
        Some(ContentEncoding::DEFLATE)
    } else if s == "token"@ {
        Some(ContentEncoding::TOKEN)
    } else {
        None
    }
}

/// The token of a coding on the wire.
pub open spec fn coding_name(c: ContentEncoding) -> Seq<char> {
    match c {
        ContentEncoding::GZIP => "gzip"@,
        ContentEncoding::DEFLATE => "deflate"@,
        ContentEncoding::TOKEN => "token"@,
    }
}

/// Each coding's token names that coding, and holds neither a comma nor whitespace.
pub proof fn lemma_coding_name_parses(c: ContentEncoding)
    ensures
        coding_of(coding_name(c)) == Some(c),
        !coding_name(c).contains(','),
        coding_name(c).len() > 0,
        forall|i: int| 0 <= i < coding_name(c).len() ==> 'a' <= #[trigger] coding_name(c)[i] <= 'z',
{
    reveal_strlit("gzip");
    reveal_strlit("x-gzip");
    reveal_strlit("deflate");
    reveal_strlit("token");
    assert("gzip"@ =~= seq!['g', 'z', 'i', 'p']);
    assert("x-gzip"@ =~= seq!['x', '-', 'g', 'z', 'i', 'p']);
    assert("deflate"@ =~= seq!['d', 'e', 'f', 'l', 'a', 't', 'e']);
    assert("token"@ =~= seq!['t', 'o', 'k', 'e', 'n']);
}

impl ContentEncoding {
    /// Reads a coding from its token; the match is exact and case-sensitive.
    pub fn parse(s: &[char]) -> (r: Result<ContentEncoding, InvalidContentEncodingErr>)
        ensures
            r matches Ok(c) ==> coding_of(s@) == Some(c),
            r is Err <==> coding_of(s@) is None,
    {
        if eq_str(s, "gzip") || eq_str(s, "x-gzip") {
            Ok(ContentEncoding::GZIP)
        } else if eq_str(s, "deflate") {
            Ok(ContentEncoding::DEFLATE)
        } else if eq_str(s, "token") {
            Ok(ContentEncoding::TOKEN)
        } else {
            Err(InvalidContentEncodingErr)
        }
    }

    /// The coding's token.
    pub fn name(&self) -> (r: &'static str)
        ensures
            r@ == coding_name(*self),
    {
        match self {
            ContentEncoding::GZIP => "gzip",
            ContentEncoding::DEFLATE => "deflate",
            ContentEncoding::TOKEN => "token",
        }
    }

    /// The coding's token as an owned string.
    pub fn to_string(&self) -> (r: String)
        ensures
            r@ == coding_name(*self),
    {
        String::from_str(self.name())
    }
}

impl TryFrom<&str> for ContentEncoding {
    type Error = InvalidContentEncodingErr;

    fn try_from(value: &str) -> Result<ContentEncoding, InvalidContentEncodingErr> {
        let v = crate::text::chars_of(value);
        match ContentEncoding::parse(v.as_slice()) {
            Ok(x) => Ok(x),
            Err(_) => Err(InvalidContentEncodingErr),
        }
    }
}

impl TryFrom<String> for ContentEncoding {
    type Error = InvalidContentEncodingErr;

    fn try_from(value: String) -> Result<ContentEncoding, InvalidContentEncodingErr> {
        let v = crate::text::chars_of(value.as_str());
        match ContentEncoding::parse(v.as_slice()) {
            Ok(x) => Ok(x),
            Err(_) => Err(InvalidContentEncodingErr),
        }
    }
}


impl vstd::std_specs::convert::TryFromSpecImpl<&str> for ContentEncoding {
    open spec fn obeys_try_from_spec() -> bool {
        true
    }

    open spec fn try_from_spec(v: &str) -> Result<ContentEncoding, InvalidContentEncodingErr> {
        match coding_of(v@) {
            Some(x) => Ok(x),
            None => Err(InvalidContentEncodingErr),
        }
    }
}

impl vstd::std_specs::convert::TryFromSpecImpl<String> for ContentEncoding {
    open spec fn obeys_try_from_spec() -> bool {
        true
    }

    open spec fn try_from_spec(v: String) -> Result<ContentEncoding, InvalidContentEncodingErr> {
        match coding_of(v@) {
            Some(x) => Ok(x),
            None => Err(InvalidContentEncodingErr),
        }
    }
}

} // verus!
