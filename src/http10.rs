use vstd::prelude::*;

pub mod content_codings;
pub mod content_types;
pub mod dates;
pub mod header_laws;
pub mod headers;
pub mod methods;
pub mod request;
pub mod response;
pub mod result_codes;

verus! {

/// The characters that bytes stand for under ISO-8859-1: each byte is the code point of its
/// character.
pub open spec fn latin1_chars(b: Seq<u8>) -> Seq<char> {
    Seq::new(b.len(), |i: int| b[i] as char)
}

/// Decodes bytes as ISO-8859-1, one character per byte; every byte sequence decodes.
pub fn convert_iso_8859_1_to_utf8(lines: &Vec<u8>) -> (r: Vec<char>)
    ensures
        r@ == latin1_chars(lines@),
{
    let mut r: Vec<char> = Vec::new();
    let mut i: usize = 0;
    while i < lines.len()
        invariant
            i <= lines@.len(),
            r@ == latin1_chars(lines@.subrange(0, i as int)),
        decreases lines@.len() - i,
    {
        r.push(lines[i] as char);
        i = i + 1;
        assert(r@ =~= latin1_chars(lines@.subrange(0, i as int)));
    }
    assert(lines@.subrange(0, lines@.len() as int) =~= lines@);
    r
}

} // verus!
