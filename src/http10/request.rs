//! Framing and parsing of a request from the bytes received so far.
use vstd::prelude::*;

use super::convert_iso_8859_1_to_utf8;
use super::headers::{headers_of_text, Header, HeaderVariant, HeaderView, Headers, HeadersView};
use super::latin1_chars;
use super::methods::{method_of, Method};
use crate::text::{eq_str, pieces, slice_of, split_char, string_of};

verus! {

#[derive(Debug, PartialEq, Eq)]
pub enum ReqError {
    /// The request line or a header field cannot be read.
    ParseError(String),
    /// The frame is not complete: no blank line ends the header block yet, or the body is not
    /// as long as `Content-Length` says. Reading on may complete it.
    ContentLenError,
    /// The request line names no supported method.
    InvalidMethodErr,
    /// The protocol version is neither `HTTP/1.0` nor `HTTP/1.1`.
    InvalidHTTPVerError,
}

/// What reading a buffer gives, as a mathematical value.
pub enum RequestParse {
    Parsed {
        method: Method,
        uri: Seq<char>,
        version: Seq<char>,
        headers: HeadersView,
        body: Option<Seq<u8>>,
    },
    /// No blank line yet, or a body shorter than `Content-Length` says.
    Incomplete,
    /// A body longer than `Content-Length` says.
    Overlong,
    /// Fewer than three tokens on the request line, or a target that does not start with `/`.
    MalformedLine,
    BadMethod,
    BadVersion,
    /// A header line that cannot be read, or a repeated field that cannot be merged.
    BadHeader,
}

#[derive(Debug, Clone)]
pub struct HTTPRequest {
    pub method: Method,
    pub uri: String,
    pub version: String,
    pub headers: Headers,
    pub body: Option<Vec<u8>>,
}

/// Whether the four bytes from `i` are `"\r\n\r\n"`.
pub open spec fn blank_line_at(b: Seq<u8>, i: int) -> bool {
    0 <= i && i + 4 <= b.len() && b[i] == 13 && b[i + 1] == 10 && b[i + 2] == 13 && b[i + 3]
        == 10
}

/// Whether `i` is where the first `"\r\n\r\n"` of `b` starts.
pub open spec fn is_frame_end(b: Seq<u8>, i: int) -> bool {
    blank_line_at(b, i) && forall|j: int| 0 <= j < i ==> !#[trigger] blank_line_at(b, j)
}

/// Where the first `"\r\n\r\n"` of `b` starts, if it holds one.
pub open spec fn frame_end(b: Seq<u8>) -> Option<int> {
    if exists|i: int| is_frame_end(b, i) {
        Some(choose|i: int| is_frame_end(b, i))
    } else {
        None
    }
}

/// Whether `i` is where the first `"\r\n"` of `s` starts.
pub open spec fn is_first_crlf(s: Seq<char>, i: int) -> bool {
    &&& 0 <= i && i + 2 <= s.len() && s[i] == '\r' && s[i + 1] == '\n'
    &&& forall|j: int| 0 <= j < i ==> !(#[trigger] s[j] == '\r' && s[j + 1] == '\n')
}

/// The method, target and version that a request line `METHOD SP URI SP VERSION` holds;
/// tokens past the third are ignored.
pub open spec fn request_line_of(line: Seq<char>) -> Result<(Method, Seq<char>, Seq<char>), RequestParse> {
    let t = pieces(line, ' ');
    match method_of(t[0]) {
        None => Err(RequestParse::BadMethod),
        Some(m) => {
            if t.len() < 3 || t[1].len() == 0 || t[1][0] != '/' {
                Err(RequestParse::MalformedLine)
            } else {
                Ok((m, t[1], t[2]))
            }
        },
    }
}

/// What a request buffer holds.
pub open spec fn request_of(b: Seq<u8>) -> RequestParse {
    match frame_end(b) {
        None => RequestParse::Incomplete,
        Some(e) => {
            let head = latin1_chars(b.subrange(0, e + 4));
            let body = b.subrange(e + 4, b.len() as int);
            let j = choose|j: int| is_first_crlf(head, j);
            match request_line_of(head.subrange(0, j)) {
                Err(f) => f,
                Ok((m, uri, version)) => {
                    if version != "HTTP/1.0"@ && version != "HTTP/1.1"@ {
                        RequestParse::BadVersion
                    } else {
                        match headers_of_text(head.subrange(j + 2, head.len() as int)) {
                            Err(_) => RequestParse::BadHeader,
                            Ok(hv) => {
                                if hv.lookup(HeaderVariant::ContentLength) matches Some(
                                    HeaderView::ContentLength(n),
                                ) && body.len() < n {
                                    RequestParse::Incomplete
                                } else if hv.lookup(HeaderVariant::ContentLength) matches Some(
                                    HeaderView::ContentLength(n),
                                ) && body.len() > n {
                                    RequestParse::Overlong
                                } else {
                                    RequestParse::Parsed {
                                        method: m,
                                        uri,
                                        version,
                                        headers: hv,
                                        body: if body.len() == 0 {
                                            None
                                        } else {
                                            Some(body)
                                        },
                                    }
                                }
                            },
                        }
                    }
                },
            }
        },
    }
}

/// Whether an error is the one a parse outcome calls for.
pub open spec fn error_matches(e: ReqError, p: RequestParse) -> bool {
    match p {
        RequestParse::Incomplete => e == ReqError::ContentLenError,
        RequestParse::Overlong => e == ReqError::ContentLenError,
        RequestParse::BadMethod => e == ReqError::InvalidMethodErr,
        RequestParse::BadVersion => e == ReqError::InvalidHTTPVerError,
        RequestParse::MalformedLine => (e matches ReqError::ParseError(m) && m@
            == "Invalid header line"@),
        RequestParse::BadHeader => e is ParseError,
        RequestParse::Parsed { .. } => false,
    }
}

/// The length of a body; no body has length zero.
pub open spec fn body_len(body: Option<Vec<u8>>) -> nat {
    match body {
        Some(b) => b@.len(),
        None => 0,
    }
}

impl HTTPRequest {
    /// The request as a parse outcome.
    pub open spec fn outcome(&self) -> RequestParse {
        RequestParse::Parsed {
            method: self.method,
            uri: self.uri@,
            version: self.version@,
            headers: self.headers@,
            body: match self.body {
                Some(b) => Some(b@),
                None => None,
            },
        }
    }

    pub open spec fn wf(&self) -> bool {
        self.headers@.wf()
    }
}

/// Where the first `"\r\n\r\n"` of `b` starts, if it holds one.
fn find_frame_end(b: &Vec<u8>) -> (r: Option<usize>)
    ensures
        r matches Some(i) ==> frame_end(b@) == Some(i as int) && i + 4 <= b@.len(),
        r is None ==> frame_end(b@) is None,
{
    let n = b.len();
    if n < 4 {
        assert(forall|i: int| !#[trigger] is_frame_end(b@, i));
        return None;
    }
    let mut i: usize = 0;
    while i <= n - 4
        invariant
            n == b@.len(),
            n >= 4,
            i <= n - 3,
            forall|j: int| 0 <= j < i ==> !#[trigger] blank_line_at(b@, j),
        decreases n - i,
    {
        if b[i] == 13 && b[i + 1] == 10 && b[i + 2] == 13 && b[i + 3] == 10 {
            proof {
                assert(is_frame_end(b@, i as int));
                let k = choose|k: int| is_frame_end(b@, k);
                if k < i {
                    assert(!blank_line_at(b@, k));
                } else if k > i {
                    assert(!blank_line_at(b@, i as int));
                }
            }
            return Some(i);
        }
        i = i + 1;
    }
    assert(forall|k: int| !#[trigger] is_frame_end(b@, k)) by {
        assert forall|k: int| !#[trigger] is_frame_end(b@, k) by {
            if is_frame_end(b@, k) {
                assert(blank_line_at(b@, k));
            }
        }
    }
    None
}

/// Where the first `"\r\n"` of `s` starts, given that one starts at `at`.
fn find_crlf(s: &Vec<char>, at: usize) -> (r: usize)
    requires
        at + 2 <= s@.len(),
        s@[at as int] == '\r',
        s@[at + 1] == '\n',
    ensures
        is_first_crlf(s@, r as int),
        (choose|j: int| is_first_crlf(s@, j)) == r,
{
    let mut i: usize = 0;
    while i < at
        invariant
            at + 2 <= s@.len(),
            i <= at,
            forall|j: int| 0 <= j < i ==> !(#[trigger] s@[j] == '\r' && s@[j + 1] == '\n'),
        decreases at - i,
    {
        if s[i] == '\r' && s[i + 1] == '\n' {
            proof {
                assert(is_first_crlf(s@, i as int));
                let k = choose|k: int| is_first_crlf(s@, k);
                if k < i {
                    assert(!(s@[k] == '\r' && s@[k + 1] == '\n'));
                } else if k > i {
                    assert(!(s@[i as int] == '\r' && s@[i + 1] == '\n'));
                }
            }
            return i;
        }
        i = i + 1;
    }
    proof {
        assert(is_first_crlf(s@, i as int));
        let k = choose|k: int| is_first_crlf(s@, k);
        if k < i {
            assert(!(s@[k] == '\r' && s@[k + 1] == '\n'));
        } else if k > i {
            assert(!(s@[i as int] == '\r' && s@[i + 1] == '\n'));
        }
    }
    i
}

/// Reads a request line `METHOD SP URI SP VERSION`.
pub fn parse_request_line(line: &Vec<char>) -> (r: Result<(Method, String, String), ReqError>)
    ensures
        r matches Ok((m, u, v)) ==> request_line_of(line@) == Ok::<_, RequestParse>((m, u@, v@)),
        r matches Err(e) ==> request_line_of(line@) matches Err(f) && error_matches(e, f),
        request_line_of(line@) == Err::<(Method, Seq<char>, Seq<char>), RequestParse>(
            RequestParse::MalformedLine,
        ) ==> (r matches Err(ReqError::ParseError(m)) && m@ == "Invalid header line"@),
        r is Err <==> request_line_of(line@) is Err,
{
    let t = split_char(line.as_slice(), ' ');
    proof {
        crate::text::lemma_pieces_nonempty(line@, ' ');
    }
    let method = match Method::parse(t[0].as_slice()) {
        Ok(m) => m,
        Err(_) => return Err(ReqError::InvalidMethodErr),
    };
    if t.len() < 3 || t[1].len() == 0 || t[1][0] != '/' {
        return Err(ReqError::ParseError(String::from_str("Invalid header line")));
    }
    Ok((method, string_of(&t[1]), string_of(&t[2])))
}

impl HTTPRequest {
    /// Reads a request from the bytes received so far, as `parse` does, and says besides
    /// whether the body is already longer than `Content-Length` declares (so that reading on
    /// cannot help).
    pub fn parse_framed(req: &Vec<u8>) -> (r: (Result<HTTPRequest, ReqError>, bool))
        ensures
            r.0 matches Ok(q) ==> request_of(req@) == q.outcome() && q.wf(),
            r.0 matches Err(e) ==> error_matches(e, request_of(req@)),
            r.0 is Ok <==> request_of(req@) is Parsed,
            r.1 == (request_of(req@) is Overlong),
    {
        let fe = find_frame_end(req);
        let e = match fe {
            Some(e) => e,
            None => return (Err(ReqError::ContentLenError), false),
        };
        let total = req.len();
        assert(e + 4 <= total);
        let head_bytes = slice_u8(req, 0, e + 4);
        let head = convert_iso_8859_1_to_utf8(&head_bytes);
        assert(head@[e as int] == '\r' && head@[e + 1] == '\n');
        let j = find_crlf(&head, e);
        let line = slice_of(head.as_slice(), 0, j);
        let (method, uri, version) = match parse_request_line(&line) {
            Ok(t) => t,
            Err(err) => return (Err(err), false),
        };
        let vc = crate::text::chars_of(version.as_str());
        if !eq_str(vc.as_slice(), "HTTP/1.0") && !eq_str(vc.as_slice(), "HTTP/1.1") {
            return (Err(ReqError::InvalidHTTPVerError), false);
        }
        let rest = slice_of(head.as_slice(), j + 2, head.len());
        let rest_s = string_of(&rest);
        let headers = match Headers::parse(rest_s.as_str()) {
            Ok(h) => h,
            Err(err) => {
                let mut msg = String::from_str("Unable to parse request line: ");
                let detail = err.to_string();
                msg.append(detail.as_str());
                return (Err(ReqError::ParseError(msg)), false);
            },
        };
        let body = slice_u8(req, e + 4, req.len());
        match headers.get(HeaderVariant::ContentLength) {
            Some(Header::ContentLength(n)) => {
                if n != body.len() {
                    return (Err(ReqError::ContentLenError), body.len() > n);
                }
            },
            Some(_) => {
                return (Err(ReqError::ContentLenError), false);
            },
            None => {},
        }
        let body = if body.len() != 0 {
            Some(body)
        } else {
            None
        };
        (Ok(HTTPRequest { method, uri, version, headers, body }), false)
    }

    /// Reads a request from the bytes received so far. The header block ends at the first
    /// `"\r\n\r\n"` and is decoded one character per byte; what follows is the body.
    pub fn parse(req: &Vec<u8>) -> (r: Result<HTTPRequest, ReqError>)
        ensures
            r matches Ok(q) ==> request_of(req@) == q.outcome() && q.wf(),
            r matches Err(e) ==> error_matches(e, request_of(req@)),
            r is Ok <==> request_of(req@) is Parsed,
            (forall|i: int| !#[trigger] blank_line_at(req@, i)) ==> r matches Err(
                ReqError::ContentLenError,
            ),
            r matches Ok(q) ==> (q.headers@.lookup(HeaderVariant::ContentLength) matches Some(
                HeaderView::ContentLength(n),
            ) ==> n == body_len(q.body)),
    {
        HTTPRequest::parse_framed(req).0
    }
}

/// The bytes of `b` from `lo` up to `hi`.
fn slice_u8(b: &Vec<u8>, lo: usize, hi: usize) -> (r: Vec<u8>)
    requires
        lo <= hi <= b@.len(),
    ensures
        r@ == b@.subrange(lo as int, hi as int),
{
    let mut r: Vec<u8> = Vec::new();
    let mut i: usize = lo;
    while i < hi
        invariant
            lo <= i <= hi,
            hi <= b@.len(),
            r@ == b@.subrange(lo as int, i as int),
        decreases hi - i,
    {
        r.push(b[i]);
        i = i + 1;
        assert(r@ =~= b@.subrange(lo as int, i as int));
    }
    r
}

impl TryFrom<&Vec<u8>> for HTTPRequest {
    type Error = ReqError;

    fn try_from(req: &Vec<u8>) -> Result<HTTPRequest, ReqError> {
        HTTPRequest::parse(req)
    }
}


impl vstd::std_specs::convert::TryFromSpecImpl<&Vec<u8>> for HTTPRequest {
    open spec fn obeys_try_from_spec() -> bool {
        false
    }

    open spec fn try_from_spec(v: &Vec<u8>) -> Result<HTTPRequest, ReqError> {
        arbitrary()
    }
}

} // verus!
