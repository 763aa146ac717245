//! Responses and their serialization to bytes.
use vstd::prelude::*;
use vstd::utf8::encode_utf8;

use super::headers::{Headers, HeadersView};
use super::result_codes::{status_text, ResultCode};

verus! {

#[derive(Debug, Clone)]
pub struct HTTPResponse {
    pub version: String,
    pub status: ResultCode,
    pub headers: Headers,
    pub body: Option<Vec<u8>>,
}

/// A response as a mathematical value.
pub struct ResponseView {
    pub version: Seq<char>,
    pub status: ResultCode,
    pub headers: HeadersView,
    pub body: Option<Seq<u8>>,
}

impl View for HTTPResponse {
    type V = ResponseView;

    open spec fn view(&self) -> ResponseView {
        ResponseView {
            version: self.version@,
            status: self.status,
            headers: self.headers@,
            body: match self.body {
                Some(b) => Some(b@),
                None => None,
            },
        }
    }
}

/// The head of a response: status line `VERSION SP CODE SP REASON`, then the header block.
pub open spec fn head_text(version: Seq<char>, status: ResultCode, headers: HeadersView) -> Seq<char> {
    version + " "@ + status_text(status) + "\r\n"@ + headers.text()
}

/// A body as bytes; no body is no bytes.
pub open spec fn body_bytes(body: Option<Vec<u8>>) -> Seq<u8> {
    match body {
        Some(b) => b@,
        None => Seq::empty(),
    }
}

impl HTTPResponse {
    pub fn new(version: String, status: ResultCode, headers: Headers, body: Option<Vec<u8>>) -> (r: HTTPResponse)
        ensures
            r.version == version,
            r.status == status,
            r.headers == headers,
            r.body == body,
    {
        HTTPResponse { version, status, headers, body }
    }

    pub open spec fn wf(&self) -> bool {
        self.headers@.wf()
    }

    /// The response on the wire: the head encoded as UTF-8, then the body bytes unchanged.
    pub fn as_bytes(&self) -> (r: Vec<u8>)
        requires
            self.wf(),
        ensures
            r@ == encode_utf8(head_text(self.version@, self.status, self.headers@)) + body_bytes(
                self.body,
            ),
    {
        let mut head = self.version.clone();
        head.append(" ");
        head.append(self.status.text());
        head.append("\r\n");
        let block = self.headers.to_string();
        head.append(block.as_str());
        let bytes = head.as_str().as_bytes();
        let mut out: Vec<u8> = Vec::new();
        let mut i: usize = 0;
        while i < bytes.len()
            invariant
                i <= bytes@.len(),
                out@ == bytes@.subrange(0, i as int),
            decreases bytes@.len() - i,
        {
            out.push(bytes[i]);
            i = i + 1;
            assert(out@ =~= bytes@.subrange(0, i as int));
        }
        assert(bytes@.subrange(0, bytes@.len() as int) =~= bytes@);
        let ghost head_bytes = out@;
        match &self.body {
            Some(b) => {
                let mut j: usize = 0;
                while j < b.len()
                    invariant
                        j <= b@.len(),
                        out@ == head_bytes + b@.subrange(0, j as int),
                    decreases b@.len() - j,
                {
                    out.push(b[j]);
                    j = j + 1;
                    assert(out@ =~= head_bytes + b@.subrange(0, j as int));
                }
                assert(b@.subrange(0, b@.len() as int) =~= b@);
            },
            None => {
                assert(out@ =~= head_bytes + Seq::<u8>::empty());
            },
        }
        assert(head@ =~= head_text(self.version@, self.status, self.headers@));
        out
    }
}

} // verus!
