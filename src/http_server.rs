//! Connection dispatch: what to do with a connection after each read.
use vstd::prelude::*;
use vstd::utf8::encode_utf8;

use crate::http10::headers::{Headers, HeadersView};
use crate::http10::request::{request_of, HTTPRequest, ReqError, RequestParse};
use crate::http10::response::{HTTPResponse, ResponseView};
use crate::http10::result_codes::ResultCode;
use crate::text::utf8_bytes;
use crate::util::{error_page, error_page_text};

verus! {

/// How the server hands connections to the handler.
#[derive(Debug, PartialEq, Eq, Clone, Copy, Structural)]
pub enum HTTPServerClass {
    /// One connection at a time, on the accepting thread.
    Simple,
    /// A new thread for each connection.
    Threaded,
    /// A fixed number of worker threads fed from a queue.
    ThreadPooled(usize),
}

/// What a read from a connection gave.
#[derive(Debug)]
pub enum ReadEvent {
    /// Some bytes arrived.
    Data(Vec<u8>),
    /// The peer closed its side: no more bytes will come.
    Closed,
    /// The read was interrupted before any byte arrived; it may be retried.
    Interrupted,
    /// The read failed or timed out.
    Failed,
}

/// What to do next with a connection.
#[derive(Debug)]
pub enum ConnStep {
    /// The request is not complete yet: read again.
    ReadMore,
    /// A complete request: hand it to the handler and write back its response.
    Serve(HTTPRequest),
    /// The bytes cannot make a request: write back this response and close.
    Reject(HTTPResponse),
    /// Close without a response.
    Abandon,
}

/// The response to bytes that cannot make a request.
pub open spec fn bad_request(protocol: Seq<char>) -> ResponseView {
    ResponseView {
        version: protocol,
        status: ResultCode::BadRequest,
        headers: HeadersView::empty(),
        body: Some(encode_utf8(error_page_text(ResultCode::BadRequest))),
    }
}

/// Whether a step is the one that the bytes received so far call for; `closed` says whether
/// more bytes can come.
pub open spec fn step_matches(s: ConnStep, buf: Seq<u8>, protocol: Seq<char>, closed: bool) -> bool {
    match request_of(buf) {
        RequestParse::Parsed { .. } => s matches ConnStep::Serve(q) && q.outcome() == request_of(buf)
            && q.wf(),
        RequestParse::Incomplete => {
            if closed {
                s matches ConnStep::Reject(r) && r@ == bad_request(protocol) && r.wf()
            } else {
                s is ReadMore
            }
        },
        _ => s matches ConnStep::Reject(r) && r@ == bad_request(protocol) && r.wf(),
    }
}

/// The response to bytes that cannot make a request.
fn bad_request_response(protocol: &String) -> (r: HTTPResponse)
    ensures
        r@ == bad_request(protocol@),
        r.wf(),
{
    let body = utf8_bytes(&error_page(ResultCode::BadRequest));
    HTTPResponse::new(protocol.clone(), ResultCode::BadRequest, Headers::new(), Some(body))
}

/// What to do with the bytes received so far; `closed` says whether more can come. A
/// complete request is served, an incomplete one read on (or rejected once no more bytes can
/// come), and anything else, a body longer than declared included, rejected with 400.
pub fn examine(buf: &Vec<u8>, protocol: &String, closed: bool) -> (r: ConnStep)
    ensures
        step_matches(r, buf@, protocol@, closed),
{
    let (parsed, overlong) = HTTPRequest::parse_framed(buf);
    match parsed {
        Ok(req) => ConnStep::Serve(req),
        Err(e) => {
            if !closed && !overlong && matches!(e, ReqError::ContentLenError) {
                ConnStep::ReadMore
            } else {
                ConnStep::Reject(bad_request_response(protocol))
            }
        },
    }
}

/// Takes in what a read gave and says what to do next: arrived bytes are added to the
/// buffer and the buffer examined; a closed peer ends the reading; an interrupted read is
/// retried; a failed or timed-out read abandons the connection.
pub fn on_read(buf: &mut Vec<u8>, ev: ReadEvent, protocol: &String) -> (r: ConnStep)
    ensures
        ev matches ReadEvent::Data(d) ==> final(buf)@ == old(buf)@ + d@ && step_matches(
            r,
            final(buf)@,
            protocol@,
            false,
        ),
        ev is Closed ==> final(buf)@ == old(buf)@ && step_matches(r, old(buf)@, protocol@, true),
        ev is Interrupted ==> final(buf)@ == old(buf)@ && r is ReadMore,
        ev is Failed ==> final(buf)@ == old(buf)@ && r is Abandon,
{
    match ev {
        ReadEvent::Data(d) => {
            let mut d = d;
            buf.append(&mut d);
            examine(buf, protocol, false)
        },
        ReadEvent::Closed => examine(buf, protocol, true),
        ReadEvent::Interrupted => ConnStep::ReadMore,
        ReadEvent::Failed => ConnStep::Abandon,
    }
}

} // verus!
