//! The request handlers: authentication, and resolution of GET and HEAD requests.
use vstd::prelude::*;
use vstd::utf8::encode_utf8;

use base64::Engine;

use crate::file::{compressed, File, FileError};
use crate::http10::content_codings::ContentEncoding;
use crate::http10::dates::HttpDate;
use crate::http10::headers::{
    lemma_lookup_with, lemma_with_wf_auto, Header, HeaderVariant, HeaderView, Headers, HeadersView,
};
use crate::http10::methods::Method;
use crate::http10::request::HTTPRequest;
use crate::http10::response::{HTTPResponse, ResponseView};
use crate::http10::result_codes::ResultCode;
use crate::text::{chars_of, eq_chars, eq_str, pieces, split_char, utf8_bytes};
use crate::util::{dir_listing, error_page, error_page_text, listing_text};
use crate::{Auth, Opts};

verus! {

/// Basic authentication failed.
#[derive(Debug)]
pub struct AuthError {}

/// The standard base64 text (with padding) of some bytes.
pub uninterp spec fn base64_text(b: Seq<u8>) -> Seq<char>;

/// Relies on base64's `general_purpose::STANDARD.encode`: the padded standard-alphabet text.
#[verifier::external_body]
fn base64_encode(b: &[u8]) -> (r: String)
    ensures
        r@ == base64_text(b@),
{
    base64::engine::general_purpose::STANDARD.encode(b)
}

/// The value of `Server` on every response.
pub open spec fn server_name() -> Seq<char> {
    "Rusty Webserver"@
}

/// Whether an `Authorization` value is `Basic` followed by exactly the expected token (more
/// space-separated tokens may follow).
pub open spec fn basic_matches(value: Seq<char>, expected: Seq<char>) -> bool {
    let t = pieces(value, ' ');
    t.len() >= 2 && t[0] == "Basic"@ && t[1] == expected
}

/// The token that basic authentication expects for some credentials.
pub open spec fn expected_token(auth: &Auth) -> Seq<char> {
    base64_text(encode_utf8(auth.username@ + ":"@ + auth.password@))
}

/// Whether a request carries the expected basic credentials.
pub open spec fn authorized(headers: HeadersView, expected: Seq<char>) -> bool {
    match headers.lookup(HeaderVariant::Authorization) {
        Some(HeaderView::Authorization(v)) => basic_matches(v, expected),
        _ => false,
    }
}

/// Whether an `Authorization` value carries the expected basic token.
pub fn basic_credentials_match(value: &String, expected: &String) -> (r: bool)
    ensures
        r == basic_matches(value@, expected@),
{
    let v = chars_of(value.as_str());
    let t = split_char(v.as_slice(), ' ');
    if t.len() < 2 {
        return false;
    }
    let e = chars_of(expected.as_str());
    eq_str(t[0].as_slice(), "Basic") && eq_chars(&t[1], &e)
}

/// Checks the request's `Authorization` field against the configured credentials.
pub fn basic_auth(req: &HTTPRequest, auth: &Auth) -> (r: Result<(), AuthError>)
    requires
        req.wf(),
    ensures
        r is Ok <==> authorized(req.headers@, expected_token(auth)),
{
    let mut cred = auth.username.clone();
    cred.append(":");
    cred.append(auth.password.as_str());
    let bytes = utf8_bytes(&cred);
    let expected = base64_encode(bytes.as_slice());
    match req.headers.get(HeaderVariant::Authorization) {
        Some(Header::Authorization(v)) => {
            if basic_credentials_match(&v, &expected) {
                Ok(())
            } else {
                Err(AuthError {})
            }
        },
        _ => Err(AuthError {}),
    }
}

/// The fields every handled response starts with: `Date` and `Server`.
pub open spec fn base_headers(now: HttpDate) -> HeadersView {
    HeadersView::empty().with(HeaderView::Date(now)).with(HeaderView::Server(server_name()))
}

/// A response whose body is the HTML page for its status.
pub open spec fn page_response(protocol: Seq<char>, status: ResultCode, headers: HeadersView) -> ResponseView {
    ResponseView {
        version: protocol,
        status,
        headers: headers.with(HeaderView::ContentType("text/html"@)),
        body: Some(encode_utf8(error_page_text(status))),
    }
}

/// Whether the request's `If-Modified-Since` is strictly later than `modified`.
pub open spec fn not_modified(req: HeadersView, modified: HttpDate) -> bool {
    match req.lookup(HeaderVariant::IfModifiedSince) {
        Some(HeaderView::IfModifiedSince(d)) => d.later_than(modified),
        _ => false,
    }
}

/// The coding to compress with: the first one the request accepts, unless it accepts
/// `token` (no transformation).
pub open spec fn requested_coding(req: HeadersView) -> Option<ContentEncoding> {
    match req.lookup(HeaderVariant::AcceptEncoding) {
        Some(HeaderView::AcceptEncoding(cs)) => {
            if cs.len() > 0 && !cs.contains(ContentEncoding::TOKEN) {
                Some(cs[0])
            } else {
                None
            }
        },
        _ => None,
    }
}

/// A file served with the given body: `Content-Type`, `Content-Length` and `Last-Modified`
/// added to the headers.
pub open spec fn served(protocol: Seq<char>, headers: HeadersView, file: File, body: Seq<u8>) -> ResponseView {
    ResponseView {
        version: protocol,
        status: ResultCode::OK,
        headers: headers.with(HeaderView::ContentType(file.mime_type@)).with(
            HeaderView::ContentLength(body.len() as usize),
        ).with(HeaderView::LastModified(file.modified)),
        body: Some(body),
    }
}

/// The response to a GET for a resource, given what loading it gave.
pub open spec fn get_response(
    req: HeadersView,
    protocol: Seq<char>,
    ratio: u32,
    loaded: Result<File, FileError>,
    listing: Seq<Seq<char>>,
    now: HttpDate,
) -> ResponseView {
    let base = base_headers(now);
    match loaded {
        Ok(file) => {
            if not_modified(req, file.modified) {
                ResponseView { version: protocol, status: ResultCode::NotModified, headers: base, body: None }
            } else {
                match requested_coding(req) {
                    Some(c) => match compressed(file.content@, c, ratio as int) {
                        Some(body) => served(protocol, base.with(HeaderView::ContentEncoding(c)), file, body),
                        None => page_response(protocol, ResultCode::InternalServerError, base),
                    },
                    None => served(protocol, base, file, file.content@),
                }
            }
        },
        Err(FileError::NotFound) => page_response(protocol, ResultCode::NotFound, base),
        Err(FileError::IsADirectory) => ResponseView {
            version: protocol,
            status: ResultCode::OK,
            headers: base.with(HeaderView::ContentType("text/html"@)),
            body: Some(encode_utf8(listing_text(listing))),
        },
        Err(FileError::ReadError) => page_response(protocol, ResultCode::InternalServerError, base),
    }
}

/// The coding to compress with, from the request's fields.
fn coding_for(req: &Headers) -> (r: Option<ContentEncoding>)
    requires
        req@.wf(),
    ensures
        r == requested_coding(req@),
{
    let got = req.get(HeaderVariant::AcceptEncoding);
    match got {
        Some(Header::AcceptEncoding(cs)) => {
            assert(req@.lookup(HeaderVariant::AcceptEncoding) == Some(HeaderView::AcceptEncoding(cs@)));
            if cs.len() == 0 {
                return None;
            }
            let mut i: usize = 0;
            while i < cs.len()
                invariant
                    i <= cs@.len(),
                    req@.lookup(HeaderVariant::AcceptEncoding) == Some(HeaderView::AcceptEncoding(cs@)),
                    forall|j: int| 0 <= j < i ==> cs@[j] != ContentEncoding::TOKEN,
                decreases cs@.len() - i,
            {
                if cs[i] == ContentEncoding::TOKEN {
                    assert(cs@[i as int] == ContentEncoding::TOKEN);
                    assert(cs@.contains(ContentEncoding::TOKEN));
                    return None;
                }
                i = i + 1;
            }
            Some(cs[0])
        },
        _ => None,
    }
}

/// The fields every handled response starts with.
fn start_headers(now: HttpDate) -> (r: Headers)
    requires
        now.wf(),
    ensures
        r@ == base_headers(now),
        r@.wf(),
{
    let mut h = Headers::new();
    h.set(Header::Date(now));
    h.set(Header::Server(String::from_str("Rusty Webserver")));
    h
}

/// A response whose body is the HTML page for its status.
fn page(protocol: &String, status: ResultCode, headers: Headers) -> (r: HTTPResponse)
    requires
        headers@.wf(),
    ensures
        r@ == page_response(protocol@, status, headers@),
        r.wf(),
{
    let mut headers = headers;
    headers.set(Header::ContentType(String::from_str("text/html")));
    let body = utf8_bytes(&error_page(status));
    HTTPResponse::new(protocol.clone(), status, headers, Some(body))
}

/// Answers a GET for a resource. `loaded` is what loading the request's target under the
/// served directory gave, `listing` the directory's entries where it is a directory, and
/// `now` the time of the response.
pub fn get_handler(
    req: &HTTPRequest,
    opts: &Opts,
    loaded: Result<File, FileError>,
    listing: Vec<String>,
    now: HttpDate,
) -> (r: HTTPResponse)
    requires
        req.wf(),
        now.wf(),
        opts.ratio <= 9,
        loaded matches Ok(f) ==> f.modified.wf(),
    ensures
        r@ == get_response(
            req.headers@,
            opts.protocol@,
            opts.ratio,
            loaded,
            listing@.map_values(|p: String| p@),
            now,
        ),
        r.wf(),
{
    let mut headers = start_headers(now);
    match loaded {
        Ok(file) => {
            match req.headers.get(HeaderVariant::IfModifiedSince) {
                Some(Header::IfModifiedSince(d)) => {
                    if d.is_after(&file.modified) {
                        return HTTPResponse::new(opts.protocol.clone(), ResultCode::NotModified, headers, None);
                    }
                },
                _ => {},
            }
            let file = match coding_for(&req.headers) {
                Some(c) => {
                    match file.compress(&c, opts.ratio) {
                        Some(f) => {
                            headers.set(Header::ContentEncoding(c));
                            f
                        },
                        None => {
                            return page(&opts.protocol, ResultCode::InternalServerError, headers);
                        },
                    }
                },
                None => file,
            };
            headers.set(Header::ContentType(file.get_mime()));
            headers.set(Header::ContentLength(file.content.len()));
            headers.set(Header::LastModified(file.get_modified()));
            let body = file.get_content();
            HTTPResponse::new(opts.protocol.clone(), ResultCode::OK, headers, Some(body))
        },
        Err(FileError::NotFound) => page(&opts.protocol, ResultCode::NotFound, headers),
        Err(FileError::IsADirectory) => {
            let body = utf8_bytes(&dir_listing(listing));
            headers.set(Header::ContentType(String::from_str("text/html")));
            HTTPResponse::new(opts.protocol.clone(), ResultCode::OK, headers, Some(body))
        },
        Err(FileError::ReadError) => page(&opts.protocol, ResultCode::InternalServerError, headers),
    }
}

/// The response to a request, given what loading its target gave: credentials are checked
/// first where they are configured; GET serves the resource, HEAD the same without a body,
/// POST is not implemented.
pub open spec fn handle_response(
    method: Method,
    req: HeadersView,
    opts: &Opts,
    loaded: Result<File, FileError>,
    listing: Seq<Seq<char>>,
    now: HttpDate,
) -> ResponseView {
    let base = base_headers(now);
    let denied = match opts.auth {
        Some(a) => !authorized(req, expected_token(&a)),
        None => false,
    };
    if denied {
        page_response(
            opts.protocol@,
            ResultCode::Unauthorized,
            base.with(HeaderView::WWWAuthenticate("Basic"@)),
        )
    } else {
        match method {
            Method::GET => get_response(req, opts.protocol@, opts.ratio, loaded, listing, now),
            Method::HEAD => ResponseView {
                body: None,
                ..get_response(req, opts.protocol@, opts.ratio, loaded, listing, now)
            },
            Method::POST => page_response(opts.protocol@, ResultCode::NotImplemented, base),
        }
    }
}

/// A HEAD request is answered with the version, status and header fields of a GET for the
/// same target, and without a body.
pub proof fn lemma_head_matches_get(
    req: HeadersView,
    opts: &Opts,
    loaded: Result<File, FileError>,
    listing: Seq<Seq<char>>,
    now: HttpDate,
)
    ensures
        ({
            let head = handle_response(Method::HEAD, req, opts, loaded, listing, now);
            let get = handle_response(Method::GET, req, opts, loaded, listing, now);
            &&& head.version == get.version
            &&& head.status == get.status
            &&& head.headers == get.headers
            &&& (head.status != ResultCode::Unauthorized ==> head.body is None)
        }),
{
}

/// A HEAD request is answered with the version and status of a GET for the same target, with
/// the same value for every header field but `Date` whatever the times of the two responses,
/// and, unless the credentials were refused, without a body.
pub proof fn lemma_head_matches_get_at_any_time(
    req: HeadersView,
    opts: &Opts,
    loaded: Result<File, FileError>,
    listing: Seq<Seq<char>>,
    now_head: HttpDate,
    now_get: HttpDate,
    k: HeaderVariant,
)
    requires
        now_head.wf(),
        now_get.wf(),
        loaded matches Ok(f) ==> f.modified.wf(),
        k != HeaderVariant::Date,
        k != HeaderVariant::Generic,
    ensures
        ({
            let head = handle_response(Method::HEAD, req, opts, loaded, listing, now_head);
            let get = handle_response(Method::GET, req, opts, loaded, listing, now_get);
            &&& head.version == get.version
            &&& head.status == get.status
            &&& head.headers.lookup(k) == get.headers.lookup(k)
            &&& head.headers.extra == get.headers.extra
            &&& (head.status != ResultCode::Unauthorized ==> head.body is None)
        }),
{
    broadcast use lemma_lookup_with, lemma_with_wf_auto;

    assert(HeadersView::empty().wf());
}

/// Answers a request. `loaded` is what loading its target under the served directory gave
/// (it plays no part for POST), `listing` the directory's entries where the target is a
/// directory, and `now` the time of the response.
pub fn default_handler(
    req: &HTTPRequest,
    opts: &Opts,
    loaded: Result<File, FileError>,
    listing: Vec<String>,
    now: HttpDate,
) -> (r: HTTPResponse)
    requires
        req.wf(),
        now.wf(),
        opts.ratio <= 9,
        loaded matches Ok(f) ==> f.modified.wf(),
    ensures
        r@ == handle_response(
            req.method,
            req.headers@,
            opts,
            loaded,
            listing@.map_values(|p: String| p@),
            now,
        ),
        r.wf(),
{
    match &opts.auth {
        Some(auth) => {
            match basic_auth(req, auth) {
                Err(_) => {
                    let mut headers = start_headers(now);
                    headers.set(Header::WWWAuthenticate(String::from_str("Basic")));
                    return page(&opts.protocol, ResultCode::Unauthorized, headers);
                },
                Ok(()) => {},
            }
        },
        None => {},
    }
    match req.method {
        Method::GET => get_handler(req, opts, loaded, listing, now),
        Method::HEAD => {
            let mut resp = get_handler(req, opts, loaded, listing, now);
            resp.body = None;
            resp
        },
        Method::POST => page(&opts.protocol, ResultCode::NotImplemented, start_headers(now)),
    }
}

} // verus!
