use simple_webserver::http10::headers::{Header, Headers};
use simple_webserver::http10::methods::Method;
use simple_webserver::http10::request::{HTTPRequest, ReqError};

#[test]
fn test_parse_valid_request() {
    let request_buf = "GET / HTTP/1.0\r\n\
    Host: webserver.christianbingman.com\r\n\
    User-Agent: rusty-client/1.0\r\n\
    Accept: */*\r\n\r\n"
        .as_bytes()
        .to_vec();

    let req = HTTPRequest::try_from(&request_buf).unwrap();
    let mut headers = Headers::new();
    headers.set(Header::Host("webserver.christianbingman.com".into()));
    headers.set(Header::UserAgent("rusty-client/1.0".into()));
    headers.set(Header::Accept("*/*".into()));

    assert_eq!(req.method, Method::GET);
    assert_eq!(req.uri, "/");
    assert_eq!(req.version, "HTTP/1.0");
    assert_eq!(req.headers, headers);
}

#[test]
fn test_fail_invalid_request() {
    let request_buf = "GET HTTP/1.0\r\n\
    Host: webserver.christianbingman.com\r\n\
    User-Agent: rusty-client/1.0\r\n\
    Accept: */*\r\n\r\n"
        .as_bytes()
        .to_vec();

    assert_eq!(
        HTTPRequest::try_from(&request_buf).unwrap_err(),
        ReqError::ParseError("Invalid header line".into())
    );
}

#[test]
fn test_missing_header_delimiter() {
    let request_buf = "GET HTTP/1.0\r\n\
    Host: webserver.christianbingman.com\r\n\
    User-Agent: rusty-client/1.0\r\n\
    Accept: */*\r\n"
        .as_bytes()
        .to_vec();

    assert_eq!(HTTPRequest::try_from(&request_buf).unwrap_err(), ReqError::ContentLenError);
}

#[test]
fn test_invalid_http_ver() {
    let request_buf = "GET / HTTP/2.0\r\n\
    Host: webserver.christianbingman.com\r\n\
    User-Agent: rusty-client/1.0\r\n\
    Accept: */*\r\n\r\n"
        .as_bytes()
        .to_vec();

    assert_eq!(HTTPRequest::try_from(&request_buf).unwrap_err(), ReqError::InvalidHTTPVerError);
}

// Header bytes are decoded one character per byte, so these bytes decode; the request line
// "GET HTTP/1.0" is what fails.
#[test]
fn test_invalid_header_charset() {
    let request_buf = b"GET HTTP/1.0\r\n\
    Host: webserver.christianbingman.com\r\n\
    User-Agent: rusty-client/1.0\r\n\
    Accept: */*\xc3\x28\r\n\r\n"
        .to_vec();

    assert_eq!(
        HTTPRequest::try_from(&request_buf).unwrap_err(),
        ReqError::ParseError("Invalid header line".into())
    );
}

#[test]
fn decodes_header_bytes_one_char_per_byte() {
    let buf = b"GET / HTTP/1.1\r\nX-Name: caf\xe9\r\n\r\n".to_vec();
    let req = HTTPRequest::try_from(&buf).unwrap();
    assert_eq!(req.headers.get_generic("X-Name"), Some("caf\u{e9}".to_string()));
    assert_eq!(req.version, "HTTP/1.1");
}

#[test]
fn incomplete_without_blank_line_at_any_length() {
    let mut buf: Vec<u8> = Vec::new();
    assert_eq!(HTTPRequest::try_from(&buf).unwrap_err(), ReqError::ContentLenError);
    for chunk in ["GET / HTTP/1.0\r\n", "Host: x\r\n", "Content-Length: 3\r\n", "X: y"] {
        buf.extend_from_slice(chunk.as_bytes());
        assert_eq!(HTTPRequest::try_from(&buf).unwrap_err(), ReqError::ContentLenError);
    }
    let mut big = b"GET / HTTP/1.0\r\nX: ".to_vec();
    big.extend(std::iter::repeat(b'a').take(100_000));
    assert_eq!(HTTPRequest::try_from(&big).unwrap_err(), ReqError::ContentLenError);
}

#[test]
fn content_length_must_match_body() {
    let short = b"POST / HTTP/1.0\r\nContent-Length: 5\r\n\r\nabc".to_vec();
    assert_eq!(HTTPRequest::try_from(&short).unwrap_err(), ReqError::ContentLenError);
    let long = b"POST / HTTP/1.0\r\nContent-Length: 2\r\n\r\nabc".to_vec();
    assert_eq!(HTTPRequest::try_from(&long).unwrap_err(), ReqError::ContentLenError);
    let exact = b"POST / HTTP/1.0\r\nContent-Length: 3\r\n\r\nabc".to_vec();
    let req = HTTPRequest::try_from(&exact).unwrap();
    assert_eq!(req.method, Method::POST);
    assert_eq!(req.body, Some(b"abc".to_vec()));
}

#[test]
fn empty_body_is_no_body() {
    let buf = b"HEAD /a.txt HTTP/1.0\r\nContent-Length: 0\r\n\r\n".to_vec();
    let req = HTTPRequest::try_from(&buf).unwrap();
    assert_eq!(req.method, Method::HEAD);
    assert_eq!(req.uri, "/a.txt");
    assert_eq!(req.body, None);
}

#[test]
fn distinguishes_request_failures() {
    let bad_method = b"PUT / HTTP/1.0\r\n\r\n".to_vec();
    assert_eq!(HTTPRequest::try_from(&bad_method).unwrap_err(), ReqError::InvalidMethodErr);
    let no_slash = b"GET index.html HTTP/1.0\r\n\r\n".to_vec();
    assert_eq!(
        HTTPRequest::try_from(&no_slash).unwrap_err(),
        ReqError::ParseError("Invalid header line".into())
    );
    let bad_field = b"GET / HTTP/1.0\r\nHost\r\n\r\n".to_vec();
    assert!(matches!(HTTPRequest::try_from(&bad_field).unwrap_err(), ReqError::ParseError(_)));
    let dup = b"GET / HTTP/1.0\r\nHost: a\r\nHost: b\r\n\r\n".to_vec();
    assert!(matches!(HTTPRequest::try_from(&dup).unwrap_err(), ReqError::ParseError(_)));
}

#[test]
fn request_without_fields_parses() {
    let buf = b"GET / HTTP/1.0\r\n\r\n".to_vec();
    let req = HTTPRequest::try_from(&buf).unwrap();
    assert_eq!(req.headers, Headers::new());
}

#[test]
fn method_tokens() {
    assert_eq!(Method::try_from("HEAD").unwrap(), Method::HEAD);
    assert!(Method::try_from("get").is_err());
    assert_eq!(Method::POST.to_string(), "POST");
}
