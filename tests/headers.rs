use simple_webserver::http10::content_codings::ContentEncoding;
use simple_webserver::http10::dates::HttpDate;
use simple_webserver::http10::headers::{Header, HeaderVariant, Headers};
use simple_webserver::http10::methods::Method;

#[test]
fn converts_authorization_from_string() {
    assert_eq!(
        Header::try_from("Authorization: Bearer".to_string()).unwrap(),
        Header::Authorization("Bearer".to_string())
    );
}

#[test]
fn converts_if_modified_since_from_string() {
    assert_eq!(
        Header::try_from("If-Modified-Since: Tue, 15 Nov 1994 08:12:31 GMT".to_string()).unwrap(),
        Header::IfModifiedSince(HttpDate::parse("Tue, 15 Nov 1994 08:12:31 GMT").unwrap())
    );
}

#[test]
fn builds_header_list_from_string() {
    let headers_str = "Content-Type: text/html\r\n\
    Accept: */*\r\n\
    Server: test-server/1.0\r\n\
    Host: www.mywebserver.com\r\n\r\n";

    let mut headers = Headers::new();
    headers.set(Header::ContentType("text/html".to_string()));
    headers.set(Header::Accept("*/*".to_string()));
    headers.set(Header::Server("test-server/1.0".to_string()));
    headers.set(Header::Host("www.mywebserver.com".to_string()));

    assert_eq!(Headers::try_from(headers_str).unwrap(), headers);
}

#[test]
fn builds_string_from_header_list() {
    let headers_str = "Content-Type: text/html\r\n\
    Accept: */*\r\n\
    Server: test-server/1.0\r\n\
    Host: www.mywebserver.com\r\n\r\n"
        .to_string();

    let mut headers = Headers::new();
    headers.set(Header::ContentType("text/html".to_string()));
    headers.set(Header::Accept("*/*".to_string()));
    headers.set(Header::Server("test-server/1.0".to_string()));
    headers.set(Header::Host("www.mywebserver.com".to_string()));

    assert_eq!(headers.to_string(), headers_str);
}

#[test]
fn merges_valid_headers() {
    let headers_str = "Content-Type: text/html\r\n\
    Accept: */*\r\n\
    Server: test-server/1.0\r\n\
    Host: www.mywebserver.com\r\n\
    Accept-Encoding: deflate, gzip\r\n\r\n"
        .to_string();

    let mut headers = Headers::new();
    headers.set(Header::ContentType("text/html".to_string()));
    headers.set(Header::Accept("*/*".to_string()));
    headers.set(Header::Server("test-server/1.0".to_string()));
    headers.set(Header::Host("www.mywebserver.com".to_string()));
    headers.set(Header::AcceptEncoding(vec![ContentEncoding::DEFLATE, ContentEncoding::GZIP]));

    assert_eq!(headers.to_string(), headers_str);
}

#[test]
fn merges_accept_encoding_lines_by_union() {
    let h = Headers::try_from("Accept-Encoding: gzip\r\nAccept-Encoding: deflate\r\n\r\n").unwrap();
    assert_eq!(
        h.get(HeaderVariant::AcceptEncoding),
        Some(Header::AcceptEncoding(vec![ContentEncoding::GZIP, ContentEncoding::DEFLATE]))
    );
    let r = Headers::try_from("Accept-Encoding: deflate\r\nAccept-Encoding: gzip\r\n\r\n").unwrap();
    assert_eq!(
        r.get(HeaderVariant::AcceptEncoding),
        Some(Header::AcceptEncoding(vec![ContentEncoding::DEFLATE, ContentEncoding::GZIP]))
    );
    let d = Headers::try_from("Accept-Encoding: gzip, deflate\r\nAccept-Encoding: x-gzip\r\n\r\n")
        .unwrap();
    assert_eq!(
        d.get(HeaderVariant::AcceptEncoding),
        Some(Header::AcceptEncoding(vec![ContentEncoding::GZIP, ContentEncoding::DEFLATE]))
    );
}

#[test]
fn merges_allow_lines_by_union() {
    let h = Headers::try_from("Allow: GET,HEAD\r\nAllow: HEAD,POST\r\n\r\n").unwrap();
    assert_eq!(
        h.get(HeaderVariant::Allow),
        Some(Header::Allow(vec![Method::GET, Method::HEAD, Method::POST]))
    );
}

#[test]
fn rejects_repeated_single_field() {
    assert!(Headers::try_from("Host: a\r\nHost: b\r\n\r\n").is_err());
}

#[test]
fn keeps_unknown_fields_in_order() {
    let h = Headers::try_from("X-One: 1\r\nX-One: 2\r\nX-Two: 3\r\n\r\n").unwrap();
    assert_eq!(h.get_generic("X-One"), Some("1".to_string()));
    assert_eq!(h.get_generic("X-Two"), Some("3".to_string()));
    assert_eq!(h.get_generic("X-Three"), None);
    assert_eq!(h.to_string(), "X-One: 1\r\nX-One: 2\r\nX-Two: 3\r\n\r\n");
}

#[test]
fn reads_field_values() {
    assert_eq!(Header::try_from("Content-Length:  42 ").unwrap(), Header::ContentLength(42));
    assert_eq!(Header::try_from("Content-Length: +7").unwrap(), Header::ContentLength(7));
    assert!(Header::try_from("Content-Length: 4x").is_err());
    assert!(Header::try_from("Content-Length: 99999999999999999999999").is_err());
    assert!(Header::try_from("Content-Length:").is_err());
    assert_eq!(
        Header::try_from("Content-Encoding: x-gzip").unwrap(),
        Header::ContentEncoding(ContentEncoding::GZIP)
    );
    assert!(Header::try_from("Content-Encoding: br").is_err());
    assert_eq!(
        Header::try_from("Accept-Encoding: br, zstd").unwrap(),
        Header::AcceptEncoding(vec![])
    );
    assert_eq!(
        Header::try_from("Accept-Encoding: br, deflate").unwrap(),
        Header::AcceptEncoding(vec![ContentEncoding::DEFLATE])
    );
    assert!(Header::try_from("Allow: GET, POST").is_err());
    assert!(Header::try_from("Date: yesterday").is_err());
    assert!(Header::try_from("no colon here").is_err());
    assert_eq!(
        Header::try_from("host: x").unwrap(),
        Header::Generic("host".to_string(), "x".to_string())
    );
    assert_eq!(
        Header::try_from("X-Note: a:b").unwrap(),
        Header::Generic("X-Note".to_string(), "a:b".to_string())
    );
}

#[test]
fn writes_field_lines() {
    let mut h = Headers::new();
    h.set(Header::ContentLength(1024));
    h.set(Header::Allow(vec![Method::GET, Method::HEAD]));
    h.set(Header::ContentEncoding(ContentEncoding::DEFLATE));
    h.set(Header::Date(HttpDate::parse("Tue, 15 Nov 1994 08:12:31 GMT").unwrap()));
    assert_eq!(
        h.to_string(),
        "Content-Length: 1024\r\nAllow: GET,HEAD\r\nContent-Encoding: deflate\r\nDate: Tue, 15 Nov 1994 08:12:31 +0000\r\n\r\n"
    );
}

#[test]
fn set_replaces_field_of_same_kind() {
    let mut h = Headers::new();
    h.set(Header::Host("a".to_string()));
    h.set(Header::Server("s".to_string()));
    h.set(Header::Host("b".to_string()));
    assert_eq!(h.get(HeaderVariant::Host), Some(Header::Host("b".to_string())));
    assert_eq!(h.to_string(), "Host: b\r\nServer: s\r\n\r\n");
    assert_eq!(h.get(HeaderVariant::Referer), None);
}

#[test]
fn field_line_reads_back() {
    let fields = vec![
        Header::Accept("text/html".to_string()),
        Header::AcceptEncoding(vec![ContentEncoding::GZIP, ContentEncoding::TOKEN]),
        Header::Allow(vec![Method::POST]),
        Header::ContentLength(0),
        Header::UserAgent("curl/8.0".to_string()),
        Header::Generic("X-Id".to_string(), "17".to_string()),
        Header::LastModified(HttpDate::parse("Wed, 18 Feb 2015 23:16:09 +0100").unwrap()),
    ];
    for f in fields {
        let line: String = f.to_line().into_iter().collect();
        assert_eq!(Header::try_from(line.as_str()).unwrap(), f);
    }
}

#[test]
fn empty_header_block_has_no_fields() {
    assert_eq!(Headers::try_from("\r\n").unwrap(), Headers::new());
}

#[test]
fn equality_ignores_order_of_known_fields() {
    let mut a = Headers::new();
    a.set(Header::Host("h".to_string()));
    a.set(Header::Server("s".to_string()));
    let mut b = Headers::new();
    b.set(Header::Server("s".to_string()));
    b.set(Header::Host("h".to_string()));
    assert_eq!(a, b);
    b.set(Header::Host("other".to_string()));
    assert_ne!(a, b);
}
