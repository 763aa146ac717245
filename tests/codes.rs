use simple_webserver::http10::content_codings::ContentEncoding;
use simple_webserver::http10::content_types::{get_mime, ContentSubtype, ContentType, MimeType};
use simple_webserver::http10::result_codes::ResultCode;

#[test]
fn status_codes_and_phrases() {
    assert_eq!(ResultCode::NotModified.code(), 304);
    assert_eq!(ResultCode::InternalServerError.to_string(), "500 Internal Server Error");
    assert_eq!(ResultCode::try_from(501).ok(), Some(ResultCode::NotImplemented));
    assert!(ResultCode::try_from(418).is_err());
}

#[test]
fn coding_tokens() {
    assert_eq!(ContentEncoding::try_from("x-gzip").unwrap(), ContentEncoding::GZIP);
    assert!(ContentEncoding::try_from("GZIP").is_err());
    assert_eq!(ContentEncoding::DEFLATE.to_string(), "deflate");
}

#[test]
fn media_types_by_extension() {
    assert_eq!(get_mime("htm".to_string()), "text/html");
    assert_eq!(get_mime("json".to_string()), "application/json");
    assert_eq!(get_mime("rs".to_string()), "application/octet-stream");
    let m = MimeType::from("xhtml".to_string());
    assert_eq!(m.content_type, ContentType::Application);
    assert_eq!(m.content_subtype, vec![ContentSubtype::XHTML, ContentSubtype::XML]);
    assert_eq!(ContentType::parse("image").ok(), Some(ContentType::Image));
    assert!(ContentType::parse("Image").is_err());
    assert_eq!(ContentSubtype::ICO.to_string(), "vnd.microsoft.icon");
    assert_eq!(ContentType::Multipart.to_string(), "multipart");
}
