//! Media types, and the media type that a file extension stands for.
use vstd::prelude::*;

use crate::text::{chars_of, eq_str};

verus! {

/// A token that names no top-level media type.
#[derive(Debug)]
pub struct InvalidContentTypeErr;

#[derive(Debug, Clone, PartialEq, Eq)]
pub struct MimeType {
    pub content_type: ContentType,
    pub content_subtype: Vec<ContentSubtype>,
}

/// The `Content-Type` value served for a file extension.
pub open spec fn mime_for(ext: Seq<char>) -> Seq<char> {
    if ext == "html"@ || ext == "htm"@ {
        "text/html"@
    } else if ext == "css"@ {
        "text/css"@
    } else if ext == "gz"@ {
        "application/gzip"@
    } else if ext == "gif"@ {
        "image/gif"@
    } else if ext == "ico"@ {
        "image/vnd.microsoft.icon"@
    } else if ext == "jpg"@ || ext == "jpeg"@ {
        "image/jpeg"@
    } else if ext == "js"@ {
        "text/javascript"@
    } else if ext == "json"@ {
        "application/json"@
    } else if ext == "png"@ {
        "image/png"@
    } else if ext == "pdf"@ {
        "application/pdf"@
    } else if ext == "txt"@ {
        "text/plain"@
    } else if ext == "xml"@ {
        "application/xhtml+xml"@
    } else {
        "application/octet-stream"@
    }
}

/// The `Content-Type` value served for a file extension (`application/octet-stream` for
/// any extension not listed).
pub fn get_mime(value: String) -> (r: &'static str)
    ensures
        r@ == mime_for(value@),
{
    let e = chars_of(value.as_str());
    let e = e.as_slice();
    if eq_str(e, "html") || eq_str(e, "htm") {
        "text/html"
    } else if eq_str(e, "css") {
        "text/css"
    } else if eq_str(e, "gz") {
        "application/gzip"
    } else if eq_str(e, "gif") {
        "image/gif"
    } else if eq_str(e, "ico") {
        "image/vnd.microsoft.icon"
    } else if eq_str(e, "jpg") || eq_str(e, "jpeg") {
        "image/jpeg"
    } else if eq_str(e, "js") {
        "text/javascript"
    } else if eq_str(e, "json") {
        "application/json"
    } else if eq_str(e, "png") {
        "image/png"
    } else if eq_str(e, "pdf") {
        "application/pdf"
    } else if eq_str(e, "txt") {
        "text/plain"
    } else if eq_str(e, "xml") {
        "application/xhtml+xml"
    } else {
        "application/octet-stream"
    }
}

/// The structured media type for a file extension.
pub open spec fn mime_type_for(ext: Seq<char>) -> (ContentType, Seq<ContentSubtype>) {
    if ext == "html"@ || ext == "htm"@ {
        (ContentType::Text, seq![ContentSubtype::HTML])
    } else if ext == "css"@ {
        (ContentType::Text, seq![ContentSubtype::CSS])
    } else if ext == "gz"@ {
        (ContentType::Application, seq![ContentSubtype::GZIP])
    } else if ext == "gif"@ {
        (ContentType::Image, seq![ContentSubtype::GIF])
    } else if ext == "ico"@ {
        (ContentType::Image, seq![ContentSubtype::ICO])
    } else if ext == "jpg"@ || ext == "jpeg"@ {
        (ContentType::Image, seq![ContentSubtype::JPEG])
    } else if ext == "js"@ {
        (ContentType::Text, seq![ContentSubtype::JAVASCRIPT])
    } else if ext == "json"@ {
        (ContentType::Application, seq![ContentSubtype::JSON])
    } else if ext == "png"@ {
        (ContentType::Image, seq![ContentSubtype::PNG])
    } else if ext == "pdf"@ {
        (ContentType::Application, seq![ContentSubtype::PDF])
    } else if ext == "txt"@ {
        (ContentType::Text, seq![ContentSubtype::PLAIN])
    } else if ext == "xml"@ {
        (ContentType::Application, seq![ContentSubtype::XML])
    } else if ext == "xhtml"@ {
        (ContentType::Application, seq![ContentSubtype::XHTML, ContentSubtype::XML])
    } else {
        (ContentType::Application, seq![ContentSubtype::OCTETSTREAM])
    }
}

impl MimeType {
    /// The structured media type for a file extension.
    pub fn from(value: String) -> (r: MimeType)
        ensures
            (r.content_type, r.content_subtype@) == mime_type_for(value@),
    {
        let e = chars_of(value.as_str());
        let e = e.as_slice();
        let (t, s) = if eq_str(e, "html") || eq_str(e, "htm") {
            (ContentType::Text, vec![ContentSubtype::HTML])
        } else if eq_str(e, "css") {
            (ContentType::Text, vec![ContentSubtype::CSS])
        } else if eq_str(e, "gz") {
            (ContentType::Application, vec![ContentSubtype::GZIP])
        } else if eq_str(e, "gif") {
            (ContentType::Image, vec![ContentSubtype::GIF])
        } else if eq_str(e, "ico") {
            (ContentType::Image, vec![ContentSubtype::ICO])
        } else if eq_str(e, "jpg") || eq_str(e, "jpeg") {
            (ContentType::Image, vec![ContentSubtype::JPEG])
        } else if eq_str(e, "js") {
            (ContentType::Text, vec![ContentSubtype::JAVASCRIPT])
        } else if eq_str(e, "json") {
            (ContentType::Application, vec![ContentSubtype::JSON])
        } else if eq_str(e, "png") {
            (ContentType::Image, vec![ContentSubtype::PNG])
        } else if eq_str(e, "pdf") {
            (ContentType::Application, vec![ContentSubtype::PDF])
        } else if eq_str(e, "txt") {
            (ContentType::Text, vec![ContentSubtype::PLAIN])
        } else if eq_str(e, "xml") {
            (ContentType::Application, vec![ContentSubtype::XML])
        } else if eq_str(e, "xhtml") {
            (ContentType::Application, vec![ContentSubtype::XHTML, ContentSubtype::XML])
        } else {
            (ContentType::Application, vec![ContentSubtype::OCTETSTREAM])
        };
        proof {
            assert(s@ =~= mime_type_for(value@).1);
        }
        MimeType { content_type: t, content_subtype: s }
    }
}

#[derive(Debug, PartialEq, Eq, Clone, Copy, Structural)]
pub enum ContentType {
    Application,
    Audio,
    Example,
    Font,
    Image,
    Model,
    Text,
    Video,
    Multipart,
}

#[derive(Debug, PartialEq, Eq, Clone, Copy, Structural)]
pub enum ContentSubtype {
    HTML,
    XML,
    XHTML,
    OCTETSTREAM,
    CSS,
    GZIP,
    GIF,
    ICO,
    JPEG,
    JAVASCRIPT,
    JSON,
    PNG,
    PDF,
    PLAIN,
}

/// The top-level media type that a token names, if any.
pub open spec fn content_type_of(s: Seq<char>) -> Option<ContentType> {
    if s == "application"@ { Some(ContentType::Application) }
    else if s == "audio"@ { Some(ContentType::Audio) }
    else if s == "example"@ { Some(ContentType::Example) }
    else if s == "font"@ { Some(ContentType::Font) }
    else if s == "image"@ { Some(ContentType::Image) }
    else if s == "model"@ { Some(ContentType::Model) }
    else if s == "text"@ { Some(ContentType::Text) }
    else if s == "video"@ { Some(ContentType::Video) }
    else if s == "multipart"@ { Some(ContentType::Multipart) }
    else { None }
}

/// The token of a top-level media type.
pub open spec fn content_type_name(t: ContentType) -> Seq<char> {
    match t {
        ContentType::Application => "application"@,
        ContentType::Audio => "audio"@,
        ContentType::Example => "example"@,
        ContentType::Font => "font"@,
        ContentType::Image => "image"@,
        ContentType::Model => "model"@,
        ContentType::Text => "text"@,
        ContentType::Video => "video"@,
        ContentType::Multipart => "multipart"@,
    }
}

/// The token of a media subtype.
pub open spec fn subtype_name(t: ContentSubtype) -> Seq<char> {
    match t {
        ContentSubtype::HTML => "html"@,
        ContentSubtype::XML => "xml"@,
        ContentSubtype::XHTML => "xhtml+xml"@,
        ContentSubtype::OCTETSTREAM => "octet-stream"@,
        ContentSubtype::CSS => "css"@,
        ContentSubtype::GZIP => "gzip"@,
        ContentSubtype::GIF => "gif"@,
        ContentSubtype::ICO => "vnd.microsoft.icon"@,
        ContentSubtype::JPEG => "jpeg"@,
        ContentSubtype::JAVASCRIPT => "javascript"@,
        ContentSubtype::JSON => "json"@,
        ContentSubtype::PNG => "png"@,
        ContentSubtype::PDF => "pdf"@,
        ContentSubtype::PLAIN => "plain"@,
    }
}

impl ContentSubtype {
    /// The subtype's token.
    pub fn to_string(&self) -> (r: String)
        ensures
            r@ == subtype_name(*self),
    {
        String::from_str(
            match self {
                ContentSubtype::HTML => "html",
                ContentSubtype::XML => "xml",
                ContentSubtype::XHTML => "xhtml+xml",
                ContentSubtype::OCTETSTREAM => "octet-stream",
                ContentSubtype::CSS => "css",
                ContentSubtype::GZIP => "gzip",
                ContentSubtype::GIF => "gif",
                ContentSubtype::ICO => "vnd.microsoft.icon",
                ContentSubtype::JPEG => "jpeg",
                ContentSubtype::JAVASCRIPT => "javascript",
                ContentSubtype::JSON => "json",
                ContentSubtype::PNG => "png",
                ContentSubtype::PDF => "pdf",
                ContentSubtype::PLAIN => "plain",
            },
        )
    }
}

impl ContentType {
    /// Reads a top-level media type from its token.
    pub fn parse(value: &str) -> (r: Result<ContentType, InvalidContentTypeErr>)
        ensures
            r matches Ok(t) ==> content_type_of(value@) == Some(t),
            r is Err <==> content_type_of(value@) is None,
    {
        let v = chars_of(value);
        let v = v.as_slice();
        if eq_str(v, "application") {
            Ok(ContentType::Application)
        } else if eq_str(v, "audio") {
            Ok(ContentType::Audio)
        } else if eq_str(v, "example") {
            Ok(ContentType::Example)
        } else if eq_str(v, "font") {
            Ok(ContentType::Font)
        } else if eq_str(v, "image") {
            Ok(ContentType::Image)
        } else if eq_str(v, "model") {
            Ok(ContentType::Model)
        } else if eq_str(v, "text") {
            Ok(ContentType::Text)
        } else if eq_str(v, "video") {
            Ok(ContentType::Video)
        } else if eq_str(v, "multipart") {
            Ok(ContentType::Multipart)
        } else {
            Err(InvalidContentTypeErr)
        }
    }

    /// The top-level type's token.
    pub fn to_string(&self) -> (r: String)
        ensures
            r@ == content_type_name(*self),
    {
        String::from_str(
            match self {
                ContentType::Application => "application",
                ContentType::Audio => "audio",
                ContentType::Example => "example",
                ContentType::Font => "font",
                ContentType::Image => "image",
                ContentType::Model => "model",
                ContentType::Text => "text",
                ContentType::Video => "video",
                ContentType::Multipart => "multipart",
            },
        )
    }
}

} // verus!
