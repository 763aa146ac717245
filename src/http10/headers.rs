//! The header model: known fields held once each by kind, unknown fields kept in order.
use vstd::prelude::*;

use super::content_codings::{coding_name, coding_of, ContentEncoding};
use super::dates::HttpDate;
use super::methods::{method_name, method_of, Method};
use crate::decimal::{decimal, decimal_of, parse_usize, usize_of};
use crate::text::{
    chars_of, crlf_lines, eq_chars, eq_str, find_char, first_index, join, pieces, push_chars, push_str,
    slice_of, split_char, split_crlf, string_of, trim, trim_end, trimmed, trimmed_end,
};

verus! {

/// A header field that could not be read, or a repeated field that cannot be merged.
#[derive(Debug)]
pub enum HeaderErr {
    InvalidField(String),
}

impl HeaderErr {
    /// The error as text.
    pub fn to_string(&self) -> (r: String) {
        match self {
            HeaderErr::InvalidField(err) => {
                let mut r = String::from_str("Invalid Field: ");
                r.append(err.as_str());
                r
            },
        }
    }
}

#[derive(Debug, Hash, PartialEq, Eq, Clone, Copy, Structural)]
pub enum HeaderVariant {
    Accept,
    AcceptEncoding,
    Allow,
    Authorization,
    ContentEncoding,
    ContentLength,
    ContentType,
    Date,
    Expires,
    From,
    Generic,
    Host,
    IfModifiedSince,
    LastModified,
    Location,
    Pragma,
    Referer,
    Server,
    UserAgent,
    WWWAuthenticate,
}

#[derive(Debug, PartialEq, Eq, Clone)]
pub enum Header {
    Accept(String),
    AcceptEncoding(Vec<ContentEncoding>),
    Allow(Vec<Method>),
    Authorization(String),
    ContentEncoding(ContentEncoding),
    ContentLength(usize),
    ContentType(String),
    Date(HttpDate),
    Expires(HttpDate),
    From(String),
    Generic(String, String),
    Host(String),
    IfModifiedSince(HttpDate),
    LastModified(HttpDate),
    Location(String),
    Pragma(String),
    Referer(String),
    Server(String),
    UserAgent(String),
    WWWAuthenticate(String),
}

/// A header field as a mathematical value.
pub enum HeaderView {
    Accept(Seq<char>),
    AcceptEncoding(Seq<ContentEncoding>),
    Allow(Seq<Method>),
    Authorization(Seq<char>),
    ContentEncoding(ContentEncoding),
    ContentLength(usize),
    ContentType(Seq<char>),
    Date(HttpDate),
    Expires(HttpDate),
    From(Seq<char>),
    Generic(Seq<char>, Seq<char>),
    Host(Seq<char>),
    IfModifiedSince(HttpDate),
    LastModified(HttpDate),
    Location(Seq<char>),
    Pragma(Seq<char>),
    Referer(Seq<char>),
    Server(Seq<char>),
    UserAgent(Seq<char>),
    WWWAuthenticate(Seq<char>),
}

impl View for Header {
    type V = HeaderView;

    open spec fn view(&self) -> HeaderView {
        match self {
            Header::Accept(s) => HeaderView::Accept(s@),
            Header::AcceptEncoding(v) => HeaderView::AcceptEncoding(v@),
            Header::Allow(v) => HeaderView::Allow(v@),
            Header::Authorization(s) => HeaderView::Authorization(s@),
            Header::ContentEncoding(c) => HeaderView::ContentEncoding(*c),
            Header::ContentLength(n) => HeaderView::ContentLength(*n),
            Header::ContentType(s) => HeaderView::ContentType(s@),
            Header::Date(d) => HeaderView::Date(*d),
            Header::Expires(d) => HeaderView::Expires(*d),
            Header::From(s) => HeaderView::From(s@),
            Header::Generic(n, v) => HeaderView::Generic(n@, v@),
            Header::Host(s) => HeaderView::Host(s@),
            Header::IfModifiedSince(d) => HeaderView::IfModifiedSince(*d),
            Header::LastModified(d) => HeaderView::LastModified(*d),
            Header::Location(s) => HeaderView::Location(s@),
            Header::Pragma(s) => HeaderView::Pragma(s@),
            Header::Referer(s) => HeaderView::Referer(s@),
            Header::Server(s) => HeaderView::Server(s@),
            Header::UserAgent(s) => HeaderView::UserAgent(s@),
            Header::WWWAuthenticate(s) => HeaderView::WWWAuthenticate(s@),
        }
    }
}

/// The kind of a header field.
pub open spec fn kind(h: HeaderView) -> HeaderVariant {
    match h {
        HeaderView::Accept(_) => HeaderVariant::Accept,
        HeaderView::AcceptEncoding(_) => HeaderVariant::AcceptEncoding,
        HeaderView::Allow(_) => HeaderVariant::Allow,
        HeaderView::Authorization(_) => HeaderVariant::Authorization,
        HeaderView::ContentEncoding(_) => HeaderVariant::ContentEncoding,
        HeaderView::ContentLength(_) => HeaderVariant::ContentLength,
        HeaderView::ContentType(_) => HeaderVariant::ContentType,
        HeaderView::Date(_) => HeaderVariant::Date,
        HeaderView::Expires(_) => HeaderVariant::Expires,
        HeaderView::From(_) => HeaderVariant::From,
        HeaderView::Generic(_, _) => HeaderVariant::Generic,
        HeaderView::Host(_) => HeaderVariant::Host,
        HeaderView::IfModifiedSince(_) => HeaderVariant::IfModifiedSince,
        HeaderView::LastModified(_) => HeaderVariant::LastModified,
        HeaderView::Location(_) => HeaderVariant::Location,
        HeaderView::Pragma(_) => HeaderVariant::Pragma,
        HeaderView::Referer(_) => HeaderVariant::Referer,
        HeaderView::Server(_) => HeaderVariant::Server,
        HeaderView::UserAgent(_) => HeaderVariant::UserAgent,
        HeaderView::WWWAuthenticate(_) => HeaderVariant::WWWAuthenticate,
    }
}

/// Kinds whose value is free text.
pub open spec fn is_text_kind(k: HeaderVariant) -> bool {
    k == HeaderVariant::Accept || k == HeaderVariant::Authorization || k == HeaderVariant::ContentType
        || k == HeaderVariant::From || k == HeaderVariant::Host || k == HeaderVariant::Location
        || k == HeaderVariant::Pragma || k == HeaderVariant::Referer || k == HeaderVariant::Server
        || k == HeaderVariant::UserAgent || k == HeaderVariant::WWWAuthenticate
}

/// Kinds whose value is a date.
pub open spec fn is_date_kind(k: HeaderVariant) -> bool {
    k == HeaderVariant::Date || k == HeaderVariant::Expires || k == HeaderVariant::IfModifiedSince
        || k == HeaderVariant::LastModified
}

/// The field of a text kind with value `v`.
pub open spec fn text_header(k: HeaderVariant, v: Seq<char>) -> HeaderView {
    if k == HeaderVariant::Accept {
        HeaderView::Accept(v)
    } else if k == HeaderVariant::Authorization {
        HeaderView::Authorization(v)
    } else if k == HeaderVariant::ContentType {
        HeaderView::ContentType(v)
    } else if k == HeaderVariant::From {
        HeaderView::From(v)
    } else if k == HeaderVariant::Host {
        HeaderView::Host(v)
    } else if k == HeaderVariant::Location {
        HeaderView::Location(v)
    } else if k == HeaderVariant::Pragma {
        HeaderView::Pragma(v)
    } else if k == HeaderVariant::Referer {
        HeaderView::Referer(v)
    } else if k == HeaderVariant::Server {
        HeaderView::Server(v)
    } else if k == HeaderVariant::UserAgent {
        HeaderView::UserAgent(v)
    } else {
        HeaderView::WWWAuthenticate(v)
    }
}

/// The field of a date kind with value `d`.
pub open spec fn date_header(k: HeaderVariant, d: HttpDate) -> HeaderView {
    if k == HeaderVariant::Date {
        HeaderView::Date(d)
    } else if k == HeaderVariant::Expires {
        HeaderView::Expires(d)
    } else if k == HeaderVariant::IfModifiedSince {
        HeaderView::IfModifiedSince(d)
    } else {
        HeaderView::LastModified(d)
    }
}

/// The field name of a known kind.
pub open spec fn field_name(k: HeaderVariant) -> Seq<char> {
    match k {
        HeaderVariant::Accept => "Accept"@,
        HeaderVariant::AcceptEncoding => "Accept-Encoding"@,
        HeaderVariant::Allow => "Allow"@,
        HeaderVariant::Authorization => "Authorization"@,
        HeaderVariant::ContentEncoding => "Content-Encoding"@,
        HeaderVariant::ContentLength => "Content-Length"@,
        HeaderVariant::ContentType => "Content-Type"@,
        HeaderVariant::Date => "Date"@,
        HeaderVariant::Expires => "Expires"@,
        HeaderVariant::From => "From"@,
        HeaderVariant::Generic => ""@,
        HeaderVariant::Host => "Host"@,
        HeaderVariant::IfModifiedSince => "If-Modified-Since"@,
        HeaderVariant::LastModified => "Last-Modified"@,
        HeaderVariant::Location => "Location"@,
        HeaderVariant::Pragma => "Pragma"@,
        HeaderVariant::Referer => "Referer"@,
        HeaderVariant::Server => "Server"@,
        HeaderVariant::UserAgent => "User-Agent"@,
        HeaderVariant::WWWAuthenticate => "WWW-Authenticate"@,
    }
}

/// The known kind that a field name names exactly, if any.
pub open spec fn kind_of_name(f: Seq<char>) -> Option<HeaderVariant> {
    if f == "Accept"@ { Some(HeaderVariant::Accept) }
    else if f == "Accept-Encoding"@ { Some(HeaderVariant::AcceptEncoding) }
    else if f == "Allow"@ { Some(HeaderVariant::Allow) }
    else if f == "Authorization"@ { Some(HeaderVariant::Authorization) }
    else if f == "Content-Encoding"@ { Some(HeaderVariant::ContentEncoding) }
    else if f == "Content-Length"@ { Some(HeaderVariant::ContentLength) }
    else if f == "Content-Type"@ { Some(HeaderVariant::ContentType) }
    else if f == "Date"@ { Some(HeaderVariant::Date) }
    else if f == "Expires"@ { Some(HeaderVariant::Expires) }
    else if f == "From"@ { Some(HeaderVariant::From) }
    else if f == "Host"@ { Some(HeaderVariant::Host) }
    else if f == "If-Modified-Since"@ { Some(HeaderVariant::IfModifiedSince) }
    else if f == "Last-Modified"@ { Some(HeaderVariant::LastModified) }
    else if f == "Location"@ { Some(HeaderVariant::Location) }
    else if f == "Pragma"@ { Some(HeaderVariant::Pragma) }
    else if f == "Referer"@ { Some(HeaderVariant::Referer) }
    else if f == "Server"@ { Some(HeaderVariant::Server) }
    else if f == "User-Agent"@ { Some(HeaderVariant::UserAgent) }
    else if f == "WWW-Authenticate"@ { Some(HeaderVariant::WWWAuthenticate) }
    else { None }
}

/// The codings named among comma-separated items (each trimmed), skipping unknown ones.
pub open spec fn codings_in(items: Seq<Seq<char>>) -> Seq<ContentEncoding>
    decreases items.len(),
{
    if items.len() == 0 {
        Seq::empty()
    } else {
        let prev = codings_in(items.drop_last());
        match coding_of(trim(items.last())) {
            Some(c) => prev.push(c),
            None => prev,
        }
    }
}

/// The methods named by comma-separated items, if every item names one exactly.
pub open spec fn methods_in(items: Seq<Seq<char>>) -> Option<Seq<Method>>
    decreases items.len(),
{
    if items.len() == 0 {
        Some(Seq::empty())
    } else {
        match (methods_in(items.drop_last()), method_of(items.last())) {
            (Some(prev), Some(m)) => Some(prev.push(m)),
            _ => None,
        }
    }
}

/// The field that a name and a trimmed value make, or `Err` where the value does not suit
/// the kind. Unsupported codings in `Accept-Encoding` are skipped, possibly leaving none. A
/// date must be one that can be written back: a local year from 0 to 9999, no leap second.
pub open spec fn field_of(name: Seq<char>, v: Seq<char>) -> Result<HeaderView, ()> {
    match kind_of_name(name) {
        None => Ok(HeaderView::Generic(name, v)),
        Some(k) => {
            if k == HeaderVariant::AcceptEncoding {
                Ok(HeaderView::AcceptEncoding(codings_in(pieces(v, ','))))
            } else if k == HeaderVariant::Allow {
                match methods_in(pieces(v, ',')) {
                    Some(ms) => Ok(HeaderView::Allow(ms)),
                    None => Err(()),
                }
            } else if k == HeaderVariant::ContentEncoding {
                match coding_of(v) {
                    Some(c) => Ok(HeaderView::ContentEncoding(c)),
                    None => Err(()),
                }
            } else if k == HeaderVariant::ContentLength {
                match usize_of(v) {
                    Some(n) => Ok(HeaderView::ContentLength(n)),
                    None => Err(()),
                }
            } else if is_date_kind(k) {
                match HttpDate::parsed_spec(v) {
                    Some(d) => Ok(date_header(k, d)),
                    None => Err(()),
                }
            } else {
                Ok(text_header(k, v))
            }
        },
    }
}

/// The field that a line `Name: value` holds: split at the first `:`, value trimmed.
pub open spec fn header_of_line(line: Seq<char>) -> Result<HeaderView, ()> {
    match first_index(line, ':') {
        None => Err(()),
        Some(i) => field_of(line.subrange(0, i), trim(line.subrange(i + 1, line.len() as int))),
    }
}

/// The value of a field as it is written.
pub open spec fn value_text(h: HeaderView) -> Seq<char> {
    match h {
        HeaderView::AcceptEncoding(cs) => join(cs.map_values(|c: ContentEncoding| coding_name(c)), ", "@),
        HeaderView::Allow(ms) => join(ms.map_values(|m: Method| method_name(m)), ","@),
        HeaderView::ContentEncoding(c) => coding_name(c),
        HeaderView::ContentLength(n) => decimal(n as nat),
        HeaderView::Date(d) => d.text(),
        HeaderView::Expires(d) => d.text(),
        HeaderView::IfModifiedSince(d) => d.text(),
        HeaderView::LastModified(d) => d.text(),
        HeaderView::Generic(_, v) => v,
        HeaderView::Accept(v) => v,
        HeaderView::Authorization(v) => v,
        HeaderView::ContentType(v) => v,
        HeaderView::From(v) => v,
        HeaderView::Host(v) => v,
        HeaderView::Location(v) => v,
        HeaderView::Pragma(v) => v,
        HeaderView::Referer(v) => v,
        HeaderView::Server(v) => v,
        HeaderView::UserAgent(v) => v,
        HeaderView::WWWAuthenticate(v) => v,
    }
}

/// The name of a field as it is written.
pub open spec fn name_text(h: HeaderView) -> Seq<char> {
    match h {
        HeaderView::Generic(n, _) => n,
        _ => field_name(kind(h)),
    }
}

/// A field as one line of text, `Name: value`, without the line end.
pub open spec fn line_text(h: HeaderView) -> Seq<char> {
    name_text(h) + ": "@ + value_text(h)
}

/// A field that can be written: its dates can be put in RFC 2822 form.
pub open spec fn field_wf(h: HeaderView) -> bool {
    match h {
        HeaderView::Date(d) => d.wf(),
        HeaderView::Expires(d) => d.wf(),
        HeaderView::IfModifiedSince(d) => d.wf(),
        HeaderView::LastModified(d) => d.wf(),
        _ => true,
    }
}

/// The known kind that a field name names exactly, if any.
fn kind_of_field(f: &[char]) -> (r: Option<HeaderVariant>)
    ensures
        r == kind_of_name(f@),
{
    if eq_str(f, "Accept") { Some(HeaderVariant::Accept) }
    else if eq_str(f, "Accept-Encoding") { Some(HeaderVariant::AcceptEncoding) }
    else if eq_str(f, "Allow") { Some(HeaderVariant::Allow) }
    else if eq_str(f, "Authorization") { Some(HeaderVariant::Authorization) }
    else if eq_str(f, "Content-Encoding") { Some(HeaderVariant::ContentEncoding) }
    else if eq_str(f, "Content-Length") { Some(HeaderVariant::ContentLength) }
    else if eq_str(f, "Content-Type") { Some(HeaderVariant::ContentType) }
    else if eq_str(f, "Date") { Some(HeaderVariant::Date) }
    else if eq_str(f, "Expires") { Some(HeaderVariant::Expires) }
    else if eq_str(f, "From") { Some(HeaderVariant::From) }
    else if eq_str(f, "Host") { Some(HeaderVariant::Host) }
    else if eq_str(f, "If-Modified-Since") { Some(HeaderVariant::IfModifiedSince) }
    else if eq_str(f, "Last-Modified") { Some(HeaderVariant::LastModified) }
    else if eq_str(f, "Location") { Some(HeaderVariant::Location) }
    else if eq_str(f, "Pragma") { Some(HeaderVariant::Pragma) }
    else if eq_str(f, "Referer") { Some(HeaderVariant::Referer) }
    else if eq_str(f, "Server") { Some(HeaderVariant::Server) }
    else if eq_str(f, "User-Agent") { Some(HeaderVariant::UserAgent) }
    else if eq_str(f, "WWW-Authenticate") { Some(HeaderVariant::WWWAuthenticate) }
    else { None }
}

/// The field name of a known kind.
fn name_of_kind(k: HeaderVariant) -> (r: &'static str)
    ensures
        r@ == field_name(k),
{
    match k {
        HeaderVariant::Accept => "Accept",
        HeaderVariant::AcceptEncoding => "Accept-Encoding",
        HeaderVariant::Allow => "Allow",
        HeaderVariant::Authorization => "Authorization",
        HeaderVariant::ContentEncoding => "Content-Encoding",
        HeaderVariant::ContentLength => "Content-Length",
        HeaderVariant::ContentType => "Content-Type",
        HeaderVariant::Date => "Date",
        HeaderVariant::Expires => "Expires",
        HeaderVariant::From => "From",
        HeaderVariant::Generic => "",
        HeaderVariant::Host => "Host",
        HeaderVariant::IfModifiedSince => "If-Modified-Since",
        HeaderVariant::LastModified => "Last-Modified",
        HeaderVariant::Location => "Location",
        HeaderVariant::Pragma => "Pragma",
        HeaderVariant::Referer => "Referer",
        HeaderVariant::Server => "Server",
        HeaderVariant::UserAgent => "User-Agent",
        HeaderVariant::WWWAuthenticate => "WWW-Authenticate",
    }
}

/// An error whose text is `prefix` followed by `detail`.
fn field_error(prefix: &str, detail: &Vec<char>) -> (r: HeaderErr) {
    let mut msg = String::from_str(prefix);
    let d = string_of(detail);
    msg.append(d.as_str());
    HeaderErr::InvalidField(msg)
}

/// The codings named among comma-separated items, skipping unknown ones.
fn parse_codings(items: &Vec<Vec<char>>) -> (r: Vec<ContentEncoding>)
    ensures
        r@ == codings_in(items@.map_values(|v: Vec<char>| v@)),
{
    let ghost all = items@.map_values(|v: Vec<char>| v@);
    let mut r: Vec<ContentEncoding> = Vec::new();
    let mut i: usize = 0;
    while i < items.len()
        invariant
            i <= items@.len(),
            all == items@.map_values(|v: Vec<char>| v@),
            r@ == codings_in(all.subrange(0, i as int)),
        decreases items@.len() - i,
    {
        assert(all.subrange(0, i + 1).drop_last() =~= all.subrange(0, i as int));
        let t = trimmed(items[i].as_slice());
        match ContentEncoding::parse(t.as_slice()) {
            Ok(c) => r.push(c),
            Err(_) => {},
        }
        i = i + 1;
    }
    assert(all.subrange(0, all.len() as int) =~= all);
    r
}

/// The methods named by comma-separated items, if every item names one exactly.
fn parse_methods(items: &Vec<Vec<char>>) -> (r: Option<Vec<Method>>)
    ensures
        r matches Some(ms) ==> methods_in(items@.map_values(|v: Vec<char>| v@)) == Some(ms@),
        r is None <==> methods_in(items@.map_values(|v: Vec<char>| v@)) is None,
{
    let ghost all = items@.map_values(|v: Vec<char>| v@);
    let mut r: Vec<Method> = Vec::new();
    let mut i: usize = 0;
    while i < items.len()
        invariant
            i <= items@.len(),
            all == items@.map_values(|v: Vec<char>| v@),
            methods_in(all.subrange(0, i as int)) == Some(r@),
        decreases items@.len() - i,
    {
        assert(all.subrange(0, i + 1).drop_last() =~= all.subrange(0, i as int));
        match Method::parse(items[i].as_slice()) {
            Ok(m) => r.push(m),
            Err(_) => {
                proof {
                    lemma_methods_in_stays_none(all, i as int + 1);
                }
                return None;
            },
        }
        i = i + 1;
    }
    assert(all.subrange(0, all.len() as int) =~= all);
    Some(r)
}

proof fn lemma_methods_in_stays_none(items: Seq<Seq<char>>, j: int)
    requires
        0 <= j <= items.len(),
        methods_in(items.subrange(0, j)) is None,
    ensures
        methods_in(items) is None,
    decreases items.len() - j,
{
    if j < items.len() {
        assert(items.subrange(0, j + 1).drop_last() =~= items.subrange(0, j));
        lemma_methods_in_stays_none(items, j + 1);
    } else {
        assert(items.subrange(0, j) =~= items);
    }
}

/// The field of a text kind with value `v`.
fn make_text_header(k: HeaderVariant, v: String) -> (r: Header)
    requires
        is_text_kind(k),
    ensures
        r@ == text_header(k, v@),
{
    match k {
        HeaderVariant::Accept => Header::Accept(v),
        HeaderVariant::Authorization => Header::Authorization(v),
        HeaderVariant::ContentType => Header::ContentType(v),
        HeaderVariant::From => Header::From(v),
        HeaderVariant::Host => Header::Host(v),
        HeaderVariant::Location => Header::Location(v),
        HeaderVariant::Pragma => Header::Pragma(v),
        HeaderVariant::Referer => Header::Referer(v),
        HeaderVariant::Server => Header::Server(v),
        HeaderVariant::UserAgent => Header::UserAgent(v),
        _ => Header::WWWAuthenticate(v),
    }
}

/// The field of a date kind with value `d`.
fn make_date_header(k: HeaderVariant, d: HttpDate) -> (r: Header)
    requires
        is_date_kind(k),
    ensures
        r@ == date_header(k, d),
{
    match k {
        HeaderVariant::Date => Header::Date(d),
        HeaderVariant::Expires => Header::Expires(d),
        HeaderVariant::IfModifiedSince => Header::IfModifiedSince(d),
        _ => Header::LastModified(d),
    }
}

impl Header {
    /// The kind of this field.
    pub fn variant(&self) -> (r: HeaderVariant)
        ensures
            r == kind(self@),
    {
        match self {
            Header::Accept(_) => HeaderVariant::Accept,
            Header::AcceptEncoding(_) => HeaderVariant::AcceptEncoding,
            Header::Allow(_) => HeaderVariant::Allow,
            Header::Authorization(_) => HeaderVariant::Authorization,
            Header::ContentEncoding(_) => HeaderVariant::ContentEncoding,
            Header::ContentLength(_) => HeaderVariant::ContentLength,
            Header::ContentType(_) => HeaderVariant::ContentType,
            Header::Date(_) => HeaderVariant::Date,
            Header::Expires(_) => HeaderVariant::Expires,
            Header::From(_) => HeaderVariant::From,
            Header::Generic(_, _) => HeaderVariant::Generic,
            Header::Host(_) => HeaderVariant::Host,
            Header::IfModifiedSince(_) => HeaderVariant::IfModifiedSince,
            Header::LastModified(_) => HeaderVariant::LastModified,
            Header::Location(_) => HeaderVariant::Location,
            Header::Pragma(_) => HeaderVariant::Pragma,
            Header::Referer(_) => HeaderVariant::Referer,
            Header::Server(_) => HeaderVariant::Server,
            Header::UserAgent(_) => HeaderVariant::UserAgent,
            Header::WWWAuthenticate(_) => HeaderVariant::WWWAuthenticate,
        }
    }

    /// A copy of this field.
    pub fn duplicate(&self) -> (r: Header)
        ensures
            r@ == self@,
    {
        match self {
            Header::Accept(s) => Header::Accept(s.clone()),
            Header::AcceptEncoding(v) => {
                let mut c: Vec<ContentEncoding> = Vec::new();
                let mut i: usize = 0;
                while i < v.len()
                    invariant
                        i <= v@.len(),
                        c@ == v@.subrange(0, i as int),
                    decreases v@.len() - i,
                {
                    c.push(v[i]);
                    i = i + 1;
                    assert(c@ =~= v@.subrange(0, i as int));
                }
                assert(c@ =~= v@);
                Header::AcceptEncoding(c)
            },
            Header::Allow(v) => {
                let mut c: Vec<Method> = Vec::new();
                let mut i: usize = 0;
                while i < v.len()
                    invariant
                        i <= v@.len(),
                        c@ == v@.subrange(0, i as int),
                    decreases v@.len() - i,
                {
                    c.push(v[i]);
                    i = i + 1;
                    assert(c@ =~= v@.subrange(0, i as int));
                }
                assert(c@ =~= v@);
                Header::Allow(c)
            },
            Header::Authorization(s) => Header::Authorization(s.clone()),
            Header::ContentEncoding(c) => Header::ContentEncoding(*c),
            Header::ContentLength(n) => Header::ContentLength(*n),
            Header::ContentType(s) => Header::ContentType(s.clone()),
            Header::Date(d) => Header::Date(*d),
            Header::Expires(d) => Header::Expires(*d),
            Header::From(s) => Header::From(s.clone()),
            Header::Generic(n, v) => Header::Generic(n.clone(), v.clone()),
            Header::Host(s) => Header::Host(s.clone()),
            Header::IfModifiedSince(d) => Header::IfModifiedSince(*d),
            Header::LastModified(d) => Header::LastModified(*d),
            Header::Location(s) => Header::Location(s.clone()),
            Header::Pragma(s) => Header::Pragma(s.clone()),
            Header::Referer(s) => Header::Referer(s.clone()),
            Header::Server(s) => Header::Server(s.clone()),
            Header::UserAgent(s) => Header::UserAgent(s.clone()),
            Header::WWWAuthenticate(s) => Header::WWWAuthenticate(s.clone()),
        }
    }

    /// Reads a field from one line `Name: value`: the name is what stands before the first
    /// `:`, the value what follows it, trimmed. Unknown names give a generic field.
    pub fn parse_line(line: &[char]) -> (r: Result<Header, HeaderErr>)
        ensures
            r matches Ok(h) ==> header_of_line(line@) == Ok::<HeaderView, ()>(h@),
            r is Err <==> header_of_line(line@) is Err,
    {
        let found = find_char(line, ':');
        let colon = match found {
            Some(i) => i,
            None => {
                let l = slice_of(line, 0, line.len());
                return Err(field_error("Unable to parse field ", &l));
            },
        };
        let n = line.len();
        assert(colon < n);
        let field = slice_of(line, 0, colon);
        let rest = slice_of(line, colon + 1, n);
        let suf = trimmed(rest.as_slice());
        match kind_of_field(field.as_slice()) {
            None => Ok(Header::Generic(string_of(&field), string_of(&suf))),
            Some(k) => {
                match k {
                    HeaderVariant::AcceptEncoding => {
                        let items = split_char(suf.as_slice(), ',');
                        proof {
                            assert(items@.map_values(|v: Vec<char>| v@) =~= pieces(suf@, ','));
                        }
                        Ok(Header::AcceptEncoding(parse_codings(&items)))
                    },
                    HeaderVariant::Allow => {
                        let items = split_char(suf.as_slice(), ',');
                        proof {
                            assert(items@.map_values(|v: Vec<char>| v@) =~= pieces(suf@, ','));
                        }
                        match parse_methods(&items) {
                            Some(ms) => Ok(Header::Allow(ms)),
                            None => Err(field_error("Unable to parse suffix ", &suf)),
                        }
                    },
                    HeaderVariant::ContentEncoding => {
                        match ContentEncoding::parse(suf.as_slice()) {
                            Ok(c) => Ok(Header::ContentEncoding(c)),
                            Err(_) => Err(field_error("Unable to parse suffix ", &suf)),
                        }
                    },
                    HeaderVariant::ContentLength => {
                        match parse_usize(suf.as_slice()) {
                            Some(n) => Ok(Header::ContentLength(n)),
                            None => Err(field_error("Unable to parse suffix ", &suf)),
                        }
                    },
                    HeaderVariant::Date | HeaderVariant::Expires | HeaderVariant::IfModifiedSince
                    | HeaderVariant::LastModified => {
                        let text = string_of(&suf);
                        match HttpDate::parse(text.as_str()) {
                            Some(d) => Ok(make_date_header(k, d)),
                            None => Err(field_error("Unable to parse suffix ", &suf)),
                        }
                    },
                    _ => Ok(make_text_header(k, string_of(&suf))),
                }
            },
        }
    }

    /// The field as one line `Name: value`, without the line end.
    pub fn to_line(&self) -> (r: Vec<char>)
        requires
            field_wf(self@),
        ensures
            r@ == line_text(self@),
    {
        let mut out: Vec<char> = Vec::new();
        match self {
            Header::Generic(n, _) => {
                let n = chars_of(n.as_str());
                push_chars(&mut out, n.as_slice());
            },
            _ => push_str(&mut out, name_of_kind(self.variant())),
        }
        push_str(&mut out, ": ");
        let ghost head = out@;
        match self {
            Header::AcceptEncoding(cs) => {
                let ghost names = cs@.map_values(|c: ContentEncoding| coding_name(c));
                let mut i: usize = 0;
                while i < cs.len()
                    invariant
                        i <= cs@.len(),
                        names == cs@.map_values(|c: ContentEncoding| coding_name(c)),
                        out@ == head + join(names.subrange(0, i as int), ", "@),
                    decreases cs@.len() - i,
                {
                    let ghost sub = names.subrange(0, i + 1);
                    assert(sub.drop_last() =~= names.subrange(0, i as int));
                    if i > 0 {
                        push_str(&mut out, ", ");
                    } else {
                        assert(sub.drop_last().len() == 0);
                    }
                    push_str(&mut out, cs[i].name());
                    i = i + 1;
                    assert(out@ =~= head + join(names.subrange(0, i as int), ", "@));
                }
                assert(names.subrange(0, cs@.len() as int) =~= names);
            },
            Header::Allow(ms) => {
                let ghost names = ms@.map_values(|m: Method| method_name(m));
                let mut i: usize = 0;
                while i < ms.len()
                    invariant
                        i <= ms@.len(),
                        names == ms@.map_values(|m: Method| method_name(m)),
                        out@ == head + join(names.subrange(0, i as int), ","@),
                    decreases ms@.len() - i,
                {
                    let ghost sub = names.subrange(0, i + 1);
                    assert(sub.drop_last() =~= names.subrange(0, i as int));
                    if i > 0 {
                        push_str(&mut out, ",");
                    } else {
                        assert(sub.drop_last().len() == 0);
                    }
                    push_str(&mut out, ms[i].name());
                    i = i + 1;
                    assert(out@ =~= head + join(names.subrange(0, i as int), ","@));
                }
                assert(names.subrange(0, ms@.len() as int) =~= names);
            },
            Header::ContentEncoding(c) => push_str(&mut out, c.name()),
            Header::ContentLength(n) => {
                let d = decimal_of(*n);
                push_chars(&mut out, d.as_slice());
            },
            Header::Date(d) | Header::Expires(d) | Header::IfModifiedSince(d)
            | Header::LastModified(d) => {
                let t = d.to_rfc2822();
                push_str(&mut out, t.as_str());
            },
            Header::Generic(_, v) | Header::Accept(v) | Header::Authorization(v)
            | Header::ContentType(v) | Header::From(v) | Header::Host(v) | Header::Location(v)
            | Header::Pragma(v) | Header::Referer(v) | Header::Server(v) | Header::UserAgent(v)
            | Header::WWWAuthenticate(v) => push_str(&mut out, v.as_str()),
        }
        out
    }
}

/// `s` with each repeated item after its first occurrence left out.
pub open spec fn dedup<T>(s: Seq<T>) -> Seq<T>
    decreases s.len(),
{
    if s.len() == 0 {
        Seq::empty()
    } else {
        let p = dedup(s.drop_last());
        if p.contains(s.last()) {
            p
        } else {
            p.push(s.last())
        }
    }
}

/// Two occurrences of a field merged into one: list-valued kinds take the union of their
/// items; no other kind merges.
pub open spec fn merged(first: HeaderView, second: HeaderView) -> Option<HeaderView> {
    match (first, second) {
        (HeaderView::AcceptEncoding(a), HeaderView::AcceptEncoding(b)) => Some(
            HeaderView::AcceptEncoding(dedup(a + b)),
        ),
        (HeaderView::Allow(a), HeaderView::Allow(b)) => Some(HeaderView::Allow(dedup(a + b))),
        _ => None,
    }
}

/// A header collection as a mathematical value: the known fields in the order their kinds
/// first came, and the unknown fields in the order they came.
pub struct HeadersView {
    pub known: Seq<HeaderView>,
    pub extra: Seq<HeaderView>,
}

/// The lines of fields, each ended by `"\r\n"`.
pub open spec fn lines_text(hs: Seq<HeaderView>) -> Seq<char>
    decreases hs.len(),
{
    if hs.len() == 0 {
        Seq::empty()
    } else {
        lines_text(hs.drop_last()) + line_text(hs.last()) + "\r\n"@
    }
}

impl HeadersView {
    pub open spec fn empty() -> HeadersView {
        HeadersView { known: Seq::empty(), extra: Seq::empty() }
    }

    /// Each known kind at most once, unknown fields only among the extras, dates writable.
    pub open spec fn wf(self) -> bool {
        &&& forall|i: int, j: int|
            0 <= i < j < self.known.len() ==> kind(#[trigger] self.known[i]) != kind(
                #[trigger] self.known[j],
            )
        &&& forall|i: int|
            0 <= i < self.known.len() ==> kind(#[trigger] self.known[i]) != HeaderVariant::Generic
                && field_wf(self.known[i])
        &&& forall|i: int|
            0 <= i < self.extra.len() ==> kind(#[trigger] self.extra[i]) == HeaderVariant::Generic
    }

    pub open spec fn has(self, k: HeaderVariant) -> bool {
        exists|i: int| 0 <= i < self.known.len() && kind(#[trigger] self.known[i]) == k
    }

    pub open spec fn index_of(self, k: HeaderVariant) -> int {
        choose|i: int| 0 <= i < self.known.len() && kind(#[trigger] self.known[i]) == k
    }

    /// The stored field of kind `k`, if there is one.
    pub open spec fn lookup(self, k: HeaderVariant) -> Option<HeaderView> {
        if self.has(k) {
            Some(self.known[self.index_of(k)])
        } else {
            None
        }
    }

    /// The collection with `h` stored: an unknown field is appended to the extras; a known
    /// one replaces the field of its kind, or is appended where there is none.
    pub open spec fn with(self, h: HeaderView) -> HeadersView {
        if kind(h) == HeaderVariant::Generic {
            HeadersView { extra: self.extra.push(h), ..self }
        } else if self.has(kind(h)) {
            HeadersView { known: self.known.update(self.index_of(kind(h)), h), ..self }
        } else {
            HeadersView { known: self.known.push(h), ..self }
        }
    }

    /// The collection with a parsed field added: a repeated known kind is merged with the
    /// stored field, and is an error where it cannot be.
    pub open spec fn add_parsed(self, h: HeaderView) -> Result<HeadersView, ()> {
        if kind(h) != HeaderVariant::Generic && self.has(kind(h)) {
            match merged(self.known[self.index_of(kind(h))], h) {
                Some(m) => Ok(self.with(m)),
                None => Err(()),
            }
        } else {
            Ok(self.with(h))
        }
    }

    /// The header block as text: known fields, then unknown ones, then an empty line.
    pub open spec fn text(self) -> Seq<char> {
        lines_text(self.known) + lines_text(self.extra) + "\r\n"@
    }
}

/// The collection that a sequence of field lines makes.
pub open spec fn headers_of_lines(ls: Seq<Seq<char>>) -> Result<HeadersView, ()>
    decreases ls.len(),
{
    if ls.len() == 0 {
        Ok(HeadersView::empty())
    } else {
        match headers_of_lines(ls.drop_last()) {
            Ok(hv) => match header_of_line(ls.last()) {
                Ok(h) => hv.add_parsed(h),
                Err(_) => Err(()),
            },
            Err(_) => Err(()),
        }
    }
}

/// The collection that a header block makes: its lines split at `"\r\n"` once trailing
/// whitespace is cut; a block of whitespace alone holds no field.
pub open spec fn headers_of_text(t: Seq<char>) -> Result<HeadersView, ()> {
    if trim_end(t).len() == 0 {
        Ok(HeadersView::empty())
    } else {
        headers_of_lines(crlf_lines(trim_end(t)))
    }
}

#[derive(Debug, Clone)]
pub struct Headers {
    headers: Vec<Header>,
    extra: Vec<Header>,
}

impl View for Headers {
    type V = HeadersView;

    closed spec fn view(&self) -> HeadersView {
        HeadersView {
            known: self.headers@.map_values(|h: Header| h@),
            extra: self.extra@.map_values(|h: Header| h@),
        }
    }
}

/// Appends `x` to `r` unless `r` holds it already.
fn add_coding(r: &mut Vec<ContentEncoding>, x: ContentEncoding)
    ensures
        final(r)@ == (if old(r)@.contains(x) { old(r)@ } else { old(r)@.push(x) }),
{
    let mut j: usize = 0;
    while j < r.len()
        invariant
            j <= r@.len(),
            forall|k: int| 0 <= k < j ==> r@[k] != x,
        decreases r@.len() - j,
    {
        if r[j] == x {
            return;
        }
        j = j + 1;
    }
    r.push(x);
}

/// Appends `x` to `r` unless `r` holds it already.
fn add_method(r: &mut Vec<Method>, x: Method)
    ensures
        final(r)@ == (if old(r)@.contains(x) { old(r)@ } else { old(r)@.push(x) }),
{
    let mut j: usize = 0;
    while j < r.len()
        invariant
            j <= r@.len(),
            forall|k: int| 0 <= k < j ==> r@[k] != x,
        decreases r@.len() - j,
    {
        if r[j] == x {
            return;
        }
        j = j + 1;
    }
    r.push(x);
}

/// The union of two coding lists, each coding once, in order of first occurrence.
fn union_codings(a: &Vec<ContentEncoding>, b: &Vec<ContentEncoding>) -> (r: Vec<ContentEncoding>)
    ensures
        r@ == dedup(a@ + b@),
{
    let ghost all = a@ + b@;
    let mut r: Vec<ContentEncoding> = Vec::new();
    let mut i: usize = 0;
    while i < a.len()
        invariant
            all == a@ + b@,
            i <= a@.len(),
            r@ == dedup(all.subrange(0, i as int)),
        decreases a@.len() - i,
    {
        assert(all.subrange(0, i + 1).drop_last() =~= all.subrange(0, i as int));
        assert(all[i as int] == a@[i as int]);
        add_coding(&mut r, a[i]);
        i = i + 1;
    }
    let mut j: usize = 0;
    while j < b.len()
        invariant
            all == a@ + b@,
            j <= b@.len(),
            r@ == dedup(all.subrange(0, a@.len() + j)),
        decreases b@.len() - j,
    {
        assert(all.subrange(0, a@.len() + j + 1 as int).drop_last() =~= all.subrange(0, a@.len() + j));
        assert(all[a@.len() + j] == b@[j as int]);
        add_coding(&mut r, b[j]);
        j = j + 1;
    }
    assert(all.subrange(0, all.len() as int) =~= all);
    r
}

/// The union of two method lists, each method once, in order of first occurrence.
fn union_methods(a: &Vec<Method>, b: &Vec<Method>) -> (r: Vec<Method>)
    ensures
        r@ == dedup(a@ + b@),
{
    let ghost all = a@ + b@;
    let mut r: Vec<Method> = Vec::new();
    let mut i: usize = 0;
    while i < a.len()
        invariant
            all == a@ + b@,
            i <= a@.len(),
            r@ == dedup(all.subrange(0, i as int)),
        decreases a@.len() - i,
    {
        assert(all.subrange(0, i + 1).drop_last() =~= all.subrange(0, i as int));
        assert(all[i as int] == a@[i as int]);
        add_method(&mut r, a[i]);
        i = i + 1;
    }
    let mut j: usize = 0;
    while j < b.len()
        invariant
            all == a@ + b@,
            j <= b@.len(),
            r@ == dedup(all.subrange(0, a@.len() + j)),
        decreases b@.len() - j,
    {
        assert(all.subrange(0, a@.len() + j + 1 as int).drop_last() =~= all.subrange(0, a@.len() + j));
        assert(all[a@.len() + j] == b@[j as int]);
        add_method(&mut r, b[j]);
        j = j + 1;
    }
    assert(all.subrange(0, all.len() as int) =~= all);
    r
}

/// Two occurrences of a field merged into one, where their kind merges.
fn merge_fields(first: &Header, second: &Header) -> (r: Option<Header>)
    ensures
        r matches Some(h) ==> merged(first@, second@) == Some(h@),
        r is None <==> merged(first@, second@) is None,
{
    match (first, second) {
        (Header::AcceptEncoding(a), Header::AcceptEncoding(b)) => Some(
            Header::AcceptEncoding(union_codings(a, b)),
        ),
        (Header::Allow(a), Header::Allow(b)) => Some(Header::Allow(union_methods(a, b))),
        _ => None,
    }
}

/// A field of a kind that is stored once is the one `index_of` picks.
proof fn lemma_index_unique(hv: HeadersView, k: HeaderVariant, i: int)
    requires
        hv.wf(),
        0 <= i < hv.known.len(),
        kind(hv.known[i]) == k,
    ensures
        hv.has(k),
        hv.index_of(k) == i,
{
    assert(hv.has(k));
    let j = hv.index_of(k);
    if j != i {
        if j < i {
            assert(kind(hv.known[j]) != kind(hv.known[i]));
        } else {
            assert(kind(hv.known[i]) != kind(hv.known[j]));
        }
    }
}

/// Storing a writable field keeps a collection well formed.
pub proof fn lemma_with_wf(hv: HeadersView, h: HeaderView)
    requires
        hv.wf(),
        field_wf(h),
    ensures
        hv.with(h).wf(),
{
    let r = hv.with(h);
    if kind(h) != HeaderVariant::Generic && hv.has(kind(h)) {
        let i = hv.index_of(kind(h));
        assert forall|a: int, b: int| 0 <= a < b < r.known.len() implies kind(
            #[trigger] r.known[a],
        ) != kind(#[trigger] r.known[b]) by {
            assert(kind(r.known[a]) == kind(hv.known[a]));
            assert(kind(r.known[b]) == kind(hv.known[b]));
        }
    }
}

/// Storing a writable field keeps a collection well formed.
pub broadcast proof fn lemma_with_wf_auto(hv: HeadersView, h: HeaderView)
    requires
        hv.wf(),
        field_wf(h),
    ensures
        #[trigger] hv.with(h).wf(),
{
    lemma_with_wf(hv, h);
}

/// Looking up a kind after storing a field finds that field where it is of the kind, and
/// what was there before otherwise.
pub broadcast proof fn lemma_lookup_with(hv: HeadersView, h: HeaderView, k: HeaderVariant)
    requires
        hv.wf(),
        k != HeaderVariant::Generic,
    ensures
        #[trigger] hv.with(h).lookup(k) == (if kind(h) == k {
            Some(h)
        } else {
            hv.lookup(k)
        }),
{
    let r = hv.with(h);
    if kind(h) == HeaderVariant::Generic {
        assert(r.known == hv.known);
    } else if hv.has(kind(h)) {
        let i = hv.index_of(kind(h));
        if kind(h) == k {
            assert(kind(r.known[i]) == k);
            assert(r.has(k));
            let j = r.index_of(k);
            if j != i {
                assert(kind(r.known[j]) == kind(hv.known[j]));
                if j < i {
                    assert(kind(hv.known[j]) != kind(hv.known[i]));
                } else {
                    assert(kind(hv.known[i]) != kind(hv.known[j]));
                }
            }
        } else {
            assert(forall|m: int| 0 <= m < r.known.len() ==> (kind(#[trigger] r.known[m]) == k
                <==> kind(hv.known[m]) == k));
            if hv.has(k) {
                let j0 = hv.index_of(k);
                assert(kind(r.known[j0]) == k);
                assert(r.has(k));
                let j = r.index_of(k);
                assert(kind(hv.known[j]) == k);
                if j != j0 {
                    if j < j0 {
                        assert(kind(hv.known[j]) != kind(hv.known[j0]));
                    } else {
                        assert(kind(hv.known[j0]) != kind(hv.known[j]));
                    }
                }
            } else {
                if r.has(k) {
                    let j = r.index_of(k);
                    assert(kind(hv.known[j]) == k);
                }
            }
        }
    } else {
        let n = hv.known.len() as int;
        if kind(h) == k {
            assert(kind(r.known[n]) == k);
            assert(r.has(k));
            let j = r.index_of(k);
            if j < n {
                assert(kind(hv.known[j]) == k);
            }
        } else {
            if hv.has(k) {
                let j0 = hv.index_of(k);
                assert(r.known[j0] == hv.known[j0]);
                assert(r.has(k));
                let j = r.index_of(k);
                assert(j < n);
                assert(kind(hv.known[j]) == k);
                if j != j0 {
                    if j < j0 {
                        assert(kind(hv.known[j]) != kind(hv.known[j0]));
                    } else {
                        assert(kind(hv.known[j0]) != kind(hv.known[j]));
                    }
                }
            } else {
                if r.has(k) {
                    let j = r.index_of(k);
                    assert(j < n);
                    assert(kind(hv.known[j]) == k);
                }
            }
        }
    }
}

/// A field read from a line is writable.
proof fn lemma_parsed_field_wf(line: Seq<char>)
    requires
        header_of_line(line) is Ok,
    ensures
        field_wf(header_of_line(line)->Ok_0),
{
}

proof fn lemma_lines_stay_err(ls: Seq<Seq<char>>, j: int)
    requires
        0 <= j <= ls.len(),
        headers_of_lines(ls.subrange(0, j)) is Err,
    ensures
        headers_of_lines(ls) is Err,
    decreases ls.len() - j,
{
    if j < ls.len() {
        assert(ls.subrange(0, j + 1).drop_last() =~= ls.subrange(0, j));
        lemma_lines_stay_err(ls, j + 1);
    } else {
        assert(ls.subrange(0, j) =~= ls);
    }
}

impl Headers {
    /// An empty collection.
    pub fn new() -> (r: Headers)
        ensures
            r@ == HeadersView::empty(),
            r@.wf(),
    {
        let r = Headers { headers: Vec::new(), extra: Vec::new() };
        assert(r@.known =~= Seq::<HeaderView>::empty());
        assert(r@.extra =~= Seq::<HeaderView>::empty());
        r
    }

    /// Where the field of kind `k` is stored, if anywhere.
    fn position(&self, k: HeaderVariant) -> (r: Option<usize>)
        requires
            self@.wf(),
        ensures
            r matches Some(i) ==> i < self@.known.len() && self@.has(k) && self@.index_of(k) == i,
            r is None ==> !self@.has(k),
    {
        let mut i: usize = 0;
        while i < self.headers.len()
            invariant
                i <= self@.known.len(),
                self@.wf(),
                self@.known.len() == self.headers@.len(),
                forall|j: int| 0 <= j < self.headers@.len() ==> #[trigger] self@.known[j] == self.headers@[j]@,
                forall|j: int| 0 <= j < i ==> kind(#[trigger] self@.known[j]) != k,
            decreases self.headers@.len() - i,
        {
            if self.headers[i].variant() == k {
                proof {
                    lemma_index_unique(self@, k, i as int);
                }
                return Some(i);
            }
            i = i + 1;
        }
        None
    }

    /// The stored field of kind `k`, if there is one.
    pub fn get(&self, header: HeaderVariant) -> (r: Option<Header>)
        requires
            self@.wf(),
        ensures
            r is Some <==> self@.lookup(header) is Some,
            r matches Some(h) ==> self@.lookup(header) == Some(h@),
    {
        match self.position(header) {
            Some(i) => Some(self.headers[i].duplicate()),
            None => None,
        }
    }

    /// Stores a field: an unknown field is appended to the extras; a known one replaces the
    /// field of its kind, or is appended where there is none.
    pub fn set(&mut self, header: Header)
        requires
            old(self)@.wf(),
            field_wf(header@),
        ensures
            final(self)@ == old(self)@.with(header@),
            final(self)@.wf(),
    {
        proof {
            lemma_with_wf(old(self)@, header@);
        }
        let k = header.variant();
        if k == HeaderVariant::Generic {
            self.extra.push(header);
            assert(self@.extra =~= old(self)@.extra.push(header@));
            assert(self@.known =~= old(self)@.known);
        } else {
            match self.position(k) {
                Some(i) => {
                    self.headers.set(i, header);
                    assert(self@.known =~= old(self)@.known.update(i as int, header@));
                    assert(self@.extra =~= old(self)@.extra);
                },
                None => {
                    self.headers.push(header);
                    assert(self@.known =~= old(self)@.known.push(header@));
                    assert(self@.extra =~= old(self)@.extra);
                },
            }
        }
    }

    /// The value of the first unknown field with this name, if any.
    pub fn get_generic(&self, header: &str) -> (r: Option<String>)
        requires
            self@.wf(),
        ensures
            r is None <==> (forall|i: int|
                0 <= i < self@.extra.len() ==> name_text(#[trigger] self@.extra[i]) != header@),
            r matches Some(v) ==> exists|i: int|
                0 <= i < self@.extra.len() && name_text(#[trigger] self@.extra[i]) == header@
                    && value_text(self@.extra[i]) == v@ && (forall|j: int|
                    0 <= j < i ==> name_text(#[trigger] self@.extra[j]) != header@),
    {
        let mut i: usize = 0;
        while i < self.extra.len()
            invariant
                i <= self@.extra.len(),
                self@.wf(),
                self@.extra.len() == self.extra@.len(),
                forall|j: int| 0 <= j < self.extra@.len() ==> #[trigger] self@.extra[j] == self.extra@[j]@,
                forall|j: int| 0 <= j < i ==> name_text(#[trigger] self@.extra[j]) != header@,
            decreases self.extra@.len() - i,
        {
            match &self.extra[i] {
                Header::Generic(n, v) => {
                    let nc = chars_of(n.as_str());
                    if eq_str(nc.as_slice(), header) {
                        assert(name_text(self@.extra[i as int]) == header@);
                        return Some(v.clone());
                    }
                    assert(name_text(self@.extra[i as int]) != header@);
                },
                _ => {
                    assert(kind(self@.extra[i as int]) == HeaderVariant::Generic);
                },
            }
            i = i + 1;
        }
        None
    }

    /// The header block as text: each known field, then each unknown one, as a line ended by
    /// `"\r\n"`, then an empty line.
    pub fn to_string(&self) -> (r: String)
        requires
            self@.wf(),
        ensures
            r@ == self@.text(),
    {
        let mut out: Vec<char> = Vec::new();
        let mut i: usize = 0;
        while i < self.headers.len()
            invariant
                i <= self@.known.len(),
                self@.wf(),
                self@.known.len() == self.headers@.len(),
                forall|j: int| 0 <= j < self.headers@.len() ==> #[trigger] self@.known[j] == self.headers@[j]@,
                out@ == lines_text(self@.known.subrange(0, i as int)),
            decreases self.headers@.len() - i,
        {
            assert(self@.known.subrange(0, i + 1).drop_last() =~= self@.known.subrange(0, i as int));
            assert(field_wf(self@.known[i as int]));
            let line = self.headers[i].to_line();
            push_chars(&mut out, line.as_slice());
            push_str(&mut out, "\r\n");
            i = i + 1;
        }
        assert(self@.known.subrange(0, self@.known.len() as int) =~= self@.known);
        let ghost head = out@;
        let mut j: usize = 0;
        while j < self.extra.len()
            invariant
                j <= self@.extra.len(),
                self@.wf(),
                self@.extra.len() == self.extra@.len(),
                forall|k: int| 0 <= k < self.extra@.len() ==> #[trigger] self@.extra[k] == self.extra@[k]@,
                out@ == head + lines_text(self@.extra.subrange(0, j as int)),
            decreases self.extra@.len() - j,
        {
            assert(self@.extra.subrange(0, j + 1).drop_last() =~= self@.extra.subrange(0, j as int));
            assert(kind(self@.extra[j as int]) == HeaderVariant::Generic);
            let line = self.extra[j].to_line();
            push_chars(&mut out, line.as_slice());
            push_str(&mut out, "\r\n");
            j = j + 1;
            assert(out@ =~= head + lines_text(self@.extra.subrange(0, j as int)));
        }
        assert(self@.extra.subrange(0, self@.extra.len() as int) =~= self@.extra);
        push_str(&mut out, "\r\n");
        assert(out@ =~= self@.text());
        string_of(&out)
    }

    /// Adds a parsed field: a repeated known kind is merged with the stored field, and is an
    /// error where it cannot be.
    fn add_parsed(&mut self, h: Header) -> (r: Result<(), HeaderErr>)
        requires
            old(self)@.wf(),
            field_wf(h@),
        ensures
            r is Ok <==> old(self)@.add_parsed(h@) is Ok,
            r is Ok ==> old(self)@.add_parsed(h@) == Ok::<HeadersView, ()>(final(self)@),
            final(self)@.wf(),
    {
        let k = h.variant();
        if k != HeaderVariant::Generic {
            match self.position(k) {
                Some(i) => {
                    match merge_fields(&self.headers[i], &h) {
                        Some(m) => {
                            assert(self.headers@[i as int]@ == self@.known[i as int]);
                            self.set(m);
                            return Ok(());
                        },
                        None => {
                            assert(self.headers@[i as int]@ == self@.known[i as int]);
                            let name = chars_of(name_of_kind(k));
                            return Err(field_error("Cannot merge multiple of field ", &name));
                        },
                    }
                },
                None => {},
            }
        }
        self.set(h);
        Ok(())
    }

    /// Reads a header block: the lines `Name: value` separated by `"\r\n"`, trailing
    /// whitespace cut first. Repeated `Accept-Encoding` or `Allow` fields are merged by union;
    /// any other repeated known field is an error.
    pub fn parse(value: &str) -> (r: Result<Headers, HeaderErr>)
        ensures
            r is Ok <==> headers_of_text(value@) is Ok,
            r matches Ok(h) ==> headers_of_text(value@) == Ok::<HeadersView, ()>(h@) && h@.wf(),
    {
        let all = chars_of(value);
        let body = trimmed_end(all.as_slice());
        let mut acc = Headers::new();
        if body.len() == 0 {
            return Ok(acc);
        }
        let lines = split_crlf(body.as_slice());
        let ghost ls = crlf_lines(body@);
        assert(headers_of_text(value@) == headers_of_lines(ls));
        assert(ls.subrange(0, 0) =~= Seq::<Seq<char>>::empty());
        let mut i: usize = 0;
        while i < lines.len()
            invariant
                i <= lines@.len(),
                lines@.len() == ls.len(),
                forall|j: int| 0 <= j < lines@.len() ==> #[trigger] lines@[j]@ == ls[j],
                headers_of_lines(ls.subrange(0, i as int)) == Ok::<HeadersView, ()>(acc@),
                headers_of_text(value@) == headers_of_lines(ls),
                acc@.wf(),
            decreases lines@.len() - i,
        {
            assert(ls.subrange(0, i + 1).drop_last() =~= ls.subrange(0, i as int));
            assert(ls.subrange(0, i + 1).last() == lines@[i as int]@);
            match Header::parse_line(lines[i].as_slice()) {
                Ok(h) => {
                    proof {
                        lemma_parsed_field_wf(lines@[i as int]@);
                    }
                    match acc.add_parsed(h) {
                        Ok(()) => {},
                        Err(e) => {
                            proof {
                                assert(headers_of_lines(ls.subrange(0, i + 1)) is Err);
                                lemma_lines_stay_err(ls, i + 1);
                            }
                            return Err(e);
                        },
                    }
                },
                Err(e) => {
                    proof {
                        assert(header_of_line(ls[i as int]) is Err);
                        assert(headers_of_lines(ls.subrange(0, i + 1)) is Err);
                        lemma_lines_stay_err(ls, i + 1);
                    }
                    return Err(e);
                },
            }
            i = i + 1;
        }
        assert(ls.subrange(0, ls.len() as int) =~= ls);
        Ok(acc)
    }
}

impl TryFrom<&str> for Header {
    type Error = HeaderErr;

    fn try_from(value: &str) -> Result<Header, HeaderErr> {
        let line = chars_of(value);
        Header::parse_line(line.as_slice())
    }
}

impl TryFrom<String> for Header {
    type Error = HeaderErr;

    fn try_from(value: String) -> Result<Header, HeaderErr> {
        let line = chars_of(value.as_str());
        Header::parse_line(line.as_slice())
    }
}

impl TryFrom<&str> for Headers {
    type Error = HeaderErr;

    fn try_from(value: &str) -> Result<Headers, HeaderErr> {
        Headers::parse(value)
    }
}

impl TryFrom<String> for Headers {
    type Error = HeaderErr;

    fn try_from(value: String) -> Result<Headers, HeaderErr> {
        Headers::parse(value.as_str())
    }
}

impl Default for Headers {
    fn default() -> (r: Headers)
        ensures
            r@ == HeadersView::empty(),
            r@.wf(),
    {
        Headers::new()
    }
}


impl vstd::std_specs::convert::TryFromSpecImpl<&str> for Header {
    open spec fn obeys_try_from_spec() -> bool {
        false
    }

    open spec fn try_from_spec(v: &str) -> Result<Header, HeaderErr> {
        arbitrary()
    }
}

impl vstd::std_specs::convert::TryFromSpecImpl<String> for Header {
    open spec fn obeys_try_from_spec() -> bool {
        false
    }

    open spec fn try_from_spec(v: String) -> Result<Header, HeaderErr> {
        arbitrary()
    }
}

impl vstd::std_specs::convert::TryFromSpecImpl<&str> for Headers {
    open spec fn obeys_try_from_spec() -> bool {
        false
    }

    open spec fn try_from_spec(v: &str) -> Result<Headers, HeaderErr> {
        arbitrary()
    }
}

impl vstd::std_specs::convert::TryFromSpecImpl<String> for Headers {
    open spec fn obeys_try_from_spec() -> bool {
        false
    }

    open spec fn try_from_spec(v: String) -> Result<Headers, HeaderErr> {
        arbitrary()
    }
}


/// Whether two strings hold the same characters.
fn same_string(a: &String, b: &String) -> (r: bool)
    ensures
        r == (a@ == b@),
{
    let x = chars_of(a.as_str());
    let y = chars_of(b.as_str());
    eq_chars(&x, &y)
}

/// Whether two coding lists are equal.
fn same_codings(a: &Vec<ContentEncoding>, b: &Vec<ContentEncoding>) -> (r: bool)
    ensures
        r == (a@ == b@),
{
    if a.len() != b.len() {
        return false;
    }
    let mut i: usize = 0;
    while i < a.len()
        invariant
            i <= a@.len(),
            a@.len() == b@.len(),
            forall|j: int| 0 <= j < i ==> a@[j] == b@[j],
        decreases a@.len() - i,
    {
        if a[i] != b[i] {
            return false;
        }
        i = i + 1;
    }
    assert(a@ =~= b@);
    true
}

/// Whether two method lists are equal.
fn same_methods(a: &Vec<Method>, b: &Vec<Method>) -> (r: bool)
    ensures
        r == (a@ == b@),
{
    if a.len() != b.len() {
        return false;
    }
    let mut i: usize = 0;
    while i < a.len()
        invariant
            i <= a@.len(),
            a@.len() == b@.len(),
            forall|j: int| 0 <= j < i ==> a@[j] == b@[j],
        decreases a@.len() - i,
    {
        if a[i] != b[i] {
            return false;
        }
        i = i + 1;
    }
    assert(a@ =~= b@);
    true
}

impl Header {
    /// Whether two fields are the same field with the same value.
    pub fn same(&self, o: &Header) -> (r: bool)
        ensures
            r == (self@ == o@),
    {
        match (self, o) {
            (Header::Accept(a), Header::Accept(b)) => same_string(a, b),
            (Header::Authorization(a), Header::Authorization(b)) => same_string(a, b),
            (Header::ContentType(a), Header::ContentType(b)) => same_string(a, b),
            (Header::From(a), Header::From(b)) => same_string(a, b),
            (Header::Host(a), Header::Host(b)) => same_string(a, b),
            (Header::Location(a), Header::Location(b)) => same_string(a, b),
            (Header::Pragma(a), Header::Pragma(b)) => same_string(a, b),
            (Header::Referer(a), Header::Referer(b)) => same_string(a, b),
            (Header::Server(a), Header::Server(b)) => same_string(a, b),
            (Header::UserAgent(a), Header::UserAgent(b)) => same_string(a, b),
            (Header::WWWAuthenticate(a), Header::WWWAuthenticate(b)) => same_string(a, b),
            (Header::Date(a), Header::Date(b)) => *a == *b,
            (Header::Expires(a), Header::Expires(b)) => *a == *b,
            (Header::IfModifiedSince(a), Header::IfModifiedSince(b)) => *a == *b,
            (Header::LastModified(a), Header::LastModified(b)) => *a == *b,
            (Header::ContentEncoding(a), Header::ContentEncoding(b)) => *a == *b,
            (Header::ContentLength(a), Header::ContentLength(b)) => *a == *b,
            (Header::Generic(n, v), Header::Generic(m, w)) => same_string(n, m) && same_string(v, w),
            (Header::AcceptEncoding(a), Header::AcceptEncoding(b)) => same_codings(a, b),
            (Header::Allow(a), Header::Allow(b)) => same_methods(a, b),
            _ => {
                assert(kind(self@) != kind(o@));
                false
            },
        }
    }
}

impl HeadersView {
    /// The same known fields, whatever their order, and the same unknown fields in the same
    /// order.
    pub open spec fn same_fields(self, o: HeadersView) -> bool {
        &&& self.known.len() == o.known.len()
        &&& forall|i: int| 0 <= i < self.known.len() ==> o.known.contains(#[trigger] self.known[i])
        &&& forall|i: int| 0 <= i < o.known.len() ==> self.known.contains(#[trigger] o.known[i])
        &&& self.extra == o.extra
    }
}

impl Headers {
    /// Whether `h` equals one of the known fields.
    fn holds_known(&self, h: &Header) -> (r: bool)
        ensures
            r == self@.known.contains(h@),
    {
        let mut i: usize = 0;
        while i < self.headers.len()
            invariant
                i <= self.headers@.len(),
                self@.known.len() == self.headers@.len(),
                forall|j: int| 0 <= j < self.headers@.len() ==> #[trigger] self@.known[j] == self.headers@[j]@,
                forall|j: int| 0 <= j < i ==> self@.known[j] != h@,
            decreases self.headers@.len() - i,
        {
            if self.headers[i].same(h) {
                assert(self@.known[i as int] == h@);
                return true;
            }
            i = i + 1;
        }
        false
    }

    /// Whether every known field of `self` is among those of `o`.
    fn known_within(&self, o: &Headers) -> (r: bool)
        ensures
            r == (forall|i: int| 0 <= i < self@.known.len() ==> o@.known.contains(#[trigger] self@.known[i])),
    {
        let mut i: usize = 0;
        while i < self.headers.len()
            invariant
                i <= self.headers@.len(),
                self@.known.len() == self.headers@.len(),
                forall|j: int| 0 <= j < self.headers@.len() ==> #[trigger] self@.known[j] == self.headers@[j]@,
                forall|j: int| 0 <= j < i ==> o@.known.contains(#[trigger] self@.known[j]),
            decreases self.headers@.len() - i,
        {
            if !o.holds_known(&self.headers[i]) {
                assert(!o@.known.contains(self@.known[i as int]));
                return false;
            }
            i = i + 1;
        }
        true
    }
}

impl PartialEq for Headers {
    fn eq(&self, o: &Headers) -> (r: bool) {
        if self.headers.len() != o.headers.len() || self.extra.len() != o.extra.len() {
            proof {
                assert(self@.known.len() == self.headers@.len());
                assert(o@.known.len() == o.headers@.len());
                assert(self@.extra.len() == self.extra@.len());
                assert(o@.extra.len() == o.extra@.len());
            }
            return false;
        }
        if !self.known_within(o) || !o.known_within(self) {
            return false;
        }
        let mut i: usize = 0;
        while i < self.extra.len()
            invariant
                i <= self.extra@.len(),
                self.extra@.len() == o.extra@.len(),
                self@.extra.len() == self.extra@.len(),
                o@.extra.len() == o.extra@.len(),
                forall|j: int| 0 <= j < self.extra@.len() ==> #[trigger] self@.extra[j] == self.extra@[j]@,
                forall|j: int| 0 <= j < o.extra@.len() ==> #[trigger] o@.extra[j] == o.extra@[j]@,
                forall|j: int| 0 <= j < i ==> self@.extra[j] == o@.extra[j],
            decreases self.extra@.len() - i,
        {
            if !self.extra[i].same(&o.extra[i]) {
                assert(self@.extra[i as int] != o@.extra[i as int]);
                return false;
            }
            i = i + 1;
        }
        assert(self@.extra =~= o@.extra);
        true
    }
}

impl vstd::std_specs::cmp::PartialEqSpecImpl for Headers {
    open spec fn obeys_eq_spec() -> bool {
        true
    }

    open spec fn eq_spec(&self, o: &Headers) -> bool {
        self@.same_fields(o@)
    }
}

} // verus!
