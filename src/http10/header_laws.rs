//! Laws of the header model: a written field reads back as itself, and repeated list fields
//! merge by union.
use vstd::prelude::*;

use super::content_codings::{coding_name, coding_of, lemma_coding_name_parses, ContentEncoding};
use super::dates::HttpDate;
use super::headers::{
    codings_in, dedup, field_name, field_of, header_of_line, headers_of_lines, headers_of_text,
    kind, kind_of_name, line_text, lines_text, merged, methods_in, name_text, value_text,
    HeaderVariant, HeaderView, HeadersView,
};
use super::methods::{lemma_method_name_parses, method_name, method_of, Method};
use crate::decimal::{decimal, is_digit, lemma_decimal_round_trip};
use crate::text::{
    crlf_lines, is_ws, join, lemma_crlf_append, lemma_crlf_push_end, lemma_first_index_found,
    lemma_pieces_of_join, lemma_trim_end_appended_ws, lemma_trim_leading_space,
    lemma_trim_unchanged, pieces, trim, trim_end,
};

verus! {

/// Each known kind's field name names that kind, and holds neither `:` nor whitespace.
pub proof fn lemma_field_name_parses(k: HeaderVariant)
    requires
        k != HeaderVariant::Generic,
    ensures
        kind_of_name(field_name(k)) == Some(k),
        !field_name(k).contains(':'),
{
    reveal_strlit("Accept");
    reveal_strlit("Accept-Encoding");
    reveal_strlit("Allow");
    reveal_strlit("Authorization");
    reveal_strlit("Content-Encoding");
    reveal_strlit("Content-Length");
    reveal_strlit("Content-Type");
    reveal_strlit("Date");
    reveal_strlit("Expires");
    reveal_strlit("From");
    reveal_strlit("Host");
    reveal_strlit("If-Modified-Since");
    reveal_strlit("Last-Modified");
    reveal_strlit("Location");
    reveal_strlit("Pragma");
    reveal_strlit("Referer");
    reveal_strlit("Server");
    reveal_strlit("User-Agent");
    reveal_strlit("WWW-Authenticate");
    match k {
        HeaderVariant::Accept => {

        },
        HeaderVariant::AcceptEncoding => {
            assert("Accept-Encoding"@.len() != "Accept"@.len());
        },
        HeaderVariant::Allow => {
            assert("Allow"@.len() != "Accept"@.len());
            assert("Allow"@.len() != "Accept-Encoding"@.len());
        },
        HeaderVariant::Authorization => {
            assert("Authorization"@.len() != "Accept"@.len());
            assert("Authorization"@.len() != "Accept-Encoding"@.len());
            assert("Authorization"@.len() != "Allow"@.len());
        },
        HeaderVariant::ContentEncoding => {
            assert("Content-Encoding"@.len() != "Accept"@.len());
            assert("Content-Encoding"@.len() != "Accept-Encoding"@.len());
            assert("Content-Encoding"@.len() != "Allow"@.len());
            assert("Content-Encoding"@.len() != "Authorization"@.len());
        },
        HeaderVariant::ContentLength => {
            assert("Content-Length"@.len() != "Accept"@.len());
            assert("Content-Length"@.len() != "Accept-Encoding"@.len());
            assert("Content-Length"@.len() != "Allow"@.len());
            assert("Content-Length"@.len() != "Authorization"@.len());
            assert("Content-Length"@.len() != "Content-Encoding"@.len());
        },
        HeaderVariant::ContentType => {
            assert("Content-Type"@.len() != "Accept"@.len());
            assert("Content-Type"@.len() != "Accept-Encoding"@.len());
            assert("Content-Type"@.len() != "Allow"@.len());
            assert("Content-Type"@.len() != "Authorization"@.len());
            assert("Content-Type"@.len() != "Content-Encoding"@.len());
            assert("Content-Type"@.len() != "Content-Length"@.len());
        },
        HeaderVariant::Date => {
            assert("Date"@.len() != "Accept"@.len());
            assert("Date"@.len() != "Accept-Encoding"@.len());
            assert("Date"@.len() != "Allow"@.len());
            assert("Date"@.len() != "Authorization"@.len());
            assert("Date"@.len() != "Content-Encoding"@.len());
            assert("Date"@.len() != "Content-Length"@.len());
            assert("Date"@.len() != "Content-Type"@.len());
        },
        HeaderVariant::Expires => {
            assert("Expires"@.len() != "Accept"@.len());
            assert("Expires"@.len() != "Accept-Encoding"@.len());
            assert("Expires"@.len() != "Allow"@.len());
            assert("Expires"@.len() != "Authorization"@.len());
            assert("Expires"@.len() != "Content-Encoding"@.len());
            assert("Expires"@.len() != "Content-Length"@.len());
            assert("Expires"@.len() != "Content-Type"@.len());
            assert("Expires"@.len() != "Date"@.len());
        },
        HeaderVariant::From => {
            assert("From"@.len() != "Accept"@.len());
            assert("From"@.len() != "Accept-Encoding"@.len());
            assert("From"@.len() != "Allow"@.len());
            assert("From"@.len() != "Authorization"@.len());
            assert("From"@.len() != "Content-Encoding"@.len());
            assert("From"@.len() != "Content-Length"@.len());
            assert("From"@.len() != "Content-Type"@.len());
            assert("From"@[0] != "Date"@[0]);
            assert("From"@.len() != "Expires"@.len());
        },
        HeaderVariant::Host => {
            assert("Host"@.len() != "Accept"@.len());
            assert("Host"@.len() != "Accept-Encoding"@.len());
            assert("Host"@.len() != "Allow"@.len());
            assert("Host"@.len() != "Authorization"@.len());
            assert("Host"@.len() != "Content-Encoding"@.len());
            assert("Host"@.len() != "Content-Length"@.len());
            assert("Host"@.len() != "Content-Type"@.len());
            assert("Host"@[0] != "Date"@[0]);
            assert("Host"@.len() != "Expires"@.len());
            assert("Host"@[0] != "From"@[0]);
        },
        HeaderVariant::IfModifiedSince => {
            assert("If-Modified-Since"@.len() != "Accept"@.len());
            assert("If-Modified-Since"@.len() != "Accept-Encoding"@.len());
            assert("If-Modified-Since"@.len() != "Allow"@.len());
            assert("If-Modified-Since"@.len() != "Authorization"@.len());
            assert("If-Modified-Since"@.len() != "Content-Encoding"@.len());
            assert("If-Modified-Since"@.len() != "Content-Length"@.len());
            assert("If-Modified-Since"@.len() != "Content-Type"@.len());
            assert("If-Modified-Since"@.len() != "Date"@.len());
            assert("If-Modified-Since"@.len() != "Expires"@.len());
            assert("If-Modified-Since"@.len() != "From"@.len());
            assert("If-Modified-Since"@.len() != "Host"@.len());
        },
        HeaderVariant::LastModified => {
            assert("Last-Modified"@.len() != "Accept"@.len());
            assert("Last-Modified"@.len() != "Accept-Encoding"@.len());
            assert("Last-Modified"@.len() != "Allow"@.len());
            assert("Last-Modified"@[0] != "Authorization"@[0]);
            assert("Last-Modified"@.len() != "Content-Encoding"@.len());
            assert("Last-Modified"@.len() != "Content-Length"@.len());
            assert("Last-Modified"@.len() != "Content-Type"@.len());
            assert("Last-Modified"@.len() != "Date"@.len());
            assert("Last-Modified"@.len() != "Expires"@.len());
            assert("Last-Modified"@.len() != "From"@.len());
            assert("Last-Modified"@.len() != "Host"@.len());
            assert("Last-Modified"@.len() != "If-Modified-Since"@.len());
        },
        HeaderVariant::Location => {
            assert("Location"@.len() != "Accept"@.len());
            assert("Location"@.len() != "Accept-Encoding"@.len());
            assert("Location"@.len() != "Allow"@.len());
            assert("Location"@.len() != "Authorization"@.len());
            assert("Location"@.len() != "Content-Encoding"@.len());
            assert("Location"@.len() != "Content-Length"@.len());
            assert("Location"@.len() != "Content-Type"@.len());
            assert("Location"@.len() != "Date"@.len());
            assert("Location"@.len() != "Expires"@.len());
            assert("Location"@.len() != "From"@.len());
            assert("Location"@.len() != "Host"@.len());
            assert("Location"@.len() != "If-Modified-Since"@.len());
            assert("Location"@.len() != "Last-Modified"@.len());
        },
        HeaderVariant::Pragma => {
            assert("Pragma"@[0] != "Accept"@[0]);
            assert("Pragma"@.len() != "Accept-Encoding"@.len());
            assert("Pragma"@.len() != "Allow"@.len());
            assert("Pragma"@.len() != "Authorization"@.len());
            assert("Pragma"@.len() != "Content-Encoding"@.len());
            assert("Pragma"@.len() != "Content-Length"@.len());
            assert("Pragma"@.len() != "Content-Type"@.len());
            assert("Pragma"@.len() != "Date"@.len());
            assert("Pragma"@.len() != "Expires"@.len());
            assert("Pragma"@.len() != "From"@.len());
            assert("Pragma"@.len() != "Host"@.len());
            assert("Pragma"@.len() != "If-Modified-Since"@.len());
            assert("Pragma"@.len() != "Last-Modified"@.len());
            assert("Pragma"@.len() != "Location"@.len());
        },
        HeaderVariant::Referer => {
            assert("Referer"@.len() != "Accept"@.len());
            assert("Referer"@.len() != "Accept-Encoding"@.len());
            assert("Referer"@.len() != "Allow"@.len());
            assert("Referer"@.len() != "Authorization"@.len());
            assert("Referer"@.len() != "Content-Encoding"@.len());
            assert("Referer"@.len() != "Content-Length"@.len());
            assert("Referer"@.len() != "Content-Type"@.len());
            assert("Referer"@.len() != "Date"@.len());
            assert("Referer"@[0] != "Expires"@[0]);
            assert("Referer"@.len() != "From"@.len());
            assert("Referer"@.len() != "Host"@.len());
            assert("Referer"@.len() != "If-Modified-Since"@.len());
            assert("Referer"@.len() != "Last-Modified"@.len());
            assert("Referer"@.len() != "Location"@.len());
            assert("Referer"@.len() != "Pragma"@.len());
        },
        HeaderVariant::Server => {
            assert("Server"@[0] != "Accept"@[0]);
            assert("Server"@.len() != "Accept-Encoding"@.len());
            assert("Server"@.len() != "Allow"@.len());
            assert("Server"@.len() != "Authorization"@.len());
            assert("Server"@.len() != "Content-Encoding"@.len());
            assert("Server"@.len() != "Content-Length"@.len());
            assert("Server"@.len() != "Content-Type"@.len());
            assert("Server"@.len() != "Date"@.len());
            assert("Server"@.len() != "Expires"@.len());
            assert("Server"@.len() != "From"@.len());
            assert("Server"@.len() != "Host"@.len());
            assert("Server"@.len() != "If-Modified-Since"@.len());
            assert("Server"@.len() != "Last-Modified"@.len());
            assert("Server"@.len() != "Location"@.len());
            assert("Server"@[0] != "Pragma"@[0]);
            assert("Server"@.len() != "Referer"@.len());
        },
        HeaderVariant::UserAgent => {
            assert("User-Agent"@.len() != "Accept"@.len());
            assert("User-Agent"@.len() != "Accept-Encoding"@.len());
            assert("User-Agent"@.len() != "Allow"@.len());
            assert("User-Agent"@.len() != "Authorization"@.len());
            assert("User-Agent"@.len() != "Content-Encoding"@.len());
            assert("User-Agent"@.len() != "Content-Length"@.len());
            assert("User-Agent"@.len() != "Content-Type"@.len());
            assert("User-Agent"@.len() != "Date"@.len());
            assert("User-Agent"@.len() != "Expires"@.len());
            assert("User-Agent"@.len() != "From"@.len());
            assert("User-Agent"@.len() != "Host"@.len());
            assert("User-Agent"@.len() != "If-Modified-Since"@.len());
            assert("User-Agent"@.len() != "Last-Modified"@.len());
            assert("User-Agent"@.len() != "Location"@.len());
            assert("User-Agent"@.len() != "Pragma"@.len());
            assert("User-Agent"@.len() != "Referer"@.len());
            assert("User-Agent"@.len() != "Server"@.len());
        },
        HeaderVariant::WWWAuthenticate => {
            assert("WWW-Authenticate"@.len() != "Accept"@.len());
            assert("WWW-Authenticate"@.len() != "Accept-Encoding"@.len());
            assert("WWW-Authenticate"@.len() != "Allow"@.len());
            assert("WWW-Authenticate"@.len() != "Authorization"@.len());
            assert("WWW-Authenticate"@[0] != "Content-Encoding"@[0]);
            assert("WWW-Authenticate"@.len() != "Content-Length"@.len());
            assert("WWW-Authenticate"@.len() != "Content-Type"@.len());
            assert("WWW-Authenticate"@.len() != "Date"@.len());
            assert("WWW-Authenticate"@.len() != "Expires"@.len());
            assert("WWW-Authenticate"@.len() != "From"@.len());
            assert("WWW-Authenticate"@.len() != "Host"@.len());
            assert("WWW-Authenticate"@.len() != "If-Modified-Since"@.len());
            assert("WWW-Authenticate"@.len() != "Last-Modified"@.len());
            assert("WWW-Authenticate"@.len() != "Location"@.len());
            assert("WWW-Authenticate"@.len() != "Pragma"@.len());
            assert("WWW-Authenticate"@.len() != "Referer"@.len());
            assert("WWW-Authenticate"@.len() != "Server"@.len());
            assert("WWW-Authenticate"@.len() != "User-Agent"@.len());
        },
        HeaderVariant::Generic => {},
    }
}

/// A field that reads back as itself once written: free text without whitespace at its
/// ends, a generic name that is no known name and holds no `:`, lists of at least one item,
/// and dates whose written text reads back as the same date.
pub open spec fn reads_back(h: HeaderView) -> bool {
    match h {
        HeaderView::Generic(n, v) => !n.contains(':') && kind_of_name(n) is None && trim(v) == v,
        HeaderView::AcceptEncoding(cs) => cs.len() > 0,
        HeaderView::Allow(ms) => ms.len() > 0,
        HeaderView::ContentEncoding(_) => true,
        HeaderView::ContentLength(_) => true,
        HeaderView::Date(d) => HttpDate::parsed_spec(trim(d.text())) == Some(d),
        HeaderView::Expires(d) => HttpDate::parsed_spec(trim(d.text())) == Some(d),
        HeaderView::IfModifiedSince(d) => HttpDate::parsed_spec(trim(d.text())) == Some(d),
        HeaderView::LastModified(d) => HttpDate::parsed_spec(trim(d.text())) == Some(d),
        _ => trim(value_text(h)) == value_text(h),
    }
}

proof fn lemma_join_ends(parts: Seq<Seq<char>>, sep: Seq<char>)
    requires
        parts.len() > 0,
        parts[0].len() > 0,
        parts.last().len() > 0,
    ensures
        join(parts, sep).len() > 0,
        join(parts, sep)[0] == parts[0][0],
        join(parts, sep).last() == parts.last().last(),
{
    lemma_join_first(parts, sep);
}

proof fn lemma_join_first(parts: Seq<Seq<char>>, sep: Seq<char>)
    requires
        parts.len() > 0,
        parts[0].len() > 0,
    ensures
        join(parts, sep).len() > 0,
        join(parts, sep)[0] == parts[0][0],
    decreases parts.len(),
{
    if parts.len() > 1 {
        let dl = parts.drop_last();
        assert(dl[0] == parts[0]);
        lemma_join_first(dl, sep);
    }
}

proof fn lemma_codings_in_exact(items: Seq<Seq<char>>, cs: Seq<ContentEncoding>)
    requires
        items.len() == cs.len(),
        forall|i: int| 0 <= i < items.len() ==> coding_of(trim(#[trigger] items[i])) == Some(cs[i]),
    ensures
        codings_in(items) == cs,
    decreases items.len(),
{
    if items.len() > 0 {
        let n = items.len() - 1;
        assert forall|i: int| 0 <= i < n implies coding_of(trim(#[trigger] items.drop_last()[i]))
            == Some(cs.drop_last()[i]) by {
            assert(items.drop_last()[i] == items[i]);
        }
        lemma_codings_in_exact(items.drop_last(), cs.drop_last());
        assert(coding_of(trim(items[n])) == Some(cs[n]));
        assert(cs.drop_last().push(cs.last()) =~= cs);
    }
}

proof fn lemma_methods_in_exact(items: Seq<Seq<char>>, ms: Seq<Method>)
    requires
        items.len() == ms.len(),
        forall|i: int| 0 <= i < items.len() ==> method_of(#[trigger] items[i]) == Some(ms[i]),
    ensures
        methods_in(items) == Some(ms),
    decreases items.len(),
{
    if items.len() > 0 {
        let n = items.len() - 1;
        assert forall|i: int| 0 <= i < n implies method_of(#[trigger] items.drop_last()[i])
            == Some(ms.drop_last()[i]) by {
            assert(items.drop_last()[i] == items[i]);
        }
        lemma_methods_in_exact(items.drop_last(), ms.drop_last());
        assert(method_of(items[n]) == Some(ms[n]));
        assert(ms.drop_last().push(ms.last()) =~= ms);
    }
}

/// A lowercase word is its own trim.
proof fn lemma_word_trim(w: Seq<char>)
    requires
        forall|i: int| 0 <= i < w.len() ==> 'a' <= #[trigger] w[i] <= 'z',
    ensures
        trim(w) == w,
{
    if w.len() > 0 {
        assert('a' <= w[0] <= 'z');
        assert('a' <= w[w.len() - 1] <= 'z');
    }
    lemma_trim_unchanged(w);
}

/// The value a field is written with reads back, through the field's name, as the field.
proof fn lemma_value_reads_back(h: HeaderView)
    requires
        reads_back(h),
    ensures
        field_of(name_text(h), trim(value_text(h))) == Ok::<HeaderView, ()>(h),
{
    if kind(h) != HeaderVariant::Generic {
        lemma_field_name_parses(kind(h));
    }
    match h {
        HeaderView::AcceptEncoding(cs) => {
            let names = cs.map_values(|c: ContentEncoding| coding_name(c));
            reveal_strlit(", ");
            assert(", "@ =~= seq![','] + seq![' ']);
            assert forall|i: int| 0 <= i < names.len() implies !(#[trigger] names[i]).contains(',') by {
                lemma_coding_name_parses(cs[i]);
            }
            lemma_pieces_of_join(names, ',', seq![' ']);
            lemma_coding_name_parses(cs[0]);
            lemma_coding_name_parses(cs.last());
            assert(names.last() == coding_name(cs.last()));
            lemma_join_ends(names, ", "@);
            let v = join(names, ", "@);
            assert(!is_ws(v[0]) && !is_ws(v.last())) by {
                assert('a' <= coding_name(cs[0])[0] <= 'z');
                let l = coding_name(cs.last());
                assert('a' <= l[l.len() - 1] <= 'z');
            }
            lemma_trim_unchanged(v);
            let items = pieces(v, ',');
            assert forall|i: int| 0 <= i < items.len() implies coding_of(trim(#[trigger] items[i]))
                == Some(cs[i]) by {
                lemma_coding_name_parses(cs[i]);
                lemma_word_trim(names[i]);
                if i > 0 {
                    lemma_trim_leading_space(names[i]);
                }
            }
            lemma_codings_in_exact(items, cs);
        },
        HeaderView::Allow(ms) => {
            let names = ms.map_values(|m: Method| method_name(m));
            reveal_strlit(",");
            assert(","@ =~= seq![','] + Seq::<char>::empty());
            assert forall|i: int| 0 <= i < names.len() implies !(#[trigger] names[i]).contains(',') by {
                lemma_method_name_parses(ms[i]);
            }
            lemma_pieces_of_join(names, ',', Seq::empty());
            lemma_method_name_parses(ms[0]);
            lemma_method_name_parses(ms.last());
            assert(names.last() == method_name(ms.last()));
            lemma_join_ends(names, ","@);
            let v = join(names, ","@);
            reveal_strlit("GET");
            reveal_strlit("POST");
            reveal_strlit("HEAD");
            assert(!is_ws(v[0]) && !is_ws(v.last()));
            lemma_trim_unchanged(v);
            let items = pieces(v, ',');
            assert forall|i: int| 0 <= i < items.len() implies method_of(#[trigger] items[i])
                == Some(ms[i]) by {
                lemma_method_name_parses(ms[i]);
                if i > 0 {
                    assert(Seq::<char>::empty() + names[i] =~= names[i]);
                }
            }
            lemma_methods_in_exact(items, ms);
        },
        HeaderView::ContentEncoding(c) => {
            lemma_coding_name_parses(c);
            lemma_word_trim(coding_name(c));
        },
        HeaderView::ContentLength(n) => {
            let d = decimal(n as nat);
            lemma_decimal_round_trip(n as nat);
            assert(is_digit(d[0]) && is_digit(d[d.len() - 1]));
            lemma_trim_unchanged(d);
        },
        _ => {},
    }
}

/// A field written as a line reads back as the same field.
pub proof fn lemma_line_round_trip(h: HeaderView)
    requires
        reads_back(h),
    ensures
        header_of_line(line_text(h)) == Ok::<HeaderView, ()>(h),
{
    let name = name_text(h);
    let v = value_text(h);
    if kind(h) != HeaderVariant::Generic {
        lemma_field_name_parses(kind(h));
    }
    assert(!name.contains(':'));
    reveal_strlit(": ");
    let line = line_text(h);
    assert(line =~= name + seq![':', ' '] + v);
    assert forall|j: int| 0 <= j < name.len() implies line[j] != ':' by {
        assert(line[j] == name[j]);
    }
    lemma_first_index_found(line, ':', name.len() as int);
    assert(line.subrange(0, name.len() as int) =~= name);
    assert(line.subrange(name.len() + 1 as int, line.len() as int) =~= seq![' '] + v);
    lemma_trim_leading_space(v);
    lemma_value_reads_back(h);
}

proof fn lemma_dedup<T>(s: Seq<T>)
    ensures
        dedup(s).to_set() == s.to_set(),
        dedup(s).no_duplicates(),
    decreases s.len(),
{
    if s.len() > 0 {
        let p = dedup(s.drop_last());
        lemma_dedup(s.drop_last());
        assert(s.drop_last().push(s.last()) =~= s);
        assert(s.to_set() =~= s.drop_last().to_set().insert(s.last())) by {
            assert forall|x: T| s.to_set().contains(x) implies s.drop_last().to_set().insert(x).contains(
                x,
            ) by {}
            assert forall|x: T| #[trigger] s.to_set().contains(x) <==> s.drop_last().to_set().insert(
                s.last(),
            ).contains(x) by {
                if s.to_set().contains(x) {
                    let i = choose|i: int| 0 <= i < s.len() && s[i] == x;
                    if i < s.len() - 1 {
                        assert(s.drop_last()[i] == x);
                    }
                }
                if s.drop_last().to_set().contains(x) {
                    let i = choose|i: int| 0 <= i < s.drop_last().len() && s.drop_last()[i] == x;
                    assert(s[i] == x);
                }
                if x == s.last() {
                    assert(s[s.len() - 1] == x);
                }
            }
        }
        if p.contains(s.last()) {
            assert(p.to_set().contains(s.last()));
            assert(s.to_set() =~= p.to_set());
        } else {
            assert(p.push(s.last()).to_set() =~= p.to_set().insert(s.last())) by {
                assert forall|x: T| #[trigger] p.push(s.last()).to_set().contains(x) <==> p.to_set().insert(
                    s.last(),
                ).contains(x) by {
                    if p.push(s.last()).to_set().contains(x) {
                        let i = choose|i: int| 0 <= i < p.len() + 1 && p.push(s.last())[i] == x;
                        if i < p.len() {
                            assert(p[i] == x);
                        }
                    }
                    if p.to_set().contains(x) {
                        let i = choose|i: int| 0 <= i < p.len() && p[i] == x;
                        assert(p.push(s.last())[i] == x);
                    }
                    if x == s.last() {
                        assert(p.push(s.last())[p.len() as int] == x);
                    }
                }
            }
            let q = p.push(s.last());
            assert forall|i: int, j: int| 0 <= i < q.len() && 0 <= j < q.len() && i != j implies q[i]
                != q[j] by {
                if i < p.len() && j < p.len() {
                } else if i == p.len() {
                    assert(q[j] == p[j]);
                } else {
                    assert(q[i] == p[i]);
                }
            }
        }
    }
}

/// Two `Accept-Encoding` fields merge into one whose codings are those of either, each once;
/// which field came first changes the order of the codings only.
pub proof fn lemma_merge_accept_encoding(a: Seq<ContentEncoding>, b: Seq<ContentEncoding>)
    ensures
        merged(HeaderView::AcceptEncoding(a), HeaderView::AcceptEncoding(b)) == Some(
            HeaderView::AcceptEncoding(dedup(a + b)),
        ),
        dedup(a + b).to_set() == a.to_set() + b.to_set(),
        dedup(a + b).no_duplicates(),
        dedup(a + b).to_set() == dedup(b + a).to_set(),
{
    lemma_dedup(a + b);
    lemma_dedup(b + a);
    assert((a + b).to_set() =~= a.to_set() + b.to_set()) by {
        assert forall|x: ContentEncoding| #[trigger] (a + b).to_set().contains(x) <==> (a.to_set()
            + b.to_set()).contains(x) by {
            if (a + b).to_set().contains(x) {
                let i = choose|i: int| 0 <= i < (a + b).len() && (a + b)[i] == x;
                if i < a.len() {
                    assert(a[i] == x);
                } else {
                    assert(b[i - a.len()] == x);
                }
            }
            if a.to_set().contains(x) {
                let i = choose|i: int| 0 <= i < a.len() && a[i] == x;
                assert((a + b)[i] == x);
            }
            if b.to_set().contains(x) {
                let i = choose|i: int| 0 <= i < b.len() && b[i] == x;
                assert((a + b)[a.len() + i] == x);
            }
        }
    }
    assert((b + a).to_set() =~= b.to_set() + a.to_set()) by {
        assert forall|x: ContentEncoding| #[trigger] (b + a).to_set().contains(x) <==> (b.to_set()
            + a.to_set()).contains(x) by {
            if (b + a).to_set().contains(x) {
                let i = choose|i: int| 0 <= i < (b + a).len() && (b + a)[i] == x;
                if i < b.len() {
                    assert(b[i] == x);
                } else {
                    assert(a[i - b.len()] == x);
                }
            }
            if b.to_set().contains(x) {
                let i = choose|i: int| 0 <= i < b.len() && b[i] == x;
                assert((b + a)[i] == x);
            }
            if a.to_set().contains(x) {
                let i = choose|i: int| 0 <= i < a.len() && a[i] == x;
                assert((b + a)[b.len() + i] == x);
            }
        }
    }
    assert(a.to_set() + b.to_set() =~= b.to_set() + a.to_set());
}

/// Two `Accept-Encoding` lines read as one collection holding a single `Accept-Encoding`
/// field, whose codings are those of either line, each once.
pub proof fn lemma_two_accept_encoding_lines(
    l1: Seq<char>,
    l2: Seq<char>,
    a: Seq<ContentEncoding>,
    b: Seq<ContentEncoding>,
)
    requires
        header_of_line(l1) == Ok::<HeaderView, ()>(HeaderView::AcceptEncoding(a)),
        header_of_line(l2) == Ok::<HeaderView, ()>(HeaderView::AcceptEncoding(b)),
    ensures
        headers_of_lines(seq![l1, l2]) == Ok::<HeadersView, ()>(
            HeadersView {
                known: seq![HeaderView::AcceptEncoding(dedup(a + b))],
                extra: Seq::empty(),
            },
        ),
        dedup(a + b).to_set() == a.to_set() + b.to_set(),
        dedup(a + b).no_duplicates(),
{
    lemma_merge_accept_encoding(a, b);
    let ls = seq![l1, l2];
    assert(ls.drop_last() =~= seq![l1]);
    assert(seq![l1].drop_last() =~= Seq::<Seq<char>>::empty());
    let e = HeadersView::empty();
    assert(!e.has(HeaderVariant::AcceptEncoding));
    let one = e.with(HeaderView::AcceptEncoding(a));
    assert(one.known =~= seq![HeaderView::AcceptEncoding(a)]);
    assert(headers_of_lines(Seq::<Seq<char>>::empty()) == Ok::<HeadersView, ()>(e));
    assert(seq![l1].last() == l1);
    assert(e.add_parsed(HeaderView::AcceptEncoding(a)) == Ok::<HeadersView, ()>(one));
    assert(headers_of_lines(seq![l1]) == Ok::<HeadersView, ()>(one));
    assert(one.has(HeaderVariant::AcceptEncoding)) by {
        assert(kind(one.known[0]) == HeaderVariant::AcceptEncoding);
    }
    let i = one.index_of(HeaderVariant::AcceptEncoding);
    assert(i == 0);
    let two = one.with(HeaderView::AcceptEncoding(dedup(a + b)));
    assert(two.known =~= seq![HeaderView::AcceptEncoding(dedup(a + b))]);
    assert(two.extra =~= Seq::<HeaderView>::empty());
}

/// A field that reads back as itself and is written on one line.
pub open spec fn writes_cleanly(f: HeaderView) -> bool {
    &&& reads_back(f)
    &&& !line_text(f).contains('\n')
}

/// A value that ends on a character other than whitespace, so that the blank line after it
/// is all that is cut before the block is split.
pub open spec fn ends_solid(f: HeaderView) -> bool {
    value_text(f).len() > 0 && !is_ws(value_text(f).last())
}

proof fn lemma_lines_text_concat(a: Seq<HeaderView>, b: Seq<HeaderView>)
    ensures
        lines_text(a + b) == lines_text(a) + lines_text(b),
    decreases b.len(),
{
    if b.len() == 0 {
        assert(a + b =~= a);
        assert(lines_text(a) + lines_text(b) =~= lines_text(a));
    } else {
        assert((a + b).drop_last() =~= a + b.drop_last());
        assert((a + b).last() == b.last());
        lemma_lines_text_concat(a, b.drop_last());
        assert(lines_text(a + b) =~= lines_text(a) + lines_text(b));
    }
}

proof fn lemma_crlf_of_lines(fs: Seq<HeaderView>)
    requires
        forall|i: int| 0 <= i < fs.len() ==> !line_text(#[trigger] fs[i]).contains('\n'),
    ensures
        crlf_lines(lines_text(fs)) == fs.map_values(|f: HeaderView| line_text(f)).push(Seq::empty()),
    decreases fs.len(),
{
    reveal_strlit("\r\n");
    assert("\r\n"@ =~= seq!['\r', '\n']);
    if fs.len() == 0 {
        assert(crlf_lines(Seq::<char>::empty()) == seq![Seq::<char>::empty()]);
        assert(fs.map_values(|f: HeaderView| line_text(f)).push(Seq::empty()) =~= seq![
            Seq::<char>::empty(),
        ]);
    } else {
        let dl = fs.drop_last();
        assert forall|i: int| 0 <= i < dl.len() implies !line_text(#[trigger] dl[i]).contains('\n') by {
            assert(dl[i] == fs[i]);
        }
        lemma_crlf_of_lines(dl);
        let l = line_text(fs.last());
        assert(fs[fs.len() - 1] == fs.last());
        lemma_crlf_append(lines_text(dl), l);
        lemma_crlf_push_end(lines_text(dl) + l);
        let prev = dl.map_values(|f: HeaderView| line_text(f)).push(Seq::empty());
        assert(prev.last() + l =~= l);
        assert(lines_text(fs) =~= lines_text(dl) + l + seq!['\r', '\n']);
        assert(crlf_lines(lines_text(fs)) =~= fs.map_values(|f: HeaderView| line_text(f)).push(
            Seq::empty(),
        ));
    }
}

/// The collection that the first `j` of the fields of `hv` (known ones, then unknown ones)
/// make.
pub open spec fn prefix_view(hv: HeadersView, j: int) -> HeadersView {
    if j <= hv.known.len() {
        HeadersView { known: hv.known.subrange(0, j), extra: Seq::empty() }
    } else {
        HeadersView { known: hv.known, extra: hv.extra.subrange(0, j - hv.known.len()) }
    }
}

proof fn lemma_fold(hv: HeadersView, j: int)
    requires
        hv.wf(),
        forall|i: int| 0 <= i < (hv.known + hv.extra).len() ==> reads_back(
            #[trigger] (hv.known + hv.extra)[i],
        ),
        0 <= j <= (hv.known + hv.extra).len(),
    ensures
        headers_of_lines(
            (hv.known + hv.extra).map_values(|f: HeaderView| line_text(f)).subrange(0, j),
        ) == Ok::<HeadersView, ()>(prefix_view(hv, j)),
    decreases j,
{
    let all = hv.known + hv.extra;
    let ls = all.map_values(|f: HeaderView| line_text(f));
    let kn = hv.known.len() as int;
    if j == 0 {
        assert(ls.subrange(0, 0) =~= Seq::<Seq<char>>::empty());
        assert(prefix_view(hv, 0).known =~= Seq::<HeaderView>::empty());
        assert(prefix_view(hv, 0) == HeadersView::empty());
    } else {
        lemma_fold(hv, j - 1);
        assert(ls.subrange(0, j).drop_last() =~= ls.subrange(0, j - 1));
        assert(ls.subrange(0, j).last() == line_text(all[j - 1]));
        let f = all[j - 1];
        lemma_line_round_trip(f);
        let pv = prefix_view(hv, j - 1);
        if j - 1 < kn {
            assert(f == hv.known[j - 1]);
            assert(kind(f) != HeaderVariant::Generic);
            assert(!pv.has(kind(f))) by {
                if pv.has(kind(f)) {
                    let k = choose|k: int| 0 <= k < pv.known.len() && kind(#[trigger] pv.known[k])
                        == kind(f);
                    assert(pv.known[k] == hv.known[k]);
                }
            }
            assert(pv.add_parsed(f) == Ok::<HeadersView, ()>(pv.with(f)));
            assert(pv.with(f).known =~= hv.known.subrange(0, j));
            assert(pv.with(f) == prefix_view(hv, j));
        } else {
            assert(f == hv.extra[j - 1 - kn]);
            assert(kind(f) == HeaderVariant::Generic);
            if j - 1 == kn {
                assert(hv.known.subrange(0, kn) =~= hv.known);
                assert(hv.extra.subrange(0, 0) =~= Seq::<HeaderView>::empty());
            }
            assert(pv.with(f).extra =~= hv.extra.subrange(0, j - kn));
            assert(pv.with(f) == prefix_view(hv, j));
        }
    }
}

/// A well-formed collection of cleanly written fields, whose last written field does not end
/// in whitespace, reads back from its header block as the same collection: the same known
/// fields in the same order, and the same unknown fields in the same order.
pub proof fn lemma_headers_round_trip(hv: HeadersView)
    requires
        hv.wf(),
        forall|i: int| 0 <= i < hv.known.len() ==> writes_cleanly(#[trigger] hv.known[i]),
        forall|i: int| 0 <= i < hv.extra.len() ==> writes_cleanly(#[trigger] hv.extra[i]),
        hv.extra.len() > 0 ==> ends_solid(hv.extra.last()),
        hv.extra.len() == 0 && hv.known.len() > 0 ==> ends_solid(hv.known.last()),
    ensures
        headers_of_text(hv.text()) == Ok::<HeadersView, ()>(hv),
{
    let all = hv.known + hv.extra;
    let kn = hv.known.len() as int;
    assert forall|i: int| 0 <= i < all.len() implies writes_cleanly(#[trigger] all[i]) by {
        if i < kn {
            assert(all[i] == hv.known[i]);
        } else {
            assert(all[i] == hv.extra[i - kn]);
        }
    }
    lemma_lines_text_concat(hv.known, hv.extra);
    reveal_strlit("\r\n");
    assert("\r\n"@ =~= seq!['\r', '\n']);
    let text = hv.text();
    assert(text =~= lines_text(all) + seq!['\r', '\n']);
    if all.len() == 0 {
        assert(hv.known.len() == 0 && hv.extra.len() == 0);
        assert(lines_text(all) =~= Seq::<char>::empty());
        lemma_trim_end_crlf();
        assert(hv.known =~= Seq::<HeaderView>::empty());
        assert(hv.extra =~= Seq::<HeaderView>::empty());
    } else {
        let dl = all.drop_last();
        let l = line_text(all.last());
        assert(all[all.len() - 1] == all.last());
        assert(ends_solid(all.last())) by {
            if hv.extra.len() > 0 {
                assert(all.last() == hv.extra.last());
            } else {
                assert(all.last() == hv.known.last());
            }
        }
        let x = lines_text(dl) + l;
        assert(text =~= x + seq!['\r', '\n', '\r', '\n']);
        let v = value_text(all.last());
        assert(x.last() == v.last()) by {
            assert(l =~= name_text(all.last()) + ": "@ + v);
            assert(x[x.len() - 1] == l[l.len() - 1]);
        }
        let w = seq!['\r', '\n', '\r', '\n'];
        assert forall|i: int| 0 <= i < w.len() implies is_ws(#[trigger] w[i]) by {}
        lemma_trim_end_appended_ws(x, w);
        assert forall|i: int| 0 <= i < dl.len() implies !line_text(#[trigger] dl[i]).contains('\n') by {
            assert(dl[i] == all[i]);
        }
        lemma_crlf_of_lines(dl);
        lemma_crlf_append(lines_text(dl), l);
        let ls = all.map_values(|f: HeaderView| line_text(f));
        let prev = dl.map_values(|f: HeaderView| line_text(f)).push(Seq::empty());
        assert(prev.last() + l =~= l);
        assert(crlf_lines(x) =~= ls);
        assert forall|i: int| 0 <= i < all.len() implies reads_back(#[trigger] all[i]) by {}
        lemma_fold(hv, all.len() as int);
        assert(ls.subrange(0, all.len() as int) =~= ls);
        assert(hv.extra.subrange(0, all.len() - kn) =~= hv.extra);
        if hv.extra.len() == 0 {
            assert(hv.known.subrange(0, kn) =~= hv.known);
            assert(hv.extra =~= Seq::<HeaderView>::empty());
        }
    }
}

proof fn lemma_trim_end_crlf()
    ensures
        trim_end(seq!['\r', '\n']).len() == 0,
{
    let s = seq!['\r', '\n'];
    let r = seq!['\r'];
    assert(is_ws('\n') && is_ws('\r'));
    assert(s.drop_last() =~= r);
    assert(r.drop_last() =~= Seq::<char>::empty());
    assert(trim_end(Seq::<char>::empty()) == Seq::<char>::empty());
    assert(trim_end(r) == trim_end(r.drop_last()));
    assert(trim_end(s) == trim_end(s.drop_last()));
}

proof fn lemma_two_line_block(l1: Seq<char>, l2: Seq<char>)
    requires
        !l1.contains('\n'),
        !l2.contains('\n'),
        l2.len() > 0,
        !is_ws(l2.last()),
    ensures
        headers_of_text(l1 + "\r\n"@ + l2) == headers_of_lines(seq![l1, l2]),
{
    reveal_strlit("\r\n");
    assert("\r\n"@ =~= seq!['\r', '\n']);
    let text = l1 + seq!['\r', '\n'] + l2;
    assert(l1 + "\r\n"@ + l2 =~= text);
    assert(text.last() == l2.last());
    lemma_trim_end_appended_ws(text, Seq::empty());
    assert(text + Seq::<char>::empty() =~= text);
    let e = Seq::<char>::empty();
    lemma_crlf_append(e, l1);
    assert(e + l1 =~= l1);
    assert(crlf_lines(e) == seq![e]);
    assert(seq![e].update(0, e + l1) =~= seq![l1]);
    lemma_crlf_push_end(l1);
    lemma_crlf_append(l1 + seq!['\r', '\n'], l2);
    assert(seq![l1].push(e).update(1, e + l2) =~= seq![l1, l2]);
}

/// Two `Accept-Encoding` lines, in either order, read as a header block holding a single
/// `Accept-Encoding` field whose codings are those of either line, each once; both orders give
/// the same set of codings. (Each line is one line, and the last does not end in whitespace.)
pub proof fn lemma_accept_encoding_block_merge(
    l1: Seq<char>,
    l2: Seq<char>,
    a: Seq<ContentEncoding>,
    b: Seq<ContentEncoding>,
)
    requires
        header_of_line(l1) == Ok::<HeaderView, ()>(HeaderView::AcceptEncoding(a)),
        header_of_line(l2) == Ok::<HeaderView, ()>(HeaderView::AcceptEncoding(b)),
        !l1.contains('\n'),
        !l2.contains('\n'),
        l1.len() > 0 && !is_ws(l1.last()),
        l2.len() > 0 && !is_ws(l2.last()),
    ensures
        headers_of_text(l1 + "\r\n"@ + l2) == Ok::<HeadersView, ()>(
            HeadersView {
                known: seq![HeaderView::AcceptEncoding(dedup(a + b))],
                extra: Seq::empty(),
            },
        ),
        headers_of_text(l2 + "\r\n"@ + l1) == Ok::<HeadersView, ()>(
            HeadersView {
                known: seq![HeaderView::AcceptEncoding(dedup(b + a))],
                extra: Seq::empty(),
            },
        ),
        dedup(a + b).to_set() == a.to_set() + b.to_set(),
        dedup(a + b).to_set() == dedup(b + a).to_set(),
        dedup(a + b).no_duplicates(),
        dedup(b + a).no_duplicates(),
{
    lemma_two_line_block(l1, l2);
    lemma_two_line_block(l2, l1);
    lemma_two_accept_encoding_lines(l1, l2, a, b);
    lemma_two_accept_encoding_lines(l2, l1, b, a);
    lemma_merge_accept_encoding(a, b);
}

} // verus!
