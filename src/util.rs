//! HTML pages the server sends: error pages and directory listings.
use vstd::prelude::*;

use crate::http10::result_codes::{status_text, ResultCode};
use crate::text::{chars_of, join, slice_of, string_of};

verus! {

/// The last component of a path, as `std::path::Path::file_name` gives it.
pub uninterp spec fn file_name_of(p: Seq<char>) -> Option<Seq<char>>;

/// Relies on `std::path::Path::file_name`: the final component of the path, if it has one.
#[verifier::external_body]
fn path_file_name(p: &str) -> (r: Option<String>)
    ensures
        r matches Some(n) ==> file_name_of(p@) == Some(n@),
        r is None <==> file_name_of(p@) is None,
{
    std::path::Path::new(p).file_name().map(|n| n.to_string_lossy().into_owned())
}

/// The HTML error page for a status.
pub open spec fn error_page_text(err: ResultCode) -> Seq<char> {
    "<html>\n<head>\n<title>"@ + status_text(err) + "</title>\n</head>\n<body>\n<h1>"@
        + status_text(err) + "</h1>\n</body>\n</html>"@
}

/// The HTML error page for a status, naming its code and reason phrase.
pub fn error_page(err: ResultCode) -> (r: String)
    ensures
        r@ == error_page_text(err),
{
    let mut r = String::from_str("<html>\n<head>\n<title>");
    r.append(err.text());
    r.append("</title>\n</head>\n<body>\n<h1>");
    r.append(err.text());
    r.append("</h1>\n</body>\n</html>");
    r
}

/// The name shown for a listed path: its last component, or nothing where it has none.
pub open spec fn shown_name(p: Seq<char>) -> Seq<char> {
    match file_name_of(p) {
        Some(n) => n,
        None => Seq::empty(),
    }
}

/// One entry of a listing: a link to the path without its first character (the `.` of a
/// path under `./`), shown as `name`.
pub open spec fn entry_text(p: Seq<char>, name: Seq<char>) -> Seq<char> {
    "<li><a href='"@ + (if p.len() > 0 { p.drop_first() } else { p }) + "'>"@ + name
        + "</a></li>"@
}

/// The entry of a listing for a path, shown by its last component.
pub open spec fn listing_item(p: Seq<char>) -> Seq<char> {
    entry_text(p, shown_name(p))
}

/// One entry of a listing for `path`, shown as `name`.
pub fn listing_entry(path: &String, name: &String) -> (r: String)
    ensures
        r@ == entry_text(path@, name@),
{
    let pc = chars_of(path.as_str());
    let link = if pc.len() > 0 {
        slice_of(pc.as_slice(), 1, pc.len())
    } else {
        slice_of(pc.as_slice(), 0, 0)
    };
    assert(link@ =~= (if path@.len() > 0 { path@.drop_first() } else { path@ }));
    let link = string_of(&link);
    let mut r = String::from_str("<li><a href='");
    r.append(link.as_str());
    r.append("'>");
    r.append(name.as_str());
    r.append("</a></li>");
    r
}

/// The HTML listing of the given paths.
pub open spec fn listing_text(paths: Seq<Seq<char>>) -> Seq<char> {
    "<html>\n<head>\n<title>Directory Listing</title>\n</head>\n<body>\n<ul>\n<li><a href='../'>../</a></li>\n"@
        + join(paths.map_values(|p: Seq<char>| listing_item(p)), "\n"@)
        + "\n</ul>\n</body>\n</html>"@
}

/// The HTML listing of the given paths, a link to the parent first.
pub fn dir_listing(paths: Vec<String>) -> (r: String)
    ensures
        r@ == listing_text(paths@.map_values(|p: String| p@)),
{
    let ghost ps = paths@.map_values(|p: String| p@);
    let ghost items = ps.map_values(|p: Seq<char>| listing_item(p));
    let mut r = String::from_str(
        "<html>\n<head>\n<title>Directory Listing</title>\n</head>\n<body>\n<ul>\n<li><a href='../'>../</a></li>\n",
    );
    let ghost head = r@;
    let mut i: usize = 0;
    while i < paths.len()
        invariant
            i <= paths@.len(),
            ps == paths@.map_values(|p: String| p@),
            items == ps.map_values(|p: Seq<char>| listing_item(p)),
            r@ == head + join(items.subrange(0, i as int), "\n"@),
        decreases paths@.len() - i,
    {
        let ghost sub = items.subrange(0, i + 1);
        assert(sub.drop_last() =~= items.subrange(0, i as int));
        let ghost before = r@;
        if i > 0 {
            r.append("\n");
        }
        let p = &paths[i];
        let name = match path_file_name(p.as_str()) {
            Some(n) => n,
            None => String::new(),
        };
        let entry = listing_entry(p, &name);
        r.append(entry.as_str());
        proof {
            assert(items[i as int] == listing_item(p@));
            if i > 0 {
                assert(r@ =~= before + "\n"@ + listing_item(p@));
            } else {
                assert(r@ =~= before + listing_item(p@));
            }
        }
        i = i + 1;
        assert(r@ =~= head + join(items.subrange(0, i as int), "\n"@));
    }
    assert(items.subrange(0, items.len() as int) =~= items);
    r.append("\n</ul>\n</body>\n</html>");
    r
}

} // verus!
