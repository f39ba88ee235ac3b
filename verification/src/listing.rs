//! Directory listings: the entry shown for each document or asset of
//! a directory page.

use vstd::prelude::*;

use crate::frontmatter::{fm_lookup, Frontmatter};
use crate::text::{chars_string, push_all, str_chars};
use crate::utils::{dec_of, push_dec, push_sanitized, sanitize_spec};

verus! {

/// One entry of a directory listing.
pub struct ListingItem {
    pub name: String,
    pub url: String,
    pub date: String,
    pub description: Option<String>,
}

impl View for ListingItem {
    type V = (Seq<char>, Seq<char>, Seq<char>, Option<Seq<char>>);

    open spec fn view(&self) -> (Seq<char>, Seq<char>, Seq<char>, Option<Seq<char>>) {
        (self.name@, self.url@, self.date@, self.description.deep_view())
    }
}

/// The string recorded under `key`, or empty when absent or not a
/// string.
pub open spec fn fm_str_or_empty(
    fm: Seq<(Option<Seq<char>>, Option<Seq<char>>)>,
    key: Seq<char>,
) -> Seq<char> {
    match fm_lookup(fm, key) {
        Some(Some(v)) => v,
        _ => Seq::empty(),
    }
}

/// The listing entry of a document: its frontmatter title and date,
/// its canonical URL, and its optional description.
pub fn document_listing_item(rel_path_no_ext: &str, fm: &Frontmatter) -> (r: ListingItem)
    ensures
        r.name@ == fm_str_or_empty(fm@, "title"@),
        r.url@ == "/"@ + rel_path_no_ext@,
        r.date@ == fm_str_or_empty(fm@, "date"@),
        r.description.deep_view() == match fm_lookup(fm@, "description"@) {
            Some(Some(v)) => Some(v),
            _ => None::<Seq<char>>,
        },
{
    proof {
        reveal_strlit("/");
    }
    let name = match fm.get_str("title") {
        Some(v) => v,
        None => String::new(),
    };
    let date = match fm.get_str("date") {
        Some(v) => v,
        None => String::new(),
    };
    let description = fm.get_str("description");
    let mut url: Vec<char> = Vec::new();
    url.push('/');
    proof {
        assert(url@ =~= "/"@);
    }
    let rv = str_chars(rel_path_no_ext);
    push_all(&mut url, &rv);
    ListingItem { name, url: chars_string(&url), date, description }
}

/// The listing entry of a plain file: its name, its sanitized
/// `/static/` URL, and its modification time in seconds.
pub fn asset_listing_item(rel_path: &str, file_name: &str, modified_secs: usize) -> (r:
    ListingItem)
    ensures
        r.name@ == file_name@,
        r.url@ == "/static/"@ + sanitize_spec(rel_path@),
        r.date@ == dec_of(modified_secs as int),
        r.description is None,
{
    proof {
        reveal_strlit("/static/");
    }
    let mut url = str_chars("/static/");
    let rv = str_chars(rel_path);
    push_sanitized(&mut url, &rv);
    let mut date: Vec<char> = Vec::new();
    push_dec(&mut date, modified_secs);
    ListingItem {
        name: file_name.to_owned(),
        url: chars_string(&url),
        date: chars_string(&date),
        description: None,
    }
}

} // verus!
