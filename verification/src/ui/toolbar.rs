//! Decisions of the toolbar's bookmark dialog.
use vstd::prelude::*;

use crate::browser::bookmarks::Bookmark;
use crate::browser::history::{is_web_address, is_web_url};
use crate::text::{chars_of, string_of, trim, trim_ws};

verus! {

/// The address the bookmark dialog saves for the text typed in its address
/// field: the trimmed text when it is an `http://` or `https://` address;
/// nothing, and the field is marked wrong, otherwise.
pub open spec fn dialog_target_of(text: Seq<char>) -> Option<Seq<char>> {
    if is_web_address(trim_ws(text)) {
        Some(trim_ws(text))
    } else {
        None
    }
}

/// The address the bookmark dialog saves for the text typed in its
/// address field, if it is one it accepts.
pub fn bookmark_target(text: &str) -> (r: Option<String>)
    ensures
        match r {
            Some(t) => dialog_target_of(text@) == Some(t@),
            None => dialog_target_of(text@) is None,
        },
{
    let t = string_of(&trim(&chars_of(text)));
    if is_web_url(t.as_str()) {
        Some(t)
    } else {
        None
    }
}

/// The title and address the bookmark dialog opens with: those of the
/// bookmark being edited, else those of the page shown.
pub fn dialog_fields(existing: &Option<Bookmark>, current_title: String, current_url: String) -> (r: (
    String,
    String,
))
    ensures
        match existing {
            Some(b) => r.0@ == b.title@ && r.1@ == b.url@,
            None => r.0@ == current_title@ && r.1@ == current_url@,
        },
{
    match existing {
        Some(b) => (b.title.clone(), b.url.clone()),
        None => (current_title, current_url),
    }
}

} // verus!
