//! The internal `axys://` pages: which page an address shows and the title
//! of its tab.
use vstd::prelude::*;

use crate::text::{chars_of, same_chars};

verus! {

/// The name of the internal page that `uri` shows, if it is one.
pub open spec fn page_name_of(uri: Seq<char>) -> Option<Seq<char>> {
    if uri == "axys://"@ || uri == "axys://newtab"@ {
        Some("newtab"@)
    } else if uri == "axys://welcome"@ {
        Some("welcome"@)
    } else if uri == "axys://privacy"@ {
        Some("privacy"@)
    } else if uri == "axys://about"@ {
        Some("about"@)
    } else if uri == "axys://settings"@ {
        Some("settings"@)
    } else if uri == "axys://tools"@ {
        Some("tools"@)
    } else if uri == "axys://downloads"@ {
        Some("downloads"@)
    } else {
        None
    }
}

/// The tab title of the internal page at `uri`; "New Tab" for any other
/// address.
pub open spec fn page_title_of(uri: Seq<char>) -> Seq<char> {
    if uri == "axys://welcome"@ {
        "Welcome"@
    } else if uri == "axys://privacy"@ {
        "Privacy"@
    } else if uri == "axys://about"@ {
        "About axysBrowser"@
    } else if uri == "axys://settings"@ {
        "Settings"@
    } else if uri == "axys://tools"@ {
        "Tools"@
    } else if uri == "axys://downloads"@ {
        "Downloads"@
    } else {
        "New Tab"@
    }
}

fn is(u: &Vec<char>, literal: &str) -> (b: bool)
    ensures
        b == (u@ == literal@),
{
    same_chars(u, &chars_of(literal))
}

/// The name of the internal page that `uri` shows, if it is one.
pub fn page_name(uri: &str) -> (r: Option<&'static str>)
    ensures
        match r {
            Some(p) => page_name_of(uri@) == Some(p@),
            None => page_name_of(uri@) is None,
        },
{
    let u = chars_of(uri);
    if is(&u, "axys://") || is(&u, "axys://newtab") {
        Some("newtab")
    } else if is(&u, "axys://welcome") {
        Some("welcome")
    } else if is(&u, "axys://privacy") {
        Some("privacy")
    } else if is(&u, "axys://about") {
        Some("about")
    } else if is(&u, "axys://settings") {
        Some("settings")
    } else if is(&u, "axys://tools") {
        Some("tools")
    } else if is(&u, "axys://downloads") {
        Some("downloads")
    } else {
        None
    }
}

/// The tab title of the internal page at `uri`, used because these pages
/// are not loaded in a web view and never report a title of their own.
pub fn page_title(uri: &str) -> (r: &'static str)
    ensures
        r@ == page_title_of(uri@),
{
    let u = chars_of(uri);
    if is(&u, "axys://welcome") {
        "Welcome"
    } else if is(&u, "axys://privacy") {
        "Privacy"
    } else if is(&u, "axys://about") {
        "About axysBrowser"
    } else if is(&u, "axys://settings") {
        "Settings"
    } else if is(&u, "axys://tools") {
        "Tools"
    } else if is(&u, "axys://downloads") {
        "Downloads"
    } else {
        "New Tab"
    }
}

/// Every internal page is reached by its address: `axys://` followed by
/// the page's name (and bare `axys://` for the new-tab page). A page name
/// is only ever given for such an address, and every address that has a
/// page title of its own names a page.
pub proof fn law_pages_named_by_address(uri: Seq<char>)
    ensures
        page_name_of("axys://newtab"@) == Some("newtab"@),
        page_name_of("axys://welcome"@) == Some("welcome"@),
        page_name_of("axys://privacy"@) == Some("privacy"@),
        page_name_of("axys://about"@) == Some("about"@),
        page_name_of("axys://settings"@) == Some("settings"@),
        page_name_of("axys://tools"@) == Some("tools"@),
        page_name_of("axys://downloads"@) == Some("downloads"@),
        page_name_of("axys://"@) == Some("newtab"@),
        page_title_of(uri) != "New Tab"@ ==> page_name_of(uri) is Some,
        page_name_of(uri) matches Some(p) ==> (uri == "axys://"@ + p || (uri == "axys://"@ && p
            == "newtab"@)),
{
    reveal_strlit("axys://newtab");
    reveal_strlit("newtab");
    reveal_strlit("axys://welcome");
    reveal_strlit("welcome");
    reveal_strlit("axys://privacy");
    reveal_strlit("privacy");
    reveal_strlit("axys://about");
    reveal_strlit("about");
    reveal_strlit("axys://settings");
    reveal_strlit("settings");
    reveal_strlit("axys://tools");
    reveal_strlit("tools");
    reveal_strlit("axys://downloads");
    reveal_strlit("downloads");
    reveal_strlit("axys://");
    reveal_strlit("New Tab");
    reveal_strlit("Welcome");
    reveal_strlit("Privacy");
    reveal_strlit("About axysBrowser");
    reveal_strlit("Settings");
    reveal_strlit("Tools");
    reveal_strlit("Downloads");
    assert("axys://welcome"@[7] != "axys://privacy"@[7]);
    assert("axys://about"@[7] != "axys://tools"@[7]);
    assert("Welcome"@[0] != "New Tab"@[0]);
    assert("Privacy"@[0] != "New Tab"@[0]);
    assert("axys://"@ + "newtab"@ =~= "axys://newtab"@);
    assert("axys://"@ + "welcome"@ =~= "axys://welcome"@);
    assert("axys://"@ + "privacy"@ =~= "axys://privacy"@);
    assert("axys://"@ + "about"@ =~= "axys://about"@);
    assert("axys://"@ + "settings"@ =~= "axys://settings"@);
    assert("axys://"@ + "tools"@ =~= "axys://tools"@);
    assert("axys://"@ + "downloads"@ =~= "axys://downloads"@);
}

} // verus!
