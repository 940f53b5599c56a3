//! The choices offered on the settings page and the settings they stand for.
use vstd::prelude::*;

use crate::text::{chars_of, same_chars};

verus! {

/// The position of an engine in the search-engine list: Brave Search,
/// DuckDuckGo, Google, Bing; an unknown engine shows as Brave Search.
pub open spec fn engine_index_of(name: Seq<char>) -> u32 {
    if name == "duckduckgo"@ {
        1
    } else if name == "google"@ {
        2
    } else if name == "bing"@ {
        3
    } else {
        0
    }
}

/// The engine at a position of the search-engine list; Brave Search for
/// any position past the list.
pub open spec fn engine_at_index(index: u32) -> Seq<char> {
    if index == 1 {
        "duckduckgo"@
    } else if index == 2 {
        "google"@
    } else if index == 3 {
        "bing"@
    } else {
        "brave"@
    }
}

/// The position of the engine `name` in the search-engine list.
pub fn search_engine_index(name: &str) -> (i: u32)
    ensures
        i == engine_index_of(name@),
{
    let n = chars_of(name);
    if same_chars(&n, &chars_of("duckduckgo")) {
        1
    } else if same_chars(&n, &chars_of("google")) {
        2
    } else if same_chars(&n, &chars_of("bing")) {
        3
    } else {
        0
    }
}

/// The engine chosen at position `index` of the search-engine list.
pub fn search_engine_at(index: u32) -> (name: &'static str)
    ensures
        name@ == engine_at_index(index),
{
    if index == 1 {
        "duckduckgo"
    } else if index == 2 {
        "google"
    } else if index == 3 {
        "bing"
    } else {
        "brave"
    }
}

/// The position of the theme in the appearance list: Dark, then Light.
pub fn appearance_index(dark: bool) -> (i: u32)
    ensures
        i == (if dark {
            0u32
        } else {
            1u32
        }),
{
    if dark {
        0
    } else {
        1
    }
}

/// Whether the choice at `index` of the appearance list is the dark theme.
pub fn is_dark_choice(index: u32) -> (dark: bool)
    ensures
        dark == (index == 0),
{
    index == 0
}

/// Each position of the search-engine list shows the engine chosen there.
pub proof fn law_engine_choice_round_trip(index: u32)
    requires
        index < 4,
    ensures
        engine_index_of(engine_at_index(index)) == index,
{
    reveal_strlit("duckduckgo");
    reveal_strlit("google");
    reveal_strlit("bing");
    reveal_strlit("brave");
    assert("duckduckgo"@.len() == 10);
    assert("google"@.len() == 6);
    assert("bing"@.len() == 4);
    assert("brave"@.len() == 5);
}

} // verus!
