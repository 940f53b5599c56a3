//! Bookmarks: saved pages with their titles and cached icons, and the rules
//! for adding, editing and removing them.
use vstd::prelude::*;

use crate::browser::history::{is_web_address, is_web_url, sanitize_title, titled};
use crate::text::{chars_of, push_all, string_of};

verus! {

/// What a [`Bookmark`] stands for.
pub struct BookmarkView {
    pub title: Seq<char>,
    pub url: Seq<char>,
    pub favicon_path: Option<Seq<char>>,
}

/// A saved page: its title, its address and where its icon is cached.
#[derive(Debug, PartialEq, Eq)]
pub struct Bookmark {
    pub title: String,
    pub url: String,
    pub favicon_path: Option<String>,
}

/// The view of an optional string.
pub open spec fn opt_view(o: Option<String>) -> Option<Seq<char>> {
    match o {
        Some(s) => Some(s@),
        None => None,
    }
}

fn clone_opt(o: &Option<String>) -> (r: Option<String>)
    ensures
        opt_view(r) == opt_view(*o),
{
    match o {
        Some(s) => Some(s.clone()),
        None => None,
    }
}

impl View for Bookmark {
    type V = BookmarkView;

    open spec fn view(&self) -> BookmarkView {
        BookmarkView { title: self.title@, url: self.url@, favicon_path: opt_view(self.favicon_path) }
    }
}

impl Clone for Bookmark {
    fn clone(&self) -> (r: Self)
        ensures
            r@ == self@,
    {
        Bookmark {
            title: self.title.clone(),
            url: self.url.clone(),
            favicon_path: clone_opt(&self.favicon_path),
        }
    }
}

/// The views of a list of bookmarks.
pub open spec fn bookmark_views(s: Seq<Bookmark>) -> Seq<BookmarkView> {
    s.map_values(|b: Bookmark| b@)
}

/// Some bookmark in `s` has the address `url`.
pub open spec fn has_url(s: Seq<BookmarkView>, url: Seq<char>) -> bool {
    exists|i: int| 0 <= i < s.len() && s[i].url == url
}

/// `i` is the first position in `s` of a bookmark for `url`.
pub open spec fn first_with_url(s: Seq<BookmarkView>, url: Seq<char>, i: int) -> bool {
    &&& 0 <= i < s.len()
    &&& s[i].url == url
    &&& forall|j: int| 0 <= j < i ==> s[j].url != url
}

/// `s` without the bookmarks for `url`, order kept.
pub open spec fn without_bookmark(s: Seq<BookmarkView>, url: Seq<char>) -> Seq<BookmarkView>
    decreases s.len(),
{
    if s.len() == 0 {
        Seq::empty()
    } else if s.last().url == url {
        without_bookmark(s.drop_last(), url)
    } else {
        without_bookmark(s.drop_last(), url).push(s.last())
    }
}

/// The bookmark that an edit of `b` leaves: the new title (or the new
/// address when the title is blank), the new address, and the new icon
/// when one is given, else the old one.
pub open spec fn edited(
    b: BookmarkView,
    title: Seq<char>,
    url: Seq<char>,
    favicon_path: Option<Seq<char>>,
) -> BookmarkView {
    BookmarkView {
        title: titled(title, url),
        url,
        favicon_path: if favicon_path is Some {
            favicon_path
        } else {
            b.favicon_path
        },
    }
}

/// Whether `url` can be bookmarked: only `http://` and `https://`
/// addresses can.
pub fn is_bookmarkable_url(url: &str) -> (b: bool)
    ensures
        b == is_web_address(url@),
{
    is_web_url(url)
}

/// The first position in `s` of a bookmark for `url`, if there is one.
fn find_url(s: &Vec<Bookmark>, url: &str) -> (r: Option<usize>)
    ensures
        match r {
            Some(i) => first_with_url(bookmark_views(s@), url@, i as int),
            None => !has_url(bookmark_views(s@), url@),
        },
{
    let key: String = url.to_owned();
    let mut i: usize = 0;
    while i < s.len()
        invariant
            i <= s.len(),
            key@ == url@,
            forall|j: int| 0 <= j < i ==> s@[j].url@ != url@,
        decreases s.len() - i,
    {
        if s[i].url == key {
            return Some(i);
        }
        i = i + 1;
    }
    None
}

/// The saved bookmarks, in the order they were added.
pub struct BookmarkManager {
    bookmarks: Vec<Bookmark>,
}

impl View for BookmarkManager {
    type V = Seq<BookmarkView>;

    closed spec fn view(&self) -> Seq<BookmarkView> {
        bookmark_views(self.bookmarks@)
    }
}

impl BookmarkManager {
    /// The manager holding the bookmarks read from storage.
    pub fn load(bookmarks: Vec<Bookmark>) -> (m: Self)
        ensures
            m@ == bookmark_views(bookmarks@),
    {
        BookmarkManager { bookmarks }
    }

    /// All bookmarks, in order.
    pub fn entries(&self) -> (r: Vec<Bookmark>)
        ensures
            bookmark_views(r@) == self@,
    {
        let mut r: Vec<Bookmark> = Vec::new();
        let mut i: usize = 0;
        while i < self.bookmarks.len()
            invariant
                i <= self.bookmarks.len(),
                r@.len() == i,
                forall|k: int| 0 <= k < i ==> #[trigger] r@[k]@ == self.bookmarks@[k]@,
            decreases self.bookmarks.len() - i,
        {
            r.push(self.bookmarks[i].clone());
            i = i + 1;
        }
        assert(bookmark_views(r@) =~= self@);
        r
    }

    /// The first bookmark for `url`, if there is one.
    pub fn get(&self, url: &str) -> (r: Option<Bookmark>)
        ensures
            match r {
                Some(b) => exists|i: int| first_with_url(self@, url@, i) && b@ == self@[i],
                None => !has_url(self@, url@),
            },
    {
        match find_url(&self.bookmarks, url) {
            Some(i) => {
                let b = self.bookmarks[i].clone();
                assert(first_with_url(self@, url@, i as int) && b@ == self@[i as int]);
                Some(b)
            },
            None => None,
        }
    }

    /// Whether some bookmark is for `url`.
    pub fn contains(&self, url: &str) -> (b: bool)
        ensures
            b == has_url(self@, url@),
    {
        find_url(&self.bookmarks, url).is_some()
    }

    /// Bookmarks `url` under `title` (or under the address when the title
    /// is blank) with the given cached icon. Refused, with nothing changed,
    /// for an address that is not `http://` or `https://` and for one that
    /// is already bookmarked. Gives whether the bookmark was added.
    pub fn add_with_favicon(&mut self, title: String, url: String, favicon_path: Option<String>) -> (added: bool)
        ensures
            added == (is_web_address(url@) && !has_url(old(self)@, url@)),
            added ==> final(self)@ == old(self)@.push(
                BookmarkView {
                    title: titled(title@, url@),
                    url: url@,
                    favicon_path: opt_view(favicon_path),
                },
            ),
            !added ==> final(self)@ == old(self)@,
    {
        if !is_bookmarkable_url(url.as_str()) {
            return false;
        }
        if find_url(&self.bookmarks, url.as_str()).is_some() {
            return false;
        }
        let title = sanitize_title(title.as_str(), url.as_str());
        let ghost before = self@;
        let b = Bookmark { title, url, favicon_path };
        let ghost added = b@;
        self.bookmarks.push(b);
        assert(self@ =~= before.push(added));
        true
    }

    /// Edits the first bookmark for `old_url`: new title (or the new address
    /// when the title is blank), new address, and the new icon when one is
    /// given. Refused, with nothing changed, when the new address is not
    /// `http://` or `https://`, when it differs from `old_url` and is
    /// already bookmarked, and when nothing is bookmarked for `old_url`.
    /// Gives whether the bookmark was edited.
    pub fn update_with_favicon(
        &mut self,
        old_url: &str,
        title: String,
        new_url: String,
        favicon_path: Option<String>,
    ) -> (updated: bool)
        ensures
            updated == (is_web_address(new_url@) && (old_url@ == new_url@ || !has_url(
                old(self)@,
                new_url@,
            )) && has_url(old(self)@, old_url@)),
            updated ==> exists|i: int|
                first_with_url(old(self)@, old_url@, i) && final(self)@ == old(self)@.update(
                    i,
                    edited(old(self)@[i], title@, new_url@, opt_view(favicon_path)),
                ),
            !updated ==> final(self)@ == old(self)@,
    {
        if !is_bookmarkable_url(new_url.as_str()) {
            return false;
        }
        let same = old_url.to_owned() == new_url;
        if !same && find_url(&self.bookmarks, new_url.as_str()).is_some() {
            return false;
        }
        let i = match find_url(&self.bookmarks, old_url) {
            Some(i) => i,
            None => {
                return false;
            },
        };
        let title = sanitize_title(title.as_str(), new_url.as_str());
        let favicon = match favicon_path {
            Some(p) => Some(p),
            None => clone_opt(&self.bookmarks[i].favicon_path),
        };
        let ghost before = self@;
        let b = Bookmark { title, url: new_url, favicon_path: favicon };
        let ghost changed = b@;
        self.bookmarks.set(i, b);
        assert(self@ =~= before.update(i as int, changed));
        true
    }

    /// Removes every bookmark for `url`; gives whether there was one.
    pub fn remove(&mut self, url: &str) -> (removed: bool)
        ensures
            removed == has_url(old(self)@, url@),
            removed ==> final(self)@ == without_bookmark(old(self)@, url@),
            !removed ==> final(self)@ == old(self)@,
    {
        if find_url(&self.bookmarks, url).is_none() {
            return false;
        }
        let key: String = url.to_owned();
        let ghost s = self@;
        let n = self.bookmarks.len();
        let mut kept: Vec<Bookmark> = Vec::new();
        let mut i: usize = 0;
        assert(s.take(0) =~= Seq::<BookmarkView>::empty());
        while i < n
            invariant
                i <= n == self.bookmarks.len(),
                s == self@,
                key@ == url@,
                bookmark_views(kept@) == without_bookmark(s.take(i as int), url@),
            decreases n - i,
        {
            if self.bookmarks[i].url != key {
                kept.push(self.bookmarks[i].clone());
            }
            assert(s.take(i + 1).drop_last() =~= s.take(i as int));
            assert(bookmark_views(kept@) =~= without_bookmark(s.take(i + 1), url@));
            i = i + 1;
        }
        assert(s.take(n as int) =~= s);
        self.bookmarks = kept;
        true
    }
}

/// What `DefaultHasher::default()` gives for the string `url`. Every
/// `DefaultHasher` made by `new` or `default` hashes alike (std documents
/// this), so the value depends on `url` alone.
pub uninterp spec fn url_hash(url: Seq<char>) -> u64;

/// Hashes `url` with a `DefaultHasher` (`BuildHasher::hash_one`). The
/// contract only names the result: how the hash is computed is std's.
#[verifier::external_body]
fn hash_of_url(url: &str) -> (h: u64)
    ensures
        h == url_hash(url@),
{
    std::hash::BuildHasher::hash_one(&std::hash::BuildHasherDefault::<std::hash::DefaultHasher>::default(), url)
}

/// Lower-case hexadecimal digit for `d` in `0..16`.
pub open spec fn lower_hex_digit(d: int) -> char {
    if d < 10 {
        (48 + d) as char
    } else {
        (87 + d) as char
    }
}

/// The last `n` hexadecimal digits of `x`, most significant first.
pub open spec fn hex_digits(x: nat, n: nat) -> Seq<char>
    decreases n,
{
    if n == 0 {
        Seq::empty()
    } else {
        hex_digits(x / 16, (n - 1) as nat).push(lower_hex_digit((x % 16) as int))
    }
}

/// The name of the file that caches the icon of `url`: the 16 hexadecimal
/// digits of the address's hash, then `.png`.
pub open spec fn favicon_name_of(url: Seq<char>) -> Seq<char> {
    hex_digits(url_hash(url) as nat, 16) + ".png"@
}

/// The last `n` hexadecimal digits of `x`.
fn hex_of(x: u64, n: usize) -> (v: Vec<char>)
    requires
        n <= 16,
    ensures
        v@ == hex_digits(x as nat, n as nat),
    decreases n,
{
    if n == 0 {
        return Vec::new();
    }
    let mut v = hex_of(x / 16, n - 1);
    let d = (x % 16) as u8;
    let c = if d < 10 {
        (48 + d) as char
    } else {
        (87 + d) as char
    };
    v.push(c);
    v
}

/// The name of the icon file for an address whose hash is `hash`: the
/// hash in 16 lower-case hexadecimal digits, then `.png`, as
/// `format!("{:016x}.png", hash)` writes it.
pub fn favicon_file_name_for_hash(hash: u64) -> (name: String)
    ensures
        name@ == hex_digits(hash as nat, 16) + ".png"@,
{
    let mut v = hex_of(hash, 16);
    push_all(&mut v, &chars_of(".png"));
    string_of(&v)
}

/// The name of the file that caches the icon of `url`.
pub fn favicon_file_name(url: &str) -> (name: String)
    ensures
        name@ == favicon_name_of(url@),
{
    favicon_file_name_for_hash(hash_of_url(url))
}

/// No two bookmarks in `s` share an address.
pub open spec fn urls_distinct(s: Seq<BookmarkView>) -> bool {
    forall|i: int, j: int| 0 <= i < s.len() && 0 <= j < s.len() && i != j ==> s[i].url != s[j].url
}

/// A bookmark just added is found for its address, and is the one found.
pub proof fn law_added_is_found(s: Seq<BookmarkView>, b: BookmarkView)
    requires
        !has_url(s, b.url),
    ensures
        has_url(s.push(b), b.url),
        first_with_url(s.push(b), b.url, s.len() as int),
        s.push(b)[s.len() as int] == b,
{
    assert(s.push(b)[s.len() as int] == b);
}

/// Adding and editing keep addresses distinct: no address is ever
/// bookmarked twice by them.
pub proof fn law_addresses_stay_distinct(
    s: Seq<BookmarkView>,
    b: BookmarkView,
    i: int,
    old_url: Seq<char>,
    title: Seq<char>,
    new_url: Seq<char>,
    favicon_path: Option<Seq<char>>,
)
    requires
        urls_distinct(s),
    ensures
        !has_url(s, b.url) ==> urls_distinct(s.push(b)),
        first_with_url(s, old_url, i) && (old_url == new_url || !has_url(s, new_url))
            ==> urls_distinct(s.update(i, edited(s[i], title, new_url, favicon_path))),
{
    if !has_url(s, b.url) {
        assert forall|j: int, k: int|
            0 <= j < s.push(b).len() && 0 <= k < s.push(b).len() && j != k implies s.push(
            b,
        )[j].url != s.push(b)[k].url by {
            if j == s.len() {
                assert(s[k].url != b.url);
            } else if k == s.len() {
                assert(s[j].url != b.url);
            }
        }
    }
    if first_with_url(s, old_url, i) && (old_url == new_url || !has_url(s, new_url)) {
        let t = s.update(i, edited(s[i], title, new_url, favicon_path));
        assert forall|j: int, k: int|
            0 <= j < t.len() && 0 <= k < t.len() && j != k implies t[j].url != t[k].url by {
            if j == i {
                if old_url != new_url {
                    assert(s[k].url != new_url);
                }
            } else if k == i {
                if old_url != new_url {
                    assert(s[j].url != new_url);
                }
            }
        }
    }
}

/// Removing an address leaves no bookmark for it and keeps every other
/// bookmark.
pub proof fn law_removed_is_gone(s: Seq<BookmarkView>, url: Seq<char>)
    ensures
        !has_url(without_bookmark(s, url), url),
        forall|b: BookmarkView| s.contains(b) && b.url != url ==> without_bookmark(s, url).contains(b),
    decreases s.len(),
{
    if s.len() > 0 {
        law_removed_is_gone(s.drop_last(), url);
        let r = without_bookmark(s.drop_last(), url);
        if s.last().url != url {
            assert forall|j: int| 0 <= j < r.push(s.last()).len() implies r.push(s.last())[j].url
                != url by {
                if j < r.len() {
                    assert(!has_url(r, url));
                    assert(r[j].url != url);
                }
            }
        }
        assert forall|b: BookmarkView| s.contains(b) && b.url != url implies without_bookmark(
            s,
            url,
        ).contains(b) by {
            let k = choose|k: int| 0 <= k < s.len() && s[k] == b;
            if k < s.len() - 1 {
                assert(s.drop_last()[k] == b);
                assert(s.drop_last().contains(b));
                assert(r.contains(b));
                let j = choose|j: int| 0 <= j < r.len() && r[j] == b;
                if s.last().url != url {
                    assert(r.push(s.last())[j] == b);
                }
            } else {
                assert(r.push(s.last())[r.len() as int] == b);
            }
        }
    }
}

} // verus!
