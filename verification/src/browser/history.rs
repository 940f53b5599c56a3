//! Browsing history: the pages visited, oldest first, with the rules that
//! decide what is recorded, how it is searched and how much is kept.
use vstd::prelude::*;

use crate::text::{
    ascii_lower, chars_of, contains_seq, has_infix, has_prefix, starts_with, string_of,
    to_ascii_lower, trim, trim_ws,
};

verus! {

/// The most visits the history keeps; older ones are dropped first.
pub const MAX_HISTORY_ENTRIES: usize = 10000;

/// Whether `url` is an `http://` or `https://` address.
pub open spec fn is_web_address(url: Seq<char>) -> bool {
    has_prefix(url, "http://"@) || has_prefix(url, "https://"@)
}

/// The title to store: the trimmed title, or the address when the title
/// is blank.
pub open spec fn titled(title: Seq<char>, url: Seq<char>) -> Seq<char> {
    if trim_ws(title).len() == 0 {
        url
    } else {
        trim_ws(title)
    }
}

/// Whether `url` is an `http://` or `https://` address.
pub fn is_web_url(url: &str) -> (b: bool)
    ensures
        b == is_web_address(url@),
{
    let u = chars_of(url);
    starts_with(&u, &chars_of("http://")) || starts_with(&u, &chars_of("https://"))
}

/// The title to store for a page: trimmed, or the address when blank.
pub fn sanitize_title(title: &str, url: &str) -> (r: String)
    ensures
        r@ == titled(title@, url@),
{
    let t = trim(&chars_of(title));
    if t.len() == 0 {
        url.to_owned()
    } else {
        string_of(&t)
    }
}

/// What a [`HistoryEntry`] stands for.
pub struct HistoryEntryView {
    pub title: Seq<char>,
    pub url: Seq<char>,
    pub visited_at: u64,
}

/// One visit: the page's title and address and when it was visited, in
/// seconds since the Unix epoch.
#[derive(Debug, PartialEq, Eq)]
pub struct HistoryEntry {
    pub title: String,
    pub url: String,
    pub visited_at: u64,
}

impl View for HistoryEntry {
    type V = HistoryEntryView;

    open spec fn view(&self) -> HistoryEntryView {
        HistoryEntryView { title: self.title@, url: self.url@, visited_at: self.visited_at }
    }
}

impl Clone for HistoryEntry {
    fn clone(&self) -> (r: Self)
        ensures
            r@ == self@,
    {
        HistoryEntry { title: self.title.clone(), url: self.url.clone(), visited_at: self.visited_at }
    }
}

/// The views of a list of entries.
pub open spec fn entry_views(s: Seq<HistoryEntry>) -> Seq<HistoryEntryView> {
    s.map_values(|e: HistoryEntry| e@)
}

/// The newest `MAX_HISTORY_ENTRIES` of `s`.
pub open spec fn keep_newest(s: Seq<HistoryEntryView>) -> Seq<HistoryEntryView> {
    if s.len() > MAX_HISTORY_ENTRIES {
        s.skip(s.len() - MAX_HISTORY_ENTRIES)
    } else {
        s
    }
}

/// Whether a visit to `url` at `visited_at` repeats the newest entry: same
/// address, less than two seconds later (or earlier).
pub open spec fn repeats_last(s: Seq<HistoryEntryView>, url: Seq<char>, visited_at: u64) -> bool {
    s.len() > 0 && s.last().url == url && visited_at < s.last().visited_at + 2
}

/// Whether an entry matches a lower-case query, in its title or its
/// address, ignoring ASCII case.
pub open spec fn entry_matches(e: HistoryEntryView, q: Seq<char>) -> bool {
    has_infix(ascii_lower(e.title), q) || has_infix(ascii_lower(e.url), q)
}

/// The entries of `s` that match `q`, newest first.
pub open spec fn newest_first_matching(s: Seq<HistoryEntryView>, q: Seq<char>) -> Seq<
    HistoryEntryView,
>
    decreases s.len(),
{
    if s.len() == 0 {
        Seq::empty()
    } else {
        newest_first_matching(s.drop_first(), q) + (if entry_matches(s[0], q) {
            seq![s[0]]
        } else {
            Seq::empty()
        })
    }
}

/// What a search for `query` gives: everything newest first for a blank
/// query, else the entries matching the trimmed, lower-cased query.
pub open spec fn search_result(s: Seq<HistoryEntryView>, query: Seq<char>) -> Seq<HistoryEntryView> {
    let q = ascii_lower(trim_ws(query));
    if q.len() == 0 {
        s.reverse()
    } else {
        newest_first_matching(s, q)
    }
}

/// `s` without the entries for `url`, order kept.
pub open spec fn without_url(s: Seq<HistoryEntryView>, url: Seq<char>) -> Seq<HistoryEntryView>
    decreases s.len(),
{
    if s.len() == 0 {
        Seq::empty()
    } else if s.last().url == url {
        without_url(s.drop_last(), url)
    } else {
        without_url(s.drop_last(), url).push(s.last())
    }
}

proof fn lemma_without_url_len(s: Seq<HistoryEntryView>, url: Seq<char>)
    ensures
        without_url(s, url).len() <= s.len(),
        (forall|i: int| 0 <= i < s.len() ==> s[i].url != url) ==> without_url(s, url) == s,
        (exists|i: int| 0 <= i < s.len() && s[i].url == url) ==> without_url(s, url).len() < s.len(),
    decreases s.len(),
{
    if s.len() > 0 {
        lemma_without_url_len(s.drop_last(), url);
        if forall|i: int| 0 <= i < s.len() ==> s[i].url != url {
            assert forall|i: int| 0 <= i < s.drop_last().len() implies s.drop_last()[i].url
                != url by {
                assert(s.drop_last()[i] == s[i]);
            }
            assert(s.drop_last().push(s.last()) =~= s);
        }
        if exists|i: int| 0 <= i < s.len() && s[i].url == url {
            let i = choose|i: int| 0 <= i < s.len() && s[i].url == url;
            if i < s.len() - 1 {
                assert(s.drop_last()[i].url == url);
            }
        }
    } else {
        assert(s =~= Seq::<HistoryEntryView>::empty());
    }
}

/// The visits recorded, oldest first, never more than
/// `MAX_HISTORY_ENTRIES`.
pub struct HistoryManager {
    entries: Vec<HistoryEntry>,
}

impl View for HistoryManager {
    type V = Seq<HistoryEntryView>;

    closed spec fn view(&self) -> Seq<HistoryEntryView> {
        entry_views(self.entries@)
    }
}

impl HistoryManager {
    #[verifier::type_invariant]
    spec fn bounded(self) -> bool {
        self.entries.len() <= MAX_HISTORY_ENTRIES
    }

    /// The history holding the newest `MAX_HISTORY_ENTRIES` of the visits
    /// read from storage.
    pub fn load(entries: Vec<HistoryEntry>) -> (h: Self)
        ensures
            h@ == keep_newest(entry_views(entries@)),
            h@.len() <= MAX_HISTORY_ENTRIES,
    {
        let n = entries.len();
        if n <= MAX_HISTORY_ENTRIES {
            return HistoryManager { entries };
        }
        let start = n - MAX_HISTORY_ENTRIES;
        let mut kept: Vec<HistoryEntry> = Vec::new();
        let mut i = start;
        while i < n
            invariant
                start <= i <= n == entries.len(),
                start == n - MAX_HISTORY_ENTRIES,
                kept@.len() == i - start,
                forall|k: int| 0 <= k < i - start ==> #[trigger] kept@[k]@ == entries@[start + k]@,
            decreases n - i,
        {
            kept.push(entries[i].clone());
            i = i + 1;
        }
        assert(entry_views(kept@) =~= entry_views(entries@).subrange(start as int, n as int));
        assert(entry_views(entries@).subrange(start as int, n as int) =~= entry_views(
            entries@,
        ).skip(start as int));
        HistoryManager { entries: kept }
    }

    /// An empty history.
    pub fn new() -> (h: Self)
        ensures
            h@ == Seq::<HistoryEntryView>::empty(),
    {
        let h = HistoryManager { entries: Vec::new() };
        assert(h@ =~= Seq::<HistoryEntryView>::empty());
        h
    }

    /// Records a visit to `url` titled `title` at `visited_at` (seconds
    /// since the Unix epoch). Only web addresses are recorded, a visit that
    /// repeats the newest entry within two seconds is not, and the oldest
    /// visit is dropped when the history would grow past its bound. Gives
    /// whether the history changed.
    pub fn add_visit(&mut self, title: String, url: String, visited_at: u64) -> (changed: bool)
        ensures
            changed == (is_web_address(url@) && !repeats_last(old(self)@, url@, visited_at)),
            changed ==> final(self)@ == keep_newest(
                old(self)@.push(
                    HistoryEntryView { title: titled(title@, url@), url: url@, visited_at },
                ),
            ),
            !changed ==> final(self)@ == old(self)@,
            final(self)@.len() <= MAX_HISTORY_ENTRIES,
    {
        proof {
            use_type_invariant(&*self);
        }
        if !is_web_url(url.as_str()) {
            return false;
        }
        let n = self.entries.len();
        if n > 0 {
            let last = &self.entries[n - 1];
            if last.url == url && visited_at.saturating_sub(last.visited_at) < 2 {
                return false;
            }
        }
        let entry = HistoryEntry {
            title: sanitize_title(title.as_str(), url.as_str()),
            url,
            visited_at,
        };
        let ghost old_view = self@;
        let mut entries: Vec<HistoryEntry> = Vec::new();
        let mut i: usize = if n >= MAX_HISTORY_ENTRIES {
            1
        } else {
            0
        };
        let ghost start = i;
        while i < n
            invariant
                start <= i <= n == self.entries.len() <= MAX_HISTORY_ENTRIES,
                start == (if n >= MAX_HISTORY_ENTRIES {
                    1int
                } else {
                    0int
                }),
                entries@.len() == i - start,
                forall|k: int| 0 <= k < i - start ==> #[trigger] entries@[k]@ == self.entries@[start + k]@,
                old_view == entry_views(self.entries@),
            decreases n - i,
        {
            entries.push(self.entries[i].clone());
            i = i + 1;
        }
        assert(entry_views(entries@) =~= old_view.subrange(start as int, n as int));
        let ghost added = entry@;
        entries.push(entry);
        let ghost kept = entry_views(entries@);
        assert(kept =~= old_view.subrange(start as int, n as int).push(added));
        *self = HistoryManager { entries };
        assert(kept =~= keep_newest(old_view.push(added)));
        true
    }

    /// All visits, newest first.
    pub fn entries(&self) -> (r: Vec<HistoryEntry>)
        ensures
            entry_views(r@) == self@.reverse(),
            self@.len() <= MAX_HISTORY_ENTRIES,
    {
        proof {
            use_type_invariant(self);
        }
        let n = self.entries.len();
        let mut r: Vec<HistoryEntry> = Vec::new();
        let mut i = n;
        while i > 0
            invariant
                i <= n == self.entries.len(),
                r@.len() == n - i,
                forall|k: int| 0 <= k < n - i ==> #[trigger] r@[k]@ == self.entries@[n - 1 - k]@,
            decreases i,
        {
            i = i - 1;
            r.push(self.entries[i].clone());
        }
        assert(entry_views(r@) =~= self@.reverse());
        r
    }

    /// The visits matching `query` newest first: all of them for a blank
    /// query, else those whose title or address contains the trimmed query,
    /// ignoring ASCII case.
    pub fn search(&self, query: &str) -> (r: Vec<HistoryEntry>)
        ensures
            entry_views(r@) == search_result(self@, query@),
            self@.len() <= MAX_HISTORY_ENTRIES,
    {
        proof {
            use_type_invariant(self);
        }
        let q = to_ascii_lower(&trim(&chars_of(query)));
        if q.len() == 0 {
            return self.entries();
        }
        let n = self.entries.len();
        let ghost s = self@;
        let mut r: Vec<HistoryEntry> = Vec::new();
        let mut i = n;
        assert(s.subrange(n as int, n as int) =~= Seq::<HistoryEntryView>::empty());
        while i > 0
            invariant
                i <= n == self.entries.len(),
                s == self@,
                entry_views(r@) == newest_first_matching(s.subrange(i as int, n as int), q@),
            decreases i,
        {
            i = i - 1;
            let e = &self.entries[i];
            let title_hit = contains_seq(&to_ascii_lower(&chars_of(e.title.as_str())), &q);
            let hit = title_hit || contains_seq(&to_ascii_lower(&chars_of(e.url.as_str())), &q);
            let ghost before = entry_views(r@);
            if hit {
                r.push(e.clone());
            }
            proof {
                let sub = s.subrange(i as int, n as int);
                assert(sub.drop_first() =~= s.subrange(i + 1, n as int));
                assert(sub[0] == s[i as int]);
                assert(hit == entry_matches(s[i as int], q@));
                if hit {
                    assert(entry_views(r@) =~= before + seq![s[i as int]]);
                } else {
                    assert(entry_views(r@) =~= before + Seq::<HistoryEntryView>::empty());
                }
            }
        }
        assert(s.subrange(0, n as int) =~= s);
        r
    }

    /// Forgets every visit to `url`; gives whether there was one.
    pub fn remove_url(&mut self, url: &str) -> (removed: bool)
        ensures
            removed == (exists|i: int| 0 <= i < old(self)@.len() && old(self)@[i].url == url@),
            final(self)@ == without_url(old(self)@, url@),
    {
        proof {
            use_type_invariant(&*self);
        }
        let key: String = url.to_owned();
        let ghost s = self@;
        let n = self.entries.len();
        let mut kept: Vec<HistoryEntry> = Vec::new();
        let mut i: usize = 0;
        assert(s.take(0) =~= Seq::<HistoryEntryView>::empty());
        while i < n
            invariant
                i <= n == self.entries.len(),
                s == self@,
                key@ == url@,
                entry_views(kept@) == without_url(s.take(i as int), url@),
            decreases n - i,
        {
            let ghost before = entry_views(kept@);
            if self.entries[i].url != key {
                kept.push(self.entries[i].clone());
            }
            assert(s.take(i + 1).drop_last() =~= s.take(i as int));
            assert(entry_views(kept@) =~= without_url(s.take(i + 1), url@));
            i = i + 1;
        }
        assert(s.take(n as int) =~= s);
        proof {
            lemma_without_url_len(s, url@);
        }
        let removed = kept.len() != n;
        *self = HistoryManager { entries: kept };
        removed
    }

    /// Forgets every visit; gives whether there was one.
    pub fn clear(&mut self) -> (changed: bool)
        ensures
            changed == (old(self)@.len() > 0),
            final(self)@ == Seq::<HistoryEntryView>::empty(),
    {
        let changed = self.entries.len() > 0;
        *self = HistoryManager { entries: Vec::new() };
        assert(self@ =~= Seq::<HistoryEntryView>::empty());
        changed
    }
}

/// The history never holds more than `MAX_HISTORY_ENTRIES` visits, and a
/// recorded visit is its newest entry: the first one listed.
pub proof fn law_recorded_visit_is_newest(s: Seq<HistoryEntryView>, e: HistoryEntryView)
    requires
        s.len() <= MAX_HISTORY_ENTRIES,
    ensures
        keep_newest(s.push(e)).len() <= MAX_HISTORY_ENTRIES,
        keep_newest(s.push(e)).last() == e,
        keep_newest(s.push(e)).reverse()[0] == e,
{
}

/// Only the oldest visit is dropped to make room: every other visit stays,
/// in order.
pub proof fn law_only_oldest_dropped(s: Seq<HistoryEntryView>, e: HistoryEntryView)
    requires
        s.len() <= MAX_HISTORY_ENTRIES,
    ensures
        s.len() < MAX_HISTORY_ENTRIES ==> keep_newest(s.push(e)) == s.push(e),
        s.len() == MAX_HISTORY_ENTRIES ==> keep_newest(s.push(e)) == s.drop_first().push(e),
{
    assert(s.len() == MAX_HISTORY_ENTRIES ==> s.push(e).skip(1) =~= s.drop_first().push(e));
}

/// After the visits to an address are forgotten, none is left; every
/// other visit is kept.
pub proof fn law_removed_url_gone(s: Seq<HistoryEntryView>, url: Seq<char>)
    ensures
        forall|i: int| 0 <= i < without_url(s, url).len() ==> without_url(s, url)[i].url != url,
        forall|e: HistoryEntryView| s.contains(e) && e.url != url ==> without_url(s, url).contains(e),
    decreases s.len(),
{
    if s.len() > 0 {
        law_removed_url_gone(s.drop_last(), url);
        let r = without_url(s.drop_last(), url);
        assert forall|e: HistoryEntryView| s.contains(e) && e.url != url implies without_url(
            s,
            url,
        ).contains(e) by {
            let k = choose|k: int| 0 <= k < s.len() && s[k] == e;
            if k < s.len() - 1 {
                assert(s.drop_last()[k] == e);
                assert(s.drop_last().contains(e));
                assert(r.contains(e));
                let j = choose|j: int| 0 <= j < r.len() && r[j] == e;
                if s.last().url != url {
                    assert(r.push(s.last())[j] == e);
                }
            } else {
                assert(r.push(s.last())[r.len() as int] == e);
            }
        }
    }
}

/// For a query that is not blank, every visit a search gives is a visit of
/// the history whose title or address contains the trimmed query, ignoring
/// ASCII case.
pub proof fn law_search_gives_only_matches(s: Seq<HistoryEntryView>, query: Seq<char>, k: int)
    requires
        ascii_lower(trim_ws(query)).len() > 0,
        0 <= k < search_result(s, query).len(),
    ensures
        s.contains(search_result(s, query)[k]),
        has_infix(ascii_lower(search_result(s, query)[k].title), ascii_lower(trim_ws(query)))
            || has_infix(ascii_lower(search_result(s, query)[k].url), ascii_lower(trim_ws(query))),
{
    law_search_results_match(s, ascii_lower(trim_ws(query)));
}

/// Every entry that matches `q` is among the matching entries.
proof fn lemma_matching_complete(s: Seq<HistoryEntryView>, q: Seq<char>, i: int)
    requires
        0 <= i < s.len(),
        entry_matches(s[i], q),
    ensures
        newest_first_matching(s, q).contains(s[i]),
    decreases s.len(),
{
    let r = newest_first_matching(s.drop_first(), q);
    if i == 0 {
        assert(newest_first_matching(s, q)[r.len() as int] == s[0]);
    } else {
        lemma_matching_complete(s.drop_first(), q, i - 1);
        let k = choose|k: int| 0 <= k < r.len() && r[k] == s[i];
        assert(newest_first_matching(s, q)[k] == s[i]);
    }
}

/// A search finds every visit whose title or address contains the
/// trimmed query, ignoring ASCII case; a blank query finds every visit.
pub proof fn law_search_finds_all_matches(s: Seq<HistoryEntryView>, query: Seq<char>, i: int)
    requires
        0 <= i < s.len(),
        ascii_lower(trim_ws(query)).len() == 0 || has_infix(
            ascii_lower(s[i].title),
            ascii_lower(trim_ws(query)),
        ) || has_infix(ascii_lower(s[i].url), ascii_lower(trim_ws(query))),
    ensures
        search_result(s, query).contains(s[i]),
{
    let q = ascii_lower(trim_ws(query));
    if q.len() == 0 {
        assert(s.reverse()[s.len() - 1 - i] == s[i]);
    } else {
        lemma_matching_complete(s, q, i);
    }
}

/// Every search result matches the query and is a visit of the history.
pub proof fn law_search_results_match(s: Seq<HistoryEntryView>, q: Seq<char>)
    ensures
        forall|i: int|
            0 <= i < newest_first_matching(s, q).len() ==> entry_matches(
                #[trigger] newest_first_matching(s, q)[i],
                q,
            ) && s.contains(newest_first_matching(s, q)[i]),
    decreases s.len(),
{
    if s.len() > 0 {
        law_search_results_match(s.drop_first(), q);
        let r = newest_first_matching(s.drop_first(), q);
        assert forall|i: int| 0 <= i < newest_first_matching(s, q).len() implies entry_matches(
            #[trigger] newest_first_matching(s, q)[i],
            q,
        ) && s.contains(newest_first_matching(s, q)[i]) by {
            if i < r.len() {
                let x = r[i];
                let k = choose|k: int| 0 <= k < s.drop_first().len() && s.drop_first()[k] == x;
                assert(s[k + 1] == x);
            } else {
                assert(s[0] == newest_first_matching(s, q)[i]);
            }
        }
    }
}

} // verus!
