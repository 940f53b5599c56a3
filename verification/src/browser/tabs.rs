//! A tab and the back/forward history of the addresses it has shown.
use vstd::prelude::*;

verus! {

/// What a [`NavigationHistory`] stands for: the addresses visited, oldest
/// first, and the position of the one shown.
pub struct NavigationView {
    pub entries: Seq<Seq<char>>,
    pub index: int,
}

impl NavigationView {
    /// There is at least one address and the position is one of them.
    pub open spec fn wf(self) -> bool {
        self.entries.len() > 0 && 0 <= self.index < self.entries.len()
    }

    /// The address shown.
    pub open spec fn current(self) -> Seq<char> {
        self.entries[self.index]
    }

    pub open spec fn can_back(self) -> bool {
        self.index > 0
    }

    pub open spec fn can_forward(self) -> bool {
        self.index + 1 < self.entries.len()
    }
}

/// The history after visiting `uri`: unchanged when `uri` is already the
/// newest entry; otherwise the entries after the shown one are dropped and
/// `uri` becomes the newest and shown entry.
pub open spec fn after_push(v: NavigationView, uri: Seq<char>) -> NavigationView {
    if v.entries.last() == uri {
        v
    } else {
        NavigationView { entries: v.entries.take(v.index + 1).push(uri), index: v.index + 1 }
    }
}

/// The history after going back one step, when there is a step to go.
pub open spec fn after_back(v: NavigationView) -> NavigationView {
    if v.can_back() {
        NavigationView { entries: v.entries, index: v.index - 1 }
    } else {
        v
    }
}

/// The history after going forward one step, when there is a step to go.
pub open spec fn after_forward(v: NavigationView) -> NavigationView {
    if v.can_forward() {
        NavigationView { entries: v.entries, index: v.index + 1 }
    } else {
        v
    }
}

/// The addresses a tab has shown and the position of the one it shows.
#[derive(Debug)]
pub struct NavigationHistory {
    entries: Vec<String>,
    index: usize,
}

impl View for NavigationHistory {
    type V = NavigationView;

    closed spec fn view(&self) -> NavigationView {
        NavigationView { entries: self.entries@.map_values(|s: String| s@), index: self.index as int }
    }
}

impl Clone for NavigationHistory {
    fn clone(&self) -> (r: Self)
        ensures
            r@ == self@,
            r@.wf(),
    {
        proof {
            use_type_invariant(self);
        }
        let mut entries: Vec<String> = Vec::new();
        let mut i: usize = 0;
        while i < self.entries.len()
            invariant
                i <= self.entries.len(),
                entries@.len() == i,
                forall|j: int| 0 <= j < i ==> #[trigger] entries@[j] == self.entries@[j],
            decreases self.entries.len() - i,
        {
            entries.push(self.entries[i].clone());
            i = i + 1;
        }
        let r = NavigationHistory { entries, index: self.index };
        assert(r@.entries =~= self@.entries);
        r
    }
}

impl NavigationHistory {
    #[verifier::type_invariant]
    spec fn well_formed(self) -> bool {
        self.index < self.entries.len()
    }

    /// A history holding `uri` alone.
    pub fn new(uri: String) -> (h: Self)
        ensures
            h@.entries == seq![uri@],
            h@.index == 0,
            h@.wf(),
    {
        let mut entries: Vec<String> = Vec::new();
        entries.push(uri);
        let h = NavigationHistory { entries, index: 0 };
        assert(h@.entries =~= seq![uri@]);
        h
    }

    /// The address shown.
    pub fn current(&self) -> (r: String)
        ensures
            r@ == self@.current(),
            self@.wf(),
    {
        proof {
            use_type_invariant(self);
        }
        self.entries[self.index].clone()
    }

    /// The number of addresses held.
    pub fn len(&self) -> (n: usize)
        ensures
            n == self@.entries.len(),
    {
        self.entries.len()
    }

    /// The position of the address shown.
    pub fn index(&self) -> (i: usize)
        ensures
            i == self@.index,
    {
        self.index
    }

    pub fn can_go_back(&self) -> (b: bool)
        ensures
            b == self@.can_back(),
    {
        self.index > 0
    }

    pub fn can_go_forward(&self) -> (b: bool)
        ensures
            b == self@.can_forward(),
    {
        proof {
            use_type_invariant(self);
        }
        self.index + 1 < self.entries.len()
    }

    /// Records a visit to `uri`.
    pub fn push(&mut self, uri: String)
        ensures
            final(self)@ == after_push(old(self)@, uri@),
            final(self)@.wf(),
    {
        proof {
            use_type_invariant(&*self);
        }
        let ghost v = self@;
        let n = self.entries.len();
        if self.entries[n - 1] == uri {
            return;
        }
        let keep = self.index + 1;
        let mut entries: Vec<String> = Vec::new();
        let mut i: usize = 0;
        while i < keep
            invariant
                i <= keep <= self.entries.len(),
                entries@.len() == i,
                forall|j: int| 0 <= j < i ==> #[trigger] entries@[j] == self.entries@[j],
            decreases keep - i,
        {
            entries.push(self.entries[i].clone());
            i = i + 1;
        }
        entries.push(uri);
        *self = NavigationHistory { entries, index: keep };
        assert(self@.entries =~= v.entries.take(v.index + 1).push(uri@));
    }

    /// Steps back and gives the address now shown, when there is a step to go.
    pub fn back(&mut self) -> (r: Option<String>)
        ensures
            final(self)@ == after_back(old(self)@),
            final(self)@.wf(),
            match r {
                Some(u) => old(self)@.can_back() && u@ == final(self)@.current(),
                None => !old(self)@.can_back(),
            },
    {
        proof {
            use_type_invariant(&*self);
        }
        if self.index == 0 {
            return None;
        }
        self.index = self.index - 1;
        Some(self.entries[self.index].clone())
    }

    /// Steps forward and gives the address now shown, when there is a step to go.
    pub fn forward(&mut self) -> (r: Option<String>)
        ensures
            final(self)@ == after_forward(old(self)@),
            final(self)@.wf(),
            match r {
                Some(u) => old(self)@.can_forward() && u@ == final(self)@.current(),
                None => !old(self)@.can_forward(),
            },
    {
        proof {
            use_type_invariant(&*self);
        }
        if self.index + 1 >= self.entries.len() {
            return None;
        }
        self.index = self.index + 1;
        Some(self.entries[self.index].clone())
    }
}

/// Going back one step and then forward one step restores the history.
pub proof fn law_back_then_forward(v: NavigationView)
    requires
        v.wf(),
        v.can_back(),
    ensures
        after_forward(after_back(v)) == v,
        after_back(v).wf(),
{
}

/// Going forward one step and then back one step restores the history.
pub proof fn law_forward_then_back(v: NavigationView)
    requires
        v.wf(),
        v.can_forward(),
    ensures
        after_back(after_forward(v)) == v,
        after_forward(v).wf(),
{
}

/// Visiting a new address shows it, leaves nothing to go forward to, and
/// going back from it shows the address that was shown before the visit.
pub proof fn law_push_then_back(v: NavigationView, uri: Seq<char>)
    requires
        v.wf(),
        v.entries.last() != uri,
    ensures
        after_push(v, uri).wf(),
        after_push(v, uri).current() == uri,
        !after_push(v, uri).can_forward(),
        after_push(v, uri).can_back(),
        after_back(after_push(v, uri)).current() == v.current(),
{
}

/// Visiting a new address drops nothing up to the address shown: every
/// earlier address keeps its place, so it can still be gone back to, the
/// new address follows the one shown, and nothing else remains.
pub proof fn law_visit_keeps_earlier(v: NavigationView, uri: Seq<char>)
    requires
        v.wf(),
        v.entries.last() != uri,
    ensures
        after_push(v, uri).entries.len() == v.index + 2,
        after_push(v, uri).index == v.index + 1,
        after_push(v, uri).entries[v.index + 1] == uri,
        forall|j: int| 0 <= j <= v.index ==> #[trigger] after_push(v, uri).entries[j] == v.entries[j],
{
}

/// Visiting the newest address again changes nothing.
pub proof fn law_revisit_newest_changes_nothing(v: NavigationView)
    requires
        v.wf(),
    ensures
        after_push(v, v.entries.last()) == v,
{
}

/// Every step keeps a history well formed.
pub proof fn law_steps_keep_wf(v: NavigationView, uri: Seq<char>)
    requires
        v.wf(),
    ensures
        after_push(v, uri).wf(),
        after_back(v).wf(),
        after_forward(v).wf(),
{
}

/// What a [`Tab`] stands for.
pub struct TabView {
    pub id: usize,
    pub title: Seq<char>,
    pub uri: Seq<char>,
    pub history: NavigationView,
}

/// A browser tab: its id, title and address, and its navigation history.
#[derive(Debug)]
pub struct Tab {
    pub id: usize,
    pub title: String,
    pub uri: String,
    pub history: NavigationHistory,
}

impl TabView {
    /// The same tab at the address `uri`.
    pub open spec fn with_uri(self, uri: Seq<char>) -> TabView {
        TabView { uri, ..self }
    }

    /// The same tab titled `title`.
    pub open spec fn with_title(self, title: Seq<char>) -> TabView {
        TabView { title, ..self }
    }
}

impl View for Tab {
    type V = TabView;

    open spec fn view(&self) -> TabView {
        TabView { id: self.id, title: self.title@, uri: self.uri@, history: self.history@ }
    }
}

impl Tab {
    /// A new tab showing the new-tab page.
    pub fn new(id: usize) -> (t: Self)
        ensures
            t.id == id,
            t.title@ == "New Tab"@,
            t.uri@ == "axys://newtab"@,
            t.history@.entries == seq!["axys://newtab"@],
            t.history@.index == 0,
    {
        Tab {
            id,
            title: "New Tab".to_owned(),
            uri: "axys://newtab".to_owned(),
            history: NavigationHistory::new("axys://newtab".to_owned()),
        }
    }

    pub fn can_go_back(&self) -> (b: bool)
        ensures
            b == self.history@.can_back(),
    {
        self.history.can_go_back()
    }

    pub fn can_go_forward(&self) -> (b: bool)
        ensures
            b == self.history@.can_forward(),
    {
        self.history.can_go_forward()
    }

    /// Records a visit to `uri` in the tab's history.
    pub fn push_history(&mut self, uri: String)
        ensures
            final(self).history@ == after_push(old(self).history@, uri@),
            final(self).id == old(self).id,
            final(self).title == old(self).title,
            final(self).uri == old(self).uri,
    {
        self.history.push(uri);
    }

    /// Steps back in the tab's history and gives the address to show.
    pub fn go_back(&mut self) -> (r: Option<String>)
        ensures
            final(self).history@ == after_back(old(self).history@),
            final(self).id == old(self).id,
            final(self).title == old(self).title,
            final(self).uri == old(self).uri,
            match r {
                Some(u) => old(self).history@.can_back() && u@ == final(self).history@.current(),
                None => !old(self).history@.can_back(),
            },
    {
        self.history.back()
    }

    /// Steps forward in the tab's history and gives the address to show.
    pub fn go_forward(&mut self) -> (r: Option<String>)
        ensures
            final(self).history@ == after_forward(old(self).history@),
            final(self).id == old(self).id,
            final(self).title == old(self).title,
            final(self).uri == old(self).uri,
            match r {
                Some(u) => old(self).history@.can_forward() && u@ == final(self).history@.current(),
                None => !old(self).history@.can_forward(),
            },
    {
        self.history.forward()
    }
}

} // verus!
