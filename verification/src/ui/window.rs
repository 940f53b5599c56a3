//! The tabs of a browser window and the decisions the window takes on
//! them: opening, selecting, closing, navigating, stepping back and
//! forward, and moving between tabs from the keyboard. The window itself
//! (widgets, web views) carries out what these decisions give.
use vstd::prelude::*;

use crate::browser::address::{resolve_input, resolved_address, needs_search, SearchConfig};
use crate::browser::history::{is_web_address, is_web_url};
use crate::browser::tabs::{
    after_back, after_forward, after_push, NavigationHistory, NavigationView, Tab, TabView,
};
use crate::internal::router::{page_name, page_name_of, page_title, page_title_of};
use crate::text::{chars_of, has_prefix, starts_with, trim, trim_ws};

verus! {

/// The address a new tab opens: the one asked for, else the privacy page in
/// a private window and the new-tab page in a normal one.
pub open spec fn first_uri_of(starting: Option<Seq<char>>, private_mode: bool) -> Seq<char> {
    match starting {
        Some(u) => u,
        None => if private_mode {
            "axys://privacy"@
        } else {
            "axys://newtab"@
        },
    }
}

/// A tab just opened at `uri`.
pub open spec fn fresh_tab(id: usize, uri: Seq<char>) -> TabView {
    TabView {
        id,
        title: page_title_of(uri),
        uri,
        history: NavigationView { entries: seq![uri], index: 0 },
    }
}

/// The tab left when the last tab of a window is closed: a new-tab page
/// titled `title`, with a fresh history.
pub open spec fn reset_tab(id: usize, title: Seq<char>) -> TabView {
    TabView {
        id,
        title,
        uri: "axys://newtab"@,
        history: NavigationView { entries: seq!["axys://newtab"@], index: 0 },
    }
}

/// A tab after navigating to the resolved address `t`: internal pages
/// take their page title and are always recorded in the history, web
/// addresses are recorded when they differ from the tab's address.
pub open spec fn navigated_tab(tab: TabView, t: Seq<char>) -> TabView {
    if page_name_of(t) is Some {
        TabView { uri: t, title: page_title_of(t), history: after_push(tab.history, t), ..tab }
    } else {
        TabView {
            uri: t,
            history: if tab.uri != t {
                after_push(tab.history, t)
            } else {
                tab.history
            },
            ..tab
        }
    }
}

/// A tab after stepping through its history to `h`: an internal page
/// reached this way gives the tab its title.
pub open spec fn stepped_tab(tab: TabView, h: NavigationView) -> TabView {
    if page_name_of(h.current()) is Some {
        TabView { history: h, title: page_title_of(h.current()), ..tab }
    } else {
        TabView { history: h, ..tab }
    }
}

/// The title to show for a page: its own when not blank, else `fallback`.
pub open spec fn shown_title(title: Option<Seq<char>>, fallback: Seq<char>) -> Seq<char> {
    match title {
        Some(t) => if trim_ws(t).len() > 0 {
            t
        } else {
            fallback
        },
        None => fallback,
    }
}

/// The view of an optional string.
pub open spec fn opt_string_view(o: Option<String>) -> Option<Seq<char>> {
    match o {
        Some(s) => Some(s@),
        None => None,
    }
}

/// The view of an optional string slice.
pub open spec fn opt_str_view(o: Option<&str>) -> Option<Seq<char>> {
    match o {
        Some(s) => Some(s@),
        None => None,
    }
}

/// What a [`TabSession`] stands for.
pub struct SessionView {
    pub tabs: Seq<TabView>,
    pub active_id: usize,
    pub next_id: usize,
    pub private_mode: bool,
}

impl SessionView {
    /// `i` is the position of the tab `id`.
    pub open spec fn at(self, id: usize, i: int) -> bool {
        0 <= i < self.tabs.len() && self.tabs[i].id == id
    }

    /// The window has a tab `id`.
    pub open spec fn has(self, id: usize) -> bool {
        exists|i: int| self.at(id, i)
    }

    /// Tab ids are distinct and below the next id, and every history is
    /// well formed.
    pub open spec fn ok(self) -> bool {
        &&& forall|i: int| 0 <= i < self.tabs.len() ==> #[trigger] self.tabs[i].id < self.next_id
        &&& forall|i: int| 0 <= i < self.tabs.len() ==> #[trigger] self.tabs[i].history.wf()
        &&& forall|i: int, j: int|
            0 <= i < self.tabs.len() && 0 <= j < self.tabs.len() && i != j
                ==> #[trigger] self.tabs[i].id != #[trigger] self.tabs[j].id
    }

    /// The same window with its tabs replaced by `tabs`.
    pub open spec fn with_tabs(self, tabs: Seq<TabView>) -> SessionView {
        SessionView { tabs, ..self }
    }

    /// The same window with the tab at `i` replaced by `tab`.
    pub open spec fn with_tab(self, i: int, tab: TabView) -> SessionView {
        self.with_tabs(self.tabs.update(i, tab))
    }

    /// The same window showing the tab `id`.
    pub open spec fn with_active(self, id: usize) -> SessionView {
        SessionView { active_id: id, ..self }
    }

    /// The window after its only tab, `id`, was closed: that tab shows a
    /// new-tab page titled `title`.
    pub open spec fn after_reset(self, id: usize, title: Seq<char>) -> SessionView {
        SessionView { tabs: seq![reset_tab(id, title)], active_id: id, ..self }
    }

    /// The window after the tab `id`, at `i`, was removed: when it was the
    /// one shown, the last tab left is shown.
    pub open spec fn after_removal(self, id: usize, i: int) -> SessionView {
        let tabs = self.tabs.remove(i);
        SessionView {
            tabs,
            active_id: if self.active_id == id && tabs.len() > 0 {
                tabs.last().id
            } else {
                self.active_id
            },
            ..self
        }
    }
}

/// The address that navigating with `input` goes to under `config`.
pub open spec fn navigation_target(input: Seq<char>, config: SearchConfig) -> Seq<char> {
    resolved_address(input, config@.engines[config@.default_engine])
}

/// Whether navigating the tab `id` to `t` does anything: the tab exists
/// and `t` is an internal page or a web address.
pub open spec fn navigation_applies(v: SessionView, id: usize, t: Seq<char>) -> bool {
    v.has(id) && (page_name_of(t) is Some || is_web_address(t))
}

/// Whether the tab shown can step back.
pub open spec fn back_applies(v: SessionView) -> bool {
    exists|i: int| #[trigger] v.at(v.active_id, i) && v.tabs[i].history.can_back()
}

/// Whether the tab shown can step forward.
pub open spec fn forward_applies(v: SessionView) -> bool {
    exists|i: int| #[trigger] v.at(v.active_id, i) && v.tabs[i].history.can_forward()
}

/// The position reached from `current` among `len` tabs, one step back or
/// forward, wrapping around at both ends.
pub open spec fn cycle_index(current: int, len: int, backwards: bool) -> int {
    if backwards {
        if current == 0 {
            len - 1
        } else {
            current - 1
        }
    } else {
        (current + 1) % len
    }
}

/// The position of the tab shown, or the first position when no tab is.
pub open spec fn current_index(v: SessionView) -> int {
    if v.has(v.active_id) {
        choose|i: int| v.at(v.active_id, i)
    } else {
        0
    }
}

/// What the window shows for an address reached by navigation.
pub open spec fn shows(r: Navigation, t: Seq<char>) -> bool {
    match r {
        Navigation::Ignored => false,
        Navigation::ShowPage(p, u) => page_name_of(t) == Some(p@) && u@ == t,
        Navigation::LoadWeb(u) => page_name_of(t) is None && u@ == t,
    }
}

/// What closing a tab came to.
#[derive(Debug, PartialEq, Eq)]
pub enum CloseOutcome {
    /// There is no such tab; nothing changed.
    NotFound,
    /// It was the window's only tab, which now shows a new-tab page.
    Reset,
    /// The tab was removed.
    Removed,
}

/// What a navigation asks the window to show.
#[derive(Debug, PartialEq, Eq)]
pub enum Navigation {
    /// Nothing to do.
    Ignored,
    /// Show the internal page with this name, at this address.
    ShowPage(&'static str, String),
    /// Load this web address in the tab's web view.
    LoadWeb(String),
}

/// The tabs of a window, the one shown, and the id the next tab gets.
pub struct TabSession {
    tabs: Vec<Tab>,
    active_id: usize,
    next_id: usize,
    private_mode: bool,
}

/// The views of a list of tabs.
pub open spec fn tab_views(s: Seq<Tab>) -> Seq<TabView> {
    s.map_values(|t: Tab| t@)
}

impl View for TabSession {
    type V = SessionView;

    closed spec fn view(&self) -> SessionView {
        SessionView {
            tabs: tab_views(self.tabs@),
            active_id: self.active_id,
            next_id: self.next_id,
            private_mode: self.private_mode,
        }
    }
}

impl TabSession {
    #[verifier::type_invariant]
    spec fn well_formed(self) -> bool {
        self@.ok()
    }

    /// A window with no tab yet.
    pub fn new(private_mode: bool) -> (s: Self)
        ensures
            s@.tabs == Seq::<TabView>::empty(),
            s@.active_id == usize::MAX,
            s@.next_id == 0,
            s@.private_mode == private_mode,
    {
        let s = TabSession { tabs: Vec::new(), active_id: usize::MAX, next_id: 0, private_mode };
        assert(s@.tabs =~= Seq::<TabView>::empty());
        s
    }

    /// The tabs, in order.
    pub fn tabs(&self) -> (r: &Vec<Tab>)
        ensures
            tab_views(r@) == self@.tabs,
            self@.ok(),
    {
        proof {
            use_type_invariant(self);
        }
        &self.tabs
    }

    /// The id of the tab shown.
    pub fn active_id(&self) -> (id: usize)
        ensures
            id == self@.active_id,
    {
        self.active_id
    }

    /// The id the next tab gets.
    pub fn next_id(&self) -> (id: usize)
        ensures
            id == self@.next_id,
    {
        self.next_id
    }

    /// Where the tab `id` is.
    pub fn position(&self, id: usize) -> (r: Option<usize>)
        ensures
            match r {
                Some(i) => self@.at(id, i as int),
                None => !self@.has(id),
            },
    {
        let mut i: usize = 0;
        while i < self.tabs.len()
            invariant
                i <= self.tabs.len(),
                forall|j: int| 0 <= j < i ==> self.tabs@[j].id != id,
            decreases self.tabs.len() - i,
        {
            if self.tabs[i].id == id {
                return Some(i);
            }
            i = i + 1;
        }
        None
    }

    /// The tab `id`, if the window has it.
    pub fn tab(&self, id: usize) -> (r: Option<&Tab>)
        ensures
            match r {
                Some(t) => exists|i: int| self@.at(id, i) && t@ == self@.tabs[i],
                None => !self@.has(id),
            },
    {
        match self.position(id) {
            Some(i) => {
                let t = &self.tabs[i];
                assert(self@.at(id, i as int) && t@ == self@.tabs[i as int]);
                Some(t)
            },
            None => None,
        }
    }

    /// Replaces the tab at `i` by `t`, which keeps its id.
    fn replace_tab(&mut self, i: usize, t: Tab)
        requires
            i < old(self)@.tabs.len(),
            t.id == old(self)@.tabs[i as int].id,
            t.history@.wf(),
        ensures
            final(self)@ == old(self)@.with_tabs(old(self)@.tabs.update(i as int, t@)),
    {
        proof {
            use_type_invariant(&*self);
        }
        let ghost before = self@;
        let ghost changed = t@;
        let mut tabs: Vec<Tab> = Vec::new();
        std::mem::swap(&mut tabs, &mut self.tabs);
        tabs.remove(i);
        tabs.insert(i, t);
        assert(tab_views(tabs@) =~= before.tabs.update(i as int, changed));
        self.tabs = tabs;
    }

    /// Takes a copy of the tab at `i`.
    fn copy_tab(&self, i: usize) -> (t: Tab)
        requires
            i < self@.tabs.len(),
        ensures
            t@ == self@.tabs[i as int],
            t.history@.wf(),
    {
        proof {
            use_type_invariant(self);
        }
        let src = &self.tabs[i];
        let history = src.history.clone();
        Tab { id: src.id, title: src.title.clone(), uri: src.uri.clone(), history }
    }

    /// Opens a tab at `starting_uri`, or at the window's start page when
    /// none is given, shows it and gives its id.
    pub fn open_tab(&mut self, starting_uri: Option<&str>) -> (id: usize)
        requires
            old(self)@.next_id < usize::MAX,
        ensures
            id == old(self)@.next_id,
            final(self)@.next_id == id + 1,
            final(self)@.active_id == id,
            final(self)@.private_mode == old(self)@.private_mode,
            final(self)@.tabs == old(self)@.tabs.push(
                fresh_tab(id, first_uri_of(opt_str_view(starting_uri), old(self)@.private_mode)),
            ),
    {
        proof {
            use_type_invariant(&*self);
        }
        let id = self.next_id;
        let first: String = match starting_uri {
            Some(u) => u.to_owned(),
            None => if self.private_mode {
                "axys://privacy".to_owned()
            } else {
                "axys://newtab".to_owned()
            },
        };
        let tab = Tab {
            id,
            title: page_title(first.as_str()).to_owned(),
            uri: first.clone(),
            history: NavigationHistory::new(first),
        };
        let ghost before = self@;
        let ghost added = tab@;
        let mut tabs: Vec<Tab> = Vec::new();
        std::mem::swap(&mut tabs, &mut self.tabs);
        tabs.push(tab);
        assert(tab_views(tabs@) =~= before.tabs.push(added));
        *self = TabSession { tabs, active_id: id, next_id: id + 1, private_mode: self.private_mode };
        id
    }

    /// Shows the tab `id`; gives whether the window has it.
    pub fn select(&mut self, id: usize) -> (found: bool)
        ensures
            found == old(self)@.has(id),
            found ==> final(self)@ == old(self)@.with_active(id),
            !found ==> final(self)@ == old(self)@,
    {
        proof {
            use_type_invariant(&*self);
        }
        if self.position(id).is_none() {
            return false;
        }
        self.active_id = id;
        true
    }

    /// Closes the tab `id`. The window's only tab is not removed but shows a
    /// new-tab page titled `new_tab_title` with a fresh history; any other
    /// tab is removed, and when it was the one shown, the last tab is shown.
    pub fn close(&mut self, id: usize, new_tab_title: &str) -> (r: CloseOutcome)
        ensures
            (r is NotFound) == !old(self)@.has(id),
            r is NotFound ==> final(self)@ == old(self)@,
            r is Reset ==> old(self)@.tabs.len() == 1 && old(self)@.at(id, 0) && final(self)@
                == old(self)@.after_reset(id, new_tab_title@),
            r is Removed ==> old(self)@.tabs.len() != 1 && exists|i: int|
                #[trigger] old(self)@.at(id, i) && final(self)@ == old(self)@.after_removal(id, i),
    {
        proof {
            use_type_invariant(&*self);
        }
        let ghost before = self@;
        if self.tabs.len() == 1 {
            if self.tabs[0].id != id {
                return CloseOutcome::NotFound;
            }
            let tab = Tab {
                id,
                title: new_tab_title.to_owned(),
                uri: "axys://newtab".to_owned(),
                history: NavigationHistory::new("axys://newtab".to_owned()),
            };
            let ghost reset = tab@;
            assert(before.at(id, 0));
            assert(before.tabs[0].id < before.next_id);
            let mut tabs: Vec<Tab> = Vec::new();
            tabs.push(tab);
            assert(tab_views(tabs@) =~= seq![reset]);
            *self = TabSession {
                tabs,
                active_id: id,
                next_id: self.next_id,
                private_mode: self.private_mode,
            };
            return CloseOutcome::Reset;
        }
        let was_active = self.active_id == id;
        let i = match self.position(id) {
            Some(i) => i,
            None => {
                return CloseOutcome::NotFound;
            },
        };
        let mut tabs: Vec<Tab> = Vec::new();
        std::mem::swap(&mut tabs, &mut self.tabs);
        tabs.remove(i);
        assert(tab_views(tabs@) =~= before.tabs.remove(i as int));
        let n = tabs.len();
        let active = if was_active && n > 0 {
            tabs[n - 1].id
        } else {
            self.active_id
        };
        *self = TabSession { tabs, active_id: active, next_id: self.next_id, private_mode: self.private_mode };
        assert(before.at(id, i as int));
        CloseOutcome::Removed
    }

    /// Records the address a tab's web view reports; gives whether the
    /// window has the tab.
    pub fn set_uri(&mut self, id: usize, uri: String) -> (found: bool)
        ensures
            found == old(self)@.has(id),
            found ==> exists|i: int|
                #[trigger] old(self)@.at(id, i) && final(self)@ == old(self)@.with_tab(
                    i,
                    old(self)@.tabs[i].with_uri(uri@),
                ),
            !found ==> final(self)@ == old(self)@,
    {
        match self.position(id) {
            Some(i) => {
                let mut t = self.copy_tab(i);
                t.uri = uri;
                self.replace_tab(i, t);
                true
            },
            None => false,
        }
    }

    /// Records the title a tab's page reports: the page's own when not
    /// blank, else `fallback`. Gives whether the window has the tab.
    pub fn set_title(&mut self, id: usize, title: Option<String>, fallback: String) -> (found: bool)
        ensures
            found == old(self)@.has(id),
            found ==> exists|i: int|
                #[trigger] old(self)@.at(id, i) && final(self)@ == old(self)@.with_tab(
                    i,
                    old(self)@.tabs[i].with_title(shown_title(opt_string_view(title), fallback@)),
                ),
            !found ==> final(self)@ == old(self)@,
    {
        match self.position(id) {
            Some(i) => {
                let shown = title_or(title, fallback);
                let mut t = self.copy_tab(i);
                t.title = shown;
                self.replace_tab(i, t);
                true
            },
            None => false,
        }
    }

    /// Navigates the tab `id` with address-bar input: the input is resolved
    /// under `config`; an internal page is shown, titled and recorded; a web
    /// address is recorded (when the tab was not already there) and loaded;
    /// anything else, or a missing tab, is ignored.
    pub fn navigate(&mut self, id: usize, input: &str, config: &SearchConfig) -> (r: Navigation)
        requires
            needs_search(input@) ==> config@.engines.contains_key(config@.default_engine),
        ensures
            navigation_applies(old(self)@, id, navigation_target(input@, *config)) ==> exists|i: int|
                #[trigger] old(self)@.at(id, i) && final(self)@ == old(self)@.with_tab(
                    i,
                    navigated_tab(old(self)@.tabs[i], navigation_target(input@, *config)),
                ) && shows(r, navigation_target(input@, *config)),
            !navigation_applies(old(self)@, id, navigation_target(input@, *config)) ==> (final(self)@
                == old(self)@ && r is Ignored),
    {
        proof {
            use_type_invariant(&*self);
        }
        let target = resolve_input(input, config);
        match page_name(target.as_str()) {
            Some(page) => match self.position(id) {
                Some(i) => {
                    let mut tab = self.copy_tab(i);
                    tab.uri = target.clone();
                    tab.title = page_title(target.as_str()).to_owned();
                    tab.push_history(target.clone());
                    self.replace_tab(i, tab);
                    Navigation::ShowPage(page, target)
                },
                None => Navigation::Ignored,
            },
            None => {
                if !is_web_url(target.as_str()) {
                    return Navigation::Ignored;
                }
                match self.position(id) {
                    Some(i) => {
                        let mut tab = self.copy_tab(i);
                        if tab.uri != target {
                            tab.push_history(target.clone());
                        }
                        tab.uri = target.clone();
                        self.replace_tab(i, tab);
                        Navigation::LoadWeb(target)
                    },
                    None => Navigation::Ignored,
                }
            },
        }
    }

    /// Steps the tab shown back through its history: an internal page is
    /// shown (and gives the tab its title), a web address is loaded.
    pub fn go_back(&mut self) -> (r: Navigation)
        ensures
            back_applies(old(self)@) ==> exists|i: int|
                #[trigger] old(self)@.at(old(self)@.active_id, i) && final(self)@ == old(self)@.with_tab(
                    i,
                    stepped_tab(old(self)@.tabs[i], after_back(old(self)@.tabs[i].history)),
                ) && shows(r, after_back(old(self)@.tabs[i].history).current()),
            !back_applies(old(self)@) ==> (final(self)@ == old(self)@ && r is Ignored),
    {
        proof {
            use_type_invariant(&*self);
        }
        let i = match self.position(self.active_id) {
            Some(i) => i,
            None => {
                return Navigation::Ignored;
            },
        };
        let mut tab = self.copy_tab(i);
        match tab.go_back() {
            Some(target) => {
                let page = page_name(target.as_str());
                if page.is_some() {
                    tab.title = page_title(target.as_str()).to_owned();
                }
                self.replace_tab(i, tab);
                match page {
                    Some(p) => Navigation::ShowPage(p, target),
                    None => Navigation::LoadWeb(target),
                }
            },
            None => Navigation::Ignored,
        }
    }

    /// Steps the tab shown forward through its history: an internal page is
    /// shown (and gives the tab its title), a web address is loaded.
    pub fn go_forward(&mut self) -> (r: Navigation)
        ensures
            forward_applies(old(self)@) ==> exists|i: int|
                #[trigger] old(self)@.at(old(self)@.active_id, i) && final(self)@ == old(self)@.with_tab(
                    i,
                    stepped_tab(old(self)@.tabs[i], after_forward(old(self)@.tabs[i].history)),
                ) && shows(r, after_forward(old(self)@.tabs[i].history).current()),
            !forward_applies(old(self)@) ==> (final(self)@ == old(self)@ && r is Ignored),
    {
        proof {
            use_type_invariant(&*self);
        }
        let i = match self.position(self.active_id) {
            Some(i) => i,
            None => {
                return Navigation::Ignored;
            },
        };
        let mut tab = self.copy_tab(i);
        match tab.go_forward() {
            Some(target) => {
                let page = page_name(target.as_str());
                if page.is_some() {
                    tab.title = page_title(target.as_str()).to_owned();
                }
                self.replace_tab(i, tab);
                match page {
                    Some(p) => Navigation::ShowPage(p, target),
                    None => Navigation::LoadWeb(target),
                }
            },
            None => Navigation::Ignored,
        }
    }

    /// The tab one step back or forward from the one shown, wrapping
    /// around; counting from the first tab when none is shown.
    pub fn neighbour_id(&self, backwards: bool) -> (r: Option<usize>)
        ensures
            self@.tabs.len() == 0 ==> r is None,
            self@.tabs.len() > 0 ==> r == Some(
                self@.tabs[cycle_index(current_index(self@), self@.tabs.len() as int, backwards)].id,
            ),
    {
        proof {
            use_type_invariant(self);
        }
        let n = self.tabs.len();
        if n == 0 {
            return None;
        }
        let current = match self.position(self.active_id) {
            Some(i) => i,
            None => 0,
        };
        proof {
            if self@.has(self@.active_id) {
                let c = choose|i: int| self@.at(self@.active_id, i);
                assert(c == current);
            }
        }
        let next = if backwards {
            if current == 0 {
                n - 1
            } else {
                current - 1
            }
        } else {
            (current + 1) % n
        };
        Some(self.tabs[next].id)
    }

    /// The tab for the digit key `digit`: 1 for the first tab up to 9 for
    /// the ninth.
    pub fn tab_for_digit(&self, digit: u32) -> (r: Option<usize>)
        ensures
            r == (if 1 <= digit <= 9 && digit - 1 < self@.tabs.len() {
                Some(self@.tabs[digit - 1].id)
            } else {
                None::<usize>
            }),
    {
        if digit == 0 || digit > 9 {
            return None;
        }
        let index = (digit - 1) as usize;
        if index < self.tabs.len() {
            Some(self.tabs[index].id)
        } else {
            None
        }
    }

    /// The internal page that reloading the tab shown rebuilds, if it shows
    /// one; a web page is reloaded by its web view instead.
    pub fn reload_target(&self) -> (r: Option<String>)
        ensures
            match r {
                Some(u) => exists|i: int|
                    #[trigger] self@.at(self@.active_id, i) && u@ == self@.tabs[i].uri && page_name_of(
                        u@,
                    ) is Some,
                None => forall|i: int|
                    #[trigger] self@.at(self@.active_id, i) ==> page_name_of(self@.tabs[i].uri) is None,
            },
    {
        proof {
            use_type_invariant(self);
        }
        match self.position(self.active_id) {
            Some(i) => {
                let uri = self.tabs[i].uri.clone();
                if page_name(uri.as_str()).is_some() {
                    assert(self@.at(self@.active_id, i as int) && uri@ == self@.tabs[i as int].uri);
                    Some(uri)
                } else {
                    None
                }
            },
            None => None,
        }
    }
}

/// A page's own title when not blank, else `fallback`.
pub fn title_or(title: Option<String>, fallback: String) -> (r: String)
    ensures
        r@ == shown_title(opt_string_view(title), fallback@),
{
    match title {
        Some(t) => {
            if trim(&chars_of(t.as_str())).len() > 0 {
                t
            } else {
                fallback
            }
        },
        None => fallback,
    }
}

/// What the address bar holds when it is focused from the keyboard: an
/// internal address is cleared so that a new one can be typed, anything
/// else is kept.
pub fn address_for_editing(text: &str) -> (r: String)
    ensures
        r@ == (if has_prefix(text@, "axys://"@) {
            Seq::<char>::empty()
        } else {
            text@
        }),
{
    if starts_with(&chars_of(text), &chars_of("axys://")) {
        String::new()
    } else {
        text.to_owned()
    }
}

/// The visit a normal window records when a page finishes loading: the
/// page's address, when it is a web address, with its title (the address
/// when the title is blank). Private windows record nothing.
pub fn visit_to_record(private_mode: bool, uri: Option<String>, title: Option<String>) -> (r: Option<
    (String, String),
>)
    ensures
        match r {
            Some((t, u)) => !private_mode && opt_string_view(uri) == Some(u@) && is_web_address(u@)
                && t@ == shown_title(opt_string_view(title), u@),
            None => private_mode || match uri {
                Some(u) => !is_web_address(u@),
                None => true,
            },
        },
{
    if private_mode {
        return None;
    }
    match uri {
        Some(u) => {
            if !is_web_url(u.as_str()) {
                return None;
            }
            let t = title_or(title, u.clone());
            Some((t, u))
        },
        None => None,
    }
}

/// The label of a tab in the tab bar: its title, or "New Tab" when the
/// title is empty.
pub fn tab_label(title: &str) -> (r: String)
    ensures
        r@ == (if title@.len() == 0 {
            "New Tab"@
        } else {
            title@
        }),
{
    if title.is_empty() {
        "New Tab".to_owned()
    } else {
        title.to_owned()
    }
}

/// One step forward and then one step back among `len` tabs returns to
/// the tab one started from, and so does a step back and then forward.
pub proof fn law_cycle_round_trip(current: int, len: int)
    requires
        0 <= current < len,
    ensures
        cycle_index(cycle_index(current, len, false), len, true) == current,
        cycle_index(cycle_index(current, len, true), len, false) == current,
        0 <= cycle_index(current, len, false) < len,
        0 <= cycle_index(current, len, true) < len,
{
    if current + 1 < len {
        vstd::arithmetic::div_mod::lemma_small_mod((current + 1) as nat, len as nat);
    } else {
        vstd::arithmetic::div_mod::lemma_mod_self_0(len);
    }
    if current > 0 {
        vstd::arithmetic::div_mod::lemma_small_mod(current as nat, len as nat);
    } else {
        vstd::arithmetic::div_mod::lemma_small_mod(0, len as nat);
    }
}

/// Closing one of several tabs leaves the window with a tab, and when the
/// window showed one of its tabs, it still shows one of its tabs.
pub proof fn law_close_keeps_a_shown_tab(v: SessionView, id: usize, i: int)
    requires
        v.ok(),
        v.tabs.len() > 1,
        v.at(id, i),
        v.has(v.active_id),
    ensures
        v.after_removal(id, i).tabs.len() >= 1,
        v.after_removal(id, i).has(v.after_removal(id, i).active_id),
{
    let w = v.after_removal(id, i);
    if v.active_id == id {
        assert(w.at(w.active_id, w.tabs.len() - 1));
    } else {
        let j = choose|j: int| v.at(v.active_id, j);
        assert(j != i);
        if j < i {
            assert(w.at(w.active_id, j));
        } else {
            assert(w.at(w.active_id, j - 1));
        }
    }
}

} // verus!
