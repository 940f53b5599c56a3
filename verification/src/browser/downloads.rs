//! Downloads: the list of files being or having been downloaded, and how
//! each moves from in progress to completed, cancelled or failed.
use vstd::prelude::*;

use crate::text::{chars_of, string_of, trim, trim_ws};

verus! {

/// What a [`DownloadStatus`] stands for.
pub enum StatusView {
    InProgress,
    Completed,
    Cancelled,
    Failed(Seq<char>),
}

/// Where a download stands.
#[derive(Debug, PartialEq, Eq)]
pub enum DownloadStatus {
    InProgress,
    Completed,
    Cancelled,
    Failed(String),
}

impl View for DownloadStatus {
    type V = StatusView;

    open spec fn view(&self) -> StatusView {
        match self {
            DownloadStatus::InProgress => StatusView::InProgress,
            DownloadStatus::Completed => StatusView::Completed,
            DownloadStatus::Cancelled => StatusView::Cancelled,
            DownloadStatus::Failed(m) => StatusView::Failed(m@),
        }
    }
}

impl Clone for DownloadStatus {
    fn clone(&self) -> (r: Self)
        ensures
            r@ == self@,
    {
        match self {
            DownloadStatus::InProgress => DownloadStatus::InProgress,
            DownloadStatus::Completed => DownloadStatus::Completed,
            DownloadStatus::Cancelled => DownloadStatus::Cancelled,
            DownloadStatus::Failed(m) => DownloadStatus::Failed(m.clone()),
        }
    }
}

/// What a [`DownloadEntry`] stands for.
pub struct DownloadEntryView {
    pub id: u64,
    pub filename: Seq<char>,
    pub path: Seq<char>,
    pub status: StatusView,
}

/// One download: its id, the name and path of the file it writes (empty
/// until a destination is chosen) and where it stands.
#[derive(Debug, PartialEq, Eq)]
pub struct DownloadEntry {
    pub id: u64,
    pub filename: String,
    pub path: String,
    pub status: DownloadStatus,
}

impl View for DownloadEntry {
    type V = DownloadEntryView;

    open spec fn view(&self) -> DownloadEntryView {
        DownloadEntryView { id: self.id, filename: self.filename@, path: self.path@, status: self.status@ }
    }
}

impl Clone for DownloadEntry {
    fn clone(&self) -> (r: Self)
        ensures
            r@ == self@,
    {
        DownloadEntry {
            id: self.id,
            filename: self.filename.clone(),
            path: self.path.clone(),
            status: self.status.clone(),
        }
    }
}

/// What a [`DownloadManager`] stands for: the downloads in the order they
/// started, and the id the next one gets.
pub struct DownloadsView {
    pub entries: Seq<DownloadEntryView>,
    pub next_id: u64,
}

impl DownloadsView {
    /// `i` is the position of the download `id`.
    pub open spec fn at(self, id: u64, i: int) -> bool {
        0 <= i < self.entries.len() && self.entries[i].id == id
    }

    /// Some download has the id `id`.
    pub open spec fn has(self, id: u64) -> bool {
        exists|i: int| self.at(id, i)
    }

    /// Ids are distinct and all below the next id.
    pub open spec fn ids_ok(self) -> bool {
        &&& forall|i: int| 0 <= i < self.entries.len() ==> #[trigger] self.entries[i].id < self.next_id
        &&& forall|i: int, j: int|
            0 <= i < self.entries.len() && 0 <= j < self.entries.len() && i != j
                ==> #[trigger] self.entries[i].id != #[trigger] self.entries[j].id
    }

    /// The download `id` is known and still in progress.
    pub open spec fn in_progress(self, id: u64) -> bool {
        exists|i: int| #[trigger] self.at(id, i) && self.entries[i].status is InProgress
    }

    /// The number of downloads in progress.
    pub open spec fn active(self) -> nat {
        count_active(self.entries)
    }
}

/// The number of downloads in `s` that are in progress.
pub open spec fn count_active(s: Seq<DownloadEntryView>) -> nat
    decreases s.len(),
{
    if s.len() == 0 {
        0
    } else {
        count_active(s.drop_last()) + if s.last().status is InProgress {
            1nat
        } else {
            0nat
        }
    }
}

/// A download that has just started with the id `id`: named `Download`,
/// with no path yet, in progress.
pub open spec fn started_entry(id: u64) -> DownloadEntryView {
    DownloadEntryView { id, filename: "Download"@, path: Seq::empty(), status: StatusView::InProgress }
}

/// The downloads after one more has started: it is appended with the next
/// id, and the next id moves on by one.
pub open spec fn after_start(v: DownloadsView) -> DownloadsView {
    DownloadsView { entries: v.entries.push(started_entry(v.next_id)), next_id: (v.next_id + 1) as u64 }
}

/// The downloads after `k` more have started, one after the other.
pub open spec fn after_starts(v: DownloadsView, k: nat) -> DownloadsView
    decreases k,
{
    if k == 0 {
        v
    } else {
        after_start(after_starts(v, (k - 1) as nat))
    }
}

/// Downloads started one after the other are appended in the order they
/// started, with the ids `next_id`, `next_id + 1`, and so on; the ids stay
/// distinct, so none is ever given twice.
pub proof fn law_started_ids_increase(v: DownloadsView, k: nat)
    requires
        v.ids_ok(),
        v.next_id + k <= u64::MAX,
    ensures
        after_starts(v, k).entries == v.entries + Seq::new(
            k,
            |j: int| started_entry((v.next_id + j) as u64),
        ),
        after_starts(v, k).next_id == v.next_id + k,
        after_starts(v, k).ids_ok(),
    decreases k,
{
    if k > 0 {
        let k1 = (k - 1) as nat;
        law_started_ids_increase(v, k1);
        let w = after_starts(v, k1);
        let f = |j: int| started_entry((v.next_id + j) as u64);
        assert(w.entries.push(started_entry(w.next_id)) =~= v.entries + Seq::new(k, f));
        let u = after_start(w);
        assert forall|i: int| 0 <= i < u.entries.len() implies #[trigger] u.entries[i].id < u.next_id by {
            if i < w.entries.len() {
                assert(w.entries[i].id < w.next_id);
            }
        }
        assert forall|i: int, j: int|
            0 <= i < u.entries.len() && 0 <= j < u.entries.len() && i != j implies #[trigger] u.entries[i].id
            != #[trigger] u.entries[j].id by {
            if i < w.entries.len() && j < w.entries.len() {
                assert(w.entries[i].id != w.entries[j].id);
            } else if i < w.entries.len() {
                assert(w.entries[i].id < w.next_id);
            } else if j < w.entries.len() {
                assert(w.entries[j].id < w.next_id);
            }
        }
    }
}

/// The `count` newest of `s`, newest first.
pub open spec fn newest(s: Seq<DownloadEntryView>, count: nat) -> Seq<DownloadEntryView> {
    s.reverse().take(if count < s.len() {
        count as int
    } else {
        s.len() as int
    })
}

/// The downloads counted as active are exactly those still in progress:
/// one that has completed, failed or been cancelled is never counted.
pub proof fn law_active_are_in_progress(s: Seq<DownloadEntryView>)
    ensures
        count_active(s) == s.filter(|e: DownloadEntryView| e.status is InProgress).len(),
    decreases s.len(),
{
    reveal(Seq::filter);
    if s.len() > 0 {
        law_active_are_in_progress(s.drop_last());
    }
}

/// The views of a list of downloads.
pub open spec fn download_views(s: Seq<DownloadEntry>) -> Seq<DownloadEntryView> {
    s.map_values(|e: DownloadEntry| e@)
}

/// The file name offered for a download: the suggested one, or `download`
/// when the suggestion is blank.
pub open spec fn offered_name(suggested: Seq<char>) -> Seq<char> {
    if trim_ws(suggested).len() == 0 {
        "download"@
    } else {
        suggested
    }
}

/// The file name offered for a download.
pub fn default_file_name(suggested: &str) -> (r: String)
    ensures
        r@ == offered_name(suggested@),
{
    if trim(&chars_of(suggested)).len() == 0 {
        "download".to_owned()
    } else {
        suggested.to_owned()
    }
}

/// The downloads of every window, in the order they started.
pub struct DownloadManager {
    entries: Vec<DownloadEntry>,
    next_id: u64,
}

impl View for DownloadManager {
    type V = DownloadsView;

    closed spec fn view(&self) -> DownloadsView {
        DownloadsView { entries: download_views(self.entries@), next_id: self.next_id }
    }
}

impl DownloadManager {
    #[verifier::type_invariant]
    spec fn ids_unique(self) -> bool {
        self@.ids_ok()
    }

    /// No downloads yet; the first gets id 1.
    pub fn new() -> (m: Self)
        ensures
            m@.entries == Seq::<DownloadEntryView>::empty(),
            m@.next_id == 1,
    {
        let m = DownloadManager { entries: Vec::new(), next_id: 1 };
        assert(m@.entries =~= Seq::<DownloadEntryView>::empty());
        m
    }

    /// The id the next download gets.
    pub fn next_id(&self) -> (id: u64)
        ensures
            id == self@.next_id,
    {
        self.next_id
    }

    /// All downloads, in the order they started.
    pub fn entries(&self) -> (r: Vec<DownloadEntry>)
        ensures
            download_views(r@) == self@.entries,
            self@.ids_ok(),
    {
        proof {
            use_type_invariant(self);
        }
        let mut r: Vec<DownloadEntry> = Vec::new();
        let mut i: usize = 0;
        while i < self.entries.len()
            invariant
                i <= self.entries.len(),
                r@.len() == i,
                forall|k: int| 0 <= k < i ==> #[trigger] r@[k]@ == self.entries@[k]@,
            decreases self.entries.len() - i,
        {
            r.push(self.entries[i].clone());
            i = i + 1;
        }
        assert(download_views(r@) =~= self@.entries);
        r
    }

    /// The `count` newest downloads, newest first.
    pub fn recent(&self, count: usize) -> (r: Vec<DownloadEntry>)
        ensures
            download_views(r@) == newest(self@.entries, count as nat),
    {
        let n = self.entries.len();
        let ghost s = self@.entries;
        let mut r: Vec<DownloadEntry> = Vec::new();
        let mut i = n;
        while i > 0 && r.len() < count
            invariant
                i <= n == self.entries.len(),
                s == self@.entries,
                r@.len() == n - i,
                r@.len() <= count,
                forall|k: int| 0 <= k < n - i ==> #[trigger] r@[k]@ == s[n - 1 - k],
            decreases i,
        {
            i = i - 1;
            r.push(self.entries[i].clone());
        }
        assert(download_views(r@) =~= newest(s, count as nat));
        r
    }

    /// The number of downloads in progress.
    pub fn active_count(&self) -> (n: usize)
        ensures
            n == self@.active(),
    {
        let ghost s = self@.entries;
        let mut n: usize = 0;
        let mut i: usize = 0;
        assert(s.take(0) =~= Seq::<DownloadEntryView>::empty());
        while i < self.entries.len()
            invariant
                i <= self.entries.len(),
                s == self@.entries,
                n == count_active(s.take(i as int)),
                n <= i,
            decreases self.entries.len() - i,
        {
            assert(s.take(i + 1).drop_last() =~= s.take(i as int));
            if let DownloadStatus::InProgress = self.entries[i].status {
                n = n + 1;
            }
            i = i + 1;
        }
        assert(s.take(self.entries.len() as int) =~= s);
        n
    }

    /// Where the download `id` is kept.
    fn find(&self, id: u64) -> (r: Option<usize>)
        ensures
            match r {
                Some(i) => self@.at(id, i as int),
                None => !self@.has(id),
            },
    {
        let mut i: usize = 0;
        while i < self.entries.len()
            invariant
                i <= self.entries.len(),
                forall|j: int| 0 <= j < i ==> self.entries@[j].id != id,
            decreases self.entries.len() - i,
        {
            if self.entries[i].id == id {
                return Some(i);
            }
            i = i + 1;
        }
        None
    }

    /// Records a download that has just started, named `Download` until a
    /// destination is chosen, and gives its id.
    pub fn start(&mut self) -> (id: u64)
        requires
            old(self)@.next_id < u64::MAX,
        ensures
            id == old(self)@.next_id,
            final(self)@.next_id == id + 1,
            final(self)@.entries == old(self)@.entries.push(
                DownloadEntryView {
                    id,
                    filename: "Download"@,
                    path: Seq::empty(),
                    status: StatusView::InProgress,
                },
            ),
            final(self)@ == after_start(old(self)@),
            !old(self)@.has(id),
    {
        proof {
            use_type_invariant(&*self);
        }
        let id = self.next_id;
        let ghost before = self@.entries;
        let mut entries: Vec<DownloadEntry> = Vec::new();
        let mut i: usize = 0;
        while i < self.entries.len()
            invariant
                i <= self.entries.len(),
                entries@.len() == i,
                forall|k: int| 0 <= k < i ==> #[trigger] entries@[k]@ == self.entries@[k]@,
            decreases self.entries.len() - i,
        {
            entries.push(self.entries[i].clone());
            i = i + 1;
        }
        let e = DownloadEntry {
            id,
            filename: "Download".to_owned(),
            path: String::new(),
            status: DownloadStatus::InProgress,
        };
        let ghost added = e@;
        entries.push(e);
        assert(download_views(entries@) =~= before.push(added));
        *self = DownloadManager { entries, next_id: id + 1 };
        id
    }

    /// Replaces the download `id`, kept at `i`, by `e`.
    fn replace_at(&mut self, i: usize, e: DownloadEntry)
        requires
            i < old(self)@.entries.len(),
            e.id == old(self)@.entries[i as int].id,
        ensures
            final(self)@.entries == old(self)@.entries.update(i as int, e@),
            final(self)@.next_id == old(self)@.next_id,
    {
        proof {
            use_type_invariant(&*self);
        }
        let ghost before = self@.entries;
        let ghost changed = e@;
        let mut slot: Option<DownloadEntry> = Some(e);
        let mut entries: Vec<DownloadEntry> = Vec::new();
        let mut k: usize = 0;
        while k < self.entries.len()
            invariant
                k <= self.entries.len(),
                i < self.entries.len(),
                before == self@.entries,
                entries@.len() == k,
                forall|j: int|
                    0 <= j < k && j != i ==> #[trigger] entries@[j]@ == self.entries@[j]@,
                k > i ==> entries@[i as int]@ == changed,
                k <= i ==> (slot matches Some(x) && x@ == changed),
            decreases self.entries.len() - k,
        {
            if k == i {
                match slot.take() {
                    Some(x) => entries.push(x),
                    None => {},
                }
            } else {
                entries.push(self.entries[k].clone());
            }
            k = k + 1;
        }
        assert(download_views(entries@) =~= before.update(i as int, changed));
        *self = DownloadManager { entries, next_id: self.next_id };
    }

    /// Records the destination chosen for the download `id`: the file at
    /// `path`, named `file_name`, or `fallback_name` when the path has no
    /// file name. Nothing changes when there is no such download.
    pub fn set_destination(
        &mut self,
        id: u64,
        path: String,
        file_name: Option<String>,
        fallback_name: String,
    ) -> (found: bool)
        ensures
            found == old(self)@.has(id),
            final(self)@.next_id == old(self)@.next_id,
            found ==> exists|i: int|
                #[trigger] old(self)@.at(id, i) && final(self)@.entries == old(self)@.entries.update(
                    i,
                    DownloadEntryView {
                        id,
                        filename: match file_name {
                            Some(n) => n@,
                            None => fallback_name@,
                        },
                        path: path@,
                        status: old(self)@.entries[i].status,
                    },
                ),
            !found ==> final(self)@ == old(self)@,
    {
        match self.find(id) {
            Some(i) => {
                let filename = match file_name {
                    Some(n) => n,
                    None => fallback_name,
                };
                let e = DownloadEntry {
                    id,
                    filename,
                    path,
                    status: self.entries[i].status.clone(),
                };
                self.replace_at(i, e);
                true
            },
            None => false,
        }
    }

    /// Records that the download `id` has finished: one still in progress
    /// is now completed. Gives its file name and whether it was completed
    /// now; nothing when there is no such download.
    pub fn finish(&mut self, id: u64) -> (r: Option<(String, bool)>)
        ensures
            r is Some == old(self)@.has(id),
            final(self)@.next_id == old(self)@.next_id,
            match r {
                Some((name, completed)) => exists|i: int|
                    {
                        let e = old(self)@.entries[i];
                        &&& #[trigger] old(self)@.at(id, i)
                        &&& name@ == e.filename
                        &&& completed == (e.status is InProgress)
                        &&& final(self)@.entries == old(self)@.entries.update(
                            i,
                            DownloadEntryView {
                                status: if completed {
                                    StatusView::Completed
                                } else {
                                    e.status
                                },
                                ..e
                            },
                        )
                    },
                None => final(self)@ == old(self)@,
            },
    {
        match self.find(id) {
            Some(i) => {
                let completed = match self.entries[i].status {
                    DownloadStatus::InProgress => true,
                    _ => false,
                };
                let name = self.entries[i].filename.clone();
                let status = if completed {
                    DownloadStatus::Completed
                } else {
                    self.entries[i].status.clone()
                };
                let e = DownloadEntry {
                    id,
                    filename: self.entries[i].filename.clone(),
                    path: self.entries[i].path.clone(),
                    status,
                };
                self.replace_at(i, e);
                Some((name, completed))
            },
            None => None,
        }
    }

    /// Records that the download `id` failed with `message`, unless it was
    /// cancelled. Gives whether there is such a download.
    pub fn fail(&mut self, id: u64, message: String) -> (found: bool)
        ensures
            found == old(self)@.has(id),
            final(self)@.next_id == old(self)@.next_id,
            found ==> exists|i: int|
                {
                    let e = old(self)@.entries[i];
                    &&& #[trigger] old(self)@.at(id, i)
                    &&& final(self)@.entries == old(self)@.entries.update(
                        i,
                        DownloadEntryView {
                            status: if e.status is Cancelled {
                                e.status
                            } else {
                                StatusView::Failed(message@)
                            },
                            ..e
                        },
                    )
                },
            !found ==> final(self)@ == old(self)@,
    {
        match self.find(id) {
            Some(i) => {
                let status = match self.entries[i].status {
                    DownloadStatus::Cancelled => DownloadStatus::Cancelled,
                    _ => DownloadStatus::Failed(message),
                };
                let e = DownloadEntry {
                    id,
                    filename: self.entries[i].filename.clone(),
                    path: self.entries[i].path.clone(),
                    status,
                };
                self.replace_at(i, e);
                true
            },
            None => false,
        }
    }

    /// Cancels the download `id` when it is still in progress; a download
    /// that has finished, failed or was already cancelled is left as it is,
    /// and so is everything when there is no such download. Gives whether
    /// it was cancelled now, so that its transfer can be stopped.
    pub fn cancel(&mut self, id: u64) -> (cancelled: bool)
        ensures
            cancelled == old(self)@.in_progress(id),
            cancelled ==> exists|i: int|
                {
                    let e = old(self)@.entries[i];
                    &&& #[trigger] old(self)@.at(id, i)
                    &&& final(self)@.entries == old(self)@.entries.update(
                        i,
                        DownloadEntryView { status: StatusView::Cancelled, ..e },
                    )
                },
            final(self)@.next_id == old(self)@.next_id,
            !cancelled ==> final(self)@ == old(self)@,
    {
        proof {
            use_type_invariant(&*self);
        }
        match self.find(id) {
            Some(i) => {
                let running = match self.entries[i].status {
                    DownloadStatus::InProgress => true,
                    _ => false,
                };
                if !running {
                    proof {
                        assert forall|j: int| #[trigger] self@.at(id, j) implies !(
                        self@.entries[j].status is InProgress) by {
                            assert(j == i);
                        }
                    }
                    return false;
                }
                let e = DownloadEntry {
                    id,
                    filename: self.entries[i].filename.clone(),
                    path: self.entries[i].path.clone(),
                    status: DownloadStatus::Cancelled,
                };
                self.replace_at(i, e);
                true
            },
            None => false,
        }
    }
}

} // verus!
