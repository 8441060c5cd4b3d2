//! The download queue: resolved pages waiting, in progress, done or
//! failed, each listed once.

use crate::input::{KeyCode, KeyPress};
use crate::keys::{CatalogKey, PageKey, PageKeyView};
use crate::list::{move_list_selection, moved_selection, ListCursor};
use crate::slides::{decimal, decimal_text};
use vstd::prelude::*;

verus! {

/// A selected page with the names under which it is shown and saved.
#[derive(Debug)]
pub struct ResolvedPage {
    pub page_key: PageKey,
    pub course_name: String,
    pub lecture_name: String,
    pub page_name: String,
}

pub open spec fn resolved_keys(pages: Seq<ResolvedPage>) -> Seq<PageKeyView> {
    pages.map_values(|p: ResolvedPage| p.page_key@)
}

/// Where a download stands.
#[derive(Debug, PartialEq, Eq)]
pub enum DownloadStatus {
    Pending,
    /// Percent done (at most 100) and what is being done.
    Downloading(u8, String),
    /// The files written.
    Completed(Vec<String>),
    /// Why it failed.
    Failed(String),
}

/// Abstract value of a [`DownloadStatus`].
pub enum StatusView {
    Pending,
    Downloading(u8, Seq<char>),
    Completed(Seq<Seq<char>>),
    Failed(Seq<char>),
}

impl View for DownloadStatus {
    type V = StatusView;

    open spec fn view(&self) -> StatusView {
        match self {
            DownloadStatus::Pending => StatusView::Pending,
            DownloadStatus::Downloading(p, s) => StatusView::Downloading(*p, s@),
            DownloadStatus::Completed(files) => StatusView::Completed(files@.map_values(|f: String| f@)),
            DownloadStatus::Failed(e) => StatusView::Failed(e@),
        }
    }
}

/// What the download list asks of the application.
#[derive(Debug)]
pub enum DownloadAction {
    /// Open the files of a completed download.
    Open(Vec<String>),
}

/// A row of the download list.
#[derive(Debug)]
pub struct DownloadItem {
    pub page_key: PageKey,
    pub display_path: String,
    pub status: DownloadStatus,
}

/// Abstract value of a [`DownloadItem`].
pub struct ItemView {
    pub key: PageKeyView,
    pub display_path: Seq<char>,
    pub status: StatusView,
}

impl View for DownloadItem {
    type V = ItemView;

    open spec fn view(&self) -> ItemView {
        ItemView { key: self.page_key@, display_path: self.display_path@, status: self.status@ }
    }
}

/// Abstract state of a [`DownloadComponent`].
pub struct DownloadView {
    pub items: Seq<ItemView>,
    pub selected: Option<usize>,
}

pub open spec fn item_keys(items: Seq<ItemView>) -> Seq<PageKeyView> {
    items.map_values(|i: ItemView| i.key)
}

/// "course > lecture > page".
pub open spec fn display_path_of(p: ResolvedPage) -> Seq<char> {
    p.course_name@ + " > "@ + p.lecture_name@ + " > "@ + p.page_name@
}

/// The queue after appending, in order, each page not listed yet.
pub open spec fn enqueued(items: Seq<ItemView>, pages: Seq<ResolvedPage>) -> Seq<ItemView>
    decreases pages.len(),
{
    if pages.len() == 0 {
        items
    } else {
        let prev = enqueued(items, pages.drop_last());
        let p = pages.last();
        if item_keys(prev).contains(p.page_key@) {
            prev
        } else {
            prev.push(ItemView { key: p.page_key@, display_path: display_path_of(p), status: StatusView::Pending })
        }
    }
}

pub open spec fn is_pending(s: StatusView) -> bool {
    s is Pending
}

pub open spec fn is_downloading(s: StatusView) -> bool {
    s is Downloading
}

pub open spec fn is_completed(s: StatusView) -> bool {
    s is Completed
}

pub open spec fn is_failed(s: StatusView) -> bool {
    s is Failed
}

/// How many items have a status that satisfies `f`.
pub open spec fn count_status(items: Seq<ItemView>, f: spec_fn(StatusView) -> bool) -> nat
    decreases items.len(),
{
    if items.len() == 0 {
        0
    } else {
        count_status(items.drop_last(), f) + if f(items.last().status) {
            1nat
        } else {
            0nat
        }
    }
}

/// The position of the item with the key, if it is listed.
pub open spec fn position_of(items: Seq<ItemView>, key: PageKeyView) -> Option<int> {
    if item_keys(items).contains(key) {
        Some(item_keys(items).index_of(key))
    } else {
        None
    }
}

/// The queue with the status of the item with the key replaced (unchanged
/// when the key is not listed).
pub open spec fn with_status(items: Seq<ItemView>, key: PageKeyView, status: StatusView) -> Seq<ItemView> {
    match position_of(items, key) {
        Some(i) => items.update(i, ItemView { status: status, ..items[i] }),
        None => items,
    }
}

/// A download in progress reports at most 100 percent.
pub open spec fn progress_ok(s: StatusView) -> bool {
    match s {
        StatusView::Downloading(p, _) => p <= 100,
        _ => true,
    }
}

/// Every download in progress reports at most 100 percent.
pub open spec fn progress_in_range(items: Seq<ItemView>) -> bool {
    forall|i: int| 0 <= i < items.len() ==> progress_ok(#[trigger] items[i].status)
}

pub open spec fn downloading_count(items: Seq<ItemView>) -> nat {
    count_status(items, |s: StatusView| is_downloading(s))
}

pub open spec fn completed_count(items: Seq<ItemView>) -> nat {
    count_status(items, |s: StatusView| is_completed(s))
}

pub open spec fn failed_count(items: Seq<ItemView>) -> nat {
    count_status(items, |s: StatusView| is_failed(s))
}

/// Abstract value of a [`DownloadAction`].
pub enum DownloadRequest {
    Open(Seq<Seq<char>>),
}

impl View for DownloadAction {
    type V = DownloadRequest;

    open spec fn view(&self) -> DownloadRequest {
        match self {
            DownloadAction::Open(files) => DownloadRequest::Open(files@.map_values(|f: String| f@)),
        }
    }
}

pub open spec fn download_request_of(a: Option<DownloadAction>) -> Option<DownloadRequest> {
    match a {
        Some(a) => Some(a@),
        None => None,
    }
}

/// What a key press does to the download list: arrows (and j, k) move the
/// highlight; Enter on a completed download with files asks to open them.
pub open spec fn after_download_key(v: DownloadView, key: KeyPress) -> (DownloadView, Option<DownloadRequest>) {
    match key.code {
        KeyCode::Up | KeyCode::Char('k') => (
            DownloadView { selected: moved_selection(v.selected, v.items.len() as usize, -1i32), ..v },
            None,
        ),
        KeyCode::Down | KeyCode::Char('j') => (
            DownloadView { selected: moved_selection(v.selected, v.items.len() as usize, 1i32), ..v },
            None,
        ),
        KeyCode::Enter => match v.selected {
            Some(i) => if i < v.items.len() {
                match v.items[i as int].status {
                    StatusView::Completed(files) => if files.len() > 0 {
                        (v, Some(DownloadRequest::Open(files)))
                    } else {
                        (v, None)
                    },
                    _ => (v, None),
                }
            } else {
                (v, None)
            },
            None => (v, None),
        },
        _ => (v, None),
    }
}

/// Width of a progress bar in cells.
pub const PROGRESS_BAR_WIDTH: usize = 20;

/// The filled and the empty cells of a progress bar at `percent`.
pub fn progress_cells(percent: u8) -> (r: (usize, usize))
    requires
        percent <= 100,
    ensures
        r.0 == percent as int * 20 / 100,
        r.0 + r.1 == 20,
{
    let filled = (percent as usize) * PROGRESS_BAR_WIDTH / 100;
    assert(filled <= 20) by (nonlinear_arith)
        requires
            filled == percent as int * 20 / 100,
            percent <= 100,
    ;
    (filled, PROGRESS_BAR_WIDTH - filled)
}

/// The text shown after the progress bar of a row (a failed row shows no
/// bar, only this text).
pub open spec fn status_text(s: StatusView) -> Seq<char> {
    match s {
        StatusView::Pending => "  待機中"@,
        StatusView::Downloading(pct, phase) => "  "@ + decimal(pct as nat) + "% "@ + phase,
        StatusView::Completed(_) => " 100% 完了"@,
        StatusView::Failed(msg) => "✗ エラー: "@ + msg,
    }
}

/// The status text of a row, as `status_text` defines it.
pub fn status_label(status: &DownloadStatus) -> (r: String)
    ensures
        r@ == status_text(status@),
{
    match status {
        DownloadStatus::Pending => String::from_str("  待機中"),
        DownloadStatus::Downloading(pct, phase) => {
            let mut r = String::from_str("  ");
            r.append(decimal_text(*pct as usize).as_str());
            r.append("% ");
            r.append(phase.as_str());
            r
        },
        DownloadStatus::Completed(_) => String::from_str(" 100% 完了"),
        DownloadStatus::Failed(msg) => {
            let mut r = String::from_str("✗ エラー: ");
            r.append(msg.as_str());
            r
        },
    }
}

/// Enqueueing keeps every listed page listed and lists every enqueued
/// page.
pub proof fn lemma_enqueued_keeps_keys(items: Seq<ItemView>, pages: Seq<ResolvedPage>)
    ensures
        forall|k: PageKeyView| item_keys(items).contains(k) ==> #[trigger] item_keys(enqueued(items, pages)).contains(k),
        forall|i: int| 0 <= i < pages.len() ==> item_keys(enqueued(items, pages)).contains(#[trigger] pages[i].page_key@),
    decreases pages.len(),
{
    if pages.len() > 0 {
        let prev = enqueued(items, pages.drop_last());
        lemma_enqueued_keeps_keys(items, pages.drop_last());
        let p = pages.last();
        if !item_keys(prev).contains(p.page_key@) {
            let iv = ItemView { key: p.page_key@, display_path: display_path_of(p), status: StatusView::Pending };
            assert(item_keys(prev.push(iv)) =~= item_keys(prev).push(p.page_key@));
            assert forall|k: PageKeyView| item_keys(prev).contains(k) implies #[trigger] item_keys(prev.push(iv)).contains(k) by {
                let j = item_keys(prev).index_of(k);
                assert(item_keys(prev.push(iv))[j] == k);
            }
            assert(item_keys(prev.push(iv))[prev.len() as int] == p.page_key@);
        }
        assert forall|i: int| 0 <= i < pages.len() implies item_keys(enqueued(items, pages)).contains(#[trigger] pages[i].page_key@) by {
            if i < pages.len() - 1 {
                assert(pages.drop_last()[i] == pages[i]);
            }
        }
    }
}

proof fn lemma_enqueued_known(items: Seq<ItemView>, pages: Seq<ResolvedPage>)
    requires
        forall|i: int| 0 <= i < pages.len() ==> item_keys(items).contains(#[trigger] pages[i].page_key@),
    ensures
        enqueued(items, pages) == items,
    decreases pages.len(),
{
    if pages.len() > 0 {
        assert forall|i: int| 0 <= i < pages.drop_last().len() implies item_keys(items).contains(#[trigger] pages.drop_last()[i].page_key@) by {
            assert(pages.drop_last()[i] == pages[i]);
        }
        lemma_enqueued_known(items, pages.drop_last());
        assert(item_keys(items).contains(pages[pages.len() - 1].page_key@));
    }
}

/// Enqueueing the same pages twice lists nothing more than enqueueing
/// them once.
pub proof fn lemma_enqueue_idempotent(items: Seq<ItemView>, pages: Seq<ResolvedPage>)
    ensures
        enqueued(enqueued(items, pages), pages) == enqueued(items, pages),
{
    lemma_enqueued_keeps_keys(items, pages);
    lemma_enqueued_known(enqueued(items, pages), pages);
}

/// No count of items by status exceeds the number of items.
pub proof fn lemma_count_at_most_len(items: Seq<ItemView>, f: spec_fn(StatusView) -> bool)
    ensures
        count_status(items, f) <= items.len(),
    decreases items.len(),
{
    if items.len() > 0 {
        lemma_count_at_most_len(items.drop_last(), f);
    }
}

pub open spec fn pending_count(items: Seq<ItemView>) -> nat {
    count_status(items, |s: StatusView| is_pending(s))
}

/// Replacing one item changes a count by what the old and new statuses
/// contribute.
pub proof fn lemma_count_update(items: Seq<ItemView>, p: int, x: ItemView, f: spec_fn(StatusView) -> bool)
    requires
        0 <= p < items.len(),
    ensures
        count_status(items.update(p, x), f) + (if f(items[p].status) { 1int } else { 0int }) == count_status(items, f)
            + (if f(x.status) { 1int } else { 0int }),
    decreases items.len(),
{
    let u = items.update(p, x);
    if p == items.len() - 1 {
        assert(u.drop_last() =~= items.drop_last());
    } else {
        assert(u.drop_last() =~= items.drop_last().update(p, x));
        lemma_count_update(items.drop_last(), p, x, f);
    }
}

/// The position of a listed key in a list without repetitions is where
/// the key stands.
pub proof fn lemma_position_of_unique(items: Seq<ItemView>, i: int)
    requires
        item_keys(items).no_duplicates(),
        0 <= i < items.len(),
    ensures
        position_of(items, items[i].key) == Some(i),
{
    let ks = item_keys(items);
    assert(ks[i] == items[i].key);
    let j = ks.index_of(items[i].key);
    assert(ks[j] == items[i].key);
}

/// The download list.
pub struct DownloadComponent {
    items: Vec<DownloadItem>,
    list_state: ListCursor,
}

impl View for DownloadComponent {
    type V = DownloadView;

    closed spec fn view(&self) -> DownloadView {
        DownloadView { items: self.items@.map_values(|i: DownloadItem| i@), selected: self.list_state.selected }
    }
}

/// Counts of the items by status, for the list's footer.
#[derive(Debug)]
pub struct DownloadSummary {
    pub total: usize,
    pub completed: usize,
    pub downloading: usize,
    pub failed: usize,
}

impl DownloadComponent {
    /// Each page is listed once, and progress stays within 100 percent.
    pub open spec fn wf(&self) -> bool {
        &&& item_keys(self@.items).no_duplicates()
        &&& progress_in_range(self@.items)
    }

    pub fn new() -> (d: Self)
        ensures
            d.wf(),
            d@.items == Seq::<ItemView>::empty(),
            d@.selected is None,
    {
        let d = DownloadComponent { items: Vec::new(), list_state: ListCursor::new() };
        assert(d@.items =~= Seq::<ItemView>::empty());
        d
    }

    fn position(&self, key: &PageKey) -> (r: Option<usize>)
        ensures
            r is None ==> position_of(self@.items, key@) is None,
            r matches Some(i) ==> item_keys(self@.items).no_duplicates() ==> position_of(self@.items, key@) == Some(i as int),
            r matches Some(i) ==> i < self@.items.len() && self@.items[i as int].key == key@,
    {
        let ghost ks = item_keys(self@.items);
        let mut i: usize = 0;
        while i < self.items.len()
            invariant
                ks == item_keys(self@.items),
                i <= self.items.len(),
                forall|j: int| 0 <= j < i ==> ks[j] != key@,
            decreases self.items.len() - i,
        {
            if self.items[i].page_key.same_key(key) {
                proof {
                    assert(ks[i as int] == key@);
                    if ks.no_duplicates() {
                        let k = ks.index_of(key@);
                        assert(ks[k] == key@);
                    }
                }
                return Some(i);
            }
            i += 1;
        }
        None
    }

    /// Appends the pages not listed yet, in order, as pending; highlights
    /// the first row if none is highlighted and the list is not empty.
    pub fn enqueue(&mut self, pages: Vec<ResolvedPage>)
        requires
            old(self).wf(),
        ensures
            final(self).wf(),
            final(self)@.items == enqueued(old(self)@.items, pages@),
            final(self)@.selected == if final(self)@.items.len() > 0 && old(self)@.selected is None {
                Some(0usize)
            } else {
                old(self)@.selected
            },
    {
        let ghost start = self@.items;
        let ghost ps = pages@;
        assert(ps.take(0) =~= Seq::<ResolvedPage>::empty());
        let mut i: usize = 0;
        while i < pages.len()
            invariant
                self.wf(),
                self.list_state == old(self).list_state,
                ps == pages@,
                i <= ps.len(),
                self@.items == enqueued(start, ps.take(i as int)),
            decreases pages.len() - i,
        {
            let p = &pages[i];
            let ghost prev = self@.items;
            proof {
                assert(ps.take(i + 1).drop_last() =~= ps.take(i as int));
                assert(ps.take(i + 1).last() == ps[i as int]);
            }
            if self.position(&p.page_key).is_none() {
                let mut path = p.course_name.clone();
                path.append(" > ");
                path.append(p.lecture_name.as_str());
                path.append(" > ");
                path.append(p.page_name.as_str());
                let item = DownloadItem { page_key: p.page_key.clone(), display_path: path, status: DownloadStatus::Pending };
                self.items.push(item);
                proof {
                    let iv = ItemView { key: p.page_key@, display_path: display_path_of(*p), status: StatusView::Pending };
                    assert(self@.items =~= prev.push(iv));
                    assert(item_keys(self@.items) =~= item_keys(prev).push(p.page_key@));
                    assert(!item_keys(prev).contains(p.page_key@));
                    assert forall|a: int, b: int| 0 <= a < item_keys(self@.items).len() && 0 <= b < item_keys(self@.items).len() && a != b
                        implies item_keys(self@.items)[a] != item_keys(self@.items)[b] by {
                        if a == prev.len() {
                            assert(item_keys(prev)[b] != p.page_key@);
                        } else if b == prev.len() {
                            assert(item_keys(prev)[a] != p.page_key@);
                        }
                    }
                    assert(progress_in_range(self@.items)) by {
                        assert forall|k: int| 0 <= k < self@.items.len() implies progress_ok(#[trigger] self@.items[k].status) by {
                            if k < prev.len() {
                                assert(self@.items[k] == prev[k]);
                            }
                        }
                    }
                }
            }
            i += 1;
        }
        assert(ps.take(ps.len() as int) =~= ps);
        if self.items.len() > 0 && self.list_state.selected().is_none() {
            self.list_state.select(Some(0));
        }
    }
    /// The first pending download, if any.
    pub fn next_pending(&self) -> (r: Option<PageKey>)
        ensures
            r is None ==> forall|i: int| 0 <= i < self@.items.len() ==> !is_pending(#[trigger] self@.items[i].status),
            r matches Some(k) ==> exists|i: int|
                0 <= i < self@.items.len() && is_pending(#[trigger] self@.items[i].status) && self@.items[i].key == k@
                    && forall|j: int| 0 <= j < i ==> !is_pending(#[trigger] self@.items[j].status),
    {
        let mut i: usize = 0;
        while i < self.items.len()
            invariant
                i <= self.items.len(),
                forall|j: int| 0 <= j < i ==> !is_pending(#[trigger] self@.items[j].status),
            decreases self.items.len() - i,
        {
            if let DownloadStatus::Pending = self.items[i].status {
                let k = self.items[i].page_key.clone();
                assert(is_pending(self@.items[i as int].status));
                return Some(k);
            }
            i += 1;
        }
        None
    }

    fn count_where(&self, which: u8) -> (n: usize)
        requires
            which < 3,
        ensures
            which == 0 ==> n == downloading_count(self@.items),
            which == 1 ==> n == completed_count(self@.items),
            which == 2 ==> n == failed_count(self@.items),
    {
        let ghost items = self@.items;
        let ghost f: spec_fn(StatusView) -> bool = if which == 0 {
            |s: StatusView| is_downloading(s)
        } else if which == 1 {
            |s: StatusView| is_completed(s)
        } else {
            |s: StatusView| is_failed(s)
        };
        let mut n: usize = 0;
        let mut i: usize = 0;
        assert(items.take(0) =~= Seq::<ItemView>::empty());
        while i < self.items.len()
            invariant
                items == self@.items,
                i <= self.items.len(),
                n == count_status(items.take(i as int), f),
                which < 3,
                which == 0 ==> f == (|s: StatusView| is_downloading(s)),
                which == 1 ==> f == (|s: StatusView| is_completed(s)),
                which == 2 ==> f == (|s: StatusView| is_failed(s)),
            decreases self.items.len() - i,
        {
            proof {
                assert(items.take(i + 1).drop_last() =~= items.take(i as int));
                assert(items.take(i + 1).last() == items[i as int]);
                lemma_count_at_most_len(items.take(i as int), f);
            }
            let hit = match &self.items[i].status {
                DownloadStatus::Downloading(_, _) => which == 0,
                DownloadStatus::Completed(_) => which == 1,
                DownloadStatus::Failed(_) => which == 2,
                DownloadStatus::Pending => false,
            };
            if hit {
                n = n + 1;
            }
            i += 1;
        }
        assert(items.take(items.len() as int) =~= items);
        n
    }

    /// How many downloads are in progress.
    pub fn active_count(&self) -> (n: usize)
        ensures
            n == downloading_count(self@.items),
    {
        self.count_where(0)
    }

    /// Counts of the items by status.
    pub fn summary(&self) -> (r: DownloadSummary)
        ensures
            r.total == self@.items.len(),
            r.completed == completed_count(self@.items),
            r.downloading == downloading_count(self@.items),
            r.failed == failed_count(self@.items),
    {
        DownloadSummary {
            total: self.items.len(),
            completed: self.count_where(1),
            downloading: self.count_where(0),
            failed: self.count_where(2),
        }
    }

    fn set_status(&mut self, page_key: &PageKey, status: DownloadStatus)
        requires
            old(self).wf(),
            progress_ok(status@),
        ensures
            final(self).wf(),
            final(self)@.items == with_status(old(self)@.items, page_key@, status@),
            final(self)@.selected == old(self)@.selected,
    {
        let ghost sv = status@;
        if let Some(i) = self.position(page_key) {
            let item = DownloadItem {
                page_key: self.items[i].page_key.clone(),
                display_path: self.items[i].display_path.clone(),
                status,
            };
            let ghost prev = self@.items;
            self.items.set(i, item);
            proof {
                assert(self@.items =~= prev.update(i as int, ItemView { status: sv, ..prev[i as int] }));
                assert(item_keys(self@.items) =~= item_keys(prev));
                assert forall|k: int| 0 <= k < self@.items.len() implies progress_ok(#[trigger] self@.items[k].status) by {
                    if k != i {
                        assert(self@.items[k] == prev[k]);
                    }
                }
            }
        }
    }

    /// Marks the download of the page as in progress at `progress` percent
    /// (capped at 100) in the given phase.
    pub fn update_progress(&mut self, page_key: &PageKey, progress: u8, phase: &str)
        requires
            old(self).wf(),
        ensures
            final(self).wf(),
            final(self)@.items == with_status(
                old(self)@.items,
                page_key@,
                StatusView::Downloading(if progress < 100 { progress } else { 100u8 }, phase@),
            ),
            final(self)@.selected == old(self)@.selected,
    {
        let p: u8 = if progress < 100 {
            progress
        } else {
            100
        };
        self.set_status(page_key, DownloadStatus::Downloading(p, phase.to_owned()));
    }

    /// Marks the download of the page as completed with the files written.
    pub fn mark_completed(&mut self, page_key: &PageKey, files: Vec<String>)
        requires
            old(self).wf(),
        ensures
            final(self).wf(),
            final(self)@.items == with_status(
                old(self)@.items,
                page_key@,
                StatusView::Completed(files@.map_values(|f: String| f@)),
            ),
            final(self)@.selected == old(self)@.selected,
    {
        self.set_status(page_key, DownloadStatus::Completed(files));
    }

    /// Marks the download of the page as failed with the error.
    pub fn mark_failed(&mut self, page_key: &PageKey, error: String)
        requires
            old(self).wf(),
        ensures
            final(self).wf(),
            final(self)@.items == with_status(old(self)@.items, page_key@, StatusView::Failed(error@)),
            final(self)@.selected == old(self)@.selected,
    {
        self.set_status(page_key, DownloadStatus::Failed(error));
    }

    fn handle_key_event(&mut self, key: KeyPress) -> (r: Option<DownloadAction>)
        requires
            old(self).wf(),
        ensures
            final(self).wf(),
            (final(self)@, download_request_of(r)) == after_download_key(old(self)@, key),
    {
        match key.code {
            KeyCode::Up | KeyCode::Char('k') => {
                let n = self.items.len();
                move_list_selection(&mut self.list_state, n, -1);
                None
            },
            KeyCode::Down | KeyCode::Char('j') => {
                let n = self.items.len();
                move_list_selection(&mut self.list_state, n, 1);
                None
            },
            KeyCode::Enter => {
                if let Some(idx) = self.list_state.selected() {
                    if idx < self.items.len() {
                        if let DownloadStatus::Completed(files) = &self.items[idx].status {
                            if files.len() > 0 {
                                return Some(DownloadAction::Open(files.clone()));
                            }
                        }
                    }
                }
                None
            },
            _ => None,
        }
    }

    /// Handles a key press while the download list has the focus.
    pub fn handle_event(&mut self, key: KeyPress) -> (r: Option<DownloadAction>)
        requires
            old(self).wf(),
        ensures
            final(self).wf(),
            (final(self)@, download_request_of(r)) == after_download_key(old(self)@, key),
    {
        self.handle_key_event(key)
    }

    /// The rows of the list.
    pub fn items(&self) -> (r: &Vec<DownloadItem>)
        ensures
            r@.map_values(|i: DownloadItem| i@) == self@.items,
    {
        &self.items
    }

    /// The highlighted row.
    pub fn selected(&self) -> (r: Option<usize>)
        ensures
            r == self@.selected,
    {
        self.list_state.selected()
    }
}

} // verus!
