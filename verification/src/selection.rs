//! Which courses, lectures and pages are selected, and the three-state
//! check marks shown beside them.
//!
//! Selecting a course or lecture selects it as a whole, including children
//! that have not been fetched yet; a check mark is derived from what is
//! selected and from what is known of the children.

use crate::cache::Cache;
use crate::keys::{CatalogKey, CourseKey, CourseKeyView, Lecture, LectureKey, LectureKeyView, LecturePage, PageKey, PageKeyView};
use crate::keyset::KeySet;
use vstd::prelude::*;

verus! {

/// The mark shown beside an entry of the selector.
#[derive(PartialEq, Eq, Structural, Clone, Copy, Debug)]
pub enum CheckState {
    Unchecked,
    Checked,
    Indeterminate,
}

/// Whether any child is checked, fully or partly.
pub open spec fn any_selected(children: Seq<CheckState>) -> bool {
    exists|i: int| 0 <= i < children.len() && children[i] != CheckState::Unchecked
}

/// Whether every child is fully checked.
pub open spec fn all_checked(children: Seq<CheckState>) -> bool {
    forall|i: int| 0 <= i < children.len() ==> children[i] == CheckState::Checked
}

/// The mark of a parent given the marks of its children: unchecked when it
/// has no children or none is selected, checked when all are, otherwise
/// indeterminate.
pub open spec fn aggregate_spec(children: Seq<CheckState>) -> CheckState {
    if children.len() == 0 || !any_selected(children) {
        CheckState::Unchecked
    } else if all_checked(children) {
        CheckState::Checked
    } else {
        CheckState::Indeterminate
    }
}

impl CheckState {
    /// The check box drawn before an entry.
    pub fn symbol(self) -> (s: &'static str)
        ensures
            self == CheckState::Unchecked ==> s@ == "[ ] "@,
            self == CheckState::Checked ==> s@ == "[x] "@,
            self == CheckState::Indeterminate ==> s@ == "[-] "@,
    {
        match self {
            CheckState::Unchecked => "[ ] ",
            CheckState::Checked => "[x] ",
            CheckState::Indeterminate => "[-] ",
        }
    }

    /// Combines the marks of the children into the mark of their parent.
    pub fn aggregate(children: &Vec<CheckState>) -> (r: CheckState)
        ensures
            r == aggregate_spec(children@),
    {
        let mut all = true;
        let mut any = false;
        let mut i: usize = 0;
        while i < children.len()
            invariant
                i <= children.len(),
                all == all_checked(children@.take(i as int)),
                any == any_selected(children@.take(i as int)),
            decreases children.len() - i,
        {
            let ghost prefix = children@.take(i as int);
            let ghost next = children@.take(i + 1);
            assert(next =~= prefix.push(children@[i as int]));
            match children[i] {
                CheckState::Checked => {
                    any = true;
                },
                CheckState::Indeterminate => {
                    any = true;
                    all = false;
                },
                CheckState::Unchecked => {
                    all = false;
                },
            }
            assert(all == all_checked(next)) by {
                if !all_checked(next) {
                    let j = choose|j: int| 0 <= j < next.len() && next[j] != CheckState::Checked;
                    if j < i {
                        assert(prefix[j] == next[j]);
                    }
                }
            }
            assert(any == any_selected(next)) by {
                if any_selected(next) {
                    let j = choose|j: int| 0 <= j < next.len() && next[j] != CheckState::Unchecked;
                    if j < i {
                        assert(prefix[j] == next[j]);
                    }
                } else {
                    assert(next[i as int] == CheckState::Unchecked);
                }
                if any_selected(prefix) {
                    let j = choose|j: int| 0 <= j < prefix.len() && prefix[j] != CheckState::Unchecked;
                    assert(next[j] == prefix[j]);
                }
            }
            i += 1;
        }
        assert(children@.take(children.len() as int) =~= children@);
        if children.len() == 0 || !any {
            CheckState::Unchecked
        } else if all {
            CheckState::Checked
        } else {
            CheckState::Indeterminate
        }
    }
}

/// Marks of the children when every one of them is unchecked.
pub proof fn lemma_aggregate_all_unchecked(children: Seq<CheckState>)
    requires
        forall|i: int| 0 <= i < children.len() ==> children[i] == CheckState::Unchecked,
    ensures
        aggregate_spec(children) == CheckState::Unchecked,
{
}

/// The keys of a list of lectures.
pub open spec fn lecture_keys_of(lectures: Seq<Lecture>) -> Set<LectureKeyView> {
    Set::new(|k: LectureKeyView| exists|i: int| 0 <= i < lectures.len() && lectures[i].key@ == k)
}

/// The keys of a list of pages.
pub open spec fn page_keys_of(pages: Seq<LecturePage>) -> Set<PageKeyView> {
    Set::new(|k: PageKeyView| exists|i: int| 0 <= i < pages.len() && pages[i].key@ == k)
}

/// The keys of every cached page of the given lectures.
pub open spec fn cached_page_keys_of(
    lectures: Seq<Lecture>,
    pages: Map<LectureKeyView, Seq<LecturePage>>,
) -> Set<PageKeyView> {
    Set::new(
        |k: PageKeyView|
            exists|i: int|
                0 <= i < lectures.len() && pages.contains_key(lectures[i].key@)
                    && #[trigger] page_keys_of(pages[lectures[i].key@]).contains(k),
    )
}

/// Appending a lecture adds its key to the keys of the list.
pub proof fn lemma_lecture_keys_push(s: Seq<Lecture>, l: Lecture)
    ensures
        lecture_keys_of(s.push(l)) == lecture_keys_of(s).insert(l.key@),
{
    let t = s.push(l);
    assert forall|k: LectureKeyView| #[trigger] lecture_keys_of(t).contains(k)
        <==> lecture_keys_of(s).insert(l.key@).contains(k) by {
        if lecture_keys_of(t).contains(k) {
            let j = choose|j: int| 0 <= j < t.len() && #[trigger] t[j].key@ == k;
            if j < s.len() {
                assert(s[j] == t[j]);
            }
        }
        if lecture_keys_of(s).contains(k) {
            let j = choose|j: int| 0 <= j < s.len() && #[trigger] s[j].key@ == k;
            assert(t[j] == s[j]);
        }
        if k == l.key@ {
            assert(t[s.len() as int] == l);
        }
    }
    assert(lecture_keys_of(t) =~= lecture_keys_of(s).insert(l.key@));
}

/// Appending a page adds its key to the keys of the list.
pub proof fn lemma_page_keys_push(s: Seq<LecturePage>, p: LecturePage)
    ensures
        page_keys_of(s.push(p)) == page_keys_of(s).insert(p.key@),
{
    let t = s.push(p);
    assert forall|k: PageKeyView| #[trigger] page_keys_of(t).contains(k)
        <==> page_keys_of(s).insert(p.key@).contains(k) by {
        if page_keys_of(t).contains(k) {
            let j = choose|j: int| 0 <= j < t.len() && #[trigger] t[j].key@ == k;
            if j < s.len() {
                assert(s[j] == t[j]);
            }
        }
        if page_keys_of(s).contains(k) {
            let j = choose|j: int| 0 <= j < s.len() && #[trigger] s[j].key@ == k;
            assert(t[j] == s[j]);
        }
        if k == p.key@ {
            assert(t[s.len() as int] == p);
        }
    }
    assert(page_keys_of(t) =~= page_keys_of(s).insert(p.key@));
}

/// The cached pages of one lecture, or none when its pages are not cached.
pub open spec fn cached_pages_of_lecture(
    pages: Map<LectureKeyView, Seq<LecturePage>>,
    key: LectureKeyView,
) -> Set<PageKeyView> {
    if pages.contains_key(key) {
        page_keys_of(pages[key])
    } else {
        Set::empty()
    }
}

/// Appending a lecture adds its cached pages, if any, to the cached pages
/// of the list.
pub proof fn lemma_cached_page_keys_push(
    s: Seq<Lecture>,
    l: Lecture,
    pages: Map<LectureKeyView, Seq<LecturePage>>,
)
    ensures
        cached_page_keys_of(s.push(l), pages) == cached_page_keys_of(s, pages) + cached_pages_of_lecture(pages, l.key@),
{
    let t = s.push(l);
    assert forall|k: PageKeyView| #[trigger] cached_page_keys_of(t, pages).contains(k)
        <==> (cached_page_keys_of(s, pages) + cached_pages_of_lecture(pages, l.key@)).contains(k) by {
        if cached_page_keys_of(t, pages).contains(k) {
            let j = choose|j: int|
                0 <= j < t.len() && pages.contains_key(t[j].key@)
                    && #[trigger] page_keys_of(pages[t[j].key@]).contains(k);
            if j < s.len() {
                assert(s[j] == t[j]);
                assert(page_keys_of(pages[s[j].key@]).contains(k));
            }
        }
        if cached_page_keys_of(s, pages).contains(k) {
            let j = choose|j: int|
                0 <= j < s.len() && pages.contains_key(s[j].key@)
                    && #[trigger] page_keys_of(pages[s[j].key@]).contains(k);
            assert(t[j] == s[j]);
            assert(page_keys_of(pages[t[j].key@]).contains(k));
        }
        if cached_pages_of_lecture(pages, l.key@).contains(k) {
            assert(t[s.len() as int] == l);
            assert(page_keys_of(pages[t[s.len() as int].key@]).contains(k));
        }
    }
    assert(cached_page_keys_of(t, pages) =~= cached_page_keys_of(s, pages) + cached_pages_of_lecture(pages, l.key@));
}

/// The mark of a page: whether it is selected itself.
pub open spec fn page_mark(pages: Set<PageKeyView>, page: LecturePage) -> CheckState {
    if pages.contains(page.key@) {
        CheckState::Checked
    } else {
        CheckState::Unchecked
    }
}

/// The marks of a list of pages.
pub open spec fn page_marks(pages: Set<PageKeyView>, list: Seq<LecturePage>) -> Seq<CheckState> {
    list.map_values(|p: LecturePage| page_mark(pages, p))
}

/// The mark of a lecture: checked when it is selected as a whole,
/// otherwise what its cached pages add up to (unchecked when none is
/// cached).
pub open spec fn lecture_mark(
    lectures: Set<LectureKeyView>,
    pages: Set<PageKeyView>,
    pages_cache: Map<LectureKeyView, Seq<LecturePage>>,
    key: LectureKeyView,
) -> CheckState {
    if lectures.contains(key) {
        CheckState::Checked
    } else if !pages_cache.contains_key(key) {
        CheckState::Unchecked
    } else {
        aggregate_spec(page_marks(pages, pages_cache[key]))
    }
}

/// The marks of a list of lectures.
pub open spec fn lecture_marks(
    lectures: Set<LectureKeyView>,
    pages: Set<PageKeyView>,
    pages_cache: Map<LectureKeyView, Seq<LecturePage>>,
    list: Seq<Lecture>,
) -> Seq<CheckState> {
    list.map_values(|l: Lecture| lecture_mark(lectures, pages, pages_cache, l.key@))
}

/// The mark of a course: checked when it is selected as a whole,
/// otherwise what its cached lectures add up to.
pub open spec fn course_mark(
    courses: Set<CourseKeyView>,
    lectures: Set<LectureKeyView>,
    pages: Set<PageKeyView>,
    lectures_cache: Map<CourseKeyView, Seq<Lecture>>,
    pages_cache: Map<LectureKeyView, Seq<LecturePage>>,
    key: CourseKeyView,
) -> CheckState {
    if courses.contains(key) {
        CheckState::Checked
    } else if !lectures_cache.contains_key(key) {
        CheckState::Unchecked
    } else {
        aggregate_spec(lecture_marks(lectures, pages, pages_cache, lectures_cache[key]))
    }
}

/// Toggling the same page twice leaves the set of selected pages as it was.
pub proof fn lemma_toggle_page_twice(pages: Set<PageKeyView>, key: PageKeyView)
    ensures
        !pages.contains(key) ==> pages.insert(key).remove(key) == pages,
        pages.contains(key) ==> pages.remove(key).insert(key) == pages,
{
    assert(!pages.contains(key) ==> pages.insert(key).remove(key) =~= pages);
    assert(pages.contains(key) ==> pages.remove(key).insert(key) =~= pages);
}

/// A parent whose children are all fully checked, and which has at least
/// one child, is fully checked.
pub proof fn lemma_aggregate_all_checked(children: Seq<CheckState>)
    requires
        children.len() > 0,
        forall|i: int| 0 <= i < children.len() ==> children[i] == CheckState::Checked,
    ensures
        aggregate_spec(children) == CheckState::Checked,
{
    assert(children[0] != CheckState::Unchecked);
}

/// Once every cached page of a lecture is selected, the lecture is shown
/// fully checked, provided it has at least one cached page.
pub proof fn lemma_all_pages_selected_checks_lecture(
    lectures: Set<LectureKeyView>,
    pages: Set<PageKeyView>,
    pages_cache: Map<LectureKeyView, Seq<LecturePage>>,
    key: LectureKeyView,
)
    requires
        pages_cache.contains_key(key),
        pages_cache[key].len() > 0,
        page_keys_of(pages_cache[key]).subset_of(pages),
    ensures
        lecture_mark(lectures, pages, pages_cache, key) == CheckState::Checked,
{
    let list = pages_cache[key];
    let marks = page_marks(pages, list);
    assert forall|i: int| 0 <= i < marks.len() implies marks[i] == CheckState::Checked by {
        assert(page_keys_of(list).contains(list[i].key@));
    }
    lemma_aggregate_all_checked(marks);
}

/// After a course is unselected together with its cached lectures and
/// their cached pages, the course is shown unchecked.
pub proof fn lemma_deselected_course_is_unchecked(
    courses: Set<CourseKeyView>,
    lectures: Set<LectureKeyView>,
    pages: Set<PageKeyView>,
    lectures_cache: Map<CourseKeyView, Seq<Lecture>>,
    pages_cache: Map<LectureKeyView, Seq<LecturePage>>,
    key: CourseKeyView,
)
    ensures
        ({
            let courses2 = courses.remove(key);
            let (lectures2, pages2) = if lectures_cache.contains_key(key) {
                (
                    lectures - lecture_keys_of(lectures_cache[key]),
                    pages - cached_page_keys_of(lectures_cache[key], pages_cache),
                )
            } else {
                (lectures, pages)
            };
            course_mark(courses2, lectures2, pages2, lectures_cache, pages_cache, key) == CheckState::Unchecked
        }),
{
    if lectures_cache.contains_key(key) {
        let ls = lectures_cache[key];
        let lectures2 = lectures - lecture_keys_of(ls);
        let pages2 = pages - cached_page_keys_of(ls, pages_cache);
        let marks = lecture_marks(lectures2, pages2, pages_cache, ls);
        assert forall|i: int| 0 <= i < marks.len() implies marks[i] == CheckState::Unchecked by {
            let lk = ls[i].key@;
            assert(lecture_keys_of(ls).contains(lk));
            if pages_cache.contains_key(lk) {
                let pl = pages_cache[lk];
                let pm = page_marks(pages2, pl);
                assert forall|j: int| 0 <= j < pm.len() implies pm[j] == CheckState::Unchecked by {
                    assert(page_keys_of(pl).contains(pl[j].key@));
                    assert(cached_page_keys_of(ls, pages_cache).contains(pl[j].key@));
                }
                lemma_aggregate_all_unchecked(pm);
            }
        }
        lemma_aggregate_all_unchecked(marks);
    }
}

/// The selected courses, lectures and pages.
pub struct SelectionState {
    pub courses: KeySet<CourseKey>,
    pub lectures: KeySet<LectureKey>,
    pub pages: KeySet<PageKey>,
}

impl SelectionState {
    pub open spec fn wf(&self) -> bool {
        &&& self.courses.wf()
        &&& self.lectures.wf()
        &&& self.pages.wf()
    }

    pub fn new() -> (s: Self)
        ensures
            s.wf(),
            s.courses.set() == Set::<CourseKeyView>::empty(),
            s.lectures.set() == Set::<LectureKeyView>::empty(),
            s.pages.set() == Set::<PageKeyView>::empty(),
    {
        SelectionState { courses: KeySet::new(), lectures: KeySet::new(), pages: KeySet::new() }
    }

    pub fn is_course_selected(&self, key: &CourseKey) -> (b: bool)
        ensures
            b == self.courses.set().contains(key@),
    {
        self.courses.contains(key)
    }

    pub fn is_lecture_selected(&self, key: &LectureKey) -> (b: bool)
        ensures
            b == self.lectures.set().contains(key@),
    {
        self.lectures.contains(key)
    }

    pub fn is_page_selected(&self, key: &PageKey) -> (b: bool)
        ensures
            b == self.pages.set().contains(key@),
    {
        self.pages.contains(key)
    }

    /// Selects the page if it is not selected and unselects it otherwise;
    /// returns whether it is selected afterwards.
    pub fn toggle_page(&mut self, key: PageKey) -> (now_selected: bool)
        requires
            old(self).wf(),
        ensures
            final(self).wf(),
            now_selected == !old(self).pages.set().contains(key@),
            now_selected ==> final(self).pages.set() == old(self).pages.set().insert(key@),
            !now_selected ==> final(self).pages.set() == old(self).pages.set().remove(key@),
            final(self).courses == old(self).courses,
            final(self).lectures == old(self).lectures,
    {
        if self.pages.contains(&key) {
            self.pages.remove(&key);
            false
        } else {
            self.pages.insert(key);
            true
        }
    }

    /// Selects every lecture of the list.
    pub fn select_all_lectures(&mut self, lectures: &Vec<Lecture>)
        requires
            old(self).wf(),
        ensures
            final(self).wf(),
            final(self).lectures.set() == old(self).lectures.set() + lecture_keys_of(lectures@),
            final(self).courses == old(self).courses,
            final(self).pages == old(self).pages,
    {
        let mut i: usize = 0;
        while i < lectures.len()
            invariant
                i <= lectures.len(),
                self.wf(),
                self.lectures.set() == old(self).lectures.set() + lecture_keys_of(lectures@.take(i as int)),
                self.courses == old(self).courses,
                self.pages == old(self).pages,
            decreases lectures.len() - i,
        {
            self.lectures.insert(lectures[i].key.copy_key());
            proof {
                assert(lectures@.take(i + 1) =~= lectures@.take(i as int).push(lectures@[i as int]));
                lemma_lecture_keys_push(lectures@.take(i as int), lectures@[i as int]);
                assert(self.lectures.set() =~= old(self).lectures.set() + lecture_keys_of(lectures@.take(i + 1)));
            }
            i += 1;
        }
        assert(lectures@.take(lectures.len() as int) =~= lectures@);
    }

    /// Selects every page of the list.
    pub fn select_all_pages(&mut self, pages: &Vec<LecturePage>)
        requires
            old(self).wf(),
        ensures
            final(self).wf(),
            final(self).pages.set() == old(self).pages.set() + page_keys_of(pages@),
            final(self).courses == old(self).courses,
            final(self).lectures == old(self).lectures,
    {
        let mut i: usize = 0;
        while i < pages.len()
            invariant
                i <= pages.len(),
                self.wf(),
                self.pages.set() == old(self).pages.set() + page_keys_of(pages@.take(i as int)),
                self.courses == old(self).courses,
                self.lectures == old(self).lectures,
            decreases pages.len() - i,
        {
            self.pages.insert(pages[i].key.copy_key());
            proof {
                assert(pages@.take(i + 1) =~= pages@.take(i as int).push(pages@[i as int]));
                lemma_page_keys_push(pages@.take(i as int), pages@[i as int]);
                assert(self.pages.set() =~= old(self).pages.set() + page_keys_of(pages@.take(i + 1)));
            }
            i += 1;
        }
        assert(pages@.take(pages.len() as int) =~= pages@);
    }

    /// Unselects every page of the list.
    fn deselect_pages(&mut self, pages: &Vec<LecturePage>)
        requires
            old(self).wf(),
        ensures
            final(self).wf(),
            final(self).pages.set() == old(self).pages.set() - page_keys_of(pages@),
            final(self).courses == old(self).courses,
            final(self).lectures == old(self).lectures,
    {
        let mut i: usize = 0;
        while i < pages.len()
            invariant
                i <= pages.len(),
                self.wf(),
                self.pages.set() == old(self).pages.set() - page_keys_of(pages@.take(i as int)),
                self.courses == old(self).courses,
                self.lectures == old(self).lectures,
            decreases pages.len() - i,
        {
            self.pages.remove(&pages[i].key);
            proof {
                assert(pages@.take(i + 1) =~= pages@.take(i as int).push(pages@[i as int]));
                lemma_page_keys_push(pages@.take(i as int), pages@[i as int]);
                assert(self.pages.set() =~= old(self).pages.set() - page_keys_of(pages@.take(i + 1)));
            }
            i += 1;
        }
        assert(pages@.take(pages.len() as int) =~= pages@);
    }

    /// Unselects a lecture together with every cached page of it.
    pub fn deselect_lecture_cascade(&mut self, lecture_key: &LectureKey, pages_cache: &Cache<LectureKey, LecturePage>)
        requires
            old(self).wf(),
            pages_cache.wf(),
        ensures
            final(self).wf(),
            final(self).courses == old(self).courses,
            final(self).lectures.set() == old(self).lectures.set().remove(lecture_key@),
            pages_cache.map().contains_key(lecture_key@) ==> final(self).pages.set()
                == old(self).pages.set() - page_keys_of(pages_cache.map()[lecture_key@]),
            !pages_cache.map().contains_key(lecture_key@) ==> final(self).pages == old(self).pages,
    {
        self.lectures.remove(lecture_key);
        if let Some(pages) = pages_cache.get(lecture_key) {
            self.deselect_pages(pages);
        }
    }

    /// Unselects a course together with every cached lecture of it and
    /// every cached page of those lectures.
    pub fn deselect_course_cascade(
        &mut self,
        course_key: &CourseKey,
        lectures_cache: &Cache<CourseKey, Lecture>,
        pages_cache: &Cache<LectureKey, LecturePage>,
    )
        requires
            old(self).wf(),
            lectures_cache.wf(),
            pages_cache.wf(),
        ensures
            final(self).wf(),
            final(self).courses.set() == old(self).courses.set().remove(course_key@),
            lectures_cache.map().contains_key(course_key@) ==> {
                let ls = lectures_cache.map()[course_key@];
                &&& final(self).lectures.set() == old(self).lectures.set() - lecture_keys_of(ls)
                &&& final(self).pages.set() == old(self).pages.set() - cached_page_keys_of(ls, pages_cache.map())
            },
            !lectures_cache.map().contains_key(course_key@) ==> {
                &&& final(self).lectures == old(self).lectures
                &&& final(self).pages == old(self).pages
            },
    {
        self.courses.remove(course_key);
        if let Some(lectures) = lectures_cache.get(course_key) {
            let ghost pmap = pages_cache.map();
            let ghost mid = *self;
            let mut i: usize = 0;
            while i < lectures.len()
                invariant
                    i <= lectures.len(),
                    self.wf(),
                    pages_cache.wf(),
                    pmap == pages_cache.map(),
                    self.courses == mid.courses,
                    self.lectures.set() == mid.lectures.set() - lecture_keys_of(lectures@.take(i as int)),
                    self.pages.set() == mid.pages.set() - cached_page_keys_of(lectures@.take(i as int), pmap),
                decreases lectures.len() - i,
            {
                let ghost l = lectures@[i as int];
                let ghost pre = lectures@.take(i as int);
                let ghost next = lectures@.take(i + 1);
                assert(next =~= pre.push(l));
                self.lectures.remove(&lectures[i].key);
                match pages_cache.get(&lectures[i].key) {
                    Some(pages) => {
                        self.deselect_pages(pages);
                    },
                    None => {},
                }
                proof {
                    lemma_lecture_keys_push(pre, l);
                    lemma_cached_page_keys_push(pre, l, pmap);
                    assert(self.lectures.set() =~= mid.lectures.set() - lecture_keys_of(next));
                    assert(self.pages.set() =~= mid.pages.set() - cached_page_keys_of(next, pmap));
                }
                i += 1;
            }
            assert(lectures@.take(lectures.len() as int) =~= lectures@);
        }
    }

    /// The mark of a lecture, as `lecture_mark` defines it.
    pub fn get_lecture_check_state(&self, lecture_key: &LectureKey, pages_cache: &Cache<LectureKey, LecturePage>) -> (r: CheckState)
        requires
            self.wf(),
            pages_cache.wf(),
        ensures
            r == lecture_mark(self.lectures.set(), self.pages.set(), pages_cache.map(), lecture_key@),
    {
        if self.lectures.contains(lecture_key) {
            return CheckState::Checked;
        }
        let pages = match pages_cache.get(lecture_key) {
            Some(p) => p,
            None => {
                return CheckState::Unchecked;
            },
        };
        let mut marks: Vec<CheckState> = Vec::new();
        let mut i: usize = 0;
        while i < pages.len()
            invariant
                i <= pages.len(),
                marks@ == page_marks(self.pages.set(), pages@.take(i as int)),
            decreases pages.len() - i,
        {
            let m = if self.pages.contains(&pages[i].key) {
                CheckState::Checked
            } else {
                CheckState::Unchecked
            };
            marks.push(m);
            assert(marks@ =~= page_marks(self.pages.set(), pages@.take(i + 1)));
            i += 1;
        }
        assert(pages@.take(pages.len() as int) =~= pages@);
        CheckState::aggregate(&marks)
    }

    /// The mark of a course, as `course_mark` defines it.
    pub fn get_course_check_state(
        &self,
        course_key: &CourseKey,
        lectures_cache: &Cache<CourseKey, Lecture>,
        pages_cache: &Cache<LectureKey, LecturePage>,
    ) -> (r: CheckState)
        requires
            self.wf(),
            lectures_cache.wf(),
            pages_cache.wf(),
        ensures
            r == course_mark(
                self.courses.set(),
                self.lectures.set(),
                self.pages.set(),
                lectures_cache.map(),
                pages_cache.map(),
                course_key@,
            ),
    {
        if self.courses.contains(course_key) {
            return CheckState::Checked;
        }
        let lectures = match lectures_cache.get(course_key) {
            Some(l) => l,
            None => {
                return CheckState::Unchecked;
            },
        };
        let mut marks: Vec<CheckState> = Vec::new();
        let mut i: usize = 0;
        while i < lectures.len()
            invariant
                i <= lectures.len(),
                self.wf(),
                pages_cache.wf(),
                marks@ == lecture_marks(self.lectures.set(), self.pages.set(), pages_cache.map(), lectures@.take(i as int)),
            decreases lectures.len() - i,
        {
            let m = self.get_lecture_check_state(&lectures[i].key, pages_cache);
            marks.push(m);
            assert(marks@ =~= lecture_marks(self.lectures.set(), self.pages.set(), pages_cache.map(), lectures@.take(i + 1)));
            i += 1;
        }
        assert(lectures@.take(lectures.len() as int) =~= lectures@);
        CheckState::aggregate(&marks)
    }
}

} // verus!
