//! The three-column selector: courses, the lectures of the focused course
//! and the pages of the focused lecture, with check boxes that select whole
//! courses, whole lectures or single pages.

use crate::cache::Cache;
use crate::download::{resolved_keys, ResolvedPage};
use crate::input::{KeyCode, KeyPress};
use crate::keys::{CatalogKey, Course, CourseKey, CourseKeyView, Lecture, LectureKey, LectureKeyView, LecturePage, PageKey, PageKeyView};
use crate::keyset::{lemma_take_all_to_set, lemma_take_none_to_set, lemma_take_to_set_step, KeySet};
use crate::list::{move_list_selection, moved_selection, ListCursor};
use crate::selection::{
    cached_page_keys_of, course_mark, lecture_keys_of, lecture_mark, lemma_cached_page_keys_push, lemma_lecture_keys_push, lemma_page_keys_push,
    page_keys_of, CheckState,
    SelectionState,
};
use vstd::prelude::*;

verus! {

/// The column that has the keyboard focus.
#[derive(PartialEq, Eq, Structural, Clone, Copy, Debug)]
pub enum Column {
    Course,
    Lecture,
    Page,
}

impl Default for Column {
    fn default() -> (c: Column)
        ensures
            c == Column::Course,
    {
        Column::Course
    }
}

/// What the selector asks of the application.
#[derive(Debug)]
pub enum SelectorAction {
    FetchLectures(CourseKey),
    FetchPages(LectureKey),
    Confirm,
}

/// Abstract value of a [`SelectorAction`].
pub enum SelectorRequest {
    FetchLectures(CourseKeyView),
    FetchPages(LectureKeyView),
    Confirm,
}

impl View for SelectorAction {
    type V = SelectorRequest;

    open spec fn view(&self) -> SelectorRequest {
        match self {
            SelectorAction::FetchLectures(k) => SelectorRequest::FetchLectures(k@),
            SelectorAction::FetchPages(k) => SelectorRequest::FetchPages(k@),
            SelectorAction::Confirm => SelectorRequest::Confirm,
        }
    }
}

pub open spec fn request_of(a: Option<SelectorAction>) -> Option<SelectorRequest> {
    match a {
        Some(a) => Some(a@),
        None => None,
    }
}

pub open spec fn course_key_of(k: Option<CourseKey>) -> Option<CourseKeyView> {
    match k {
        Some(k) => Some(k@),
        None => None,
    }
}

pub open spec fn lecture_key_of(k: Option<LectureKey>) -> Option<LectureKeyView> {
    match k {
        Some(k) => Some(k@),
        None => None,
    }
}

/// Abstract state of a [`SelectorComponent`].
pub struct SelectorView {
    pub courses: Seq<Course>,
    pub lectures: Map<CourseKeyView, Seq<Lecture>>,
    pub pages: Map<LectureKeyView, Seq<LecturePage>>,
    pub course_cursor: Option<usize>,
    pub lecture_cursor: Option<usize>,
    pub page_cursor: Option<usize>,
    pub chosen_courses: Set<CourseKeyView>,
    pub chosen_lectures: Set<LectureKeyView>,
    pub chosen_pages: Set<PageKeyView>,
    pub column: Column,
    pub loading_lectures: bool,
    pub loading_pages: bool,
    pub focused_course: Option<CourseKeyView>,
    pub focused_lecture: Option<LectureKeyView>,
}

/// The cached lectures of the focused course (none when nothing is
/// focused or nothing is cached for it).
pub open spec fn current_lectures(v: SelectorView) -> Seq<Lecture> {
    match v.focused_course {
        Some(k) => if v.lectures.contains_key(k) {
            v.lectures[k]
        } else {
            Seq::empty()
        },
        None => Seq::empty(),
    }
}

/// The cached pages of the focused lecture.
pub open spec fn current_pages(v: SelectorView) -> Seq<LecturePage> {
    match v.focused_lecture {
        Some(k) => if v.pages.contains_key(k) {
            v.pages[k]
        } else {
            Seq::empty()
        },
        None => Seq::empty(),
    }
}

/// A fresh course list: the first course is focused (when there is one)
/// and no lecture is.
pub open spec fn after_set_courses(v: SelectorView, courses: Seq<Course>) -> SelectorView {
    let v1 = SelectorView { courses: courses, ..v };
    let v2 = if courses.len() > 0 {
        SelectorView { course_cursor: Some(0), focused_course: Some(courses[0].key@), ..v1 }
    } else {
        v1
    };
    SelectorView { lecture_cursor: None, page_cursor: None, focused_lecture: None, ..v2 }
}

/// Lectures arrive for a course: they are cached; if the course is
/// focused, the first lecture gets the focus and, when the course is
/// selected, its lectures are selected too.
pub open spec fn after_set_lectures(v: SelectorView, lectures: Seq<Lecture>, course: CourseKeyView) -> SelectorView {
    let v1 = SelectorView { lectures: v.lectures.insert(course, lectures), ..v };
    if v.focused_course != Some(course) {
        v1
    } else {
        let v2 = if lectures.len() == 0 {
            SelectorView { loading_lectures: false, lecture_cursor: None, focused_lecture: None, ..v1 }
        } else {
            SelectorView {
                loading_lectures: false,
                lecture_cursor: Some(0),
                focused_lecture: Some(lectures[0].key@),
                ..v1
            }
        };
        let v3 = if v2.chosen_courses.contains(course) {
            SelectorView { chosen_lectures: v2.chosen_lectures + lecture_keys_of(lectures), ..v2 }
        } else {
            v2
        };
        SelectorView { page_cursor: None, ..v3 }
    }
}

/// Pages arrive for a lecture: they are cached; if the lecture is focused,
/// the first page is highlighted and, when the lecture is selected, its
/// pages are selected too.
pub open spec fn after_set_pages(v: SelectorView, pages: Seq<LecturePage>, lecture: LectureKeyView) -> SelectorView {
    let v1 = SelectorView { pages: v.pages.insert(lecture, pages), ..v };
    if v.focused_lecture != Some(lecture) {
        v1
    } else {
        let v2 = SelectorView {
            loading_pages: false,
            page_cursor: if pages.len() == 0 { None } else { Some(0) },
            ..v1
        };
        if v2.chosen_lectures.contains(lecture) {
            SelectorView { chosen_pages: v2.chosen_pages + page_keys_of(pages), ..v2 }
        } else {
            v2
        }
    }
}

/// Shows the cached lectures of the focused course, if they are cached;
/// the flag tells whether they were.
pub open spec fn after_load_lectures_from_cache(v: SelectorView) -> (SelectorView, bool) {
    match v.focused_course {
        None => (v, false),
        Some(k) => if !v.lectures.contains_key(k) {
            (v, false)
        } else {
            let ls = v.lectures[k];
            let v1 = SelectorView { loading_lectures: false, ..v };
            let v2 = if v1.chosen_courses.contains(k) {
                SelectorView { chosen_lectures: v1.chosen_lectures + lecture_keys_of(ls), ..v1 }
            } else {
                v1
            };
            let v3 = if ls.len() == 0 {
                SelectorView { lecture_cursor: None, ..v2 }
            } else {
                SelectorView { lecture_cursor: Some(0), focused_lecture: Some(ls[0].key@), ..v2 }
            };
            (v3, true)
        },
    }
}

/// Shows the cached pages of the focused lecture, if they are cached; they
/// are selected when the lecture or its course is. The flag tells whether
/// they were cached.
pub open spec fn after_load_pages_from_cache(v: SelectorView) -> (SelectorView, bool) {
    match v.focused_lecture {
        None => (v, false),
        Some(k) => if !v.pages.contains_key(k) {
            (v, false)
        } else {
            let ps = v.pages[k];
            let v1 = SelectorView { loading_pages: false, ..v };
            let v2 = if v1.chosen_lectures.contains(k) || v1.chosen_courses.contains(k.course) {
                SelectorView { chosen_pages: v1.chosen_pages + page_keys_of(ps), ..v1 }
            } else {
                v1
            };
            (SelectorView { page_cursor: if ps.len() == 0 { None } else { Some(0) }, ..v2 }, true)
        },
    }
}

/// Focus moves left, stopping at the course column.
pub open spec fn column_left(c: Column) -> Column {
    match c {
        Column::Course | Column::Lecture => Column::Course,
        Column::Page => Column::Lecture,
    }
}

/// Focus moves right only into a column that has entries or is loading.
pub open spec fn column_right(v: SelectorView) -> Column {
    match v.column {
        Column::Course => if current_lectures(v).len() > 0 || v.loading_lectures {
            Column::Lecture
        } else {
            Column::Course
        },
        Column::Lecture => if current_pages(v).len() > 0 || v.loading_pages {
            Column::Page
        } else {
            Column::Lecture
        },
        Column::Page => Column::Page,
    }
}

/// The key of the course under the course cursor.
pub open spec fn course_under_cursor(v: SelectorView) -> Option<CourseKeyView> {
    match v.course_cursor {
        Some(i) => if i < v.courses.len() {
            Some(v.courses[i as int].key@)
        } else {
            None
        },
        None => None,
    }
}

/// The key of the lecture under the lecture cursor.
pub open spec fn lecture_under_cursor(v: SelectorView) -> Option<LectureKeyView> {
    match v.lecture_cursor {
        Some(i) => if i < current_lectures(v).len() {
            Some(current_lectures(v)[i as int].key@)
        } else {
            None
        },
        None => None,
    }
}

/// The focus follows the course cursor: the newly focused course shows its
/// cached lectures, or its lectures are requested.
pub open spec fn after_course_focus_change(v: SelectorView) -> (SelectorView, Option<SelectorRequest>) {
    let new_key = course_under_cursor(v);
    if new_key == v.focused_course {
        (v, None)
    } else {
        let v1 = SelectorView { focused_course: new_key, page_cursor: None, focused_lecture: None, ..v };
        match new_key {
            None => (SelectorView { lecture_cursor: None, ..v1 }, None),
            Some(key) => {
                let (v2, loaded) = after_load_lectures_from_cache(v1);
                if loaded {
                    let (v3, pages_loaded) = after_load_pages_from_cache(v2);
                    if !pages_loaded && v3.focused_lecture is Some {
                        (
                            SelectorView { loading_pages: true, ..v3 },
                            Some(SelectorRequest::FetchPages(v3.focused_lecture->0)),
                        )
                    } else {
                        (v3, None)
                    }
                } else {
                    (
                        SelectorView { lecture_cursor: None, loading_lectures: true, ..v1 },
                        Some(SelectorRequest::FetchLectures(key)),
                    )
                }
            },
        }
    }
}

/// The focus follows the lecture cursor: the newly focused lecture shows
/// its cached pages, or its pages are requested.
pub open spec fn after_lecture_focus_change(v: SelectorView) -> (SelectorView, Option<SelectorRequest>) {
    let new_key = lecture_under_cursor(v);
    if new_key == v.focused_lecture {
        (v, None)
    } else {
        let v1 = SelectorView { focused_lecture: new_key, ..v };
        match new_key {
            None => (SelectorView { page_cursor: None, ..v1 }, None),
            Some(key) => {
                let (v2, loaded) = after_load_pages_from_cache(v1);
                if loaded {
                    (v2, None)
                } else {
                    (
                        SelectorView { page_cursor: None, loading_pages: true, ..v1 },
                        Some(SelectorRequest::FetchPages(key)),
                    )
                }
            },
        }
    }
}

/// Moves the cursor of the focused column by `delta` rows.
pub open spec fn after_move_selection(v: SelectorView, delta: i32) -> (SelectorView, Option<SelectorRequest>) {
    match v.column {
        Column::Course => after_course_focus_change(
            SelectorView { course_cursor: moved_selection(v.course_cursor, v.courses.len() as usize, delta), ..v },
        ),
        Column::Lecture => after_lecture_focus_change(
            SelectorView {
                lecture_cursor: moved_selection(v.lecture_cursor, current_lectures(v).len() as usize, delta),
                ..v
            },
        ),
        Column::Page => (
            SelectorView {
                page_cursor: moved_selection(v.page_cursor, current_pages(v).len() as usize, delta),
                ..v
            },
            None,
        ),
    }
}

/// The selection once a course is unselected with its cached lectures and
/// their cached pages.
pub open spec fn without_course(v: SelectorView, key: CourseKeyView) -> SelectorView {
    if v.lectures.contains_key(key) {
        SelectorView {
            chosen_courses: v.chosen_courses.remove(key),
            chosen_lectures: v.chosen_lectures - lecture_keys_of(v.lectures[key]),
            chosen_pages: v.chosen_pages - cached_page_keys_of(v.lectures[key], v.pages),
            ..v
        }
    } else {
        SelectorView { chosen_courses: v.chosen_courses.remove(key), ..v }
    }
}

/// The mark of a course in the selector.
pub open spec fn course_mark_in(v: SelectorView, key: CourseKeyView) -> CheckState {
    course_mark(v.chosen_courses, v.chosen_lectures, v.chosen_pages, v.lectures, v.pages, key)
}

/// The mark of a lecture in the selector.
pub open spec fn lecture_mark_in(v: SelectorView, key: LectureKeyView) -> CheckState {
    lecture_mark(v.chosen_lectures, v.chosen_pages, v.pages, key)
}

/// Space toggles the entry under the cursor of the focused column. A fully
/// checked course or lecture is unselected with everything cached below
/// it; otherwise it is selected with the cached entries shown below it.
/// Changing a lecture or page drops the whole-course (and whole-lecture)
/// selection above it.
pub open spec fn after_toggle(v: SelectorView) -> SelectorView {
    match v.column {
        Column::Course => match course_under_cursor(v) {
            Some(key) => if course_mark_in(v, key) == CheckState::Checked {
                without_course(v, key)
            } else {
                SelectorView {
                    chosen_courses: v.chosen_courses.insert(key),
                    chosen_lectures: v.chosen_lectures + lecture_keys_of(current_lectures(v)),
                    chosen_pages: v.chosen_pages + page_keys_of(current_pages(v)),
                    ..v
                }
            },
            None => v,
        },
        Column::Lecture => match lecture_under_cursor(v) {
            Some(key) => {
                let mark = lecture_mark_in(v, key);
                let courses = v.chosen_courses.remove(key.course);
                if mark == CheckState::Checked {
                    SelectorView {
                        chosen_courses: courses,
                        chosen_lectures: v.chosen_lectures.remove(key),
                        chosen_pages: if v.pages.contains_key(key) {
                            v.chosen_pages - page_keys_of(v.pages[key])
                        } else {
                            v.chosen_pages
                        },
                        ..v
                    }
                } else {
                    SelectorView {
                        chosen_courses: courses,
                        chosen_lectures: v.chosen_lectures.insert(key),
                        chosen_pages: v.chosen_pages + page_keys_of(current_pages(v)),
                        ..v
                    }
                }
            },
            None => v,
        },
        Column::Page => match v.page_cursor {
            Some(i) => if i < current_pages(v).len() {
                let key = current_pages(v)[i as int].key@;
                SelectorView {
                    chosen_courses: v.chosen_courses.remove(key.lecture.course),
                    chosen_lectures: v.chosen_lectures.remove(key.lecture),
                    chosen_pages: if v.chosen_pages.contains(key) {
                        v.chosen_pages.remove(key)
                    } else {
                        v.chosen_pages.insert(key)
                    },
                    ..v
                }
            } else {
                v
            },
            None => v,
        },
    }
}

/// What a key press does to the selector: arrows (and h, j, k, l) move,
/// Space toggles, Enter confirms the selection.
pub open spec fn after_key(v: SelectorView, key: KeyPress) -> (SelectorView, Option<SelectorRequest>) {
    match key.code {
        KeyCode::Left | KeyCode::Char('h') => (SelectorView { column: column_left(v.column), ..v }, None),
        KeyCode::Right | KeyCode::Char('l') => (SelectorView { column: column_right(v), ..v }, None),
        KeyCode::Up | KeyCode::Char('k') => after_move_selection(v, -1i32),
        KeyCode::Down | KeyCode::Char('j') => after_move_selection(v, 1i32),
        KeyCode::Char(' ') => (after_toggle(v), None),
        KeyCode::Enter => (v, Some(SelectorRequest::Confirm)),
        _ => (v, None),
    }
}

/// The selected courses whose lectures are not cached.
pub open spec fn unfetched_courses(v: SelectorView) -> Set<CourseKeyView> {
    Set::new(|c: CourseKeyView| v.chosen_courses.contains(c) && !v.lectures.contains_key(c))
}

/// The keys of the cached lectures of the given courses.
pub open spec fn lectures_of_courses(
    courses: Set<CourseKeyView>,
    lectures: Map<CourseKeyView, Seq<Lecture>>,
) -> Set<LectureKeyView> {
    Set::new(
        |lk: LectureKeyView|
            exists|c: CourseKeyView|
                courses.contains(c) && lectures.contains_key(c) && #[trigger] lecture_keys_of(lectures[c]).contains(lk),
    )
}

/// Those lectures of `s` whose pages are not cached.
pub open spec fn without_cached_pages(s: Set<LectureKeyView>, pages: Map<LectureKeyView, Seq<LecturePage>>) -> Set<LectureKeyView> {
    Set::new(|lk: LectureKeyView| s.contains(lk) && !pages.contains_key(lk))
}

/// Lectures selected on their own, outside a selected course.
pub open spec fn lone_lectures(lectures: Set<LectureKeyView>, courses: Set<CourseKeyView>) -> Set<LectureKeyView> {
    Set::new(|lk: LectureKeyView| lectures.contains(lk) && !courses.contains(lk.course))
}

/// The lectures whose pages must be fetched before the selection can be
/// resolved: cached lectures of selected courses, and lectures selected on
/// their own, whose pages are not cached.
pub open spec fn unfetched_lectures(v: SelectorView) -> Set<LectureKeyView> {
    without_cached_pages(
        lectures_of_courses(v.chosen_courses, v.lectures) + lone_lectures(v.chosen_lectures, v.chosen_courses),
        v.pages,
    )
}

/// The keys of the lectures of `list` whose pages are not cached, in list
/// order, repeats included.
pub open spec fn uncached_lecture_keys(list: Seq<Lecture>, pages: Map<LectureKeyView, Seq<LecturePage>>) -> Seq<LectureKeyView>
    decreases list.len(),
{
    if list.len() == 0 {
        Seq::empty()
    } else {
        let rest = uncached_lecture_keys(list.drop_last(), pages);
        let k = list.last().key@;
        if pages.contains_key(k) {
            rest
        } else {
            rest.push(k)
        }
    }
}

/// The courses of `cs`, in that order, whose lectures are not cached.
pub open spec fn course_fetches(v: SelectorView, cs: Seq<CourseKeyView>) -> Seq<CourseKeyView>
    decreases cs.len(),
{
    if cs.len() == 0 {
        Seq::empty()
    } else {
        let rest = course_fetches(v, cs.drop_last());
        if v.lectures.contains_key(cs.last()) {
            rest
        } else {
            rest.push(cs.last())
        }
    }
}

/// For each course of `cs` in turn whose lectures are cached, its cached
/// lectures whose pages are not cached.
pub open spec fn course_lecture_fetches(v: SelectorView, cs: Seq<CourseKeyView>) -> Seq<LectureKeyView>
    decreases cs.len(),
{
    if cs.len() == 0 {
        Seq::empty()
    } else {
        let rest = course_lecture_fetches(v, cs.drop_last());
        if v.lectures.contains_key(cs.last()) {
            rest + uncached_lecture_keys(v.lectures[cs.last()], v.pages)
        } else {
            rest
        }
    }
}

/// The lectures of `ls`, in that order, whose course is not selected and
/// whose pages are not cached.
pub open spec fn lone_lecture_fetches(v: SelectorView, ls: Seq<LectureKeyView>) -> Seq<LectureKeyView>
    decreases ls.len(),
{
    if ls.len() == 0 {
        Seq::empty()
    } else {
        let rest = lone_lecture_fetches(v, ls.drop_last());
        let k = ls.last();
        if !v.chosen_courses.contains(k.course) && !v.pages.contains_key(k) {
            rest.push(k)
        } else {
            rest
        }
    }
}

/// The fetches asked for when the selected courses are visited in the
/// order `cs` and the selected lectures in the order `ls`: the courses
/// whose lectures are missing, then the lectures whose pages are missing,
/// a lecture listed under two courses, or both under a course and on its
/// own, once for each.
pub open spec fn fetch_lists(v: SelectorView, cs: Seq<CourseKeyView>, ls: Seq<LectureKeyView>) -> (
    Seq<CourseKeyView>,
    Seq<LectureKeyView>,
) {
    (course_fetches(v, cs), course_lecture_fetches(v, cs) + lone_lecture_fetches(v, ls))
}

/// `cs` and `ls` list the selected courses and lectures, each once.
pub open spec fn selection_order(v: SelectorView, cs: Seq<CourseKeyView>, ls: Seq<LectureKeyView>) -> bool {
    &&& cs.no_duplicates()
    &&& cs.to_set() == v.chosen_courses
    &&& ls.no_duplicates()
    &&& ls.to_set() == v.chosen_lectures
}

pub open spec fn course_key_views(ks: Seq<CourseKey>) -> Seq<CourseKeyView> {
    ks.map_values(|k: CourseKey| k@)
}

pub open spec fn lecture_key_views(ks: Seq<LectureKey>) -> Seq<LectureKeyView> {
    ks.map_values(|k: LectureKey| k@)
}

proof fn lemma_lectures_of_courses_insert(
    courses: Set<CourseKeyView>,
    lectures: Map<CourseKeyView, Seq<Lecture>>,
    c: CourseKeyView,
)
    ensures
        lectures.contains_key(c) ==> lectures_of_courses(courses.insert(c), lectures)
            == lectures_of_courses(courses, lectures) + lecture_keys_of(lectures[c]),
        !lectures.contains_key(c) ==> lectures_of_courses(courses.insert(c), lectures)
            == lectures_of_courses(courses, lectures),
{
    if lectures.contains_key(c) {
        assert(lectures_of_courses(courses.insert(c), lectures) =~= lectures_of_courses(courses, lectures)
            + lecture_keys_of(lectures[c]));
    } else {
        assert(lectures_of_courses(courses.insert(c), lectures) =~= lectures_of_courses(courses, lectures));
    }
}

/// The name a page's course is shown under: that of the last listed
/// course with the key, or the key's slug when none is listed.
pub open spec fn name_of_course(courses: Seq<Course>, key: CourseKeyView) -> Seq<char>
    decreases courses.len(),
{
    if courses.len() == 0 {
        key.slug
    } else if courses.last().key@ == key {
        courses.last().name@
    } else {
        name_of_course(courses.drop_last(), key)
    }
}

/// Whether some cached lecture list holds a lecture with the key.
pub open spec fn lecture_is_cached(lectures: Map<CourseKeyView, Seq<Lecture>>, key: LectureKeyView) -> bool {
    exists|c: CourseKeyView, i: int|
        lectures.contains_key(c) && 0 <= i < lectures[c].len() && (#[trigger] lectures[c][i]).key@ == key
}

/// `name` is the name of a cached lecture with the key, or the key's slug
/// when no cached lecture has it.
pub open spec fn is_lecture_name(lectures: Map<CourseKeyView, Seq<Lecture>>, key: LectureKeyView, name: Seq<char>) -> bool {
    if lecture_is_cached(lectures, key) {
        exists|c: CourseKeyView, i: int|
            lectures.contains_key(c) && 0 <= i < lectures[c].len() && (#[trigger] lectures[c][i]).key@ == key
                && lectures[c][i].name@ == name
    } else {
        name == key.slug
    }
}

/// Whether some cached page list holds a page with the key.
pub open spec fn page_is_cached(pages: Map<LectureKeyView, Seq<LecturePage>>, key: PageKeyView) -> bool {
    exists|l: LectureKeyView, i: int| pages.contains_key(l) && 0 <= i < pages[l].len() && (#[trigger] pages[l][i]).key@ == key
}

/// `name` is the name of a cached page with the key, or the key's slug
/// when no cached page has it.
pub open spec fn is_page_name(pages: Map<LectureKeyView, Seq<LecturePage>>, key: PageKeyView, name: Seq<char>) -> bool {
    if page_is_cached(pages, key) {
        exists|l: LectureKeyView, i: int|
            pages.contains_key(l) && 0 <= i < pages[l].len() && (#[trigger] pages[l][i]).key@ == key
                && pages[l][i].name@ == name
    } else {
        name == key.slug
    }
}

/// The cached pages of the cached lectures of the given courses.
pub open spec fn pages_of_courses(
    courses: Set<CourseKeyView>,
    lectures: Map<CourseKeyView, Seq<Lecture>>,
    pages: Map<LectureKeyView, Seq<LecturePage>>,
) -> Set<PageKeyView> {
    Set::new(
        |pk: PageKeyView|
            exists|c: CourseKeyView|
                courses.contains(c) && lectures.contains_key(c) && #[trigger] cached_page_keys_of(lectures[c], pages).contains(pk),
    )
}

/// The cached pages of the given lectures.
pub open spec fn pages_of_lectures(
    lectures: Set<LectureKeyView>,
    pages: Map<LectureKeyView, Seq<LecturePage>>,
) -> Set<PageKeyView> {
    Set::new(
        |pk: PageKeyView|
            exists|l: LectureKeyView| lectures.contains(l) && pages.contains_key(l) && #[trigger] page_keys_of(pages[l]).contains(pk),
    )
}

/// Pages selected on their own, outside a selected lecture or course.
pub open spec fn loose_pages(v: SelectorView) -> Set<PageKeyView> {
    Set::new(
        |pk: PageKeyView|
            v.chosen_pages.contains(pk) && !v.chosen_lectures.contains(pk.lecture) && !v.chosen_courses.contains(
                pk.lecture.course,
            ),
    )
}

/// Every page the selection stands for, as far as the caches know it:
/// cached pages of selected courses, cached pages of lectures selected on
/// their own, and pages selected on their own.
pub open spec fn resolved_pages(v: SelectorView) -> Set<PageKeyView> {
    pages_of_courses(v.chosen_courses, v.lectures, v.pages) + pages_of_lectures(
        lone_lectures(v.chosen_lectures, v.chosen_courses),
        v.pages,
    ) + loose_pages(v)
}

/// A resolved page carries the names of its course, lecture and page.
pub open spec fn resolved_names_ok(v: SelectorView, r: ResolvedPage) -> bool {
    &&& r.course_name@ == name_of_course(v.courses, r.page_key@.lecture.course)
    &&& is_lecture_name(v.lectures, r.page_key@.lecture, r.lecture_name@)
    &&& is_page_name(v.pages, r.page_key@, r.page_name@)
}

pub open spec fn resolved_list_ok(v: SelectorView, out: Seq<ResolvedPage>, keys: Seq<PageKeyView>) -> bool {
    &&& resolved_keys(out) == keys
    &&& forall|i: int| 0 <= i < out.len() ==> resolved_names_ok(v, #[trigger] out[i])
}

proof fn lemma_pages_of_courses_insert(
    courses: Set<CourseKeyView>,
    lectures: Map<CourseKeyView, Seq<Lecture>>,
    pages: Map<LectureKeyView, Seq<LecturePage>>,
    c: CourseKeyView,
)
    ensures
        lectures.contains_key(c) ==> pages_of_courses(courses.insert(c), lectures, pages)
            == pages_of_courses(courses, lectures, pages) + cached_page_keys_of(lectures[c], pages),
        !lectures.contains_key(c) ==> pages_of_courses(courses.insert(c), lectures, pages)
            == pages_of_courses(courses, lectures, pages),
{
    if lectures.contains_key(c) {
        assert(pages_of_courses(courses.insert(c), lectures, pages) =~= pages_of_courses(courses, lectures, pages)
            + cached_page_keys_of(lectures[c], pages));
    } else {
        assert(pages_of_courses(courses.insert(c), lectures, pages) =~= pages_of_courses(courses, lectures, pages));
    }
}

proof fn lemma_pages_of_lectures_insert(
    lectures: Set<LectureKeyView>,
    pages: Map<LectureKeyView, Seq<LecturePage>>,
    l: LectureKeyView,
)
    ensures
        pages.contains_key(l) ==> pages_of_lectures(lectures.insert(l), pages)
            == pages_of_lectures(lectures, pages) + page_keys_of(pages[l]),
        !pages.contains_key(l) ==> pages_of_lectures(lectures.insert(l), pages) == pages_of_lectures(lectures, pages),
{
    if pages.contains_key(l) {
        assert(pages_of_lectures(lectures.insert(l), pages) =~= pages_of_lectures(lectures, pages) + page_keys_of(pages[l]));
    } else {
        assert(pages_of_lectures(lectures.insert(l), pages) =~= pages_of_lectures(lectures, pages));
    }
}

/// The first course gets the focus and its lectures are requested.
pub open spec fn after_request_initial_data(v: SelectorView) -> (SelectorView, Option<SelectorRequest>) {
    if v.courses.len() > 0 {
        (
            SelectorView { loading_lectures: true, focused_course: Some(v.courses[0].key@), ..v },
            Some(SelectorRequest::FetchLectures(v.courses[0].key@)),
        )
    } else {
        (v, None)
    }
}

/// Space on the course under the cursor flips its mark: a course that is
/// not fully checked becomes checked, a checked one becomes unchecked. The
/// press asks for nothing and leaves the lists and caches as they were.
pub proof fn lemma_toggle_course_flips(v: SelectorView, space: KeyPress)
    requires
        space.code == KeyCode::Char(' '),
        v.column == Column::Course,
        course_under_cursor(v) is Some,
    ensures
        ({
            let key = course_under_cursor(v)->0;
            let (w, r) = after_key(v, space);
            &&& r is None
            &&& course_mark_in(v, key) == CheckState::Checked ==> course_mark_in(w, key) == CheckState::Unchecked
            &&& course_mark_in(v, key) != CheckState::Checked ==> course_mark_in(w, key) == CheckState::Checked
            &&& w.courses == v.courses
            &&& w.lectures == v.lectures
            &&& w.pages == v.pages
        }),
{
    let key = course_under_cursor(v)->0;
    crate::selection::lemma_deselected_course_is_unchecked(
        v.chosen_courses,
        v.chosen_lectures,
        v.chosen_pages,
        v.lectures,
        v.pages,
        key,
    );
}

/// Space on the lecture under the cursor flips its mark: a lecture that is
/// not fully checked becomes checked, a checked one becomes unchecked. Its
/// course is no longer selected as a whole, the press asks for nothing,
/// and the lists and caches stay as they were.
pub proof fn lemma_toggle_lecture_flips(v: SelectorView, space: KeyPress)
    requires
        space.code == KeyCode::Char(' '),
        v.column == Column::Lecture,
        lecture_under_cursor(v) is Some,
    ensures
        ({
            let key = lecture_under_cursor(v)->0;
            let (w, r) = after_key(v, space);
            &&& r is None
            &&& !w.chosen_courses.contains(key.course)
            &&& lecture_mark_in(v, key) == CheckState::Checked ==> lecture_mark_in(w, key) == CheckState::Unchecked
            &&& lecture_mark_in(v, key) != CheckState::Checked ==> lecture_mark_in(w, key) == CheckState::Checked
            &&& w.courses == v.courses
            &&& w.lectures == v.lectures
            &&& w.pages == v.pages
        }),
{
    let key = lecture_under_cursor(v)->0;
    let w = after_toggle(v);
    if lecture_mark_in(v, key) == CheckState::Checked && v.pages.contains_key(key) {
        let pl = v.pages[key];
        let pm = crate::selection::page_marks(w.chosen_pages, pl);
        assert forall|j: int| 0 <= j < pm.len() implies pm[j] == CheckState::Unchecked by {
            assert(page_keys_of(pl).contains(pl[j].key@));
        }
        crate::selection::lemma_aggregate_all_unchecked(pm);
    }
}

/// Space on the page under the cursor flips whether it is selected, and
/// asks for nothing.
pub proof fn lemma_toggle_page_flips(v: SelectorView, space: KeyPress)
    requires
        space.code == KeyCode::Char(' '),
        v.column == Column::Page,
        v.page_cursor matches Some(i) && i < current_pages(v).len(),
    ensures
        ({
            let key = current_pages(v)[v.page_cursor->0 as int].key@;
            let (w, r) = after_key(v, space);
            &&& r is None
            &&& w.chosen_pages.contains(key) == !v.chosen_pages.contains(key)
        }),
{
}

/// Space on a page in the page column changes the selection of that page
/// alone: its lecture and its course are no longer selected as a whole,
/// so a page taken out of a selected lecture stays out, and the lecture,
/// which still lists that page, is no longer shown fully checked.
pub proof fn lemma_page_toggle_drops_whole_selection(v: SelectorView, space: KeyPress)
    requires
        space.code == KeyCode::Char(' '),
        v.column == Column::Page,
        v.page_cursor matches Some(i) && i < current_pages(v).len(),
    ensures
        ({
            let key = current_pages(v)[v.page_cursor->0 as int].key@;
            let (w, r) = after_key(v, space);
            &&& r is None
            &&& !w.chosen_lectures.contains(key.lecture)
            &&& !w.chosen_courses.contains(key.lecture.course)
            &&& w.chosen_pages.contains(key) == !v.chosen_pages.contains(key)
            &&& forall|p: PageKeyView| p != key ==> (w.chosen_pages.contains(p) == v.chosen_pages.contains(p))
            &&& (v.chosen_pages.contains(key) && w.pages.contains_key(key.lecture) && page_keys_of(w.pages[key.lecture]).contains(key))
                ==> lecture_mark_in(w, key.lecture) != CheckState::Checked
        }),
{
    let key = current_pages(v)[v.page_cursor->0 as int].key@;
    let w = after_key(v, space).0;
    if v.chosen_pages.contains(key) && w.pages.contains_key(key.lecture) && page_keys_of(w.pages[key.lecture]).contains(key) {
        let list = w.pages[key.lecture];
        let marks = crate::selection::page_marks(w.chosen_pages, list);
        let j = choose|j: int| 0 <= j < list.len() && list[j].key@ == key;
        assert(marks[j] == CheckState::Unchecked);
        assert(!crate::selection::all_checked(marks));
    }
}

/// Resolving the selection covers everything that is selected: every
/// cached page of every cached lecture of a selected course, every cached
/// page of a lecture selected while its course is not, and every page
/// selected on its own.
pub proof fn lemma_resolved_pages_cover_selection(v: SelectorView)
    ensures
        forall|c: CourseKeyView|
            v.chosen_courses.contains(c) && v.lectures.contains_key(c) ==> #[trigger] cached_page_keys_of(
                v.lectures[c],
                v.pages,
            ).subset_of(resolved_pages(v)),
        forall|l: LectureKeyView|
            v.chosen_lectures.contains(l) && !v.chosen_courses.contains(l.course) && v.pages.contains_key(l)
                ==> #[trigger] page_keys_of(v.pages[l]).subset_of(resolved_pages(v)),
        forall|p: PageKeyView|
            v.chosen_pages.contains(p) && !v.chosen_lectures.contains(p.lecture) && !v.chosen_courses.contains(
                p.lecture.course,
            ) ==> #[trigger] resolved_pages(v).contains(p),
{
    assert forall|c: CourseKeyView|
        v.chosen_courses.contains(c) && v.lectures.contains_key(c) implies #[trigger] cached_page_keys_of(
            v.lectures[c],
            v.pages,
        ).subset_of(resolved_pages(v)) by {
        assert forall|p: PageKeyView| cached_page_keys_of(v.lectures[c], v.pages).contains(p) implies resolved_pages(
            v,
        ).contains(p) by {
            assert(pages_of_courses(v.chosen_courses, v.lectures, v.pages).contains(p));
        }
    }
    assert forall|l: LectureKeyView|
        v.chosen_lectures.contains(l) && !v.chosen_courses.contains(l.course) && v.pages.contains_key(l)
            implies #[trigger] page_keys_of(v.pages[l]).subset_of(resolved_pages(v)) by {
        assert(lone_lectures(v.chosen_lectures, v.chosen_courses).contains(l));
        assert forall|p: PageKeyView| page_keys_of(v.pages[l]).contains(p) implies resolved_pages(v).contains(p) by {
            assert(pages_of_lectures(lone_lectures(v.chosen_lectures, v.chosen_courses), v.pages).contains(p));
        }
    }
    assert forall|p: PageKeyView|
        v.chosen_pages.contains(p) && !v.chosen_lectures.contains(p.lecture) && !v.chosen_courses.contains(
            p.lecture.course,
        ) implies #[trigger] resolved_pages(v).contains(p) by {
        assert(loose_pages(v).contains(p));
    }
}

/// Pages that arrive for the focused lecture while that lecture is
/// selected as a whole are all selected, and no page selected before is
/// dropped.
pub proof fn lemma_arriving_pages_of_selected_lecture_are_selected(
    v: SelectorView,
    pages: Seq<LecturePage>,
    lecture: LectureKeyView,
)
    requires
        v.focused_lecture == Some(lecture),
        v.chosen_lectures.contains(lecture),
    ensures
        page_keys_of(pages).subset_of(after_set_pages(v, pages, lecture).chosen_pages),
        v.chosen_pages.subset_of(after_set_pages(v, pages, lecture).chosen_pages),
        after_set_pages(v, pages, lecture).pages[lecture] == pages,
{
}

/// Arriving pages select nothing for a lecture that is not selected as a
/// whole.
pub proof fn lemma_arriving_pages_of_other_lecture_select_nothing(
    v: SelectorView,
    pages: Seq<LecturePage>,
    lecture: LectureKeyView,
)
    requires
        !v.chosen_lectures.contains(lecture),
    ensures
        after_set_pages(v, pages, lecture).chosen_pages == v.chosen_pages,
{
}

/// When the newly focused lecture's pages are cached, they are shown, and
/// if the lecture or its course is selected as a whole every one of them
/// is selected, without dropping any page selected before.
pub proof fn lemma_cached_pages_of_selected_lecture_are_selected(v: SelectorView)
    requires
        v.focused_lecture matches Some(k) && v.pages.contains_key(k),
    ensures
        ({
            let k = v.focused_lecture->0;
            let (w, shown) = after_load_pages_from_cache(v);
            &&& shown
            &&& current_pages(w) == v.pages[k]
            &&& v.chosen_pages.subset_of(w.chosen_pages)
            &&& (v.chosen_lectures.contains(k) || v.chosen_courses.contains(k.course)) ==> page_keys_of(
                v.pages[k],
            ).subset_of(w.chosen_pages)
            &&& !(v.chosen_lectures.contains(k) || v.chosen_courses.contains(k.course)) ==> w.chosen_pages
                == v.chosen_pages
        }),
{
}

/// Lectures that arrive for the focused course while that course is
/// selected as a whole are all selected, and no lecture selected before
/// is dropped; for a course that is not selected nothing is selected.
pub proof fn lemma_arriving_lectures_of_selected_course_are_selected(
    v: SelectorView,
    lectures: Seq<Lecture>,
    course: CourseKeyView,
)
    ensures
        v.chosen_lectures.subset_of(after_set_lectures(v, lectures, course).chosen_lectures),
        after_set_lectures(v, lectures, course).lectures[course] == lectures,
        v.focused_course == Some(course) && v.chosen_courses.contains(course) ==> lecture_keys_of(lectures).subset_of(
            after_set_lectures(v, lectures, course).chosen_lectures,
        ),
        !v.chosen_courses.contains(course) ==> after_set_lectures(v, lectures, course).chosen_lectures
            == v.chosen_lectures,
{
}

/// When the newly focused course's lectures are cached, they are shown,
/// and if the course is selected every one of them is selected.
pub proof fn lemma_cached_lectures_of_selected_course_are_selected(v: SelectorView)
    requires
        v.focused_course matches Some(k) && v.lectures.contains_key(k),
    ensures
        ({
            let k = v.focused_course->0;
            let (w, shown) = after_load_lectures_from_cache(v);
            &&& shown
            &&& v.chosen_lectures.subset_of(w.chosen_lectures)
            &&& v.chosen_courses.contains(k) ==> lecture_keys_of(v.lectures[k]).subset_of(w.chosen_lectures)
            &&& !v.chosen_courses.contains(k) ==> w.chosen_lectures == v.chosen_lectures
        }),
{
}

/// Space on a course that is not fully checked selects it together with
/// the cached lectures and pages shown below it, and keeps everything
/// selected before.
pub proof fn lemma_course_toggle_selects_what_is_shown(v: SelectorView, space: KeyPress)
    requires
        space.code == KeyCode::Char(' '),
        v.column == Column::Course,
        course_under_cursor(v) is Some,
        course_mark_in(v, course_under_cursor(v)->0) != CheckState::Checked,
    ensures
        ({
            let w = after_key(v, space).0;
            &&& w.chosen_courses.contains(course_under_cursor(v)->0)
            &&& lecture_keys_of(current_lectures(v)).subset_of(w.chosen_lectures)
            &&& page_keys_of(current_pages(v)).subset_of(w.chosen_pages)
            &&& v.chosen_courses.subset_of(w.chosen_courses)
            &&& v.chosen_lectures.subset_of(w.chosen_lectures)
            &&& v.chosen_pages.subset_of(w.chosen_pages)
        }),
{
}

/// Space on a lecture that is not fully checked selects it together with
/// the cached pages shown below it; its course is no longer selected as a
/// whole.
pub proof fn lemma_lecture_toggle_selects_what_is_shown(v: SelectorView, space: KeyPress)
    requires
        space.code == KeyCode::Char(' '),
        v.column == Column::Lecture,
        lecture_under_cursor(v) is Some,
        lecture_mark_in(v, lecture_under_cursor(v)->0) != CheckState::Checked,
    ensures
        ({
            let k = lecture_under_cursor(v)->0;
            let w = after_key(v, space).0;
            &&& w.chosen_lectures.contains(k)
            &&& !w.chosen_courses.contains(k.course)
            &&& page_keys_of(current_pages(v)).subset_of(w.chosen_pages)
            &&& v.chosen_lectures.subset_of(w.chosen_lectures)
            &&& v.chosen_pages.subset_of(w.chosen_pages)
        }),
{
}

/// A selector with nothing listed, cached, focused or selected.
pub open spec fn empty_selector() -> SelectorView {
    SelectorView {
        courses: Seq::empty(),
        lectures: Map::empty(),
        pages: Map::empty(),
        course_cursor: None,
        lecture_cursor: None,
        page_cursor: None,
        chosen_courses: Set::empty(),
        chosen_lectures: Set::empty(),
        chosen_pages: Set::empty(),
        column: Column::Course,
        loading_lectures: false,
        loading_pages: false,
        focused_course: None,
        focused_lecture: None,
    }
}

/// The selector's state.
pub struct SelectorComponent {
    courses: Vec<Course>,
    lectures_cache: Cache<CourseKey, Lecture>,
    pages_cache: Cache<LectureKey, LecturePage>,
    course_state: ListCursor,
    lecture_state: ListCursor,
    page_state: ListCursor,
    selection: SelectionState,
    current_column: Column,
    loading_lectures: bool,
    loading_pages: bool,
    focused_course_key: Option<CourseKey>,
    focused_lecture_key: Option<LectureKey>,
}

impl View for SelectorComponent {
    type V = SelectorView;

    closed spec fn view(&self) -> SelectorView {
        SelectorView {
            courses: self.courses@,
            lectures: self.lectures_cache.map(),
            pages: self.pages_cache.map(),
            course_cursor: self.course_state.selected,
            lecture_cursor: self.lecture_state.selected,
            page_cursor: self.page_state.selected,
            chosen_courses: self.selection.courses.set(),
            chosen_lectures: self.selection.lectures.set(),
            chosen_pages: self.selection.pages.set(),
            column: self.current_column,
            loading_lectures: self.loading_lectures,
            loading_pages: self.loading_pages,
            focused_course: course_key_of(self.focused_course_key),
            focused_lecture: lecture_key_of(self.focused_lecture_key),
        }
    }
}

fn lectures_for<'a>(cache: &'a Cache<CourseKey, Lecture>, key: &Option<CourseKey>) -> (r: Option<&'a Vec<Lecture>>)
    requires
        cache.wf(),
    ensures
        r matches Some(ls) ==> key is Some && cache.map().contains_key(key->0@) && ls@ == cache.map()[key->0@],
        r is None ==> key is None || !cache.map().contains_key(key->0@),
{
    match key {
        Some(k) => cache.get(k),
        None => None,
    }
}

fn pages_for<'a>(cache: &'a Cache<LectureKey, LecturePage>, key: &Option<LectureKey>) -> (r: Option<&'a Vec<LecturePage>>)
    requires
        cache.wf(),
    ensures
        r matches Some(ps) ==> key is Some && cache.map().contains_key(key->0@) && ps@ == cache.map()[key->0@],
        r is None ==> key is None || !cache.map().contains_key(key->0@),
{
    match key {
        Some(k) => cache.get(k),
        None => None,
    }
}

fn same_course(a: &Option<CourseKey>, b: &CourseKey) -> (r: bool)
    ensures
        r == (course_key_of(*a) == Some(b@)),
{
    match a {
        Some(k) => k.same_key(b),
        None => false,
    }
}

fn same_lecture(a: &Option<LectureKey>, b: &LectureKey) -> (r: bool)
    ensures
        r == (lecture_key_of(*a) == Some(b@)),
{
    match a {
        Some(k) => k.same_key(b),
        None => false,
    }
}

impl SelectorComponent {
    pub closed spec fn wf(&self) -> bool {
        &&& self.lectures_cache.wf()
        &&& self.pages_cache.wf()
        &&& self.selection.wf()
    }

    pub fn new() -> (s: Self)
        ensures
            s.wf(),
            s@ == empty_selector(),
    {
        let s = SelectorComponent {
            courses: Vec::new(),
            lectures_cache: Cache::new(),
            pages_cache: Cache::new(),
            course_state: ListCursor::new(),
            lecture_state: ListCursor::new(),
            page_state: ListCursor::new(),
            selection: SelectionState::new(),
            current_column: Column::default(),
            loading_lectures: false,
            loading_pages: false,
            focused_course_key: None,
            focused_lecture_key: None,
        };
        assert(s@.courses =~= Seq::<Course>::empty());
        s
    }

    pub fn set_courses(&mut self, courses: Vec<Course>)
        requires
            old(self).wf(),
        ensures
            final(self).wf(),
            final(self)@ == after_set_courses(old(self)@, courses@),
    {
        self.courses = courses;
        if self.courses.len() > 0 {
            self.course_state.select(Some(0));
            self.focused_course_key = Some(self.courses[0].key.clone());
        }
        self.lecture_state.select(None);
        self.page_state.select(None);
        self.focused_lecture_key = None;
    }

    pub fn set_lectures(&mut self, lectures: Vec<Lecture>, for_course: &CourseKey)
        requires
            old(self).wf(),
        ensures
            final(self).wf(),
            final(self)@ == after_set_lectures(old(self)@, lectures@, for_course@),
    {
        self.lectures_cache.insert(for_course.clone(), lectures);
        if !same_course(&self.focused_course_key, for_course) {
            return;
        }
        self.loading_lectures = false;
        let first_key: Option<LectureKey> = match lectures_for(&self.lectures_cache, &self.focused_course_key) {
            Some(v) => if v.len() > 0 {
                Some(v[0].key.clone())
            } else {
                None
            },
            None => None,
        };
        match first_key {
            None => {
                self.lecture_state.select(None);
                self.focused_lecture_key = None;
            },
            Some(k) => {
                self.lecture_state.select(Some(0));
                self.focused_lecture_key = Some(k);
            },
        }
        if self.selection.is_course_selected(for_course) {
            if let Some(v) = lectures_for(&self.lectures_cache, &self.focused_course_key) {
                self.selection.select_all_lectures(v);
            }
        }
        self.page_state.select(None);
    }

    pub fn set_pages(&mut self, pages: Vec<LecturePage>, for_lecture: &LectureKey)
        requires
            old(self).wf(),
        ensures
            final(self).wf(),
            final(self)@ == after_set_pages(old(self)@, pages@, for_lecture@),
    {
        self.pages_cache.insert(for_lecture.clone(), pages);
        if !same_lecture(&self.focused_lecture_key, for_lecture) {
            return;
        }
        self.loading_pages = false;
        let empty = match pages_for(&self.pages_cache, &self.focused_lecture_key) {
            Some(v) => v.len() == 0,
            None => true,
        };
        if empty {
            self.page_state.select(None);
        } else {
            self.page_state.select(Some(0));
        }
        if self.selection.is_lecture_selected(for_lecture) {
            if let Some(v) = pages_for(&self.pages_cache, &self.focused_lecture_key) {
                self.selection.select_all_pages(v);
            }
        }
    }

    pub fn set_loading_lectures(&mut self, loading: bool)
        requires
            old(self).wf(),
        ensures
            final(self).wf(),
            final(self)@ == (SelectorView { loading_lectures: loading, ..old(self)@ }),
    {
        self.loading_lectures = loading;
    }

    pub fn set_loading_pages(&mut self, loading: bool)
        requires
            old(self).wf(),
        ensures
            final(self).wf(),
            final(self)@ == (SelectorView { loading_pages: loading, ..old(self)@ }),
    {
        self.loading_pages = loading;
    }

    pub fn get_focused_lecture_key(&self) -> (r: Option<LectureKey>)
        ensures
            lecture_key_of(r) == self@.focused_lecture,
    {
        match &self.focused_lecture_key {
            Some(k) => Some(k.clone()),
            None => None,
        }
    }

    fn try_load_lectures_from_cache(&mut self) -> (loaded: bool)
        requires
            old(self).wf(),
        ensures
            final(self).wf(),
            (final(self)@, loaded) == after_load_lectures_from_cache(old(self)@),
    {
        let key = match &self.focused_course_key {
            Some(k) => k.clone(),
            None => {
                return false;
            },
        };
        if !self.lectures_cache.contains_key(&key) {
            return false;
        }
        self.loading_lectures = false;
        if self.selection.is_course_selected(&key) {
            if let Some(v) = lectures_for(&self.lectures_cache, &self.focused_course_key) {
                self.selection.select_all_lectures(v);
            }
        }
        let first_key: Option<LectureKey> = match lectures_for(&self.lectures_cache, &self.focused_course_key) {
            Some(v) => if v.len() > 0 {
                Some(v[0].key.clone())
            } else {
                None
            },
            None => None,
        };
        match first_key {
            None => {
                self.lecture_state.select(None);
            },
            Some(k) => {
                self.lecture_state.select(Some(0));
                self.focused_lecture_key = Some(k);
            },
        }
        true
    }

    pub fn try_load_pages_from_cache(&mut self) -> (loaded: bool)
        requires
            old(self).wf(),
        ensures
            final(self).wf(),
            (final(self)@, loaded) == after_load_pages_from_cache(old(self)@),
    {
        let key = match &self.focused_lecture_key {
            Some(k) => k.clone(),
            None => {
                return false;
            },
        };
        if !self.pages_cache.contains_key(&key) {
            return false;
        }
        self.loading_pages = false;
        let should_select = self.selection.is_lecture_selected(&key) || self.selection.is_course_selected(
            &key.course_key,
        );
        if should_select {
            if let Some(v) = pages_for(&self.pages_cache, &self.focused_lecture_key) {
                self.selection.select_all_pages(v);
            }
        }
        let empty = match pages_for(&self.pages_cache, &self.focused_lecture_key) {
            Some(v) => v.len() == 0,
            None => true,
        };
        if empty {
            self.page_state.select(None);
        } else {
            self.page_state.select(Some(0));
        }
        true
    }
    fn move_column_left(&mut self)
        requires
            old(self).wf(),
        ensures
            final(self).wf(),
            final(self)@ == (SelectorView { column: column_left(old(self)@.column), ..old(self)@ }),
    {
        self.current_column = match self.current_column {
            Column::Course | Column::Lecture => Column::Course,
            Column::Page => Column::Lecture,
        };
    }

    fn move_column_right(&mut self)
        requires
            old(self).wf(),
        ensures
            final(self).wf(),
            final(self)@ == (SelectorView { column: column_right(old(self)@), ..old(self)@ }),
    {
        let lectures_len = match lectures_for(&self.lectures_cache, &self.focused_course_key) {
            Some(v) => v.len(),
            None => 0,
        };
        let pages_len = match pages_for(&self.pages_cache, &self.focused_lecture_key) {
            Some(v) => v.len(),
            None => 0,
        };
        self.current_column = match self.current_column {
            Column::Course => if lectures_len > 0 || self.loading_lectures {
                Column::Lecture
            } else {
                Column::Course
            },
            Column::Lecture => if pages_len > 0 || self.loading_pages {
                Column::Page
            } else {
                Column::Lecture
            },
            Column::Page => Column::Page,
        };
    }

    fn on_course_focus_changed(&mut self) -> (r: Option<SelectorAction>)
        requires
            old(self).wf(),
        ensures
            final(self).wf(),
            (final(self)@, request_of(r)) == after_course_focus_change(old(self)@),
    {
        let new_key: Option<CourseKey> = match self.course_state.selected() {
            Some(i) => if i < self.courses.len() {
                Some(self.courses[i].key.clone())
            } else {
                None
            },
            None => None,
        };
        let unchanged = match (&new_key, &self.focused_course_key) {
            (Some(a), Some(b)) => a.same_key(b),
            (None, None) => true,
            _ => false,
        };
        if unchanged {
            return None;
        }
        self.focused_course_key = new_key.clone();
        self.page_state.select(None);
        self.focused_lecture_key = None;
        let key = match new_key {
            Some(k) => k,
            None => {
                self.lecture_state.select(None);
                return None;
            },
        };
        if self.try_load_lectures_from_cache() {
            if !self.try_load_pages_from_cache() {
                if let Some(lecture_key) = self.get_focused_lecture_key() {
                    self.loading_pages = true;
                    return Some(SelectorAction::FetchPages(lecture_key));
                }
            }
            return None;
        }
        self.lecture_state.select(None);
        self.loading_lectures = true;
        Some(SelectorAction::FetchLectures(key))
    }

    fn on_lecture_focus_changed(&mut self) -> (r: Option<SelectorAction>)
        requires
            old(self).wf(),
        ensures
            final(self).wf(),
            (final(self)@, request_of(r)) == after_lecture_focus_change(old(self)@),
    {
        let new_key: Option<LectureKey> = match self.lecture_state.selected() {
            Some(i) => match lectures_for(&self.lectures_cache, &self.focused_course_key) {
                Some(v) => if i < v.len() {
                    Some(v[i].key.clone())
                } else {
                    None
                },
                None => None,
            },
            None => None,
        };
        let unchanged = match (&new_key, &self.focused_lecture_key) {
            (Some(a), Some(b)) => a.same_key(b),
            (None, None) => true,
            _ => false,
        };
        if unchanged {
            return None;
        }
        self.focused_lecture_key = new_key.clone();
        let key = match new_key {
            Some(k) => k,
            None => {
                self.page_state.select(None);
                return None;
            },
        };
        if self.try_load_pages_from_cache() {
            return None;
        }
        self.page_state.select(None);
        self.loading_pages = true;
        Some(SelectorAction::FetchPages(key))
    }

    fn move_selection(&mut self, delta: i32) -> (r: Option<SelectorAction>)
        requires
            old(self).wf(),
        ensures
            final(self).wf(),
            (final(self)@, request_of(r)) == after_move_selection(old(self)@, delta),
    {
        match self.current_column {
            Column::Course => {
                let n = self.courses.len();
                move_list_selection(&mut self.course_state, n, delta);
                self.on_course_focus_changed()
            },
            Column::Lecture => {
                let n = match lectures_for(&self.lectures_cache, &self.focused_course_key) {
                    Some(v) => v.len(),
                    None => 0,
                };
                move_list_selection(&mut self.lecture_state, n, delta);
                self.on_lecture_focus_changed()
            },
            Column::Page => {
                let n = match pages_for(&self.pages_cache, &self.focused_lecture_key) {
                    Some(v) => v.len(),
                    None => 0,
                };
                move_list_selection(&mut self.page_state, n, delta);
                None
            },
        }
    }

    fn toggle_selection(&mut self) -> (r: Option<SelectorAction>)
        requires
            old(self).wf(),
        ensures
            final(self).wf(),
            final(self)@ == after_toggle(old(self)@),
            r is None,
    {
        match self.current_column {
            Column::Course => {
                if let Some(i) = self.course_state.selected() {
                    if i < self.courses.len() {
                        let key = self.courses[i].key.clone();
                        let state = self.selection.get_course_check_state(&key, &self.lectures_cache, &self.pages_cache);
                        match state {
                            CheckState::Checked => {
                                self.selection.deselect_course_cascade(&key, &self.lectures_cache, &self.pages_cache);
                            },
                            _ => {
                                self.selection.courses.insert(key);
                                if let Some(v) = lectures_for(&self.lectures_cache, &self.focused_course_key) {
                                    self.selection.select_all_lectures(v);
                                } else {
                                    proof {
                                        assert(lecture_keys_of(Seq::<Lecture>::empty()) =~= Set::<LectureKeyView>::empty());
                                        assert(self.selection.lectures.set() + lecture_keys_of(Seq::<Lecture>::empty())
                                            =~= self.selection.lectures.set());
                                    }
                                }
                                if let Some(v) = pages_for(&self.pages_cache, &self.focused_lecture_key) {
                                    self.selection.select_all_pages(v);
                                } else {
                                    proof {
                                        assert(page_keys_of(Seq::<LecturePage>::empty()) =~= Set::<PageKeyView>::empty());
                                        assert(self.selection.pages.set() + page_keys_of(Seq::<LecturePage>::empty())
                                            =~= self.selection.pages.set());
                                    }
                                }
                            },
                        }
                        return None;
                    }
                }
            },
            Column::Lecture => {
                let key: Option<LectureKey> = match self.lecture_state.selected() {
                    Some(i) => match lectures_for(&self.lectures_cache, &self.focused_course_key) {
                        Some(v) => if i < v.len() {
                            Some(v[i].key.clone())
                        } else {
                            None
                        },
                        None => None,
                    },
                    None => None,
                };
                if let Some(key) = key {
                    let state = self.selection.get_lecture_check_state(&key, &self.pages_cache);
                    self.selection.courses.remove(&key.course_key);
                    match state {
                        CheckState::Checked => {
                            self.selection.deselect_lecture_cascade(&key, &self.pages_cache);
                        },
                        _ => {
                            self.selection.lectures.insert(key);
                            if let Some(v) = pages_for(&self.pages_cache, &self.focused_lecture_key) {
                                self.selection.select_all_pages(v);
                            } else {
                                proof {
                                    assert(page_keys_of(Seq::<LecturePage>::empty()) =~= Set::<PageKeyView>::empty());
                                    assert(self.selection.pages.set() + page_keys_of(Seq::<LecturePage>::empty())
                                        =~= self.selection.pages.set());
                                }
                            }
                        },
                    }
                    return None;
                }
            },
            Column::Page => {
                let key: Option<PageKey> = match self.page_state.selected() {
                    Some(i) => match pages_for(&self.pages_cache, &self.focused_lecture_key) {
                        Some(v) => if i < v.len() {
                            Some(v[i].key.clone())
                        } else {
                            None
                        },
                        None => None,
                    },
                    None => None,
                };
                if let Some(key) = key {
                    self.selection.lectures.remove(&key.lecture_key);
                    self.selection.courses.remove(&key.lecture_key.course_key);
                    self.selection.toggle_page(key);
                    return None;
                }
            },
        }
        None
    }

    fn handle_key_event(&mut self, key: KeyPress) -> (r: Option<SelectorAction>)
        requires
            old(self).wf(),
        ensures
            final(self).wf(),
            (final(self)@, request_of(r)) == after_key(old(self)@, key),
    {
        match key.code {
            KeyCode::Left | KeyCode::Char('h') => {
                self.move_column_left();
                None
            },
            KeyCode::Right | KeyCode::Char('l') => {
                self.move_column_right();
                None
            },
            KeyCode::Up | KeyCode::Char('k') => self.move_selection(-1),
            KeyCode::Down | KeyCode::Char('j') => self.move_selection(1),
            KeyCode::Char(' ') => self.toggle_selection(),
            KeyCode::Enter => Some(SelectorAction::Confirm),
            _ => None,
        }
    }

    /// Handles a key press while the selector has the focus.
    pub fn handle_event(&mut self, key: KeyPress) -> (r: Option<SelectorAction>)
        requires
            old(self).wf(),
        ensures
            final(self).wf(),
            (final(self)@, request_of(r)) == after_key(old(self)@, key),
    {
        self.handle_key_event(key)
    }
    /// What must still be fetched before the selection can be resolved:
    /// the selected courses whose lectures are not cached, and the lectures
    /// whose pages are not cached (see `fetch_lists`), visiting the selected
    /// courses and lectures in some order.
    pub fn get_unfetched_for_selection(&self) -> (r: (Vec<CourseKey>, Vec<LectureKey>))
        requires
            self.wf(),
        ensures
            exists|cs: Seq<CourseKeyView>, ls: Seq<LectureKeyView>|
                #![trigger fetch_lists(self@, cs, ls)]
                selection_order(self@, cs, ls) && (course_key_views(r.0@), lecture_key_views(r.1@)) == fetch_lists(
                    self@,
                    cs,
                    ls,
                ),
            course_key_views(r.0@).no_duplicates(),
            course_key_views(r.0@).to_set() == unfetched_courses(self@),
            lecture_key_views(r.1@).to_set() == unfetched_lectures(self@),
    {
        let ghost v = self@;
        let ghost lmap = v.lectures;
        let ghost pmap = v.pages;
        let ghost ckeys = self.selection.courses.keys();
        let mut cs: KeySet<CourseKey> = KeySet::new();
        let mut lo: Vec<LectureKey> = Vec::new();
        proof {
            lemma_take_none_to_set(ckeys);
            assert(ckeys.take(0) =~= Seq::<CourseKeyView>::empty());
            assert(cs.set() =~= Set::new(|c: CourseKeyView| ckeys.take(0).to_set().contains(c) && !lmap.contains_key(c)));
            assert(lecture_key_views(lo@) =~= Seq::<LectureKeyView>::empty());
            assert(lecture_key_views(lo@).to_set() =~= without_cached_pages(lectures_of_courses(ckeys.take(0).to_set(), lmap), pmap));
        }
        let n = self.selection.courses.len();
        let mut i: usize = 0;
        while i < n
            invariant
                self.wf(),
                v == self@,
                lmap == v.lectures,
                pmap == v.pages,
                ckeys == self.selection.courses.keys(),
                ckeys.no_duplicates(),
                n == ckeys.len(),
                i <= n,
                cs.wf(),
                cs.keys() == course_fetches(v, ckeys.take(i as int)),
                cs.set() == Set::new(|c: CourseKeyView| ckeys.take(i as int).to_set().contains(c) && !lmap.contains_key(c)),
                lecture_key_views(lo@) == course_lecture_fetches(v, ckeys.take(i as int)),
                lecture_key_views(lo@).to_set() == without_cached_pages(lectures_of_courses(ckeys.take(i as int).to_set(), lmap), pmap),
            decreases n - i,
        {
            let ck = self.selection.courses.get(i);
            proof {
                lemma_take_to_set_step(ckeys, i as int);
                lemma_lectures_of_courses_insert(ckeys.take(i as int).to_set(), lmap, ck@);
                assert(ckeys.take(i + 1).drop_last() =~= ckeys.take(i as int));
                assert(ckeys.take(i + 1).last() == ck@);
            }
            let ghost before = lecture_key_views(lo@).to_set();
            let ghost base = lecture_key_views(lo@);
            match self.lectures_cache.get(ck) {
                Some(lectures) => {
                    let mut j: usize = 0;
                    proof {
                        assert(lectures@.take(0) =~= Seq::<Lecture>::empty());
                        assert(lecture_keys_of(lectures@.take(0)) =~= Set::<LectureKeyView>::empty());
                        assert(base + uncached_lecture_keys(lectures@.take(0), pmap) =~= base);
                        assert(before + without_cached_pages(lecture_keys_of(lectures@.take(0)), pmap) =~= before);
                    }
                    while j < lectures.len()
                        invariant
                            self.wf(),
                            pmap == self@.pages,
                            j <= lectures.len(),
                            lecture_key_views(lo@) == base + uncached_lecture_keys(lectures@.take(j as int), pmap),
                            lecture_key_views(lo@).to_set() == before + without_cached_pages(
                                lecture_keys_of(lectures@.take(j as int)),
                                pmap,
                            ),
                        decreases lectures.len() - j,
                    {
                        let ghost prev = lecture_key_views(lo@);
                        proof {
                            assert(lectures@.take(j + 1) =~= lectures@.take(j as int).push(lectures@[j as int]));
                            assert(lectures@.take(j + 1).drop_last() =~= lectures@.take(j as int));
                            lemma_lecture_keys_push(lectures@.take(j as int), lectures@[j as int]);
                        }
                        if !self.pages_cache.contains_key(&lectures[j].key) {
                            lo.push(lectures[j].key.copy_key());
                            proof {
                                let k = lectures@[j as int].key@;
                                assert(lecture_key_views(lo@) =~= prev.push(k));
                                lemma_take_to_set_step(prev.push(k), prev.len() as int);
                                assert(prev.push(k).take(prev.len() as int + 1) =~= prev.push(k));
                                assert(prev.push(k).take(prev.len() as int) =~= prev);
                                assert(lecture_key_views(lo@) =~= base + uncached_lecture_keys(lectures@.take(j + 1), pmap));
                            }
                        } else {
                            proof {
                                assert(lecture_key_views(lo@) =~= base + uncached_lecture_keys(lectures@.take(j + 1), pmap));
                            }
                        }
                        proof {
                            assert(lecture_key_views(lo@).to_set() =~= before + without_cached_pages(
                                lecture_keys_of(lectures@.take(j + 1)),
                                pmap,
                            ));
                        }
                        j += 1;
                    }
                    proof {
                        assert(lectures@.take(lectures.len() as int) =~= lectures@);
                        assert(cs.set() =~= Set::new(|c: CourseKeyView| ckeys.take(i + 1).to_set().contains(c) && !lmap.contains_key(c)));
                        assert(lecture_key_views(lo@).to_set() =~= without_cached_pages(lectures_of_courses(ckeys.take(i + 1).to_set(), lmap), pmap));
                        assert(lecture_key_views(lo@) == course_lecture_fetches(v, ckeys.take(i + 1)));
                        assert(cs.keys() == course_fetches(v, ckeys.take(i + 1)));
                    }
                },
                None => {
                    proof {
                        if ckeys.take(i as int).to_set().contains(ck@) {
                            let j = choose|j: int| 0 <= j < ckeys.take(i as int).len() && ckeys.take(i as int)[j] == ck@;
                            assert(ckeys[j] == ckeys[i as int]);
                        }
                        assert(!cs.set().contains(ck@));
                    }
                    cs.insert(ck.copy_key());
                    proof {
                        assert(cs.set() =~= Set::new(|c: CourseKeyView| ckeys.take(i + 1).to_set().contains(c) && !lmap.contains_key(c)));
                        assert(cs.keys() == course_fetches(v, ckeys.take(i + 1)));
                        assert(lecture_key_views(lo@) == course_lecture_fetches(v, ckeys.take(i + 1)));
                        assert(lecture_key_views(lo@).to_set() =~= without_cached_pages(lectures_of_courses(ckeys.take(i + 1).to_set(), lmap), pmap));
                    }
                },
            }
            i += 1;
        }
        proof {
            lemma_take_all_to_set(ckeys);
            assert(ckeys.take(n as int) =~= ckeys);
            assert(cs.set() =~= unfetched_courses(v));
        }
        let ghost lkeys = self.selection.lectures.keys();
        let ghost mid = lecture_key_views(lo@);
        proof {
            lemma_take_none_to_set(lkeys);
            assert(lkeys.take(0) =~= Seq::<LectureKeyView>::empty());
            assert(mid + lone_lecture_fetches(v, lkeys.take(0)) =~= mid);
            assert(lecture_key_views(lo@).to_set() =~= without_cached_pages(
                lectures_of_courses(v.chosen_courses, lmap) + lone_lectures(lkeys.take(0).to_set(), v.chosen_courses),
                pmap,
            ));
        }
        let m = self.selection.lectures.len();
        let mut i: usize = 0;
        while i < m
            invariant
                self.wf(),
                v == self@,
                lmap == v.lectures,
                pmap == v.pages,
                lkeys == self.selection.lectures.keys(),
                m == lkeys.len(),
                i <= m,
                lecture_key_views(lo@) == mid + lone_lecture_fetches(v, lkeys.take(i as int)),
                lecture_key_views(lo@).to_set() == without_cached_pages(
                    lectures_of_courses(v.chosen_courses, lmap) + lone_lectures(lkeys.take(i as int).to_set(), v.chosen_courses),
                    pmap,
                ),
            decreases m - i,
        {
            let lk = self.selection.lectures.get(i);
            let ghost prev = lecture_key_views(lo@);
            proof {
                lemma_take_to_set_step(lkeys, i as int);
                assert(lkeys.take(i + 1).drop_last() =~= lkeys.take(i as int));
                assert(lkeys.take(i + 1).last() == lk@);
            }
            if !self.selection.courses.contains(&lk.course_key) && !self.pages_cache.contains_key(lk) {
                lo.push(lk.copy_key());
                proof {
                    assert(lecture_key_views(lo@) =~= prev.push(lk@));
                    lemma_take_to_set_step(prev.push(lk@), prev.len() as int);
                    assert(prev.push(lk@).take(prev.len() as int + 1) =~= prev.push(lk@));
                    assert(prev.push(lk@).take(prev.len() as int) =~= prev);
                    assert(lecture_key_views(lo@) =~= mid + lone_lecture_fetches(v, lkeys.take(i + 1)));
                }
            } else {
                proof {
                    assert(lecture_key_views(lo@) =~= mid + lone_lecture_fetches(v, lkeys.take(i + 1)));
                }
            }
            proof {
                assert(lecture_key_views(lo@).to_set() =~= without_cached_pages(
                    lectures_of_courses(v.chosen_courses, lmap) + lone_lectures(lkeys.take(i + 1).to_set(), v.chosen_courses),
                    pmap,
                ));
            }
            i += 1;
        }
        proof {
            lemma_take_all_to_set(lkeys);
            assert(lkeys.take(m as int) =~= lkeys);
            assert(lecture_key_views(lo@).to_set() =~= unfetched_lectures(v));
        }
        let ghost cks = cs.keys();
        let a = cs.into_vec();
        proof {
            assert(course_key_views(a@) =~= cks);
            assert(selection_order(v, ckeys, lkeys));
            assert((course_key_views(a@), lecture_key_views(lo@)) == fetch_lists(v, ckeys, lkeys));
        }
        (a, lo)
    }

    fn name_for_course(&self, key: &CourseKey) -> (r: String)
        ensures
            r@ == name_of_course(self@.courses, key@),
    {
        let ghost cs = self.courses@;
        let mut i = self.courses.len();
        assert(cs.take(i as int) =~= cs);
        while i > 0
            invariant
                i <= cs.len(),
                cs == self@.courses,
                cs == self.courses@,
                name_of_course(cs, key@) == name_of_course(cs.take(i as int), key@),
            decreases i,
        {
            i -= 1;
            assert(cs.take(i + 1).drop_last() =~= cs.take(i as int));
            assert(cs.take(i + 1).last() == cs[i as int]);
            if self.courses[i].key.same_key(key) {
                return self.courses[i].name.clone();
            }
        }
        key.slug.clone()
    }

    fn name_for_lecture(&self, key: &LectureKey) -> (r: String)
        requires
            self.wf(),
        ensures
            is_lecture_name(self@.lectures, key@, r@),
    {
        let ghost lmap = self@.lectures;
        let n = self.lectures_cache.len();
        let mut e: usize = 0;
        while e < n
            invariant
                self.wf(),
                lmap == self@.lectures,
                n == self.lectures_cache.keys().len(),
                e <= n,
                forall|f: int, i: int|
                    0 <= f < e && 0 <= i < self.lectures_cache.values()[f].len()
                        ==> (#[trigger] self.lectures_cache.values()[f][i]).key@ != key@,
            decreases n - e,
        {
            let list = self.lectures_cache.values_at(e);
            proof {
                self.lectures_cache.lemma_entry(e as int);
            }
            let mut i: usize = 0;
            while i < list.len()
                invariant
                    self.wf(),
                    lmap == self@.lectures,
                    e < n,
                    n == self.lectures_cache.keys().len(),
                    list@ == self.lectures_cache.values()[e as int],
                    lmap.contains_key(self.lectures_cache.keys()[e as int]),
                    lmap[self.lectures_cache.keys()[e as int]] == list@,
                    forall|f: int, i: int|
                        0 <= f < e && 0 <= i < self.lectures_cache.values()[f].len()
                            ==> (#[trigger] self.lectures_cache.values()[f][i]).key@ != key@,
                    i <= list.len(),
                    forall|j: int| 0 <= j < i ==> (#[trigger] list@[j]).key@ != key@,
                decreases list.len() - i,
            {
                if list[i].key.same_key(key) {
                    proof {
                        let c = self.lectures_cache.keys()[e as int];
                        assert(lmap.contains_key(c) && lmap[c][i as int] == list@[i as int]);
                    }
                    return list[i].name.clone();
                }
                i += 1;
            }
            e += 1;
        }
        proof {
            assert forall|c: CourseKeyView, i: int|
                lmap.contains_key(c) && 0 <= i < lmap[c].len() implies (#[trigger] lmap[c][i]).key@ != key@ by {
                let f = self.lectures_cache.keys().index_of(c);
                assert(self.lectures_cache.keys()[f] == c);
                self.lectures_cache.lemma_entry(f);
                assert(self.lectures_cache.values()[f][i] == lmap[c][i]);
            }
        }
        key.slug.clone()
    }

    fn name_for_page(&self, key: &PageKey) -> (r: String)
        requires
            self.wf(),
        ensures
            is_page_name(self@.pages, key@, r@),
    {
        let ghost pmap = self@.pages;
        let n = self.pages_cache.len();
        let mut e: usize = 0;
        while e < n
            invariant
                self.wf(),
                pmap == self@.pages,
                n == self.pages_cache.keys().len(),
                e <= n,
                forall|f: int, i: int|
                    0 <= f < e && 0 <= i < self.pages_cache.values()[f].len()
                        ==> (#[trigger] self.pages_cache.values()[f][i]).key@ != key@,
            decreases n - e,
        {
            let list = self.pages_cache.values_at(e);
            proof {
                self.pages_cache.lemma_entry(e as int);
            }
            let mut i: usize = 0;
            while i < list.len()
                invariant
                    self.wf(),
                    pmap == self@.pages,
                    e < n,
                    n == self.pages_cache.keys().len(),
                    list@ == self.pages_cache.values()[e as int],
                    pmap.contains_key(self.pages_cache.keys()[e as int]),
                    pmap[self.pages_cache.keys()[e as int]] == list@,
                    forall|f: int, i: int|
                        0 <= f < e && 0 <= i < self.pages_cache.values()[f].len()
                            ==> (#[trigger] self.pages_cache.values()[f][i]).key@ != key@,
                    i <= list.len(),
                    forall|j: int| 0 <= j < i ==> (#[trigger] list@[j]).key@ != key@,
                decreases list.len() - i,
            {
                if list[i].key.same_key(key) {
                    proof {
                        let l = self.pages_cache.keys()[e as int];
                        assert(pmap.contains_key(l) && pmap[l][i as int] == list@[i as int]);
                    }
                    return list[i].name.clone();
                }
                i += 1;
            }
            e += 1;
        }
        proof {
            assert forall|l: LectureKeyView, i: int|
                pmap.contains_key(l) && 0 <= i < pmap[l].len() implies (#[trigger] pmap[l][i]).key@ != key@ by {
                let f = self.pages_cache.keys().index_of(l);
                assert(self.pages_cache.keys()[f] == l);
                self.pages_cache.lemma_entry(f);
                assert(self.pages_cache.values()[f][i] == pmap[l][i]);
            }
        }
        key.slug.clone()
    }

    fn add_page(&self, key: &PageKey, seen: &mut KeySet<PageKey>, out: &mut Vec<ResolvedPage>)
        requires
            self.wf(),
            old(seen).wf(),
            resolved_list_ok(self@, old(out)@, old(seen).keys()),
        ensures
            final(seen).wf(),
            final(seen).set() == old(seen).set().insert(key@),
            resolved_list_ok(self@, final(out)@, final(seen).keys()),
    {
        if seen.insert(key.copy_key()) {
            let page = ResolvedPage {
                page_key: key.clone(),
                course_name: self.name_for_course(&key.lecture_key.course_key),
                lecture_name: self.name_for_lecture(&key.lecture_key),
                page_name: self.name_for_page(key),
            };
            out.push(page);
            assert(resolved_keys(out@) =~= seen.keys());
        }
    }

    fn add_pages(&self, pages: &Vec<LecturePage>, seen: &mut KeySet<PageKey>, out: &mut Vec<ResolvedPage>)
        requires
            self.wf(),
            old(seen).wf(),
            resolved_list_ok(self@, old(out)@, old(seen).keys()),
        ensures
            final(seen).wf(),
            final(seen).set() == old(seen).set() + page_keys_of(pages@),
            resolved_list_ok(self@, final(out)@, final(seen).keys()),
    {
        let mut i: usize = 0;
        while i < pages.len()
            invariant
                self.wf(),
                i <= pages.len(),
                seen.wf(),
                seen.set() == old(seen).set() + page_keys_of(pages@.take(i as int)),
                resolved_list_ok(self@, out@, seen.keys()),
            decreases pages.len() - i,
        {
            self.add_page(&pages[i].key, seen, out);
            proof {
                assert(pages@.take(i + 1) =~= pages@.take(i as int).push(pages@[i as int]));
                lemma_page_keys_push(pages@.take(i as int), pages@[i as int]);
                assert(seen.set() =~= old(seen).set() + page_keys_of(pages@.take(i + 1)));
            }
            i += 1;
        }
        assert(pages@.take(pages.len() as int) =~= pages@);
    }

    /// Every page the selection stands for (see `resolved_pages`), each
    /// once, with the names of its course, lecture and page.
    pub fn resolve_selected_pages(&self) -> (r: Vec<ResolvedPage>)
        requires
            self.wf(),
        ensures
            resolved_keys(r@).no_duplicates(),
            resolved_keys(r@).to_set() == resolved_pages(self@),
            forall|i: int| 0 <= i < r@.len() ==> resolved_names_ok(self@, #[trigger] r@[i]),
    {
        let ghost v = self@;
        let ghost lmap = v.lectures;
        let ghost pmap = v.pages;
        let mut seen: KeySet<PageKey> = KeySet::new();
        let mut out: Vec<ResolvedPage> = Vec::new();
        proof {
            assert(resolved_keys(out@) =~= seen.keys());
        }
        let ghost ckeys = self.selection.courses.keys();
        proof {
            lemma_take_none_to_set(ckeys);
            assert(seen.set() =~= pages_of_courses(ckeys.take(0).to_set(), lmap, pmap));
        }
        let n = self.selection.courses.len();
        let mut i: usize = 0;
        while i < n
            invariant
                self.wf(),
                v == self@,
                lmap == v.lectures,
                pmap == v.pages,
                ckeys == self.selection.courses.keys(),
                n == ckeys.len(),
                i <= n,
                seen.wf(),
                seen.set() == pages_of_courses(ckeys.take(i as int).to_set(), lmap, pmap),
                resolved_list_ok(v, out@, seen.keys()),
            decreases n - i,
        {
            let ck = self.selection.courses.get(i);
            proof {
                lemma_take_to_set_step(ckeys, i as int);
                lemma_pages_of_courses_insert(ckeys.take(i as int).to_set(), lmap, pmap, ck@);
            }
            if let Some(lectures) = self.lectures_cache.get(ck) {
                let ghost before = seen.set();
                let mut j: usize = 0;
                while j < lectures.len()
                    invariant
                        self.wf(),
                        v == self@,
                        pmap == v.pages,
                        j <= lectures.len(),
                        seen.wf(),
                        seen.set() == before + cached_page_keys_of(lectures@.take(j as int), pmap),
                        resolved_list_ok(v, out@, seen.keys()),
                    decreases lectures.len() - j,
                {
                    match self.pages_cache.get(&lectures[j].key) {
                        Some(pages) => {
                            self.add_pages(pages, &mut seen, &mut out);
                        },
                        None => {},
                    }
                    proof {
                        assert(lectures@.take(j + 1) =~= lectures@.take(j as int).push(lectures@[j as int]));
                        lemma_cached_page_keys_push(lectures@.take(j as int), lectures@[j as int], pmap);
                        assert(seen.set() =~= before + cached_page_keys_of(lectures@.take(j + 1), pmap));
                    }
                    j += 1;
                }
                proof {
                    assert(lectures@.take(lectures.len() as int) =~= lectures@);
                }
            }
            proof {
                assert(seen.set() =~= pages_of_courses(ckeys.take(i + 1).to_set(), lmap, pmap));
            }
            i += 1;
        }
        proof {
            lemma_take_all_to_set(ckeys);
        }
        let ghost from_courses = seen.set();
        let ghost lkeys = self.selection.lectures.keys();
        proof {
            lemma_take_none_to_set(lkeys);
            assert(seen.set() =~= from_courses + pages_of_lectures(
                lone_lectures(lkeys.take(0).to_set(), v.chosen_courses),
                pmap,
            ));
        }
        let m = self.selection.lectures.len();
        let mut i: usize = 0;
        while i < m
            invariant
                self.wf(),
                v == self@,
                pmap == v.pages,
                lkeys == self.selection.lectures.keys(),
                m == lkeys.len(),
                i <= m,
                seen.wf(),
                seen.set() == from_courses + pages_of_lectures(lone_lectures(lkeys.take(i as int).to_set(), v.chosen_courses), pmap),
                resolved_list_ok(v, out@, seen.keys()),
            decreases m - i,
        {
            let lk = self.selection.lectures.get(i);
            proof {
                lemma_take_to_set_step(lkeys, i as int);
            }
            let ghost lone_before = lone_lectures(lkeys.take(i as int).to_set(), v.chosen_courses);
            if !self.selection.courses.contains(&lk.course_key) {
                proof {
                    assert(lone_lectures(lkeys.take(i + 1).to_set(), v.chosen_courses) =~= lone_before.insert(lk@));
                    lemma_pages_of_lectures_insert(lone_before, pmap, lk@);
                }
                if let Some(pages) = self.pages_cache.get(lk) {
                    self.add_pages(pages, &mut seen, &mut out);
                }
            } else {
                proof {
                    assert(lone_lectures(lkeys.take(i + 1).to_set(), v.chosen_courses) =~= lone_before);
                }
            }
            proof {
                assert(seen.set() =~= from_courses + pages_of_lectures(lone_lectures(lkeys.take(i + 1).to_set(), v.chosen_courses), pmap));
            }
            i += 1;
        }
        proof {
            lemma_take_all_to_set(lkeys);
        }
        let ghost from_lectures = seen.set();
        let ghost pkeys = self.selection.pages.keys();
        proof {
            lemma_take_none_to_set(pkeys);
            assert(seen.set() =~= from_lectures + Set::new(|pk: PageKeyView| pkeys.take(0).to_set().contains(pk) && loose_pages(v).contains(pk)));
        }
        let q = self.selection.pages.len();
        let mut i: usize = 0;
        while i < q
            invariant
                self.wf(),
                v == self@,
                pkeys == self.selection.pages.keys(),
                q == pkeys.len(),
                i <= q,
                seen.wf(),
                seen.set() == from_lectures + Set::new(|pk: PageKeyView| pkeys.take(i as int).to_set().contains(pk) && loose_pages(v).contains(pk)),
                resolved_list_ok(v, out@, seen.keys()),
            decreases q - i,
        {
            let pk = self.selection.pages.get(i);
            proof {
                lemma_take_to_set_step(pkeys, i as int);
            }
            if !(self.selection.lectures.contains(&pk.lecture_key) || self.selection.courses.contains(&pk.lecture_key.course_key)) {
                self.add_page(pk, &mut seen, &mut out);
            }
            proof {
                assert(seen.set() =~= from_lectures + Set::new(|x: PageKeyView| pkeys.take(i + 1).to_set().contains(x) && loose_pages(v).contains(x)));
            }
            i += 1;
        }
        proof {
            lemma_take_all_to_set(pkeys);
            assert(seen.set() =~= resolved_pages(v));
        }
        out
    }
    /// Focuses the first course and asks for its lectures.
    pub fn request_initial_data(&mut self) -> (r: Option<SelectorAction>)
        requires
            old(self).wf(),
        ensures
            final(self).wf(),
            (final(self)@, request_of(r)) == after_request_initial_data(old(self)@),
    {
        if self.courses.len() > 0 {
            self.loading_lectures = true;
            let key = self.courses[0].key.clone();
            self.focused_course_key = Some(key.clone());
            return Some(SelectorAction::FetchLectures(key));
        }
        None
    }

    /// The rows of the course column: each course's mark and name.
    pub fn course_items(&self) -> (r: Vec<(CheckState, String)>)
        requires
            self.wf(),
        ensures
            r@.len() == self@.courses.len(),
            forall|i: int|
                0 <= i < r@.len() ==> (#[trigger] r@[i]).0 == course_mark_in(self@, self@.courses[i].key@)
                    && r@[i].1@ == self@.courses[i].name@,
    {
        let mut r: Vec<(CheckState, String)> = Vec::new();
        let mut i: usize = 0;
        while i < self.courses.len()
            invariant
                self.wf(),
                i <= self.courses.len(),
                r@.len() == i,
                forall|j: int|
                    0 <= j < i ==> (#[trigger] r@[j]).0 == course_mark_in(self@, self@.courses[j].key@)
                        && r@[j].1@ == self@.courses[j].name@,
            decreases self.courses.len() - i,
        {
            let c = &self.courses[i];
            let m = self.selection.get_course_check_state(&c.key, &self.lectures_cache, &self.pages_cache);
            r.push((m, c.name.clone()));
            i += 1;
        }
        r
    }

    /// The rows of the lecture column: each lecture of the focused course
    /// with its mark and name.
    pub fn lecture_items(&self) -> (r: Vec<(CheckState, String)>)
        requires
            self.wf(),
        ensures
            r@.len() == current_lectures(self@).len(),
            forall|i: int|
                0 <= i < r@.len() ==> (#[trigger] r@[i]).0 == lecture_mark_in(self@, current_lectures(self@)[i].key@)
                    && r@[i].1@ == current_lectures(self@)[i].name@,
    {
        let mut r: Vec<(CheckState, String)> = Vec::new();
        if let Some(list) = lectures_for(&self.lectures_cache, &self.focused_course_key) {
            let mut i: usize = 0;
            while i < list.len()
                invariant
                    self.wf(),
                    list@ == current_lectures(self@),
                    i <= list.len(),
                    r@.len() == i,
                    forall|j: int|
                        0 <= j < i ==> (#[trigger] r@[j]).0 == lecture_mark_in(self@, list@[j].key@)
                            && r@[j].1@ == list@[j].name@,
                decreases list.len() - i,
            {
                let m = self.selection.get_lecture_check_state(&list[i].key, &self.pages_cache);
                r.push((m, list[i].name.clone()));
                i += 1;
            }
        }
        r
    }

    /// The rows of the page column: each page of the focused lecture, checked
    /// when it is selected itself.
    pub fn page_items(&self) -> (r: Vec<(CheckState, String)>)
        requires
            self.wf(),
        ensures
            r@.len() == current_pages(self@).len(),
            forall|i: int|
                0 <= i < r@.len() ==> (#[trigger] r@[i]).0 == crate::selection::page_mark(
                    self@.chosen_pages,
                    current_pages(self@)[i],
                ) && r@[i].1@ == current_pages(self@)[i].name@,
    {
        let mut r: Vec<(CheckState, String)> = Vec::new();
        if let Some(list) = pages_for(&self.pages_cache, &self.focused_lecture_key) {
            let mut i: usize = 0;
            while i < list.len()
                invariant
                    self.wf(),
                    list@ == current_pages(self@),
                    i <= list.len(),
                    r@.len() == i,
                    forall|j: int|
                        0 <= j < i ==> (#[trigger] r@[j]).0 == crate::selection::page_mark(self@.chosen_pages, list@[j])
                            && r@[j].1@ == list@[j].name@,
                decreases list.len() - i,
            {
                let m = if self.selection.is_page_selected(&list[i].key) {
                    CheckState::Checked
                } else {
                    CheckState::Unchecked
                };
                r.push((m, list[i].name.clone()));
                i += 1;
            }
        }
        r
    }

    pub fn current_column(&self) -> (c: Column)
        ensures
            c == self@.column,
    {
        self.current_column
    }

    pub fn course_cursor(&self) -> (c: Option<usize>)
        ensures
            c == self@.course_cursor,
    {
        self.course_state.selected()
    }

    pub fn lecture_cursor(&self) -> (c: Option<usize>)
        ensures
            c == self@.lecture_cursor,
    {
        self.lecture_state.selected()
    }

    pub fn page_cursor(&self) -> (c: Option<usize>)
        ensures
            c == self@.page_cursor,
    {
        self.page_state.selected()
    }

    pub fn is_loading_lectures(&self) -> (b: bool)
        ensures
            b == self@.loading_lectures,
    {
        self.loading_lectures
    }

    pub fn is_loading_pages(&self) -> (b: bool)
        ensures
            b == self@.loading_pages,
    {
        self.loading_pages
    }
}

} // verus!
