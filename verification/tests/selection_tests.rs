use collect_tui::cache::Cache;
use collect_tui::keys::{CourseKey, Lecture, LectureKey, LecturePage, PageKey};
use collect_tui::selection::{CheckState, SelectionState};

fn ck(s: &str) -> CourseKey {
    CourseKey { slug: s.to_string() }
}

fn lk(c: &str, l: &str) -> LectureKey {
    LectureKey { course_key: ck(c), slug: l.to_string() }
}

fn pk(c: &str, l: &str, p: &str) -> PageKey {
    PageKey { lecture_key: lk(c, l), slug: p.to_string() }
}

fn lecture(c: &str, l: &str) -> Lecture {
    Lecture { key: lk(c, l), name: format!("{l} name") }
}

fn page(c: &str, l: &str, p: &str) -> LecturePage {
    LecturePage { key: pk(c, l, p), name: format!("{p} name") }
}

fn caches() -> (Cache<CourseKey, Lecture>, Cache<LectureKey, LecturePage>) {
    let mut lectures = Cache::new();
    lectures.insert(ck("c1"), vec![lecture("c1", "l1"), lecture("c1", "l2")]);
    let mut pages = Cache::new();
    pages.insert(lk("c1", "l1"), vec![page("c1", "l1", "p1"), page("c1", "l1", "p2")]);
    (lectures, pages)
}

#[test]
fn symbols() {
    assert_eq!(CheckState::Unchecked.symbol(), "[ ] ");
    assert_eq!(CheckState::Checked.symbol(), "[x] ");
    assert_eq!(CheckState::Indeterminate.symbol(), "[-] ");
}

#[test]
fn aggregate_of_children() {
    assert_eq!(CheckState::aggregate(&vec![]), CheckState::Unchecked);
    assert_eq!(CheckState::aggregate(&vec![CheckState::Unchecked, CheckState::Unchecked]), CheckState::Unchecked);
    assert_eq!(CheckState::aggregate(&vec![CheckState::Checked, CheckState::Checked]), CheckState::Checked);
    assert_eq!(CheckState::aggregate(&vec![CheckState::Checked, CheckState::Unchecked]), CheckState::Indeterminate);
    assert_eq!(CheckState::aggregate(&vec![CheckState::Indeterminate]), CheckState::Indeterminate);
    assert_eq!(CheckState::aggregate(&vec![CheckState::Checked, CheckState::Indeterminate]), CheckState::Indeterminate);
}

#[test]
fn toggle_page_twice_restores() {
    let mut s = SelectionState::new();
    assert!(s.toggle_page(pk("c1", "l1", "p1")));
    assert!(s.is_page_selected(&pk("c1", "l1", "p1")));
    assert!(!s.toggle_page(pk("c1", "l1", "p1")));
    assert!(!s.is_page_selected(&pk("c1", "l1", "p1")));
    assert_eq!(s.pages.len(), 0);
}

#[test]
fn lecture_marks_follow_pages() {
    let (_, pages) = caches();
    let mut s = SelectionState::new();
    assert_eq!(s.get_lecture_check_state(&lk("c1", "l1"), &pages), CheckState::Unchecked);
    s.toggle_page(pk("c1", "l1", "p1"));
    assert_eq!(s.get_lecture_check_state(&lk("c1", "l1"), &pages), CheckState::Indeterminate);
    s.toggle_page(pk("c1", "l1", "p2"));
    assert_eq!(s.get_lecture_check_state(&lk("c1", "l1"), &pages), CheckState::Checked);
    assert_eq!(s.get_lecture_check_state(&lk("c1", "l2"), &pages), CheckState::Unchecked);
}

#[test]
fn course_marks_follow_lectures() {
    let (lectures, pages) = caches();
    let mut s = SelectionState::new();
    assert_eq!(s.get_course_check_state(&ck("c1"), &lectures, &pages), CheckState::Unchecked);
    s.lectures.insert(lk("c1", "l2"));
    assert_eq!(s.get_course_check_state(&ck("c1"), &lectures, &pages), CheckState::Indeterminate);
    s.select_all_pages(&vec![page("c1", "l1", "p1"), page("c1", "l1", "p2")]);
    assert_eq!(s.get_course_check_state(&ck("c1"), &lectures, &pages), CheckState::Checked);
    assert_eq!(s.get_course_check_state(&ck("c9"), &lectures, &pages), CheckState::Unchecked);
    s.courses.insert(ck("c9"));
    assert_eq!(s.get_course_check_state(&ck("c9"), &lectures, &pages), CheckState::Checked);
}

#[test]
fn deselecting_a_course_cascades() {
    let (lectures, pages) = caches();
    let mut s = SelectionState::new();
    s.courses.insert(ck("c1"));
    s.select_all_lectures(&vec![lecture("c1", "l1"), lecture("c1", "l2")]);
    s.select_all_pages(&vec![page("c1", "l1", "p1"), page("c1", "l1", "p2")]);
    s.toggle_page(pk("c2", "l1", "p1"));
    s.deselect_course_cascade(&ck("c1"), &lectures, &pages);
    assert!(!s.is_course_selected(&ck("c1")));
    assert!(!s.is_lecture_selected(&lk("c1", "l1")));
    assert!(!s.is_lecture_selected(&lk("c1", "l2")));
    assert!(!s.is_page_selected(&pk("c1", "l1", "p1")));
    assert!(s.is_page_selected(&pk("c2", "l1", "p1")));
    assert_eq!(s.get_course_check_state(&ck("c1"), &lectures, &pages), CheckState::Unchecked);
}

#[test]
fn deselecting_a_lecture_cascades() {
    let (_, pages) = caches();
    let mut s = SelectionState::new();
    s.lectures.insert(lk("c1", "l1"));
    s.select_all_pages(&vec![page("c1", "l1", "p1")]);
    s.deselect_lecture_cascade(&lk("c1", "l1"), &pages);
    assert!(!s.is_lecture_selected(&lk("c1", "l1")));
    assert!(!s.is_page_selected(&pk("c1", "l1", "p1")));
    assert_eq!(s.get_lecture_check_state(&lk("c1", "l1"), &pages), CheckState::Unchecked);
}

#[test]
fn cache_replaces_lists() {
    let mut c: Cache<CourseKey, Lecture> = Cache::new();
    c.insert(ck("a"), vec![lecture("a", "1")]);
    c.insert(ck("b"), vec![]);
    c.insert(ck("a"), vec![lecture("a", "2"), lecture("a", "3")]);
    assert_eq!(c.len(), 2);
    assert_eq!(c.get(&ck("a")).map(|v| v.len()), Some(2));
    assert!(c.contains_key(&ck("b")));
    assert!(!c.contains_key(&ck("z")));
}
