use collect_tui::input::{KeyCode, KeyPress};
use collect_tui::keys::{Course, CourseKey, Lecture, LectureKey, LecturePage, PageKey};
use collect_tui::selection::CheckState;
use collect_tui::selector::{Column, SelectorAction, SelectorComponent};

fn ck(s: &str) -> CourseKey {
    CourseKey { slug: s.to_string() }
}

fn lk(c: &str, l: &str) -> LectureKey {
    LectureKey { course_key: ck(c), slug: l.to_string() }
}

fn pk(c: &str, l: &str, p: &str) -> PageKey {
    PageKey { lecture_key: lk(c, l), slug: p.to_string() }
}

fn course(c: &str) -> Course {
    Course { key: ck(c), name: format!("Course {c}") }
}

fn lecture(c: &str, l: &str) -> Lecture {
    Lecture { key: lk(c, l), name: format!("Lecture {l}") }
}

fn page(c: &str, l: &str, p: &str) -> LecturePage {
    LecturePage { key: pk(c, l, p), name: format!("Page {p}") }
}

fn key(code: KeyCode) -> KeyPress {
    KeyPress::plain(code)
}

fn loaded() -> SelectorComponent {
    let mut s = SelectorComponent::new();
    s.set_courses(vec![course("c1"), course("c2")]);
    match s.request_initial_data() {
        Some(SelectorAction::FetchLectures(k)) => assert_eq!(k.slug, "c1"),
        _ => panic!("expected a request for the lectures of the first course"),
    }
    s.set_lectures(vec![lecture("c1", "l1"), lecture("c1", "l2")], &ck("c1"));
    assert_eq!(s.get_focused_lecture_key().map(|k| k.slug), Some("l1".to_string()));
    assert!(!s.try_load_pages_from_cache());
    s.set_pages(vec![page("c1", "l1", "p1"), page("c1", "l1", "p2")], &lk("c1", "l1"));
    s
}

#[test]
fn initial_focus_and_lists() {
    let s = loaded();
    assert_eq!(s.course_cursor(), Some(0));
    assert_eq!(s.lecture_cursor(), Some(0));
    assert_eq!(s.page_cursor(), Some(0));
    assert!(!s.is_loading_lectures());
    assert!(!s.is_loading_pages());
    assert_eq!(s.current_column(), Column::Course);
    let lectures = s.lecture_items();
    assert_eq!(lectures.len(), 2);
    assert_eq!(lectures[0], (CheckState::Unchecked, "Lecture l1".to_string()));
    let pages = s.page_items();
    assert_eq!(pages[1], (CheckState::Unchecked, "Page p2".to_string()));
}

#[test]
fn empty_course_list_requests_nothing() {
    let mut s = SelectorComponent::new();
    s.set_courses(vec![]);
    assert!(s.request_initial_data().is_none());
    assert_eq!(s.course_cursor(), None);
}

#[test]
fn columns_move_only_into_filled_columns() {
    let mut s = loaded();
    assert!(s.handle_event(key(KeyCode::Right)).is_none());
    assert_eq!(s.current_column(), Column::Lecture);
    s.handle_event(key(KeyCode::Char('l')));
    assert_eq!(s.current_column(), Column::Page);
    s.handle_event(key(KeyCode::Right));
    assert_eq!(s.current_column(), Column::Page);
    s.handle_event(key(KeyCode::Left));
    s.handle_event(key(KeyCode::Char('h')));
    s.handle_event(key(KeyCode::Left));
    assert_eq!(s.current_column(), Column::Course);
}

#[test]
fn moving_to_an_uncached_course_requests_its_lectures() {
    let mut s = loaded();
    match s.handle_event(key(KeyCode::Down)) {
        Some(SelectorAction::FetchLectures(k)) => assert_eq!(k.slug, "c2"),
        _ => panic!("expected a lecture request"),
    }
    assert!(s.is_loading_lectures());
    assert_eq!(s.lecture_cursor(), None);
    assert!(s.get_focused_lecture_key().is_none());
    // Back to the first course: its lectures and pages come from the cache.
    assert!(s.handle_event(key(KeyCode::Up)).is_none());
    assert_eq!(s.lecture_cursor(), Some(0));
    assert_eq!(s.page_cursor(), Some(0));
    assert_eq!(s.get_focused_lecture_key().map(|k| k.slug), Some("l1".to_string()));
}

#[test]
fn moving_to_an_uncached_lecture_requests_its_pages() {
    let mut s = loaded();
    s.handle_event(key(KeyCode::Right));
    match s.handle_event(key(KeyCode::Char('j'))) {
        Some(SelectorAction::FetchPages(k)) => assert_eq!(k.slug, "l2"),
        _ => panic!("expected a page request"),
    }
    assert!(s.is_loading_pages());
    assert_eq!(s.page_cursor(), None);
    assert!(s.handle_event(key(KeyCode::Char('k'))).is_none());
    assert_eq!(s.page_cursor(), Some(0));
}

#[test]
fn enter_confirms() {
    let mut s = loaded();
    assert!(matches!(s.handle_event(key(KeyCode::Enter)), Some(SelectorAction::Confirm)));
    assert!(s.handle_event(key(KeyCode::Esc)).is_none());
}

#[test]
fn toggling_a_course_selects_and_unselects_it() {
    let mut s = loaded();
    assert!(s.handle_event(key(KeyCode::Char(' '))).is_none());
    assert_eq!(s.course_items()[0].0, CheckState::Checked);
    assert_eq!(s.lecture_items()[0].0, CheckState::Checked);
    assert_eq!(s.page_items()[0].0, CheckState::Checked);
    s.handle_event(key(KeyCode::Char(' ')));
    assert_eq!(s.course_items()[0].0, CheckState::Unchecked);
    assert_eq!(s.lecture_items()[1].0, CheckState::Unchecked);
    assert_eq!(s.page_items()[1].0, CheckState::Unchecked);
}

#[test]
fn toggling_a_page_makes_its_lecture_partial() {
    let mut s = loaded();
    s.handle_event(key(KeyCode::Right));
    s.handle_event(key(KeyCode::Right));
    s.handle_event(key(KeyCode::Char(' ')));
    assert_eq!(s.page_items()[0].0, CheckState::Checked);
    assert_eq!(s.lecture_items()[0].0, CheckState::Indeterminate);
    assert_eq!(s.course_items()[0].0, CheckState::Indeterminate);
    s.handle_event(key(KeyCode::Down));
    s.handle_event(key(KeyCode::Char(' ')));
    assert_eq!(s.lecture_items()[0].0, CheckState::Checked);
}

#[test]
fn toggling_a_lecture() {
    let mut s = loaded();
    s.handle_event(key(KeyCode::Right));
    s.handle_event(key(KeyCode::Char(' ')));
    assert_eq!(s.lecture_items()[0].0, CheckState::Checked);
    assert_eq!(s.page_items()[1].0, CheckState::Checked);
    s.handle_event(key(KeyCode::Char(' ')));
    assert_eq!(s.lecture_items()[0].0, CheckState::Unchecked);
    assert_eq!(s.page_items()[0].0, CheckState::Unchecked);
}

#[test]
fn unfetched_lists_for_a_selection() {
    let mut s = loaded();
    s.handle_event(key(KeyCode::Char(' ')));
    let (courses, lectures) = s.get_unfetched_for_selection();
    assert!(courses.is_empty());
    assert_eq!(lectures.len(), 1);
    assert_eq!(lectures[0].slug, "l2");
    // Select the second course too, whose lectures are unknown.
    s.handle_event(key(KeyCode::Down));
    s.handle_event(key(KeyCode::Char(' ')));
    let (courses, _) = s.get_unfetched_for_selection();
    assert_eq!(courses.len(), 1);
    assert_eq!(courses[0].slug, "c2");
}

#[test]
fn resolving_a_course_selection() {
    let mut s = loaded();
    s.handle_event(key(KeyCode::Char(' ')));
    s.set_pages(vec![page("c1", "l2", "p9")], &lk("c1", "l2"));
    let resolved = s.resolve_selected_pages();
    let slugs: Vec<String> = resolved.iter().map(|r| r.page_key.slug.clone()).collect();
    assert_eq!(slugs, vec!["p1", "p2", "p9"]);
    assert_eq!(resolved[2].course_name, "Course c1");
    assert_eq!(resolved[2].lecture_name, "Lecture l2");
    assert_eq!(resolved[2].page_name, "Page p9");
}

#[test]
fn resolving_loose_pages_falls_back_to_slugs() {
    let mut s = loaded();
    s.handle_event(key(KeyCode::Right));
    s.handle_event(key(KeyCode::Right));
    s.handle_event(key(KeyCode::Char(' ')));
    let resolved = s.resolve_selected_pages();
    assert_eq!(resolved.len(), 1);
    assert_eq!(resolved[0].page_name, "Page p1");
    let empty = SelectorComponent::new();
    assert!(empty.resolve_selected_pages().is_empty());
}

#[test]
fn unfetched_lectures_are_listed_once_per_occurrence() {
    let mut s = SelectorComponent::new();
    s.set_courses(vec![course("c1")]);
    s.set_lectures(vec![lecture("c1", "l1"), lecture("c1", "l2"), lecture("c1", "l2")], &ck("c1"));
    s.set_pages(vec![page("c1", "l1", "p1")], &lk("c1", "l1"));
    s.handle_event(key(KeyCode::Char(' ')));
    let (courses, lectures) = s.get_unfetched_for_selection();
    assert!(courses.is_empty());
    let slugs: Vec<&str> = lectures.iter().map(|k| k.slug.as_str()).collect();
    assert_eq!(slugs, vec!["l2", "l2"]);
}
