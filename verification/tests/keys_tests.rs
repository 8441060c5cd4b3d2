use collect_tui::keys::CatalogKey;
use collect_tui::keys::{Course, CourseKey, Lecture, LectureKey, LecturePage, PageKey};

fn ck(s: &str) -> CourseKey {
    CourseKey { slug: s.to_string() }
}

fn lk(c: &str, l: &str) -> LectureKey {
    LectureKey { course_key: ck(c), slug: l.to_string() }
}

fn pk(c: &str, l: &str, p: &str) -> PageKey {
    PageKey { lecture_key: lk(c, l), slug: p.to_string() }
}

#[test]
fn keys_compare_by_all_parts() {
    assert!(pk("c", "l", "p").same_key(&pk("c", "l", "p")));
    assert!(!pk("c", "l", "p").same_key(&pk("c", "l", "q")));
    assert!(!pk("c", "l", "p").same_key(&pk("c", "m", "p")));
    assert!(!pk("c", "l", "p").same_key(&pk("d", "l", "p")));
    assert!(lk("c", "l").same_key(&lk("c", "l").copy_key()));
}

#[test]
fn display_names_are_the_names() {
    let c = Course { key: ck("c1"), name: "数学".to_string() };
    assert_eq!(c.display_name(), "数学");
    let l = Lecture { key: lk("c1", "l1"), name: "第1回".to_string() };
    assert_eq!(l.display_name(), "第1回");
    let p = LecturePage { key: pk("c1", "l1", "p1"), name: "導入".to_string() };
    assert_eq!(p.display_name(), "導入");
}
