use collect_tui::download::{progress_cells, status_label, DownloadAction, DownloadComponent, DownloadStatus, ResolvedPage};
use collect_tui::input::{KeyCode, KeyPress};
use collect_tui::keys::{CourseKey, LectureKey, PageKey};

fn pk(p: &str) -> PageKey {
    PageKey {
        lecture_key: LectureKey { course_key: CourseKey { slug: "c".to_string() }, slug: "l".to_string() },
        slug: p.to_string(),
    }
}

fn resolved(p: &str) -> ResolvedPage {
    ResolvedPage {
        page_key: pk(p),
        course_name: "数学".to_string(),
        lecture_name: "第1回".to_string(),
        page_name: p.to_string(),
    }
}

#[test]
fn enqueue_lists_each_page_once() {
    let mut d = DownloadComponent::new();
    assert_eq!(d.selected(), None);
    d.enqueue(vec![resolved("a"), resolved("b"), resolved("a")]);
    assert_eq!(d.items().len(), 2);
    assert_eq!(d.items()[0].display_path, "数学 > 第1回 > a");
    assert_eq!(d.items()[1].status, DownloadStatus::Pending);
    assert_eq!(d.selected(), Some(0));
    d.enqueue(vec![resolved("b"), resolved("c")]);
    assert_eq!(d.items().len(), 3);
    d.enqueue(vec![resolved("b"), resolved("c")]);
    assert_eq!(d.items().len(), 3);
}

#[test]
fn enqueue_nothing_highlights_nothing() {
    let mut d = DownloadComponent::new();
    d.enqueue(vec![]);
    assert_eq!(d.selected(), None);
}

#[test]
fn pending_and_active_downloads() {
    let mut d = DownloadComponent::new();
    d.enqueue(vec![resolved("a"), resolved("b"), resolved("c")]);
    assert_eq!(d.next_pending().map(|k| k.slug), Some("a".to_string()));
    assert_eq!(d.active_count(), 0);
    d.update_progress(&pk("a"), 250, "開始中...");
    assert_eq!(d.items()[0].status, DownloadStatus::Downloading(100, "開始中...".to_string()));
    assert_eq!(d.active_count(), 1);
    assert_eq!(d.next_pending().map(|k| k.slug), Some("b".to_string()));
    d.update_progress(&pk("b"), 42, "x");
    d.mark_completed(&pk("a"), vec!["/tmp/a.pdf".to_string()]);
    d.mark_failed(&pk("c"), "boom".to_string());
    assert_eq!(d.active_count(), 1);
    assert_eq!(d.next_pending(), None);
    let s = d.summary();
    assert_eq!((s.total, s.completed, s.downloading, s.failed), (3, 1, 1, 1));
    d.update_progress(&pk("zzz"), 1, "unknown");
    assert_eq!(d.summary().downloading, 1);
}

#[test]
fn enter_opens_completed_files() {
    let mut d = DownloadComponent::new();
    d.enqueue(vec![resolved("a"), resolved("b")]);
    d.mark_completed(&pk("b"), vec!["/x/b.pdf".to_string()]);
    assert!(d.handle_event(KeyPress::plain(KeyCode::Enter)).is_none());
    assert!(d.handle_event(KeyPress::plain(KeyCode::Down)).is_none());
    assert_eq!(d.selected(), Some(1));
    match d.handle_event(KeyPress::plain(KeyCode::Enter)) {
        Some(DownloadAction::Open(files)) => assert_eq!(files, vec!["/x/b.pdf".to_string()]),
        None => panic!("expected the files to open"),
    }
    d.handle_event(KeyPress::plain(KeyCode::Char('j')));
    assert_eq!(d.selected(), Some(1));
    d.handle_event(KeyPress::plain(KeyCode::Char('k')));
    assert_eq!(d.selected(), Some(0));
    d.mark_completed(&pk("a"), vec![]);
    assert!(d.handle_event(KeyPress::plain(KeyCode::Enter)).is_none());
}

#[test]
fn progress_bar_cells() {
    assert_eq!(progress_cells(0), (0, 20));
    assert_eq!(progress_cells(42), (8, 12));
    assert_eq!(progress_cells(100), (20, 0));
}

#[test]
fn status_labels() {
    assert_eq!(status_label(&DownloadStatus::Pending), "  待機中");
    assert_eq!(status_label(&DownloadStatus::Downloading(42, "取得中".to_string())), "  42% 取得中");
    assert_eq!(status_label(&DownloadStatus::Downloading(7, String::new())), "  7% ");
    assert_eq!(status_label(&DownloadStatus::Completed(vec!["a.pdf".to_string()])), " 100% 完了");
    assert_eq!(status_label(&DownloadStatus::Failed("timeout".to_string())), "✗ エラー: timeout");
}
