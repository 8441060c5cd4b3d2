use collect_tui::footer::{footer_hints, tab_index, Hint};
use collect_tui::state::Tab;

#[test]
fn wide_selector_footer() {
    let (left, right) = footer_hints(Tab::Selector, 80);
    assert_eq!(left, vec![
        Hint { key: "↑↓", label: ": 移動" },
        Hint { key: "←→", label: ": カラム切替" },
        Hint { key: "Tab", label: ": タブ切替" },
    ]);
    assert_eq!(right, vec![
        Hint { key: "Space", label: ": 選択" },
        Hint { key: "Enter", label: ": 確定" },
        Hint { key: "q", label: ": 終了" },
    ]);
}

#[test]
fn wide_download_footer() {
    let (left, right) = footer_hints(Tab::Download, 60);
    assert_eq!(left.len(), 2);
    assert_eq!(right, vec![Hint { key: "q", label: ": 終了" }]);
}

#[test]
fn narrow_footer() {
    let (left, right) = footer_hints(Tab::Selector, 59);
    assert_eq!(left, vec![Hint { key: "Tab", label: ": タブ" }, Hint { key: "q", label: ": 終了" }]);
    assert!(right.is_empty());
}

#[test]
fn tab_positions() {
    assert_eq!(tab_index(Tab::Selector), 0);
    assert_eq!(tab_index(Tab::Download), 1);
    assert_eq!(tab_index(Tab::Settings), 2);
}
