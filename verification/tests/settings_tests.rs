use collect_tui::input::{KeyCode, KeyPress};
use collect_tui::keys::Year;
use collect_tui::settings::{SettingsAction, SettingsComponent, SettingsSection};

fn press(code: KeyCode) -> KeyPress {
    KeyPress::plain(code)
}

#[test]
fn years_can_be_cycled_once_known() {
    let mut s = SettingsComponent::new("/tmp", None, 4);
    assert!(s.handle_event(press(KeyCode::Right)).is_none());
    assert_eq!(s.selected_year_value_shown(), None);
    s.set_available_years(vec![Year { value: 2025 }, Year { value: 2024 }]);
    assert_eq!(s.selected_year_value_shown(), Some(2025));
    assert_eq!(s.handle_event(press(KeyCode::Right)), Some(SettingsAction::Year(Some(2024))));
    assert!(s.handle_event(press(KeyCode::Char('l'))).is_none());
    assert_eq!(s.handle_event(press(KeyCode::Left)), Some(SettingsAction::Year(Some(2025))));
    assert!(s.handle_event(press(KeyCode::Char('h'))).is_none());
    s.set_available_years(vec![Year { value: 2023 }]);
    assert_eq!(s.selected_year_value_shown(), Some(2023));
}

#[test]
fn concurrency_stays_between_one_and_eight() {
    let mut s = SettingsComponent::new("/tmp", None, 7);
    s.handle_event(press(KeyCode::Down));
    s.handle_event(press(KeyCode::Char('j')));
    assert_eq!(s.current_section(), SettingsSection::Concurrency);
    assert_eq!(s.handle_event(press(KeyCode::Right)), Some(SettingsAction::Concurrency(8)));
    assert!(s.handle_event(press(KeyCode::Right)).is_none());
    assert_eq!(s.concurrency(), 8);
    let mut low = SettingsComponent::new("/tmp", None, 2);
    low.handle_event(press(KeyCode::Down));
    low.handle_event(press(KeyCode::Down));
    assert_eq!(low.handle_event(press(KeyCode::Left)), Some(SettingsAction::Concurrency(1)));
    assert!(low.handle_event(press(KeyCode::Left)).is_none());
    let mut high = SettingsComponent::new("/tmp", None, 20);
    high.handle_event(press(KeyCode::Down));
    high.handle_event(press(KeyCode::Down));
    assert_eq!(high.handle_event(press(KeyCode::Right)), Some(SettingsAction::Concurrency(8)));
}

#[test]
fn sections_stop_at_the_ends() {
    let mut s = SettingsComponent::new("/tmp", None, 1);
    s.handle_event(press(KeyCode::Up));
    assert_eq!(s.current_section(), SettingsSection::Year);
    s.handle_event(press(KeyCode::Down));
    assert_eq!(s.current_section(), SettingsSection::Path);
    s.handle_event(press(KeyCode::Char('k')));
    assert_eq!(s.current_section(), SettingsSection::Year);
}

#[test]
fn editing_the_folder() {
    let mut s = SettingsComponent::new("/tmp", Some(2024), 3);
    assert_eq!(s.path(), "/tmp");
    assert_eq!(s.path_cursor(), 4);
    s.handle_event(press(KeyCode::Down));
    assert!(s.handle_event(press(KeyCode::Right)).is_none());
    assert!(!s.is_editing());
    s.handle_event(press(KeyCode::Enter));
    assert!(s.is_editing());
    s.handle_event(press(KeyCode::Char('/')));
    s.handle_event(press(KeyCode::Char('x')));
    s.handle_event(press(KeyCode::Char('q')));
    assert_eq!(s.path(), "/tmp/xq");
    assert_eq!(s.handle_event(press(KeyCode::Esc)), Some(SettingsAction::Path("/tmp/xq".to_string())));
    assert!(!s.is_editing());
    s.handle_event(press(KeyCode::Char(' ')));
    assert!(s.is_editing());
    assert_eq!(s.handle_event(press(KeyCode::Enter)), Some(SettingsAction::Path("/tmp/xq".to_string())));
}
