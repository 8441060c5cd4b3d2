use collect_tui::app::{App, AppAction, Command};
use collect_tui::download::DownloadStatus;
use collect_tui::error::TuiError;
use collect_tui::input::{KeyCode, KeyPress, CONTROL};
use collect_tui::keys::{Course, CourseKey, Credentials, Lecture, LectureKey, LecturePage, PageKey, Year};
use collect_tui::settings::SettingsAction;
use collect_tui::state::{AppState, LoginPhase, LoginState, MainState, SelectorPhase, Tab};

fn ck(s: &str) -> CourseKey {
    CourseKey { slug: s.to_string() }
}

fn lk(c: &str, l: &str) -> LectureKey {
    LectureKey { course_key: ck(c), slug: l.to_string() }
}

fn pk(c: &str, l: &str, p: &str) -> PageKey {
    PageKey { lecture_key: lk(c, l), slug: p.to_string() }
}

fn press(code: KeyCode) -> KeyPress {
    KeyPress::plain(code)
}

fn main_state(tab: Tab, phase: SelectorPhase) -> AppState {
    AppState::Main(MainState { active_tab: tab, selector_phase: phase })
}

fn fetch_lecture_slugs(cmds: &[Command]) -> Vec<String> {
    cmds.iter()
        .filter_map(|c| match c {
            Command::FetchLectures(k) => Some(k.slug.clone()),
            _ => None,
        })
        .collect()
}

fn fetch_page_slugs(cmds: &[Command]) -> Vec<String> {
    cmds.iter()
        .filter_map(|c| match c {
            Command::FetchPages(k) => Some(k.slug.clone()),
            _ => None,
        })
        .collect()
}

fn download_slugs(cmds: &[Command]) -> Vec<String> {
    cmds.iter()
        .filter_map(|c| match c {
            Command::Download(k) => Some(k.slug.clone()),
            _ => None,
        })
        .collect()
}

/// Signed in, one course with one lecture with three pages, all loaded.
fn signed_in(concurrency: usize) -> App {
    let mut app = App::new("/tmp/slides", None, concurrency);
    app.dispatch(AppAction::LoginSuccess);
    let cmds = app.dispatch(AppAction::CoursesLoaded(vec![Course { key: ck("c1"), name: "数学".to_string() }]));
    assert_eq!(fetch_lecture_slugs(&cmds), vec!["c1"]);
    let cmds = app.dispatch(AppAction::LecturesLoaded(ck("c1"), vec![Lecture { key: lk("c1", "l1"), name: "第1回".to_string() }]));
    assert_eq!(fetch_page_slugs(&cmds), vec!["l1"]);
    let pages = vec![
        LecturePage { key: pk("c1", "l1", "p1"), name: "a".to_string() },
        LecturePage { key: pk("c1", "l1", "p2"), name: "b".to_string() },
        LecturePage { key: pk("c1", "l1", "p3"), name: "c".to_string() },
    ];
    assert!(app.dispatch(AppAction::PagesLoaded(lk("c1", "l1"), pages)).is_empty());
    app
}

#[test]
fn signing_in() {
    let mut app = App::new("/tmp", None, 2);
    assert_eq!(app.state(), AppState::Login(LoginState { phase: LoginPhase::Input }));
    for c in "bob".chars() {
        assert!(app.handle_key(press(KeyCode::Char(c))).is_empty());
    }
    app.handle_key(press(KeyCode::Tab));
    for c in "pw".chars() {
        app.handle_key(press(KeyCode::Char(c)));
    }
    let cmds = app.handle_key(press(KeyCode::Enter));
    match cmds.as_slice() {
        [Command::Authenticate(c)] => {
            assert_eq!(c.username, "bob");
            assert_eq!(c.password, "pw");
        }
        _ => panic!("expected one sign-in command"),
    }
    assert_eq!(app.state(), AppState::Login(LoginState { phase: LoginPhase::Authenticating }));
    assert!(app.handle_key(press(KeyCode::Char('x'))).is_empty());
    assert_eq!(app.login().password(), "pw");
    let cmds = app.dispatch(AppAction::LoginSuccess);
    assert!(matches!(cmds.as_slice(), [Command::FetchCourses]));
    assert_eq!(app.state(), main_state(Tab::Selector, SelectorPhase::LoadingCourses));
}

#[test]
fn failed_sign_in_shows_error() {
    let mut app = App::new("/tmp", None, 2);
    app.dispatch(AppAction::Login(Credentials { username: "u".to_string(), password: "p".to_string() }));
    app.dispatch(AppAction::Error(TuiError::Authentication { reason: "nope".to_string() }));
    assert_eq!(app.state(), AppState::Login(LoginState { phase: LoginPhase::Input }));
    assert_eq!(
        app.error().map(|s| s.as_str()),
        Some("認証に失敗しました\n\nnope\n\nユーザー名とパスワードを確認してください。")
    );
    app.handle_key(press(KeyCode::Char('a')));
    assert!(app.error().is_some());
    app.handle_key(press(KeyCode::Esc));
    assert!(app.error().is_none());
}

#[test]
fn ctrl_c_quits_anywhere_that_takes_input() {
    let mut app = App::new("/tmp", None, 2);
    app.handle_key(KeyPress { code: KeyCode::Char('c'), modifiers: CONTROL });
    assert!(!app.is_running());
}

#[test]
fn courses_loaded_focus_first_course() {
    let app = signed_in(2);
    assert_eq!(app.state(), main_state(Tab::Selector, SelectorPhase::Ready));
    assert_eq!(app.selector().course_items().len(), 1);
    assert_eq!(app.selector().page_items().len(), 3);
}

#[test]
fn confirming_a_selection_starts_downloads() {
    let mut app = signed_in(2);
    app.handle_key(press(KeyCode::Char(' ')));
    let cmds = app.handle_key(press(KeyCode::Enter));
    assert_eq!(download_slugs(&cmds), vec!["p1", "p2"]);
    assert_eq!(app.state(), main_state(Tab::Download, SelectorPhase::Idle));
    assert_eq!(app.download().active_count(), 2);
    assert_eq!(app.download().items()[0].status, DownloadStatus::Downloading(0, "開始中...".to_string()));
    assert_eq!(app.download().items()[2].status, DownloadStatus::Pending);
    assert!(app.dispatch(AppAction::StartNextDownload).is_empty());
    app.dispatch(AppAction::DownloadProgress(pk("c1", "l1", "p1"), 55, "PDF変換中...".to_string()));
    assert_eq!(app.download().items()[0].status, DownloadStatus::Downloading(55, "PDF変換中...".to_string()));
    let cmds = app.dispatch(AppAction::DownloadCompleted(pk("c1", "l1", "p1"), vec!["/tmp/a.pdf".to_string()]));
    assert_eq!(download_slugs(&cmds), vec!["p3"]);
    let cmds = app.dispatch(AppAction::DownloadFailed(pk("c1", "l1", "p2"), "boom".to_string()));
    assert!(cmds.is_empty());
    assert_eq!(app.download().items()[1].status, DownloadStatus::Failed("boom".to_string()));
    let s = app.download().summary();
    assert_eq!((s.total, s.completed, s.downloading, s.failed), (3, 1, 1, 1));
}

#[test]
fn confirming_nothing_does_nothing() {
    let mut app = signed_in(2);
    let cmds = app.handle_key(press(KeyCode::Enter));
    assert!(cmds.is_empty());
    assert_eq!(app.state(), main_state(Tab::Selector, SelectorPhase::Idle));
    assert!(app.download().items().is_empty());
}

#[test]
fn missing_lists_are_fetched_before_downloading() {
    let mut app = App::new("/tmp", None, 4);
    app.dispatch(AppAction::LoginSuccess);
    app.dispatch(AppAction::CoursesLoaded(vec![
        Course { key: ck("c1"), name: "A".to_string() },
        Course { key: ck("c2"), name: "B".to_string() },
    ]));
    app.handle_key(press(KeyCode::Char(' ')));
    let cmds = app.handle_key(press(KeyCode::Enter));
    assert_eq!(fetch_lecture_slugs(&cmds), vec!["c1"]);
    assert_eq!(app.state(), main_state(Tab::Selector, SelectorPhase::EnqueuePending));
    let cmds = app.dispatch(AppAction::LecturesLoaded(ck("c1"), vec![Lecture { key: lk("c1", "l1"), name: "L".to_string() }]));
    assert_eq!(fetch_page_slugs(&cmds), vec!["l1", "l1"]);
    assert_eq!(app.state(), main_state(Tab::Selector, SelectorPhase::EnqueuePending));
    let cmds = app.dispatch(AppAction::PagesLoaded(lk("c1", "l1"), vec![LecturePage { key: pk("c1", "l1", "p1"), name: "P".to_string() }]));
    assert_eq!(download_slugs(&cmds), vec!["p1"]);
    assert_eq!(app.state(), main_state(Tab::Download, SelectorPhase::Idle));
}

#[test]
fn tabs_cycle_and_quit() {
    let mut app = signed_in(1);
    app.handle_key(press(KeyCode::Tab));
    assert_eq!(app.state(), main_state(Tab::Download, SelectorPhase::Ready));
    app.handle_key(press(KeyCode::Tab));
    assert_eq!(app.state(), main_state(Tab::Selector, SelectorPhase::Ready));
    app.dispatch(AppAction::SwitchTab(Tab::Settings));
    app.handle_key(press(KeyCode::Tab));
    assert_eq!(app.state(), main_state(Tab::Selector, SelectorPhase::Ready));
    app.dispatch(AppAction::SwitchTab(Tab::Download));
    assert_eq!(app.state(), main_state(Tab::Download, SelectorPhase::Ready));
    app.handle_key(press(KeyCode::Char('q')));
    assert!(!app.is_running());
}

#[test]
fn settings_changes_become_commands() {
    let mut app = signed_in(2);
    app.dispatch(AppAction::ArchiveYearsLoaded(vec![Year { value: 2025 }, Year { value: 2024 }]));
    app.dispatch(AppAction::SwitchTab(Tab::Settings));
    let cmds = app.handle_key(press(KeyCode::Right));
    assert!(matches!(cmds.as_slice(), [Command::ChangeSetting(SettingsAction::Year(Some(2024)))]));
    app.handle_key(press(KeyCode::Down));
    app.handle_key(press(KeyCode::Enter));
    assert!(app.settings().is_editing());
    assert!(app.handle_key(press(KeyCode::Char('q'))).is_empty());
    assert!(app.is_running());
    let cmds = app.handle_key(press(KeyCode::Enter));
    assert!(matches!(cmds.as_slice(), [Command::ChangeSetting(SettingsAction::Path(p))] if p == "/tmp/slidesq"));
    app.handle_key(press(KeyCode::Down));
    let cmds = app.handle_key(press(KeyCode::Right));
    assert!(matches!(cmds.as_slice(), [Command::ChangeSetting(SettingsAction::Concurrency(3))]));
    assert_eq!(app.concurrency(), 3);
}

#[test]
fn errors_on_the_main_screen_reset_the_phase() {
    let mut app = signed_in(1);
    app.dispatch(AppAction::FetchCourses);
    assert_eq!(app.state(), main_state(Tab::Selector, SelectorPhase::LoadingCourses));
    app.dispatch(AppAction::Error(TuiError::Network { message: "down".to_string() }));
    assert_eq!(app.state(), main_state(Tab::Selector, SelectorPhase::Idle));
    app.dispatch(AppAction::ClearError);
    assert!(app.error().is_none());
    app.dispatch(AppAction::Quit);
    assert!(!app.is_running());
}
