use collect_tui::state::{AppState, LoginPhase, LoginState, MainState, SelectorPhase, Tab};

#[test]
fn default_state_is_login_input() {
    let s = AppState::default();
    assert_eq!(s, AppState::Login(LoginState { phase: LoginPhase::Input }));
    assert!(s.can_handle_input());
    assert_eq!(s.loading_message(), None);
}

#[test]
fn authenticating_blocks_input() {
    let s = AppState::Login(LoginState { phase: LoginPhase::Authenticating });
    assert!(!s.can_handle_input());
    assert_eq!(s.loading_message(), Some("ログイン中..."));
}

#[test]
fn loading_messages_on_main_screen() {
    let loading = AppState::Main(MainState { active_tab: Tab::Selector, selector_phase: SelectorPhase::LoadingCourses });
    assert_eq!(loading.loading_message(), Some("科目を取得中..."));
    assert!(loading.can_handle_input());
    let pending = AppState::Main(MainState { active_tab: Tab::Download, selector_phase: SelectorPhase::EnqueuePending });
    assert_eq!(pending.loading_message(), Some("データを取得中..."));
    let idle = AppState::Main(MainState { active_tab: Tab::Settings, selector_phase: SelectorPhase::Idle });
    assert_eq!(idle.loading_message(), None);
    let ready = AppState::Main(MainState { active_tab: Tab::Selector, selector_phase: SelectorPhase::Ready });
    assert_eq!(ready.loading_message(), None);
}
