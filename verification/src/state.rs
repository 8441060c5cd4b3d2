//! Which screen the application shows and what it is waiting for.

use vstd::prelude::*;

verus! {

/// The screen: the sign-in form, or the main screen with its tabs.
#[derive(PartialEq, Eq, Structural, Clone, Copy, Debug)]
pub enum AppState {
    Login(LoginState),
    Main(MainState),
}

#[derive(PartialEq, Eq, Structural, Clone, Copy, Debug)]
pub struct LoginState {
    pub phase: LoginPhase,
}

/// Whether the sign-in form takes input or waits for the server.
#[derive(PartialEq, Eq, Structural, Clone, Copy, Debug)]
pub enum LoginPhase {
    Input,
    Authenticating,
}

#[derive(PartialEq, Eq, Structural, Clone, Copy, Debug)]
pub struct MainState {
    pub active_tab: Tab,
    pub selector_phase: SelectorPhase,
}

/// The tabs of the main screen.
#[derive(PartialEq, Eq, Structural, Clone, Copy, Debug)]
pub enum Tab {
    Selector,
    Download,
    Settings,
}

/// What the selector tab is waiting for.
#[derive(PartialEq, Eq, Structural, Clone, Copy, Debug)]
pub enum SelectorPhase {
    Idle,
    LoadingCourses,
    Ready,
    /// Downloads were requested and wait for missing lists to arrive.
    EnqueuePending,
}

/// The message of the waiting indicator for a state.
pub open spec fn loading_text(s: AppState) -> Option<Seq<char>> {
    match s {
        AppState::Login(l) => if l.phase == LoginPhase::Authenticating {
            Some("ログイン中..."@)
        } else {
            None
        },
        AppState::Main(m) => if m.selector_phase == SelectorPhase::LoadingCourses {
            Some("科目を取得中..."@)
        } else if m.selector_phase == SelectorPhase::EnqueuePending {
            Some("データを取得中..."@)
        } else {
            None
        },
    }
}

impl AppState {
    /// Keys are ignored only while signing in.
    pub open spec fn spec_can_handle_input(&self) -> bool {
        !(*self == AppState::Login(LoginState { phase: LoginPhase::Authenticating }))
    }

    #[verifier::when_used_as_spec(spec_can_handle_input)]
    pub fn can_handle_input(&self) -> (b: bool)
        ensures
            b == self.spec_can_handle_input(),
    {
        match self {
            AppState::Login(LoginState { phase: LoginPhase::Authenticating }) => false,
            _ => true,
        }
    }

    /// The message of the waiting indicator, if the state waits for
    /// something: signing in, fetching the courses, or fetching what a
    /// download request still lacks.
    pub fn loading_message(&self) -> (r: Option<&'static str>)
        ensures
            match r {
                Some(m) => loading_text(*self) == Some(m@),
                None => loading_text(*self) is None,
            },
    {
        match self {
            AppState::Login(LoginState { phase: LoginPhase::Authenticating }) => Some("ログイン中..."),
            AppState::Main(MainState { selector_phase: SelectorPhase::LoadingCourses, .. }) => Some("科目を取得中..."),
            AppState::Main(MainState { selector_phase: SelectorPhase::EnqueuePending, .. }) => Some("データを取得中..."),
            _ => None,
        }
    }
}

impl Default for AppState {
    /// The sign-in form, taking input.
    fn default() -> (s: AppState)
        ensures
            s == AppState::Login(LoginState { phase: LoginPhase::Input }),
    {
        AppState::Login(LoginState { phase: LoginPhase::Input })
    }
}

} // verus!
