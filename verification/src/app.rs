//! The application's state machine. Each event (a key press, or a result
//! coming back from the lecture service or a download) updates the screens
//! and yields the commands that the caller must carry out: requests to the
//! service and downloads to start.

use crate::download::{
    after_download_key, downloading_count, enqueued, is_pending, item_keys, lemma_count_update,
    lemma_position_of_unique, pending_count, resolved_keys, with_status, DownloadComponent, DownloadView, ItemView,
    ResolvedPage, StatusView,
};
use crate::error::{user_message_of, TuiError};
use crate::input::{KeyCode, KeyPress};
use crate::keys::{
    Course, CourseKey, CourseKeyView, Credentials, Lecture, LectureKey, LectureKeyView, LecturePage, PageKey,
    PageKeyView, Year,
};
use crate::login::{after_login_key, empty_login, login_request_of, LoginAction, LoginComponent, LoginRequest, LoginView};
use crate::selector::{
    after_key, after_load_pages_from_cache, empty_selector, after_request_initial_data, after_set_courses, after_set_lectures,
    after_set_pages, course_key_views, fetch_lists, lecture_key_views, selection_order, request_of, resolved_names_ok, resolved_pages,
    unfetched_courses, unfetched_lectures, SelectorAction, SelectorComponent, SelectorRequest, SelectorView,
};
use crate::settings::{
    after_settings_key, initial_settings, settings_request_of, SettingsAction, SettingsComponent, SettingsRequest, SettingsView,
};
use crate::state::{AppState, LoginPhase, LoginState, MainState, SelectorPhase, Tab};
use vstd::prelude::*;

verus! {

/// An event handled by the application.
#[derive(Debug)]
pub enum AppAction {
    Login(Credentials),
    LoginSuccess,
    FetchCourses,
    CoursesLoaded(Vec<Course>),
    FetchLectures(CourseKey),
    LecturesLoaded(CourseKey, Vec<Lecture>),
    FetchPages(LectureKey),
    PagesLoaded(LectureKey, Vec<LecturePage>),
    ArchiveYearsLoaded(Vec<Year>),
    SwitchTab(Tab),
    EnqueueDownloads,
    StartNextDownload,
    DownloadProgress(PageKey, u8, String),
    DownloadCompleted(PageKey, Vec<String>),
    DownloadFailed(PageKey, String),
    Error(TuiError),
    ClearError,
    Quit,
}

/// Work the caller must carry out for the application.
#[derive(Debug)]
pub enum Command {
    /// Sign in; the outcome comes back as `LoginSuccess` or `Error`.
    Authenticate(Credentials),
    /// Fetch the courses (`CoursesLoaded`).
    FetchCourses,
    /// Fetch the lectures of a course (`LecturesLoaded`).
    FetchLectures(CourseKey),
    /// Fetch the pages of a lecture (`PagesLoaded`).
    FetchPages(LectureKey),
    /// Download the slides of a page (`DownloadProgress`, then
    /// `DownloadCompleted` or `DownloadFailed`).
    Download(PageKey),
    /// Apply and save a changed setting.
    ChangeSetting(SettingsAction),
}

/// Abstract value of a [`Command`].
pub enum CommandView {
    Authenticate { username: Seq<char>, password: Seq<char> },
    FetchCourses,
    FetchLectures(CourseKeyView),
    FetchPages(LectureKeyView),
    Download(PageKeyView),
    ChangeSetting(SettingsRequest),
}

impl View for Command {
    type V = CommandView;

    open spec fn view(&self) -> CommandView {
        match self {
            Command::Authenticate(c) => CommandView::Authenticate { username: c.username@, password: c.password@ },
            Command::FetchCourses => CommandView::FetchCourses,
            Command::FetchLectures(k) => CommandView::FetchLectures(k@),
            Command::FetchPages(k) => CommandView::FetchPages(k@),
            Command::Download(k) => CommandView::Download(k@),
            Command::ChangeSetting(a) => CommandView::ChangeSetting(a@),
        }
    }
}

pub open spec fn command_views(cmds: Seq<Command>) -> Seq<CommandView> {
    cmds.map_values(|c: Command| c@)
}

/// Abstract state of an [`App`].
pub struct AppView {
    pub state: AppState,
    pub error: Option<Seq<char>>,
    pub running: bool,
    pub concurrency: usize,
    pub login: LoginView,
    pub selector: SelectorView,
    pub download: DownloadView,
    pub settings: SettingsView,
}

/// The state with the selector tab's phase set, on the main screen.
pub open spec fn with_phase(s: AppState, p: SelectorPhase) -> AppState {
    match s {
        AppState::Main(m) => AppState::Main(MainState { selector_phase: p, ..m }),
        AppState::Login(l) => AppState::Login(l),
    }
}

/// The state with the active tab set, on the main screen.
pub open spec fn with_tab(s: AppState, t: Tab) -> AppState {
    match s {
        AppState::Main(m) => AppState::Main(MainState { active_tab: t, ..m }),
        AppState::Login(l) => AppState::Login(l),
    }
}

/// Tab switches between the selector and the download list; from the
/// settings it goes back to the selector.
pub open spec fn next_tab(t: Tab) -> Tab {
    match t {
        Tab::Selector => Tab::Download,
        Tab::Download => Tab::Selector,
        Tab::Settings => Tab::Selector,
    }
}

/// The status of a download that has just been started.
pub open spec fn started_status() -> StatusView {
    StatusView::Downloading(0, "開始中..."@)
}

/// The download of `key` was pending in `before` and is started in
/// `after`.
pub open spec fn was_started(before: Seq<ItemView>, after: Seq<ItemView>, key: PageKeyView) -> bool {
    exists|i: int|
        0 <= i < before.len() && #[trigger] before[i].key == key && is_pending(before[i].status) && after[i].status
            == started_status()
}

/// `after` is `before` with the pending downloads `started` started, in
/// the order in which they are listed, until `concurrency` downloads run
/// or nothing is pending.
pub open spec fn slots_filled(before: Seq<ItemView>, after: Seq<ItemView>, concurrency: usize, started: Seq<PageKeyView>) -> bool {
    &&& after.len() == before.len()
    &&& forall|i: int|
        0 <= i < before.len() ==> (#[trigger] after[i]).key == before[i].key && after[i].display_path
            == before[i].display_path
    &&& forall|i: int|
        0 <= i < before.len() ==> (#[trigger] after[i]).status == before[i].status || (is_pending(before[i].status)
            && after[i].status == started_status() && started.contains(before[i].key))
    &&& forall|k: int| 0 <= k < started.len() ==> was_started(before, after, #[trigger] started[k])
    &&& started.no_duplicates()
    &&& downloading_count(after) == downloading_count(before) + started.len()
    &&& (downloading_count(after) >= concurrency || forall|i: int| 0 <= i < after.len() ==> !is_pending(#[trigger] after[i].status))
    &&& forall|i: int, j: int|
        0 <= i < j < before.len() && is_pending(before[i].status) && is_pending(before[j].status) && !is_pending(
            #[trigger] after[j].status,
        ) ==> !is_pending(#[trigger] after[i].status)
    &&& downloading_count(before) < concurrency ==> downloading_count(after) <= concurrency
    &&& downloading_count(before) >= concurrency ==> started.len() == 0
}

pub open spec fn download_commands(started: Seq<PageKeyView>) -> Seq<CommandView> {
    started.map_values(|k: PageKeyView| CommandView::Download(k))
}

/// Filling the download slots a second time starts nothing more and
/// changes nothing.
pub proof fn lemma_fill_twice_starts_nothing(
    d0: Seq<ItemView>,
    d1: Seq<ItemView>,
    d2: Seq<ItemView>,
    concurrency: usize,
    first: Seq<PageKeyView>,
    second: Seq<PageKeyView>,
)
    requires
        slots_filled(d0, d1, concurrency, first),
        slots_filled(d1, d2, concurrency, second),
    ensures
        second.len() == 0,
        d2 == d1,
{
    if second.len() > 0 {
        assert(was_started(d1, d2, second[0]));
        let i = choose|i: int| 0 <= i < d1.len() && #[trigger] d1[i].key == second[0] && is_pending(d1[i].status)
            && d2[i].status == started_status();
        assert(!is_pending(d1[i].status));
    }
    assert forall|i: int| 0 <= i < d1.len() implies d2[i] == d1[i] by {
        assert(d2[i].key == d1[i].key);
        if d2[i].status != d1[i].status {
            assert(second.contains(d1[i].key));
        }
    }
    assert(d2 =~= d1);
}

/// The download list after filling free download slots, with the commands
/// that start those downloads.
pub open spec fn filled(before: DownloadView, after: DownloadView, concurrency: usize, cmds: Seq<CommandView>) -> bool {
    exists|started: Seq<PageKeyView>|
        #[trigger] slots_filled(before.items, after.items, concurrency, started) && after.selected == before.selected
            && cmds == download_commands(started)
}

/// The command list asks for what the selector lacks (`fetch_lists`):
/// first the lectures of each course, then the pages of each lecture.
pub open spec fn fetch_commands(cmds: Seq<CommandView>, sel: SelectorView) -> bool {
    exists|cs: Seq<CourseKeyView>, ls: Seq<LectureKeyView>|
        #![trigger fetch_lists(sel, cs, ls)]
        selection_order(sel, cs, ls) && cmds == fetch_lists(sel, cs, ls).0.map_values(
            |k: CourseKeyView| CommandView::FetchLectures(k),
        ) + fetch_lists(sel, cs, ls).1.map_values(|k: LectureKeyView| CommandView::FetchPages(k))
}

/// A download request once every list it needs is cached: the selected
/// pages `resolved` are queued, the download tab is shown and downloads
/// start.
pub open spec fn enqueued_with(
    old: AppView,
    new: AppView,
    cmds: Seq<CommandView>,
    resolved: Seq<ResolvedPage>,
) -> bool {
    &&& resolved_keys(resolved).no_duplicates()
    &&& resolved_keys(resolved).to_set() == resolved_pages(old.selector)
    &&& forall|i: int| 0 <= i < resolved.len() ==> resolved_names_ok(old.selector, #[trigger] resolved[i])
    &&& new.error is None
    &&& if resolved.len() == 0 {
        &&& new.state == with_phase(old.state, SelectorPhase::Idle)
        &&& new.download == old.download
        &&& cmds.len() == 0
    } else {
        let queued = DownloadView {
            items: enqueued(old.download.items, resolved),
            selected: if enqueued(old.download.items, resolved).len() > 0 && old.download.selected is None {
                Some(0usize)
            } else {
                old.download.selected
            },
        };
        &&& new.state == with_tab(with_phase(old.state, SelectorPhase::Idle), Tab::Download)
        &&& filled(queued, new.download, old.concurrency, cmds)
    }
}

/// What a download request does: the lists still missing for the
/// selection are requested, and the request waits for them; once nothing
/// is missing, the selection is queued for download.
pub open spec fn enqueue_outcome(old: AppView, new: AppView, cmds: Seq<CommandView>) -> bool {
    let missing = unfetched_courses(old.selector) != Set::<CourseKeyView>::empty() || unfetched_lectures(old.selector)
        != Set::<LectureKeyView>::empty();
    &&& new.selector == old.selector
    &&& new.login == old.login
    &&& new.settings == old.settings
    &&& new.running == old.running
    &&& new.concurrency == old.concurrency
    &&& exists|f: nat|
        f <= cmds.len() && #[trigger] fetch_commands(cmds.take(f as int), old.selector) && if missing {
            &&& f == cmds.len()
            &&& new.state == with_phase(old.state, SelectorPhase::EnqueuePending)
            &&& new.error == old.error
            &&& new.download == old.download
        } else {
            exists|r: Seq<ResolvedPage>| #[trigger] enqueued_with(old, new, cmds.skip(f as int), r)
        }
}

/// The state after a result of the lecture service arrived, when it asks
/// for nothing further.
pub open spec fn same_except_selector(old: AppView, new: AppView, selector: SelectorView) -> bool {
    new == (AppView { selector: selector, ..old })
}

/// Whether the selector tab waits for lists to arrive before queueing
/// downloads.
pub open spec fn enqueue_pending(s: AppState) -> bool {
    s matches AppState::Main(m) && m.selector_phase == SelectorPhase::EnqueuePending
}

/// After a list arrived for the selector: a pending download request is
/// retried; otherwise nothing else happens.
pub open spec fn after_list_arrived(old: AppView, selector: SelectorView, new: AppView, cmds: Seq<CommandView>) -> bool {
    if enqueue_pending(old.state) {
        enqueue_outcome(AppView { selector: selector, ..old }, new, cmds)
    } else {
        same_except_selector(old, new, selector) && cmds.len() == 0
    }
}

/// The error box shows the user message of the error; the screen that
/// waited goes back to taking input (sign-in) or to idle (selector).
pub open spec fn after_error(s: AppState) -> AppState {
    match s {
        AppState::Login(_) => AppState::Login(LoginState { phase: LoginPhase::Input }),
        AppState::Main(m) => AppState::Main(MainState { selector_phase: SelectorPhase::Idle, ..m }),
    }
}

/// What handling an event does, with the commands it yields.
pub open spec fn dispatched(old: AppView, action: AppAction, new: AppView, cmds: Seq<CommandView>) -> bool {
    match action {
        AppAction::Login(c) => {
            &&& new == (AppView {
                state: AppState::Login(LoginState { phase: LoginPhase::Authenticating }),
                error: None,
                ..old
            })
            &&& cmds == seq![CommandView::Authenticate { username: c.username@, password: c.password@ }]
        },
        AppAction::LoginSuccess => {
            &&& new == (AppView {
                state: AppState::Main(
                    MainState { active_tab: Tab::Selector, selector_phase: SelectorPhase::LoadingCourses },
                ),
                error: None,
                ..old
            })
            &&& cmds == seq![CommandView::FetchCourses]
        },
        AppAction::FetchCourses => {
            &&& new == (AppView { state: with_phase(old.state, SelectorPhase::LoadingCourses), ..old })
            &&& cmds == seq![CommandView::FetchCourses]
        },
        AppAction::CoursesLoaded(courses) => {
            let (sel, req) = after_request_initial_data(after_set_courses(old.selector, courses@));
            &&& new == (AppView { state: with_phase(old.state, SelectorPhase::Ready), selector: sel, ..old })
            &&& cmds == match req {
                Some(SelectorRequest::FetchLectures(k)) => seq![CommandView::FetchLectures(k)],
                _ => Seq::<CommandView>::empty(),
            }
        },
        AppAction::FetchLectures(k) => {
            &&& new == (AppView { selector: SelectorView { loading_lectures: true, ..old.selector }, ..old })
            &&& cmds == seq![CommandView::FetchLectures(k@)]
        },
        AppAction::LecturesLoaded(course, lectures) => {
            let (sel, loaded) = after_load_pages_from_cache(after_set_lectures(old.selector, lectures@, course@));
            if !loaded && sel.focused_lecture is Some {
                let lk = sel.focused_lecture->0;
                &&& cmds.len() >= 1
                &&& cmds[0] == CommandView::FetchPages(lk)
                &&& after_list_arrived(old, SelectorView { loading_pages: true, ..sel }, new, cmds.skip(1))
            } else {
                after_list_arrived(old, sel, new, cmds)
            }
        },
        AppAction::FetchPages(k) => {
            &&& new == (AppView { selector: SelectorView { loading_pages: true, ..old.selector }, ..old })
            &&& cmds == seq![CommandView::FetchPages(k@)]
        },
        AppAction::PagesLoaded(lecture, pages) => after_list_arrived(
            old,
            after_set_pages(old.selector, pages@, lecture@),
            new,
            cmds,
        ),
        AppAction::ArchiveYearsLoaded(years) => {
            &&& new == (AppView {
                settings: SettingsView {
                    years: years@,
                    year_index: if old.settings.year_index is None && years@.len() > 0 {
                        Some(0usize)
                    } else {
                        old.settings.year_index
                    },
                    ..old.settings
                },
                ..old
            })
            &&& cmds.len() == 0
        },
        AppAction::SwitchTab(t) => new == (AppView { state: with_tab(old.state, t), ..old }) && cmds.len() == 0,
        AppAction::EnqueueDownloads => enqueue_outcome(old, new, cmds),
        AppAction::StartNextDownload => {
            &&& new == (AppView { download: new.download, ..old })
            &&& filled(old.download, new.download, old.concurrency, cmds)
        },
        AppAction::DownloadProgress(k, p, phase) => {
            &&& new == (AppView {
                download: DownloadView {
                    items: with_status(
                        old.download.items,
                        k@,
                        StatusView::Downloading(if p < 100 { p } else { 100u8 }, phase@),
                    ),
                    ..old.download
                },
                ..old
            })
            &&& cmds.len() == 0
        },
        AppAction::DownloadCompleted(k, files) => {
            let marked = DownloadView {
                items: with_status(old.download.items, k@, StatusView::Completed(files@.map_values(|f: String| f@))),
                ..old.download
            };
            &&& new == (AppView { download: new.download, ..old })
            &&& filled(marked, new.download, old.concurrency, cmds)
        },
        AppAction::DownloadFailed(k, message) => {
            let marked = DownloadView {
                items: with_status(old.download.items, k@, StatusView::Failed(message@)),
                ..old.download
            };
            &&& new == (AppView { download: new.download, ..old })
            &&& filled(marked, new.download, old.concurrency, cmds)
        },
        AppAction::Error(e) => {
            &&& new == (AppView { state: after_error(old.state), error: Some(user_message_of(e@)), ..old })
            &&& cmds.len() == 0
        },
        AppAction::ClearError => new == (AppView { error: None, ..old }) && cmds.len() == 0,
        AppAction::Quit => new == (AppView { running: false, ..old }) && cmds.len() == 0,
    }
}

/// What a key press does on the settings tab.
pub open spec fn settings_key_outcome(old: AppView, key: KeyPress, new: AppView, cmds: Seq<CommandView>) -> bool {
    let (st, req) = after_settings_key(old.settings, key);
    match req {
        Some(r) => {
            &&& new == (AppView {
                settings: st,
                concurrency: match r {
                    SettingsRequest::Concurrency(n) => n,
                    _ => old.concurrency,
                },
                ..old
            })
            &&& cmds == seq![CommandView::ChangeSetting(r)]
        },
        None => new == (AppView { settings: st, ..old }) && cmds.len() == 0,
    }
}

/// What a key press does on the selector tab.
pub open spec fn selector_key_outcome(old: AppView, key: KeyPress, new: AppView, cmds: Seq<CommandView>) -> bool {
    let (sv, req) = after_key(old.selector, key);
    match req {
        Some(SelectorRequest::FetchLectures(k)) => {
            &&& new == (AppView { selector: SelectorView { loading_lectures: true, ..sv }, ..old })
            &&& cmds == seq![CommandView::FetchLectures(k)]
        },
        Some(SelectorRequest::FetchPages(k)) => {
            &&& new == (AppView { selector: SelectorView { loading_pages: true, ..sv }, ..old })
            &&& cmds == seq![CommandView::FetchPages(k)]
        },
        Some(SelectorRequest::Confirm) => enqueue_outcome(AppView { selector: sv, ..old }, new, cmds),
        None => new == (AppView { selector: sv, ..old }) && cmds.len() == 0,
    }
}

/// What a key press does. Nothing while signing in; Ctrl-C quits; while
/// an error is shown, Esc, q or Enter dismisses it and other keys do
/// nothing. On the sign-in screen keys go to the form, and a submission
/// signs in. On the main screen Esc or q quits and Tab moves to the next
/// tab (except while the folder is being edited in the settings, which
/// takes every key), and other keys go to the active tab.
pub open spec fn after_app_key(old: AppView, key: KeyPress, new: AppView, cmds: Seq<CommandView>) -> bool {
    if !old.state.spec_can_handle_input() {
        new == old && cmds.len() == 0
    } else if key.code == KeyCode::Char('c') && key.spec_ctrl() {
        new == (AppView { running: false, ..old }) && cmds.len() == 0
    } else if old.error is Some {
        &&& cmds.len() == 0
        &&& new == if key.code == KeyCode::Esc || key.code == KeyCode::Char('q') || key.code == KeyCode::Enter {
            AppView { error: None, ..old }
        } else {
            old
        }
    } else {
        match old.state {
            AppState::Login(_) => {
                let (lv, req) = after_login_key(old.login, key);
                match req {
                    Some(LoginRequest::Submit { username, password, .. }) => {
                        &&& new == (AppView {
                            login: lv,
                            state: AppState::Login(LoginState { phase: LoginPhase::Authenticating }),
                            error: None,
                            ..old
                        })
                        &&& cmds == seq![CommandView::Authenticate { username: username, password: password }]
                    },
                    None => new == (AppView { login: lv, ..old }) && cmds.len() == 0,
                }
            },
            AppState::Main(m) => {
                if m.active_tab == Tab::Settings && old.settings.editing {
                    settings_key_outcome(old, key, new, cmds)
                } else if key.code == KeyCode::Esc || key.code == KeyCode::Char('q') {
                    new == (AppView { running: false, ..old }) && cmds.len() == 0
                } else if key.code == KeyCode::Tab {
                    new == (AppView { state: with_tab(old.state, next_tab(m.active_tab)), ..old }) && cmds.len() == 0
                } else {
                    match m.active_tab {
                        Tab::Selector => selector_key_outcome(old, key, new, cmds),
                        Tab::Download => {
                            &&& new == (AppView { download: after_download_key(old.download, key).0, ..old })
                            &&& cmds.len() == 0
                        },
                        Tab::Settings => settings_key_outcome(old, key, new, cmds),
                    }
                }
            },
        }
    }
}

/// The application.
pub struct App {
    state: AppState,
    error: Option<String>,
    running: bool,
    concurrency: usize,
    login: LoginComponent,
    selector: SelectorComponent,
    download: DownloadComponent,
    settings: SettingsComponent,
}

impl View for App {
    type V = AppView;

    closed spec fn view(&self) -> AppView {
        AppView {
            state: self.state,
            error: match self.error {
                Some(e) => Some(e@),
                None => None,
            },
            running: self.running,
            concurrency: self.concurrency,
            login: self.login@,
            selector: self.selector@,
            download: self.download@,
            settings: self.settings@,
        }
    }
}

impl App {
    /// The selector's caches and selection, and the download queue, are
    /// well formed.
    #[verifier::type_invariant]
    closed spec fn wf(&self) -> bool {
        &&& self.selector.wf()
        &&& self.download.wf()
    }

    /// Takes the selector out, leaving an empty one in its place.
    fn take_selector(&mut self) -> (c: SelectorComponent)
        ensures
            c == old(self).selector,
            final(self).state == old(self).state,
            final(self).error == old(self).error,
            final(self).running == old(self).running,
            final(self).concurrency == old(self).concurrency,
            final(self).login == old(self).login,
            final(self).download == old(self).download,
            final(self).settings == old(self).settings,
    {
        proof {
            use_type_invariant(&*self);
        }
        let mut c = SelectorComponent::new();
        std::mem::swap(&mut c, &mut self.selector);
        c
    }

    /// Takes the download queue out, leaving an empty one in its place.
    fn take_download(&mut self) -> (c: DownloadComponent)
        ensures
            c == old(self).download,
            final(self).state == old(self).state,
            final(self).error == old(self).error,
            final(self).running == old(self).running,
            final(self).concurrency == old(self).concurrency,
            final(self).login == old(self).login,
            final(self).selector == old(self).selector,
            final(self).settings == old(self).settings,
    {
        proof {
            use_type_invariant(&*self);
        }
        let mut c = DownloadComponent::new();
        std::mem::swap(&mut c, &mut self.download);
        c
    }

    /// Takes the settings form out, leaving a blank one in its place.
    fn take_settings(&mut self) -> (c: SettingsComponent)
        ensures
            c == old(self).settings,
            final(self).state == old(self).state,
            final(self).error == old(self).error,
            final(self).running == old(self).running,
            final(self).concurrency == old(self).concurrency,
            final(self).login == old(self).login,
            final(self).selector == old(self).selector,
            final(self).download == old(self).download,
    {
        proof {
            use_type_invariant(&*self);
        }
        let mut c = SettingsComponent::new("", None, 1);
        std::mem::swap(&mut c, &mut self.settings);
        c
    }

    /// Takes the sign-in form out, leaving an empty one in its place.
    fn take_login(&mut self) -> (c: LoginComponent)
        ensures
            c == old(self).login,
            final(self).state == old(self).state,
            final(self).error == old(self).error,
            final(self).running == old(self).running,
            final(self).concurrency == old(self).concurrency,
            final(self).selector == old(self).selector,
            final(self).download == old(self).download,
            final(self).settings == old(self).settings,
    {
        proof {
            use_type_invariant(&*self);
        }
        let mut c = LoginComponent::new();
        std::mem::swap(&mut c, &mut self.login);
        c
    }

    /// Starts pending downloads, in list order, while fewer than
    /// `concurrency` run.
    fn fill_download_slots(&mut self, cmds: &mut Vec<Command>)
        requires
            old(self).wf(),
        ensures
            final(self).wf(),
            final(self)@ == (AppView { download: final(self)@.download, ..old(self)@ }),
            command_views(final(cmds)@).take(old(cmds)@.len() as int) == command_views(old(cmds)@),
            final(cmds)@.len() >= old(cmds)@.len(),
            filled(
                old(self)@.download,
                final(self)@.download,
                old(self)@.concurrency,
                command_views(final(cmds)@).skip(old(cmds)@.len() as int),
            ),
    {
        let ghost before = self.download@.items;
        let ghost start = command_views(cmds@);
        let ghost mut started: Seq<PageKeyView> = Seq::empty();
        proof {
            assert(command_views(cmds@).skip(start.len() as int) =~= download_commands(started));
            assert(command_views(cmds@).take(start.len() as int) =~= start);
        }
        loop
            invariant
                self.wf(),
                self@ == (AppView { download: self@.download, ..old(self)@ }),
                self@.download.selected == old(self)@.download.selected,
                before == old(self)@.download.items,
                start == command_views(old(cmds)@),
                cmds@.len() >= start.len(),
                command_views(cmds@).take(start.len() as int) == start,
                command_views(cmds@).skip(start.len() as int) == download_commands(started),
                self@.download.items.len() == before.len(),
                forall|i: int|
                    0 <= i < before.len() ==> (#[trigger] self@.download.items[i]).key == before[i].key
                        && self@.download.items[i].display_path == before[i].display_path,
                forall|i: int|
                    0 <= i < before.len() ==> (#[trigger] self@.download.items[i]).status == before[i].status || (
                    is_pending(before[i].status) && self@.download.items[i].status == started_status() && started.contains(
                        before[i].key,
                    )),
                forall|k: int| 0 <= k < started.len() ==> was_started(before, self@.download.items, #[trigger] started[k]),
                started.no_duplicates(),
                downloading_count(self@.download.items) == downloading_count(before) + started.len(),
                pending_count(self@.download.items) + started.len() == pending_count(before),
                downloading_count(before) < old(self)@.concurrency ==> downloading_count(self@.download.items)
                    <= old(self)@.concurrency,
                downloading_count(before) >= old(self)@.concurrency ==> started.len() == 0,
                forall|i: int, j: int|
                    0 <= i < j < before.len() && is_pending(before[i].status) && is_pending(before[j].status) && !is_pending(
                        #[trigger] self@.download.items[j].status,
                    ) ==> !is_pending(#[trigger] self@.download.items[i].status),
            ensures
                self.wf(),
                self@ == (AppView { download: self@.download, ..old(self)@ }),
                command_views(cmds@).take(start.len() as int) == start,
                cmds@.len() >= start.len(),
                slots_filled(before, self@.download.items, old(self)@.concurrency, started),
                self@.download.selected == old(self)@.download.selected,
                command_views(cmds@).skip(start.len() as int) == download_commands(started),
            decreases pending_count(self@.download.items),
        {
            let active = self.download.active_count();
            if active >= self.concurrency {
                break;
            }
            match self.download.next_pending() {
                None => {
                    break;
                },
                Some(key) => {
                    let ghost items = self@.download.items;
                    let ghost p = choose|i: int|
                        0 <= i < items.len() && is_pending(#[trigger] items[i].status) && items[i].key == key@ && forall|
                            j: int,
                        | 0 <= j < i ==> !is_pending(#[trigger] items[j].status);
                    proof {
                        lemma_position_of_unique(items, p);
                    }
                    let mut d = self.take_download();
                    d.update_progress(&key, 0, "開始中...");
                    self.download = d;
                    let ghost x = ItemView { status: started_status(), ..items[p] };
                    let ghost now = self@.download.items;
                    proof {
                        assert(now == items.update(p, x));
                        lemma_count_update(items, p, x, |s: StatusView| crate::download::is_downloading(s));
                        lemma_count_update(items, p, x, |s: StatusView| is_pending(s));
                        assert(!started.contains(key@)) by {
                            if started.contains(key@) {
                                let k = choose|k: int| 0 <= k < started.len() && started[k] == key@;
                                assert(was_started(before, items, started[k]));
                                let i = choose|i: int|
                                    0 <= i < before.len() && #[trigger] before[i].key == started[k] && is_pending(
                                        before[i].status,
                                    ) && items[i].status == started_status();
                                assert(items[i].key == key@);
                                lemma_position_of_unique(items, i);
                            }
                        }
                    }
                    let ghost old_started = started;
                    proof {
                        started = started.push(key@);
                    }
                    let ghost cmds_before = command_views(cmds@);
                    cmds.push(Command::Download(key));
                    proof {
                        assert(command_views(cmds@) =~= cmds_before.push(CommandView::Download(key@)));
                        assert(command_views(cmds@).take(start.len() as int) =~= start) by {
                            assert(cmds_before.take(start.len() as int) == start);
                        }
                        assert(command_views(cmds@).skip(start.len() as int) =~= download_commands(started)) by {
                            assert(cmds_before.skip(start.len() as int) == download_commands(old_started));
                            assert(command_views(cmds@).skip(start.len() as int) =~= cmds_before.skip(start.len() as int).push(
                                CommandView::Download(key@),
                            ));
                            assert(download_commands(started) =~= download_commands(old_started).push(
                                CommandView::Download(key@),
                            ));
                        }
                        assert forall|i: int| 0 <= i < before.len() implies (#[trigger] now[i]).status == before[i].status
                            || (is_pending(before[i].status) && now[i].status == started_status() && started.contains(
                            before[i].key,
                        )) by {
                            if i == p {
                                assert(items[p].status == before[p].status || old_started.contains(before[p].key));
                                if items[p].status != before[p].status {
                                    assert(!is_pending(items[p].status));
                                }
                                assert(started[started.len() - 1] == key@);
                            } else {
                                if old_started.contains(before[i].key) {
                                    let k = choose|k: int| 0 <= k < old_started.len() && old_started[k] == before[i].key;
                                    assert(started[k] == before[i].key);
                                }
                            }
                        }
                        assert forall|k: int| 0 <= k < started.len() implies was_started(before, now, #[trigger] started[k]) by {
                            if k < old_started.len() {
                                assert(was_started(before, items, old_started[k]));
                                let i = choose|i: int|
                                    0 <= i < before.len() && #[trigger] before[i].key == old_started[k] && is_pending(
                                        before[i].status,
                                    ) && items[i].status == started_status();
                                if i == p {
                                    assert(!is_pending(items[i].status));
                                }
                                assert(now[i].status == started_status());
                            } else {
                                assert(before[p].key == started[k]);
                                assert(is_pending(before[p].status)) by {
                                    if items[p].status != before[p].status {
                                        assert(!is_pending(items[p].status));
                                    }
                                }
                            }
                        }
                        assert forall|a: int, b: int| 0 <= a < started.len() && 0 <= b < started.len() && a != b implies started[a]
                            != started[b] by {
                            if a == old_started.len() {
                                assert(!old_started.contains(key@));
                                assert(old_started[b] != key@);
                            } else if b == old_started.len() {
                                assert(old_started[a] != key@);
                            }
                        }
                        assert forall|i: int, j: int|
                            0 <= i < j < before.len() && is_pending(before[i].status) && is_pending(before[j].status)
                                && !is_pending(#[trigger] now[j].status) implies !is_pending(#[trigger] now[i].status) by {
                            if j == p {
                                if i != p {
                                    assert(!is_pending(items[i].status));
                                }
                            } else if i == p {
                            } else {
                                assert(now[j] == items[j]);
                            }
                        }
                        assert(item_keys(now) =~= item_keys(items));
                    }
                },
            }
        }
    }

    /// Queues the selected pages for download, or first asks for the lists
    /// the selection still lacks (see `enqueue_outcome`).
    fn try_enqueue_downloads(&mut self, cmds: &mut Vec<Command>)
        requires
            old(self).wf(),
        ensures
            final(self).wf(),
            command_views(final(cmds)@).take(old(cmds)@.len() as int) == command_views(old(cmds)@),
            final(cmds)@.len() >= old(cmds)@.len(),
            enqueue_outcome(old(self)@, final(self)@, command_views(final(cmds)@).skip(old(cmds)@.len() as int)),
    {
        let ghost v0 = self@;
        let ghost start = command_views(cmds@);
        let ghost n0 = cmds@.len();
        let (courses, lectures) = self.selector.get_unfetched_for_selection();
        let has_missing = courses.len() > 0 || lectures.len() > 0;
        let ghost cs = course_key_views(courses@);
        let ghost ls = lecture_key_views(lectures@);
        let mut i: usize = 0;
        while i < courses.len()
            invariant
                i <= courses.len(),
                cs == course_key_views(courses@),
                command_views(cmds@) == start + cs.take(i as int).map_values(|k: CourseKeyView| CommandView::FetchLectures(k)),
            decreases courses.len() - i,
        {
            let ghost before = command_views(cmds@);
            cmds.push(Command::FetchLectures(courses[i].clone()));
            assert(cs.take(i + 1).map_values(|k: CourseKeyView| CommandView::FetchLectures(k)) =~= cs.take(i as int).map_values(
                |k: CourseKeyView| CommandView::FetchLectures(k),
            ).push(CommandView::FetchLectures(cs[i as int])));
            assert(command_views(cmds@) =~= before.push(CommandView::FetchLectures(cs[i as int])));
            i += 1;
        }
        assert(cs.take(cs.len() as int) =~= cs);
        let ghost mid = command_views(cmds@);
        let mut i: usize = 0;
        while i < lectures.len()
            invariant
                i <= lectures.len(),
                ls == lecture_key_views(lectures@),
                command_views(cmds@) == mid + ls.take(i as int).map_values(|k: LectureKeyView| CommandView::FetchPages(k)),
            decreases lectures.len() - i,
        {
            let ghost before = command_views(cmds@);
            cmds.push(Command::FetchPages(lectures[i].clone()));
            assert(ls.take(i + 1).map_values(|k: LectureKeyView| CommandView::FetchPages(k)) =~= ls.take(i as int).map_values(
                |k: LectureKeyView| CommandView::FetchPages(k),
            ).push(CommandView::FetchPages(ls[i as int])));
            assert(command_views(cmds@) =~= before.push(CommandView::FetchPages(ls[i as int])));
            i += 1;
        }
        assert(ls.take(ls.len() as int) =~= ls);
        let ghost fetches = cs.map_values(|k: CourseKeyView| CommandView::FetchLectures(k)) + ls.map_values(
            |k: LectureKeyView| CommandView::FetchPages(k),
        );
        let ghost f: nat = fetches.len();
        proof {
            assert(command_views(cmds@) =~= start + fetches);
            assert(command_views(cmds@).skip(n0 as int).take(f as int) =~= fetches);
            let (ocs, ols) = choose|ocs: Seq<CourseKeyView>, ols: Seq<LectureKeyView>|
                #![trigger fetch_lists(v0.selector, ocs, ols)]
                selection_order(v0.selector, ocs, ols) && (cs, ls) == fetch_lists(v0.selector, ocs, ols);
            assert(fetch_lists(v0.selector, ocs, ols).0 == cs);
            assert(fetch_commands(fetches, v0.selector));
            assert(command_views(cmds@).take(n0 as int) =~= start);
            if cs.len() > 0 {
                assert(cs.to_set().contains(cs[0]));
            } else {
                assert(cs.to_set() =~= Set::<CourseKeyView>::empty());
            }
            if ls.len() > 0 {
                assert(ls.to_set().contains(ls[0]));
            } else {
                assert(ls.to_set() =~= Set::<LectureKeyView>::empty());
            }
        }
        if has_missing {
            if let AppState::Main(main) = self.state {
                self.state = AppState::Main(MainState { selector_phase: SelectorPhase::EnqueuePending, ..main });
            }
            proof {
                assert(command_views(cmds@).skip(n0 as int) =~= fetches);
                assert(command_views(cmds@).skip(n0 as int).take(f as int) =~= fetches);
            }
            return;
        }
        if let AppState::Main(main) = self.state {
            self.state = AppState::Main(MainState { selector_phase: SelectorPhase::Idle, ..main });
        }
        self.error = None;
        let resolved = self.selector.resolve_selected_pages();
        let ghost r = resolved@;
        if resolved.len() == 0 {
            proof {
                assert(command_views(cmds@).skip(n0 as int) =~= fetches);
                assert(command_views(cmds@).skip(n0 as int).skip(f as int) =~= Seq::<CommandView>::empty());
                assert(enqueued_with(v0, self@, command_views(cmds@).skip(n0 as int).skip(f as int), r));
            }
            return;
        }
        let mut d = self.take_download();
        d.enqueue(resolved);
        self.download = d;
        if let AppState::Main(main) = self.state {
            self.state = AppState::Main(MainState { active_tab: Tab::Download, ..main });
        }
        let ghost n1 = cmds@.len();
        self.fill_download_slots(cmds);
        proof {
            let all = command_views(cmds@);
            assert(all.take(n1 as int) =~= start + fetches);
            assert(all.skip(n0 as int).take(f as int) =~= fetches) by {
                assert(all.take(n1 as int) =~= start + fetches);
                assert forall|k: int| 0 <= k < f implies all.skip(n0 as int).take(f as int)[k] == fetches[k] by {
                    assert(all.take(n1 as int)[n0 + k] == all[n0 + k]);
                }
            }
            assert(all.skip(n0 as int).skip(f as int) =~= all.skip(n1 as int));
            assert(all.take(n0 as int) =~= start) by {
                assert(all.take(n1 as int) =~= start + fetches);
                assert forall|k: int| 0 <= k < n0 implies all.take(n0 as int)[k] == start[k] by {
                    assert(all.take(n1 as int)[k] == all[k]);
                }
            }
            assert(enqueued_with(v0, self@, all.skip(n0 as int).skip(f as int), r));
        }
    }

    /// Handles an event and returns the commands it yields (see
    /// `dispatched`).
    pub fn dispatch(&mut self, action: AppAction) -> (r: Vec<Command>)
        ensures
            dispatched(old(self)@, action, final(self)@, command_views(r@)),
    {
        proof {
            use_type_invariant(&*self);
        }
        let mut cmds: Vec<Command> = Vec::new();
        match action {
            AppAction::Login(creds) => {
                self.state = AppState::Login(LoginState { phase: LoginPhase::Authenticating });
                self.error = None;
                let ghost u = creds.username@;
                let ghost pw = creds.password@;
                cmds.push(Command::Authenticate(creds));
                assert(command_views(cmds@) =~= seq![CommandView::Authenticate { username: u, password: pw }]);
            },
            AppAction::LoginSuccess => {
                self.state = AppState::Main(MainState { active_tab: Tab::Selector, selector_phase: SelectorPhase::Idle });
                self.error = None;
                self.fetch_courses(&mut cmds);
                assert(command_views(cmds@) =~= seq![CommandView::FetchCourses]);
            },
            AppAction::FetchCourses => {
                self.fetch_courses(&mut cmds);
                assert(command_views(cmds@) =~= seq![CommandView::FetchCourses]);
            },
            AppAction::CoursesLoaded(courses) => {
                if let AppState::Main(main) = self.state {
                    self.state = AppState::Main(MainState { selector_phase: SelectorPhase::Ready, ..main });
                }
                let mut sel = self.take_selector();
                sel.set_courses(courses);
                let request = sel.request_initial_data();
                self.selector = sel;
                if let Some(SelectorAction::FetchLectures(key)) = request {
                    self.fetch_lectures(key, &mut cmds);
                    proof {
                        assert(command_views(cmds@) =~= seq![command_views(cmds@)[0]]);
                    }
                } else {
                    assert(command_views(cmds@) =~= Seq::<CommandView>::empty());
                }
            },
            AppAction::FetchLectures(key) => {
                self.fetch_lectures(key, &mut cmds);
                assert(command_views(cmds@) =~= seq![command_views(cmds@)[0]]);
            },
            AppAction::LecturesLoaded(course_key, lectures) => {
                let mut sel = self.take_selector();
                sel.set_lectures(lectures, &course_key);
                let from_cache = sel.try_load_pages_from_cache();
                self.selector = sel;
                let mut skip: usize = 0;
                if !from_cache {
                    if let Some(key) = self.selector.get_focused_lecture_key() {
                        self.fetch_pages(key, &mut cmds);
                        skip = 1;
                    }
                }
                let ghost c1 = command_views(cmds@);
                self.after_list(&mut cmds);
                proof {
                    let all = command_views(cmds@);
                    assert(all.skip(skip as int) == all.skip(c1.len() as int));
                    if skip == 1 {
                        assert(all[0] == c1[0]) by {
                            assert(all.take(1)[0] == c1[0]);
                        }
                    } else {
                        assert(all.skip(0) =~= all);
                    }
                }
            },
            AppAction::FetchPages(key) => {
                self.fetch_pages(key, &mut cmds);
                assert(command_views(cmds@) =~= seq![command_views(cmds@)[0]]);
            },
            AppAction::PagesLoaded(lecture_key, pages) => {
                let mut sel = self.take_selector();
                sel.set_pages(pages, &lecture_key);
                self.selector = sel;
                self.after_list(&mut cmds);
                assert(command_views(cmds@).skip(0) =~= command_views(cmds@));
            },
            AppAction::ArchiveYearsLoaded(years) => {
                let mut st = self.take_settings();
                st.set_available_years(years);
                self.settings = st;
                assert(command_views(cmds@) =~= Seq::<CommandView>::empty());
            },
            AppAction::SwitchTab(tab) => {
                if let AppState::Main(main) = self.state {
                    self.state = AppState::Main(MainState { active_tab: tab, ..main });
                }
            },
            AppAction::EnqueueDownloads => {
                self.try_enqueue_downloads(&mut cmds);
                assert(command_views(cmds@).skip(0) =~= command_views(cmds@));
            },
            AppAction::StartNextDownload => {
                self.fill_download_slots(&mut cmds);
                assert(command_views(cmds@).skip(0) =~= command_views(cmds@));
            },
            AppAction::DownloadProgress(page_key, progress, phase) => {
                let mut d = self.take_download();
                d.update_progress(&page_key, progress, phase.as_str());
                self.download = d;
            },
            AppAction::DownloadCompleted(page_key, files) => {
                let mut d = self.take_download();
                d.mark_completed(&page_key, files);
                self.download = d;
                self.fill_download_slots(&mut cmds);
                assert(command_views(cmds@).skip(0) =~= command_views(cmds@));
            },
            AppAction::DownloadFailed(page_key, message) => {
                let mut d = self.take_download();
                d.mark_failed(&page_key, message);
                self.download = d;
                self.fill_download_slots(&mut cmds);
                assert(command_views(cmds@).skip(0) =~= command_views(cmds@));
            },
            AppAction::Error(err) => {
                match self.state {
                    AppState::Login(_) => {
                        self.state = AppState::Login(LoginState { phase: LoginPhase::Input });
                    },
                    AppState::Main(main) => {
                        self.state = AppState::Main(MainState { selector_phase: SelectorPhase::Idle, ..main });
                    },
                }
                self.error = Some(err.user_message());
            },
            AppAction::ClearError => {
                self.error = None;
            },
            AppAction::Quit => {
                self.running = false;
            },
        }
        cmds
    }

    fn fetch_courses(&mut self, cmds: &mut Vec<Command>)
        requires
            old(self).wf(),
        ensures
            final(self).wf(),
            final(self)@ == (AppView { state: with_phase(old(self)@.state, SelectorPhase::LoadingCourses), ..old(self)@ }),
            command_views(final(cmds)@) == command_views(old(cmds)@).push(CommandView::FetchCourses),
    {
        if let AppState::Main(main) = self.state {
            self.state = AppState::Main(MainState { selector_phase: SelectorPhase::LoadingCourses, ..main });
        }
        let ghost before = command_views(cmds@);
        cmds.push(Command::FetchCourses);
        assert(command_views(cmds@) =~= before.push(CommandView::FetchCourses));
    }

    fn fetch_lectures(&mut self, key: CourseKey, cmds: &mut Vec<Command>)
        requires
            old(self).wf(),
        ensures
            final(self).wf(),
            final(self)@ == (AppView { selector: SelectorView { loading_lectures: true, ..old(self)@.selector }, ..old(self)@ }),
            command_views(final(cmds)@) == command_views(old(cmds)@).push(CommandView::FetchLectures(key@)),
    {
        let mut sel = self.take_selector();
        sel.set_loading_lectures(true);
        self.selector = sel;
        let ghost before = command_views(cmds@);
        let ghost k = key@;
        cmds.push(Command::FetchLectures(key));
        assert(command_views(cmds@) =~= before.push(CommandView::FetchLectures(k)));
    }

    fn fetch_pages(&mut self, key: LectureKey, cmds: &mut Vec<Command>)
        requires
            old(self).wf(),
        ensures
            final(self).wf(),
            final(self)@ == (AppView { selector: SelectorView { loading_pages: true, ..old(self)@.selector }, ..old(self)@ }),
            command_views(final(cmds)@) == command_views(old(cmds)@).push(CommandView::FetchPages(key@)),
    {
        let mut sel = self.take_selector();
        sel.set_loading_pages(true);
        self.selector = sel;
        let ghost before = command_views(cmds@);
        let ghost k = key@;
        cmds.push(Command::FetchPages(key));
        assert(command_views(cmds@) =~= before.push(CommandView::FetchPages(k)));
    }

    /// After a list arrived: retries a pending download request.
    fn after_list(&mut self, cmds: &mut Vec<Command>)
        requires
            old(self).wf(),
        ensures
            final(self).wf(),
            command_views(final(cmds)@).take(old(cmds)@.len() as int) == command_views(old(cmds)@),
            final(cmds)@.len() >= old(cmds)@.len(),
            enqueue_pending(old(self)@.state) ==> enqueue_outcome(
                old(self)@,
                final(self)@,
                command_views(final(cmds)@).skip(old(cmds)@.len() as int),
            ),
            !enqueue_pending(old(self)@.state) ==> final(self)@ == old(self)@ && final(cmds)@ == old(cmds)@,
    {
        if let AppState::Main(MainState { selector_phase: SelectorPhase::EnqueuePending, .. }) = self.state {
            self.try_enqueue_downloads(cmds);
        } else {
            assert(command_views(cmds@).take(cmds@.len() as int) =~= command_views(cmds@));
        }
    }

    fn handle_settings_key(&mut self, key: KeyPress) -> (r: Vec<Command>)
        requires
            old(self).wf(),
        ensures
            final(self).wf(),
            settings_key_outcome(old(self)@, key, final(self)@, command_views(r@)),
    {
        let mut cmds: Vec<Command> = Vec::new();
        let mut st = self.take_settings();
        let answer = st.handle_event(key);
        self.settings = st;
        if let Some(action) = answer {
            if let SettingsAction::Concurrency(n) = action {
                self.concurrency = n;
            }
            let ghost a = action@;
            cmds.push(Command::ChangeSetting(action));
            assert(command_views(cmds@) =~= seq![CommandView::ChangeSetting(a)]);
        } else {
            assert(command_views(cmds@) =~= Seq::<CommandView>::empty());
        }
        cmds
    }

    /// Handles a key press and returns the commands it yields (see
    /// `after_app_key`).
    pub fn handle_key(&mut self, key: KeyPress) -> (r: Vec<Command>)
        ensures
            after_app_key(old(self)@, key, final(self)@, command_views(r@)),
    {
        proof {
            use_type_invariant(&*self);
        }
        let mut cmds: Vec<Command> = Vec::new();
        proof {
            assert(command_views(cmds@) =~= Seq::<CommandView>::empty());
        }
        if !self.state.can_handle_input() {
            return cmds;
        }
        if key.code == KeyCode::Char('c') && key.ctrl() {
            self.running = false;
            return cmds;
        }
        if self.error.is_some() {
            if key.code == KeyCode::Esc || key.code == KeyCode::Char('q') || key.code == KeyCode::Enter {
                self.error = None;
            }
            return cmds;
        }
        match self.state {
            AppState::Login(_) => {
                let mut form = self.take_login();
                let answer = form.handle_event(key);
                self.login = form;
                if let Some(LoginAction::Submit(creds, _remember)) = answer {
                    self.state = AppState::Login(LoginState { phase: LoginPhase::Authenticating });
                    self.error = None;
                    let ghost u = creds.username@;
                    let ghost pw = creds.password@;
                    cmds.push(Command::Authenticate(creds));
                    assert(command_views(cmds@) =~= seq![CommandView::Authenticate { username: u, password: pw }]);
                }
                cmds
            },
            AppState::Main(main) => {
                if main.active_tab == Tab::Settings && self.settings.is_editing() {
                    return self.handle_settings_key(key);
                }
                if key.code == KeyCode::Esc || key.code == KeyCode::Char('q') {
                    self.running = false;
                    return cmds;
                }
                if key.code == KeyCode::Tab {
                    let next = match main.active_tab {
                        Tab::Selector => Tab::Download,
                        Tab::Download => Tab::Selector,
                        Tab::Settings => Tab::Selector,
                    };
                    self.state = AppState::Main(MainState { active_tab: next, ..main });
                    return cmds;
                }
                match main.active_tab {
                    Tab::Selector => {
                        let mut sel = self.take_selector();
                        let answer = sel.handle_event(key);
                        self.selector = sel;
                        match answer {
                            Some(SelectorAction::FetchLectures(k)) => {
                                self.fetch_lectures(k, &mut cmds);
                                assert(command_views(cmds@) =~= seq![command_views(cmds@)[0]]);
                            },
                            Some(SelectorAction::FetchPages(k)) => {
                                self.fetch_pages(k, &mut cmds);
                                assert(command_views(cmds@) =~= seq![command_views(cmds@)[0]]);
                            },
                            Some(SelectorAction::Confirm) => {
                                self.try_enqueue_downloads(&mut cmds);
                                assert(command_views(cmds@).skip(0) =~= command_views(cmds@));
                            },
                            None => {},
                        }
                        cmds
                    },
                    Tab::Download => {
                        let mut d = self.take_download();
                        let _ = d.handle_event(key);
                        self.download = d;
                        cmds
                    },
                    Tab::Settings => self.handle_settings_key(key),
                }
            },
        }
    }

    /// The sign-in screen with empty forms and no downloads.
    pub fn new(download_path: &str, year: Option<u32>, concurrency: usize) -> (a: App)
        ensures
            a@.state == AppState::Login(LoginState { phase: LoginPhase::Input }),
            a@.error is None,
            a@.running,
            a@.concurrency == concurrency,
            a@.login == empty_login(),
            a@.selector == empty_selector(),
            a@.download == (DownloadView { items: Seq::empty(), selected: None }),
            a@.settings == initial_settings(download_path@, concurrency),
    {
        App {
            state: AppState::default(),
            error: None,
            running: true,
            concurrency,
            login: LoginComponent::new(),
            selector: SelectorComponent::new(),
            download: DownloadComponent::new(),
            settings: SettingsComponent::new(download_path, year, concurrency),
        }
    }

    pub fn state(&self) -> (s: AppState)
        ensures
            s == self@.state,
    {
        self.state
    }

    pub fn error(&self) -> (e: Option<&String>)
        ensures
            match e {
                Some(m) => self@.error == Some(m@),
                None => self@.error is None,
            },
    {
        self.error.as_ref()
    }

    pub fn is_running(&self) -> (b: bool)
        ensures
            b == self@.running,
    {
        self.running
    }

    pub fn concurrency(&self) -> (n: usize)
        ensures
            n == self@.concurrency,
    {
        self.concurrency
    }

    pub fn login(&self) -> (l: &LoginComponent)
        ensures
            l@ == self@.login,
    {
        &self.login
    }

    pub fn selector(&self) -> (c: &SelectorComponent)
        ensures
            c@ == self@.selector,
            c.wf(),
    {
        proof {
            use_type_invariant(self);
        }
        &self.selector
    }

    pub fn download(&self) -> (c: &DownloadComponent)
        ensures
            c@ == self@.download,
    {
        &self.download
    }

    pub fn settings(&self) -> (c: &SettingsComponent)
        ensures
            c@ == self@.settings,
    {
        &self.settings
    }
}

} // verus!
