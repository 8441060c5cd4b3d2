//! The settings tab: academic year, download folder and how many pages
//! download at once.

use crate::input::{edited_text, KeyCode, KeyPress, TextField};
use crate::keys::Year;
use vstd::prelude::*;

verus! {

/// The most pages that may download at once.
pub const MAX_CONCURRENCY: usize = 8;

/// A change of a setting.
#[derive(PartialEq, Eq, Debug)]
pub enum SettingsAction {
    Year(Option<u32>),
    Path(String),
    Concurrency(usize),
}

/// Abstract value of a [`SettingsAction`].
pub enum SettingsRequest {
    Year(Option<u32>),
    Path(Seq<char>),
    Concurrency(usize),
}

impl View for SettingsAction {
    type V = SettingsRequest;

    open spec fn view(&self) -> SettingsRequest {
        match self {
            SettingsAction::Year(y) => SettingsRequest::Year(*y),
            SettingsAction::Path(p) => SettingsRequest::Path(p@),
            SettingsAction::Concurrency(n) => SettingsRequest::Concurrency(*n),
        }
    }
}

pub open spec fn settings_request_of(a: Option<SettingsAction>) -> Option<SettingsRequest> {
    match a {
        Some(a) => Some(a@),
        None => None,
    }
}

/// The section of the settings tab that has the focus.
#[derive(PartialEq, Eq, Structural, Clone, Copy, Debug)]
pub enum SettingsSection {
    Year,
    Path,
    Concurrency,
}

impl Default for SettingsSection {
    fn default() -> (s: SettingsSection)
        ensures
            s == SettingsSection::Year,
    {
        SettingsSection::Year
    }
}

/// Abstract state of a [`SettingsComponent`].
pub struct SettingsView {
    pub years: Seq<Year>,
    pub year_index: Option<usize>,
    pub path: Seq<char>,
    pub path_cursor: usize,
    pub editing: bool,
    pub concurrency: usize,
    pub section: SettingsSection,
}

/// The year under the year index, if the index is within the list.
pub open spec fn selected_year(v: SettingsView) -> Option<u32> {
    match v.year_index {
        Some(i) => if i < v.years.len() {
            Some(v.years[i as int].value)
        } else {
            None
        },
        None => None,
    }
}

/// A move through the list of years by `delta` places, forward when
/// `delta` is positive and backward otherwise; the move stops at either
/// end and is reported only when the year changes.
pub open spec fn after_cycle_year(v: SettingsView, delta: i32) -> (SettingsView, Option<SettingsRequest>) {
    if v.years.len() == 0 {
        (v, None)
    } else {
        let current: int = match v.year_index {
            Some(i) => i as int,
            None => 0,
        };
        let next: int = if delta > 0 {
            if current + delta < v.years.len() - 1 {
                current + delta
            } else {
                v.years.len() - 1
            }
        } else {
            if current + delta > 0 {
                current + delta
            } else {
                0
            }
        };
        if next != current {
            let w = SettingsView { year_index: Some(next as usize), ..v };
            (w, Some(SettingsRequest::Year(selected_year(w))))
        } else {
            (v, None)
        }
    }
}

/// One step of the download concurrency, up to `MAX_CONCURRENCY` or down
/// to 1; reported only when it changes.
pub open spec fn after_cycle_concurrency(v: SettingsView, forward: bool) -> (SettingsView, Option<SettingsRequest>) {
    let c = v.concurrency as int;
    let next: int = if forward {
        if c + 1 < MAX_CONCURRENCY {
            c + 1
        } else {
            MAX_CONCURRENCY as int
        }
    } else {
        if c - 1 > 1 {
            c - 1
        } else {
            1
        }
    };
    if next != c {
        (SettingsView { concurrency: next as usize, ..v }, Some(SettingsRequest::Concurrency(next as usize)))
    } else {
        (v, None)
    }
}

/// What a key press does to the settings tab. While the folder is being
/// edited, Enter or Esc ends the editing and reports the folder, and any
/// other key edits it. Otherwise the arrows (and h, j, k, l) move between
/// sections and change the year or the concurrency, and Enter or Space on
/// the folder starts editing it.
pub open spec fn after_settings_key(v: SettingsView, key: KeyPress) -> (SettingsView, Option<SettingsRequest>) {
    if v.editing {
        match key.code {
            KeyCode::Enter | KeyCode::Esc => (SettingsView { editing: false, ..v }, Some(SettingsRequest::Path(v.path))),
            _ => {
                let (value, cursor) = edited_text(v.path, v.path_cursor, key);
                (SettingsView { path: value, path_cursor: cursor, ..v }, None)
            },
        }
    } else {
        match key.code {
            KeyCode::Up | KeyCode::Char('k') => (
                SettingsView {
                    section: match v.section {
                        SettingsSection::Year | SettingsSection::Path => SettingsSection::Year,
                        SettingsSection::Concurrency => SettingsSection::Path,
                    },
                    ..v
                },
                None,
            ),
            KeyCode::Down | KeyCode::Char('j') => (
                SettingsView {
                    section: match v.section {
                        SettingsSection::Year => SettingsSection::Path,
                        SettingsSection::Path | SettingsSection::Concurrency => SettingsSection::Concurrency,
                    },
                    ..v
                },
                None,
            ),
            KeyCode::Left | KeyCode::Char('h') => match v.section {
                SettingsSection::Year => after_cycle_year(v, -1i32),
                SettingsSection::Concurrency => after_cycle_concurrency(v, false),
                SettingsSection::Path => (v, None),
            },
            KeyCode::Right | KeyCode::Char('l') => match v.section {
                SettingsSection::Year => after_cycle_year(v, 1i32),
                SettingsSection::Concurrency => after_cycle_concurrency(v, true),
                SettingsSection::Path => (v, None),
            },
            _ => if (key.code == KeyCode::Enter || key.code == KeyCode::Char(' ')) && v.section == SettingsSection::Path {
                (SettingsView { editing: true, ..v }, None)
            } else {
                (v, None)
            },
        }
    }
}

/// The settings tab as it starts: the folder and the concurrency shown,
/// no years known yet, the focus on the year.
pub open spec fn initial_settings(path: Seq<char>, concurrency: usize) -> SettingsView {
    SettingsView {
        years: Seq::empty(),
        year_index: None,
        path: path,
        path_cursor: path.len() as usize,
        editing: false,
        concurrency: concurrency,
        section: SettingsSection::Year,
    }
}

/// The settings tab.
pub struct SettingsComponent {
    available_years: Vec<Year>,
    selected_year_index: Option<usize>,
    path_input: TextField,
    path_editing: bool,
    concurrency: usize,
    current_section: SettingsSection,
}

impl View for SettingsComponent {
    type V = SettingsView;

    closed spec fn view(&self) -> SettingsView {
        SettingsView {
            years: self.available_years@,
            year_index: self.selected_year_index,
            path: self.path_input.value@,
            path_cursor: self.path_input.cursor,
            editing: self.path_editing,
            concurrency: self.concurrency,
            section: self.current_section,
        }
    }
}

impl SettingsComponent {
    /// A settings tab showing the folder and the concurrency, with no year
    /// list yet.
    pub fn new(download_path: &str, year: Option<u32>, concurrency: usize) -> (c: Self)
        ensures
            c@ == initial_settings(download_path@, concurrency),
    {
        let c = SettingsComponent {
            available_years: Vec::new(),
            selected_year_index: None,
            path_input: TextField::new(download_path.to_owned()),
            path_editing: false,
            concurrency,
            current_section: SettingsSection::default(),
        };
        assert(c@.years =~= Seq::<Year>::empty());
        c
    }

    /// Shows the years of the archive; the first is chosen if none was.
    pub fn set_available_years(&mut self, years: Vec<Year>)
        ensures
            final(self)@ == (SettingsView {
                years: years@,
                year_index: if old(self)@.year_index is None && years@.len() > 0 {
                    Some(0usize)
                } else {
                    old(self)@.year_index
                },
                ..old(self)@
            }),
    {
        self.available_years = years;
        if self.selected_year_index.is_none() && self.available_years.len() > 0 {
            self.selected_year_index = Some(0);
        }
    }

    /// Whether the folder is being edited; keys then go to the folder field.
    pub fn is_editing(&self) -> (b: bool)
        ensures
            b == self@.editing,
    {
        self.path_editing
    }

    fn selected_year_value(&self) -> (r: Option<u32>)
        ensures
            r == selected_year(self@),
    {
        match self.selected_year_index {
            Some(i) => if i < self.available_years.len() {
                Some(self.available_years[i].value)
            } else {
                None
            },
            None => None,
        }
    }

    fn cycle_year(&mut self, delta: i32) -> (r: Option<SettingsAction>)
        ensures
            (final(self)@, settings_request_of(r)) == after_cycle_year(old(self)@, delta),
    {
        if self.available_years.len() == 0 {
            return None;
        }
        let len = self.available_years.len();
        let current: usize = match self.selected_year_index {
            Some(i) => i,
            None => 0,
        };
        let next: usize = if delta > 0 {
            let step = delta as usize;
            if current < len - 1 && step < len - 1 - current {
                current + step
            } else {
                len - 1
            }
        } else {
            let back: u64 = (0i64 - delta as i64) as u64;
            if (current as u64) > back {
                current - back as usize
            } else {
                0
            }
        };
        if next != current {
            self.selected_year_index = Some(next);
            return Some(SettingsAction::Year(self.selected_year_value()));
        }
        None
    }

    fn cycle_concurrency(&mut self, delta: i32) -> (r: Option<SettingsAction>)
        ensures
            (final(self)@, settings_request_of(r)) == after_cycle_concurrency(old(self)@, delta > 0),
    {
        let next: usize = if delta > 0 {
            if self.concurrency < MAX_CONCURRENCY - 1 {
                self.concurrency + 1
            } else {
                MAX_CONCURRENCY
            }
        } else {
            if self.concurrency > 2 {
                self.concurrency - 1
            } else {
                1
            }
        };
        if next != self.concurrency {
            self.concurrency = next;
            return Some(SettingsAction::Concurrency(next));
        }
        None
    }

    fn handle_path_editing(&mut self, key: KeyPress) -> (r: Option<SettingsAction>)
        requires
            old(self)@.editing,
        ensures
            (final(self)@, settings_request_of(r)) == after_settings_key(old(self)@, key),
    {
        match key.code {
            KeyCode::Enter | KeyCode::Esc => {
                self.path_editing = false;
                Some(SettingsAction::Path(self.path_input.value.clone()))
            },
            _ => {
                self.path_input.handle_key(key);
                None
            },
        }
    }

    fn handle_navigation(&mut self, key: KeyPress) -> (r: Option<SettingsAction>)
        requires
            !old(self)@.editing,
        ensures
            (final(self)@, settings_request_of(r)) == after_settings_key(old(self)@, key),
    {
        match key.code {
            KeyCode::Up | KeyCode::Char('k') => {
                self.current_section = match self.current_section {
                    SettingsSection::Year | SettingsSection::Path => SettingsSection::Year,
                    SettingsSection::Concurrency => SettingsSection::Path,
                };
                None
            },
            KeyCode::Down | KeyCode::Char('j') => {
                self.current_section = match self.current_section {
                    SettingsSection::Year => SettingsSection::Path,
                    SettingsSection::Path | SettingsSection::Concurrency => SettingsSection::Concurrency,
                };
                None
            },
            KeyCode::Left | KeyCode::Char('h') => match self.current_section {
                SettingsSection::Year => self.cycle_year(-1),
                SettingsSection::Concurrency => self.cycle_concurrency(-1),
                SettingsSection::Path => None,
            },
            KeyCode::Right | KeyCode::Char('l') => match self.current_section {
                SettingsSection::Year => self.cycle_year(1),
                SettingsSection::Concurrency => self.cycle_concurrency(1),
                SettingsSection::Path => None,
            },
            _ => {
                if (key.code == KeyCode::Enter || key.code == KeyCode::Char(' ')) && self.current_section
                    == SettingsSection::Path {
                    self.path_editing = true;
                }
                None
            },
        }
    }

    /// Handles a key press while the settings tab has the focus.
    pub fn handle_event(&mut self, key: KeyPress) -> (r: Option<SettingsAction>)
        ensures
            (final(self)@, settings_request_of(r)) == after_settings_key(old(self)@, key),
    {
        if self.path_editing {
            return self.handle_path_editing(key);
        }
        self.handle_navigation(key)
    }

    /// The year shown, if the list of years is known.
    pub fn selected_year_value_shown(&self) -> (r: Option<u32>)
        ensures
            r == selected_year(self@),
    {
        self.selected_year_value()
    }

    pub fn path(&self) -> (s: &str)
        ensures
            s@ == self@.path,
    {
        self.path_input.value()
    }

    pub fn path_cursor(&self) -> (c: usize)
        ensures
            c == self@.path_cursor,
    {
        self.path_input.cursor
    }

    pub fn concurrency(&self) -> (c: usize)
        ensures
            c == self@.concurrency,
    {
        self.concurrency
    }

    pub fn current_section(&self) -> (s: SettingsSection)
        ensures
            s == self@.section,
    {
        self.current_section
    }
}

/// Once the concurrency is between 1 and `MAX_CONCURRENCY`, no key press
/// takes it out of that range.
pub proof fn lemma_concurrency_stays_in_range(v: SettingsView, key: KeyPress)
    requires
        1 <= v.concurrency <= MAX_CONCURRENCY,
    ensures
        1 <= after_settings_key(v, key).0.concurrency <= MAX_CONCURRENCY,
{
}

/// With the year section focused and the year list known, Right moves to
/// the next year and Left to the previous one, one step at a time,
/// stopping at either end; a move reports the year now chosen, and
/// nothing is reported when the index stays. No index counts as the first
/// year.
pub proof fn lemma_year_moves_one_step(v: SettingsView, key: KeyPress)
    requires
        !v.editing,
        v.section == SettingsSection::Year,
        0 < v.years.len() <= usize::MAX,
        v.year_index matches Some(i) ==> i < v.years.len(),
        key.code == KeyCode::Right || key.code == KeyCode::Left,
    ensures
        ({
            let n = v.years.len() as int;
            let current: int = match v.year_index {
                Some(i) => i as int,
                None => 0,
            };
            let target: int = if key.code == KeyCode::Right {
                if current + 1 < n { current + 1 } else { n - 1 }
            } else {
                if current > 0 { current - 1 } else { 0 }
            };
            let (w, r) = after_settings_key(v, key);
            &&& w.years == v.years
            &&& w.concurrency == v.concurrency
            &&& w.path == v.path
            &&& target != current ==> w.year_index == Some(target as usize) && r == Some(
                SettingsRequest::Year(Some(v.years[target].value)),
            )
            &&& target == current ==> w == v && r is None
        }),
{
    let w = after_settings_key(v, key).0;
    if let Some(j) = w.year_index {
        if j < w.years.len() {
            assert(selected_year(w) == Some(w.years[j as int].value));
        }
    }
}

/// With the concurrency section focused, Right raises the concurrency by
/// one up to `MAX_CONCURRENCY` and Left lowers it by one down to 1; a
/// change is reported with the new value.
pub proof fn lemma_concurrency_moves_one_step(v: SettingsView, key: KeyPress)
    requires
        !v.editing,
        v.section == SettingsSection::Concurrency,
        1 <= v.concurrency <= MAX_CONCURRENCY,
        key.code == KeyCode::Right || key.code == KeyCode::Left,
    ensures
        ({
            let c = v.concurrency as int;
            let target: int = if key.code == KeyCode::Right {
                if c < MAX_CONCURRENCY { c + 1 } else { c }
            } else {
                if c > 1 { c - 1 } else { c }
            };
            let (w, r) = after_settings_key(v, key);
            &&& w.concurrency == target
            &&& w.year_index == v.year_index
            &&& target != c ==> r == Some(SettingsRequest::Concurrency(target as usize))
            &&& target == c ==> r is None
        }),
{
}

/// A year index within the list stays within it after any key press.
pub proof fn lemma_year_index_stays_in_range(v: SettingsView, key: KeyPress)
    requires
        v.year_index matches Some(i) && i < v.years.len(),
    ensures
        after_settings_key(v, key).0.year_index matches Some(i) && i < after_settings_key(v, key).0.years.len(),
{
}

} // verus!
