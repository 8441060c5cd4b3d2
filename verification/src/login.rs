//! The sign-in form: user name, password and whether to remember them.

use crate::input::{edited_text, KeyCode, KeyPress, TextField};
use crate::keys::Credentials;
use crate::text::{trim, trimmed};
use vstd::prelude::*;

verus! {

/// The field of the form that has the focus.
#[derive(PartialEq, Eq, Structural, Clone, Copy, Debug)]
pub enum InputField {
    Username,
    Password,
    Remember,
}

impl Default for InputField {
    fn default() -> (f: InputField)
        ensures
            f == InputField::Username,
    {
        InputField::Username
    }
}

/// What the form asks of the application.
#[derive(Debug)]
pub enum LoginAction {
    /// Sign in with these credentials; the flag asks to remember them.
    Submit(Credentials, bool),
}

/// Abstract value of a [`LoginAction`].
pub enum LoginRequest {
    Submit { username: Seq<char>, password: Seq<char>, remember: bool },
}

impl View for LoginAction {
    type V = LoginRequest;

    open spec fn view(&self) -> LoginRequest {
        match self {
            LoginAction::Submit(c, r) => LoginRequest::Submit {
                username: c.username@,
                password: c.password@,
                remember: *r,
            },
        }
    }
}

pub open spec fn login_request_of(a: Option<LoginAction>) -> Option<LoginRequest> {
    match a {
        Some(a) => Some(a@),
        None => None,
    }
}

/// Abstract state of a [`LoginComponent`].
pub struct LoginView {
    pub username: Seq<char>,
    pub username_cursor: usize,
    pub password: Seq<char>,
    pub password_cursor: usize,
    pub field: InputField,
    pub remember: bool,
}

/// Tab moves the focus forward through the fields, wrapping around.
pub open spec fn next_field(f: InputField) -> InputField {
    match f {
        InputField::Username => InputField::Password,
        InputField::Password => InputField::Remember,
        InputField::Remember => InputField::Username,
    }
}

/// Shift-Tab moves the focus backward, wrapping around.
pub open spec fn previous_field(f: InputField) -> InputField {
    match f {
        InputField::Username => InputField::Remember,
        InputField::Password => InputField::Username,
        InputField::Remember => InputField::Password,
    }
}

/// The form submits the trimmed user name and the password, when neither
/// is empty.
pub open spec fn submission(v: LoginView) -> Option<LoginRequest> {
    if trimmed(v.username).len() > 0 && v.password.len() > 0 {
        Some(LoginRequest::Submit { username: trimmed(v.username), password: v.password, remember: v.remember })
    } else {
        None
    }
}

/// What a key press does to the form: Tab and Shift-Tab move the focus,
/// Enter moves from the user name to the password and submits from the
/// other fields, Space toggles the remember box while it has the focus,
/// and any other key edits the focused text field.
pub open spec fn after_login_key(v: LoginView, key: KeyPress) -> (LoginView, Option<LoginRequest>) {
    match key.code {
        KeyCode::Tab => (LoginView { field: next_field(v.field), ..v }, None),
        KeyCode::BackTab => (LoginView { field: previous_field(v.field), ..v }, None),
        KeyCode::Enter => match v.field {
            InputField::Username => (LoginView { field: InputField::Password, ..v }, None),
            _ => (v, submission(v)),
        },
        _ => if key.code == KeyCode::Char(' ') && v.field == InputField::Remember {
            (LoginView { remember: !v.remember, ..v }, None)
        } else {
            match v.field {
                InputField::Username => {
                    let (value, cursor) = edited_text(v.username, v.username_cursor, key);
                    (LoginView { username: value, username_cursor: cursor, ..v }, None)
                },
                InputField::Password => {
                    let (value, cursor) = edited_text(v.password, v.password_cursor, key);
                    (LoginView { password: value, password_cursor: cursor, ..v }, None)
                },
                InputField::Remember => (v, None),
            }
        },
    }
}

/// Tab visits the three fields in turn and comes back; Shift-Tab undoes
/// Tab.
pub proof fn lemma_field_cycle(f: InputField)
    ensures
        next_field(next_field(next_field(f))) == f,
        previous_field(next_field(f)) == f,
        next_field(previous_field(f)) == f,
{
}

/// A Tab press moves the focus to the next field and changes nothing else
/// of the form; a Shift-Tab press after it brings the form back to where
/// it was, and neither press submits.
pub proof fn lemma_tab_then_back_tab(v: LoginView, tab: KeyPress, back: KeyPress)
    requires
        tab.code == KeyCode::Tab,
        back.code == KeyCode::BackTab,
    ensures
        after_login_key(v, tab) == (LoginView { field: next_field(v.field), ..v }, None::<LoginRequest>),
        after_login_key(after_login_key(v, tab).0, back) == (v, None::<LoginRequest>),
{
    lemma_field_cycle(v.field);
}

/// The form submits the user name without surrounding white space and
/// never submits an empty user name or password.
pub proof fn lemma_submission_is_clean(v: LoginView)
    ensures
        submission(v) matches Some(LoginRequest::Submit { username, password, .. }) ==> {
            &&& username.len() > 0
            &&& password.len() > 0
            &&& !crate::text::is_white_space(username[0])
            &&& !crate::text::is_white_space(username.last())
        },
{
    crate::text::lemma_trimmed_has_no_outer_space(v.username);
}

/// An empty form with the focus on the user name.
pub open spec fn empty_login() -> LoginView {
    LoginView {
        username: Seq::empty(),
        username_cursor: 0,
        password: Seq::empty(),
        password_cursor: 0,
        field: InputField::Username,
        remember: false,
    }
}

/// The sign-in form.
pub struct LoginComponent {
    username_input: TextField,
    password_input: TextField,
    current_field: InputField,
    remember: bool,
}

impl View for LoginComponent {
    type V = LoginView;

    closed spec fn view(&self) -> LoginView {
        LoginView {
            username: self.username_input.value@,
            username_cursor: self.username_input.cursor,
            password: self.password_input.value@,
            password_cursor: self.password_input.cursor,
            field: self.current_field,
            remember: self.remember,
        }
    }
}

impl LoginComponent {
    /// An empty form with the focus on the user name.
    pub fn new() -> (c: Self)
        ensures
            c@ == empty_login(),
    {
        LoginComponent {
            username_input: TextField::empty(),
            password_input: TextField::empty(),
            current_field: InputField::default(),
            remember: false,
        }
    }

    /// Fills in the user name, with the cursor at its end.
    pub fn set_username(&mut self, username: &str)
        ensures
            final(self)@ == (LoginView { username: username@, username_cursor: username@.len() as usize, ..old(self)@ }),
    {
        self.username_input = TextField::new(username.to_owned());
    }

    /// Fills in the password, with the cursor at its end.
    pub fn set_password(&mut self, password: &str)
        ensures
            final(self)@ == (LoginView { password: password@, password_cursor: password@.len() as usize, ..old(self)@ }),
    {
        self.password_input = TextField::new(password.to_owned());
    }

    pub fn set_remember(&mut self, remember: bool)
        ensures
            final(self)@ == (LoginView { remember: remember, ..old(self)@ }),
    {
        self.remember = remember;
    }

    fn try_submit(&self) -> (r: Option<LoginAction>)
        ensures
            login_request_of(r) == submission(self@),
    {
        let username = trim(self.username_input.value());
        let password = self.password_input.value.clone();
        if username.as_str().unicode_len() > 0 && password.as_str().unicode_len() > 0 {
            Some(LoginAction::Submit(Credentials { username, password }, self.remember))
        } else {
            None
        }
    }

    fn handle_key_event(&mut self, key: KeyPress) -> (r: Option<LoginAction>)
        ensures
            (final(self)@, login_request_of(r)) == after_login_key(old(self)@, key),
    {
        match key.code {
            KeyCode::Tab => {
                self.current_field = match self.current_field {
                    InputField::Username => InputField::Password,
                    InputField::Password => InputField::Remember,
                    InputField::Remember => InputField::Username,
                };
                None
            },
            KeyCode::BackTab => {
                self.current_field = match self.current_field {
                    InputField::Username => InputField::Remember,
                    InputField::Password => InputField::Username,
                    InputField::Remember => InputField::Password,
                };
                None
            },
            KeyCode::Enter => match self.current_field {
                InputField::Username => {
                    self.current_field = InputField::Password;
                    None
                },
                _ => self.try_submit(),
            },
            _ => {
                if key.code == KeyCode::Char(' ') && self.current_field == InputField::Remember {
                    self.remember = !self.remember;
                    return None;
                }
                match self.current_field {
                    InputField::Username => {
                        self.username_input.handle_key(key);
                    },
                    InputField::Password => {
                        self.password_input.handle_key(key);
                    },
                    InputField::Remember => {},
                }
                None
            },
        }
    }

    /// Handles a key press on the sign-in screen.
    pub fn handle_event(&mut self, key: KeyPress) -> (r: Option<LoginAction>)
        ensures
            (final(self)@, login_request_of(r)) == after_login_key(old(self)@, key),
    {
        self.handle_key_event(key)
    }

    pub fn username(&self) -> (s: &str)
        ensures
            s@ == self@.username,
    {
        self.username_input.value()
    }

    pub fn password(&self) -> (s: &str)
        ensures
            s@ == self@.password,
    {
        self.password_input.value()
    }

    /// What the password field shows: one `*` per byte of the password.
    pub fn password_mask(&self) -> (r: String)
        ensures
            r@ == Seq::new((vstd::utf8::encode_utf8(self@.password).len() as usize) as nat, |_i: int| '*'),
    {
        let n = self.password_input.value().len();
        let mut r = String::new();
        let mut i: usize = 0;
        while i < n
            invariant
                i <= n,
                n == vstd::utf8::encode_utf8(self@.password).len() as usize,
                r@ == Seq::new(i as nat, |_i: int| '*'),
            decreases n - i,
        {
            r.append("*");
            proof {
                reveal_strlit("*");
            }
            assert(r@ =~= Seq::new((i + 1) as nat, |_i: int| '*'));
            i += 1;
        }
        r
    }

    pub fn username_cursor(&self) -> (c: usize)
        ensures
            c == self@.username_cursor,
    {
        self.username_input.cursor
    }

    pub fn password_cursor(&self) -> (c: usize)
        ensures
            c == self@.password_cursor,
    {
        self.password_input.cursor
    }

    pub fn current_field(&self) -> (f: InputField)
        ensures
            f == self@.field,
    {
        self.current_field
    }

    pub fn remember(&self) -> (b: bool)
        ensures
            b == self@.remember,
    {
        self.remember
    }
}

} // verus!
