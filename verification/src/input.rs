//! Key presses as the library reads them, and single-line text fields.

use crossterm::event::{Event as TermEvent, KeyCode as TermKeyCode, KeyEvent as TermKeyEvent, KeyModifiers as TermModifiers};
use tui_input::backend::crossterm::EventHandler;
use tui_input::Input;
use vstd::prelude::*;

verus! {

/// The key of a key press.
#[derive(PartialEq, Eq, Structural, Clone, Copy, Debug)]
pub enum KeyCode {
    Char(char),
    Enter,
    Esc,
    Tab,
    BackTab,
    Backspace,
    Delete,
    Left,
    Right,
    Up,
    Down,
    Home,
    End,
    /// Any other key; no screen reacts to it.
    Other,
}

/// Bit of `KeyPress::modifiers` set while Shift is held.
pub const SHIFT: u8 = 1;

/// Bit of `KeyPress::modifiers` set while Control is held.
pub const CONTROL: u8 = 2;

/// Bit of `KeyPress::modifiers` set while Alt is held.
pub const ALT: u8 = 4;

/// A key press with the modifier keys held during it, one bit per
/// modifier (`SHIFT`, `CONTROL`, `ALT`, and the terminal's further bits).
#[derive(PartialEq, Eq, Structural, Clone, Copy, Debug)]
pub struct KeyPress {
    pub code: KeyCode,
    pub modifiers: u8,
}

impl KeyPress {
    /// A press of `code` with no modifier held.
    pub fn plain(code: KeyCode) -> (k: KeyPress)
        ensures
            k.code == code,
            k.modifiers == 0,
    {
        KeyPress { code, modifiers: 0 }
    }

    /// Whether Control was held.
    pub open spec fn spec_ctrl(self) -> bool {
        self.modifiers & CONTROL != 0
    }

    #[verifier::when_used_as_spec(spec_ctrl)]
    pub fn ctrl(self) -> (b: bool)
        ensures
            b == self.spec_ctrl(),
    {
        self.modifiers & CONTROL != 0
    }
}

/// The value and cursor of a text field after the text-input widget has
/// handled a key press in it, from the value and cursor before.
pub uninterp spec fn edited_text(value: Seq<char>, cursor: usize, key: KeyPress) -> (Seq<char>, usize);

/// Lets `tui_input::Input::handle_event` edit a text value with one key
/// press. Trusted: the result is the widget's, named `edited_text` of the
/// value, the cursor and the key; nothing further is claimed of it.
#[verifier::external_body]
fn edit_with_widget(value: &String, cursor: usize, key: KeyPress) -> (r: (String, usize))
    ensures
        (r.0@, r.1) == edited_text(value@, cursor, key),
{
    let code = match key.code {
        KeyCode::Char(c) => TermKeyCode::Char(c),
        KeyCode::Backspace => TermKeyCode::Backspace,
        KeyCode::Delete => TermKeyCode::Delete,
        KeyCode::Left => TermKeyCode::Left,
        KeyCode::Right => TermKeyCode::Right,
        KeyCode::Home => TermKeyCode::Home,
        KeyCode::End => TermKeyCode::End,
        _ => TermKeyCode::Null,
    };
    let event = TermEvent::Key(TermKeyEvent::new(code, TermModifiers::from_bits_truncate(key.modifiers)));
    let mut input = Input::new(value.clone()).with_cursor(cursor);
    input.handle_event(&event);
    (input.value().to_string(), input.cursor())
}

/// A single-line text field: its value and the cursor position in
/// characters.
#[derive(Debug)]
pub struct TextField {
    pub value: String,
    pub cursor: usize,
}

impl TextField {
    /// A field holding `value`, with the cursor after its last character.
    pub fn new(value: String) -> (f: TextField)
        ensures
            f.value@ == value@,
            f.cursor == value@.len(),
    {
        let n = value.as_str().unicode_len();
        TextField { value, cursor: n }
    }

    /// An empty field.
    pub fn empty() -> (f: TextField)
        ensures
            f.value@ == Seq::<char>::empty(),
            f.cursor == 0,
    {
        TextField { value: String::new(), cursor: 0 }
    }

    /// Lets the key press edit the field.
    pub fn handle_key(&mut self, key: KeyPress)
        ensures
            (final(self).value@, final(self).cursor) == edited_text(old(self).value@, old(self).cursor, key),
    {
        let (value, cursor) = edit_with_widget(&self.value, self.cursor, key);
        self.value = value;
        self.cursor = cursor;
    }

    pub fn value(&self) -> (s: &str)
        ensures
            s@ == self.value@,
    {
        self.value.as_str()
    }
}

} // verus!
