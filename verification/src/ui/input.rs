//! Key presses and editable text fields.
use vstd::prelude::*;
use crate::text::{chars_of, owned};
use ratatui::crossterm::event as ct;
use tui_input::backend::crossterm::EventHandler;

verus! {

/// The key of a key press.
#[derive(Debug, Clone, Copy, PartialEq, Eq, Structural)]
pub enum KeyCode {
    Char(char),
    Enter,
    Esc,
    Tab,
    BackTab,
    Up,
    Down,
    Left,
    Right,
    Backspace,
    Delete,
    Home,
    End,
    Other,
}

/// A key press: the key and the modifier bits (shift 1, control 2, alt 4,
/// super 8, hyper 16, meta 32).
#[derive(Debug, Clone, Copy, PartialEq, Eq, Structural)]
pub struct Key {
    pub code: KeyCode,
    pub modifiers: u8,
}

/// Whether the control modifier is held.
pub open spec fn ctrl_held(k: Key) -> bool {
    k.modifiers & 2 != 0
}

impl Key {
    /// A key press without modifiers.
    pub fn plain(code: KeyCode) -> (k: Key)
        ensures
            k.code == code,
            k.modifiers == 0,
    {
        Key { code, modifiers: 0 }
    }

    /// Whether the control modifier is held.
    pub fn ctrl(&self) -> (r: bool)
        ensures
            r == ctrl_held(*self),
    {
        self.modifiers & 2 != 0
    }
}

/// The text and cursor position of a text field after a key press, as the
/// line editor of `tui_input` computes them.
pub uninterp spec fn input_edit(value: Seq<char>, cursor: usize, key: Key) -> (Seq<char>, usize);

/// `tui_input::Input::handle_event`: the line editor applied to one key
/// press. Only that the result is the editor's function of the text, the
/// cursor and the key is stated.
#[verifier::external_body]
pub fn edit_text(value: &str, cursor: usize, key: Key) -> (r: (String, usize))
    ensures
        (r.0@, r.1) == input_edit(value@, cursor, key),
{
    let code = match key.code {
        KeyCode::Char(c) => ct::KeyCode::Char(c),
        KeyCode::Backspace => ct::KeyCode::Backspace,
        KeyCode::Delete => ct::KeyCode::Delete,
        KeyCode::Left => ct::KeyCode::Left,
        KeyCode::Right => ct::KeyCode::Right,
        KeyCode::Home => ct::KeyCode::Home,
        KeyCode::End => ct::KeyCode::End,
        _ => ct::KeyCode::Null,
    };
    let event = ct::Event::Key(ct::KeyEvent::new(code, ct::KeyModifiers::from_bits_truncate(key.modifiers)));
    let mut input = tui_input::Input::new(value.to_string()).with_cursor(cursor);
    input.handle_event(&event);
    (input.value().to_string(), input.cursor())
}

/// An editable one-line text field: its text and the cursor position in
/// characters.
pub struct TextField {
    pub value: String,
    pub cursor: usize,
}

impl TextField {
    /// An empty field.
    pub fn empty() -> (f: TextField)
        ensures
            f.value@.len() == 0,
            f.cursor == 0,
    {
        TextField { value: String::new(), cursor: 0 }
    }

    /// A field holding `value`, with the cursor after its last character.
    pub fn with_value(value: String) -> (f: TextField)
        ensures
            f.value == value,
            f.cursor == value@.len(),
    {
        let n = chars_of(value.as_str()).len();
        TextField { value, cursor: n }
    }

    /// The text of the field.
    pub fn value(&self) -> (r: &str)
        ensures
            r@ == self.value@,
    {
        self.value.as_str()
    }

    /// Empties the field.
    pub fn reset(&mut self)
        ensures
            final(self).value@.len() == 0,
            final(self).cursor == 0,
    {
        self.value = String::new();
        self.cursor = 0;
    }

    /// Applies a key press to the field.
    pub fn handle_key(&mut self, key: Key)
        ensures
            (final(self).value@, final(self).cursor) == input_edit(old(self).value@, old(self).cursor, key),
    {
        let (v, c) = edit_text(self.value.as_str(), self.cursor, key);
        self.value = v;
        self.cursor = c;
    }

    /// A copy of the field.
    pub fn duplicate(&self) -> (f: TextField)
        ensures
            f.value@ == self.value@,
            f.cursor == self.cursor,
    {
        TextField { value: owned(self.value.as_str()), cursor: self.cursor }
    }
}

} // verus!
