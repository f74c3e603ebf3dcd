//! The events that drive the browser: keys, changed files, resizes.
use vstd::prelude::*;
use vstd::string::*;

verus! {

/// A key press.
#[derive(Debug, Clone, Copy, PartialEq, Eq, Structural)]
pub enum Key {
    Enter,
    Escape,
    Backspace,
    Up,
    Down,
    Ctrl(char),
    Char(char),
    Unknown,
}

/// Relies on `ToString` for `char`: a character is written as itself.
#[verifier::external_body]
pub(crate) fn char_string(c: char) -> (r: String)
    ensures
        r@ == seq![c],
{
    c.to_string()
}

/// The name of a key inside `Key(...)`.
pub open spec fn key_name(k: Key) -> Seq<char> {
    match k {
        Key::Enter => "Enter"@,
        Key::Escape => "Escape"@,
        Key::Backspace => "Backspace"@,
        Key::Up => "Up"@,
        Key::Down => "Down"@,
        Key::Char(c) => seq![c],
        Key::Ctrl(c) => "Ctrl+"@ + seq![c],
        Key::Unknown => "unknown"@,
    }
}

impl Key {
    /// The key as `Key(name)`.
    pub fn to_string(&self) -> (s: String)
        ensures
            s@ == "Key("@ + key_name(*self) + ")"@,
    {
        let name = match self {
            Key::Enter => String::from_str("Enter"),
            Key::Escape => String::from_str("Escape"),
            Key::Backspace => String::from_str("Backspace"),
            Key::Up => String::from_str("Up"),
            Key::Down => String::from_str("Down"),
            Key::Char(c) => char_string(*c),
            Key::Ctrl(c) => String::from_str("Ctrl+").concat(char_string(*c).as_str()),
            Key::Unknown => String::from_str("unknown"),
        };
        let s = String::from_str("Key(").concat(name.as_str());
        s.concat(")")
    }
}

/// What the browser reacts to.
#[derive(Debug)]
pub enum AppEvent {
    Input(Key),
    FilesChanged(Vec<String>),
    Resize,
}

} // verus!
