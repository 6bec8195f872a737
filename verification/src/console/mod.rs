//! Terminal input types and table drawing characters.

use vstd::prelude::*;
use crate::strings::str_eq;

pub mod charset;
pub mod output;

verus! {

/// Color themes.
#[derive(Clone, Copy, Debug, PartialEq, Eq, Structural)]
pub enum BuiltinTheme {
    Light,
    Dark,
    Light16,
    Dark16,
}

/// Name of a theme on the command line.
pub open spec fn theme_name(t: BuiltinTheme) -> Seq<char> {
    match t {
        BuiltinTheme::Light => "light"@,
        BuiltinTheme::Dark => "dark"@,
        BuiltinTheme::Light16 => "light16"@,
        BuiltinTheme::Dark16 => "dark16"@,
    }
}

impl BuiltinTheme {
    /// Theme from its name.
    pub fn from_str(s: &str) -> (r: Result<BuiltinTheme, ()>)
        ensures
            r matches Ok(t) ==> theme_name(t) == s@,
            r is Err <==> (forall|t: BuiltinTheme| theme_name(t) != s@),
    {
        if str_eq(s, "light") {
            assert(theme_name(BuiltinTheme::Light) == s@);
            Ok(BuiltinTheme::Light)
        } else if str_eq(s, "dark") {
            assert(theme_name(BuiltinTheme::Dark) == s@);
            Ok(BuiltinTheme::Dark)
        } else if str_eq(s, "light16") {
            assert(theme_name(BuiltinTheme::Light16) == s@);
            Ok(BuiltinTheme::Light16)
        } else if str_eq(s, "dark16") {
            assert(theme_name(BuiltinTheme::Dark16) == s@);
            Ok(BuiltinTheme::Dark16)
        } else {
            assert forall|t: BuiltinTheme| theme_name(t) != s@ by {
                match t {
                    BuiltinTheme::Light => {},
                    BuiltinTheme::Dark => {},
                    BuiltinTheme::Light16 => {},
                    BuiltinTheme::Dark16 => {},
                }
            }
            Err(())
        }
    }
}

/// A key pressed on the terminal.
#[derive(Clone, Copy, Debug, PartialEq, Eq, Hash, Structural)]
pub enum Key {
    Backspace,
    Left,
    ShiftLeft,
    AltLeft,
    CtrlLeft,
    Right,
    ShiftRight,
    AltRight,
    CtrlRight,
    Up,
    ShiftUp,
    AltUp,
    CtrlUp,
    Down,
    ShiftDown,
    AltDown,
    CtrlDown,
    Home,
    CtrlHome,
    End,
    CtrlEnd,
    PageUp,
    PageDown,
    BackTab,
    Delete,
    Insert,
    /// Function keys.
    F(u8),
    /// Normal character.
    Char(char),
    /// Alt modified character.
    Alt(char),
    /// Ctrl modified character.
    Ctrl(char),
    /// Null byte.
    Null,
    /// Esc key.
    Esc,
}

/// An input event.
#[derive(Clone, Copy, Debug, PartialEq, Eq, Structural)]
pub enum Event {
    /// A key press.
    Key(Key),
    /// Any other event (mouse, unsupported sequences).
    Other,
}

} // verus!
