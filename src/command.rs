//! The command interpreter's table: from a key, the modifiers held with it and
//! the character it produced, to the one command it stands for.
use vstd::prelude::*;

verus! {

/// The keys that the interpreter tells apart; every other key is `Other`.
#[derive(Clone, Copy, Debug, PartialEq, Eq, Structural)]
pub enum Key {
    Enter,
    Tab,
    Backspace,
    Delete,
    Left,
    Right,
    Up,
    Down,
    N,
    O,
    S,
    V,
    Other,
}

/// The modifier keys held down while a key is pressed.
#[derive(Clone, Copy, Debug, PartialEq, Eq, Structural)]
pub struct Modifiers {
    pub ctrl: bool,
    pub shift: bool,
    pub alt: bool,
}

impl Modifiers {
    pub fn new(ctrl: bool, shift: bool, alt: bool) -> (r: Modifiers)
        ensures
            r == (Modifiers { ctrl, shift, alt }),
    {
        Modifiers { ctrl, shift, alt }
    }

    /// No modifier held.
    pub fn none() -> (r: Modifiers)
        ensures
            r == (Modifiers { ctrl: false, shift: false, alt: false }),
    {
        Modifiers { ctrl: false, shift: false, alt: false }
    }
}

/// Work that the editor asks its surroundings to do: it does no file or
/// clipboard I/O itself.
#[derive(Clone, Copy, Debug, PartialEq, Eq, Structural)]
pub enum Action {
    NewFile,
    OpenFile,
    Save,
    SaveAs,
    Paste,
}

/// One edit, caret motion or delegated action.
#[derive(Clone, Copy, Debug, PartialEq, Eq, Structural)]
pub enum Command {
    /// Put a character in at the caret and step over it.
    Insert(char),
    /// Remove the character before the caret.
    Backspace,
    /// Remove the character under the caret.
    Delete,
    /// Remove the word before the caret and the non-word characters after it.
    DeleteWordLeft,
    /// Remove the non-word characters and the word after the caret.
    DeleteWordRight,
    Left,
    Right,
    WordLeft,
    WordRight,
    Up,
    Down,
    DocumentStart,
    DocumentEnd,
    LineStart,
    LineEnd,
    /// Remove a tab at the start of the caret's line.
    Unindent,
    Delegate(Action),
    Nothing,
}

/// Whether `c` has Unicode's Alphabetic property, as `char::is_alphabetic` reports.
pub uninterp spec fn alphabetic(c: char) -> bool;

/// Relies on `char::is_alphabetic`: whether `c` has Unicode's Alphabetic
/// property, which depends on `c` alone.
#[verifier::external_body]
pub(crate) fn is_alphabetic(c: char) -> (r: bool)
    ensures
        r == alphabetic(c),
{
    c.is_alphabetic()
}

/// An ASCII character.
pub open spec fn ascii(c: char) -> bool {
    (c as u32) < 128
}

/// A character that typing may put in: ASCII, or alphabetic.
pub open spec fn typeable(c: char) -> bool {
    ascii(c) || alphabetic(c)
}

pub fn is_typeable(c: char) -> (r: bool)
    ensures
        r == typeable(c),
{
    (c as u32) < 128 || is_alphabetic(c)
}

/// The command table. Rules with more modifiers come first: Ctrl+Shift, then
/// Ctrl, then Shift, then Alt, then the bare keys; a produced character is
/// typed only where no key rule applies and Ctrl is not held.
pub open spec fn command_of(key: Key, mods: Modifiers, chr: Option<char>) -> Command {
    if mods.ctrl && mods.shift && key == Key::S {
        Command::Delegate(Action::SaveAs)
    } else if mods.ctrl && key == Key::N {
        Command::Delegate(Action::NewFile)
    } else if mods.ctrl && key == Key::O {
        Command::Delegate(Action::OpenFile)
    } else if mods.ctrl && key == Key::S {
        Command::Delegate(Action::Save)
    } else if mods.ctrl && key == Key::V {
        Command::Delegate(Action::Paste)
    } else if mods.ctrl && key == Key::Backspace {
        Command::DeleteWordLeft
    } else if mods.ctrl && key == Key::Delete {
        Command::DeleteWordRight
    } else if mods.ctrl && key == Key::Up {
        Command::DocumentStart
    } else if mods.ctrl && key == Key::Down {
        Command::DocumentEnd
    } else if mods.ctrl && key == Key::Right {
        Command::WordRight
    } else if mods.ctrl && key == Key::Left {
        Command::WordLeft
    } else if mods.shift && key == Key::Tab {
        Command::Unindent
    } else if mods.alt && key == Key::Right {
        Command::LineEnd
    } else if mods.alt && key == Key::Left {
        Command::LineStart
    } else {
        match key {
            Key::Enter => Command::Insert('\n'),
            Key::Tab => Command::Insert('\t'),
            Key::Backspace => Command::Backspace,
            Key::Delete => Command::Delete,
            Key::Up => Command::Up,
            Key::Down => Command::Down,
            Key::Right => Command::Right,
            Key::Left => Command::Left,
            _ => match chr {
                Some(c) => if !mods.ctrl && typeable(c) {
                    Command::Insert(c)
                } else {
                    Command::Nothing
                },
                None => Command::Nothing,
            },
        }
    }
}

/// The command that `key`, pressed with `mods` and producing `chr`, stands for.
pub fn command_for(key: Key, mods: Modifiers, chr: Option<char>) -> (r: Command)
    ensures
        r == command_of(key, mods, chr),
{
    if mods.ctrl && mods.shift && key == Key::S {
        return Command::Delegate(Action::SaveAs);
    }
    if mods.ctrl {
        match key {
            Key::N => { return Command::Delegate(Action::NewFile); },
            Key::O => { return Command::Delegate(Action::OpenFile); },
            Key::S => { return Command::Delegate(Action::Save); },
            Key::V => { return Command::Delegate(Action::Paste); },
            Key::Backspace => { return Command::DeleteWordLeft; },
            Key::Delete => { return Command::DeleteWordRight; },
            Key::Up => { return Command::DocumentStart; },
            Key::Down => { return Command::DocumentEnd; },
            Key::Right => { return Command::WordRight; },
            Key::Left => { return Command::WordLeft; },
            _ => {},
        }
    }
    if mods.shift && key == Key::Tab {
        return Command::Unindent;
    }
    if mods.alt {
        match key {
            Key::Right => { return Command::LineEnd; },
            Key::Left => { return Command::LineStart; },
            _ => {},
        }
    }
    match key {
        Key::Enter => Command::Insert('\n'),
        Key::Tab => Command::Insert('\t'),
        Key::Backspace => Command::Backspace,
        Key::Delete => Command::Delete,
        Key::Up => Command::Up,
        Key::Down => Command::Down,
        Key::Right => Command::Right,
        Key::Left => Command::Left,
        _ => match chr {
            Some(c) => if !mods.ctrl && is_typeable(c) {
                Command::Insert(c)
            } else {
                Command::Nothing
            },
            None => Command::Nothing,
        },
    }
}

} // verus!
