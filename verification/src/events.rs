//! Key decoding: a decoded terminal key press becomes one logical action.
//! Reading raw events from the terminal is the surrounding program's job;
//! it hands each press over as plain values.
use vstd::prelude::*;

verus! {

/// A key press as the terminal layer reports it.
#[derive(Debug, Clone, Copy, PartialEq, Eq)]
pub enum KeyPress {
    Up,
    Down,
    Enter,
    Esc,
    Backspace,
    Delete,
    Home,
    End,
    Left,
    Right,
    Char(char),
    Other,
}

/// The modifier keys held with a press.
#[derive(Debug, Clone, Copy, PartialEq, Eq)]
pub struct KeyMods {
    pub ctrl: bool,
    pub alt: bool,
    pub shift: bool,
}

pub open spec fn mods_empty(m: KeyMods) -> bool {
    !m.ctrl && !m.alt && !m.shift
}

/// The logical actions the interface reacts to.
#[derive(Debug, Clone, PartialEq)]
pub enum KeyAction {
    Up,
    Down,
    Select,
    Back,
    Quit,
    Char(char),
    Backspace,
    Delete,
    Home,
    End,
    Left,
    Right,
    NoAction,
}

/// The menu-mode key table: `Ctrl-C` and bare `q` quit, bare `j`/`k` move
/// like the arrows, arrows move only without modifiers, and any other
/// character is handed through.
pub open spec fn key_to_action_spec(key: KeyPress, mods: KeyMods) -> KeyAction {
    if mods.ctrl && (key matches KeyPress::Char(c) && c == 'c') {
        KeyAction::Quit
    } else if key is Up && mods_empty(mods) {
        KeyAction::Up
    } else if (key matches KeyPress::Char(c) && c == 'k') && mods_empty(mods) {
        KeyAction::Up
    } else if key is Down && mods_empty(mods) {
        KeyAction::Down
    } else if (key matches KeyPress::Char(c) && c == 'j') && mods_empty(mods) {
        KeyAction::Down
    } else if key is Enter {
        KeyAction::Select
    } else if key is Esc {
        KeyAction::Back
    } else if (key matches KeyPress::Char(c) && c == 'q') && mods_empty(mods) {
        KeyAction::Quit
    } else {
        match key {
            KeyPress::Char(c) => KeyAction::Char(c),
            KeyPress::Backspace => KeyAction::Backspace,
            KeyPress::Delete => KeyAction::Delete,
            KeyPress::Home => KeyAction::Home,
            KeyPress::End => KeyAction::End,
            KeyPress::Left => KeyAction::Left,
            KeyPress::Right => KeyAction::Right,
            _ => KeyAction::NoAction,
        }
    }
}

pub fn key_to_action(key: KeyPress, mods: KeyMods) -> (r: KeyAction)
    ensures
        r == key_to_action_spec(key, mods),
{
    let empty = !mods.ctrl && !mods.alt && !mods.shift;
    if mods.ctrl {
        if let KeyPress::Char(c) = key {
            if c == 'c' {
                return KeyAction::Quit;
            }
        }
    }
    match key {
        KeyPress::Up => if empty {
            KeyAction::Up
        } else {
            KeyAction::NoAction
        },
        KeyPress::Down => if empty {
            KeyAction::Down
        } else {
            KeyAction::NoAction
        },
        KeyPress::Enter => KeyAction::Select,
        KeyPress::Esc => KeyAction::Back,
        KeyPress::Char(c) => {
            if empty && c == 'k' {
                KeyAction::Up
            } else if empty && c == 'j' {
                KeyAction::Down
            } else if empty && c == 'q' {
                KeyAction::Quit
            } else {
                KeyAction::Char(c)
            }
        },
        KeyPress::Backspace => KeyAction::Backspace,
        KeyPress::Delete => KeyAction::Delete,
        KeyPress::Home => KeyAction::Home,
        KeyPress::End => KeyAction::End,
        KeyPress::Left => KeyAction::Left,
        KeyPress::Right => KeyAction::Right,
        KeyPress::Other => KeyAction::NoAction,
    }
}

/// The text-input key table: more permissive — characters always insert,
/// arrows always move — with only `Ctrl-C` quitting.
pub open spec fn key_to_input_action_spec(key: KeyPress, mods: KeyMods) -> KeyAction {
    if mods.ctrl && (key matches KeyPress::Char(c) && c == 'c') {
        KeyAction::Quit
    } else {
        match key {
            KeyPress::Enter => KeyAction::Select,
            KeyPress::Esc => KeyAction::Back,
            KeyPress::Char(c) => KeyAction::Char(c),
            KeyPress::Backspace => KeyAction::Backspace,
            KeyPress::Delete => KeyAction::Delete,
            KeyPress::Home => KeyAction::Home,
            KeyPress::End => KeyAction::End,
            KeyPress::Left => KeyAction::Left,
            KeyPress::Right => KeyAction::Right,
            KeyPress::Up => KeyAction::Up,
            KeyPress::Down => KeyAction::Down,
            KeyPress::Other => KeyAction::NoAction,
        }
    }
}

pub fn key_to_input_action(key: KeyPress, mods: KeyMods) -> (r: KeyAction)
    ensures
        r == key_to_input_action_spec(key, mods),
{
    if mods.ctrl {
        if let KeyPress::Char(c) = key {
            if c == 'c' {
                return KeyAction::Quit;
            }
        }
    }
    match key {
        KeyPress::Enter => KeyAction::Select,
        KeyPress::Esc => KeyAction::Back,
        KeyPress::Char(c) => KeyAction::Char(c),
        KeyPress::Backspace => KeyAction::Backspace,
        KeyPress::Delete => KeyAction::Delete,
        KeyPress::Home => KeyAction::Home,
        KeyPress::End => KeyAction::End,
        KeyPress::Left => KeyAction::Left,
        KeyPress::Right => KeyAction::Right,
        KeyPress::Up => KeyAction::Up,
        KeyPress::Down => KeyAction::Down,
        KeyPress::Other => KeyAction::NoAction,
    }
}

/// Ticks the poll loop at a fixed interval while waiting for key presses.
/// The waiting itself happens outside; this only carries the interval.
pub struct EventHandler {
    pub tick_rate_ms: u64,
}

impl EventHandler {
    pub fn new(tick_rate_ms: u64) -> (r: EventHandler)
        ensures
            r.tick_rate_ms == tick_rate_ms,
    {
        EventHandler { tick_rate_ms }
    }
}

} // verus!
