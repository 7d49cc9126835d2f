//! The keyboard command surface: which pressed key, under which modifier
//! state, and whether a text field already captured the press, maps to
//! which command.

use vstd::prelude::*;
use crate::browser::BrowserEvent;
use crate::menu::{MenuEvent, Mode};
use crate::Event;

verus! {

/// The keys the application reacts to; everything else is `Other`.
#[derive(Clone, Copy, Debug, PartialEq, Eq, Structural)]
pub enum Key {
    P,
    R,
    S,
    Q,
    L,
    F,
    Delete,
    Backspace,
    Key1,
    Key2,
    Key3,
    Other,
}

/// The modifier state at the press.
#[derive(Clone, Copy, Debug, PartialEq, Eq, Structural)]
pub struct Modifiers {
    pub ctrl: bool,
    pub alt: bool,
    pub shift: bool,
    pub logo: bool,
}

impl Modifiers {
    /// No modifier held.
    pub open spec fn spec_is_empty(self) -> bool {
        !self.ctrl && !self.alt && !self.shift && !self.logo
    }

    /// Exactly control held.
    pub open spec fn only_ctrl(self) -> bool {
        self.ctrl && !self.alt && !self.shift && !self.logo
    }

    /// Exactly alt held.
    pub open spec fn only_alt(self) -> bool {
        !self.ctrl && self.alt && !self.shift && !self.logo
    }
}

/// The plain command shortcuts: preview, reset, save, delete, quit, the
/// two focus moves, and directory-up.
pub open spec fn basic_command(k: Key) -> Option<Event> {
    match k {
        Key::P => Some(Event::Menu(MenuEvent::Preview)),
        Key::R => Some(Event::Menu(MenuEvent::Reset)),
        Key::S => Some(Event::Menu(MenuEvent::Save)),
        Key::Delete => Some(Event::Browser(BrowserEvent::DelSelected)),
        Key::Q => Some(Event::Quit),
        Key::L => Some(Event::Browser(BrowserEvent::FocusAddrBar)),
        Key::F => Some(Event::Menu(MenuEvent::FocusFileName)),
        Key::Backspace => Some(Event::Browser(BrowserEvent::DirUp)),
        _ => None,
    }
}

/// The three mode-select shortcuts.
pub open spec fn mode_command(k: Key) -> Option<Event> {
    match k {
        Key::Key1 => Some(Event::Menu(MenuEvent::SelectMode(Mode::Default))),
        Key::Key2 => Some(Event::Menu(MenuEvent::SelectMode(Mode::Creative))),
        Key::Key3 => Some(Event::Menu(MenuEvent::SelectMode(Mode::Knn))),
        _ => None,
    }
}

/// The whole mapping: with no modifier and the press not captured by a
/// text field, plain shortcuts win over mode shortcuts; with exactly
/// control the plain shortcuts apply, with exactly alt the mode
/// shortcuts; any other modifier state is ignored.
pub open spec fn key_command(k: Key, m: Modifiers, captured: bool) -> Option<Event> {
    if m.spec_is_empty() && !captured {
        match basic_command(k) {
            Some(e) => Some(e),
            None => mode_command(k),
        }
    } else if m.only_ctrl() {
        basic_command(k)
    } else if m.only_alt() {
        mode_command(k)
    } else {
        None
    }
}

/// Turns one key press into a command, exactly as `key_command` says.
pub fn keyboard_event_handler(key: Key, modifiers: Modifiers, captured: bool) -> (r: Option<Event>)
    ensures
        r == key_command(key, modifiers, captured),
{
    let empty = !modifiers.ctrl && !modifiers.alt && !modifiers.shift && !modifiers.logo;
    if empty && !captured {
        match basic_of(key) {
            Some(e) => Some(e),
            None => mode_of(key),
        }
    } else if modifiers.ctrl && !modifiers.alt && !modifiers.shift && !modifiers.logo {
        basic_of(key)
    } else if !modifiers.ctrl && modifiers.alt && !modifiers.shift && !modifiers.logo {
        mode_of(key)
    } else {
        None
    }
}

/// The plain shortcuts, executably.
fn basic_of(k: Key) -> (r: Option<Event>)
    ensures
        r == basic_command(k),
{
    match k {
        Key::P => Some(Event::Menu(MenuEvent::Preview)),
        Key::R => Some(Event::Menu(MenuEvent::Reset)),
        Key::S => Some(Event::Menu(MenuEvent::Save)),
        Key::Delete => Some(Event::Browser(BrowserEvent::DelSelected)),
        Key::Q => Some(Event::Quit),
        Key::L => Some(Event::Browser(BrowserEvent::FocusAddrBar)),
        Key::F => Some(Event::Menu(MenuEvent::FocusFileName)),
        Key::Backspace => Some(Event::Browser(BrowserEvent::DirUp)),
        _ => None,
    }
}

/// The mode shortcuts, executably.
fn mode_of(k: Key) -> (r: Option<Event>)
    ensures
        r == mode_command(k),
{
    match k {
        Key::Key1 => Some(Event::Menu(MenuEvent::SelectMode(Mode::Default))),
        Key::Key2 => Some(Event::Menu(MenuEvent::SelectMode(Mode::Creative))),
        Key::Key3 => Some(Event::Menu(MenuEvent::SelectMode(Mode::Knn))),
        _ => None,
    }
}

} // verus!
