//! Keyboard shortcuts.

use crate::controller::Event;
use crate::machine::EventView;
use vstd::prelude::*;

verus! {

/// A key, as far as the shortcuts tell keys apart.
#[derive(Clone, Copy, Debug, PartialEq, Eq, Structural)]
pub enum Key {
    /// A key that produces this character.
    Character(char),
    F11,
    Other,
}

/// The modifier keys that are held down.
#[derive(Clone, Copy, Debug, PartialEq, Eq, Structural)]
pub struct Modifiers {
    pub control: bool,
    pub shift: bool,
    pub alt: bool,
    pub logo: bool,
}

impl Modifiers {
    /// No modifier key is held down.
    pub open spec fn none(self) -> bool {
        !self.control && !self.shift && !self.alt && !self.logo
    }
}

/// The event that a key press stands for, if any: `q` or `w` with control
/// held down asks for the viewer to close, and F11 with no modifier held
/// down toggles full screen.
pub open spec fn shortcut_of(key: Key, modifiers: Modifiers) -> Option<EventView> {
    if modifiers.control {
        if key == Key::Character('q') || key == Key::Character('w') {
            Some(EventView::CloseRequested)
        } else {
            None
        }
    } else if modifiers.none() && key == Key::F11 {
        Some(EventView::FullscreenToggled)
    } else {
        None
    }
}

/// Maps a key press to the event it stands for.
pub fn shortcut(key: Key, modifiers: Modifiers) -> (event: Option<Event>)
    ensures
        match event {
            Some(e) => shortcut_of(key, modifiers) == Some(e@),
            None => shortcut_of(key, modifiers) is None,
        },
{
    if modifiers.control {
        match key {
            Key::Character(c) => if c == 'q' || c == 'w' {
                Some(Event::CloseRequested)
            } else {
                None
            },
            _ => None,
        }
    } else if !modifiers.shift && !modifiers.alt && !modifiers.logo {
        match key {
            Key::F11 => Some(Event::FullscreenToggled),
            _ => None,
        }
    } else {
        None
    }
}

} // verus!
