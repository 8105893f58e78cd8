use vstd::prelude::*;

use crate::styles::units::FloatBits;

verus! {

/// A keyboard key.
#[derive(Debug, Clone, Copy, PartialEq, Eq, Structural)]
pub enum KeyCode {
    ControlLeft,
    ControlRight,
    ShiftLeft,
    ShiftRight,
    AltLeft,
    AltRight,
    SuperLeft,
    SuperRight,
    Tab,
    /// Any other key, by its scan code.
    Other(u32),
}

/// An input event, as delivered by the windowing system.
#[derive(Debug, Clone, Copy, PartialEq, Eq)]
pub enum InputEvent {
    /// The mouse moved to the given position
    MouseMoved((FloatBits, FloatBits)),
    /// The left mouse button was pressed
    MouseLeftPress,
    /// The left mouse button was released
    MouseLeftRelease,
    /// The mouse wheel or track pad scrolled
    Scroll { dx: FloatBits, dy: FloatBits, is_line: bool },
    /// A character was typed
    CharEvent { c: char },
    /// A key was pressed or released
    Keyboard { key: KeyCode, is_pressed: bool },
}

/// The device an input event comes from.
#[derive(Debug, Clone, Copy, PartialEq, Eq, Structural)]
pub enum InputEventCategory {
    Mouse,
    Keyboard,
}

/// The category of an input event.
pub open spec fn category_of(e: InputEvent) -> InputEventCategory {
    match e {
        InputEvent::CharEvent { .. } | InputEvent::Keyboard { .. } => InputEventCategory::Keyboard,
        _ => InputEventCategory::Mouse,
    }
}

impl InputEvent {
    /// The device this event comes from.
    pub fn category(&self) -> (r: InputEventCategory)
        ensures
            r == category_of(*self),
    {
        match self {
            InputEvent::CharEvent { .. } | InputEvent::Keyboard { .. } => InputEventCategory::Keyboard,
            _ => InputEventCategory::Mouse,
        }
    }
}

} // verus!
