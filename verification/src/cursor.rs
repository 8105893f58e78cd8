use vstd::prelude::*;

use crate::styles::units::FloatBits;

verus! {

/// Controls how the cursor interacts on a given node
#[derive(Debug, Copy, Clone, PartialEq, Eq, Structural)]
pub enum PointerEvents {
    /// Allow all pointer events on this node and its children
    All,
    /// Allow pointer events on this node but not on its children
    SelfOnly,
    /// Allow pointer events on this node's children but not on itself
    ChildrenOnly,
    /// Disallow all pointer events on this node and its children
    Blocked,
}

impl Default for PointerEvents {
    fn default() -> (r: Self)
        ensures
            r == PointerEvents::All,
    {
        PointerEvents::All
    }
}

/// The state of the mouse at a mouse event.
#[derive(Debug, Default, Copy, Clone, PartialEq, Eq)]
pub struct CursorEvent {
    pub pressed: bool,
    pub just_pressed: bool,
    pub just_released: bool,
    pub position: (FloatBits, FloatBits),
}

/// A unit of scrolling.
#[derive(Debug, Copy, Clone, PartialEq, Eq, Structural)]
pub enum ScrollUnit {
    /// A scroll unit that goes by a "line of text"
    Line { x: FloatBits, y: FloatBits },
    /// A scroll unit that goes by individual pixels
    Pixel { x: FloatBits, y: FloatBits },
}

impl Default for ScrollUnit {
    fn default() -> (r: Self)
        ensures
            r == (ScrollUnit::Pixel { x: FloatBits(0), y: FloatBits(0) }),
    {
        ScrollUnit::Pixel { x: FloatBits(0), y: FloatBits(0) }
    }
}

/// An event created on scroll
#[derive(Debug, Default, Copy, Clone, PartialEq, Eq, Structural)]
pub struct ScrollEvent {
    /// The amount scrolled
    pub delta: ScrollUnit,
}

} // verus!
