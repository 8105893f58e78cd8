use vstd::prelude::*;

verus! {

/// A 32-bit floating-point value held as its IEEE-754 bit pattern.
///
/// Style values carry such numbers through unchanged; the library stores and copies them
/// but does no arithmetic on them.
#[derive(Debug, Clone, Copy, PartialEq, Eq, Hash, Structural)]
pub struct FloatBits(pub u32);

impl Default for FloatBits {
    /// The bit pattern of 0.0.
    fn default() -> (r: Self)
        ensures
            r == FloatBits(0),
    {
        FloatBits(0)
    }
}

/// The bit pattern of the floating-point value 1.0.
pub const ONE_BITS: u32 = 0x3f80_0000u32;

/// The layout type determines how nodes will be positioned when directed by the parent
#[derive(Debug, Clone, Copy, PartialEq, Eq, Structural)]
pub enum LayoutType {
    /// Stack child elements horizontally
    Row,
    /// Stack child elements vertically
    Column,
    /// Position child elements into specified rows and columns
    Grid,
}

impl Default for LayoutType {
    fn default() -> (r: Self)
        ensures
            r == LayoutType::Column,
    {
        LayoutType::Column
    }
}

/// The position type determines whether a node will be positioned in-line with its siblings or seperate
#[derive(Debug, Clone, Copy, PartialEq, Eq, Structural)]
pub enum KPositionType {
    /// Node is positioned relative to parent but ignores its siblings
    SelfDirected,
    /// Node is positioned relative to parent and in-line with siblings
    ParentDirected,
}

impl Default for KPositionType {
    fn default() -> (r: Self)
        ensures
            r == KPositionType::ParentDirected,
    {
        KPositionType::ParentDirected
    }
}

/// Units which describe spacing and size
#[derive(Debug, Clone, Copy, PartialEq, Eq, Structural)]
pub enum Units {
    /// A number of pixels
    Pixels(FloatBits),
    /// A percentage of the parent dimension
    Percentage(FloatBits),
    /// A factor of the remaining free space
    Stretch(FloatBits),
    /// Automatically determine the value
    Auto,
}

impl Default for Units {
    fn default() -> (r: Self)
        ensures
            r == Units::Auto,
    {
        Units::Auto
    }
}

impl Units {
    /// Returns true if the value is in pixels
    pub fn is_pixels(&self) -> (r: bool)
        ensures
            r == (*self is Pixels),
    {
        matches!(self, Units::Pixels(_))
    }

    /// Returns true if the value is a percentage
    pub fn is_percentage(&self) -> (r: bool)
        ensures
            r == (*self is Percentage),
    {
        matches!(self, Units::Percentage(_))
    }

    /// Returns true if the value is a stretch factor
    pub fn is_stretch(&self) -> (r: bool)
        ensures
            r == (*self is Stretch),
    {
        matches!(self, Units::Stretch(_))
    }

    /// Returns true if the value is auto
    pub fn is_auto(&self) -> (r: bool)
        ensures
            r == (*self is Auto),
    {
        matches!(self, Units::Auto)
    }
}

/// A color given by its red, green, blue and alpha components.
#[derive(Debug, Clone, Copy, PartialEq, Eq, Structural)]
pub struct Color {
    pub red: FloatBits,
    pub green: FloatBits,
    pub blue: FloatBits,
    pub alpha: FloatBits,
}

impl Default for Color {
    /// Opaque white.
    fn default() -> (r: Self)
        ensures
            r == (Color {
                red: FloatBits(ONE_BITS),
                green: FloatBits(ONE_BITS),
                blue: FloatBits(ONE_BITS),
                alpha: FloatBits(ONE_BITS),
            }),
    {
        Color {
            red: FloatBits(ONE_BITS),
            green: FloatBits(ONE_BITS),
            blue: FloatBits(ONE_BITS),
            alpha: FloatBits(ONE_BITS),
        }
    }
}

/// The icon of the mouse cursor.
#[derive(Debug, Clone, Copy, PartialEq, Eq, Structural)]
pub enum CursorIcon {
    Default,
    Crosshair,
    Hand,
    Arrow,
    Move,
    Text,
    Wait,
    Help,
    Progress,
    NotAllowed,
    ContextMenu,
    Cell,
    VerticalText,
    Alias,
    Copy,
    NoDrop,
    Grab,
    Grabbing,
    AllScroll,
    ZoomIn,
    ZoomOut,
    EResize,
    NResize,
    NeResize,
    NwResize,
    SResize,
    SeResize,
    SwResize,
    WResize,
    EwResize,
    NsResize,
    NeswResize,
    NwseResize,
    ColResize,
    RowResize,
}

/// A cursor icon whose default is [`CursorIcon::Default`].
#[derive(Debug, Clone, Copy, PartialEq, Eq, Structural)]
pub struct KCursorIcon(pub CursorIcon);

impl Default for KCursorIcon {
    fn default() -> (r: Self)
        ensures
            r == KCursorIcon(CursorIcon::Default),
    {
        KCursorIcon(CursorIcon::Default)
    }
}

/// The horizontal alignment of text.
#[derive(Debug, Clone, Copy, PartialEq, Eq, Structural)]
pub enum Alignment {
    Start,
    Middle,
    End,
}

/// The id of an image asset.
#[derive(Debug, Clone, Copy, PartialEq, Eq, Hash, Structural)]
pub struct ImageHandle(pub u64);

/// A two-dimensional vector.
#[derive(Debug, Default, Clone, Copy, PartialEq, Eq, Structural)]
pub struct Vec2 {
    pub x: FloatBits,
    pub y: FloatBits,
}

} // verus!
