use std::ops::Add;
use vstd::prelude::*;

use crate::cursor::PointerEvents;

use super::edge::{Corner, Edge};
use super::options_ref::AsRefOption;
use super::render_command::RenderCommand;
use super::units::{Color, FloatBits, KCursorIcon, KPositionType, LayoutType, Units};

verus! {

/// The base container of all style properties
///
/// The default value for this enum is [`StyleProp::Unset`].
#[derive(Debug, PartialEq, Eq)]
pub enum StyleProp<T> {
    /// This prop is unset, meaning its actual value is not determined until style resolution,
    /// wherein it will be set to the property's default value.
    ///
    /// When [applying](KStyle::apply) styles, only style properties of this type may be
    /// overwritten.
    Unset,
    /// Like [StyleProp::Unset], properties of this type wait until style resolution for their
    /// actual values to be determined, wherein it will be set to the property's default value.
    Default,
    /// Properties of this type inherit their value from their parent (determined at style resolution).
    Inherit,
    /// Set a specific value for this property
    Value(T),
}

/// `a` and `b` are equal properties holding lists of units, the lists compared by their
/// entries.
pub open spec fn same_units_list(a: StyleProp<Vec<Units>>, b: StyleProp<Vec<Units>>) -> bool {
    match (a, b) {
        (StyleProp::Value(x), StyleProp::Value(y)) => x@ == y@,
        _ => a == b,
    }
}

/// Clones of the values that styles hold are equal to the values (lists of units by their
/// entries).
proof fn lemma_clones_are_equal()
    ensures
        forall|x: Color, y: Color| #[trigger] cloned(x, y) ==> y == x,
        forall|x: Corner<FloatBits>, y: Corner<FloatBits>| #[trigger] cloned(x, y) ==> y == x,
        forall|x: Edge<FloatBits>, y: Edge<FloatBits>| #[trigger] cloned(x, y) ==> y == x,
        forall|x: Edge<Units>, y: Edge<Units>| #[trigger] cloned(x, y) ==> y == x,
        forall|x: Units, y: Units| #[trigger] cloned(x, y) ==> y == x,
        forall|x: KCursorIcon, y: KCursorIcon| #[trigger] cloned(x, y) ==> y == x,
        forall|x: String, y: String| #[trigger] cloned(x, y) ==> y == x,
        forall|x: FloatBits, y: FloatBits| #[trigger] cloned(x, y) ==> y == x,
        forall|x: LayoutType, y: LayoutType| #[trigger] cloned(x, y) ==> y == x,
        forall|x: PointerEvents, y: PointerEvents| #[trigger] cloned(x, y) ==> y == x,
        forall|x: KPositionType, y: KPositionType| #[trigger] cloned(x, y) ==> y == x,
        forall|x: RenderCommand, y: RenderCommand| #[trigger] cloned(x, y) ==> y == x,
        forall|x: i32, y: i32| #[trigger] cloned(x, y) ==> y == x,
        forall|x: usize, y: usize| #[trigger] cloned(x, y) ==> y == x,
        forall|x: Vec<Units>, y: Vec<Units>| #[trigger] cloned(x, y) ==> y@ == x@,
{
}

/// `b` is a clone of `a`: the same variant, holding a clone of the value of `a`, if any.
pub open spec fn prop_cloned<T: Clone>(a: StyleProp<T>, b: StyleProp<T>) -> bool {
    match a {
        StyleProp::Value(x) => b matches StyleProp::Value(y) && cloned(x, y),
        _ => b == a,
    }
}

/// `r` is a value that `T::default()` returns.
pub open spec fn is_default_value<T: core::default::Default>(r: T) -> bool {
    call_ensures(T::default, (), r)
}

/// `result` is the property `mine` after a style that holds `theirs` was applied over it:
/// a clone of `theirs` where `mine` is unset, `mine` otherwise.
pub open spec fn applied_prop<T: Clone>(mine: StyleProp<T>, theirs: StyleProp<T>, result: StyleProp<T>) -> bool {
    if mine is Unset {
        prop_cloned(theirs, result)
    } else {
        result == mine
    }
}

/// `result` is the property `mine` after inheriting from a parent property `parent`:
/// a clone of `parent` where `mine` is set to inherit, `mine` otherwise.
pub open spec fn inherited_prop<T: Clone>(mine: StyleProp<T>, parent: StyleProp<T>, result: StyleProp<T>) -> bool {
    if mine is Inherit {
        prop_cloned(parent, result)
    } else {
        result == mine
    }
}

/// The first property of `props` that is not unset, if any.
pub open spec fn first_set_at<T>(props: Seq<&StyleProp<T>>, i: int) -> bool {
    &&& 0 <= i < props.len()
    &&& !(*props[i] is Unset)
    &&& forall|j: int| 0 <= j < i ==> *props[j] is Unset
}

/// Sets `mine` to a clone of `theirs` when `mine` is unset.
fn apply_prop<T: Clone>(mine: &mut StyleProp<T>, theirs: &StyleProp<T>)
    ensures
        applied_prop(*old(mine), *theirs, *final(mine)),
{
    if matches!(mine, StyleProp::Unset) {
        *mine = theirs.clone();
    }
}

/// Sets `mine` to a clone of `parent` when `mine` is set to inherit.
fn inherit_prop<T: Clone>(mine: &mut StyleProp<T>, parent: &StyleProp<T>)
    ensures
        inherited_prop(*old(mine), *parent, *final(mine)),
{
    if matches!(mine, StyleProp::Inherit) {
        *mine = parent.clone();
    }
}

impl<T: Clone> Clone for StyleProp<T> {
    fn clone(&self) -> (r: Self)
        ensures
            prop_cloned(*self, r),
    {
        match self {
            StyleProp::Unset => StyleProp::Unset,
            StyleProp::Default => StyleProp::Default,
            StyleProp::Inherit => StyleProp::Inherit,
            StyleProp::Value(v) => StyleProp::Value(v.clone()),
        }
    }
}

impl<T> Default for StyleProp<T> {
    fn default() -> (r: Self)
        ensures
            r is Unset,
    {
        StyleProp::Unset
    }
}

impl<T: core::default::Default + Clone> StyleProp<T> {
    /// Resolves this style property into a concrete value: the value it holds, or the
    /// default value of `T`.
    ///
    /// The property must not be [`StyleProp::Inherit`]: it needs to be assigned the value of
    /// its parent before being resolved.
    pub fn resolve(&self) -> (r: T)
        requires
            !(*self is Inherit),
        ensures
            match *self {
                StyleProp::Value(v) => cloned(v, r),
                _ => is_default_value(r),
            },
    {
        match self {
            StyleProp::Value(value) => value.clone(),
            _ => T::default(),
        }
    }

    /// Returns the concrete value of this style property or the provided default.
    ///
    /// If this style property is not [`StyleProp::Value`], then the provided default
    /// will be returned.
    pub fn resolve_or(&self, default: T) -> (r: T)
        ensures
            match *self {
                StyleProp::Value(v) => cloned(v, r),
                _ => r == default,
            },
    {
        if let StyleProp::Value(value) = self {
            value.clone()
        } else {
            default
        }
    }

    /// Returns the concrete value of this style property or computes it from a closure.
    ///
    /// If this style property is not [`StyleProp::Value`], then the return value will be
    /// computed from the provided closure.
    pub fn resolve_or_else<F: FnOnce() -> T>(&self, f: F) -> (r: T)
        requires
            !(*self is Value) ==> f.requires(()),
        ensures
            match *self {
                StyleProp::Value(v) => cloned(v, r),
                _ => f.ensures((), r),
            },
    {
        if let StyleProp::Value(value) = self {
            value.clone()
        } else {
            f()
        }
    }

    /// Returns the concrete value of this style property or the default value.
    ///
    /// This is similar to the standard [`resolve`](Self::resolve) method, however, it
    /// will _not_ panic on a [`StyleProp::Inherit`].
    pub fn resolve_or_default(&self) -> (r: T)
        ensures
            match *self {
                StyleProp::Value(v) => cloned(v, r),
                _ => is_default_value(r),
            },
    {
        if let StyleProp::Value(value) = self {
            value.clone()
        } else {
            T::default()
        }
    }
}

impl<T> StyleProp<T> {
    /// Returns the first property to not be [unset](StyleProp::Unset)
    ///
    /// If none found, returns [`StyleProp::Unset`]
    pub fn select<'a>(props: &[&'a StyleProp<T>]) -> (r: &'a Self)
        ensures
            (exists|i: int| first_set_at(props@, i) && *r == *props@[i])
                || ((forall|i: int| 0 <= i < props@.len() ==> *props@[i] is Unset) && *r is Unset),
    {
        let mut i: usize = 0;
        while i < props.len()
            invariant
                i <= props@.len(),
                forall|j: int| 0 <= j < i ==> *props@[j] is Unset,
            decreases props@.len() - i,
        {
            let prop = props[i];
            if !matches!(prop, StyleProp::Unset) {
                assert(first_set_at(props@, i as int));
                return prop;
            }
            i += 1;
        }
        &StyleProp::Unset
    }
}

impl<T> From<T> for StyleProp<T> {
    fn from(value: T) -> (r: Self) {
        StyleProp::Value(value)
    }
}

impl<T> vstd::std_specs::convert::FromSpecImpl<T> for StyleProp<T> {
    open spec fn obeys_from_spec() -> bool {
        true
    }

    open spec fn from_spec(v: T) -> Self {
        StyleProp::Value(v)
    }
}

/// A struct used to define the look of a widget
///
/// All fields are `pub`, so styles can be written field by field, with
/// `..Default::default()` for the rest. Styles can also be built from other styles with
/// [`with_style`](KStyle::with_style): each applied style fills the fields still unset.
#[derive(Debug, Clone, PartialEq)]
pub struct KStyle {
    /// The background color of this widget
    ///
    /// Only applies to widgets marked [`RenderCommand::Quad`]
    pub background_color: StyleProp<Color>,
    /// The color of the border around this widget
    ///
    /// Currently, this controls all border sides.
    ///
    /// Only applies to widgets marked [`RenderCommand::Quad`]
    pub border_color: StyleProp<Color>,
    /// The radius of the corners (in pixels)
    ///
    /// Only applies to widgets marked [`RenderCommand::Quad`] and [`RenderCommand::Image`]
    pub border_radius: StyleProp<Corner<FloatBits>>,
    /// The widths of the borders (in pixels)
    ///
    /// The order is (Top, Right, Bottom, Left).
    ///
    /// Only applies to widgets marked [`RenderCommand::Quad`]
    pub border: StyleProp<Edge<FloatBits>>,
    /// The distance between the bottom edge of this widget and the bottom edge of its containing widget
    pub bottom: StyleProp<Units>,
    /// The text color for this widget
    ///
    /// This property defaults to [`StyleProp::Inherit`] meaning that setting this field to some value will
    /// cause all descendents to receive that value, up to the next set value.
    ///
    /// Only applies to widgets marked [`RenderCommand::Text`]
    pub color: StyleProp<Color>,
    /// The spacing between child widgets along the horizontal axis
    pub col_between: StyleProp<Units>,
    /// The cursor icon to display when hovering this widget
    pub cursor: StyleProp<KCursorIcon>,
    /// The font name for this widget
    ///
    /// Only applies to [`RenderCommand::Text`]
    pub font: StyleProp<String>,
    /// The font size for this widget, in pixels
    ///
    /// Only applies to [`RenderCommand::Text`]
    pub font_size: StyleProp<FloatBits>,
    /// The height of this widget
    pub height: StyleProp<Units>,
    /// The layout method for children of this widget
    pub layout_type: StyleProp<LayoutType>,
    /// The distance between the left edge of this widget and the left edge of its containing widget
    pub left: StyleProp<Units>,
    /// The line height for this widget, in pixels
    ///
    /// Only applies to [`RenderCommand::Text`]
    pub line_height: StyleProp<FloatBits>,
    /// The maximum height of this widget
    pub max_height: StyleProp<Units>,
    /// The maximum width of this widget
    pub max_width: StyleProp<Units>,
    /// The minimum height of this widget
    pub min_height: StyleProp<Units>,
    /// The minimum width of this widget
    pub min_width: StyleProp<Units>,
    /// The positional offset from this widget's default position
    ///
    /// This property has lower precedence than its more specific counterparts
    /// ([`top`](Self::top), [`right`](Self::right), [`bottom`](Self::bottom), and [`left`](Self::left)),
    /// allowing it to be overridden.
    pub offset: StyleProp<Edge<Units>>,
    /// The inner padding between the edges of this widget and its children
    ///
    /// This property has lower precedence than its more specific counterparts, allowing it
    /// to be overridden.
    pub padding: StyleProp<Edge<Units>>,
    /// The inner padding between the bottom edge of this widget and its children
    pub padding_bottom: StyleProp<Units>,
    /// The inner padding between the left edge of this widget and its children
    pub padding_left: StyleProp<Units>,
    /// The inner padding between the right edge of this widget and its children
    pub padding_right: StyleProp<Units>,
    /// The inner padding between the top edge of this widget and its children
    pub padding_top: StyleProp<Units>,
    /// Controls how the pointer interacts with the widget
    ///
    /// This can be used to block pointer events on itself and/or its children if needed, allowing
    /// the event to "pass through" to widgets below.
    pub pointer_events: StyleProp<PointerEvents>,
    /// The position type of the widget relative to its parent
    pub position_type: StyleProp<KPositionType>,
    /// The render method for this widget
    ///
    /// This controls what actually gets rendered and how it's rendered.
    pub render_command: StyleProp<RenderCommand>,
    /// The distance between the right edge of this widget and the right edge of its containing widget
    pub right: StyleProp<Units>,
    /// The spacing between child widgets along the vertical axis
    pub row_between: StyleProp<Units>,
    /// The distance between the top edge of this widget and the top edge of its containing widget
    pub top: StyleProp<Units>,
    /// The width of this widget
    pub width: StyleProp<Units>,
    /// The z-index relative to it's parent.
    pub z_index: StyleProp<i32>,
    /// The list of rows when using the grid layout
    ///
    /// This is specified in the parent widget and the children have to specify their `row_index`.
    pub grid_rows: StyleProp<Vec<Units>>,
    /// The list of columns when using the grid layout
    ///
    /// This is specified in the parent widget and the children have to specify their `col_index`.
    pub grid_cols: StyleProp<Vec<Units>>,
    /// The row index of this widget when using the grid layout
    ///
    /// This references the `grid_rows` property of the parent widget.
    pub row_index: StyleProp<usize>,
    /// The column index of this widget when using the grid layout
    ///
    /// This references the `grid_cols` property of the parent widget.
    pub col_index: StyleProp<usize>,
    /// The number rows that this widget spans when using the grid layout
    ///
    /// Specified in the child widget.
    pub row_span: StyleProp<usize>,
    /// The number columns that this widget spans when using the grid layout
    ///
    /// Specified in the child widget.
    pub col_span: StyleProp<usize>,
}

impl Default for KStyle {
    /// A style with every property unset.
    fn default() -> (r: Self)
        ensures
            r.all_unset(),
    {
        KStyle::unset()
    }
}

impl KStyle {
    /// Every property of this style is unset.
    pub open spec fn all_unset(self) -> bool {
        &&& self.background_color is Unset
        &&& self.border_color is Unset
        &&& self.border_radius is Unset
        &&& self.border is Unset
        &&& self.bottom is Unset
        &&& self.color is Unset
        &&& self.col_between is Unset
        &&& self.cursor is Unset
        &&& self.font is Unset
        &&& self.font_size is Unset
        &&& self.height is Unset
        &&& self.layout_type is Unset
        &&& self.left is Unset
        &&& self.line_height is Unset
        &&& self.max_height is Unset
        &&& self.max_width is Unset
        &&& self.min_height is Unset
        &&& self.min_width is Unset
        &&& self.offset is Unset
        &&& self.padding is Unset
        &&& self.padding_bottom is Unset
        &&& self.padding_left is Unset
        &&& self.padding_right is Unset
        &&& self.padding_top is Unset
        &&& self.pointer_events is Unset
        &&& self.position_type is Unset
        &&& self.render_command is Unset
        &&& self.right is Unset
        &&& self.row_between is Unset
        &&& self.top is Unset
        &&& self.width is Unset
        &&& self.z_index is Unset
        &&& self.grid_rows is Unset
        &&& self.grid_cols is Unset
        &&& self.row_index is Unset
        &&& self.col_index is Unset
        &&& self.row_span is Unset
        &&& self.col_span is Unset
    }

    /// No property of this style is set to inherit, so each can be resolved.
    pub open spec fn no_inherit(self) -> bool {
        &&& !(self.background_color is Inherit)
        &&& !(self.border_color is Inherit)
        &&& !(self.border_radius is Inherit)
        &&& !(self.border is Inherit)
        &&& !(self.bottom is Inherit)
        &&& !(self.color is Inherit)
        &&& !(self.col_between is Inherit)
        &&& !(self.cursor is Inherit)
        &&& !(self.font is Inherit)
        &&& !(self.font_size is Inherit)
        &&& !(self.height is Inherit)
        &&& !(self.layout_type is Inherit)
        &&& !(self.left is Inherit)
        &&& !(self.line_height is Inherit)
        &&& !(self.max_height is Inherit)
        &&& !(self.max_width is Inherit)
        &&& !(self.min_height is Inherit)
        &&& !(self.min_width is Inherit)
        &&& !(self.offset is Inherit)
        &&& !(self.padding is Inherit)
        &&& !(self.padding_bottom is Inherit)
        &&& !(self.padding_left is Inherit)
        &&& !(self.padding_right is Inherit)
        &&& !(self.padding_top is Inherit)
        &&& !(self.pointer_events is Inherit)
        &&& !(self.position_type is Inherit)
        &&& !(self.render_command is Inherit)
        &&& !(self.right is Inherit)
        &&& !(self.row_between is Inherit)
        &&& !(self.top is Inherit)
        &&& !(self.width is Inherit)
        &&& !(self.z_index is Inherit)
        &&& !(self.grid_rows is Inherit)
        &&& !(self.grid_cols is Inherit)
        &&& !(self.row_index is Inherit)
        &&& !(self.col_index is Inherit)
        &&& !(self.row_span is Inherit)
        &&& !(self.col_span is Inherit)
    }

    /// Every property of this style is [`StyleProp::Default`].
    pub open spec fn all_default(self) -> bool {
        &&& self.background_color is Default
        &&& self.border_color is Default
        &&& self.border_radius is Default
        &&& self.border is Default
        &&& self.bottom is Default
        &&& self.color is Default
        &&& self.col_between is Default
        &&& self.cursor is Default
        &&& self.font is Default
        &&& self.font_size is Default
        &&& self.height is Default
        &&& self.layout_type is Default
        &&& self.left is Default
        &&& self.line_height is Default
        &&& self.max_height is Default
        &&& self.max_width is Default
        &&& self.min_height is Default
        &&& self.min_width is Default
        &&& self.offset is Default
        &&& self.padding is Default
        &&& self.padding_bottom is Default
        &&& self.padding_left is Default
        &&& self.padding_right is Default
        &&& self.padding_top is Default
        &&& self.pointer_events is Default
        &&& self.position_type is Default
        &&& self.render_command is Default
        &&& self.right is Default
        &&& self.row_between is Default
        &&& self.top is Default
        &&& self.width is Default
        &&& self.z_index is Default
        &&& self.grid_rows is Default
        &&& self.grid_cols is Default
        &&& self.row_index is Default
        &&& self.col_index is Default
        &&& self.row_span is Default
        &&& self.col_span is Default
    }

    /// `new` is `old` after the style `other` was applied over it.
    pub open spec fn applied(old: KStyle, other: KStyle, new: KStyle) -> bool {
        &&& applied_prop(old.background_color, other.background_color, new.background_color)
        &&& applied_prop(old.border_color, other.border_color, new.border_color)
        &&& applied_prop(old.border_radius, other.border_radius, new.border_radius)
        &&& applied_prop(old.border, other.border, new.border)
        &&& applied_prop(old.bottom, other.bottom, new.bottom)
        &&& applied_prop(old.color, other.color, new.color)
        &&& applied_prop(old.col_between, other.col_between, new.col_between)
        &&& applied_prop(old.cursor, other.cursor, new.cursor)
        &&& applied_prop(old.font, other.font, new.font)
        &&& applied_prop(old.font_size, other.font_size, new.font_size)
        &&& applied_prop(old.height, other.height, new.height)
        &&& applied_prop(old.layout_type, other.layout_type, new.layout_type)
        &&& applied_prop(old.left, other.left, new.left)
        &&& applied_prop(old.line_height, other.line_height, new.line_height)
        &&& applied_prop(old.max_height, other.max_height, new.max_height)
        &&& applied_prop(old.max_width, other.max_width, new.max_width)
        &&& applied_prop(old.min_height, other.min_height, new.min_height)
        &&& applied_prop(old.min_width, other.min_width, new.min_width)
        &&& applied_prop(old.offset, other.offset, new.offset)
        &&& applied_prop(old.padding, other.padding, new.padding)
        &&& applied_prop(old.padding_bottom, other.padding_bottom, new.padding_bottom)
        &&& applied_prop(old.padding_left, other.padding_left, new.padding_left)
        &&& applied_prop(old.padding_right, other.padding_right, new.padding_right)
        &&& applied_prop(old.padding_top, other.padding_top, new.padding_top)
        &&& applied_prop(old.pointer_events, other.pointer_events, new.pointer_events)
        &&& applied_prop(old.position_type, other.position_type, new.position_type)
        &&& applied_prop(old.render_command, other.render_command, new.render_command)
        &&& applied_prop(old.right, other.right, new.right)
        &&& applied_prop(old.row_between, other.row_between, new.row_between)
        &&& applied_prop(old.top, other.top, new.top)
        &&& applied_prop(old.width, other.width, new.width)
        &&& applied_prop(old.z_index, other.z_index, new.z_index)
        &&& applied_prop(old.grid_rows, other.grid_rows, new.grid_rows)
        &&& applied_prop(old.grid_cols, other.grid_cols, new.grid_cols)
        &&& applied_prop(old.row_index, other.row_index, new.row_index)
        &&& applied_prop(old.col_index, other.col_index, new.col_index)
        &&& applied_prop(old.row_span, other.row_span, new.row_span)
        &&& applied_prop(old.col_span, other.col_span, new.col_span)
    }

    /// `new` is `old` after inheriting from the parent style `parent`.
    pub open spec fn inherited(old: KStyle, parent: KStyle, new: KStyle) -> bool {
        &&& inherited_prop(old.background_color, parent.background_color, new.background_color)
        &&& inherited_prop(old.border_color, parent.border_color, new.border_color)
        &&& inherited_prop(old.border_radius, parent.border_radius, new.border_radius)
        &&& inherited_prop(old.border, parent.border, new.border)
        &&& inherited_prop(old.bottom, parent.bottom, new.bottom)
        &&& inherited_prop(old.color, parent.color, new.color)
        &&& inherited_prop(old.col_between, parent.col_between, new.col_between)
        &&& inherited_prop(old.cursor, parent.cursor, new.cursor)
        &&& inherited_prop(old.font, parent.font, new.font)
        &&& inherited_prop(old.font_size, parent.font_size, new.font_size)
        &&& inherited_prop(old.height, parent.height, new.height)
        &&& inherited_prop(old.layout_type, parent.layout_type, new.layout_type)
        &&& inherited_prop(old.left, parent.left, new.left)
        &&& inherited_prop(old.line_height, parent.line_height, new.line_height)
        &&& inherited_prop(old.max_height, parent.max_height, new.max_height)
        &&& inherited_prop(old.max_width, parent.max_width, new.max_width)
        &&& inherited_prop(old.min_height, parent.min_height, new.min_height)
        &&& inherited_prop(old.min_width, parent.min_width, new.min_width)
        &&& inherited_prop(old.offset, parent.offset, new.offset)
        &&& inherited_prop(old.padding, parent.padding, new.padding)
        &&& inherited_prop(old.padding_bottom, parent.padding_bottom, new.padding_bottom)
        &&& inherited_prop(old.padding_left, parent.padding_left, new.padding_left)
        &&& inherited_prop(old.padding_right, parent.padding_right, new.padding_right)
        &&& inherited_prop(old.padding_top, parent.padding_top, new.padding_top)
        &&& inherited_prop(old.pointer_events, parent.pointer_events, new.pointer_events)
        &&& inherited_prop(old.position_type, parent.position_type, new.position_type)
        &&& inherited_prop(old.render_command, parent.render_command, new.render_command)
        &&& inherited_prop(old.right, parent.right, new.right)
        &&& inherited_prop(old.row_between, parent.row_between, new.row_between)
        &&& inherited_prop(old.top, parent.top, new.top)
        &&& inherited_prop(old.width, parent.width, new.width)
        &&& inherited_prop(old.z_index, parent.z_index, new.z_index)
        &&& inherited_prop(old.grid_rows, parent.grid_rows, new.grid_rows)
        &&& inherited_prop(old.grid_cols, parent.grid_cols, new.grid_cols)
        &&& inherited_prop(old.row_index, parent.row_index, new.row_index)
        &&& inherited_prop(old.col_index, parent.col_index, new.col_index)
        &&& inherited_prop(old.row_span, parent.row_span, new.row_span)
        &&& inherited_prop(old.col_span, parent.col_span, new.col_span)
    }

    /// `a` and `b` are equal styles: equal properties, the grid lists compared by their
    /// entries.
    pub open spec fn same_style(a: KStyle, b: KStyle) -> bool {
        &&& a.background_color == b.background_color
        &&& a.border_color == b.border_color
        &&& a.border_radius == b.border_radius
        &&& a.border == b.border
        &&& a.bottom == b.bottom
        &&& a.color == b.color
        &&& a.col_between == b.col_between
        &&& a.cursor == b.cursor
        &&& a.font == b.font
        &&& a.font_size == b.font_size
        &&& a.height == b.height
        &&& a.layout_type == b.layout_type
        &&& a.left == b.left
        &&& a.line_height == b.line_height
        &&& a.max_height == b.max_height
        &&& a.max_width == b.max_width
        &&& a.min_height == b.min_height
        &&& a.min_width == b.min_width
        &&& a.offset == b.offset
        &&& a.padding == b.padding
        &&& a.padding_bottom == b.padding_bottom
        &&& a.padding_left == b.padding_left
        &&& a.padding_right == b.padding_right
        &&& a.padding_top == b.padding_top
        &&& a.pointer_events == b.pointer_events
        &&& a.position_type == b.position_type
        &&& a.render_command == b.render_command
        &&& a.right == b.right
        &&& a.row_between == b.row_between
        &&& a.top == b.top
        &&& a.width == b.width
        &&& a.z_index == b.z_index
        &&& a.row_index == b.row_index
        &&& a.col_index == b.col_index
        &&& a.row_span == b.row_span
        &&& a.col_span == b.col_span
        &&& same_units_list(a.grid_rows, b.grid_rows)
        &&& same_units_list(a.grid_cols, b.grid_cols)
    }

    /// Adding styles is associative: `(a + b) + c` and `a + (b + c)` are equal styles.
    pub proof fn lemma_add_associative(a: KStyle, b: KStyle, c: KStyle, ab: KStyle, ab_c: KStyle, bc: KStyle, a_bc: KStyle)
        requires
            Self::applied(a, b, ab),
            Self::applied(ab, c, ab_c),
            Self::applied(b, c, bc),
            Self::applied(a, bc, a_bc),
        ensures
            Self::same_style(ab_c, a_bc),
    {
        lemma_clones_are_equal();
    }

    /// A style with every property unset is an identity of addition: adding it changes
    /// nothing, and adding a style to it gives an equal style.
    pub proof fn lemma_add_identity(a: KStyle, unset: KStyle, left: KStyle, right: KStyle)
        requires
            unset.all_unset(),
            Self::applied(unset, a, left),
            Self::applied(a, unset, right),
        ensures
            Self::same_style(left, a),
            right == a,
    {
        lemma_clones_are_equal();
    }

    /// Inheriting from a parent style that has no property set to inherit leaves none set to
    /// inherit: every property of the result can then be resolved.
    pub proof fn lemma_inherit_resolves(old: KStyle, parent: KStyle, new: KStyle)
        requires
            parent.no_inherit(),
            Self::inherited(old, parent, new),
        ensures
            new.no_inherit(),
    {
    }

    /// Applying a style takes, for every property of this style that is unset, a clone of
    /// the other style's property; every property that is set stays as it was.
    pub proof fn lemma_apply_fills_unset_properties(old: KStyle, other: KStyle, new: KStyle)
        requires
            Self::applied(old, other, new),
        ensures
            old.background_color is Unset ==> prop_cloned(other.background_color, new.background_color),
            !(old.background_color is Unset) ==> new.background_color == old.background_color,
            old.border_color is Unset ==> prop_cloned(other.border_color, new.border_color),
            !(old.border_color is Unset) ==> new.border_color == old.border_color,
            old.border_radius is Unset ==> prop_cloned(other.border_radius, new.border_radius),
            !(old.border_radius is Unset) ==> new.border_radius == old.border_radius,
            old.border is Unset ==> prop_cloned(other.border, new.border),
            !(old.border is Unset) ==> new.border == old.border,
            old.bottom is Unset ==> prop_cloned(other.bottom, new.bottom),
            !(old.bottom is Unset) ==> new.bottom == old.bottom,
            old.color is Unset ==> prop_cloned(other.color, new.color),
            !(old.color is Unset) ==> new.color == old.color,
            old.col_between is Unset ==> prop_cloned(other.col_between, new.col_between),
            !(old.col_between is Unset) ==> new.col_between == old.col_between,
            old.cursor is Unset ==> prop_cloned(other.cursor, new.cursor),
            !(old.cursor is Unset) ==> new.cursor == old.cursor,
            old.font is Unset ==> prop_cloned(other.font, new.font),
            !(old.font is Unset) ==> new.font == old.font,
            old.font_size is Unset ==> prop_cloned(other.font_size, new.font_size),
            !(old.font_size is Unset) ==> new.font_size == old.font_size,
            old.height is Unset ==> prop_cloned(other.height, new.height),
            !(old.height is Unset) ==> new.height == old.height,
            old.layout_type is Unset ==> prop_cloned(other.layout_type, new.layout_type),
            !(old.layout_type is Unset) ==> new.layout_type == old.layout_type,
            old.left is Unset ==> prop_cloned(other.left, new.left),
            !(old.left is Unset) ==> new.left == old.left,
            old.line_height is Unset ==> prop_cloned(other.line_height, new.line_height),
            !(old.line_height is Unset) ==> new.line_height == old.line_height,
            old.max_height is Unset ==> prop_cloned(other.max_height, new.max_height),
            !(old.max_height is Unset) ==> new.max_height == old.max_height,
            old.max_width is Unset ==> prop_cloned(other.max_width, new.max_width),
            !(old.max_width is Unset) ==> new.max_width == old.max_width,
            old.min_height is Unset ==> prop_cloned(other.min_height, new.min_height),
            !(old.min_height is Unset) ==> new.min_height == old.min_height,
            old.min_width is Unset ==> prop_cloned(other.min_width, new.min_width),
            !(old.min_width is Unset) ==> new.min_width == old.min_width,
            old.offset is Unset ==> prop_cloned(other.offset, new.offset),
            !(old.offset is Unset) ==> new.offset == old.offset,
            old.padding is Unset ==> prop_cloned(other.padding, new.padding),
            !(old.padding is Unset) ==> new.padding == old.padding,
            old.padding_bottom is Unset ==> prop_cloned(other.padding_bottom, new.padding_bottom),
            !(old.padding_bottom is Unset) ==> new.padding_bottom == old.padding_bottom,
            old.padding_left is Unset ==> prop_cloned(other.padding_left, new.padding_left),
            !(old.padding_left is Unset) ==> new.padding_left == old.padding_left,
            old.padding_right is Unset ==> prop_cloned(other.padding_right, new.padding_right),
            !(old.padding_right is Unset) ==> new.padding_right == old.padding_right,
            old.padding_top is Unset ==> prop_cloned(other.padding_top, new.padding_top),
            !(old.padding_top is Unset) ==> new.padding_top == old.padding_top,
            old.pointer_events is Unset ==> prop_cloned(other.pointer_events, new.pointer_events),
            !(old.pointer_events is Unset) ==> new.pointer_events == old.pointer_events,
            old.position_type is Unset ==> prop_cloned(other.position_type, new.position_type),
            !(old.position_type is Unset) ==> new.position_type == old.position_type,
            old.render_command is Unset ==> prop_cloned(other.render_command, new.render_command),
            !(old.render_command is Unset) ==> new.render_command == old.render_command,
            old.right is Unset ==> prop_cloned(other.right, new.right),
            !(old.right is Unset) ==> new.right == old.right,
            old.row_between is Unset ==> prop_cloned(other.row_between, new.row_between),
            !(old.row_between is Unset) ==> new.row_between == old.row_between,
            old.top is Unset ==> prop_cloned(other.top, new.top),
            !(old.top is Unset) ==> new.top == old.top,
            old.width is Unset ==> prop_cloned(other.width, new.width),
            !(old.width is Unset) ==> new.width == old.width,
            old.z_index is Unset ==> prop_cloned(other.z_index, new.z_index),
            !(old.z_index is Unset) ==> new.z_index == old.z_index,
            old.grid_rows is Unset ==> prop_cloned(other.grid_rows, new.grid_rows),
            !(old.grid_rows is Unset) ==> new.grid_rows == old.grid_rows,
            old.grid_cols is Unset ==> prop_cloned(other.grid_cols, new.grid_cols),
            !(old.grid_cols is Unset) ==> new.grid_cols == old.grid_cols,
            old.row_index is Unset ==> prop_cloned(other.row_index, new.row_index),
            !(old.row_index is Unset) ==> new.row_index == old.row_index,
            old.col_index is Unset ==> prop_cloned(other.col_index, new.col_index),
            !(old.col_index is Unset) ==> new.col_index == old.col_index,
            old.row_span is Unset ==> prop_cloned(other.row_span, new.row_span),
            !(old.row_span is Unset) ==> new.row_span == old.row_span,
            old.col_span is Unset ==> prop_cloned(other.col_span, new.col_span),
            !(old.col_span is Unset) ==> new.col_span == old.col_span,
    {
    }

    /// Inheriting takes, for every property of the child that is set to inherit, a clone of
    /// the parent's property; every other property of the child stays as it was.
    pub proof fn lemma_inherit_takes_parent_property(old: KStyle, parent: KStyle, new: KStyle)
        requires
            Self::inherited(old, parent, new),
        ensures
            old.background_color is Inherit ==> prop_cloned(parent.background_color, new.background_color),
            !(old.background_color is Inherit) ==> new.background_color == old.background_color,
            old.border_color is Inherit ==> prop_cloned(parent.border_color, new.border_color),
            !(old.border_color is Inherit) ==> new.border_color == old.border_color,
            old.border_radius is Inherit ==> prop_cloned(parent.border_radius, new.border_radius),
            !(old.border_radius is Inherit) ==> new.border_radius == old.border_radius,
            old.border is Inherit ==> prop_cloned(parent.border, new.border),
            !(old.border is Inherit) ==> new.border == old.border,
            old.bottom is Inherit ==> prop_cloned(parent.bottom, new.bottom),
            !(old.bottom is Inherit) ==> new.bottom == old.bottom,
            old.color is Inherit ==> prop_cloned(parent.color, new.color),
            !(old.color is Inherit) ==> new.color == old.color,
            old.col_between is Inherit ==> prop_cloned(parent.col_between, new.col_between),
            !(old.col_between is Inherit) ==> new.col_between == old.col_between,
            old.cursor is Inherit ==> prop_cloned(parent.cursor, new.cursor),
            !(old.cursor is Inherit) ==> new.cursor == old.cursor,
            old.font is Inherit ==> prop_cloned(parent.font, new.font),
            !(old.font is Inherit) ==> new.font == old.font,
            old.font_size is Inherit ==> prop_cloned(parent.font_size, new.font_size),
            !(old.font_size is Inherit) ==> new.font_size == old.font_size,
            old.height is Inherit ==> prop_cloned(parent.height, new.height),
            !(old.height is Inherit) ==> new.height == old.height,
            old.layout_type is Inherit ==> prop_cloned(parent.layout_type, new.layout_type),
            !(old.layout_type is Inherit) ==> new.layout_type == old.layout_type,
            old.left is Inherit ==> prop_cloned(parent.left, new.left),
            !(old.left is Inherit) ==> new.left == old.left,
            old.line_height is Inherit ==> prop_cloned(parent.line_height, new.line_height),
            !(old.line_height is Inherit) ==> new.line_height == old.line_height,
            old.max_height is Inherit ==> prop_cloned(parent.max_height, new.max_height),
            !(old.max_height is Inherit) ==> new.max_height == old.max_height,
            old.max_width is Inherit ==> prop_cloned(parent.max_width, new.max_width),
            !(old.max_width is Inherit) ==> new.max_width == old.max_width,
            old.min_height is Inherit ==> prop_cloned(parent.min_height, new.min_height),
            !(old.min_height is Inherit) ==> new.min_height == old.min_height,
            old.min_width is Inherit ==> prop_cloned(parent.min_width, new.min_width),
            !(old.min_width is Inherit) ==> new.min_width == old.min_width,
            old.offset is Inherit ==> prop_cloned(parent.offset, new.offset),
            !(old.offset is Inherit) ==> new.offset == old.offset,
            old.padding is Inherit ==> prop_cloned(parent.padding, new.padding),
            !(old.padding is Inherit) ==> new.padding == old.padding,
            old.padding_bottom is Inherit ==> prop_cloned(parent.padding_bottom, new.padding_bottom),
            !(old.padding_bottom is Inherit) ==> new.padding_bottom == old.padding_bottom,
            old.padding_left is Inherit ==> prop_cloned(parent.padding_left, new.padding_left),
            !(old.padding_left is Inherit) ==> new.padding_left == old.padding_left,
            old.padding_right is Inherit ==> prop_cloned(parent.padding_right, new.padding_right),
            !(old.padding_right is Inherit) ==> new.padding_right == old.padding_right,
            old.padding_top is Inherit ==> prop_cloned(parent.padding_top, new.padding_top),
            !(old.padding_top is Inherit) ==> new.padding_top == old.padding_top,
            old.pointer_events is Inherit ==> prop_cloned(parent.pointer_events, new.pointer_events),
            !(old.pointer_events is Inherit) ==> new.pointer_events == old.pointer_events,
            old.position_type is Inherit ==> prop_cloned(parent.position_type, new.position_type),
            !(old.position_type is Inherit) ==> new.position_type == old.position_type,
            old.render_command is Inherit ==> prop_cloned(parent.render_command, new.render_command),
            !(old.render_command is Inherit) ==> new.render_command == old.render_command,
            old.right is Inherit ==> prop_cloned(parent.right, new.right),
            !(old.right is Inherit) ==> new.right == old.right,
            old.row_between is Inherit ==> prop_cloned(parent.row_between, new.row_between),
            !(old.row_between is Inherit) ==> new.row_between == old.row_between,
            old.top is Inherit ==> prop_cloned(parent.top, new.top),
            !(old.top is Inherit) ==> new.top == old.top,
            old.width is Inherit ==> prop_cloned(parent.width, new.width),
            !(old.width is Inherit) ==> new.width == old.width,
            old.z_index is Inherit ==> prop_cloned(parent.z_index, new.z_index),
            !(old.z_index is Inherit) ==> new.z_index == old.z_index,
            old.grid_rows is Inherit ==> prop_cloned(parent.grid_rows, new.grid_rows),
            !(old.grid_rows is Inherit) ==> new.grid_rows == old.grid_rows,
            old.grid_cols is Inherit ==> prop_cloned(parent.grid_cols, new.grid_cols),
            !(old.grid_cols is Inherit) ==> new.grid_cols == old.grid_cols,
            old.row_index is Inherit ==> prop_cloned(parent.row_index, new.row_index),
            !(old.row_index is Inherit) ==> new.row_index == old.row_index,
            old.col_index is Inherit ==> prop_cloned(parent.col_index, new.col_index),
            !(old.col_index is Inherit) ==> new.col_index == old.col_index,
            old.row_span is Inherit ==> prop_cloned(parent.row_span, new.row_span),
            !(old.row_span is Inherit) ==> new.row_span == old.row_span,
            old.col_span is Inherit ==> prop_cloned(parent.col_span, new.col_span),
            !(old.col_span is Inherit) ==> new.col_span == old.col_span,
    {
    }

    /// Applying the same style a second time changes nothing: every property that was unset
    /// already took the other style's property, which is unset only where the other's is.
    pub proof fn lemma_apply_idempotent(a: KStyle, other: KStyle, b: KStyle, c: KStyle)
        requires
            Self::applied(a, other, b),
            Self::applied(b, other, c),
        ensures
            c == b,
    {
    }

    /// A style with every property unset.
    pub fn unset() -> (r: Self)
        ensures
            r.all_unset(),
    {
        KStyle {
            background_color: StyleProp::Unset,
            border_color: StyleProp::Unset,
            border_radius: StyleProp::Unset,
            border: StyleProp::Unset,
            bottom: StyleProp::Unset,
            color: StyleProp::Unset,
            col_between: StyleProp::Unset,
            cursor: StyleProp::Unset,
            font: StyleProp::Unset,
            font_size: StyleProp::Unset,
            height: StyleProp::Unset,
            layout_type: StyleProp::Unset,
            left: StyleProp::Unset,
            line_height: StyleProp::Unset,
            max_height: StyleProp::Unset,
            max_width: StyleProp::Unset,
            min_height: StyleProp::Unset,
            min_width: StyleProp::Unset,
            offset: StyleProp::Unset,
            padding: StyleProp::Unset,
            padding_bottom: StyleProp::Unset,
            padding_left: StyleProp::Unset,
            padding_right: StyleProp::Unset,
            padding_top: StyleProp::Unset,
            pointer_events: StyleProp::Unset,
            position_type: StyleProp::Unset,
            render_command: StyleProp::Unset,
            right: StyleProp::Unset,
            row_between: StyleProp::Unset,
            top: StyleProp::Unset,
            width: StyleProp::Unset,
            z_index: StyleProp::Unset,
            grid_rows: StyleProp::Unset,
            grid_cols: StyleProp::Unset,
            row_index: StyleProp::Unset,
            col_index: StyleProp::Unset,
            row_span: StyleProp::Unset,
            col_span: StyleProp::Unset,
        }
    }

    /// Returns a style where all fields are set to [`StyleProp::Default`]
    ///
    /// This should only be used when default properties are required or desired. Otherwise, you
    /// may be better off using `KStyle::default` (which sets all properties to [`StyleProp::Unset`]).
    pub fn new_default() -> (r: Self)
        ensures
            r.all_default(),
    {
        KStyle {
            background_color: StyleProp::Default,
            border_color: StyleProp::Default,
            border_radius: StyleProp::Default,
            border: StyleProp::Default,
            bottom: StyleProp::Default,
            color: StyleProp::Default,
            col_between: StyleProp::Default,
            cursor: StyleProp::Default,
            font: StyleProp::Default,
            font_size: StyleProp::Default,
            height: StyleProp::Default,
            layout_type: StyleProp::Default,
            left: StyleProp::Default,
            line_height: StyleProp::Default,
            max_height: StyleProp::Default,
            max_width: StyleProp::Default,
            min_height: StyleProp::Default,
            min_width: StyleProp::Default,
            offset: StyleProp::Default,
            padding: StyleProp::Default,
            padding_bottom: StyleProp::Default,
            padding_left: StyleProp::Default,
            padding_right: StyleProp::Default,
            padding_top: StyleProp::Default,
            pointer_events: StyleProp::Default,
            position_type: StyleProp::Default,
            render_command: StyleProp::Default,
            right: StyleProp::Default,
            row_between: StyleProp::Default,
            top: StyleProp::Default,
            width: StyleProp::Default,
            z_index: StyleProp::Default,
            grid_rows: StyleProp::Default,
            grid_cols: StyleProp::Default,
            row_index: StyleProp::Default,
            col_index: StyleProp::Default,
            row_span: StyleProp::Default,
            col_span: StyleProp::Default,
        }
    }

    /// If any field is set to [`StyleProp::Inherit`], its value will be taken from `other`
    pub fn inherit(&mut self, other: &Self)
        ensures
            Self::inherited(*old(self), *other, *final(self)),
    {
        inherit_prop(&mut self.background_color, &other.background_color);
        inherit_prop(&mut self.border_color, &other.border_color);
        inherit_prop(&mut self.border_radius, &other.border_radius);
        inherit_prop(&mut self.border, &other.border);
        inherit_prop(&mut self.bottom, &other.bottom);
        inherit_prop(&mut self.color, &other.color);
        inherit_prop(&mut self.col_between, &other.col_between);
        inherit_prop(&mut self.cursor, &other.cursor);
        inherit_prop(&mut self.font, &other.font);
        inherit_prop(&mut self.font_size, &other.font_size);
        inherit_prop(&mut self.height, &other.height);
        inherit_prop(&mut self.layout_type, &other.layout_type);
        inherit_prop(&mut self.left, &other.left);
        inherit_prop(&mut self.line_height, &other.line_height);
        inherit_prop(&mut self.max_height, &other.max_height);
        inherit_prop(&mut self.max_width, &other.max_width);
        inherit_prop(&mut self.min_height, &other.min_height);
        inherit_prop(&mut self.min_width, &other.min_width);
        inherit_prop(&mut self.offset, &other.offset);
        inherit_prop(&mut self.padding, &other.padding);
        inherit_prop(&mut self.padding_bottom, &other.padding_bottom);
        inherit_prop(&mut self.padding_left, &other.padding_left);
        inherit_prop(&mut self.padding_right, &other.padding_right);
        inherit_prop(&mut self.padding_top, &other.padding_top);
        inherit_prop(&mut self.pointer_events, &other.pointer_events);
        inherit_prop(&mut self.position_type, &other.position_type);
        inherit_prop(&mut self.render_command, &other.render_command);
        inherit_prop(&mut self.right, &other.right);
        inherit_prop(&mut self.row_between, &other.row_between);
        inherit_prop(&mut self.top, &other.top);
        inherit_prop(&mut self.width, &other.width);
        inherit_prop(&mut self.z_index, &other.z_index);
        inherit_prop(&mut self.grid_rows, &other.grid_rows);
        inherit_prop(&mut self.grid_cols, &other.grid_cols);
        inherit_prop(&mut self.row_index, &other.row_index);
        inherit_prop(&mut self.col_index, &other.col_index);
        inherit_prop(&mut self.row_span, &other.row_span);
        inherit_prop(&mut self.col_span, &other.col_span);
    }

    /// Applies a style over this one
    ///
    /// Values from `other` are applied to any field in this one that is marked as [`StyleProp::Unset`]
    pub fn apply<T: AsRefOption<KStyle>>(&mut self, other: T)
        ensures
            match other.as_option_spec() {
                Some(o) => Self::applied(*old(self), o, *final(self)),
                None => *final(self) == *old(self),
            },
    {
        if let Some(other) = other.as_ref_option() {
            apply_prop(&mut self.background_color, &other.background_color);
            apply_prop(&mut self.border_color, &other.border_color);
            apply_prop(&mut self.border_radius, &other.border_radius);
            apply_prop(&mut self.border, &other.border);
            apply_prop(&mut self.bottom, &other.bottom);
            apply_prop(&mut self.color, &other.color);
            apply_prop(&mut self.col_between, &other.col_between);
            apply_prop(&mut self.cursor, &other.cursor);
            apply_prop(&mut self.font, &other.font);
            apply_prop(&mut self.font_size, &other.font_size);
            apply_prop(&mut self.height, &other.height);
            apply_prop(&mut self.layout_type, &other.layout_type);
            apply_prop(&mut self.left, &other.left);
            apply_prop(&mut self.line_height, &other.line_height);
            apply_prop(&mut self.max_height, &other.max_height);
            apply_prop(&mut self.max_width, &other.max_width);
            apply_prop(&mut self.min_height, &other.min_height);
            apply_prop(&mut self.min_width, &other.min_width);
            apply_prop(&mut self.offset, &other.offset);
            apply_prop(&mut self.padding, &other.padding);
            apply_prop(&mut self.padding_bottom, &other.padding_bottom);
            apply_prop(&mut self.padding_left, &other.padding_left);
            apply_prop(&mut self.padding_right, &other.padding_right);
            apply_prop(&mut self.padding_top, &other.padding_top);
            apply_prop(&mut self.pointer_events, &other.pointer_events);
            apply_prop(&mut self.position_type, &other.position_type);
            apply_prop(&mut self.render_command, &other.render_command);
            apply_prop(&mut self.right, &other.right);
            apply_prop(&mut self.row_between, &other.row_between);
            apply_prop(&mut self.top, &other.top);
            apply_prop(&mut self.width, &other.width);
            apply_prop(&mut self.z_index, &other.z_index);
            apply_prop(&mut self.grid_rows, &other.grid_rows);
            apply_prop(&mut self.grid_cols, &other.grid_cols);
            apply_prop(&mut self.row_index, &other.row_index);
            apply_prop(&mut self.col_index, &other.col_index);
            apply_prop(&mut self.row_span, &other.row_span);
            apply_prop(&mut self.col_span, &other.col_span);
        }
    }

    /// Applies the given style and returns the updated style
    ///
    /// This is simply a builder-like wrapper around the [`KStyle::apply`] method.
    pub fn with_style<T: AsRefOption<KStyle>>(self, other: T) -> (r: Self)
        ensures
            match other.as_option_spec() {
                Some(o) => Self::applied(self, o, r),
                None => r == self,
            },
    {
        let mut s = self;
        s.apply(other);
        s
    }

    /// Returns a style where all fields are set to their own initial values
    ///
    /// This is the actual "default" to apply over any field marked as [`StyleProp::Unset`] before
    /// resolving the style: the text color, cursor, font, font size and line height are
    /// inherited, the render command is [`RenderCommand::Layout`], and every other property
    /// is [`StyleProp::Default`].
    pub fn initial() -> (r: Self)
        ensures
            r.background_color is Default,
            r.border_color is Default,
            r.border_radius is Default,
            r.border is Default,
            r.bottom is Default,
            r.color is Inherit,
            r.col_between is Default,
            r.cursor is Inherit,
            r.font is Inherit,
            r.font_size is Inherit,
            r.height is Default,
            r.layout_type is Default,
            r.left is Default,
            r.line_height is Inherit,
            r.max_height is Default,
            r.max_width is Default,
            r.min_height is Default,
            r.min_width is Default,
            r.offset is Default,
            r.padding is Default,
            r.padding_bottom is Default,
            r.padding_left is Default,
            r.padding_right is Default,
            r.padding_top is Default,
            r.pointer_events is Default,
            r.position_type is Default,
            r.render_command == StyleProp::Value(RenderCommand::Layout),
            r.right is Default,
            r.row_between is Default,
            r.top is Default,
            r.width is Default,
            r.z_index is Default,
            r.grid_rows is Default,
            r.grid_cols is Default,
            r.row_index is Default,
            r.col_index is Default,
            r.row_span is Default,
            r.col_span is Default,
    {
        KStyle {
            background_color: StyleProp::Default,
            border_color: StyleProp::Default,
            border_radius: StyleProp::Default,
            border: StyleProp::Default,
            bottom: StyleProp::Default,
            color: StyleProp::Inherit,
            col_between: StyleProp::Default,
            cursor: StyleProp::Inherit,
            font: StyleProp::Inherit,
            font_size: StyleProp::Inherit,
            height: StyleProp::Default,
            layout_type: StyleProp::Default,
            left: StyleProp::Default,
            line_height: StyleProp::Inherit,
            max_height: StyleProp::Default,
            max_width: StyleProp::Default,
            min_height: StyleProp::Default,
            min_width: StyleProp::Default,
            offset: StyleProp::Default,
            padding: StyleProp::Default,
            padding_bottom: StyleProp::Default,
            padding_left: StyleProp::Default,
            padding_right: StyleProp::Default,
            padding_top: StyleProp::Default,
            pointer_events: StyleProp::Default,
            position_type: StyleProp::Default,
            render_command: StyleProp::Value(RenderCommand::Layout),
            right: StyleProp::Default,
            row_between: StyleProp::Default,
            top: StyleProp::Default,
            width: StyleProp::Default,
            z_index: StyleProp::Default,
            grid_rows: StyleProp::Default,
            grid_cols: StyleProp::Default,
            row_index: StyleProp::Default,
            col_index: StyleProp::Default,
            row_span: StyleProp::Default,
            col_span: StyleProp::Default,
        }
    }
}

/// The fully resolved styles of a widget.
#[derive(Debug, Clone, PartialEq)]
pub struct ComputedStyles(pub KStyle);

impl From<KStyle> for ComputedStyles {
    fn from(val: KStyle) -> (r: Self) {
        ComputedStyles(val)
    }
}

impl vstd::std_specs::convert::FromSpecImpl<KStyle> for ComputedStyles {
    open spec fn obeys_from_spec() -> bool {
        true
    }

    open spec fn from_spec(v: KStyle) -> Self {
        ComputedStyles(v)
    }
}

impl vstd::std_specs::ops::AddSpecImpl for KStyle {
    /// The sum is described by [`KStyle::applied`] on the `add` method itself, not by an
    /// equation, since cloning a value need not yield an equal one.
    open spec fn obeys_add_spec() -> bool {
        false
    }

    open spec fn add_req(self, rhs: KStyle) -> bool {
        true
    }

    open spec fn add_spec(self, rhs: KStyle) -> KStyle {
        self
    }
}

impl Add for KStyle {
    type Output = KStyle;

    /// `a + b` applies `b` over `a`: values from `b` fill the fields of `a` that are
    /// [`StyleProp::Unset`]. Since only unset fields change, addition is not commutative.
    fn add(self, other: KStyle) -> (r: KStyle)
        ensures
            Self::applied(self, other, r),
    {
        self.with_style(other)
    }
}

} // verus!
