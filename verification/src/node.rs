use vstd::prelude::*;

use crate::styles::style::{is_default_value, KStyle, StyleProp};
use crate::styles::units::{FloatBits, KPositionType, LayoutType, Units, ONE_BITS};

verus! {

/// Marks a widget whose node must be rebuilt.
pub struct DirtyNode;

/// The index of a widget in the widget tree: the bits of the widget's entity id.
#[derive(Debug, Clone, Copy, PartialEq, Eq, Hash, Structural)]
pub struct WrappedIndex(pub u64);

/// A widget node used for building the layout tree. `P` is the type of the render
/// primitive generated for the node.
pub struct Node<P> {
    /// The list of children directly under this node
    pub children: Vec<WrappedIndex>,
    /// The ID of this node's widget
    pub id: WrappedIndex,
    /// The fully resolved styles for this node
    pub resolved_styles: KStyle,
    /// The raw styles for this node, before style resolution
    pub raw_styles: Option<KStyle>,
    /// The generated render primitive of this node
    pub primitive: P,
    /// The z-index of this node, used for controlling layering
    pub z: FloatBits,
    pub old_z: FloatBits,
}

/// A struct used for building a [`Node`]
pub struct NodeBuilder<P> {
    pub node: Node<P>,
}

impl<P: core::default::Default> NodeBuilder<P> {
    /// Defines a basic node without children, styles, etc.
    pub fn empty() -> (r: Self)
        ensures
            r.node.children@ == Seq::<WrappedIndex>::empty(),
            r.node.id == WrappedIndex(0),
            r.node.resolved_styles.all_unset(),
            r.node.raw_styles is None,
            is_default_value(r.node.primitive),
            r.node.z == FloatBits(0),
            r.node.old_z == FloatBits(0),
    {
        NodeBuilder {
            node: Node {
                children: Vec::new(),
                id: WrappedIndex(0),
                resolved_styles: KStyle::default(),
                raw_styles: None,
                primitive: P::default(),
                z: FloatBits(0),
                old_z: FloatBits(0),
            },
        }
    }

    /// Defines a node with the given id and styles
    pub fn new(id: WrappedIndex, styles: KStyle) -> (r: Self)
        ensures
            r.node.children@ == Seq::<WrappedIndex>::empty(),
            r.node.id == id,
            r.node.resolved_styles == styles,
            r.node.raw_styles is None,
            is_default_value(r.node.primitive),
            r.node.z == FloatBits(0),
            r.node.old_z == FloatBits(0),
    {
        NodeBuilder {
            node: Node {
                children: Vec::new(),
                id,
                resolved_styles: styles,
                raw_styles: None,
                primitive: P::default(),
                z: FloatBits(0),
                old_z: FloatBits(0),
            },
        }
    }
}

impl<P> NodeBuilder<P> {
    /// Sets the ID of the node being built
    pub fn with_id(self, id: WrappedIndex) -> (r: Self)
        ensures
            r.node == (Node { id, ..self.node }),
    {
        let mut b = self;
        b.node.id = id;
        b
    }

    /// Adds children to the node being built, after those it has.
    pub fn with_children(self, children: Vec<WrappedIndex>) -> (r: Self)
        ensures
            r.node.children@ == self.node.children@ + children@,
            r.node.id == self.node.id,
            r.node.resolved_styles == self.node.resolved_styles,
            r.node.raw_styles == self.node.raw_styles,
            r.node.primitive == self.node.primitive,
            r.node.z == self.node.z,
            r.node.old_z == self.node.old_z,
    {
        let mut b = self;
        let mut more = children;
        b.node.children.append(&mut more);
        b
    }

    /// Sets the resolved and raw styles, respectively, of the node being built
    pub fn with_styles(self, resolved_styles: KStyle, raw_styles: Option<KStyle>) -> (r: Self)
        ensures
            r.node == (Node { resolved_styles, raw_styles, ..self.node }),
    {
        let mut b = self;
        b.node.resolved_styles = resolved_styles;
        b.node.raw_styles = raw_styles;
        b
    }

    /// Sets the render primitive of the node being built
    pub fn with_primitive(self, primitive: P) -> (r: Self)
        ensures
            r.node == (Node { primitive, ..self.node }),
    {
        let mut b = self;
        b.node.primitive = primitive;
        b
    }

    /// Completes and builds the actual [`Node`]
    pub fn build(self) -> (r: Node<P>)
        ensures
            r == self.node,
    {
        self.node
    }
}

/// The value held by `p`, or `d` when it holds none.
pub open spec fn value_or<T>(p: StyleProp<T>, d: T) -> T {
    match p {
        StyleProp::Value(v) => v,
        _ => d,
    }
}

/// A stretch factor of one.
pub open spec fn stretch_one() -> Units {
    Units::Stretch(FloatBits(ONE_BITS))
}

/// Zero pixels.
pub open spec fn zero_pixels() -> Units {
    Units::Pixels(FloatBits(0))
}

/// A side of a widget's offset or padding: the specific property when it holds a value;
/// when it is default, the matching side of the general edge property, if that holds a
/// value; automatic otherwise.
pub open spec fn side_units(specific: StyleProp<Units>, general_side: Option<Units>) -> Units {
    match specific {
        StyleProp::Value(v) => v,
        StyleProp::Default => match general_side {
            Some(u) => u,
            None => Units::Auto,
        },
        _ => Units::Auto,
    }
}

/// The layout properties a widget with resolved styles `styles` (if it has a node) hands
/// to the layout engine. Properties that are not set take the engine's defaults.
impl WrappedIndex {
    /// How the widget lays out its children (a column unless set).
    pub fn layout_type(styles: Option<&KStyle>) -> (r: Option<LayoutType>)
        ensures
            r == Some(match styles {
                Some(s) => value_or(s.layout_type, LayoutType::Column),
                None => LayoutType::Column,
            }),
    {
        match styles {
            Some(s) => match &s.layout_type {
                StyleProp::Value(v) => Some(*v),
                _ => Some(LayoutType::Column),
            },
            None => Some(LayoutType::Column),
        }
    }

    /// How the widget is positioned (directed by its parent unless set).
    pub fn position_type(styles: Option<&KStyle>) -> (r: Option<KPositionType>)
        ensures
            r == Some(match styles {
                Some(s) => value_or(s.position_type, KPositionType::ParentDirected),
                None => KPositionType::ParentDirected,
            }),
    {
        match styles {
            Some(s) => match &s.position_type {
                StyleProp::Value(v) => Some(*v),
                _ => Some(KPositionType::ParentDirected),
            },
            None => Some(KPositionType::ParentDirected),
        }
    }

    /// The width of the widget (a stretch factor of one unless set).
    pub fn width(styles: Option<&KStyle>) -> (r: Option<Units>)
        ensures
            r == Some(match styles {
                Some(s) => value_or(s.width, stretch_one()),
                None => stretch_one(),
            }),
    {
        match styles {
            Some(s) => match &s.width {
                StyleProp::Value(v) => Some(*v),
                _ => Some(Units::Stretch(FloatBits(ONE_BITS))),
            },
            None => Some(Units::Stretch(FloatBits(ONE_BITS))),
        }
    }

    /// The height of the widget (a stretch factor of one unless set).
    pub fn height(styles: Option<&KStyle>) -> (r: Option<Units>)
        ensures
            r == Some(match styles {
                Some(s) => value_or(s.height, stretch_one()),
                None => stretch_one(),
            }),
    {
        match styles {
            Some(s) => match &s.height {
                StyleProp::Value(v) => Some(*v),
                _ => Some(Units::Stretch(FloatBits(ONE_BITS))),
            },
            None => Some(Units::Stretch(FloatBits(ONE_BITS))),
        }
    }

    /// The maximum width of the widget (automatic unless set).
    pub fn max_width(styles: Option<&KStyle>) -> (r: Option<Units>)
        ensures
            r == Some(match styles {
                Some(s) => value_or(s.max_width, Units::Auto),
                None => Units::Auto,
            }),
    {
        match styles {
            Some(s) => match &s.max_width {
                StyleProp::Value(v) => Some(*v),
                _ => Some(Units::Auto),
            },
            None => Some(Units::Auto),
        }
    }

    /// The maximum height of the widget (automatic unless set).
    pub fn max_height(styles: Option<&KStyle>) -> (r: Option<Units>)
        ensures
            r == Some(match styles {
                Some(s) => value_or(s.max_height, Units::Auto),
                None => Units::Auto,
            }),
    {
        match styles {
            Some(s) => match &s.max_height {
                StyleProp::Value(v) => Some(*v),
                _ => Some(Units::Auto),
            },
            None => Some(Units::Auto),
        }
    }

    /// The spacing between child rows (automatic unless set).
    pub fn row_between(styles: Option<&KStyle>) -> (r: Option<Units>)
        ensures
            r == Some(match styles {
                Some(s) => value_or(s.row_between, Units::Auto),
                None => Units::Auto,
            }),
    {
        match styles {
            Some(s) => match &s.row_between {
                StyleProp::Value(v) => Some(*v),
                _ => Some(Units::Auto),
            },
            None => Some(Units::Auto),
        }
    }

    /// The spacing between child columns (automatic unless set).
    pub fn col_between(styles: Option<&KStyle>) -> (r: Option<Units>)
        ensures
            r == Some(match styles {
                Some(s) => value_or(s.col_between, Units::Auto),
                None => Units::Auto,
            }),
    {
        match styles {
            Some(s) => match &s.col_between {
                StyleProp::Value(v) => Some(*v),
                _ => Some(Units::Auto),
            },
            None => Some(Units::Auto),
        }
    }

    /// The grid row of the widget (the first unless set).
    pub fn row_index(styles: Option<&KStyle>) -> (r: Option<usize>)
        ensures
            r == Some(match styles {
                Some(s) => value_or(s.row_index, 0usize),
                None => 0usize,
            }),
    {
        match styles {
            Some(s) => match &s.row_index {
                StyleProp::Value(v) => Some(*v),
                _ => Some(0),
            },
            None => Some(0),
        }
    }

    /// The grid column of the widget (the first unless set).
    pub fn col_index(styles: Option<&KStyle>) -> (r: Option<usize>)
        ensures
            r == Some(match styles {
                Some(s) => value_or(s.col_index, 0usize),
                None => 0usize,
            }),
    {
        match styles {
            Some(s) => match &s.col_index {
                StyleProp::Value(v) => Some(*v),
                _ => Some(0),
            },
            None => Some(0),
        }
    }

    /// The number of grid rows the widget spans (one unless set).
    pub fn row_span(styles: Option<&KStyle>) -> (r: Option<usize>)
        ensures
            r == Some(match styles {
                Some(s) => value_or(s.row_span, 1usize),
                None => 1usize,
            }),
    {
        match styles {
            Some(s) => match &s.row_span {
                StyleProp::Value(v) => Some(*v),
                _ => Some(1),
            },
            None => Some(1),
        }
    }

    /// The number of grid columns the widget spans (one unless set).
    pub fn col_span(styles: Option<&KStyle>) -> (r: Option<usize>)
        ensures
            r == Some(match styles {
                Some(s) => value_or(s.col_span, 1usize),
                None => 1usize,
            }),
    {
        match styles {
            Some(s) => match &s.col_span {
                StyleProp::Value(v) => Some(*v),
                _ => Some(1),
            },
            None => Some(1),
        }
    }

    /// The minimum width of the widget: zero pixels when default, the set value, or
    /// automatic otherwise.
    pub fn min_width(styles: Option<&KStyle>) -> (r: Option<Units>)
        ensures
            r == Some(match styles {
                Some(s) => match s.min_width {
                    StyleProp::Default => zero_pixels(),
                    StyleProp::Value(v) => v,
                    _ => Units::Auto,
                },
                None => Units::Auto,
            }),
    {
        match styles {
            Some(s) => match &s.min_width {
                StyleProp::Default => Some(Units::Pixels(FloatBits(0))),
                StyleProp::Value(v) => Some(*v),
                _ => Some(Units::Auto),
            },
            None => Some(Units::Auto),
        }
    }

    /// The minimum height of the widget: zero pixels when default, the set value, or
    /// automatic otherwise.
    pub fn min_height(styles: Option<&KStyle>) -> (r: Option<Units>)
        ensures
            r == Some(match styles {
                Some(s) => match s.min_height {
                    StyleProp::Default => zero_pixels(),
                    StyleProp::Value(v) => v,
                    _ => Units::Auto,
                },
                None => Units::Auto,
            }),
    {
        match styles {
            Some(s) => match &s.min_height {
                StyleProp::Default => Some(Units::Pixels(FloatBits(0))),
                StyleProp::Value(v) => Some(*v),
                _ => Some(Units::Auto),
            },
            None => Some(Units::Auto),
        }
    }

    /// The left offset of the widget: `left` when set, else the left of
    /// `offset` when `left` is default.
    pub fn left(styles: Option<&KStyle>) -> (r: Option<Units>)
        ensures
            r == Some(match styles {
                Some(s) => side_units(
                    s.left,
                    match s.offset {
                        StyleProp::Value(e) => Some(e.left),
                        _ => None,
                    },
                ),
                None => Units::Auto,
            }),
    {
        match styles {
            Some(s) => match &s.left {
                StyleProp::Default => match &s.offset {
                    StyleProp::Value(e) => Some(e.left),
                    _ => Some(Units::Auto),
                },
                StyleProp::Value(v) => Some(*v),
                _ => Some(Units::Auto),
            },
            None => Some(Units::Auto),
        }
    }

    /// The right offset of the widget: `right` when set, else the right of
    /// `offset` when `right` is default.
    pub fn right(styles: Option<&KStyle>) -> (r: Option<Units>)
        ensures
            r == Some(match styles {
                Some(s) => side_units(
                    s.right,
                    match s.offset {
                        StyleProp::Value(e) => Some(e.right),
                        _ => None,
                    },
                ),
                None => Units::Auto,
            }),
    {
        match styles {
            Some(s) => match &s.right {
                StyleProp::Default => match &s.offset {
                    StyleProp::Value(e) => Some(e.right),
                    _ => Some(Units::Auto),
                },
                StyleProp::Value(v) => Some(*v),
                _ => Some(Units::Auto),
            },
            None => Some(Units::Auto),
        }
    }

    /// The top offset of the widget: `top` when set, else the top of
    /// `offset` when `top` is default.
    pub fn top(styles: Option<&KStyle>) -> (r: Option<Units>)
        ensures
            r == Some(match styles {
                Some(s) => side_units(
                    s.top,
                    match s.offset {
                        StyleProp::Value(e) => Some(e.top),
                        _ => None,
                    },
                ),
                None => Units::Auto,
            }),
    {
        match styles {
            Some(s) => match &s.top {
                StyleProp::Default => match &s.offset {
                    StyleProp::Value(e) => Some(e.top),
                    _ => Some(Units::Auto),
                },
                StyleProp::Value(v) => Some(*v),
                _ => Some(Units::Auto),
            },
            None => Some(Units::Auto),
        }
    }

    /// The bottom offset of the widget: `bottom` when set, else the bottom of
    /// `offset` when `bottom` is default.
    pub fn bottom(styles: Option<&KStyle>) -> (r: Option<Units>)
        ensures
            r == Some(match styles {
                Some(s) => side_units(
                    s.bottom,
                    match s.offset {
                        StyleProp::Value(e) => Some(e.bottom),
                        _ => None,
                    },
                ),
                None => Units::Auto,
            }),
    {
        match styles {
            Some(s) => match &s.bottom {
                StyleProp::Default => match &s.offset {
                    StyleProp::Value(e) => Some(e.bottom),
                    _ => Some(Units::Auto),
                },
                StyleProp::Value(v) => Some(*v),
                _ => Some(Units::Auto),
            },
            None => Some(Units::Auto),
        }
    }

    /// The left padding of the widget: `padding_left` when set, else the left of
    /// `padding` when `padding_left` is default.
    pub fn child_left(styles: Option<&KStyle>) -> (r: Option<Units>)
        ensures
            r == Some(match styles {
                Some(s) => side_units(
                    s.padding_left,
                    match s.padding {
                        StyleProp::Value(e) => Some(e.left),
                        _ => None,
                    },
                ),
                None => Units::Auto,
            }),
    {
        match styles {
            Some(s) => match &s.padding_left {
                StyleProp::Default => match &s.padding {
                    StyleProp::Value(e) => Some(e.left),
                    _ => Some(Units::Auto),
                },
                StyleProp::Value(v) => Some(*v),
                _ => Some(Units::Auto),
            },
            None => Some(Units::Auto),
        }
    }

    /// The right padding of the widget: `padding_right` when set, else the right of
    /// `padding` when `padding_right` is default.
    pub fn child_right(styles: Option<&KStyle>) -> (r: Option<Units>)
        ensures
            r == Some(match styles {
                Some(s) => side_units(
                    s.padding_right,
                    match s.padding {
                        StyleProp::Value(e) => Some(e.right),
                        _ => None,
                    },
                ),
                None => Units::Auto,
            }),
    {
        match styles {
            Some(s) => match &s.padding_right {
                StyleProp::Default => match &s.padding {
                    StyleProp::Value(e) => Some(e.right),
                    _ => Some(Units::Auto),
                },
                StyleProp::Value(v) => Some(*v),
                _ => Some(Units::Auto),
            },
            None => Some(Units::Auto),
        }
    }

    /// The top padding of the widget: `padding_top` when set, else the top of
    /// `padding` when `padding_top` is default.
    pub fn child_top(styles: Option<&KStyle>) -> (r: Option<Units>)
        ensures
            r == Some(match styles {
                Some(s) => side_units(
                    s.padding_top,
                    match s.padding {
                        StyleProp::Value(e) => Some(e.top),
                        _ => None,
                    },
                ),
                None => Units::Auto,
            }),
    {
        match styles {
            Some(s) => match &s.padding_top {
                StyleProp::Default => match &s.padding {
                    StyleProp::Value(e) => Some(e.top),
                    _ => Some(Units::Auto),
                },
                StyleProp::Value(v) => Some(*v),
                _ => Some(Units::Auto),
            },
            None => Some(Units::Auto),
        }
    }

    /// The bottom padding of the widget: `padding_bottom` when set, else the bottom of
    /// `padding` when `padding_bottom` is default.
    pub fn child_bottom(styles: Option<&KStyle>) -> (r: Option<Units>)
        ensures
            r == Some(match styles {
                Some(s) => side_units(
                    s.padding_bottom,
                    match s.padding {
                        StyleProp::Value(e) => Some(e.bottom),
                        _ => None,
                    },
                ),
                None => Units::Auto,
            }),
    {
        match styles {
            Some(s) => match &s.padding_bottom {
                StyleProp::Default => match &s.padding {
                    StyleProp::Value(e) => Some(e.bottom),
                    _ => Some(Units::Auto),
                },
                StyleProp::Value(v) => Some(*v),
                _ => Some(Units::Auto),
            },
            None => Some(Units::Auto),
        }
    }

    /// The left border width of the widget, in pixels, when a border is set; automatic otherwise.
    pub fn border_left(styles: Option<&KStyle>) -> (r: Option<Units>)
        ensures
            r == Some(match styles {
                Some(s) => match s.border {
                    StyleProp::Value(e) => Units::Pixels(e.left),
                    _ => Units::Auto,
                },
                None => Units::Auto,
            }),
    {
        match styles {
            Some(s) => match &s.border {
                StyleProp::Value(e) => Some(Units::Pixels(e.left)),
                _ => Some(Units::Auto),
            },
            None => Some(Units::Auto),
        }
    }

    /// The right border width of the widget, in pixels, when a border is set; automatic otherwise.
    pub fn border_right(styles: Option<&KStyle>) -> (r: Option<Units>)
        ensures
            r == Some(match styles {
                Some(s) => match s.border {
                    StyleProp::Value(e) => Units::Pixels(e.right),
                    _ => Units::Auto,
                },
                None => Units::Auto,
            }),
    {
        match styles {
            Some(s) => match &s.border {
                StyleProp::Value(e) => Some(Units::Pixels(e.right)),
                _ => Some(Units::Auto),
            },
            None => Some(Units::Auto),
        }
    }

    /// The top border width of the widget, in pixels, when a border is set; automatic otherwise.
    pub fn border_top(styles: Option<&KStyle>) -> (r: Option<Units>)
        ensures
            r == Some(match styles {
                Some(s) => match s.border {
                    StyleProp::Value(e) => Units::Pixels(e.top),
                    _ => Units::Auto,
                },
                None => Units::Auto,
            }),
    {
        match styles {
            Some(s) => match &s.border {
                StyleProp::Value(e) => Some(Units::Pixels(e.top)),
                _ => Some(Units::Auto),
            },
            None => Some(Units::Auto),
        }
    }

    /// The bottom border width of the widget, in pixels, when a border is set; automatic otherwise.
    pub fn border_bottom(styles: Option<&KStyle>) -> (r: Option<Units>)
        ensures
            r == Some(match styles {
                Some(s) => match s.border {
                    StyleProp::Value(e) => Units::Pixels(e.bottom),
                    _ => Units::Auto,
                },
                None => Units::Auto,
            }),
    {
        match styles {
            Some(s) => match &s.border {
                StyleProp::Value(e) => Some(Units::Pixels(e.bottom)),
                _ => Some(Units::Auto),
            },
            None => Some(Units::Auto),
        }
    }

    /// The rows of the widget's grid (none unless set).
    pub fn grid_rows(styles: Option<&KStyle>) -> (r: Option<Vec<Units>>)
        ensures
            r matches Some(v) && v@ == match styles {
                Some(s) => match s.grid_rows {
                    StyleProp::Value(g) => g@,
                    _ => Seq::<Units>::empty(),
                },
                None => Seq::<Units>::empty(),
            },
    {
        match styles {
            Some(s) => match &s.grid_rows {
                StyleProp::Value(g) => {
                    let mut out: Vec<Units> = Vec::new();
                    let mut i: usize = 0;
                    while i < g.len()
                        invariant
                            i <= g@.len(),
                            out@ == g@.subrange(0, i as int),
                        decreases g@.len() - i,
                    {
                        out.push(g[i]);
                        i += 1;
                    }
                    assert(g@.subrange(0, g@.len() as int) == g@);
                    Some(out)
                },
                _ => Some(Vec::new()),
            },
            None => Some(Vec::new()),
        }
    }

    /// The columns of the widget's grid (none unless set).
    pub fn grid_cols(styles: Option<&KStyle>) -> (r: Option<Vec<Units>>)
        ensures
            r matches Some(v) && v@ == match styles {
                Some(s) => match s.grid_cols {
                    StyleProp::Value(g) => g@,
                    _ => Seq::<Units>::empty(),
                },
                None => Seq::<Units>::empty(),
            },
    {
        match styles {
            Some(s) => match &s.grid_cols {
                StyleProp::Value(g) => {
                    let mut out: Vec<Units> = Vec::new();
                    let mut i: usize = 0;
                    while i < g.len()
                        invariant
                            i <= g@.len(),
                            out@ == g@.subrange(0, i as int),
                        decreases g@.len() - i,
                    {
                        out.push(g[i]);
                        i += 1;
                    }
                    assert(g@.subrange(0, g@.len() as int) == g@);
                    Some(out)
                },
                _ => Some(Vec::new()),
            },
            None => Some(Vec::new()),
        }
    }

}

} // verus!
