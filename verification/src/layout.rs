use std::collections::HashMap;
use vstd::prelude::*;

use crate::node::WrappedIndex;
use crate::styles::units::FloatBits;

verus! {

broadcast use vstd::std_specs::hash::group_hash_axioms;

/// The position and size of a laid out widget, and its depth.
#[derive(Debug, Default, Clone, Copy, PartialEq, Eq, Structural)]
pub struct Rect {
    pub posx: FloatBits,
    pub posy: FloatBits,
    pub width: FloatBits,
    pub height: FloatBits,
    pub z_index: FloatBits,
}

/// Layout data sent to widgets on layout; interchangeable with [`Rect`].
#[derive(Debug, Default, Clone, Copy, PartialEq, Eq, Structural)]
pub struct Layout {
    /// width of the component
    pub width: FloatBits,
    /// height of the component
    pub height: FloatBits,
    /// x-coordinates of the component
    pub x: FloatBits,
    /// y-coordinates of the component
    pub y: FloatBits,
    /// z-coordinates of the component
    pub z: FloatBits,
}

impl Layout {
    /// Returns the position
    pub fn pos(&self) -> (r: (FloatBits, FloatBits))
        ensures
            r == (self.x, self.y),
    {
        (self.x, self.y)
    }
}

impl From<Layout> for Rect {
    fn from(layout: Layout) -> (r: Self) {
        Rect { posx: layout.x, posy: layout.y, width: layout.width, height: layout.height, z_index: layout.z }
    }
}

impl vstd::std_specs::convert::FromSpecImpl<Layout> for Rect {
    open spec fn obeys_from_spec() -> bool {
        true
    }

    open spec fn from_spec(layout: Layout) -> Self {
        Rect { posx: layout.x, posy: layout.y, width: layout.width, height: layout.height, z_index: layout.z }
    }
}

impl From<Rect> for Layout {
    fn from(rect: Rect) -> (r: Self) {
        Layout { width: rect.width, height: rect.height, x: rect.posx, y: rect.posy, z: rect.z_index }
    }
}

impl vstd::std_specs::convert::FromSpecImpl<Rect> for Layout {
    open spec fn obeys_from_spec() -> bool {
        true
    }

    open spec fn from_spec(rect: Rect) -> Self {
        Layout { width: rect.width, height: rect.height, x: rect.posx, y: rect.posy, z: rect.z_index }
    }
}

/// Flags that tell how the geometry of a node changed in a layout pass.
#[derive(Debug, Default, Clone, Copy, PartialEq, Eq, Structural)]
pub struct GeometryChanged {
    pub bits: u8,
}

impl GeometryChanged {
    /// The x position of the node needs recalculating
    pub const CHANGE_POSX: u8 = 0b0000_0001u8;
    /// The y position of the node needs recalculating
    pub const CHANGE_POSY: u8 = 0b0000_0010u8;
    /// The width of the node needs recalculating
    pub const CHANGE_WIDTH: u8 = 0b0000_0100u8;
    /// The height of the node needs recalculating
    pub const CHANGE_HEIGHT: u8 = 0b0000_1000u8;
    /// The x position of the node has changed
    pub const POSX_CHANGED: u8 = 0b0001_0000u8;
    /// The y position of the node has changed
    pub const POSY_CHANGED: u8 = 0b0010_0000u8;
    /// The width of the node has changed
    pub const WIDTH_CHANGED: u8 = 0b0100_0000u8;
    /// The height of the node has changed
    pub const HEIGHT_CHANGED: u8 = 0b1000_0000u8;

    /// No flag set.
    pub fn empty() -> (r: Self)
        ensures
            r.bits == 0,
    {
        GeometryChanged { bits: 0 }
    }

    /// Whether no flag is set.
    pub fn is_empty(&self) -> (r: bool)
        ensures
            r == (self.bits == 0),
    {
        self.bits == 0
    }

    /// Whether every flag of `other` is set.
    pub fn contains(&self, other: GeometryChanged) -> (r: bool)
        ensures
            r == (self.bits & other.bits == other.bits),
    {
        self.bits & other.bits == other.bits
    }

    /// Sets (`value`) or clears the flags of `other`.
    pub fn set(&mut self, other: GeometryChanged, value: bool)
        ensures
            final(self).bits == (if value {
                old(self).bits | other.bits
            } else {
                old(self).bits & !other.bits
            }),
    {
        if value {
            self.bits = self.bits | other.bits;
        } else {
            self.bits = self.bits & !other.bits;
        }
    }
}

/// The layout state kept for each node: its computed rectangle, whether it is visible, and
/// the flags of nodes whose geometry changed in the last layout pass.
pub struct LayoutCache {
    /// Computed rectangles.
    pub rect: HashMap<u64, Rect>,
    /// A map of node IDs to their `GeometryChanged` flags
    ///
    /// This should only contain entries for nodes that have _at least one_ flag set.
    /// If a node does not have any flags set, then they should be removed from the map.
    pub geometry_changed: HashMap<u64, GeometryChanged>,
    /// Node visibility.
    pub visible: HashMap<u64, bool>,
}

/// A change of a node's layout, sent to its layout handler.
pub struct LayoutEvent {
    /// Layout of target component
    pub layout: Layout,
    /// Flags denoting the layout change. They can all be unset when the target's layout did
    /// not change but the layout of one of its immediate children did.
    pub flags: GeometryChanged,
    /// The node ID of the element receiving the layout event.
    pub target: u64,
}

impl LayoutEvent {
    /// A layout event for `index`, with its rectangle and change flags.
    pub fn new(rect: Rect, geometry_change: GeometryChanged, index: u64) -> (r: LayoutEvent)
        ensures
            r.layout == (Layout { width: rect.width, height: rect.height, x: rect.posx, y: rect.posy, z: rect.z_index }),
            r.flags == geometry_change,
            r.target == index,
    {
        LayoutEvent { layout: Layout::from(rect), flags: geometry_change, target: index }
    }
}

impl LayoutCache {
    /// The geometry map holds entries only for nodes with at least one flag set.
    pub open spec fn wf(self) -> bool {
        forall|n: u64| #[trigger] self.geometry_changed@.contains_key(n) ==> self.geometry_changed@[n].bits != 0
    }

    /// An empty cache.
    pub fn new() -> (r: LayoutCache)
        ensures
            r.wf(),
            r.rect@ == Map::<u64, Rect>::empty(),
            r.geometry_changed@ == Map::<u64, GeometryChanged>::empty(),
            r.visible@ == Map::<u64, bool>::empty(),
    {
        LayoutCache { rect: HashMap::new(), geometry_changed: HashMap::new(), visible: HashMap::new() }
    }

    /// Registers a node: it starts visible.
    pub fn add(&mut self, node_index: WrappedIndex)
        ensures
            final(self).visible@ == old(self).visible@.insert(node_index.0, true),
            final(self).rect@ == old(self).rect@,
            final(self).geometry_changed@ == old(self).geometry_changed@,
    {
        self.visible.insert(node_index.0, true);
    }

    /// Gives the node a (default) rectangle if it has none yet.
    pub fn try_init(&mut self, node: WrappedIndex)
        ensures
            final(self).rect@ == (if old(self).rect@.contains_key(node.0) {
                old(self).rect@
            } else {
                old(self).rect@.insert(
                    node.0,
                    Rect {
                        posx: FloatBits(0),
                        posy: FloatBits(0),
                        width: FloatBits(0),
                        height: FloatBits(0),
                        z_index: FloatBits(0),
                    },
                )
            }),
            final(self).visible@ == old(self).visible@,
            final(self).geometry_changed@ == old(self).geometry_changed@,
    {
        if !self.rect.contains_key(&node.0) {
            self.rect.insert(
                node.0,
                Rect {
                    posx: FloatBits(0),
                    posy: FloatBits(0),
                    width: FloatBits(0),
                    height: FloatBits(0),
                    z_index: FloatBits(0),
                },
            );
        }
    }

    /// Whether the node is visible (nodes never registered are).
    pub fn visible(&self, node: WrappedIndex) -> (r: bool)
        ensures
            r == (if self.visible@.contains_key(node.0) {
                self.visible@[node.0]
            } else {
                true
            }),
    {
        match self.visible.get(&node.0) {
            Some(v) => *v,
            None => true,
        }
    }

    /// Sets the visibility of a registered node.
    pub fn set_visible(&mut self, node: WrappedIndex, value: bool)
        requires
            old(self).visible@.contains_key(node.0),
        ensures
            final(self).visible@ == old(self).visible@.insert(node.0, value),
            final(self).rect@ == old(self).rect@,
            final(self).geometry_changed@ == old(self).geometry_changed@,
    {
        self.visible.insert(node.0, value);
    }

    /// The geometry flags of the node (none when it has no entry).
    pub fn geometry_changed(&self, node: WrappedIndex) -> (r: GeometryChanged)
        ensures
            r == (if self.geometry_changed@.contains_key(node.0) {
                self.geometry_changed@[node.0]
            } else {
                GeometryChanged { bits: 0 }
            }),
    {
        match self.geometry_changed.get(&node.0) {
            Some(g) => *g,
            None => GeometryChanged { bits: 0 },
        }
    }

    /// Whether any geometry flag is set for the node.
    pub fn has_geometry_changed(&self, id: WrappedIndex) -> (r: bool)
        ensures
            r == (self.geometry_changed@.contains_key(id.0) && self.geometry_changed@[id.0].bits != 0),
    {
        match self.geometry_changed.get(&id.0) {
            Some(g) => !g.is_empty(),
            None => false,
        }
    }

    /// Sets (`value`) or clears the flags `flag` of the node, after giving the node a
    /// rectangle if it has none. Setting adds an entry if there is none; clearing never adds
    /// one, and removes the entry once no flag is left.
    pub fn set_geo_changed(&mut self, node: WrappedIndex, flag: GeometryChanged, value: bool)
        ensures
            final(self).rect@.contains_key(node.0),
            final(self).rect@.dom() == old(self).rect@.dom().insert(node.0),
            forall|n: u64| old(self).rect@.contains_key(n) ==> #[trigger] final(self).rect@[n] == old(self).rect@[n],
            final(self).visible@ == old(self).visible@,
            ({
                let old_bits: u8 = if old(self).geometry_changed@.contains_key(node.0) {
                    old(self).geometry_changed@[node.0].bits
                } else {
                    0
                };
                if value {
                    final(self).geometry_changed@ == old(self).geometry_changed@.insert(
                        node.0,
                        GeometryChanged { bits: old_bits | flag.bits },
                    )
                } else if !old(self).geometry_changed@.contains_key(node.0) {
                    final(self).geometry_changed@ == old(self).geometry_changed@
                } else if old_bits & !flag.bits == 0 {
                    final(self).geometry_changed@ == old(self).geometry_changed@.remove(node.0)
                } else {
                    final(self).geometry_changed@ == old(self).geometry_changed@.insert(
                        node.0,
                        GeometryChanged { bits: old_bits & !flag.bits },
                    )
                }
            }),
            old(self).wf() && flag.bits != 0 ==> final(self).wf(),
    {
        self.try_init(node);
        if value {
            let mut g = match self.geometry_changed.get(&node.0) {
                Some(g) => *g,
                None => GeometryChanged { bits: 0 },
            };
            g.set(flag, value);
            self.geometry_changed.insert(node.0, g);
            proof {
                let b = g.bits;
                let o: u8 = if old(self).geometry_changed@.contains_key(node.0) {
                    old(self).geometry_changed@[node.0].bits
                } else {
                    0
                };
                let f = flag.bits;
                assert(f != 0 ==> o | f != 0) by (bit_vector);
            }
        } else {
            if let Some(existing) = self.geometry_changed.get(&node.0) {
                let mut g = *existing;
                g.set(flag, value);
                if g.is_empty() {
                    self.geometry_changed.remove(&node.0);
                } else {
                    self.geometry_changed.insert(node.0, g);
                }
            }
        }
    }

    /// The nodes whose layout changed since the last update, with their flags.
    pub fn iter_changed(&self) -> (r: Vec<(WrappedIndex, GeometryChanged)>)
        ensures
            r@.len() == self.geometry_changed@.dom().len(),
            forall|i: int| 0 <= i < r@.len() ==> {
                &&& self.geometry_changed@.contains_key(#[trigger] r@[i].0.0)
                &&& self.geometry_changed@[r@[i].0.0] == r@[i].1
            },
            forall|n: u64| #[trigger] self.geometry_changed@.contains_key(n) ==> exists|i: int| 0 <= i < r@.len() && #[trigger] r@[i].0 == WrappedIndex(n),
    {
        let mut out: Vec<(WrappedIndex, GeometryChanged)> = Vec::new();
        for (k, v) in it: self.geometry_changed.iter()
            invariant
                out@.len() == it.index(),
                it.seq().len() == self.geometry_changed@.dom().len(),
                forall|n: u64| #[trigger] self.geometry_changed@.contains_key(n) ==> exists|j: int|
                    0 <= j < it.seq().len() && *it.seq()[j].0 == n,
                it.index() == it.seq().len() ==> forall|n: u64| #[trigger] self.geometry_changed@.contains_key(n) ==> exists|i: int| 0 <= i < out@.len() && #[trigger] out@[i].0 == WrappedIndex(n),
                forall|i: int| 0 <= i < out@.len() ==> {
                    &&& self.geometry_changed@.contains_key(#[trigger] out@[i].0.0)
                    &&& self.geometry_changed@[out@[i].0.0] == out@[i].1
                    &&& out@[i].0.0 == *it.seq()[i].0
                },
        {
            out.push((WrappedIndex(*k), *v));
            assert forall|n: u64| #[trigger] self.geometry_changed@.contains_key(n) && it.index() + 1 == it.seq().len() implies exists|i: int|
                0 <= i < out@.len() && #[trigger] out@[i].0 == WrappedIndex(n) by {
                let j = choose|j: int| 0 <= j < it.seq().len() && *it.seq()[j].0 == n;
                assert(out@[j].0.0 == *it.seq()[j].0);
                assert(out@[j].0 == WrappedIndex(out@[j].0.0));
            }
        }
        out
    }
}

} // verus!
