use vstd::prelude::*;

verus! {

/// A value for each of the four edges of a widget.
#[derive(Debug, Default, Copy, PartialEq, Eq)]
pub struct Edge<T> {
    pub top: T,
    pub right: T,
    pub bottom: T,
    pub left: T,
}

impl<T> Edge<T> {
    /// An edge from its values, in the order top, right, bottom, left.
    pub fn new(top: T, right: T, bottom: T, left: T) -> (r: Self)
        ensures
            r == (Edge { top, right, bottom, left }),
    {
        Edge { top, right, bottom, left }
    }
}

impl<T: Copy> Clone for Edge<T> {
    /// A copy of the edge.
    fn clone(&self) -> (r: Self)
        ensures
            r == *self,
    {
        *self
    }
}

impl<T: Copy> Edge<T> {
    /// An edge with the same value on all four sides.
    pub fn all(value: T) -> (r: Self)
        ensures
            r == (Edge { top: value, right: value, bottom: value, left: value }),
    {
        Edge { top: value, right: value, bottom: value, left: value }
    }
}

/// A value for each of the four corners of a widget.
#[derive(Debug, Default, Copy, PartialEq, Eq)]
pub struct Corner<T> {
    pub top_left: T,
    pub top_right: T,
    pub bottom_left: T,
    pub bottom_right: T,
}

impl<T> Corner<T> {
    /// A corner set from its values, in the order top-left, top-right, bottom-left, bottom-right.
    pub fn new(top_left: T, top_right: T, bottom_left: T, bottom_right: T) -> (r: Self)
        ensures
            r == (Corner { top_left, top_right, bottom_left, bottom_right }),
    {
        Corner { top_left, top_right, bottom_left, bottom_right }
    }
}

impl<T: Copy> Clone for Corner<T> {
    /// A copy of the corner set.
    fn clone(&self) -> (r: Self)
        ensures
            r == *self,
    {
        *self
    }
}

impl<T: Copy> Corner<T> {
    /// A corner set with the same value at all four corners.
    pub fn all(value: T) -> (r: Self)
        ensures
            r == (Corner { top_left: value, top_right: value, bottom_left: value, bottom_right: value }),
    {
        Corner { top_left: value, top_right: value, bottom_left: value, bottom_right: value }
    }
}

} // verus!
