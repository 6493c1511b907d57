use vstd::prelude::*;

verus! {

/// A rectangle in screen coordinates (pixels). Negative coordinates occur on
/// systems with several monitors.
#[derive(Clone, Copy, Debug, PartialEq, Eq, Structural)]
pub struct Rect {
    left: i32,
    top: i32,
    right: i32,
    bottom: i32,
}

impl Rect {
    /// Creates a rectangle from its four edges.
    pub fn new(left: i32, top: i32, right: i32, bottom: i32) -> (r: Self)
        ensures
            r.left() == left,
            r.top() == top,
            r.right() == right,
            r.bottom() == bottom,
    {
        Rect { left, top, right, bottom }
    }

    pub closed spec fn left(self) -> i32 {
        self.left
    }

    pub closed spec fn top(self) -> i32 {
        self.top
    }

    pub closed spec fn right(self) -> i32 {
        self.right
    }

    pub closed spec fn bottom(self) -> i32 {
        self.bottom
    }

    /// The left edge.
    pub fn get_left(&self) -> (v: i32)
        ensures
            v == self.left(),
    {
        self.left
    }

    /// The top edge.
    pub fn get_top(&self) -> (v: i32)
        ensures
            v == self.top(),
    {
        self.top
    }

    /// The right edge.
    pub fn get_right(&self) -> (v: i32)
        ensures
            v == self.right(),
    {
        self.right
    }

    /// The bottom edge.
    pub fn get_bottom(&self) -> (v: i32)
        ensures
            v == self.bottom(),
    {
        self.bottom
    }
}

} // verus!
