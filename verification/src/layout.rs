//! Geometry of the three panes: which pane has focus and where each pane's
//! rectangle and borders sit on the character grid. Drawing is a
//! collaborator's job; this module only computes positions.

use vstd::prelude::*;

verus! {

/// One of the three panes of the screen.
#[derive(Clone, Copy, Debug, PartialEq, Eq, Hash, Structural)]
pub enum Pane {
    Top,
    Bottom,
    Right,
}

/// A rectangle on the character grid: its top-left corner and size. The
/// border sits one cell outside the rectangle on the left and top, and on
/// its last column and row on the right and bottom.
#[derive(Clone, Copy, Debug, PartialEq, Eq, Structural)]
pub struct Rect {
    pub x: u16,
    pub y: u16,
    pub width: u16,
    pub height: u16,
}

impl Rect {
    /// A rectangle from its corner and size.
    pub fn new(x: u16, y: u16, width: u16, height: u16) -> (r: Rect)
        ensures
            r.x == x,
            r.y == y,
            r.width == width,
            r.height == height,
    {
        Rect { x, y, width, height }
    }

    /// The zero rectangle.
    pub fn empty() -> (r: Rect)
        ensures
            r == (Rect { x: 0, y: 0, width: 0, height: 0 }),
    {
        Rect::new(0, 0, 0, 0)
    }

    /// Column of the border left of the rectangle.
    pub fn left_border(&self) -> (r: u16)
        requires
            self.x >= 1,
        ensures
            r == self.x - 1,
    {
        self.x - 1
    }

    /// Column of the border at the rectangle's right edge.
    pub fn right_border(&self) -> (r: u16)
        requires
            1 <= self.x + self.width <= u16::MAX + 1,
        ensures
            r == self.x + self.width - 1,
    {
        if self.width == 0 {
            self.x - 1
        } else {
            self.x + (self.width - 1)
        }
    }

    /// Row of the border above the rectangle.
    pub fn top_border(&self) -> (r: u16)
        requires
            self.y >= 1,
        ensures
            r == self.y - 1,
    {
        self.y - 1
    }

    /// Row of the border at the rectangle's bottom edge.
    pub fn bottom_border(&self) -> (r: u16)
        requires
            1 <= self.y + self.height <= u16::MAX + 1,
        ensures
            r == self.y + self.height - 1,
    {
        if self.height == 0 {
            self.y - 1
        } else {
            self.y + (self.height - 1)
        }
    }
}

/// The whole screen: its size, the three pane rectangles, and the focused
/// pane.
#[derive(Clone, Copy, Debug, PartialEq, Eq, Structural)]
pub struct Layout {
    pub cols: u16,
    pub rows: u16,
    pub top: Rect,
    pub bottom: Rect,
    pub right: Rect,
    pub focused: Pane,
}

impl Layout {
    /// A zero-sized layout with the top pane focused.
    pub fn empty() -> (r: Layout)
        ensures
            r.cols == 0,
            r.rows == 0,
            r.top == (Rect { x: 0, y: 0, width: 0, height: 0 }),
            r.bottom == (Rect { x: 0, y: 0, width: 0, height: 0 }),
            r.right == (Rect { x: 0, y: 0, width: 0, height: 0 }),
            r.focused == Pane::Top,
    {
        Layout {
            cols: 0,
            rows: 0,
            top: Rect::empty(),
            bottom: Rect::empty(),
            right: Rect::empty(),
            focused: Pane::Top,
        }
    }
}

} // verus!
