//! Rectangles of terminal cells.

use vstd::prelude::*;

verus! {

/// A rectangle of cells on the terminal, rows counted downwards.
#[derive(Debug, Clone, Copy, PartialEq, Eq, Structural)]
pub struct Rect {
    pub x: u16,
    pub y: u16,
    pub width: u16,
    pub height: u16,
}

impl Rect {
    /// The rectangle lies on a terminal whose coordinates fit 16 bits.
    pub open spec fn wf(&self) -> bool {
        self.x + self.width <= u16::MAX && self.y + self.height <= u16::MAX
    }

    /// The row below the last row of the rectangle.
    pub open spec fn spec_bottom(&self) -> int {
        self.y + self.height
    }

    /// The rectangle, cut where needed to lie on the terminal.
    pub fn new(x: u16, y: u16, width: u16, height: u16) -> (rect: Rect)
        ensures
            rect.wf(),
            rect.x == x,
            rect.y == y,
            rect.width == if x + width <= u16::MAX {
                width
            } else {
                (u16::MAX - x) as u16
            },
            rect.height == if y + height <= u16::MAX {
                height
            } else {
                (u16::MAX - y) as u16
            },
    {
        let width = if width <= u16::MAX - x {
            width
        } else {
            u16::MAX - x
        };
        let height = if height <= u16::MAX - y {
            height
        } else {
            u16::MAX - y
        };
        Rect { x, y, width, height }
    }

    /// The first column.
    pub fn left(&self) -> (res: u16)
        ensures
            res == self.x,
    {
        self.x
    }

    /// The first row.
    pub fn top(&self) -> (res: u16)
        ensures
            res == self.y,
    {
        self.y
    }

    /// The row below the last row.
    pub fn bottom(&self) -> (res: u16)
        requires
            self.wf(),
        ensures
            res == self.spec_bottom(),
    {
        self.y + self.height
    }

    /// Whether the rectangle holds no cell.
    pub fn is_empty(&self) -> (res: bool)
        ensures
            res == (self.width == 0 || self.height == 0),
    {
        self.width == 0 || self.height == 0
    }
}

} // verus!
