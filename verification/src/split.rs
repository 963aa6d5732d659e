//! Geometry of split panes: rectangles in pixels and split directions.

use vstd::prelude::*;

verus! {

/// Direction of a split.
#[derive(Debug, Clone, Copy, PartialEq, Eq, Structural)]
pub enum SplitDirection {
    /// Side by side (left | right)
    Vertical,
    /// Stacked (top / bottom)
    Horizontal,
}

/// Direction for moving the focus between panes.
#[derive(Debug, Clone, Copy, PartialEq, Eq, Structural)]
pub enum NavDirection {
    Left,
    Right,
    Up,
    Down,
}

/// Information about a tab for rendering.
pub struct TabInfo<'a> {
    pub title: &'a str,
}

/// Width of the divider between panes in pixels.
pub const DIVIDER_WIDTH: u32 = 2;

/// A rectangular region in pixels.
#[derive(Debug, Clone, Copy, PartialEq, Eq, Structural)]
pub struct PaneRect {
    pub x: u32,
    pub y: u32,
    pub width: u32,
    pub height: u32,
}

/// Whether the pixel (`px`, `py`) lies in `r`.
pub open spec fn rect_contains(r: PaneRect, px: int, py: int) -> bool {
    r.x <= px < r.x + r.width && r.y <= py < r.y + r.height
}

impl PaneRect {
    pub fn new(x: u32, y: u32, width: u32, height: u32) -> (res: Self)
        ensures
            res == (PaneRect { x, y, width, height }),
    {
        PaneRect { x, y, width, height }
    }

    /// Whether the pixel (`px`, `py`) lies in this rectangle. The right and
    /// bottom edges must be representable.
    pub fn contains(&self, px: u32, py: u32) -> (res: bool)
        requires
            self.x + self.width <= u32::MAX,
            self.y + self.height <= u32::MAX,
        ensures
            res == rect_contains(*self, px as int, py as int),
    {
        px >= self.x && px < self.x + self.width && py >= self.y && py < self.y + self.height
    }
}

} // verus!
