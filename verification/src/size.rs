//! Terminal window sizes: rows and columns, with optional pixel sizes.

use vstd::prelude::*;

verus! {

/// Window size in rows, columns and pixels.
#[derive(Debug, Clone, Copy, PartialEq, Eq, Structural)]
pub struct WindowSize {
    /// Number of rows (lines)
    pub rows: u16,
    /// Number of columns (characters per line)
    pub cols: u16,
    /// Width in pixels (0 when unknown)
    pub pixel_width: u16,
    /// Height in pixels (0 when unknown)
    pub pixel_height: u16,
}

impl WindowSize {
    /// A size with no pixel dimensions.
    pub fn new(rows: u16, cols: u16) -> (res: Self)
        ensures
            res == (WindowSize { rows, cols, pixel_width: 0, pixel_height: 0 }),
    {
        WindowSize { rows, cols, pixel_width: 0, pixel_height: 0 }
    }

    /// A size with pixel dimensions.
    pub fn with_pixels(rows: u16, cols: u16, pixel_width: u16, pixel_height: u16) -> (res: Self)
        ensures
            res == (WindowSize { rows, cols, pixel_width, pixel_height }),
    {
        WindowSize { rows, cols, pixel_width, pixel_height }
    }
}

impl Default for WindowSize {
    /// 24 rows of 80 columns.
    fn default() -> (res: Self)
        ensures
            res == (WindowSize { rows: 24, cols: 80, pixel_width: 0, pixel_height: 0 }),
    {
        WindowSize::new(24, 80)
    }
}

/// The size a pseudo-terminal is opened or resized with.
#[derive(Debug, Clone, Copy, PartialEq, Eq, Structural)]
pub struct PtySize {
    pub rows: u16,
    pub cols: u16,
    pub pixel_width: u16,
    pub pixel_height: u16,
}

impl PtySize {
    /// A size of `cols` columns and `rows` rows (columns first).
    pub fn new(cols: u16, rows: u16) -> (res: Self)
        ensures
            res == (PtySize { rows, cols, pixel_width: 0, pixel_height: 0 }),
    {
        PtySize { rows, cols, pixel_width: 0, pixel_height: 0 }
    }
}

impl Default for PtySize {
    /// 24 rows of 80 columns.
    fn default() -> (res: Self)
        ensures
            res == (PtySize { rows: 24, cols: 80, pixel_width: 0, pixel_height: 0 }),
    {
        PtySize { rows: 24, cols: 80, pixel_width: 0, pixel_height: 0 }
    }
}

} // verus!
