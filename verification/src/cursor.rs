//! Cursor state and styles for terminal emulation.
//!
//! The cursor tracks its position, visual style, visibility, the pending
//! wrap flag, the attributes applied to written cells, and the saved state
//! used by DECSC/DECRC.

use vstd::prelude::*;

use crate::cell::CellAttributes;
use crate::color::Color;

verus! {

#[derive(Debug, Clone, Copy, PartialEq, Eq, Structural)]
pub enum CursorStyle {
    Block,
    Underline,
    Bar,
}

impl Default for CursorStyle {
    fn default() -> (res: Self)
        ensures
            res == CursorStyle::Block,
    {
        CursorStyle::Block
    }
}

/// `min(a, b)` on integers.
pub open spec fn min_int(a: int, b: int) -> int {
    if a <= b {
        a
    } else {
        b
    }
}

/// `n - 1`, or 0 when `n` is 0.
pub open spec fn last_index(n: int) -> int {
    if n > 0 {
        n - 1
    } else {
        0
    }
}

#[derive(Debug, Clone, Copy, PartialEq, Eq, Structural)]
pub struct Cursor {
    pub row: usize,
    pub col: usize,
    pub style: CursorStyle,
    pub visible: bool,
    pub blinking: bool,
    /// Set after writing into the last column: the next printed character
    /// wraps to the next line first (when auto-wrap is on).
    pub pending_wrap: bool,
    /// Attributes given to the cells that are written.
    pub attrs: CellAttributes,
    /// Whether positions are relative to the scroll region (DECOM).
    pub origin_mode: bool,
}

impl Cursor {
    /// The initial cursor: at the origin, a visible blinking block.
    pub open spec fn spec_default() -> Self {
        Cursor {
            row: 0,
            col: 0,
            style: CursorStyle::Block,
            visible: true,
            blinking: true,
            pending_wrap: false,
            attrs: CellAttributes::spec_default(),
            origin_mode: false,
        }
    }

    pub fn new() -> (res: Self)
        ensures
            res == Self::spec_default(),
    {
        Cursor {
            row: 0,
            col: 0,
            style: CursorStyle::Block,
            visible: true,
            blinking: true,
            pending_wrap: false,
            attrs: CellAttributes::new(),
            origin_mode: false,
        }
    }

    pub fn move_to(&mut self, row: usize, col: usize)
        ensures
            *final(self) == (Cursor { row, col, ..*old(self) }),
    {
        self.row = row;
        self.col = col;
    }

    pub fn move_up(&mut self, n: usize)
        ensures
            final(self).row == (if old(self).row >= n {
                old(self).row - n
            } else {
                0
            }),
            *final(self) == (Cursor { row: final(self).row, ..*old(self) }),
    {
        self.row = self.row.saturating_sub(n);
    }

    /// Move down by `n`, stopping at row `max_row - 1` (`max_row` is the
    /// number of rows).
    pub fn move_down(&mut self, n: usize, max_row: usize)
        ensures
            final(self).row == min_int(old(self).row + n, last_index(max_row as int)),
            *final(self) == (Cursor { row: final(self).row, ..*old(self) }),
    {
        self.row = clamped_advance(self.row, n, max_row.saturating_sub(1));
    }

    pub fn move_left(&mut self, n: usize)
        ensures
            final(self).col == (if old(self).col >= n {
                old(self).col - n
            } else {
                0
            }),
            *final(self) == (Cursor { col: final(self).col, ..*old(self) }),
    {
        self.col = self.col.saturating_sub(n);
    }

    /// Move right by `n`, stopping at column `max_col - 1` (`max_col` is the
    /// number of columns).
    pub fn move_right(&mut self, n: usize, max_col: usize)
        ensures
            final(self).col == min_int(old(self).col + n, last_index(max_col as int)),
            *final(self) == (Cursor { col: final(self).col, ..*old(self) }),
    {
        self.col = clamped_advance(self.col, n, max_col.saturating_sub(1));
    }

    pub fn move_to_col(&mut self, col: usize, max_col: usize)
        ensures
            final(self).col == min_int(col as int, last_index(max_col as int)),
            *final(self) == (Cursor { col: final(self).col, ..*old(self) }),
    {
        let bound = max_col.saturating_sub(1);
        self.col = if col < bound {
            col
        } else {
            bound
        };
    }

    pub fn move_to_row(&mut self, row: usize, max_row: usize)
        ensures
            final(self).row == min_int(row as int, last_index(max_row as int)),
            *final(self) == (Cursor { row: final(self).row, ..*old(self) }),
    {
        let bound = max_row.saturating_sub(1);
        self.row = if row < bound {
            row
        } else {
            bound
        };
    }

    pub fn carriage_return(&mut self)
        ensures
            *final(self) == (Cursor { col: 0, ..*old(self) }),
    {
        self.col = 0;
    }
}

impl Default for Cursor {
    fn default() -> (res: Self)
        ensures
            res == Cursor::spec_default(),
    {
        Cursor::new()
    }
}

/// `min(pos + n, bound)` computed without overflow.
pub fn clamped_advance(pos: usize, n: usize, bound: usize) -> (res: usize)
    ensures
        res == min_int(pos + n, bound as int),
{
    if pos >= bound || n >= bound - pos {
        bound
    } else {
        pos + n
    }
}

/// Cursor state saved by DECSC and restored by DECRC.
#[derive(Debug, Clone, Copy, PartialEq, Eq, Structural)]
pub struct SavedCursor {
    pub row: usize,
    pub col: usize,
    pub attrs: CellAttributes,
    pub fg: Color,
    pub bg: Color,
    pub origin_mode: bool,
    pub autowrap: bool,
}

impl SavedCursor {
    /// The saved state before anything was saved: the origin, default
    /// attributes, auto-wrap on.
    pub open spec fn spec_default() -> Self {
        SavedCursor {
            row: 0,
            col: 0,
            attrs: CellAttributes::spec_default(),
            fg: Color::Default,
            bg: Color::Default,
            origin_mode: false,
            autowrap: true,
        }
    }

    pub fn new() -> (res: Self)
        ensures
            res == Self::spec_default(),
    {
        SavedCursor {
            row: 0,
            col: 0,
            attrs: CellAttributes::new(),
            fg: Color::Default,
            bg: Color::Default,
            origin_mode: false,
            autowrap: true,
        }
    }

    pub fn from_cursor(
        cursor: &Cursor,
        attrs: &CellAttributes,
        fg: Color,
        bg: Color,
        origin_mode: bool,
        autowrap: bool,
    ) -> (res: Self)
        ensures
            res == (SavedCursor {
                row: cursor.row,
                col: cursor.col,
                attrs: *attrs,
                fg,
                bg,
                origin_mode,
                autowrap,
            }),
    {
        SavedCursor { row: cursor.row, col: cursor.col, attrs: *attrs, fg, bg, origin_mode, autowrap }
    }

    /// Save the state of `cursor`: position, attributes and origin mode.
    pub fn save(cursor: &Cursor, autowrap: bool) -> (res: Self)
        ensures
            res == (SavedCursor {
                row: cursor.row,
                col: cursor.col,
                attrs: cursor.attrs,
                fg: cursor.attrs.fg,
                bg: cursor.attrs.bg,
                origin_mode: cursor.origin_mode,
                autowrap,
            }),
    {
        Self::from_cursor(cursor, &cursor.attrs, cursor.attrs.fg, cursor.attrs.bg, cursor.origin_mode, autowrap)
    }

    /// Put the saved position, attributes and origin mode back into `cursor`.
    pub fn restore_to(&self, cursor: &mut Cursor)
        ensures
            *final(cursor) == (Cursor {
                row: self.row,
                col: self.col,
                attrs: CellAttributes { fg: self.fg, bg: self.bg, ..self.attrs },
                origin_mode: self.origin_mode,
                pending_wrap: false,
                ..*old(cursor)
            }),
    {
        cursor.row = self.row;
        cursor.col = self.col;
        cursor.attrs = CellAttributes { fg: self.fg, bg: self.bg, ..self.attrs };
        cursor.origin_mode = self.origin_mode;
        cursor.pending_wrap = false;
    }
}

impl Default for SavedCursor {
    fn default() -> (res: Self)
        ensures
            res == SavedCursor::spec_default(),
    {
        SavedCursor::new()
    }
}

/// Saving a cursor and restoring it into any cursor gives back the saved
/// position and attributes.
pub proof fn lemma_save_restore(c: Cursor, autowrap: bool, other: Cursor)
    ensures
        ({
            let s = SavedCursor {
                row: c.row,
                col: c.col,
                attrs: c.attrs,
                fg: c.attrs.fg,
                bg: c.attrs.bg,
                origin_mode: c.origin_mode,
                autowrap,
            };
            let r = Cursor {
                row: s.row,
                col: s.col,
                attrs: CellAttributes { fg: s.fg, bg: s.bg, ..s.attrs },
                origin_mode: s.origin_mode,
                pending_wrap: false,
                ..other
            };
            r.row == c.row && r.col == c.col && r.attrs == c.attrs && r.origin_mode == c.origin_mode
        }),
{
}

} // verus!
