//! Text selection for copy/paste operations.
//!
//! Handles mouse-based text selection in the terminal grid. Rows are signed
//! so that a selection can reach into the scrollback (negative rows).

use vstd::prelude::*;

verus! {

/// A position in the terminal: row first, then column.
#[derive(Debug, Clone, Copy, PartialEq, Eq, Structural, PartialOrd, Ord)]
pub struct SelectionPoint {
    pub row: i64,
    pub col: usize,
}

/// Positions are ordered by row, then by column.
pub open spec fn point_le(a: SelectionPoint, b: SelectionPoint) -> bool {
    a.row < b.row || (a.row == b.row && a.col <= b.col)
}

impl SelectionPoint {
    pub fn new(row: i64, col: usize) -> (res: Self)
        ensures
            res.row == row,
            res.col == col,
    {
        SelectionPoint { row, col }
    }

    /// Whether `self` comes before `other` or is the same position.
    pub fn le(&self, other: &Self) -> (res: bool)
        ensures
            res == point_le(*self, *other),
    {
        self.row < other.row || (self.row == other.row && self.col <= other.col)
    }
}

#[derive(Debug, Clone, Copy, PartialEq, Eq, Structural)]
pub enum SelectionType {
    /// Text flow from start to end
    Normal,
    /// A rectangle of columns
    Block,
    /// Whole lines
    Line,
}

#[derive(Debug, Clone, Copy, PartialEq, Eq, Structural)]
pub struct Selection {
    pub start: SelectionPoint,
    pub end: SelectionPoint,
    pub selection_type: SelectionType,
    pub active: bool,
}

/// The two ends of `s` in order.
pub open spec fn spec_normalized(s: Selection) -> (SelectionPoint, SelectionPoint) {
    if point_le(s.start, s.end) {
        (s.start, s.end)
    } else {
        (s.end, s.start)
    }
}

/// Whether the cell at (`row`, `col`) is selected.
pub open spec fn spec_contains(s: Selection, row: int, col: int) -> bool {
    if !s.active && s.start == s.end {
        false
    } else {
        let (start, end) = spec_normalized(s);
        match s.selection_type {
            SelectionType::Normal => {
                if row < start.row || row > end.row {
                    false
                } else if row == start.row && row == end.row {
                    start.col <= col <= end.col
                } else if row == start.row {
                    col >= start.col
                } else if row == end.row {
                    col <= end.col
                } else {
                    true
                }
            },
            SelectionType::Block => {
                let lo = if start.col <= end.col { start.col } else { end.col };
                let hi = if start.col <= end.col { end.col } else { start.col };
                start.row <= row <= end.row && lo <= col <= hi
            },
            SelectionType::Line => start.row <= row <= end.row,
        }
    }
}

impl Selection {
    pub open spec fn spec_new() -> Self {
        Selection {
            start: SelectionPoint { row: 0, col: 0 },
            end: SelectionPoint { row: 0, col: 0 },
            selection_type: SelectionType::Normal,
            active: false,
        }
    }

    pub fn new() -> (res: Self)
        ensures
            res == Self::spec_new(),
    {
        Selection {
            start: SelectionPoint::new(0, 0),
            end: SelectionPoint::new(0, 0),
            selection_type: SelectionType::Normal,
            active: false,
        }
    }

    /// Start a selection at (`row`, `col`).
    pub fn start_selection(&mut self, row: i64, col: usize, selection_type: SelectionType)
        ensures
            *final(self) == (Selection {
                start: SelectionPoint { row, col },
                end: SelectionPoint { row, col },
                selection_type,
                active: true,
            }),
    {
        self.start = SelectionPoint::new(row, col);
        self.end = SelectionPoint::new(row, col);
        self.selection_type = selection_type;
        self.active = true;
    }

    /// Move the end of an active selection.
    pub fn update_selection(&mut self, row: i64, col: usize)
        ensures
            old(self).active ==> *final(self) == (Selection {
                end: SelectionPoint { row, col },
                ..*old(self)
            }),
            !old(self).active ==> *final(self) == *old(self),
    {
        if self.active {
            self.end = SelectionPoint::new(row, col);
        }
    }

    /// Finish selecting (the selection stays).
    pub fn end_selection(&mut self)
        ensures
            *final(self) == (Selection { active: false, ..*old(self) }),
    {
        self.active = false;
    }

    pub fn clear(&mut self)
        ensures
            *final(self) == (Selection {
                active: false,
                start: SelectionPoint { row: 0, col: 0 },
                end: SelectionPoint { row: 0, col: 0 },
                ..*old(self)
            }),
    {
        self.active = false;
        self.start = SelectionPoint::new(0, 0);
        self.end = SelectionPoint::new(0, 0);
    }

    /// The two ends in order: the first is never after the second.
    pub fn normalized(&self) -> (res: (SelectionPoint, SelectionPoint))
        ensures
            res == spec_normalized(*self),
            point_le(res.0, res.1),
    {
        if self.start.le(&self.end) {
            (self.start, self.end)
        } else {
            (self.end, self.start)
        }
    }

    /// Whether the cell at (`row`, `col`) is selected.
    pub fn contains(&self, row: i64, col: usize) -> (res: bool)
        ensures
            res == spec_contains(*self, row as int, col as int),
    {
        if !self.active && self.start == self.end {
            return false;
        }
        let (start, end) = self.normalized();
        match self.selection_type {
            SelectionType::Normal => {
                if row < start.row || row > end.row {
                    return false;
                }
                if row == start.row && row == end.row {
                    col >= start.col && col <= end.col
                } else if row == start.row {
                    col >= start.col
                } else if row == end.row {
                    col <= end.col
                } else {
                    true
                }
            },
            SelectionType::Block => {
                let min_col = if start.col <= end.col {
                    start.col
                } else {
                    end.col
                };
                let max_col = if start.col <= end.col {
                    end.col
                } else {
                    start.col
                };
                row >= start.row && row <= end.row && col >= min_col && col <= max_col
            },
            SelectionType::Line => { row >= start.row && row <= end.row },
        }
    }

    /// Nothing is selected: the selection is finished and spans no cell.
    pub fn is_empty(&self) -> (res: bool)
        ensures
            res == (!self.active && self.start == self.end),
    {
        !self.active && self.start == self.end
    }
}

/// Both ends of a selection always lie inside it, and a selection whose
/// ends differ or that is still active is never empty.
pub proof fn lemma_ends_selected(s: Selection)
    requires
        s.active || s.start != s.end,
    ensures
        spec_contains(s, s.start.row as int, s.start.col as int),
        spec_contains(s, s.end.row as int, s.end.col as int),
{
}

/// Swapping the ends of a selection selects the same cells.
pub proof fn lemma_contains_symmetric(s: Selection, row: int, col: int)
    ensures
        spec_contains(s, row, col) == spec_contains(Selection { start: s.end, end: s.start, ..s }, row, col),
{
}

impl Default for Selection {
    fn default() -> (res: Self)
        ensures
            res == Self::spec_new(),
    {
        Self::new()
    }
}

} // verus!
