//! Terminal cell representation.
//!
//! A cell represents a single character position in the terminal grid.
//! Each cell holds its text (a character or a grapheme cluster), foreground
//! and background colors, text attributes and an optional hyperlink id.

use vstd::prelude::*;
use vstd::string::*;

use crate::color::Color;

verus! {

/// Display width of a string in terminal columns, as computed by
/// `unicode_width` (UAX #11, non-CJK context).
pub uninterp spec fn display_width(s: Seq<char>) -> usize;

/// `UnicodeWidthStr::width` of the `unicode_width` crate: the number of
/// terminal columns the string occupies. Its value is named, not spelled out.
#[verifier::external_body]
pub(crate) fn str_display_width(s: &str) -> (w: usize)
    ensures
        w == display_width(s@),
{
    unicode_width::UnicodeWidthStr::width(s)
}

/// `char::to_string`: the one-character string holding `c`.
#[verifier::external_body]
pub(crate) fn char_to_string(c: char) -> (s: String)
    ensures
        s@ == seq![c],
{
    c.to_string()
}

/// The space character as a one-character sequence.
pub open spec fn space_text() -> Seq<char> {
    seq![' ']
}

/// A fresh string holding a single space.
pub fn space_string() -> (s: String)
    ensures
        s@ == space_text(),
{
    let s = String::from_str(" ");
    proof {
        reveal_strlit(" ");
        assert(s@ =~= space_text());
    }
    s
}

/// Flags for cell text attributes.
#[derive(Debug, Clone, Copy, PartialEq, Eq, Default, Structural)]
pub struct CellFlags {
    pub bits: u16,
}

impl CellFlags {
    pub const NONE: u16 = 0;
    pub const BOLD: u16 = 1;
    pub const FAINT: u16 = 2;
    pub const ITALIC: u16 = 4;
    pub const UNDERLINE: u16 = 8;
    pub const BLINK: u16 = 16;
    pub const INVERSE: u16 = 32;
    pub const HIDDEN: u16 = 64;
    pub const STRIKETHROUGH: u16 = 128;
    pub const DOUBLE_UNDERLINE: u16 = 256;
    pub const WIDE_CHAR: u16 = 512;
    pub const WIDE_CHAR_SPACER: u16 = 1024;

    /// Whether any bit of `flag` is set in `bits`.
    pub open spec fn has(self, flag: u16) -> bool {
        self.bits & flag != 0
    }

    pub fn empty() -> (res: Self)
        ensures
            res.bits == 0,
    {
        CellFlags { bits: 0 }
    }

    pub fn new(bits: u16) -> (res: Self)
        ensures
            res.bits == bits,
    {
        CellFlags { bits }
    }

    pub fn contains(&self, flag: u16) -> (res: bool)
        ensures
            res == self.has(flag),
    {
        self.bits & flag != 0
    }

    pub fn set(&mut self, flag: u16, value: bool)
        ensures
            value ==> final(self).bits == old(self).bits | flag,
            !value ==> final(self).bits == old(self).bits & !flag,
    {
        if value {
            self.bits = self.bits | flag;
        } else {
            self.bits = self.bits & !flag;
        }
    }

    pub fn insert(&mut self, flag: u16)
        ensures
            final(self).bits == old(self).bits | flag,
    {
        self.bits = self.bits | flag;
    }

    pub fn remove(&mut self, flag: u16)
        ensures
            final(self).bits == old(self).bits & !flag,
    {
        self.bits = self.bits & !flag;
    }

    pub fn bits(&self) -> (res: u16)
        ensures
            res == self.bits,
    {
        self.bits
    }

    pub fn is_empty(&self) -> (res: bool)
        ensures
            res == (self.bits == 0),
    {
        self.bits == 0
    }
}

/// After `insert(flag)`, every bit of `flag` is present; other flags that
/// were present stay present.
pub proof fn lemma_insert_contains(bits: u16, flag: u16, other: u16)
    requires
        flag != 0,
    ensures
        (bits | flag) & flag != 0,
        bits & other != 0 ==> (bits | flag) & other != 0,
{
    assert((bits | flag) & flag != 0) by (bit_vector)
        requires
            flag != 0,
    ;
    assert(bits & other != 0 ==> (bits | flag) & other != 0) by (bit_vector);
}

/// After `remove(flag)`, no bit of `flag` is present; a flag that shares no
/// bit with `flag` keeps its presence.
pub proof fn lemma_remove_contains(bits: u16, flag: u16, other: u16)
    ensures
        (bits & !flag) & flag == 0,
        other & flag == 0 ==> ((bits & !flag) & other != 0 <==> bits & other != 0),
{
    assert((bits & !flag) & flag == 0) by (bit_vector);
    assert(other & flag == 0 ==> ((bits & !flag) & other != 0 <==> bits & other != 0))
        by (bit_vector);
}

/// The abstract values of a sequence of cells.
pub open spec fn cells_view(s: Seq<Cell>) -> Seq<CellModel> {
    Seq::new(s.len(), |i: int| s[i]@)
}

pub proof fn lemma_cells_view_push(s: Seq<Cell>, c: Cell)
    ensures
        cells_view(s.push(c)) =~= cells_view(s).push(c@),
{
}

pub proof fn lemma_cells_view_drop_last(s: Seq<Cell>)
    requires
        s.len() > 0,
    ensures
        cells_view(s.drop_last()) =~= cells_view(s).drop_last(),
{
}

pub proof fn lemma_cells_view_insert(s: Seq<Cell>, i: int, c: Cell)
    requires
        0 <= i <= s.len(),
    ensures
        cells_view(s.insert(i, c)) =~= cells_view(s).insert(i, c@),
{
}

pub proof fn lemma_cells_view_remove(s: Seq<Cell>, i: int)
    requires
        0 <= i < s.len(),
    ensures
        cells_view(s.remove(i)) =~= cells_view(s).remove(i),
{
}

pub proof fn lemma_cells_view_update(s: Seq<Cell>, i: int, c: Cell)
    requires
        0 <= i < s.len(),
    ensures
        cells_view(s.update(i, c)) =~= cells_view(s).update(i, c@),
{
}

pub broadcast proof fn lemma_cells_view_update_auto(s: Seq<Cell>, i: int, c: Cell)
    requires
        0 <= i < s.len(),
    ensures
        #[trigger] cells_view(s.update(i, c)) == cells_view(s).update(i, c@),
{
    assert(cells_view(s.update(i, c)) =~= cells_view(s).update(i, c@));
}

pub proof fn lemma_cells_view_subrange(s: Seq<Cell>, a: int, b: int)
    requires
        0 <= a <= b <= s.len(),
    ensures
        cells_view(s.subrange(a, b)) =~= cells_view(s).subrange(a, b),
{
}

/// The abstract value of a cell: its text and attributes.
pub struct CellModel {
    pub text: Seq<char>,
    pub fg: Color,
    pub bg: Color,
    pub flags: u16,
    pub hyperlink_id: u32,
}

/// A blank cell: a space with default colors, no flags and no hyperlink.
pub open spec fn blank_cell() -> CellModel {
    CellModel {
        text: space_text(),
        fg: Color::Default,
        bg: Color::Default,
        flags: 0,
        hyperlink_id: 0,
    }
}

/// A single cell in the terminal grid.
#[derive(Debug)]
pub struct Cell {
    /// The text stored in this cell (a character or a grapheme cluster)
    pub c: String,
    /// Foreground color
    pub fg: Color,
    /// Background color
    pub bg: Color,
    /// Text attributes
    pub flags: CellFlags,
    /// Hyperlink ID (0 = no hyperlink)
    pub hyperlink_id: u32,
}

impl View for Cell {
    type V = CellModel;

    open spec fn view(&self) -> CellModel {
        CellModel {
            text: self.c@,
            fg: self.fg,
            bg: self.bg,
            flags: self.flags.bits,
            hyperlink_id: self.hyperlink_id,
        }
    }
}

impl Default for Cell {
    fn default() -> (res: Self)
        ensures
            res@ == blank_cell(),
    {
        Cell {
            c: space_string(),
            fg: Color::Default,
            bg: Color::Default,
            flags: CellFlags::empty(),
            hyperlink_id: 0,
        }
    }
}

impl Cell {
    /// A blank cell.
    pub fn blank() -> (res: Self)
        ensures
            res@ == blank_cell(),
    {
        Cell {
            c: space_string(),
            fg: Color::Default,
            bg: Color::Default,
            flags: CellFlags::empty(),
            hyperlink_id: 0,
        }
    }

    /// Create a new cell holding the given character.
    pub fn new(c: char) -> (res: Self)
        ensures
            res@ == (CellModel { text: seq![c], ..blank_cell() }),
    {
        Cell {
            c: char_to_string(c),
            fg: Color::Default,
            bg: Color::Default,
            flags: CellFlags::empty(),
            hyperlink_id: 0,
        }
    }

    /// Create a new cell holding a grapheme cluster.
    pub fn new_grapheme(s: &str) -> (res: Self)
        ensures
            res@ == (CellModel { text: s@, ..blank_cell() }),
    {
        Cell {
            c: String::from_str(s),
            fg: Color::Default,
            bg: Color::Default,
            flags: CellFlags::empty(),
            hyperlink_id: 0,
        }
    }

    /// Whether the cell holds only a space (or nothing) with default attributes.
    pub open spec fn spec_is_empty(self) -> bool {
        (self.c@ == space_text() || self.c@.len() == 0)
            && self.fg == Color::Default
            && self.bg == Color::Default
            && self.flags.bits == 0
            && self.hyperlink_id == 0
    }

    /// Check if this cell is empty (contains only a space with default attributes).
    pub fn is_empty(&self) -> (res: bool)
        ensures
            res == self.spec_is_empty(),
    {
        let s = self.c.as_str();
        let n = s.unicode_len();
        let text_blank = if n == 0 {
            true
        } else if n == 1 {
            s.get_char(0) == ' '
        } else {
            false
        };
        proof {
            if n == 1 && s@[0] == ' ' {
                assert(self.c@ =~= space_text());
            }
        }
        text_blank && self.fg == Color::Default && self.bg == Color::Default
            && self.flags.is_empty() && self.hyperlink_id == 0
    }

    /// Reset the cell to the default (blank) state.
    pub fn reset(&mut self)
        ensures
            final(self)@ == blank_cell(),
    {
        self.c = space_string();
        self.fg = Color::Default;
        self.bg = Color::Default;
        self.flags = CellFlags::empty();
        self.hyperlink_id = 0;
    }

    /// Clear the cell (same as `reset`).
    pub fn clear(&mut self)
        ensures
            final(self)@ == blank_cell(),
    {
        self.reset();
    }

    /// Clear the cell and give it the background color `bg`.
    pub fn clear_with_bg(&mut self, bg: Color)
        ensures
            final(self)@ == (CellModel { bg, ..blank_cell() }),
    {
        self.reset();
        self.bg = bg;
    }

    /// Display width of this cell: 0 for a wide-character spacer, 2 for a
    /// wide character, otherwise the width of its text but at least 1.
    pub fn width(&self) -> (res: usize)
        ensures
            self.flags.has(CellFlags::WIDE_CHAR_SPACER) ==> res == 0,
            !self.flags.has(CellFlags::WIDE_CHAR_SPACER) && self.flags.has(CellFlags::WIDE_CHAR)
                ==> res == 2,
            !self.flags.has(CellFlags::WIDE_CHAR_SPACER) && !self.flags.has(CellFlags::WIDE_CHAR)
                ==> res == (if display_width(self.c@) >= 1 {
                    display_width(self.c@)
                } else {
                    1
                }),
    {
        if self.flags.contains(CellFlags::WIDE_CHAR_SPACER) {
            0
        } else if self.flags.contains(CellFlags::WIDE_CHAR) {
            2
        } else {
            let w = str_display_width(self.c.as_str());
            if w >= 1 {
                w
            } else {
                1
            }
        }
    }

    /// Check if this cell is a wide character.
    pub fn is_wide(&self) -> (res: bool)
        ensures
            res == self.flags.has(CellFlags::WIDE_CHAR),
    {
        self.flags.contains(CellFlags::WIDE_CHAR)
    }

    /// Check if this cell is the spacer that follows a wide character.
    pub fn is_wide_spacer(&self) -> (res: bool)
        ensures
            res == self.flags.has(CellFlags::WIDE_CHAR_SPACER),
    {
        self.flags.contains(CellFlags::WIDE_CHAR_SPACER)
    }

    /// A copy of this cell.
    pub fn duplicate(&self) -> (res: Self)
        ensures
            res@ == self@,
    {
        Cell {
            c: self.c.clone(),
            fg: self.fg,
            bg: self.bg,
            flags: self.flags,
            hyperlink_id: self.hyperlink_id,
        }
    }
}

impl Clone for Cell {
    fn clone(&self) -> (res: Self)
        ensures
            res@ == self@,
    {
        self.duplicate()
    }
}

/// Attributes that can be applied to cells (used while writing).
#[derive(Debug, Clone, Copy, PartialEq, Eq, Structural)]
pub struct CellAttributes {
    pub fg: Color,
    pub bg: Color,
    pub flags: CellFlags,
    pub hyperlink_id: u32,
}

impl CellAttributes {
    /// Default attributes: default colors, no flags, no hyperlink.
    pub open spec fn spec_default() -> Self {
        CellAttributes {
            fg: Color::Default,
            bg: Color::Default,
            flags: CellFlags { bits: 0 },
            hyperlink_id: 0,
        }
    }

    pub fn new() -> (res: Self)
        ensures
            res == Self::spec_default(),
    {
        CellAttributes {
            fg: Color::Default,
            bg: Color::Default,
            flags: CellFlags::empty(),
            hyperlink_id: 0,
        }
    }

    /// Apply these attributes to a cell (its text is kept).
    pub fn apply_to(&self, cell: &mut Cell)
        ensures
            final(cell)@ == (CellModel {
                text: old(cell)@.text,
                fg: self.fg,
                bg: self.bg,
                flags: self.flags.bits,
                hyperlink_id: self.hyperlink_id,
            }),
    {
        cell.fg = self.fg;
        cell.bg = self.bg;
        cell.flags = self.flags;
        cell.hyperlink_id = self.hyperlink_id;
    }

    /// Reset all attributes to default.
    pub fn reset(&mut self)
        ensures
            *final(self) == Self::spec_default(),
    {
        self.fg = Color::Default;
        self.bg = Color::Default;
        self.flags = CellFlags::empty();
        self.hyperlink_id = 0;
    }
}

impl Default for CellAttributes {
    fn default() -> (res: Self)
        ensures
            res == Self::spec_default(),
    {
        CellAttributes::new()
    }
}

} // verus!
