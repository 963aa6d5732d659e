//! Terminal color representation.
//!
//! Supports the named 16-color palette, the 256-color indexed palette and
//! 24-bit true color.

use vstd::prelude::*;
use vstd::array::*;

verus! {

/// A terminal color.
#[derive(Debug, Clone, Copy, PartialEq, Eq, Structural)]
pub enum Color {
    /// Default foreground or background color
    Default,
    /// Named color from the 16-color palette (0-15)
    Named(NamedColor),
    /// 256-color palette index (0-255)
    Indexed(u8),
    /// 24-bit RGB color
    Rgb(Rgb),
}

impl Default for Color {
    fn default() -> (res: Self)
        ensures
            res == Color::Default,
    {
        Color::Default
    }
}

/// Named colors from the standard 16-color ANSI palette.
#[derive(Debug, Clone, Copy, PartialEq, Eq, Structural)]
pub enum NamedColor {
    Black,
    Red,
    Green,
    Yellow,
    Blue,
    Magenta,
    Cyan,
    White,
    BrightBlack,
    BrightRed,
    BrightGreen,
    BrightYellow,
    BrightBlue,
    BrightMagenta,
    BrightCyan,
    BrightWhite,
}

/// The position of a named color in the 16-color palette.
pub open spec fn named_index(c: NamedColor) -> u8 {
    match c {
        NamedColor::Black => 0,
        NamedColor::Red => 1,
        NamedColor::Green => 2,
        NamedColor::Yellow => 3,
        NamedColor::Blue => 4,
        NamedColor::Magenta => 5,
        NamedColor::Cyan => 6,
        NamedColor::White => 7,
        NamedColor::BrightBlack => 8,
        NamedColor::BrightRed => 9,
        NamedColor::BrightGreen => 10,
        NamedColor::BrightYellow => 11,
        NamedColor::BrightBlue => 12,
        NamedColor::BrightMagenta => 13,
        NamedColor::BrightCyan => 14,
        NamedColor::BrightWhite => 15,
    }
}

/// The named color at a palette position (0-15).
pub open spec fn named_at(i: u8) -> NamedColor
    recommends
        i < 16,
{
    if i == 0 {
        NamedColor::Black
    } else if i == 1 {
        NamedColor::Red
    } else if i == 2 {
        NamedColor::Green
    } else if i == 3 {
        NamedColor::Yellow
    } else if i == 4 {
        NamedColor::Blue
    } else if i == 5 {
        NamedColor::Magenta
    } else if i == 6 {
        NamedColor::Cyan
    } else if i == 7 {
        NamedColor::White
    } else if i == 8 {
        NamedColor::BrightBlack
    } else if i == 9 {
        NamedColor::BrightRed
    } else if i == 10 {
        NamedColor::BrightGreen
    } else if i == 11 {
        NamedColor::BrightYellow
    } else if i == 12 {
        NamedColor::BrightBlue
    } else if i == 13 {
        NamedColor::BrightMagenta
    } else if i == 14 {
        NamedColor::BrightCyan
    } else {
        NamedColor::BrightWhite
    }
}

impl NamedColor {
    /// Convert from an SGR color offset (the `n` of 30+n / 40+n).
    pub fn from_sgr_normal(code: u8) -> (res: Option<Self>)
        ensures
            code < 8 ==> res == Some(named_at(code)),
            code >= 8 ==> res is None,
    {
        match code {
            0 => Some(NamedColor::Black),
            1 => Some(NamedColor::Red),
            2 => Some(NamedColor::Green),
            3 => Some(NamedColor::Yellow),
            4 => Some(NamedColor::Blue),
            5 => Some(NamedColor::Magenta),
            6 => Some(NamedColor::Cyan),
            7 => Some(NamedColor::White),
            _ => None,
        }
    }

    /// Convert from an SGR bright color offset (the `n` of 90+n / 100+n).
    pub fn from_sgr_bright(code: u8) -> (res: Option<Self>)
        ensures
            code < 8 ==> res == Some(named_at((code + 8) as u8)),
            code >= 8 ==> res is None,
    {
        match code {
            0 => Some(NamedColor::BrightBlack),
            1 => Some(NamedColor::BrightRed),
            2 => Some(NamedColor::BrightGreen),
            3 => Some(NamedColor::BrightYellow),
            4 => Some(NamedColor::BrightBlue),
            5 => Some(NamedColor::BrightMagenta),
            6 => Some(NamedColor::BrightCyan),
            7 => Some(NamedColor::BrightWhite),
            _ => None,
        }
    }

    /// Get the index in the 256-color palette.
    pub fn to_index(self) -> (res: u8)
        ensures
            res == named_index(self),
            res < 16,
            named_at(res) == self,
    {
        match self {
            NamedColor::Black => 0,
            NamedColor::Red => 1,
            NamedColor::Green => 2,
            NamedColor::Yellow => 3,
            NamedColor::Blue => 4,
            NamedColor::Magenta => 5,
            NamedColor::Cyan => 6,
            NamedColor::White => 7,
            NamedColor::BrightBlack => 8,
            NamedColor::BrightRed => 9,
            NamedColor::BrightGreen => 10,
            NamedColor::BrightYellow => 11,
            NamedColor::BrightBlue => 12,
            NamedColor::BrightMagenta => 13,
            NamedColor::BrightCyan => 14,
            NamedColor::BrightWhite => 15,
        }
    }
}

/// 24-bit RGB color.
#[derive(Debug, Clone, Copy, PartialEq, Eq, Structural)]
pub struct Rgb {
    pub r: u8,
    pub g: u8,
    pub b: u8,
}

impl Rgb {
    pub fn new(r: u8, g: u8, b: u8) -> (res: Self)
        ensures
            res == (Rgb { r, g, b }),
    {
        Rgb { r, g, b }
    }
}

/// Shorthand for an RGB triple.
pub open spec fn rgb(r: u8, g: u8, b: u8) -> Rgb {
    Rgb { r, g, b }
}

/// The sixteen standard ANSI colors of the default palette.
pub open spec fn standard_color(i: int) -> Rgb {
    if i == 0 {
        rgb(0, 0, 0)
    } else if i == 1 {
        rgb(205, 0, 0)
    } else if i == 2 {
        rgb(0, 205, 0)
    } else if i == 3 {
        rgb(205, 205, 0)
    } else if i == 4 {
        rgb(0, 0, 238)
    } else if i == 5 {
        rgb(205, 0, 205)
    } else if i == 6 {
        rgb(0, 205, 205)
    } else if i == 7 {
        rgb(229, 229, 229)
    } else if i == 8 {
        rgb(127, 127, 127)
    } else if i == 9 {
        rgb(255, 0, 0)
    } else if i == 10 {
        rgb(0, 255, 0)
    } else if i == 11 {
        rgb(255, 255, 0)
    } else if i == 12 {
        rgb(92, 92, 255)
    } else if i == 13 {
        rgb(255, 0, 255)
    } else if i == 14 {
        rgb(0, 255, 255)
    } else {
        rgb(255, 255, 255)
    }
}

/// Intensity of a level (0-5) of the 6x6x6 color cube.
pub open spec fn cube_level(v: int) -> u8 {
    if v == 0 {
        0
    } else if v == 1 {
        95
    } else if v == 2 {
        135
    } else if v == 3 {
        175
    } else if v == 4 {
        215
    } else {
        255
    }
}

/// Entry `i` of the default 256-color palette: the 16 standard colors,
/// then the 6x6x6 color cube, then a 24-step grayscale ramp.
pub open spec fn palette_color(i: int) -> Rgb {
    if i < 16 {
        standard_color(i)
    } else if i < 232 {
        rgb(cube_level((i - 16) / 36), cube_level(((i - 16) / 6) % 6), cube_level((i - 16) % 6))
    } else {
        let gray = ((i - 232) * 10 + 8) as u8;
        rgb(gray, gray, gray)
    }
}

proof fn lemma_cube_index(r: int, g: int, b: int)
    requires
        0 <= r < 6,
        0 <= g < 6,
        0 <= b < 6,
    ensures
        (r * 36 + g * 6 + b) / 36 == r,
        ((r * 36 + g * 6 + b) / 6) % 6 == g,
        (r * 36 + g * 6 + b) % 6 == b,
        0 <= r * 36 + g * 6 + b < 216,
{
    assert((r * 36 + g * 6 + b) / 36 == r) by (nonlinear_arith)
        requires
            0 <= r < 6,
            0 <= g < 6,
            0 <= b < 6,
    ;
    assert((r * 36 + g * 6 + b) / 6 == r * 6 + g) by (nonlinear_arith)
        requires
            0 <= r < 6,
            0 <= g < 6,
            0 <= b < 6,
    ;
    assert((r * 6 + g) % 6 == g) by (nonlinear_arith)
        requires
            0 <= r < 6,
            0 <= g < 6,
    ;
    assert((r * 36 + g * 6 + b) % 6 == b) by (nonlinear_arith)
        requires
            0 <= r < 6,
            0 <= g < 6,
            0 <= b < 6,
    ;
    assert(0 <= r * 36 + g * 6 + b < 216) by (nonlinear_arith)
        requires
            0 <= r < 6,
            0 <= g < 6,
            0 <= b < 6,
    ;
}

fn cube_value(v: usize) -> (res: u8)
    requires
        v < 6,
    ensures
        res == cube_level(v as int),
{
    let cube_values: [u8; 6] = [0u8, 95, 135, 175, 215, 255];
    assert(cube_values@ == seq![0u8, 95, 135, 175, 215, 255]);
    cube_values[v]
}

/// Default color palette for 256-color mode.
/// Colors 0-15: standard ANSI colors; 16-231: 6x6x6 color cube;
/// 232-255: grayscale ramp.
pub fn default_256_palette() -> (palette: [Rgb; 256])
    ensures
        forall|i: int| 0 <= i < 256 ==> #[trigger] palette@[i] == palette_color(i),
{
    let mut palette = [Rgb::new(0, 0, 0); 256];

    // Standard colors (0-7)
    palette[0] = Rgb::new(0, 0, 0);
    palette[1] = Rgb::new(205, 0, 0);
    palette[2] = Rgb::new(0, 205, 0);
    palette[3] = Rgb::new(205, 205, 0);
    palette[4] = Rgb::new(0, 0, 238);
    palette[5] = Rgb::new(205, 0, 205);
    palette[6] = Rgb::new(0, 205, 205);
    palette[7] = Rgb::new(229, 229, 229);

    // Bright colors (8-15)
    palette[8] = Rgb::new(127, 127, 127);
    palette[9] = Rgb::new(255, 0, 0);
    palette[10] = Rgb::new(0, 255, 0);
    palette[11] = Rgb::new(255, 255, 0);
    palette[12] = Rgb::new(92, 92, 255);
    palette[13] = Rgb::new(255, 0, 255);
    palette[14] = Rgb::new(0, 255, 255);
    palette[15] = Rgb::new(255, 255, 255);

    // 6x6x6 color cube (16-231)
    let mut r: usize = 0;
    while r < 6
        invariant
            r <= 6,
            palette@.len() == 256,
            forall|j: int| 0 <= j < 16 + r * 36 ==> #[trigger] palette@[j] == palette_color(j),
        decreases 6 - r,
    {
        let mut g: usize = 0;
        while g < 6
            invariant
                r < 6,
                g <= 6,
                palette@.len() == 256,
                forall|j: int|
                    0 <= j < 16 + r * 36 + g * 6 ==> #[trigger] palette@[j] == palette_color(j),
            decreases 6 - g,
        {
            let mut b: usize = 0;
            while b < 6
                invariant
                    r < 6,
                    g < 6,
                    b <= 6,
                    palette@.len() == 256,
                    forall|j: int|
                        0 <= j < 16 + r * 36 + g * 6 + b ==> #[trigger] palette@[j]
                            == palette_color(j),
                decreases 6 - b,
            {
                proof {
                    lemma_cube_index(r as int, g as int, b as int);
                }
                let index = 16 + r * 36 + g * 6 + b;
                let color = Rgb::new(cube_value(r), cube_value(g), cube_value(b));
                palette[index] = color;
                b = b + 1;
            }
            g = g + 1;
        }
        r = r + 1;
    }

    // Grayscale ramp (232-255)
    let mut i: usize = 0;
    while i < 24
        invariant
            i <= 24,
            palette@.len() == 256,
            forall|j: int| 0 <= j < 232 + i ==> #[trigger] palette@[j] == palette_color(j),
        decreases 24 - i,
    {
        let gray = (i * 10 + 8) as u8;
        palette[232 + i] = Rgb::new(gray, gray, gray);
        i = i + 1;
    }
    palette
}

} // verus!
