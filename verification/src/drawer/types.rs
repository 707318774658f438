//! Colours, geometry and the small enums that drawing commands carry.
use vstd::prelude::*;

verus! {

/// A 24-bit colour.
#[derive(Clone, Copy, Debug, PartialEq, Eq, Structural)]
pub enum Color {
    Rgb(u8, u8, u8),
}

impl Color {
    /// Full-intensity white.
    pub fn white() -> (c: Color)
        ensures
            c == Color::Rgb(255, 255, 255),
    {
        Color::Rgb(255, 255, 255)
    }

    /// Black.
    pub fn black() -> (c: Color)
        ensures
            c == Color::Rgb(0, 0, 0),
    {
        Color::Rgb(0, 0, 0)
    }
}

/// A pixel position.
#[derive(Clone, Copy, Debug, PartialEq, Eq, Structural)]
pub struct Point {
    pub x: u32,
    pub y: u32,
}

impl Point {
    pub fn new(x: u32, y: u32) -> (p: Point)
        ensures
            p == (Point { x, y }),
    {
        Point { x, y }
    }
}

/// A width and a height in pixels.
#[derive(Clone, Copy, Debug, PartialEq, Eq, Structural)]
pub struct Size {
    pub width: u32,
    pub height: u32,
}

impl Size {
    pub fn new(width: u32, height: u32) -> (s: Size)
        ensures
            s == (Size { width, height }),
    {
        Size { width, height }
    }
}

/// An axis-aligned rectangle: top-left corner and size.
#[derive(Clone, Copy, Debug, PartialEq, Eq, Structural)]
pub struct Rect {
    pub origin: Point,
    pub size: Size,
}

impl Rect {
    pub fn new(origin: Point, size: Size) -> (r: Rect)
        ensures
            r == (Rect { origin, size }),
    {
        Rect { origin, size }
    }
}

/// Fills the whole drawing area with one colour.
#[derive(Clone, Copy, Debug, PartialEq, Eq, Structural)]
pub struct ClearData {
    /// @default Color::BLACK
    pub color: Color,
}

/// Stroke alignment relative to the shape's boundary.
#[derive(Clone, Copy, Debug, PartialEq, Eq, Structural)]
pub enum StrokeAlignment {
    /// Stroke drawn inside the shape boundary.
    Inside,
    /// Stroke centered on the shape boundary (default).
    Center,
    /// Stroke drawn outside the shape boundary.
    Outside,
}

impl StrokeAlignment {
    /// The alignment numbered `v` (0 inside, 2 outside); any other number is
    /// the centre.
    pub fn from_int(v: u32) -> (a: Self)
        ensures
            a == stroke_alignment_of(v),
    {
        if v == 0 {
            Self::Inside
        } else if v == 2 {
            Self::Outside
        } else {
            Self::Center
        }
    }

    /// The number of this alignment on the wire.
    pub fn to_int(self) -> (v: u32)
        ensures
            v == stroke_alignment_number(self),
    {
        match self {
            Self::Inside => 0,
            Self::Center => 1,
            Self::Outside => 2,
        }
    }
}

/// The stroke alignment that the number `v` stands for.
pub open spec fn stroke_alignment_of(v: u32) -> StrokeAlignment {
    if v == 0 {
        StrokeAlignment::Inside
    } else if v == 2 {
        StrokeAlignment::Outside
    } else {
        StrokeAlignment::Center
    }
}

pub open spec fn stroke_alignment_number(a: StrokeAlignment) -> u32 {
    match a {
        StrokeAlignment::Inside => 0,
        StrokeAlignment::Center => 1,
        StrokeAlignment::Outside => 2,
    }
}

/// Built-in bitmap fonts: monospaced ones and the smaller u8g2 ones.
#[derive(Clone, Copy, Debug, PartialEq, Eq, Structural)]
pub enum Font {
    Font4x6,
    Font5x7,
    Font5x8,
    Font6x9,
    /// Default font.
    Font6x10,
    Font6x12,
    Font6x13,
    Font6x13Bold,
    Font6x13Italic,
    Font7x13,
    Font7x13Bold,
    Font7x13Italic,
    Font7x14,
    Font7x14Bold,
    Font8x13,
    Font8x13Bold,
    Font8x13Italic,
    Font9x15,
    Font9x15Bold,
    Font9x18,
    Font9x18Bold,
    Font10x20,
    /// 3×5 px, the smallest available.
    U8g2Font3x5,
    /// 4×6 px u8g2 variant.
    U8g2Font4x6,
    /// 5×7 px u8g2 variant.
    U8g2Font5x7,
    /// 5×8 px u8g2 variant.
    U8g2Font5x8,
}

/// The fonts in wire order: the font numbered `i` is `font_table()[i]`.
pub open spec fn font_table() -> Seq<Font> {
    seq![
        Font::Font4x6,
        Font::Font5x7,
        Font::Font5x8,
        Font::Font6x9,
        Font::Font6x10,
        Font::Font6x12,
        Font::Font6x13,
        Font::Font6x13Bold,
        Font::Font6x13Italic,
        Font::Font7x13,
        Font::Font7x13Bold,
        Font::Font7x13Italic,
        Font::Font7x14,
        Font::Font7x14Bold,
        Font::Font8x13,
        Font::Font8x13Bold,
        Font::Font8x13Italic,
        Font::Font9x15,
        Font::Font9x15Bold,
        Font::Font9x18,
        Font::Font9x18Bold,
        Font::Font10x20,
        Font::U8g2Font3x5,
        Font::U8g2Font4x6,
        Font::U8g2Font5x7,
        Font::U8g2Font5x8,
    ]
}

/// The font that the number `v` stands for.
pub open spec fn font_of(v: u32) -> Font {
    if v < font_table().len() {
        font_table()[v as int]
    } else {
        Font::Font6x10
    }
}

impl Font {
    /// The font numbered `v`; numbers past the last font give the default.
    pub fn from_int(v: u32) -> (f: Self)
        ensures
            f == font_of(v),
    {
        match v {
            0 => Self::Font4x6,
            1 => Self::Font5x7,
            2 => Self::Font5x8,
            3 => Self::Font6x9,
            4 => Self::Font6x10,
            5 => Self::Font6x12,
            6 => Self::Font6x13,
            7 => Self::Font6x13Bold,
            8 => Self::Font6x13Italic,
            9 => Self::Font7x13,
            10 => Self::Font7x13Bold,
            11 => Self::Font7x13Italic,
            12 => Self::Font7x14,
            13 => Self::Font7x14Bold,
            14 => Self::Font8x13,
            15 => Self::Font8x13Bold,
            16 => Self::Font8x13Italic,
            17 => Self::Font9x15,
            18 => Self::Font9x15Bold,
            19 => Self::Font9x18,
            20 => Self::Font9x18Bold,
            21 => Self::Font10x20,
            22 => Self::U8g2Font3x5,
            23 => Self::U8g2Font4x6,
            24 => Self::U8g2Font5x7,
            25 => Self::U8g2Font5x8,
            _ => Self::Font6x10,
        }
    }

    /// The number of this font on the wire.
    pub fn to_int(self) -> (v: u32)
        ensures
            v < font_table().len(),
            font_of(v) == self,
    {
        match self {
            Self::Font4x6 => 0,
            Self::Font5x7 => 1,
            Self::Font5x8 => 2,
            Self::Font6x9 => 3,
            Self::Font6x10 => 4,
            Self::Font6x12 => 5,
            Self::Font6x13 => 6,
            Self::Font6x13Bold => 7,
            Self::Font6x13Italic => 8,
            Self::Font7x13 => 9,
            Self::Font7x13Bold => 10,
            Self::Font7x13Italic => 11,
            Self::Font7x14 => 12,
            Self::Font7x14Bold => 13,
            Self::Font8x13 => 14,
            Self::Font8x13Bold => 15,
            Self::Font8x13Italic => 16,
            Self::Font9x15 => 17,
            Self::Font9x15Bold => 18,
            Self::Font9x18 => 19,
            Self::Font9x18Bold => 20,
            Self::Font10x20 => 21,
            Self::U8g2Font3x5 => 22,
            Self::U8g2Font4x6 => 23,
            Self::U8g2Font5x7 => 24,
            Self::U8g2Font5x8 => 25,
        }
    }
}

/// Horizontal text alignment.
#[derive(Clone, Copy, Debug, PartialEq, Eq, Structural)]
pub enum TextAlignment {
    Left,
    Center,
    Right,
}

impl TextAlignment {
    /// The alignment numbered `v` (1 centre, 2 right); any other number is left.
    pub fn from_int(v: u32) -> (a: Self)
        ensures
            a == text_alignment_of(v),
    {
        if v == 1 {
            Self::Center
        } else if v == 2 {
            Self::Right
        } else {
            Self::Left
        }
    }

    /// The number of this alignment on the wire.
    pub fn to_int(self) -> (v: u32)
        ensures
            v == text_alignment_number(self),
    {
        match self {
            Self::Left => 0,
            Self::Center => 1,
            Self::Right => 2,
        }
    }
}

/// The text alignment that the number `v` stands for.
pub open spec fn text_alignment_of(v: u32) -> TextAlignment {
    if v == 1 {
        TextAlignment::Center
    } else if v == 2 {
        TextAlignment::Right
    } else {
        TextAlignment::Left
    }
}

pub open spec fn text_alignment_number(a: TextAlignment) -> u32 {
    match a {
        TextAlignment::Left => 0,
        TextAlignment::Center => 1,
        TextAlignment::Right => 2,
    }
}

/// Vertical text baseline.
#[derive(Clone, Copy, Debug, PartialEq, Eq, Structural)]
pub enum Baseline {
    /// Bottom of descenders aligned to position (default).
    Alphabetic,
    /// Top of EM box aligned to position.
    Top,
    /// Middle of EM box aligned to position.
    Middle,
    /// Bottom of EM box aligned to position.
    Bottom,
}

impl Baseline {
    /// The baseline numbered `v` (1 top, 2 middle, 3 bottom); any other
    /// number is alphabetic.
    pub fn from_int(v: u32) -> (b: Self)
        ensures
            b == baseline_of(v),
    {
        if v == 1 {
            Self::Top
        } else if v == 2 {
            Self::Middle
        } else if v == 3 {
            Self::Bottom
        } else {
            Self::Alphabetic
        }
    }

    /// The number of this baseline on the wire.
    pub fn to_int(self) -> (v: u32)
        ensures
            v == baseline_number(self),
    {
        match self {
            Self::Alphabetic => 0,
            Self::Top => 1,
            Self::Middle => 2,
            Self::Bottom => 3,
        }
    }
}

/// The baseline that the number `v` stands for.
pub open spec fn baseline_of(v: u32) -> Baseline {
    if v == 1 {
        Baseline::Top
    } else if v == 2 {
        Baseline::Middle
    } else if v == 3 {
        Baseline::Bottom
    } else {
        Baseline::Alphabetic
    }
}

pub open spec fn baseline_number(b: Baseline) -> u32 {
    match b {
        Baseline::Alphabetic => 0,
        Baseline::Top => 1,
        Baseline::Middle => 2,
        Baseline::Bottom => 3,
    }
}

/// Decoding the wire number of a value gives the value back, for every
/// enum the wire carries as a number.
pub proof fn lemma_from_int_inverts_to_int(s: StrokeAlignment, a: TextAlignment, b: Baseline)
    ensures
        stroke_alignment_of(stroke_alignment_number(s)) == s,
        text_alignment_of(text_alignment_number(a)) == a,
        baseline_of(baseline_number(b)) == b,
{
}

} // verus!
