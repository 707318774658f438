//! Text in one of the bitmap fonts.
use vstd::prelude::*;

use crate::drawer::types::{Baseline, Color, Font, Point, TextAlignment};
use crate::drawer::{DrawCmd, Drawer};

verus! {

/// @wasm required="text,position"
#[derive(Clone, Debug, PartialEq, Eq)]
pub struct TextData {
    pub text: String,
    pub position: Point,
    /// @default Color::WHITE
    pub color: Color,
    /// @default Color::BLACK
    pub background_color: Color,
    /// @default false
    pub has_background: bool,
    /// @default Font::Font6x10
    pub font: Font,
    /// @default false
    pub underline: bool,
    /// @default false
    pub strikethrough: bool,
    /// @default TextAlignment::Left
    pub alignment: TextAlignment,
    /// @default Baseline::Alphabetic
    pub baseline: Baseline,
}

pub struct TextBuilder {
    pub data: TextData,
}

impl TextBuilder {
    /// White, left-aligned text on the alphabetic baseline at (`x`, `y`),
    /// in the default font, without background or decorations.
    pub fn new(text: String, x: u32, y: u32) -> (b: Self)
        ensures
            b.data == (TextData {
                text,
                position: Point { x, y },
                color: Color::Rgb(255, 255, 255),
                background_color: Color::Rgb(0, 0, 0),
                has_background: false,
                font: Font::Font6x10,
                underline: false,
                strikethrough: false,
                alignment: TextAlignment::Left,
                baseline: Baseline::Alphabetic,
            }),
    {
        Self {
            data: TextData {
                text,
                position: Point { x, y },
                color: Color::white(),
                background_color: Color::black(),
                has_background: false,
                font: Font::Font6x10,
                underline: false,
                strikethrough: false,
                alignment: TextAlignment::Left,
                baseline: Baseline::Alphabetic,
            },
        }
    }

    /// Sets the text (foreground) colour.
    pub fn color(self, color: Color) -> (b: Self)
        ensures
            b.data == (TextData { color, ..self.data }),
    {
        let mut b = self;
        b.data.color = color;
        b
    }

    /// Sets a background colour behind the glyphs and turns the background on.
    pub fn background_color(self, color: Color) -> (b: Self)
        ensures
            b.data == (TextData { background_color: color, has_background: true, ..self.data }),
    {
        let mut b = self;
        b.data.background_color = color;
        b.data.has_background = true;
        b
    }

    /// Selects the bitmap font.
    pub fn font(self, font: Font) -> (b: Self)
        ensures
            b.data == (TextData { font, ..self.data }),
    {
        let mut b = self;
        b.data.font = font;
        b
    }

    /// Turns underlining on.
    pub fn underline(self) -> (b: Self)
        ensures
            b.data == (TextData { underline: true, ..self.data }),
    {
        let mut b = self;
        b.data.underline = true;
        b
    }

    /// Turns strikethrough on.
    pub fn strikethrough(self) -> (b: Self)
        ensures
            b.data == (TextData { strikethrough: true, ..self.data }),
    {
        let mut b = self;
        b.data.strikethrough = true;
        b
    }

    /// Sets the horizontal alignment.
    pub fn alignment(self, alignment: TextAlignment) -> (b: Self)
        ensures
            b.data == (TextData { alignment, ..self.data }),
    {
        let mut b = self;
        b.data.alignment = alignment;
        b
    }

    /// Sets the vertical anchor.
    pub fn baseline(self, baseline: Baseline) -> (b: Self)
        ensures
            b.data == (TextData { baseline, ..self.data }),
    {
        let mut b = self;
        b.data.baseline = baseline;
        b
    }

    /// Executes the command on `drawer`.
    pub fn draw(self, drawer: &mut dyn Drawer)
        ensures
            final(drawer).commands() == old(drawer).commands().push(DrawCmd::Text(self.data)),
            final(drawer).area() == old(drawer).area(),
    {
        drawer.execute_text(self.data);
    }
}

} // verus!
