//! Ellipses inscribed in a bounding box.
use vstd::prelude::*;

use crate::drawer::types::{Color, Point, Rect, Size, StrokeAlignment};
use crate::drawer::{DrawCmd, Drawer};

verus! {

/// @wasm required="bounding_box"
#[derive(Clone, Copy, Debug, PartialEq, Eq, Structural)]
pub struct EllipseData {
    pub bounding_box: Rect,
    /// @default Color::WHITE
    pub fill_color: Color,
    /// @default true
    pub fill: bool,
    /// @default Color::WHITE
    pub stroke_color: Color,
    /// @default 0
    pub stroke_width: u32,
    /// @default StrokeAlignment::Center
    pub stroke_alignment: StrokeAlignment,
}

pub struct EllipseBuilder {
    pub data: EllipseData,
}

impl EllipseBuilder {
    /// A filled white ellipse in the box at (`x`, `y`) of size `width` × `height`.
    pub fn new(x: u32, y: u32, width: u32, height: u32) -> (b: Self)
        ensures
            b.data == (EllipseData {
                bounding_box: Rect { origin: Point { x, y }, size: Size { width, height } },
                fill_color: Color::Rgb(255, 255, 255),
                fill: true,
                stroke_color: Color::Rgb(255, 255, 255),
                stroke_width: 0,
                stroke_alignment: StrokeAlignment::Center,
            }),
    {
        Self {
            data: EllipseData {
                bounding_box: Rect::new(Point { x, y }, Size { width, height }),
                fill_color: Color::white(),
                fill: true,
                stroke_color: Color::white(),
                stroke_width: 0,
                stroke_alignment: StrokeAlignment::Center,
            },
        }
    }

    /// Sets the fill colour and turns the fill on.
    pub fn color(self, color: Color) -> (b: Self)
        ensures
            b.data == (EllipseData { fill_color: color, fill: true, ..self.data }),
    {
        let mut b = self;
        b.data.fill_color = color;
        b.data.fill = true;
        b
    }

    /// Sets the fill colour and turns the fill on.
    pub fn fill_color(self, color: Color) -> (b: Self)
        ensures
            b.data == (EllipseData { fill_color: color, fill: true, ..self.data }),
    {
        let mut b = self;
        b.data.fill_color = color;
        b.data.fill = true;
        b
    }

    /// Turns the fill off, leaving only the stroke.
    pub fn no_fill(self) -> (b: Self)
        ensures
            b.data == (EllipseData { fill: false, ..self.data }),
    {
        let mut b = self;
        b.data.fill = false;
        b
    }

    /// Sets the stroke width and turns the fill off.
    pub fn stroke(self, width: u32) -> (b: Self)
        ensures
            b.data == (EllipseData { fill: false, stroke_width: width, ..self.data }),
    {
        let mut b = self;
        b.data.fill = false;
        b.data.stroke_width = width;
        b
    }

    /// Sets the stroke colour, leaving the fill as it is.
    pub fn stroke_color(self, color: Color) -> (b: Self)
        ensures
            b.data == (EllipseData { stroke_color: color, ..self.data }),
    {
        let mut b = self;
        b.data.stroke_color = color;
        b
    }

    /// Sets the stroke width, leaving the fill as it is.
    pub fn stroke_width(self, width: u32) -> (b: Self)
        ensures
            b.data == (EllipseData { stroke_width: width, ..self.data }),
    {
        let mut b = self;
        b.data.stroke_width = width;
        b
    }

    /// Sets the stroke alignment (inside, centre or outside).
    pub fn stroke_alignment(self, alignment: StrokeAlignment) -> (b: Self)
        ensures
            b.data == (EllipseData { stroke_alignment: alignment, ..self.data }),
    {
        let mut b = self;
        b.data.stroke_alignment = alignment;
        b
    }

    /// Executes the command on `drawer`.
    pub fn draw(self, drawer: &mut dyn Drawer)
        ensures
            final(drawer).commands() == old(drawer).commands().push(DrawCmd::Ellipse(self.data)),
            final(drawer).area() == old(drawer).area(),
    {
        drawer.execute_ellipse(self.data);
    }
}

} // verus!
