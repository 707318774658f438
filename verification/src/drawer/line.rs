//! Straight lines between two points.
use vstd::prelude::*;

use crate::drawer::types::{Color, Point};
use crate::drawer::{DrawCmd, Drawer};

verus! {

/// @wasm required="start,end"
#[derive(Clone, Copy, Debug, PartialEq, Eq, Structural)]
pub struct LineData {
    pub start: Point,
    pub end: Point,
    /// @default Color::WHITE
    pub color: Color,
    /// @default 1
    pub thickness: u32,
}

pub struct LineBuilder {
    pub data: LineData,
}

impl LineBuilder {
    /// A white line one pixel thick from `start` to `end`.
    pub fn new(start: Point, end: Point) -> (b: Self)
        ensures
            b.data == (LineData { start, end, color: Color::Rgb(255, 255, 255), thickness: 1 }),
    {
        Self { data: LineData { start, end, color: Color::white(), thickness: 1 } }
    }

    pub fn color(self, color: Color) -> (b: Self)
        ensures
            b.data == (LineData { color, ..self.data }),
    {
        let mut b = self;
        b.data.color = color;
        b
    }

    pub fn thickness(self, thickness: u32) -> (b: Self)
        ensures
            b.data == (LineData { thickness, ..self.data }),
    {
        let mut b = self;
        b.data.thickness = thickness;
        b
    }

    /// Executes the command on `drawer`.
    pub fn draw(self, drawer: &mut dyn Drawer)
        ensures
            final(drawer).commands() == old(drawer).commands().push(DrawCmd::Line(self.data)),
            final(drawer).area() == old(drawer).area(),
    {
        drawer.execute_line(self.data);
    }
}

} // verus!
