//! Triangles given by their three corners.
use vstd::prelude::*;

use crate::drawer::types::{Color, Point};
use crate::drawer::{DrawCmd, Drawer};

verus! {

#[derive(Clone, Copy, Debug, PartialEq, Eq, Structural)]
pub struct TriangleData {
    pub p1: Point,
    pub p2: Point,
    pub p3: Point,
    pub color: Color,
    pub fill: bool,
    pub stroke_width: u32,
}

pub struct TriangleBuilder {
    pub data: TriangleData,
}

impl TriangleBuilder {
    /// A filled white triangle with corners `p1`, `p2`, `p3`.
    pub fn new(p1: Point, p2: Point, p3: Point) -> (b: Self)
        ensures
            b.data == (TriangleData {
                p1,
                p2,
                p3,
                color: Color::Rgb(255, 255, 255),
                fill: true,
                stroke_width: 0,
            }),
    {
        Self { data: TriangleData { p1, p2, p3, color: Color::white(), fill: true, stroke_width: 0 } }
    }

    pub fn color(self, color: Color) -> (b: Self)
        ensures
            b.data == (TriangleData { color, ..self.data }),
    {
        let mut b = self;
        b.data.color = color;
        b
    }

    /// Outline only: turns the fill off and sets the stroke width.
    pub fn stroke(self, width: u32) -> (b: Self)
        ensures
            b.data == (TriangleData { fill: false, stroke_width: width, ..self.data }),
    {
        let mut b = self;
        b.data.fill = false;
        b.data.stroke_width = width;
        b
    }

    /// Executes the command on `drawer`.
    pub fn draw(self, drawer: &mut dyn Drawer)
        ensures
            final(drawer).commands() == old(drawer).commands().push(DrawCmd::Triangle(self.data)),
            final(drawer).area() == old(drawer).area(),
    {
        drawer.execute_triangle(self.data);
    }
}

} // verus!
