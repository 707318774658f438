//! Rectangles, optionally rounded.
use vstd::prelude::*;

use crate::drawer::types::{Color, Point, Rect, Size};
use crate::drawer::{DrawCmd, Drawer};

verus! {

#[derive(Clone, Copy, Debug, PartialEq, Eq, Structural)]
pub struct RectData {
    pub rect: Rect,
    pub color: Color,
    pub fill: bool,
    pub stroke_width: u32,
    pub corner_radius: u32,
}

pub struct RectBuilder {
    pub data: RectData,
}

impl RectBuilder {
    /// A filled white rectangle at (`x`, `y`) of size `w` × `h`, square corners.
    pub fn new(x: u32, y: u32, w: u32, h: u32) -> (b: Self)
        ensures
            b.data == (RectData {
                rect: Rect { origin: Point { x, y }, size: Size { width: w, height: h } },
                color: Color::Rgb(255, 255, 255),
                fill: true,
                stroke_width: 0,
                corner_radius: 0,
            }),
    {
        Self {
            data: RectData {
                rect: Rect { origin: Point { x, y }, size: Size { width: w, height: h } },
                color: Color::white(),
                fill: true,
                stroke_width: 0,
                corner_radius: 0,
            },
        }
    }

    pub fn color(self, color: Color) -> (b: Self)
        ensures
            b.data == (RectData { color, ..self.data }),
    {
        let mut b = self;
        b.data.color = color;
        b
    }

    /// Outline only: turns the fill off and sets the stroke width.
    pub fn stroke(self, width: u32) -> (b: Self)
        ensures
            b.data == (RectData { fill: false, stroke_width: width, ..self.data }),
    {
        let mut b = self;
        b.data.fill = false;
        b.data.stroke_width = width;
        b
    }

    pub fn rounded(self, radius: u32) -> (b: Self)
        ensures
            b.data == (RectData { corner_radius: radius, ..self.data }),
    {
        let mut b = self;
        b.data.corner_radius = radius;
        b
    }

    /// Executes the command on `drawer`.
    pub fn draw(self, drawer: &mut dyn Drawer)
        ensures
            final(drawer).commands() == old(drawer).commands().push(DrawCmd::Rect(self.data)),
            final(drawer).area() == old(drawer).area(),
    {
        drawer.execute_rect(self.data);
    }
}

} // verus!
