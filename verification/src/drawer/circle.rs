//! Circles given by centre and radius.
use vstd::prelude::*;

use crate::drawer::types::{Color, Point};
use crate::drawer::{DrawCmd, Drawer};

verus! {

/// @wasm required="center,radius"
#[derive(Clone, Copy, Debug, PartialEq, Eq, Structural)]
pub struct CircleData {
    pub center: Point,
    pub radius: u32,
    /// @default Color::WHITE
    pub color: Color,
    /// @default true
    pub fill: bool,
    /// @default 0 @setter stroke
    pub stroke_width: u32,
}

pub struct CircleBuilder {
    pub data: CircleData,
}

impl CircleBuilder {
    /// A filled white circle of radius `r` centred on (`cx`, `cy`).
    pub fn new(cx: u32, cy: u32, r: u32) -> (b: Self)
        ensures
            b.data == (CircleData {
                center: Point { x: cx, y: cy },
                radius: r,
                color: Color::Rgb(255, 255, 255),
                fill: true,
                stroke_width: 0,
            }),
    {
        Self {
            data: CircleData {
                center: Point { x: cx, y: cy },
                radius: r,
                color: Color::white(),
                fill: true,
                stroke_width: 0,
            },
        }
    }

    pub fn color(self, color: Color) -> (b: Self)
        ensures
            b.data == (CircleData { color, ..self.data }),
    {
        let mut b = self;
        b.data.color = color;
        b
    }

    /// Outline only: turns the fill off and sets the stroke width.
    pub fn stroke(self, width: u32) -> (b: Self)
        ensures
            b.data == (CircleData { fill: false, stroke_width: width, ..self.data }),
    {
        let mut b = self;
        b.data.fill = false;
        b.data.stroke_width = width;
        b
    }

    /// Executes the command on `drawer`.
    pub fn draw(self, drawer: &mut dyn Drawer)
        ensures
            final(drawer).commands() == old(drawer).commands().push(DrawCmd::Circle(self.data)),
            final(drawer).area() == old(drawer).area(),
    {
        drawer.execute_circle(self.data);
    }
}

} // verus!
