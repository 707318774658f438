//! Circular arcs: a stroke along part of a circle.
use vstd::prelude::*;

use crate::drawer::types::{Color, Point, StrokeAlignment};
use crate::drawer::{DrawCmd, Drawer};

verus! {

/// @wasm required="center,radius"
#[derive(Clone, Copy, Debug, PartialEq, Eq, Structural)]
pub struct ArcData {
    pub center: Point,
    pub radius: u32,
    /// @default 0
    pub angle_start: i32,
    /// @default 360
    pub angle_sweep: i32,
    /// @default Color::WHITE
    pub stroke_color: Color,
    /// @default 1
    pub stroke_width: u32,
    /// @default StrokeAlignment::Center
    pub stroke_alignment: StrokeAlignment,
}

pub struct ArcBuilder {
    pub data: ArcData,
}

impl ArcBuilder {
    /// A full white circle outline of radius `r` centred on (`cx`, `cy`).
    pub fn new(cx: u32, cy: u32, r: u32) -> (b: Self)
        ensures
            b.data == (ArcData {
                center: Point { x: cx, y: cy },
                radius: r,
                angle_start: 0,
                angle_sweep: 360,
                stroke_color: Color::Rgb(255, 255, 255),
                stroke_width: 1,
                stroke_alignment: StrokeAlignment::Center,
            }),
    {
        Self {
            data: ArcData {
                center: Point { x: cx, y: cy },
                radius: r,
                angle_start: 0,
                angle_sweep: 360,
                stroke_color: Color::white(),
                stroke_width: 1,
                stroke_alignment: StrokeAlignment::Center,
            },
        }
    }

    /// Sets the start angle in degrees.
    pub fn angle_start(self, degrees: i32) -> (b: Self)
        ensures
            b.data == (ArcData { angle_start: degrees, ..self.data }),
    {
        let mut b = self;
        b.data.angle_start = degrees;
        b
    }

    /// Sets the sweep angle in degrees.
    pub fn angle_sweep(self, degrees: i32) -> (b: Self)
        ensures
            b.data == (ArcData { angle_sweep: degrees, ..self.data }),
    {
        let mut b = self;
        b.data.angle_sweep = degrees;
        b
    }

    /// Sets both start and sweep angles in degrees.
    pub fn angles(self, start: i32, sweep: i32) -> (b: Self)
        ensures
            b.data == (ArcData { angle_start: start, angle_sweep: sweep, ..self.data }),
    {
        let mut b = self;
        b.data.angle_start = start;
        b.data.angle_sweep = sweep;
        b
    }

    /// Sets the stroke colour.
    pub fn color(self, color: Color) -> (b: Self)
        ensures
            b.data == (ArcData { stroke_color: color, ..self.data }),
    {
        let mut b = self;
        b.data.stroke_color = color;
        b
    }

    /// Sets the stroke colour.
    pub fn stroke_color(self, color: Color) -> (b: Self)
        ensures
            b.data == (ArcData { stroke_color: color, ..self.data }),
    {
        let mut b = self;
        b.data.stroke_color = color;
        b
    }

    /// Sets the stroke width.
    pub fn stroke_width(self, width: u32) -> (b: Self)
        ensures
            b.data == (ArcData { stroke_width: width, ..self.data }),
    {
        let mut b = self;
        b.data.stroke_width = width;
        b
    }

    /// Sets the stroke alignment (inside, centre or outside).
    pub fn stroke_alignment(self, alignment: StrokeAlignment) -> (b: Self)
        ensures
            b.data == (ArcData { stroke_alignment: alignment, ..self.data }),
    {
        let mut b = self;
        b.data.stroke_alignment = alignment;
        b
    }

    /// Executes the command on `drawer`.
    pub fn draw(self, drawer: &mut dyn Drawer)
        ensures
            final(drawer).commands() == old(drawer).commands().push(DrawCmd::Arc(self.data)),
            final(drawer).area() == old(drawer).area(),
    {
        drawer.execute_arc(self.data);
    }
}

} // verus!
