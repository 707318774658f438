//! Circular sectors: a slice of a disc between two angles.
use vstd::prelude::*;

use crate::drawer::types::{Color, Point, StrokeAlignment};
use crate::drawer::{DrawCmd, Drawer};

verus! {

/// @wasm required="center,radius"
#[derive(Clone, Copy, Debug, PartialEq, Eq, Structural)]
pub struct SectorData {
    pub center: Point,
    pub radius: u32,
    /// @default 0
    pub angle_start: i32,
    /// @default 90
    pub angle_sweep: i32,
    /// @default Color::WHITE
    pub fill_color: Color,
    /// @default true
    pub fill: bool,
    /// @default Color::WHITE
    pub stroke_color: Color,
    /// @default 0
    pub stroke_width: u32,
    /// @default StrokeAlignment::Center
    pub stroke_alignment: StrokeAlignment,
}

pub struct SectorBuilder {
    pub data: SectorData,
}

impl SectorBuilder {
    /// A filled white quarter disc of radius `r` centred on (`cx`, `cy`),
    /// from 0° sweeping 90°.
    pub fn new(cx: u32, cy: u32, r: u32) -> (b: Self)
        ensures
            b.data == (SectorData {
                center: Point { x: cx, y: cy },
                radius: r,
                angle_start: 0,
                angle_sweep: 90,
                fill_color: Color::Rgb(255, 255, 255),
                fill: true,
                stroke_color: Color::Rgb(255, 255, 255),
                stroke_width: 0,
                stroke_alignment: StrokeAlignment::Center,
            }),
    {
        Self {
            data: SectorData {
                center: Point { x: cx, y: cy },
                radius: r,
                angle_start: 0,
                angle_sweep: 90,
                fill_color: Color::white(),
                fill: true,
                stroke_color: Color::white(),
                stroke_width: 0,
                stroke_alignment: StrokeAlignment::Center,
            },
        }
    }

    /// Sets both start and sweep angles in degrees.
    pub fn angles(self, start: i32, sweep: i32) -> (b: Self)
        ensures
            b.data == (SectorData { angle_start: start, angle_sweep: sweep, ..self.data }),
    {
        let mut b = self;
        b.data.angle_start = start;
        b.data.angle_sweep = sweep;
        b
    }

    /// Sets the fill colour.
    pub fn fill_color(self, color: Color) -> (b: Self)
        ensures
            b.data == (SectorData { fill_color: color, ..self.data }),
    {
        let mut b = self;
        b.data.fill_color = color;
        b
    }

    /// Outline only: turns the fill off and sets the stroke width and colour.
    pub fn stroke(self, width: u32, color: Color) -> (b: Self)
        ensures
            b.data == (SectorData { fill: false, stroke_width: width, stroke_color: color, ..self.data }),
    {
        let mut b = self;
        b.data.fill = false;
        b.data.stroke_width = width;
        b.data.stroke_color = color;
        b
    }

    /// Executes the command on `drawer`.
    pub fn draw(self, drawer: &mut dyn Drawer)
        ensures
            final(drawer).commands() == old(drawer).commands().push(DrawCmd::Sector(self.data)),
            final(drawer).area() == old(drawer).area(),
    {
        drawer.execute_sector(self.data);
    }
}

} // verus!
