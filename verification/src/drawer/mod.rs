//! Drawing commands and the interface that executes them.
use vstd::prelude::*;

pub mod arc;
pub mod circle;
pub mod ellipse;
pub mod embedded_graphics;
pub mod line;
pub mod rect;
pub mod sector;
pub mod text;
pub mod triangle;
pub mod types;

use crate::drawer::arc::ArcData;
use crate::drawer::circle::CircleData;
use crate::drawer::ellipse::EllipseData;
use crate::drawer::line::LineData;
use crate::drawer::rect::RectData;
use crate::drawer::sector::SectorData;
use crate::drawer::text::TextData;
use crate::drawer::triangle::TriangleData;
use crate::drawer::types::{ClearData, Rect};

verus! {

/// One drawing command, as a drawer receives it.
pub enum DrawCmd {
    Rect(RectData),
    Circle(CircleData),
    Triangle(TriangleData),
    Line(LineData),
    Text(TextData),
    Ellipse(EllipseData),
    Arc(ArcData),
    Sector(SectorData),
    Clear(ClearData),
}

/// Executes drawing commands within a widget's area.
///
/// A drawer is seen as the widget's area and the list of commands it has
/// executed so far; each command appends itself to that list, and the
/// bounds queries report the area and change nothing.
///
/// @wasm
pub trait Drawer {
    /// The commands executed so far, oldest first.
    spec fn commands(&self) -> Seq<DrawCmd>;

    /// The area the drawer paints in.
    spec fn area(&self) -> Rect;

    /// @wasm builder_name="rect"
    fn execute_rect(&mut self, data: RectData)
        ensures
            final(self).commands() == old(self).commands().push(DrawCmd::Rect(data)),
            final(self).area() == old(self).area(),
    ;

    /// @wasm builder_name="circle"
    fn execute_circle(&mut self, data: CircleData)
        ensures
            final(self).commands() == old(self).commands().push(DrawCmd::Circle(data)),
            final(self).area() == old(self).area(),
    ;

    /// @wasm builder_name="triangle"
    fn execute_triangle(&mut self, data: TriangleData)
        ensures
            final(self).commands() == old(self).commands().push(DrawCmd::Triangle(data)),
            final(self).area() == old(self).area(),
    ;

    /// @wasm builder_name="line"
    fn execute_line(&mut self, data: LineData)
        ensures
            final(self).commands() == old(self).commands().push(DrawCmd::Line(data)),
            final(self).area() == old(self).area(),
    ;

    /// @wasm builder_name="text"
    fn execute_text(&mut self, data: TextData)
        ensures
            final(self).commands() == old(self).commands().push(DrawCmd::Text(data)),
            final(self).area() == old(self).area(),
    ;

    /// @wasm builder_name="ellipse"
    fn execute_ellipse(&mut self, data: EllipseData)
        ensures
            final(self).commands() == old(self).commands().push(DrawCmd::Ellipse(data)),
            final(self).area() == old(self).area(),
    ;

    /// @wasm builder_name="arc"
    fn execute_arc(&mut self, data: ArcData)
        ensures
            final(self).commands() == old(self).commands().push(DrawCmd::Arc(data)),
            final(self).area() == old(self).area(),
    ;

    /// @wasm builder_name="sector"
    fn execute_sector(&mut self, data: SectorData)
        ensures
            final(self).commands() == old(self).commands().push(DrawCmd::Sector(data)),
            final(self).area() == old(self).area(),
    ;

    /// @wasm builder_name="clear"
    fn execute_clear(&mut self, data: ClearData)
        ensures
            final(self).commands() == old(self).commands().push(DrawCmd::Clear(data)),
            final(self).area() == old(self).area(),
    ;

    /// @wasm builder_name="boundsX"
    fn bounds_x(&mut self) -> (x: u32)
        ensures
            x == old(self).area().origin.x,
            final(self).commands() == old(self).commands(),
            final(self).area() == old(self).area(),
    ;

    /// @wasm builder_name="boundsY"
    fn bounds_y(&mut self) -> (y: u32)
        ensures
            y == old(self).area().origin.y,
            final(self).commands() == old(self).commands(),
            final(self).area() == old(self).area(),
    ;

    /// @wasm builder_name="boundsWidth"
    fn bounds_width(&mut self) -> (w: u32)
        ensures
            w == old(self).area().size.width,
            final(self).commands() == old(self).commands(),
            final(self).area() == old(self).area(),
    ;

    /// @wasm builder_name="boundsHeight"
    fn bounds_height(&mut self) -> (h: u32)
        ensures
            h == old(self).area().size.height,
            final(self).commands() == old(self).commands(),
            final(self).area() == old(self).area(),
    ;
}

} // verus!
