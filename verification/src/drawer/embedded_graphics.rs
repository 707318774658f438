//! Lowering of drawing commands to the primitives of a graphics back end.
//!
//! A widget's drawer is clipped to the widget's area. Each command becomes
//! one primitive with its style already decided; the back end only has to
//! rasterise it. Rectangles, circles and triangles carry one colour, which
//! fills the shape when it is filled and colours the stroke when the stroke
//! width is positive.
use vstd::prelude::*;

use crate::drawer::arc::ArcData;
use crate::drawer::circle::CircleData;
use crate::drawer::ellipse::EllipseData;
use crate::drawer::line::LineData;
use crate::drawer::rect::RectData;
use crate::drawer::sector::SectorData;
use crate::drawer::text::TextData;
use crate::drawer::triangle::TriangleData;
use crate::drawer::types::{
    Baseline, ClearData, Color, Font, Point, Rect, StrokeAlignment, TextAlignment,
};
use crate::drawer::{DrawCmd, Drawer};

verus! {

/// The 24-bit value of a colour as RGB888 stores it: red in the high byte.
pub open spec fn rgb888_value(c: Color) -> u32 {
    match c {
        Color::Rgb(r, g, b) => (r as nat * 65536 + g as nat * 256 + b as nat) as u32,
    }
}

/// The RGB888 value of `color`.
pub fn color_to_rgb888(color: Color) -> (v: u32)
    ensures
        v == rgb888_value(color),
        v < 0x100_0000,
{
    match color {
        Color::Rgb(r, g, b) => {
            let v: u32 = (r as u32) * 65536 + (g as u32) * 256 + (b as u32);
            v
        },
    }
}

/// Whether the font is drawn by the u8g2 renderer rather than as a
/// monospaced bitmap font.
pub open spec fn is_u8g2(font: Font) -> bool {
    ||| font == Font::U8g2Font3x5
    ||| font == Font::U8g2Font4x6
    ||| font == Font::U8g2Font5x7
    ||| font == Font::U8g2Font5x8
}

pub fn is_u8g2_font(font: Font) -> (r: bool)
    ensures
        r == is_u8g2(font),
{
    match font {
        Font::U8g2Font3x5 | Font::U8g2Font4x6 | Font::U8g2Font5x7 | Font::U8g2Font5x8 => true,
        _ => false,
    }
}

/// A stroke: colour, width and alignment to the boundary.
#[derive(Clone, Copy, Debug, PartialEq, Eq, Structural)]
pub struct Stroke {
    pub color: Color,
    pub width: u32,
    pub alignment: StrokeAlignment,
}

/// How a closed shape is painted: an optional fill and an optional stroke.
#[derive(Clone, Copy, Debug, PartialEq, Eq, Structural)]
pub struct ShapeStyle {
    pub fill: Option<Color>,
    pub stroke: Option<Stroke>,
}

/// Filled when `fill`; stroked when the stroke width is positive.
pub open spec fn shape_style(
    fill: bool,
    fill_color: Color,
    stroke_width: u32,
    stroke_color: Color,
    alignment: StrokeAlignment,
) -> ShapeStyle {
    ShapeStyle {
        fill: if fill {
            Some(fill_color)
        } else {
            None
        },
        stroke: if stroke_width > 0 {
            Some(Stroke { color: stroke_color, width: stroke_width, alignment })
        } else {
            None
        },
    }
}

fn style_of(
    fill: bool,
    fill_color: Color,
    stroke_width: u32,
    stroke_color: Color,
    alignment: StrokeAlignment,
) -> (s: ShapeStyle)
    ensures
        s == shape_style(fill, fill_color, stroke_width, stroke_color, alignment),
{
    ShapeStyle {
        fill: if fill {
            Some(fill_color)
        } else {
            None
        },
        stroke: if stroke_width > 0 {
            Some(Stroke { color: stroke_color, width: stroke_width, alignment })
        } else {
            None
        },
    }
}

/// Vertical anchor of u8g2 text.
#[derive(Clone, Copy, Debug, PartialEq, Eq, Structural)]
pub enum VerticalPosition {
    Top,
    Center,
    Baseline,
}

/// One primitive for the back end, clipped to the drawer's area.
#[derive(Clone, Debug, PartialEq, Eq)]
pub enum DrawOp {
    Rect { rect: Rect, style: ShapeStyle },
    RoundedRect { rect: Rect, corner_radius: u32, style: ShapeStyle },
    Circle { center: Point, diameter: u32, style: ShapeStyle },
    Triangle { p1: Point, p2: Point, p3: Point, style: ShapeStyle },
    Line { start: Point, end: Point, color: Color, width: u32 },
    MonoText {
        text: String,
        position: Point,
        font: Font,
        color: Color,
        background: Option<Color>,
        underline: bool,
        strikethrough: bool,
        alignment: TextAlignment,
        baseline: Baseline,
    },
    U8g2Text {
        text: String,
        position: Point,
        font: Font,
        color: Color,
        alignment: TextAlignment,
        vertical: VerticalPosition,
    },
    Ellipse { bounding_box: Rect, style: ShapeStyle },
    Arc { center: Point, diameter: u32, angle_start: i32, angle_sweep: i32, stroke: Stroke },
    Sector { center: Point, diameter: u32, angle_start: i32, angle_sweep: i32, style: ShapeStyle },
    Clear { color: Color },
}

/// Twice the radius, wrapping at 2^32.
pub open spec fn diameter(radius: u32) -> u32 {
    ((radius as nat * 2) % 0x1_0000_0000) as u32
}

pub open spec fn rect_op(d: RectData) -> DrawOp {
    let style = shape_style(d.fill, d.color, d.stroke_width, d.color, StrokeAlignment::Center);
    if d.corner_radius > 0 {
        DrawOp::RoundedRect { rect: d.rect, corner_radius: d.corner_radius, style }
    } else {
        DrawOp::Rect { rect: d.rect, style }
    }
}

pub open spec fn circle_op(d: CircleData) -> DrawOp {
    DrawOp::Circle {
        center: d.center,
        diameter: diameter(d.radius),
        style: shape_style(d.fill, d.color, d.stroke_width, d.color, StrokeAlignment::Center),
    }
}

pub open spec fn triangle_op(d: TriangleData) -> DrawOp {
    DrawOp::Triangle {
        p1: d.p1,
        p2: d.p2,
        p3: d.p3,
        style: shape_style(d.fill, d.color, d.stroke_width, d.color, StrokeAlignment::Center),
    }
}

pub open spec fn line_op(d: LineData) -> DrawOp {
    DrawOp::Line { start: d.start, end: d.end, color: d.color, width: d.thickness }
}

pub open spec fn ellipse_op(d: EllipseData) -> DrawOp {
    DrawOp::Ellipse {
        bounding_box: d.bounding_box,
        style: shape_style(
            d.fill,
            d.fill_color,
            d.stroke_width,
            d.stroke_color,
            d.stroke_alignment,
        ),
    }
}

pub open spec fn arc_op(d: ArcData) -> DrawOp {
    DrawOp::Arc {
        center: d.center,
        diameter: diameter(d.radius),
        angle_start: d.angle_start,
        angle_sweep: d.angle_sweep,
        stroke: Stroke { color: d.stroke_color, width: d.stroke_width, alignment: d.stroke_alignment },
    }
}

pub open spec fn sector_op(d: SectorData) -> DrawOp {
    DrawOp::Sector {
        center: d.center,
        diameter: diameter(d.radius),
        angle_start: d.angle_start,
        angle_sweep: d.angle_sweep,
        style: shape_style(
            d.fill,
            d.fill_color,
            d.stroke_width,
            d.stroke_color,
            d.stroke_alignment,
        ),
    }
}

/// Each shape command is lowered to the primitive of the same shape with
/// the command's own geometry, filled with the fill colour exactly when the
/// command asks for a fill, and stroked exactly when its stroke is wider
/// than zero.
pub proof fn lemma_lowering_keeps_geometry(
    r: RectData,
    c: CircleData,
    t: TriangleData,
    l: LineData,
    e: EllipseData,
    s: SectorData,
)
    ensures
        r.corner_radius == 0 ==> (rect_op(r) matches DrawOp::Rect { rect, style } && rect == r.rect
            && (style.fill is Some <==> r.fill) && (style.stroke is Some <==> r.stroke_width > 0)),
        r.corner_radius > 0 ==> (rect_op(r) matches DrawOp::RoundedRect { rect, corner_radius, .. }
            && rect == r.rect && corner_radius == r.corner_radius),
        circle_op(c) matches DrawOp::Circle { center, diameter, style } && center == c.center
            && diameter as int == (2 * c.radius) % 0x1_0000_0000 && (style.fill is Some <==> c.fill),
        triangle_op(t) matches DrawOp::Triangle { p1, p2, p3, style } && p1 == t.p1 && p2 == t.p2
            && p3 == t.p3 && (style.fill == (if t.fill {
            Some(t.color)
        } else {
            None
        })) && (style.stroke is Some <==> t.stroke_width > 0),
        line_op(l) matches DrawOp::Line { start, end, color, width } && start == l.start && end
            == l.end && color == l.color && width == l.thickness,
        ellipse_op(e) matches DrawOp::Ellipse { bounding_box, style } && bounding_box
            == e.bounding_box && (style.fill == (if e.fill {
            Some(e.fill_color)
        } else {
            None
        })),
        sector_op(s) matches DrawOp::Sector { center, angle_start, angle_sweep, style, .. }
            && center == s.center && angle_start == s.angle_start && angle_sweep == s.angle_sweep
            && (style.fill == (if s.fill {
            Some(s.fill_color)
        } else {
            None
        })),
{
}

/// The u8g2 anchor for a baseline: the alphabetic and bottom baselines both
/// anchor at the font's baseline.
pub open spec fn vertical_position(b: Baseline) -> VerticalPosition {
    match b {
        Baseline::Top => VerticalPosition::Top,
        Baseline::Middle => VerticalPosition::Center,
        Baseline::Alphabetic | Baseline::Bottom => VerticalPosition::Baseline,
    }
}

/// Text in a u8g2 font is drawn transparent, without background or
/// decorations; other text goes to the monospaced renderer.
pub open spec fn text_op(d: TextData) -> DrawOp {
    if is_u8g2(d.font) {
        DrawOp::U8g2Text {
            text: d.text,
            position: d.position,
            font: d.font,
            color: d.color,
            alignment: d.alignment,
            vertical: vertical_position(d.baseline),
        }
    } else {
        DrawOp::MonoText {
            text: d.text,
            position: d.position,
            font: d.font,
            color: d.color,
            background: if d.has_background {
                Some(d.background_color)
            } else {
                None
            },
            underline: d.underline,
            strikethrough: d.strikethrough,
            alignment: d.alignment,
            baseline: d.baseline,
        }
    }
}

/// Puts lowered primitives on a display.
pub trait Raster {
    /// Draws `op`, clipped to the area `clip`.
    fn draw(&mut self, clip: Rect, op: DrawOp);
}

/// A drawer for one widget: its clip area and the display that receives
/// each command's primitive.
pub struct EmbeddedGraphicsDrawer<S: Raster> {
    clip: Rect,
    sink: S,
    ops: Ghost<Seq<DrawOp>>,
    cmds: Ghost<Seq<DrawCmd>>,
}

impl<S: Raster> EmbeddedGraphicsDrawer<S> {
    pub closed spec fn clip_area(&self) -> Rect {
        self.clip
    }

    /// The primitives handed to the display so far, oldest first.
    pub closed spec fn drawn(&self) -> Seq<DrawOp> {
        self.ops@
    }

    /// A drawer clipped to `clip` that draws on `sink`, with nothing drawn yet.
    pub fn new(clip: Rect, sink: S) -> (d: Self)
        ensures
            d.clip_area() == clip,
            d.drawn() == Seq::<DrawOp>::empty(),
            d.commands() == Seq::<DrawCmd>::empty(),
    {
        EmbeddedGraphicsDrawer { clip, sink, ops: Ghost(Seq::empty()), cmds: Ghost(Seq::empty()) }
    }

    /// The clip area.
    pub fn clip(&self) -> (r: Rect)
        ensures
            r == self.clip_area(),
    {
        self.clip
    }

    /// The display, given back.
    pub fn into_sink(self) -> S {
        self.sink
    }

    /// Hands `op` to the display.
    fn emit(&mut self, op: DrawOp)
        ensures
            final(self).drawn() == old(self).drawn().push(op),
            final(self).clip_area() == old(self).clip_area(),
            final(self).commands() == old(self).commands(),
    {
        proof {
            self.ops@ = self.ops@.push(op);
        }
        self.sink.draw(self.clip, op);
    }
}

impl<S: Raster> Drawer for EmbeddedGraphicsDrawer<S> {
    closed spec fn commands(&self) -> Seq<DrawCmd> {
        self.cmds@
    }

    closed spec fn area(&self) -> Rect {
        self.clip
    }

    fn execute_rect(&mut self, data: RectData)
        ensures
            final(self).drawn() == old(self).drawn().push(rect_op(data)),
            final(self).clip_area() == old(self).clip_area(),
    {
        proof {
            self.cmds@ = self.cmds@.push(DrawCmd::Rect(data));
        }
        let style = style_of(
            data.fill,
            data.color,
            data.stroke_width,
            data.color,
            StrokeAlignment::Center,
        );
        if data.corner_radius > 0 {
            self.emit(
                DrawOp::RoundedRect { rect: data.rect, corner_radius: data.corner_radius, style },
            );
        } else {
            self.emit(DrawOp::Rect { rect: data.rect, style });
        }
    }

    fn execute_circle(&mut self, data: CircleData)
        ensures
            final(self).drawn() == old(self).drawn().push(circle_op(data)),
            final(self).clip_area() == old(self).clip_area(),
    {
        proof {
            self.cmds@ = self.cmds@.push(DrawCmd::Circle(data));
        }
        let style = style_of(
            data.fill,
            data.color,
            data.stroke_width,
            data.color,
            StrokeAlignment::Center,
        );
        self.emit(
            DrawOp::Circle { center: data.center, diameter: data.radius.wrapping_mul(2), style },
        );
    }

    fn execute_triangle(&mut self, data: TriangleData)
        ensures
            final(self).drawn() == old(self).drawn().push(triangle_op(data)),
            final(self).drawn().last() matches DrawOp::Triangle { p1, p2, p3, style } && p1
                == data.p1 && p2 == data.p2 && p3 == data.p3 && style.fill == (if data.fill {
                Some(data.color)
            } else {
                None
            }),
            final(self).clip_area() == old(self).clip_area(),
    {
        proof {
            self.cmds@ = self.cmds@.push(DrawCmd::Triangle(data));
        }
        let style = style_of(
            data.fill,
            data.color,
            data.stroke_width,
            data.color,
            StrokeAlignment::Center,
        );
        self.emit(DrawOp::Triangle { p1: data.p1, p2: data.p2, p3: data.p3, style });
    }

    fn execute_line(&mut self, data: LineData)
        ensures
            final(self).drawn() == old(self).drawn().push(line_op(data)),
            final(self).clip_area() == old(self).clip_area(),
    {
        proof {
            self.cmds@ = self.cmds@.push(DrawCmd::Line(data));
        }
        self.emit(
            DrawOp::Line { start: data.start, end: data.end, color: data.color, width: data.thickness },
        );
    }

    fn execute_text(&mut self, data: TextData)
        ensures
            final(self).drawn() == old(self).drawn().push(text_op(data)),
            final(self).clip_area() == old(self).clip_area(),
    {
        proof {
            self.cmds@ = self.cmds@.push(DrawCmd::Text(data));
        }
        if is_u8g2_font(data.font) {
            self.execute_text_u8g2(data);
            return ;
        }
        let background = if data.has_background {
            Some(data.background_color)
        } else {
            None
        };
        self.emit(
            DrawOp::MonoText {
                text: data.text,
                position: data.position,
                font: data.font,
                color: data.color,
                background,
                underline: data.underline,
                strikethrough: data.strikethrough,
                alignment: data.alignment,
                baseline: data.baseline,
            },
        );
    }

    fn execute_ellipse(&mut self, data: EllipseData)
        ensures
            final(self).drawn() == old(self).drawn().push(ellipse_op(data)),
            final(self).clip_area() == old(self).clip_area(),
    {
        proof {
            self.cmds@ = self.cmds@.push(DrawCmd::Ellipse(data));
        }
        let style = style_of(
            data.fill,
            data.fill_color,
            data.stroke_width,
            data.stroke_color,
            data.stroke_alignment,
        );
        self.emit(DrawOp::Ellipse { bounding_box: data.bounding_box, style });
    }

    fn execute_arc(&mut self, data: ArcData)
        ensures
            final(self).drawn() == old(self).drawn().push(arc_op(data)),
            final(self).clip_area() == old(self).clip_area(),
    {
        proof {
            self.cmds@ = self.cmds@.push(DrawCmd::Arc(data));
        }
        self.emit(
            DrawOp::Arc {
                center: data.center,
                diameter: data.radius.wrapping_mul(2),
                angle_start: data.angle_start,
                angle_sweep: data.angle_sweep,
                stroke: Stroke {
                    color: data.stroke_color,
                    width: data.stroke_width,
                    alignment: data.stroke_alignment,
                },
            },
        );
    }

    fn execute_sector(&mut self, data: SectorData)
        ensures
            final(self).drawn() == old(self).drawn().push(sector_op(data)),
            final(self).clip_area() == old(self).clip_area(),
    {
        proof {
            self.cmds@ = self.cmds@.push(DrawCmd::Sector(data));
        }
        let style = style_of(
            data.fill,
            data.fill_color,
            data.stroke_width,
            data.stroke_color,
            data.stroke_alignment,
        );
        self.emit(
            DrawOp::Sector {
                center: data.center,
                diameter: data.radius.wrapping_mul(2),
                angle_start: data.angle_start,
                angle_sweep: data.angle_sweep,
                style,
            },
        );
    }

    fn execute_clear(&mut self, data: ClearData)
        ensures
            final(self).drawn() == old(self).drawn().push(DrawOp::Clear { color: data.color }),
            final(self).clip_area() == old(self).clip_area(),
    {
        proof {
            self.cmds@ = self.cmds@.push(DrawCmd::Clear(data));
        }
        self.emit(DrawOp::Clear { color: data.color });
    }

    fn bounds_x(&mut self) -> (x: u32)
        ensures
            x == old(self).clip_area().origin.x,
            *final(self) == *old(self),
    {
        self.clip.origin.x
    }

    fn bounds_y(&mut self) -> (y: u32)
        ensures
            y == old(self).clip_area().origin.y,
            *final(self) == *old(self),
    {
        self.clip.origin.y
    }

    fn bounds_width(&mut self) -> (w: u32)
        ensures
            w == old(self).clip_area().size.width,
            *final(self) == *old(self),
    {
        self.clip.size.width
    }

    fn bounds_height(&mut self) -> (h: u32)
        ensures
            h == old(self).clip_area().size.height,
            *final(self) == *old(self),
    {
        self.clip.size.height
    }
}

impl<S: Raster> EmbeddedGraphicsDrawer<S> {
    /// Text in a u8g2 font: transparent background, no decorations.
    fn execute_text_u8g2(&mut self, data: TextData)
        requires
            is_u8g2(data.font),
        ensures
            final(self).drawn() == old(self).drawn().push(text_op(data)),
            final(self).clip_area() == old(self).clip_area(),
            final(self).commands() == old(self).commands(),
    {
        let vertical = match data.baseline {
            Baseline::Top => VerticalPosition::Top,
            Baseline::Middle => VerticalPosition::Center,
            Baseline::Alphabetic | Baseline::Bottom => VerticalPosition::Baseline,
        };
        self.emit(
            DrawOp::U8g2Text {
                text: data.text,
                position: data.position,
                font: data.font,
                color: data.color,
                alignment: data.alignment,
                vertical,
            },
        );
    }
}

} // verus!
