use std::cell::RefCell;
use std::rc::Rc;
use widgets::boot_screen::{draw_frame, frame_lines, keep_animating, MAX_FRAMES};
use widgets::widget::wasm::draw_error;
use widgets::drawer::arc::ArcBuilder;
use widgets::drawer::circle::CircleBuilder;
use widgets::drawer::ellipse::EllipseBuilder;
use widgets::drawer::embedded_graphics::{
    color_to_rgb888, is_u8g2_font, DrawOp, EmbeddedGraphicsDrawer, Raster, ShapeStyle, Stroke,
    VerticalPosition,
};
use widgets::drawer::line::LineBuilder;
use widgets::drawer::rect::RectBuilder;
use widgets::drawer::text::TextBuilder;
use widgets::drawer::triangle::TriangleBuilder;
use widgets::drawer::types::{
    Baseline, ClearData, Color, Font, Point, Rect, Size, StrokeAlignment, TextAlignment,
};
use widgets::drawer::Drawer;

/// A display that keeps every primitive it is given.
struct Recorder {
    log: Rc<RefCell<Vec<(Rect, DrawOp)>>>,
}

impl Raster for Recorder {
    fn draw(&mut self, clip: Rect, op: DrawOp) {
        self.log.borrow_mut().push((clip, op));
    }
}

type Log = Rc<RefCell<Vec<(Rect, DrawOp)>>>;

fn area() -> Rect {
    Rect::new(Point::new(8, 16), Size::new(32, 24))
}

fn drawer() -> (EmbeddedGraphicsDrawer<Recorder>, Log) {
    let log: Log = Rc::new(RefCell::new(Vec::new()));
    (EmbeddedGraphicsDrawer::new(area(), Recorder { log: Rc::clone(&log) }), log)
}

/// The primitives drawn since the last call, each checked to be clipped to
/// the drawer's area.
fn take(log: &Log) -> Vec<DrawOp> {
    log.borrow_mut()
        .drain(..)
        .map(|(clip, op)| {
            assert_eq!(clip, area());
            op
        })
        .collect()
}

#[test]
fn color_constants_and_rgb888() {
    assert_eq!(Color::white(), Color::Rgb(255, 255, 255));
    assert_eq!(Color::black(), Color::Rgb(0, 0, 0));
    assert_eq!(color_to_rgb888(Color::Rgb(0x12, 0x34, 0x56)), 0x123456);
    assert_eq!(color_to_rgb888(Color::white()), 0xffffff);
}

#[test]
fn enum_numbers_round_trip() {
    assert_eq!(StrokeAlignment::from_int(0), StrokeAlignment::Inside);
    assert_eq!(StrokeAlignment::from_int(2), StrokeAlignment::Outside);
    assert_eq!(StrokeAlignment::from_int(7), StrokeAlignment::Center);
    assert_eq!(TextAlignment::from_int(1), TextAlignment::Center);
    assert_eq!(TextAlignment::from_int(9), TextAlignment::Left);
    assert_eq!(Baseline::from_int(3), Baseline::Bottom);
    assert_eq!(Baseline::from_int(4), Baseline::Alphabetic);
    assert_eq!(Font::from_int(0), Font::Font4x6);
    assert_eq!(Font::from_int(21), Font::Font10x20);
    assert_eq!(Font::from_int(25), Font::U8g2Font5x8);
    assert_eq!(Font::from_int(26), Font::Font6x10);
    for v in 0..26u32 {
        assert_eq!(Font::from_int(v).to_int(), v);
    }
    for a in [StrokeAlignment::Inside, StrokeAlignment::Center, StrokeAlignment::Outside] {
        assert_eq!(StrokeAlignment::from_int(a.to_int()), a);
    }
    for b in [Baseline::Alphabetic, Baseline::Top, Baseline::Middle, Baseline::Bottom] {
        assert_eq!(Baseline::from_int(b.to_int()), b);
    }
}

#[test]
fn rect_builder_defaults_and_setters() {
    let b = RectBuilder::new(1, 2, 3, 4);
    assert_eq!(b.data.rect, Rect::new(Point::new(1, 2), Size::new(3, 4)));
    assert_eq!(b.data.color, Color::white());
    assert!(b.data.fill);
    assert_eq!(b.data.stroke_width, 0);
    let b = b.color(Color::Rgb(1, 2, 3)).stroke(2).rounded(5);
    assert!(!b.data.fill);
    assert_eq!(b.data.stroke_width, 2);
    assert_eq!(b.data.corner_radius, 5);
    assert_eq!(b.data.color, Color::Rgb(1, 2, 3));
}

#[test]
fn ellipse_fill_and_stroke_setters() {
    let b = EllipseBuilder::new(0, 0, 10, 6).stroke(3);
    assert!(!b.data.fill);
    let b = b.fill_color(Color::Rgb(9, 9, 9));
    assert!(b.data.fill);
    assert_eq!(b.data.stroke_width, 3);
    let b = b.no_fill().stroke_width(1).stroke_color(Color::black()).stroke_alignment(StrokeAlignment::Inside);
    assert!(!b.data.fill);
    assert_eq!(b.data.stroke_width, 1);
    assert_eq!(b.data.stroke_color, Color::black());
    assert_eq!(b.data.stroke_alignment, StrokeAlignment::Inside);
}

#[test]
fn arc_and_text_builders() {
    let a = ArcBuilder::new(5, 5, 4);
    assert_eq!(a.data.angle_sweep, 360);
    assert_eq!(a.data.stroke_width, 1);
    let a = a.angles(90, -45).color(Color::Rgb(1, 1, 1));
    assert_eq!((a.data.angle_start, a.data.angle_sweep), (90, -45));
    assert_eq!(a.data.stroke_color, Color::Rgb(1, 1, 1));
    let t = TextBuilder::new("hi".to_string(), 3, 4);
    assert_eq!(t.data.font, Font::Font6x10);
    assert!(!t.data.has_background);
    let t = t.background_color(Color::Rgb(2, 2, 2)).underline().strikethrough()
        .alignment(TextAlignment::Right).baseline(Baseline::Top).font(Font::Font4x6);
    assert!(t.data.has_background && t.data.underline && t.data.strikethrough);
    assert_eq!(t.data.alignment, TextAlignment::Right);
    assert_eq!(t.data.baseline, Baseline::Top);
}

#[test]
fn drawer_lowers_shapes() {
    let (mut d, log) = drawer();
    RectBuilder::new(0, 0, 10, 10).color(Color::white()).stroke(1).draw(&mut d);
    RectBuilder::new(0, 0, 4, 4).rounded(2).draw(&mut d);
    CircleBuilder::new(3, 3, 2).draw(&mut d);
    TriangleBuilder::new(Point::new(0, 0), Point::new(1, 0), Point::new(0, 1)).stroke(2).draw(&mut d);
    LineBuilder::new(Point::new(0, 0), Point::new(5, 5)).thickness(2).draw(&mut d);
    let ops = take(&log);
    let white = Color::white();
    assert_eq!(ops.len(), 5);
    assert_eq!(
        ops[0],
        DrawOp::Rect {
            rect: Rect::new(Point::new(0, 0), Size::new(10, 10)),
            style: ShapeStyle {
                fill: None,
                stroke: Some(Stroke { color: white, width: 1, alignment: StrokeAlignment::Center }),
            },
        }
    );
    assert_eq!(
        ops[1],
        DrawOp::RoundedRect {
            rect: Rect::new(Point::new(0, 0), Size::new(4, 4)),
            corner_radius: 2,
            style: ShapeStyle { fill: Some(white), stroke: None },
        }
    );
    assert_eq!(
        ops[2],
        DrawOp::Circle {
            center: Point::new(3, 3),
            diameter: 4,
            style: ShapeStyle { fill: Some(white), stroke: None },
        }
    );
    match &ops[3] {
        DrawOp::Triangle { style, .. } => assert_eq!(style.fill, None),
        _ => panic!("expected a triangle"),
    }
    assert_eq!(
        ops[4],
        DrawOp::Line { start: Point::new(0, 0), end: Point::new(5, 5), color: white, width: 2 }
    );
    assert!(take(&log).is_empty());
}

#[test]
fn drawer_chooses_text_renderer() {
    let (mut d, log) = drawer();
    TextBuilder::new("a".to_string(), 1, 2).font(Font::U8g2Font3x5).baseline(Baseline::Bottom).draw(&mut d);
    TextBuilder::new("b".to_string(), 1, 2).background_color(Color::Rgb(1, 2, 3)).draw(&mut d);
    let ops = take(&log);
    assert_eq!(
        ops[0],
        DrawOp::U8g2Text {
            text: "a".to_string(),
            position: Point::new(1, 2),
            font: Font::U8g2Font3x5,
            color: Color::white(),
            alignment: TextAlignment::Left,
            vertical: VerticalPosition::Baseline,
        }
    );
    match &ops[1] {
        DrawOp::MonoText { background, font, .. } => {
            assert_eq!(*background, Some(Color::Rgb(1, 2, 3)));
            assert_eq!(*font, Font::Font6x10);
        }
        _ => panic!("expected monospaced text"),
    }
    assert!(is_u8g2_font(Font::U8g2Font4x6));
    assert!(!is_u8g2_font(Font::Font10x20));
}

#[test]
fn drawer_bounds_are_the_clip() {
    let (mut d, log) = drawer();
    assert_eq!((d.bounds_x(), d.bounds_y(), d.bounds_width(), d.bounds_height()), (8, 16, 32, 24));
    d.execute_clear(ClearData { color: Color::black() });
    assert_eq!(take(&log), vec![DrawOp::Clear { color: Color::black() }]);
    EllipseBuilder::new(1, 1, 2, 2).stroke_width(3).draw(&mut d);
    ArcBuilder::new(1, 1, 0x8000_0001).draw(&mut d);
    let ops = take(&log);
    match &ops[0] {
        DrawOp::Ellipse { style, .. } => {
            assert_eq!(style.fill, Some(Color::white()));
            assert_eq!(style.stroke.unwrap().width, 3);
        }
        _ => panic!("expected an ellipse"),
    }
    match &ops[1] {
        DrawOp::Arc { diameter, .. } => assert_eq!(*diameter, 2),
        _ => panic!("expected an arc"),
    }
}

#[test]
fn boot_screen_frame() {
    assert!(keep_animating(false, 0));
    assert!(!keep_animating(true, 0));
    assert!(!keep_animating(false, MAX_FRAMES));
    let lines = frame_lines(1);
    assert_eq!(lines.len(), 8);
    assert_eq!(lines[0].start, Point::new(0, 2));
    assert_eq!(lines[0].end, Point::new(63, 2));
    assert_eq!(lines[0].color, Color::Rgb(0, 220, 255));
    assert_eq!(lines[3].start.y, 63);
    assert_eq!(lines[7].color, Color::Rgb(10, 15, 25));
    assert_eq!(lines[7].start.y, 59);
    let wrap = frame_lines(40);
    assert_eq!(wrap[0].start.y, 16);
}

#[test]
fn boot_frame_clears_then_draws_tail() {
    let (mut d, log) = drawer();
    draw_frame(&mut d, 3);
    let ops = take(&log);
    assert_eq!(ops.len(), 9);
    assert_eq!(ops[0], DrawOp::Clear { color: Color::Rgb(0, 0, 0) });
    assert_eq!(
        ops[1],
        DrawOp::Line { start: Point::new(0, 6), end: Point::new(63, 6), color: Color::Rgb(0, 220, 255), width: 1 }
    );
    assert_eq!(
        ops[8],
        DrawOp::Line { start: Point::new(0, 63), end: Point::new(63, 63), color: Color::Rgb(10, 15, 25), width: 1 }
    );
}

#[test]
fn error_state_is_black_with_label() {
    let (mut d, log) = drawer();
    draw_error(&mut d);
    let ops = take(&log);
    assert_eq!(ops.len(), 2);
    assert_eq!(ops[0], DrawOp::Clear { color: Color::Rgb(0, 0, 0) });
    match &ops[1] {
        DrawOp::MonoText { text, position, font, color, .. } => {
            assert_eq!(text, "ERROR");
            assert_eq!(*position, Point::new(16, 12));
            assert_eq!(*font, Font::Font5x8);
            assert_eq!(*color, Color::Rgb(255, 60, 50));
        }
        other => panic!("unexpected {:?}", other),
    }
}

#[test]
fn sector_is_lowered_with_its_style() {
    use_sector();
}

fn use_sector() {
    let (mut d, log) = drawer();
    widgets::drawer::sector::SectorBuilder::new(5, 6, 0x8000_0003).angles(45, 180).draw(&mut d);
    widgets::drawer::sector::SectorBuilder::new(1, 1, 2).stroke(2, Color::Rgb(1, 2, 3)).draw(&mut d);
    let ops = take(&log);
    assert_eq!(ops.len(), 2);
    assert_eq!(
        ops[0],
        DrawOp::Sector {
            center: Point::new(5, 6),
            diameter: 6,
            angle_start: 45,
            angle_sweep: 180,
            style: ShapeStyle { fill: Some(Color::white()), stroke: None },
        }
    );
    assert_eq!(
        ops[1],
        DrawOp::Sector {
            center: Point::new(1, 1),
            diameter: 4,
            angle_start: 0,
            angle_sweep: 90,
            style: ShapeStyle {
                fill: None,
                stroke: Some(Stroke { color: Color::Rgb(1, 2, 3), width: 2, alignment: StrokeAlignment::Center }),
            },
        }
    );
}
