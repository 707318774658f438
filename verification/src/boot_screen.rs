//! The boot animation shown while waiting for the network: a cyan scan line
//! sweeping down the 64×64 display with an eight-pixel fading tail.
use vstd::prelude::*;

use crate::drawer::line::LineData;
use crate::drawer::types::{ClearData, Color, Point};
use crate::drawer::{DrawCmd, Drawer};

verus! {

/// Frames before giving up waiting (300 × 50 ms = 15 s).
pub const MAX_FRAMES: u32 = 300;

/// Head-to-tail colour ramp: bright cyan to near-black.
pub open spec fn tail_color(i: int) -> Color {
    if i <= 1 {
        Color::Rgb(0, 220, 255)
    } else if i <= 3 {
        Color::Rgb(0, 140, 170)
    } else if i == 4 {
        Color::Rgb(60, 80, 110)
    } else if i == 5 {
        Color::Rgb(40, 55, 80)
    } else if i == 6 {
        Color::Rgb(25, 35, 55)
    } else {
        Color::Rgb(10, 15, 25)
    }
}

fn tail_color_exec(i: u32) -> (c: Color)
    requires
        i < 8,
    ensures
        c == tail_color(i as int),
{
    if i <= 1 {
        Color::Rgb(0, 220, 255)
    } else if i <= 3 {
        Color::Rgb(0, 140, 170)
    } else if i == 4 {
        Color::Rgb(60, 80, 110)
    } else if i == 5 {
        Color::Rgb(40, 55, 80)
    } else if i == 6 {
        Color::Rgb(25, 35, 55)
    } else {
        Color::Rgb(10, 15, 25)
    }
}

/// Row of the `i`-th tail line in frame `frame`: the head advances two rows
/// per frame and the tail trails upwards, wrapping at the top.
pub open spec fn tail_row(frame: u32, i: int) -> u32 {
    (((frame as int * 2) % 64 + 64 - i) % 64) as u32
}

/// Whether the animation goes on: the network is not configured yet and the
/// frame budget is not spent.
pub fn keep_animating(config_up: bool, frame: u32) -> (r: bool)
    ensures
        r == (!config_up && frame < MAX_FRAMES),
{
    !(config_up || frame >= MAX_FRAMES)
}

/// The eight full-width lines of frame `frame`, head first.
pub fn frame_lines(frame: u32) -> (lines: Vec<LineData>)
    requires
        frame < MAX_FRAMES,
    ensures
        lines@.len() == 8,
        forall|i: int|
            0 <= i < 8 ==> #[trigger] lines@[i] == (LineData {
                start: Point { x: 0, y: tail_row(frame, i) },
                end: Point { x: 63, y: tail_row(frame, i) },
                color: tail_color(i),
                thickness: 1,
            }),
{
    let head_y = (frame * 2) % 64;
    let mut lines: Vec<LineData> = Vec::new();
    let mut i: u32 = 0;
    while i < 8
        invariant
            i <= 8,
            head_y == (frame as int * 2) % 64,
            lines@.len() == i,
            forall|j: int|
                0 <= j < i ==> #[trigger] lines@[j] == (LineData {
                    start: Point { x: 0, y: tail_row(frame, j) },
                    end: Point { x: 63, y: tail_row(frame, j) },
                    color: tail_color(j),
                    thickness: 1,
                }),
        decreases 8 - i,
    {
        let y = (head_y + 64 - i) % 64;
        lines.push(
            LineData {
                start: Point::new(0, y),
                end: Point::new(63, y),
                color: tail_color_exec(i),
                thickness: 1,
            },
        );
        i = i + 1;
    }
    lines
}

/// The `i`-th line of frame `frame`, counted from the head.
pub open spec fn frame_line(frame: u32, i: int) -> LineData {
    LineData {
        start: Point { x: 0, y: tail_row(frame, i) },
        end: Point { x: 63, y: tail_row(frame, i) },
        color: tail_color(i),
        thickness: 1,
    }
}

/// Draws frame `frame`: clears to black, then the scan line and its tail,
/// head first.
pub fn draw_frame(d: &mut dyn Drawer, frame: u32)
    requires
        frame < MAX_FRAMES,
    ensures
        final(d).area() == old(d).area(),
        final(d).commands().len() == old(d).commands().len() + 9,
        final(d).commands().take(old(d).commands().len() as int) == old(d).commands(),
        final(d).commands()[old(d).commands().len() as int] == DrawCmd::Clear(
            ClearData { color: Color::Rgb(0, 0, 0) },
        ),
        forall|i: int|
            0 <= i < 8 ==> #[trigger] final(d).commands()[old(d).commands().len() + 1 + i]
                == DrawCmd::Line(frame_line(frame, i)),
{
    let ghost start = d.commands();
    d.execute_clear(ClearData { color: Color::black() });
    let lines = frame_lines(frame);
    let mut i: usize = 0;
    while i < lines.len()
        invariant
            lines@.len() == 8,
            forall|j: int| 0 <= j < 8 ==> #[trigger] lines@[j] == frame_line(frame, j),
            i <= 8,
            d.area() == old(d).area(),
            start == old(d).commands(),
            d.commands().len() == start.len() + 1 + i,
            d.commands().take(start.len() as int) == start,
            d.commands()[start.len() as int] == DrawCmd::Clear(
                ClearData { color: Color::Rgb(0, 0, 0) },
            ),
            forall|j: int|
                0 <= j < i ==> #[trigger] d.commands()[start.len() + 1 + j] == DrawCmd::Line(
                    frame_line(frame, j),
                ),
        decreases 8 - i,
    {
        let ghost before = d.commands();
        d.execute_line(lines[i]);
        proof {
            assert(d.commands() == before.push(DrawCmd::Line(lines@[i as int])));
            assert(d.commands().take(start.len() as int) =~= before.take(start.len() as int));
            assert forall|j: int| 0 <= j < i + 1 implies #[trigger] d.commands()[start.len() + 1
                + j] == DrawCmd::Line(frame_line(frame, j)) by {
                if j < i {
                    assert(d.commands()[start.len() + 1 + j] == before[start.len() + 1 + j]);
                }
            }
        }
        i = i + 1;
    }
}

} // verus!
