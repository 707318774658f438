//! The interface through which widget programs run.
use std::collections::BTreeMap;
use vstd::prelude::*;

use crate::console::Console;
use crate::http::Http;
use crate::network::Network;
use crate::time::Time;

use crate::drawer::rect::{RectBuilder, RectData};
use crate::drawer::types::{Color, Point, Rect, Size};
use crate::drawer::{DrawCmd, Drawer};
use crate::widget::WidgetEvent;

verus! {

/// The services a widget program may use while it runs, and its settings.
pub struct Context {
    pub drawer: Box<dyn Drawer>,
    pub time: Box<dyn Time>,
    pub http: Box<dyn Http>,
    pub console: Box<dyn Console>,
    pub network: Box<dyn Network>,
    pub config: BTreeMap<String, String>,
}

/// Runs one widget program.
pub trait Executor {
    /// Hands the program its services, once, before the first render.
    fn set_ctx(&mut self, ctx: Context);

    /// Renders the widget: `None` for the first render, then the events
    /// that arrived since the last one.
    fn render(&mut self, events: Option<Vec<WidgetEvent>>);
}

/// A fixed program that outlines a 10×10 square in the top-left corner.
pub struct TestExec {
    pub ctx: Option<Context>,
}

/// The square that [`TestExec`] draws: a white outline, one pixel wide.
pub open spec fn test_square() -> RectData {
    RectData {
        rect: Rect { origin: Point { x: 0, y: 0 }, size: Size { width: 10, height: 10 } },
        color: Color::Rgb(255, 255, 255),
        fill: false,
        stroke_width: 1,
        corner_radius: 0,
    }
}

impl Executor for TestExec {
    fn set_ctx(&mut self, ctx: Context)
        ensures
            final(self).ctx == Some(ctx),
    {
        self.ctx = Some(ctx);
    }

    /// Draws the square once per render when it has its services; without
    /// them it does nothing.
    fn render(&mut self, events: Option<Vec<WidgetEvent>>)
        ensures
            match old(self).ctx {
                None => final(self).ctx is None,
                Some(c) => final(self).ctx matches Some(f) && f.drawer.commands()
                    == c.drawer.commands().push(DrawCmd::Rect(test_square())) && f.drawer.area()
                    == c.drawer.area() && f.config == c.config,
            },
    {
        match &mut self.ctx {
            Some(ctx) => {
                let rect = RectBuilder::new(0, 0, 10, 10).color(Color::white()).stroke(1);
                ctx.drawer.execute_rect(rect.data);
            },
            None => {},
        }
    }
}

} // verus!
