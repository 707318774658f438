//! Widgets: placed instances of a widget program and the events they receive.
use std::collections::BTreeMap;
use vstd::prelude::*;

use crate::drawer::types::Rect;

pub mod executor;
pub mod id_order;

use crate::widget::executor::Executor;

verus! {

/// Identifier of one widget instance on the display.
#[derive(Clone, Copy, Debug, PartialEq, Eq, Structural, PartialOrd, Ord)]
pub struct WidgetId(pub usize);

impl WidgetId {
    pub fn new(id: usize) -> (r: Self)
        ensures
            r.0 == id,
    {
        Self(id)
    }
}

/// Something that happened for a widget since it last rendered.
#[derive(Clone, Debug, PartialEq, Eq)]
pub enum WidgetEvent {
    /// One of its timeouts fired.
    TimerInterrupt { timer_id: crate::time::TimerId },
    /// One of its HTTP requests completed; `success` is false when the
    /// request failed, in which case headers and body are empty.
    HttpResponse {
        request_id: u32,
        headers: Vec<(String, String)>,
        body: String,
        success: bool,
    },
}

/// A widget program placed on the display.
pub struct Widget {
    pub id: WidgetId,
    pub placement: Rect,
    pub widget_type: String,
    pub config: BTreeMap<String, String>,
    pub executor: Box<dyn Executor>,
}

} // verus!
pub mod manager;
pub mod wasm;
