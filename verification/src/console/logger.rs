//! Log lines tagged with the widget that wrote them.
use vstd::prelude::*;

use crate::text::{append_str, decimal, push_decimal};
use crate::widget::WidgetId;

verus! {

/// The console service; each widget's lines carry its id.
pub struct ConsoleLogger;

impl ConsoleLogger {
    pub fn new() -> (r: Self) {
        ConsoleLogger
    }
}

/// `[widget WidgetId(n)] message`.
pub open spec fn log_line_text(widget_id: WidgetId, message: Seq<char>) -> Seq<char> {
    "[widget WidgetId("@ + decimal(widget_id.0 as nat) + ")] "@ + message
}

/// The line logged for `message` written by `widget_id`.
pub fn log_line(widget_id: WidgetId, message: &str) -> (line: String)
    ensures
        line@ == log_line_text(widget_id, message@),
{
    let mut line = String::new();
    append_str(&mut line, "[widget WidgetId(");
    push_decimal(&mut line, widget_id.0);
    append_str(&mut line, ")] ");
    append_str(&mut line, message);
    line
}

} // verus!
