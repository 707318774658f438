//! Persistent device configuration and validation of widget placements.
use std::collections::BTreeMap;
use vstd::prelude::*;

use crate::drawer::types::{Point, Rect, Size};
use crate::text::{append_str, concat};
use crate::widget::{Widget, WidgetId};

verus! {

/// Side of the square display in pixels.
pub const DISPLAY_SIZE: u32 = 64;

/// The whole configuration: network, display and the placed widgets.
pub struct Config {
    pub wifi: WifiConfig,
    pub display: DisplayConfig,
    pub widgets: Vec<WidgetEntry>,
}

impl Config {
    /// Replaces the list of placed widgets.
    pub fn set_widgets(&mut self, widgets: Vec<WidgetEntry>)
        ensures
            final(self).widgets@ == widgets@,
            final(self).wifi == old(self).wifi,
            final(self).display == old(self).display,
    {
        self.widgets = widgets;
    }
}

pub struct WifiConfig {
    pub ssid: String,
    pub password: String,
}

pub struct DisplayConfig {
    pub freq_mhz: u32,
}

/// One placed widget as stored: id, program name, placement and settings.
pub struct WidgetEntry {
    pub id: usize,
    pub widget_type: String,
    pub x: u32,
    pub y: u32,
    pub width: u32,
    pub height: u32,
    pub config: BTreeMap<String, String>,
}

/// `char::is_alphanumeric`: the Unicode `Alphabetic` or `Numeric` property.
pub uninterp spec fn alphanumeric(c: char) -> bool;

/// ASCII letters and digits.
pub open spec fn ascii_alphanumeric(c: char) -> bool {
    ('a' <= c <= 'z') || ('A' <= c <= 'Z') || ('0' <= c <= '9')
}

/// `char::is_alphanumeric`. Among ASCII characters exactly the letters and
/// digits have the properties; for the rest of Unicode the result is named,
/// not spelled out.
#[verifier::external_body]
fn is_alphanumeric(c: char) -> (r: bool)
    ensures
        r == alphanumeric(c),
        c <= '\u{7f}' ==> r == ascii_alphanumeric(c),
{
    c.is_alphanumeric()
}

/// Characters allowed in a widget type name.
pub open spec fn type_char_ok(c: char) -> bool {
    alphanumeric(c) || c == '_' || c == '-'
}

/// Why an entry is refused, checked in this order; `None` for a valid entry.
pub open spec fn entry_error(
    widget_type: Seq<char>,
    x: u32,
    y: u32,
    width: u32,
    height: u32,
) -> Option<Seq<char>> {
    if widget_type.len() == 0 {
        Some("Widget type cannot be empty"@)
    } else if !(forall|i: int| 0 <= i < widget_type.len() ==> #[trigger] type_char_ok(widget_type[i])) {
        Some("Widget type contains invalid characters"@)
    } else if width == 0 || height == 0 {
        Some("Widget dimensions must be greater than zero"@)
    } else if x + width > DISPLAY_SIZE || y + height > DISPLAY_SIZE {
        Some("Widget is out of display bounds (64x64)"@)
    } else {
        None
    }
}

impl WidgetEntry {
    /// Checks that the entry names a program and fits on the display.
    pub fn validate(&self) -> (r: Result<(), String>)
        requires
            self.x + self.width <= u32::MAX,
            self.y + self.height <= u32::MAX,
        ensures
            match entry_error(self.widget_type@, self.x, self.y, self.width, self.height) {
                None => r is Ok,
                Some(m) => r matches Err(e) && e@ == m,
            },
            r is Ok <==> entry_fits(self.widget_type@, self.x, self.y, self.width, self.height),
    {
        proof {
            lemma_entry_fits_iff_valid(self.widget_type@, self.x, self.y, self.width, self.height);
        }
        let chars = crate::text::chars_of(self.widget_type.as_str());
        if chars.len() == 0 {
            return Err("Widget type cannot be empty".to_owned());
        }
        let mut i: usize = 0;
        while i < chars.len()
            invariant
                chars@ == self.widget_type@,
                i <= chars@.len(),
                forall|j: int| 0 <= j < i ==> #[trigger] type_char_ok(chars@[j]),
            decreases chars@.len() - i,
        {
            let c = chars[i];
            if !(is_alphanumeric(c) || c == '_' || c == '-') {
                assert(!type_char_ok(self.widget_type@[i as int]));
                return Err("Widget type contains invalid characters".to_owned());
            }
            i = i + 1;
        }
        if self.width == 0 || self.height == 0 {
            return Err("Widget dimensions must be greater than zero".to_owned());
        }
        if self.x + self.width > DISPLAY_SIZE || self.y + self.height > DISPLAY_SIZE {
            return Err("Widget is out of display bounds (64x64)".to_owned());
        }
        Ok(())
    }

    /// The stored form of a placed widget.
    pub fn from_widget(value: &Widget) -> (e: WidgetEntry)
        ensures
            e.id == value.id.0,
            e.widget_type@ == value.widget_type@,
            e.x == value.placement.origin.x,
            e.y == value.placement.origin.y,
            e.width == value.placement.size.width,
            e.height == value.placement.size.height,
            e.config@ == value.config@,
    {
        WidgetEntry {
            id: value.id.0,
            widget_type: value.widget_type.clone(),
            x: value.placement.origin.x,
            y: value.placement.origin.y,
            width: value.placement.size.width,
            height: value.placement.size.height,
            config: value.config.clone(),
        }
    }

    /// The widget this entry describes, run by `executor` (which the caller
    /// loads from `wasm_path()`).
    pub fn as_widget(&self, executor: Box<dyn crate::widget::executor::Executor>) -> (w: Widget)
        ensures
            w.id == WidgetId(self.id),
            w.placement == (Rect {
                origin: Point { x: self.x, y: self.y },
                size: Size { width: self.width, height: self.height },
            }),
            w.widget_type@ == self.widget_type@,
            w.config@ == self.config@,
    {
        Widget {
            id: WidgetId(self.id),
            placement: self.placement(),
            widget_type: self.widget_type.clone(),
            config: self.config.clone(),
            executor,
        }
    }

    /// Where the widget is drawn.
    pub fn placement(&self) -> (r: Rect)
        ensures
            r == (Rect {
                origin: Point { x: self.x, y: self.y },
                size: Size { width: self.width, height: self.height },
            }),
    {
        Rect::new(Point::new(self.x, self.y), Size::new(self.width, self.height))
    }

    /// Path of the widget's program in the file system: `/widgets/<type>.wasm`.
    pub fn wasm_path(&self) -> (p: String)
        ensures
            p@ == "/widgets/"@ + self.widget_type@ + ".wasm"@,
    {
        let mut p = concat("/widgets/", self.widget_type.as_str());
        append_str(&mut p, ".wasm");
        p
    }
}

/// An entry names a program of allowed characters and lies inside the
/// display with a non-empty area.
pub open spec fn entry_fits(widget_type: Seq<char>, x: u32, y: u32, width: u32, height: u32) -> bool {
    &&& widget_type.len() > 0
    &&& forall|i: int| 0 <= i < widget_type.len() ==> #[trigger] type_char_ok(widget_type[i])
    &&& 0 < width && x + width <= DISPLAY_SIZE
    &&& 0 < height && y + height <= DISPLAY_SIZE
}

/// Validation accepts exactly the entries that fit: every entry with a
/// non-empty name of allowed characters, a non-empty area and its right and
/// bottom edges within the display is valid, and no other.
pub proof fn lemma_entry_fits_iff_valid(widget_type: Seq<char>, x: u32, y: u32, width: u32, height: u32)
    ensures
        entry_error(widget_type, x, y, width, height) is None <==> entry_fits(
            widget_type,
            x,
            y,
            width,
            height,
        ),
{
}

/// An entry that passes validation names a program and lies inside the
/// display with a non-empty area.
pub proof fn lemma_valid_entry_fits(widget_type: Seq<char>, x: u32, y: u32, width: u32, height: u32)
    requires
        entry_error(widget_type, x, y, width, height) is None,
    ensures
        widget_type.len() > 0,
        0 < width && x + width <= DISPLAY_SIZE,
        0 < height && y + height <= DISPLAY_SIZE,
{
}

} // verus!
