//! The decisions of the widget program host: what a failed widget shows,
//! what the configuration lookup answers, and when the program is called.
use vstd::prelude::*;

use crate::drawer::text::TextData;
use crate::drawer::types::{Baseline, ClearData, Color, Font, Point, TextAlignment};
use crate::drawer::{DrawCmd, Drawer};
use crate::text::{append_str, concat};

verus! {

/// Memory a widget program may use, in bytes.
pub const MAX_WASM_MEMORY_BYTES: usize = 102400;

/// The error label of a widget area `w` × `h`: red "ERROR" centred, in a
/// font that fits the height (5×8 from 14 rows up, else the 3×5 font).
pub open spec fn error_label(w: u32, h: u32) -> (Point, Font) {
    (Point { x: w / 2, y: h / 2 }, if h >= 14 {
        Font::Font5x8
    } else {
        Font::U8g2Font3x5
    })
}

/// The text command that labels a failed widget of size `w` × `h`.
pub fn error_text(w: u32, h: u32) -> (t: TextData)
    ensures
        t.text@ == "ERROR"@,
        (t.position, t.font) == error_label(w, h),
        t.color == Color::Rgb(255, 60, 50),
        t.background_color == Color::Rgb(0, 0, 0),
        !t.has_background,
        !t.underline,
        !t.strikethrough,
        t.alignment == TextAlignment::Center,
        t.baseline == Baseline::Middle,
{
    let font = if h >= 14 {
        Font::Font5x8
    } else {
        Font::U8g2Font3x5
    };
    TextData {
        text: "ERROR".to_owned(),
        position: Point::new(w / 2, h / 2),
        color: Color::Rgb(255, 60, 50),
        background_color: Color::black(),
        has_background: false,
        font,
        underline: false,
        strikethrough: false,
        alignment: TextAlignment::Center,
        baseline: Baseline::Middle,
    }
}

/// `t` is the label of a failed widget of size `w` × `h`: red "ERROR"
/// without background or decorations, centred in the area.
pub open spec fn is_error_text(t: TextData, w: u32, h: u32) -> bool {
    &&& t.text@ == "ERROR"@
    &&& (t.position, t.font) == error_label(w, h)
    &&& t.color == Color::Rgb(255, 60, 50)
    &&& t.background_color == Color::Rgb(0, 0, 0)
    &&& !t.has_background
    &&& !t.underline
    &&& !t.strikethrough
    &&& t.alignment == TextAlignment::Center
    &&& t.baseline == Baseline::Middle
}

/// Paints the error state over the widget's area: black, then the label
/// sized to the area.
pub fn draw_error(drawer: &mut dyn Drawer)
    ensures
        final(drawer).area() == old(drawer).area(),
        final(drawer).commands().len() == old(drawer).commands().len() + 2,
        final(drawer).commands().take(old(drawer).commands().len() as int) == old(
            drawer,
        ).commands(),
        final(drawer).commands()[old(drawer).commands().len() as int] == DrawCmd::Clear(
            ClearData { color: Color::Rgb(0, 0, 0) },
        ),
        final(drawer).commands()[old(drawer).commands().len() + 1int] matches DrawCmd::Text(t)
            && is_error_text(t, old(drawer).area().size.width, old(drawer).area().size.height),
{
    let w = drawer.bounds_width();
    let h = drawer.bounds_height();
    drawer.execute_clear(ClearData { color: Color::black() });
    drawer.execute_text(error_text(w, h));
}

/// What `config.get` answers: -1 for a missing key, otherwise the number
/// of value bytes copied, at most `out_max` (as a 32-bit signed number).
pub open spec fn config_answer(value_len: Option<nat>, out_max: u32) -> i32 {
    match value_len {
        None => -1i32,
        Some(n) => (if n < out_max {
            n
        } else {
            out_max as nat
        }) as i32,
    }
}

/// How many bytes of a value of `value_len` bytes fit in `out_max`.
pub fn config_copy_len(value_len: usize, out_max: u32) -> (n: usize)
    ensures
        n == if value_len < out_max {
            value_len as nat
        } else {
            out_max as nat
        },
{
    if value_len < out_max as usize {
        value_len
    } else {
        out_max as usize
    }
}

/// The answer to `config.get` for a value of `value_len` bytes (`None`
/// when the key is not set).
pub fn config_reply(value_len: Option<usize>, out_max: u32) -> (r: i32)
    ensures
        r == config_answer(
            match value_len {
                Some(n) => Some(n as nat),
                None => None,
            },
            out_max,
        ),
{
    match value_len {
        None => -1,
        Some(n) => {
            let len = config_copy_len(n, out_max);
            len as i32
        },
    }
}

/// Why a `config.get` call traps the widget program.
#[derive(Clone, Copy, Debug, PartialEq, Eq, Structural)]
pub enum ConfigTrap {
    /// The key's end does not fit in an address.
    KeyOverflow,
    /// The key lies outside the program's memory.
    KeyOutOfBounds,
    /// The key is not UTF-8.
    KeyNotUtf8,
    /// The output's end does not fit in an address.
    OutputOverflow,
    /// The output lies outside the program's memory.
    OutputOutOfBounds,
}

/// The key of a `config.get` call: the `key_len` bytes at `key_ptr` of the
/// program's memory, decoded as UTF-8.
pub fn config_key(memory: &[u8], key_len: u32, key_ptr: u32) -> (r: Result<String, ConfigTrap>)
    ensures
        key_ptr + key_len > usize::MAX ==> r == Err::<String, ConfigTrap>(ConfigTrap::KeyOverflow),
        key_ptr + key_len <= usize::MAX && key_ptr + key_len > memory@.len() ==> r == Err::<
            String,
            ConfigTrap,
        >(ConfigTrap::KeyOutOfBounds),
        key_ptr + key_len <= memory@.len() ==> {
            let bytes = memory@.subrange(key_ptr as int, key_ptr + key_len);
            &&& !vstd::utf8::valid_utf8(bytes) ==> r == Err::<String, ConfigTrap>(
                ConfigTrap::KeyNotUtf8,
            )
            &&& vstd::utf8::valid_utf8(bytes) ==> (r matches Ok(k) && k@
                == vstd::utf8::decode_utf8(bytes))
        },
{
    let len = memory.len();
    let start = key_ptr as usize;
    if key_len as usize > usize::MAX - start {
        return Err(ConfigTrap::KeyOverflow);
    }
    let end = start + key_len as usize;
    if end > len {
        return Err(ConfigTrap::KeyOutOfBounds);
    }
    let bytes = vstd::slice::slice_subrange(memory, start, end);
    match crate::http::response::utf8_str(bytes) {
        Some(k) => Ok(k.to_string()),
        None => Err(ConfigTrap::KeyNotUtf8),
    }
}

/// Answers a `config.get` call whose key has the value `value` (`None`
/// when the key is not set): copies as much of the value as fits in
/// `out_max` bytes to `out_ptr` in the program's memory and returns
/// [`config_answer`]. A missing key writes nothing.
pub fn config_put(memory: &mut [u8], value: Option<&[u8]>, out_max: u32, out_ptr: u32) -> (r: Result<
    i32,
    ConfigTrap,
>)
    ensures
        final(memory)@.len() == old(memory)@.len(),
        match value {
            None => r == Ok::<i32, ConfigTrap>(-1i32) && final(memory)@ == old(memory)@,
            Some(v) => {
                let n = if v@.len() < out_max {
                    v@.len() as int
                } else {
                    out_max as int
                };
                &&& out_ptr + n > usize::MAX ==> r == Err::<i32, ConfigTrap>(
                    ConfigTrap::OutputOverflow,
                ) && final(memory)@ == old(memory)@
                &&& out_ptr + n <= usize::MAX && out_ptr + n > old(memory)@.len() ==> r == Err::<
                    i32,
                    ConfigTrap,
                >(ConfigTrap::OutputOutOfBounds) && final(memory)@ == old(memory)@
                &&& out_ptr + n <= old(memory)@.len() ==> {
                    &&& r == Ok::<i32, ConfigTrap>(config_answer(Some(v@.len()), out_max))
                    &&& final(memory)@ == old(memory)@.take(out_ptr as int) + v@.take(n) + old(
                        memory,
                    )@.skip(out_ptr + n)
                }
            },
        },
{
    match value {
        None => Ok(-1),
        Some(v) => {
            let answer = config_reply(Some(v.len()), out_max);
            let n = config_copy_len(v.len(), out_max);
            let len = memory.len();
            let start = out_ptr as usize;
            if n > usize::MAX - start {
                return Err(ConfigTrap::OutputOverflow);
            }
            if start + n > memory.len() {
                return Err(ConfigTrap::OutputOutOfBounds);
            }
            let ghost m0 = memory@;
            let mut i: usize = 0;
            while i < n
                invariant
                    n <= v@.len(),
                    start + n <= memory@.len(),
                    memory@.len() == m0.len(),
                    m0.len() == len,
                    i <= n,
                    forall|j: int|
                        0 <= j < memory@.len() ==> #[trigger] memory@[j] == if start <= j < start
                            + i {
                            v@[j - start]
                        } else {
                            m0[j]
                        },
                decreases n - i,
            {
                memory[start + i] = v[i];
                i = i + 1;
            }
            assert(memory@ =~= m0.take(start as int) + v@.take(n as int) + m0.skip(start + n));
            Ok(answer)
        },
    }
}

/// Whether the host calls the program and what it logs first.
pub struct RenderPlan {
    /// A message to log as an error before anything else.
    pub log: Option<String>,
    /// Call the program's `render`; otherwise paint the error state.
    pub call_guest: bool,
}

/// One `begin_render` took `before` to `after` with the plan `plan`: the
/// pending load error is handed over once, and the program is called only
/// while it has not failed.
pub open spec fn begin_render_step(before: RenderState, plan: RenderPlan, after: RenderState) -> bool {
    &&& match plan.log {
        Some(m) => before.pending_log() == Some(m@),
        None => before.pending_log() is None,
    }
    &&& plan.call_guest == !before.has_failed()
    &&& after.pending_log() is None
    &&& after.has_failed() == before.has_failed()
}

/// Health of one widget program: once it failed (at load or in a render)
/// it is never called again and shows the error state instead.
pub struct RenderState {
    failed: bool,
    init_error: Option<String>,
}

impl RenderState {
    pub closed spec fn has_failed(&self) -> bool {
        self.failed
    }

    pub closed spec fn pending_log(&self) -> Option<Seq<char>> {
        match self.init_error {
            Some(m) => Some(m@),
            None => None,
        }
    }

    /// A program that loaded.
    pub fn loaded() -> (s: Self)
        ensures
            !s.has_failed(),
            s.pending_log() is None,
    {
        RenderState { failed: false, init_error: None }
    }

    /// A program that failed to load with `error`; the first render logs
    /// `widget init failed: <error>`.
    pub fn load_failed(error: &str) -> (s: Self)
        ensures
            s.has_failed(),
            s.pending_log() == Some("widget init failed: "@ + error@),
    {
        RenderState { failed: true, init_error: Some(concat("widget init failed: ", error)) }
    }

    /// Starts a render: hands over the pending load error once, and calls
    /// the program only while it has not failed.
    pub fn begin_render(&mut self) -> (p: RenderPlan)
        ensures
            begin_render_step(*old(self), p, *final(self)),
    {
        let log = self.init_error.take();
        RenderPlan { log, call_guest: !self.failed }
    }

    /// Ends a render with the program's result: an error marks the program
    /// failed and gives the message to log (`widget render failed: <error>`),
    /// after which the error state is painted.
    pub fn finish_render(&mut self, result: Result<(), &str>) -> (log: Option<String>)
        ensures
            match result {
                Ok(()) => log is None && *final(self) == *old(self),
                Err(e) => log matches Some(m) && m@ == "widget render failed: "@ + e@
                    && final(self).has_failed() && final(self).pending_log() == old(
                    self,
                ).pending_log(),
            },
    {
        match result {
            Ok(()) => None,
            Err(e) => {
                self.failed = true;
                let mut m = "widget render failed: ".to_owned();
                append_str(&mut m, e);
                Some(m)
            },
        }
    }
}

/// Once a program has failed, no later render calls it, whatever it returns.
pub proof fn lemma_failed_stays_failed(before: RenderState, after_begin: RenderState, plan: RenderPlan)
    requires
        before.has_failed(),
        plan.call_guest == !before.has_failed(),
        after_begin.has_failed() == before.has_failed(),
    ensures
        !plan.call_guest,
        after_begin.has_failed(),
{
}

/// A program that failed to load logs `widget init failed: <error>` on its
/// first render and nothing on the next, and neither render calls it.
pub proof fn lemma_init_failure_logged_once(
    error: Seq<char>,
    s0: RenderState,
    p1: RenderPlan,
    s1: RenderState,
    p2: RenderPlan,
    s2: RenderState,
)
    requires
        s0.has_failed(),
        s0.pending_log() == Some("widget init failed: "@ + error),
        begin_render_step(s0, p1, s1),
        begin_render_step(s1, p2, s2),
    ensures
        p1.log matches Some(m) && m@ == "widget init failed: "@ + error,
        !p1.call_guest,
        p2.log is None,
        !p2.call_guest,
        s2.has_failed(),
        s2.pending_log() is None,
{
}

} // verus!
