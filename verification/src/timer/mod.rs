pub mod key_order;
pub mod timer;

use vstd::prelude::*;

verus! {

/// Identifier of a timeout chosen by the widget.
#[derive(Clone, Copy, Debug, PartialEq, Eq, Structural, PartialOrd, Ord)]
pub struct TimerId(pub u32);

/// A timeout request: the widget's id for it and its delay in clock ticks.
#[derive(Clone, Copy, Debug)]
pub struct TimeoutData {
    pub id: TimerId,
    pub duration: u64,
}

/// Timeouts of one widget, with ids chosen by the widget.
///
/// @wasm
pub trait Timer {
    /// @wasm builder_name="setTimeout"
    fn create_timeout(&mut self, data: TimeoutData);

    /// @wasm builder_name="clearTimeout"
    fn delete_timeout(&mut self, data: TimeoutData);
}

} // verus!
