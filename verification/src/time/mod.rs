pub mod timer;

use vstd::prelude::*;

verus! {

/// Identifier of a timeout, unique per widget.
#[derive(Clone, Copy, Debug, PartialEq, Eq, Structural, PartialOrd, Ord)]
pub struct TimerId(pub u32);

/// Request to arm a timeout; `duration` is counted in clock ticks.
#[derive(Clone, Copy, Debug)]
pub struct CreateTimeoutData {
    pub duration: u64,
    pub recurring: bool,
}

/// Request to disarm a timeout.
#[derive(Clone, Copy, Debug)]
pub struct DeleteTimeoutData {
    pub id: TimerId,
}

/// Timeouts and wall-clock time of one widget.
///
/// @wasm
pub trait Time {
    /// @wasm builder_name="setTimeout"
    fn create_timeout(&mut self, data: CreateTimeoutData) -> TimerId;

    /// @wasm builder_name="clearTimeout"
    fn delete_timeout(&mut self, data: DeleteTimeoutData);

    /// @wasm builder_name="getUnixTimestamp"
    fn get_unix_timestamp(&mut self) -> i64;
}

} // verus!
