//! Log output of widgets.
use vstd::prelude::*;

pub mod logger;

verus! {

/// @wasm required="message"
pub struct LogData {
    pub message: String,
}

/// Log output of one widget.
///
/// @wasm
pub trait Console {
    /// @wasm builder_name="info"
    fn log_info(&self, data: LogData);

    /// @wasm builder_name="error"
    fn log_error(&self, data: LogData);
}

} // verus!
