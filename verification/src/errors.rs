//! The error taxonomy of the library: every failure an operation can report,
//! one variant each.

use vstd::prelude::*;

verus! {

/// Everything that can go wrong when driving a pin or building a watcher.
#[derive(Debug)]
pub enum GpioError {
    /// A caller-supplied level was neither 0 nor 1.
    InvalidArgument,
    /// The external pin-export tool reported a failure; holds the diagnostic
    /// text captured from its error stream.
    ExportError(String),
    /// Edge notification was requested on an output pin.
    UnsupportedOperation,
    /// A watcher was handed a pin that is not watch-capable; holds that pin's
    /// number.
    UnwatchablePin(u8),
    /// A filesystem read or write failed; holds the diagnostic text.
    IoError(String),
    /// A value file's content could not be parsed as an integer.
    ParseError,
    /// The low-level watch subsystem rejected a registration; holds the
    /// diagnostic text.
    WatchRegistrationError(String),
}

} // verus!
