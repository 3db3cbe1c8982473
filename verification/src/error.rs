//! The kinds of failure that the engine tells apart, and the message that
//! goes with each.

use vstd::prelude::*;

verus! {

/// What went wrong.
#[derive(Clone, Copy, Debug, PartialEq, Eq, Structural)]
pub enum ErrorKind {
    /// The modem list is empty or cannot be read.
    InvalidConfig,
    /// The store or its directory cannot be opened or created.
    StoreIo,
    /// A query failed after the store was opened.
    StoreRuntime,
    /// The modem answered none of the `AT` probes.
    ModemUnresponsive,
    /// The modem is attached to no network.
    ModemUnregistered,
    /// The modem answered the message with `ERROR`.
    ModemProtocolError,
    /// The serial device could not be opened.
    ModemOpenFailed,
    /// A command could not be written to the serial device.
    ModemWriteFailed,
    /// Every modem that the strategy allowed has failed.
    AllCarriersFailed,
}

/// A failure: its kind, and the text shown to the operator.
#[derive(Debug, PartialEq, Eq)]
pub struct EngineError {
    pub kind: ErrorKind,
    pub message: String,
}

/// An [`EngineError`] as a mathematical value.
pub struct ErrorView {
    pub kind: ErrorKind,
    pub message: Seq<char>,
}

impl View for EngineError {
    type V = ErrorView;

    open spec fn view(&self) -> ErrorView {
        ErrorView { kind: self.kind, message: self.message@ }
    }
}

impl Clone for EngineError {
    fn clone(&self) -> (copy: Self)
        ensures
            copy == *self,
    {
        EngineError { kind: self.kind, message: self.message.clone() }
    }
}

impl EngineError {
    /// A failure of the given kind with the given message.
    pub fn new(kind: ErrorKind, message: &str) -> (error: EngineError)
        ensures
            error@ == (ErrorView { kind, message: message@ }),
    {
        EngineError { kind, message: String::from_str(message) }
    }
}

} // verus!
