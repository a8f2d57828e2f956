//! The error value that calls and connections report.
use vstd::prelude::*;

verus! {

/// A failure of a call or of a connection task.
///
/// Handler failures travel as data in a response envelope and reach the
/// caller as `Custom`; the other variants are raised locally.
#[derive(Debug, Clone, PartialEq, Eq)]
pub enum RpcError {
    /// A failure reported by the handler of a call.
    Custom(String),
    /// Reading from or writing to the connection failed.
    Io(String),
    /// A line was not JSON of the expected shape.
    Serde(String),
    /// An internal channel was closed.
    Mpsc(String),
    /// The server serves no method of this name.
    UnknownMethod(String),
    /// A frame that should carry a payload line carried none; the id of its call.
    MissingPayload(u64),
    /// The call id is already owned by an outstanding call.
    CallIdInUse(u64),
    /// A line to be framed holds a newline byte.
    NewlineInLine,
}

} // verus!
