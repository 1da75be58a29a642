use vstd::prelude::*;

verus! {

/// Why a log could not be parsed to its end.
#[derive(Debug, Clone, Copy, PartialEq, Eq, Structural)]
pub enum Error {
    /// A line does not start with `M:SS`.
    MalformedTimestamp,
    /// The word after the timestamp is not an event keyword.
    UnrecognizedEventKind,
    /// A kill line lacks one of its anchors (`:`, ` killed `, ` by `).
    MalformedKillPayload,
    /// A kill line names a cause outside the registry.
    UnrecognizedCause,
    /// A counter of the running match would exceed its 16-bit range.
    CounterOverflow,
}

} // verus!
