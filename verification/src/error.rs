use vstd::prelude::*;

verus! {

/// The failure conditions the engine distinguishes.
///
/// The transport-level variants (`Timeout`, `StatusError`, `ConnectionError`,
/// `IOError`, `OtherError`) are produced by the caller that performs the
/// actual HTTP round trips and handed back into the engine where a decision
/// depends on them. `ParseError` covers every malformed response,
/// `ClosedDocUsage` an operation on a closed session, and `BrokenCache` a
/// local edit whose position fell outside the mirror after the corresponding
/// network command had already been accepted.
#[derive(Clone, Copy, Debug, PartialEq, Eq, Structural)]
pub enum DocError {
    ParseError,
    Timeout,
    OtherError,
    StatusError,
    ConnectionError,
    IOError,
    ClosedDocUsage,
    BrokenCache,
}

} // verus!
