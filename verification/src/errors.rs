use vstd::prelude::*;

verus! {

/// Failure taxonomy of the protocol library.
///
/// Every failure is local, synchronous and caller-recoverable; none mutates
/// external state, since producing a transaction candidate has no effect
/// until it is independently signed and submitted.
#[derive(Clone, Copy, Debug, PartialEq, Eq, Structural)]
pub enum ProtocolError {
    /// A funding box does not cover the transaction fee.
    InsufficientFunds,
    /// An output candidate would carry a zero value.
    InvalidValue,
    /// More registers were supplied than the ledger's fixed slot capacity.
    RegisterOverflow,
    /// The outputs plus the fee do not add up to the inputs.
    ImbalancedValue,
    /// A record does not satisfy the box specification it was checked against.
    SpecMismatch,
    /// Discovery returned no usable candidate; a normal, recoverable outcome.
    NotFound,
}

} // verus!
