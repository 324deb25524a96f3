use vstd::prelude::*;

verus! {

/// What can stop a flow, or the work on one key.
#[derive(Clone, Copy, Debug, PartialEq, Eq, Structural)]
pub enum FlowError {
    /// The private key could not be decoded.
    KeyDecode,
    /// The node could not be reached or answered with an error.
    NodeUnavailable,
    /// The consolidating output could not be built (below the protocol minimum).
    OutputConstruction,
    /// The transaction was refused by the node.
    Submission,
    /// The transaction was not included within the retry budget.
    ConfirmationTimeout,
    /// The rate table has no entry for the requested currency.
    RateUnavailable,
    /// A sum of amounts does not fit in 64 bits.
    AmountOverflow,
    /// A timestamp lies outside the range of calendar times.
    InvalidTimestamp,
}

} // verus!
