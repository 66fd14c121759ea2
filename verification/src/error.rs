use vstd::prelude::*;

verus! {

/// Why an operation was refused. Every refusal is final for the operation
/// that met it: the component it was called on is left exactly as it was.
#[derive(Clone, Copy, Debug, PartialEq, Eq, Structural)]
pub enum Error {
    /// The content, tier, subscription or balance referred to does not exist.
    NotFound,
    /// The caller is not the principal that the operation acts for.
    Unauthorized,
    /// The component was used before it was given its accounts.
    NotConfigured,
    /// A withdrawal was asked for an amount under the threshold.
    BelowMinimum,
    /// A withdrawal was asked for more than is available.
    InsufficientBalance,
    /// A counter, an amount or a date left the range of its type.
    Overflow,
}

} // verus!
