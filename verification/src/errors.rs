use vstd::prelude::*;

verus! {

/// Every failure the curve engine can report. All errors are fatal to the
/// current operation: no partial state change is ever committed.
#[derive(Clone, Copy, Debug, PartialEq, Eq, Structural)]
pub enum CurveError {
    /// Zero or otherwise out-of-domain input amount.
    InvalidAmount,
    /// The computed output violates the caller's minimum-receive bound.
    ReturnAmountTooSmall,
    /// A checked arithmetic step would leave the representable range.
    OverflowOrUnderflowOccurred,
    /// A swap was attempted after the curve completed.
    CurveAlreadyCompleted,
    /// Migration was attempted before the curve completed.
    CurveNotCompleted,
    /// A configuration value is below the allowed range.
    ValueTooSmall,
    /// A configuration value is above the allowed range.
    ValueTooLarge,
    /// A configuration value is not in the allowed set.
    ValueInvalid,
}

} // verus!
