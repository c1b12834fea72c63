use vstd::prelude::*;

verus! {

/// The text of the error that a mint reports when the supply would overflow.
pub const MAX_SUPPLY_EXCEEDED: &'static str = "Max PSP22 supply exceeded. Max supply limited to 2^128-1.";

/// The ways a PSP22 operation can fail.
#[derive(Clone, Debug, PartialEq, Eq)]
pub enum PSP22Error {
    /// Custom error type for implementation-based errors.
    Custom(String),
    /// Returned when an account does not have enough tokens to complete the operation.
    InsufficientBalance,
    /// Returned if there is not enough allowance to complete the operation.
    InsufficientAllowance,
    /// Returned if recipient's address is zero [deprecated].
    ZeroRecipientAddress,
    /// Returned if sender's address is zero [deprecated].
    ZeroSenderAddress,
    /// Returned if a safe transfer check failed [deprecated].
    SafeTransferCheckFailed(String),
}

/// Why the ledger turns an operation down.
pub enum Rejection {
    InsufficientBalance,
    InsufficientAllowance,
    SupplyOverflow,
}

/// The error `e` is the one that reports `why`.
pub open spec fn reports(e: PSP22Error, why: Rejection) -> bool {
    match why {
        Rejection::InsufficientBalance => e is InsufficientBalance,
        Rejection::InsufficientAllowance => e is InsufficientAllowance,
        Rejection::SupplyOverflow => match e {
            PSP22Error::Custom(m) => m@ == MAX_SUPPLY_EXCEEDED@,
            _ => false,
        },
    }
}

/// The error that a mint returns when the supply would overflow.
pub fn supply_overflow_error() -> (e: PSP22Error)
    ensures
        reports(e, Rejection::SupplyOverflow),
{
    PSP22Error::Custom(String::from_str(MAX_SUPPLY_EXCEEDED))
}

} // verus!
