use vstd::prelude::*;

verus! {

/// The reasons a ledger operation can refuse to run.
///
/// Every operation either commits completely or returns one of these and
/// leaves the ledger untouched.
#[derive(Clone, Copy, PartialEq, Eq, Structural, Debug)]
pub enum ErrorCode {
    /// The given identity matches no beneficiary of this ledger.
    InvalidRoyaltyRecipient,
    /// A share transfer asked for more than the transferring beneficiary holds.
    RoyaltyTransferTooLarge,
    /// The shares of all beneficiaries would not total exactly 100%.
    RoyaltyExceeds100Percent,
    /// Appending would overwrite a slot whose occupant still holds a nonzero
    /// share or a nonzero owed balance.
    CapacityExceeded,
}

} // verus!
