use vstd::prelude::*;

verus! {

/// An opaque 256-bit principal / account identifier, held as four 64-bit words.
///
/// The ledger never looks inside an identifier: it only compares two of them
/// for equality.  The host environment converts its own key type to and from
/// this representation at the boundary.
#[derive(Clone, Copy, PartialEq, Eq, Structural, Debug)]
pub struct AccountId {
    pub w0: u64,
    pub w1: u64,
    pub w2: u64,
    pub w3: u64,
}

impl AccountId {
    /// The all-zero identifier, used for vacant beneficiary slots.
    pub open spec fn spec_zero() -> AccountId {
        AccountId { w0: 0, w1: 0, w2: 0, w3: 0 }
    }

    pub fn zero() -> (r: AccountId)
        ensures
            r == AccountId::spec_zero(),
    {
        AccountId { w0: 0, w1: 0, w2: 0, w3: 0 }
    }

    pub fn new(w0: u64, w1: u64, w2: u64, w3: u64) -> (r: AccountId)
        ensures
            r == (AccountId { w0, w1, w2, w3 }),
    {
        AccountId { w0, w1, w2, w3 }
    }
}

/// One payment-rail instruction: move `amount` from account `from` to account
/// `to`, authorized by `authority`.
///
/// The ledger core never moves funds itself; each operation that pays out
/// returns the single `Payment` the host must execute atomically with the
/// state change.
#[derive(Clone, Copy, PartialEq, Eq, Structural, Debug)]
pub struct Payment {
    pub from: AccountId,
    pub to: AccountId,
    pub authority: AccountId,
    pub amount: u64,
}

} // verus!
