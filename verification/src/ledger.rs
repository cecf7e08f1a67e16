use vstd::prelude::*;

use crate::errors::ErrorCode;
use crate::ids::AccountId;
use crate::ids::Payment;
use crate::recipient::CAPACITY;
use crate::recipient::RoyaltyRecipient;
use crate::recipient::TOTAL_SHARE;
use crate::recipient::accrual;
use crate::recipient::accrual_amount;
use crate::recipient::active_count;
use crate::recipient::collect_one;
use crate::recipient::collected_at;
use crate::recipient::credit_one;
use crate::recipient::credited;
use crate::recipient::credits_fit;
use crate::recipient::lemma_accrual_bounds;
use crate::recipient::lemma_credited_sums;
use crate::recipient::lemma_no_active_no_shares;
use crate::recipient::find_index;
use crate::recipient::lemma_find_index;
use crate::recipient::lemma_find_index_unique;
use crate::recipient::lemma_sum_all_empty;
use crate::recipient::lemma_sum_element;
use crate::recipient::lemma_sum_update;
use crate::recipient::lemma_sums_nonneg;
use crate::recipient::sum_collected;
use crate::recipient::sum_owed;
use crate::recipient::sum_shares;

verus! {

/// The royalty ledger: aggregate counters plus a fixed-capacity ring of
/// beneficiary slots.
///
/// A well-formed ledger (see [`Royalty::wf`]) always carries exactly
/// [`CAPACITY`] slots whose shares total exactly [`TOTAL_SHARE`], and its
/// owed and collected balances never outrun the lifetime deposit total.
pub struct Royalty {
    /// Administrative owner fixed at creation time.
    pub authority: AccountId,
    /// The escrow account incoming payments land in and payouts come from.
    pub royalty_usdc_token_account: AccountId,
    /// Derived signing authority for payouts from the escrow.
    pub royalty_signer: AccountId,
    /// Configured secondary-market rate; stored, not consumed by accrual.
    pub resale_percentage: u64,
    /// Lifetime sum of all deposits ever recorded.
    pub total_collected: u64,
    /// Number of deposits flagged primary.
    pub primary_sale_counter: u64,
    /// Sum of deposits flagged primary.
    pub primary_sale_total: u64,
    /// Number of deposits flagged secondary.
    pub secondary_sale_counter: u64,
    /// Sum of deposits flagged secondary.
    pub secondary_sale_total: u64,
    /// Nonce from which the escrow's signing authority was derived.
    pub nonce: u8,
    /// Ring cursor: next slot to write, counted monotonically.
    pub head: u64,
    /// Ring cursor: logically oldest slot, counted monotonically.
    pub tail: u64,
    /// The beneficiary slots; always exactly `CAPACITY` of them.
    pub royalty_recipients: Vec<RoyaltyRecipient>,
}

impl Royalty {
    /// Well-formedness: the invariant every operation preserves.
    ///
    /// - exactly `CAPACITY` slots;
    /// - the shares of all slots total exactly `TOTAL_SHARE` (100%);
    /// - everything owed or already collected is covered by the lifetime
    ///   deposit total;
    /// - the primary and secondary sale totals partition the deposit total.
    pub open spec fn wf(self) -> bool {
        &&& self.royalty_recipients@.len() == CAPACITY
        &&& sum_shares(self.royalty_recipients@) == TOTAL_SHARE
        &&& sum_owed(self.royalty_recipients@) + sum_collected(self.royalty_recipients@)
            <= self.total_collected
        &&& self.primary_sale_total + self.secondary_sale_total == self.total_collected
    }

    /// The configuration fields no operation after initialization touches.
    pub open spec fn same_config(self, other: Royalty) -> bool {
        &&& self.authority == other.authority
        &&& self.royalty_usdc_token_account == other.royalty_usdc_token_account
        &&& self.royalty_signer == other.royalty_signer
        &&& self.resale_percentage == other.resale_percentage
        &&& self.nonce == other.nonce
    }

    /// The deposit counters.
    pub open spec fn same_counters(self, other: Royalty) -> bool {
        &&& self.total_collected == other.total_collected
        &&& self.primary_sale_counter == other.primary_sale_counter
        &&& self.primary_sale_total == other.primary_sale_total
        &&& self.secondary_sale_counter == other.secondary_sale_counter
        &&& self.secondary_sale_total == other.secondary_sale_total
    }

    /// The ring cursors.
    pub open spec fn same_cursors(self, other: Royalty) -> bool {
        self.head == other.head && self.tail == other.tail
    }

    /// Nothing about the ledger differs.
    pub open spec fn same_state(self, other: Royalty) -> bool {
        &&& self.same_config(other)
        &&& self.same_counters(other)
        &&& self.same_cursors(other)
        &&& self.royalty_recipients@ == other.royalty_recipients@
    }

    /// The slot a monotone ring cursor addresses.
    pub fn index_of(counter: u64) -> (r: usize)
        ensures
            r as int == (counter as int) % (CAPACITY as int),
            r < CAPACITY,
    {
        (counter % (CAPACITY as u64)) as usize
    }

    /// Whether the shares of all slots total exactly 100%.
    pub fn royalty_equals_1000000(&self) -> (r: bool)
        requires
            self.royalty_recipients@.len() == CAPACITY,
        ensures
            r == (sum_shares(self.royalty_recipients@) == TOTAL_SHARE),
    {
        let s = Ghost(self.royalty_recipients@);
        let mut royalty_counter: u128 = 0;
        let mut i: usize = 0;
        while i < CAPACITY
            invariant
                0 <= i <= CAPACITY,
                self.royalty_recipients@.len() == CAPACITY,
                s@ == self.royalty_recipients@,
                royalty_counter == sum_shares(s@.subrange(0, i as int)),
                royalty_counter <= i * (u64::MAX as u128),
            decreases CAPACITY - i,
        {
            proof {
                assert(s@.subrange(0, i + 1).drop_last() =~= s@.subrange(0, i as int));
                lemma_sums_nonneg(s@.subrange(0, i as int));
            }
            royalty_counter = royalty_counter + (self.royalty_recipients[i].percent_share as u128);
            i = i + 1;
        }
        proof {
            assert(s@.subrange(0, CAPACITY as int) =~= s@);
        }
        royalty_counter == (TOTAL_SHARE as u128)
    }

    /// Scan the slots for the first one owned by `authority`.
    ///
    /// Returns its index, or `None` when no slot matches.
    pub fn find_royalty_recipient(&self, authority: AccountId) -> (r: Option<usize>)
        requires
            self.royalty_recipients@.len() == CAPACITY,
        ensures
            ({
                let found = find_index(self.royalty_recipients@, authority);
                if found >= 0 {
                    r == Some(found as usize)
                } else {
                    r is None
                }
            }),
    {
        let mut i: usize = 0;
        while i < CAPACITY
            invariant
                0 <= i <= CAPACITY,
                self.royalty_recipients@.len() == CAPACITY,
                forall|j: int|
                    0 <= j < i ==> self.royalty_recipients@[j].authority != authority,
            decreases CAPACITY - i,
        {
            if self.royalty_recipients[i].authority == authority {
                proof {
                    lemma_find_index_unique(self.royalty_recipients@, authority, i as int);
                }
                return Some(i);
            }
            i = i + 1;
        }
        proof {
            lemma_find_index(self.royalty_recipients@, authority);
        }
        None
    }

    /// Write `royalty_recipient` at the head cursor's slot, advancing the
    /// cursors as a ring: when the next head position would collide with the
    /// tail, the tail is advanced past the slot just overwritten.
    ///
    /// The slot being written must be vacant — its occupant may hold neither
    /// a share nor an owed balance — otherwise nothing changes and
    /// `CapacityExceeded` is returned: an entry that still has rights to
    /// funds is never silently evicted.
    pub fn append(&mut self, royalty_recipient: RoyaltyRecipient) -> (res: Result<
        (),
        ErrorCode,
    >)
        requires
            old(self).royalty_recipients@.len() == CAPACITY,
            old(self).head < u64::MAX,
            old(self).tail < u64::MAX,
        ensures
            final(self).royalty_recipients@.len() == CAPACITY,
            final(self).same_config(*old(self)),
            final(self).same_counters(*old(self)),
            ({
                let s = old(self).royalty_recipients@;
                let slot = (old(self).head as int) % (CAPACITY as int);
                if s[slot].is_evictable() {
                    &&& res == Ok::<(), ErrorCode>(())
                    &&& final(self).royalty_recipients@ == s.update(slot, royalty_recipient)
                    &&& final(self).head == old(self).head + 1
                    &&& final(self).tail == (if (old(self).head + 1) as int % (CAPACITY as int)
                        == (old(self).tail as int) % (CAPACITY as int) {
                        old(self).tail + 1
                    } else {
                        old(self).tail as int
                    })
                } else {
                    &&& res == Err::<(), ErrorCode>(ErrorCode::CapacityExceeded)
                    &&& final(self).same_state(*old(self))
                }
            }),
    {
        let slot = Royalty::index_of(self.head);
        let occupant = self.royalty_recipients[slot];
        if occupant.percent_share != 0 || occupant.owed != 0 {
            return Err(ErrorCode::CapacityExceeded);
        }
        self.royalty_recipients.set(slot, royalty_recipient);
        if Royalty::index_of(self.head + 1) == Royalty::index_of(self.tail) {
            self.tail = self.tail + 1;
        }
        self.head = self.head + 1;
        Ok(())
    }

    /// Fan one deposit of `amount` out to every active slot: each accrues
    /// `amount * percent_share / TOTAL_SHARE`, multiply first, divide once.
    pub fn update_royalty_recipient_owed(&mut self, amount: u64)
        requires
            old(self).royalty_recipients@.len() == CAPACITY,
            forall|j: int|
                0 <= j < CAPACITY ==> old(self).royalty_recipients@[j].percent_share
                    <= TOTAL_SHARE,
            credits_fit(old(self).royalty_recipients@, amount),
        ensures
            final(self).royalty_recipients@ == credited(old(self).royalty_recipients@, amount),
            final(self).same_config(*old(self)),
            final(self).same_counters(*old(self)),
            final(self).same_cursors(*old(self)),
    {
        let mut i: usize = 0;
        while i < CAPACITY
            invariant
                0 <= i <= CAPACITY,
                self.royalty_recipients@.len() == CAPACITY,
                old(self).royalty_recipients@.len() == CAPACITY,
                forall|j: int|
                    0 <= j < CAPACITY ==> old(self).royalty_recipients@[j].percent_share
                        <= TOTAL_SHARE,
                credits_fit(old(self).royalty_recipients@, amount),
                forall|j: int|
                    0 <= j < i ==> self.royalty_recipients@[j] == credit_one(
                        old(self).royalty_recipients@[j],
                        amount,
                    ),
                forall|j: int|
                    i <= j < CAPACITY ==> self.royalty_recipients@[j] == old(
                        self,
                    ).royalty_recipients@[j],
                self.same_config(*old(self)),
                self.same_counters(*old(self)),
                self.same_cursors(*old(self)),
            decreases CAPACITY - i,
        {
            let r = self.royalty_recipients[i];
            if r.percent_share > 0 {
                let credit = accrual_amount(amount, r.percent_share);
                self.royalty_recipients.set(
                    i,
                    RoyaltyRecipient { owed: r.owed + credit, ..r },
                );
            }
            i = i + 1;
        }
        proof {
            assert(self.royalty_recipients@ =~= credited(
                old(self).royalty_recipients@,
                amount,
            ));
        }
    }
}

/// Create a ledger: every counter zero, and exactly one beneficiary — the
/// authority itself, holding 100% of the share, paid out to its own account.
pub fn initialize_royalty(
    authority: AccountId,
    authority_usdc_token_account: AccountId,
    royalty_account: AccountId,
    royalty_usdc_token_account: AccountId,
    royalty_signer: AccountId,
    resale_percentage: u64,
    nonce: u8,
) -> (r: Royalty)
    ensures
        r.wf(),
        r.authority == authority,
        r.royalty_usdc_token_account == royalty_usdc_token_account,
        r.royalty_signer == royalty_signer,
        r.resale_percentage == resale_percentage,
        r.nonce == nonce,
        r.total_collected == 0,
        r.primary_sale_counter == 0,
        r.primary_sale_total == 0,
        r.secondary_sale_counter == 0,
        r.secondary_sale_total == 0,
        r.head == 1,
        r.tail == 0,
        r.royalty_recipients@.len() == CAPACITY,
        r.royalty_recipients@[0] == (RoyaltyRecipient {
            authority,
            royalty: royalty_account,
            royalty_recipient_usdc_token_account: authority_usdc_token_account,
            percent_share: TOTAL_SHARE,
            owed: 0,
            collected: 0,
        }),
        forall|j: int|
            1 <= j < CAPACITY ==> r.royalty_recipients@[j] == RoyaltyRecipient::spec_empty(),
{
    let mut slots: Vec<RoyaltyRecipient> = Vec::new();
    let mut i: usize = 0;
    while i < CAPACITY
        invariant
            0 <= i <= CAPACITY,
            slots@.len() == i,
            forall|j: int| 0 <= j < i ==> slots@[j] == RoyaltyRecipient::spec_empty(),
        decreases CAPACITY - i,
    {
        slots.push(RoyaltyRecipient::empty());
        i = i + 1;
    }
    let mut royalty = Royalty {
        authority,
        royalty_usdc_token_account,
        royalty_signer,
        resale_percentage,
        total_collected: 0,
        primary_sale_counter: 0,
        primary_sale_total: 0,
        secondary_sale_counter: 0,
        secondary_sale_total: 0,
        nonce,
        head: 0,
        tail: 0,
        royalty_recipients: slots,
    };
    proof {
        lemma_sum_all_empty(royalty.royalty_recipients@);
    }
    let founder = RoyaltyRecipient {
        authority,
        royalty: royalty_account,
        royalty_recipient_usdc_token_account: authority_usdc_token_account,
        percent_share: TOTAL_SHARE,
        owed: 0,
        collected: 0,
    };
    let ghost before = royalty.royalty_recipients@;
    let res = royalty.append(founder);
    proof {
        assert(res is Ok);
        lemma_sum_update(before, 0, founder);
    }
    royalty
}

/// Record one deposit that the payment rail has already moved into escrow:
/// bump the lifetime and per-kind counters, then fan the amount out to every
/// active beneficiary in proportion to its share.
///
/// The owed total grows by at most `amount`, and by more than `amount` minus
/// the number of active beneficiaries — each active slot's truncating
/// division loses less than one currency unit.
pub fn process_royalty_deposit(royalty: &mut Royalty, is_primary: bool, amount: u64)
    requires
        old(royalty).wf(),
        old(royalty).total_collected + amount <= u64::MAX,
        is_primary ==> old(royalty).primary_sale_counter < u64::MAX,
        !is_primary ==> old(royalty).secondary_sale_counter < u64::MAX,
    ensures
        final(royalty).wf(),
        final(royalty).same_config(*old(royalty)),
        final(royalty).same_cursors(*old(royalty)),
        final(royalty).total_collected == old(royalty).total_collected + amount,
        final(royalty).primary_sale_counter == old(royalty).primary_sale_counter + (
        if is_primary {
            1int
        } else {
            0int
        }),
        final(royalty).primary_sale_total == old(royalty).primary_sale_total + (
        if is_primary {
            amount as int
        } else {
            0int
        }),
        final(royalty).secondary_sale_counter == old(royalty).secondary_sale_counter + (
        if is_primary {
            0int
        } else {
            1int
        }),
        final(royalty).secondary_sale_total == old(royalty).secondary_sale_total + (
        if is_primary {
            0int
        } else {
            amount as int
        }),
        final(royalty).royalty_recipients@ == credited(
            old(royalty).royalty_recipients@,
            amount,
        ),
        sum_shares(final(royalty).royalty_recipients@) == sum_shares(
            old(royalty).royalty_recipients@,
        ),
        sum_collected(final(royalty).royalty_recipients@) == sum_collected(
            old(royalty).royalty_recipients@,
        ),
        active_count(final(royalty).royalty_recipients@) == active_count(
            old(royalty).royalty_recipients@,
        ),
        sum_owed(final(royalty).royalty_recipients@) <= sum_owed(
            old(royalty).royalty_recipients@,
        ) + amount,
        sum_owed(old(royalty).royalty_recipients@) + amount - active_count(
            old(royalty).royalty_recipients@,
        ) < sum_owed(final(royalty).royalty_recipients@),
{
    let ghost s = royalty.royalty_recipients@;
    proof {
        assert forall|j: int| 0 <= j < CAPACITY implies s[j].percent_share
            <= TOTAL_SHARE by {
            lemma_sum_element(s, j);
        }
        lemma_sums_nonneg(s);
        assert forall|j: int| 0 <= j < s.len() implies s[j].owed + accrual(
            amount,
            s[j].percent_share,
        ) <= u64::MAX by {
            lemma_sum_element(s, j);
            lemma_accrual_bounds(amount, s[j].percent_share);
        }
    }
    royalty.total_collected = royalty.total_collected + amount;
    if is_primary {
        royalty.primary_sale_counter = royalty.primary_sale_counter + 1;
        royalty.primary_sale_total = royalty.primary_sale_total + amount;
    } else {
        royalty.secondary_sale_counter = royalty.secondary_sale_counter + 1;
        royalty.secondary_sale_total = royalty.secondary_sale_total + amount;
    }
    royalty.update_royalty_recipient_owed(amount);
    proof {
        lemma_credited_sums(s, amount);
        let delta = sum_owed(credited(s, amount)) - sum_owed(s);
        let k = active_count(s);
        assert(amount * sum_shares(s) == amount * (TOTAL_SHARE as int)) by (nonlinear_arith)
            requires
                sum_shares(s) == TOTAL_SHARE,
        ;
        if k == 0 {
            lemma_no_active_no_shares(s);
        }
    }
}

/// Pay the caller's accrued balance out of escrow.
///
/// On success the whole owed balance moves into the caller's lifetime
/// `collected` total, `owed` returns to zero, and the returned `Payment`
/// instructs the host's rail to move exactly that balance from the escrow to
/// the caller's payout account, authorized by the ledger's derived signer.
/// The host must execute the payment and the returned state as one atomic
/// unit: if the rail fails, the pre-call ledger stands.
///
/// An identity that matches no slot gets `InvalidRoyaltyRecipient` and the
/// ledger is untouched.
pub fn collect_royalty(royalty: &mut Royalty, caller: AccountId) -> (r: Result<
    Payment,
    ErrorCode,
>)
    requires
        old(royalty).wf(),
    ensures
        final(royalty).wf(),
        final(royalty).same_config(*old(royalty)),
        final(royalty).same_counters(*old(royalty)),
        final(royalty).same_cursors(*old(royalty)),
        ({
            let s = old(royalty).royalty_recipients@;
            let i = find_index(s, caller);
            if i >= 0 {
                &&& r == Ok::<Payment, ErrorCode>(Payment {
                    from: old(royalty).royalty_usdc_token_account,
                    to: s[i].royalty_recipient_usdc_token_account,
                    authority: old(royalty).royalty_signer,
                    amount: s[i].owed,
                })
                &&& final(royalty).royalty_recipients@ == collected_at(s, i)
            } else {
                &&& r == Err::<Payment, ErrorCode>(ErrorCode::InvalidRoyaltyRecipient)
                &&& final(royalty).same_state(*old(royalty))
            }
        }),
{
    let ghost s = royalty.royalty_recipients@;
    let found = royalty.find_royalty_recipient(caller);
    proof {
        lemma_find_index(s, caller);
    }
    match found {
        None => Err(ErrorCode::InvalidRoyaltyRecipient),
        Some(i) => {
            let rec = royalty.royalty_recipients[i];
            proof {
                lemma_sum_element(s, i as int);
                lemma_sums_nonneg(s);
            }
            let payment = Payment {
                from: royalty.royalty_usdc_token_account,
                to: rec.royalty_recipient_usdc_token_account,
                authority: royalty.royalty_signer,
                amount: rec.owed,
            };
            royalty.royalty_recipients.set(
                i,
                RoyaltyRecipient { owed: 0, collected: rec.collected + rec.owed, ..rec },
            );
            proof {
                lemma_sum_update(s, i as int, collect_one(s[i as int]));
            }
            Ok(payment)
        },
    }
}

/// Whether the slot the head cursor addresses can take the transferred
/// entry once the transferring beneficiary at `i` has collected and given up
/// `t` of its share: the donor's own slot only by handing over its whole
/// share, any other slot only while vacant.
pub open spec fn transfer_slot_free(
    s: Seq<RoyaltyRecipient>,
    i: int,
    t: u64,
    slot: int,
) -> bool {
    if slot == i {
        s[i].percent_share == t
    } else {
        s[slot].is_evictable()
    }
}

/// The transferring beneficiary's slot after the transfer: balance collected,
/// share reduced by the transferred part.
pub open spec fn donor_after(r: RoyaltyRecipient, t: u64) -> RoyaltyRecipient {
    RoyaltyRecipient {
        percent_share: (r.percent_share - t) as u64,
        owed: 0,
        collected: (r.collected + r.owed) as u64,
        ..r
    }
}

/// The entry a transfer creates: the transferred share, nothing yet owed or
/// collected, belonging to the same ledger as the donor's entry.
pub open spec fn transferee(
    donor: RoyaltyRecipient,
    who: AccountId,
    dest: AccountId,
    t: u64,
) -> RoyaltyRecipient {
    RoyaltyRecipient {
        authority: who,
        royalty: donor.royalty,
        royalty_recipient_usdc_token_account: dest,
        percent_share: t,
        owed: 0,
        collected: 0,
    }
}

/// Move `percent_share_to_transfer` of the caller's share to a new
/// beneficiary.
///
/// The caller's balance is collected first — the returned `Payment` pays it
/// out exactly as [`collect_royalty`] would — so no owed funds are stranded
/// behind a changed share.  The new entry is appended at the head cursor with
/// the transferred share and zero balances.  All validation happens before
/// any state is written: on any error the ledger is exactly as it was.
///
/// Errors, in the order checked: `InvalidRoyaltyRecipient` when the caller
/// matches no slot; `RoyaltyTransferTooLarge` when the requested share
/// exceeds the caller's; `CapacityExceeded` when the head slot's occupant
/// still holds a share or an owed balance.  The closing 100% re-check can
/// never fail — the sum of shares is preserved exactly — so
/// `RoyaltyExceeds100Percent` is never returned.
pub fn add_royalty_recipient(
    royalty: &mut Royalty,
    caller: AccountId,
    new_royalty_recipient: AccountId,
    new_royalty_recipient_usdc_token_account: AccountId,
    percent_share_to_transfer: u64,
) -> (r: Result<Payment, ErrorCode>)
    requires
        old(royalty).wf(),
        old(royalty).head < u64::MAX,
        old(royalty).tail < u64::MAX,
    ensures
        final(royalty).wf(),
        final(royalty).same_config(*old(royalty)),
        final(royalty).same_counters(*old(royalty)),
        r is Err ==> final(royalty).same_state(*old(royalty)),
        ({
            let s = old(royalty).royalty_recipients@;
            let i = find_index(s, caller);
            let t = percent_share_to_transfer;
            let slot = (old(royalty).head as int) % (CAPACITY as int);
            if i < 0 {
                r == Err::<Payment, ErrorCode>(ErrorCode::InvalidRoyaltyRecipient)
            } else if t > s[i].percent_share {
                r == Err::<Payment, ErrorCode>(ErrorCode::RoyaltyTransferTooLarge)
            } else if !transfer_slot_free(s, i, t, slot) {
                r == Err::<Payment, ErrorCode>(ErrorCode::CapacityExceeded)
            } else {
                let newcomer = transferee(
                    s[i],
                    new_royalty_recipient,
                    new_royalty_recipient_usdc_token_account,
                    t,
                );
                &&& r == Ok::<Payment, ErrorCode>(Payment {
                    from: old(royalty).royalty_usdc_token_account,
                    to: s[i].royalty_recipient_usdc_token_account,
                    authority: old(royalty).royalty_signer,
                    amount: s[i].owed,
                })
                &&& final(royalty).royalty_recipients@ == s.update(i, donor_after(s[i], t))
                    .update(slot, newcomer)
                &&& final(royalty).head == old(royalty).head + 1
                &&& final(royalty).tail == (if (old(royalty).head + 1) as int % (
                CAPACITY as int) == (old(royalty).tail as int) % (CAPACITY as int) {
                    old(royalty).tail + 1
                } else {
                    old(royalty).tail as int
                })
                &&& sum_shares(final(royalty).royalty_recipients@) == sum_shares(s)
                &&& final(royalty).royalty_recipients@[slot] == newcomer
                &&& slot != i ==> final(royalty).royalty_recipients@[i] == donor_after(
                    s[i],
                    t,
                )
            }
        }),
{
    let ghost s = royalty.royalty_recipients@;
    let found = royalty.find_royalty_recipient(caller);
    proof {
        lemma_find_index(s, caller);
    }
    let i = match found {
        None => {
            return Err(ErrorCode::InvalidRoyaltyRecipient);
        },
        Some(i) => i,
    };
    let rec = royalty.royalty_recipients[i];
    if percent_share_to_transfer > rec.percent_share {
        return Err(ErrorCode::RoyaltyTransferTooLarge);
    }
    let slot = Royalty::index_of(royalty.head);
    let free = if slot == i {
        rec.percent_share == percent_share_to_transfer
    } else {
        let occupant = royalty.royalty_recipients[slot];
        occupant.percent_share == 0 && occupant.owed == 0
    };
    if !free {
        return Err(ErrorCode::CapacityExceeded);
    }
    proof {
        lemma_sum_element(s, i as int);
        lemma_sums_nonneg(s);
    }
    let payment = Payment {
        from: royalty.royalty_usdc_token_account,
        to: rec.royalty_recipient_usdc_token_account,
        authority: royalty.royalty_signer,
        amount: rec.owed,
    };
    royalty.royalty_recipients.set(
        i,
        RoyaltyRecipient {
            percent_share: rec.percent_share - percent_share_to_transfer,
            owed: 0,
            collected: rec.collected + rec.owed,
            ..rec
        },
    );
    let newcomer = RoyaltyRecipient {
        authority: new_royalty_recipient,
        royalty: rec.royalty,
        royalty_recipient_usdc_token_account: new_royalty_recipient_usdc_token_account,
        percent_share: percent_share_to_transfer,
        owed: 0,
        collected: 0,
    };
    let ghost mid = royalty.royalty_recipients@;
    proof {
        lemma_sum_update(s, i as int, donor_after(s[i as int], percent_share_to_transfer));
    }
    let res = royalty.append(newcomer);
    proof {
        assert(res is Ok);
        lemma_sum_update(mid, (old(royalty).head as int) % (CAPACITY as int), newcomer);
    }
    if royalty.royalty_equals_1000000() {
        Ok(payment)
    } else {
        Err(ErrorCode::RoyaltyExceeds100Percent)
    }
}

} // verus!
