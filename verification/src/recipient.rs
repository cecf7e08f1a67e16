use vstd::prelude::*;

use crate::ids::AccountId;

verus! {

/// Fixed-point share scale: a share of 1,000,000 stands for 100%.
pub const TOTAL_SHARE: u64 = 1000000;

/// Number of beneficiary slots a ledger holds.
pub const CAPACITY: usize = 10;

/// One beneficiary slot of a ledger: an identity, a payout destination, a
/// fixed-point share of every deposit, and the running owed / collected
/// balances.
#[derive(Clone, Copy, PartialEq, Eq, Structural, Debug)]
pub struct RoyaltyRecipient {
    /// Who owns this share.
    pub authority: AccountId,
    /// The ledger this slot belongs to.
    pub royalty: AccountId,
    /// Where collected funds are sent.
    pub royalty_recipient_usdc_token_account: AccountId,
    /// This beneficiary's cut of every deposit, scale `TOTAL_SHARE`.
    pub percent_share: u64,
    /// Accrued, not yet withdrawn balance.
    pub owed: u64,
    /// Lifetime total withdrawn.
    pub collected: u64,
}

impl RoyaltyRecipient {
    /// The all-zero slot value: no identity, no share, nothing owed or collected.
    pub open spec fn spec_empty() -> RoyaltyRecipient {
        RoyaltyRecipient {
            authority: AccountId::spec_zero(),
            royalty: AccountId::spec_zero(),
            royalty_recipient_usdc_token_account: AccountId::spec_zero(),
            percent_share: 0,
            owed: 0,
            collected: 0,
        }
    }

    pub fn empty() -> (r: RoyaltyRecipient)
        ensures
            r == RoyaltyRecipient::spec_empty(),
    {
        RoyaltyRecipient {
            authority: AccountId::zero(),
            royalty: AccountId::zero(),
            royalty_recipient_usdc_token_account: AccountId::zero(),
            percent_share: 0,
            owed: 0,
            collected: 0,
        }
    }

    /// A slot is active when it holds a nonzero share.
    pub open spec fn is_active(self) -> bool {
        self.percent_share > 0
    }

    /// A slot may be overwritten only when its occupant holds neither a share
    /// nor an owed balance; its `collected` history alone does not pin it.
    pub open spec fn is_evictable(self) -> bool {
        self.percent_share == 0 && self.owed == 0
    }
}

/// Sum of `percent_share` over a sequence of slots.
pub open spec fn sum_shares(s: Seq<RoyaltyRecipient>) -> int
    decreases s.len(),
{
    if s.len() == 0 {
        0
    } else {
        sum_shares(s.drop_last()) + s.last().percent_share
    }
}

/// Sum of `owed` over a sequence of slots.
pub open spec fn sum_owed(s: Seq<RoyaltyRecipient>) -> int
    decreases s.len(),
{
    if s.len() == 0 {
        0
    } else {
        sum_owed(s.drop_last()) + s.last().owed
    }
}

/// Sum of `collected` over a sequence of slots.
pub open spec fn sum_collected(s: Seq<RoyaltyRecipient>) -> int
    decreases s.len(),
{
    if s.len() == 0 {
        0
    } else {
        sum_collected(s.drop_last()) + s.last().collected
    }
}

/// Number of active slots (nonzero share).
pub open spec fn active_count(s: Seq<RoyaltyRecipient>) -> int
    decreases s.len(),
{
    if s.len() == 0 {
        0
    } else {
        active_count(s.drop_last()) + if s.last().is_active() { 1int } else { 0int }
    }
}

/// All four sums are nonnegative, and `active_count` is at most the length.
pub proof fn lemma_sums_nonneg(s: Seq<RoyaltyRecipient>)
    ensures
        0 <= sum_shares(s),
        0 <= sum_owed(s),
        0 <= sum_collected(s),
        0 <= active_count(s) <= s.len(),
    decreases s.len(),
{
    if s.len() > 0 {
        lemma_sums_nonneg(s.drop_last());
    }
}

/// Each slot's fields are bounded by the whole sequence's sums.
pub proof fn lemma_sum_element(s: Seq<RoyaltyRecipient>, i: int)
    requires
        0 <= i < s.len(),
    ensures
        s[i].percent_share <= sum_shares(s),
        s[i].owed <= sum_owed(s),
        s[i].collected <= sum_collected(s),
    decreases s.len(),
{
    lemma_sums_nonneg(s.drop_last());
    if i < s.len() - 1 {
        lemma_sum_element(s.drop_last(), i);
    }
}

/// Replacing one slot changes each sum by exactly the difference at that slot.
pub proof fn lemma_sum_update(s: Seq<RoyaltyRecipient>, i: int, r: RoyaltyRecipient)
    requires
        0 <= i < s.len(),
    ensures
        sum_shares(s.update(i, r)) == sum_shares(s) - s[i].percent_share + r.percent_share,
        sum_owed(s.update(i, r)) == sum_owed(s) - s[i].owed + r.owed,
        sum_collected(s.update(i, r)) == sum_collected(s) - s[i].collected + r.collected,
        active_count(s.update(i, r)) == active_count(s)
            - (if s[i].is_active() { 1int } else { 0int })
            + (if r.is_active() { 1int } else { 0int }),
    decreases s.len(),
{
    let t = s.update(i, r);
    if i == s.len() - 1 {
        assert(t.drop_last() =~= s.drop_last());
    } else {
        assert(t.drop_last() =~= s.drop_last().update(i, r));
        lemma_sum_update(s.drop_last(), i, r);
    }
}

/// The cut of a deposit of `amount` owed to a share of `share`:
/// a full-precision multiply, then a single truncating division by the scale.
pub open spec fn accrual(amount: u64, share: u64) -> int {
    (amount * share) / (TOTAL_SHARE as int)
}

/// An accrual never exceeds the deposit itself while the share is at most 100%.
pub proof fn lemma_accrual_bounds(amount: u64, share: u64)
    requires
        share <= TOTAL_SHARE,
    ensures
        0 <= accrual(amount, share) <= amount,
{
    let p = (amount as int) * (share as int);
    assert(0 <= (amount as int) * (share as int) && (amount as int) * (share as int) <= (
    amount as int) * (TOTAL_SHARE as int)) by (nonlinear_arith)
        requires
            0 <= amount,
            0 <= share <= TOTAL_SHARE,
    ;
    assert(p / (TOTAL_SHARE as int) <= ((amount as int) * (TOTAL_SHARE as int)) / (
    TOTAL_SHARE as int)) by {
        vstd::arithmetic::div_mod::lemma_div_is_ordered(
            p,
            (amount as int) * (TOTAL_SHARE as int),
            TOTAL_SHARE as int,
        );
    }
    assert(((amount as int) * (TOTAL_SHARE as int)) / (TOTAL_SHARE as int) == amount) by {
        vstd::arithmetic::div_mod::lemma_div_by_multiple(amount as int, TOTAL_SHARE as int);
    }
}

/// Computes `accrual(amount, share)` exactly, widening to 128 bits so the
/// product cannot overflow before the division.
pub fn accrual_amount(amount: u64, share: u64) -> (r: u64)
    requires
        share <= TOTAL_SHARE,
    ensures
        r == accrual(amount, share),
{
    proof {
        lemma_accrual_bounds(amount, share);
        assert((amount as int) * (share as int) <= u64::MAX * (TOTAL_SHARE as int))
            by (nonlinear_arith)
            requires
                0 <= amount <= u64::MAX,
                0 <= share <= TOTAL_SHARE,
        ;
    }
    (((amount as u128) * (share as u128)) / (TOTAL_SHARE as u128)) as u64
}

/// One slot after a deposit of `amount` has been fanned out: an active slot
/// accrues its cut, an inactive slot is left alone.
pub open spec fn credit_one(r: RoyaltyRecipient, amount: u64) -> RoyaltyRecipient {
    if r.is_active() {
        RoyaltyRecipient { owed: (r.owed + accrual(amount, r.percent_share)) as u64, ..r }
    } else {
        r
    }
}

/// Every slot after a deposit of `amount` has been fanned out.
pub open spec fn credited(s: Seq<RoyaltyRecipient>, amount: u64) -> Seq<RoyaltyRecipient> {
    s.map_values(|r: RoyaltyRecipient| credit_one(r, amount))
}

/// No slot's accrual overflows its owed counter.
pub open spec fn credits_fit(s: Seq<RoyaltyRecipient>, amount: u64) -> bool {
    forall|j: int|
        0 <= j < s.len() ==> s[j].owed + accrual(amount, s[j].percent_share) <= u64::MAX
}

/// How the fan-out of one deposit moves the sums.
///
/// Shares and collected totals are untouched.  The owed total grows by the sum
/// of the per-slot accruals; scaled by `TOTAL_SHARE`, that growth is at most
/// `amount * sum_shares(s)` and falls short of it by less than one scale unit
/// per active slot — each truncating division loses less than 1.
pub proof fn lemma_credited_sums(s: Seq<RoyaltyRecipient>, amount: u64)
    requires
        credits_fit(s, amount),
    ensures
        credited(s, amount).len() == s.len(),
        sum_shares(credited(s, amount)) == sum_shares(s),
        sum_collected(credited(s, amount)) == sum_collected(s),
        active_count(credited(s, amount)) == active_count(s),
        (sum_owed(credited(s, amount)) - sum_owed(s)) * (TOTAL_SHARE as int) <= amount
            * sum_shares(s),
        amount * sum_shares(s) - (TOTAL_SHARE - 1) * active_count(s) <= (sum_owed(
            credited(s, amount),
        ) - sum_owed(s)) * (TOTAL_SHARE as int),
    decreases s.len(),
{
    if s.len() == 0 {
    } else {
        let d = s.drop_last();
        let last = s.last();
        assert(credited(s, amount).drop_last() =~= credited(d, amount));
        lemma_credited_sums(d, amount);
        let scale = TOTAL_SHARE as int;
        assert(amount * sum_shares(s) == amount * sum_shares(d) + amount * (
        last.percent_share as int)) by (nonlinear_arith)
            requires
                sum_shares(s) == sum_shares(d) + last.percent_share,
        ;
        if last.is_active() {
            let p = (amount as int) * (last.percent_share as int);
            assert(0 <= (amount as int) * (last.percent_share as int)) by (nonlinear_arith)
                requires
                    0 <= amount,
                    0 <= last.percent_share,
            ;
            vstd::arithmetic::div_mod::lemma_fundamental_div_mod(p, scale);
            vstd::arithmetic::div_mod::lemma_mod_division_less_than_divisor(p, scale);
            assert(credited(s, amount).last() == credit_one(last, amount));
        } else {
            assert(credited(s, amount).last() == last);
        }
    }
}

/// A sequence with no active slot carries no share at all; conversely a
/// positive share total guarantees at least one active slot.
pub proof fn lemma_no_active_no_shares(s: Seq<RoyaltyRecipient>)
    requires
        active_count(s) == 0,
    ensures
        sum_shares(s) == 0,
    decreases s.len(),
{
    if s.len() > 0 {
        lemma_sums_nonneg(s.drop_last());
        lemma_no_active_no_shares(s.drop_last());
    }
}

/// Index of the first slot whose authority is `who`, or -1 when none matches.
pub open spec fn find_index(s: Seq<RoyaltyRecipient>, who: AccountId) -> int
    decreases s.len(),
{
    if s.len() == 0 {
        -1
    } else if s[0].authority == who {
        0
    } else {
        let rest = find_index(s.subrange(1, s.len() as int), who);
        if rest < 0 {
            -1
        } else {
            rest + 1
        }
    }
}

/// `find_index` returns exactly the first match: a miss means no slot
/// matches, a hit points at a matching slot with no earlier match.
pub proof fn lemma_find_index(s: Seq<RoyaltyRecipient>, who: AccountId)
    ensures
        find_index(s, who) < 0 ==> forall|j: int| 0 <= j < s.len() ==> s[j].authority != who,
        find_index(s, who) >= 0 ==> 0 <= find_index(s, who) < s.len() && s[find_index(
            s,
            who,
        )].authority == who && forall|j: int| 0 <= j < find_index(s, who) ==> s[j].authority
            != who,
    decreases s.len(),
{
    if s.len() > 0 && s[0].authority != who {
        lemma_find_index(s.subrange(1, s.len() as int), who);
        assert(forall|j: int|
            1 <= j < s.len() ==> s[j] == s.subrange(1, s.len() as int)[j - 1]);
    }
}

/// Any index with the first-match property is `find_index`'s answer.
pub proof fn lemma_find_index_unique(s: Seq<RoyaltyRecipient>, who: AccountId, i: int)
    requires
        0 <= i < s.len(),
        s[i].authority == who,
        forall|j: int| 0 <= j < i ==> s[j].authority != who,
    ensures
        find_index(s, who) == i,
{
    lemma_find_index(s, who);
}

/// One slot after its owed balance has been collected: the balance moves into
/// the lifetime `collected` total and `owed` returns to zero.
pub open spec fn collect_one(r: RoyaltyRecipient) -> RoyaltyRecipient {
    RoyaltyRecipient { owed: 0, collected: (r.collected + r.owed) as u64, ..r }
}

/// The slot sequence after the beneficiary at `i` has collected.
pub open spec fn collected_at(s: Seq<RoyaltyRecipient>, i: int) -> Seq<RoyaltyRecipient> {
    s.update(i, collect_one(s[i]))
}

/// Conservation of one deposit: when the shares total exactly 100%, the owed
/// balances grow by at most the deposited amount, the collected totals are
/// untouched, and the rounding loss — the part of the amount the truncating
/// divisions drop — is nonnegative and less than the number of active
/// beneficiaries.
pub proof fn lemma_deposit_conservation(s: Seq<RoyaltyRecipient>, amount: u64)
    requires
        sum_shares(s) == TOTAL_SHARE,
        credits_fit(s, amount),
    ensures
        sum_collected(credited(s, amount)) == sum_collected(s),
        sum_shares(credited(s, amount)) == sum_shares(s),
        0 <= sum_owed(s) + amount - sum_owed(credited(s, amount)) < active_count(s),
{
    lemma_credited_sums(s, amount);
    assert(amount * sum_shares(s) == amount * (TOTAL_SHARE as int)) by (nonlinear_arith)
        requires
            sum_shares(s) == TOTAL_SHARE,
    ;
    if active_count(s) == 0 {
        lemma_no_active_no_shares(s);
    }
    lemma_sums_nonneg(s);
}

/// Collection is idempotent: one collection leaves the beneficiary's owed
/// balance at zero, so an immediate second collection for the same identity
/// finds the same slot, pays out that zero balance, and leaves every slot
/// exactly as it was.
pub proof fn lemma_collect_idempotent(s: Seq<RoyaltyRecipient>, who: AccountId)
    requires
        0 <= find_index(s, who),
    ensures
        ({
            let i = find_index(s, who);
            let once = collected_at(s, i);
            &&& find_index(once, who) == i
            &&& once[i].owed == 0
            &&& collected_at(once, i) == once
        }),
{
    let i = find_index(s, who);
    let once = collected_at(s, i);
    lemma_find_index(s, who);
    assert(forall|j: int| 0 <= j < once.len() ==> once[j].authority == s[j].authority);
    lemma_find_index_unique(once, who, i);
    assert(collect_one(once[i]) == once[i]);
    assert(collected_at(once, i) =~= once);
}

/// A sequence of empty slots sums to zero everywhere.
pub proof fn lemma_sum_all_empty(s: Seq<RoyaltyRecipient>)
    requires
        forall|j: int| 0 <= j < s.len() ==> s[j] == RoyaltyRecipient::spec_empty(),
    ensures
        sum_shares(s) == 0,
        sum_owed(s) == 0,
        sum_collected(s) == 0,
        active_count(s) == 0,
    decreases s.len(),
{
    if s.len() > 0 {
        lemma_sum_all_empty(s.drop_last());
    }
}

} // verus!
