use nina_royalty_program::errors::ErrorCode;
use nina_royalty_program::ids::AccountId;
use nina_royalty_program::ledger::Royalty;
use nina_royalty_program::ledger::add_royalty_recipient;
use nina_royalty_program::ledger::collect_royalty;
use nina_royalty_program::ledger::initialize_royalty;
use nina_royalty_program::ledger::process_royalty_deposit;
use nina_royalty_program::recipient::RoyaltyRecipient;

fn id(n: u64) -> AccountId {
    AccountId::new(n, 0, 0, 0)
}

/// A fresh ledger: authority 1 paid out to 2, ledger account 3, escrow 4,
/// signer 5.
fn fresh() -> Royalty {
    initialize_royalty(id(1), id(2), id(3), id(4), id(5), 500000, 7)
}

fn shares_sum(r: &Royalty) -> u128 {
    r.royalty_recipients
        .iter()
        .map(|rec| rec.percent_share as u128)
        .sum()
}

fn owed_sum(r: &Royalty) -> u128 {
    r.royalty_recipients.iter().map(|rec| rec.owed as u128).sum()
}

#[test]
fn initialize_seeds_single_full_share_beneficiary() {
    let r = fresh();
    assert_eq!(r.authority, id(1));
    assert_eq!(r.royalty_usdc_token_account, id(4));
    assert_eq!(r.royalty_signer, id(5));
    assert_eq!(r.resale_percentage, 500000);
    assert_eq!(r.nonce, 7);
    assert_eq!(r.total_collected, 0);
    assert_eq!(r.primary_sale_counter, 0);
    assert_eq!(r.primary_sale_total, 0);
    assert_eq!(r.secondary_sale_counter, 0);
    assert_eq!(r.secondary_sale_total, 0);
    assert_eq!(r.head, 1);
    assert_eq!(r.tail, 0);
    assert_eq!(r.royalty_recipients.len(), 10);
    let founder = &r.royalty_recipients[0];
    assert_eq!(founder.authority, id(1));
    assert_eq!(founder.royalty, id(3));
    assert_eq!(founder.royalty_recipient_usdc_token_account, id(2));
    assert_eq!(founder.percent_share, 1000000);
    assert_eq!(founder.owed, 0);
    assert_eq!(founder.collected, 0);
    for slot in &r.royalty_recipients[1..] {
        assert_eq!(slot.percent_share, 0);
        assert_eq!(slot.owed, 0);
        assert_eq!(slot.collected, 0);
    }
    assert!(r.royalty_equals_1000000());
}

#[test]
fn primary_deposit_accrues_to_single_beneficiary() {
    let mut r = fresh();
    process_royalty_deposit(&mut r, true, 1000000);
    assert_eq!(r.total_collected, 1000000);
    assert_eq!(r.primary_sale_counter, 1);
    assert_eq!(r.primary_sale_total, 1000000);
    assert_eq!(r.secondary_sale_counter, 0);
    assert_eq!(r.secondary_sale_total, 0);
    assert_eq!(r.royalty_recipients[0].owed, 1000000);
}

#[test]
fn secondary_deposit_updates_secondary_counters() {
    let mut r = fresh();
    process_royalty_deposit(&mut r, false, 250);
    assert_eq!(r.total_collected, 250);
    assert_eq!(r.primary_sale_counter, 0);
    assert_eq!(r.primary_sale_total, 0);
    assert_eq!(r.secondary_sale_counter, 1);
    assert_eq!(r.secondary_sale_total, 250);
    assert_eq!(r.royalty_recipients[0].owed, 250);
}

#[test]
fn deposit_splits_proportionally_without_loss() {
    let mut r = fresh();
    // 600,000 / 400,000 split: hand 400,000 of the founder's share to 6.
    let t = add_royalty_recipient(&mut r, id(1), id(6), id(7), 400000);
    assert!(t.is_ok());
    process_royalty_deposit(&mut r, true, 1000);
    assert_eq!(r.royalty_recipients[0].owed, 600);
    assert_eq!(r.royalty_recipients[1].owed, 400);
    assert_eq!(owed_sum(&r), 1000);
}

#[test]
fn deposit_rounding_loss_is_below_active_count() {
    let mut r = fresh();
    add_royalty_recipient(&mut r, id(1), id(6), id(7), 300000).unwrap();
    // A deposit of 1 unit: each active slot's cut truncates to zero.
    process_royalty_deposit(&mut r, false, 1);
    assert_eq!(r.royalty_recipients[0].owed, 0);
    assert_eq!(r.royalty_recipients[1].owed, 0);
    let loss = r.total_collected as u128 - owed_sum(&r);
    assert!(loss < 2); // fewer units lost than active beneficiaries
    assert_eq!(r.total_collected, 1);
}

#[test]
fn collect_pays_owed_and_zeroes_it() {
    let mut r = fresh();
    process_royalty_deposit(&mut r, true, 5000);
    let p = collect_royalty(&mut r, id(1)).unwrap();
    assert_eq!(p.amount, 5000);
    assert_eq!(p.from, id(4)); // escrow
    assert_eq!(p.to, id(2)); // the beneficiary's payout account
    assert_eq!(p.authority, id(5)); // the derived signer
    assert_eq!(r.royalty_recipients[0].owed, 0);
    assert_eq!(r.royalty_recipients[0].collected, 5000);
    assert_eq!(r.total_collected, 5000);
}

#[test]
fn collect_twice_pays_zero_the_second_time() {
    let mut r = fresh();
    process_royalty_deposit(&mut r, true, 5000);
    let first = collect_royalty(&mut r, id(1)).unwrap();
    assert_eq!(first.amount, 5000);
    assert_eq!(r.royalty_recipients[0].owed, 0);
    let snapshot = r.royalty_recipients.clone();
    let second = collect_royalty(&mut r, id(1)).unwrap();
    assert_eq!(second.amount, 0);
    assert_eq!(r.royalty_recipients, snapshot);
    assert_eq!(r.royalty_recipients[0].collected, 5000);
}

#[test]
fn collect_by_stranger_is_refused() {
    let mut r = fresh();
    process_royalty_deposit(&mut r, true, 5000);
    let res = collect_royalty(&mut r, id(99));
    assert_eq!(res, Err(ErrorCode::InvalidRoyaltyRecipient));
    assert_eq!(r.royalty_recipients[0].owed, 5000);
}

#[test]
fn transfer_moves_share_and_collects_first() {
    let mut r = fresh();
    process_royalty_deposit(&mut r, true, 1000);
    let p = add_royalty_recipient(&mut r, id(1), id(6), id(7), 300000).unwrap();
    // The donor's accrued balance was collected as part of the transfer.
    assert_eq!(p.amount, 1000);
    assert_eq!(p.to, id(2));
    let donor = &r.royalty_recipients[0];
    assert_eq!(donor.percent_share, 700000);
    assert_eq!(donor.owed, 0);
    assert_eq!(donor.collected, 1000);
    let newcomer = &r.royalty_recipients[1];
    assert_eq!(newcomer.authority, id(6));
    assert_eq!(newcomer.royalty, id(3));
    assert_eq!(newcomer.royalty_recipient_usdc_token_account, id(7));
    assert_eq!(newcomer.percent_share, 300000);
    assert_eq!(newcomer.owed, 0);
    assert_eq!(newcomer.collected, 0);
    assert_eq!(shares_sum(&r), 1000000);
    assert!(r.royalty_equals_1000000());
    assert_eq!(r.head, 2);
    assert_eq!(r.tail, 0);
}

#[test]
fn oversized_transfer_is_refused_without_mutation() {
    let mut r = fresh();
    process_royalty_deposit(&mut r, true, 1000);
    let before_slots = r.royalty_recipients.clone();
    let res = add_royalty_recipient(&mut r, id(1), id(6), id(7), 1200000);
    assert_eq!(res, Err(ErrorCode::RoyaltyTransferTooLarge));
    assert_eq!(r.royalty_recipients, before_slots);
    assert_eq!(r.head, 1);
    assert_eq!(r.tail, 0);
    assert_eq!(r.total_collected, 1000);
    assert_eq!(r.royalty_recipients[0].owed, 1000);
}

#[test]
fn transfer_by_stranger_is_refused() {
    let mut r = fresh();
    let res = add_royalty_recipient(&mut r, id(42), id(6), id(7), 1);
    assert_eq!(res, Err(ErrorCode::InvalidRoyaltyRecipient));
    assert_eq!(r.royalty_recipients[0].percent_share, 1000000);
}

#[test]
fn eleventh_beneficiary_hits_capacity() {
    let mut r = fresh();
    // Spread the founder's share over ten active beneficiaries.
    for n in 0..9u64 {
        let res = add_royalty_recipient(&mut r, id(1), id(10 + n), id(20 + n), 100000);
        assert!(res.is_ok());
    }
    assert!(r.royalty_equals_1000000());
    let active = r
        .royalty_recipients
        .iter()
        .filter(|rec| rec.percent_share > 0)
        .count();
    assert_eq!(active, 10);
    // Every slot is occupied by a live share: no further entry may evict one.
    let res = add_royalty_recipient(&mut r, id(1), id(90), id(91), 50000);
    assert_eq!(res, Err(ErrorCode::CapacityExceeded));
    assert_eq!(r.royalty_recipients[0].percent_share, 100000);
}

#[test]
fn full_handover_reuses_the_donor_slot() {
    let mut r = fresh();
    for n in 0..9u64 {
        add_royalty_recipient(&mut r, id(1), id(10 + n), id(20 + n), 100000).unwrap();
    }
    // The ring is full, but the founder may hand over its whole remaining
    // share: its own slot is the one being rewritten.
    let res = add_royalty_recipient(&mut r, id(1), id(90), id(91), 100000);
    assert!(res.is_ok());
    let taken = &r.royalty_recipients[0];
    assert_eq!(taken.authority, id(90));
    assert_eq!(taken.percent_share, 100000);
    assert!(r.royalty_equals_1000000());
}

#[test]
fn append_refuses_live_occupant_and_advances_cursors() {
    let mut r = fresh();
    // Slots 1..=9 are vacant: nine appends succeed and wrap the cursors.
    for _ in 0..9 {
        assert_eq!(r.append(RoyaltyRecipient::empty()), Ok(()));
    }
    assert_eq!(r.head, 10);
    assert_eq!(r.tail, 1);
    // The next slot is the founder's, which still holds the whole share.
    let res = r.append(RoyaltyRecipient::empty());
    assert_eq!(res, Err(ErrorCode::CapacityExceeded));
    assert_eq!(r.head, 10);
}

#[test]
fn find_royalty_recipient_reports_first_match() {
    let mut r = fresh();
    add_royalty_recipient(&mut r, id(1), id(6), id(7), 250000).unwrap();
    assert_eq!(r.find_royalty_recipient(id(1)), Some(0));
    assert_eq!(r.find_royalty_recipient(id(6)), Some(1));
    assert_eq!(r.find_royalty_recipient(id(8)), None);
}

#[test]
fn royalty_equals_1000000_detects_drift() {
    let mut r = fresh();
    assert!(r.royalty_equals_1000000());
    r.royalty_recipients[0].percent_share = 999999;
    assert!(!r.royalty_equals_1000000());
}

#[test]
fn index_of_wraps_monotone_cursors() {
    assert_eq!(Royalty::index_of(0), 0);
    assert_eq!(Royalty::index_of(9), 9);
    assert_eq!(Royalty::index_of(10), 0);
    assert_eq!(Royalty::index_of(25), 5);
}

#[test]
fn update_royalty_recipient_owed_skips_inactive_slots() {
    let mut r = fresh();
    add_royalty_recipient(&mut r, id(1), id(6), id(7), 500000).unwrap();
    r.update_royalty_recipient_owed(10);
    assert_eq!(r.royalty_recipients[0].owed, 5);
    assert_eq!(r.royalty_recipients[1].owed, 5);
    for slot in &r.royalty_recipients[2..] {
        assert_eq!(slot.owed, 0);
    }
}

#[test]
fn share_sum_invariant_holds_across_operations() {
    let mut r = fresh();
    assert!(r.royalty_equals_1000000());
    process_royalty_deposit(&mut r, true, 12345);
    assert!(r.royalty_equals_1000000());
    add_royalty_recipient(&mut r, id(1), id(6), id(7), 333333).unwrap();
    assert!(r.royalty_equals_1000000());
    collect_royalty(&mut r, id(6)).unwrap();
    assert!(r.royalty_equals_1000000());
    process_royalty_deposit(&mut r, false, 999);
    assert!(r.royalty_equals_1000000());
    assert_eq!(shares_sum(&r), 1000000);
}

#[test]
fn deposits_conserve_value_up_to_rounding() {
    let mut r = fresh();
    add_royalty_recipient(&mut r, id(1), id(6), id(7), 123456).unwrap();
    let mut total: u128 = 0;
    for amount in [1u64, 10, 999, 1000000, 7] {
        process_royalty_deposit(&mut r, amount % 2 == 0, amount);
        total += amount as u128;
    }
    assert_eq!(r.total_collected as u128, total);
    assert_eq!(
        r.primary_sale_total as u128 + r.secondary_sale_total as u128,
        total
    );
    // Owed never exceeds what came in, and the shortfall stays below one
    // unit per active beneficiary per deposit.
    assert!(owed_sum(&r) <= total);
    assert!(total - owed_sum(&r) < 2 * 5);
}
