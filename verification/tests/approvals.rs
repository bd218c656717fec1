//! Scenarios for the approval subsystem: the Absent/Active state machine,
//! deposits, and approved transfers.

use asset_ledger::freeze::NoFreeze;
use asset_ledger::refs::RefCounter;
use asset_ledger::state::Config;
use asset_ledger::state::Pallet;
use asset_ledger::types::Error;

/// Asset 1 with minimum balance 1; owner account 2 holds 50. The configured
/// approval deposit is 3.
fn approval_setup() -> (Pallet, RefCounter, NoFreeze) {
    let mut p = Pallet::new(Config {
        asset_deposit: 7,
        metadata_deposit_base: 2,
        metadata_deposit_per_byte: 1,
        approval_deposit: 3,
        string_limit: 8,
    });
    let mut c = RefCounter::new();
    p.force_create(1, 1, true, 1).unwrap();
    p.do_mint(&mut c, 1, 2, 50, None).unwrap();
    (p, c, NoFreeze)
}

#[test]
fn approve_then_spend_all_leaves_absent() {
    let (mut p, mut c, mut hook) = approval_setup();
    // The first approval reserves the configured deposit.
    assert_eq!(p.approve_transfer(2, 1, 3, 10), Ok(3));
    let a = p.approval(1, 2, 3).unwrap();
    assert_eq!(a.amount, 10);
    assert_eq!(a.deposit, 3);
    // Spending all of it removes the allowance and returns the deposit.
    let released = p
        .transfer_approved(&mut c, &mut hook, 3, 1, 2, 4, 10)
        .unwrap();
    assert_eq!(released, Some(3));
    assert!(p.approval(1, 2, 3).is_none());
    assert_eq!(p.balance(1, 4), 10);
    assert_eq!(p.balance(1, 2), 40);
}

#[test]
fn approve_then_spend_part_leaves_active_remainder() {
    let (mut p, mut c, mut hook) = approval_setup();
    assert_eq!(p.approve_transfer(2, 1, 3, 10), Ok(3));
    let released = p
        .transfer_approved(&mut c, &mut hook, 3, 1, 2, 4, 4)
        .unwrap();
    assert_eq!(released, None);
    let a = p.approval(1, 2, 3).unwrap();
    assert_eq!(a.amount, 6);
    assert_eq!(a.deposit, 3);
    assert_eq!(p.balance(1, 4), 4);
    assert_eq!(p.balance(1, 2), 46);
}

#[test]
fn spending_more_than_approved_fails() {
    let (mut p, mut c, mut hook) = approval_setup();
    assert_eq!(p.approve_transfer(2, 1, 3, 10), Ok(3));
    assert_eq!(
        p.transfer_approved(&mut c, &mut hook, 3, 1, 2, 4, 11),
        Err(Error::Unapproved)
    );
    // The allowance is untouched.
    assert_eq!(p.approval(1, 2, 3).unwrap().amount, 10);
}

#[test]
fn spending_without_approval_fails() {
    let (mut p, mut c, mut hook) = approval_setup();
    assert_eq!(
        p.transfer_approved(&mut c, &mut hook, 3, 1, 2, 4, 1),
        Err(Error::Unapproved)
    );
}

#[test]
fn repeated_approvals_add_up() {
    let (mut p, _c, _hook) = approval_setup();
    assert_eq!(p.approve_transfer(2, 1, 3, 10), Ok(3));
    // A further approval tops up the amount; the deposit is already in place.
    assert_eq!(p.approve_transfer(2, 1, 3, 5), Ok(0));
    let a = p.approval(1, 2, 3).unwrap();
    assert_eq!(a.amount, 15);
    assert_eq!(a.deposit, 3);
}

#[test]
fn failing_transfer_leaves_approval_untouched() {
    let (mut p, mut c, mut hook) = approval_setup();
    // Account 5 owns nothing but can still approve.
    assert_eq!(p.approve_transfer(5, 1, 3, 10), Ok(3));
    assert_eq!(
        p.transfer_approved(&mut c, &mut hook, 3, 1, 5, 4, 10),
        Err(Error::BalanceLow)
    );
    assert_eq!(p.approval(1, 5, 3).unwrap().amount, 10);
}

#[test]
fn cancel_returns_deposit() {
    let (mut p, _c, _hook) = approval_setup();
    assert_eq!(p.approve_transfer(2, 1, 3, 10), Ok(3));
    assert_eq!(p.cancel_approval(2, 1, 3), Ok(3));
    assert!(p.approval(1, 2, 3).is_none());
    assert_eq!(p.cancel_approval(2, 1, 3), Err(Error::Unknown));
}

#[test]
fn force_cancel_checks_admin() {
    let (mut p, _c, _hook) = approval_setup();
    assert_eq!(p.approve_transfer(2, 1, 3, 10), Ok(3));
    assert_eq!(
        p.force_cancel_approval(Some(9), 1, 2, 3),
        Err(Error::NoPermission)
    );
    assert_eq!(p.force_cancel_approval(Some(1), 1, 2, 3), Ok(3));
    assert!(p.approval(1, 2, 3).is_none());
    // A privileged origin needs no admin check.
    assert_eq!(p.approve_transfer(2, 1, 3, 4), Ok(3));
    assert_eq!(p.force_cancel_approval(None, 1, 2, 3), Ok(3));
}

#[test]
fn approving_unknown_asset_fails() {
    let (mut p, _c, _hook) = approval_setup();
    assert_eq!(p.approve_transfer(2, 9, 3, 10), Err(Error::Unknown));
}

#[test]
fn approving_zero_with_no_allowance_stores_nothing() {
    let (mut p, _c, _hook) = approval_setup();
    assert_eq!(p.approve_transfer(2, 1, 3, 0), Ok(0));
    assert!(p.approval(1, 2, 3).is_none());
}

#[test]
fn approval_count_tracks_live_allowances() {
    let (mut p, _c, _hook) = approval_setup();
    assert_eq!(p.asset_details(1).unwrap().approvals, 0);
    p.approve_transfer(2, 1, 3, 10).unwrap();
    p.approve_transfer(2, 1, 4, 10).unwrap();
    assert_eq!(p.asset_details(1).unwrap().approvals, 2);
    p.cancel_approval(2, 1, 3).unwrap();
    assert_eq!(p.asset_details(1).unwrap().approvals, 1);
}
