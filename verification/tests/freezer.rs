//! Scenarios for the reserving freeze hook: respected and ignored freezes,
//! melt notifications, and reservation queries.

use asset_ledger::freeze::can_reserve;
use asset_ledger::freeze::Freezer;
use asset_ledger::refs::RefCounter;
use asset_ledger::state::Config;
use asset_ledger::state::Pallet;
use asset_ledger::types::Error;

fn freezer_setup() -> (Pallet, RefCounter, Freezer) {
    let mut p = Pallet::new(Config {
        asset_deposit: 7,
        metadata_deposit_base: 2,
        metadata_deposit_per_byte: 1,
        approval_deposit: 3,
        string_limit: 8,
    });
    let mut c = RefCounter::new();
    let mut f = Freezer::new();
    // Asset 1: minimum balance 10; account 2 holds 30, of which 5 reserved.
    p.force_create(1, 1, true, 10).unwrap();
    p.do_mint(&mut c, 1, 2, 30, None).unwrap();
    f.set_reserved(1, 2, 5);
    (p, c, f)
}

#[test]
fn respected_freeze_limits_withdrawals() {
    let (mut p, mut c, mut f) = freezer_setup();
    // 30 held, 5 reserved + 10 minimum retained: only 15 may leave.
    assert_eq!(p.withdrawable_balance(&f, 1, 2), 15);
    assert_eq!(
        p.transfer(&mut c, &mut f, 2, 1, 3, 18),
        Err(Error::BalanceLow)
    );
    assert_eq!(p.transfer(&mut c, &mut f, 2, 1, 3, 15), Ok(15));
    assert_eq!(p.balance(1, 2), 15);
    // No melt was recorded: the freeze was honoured.
    assert_eq!(f.melted_balance(1, 2), 0);
}

#[test]
fn ignored_freeze_melts() {
    let (mut p, mut c, mut f) = freezer_setup();
    // The admin moves 18, dipping below the 15 the hook asks to retain;
    // 12 remain, so 2 sit above the minimum and are reported melted.
    let moved = p.force_transfer(&mut c, &mut f, 1, 1, 2, 3, 18).unwrap();
    assert_eq!(moved, 18);
    assert_eq!(p.balance(1, 2), 12);
    assert_eq!(f.melted_balance(1, 2), 2);
    assert_eq!(f.reserved_balance(1, 2), 5);
}

#[test]
fn reservation_queries() {
    let (p, _c, f) = freezer_setup();
    assert_eq!(f.reserved_balance(1, 2), 5);
    assert_eq!(f.reserved_balance(1, 9), 0);
    // Withdrawing 15 still succeeds outright; 16 would dip into the freeze.
    assert!(can_reserve(&p, &f, 1, 2, 15));
    assert!(!can_reserve(&p, &f, 1, 2, 16));
    assert!(!can_reserve(&p, &f, 9, 2, 1));
}

#[test]
fn clearing_a_reservation_unlocks_funds() {
    let (mut p, mut c, mut f) = freezer_setup();
    f.set_reserved(1, 2, 0);
    assert_eq!(p.withdrawable_balance(&f, 1, 2), 30);
    assert_eq!(p.transfer(&mut c, &mut f, 2, 1, 3, 30), Ok(30));
    assert!(p.account(1, 2).is_none());
}
