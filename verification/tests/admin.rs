//! Scenarios for asset administration: creation, destruction with its
//! witness, team and ownership changes, forced status, metadata, and the
//! side-car payload.

use asset_ledger::freeze::NoFreeze;
use asset_ledger::refs::RefCounter;
use asset_ledger::state::Config;
use asset_ledger::state::Pallet;
use asset_ledger::types::Error;

fn admin_config() -> Config {
    Config {
        asset_deposit: 7,
        metadata_deposit_base: 2,
        metadata_deposit_per_byte: 1,
        approval_deposit: 3,
        string_limit: 8,
    }
}

#[test]
fn create_reserves_deposit_and_fills_roles() {
    let mut p = Pallet::new(admin_config());
    assert_eq!(p.create(2, 1, 5, 10), Ok(()));
    let d = p.asset_details(1).unwrap();
    assert_eq!(d.owner, 2);
    assert_eq!(d.issuer, 5);
    assert_eq!(d.admin, 5);
    assert_eq!(d.freezer, 5);
    assert_eq!(d.deposit, 7);
    assert_eq!(d.min_balance, 10);
    assert!(!d.is_sufficient);
    assert_eq!(p.create(9, 1, 9, 10), Err(Error::InUse));
    assert_eq!(p.create(9, 2, 9, 0), Err(Error::MinBalanceZero));
}

#[test]
fn destroy_needs_matching_witness() {
    let mut p = Pallet::new(admin_config());
    let mut c = RefCounter::new();
    let mut hook = NoFreeze;
    p.force_create(1, 1, true, 10).unwrap();
    p.do_mint(&mut c, 1, 2, 20, None).unwrap();
    let stale = p.asset_details(1).unwrap().destroy_witness();
    p.do_mint(&mut c, 1, 3, 20, None).unwrap();
    assert_eq!(
        p.destroy(&mut c, &mut hook, 1, None, stale),
        Err(Error::BadWitness)
    );
    let fresh = p.asset_details(1).unwrap().destroy_witness();
    assert_eq!(fresh.accounts, 2);
    assert_eq!(fresh.sufficients, 2);
    assert_eq!(fresh.approvals, 0);
    assert_eq!(p.destroy(&mut c, &mut hook, 1, None, fresh), Ok(0));
    assert!(p.asset_details(1).is_none());
    assert_eq!(p.balance(1, 2), 0);
    // Every reference placed at creation was released at destruction.
    assert_eq!(c.sufficients(2), 0);
    assert_eq!(c.sufficients(3), 0);
}

#[test]
fn destroy_checks_owner_and_returns_deposits() {
    let mut p = Pallet::new(admin_config());
    let mut c = RefCounter::new();
    let mut hook = NoFreeze;
    p.create(2, 1, 2, 10).unwrap();
    p.set_metadata(2, 1, vec![b'a', b'b'], vec![b'c'], 6).unwrap();
    let w = p.asset_details(1).unwrap().destroy_witness();
    assert_eq!(
        p.destroy(&mut c, &mut hook, 1, Some(9), w),
        Err(Error::NoPermission)
    );
    let w = p.asset_details(1).unwrap().destroy_witness();
    // The asset deposit (7) and the metadata deposit (2 + 3 bytes) come back.
    assert_eq!(p.destroy(&mut c, &mut hook, 1, Some(2), w), Ok(12));
}

#[test]
fn destroy_unknown_asset_fails() {
    let mut p = Pallet::new(admin_config());
    let mut c = RefCounter::new();
    let mut hook = NoFreeze;
    let w = asset_ledger::types::DestroyWitness { accounts: 0, sufficients: 0, approvals: 0 };
    assert_eq!(p.destroy(&mut c, &mut hook, 1, None, w), Err(Error::Unknown));
}

#[test]
fn ownership_moves_with_deposits() {
    let mut p = Pallet::new(admin_config());
    p.create(2, 1, 2, 10).unwrap();
    assert_eq!(p.transfer_ownership(9, 1, 5), Err(Error::NoPermission));
    assert_eq!(p.transfer_ownership(2, 1, 2), Ok(0));
    assert_eq!(p.transfer_ownership(2, 1, 5), Ok(7));
    assert_eq!(p.asset_details(1).unwrap().owner, 5);
}

#[test]
fn set_team_changes_roles() {
    let mut p = Pallet::new(admin_config());
    p.create(2, 1, 2, 10).unwrap();
    assert_eq!(p.set_team(9, 1, 3, 4, 5), Err(Error::NoPermission));
    assert_eq!(p.set_team(2, 1, 3, 4, 5), Ok(()));
    let d = p.asset_details(1).unwrap();
    assert_eq!(d.issuer, 3);
    assert_eq!(d.admin, 4);
    assert_eq!(d.freezer, 5);
    assert_eq!(d.owner, 2);
}

#[test]
fn force_asset_status_rewrites_attributes() {
    let mut p = Pallet::new(admin_config());
    let mut c = RefCounter::new();
    p.force_create(1, 1, true, 10).unwrap();
    p.do_mint(&mut c, 1, 2, 20, None).unwrap();
    // A minimum above a live balance is refused: no record may sit strictly
    // between zero and the minimum.
    assert_eq!(
        p.force_asset_status(1, 5, 5, 5, 5, 21, false, false),
        Err(Error::BelowMinimum)
    );
    assert_eq!(
        p.force_asset_status(1, 5, 5, 5, 5, 0, false, false),
        Err(Error::MinBalanceZero)
    );
    assert_eq!(p.force_asset_status(1, 5, 5, 5, 5, 15, false, true), Ok(()));
    let d = p.asset_details(1).unwrap();
    assert_eq!(d.owner, 5);
    assert_eq!(d.min_balance, 15);
    assert!(d.is_frozen);
    assert!(!d.is_sufficient);
    assert_eq!(d.supply, 20);
}

#[test]
fn metadata_round_trip() {
    let mut p = Pallet::new(admin_config());
    p.create(2, 1, 2, 10).unwrap();
    assert_eq!(
        p.set_metadata(9, 1, vec![b'x'], vec![b'y'], 2),
        Err(Error::NoPermission)
    );
    assert_eq!(
        p.set_metadata(2, 1, vec![b'a'; 9], vec![b'y'], 2),
        Err(Error::BadMetadata)
    );
    // Base 2 plus one per byte over three bytes: deposit 5.
    assert_eq!(p.set_metadata(2, 1, vec![b'x', b'y'], vec![b'z'], 2), Ok((0, 5)));
    let m = p.metadata(1).unwrap();
    assert_eq!(m.name, vec![b'x', b'y']);
    assert_eq!(m.symbol, vec![b'z']);
    assert_eq!(m.decimals, 2);
    assert!(!m.is_frozen);
    assert_eq!(p.clear_metadata(2, 1), Ok(5));
    assert!(p.metadata(1).is_none());
    assert_eq!(p.clear_metadata(2, 1), Err(Error::Unknown));
}

#[test]
fn forced_metadata_keeps_deposit() {
    let mut p = Pallet::new(admin_config());
    p.create(2, 1, 2, 10).unwrap();
    p.set_metadata(2, 1, vec![b'x'], vec![b'y'], 2).unwrap();
    assert_eq!(p.force_set_metadata(1, vec![b'q'], vec![b'r'], 0, true), Ok(()));
    let m = p.metadata(1).unwrap();
    // The deposit charged for the earlier metadata (2 base + 2 bytes) stays.
    assert_eq!(m.deposit, 4);
    assert!(m.is_frozen);
    // Frozen metadata refuses unprivileged changes.
    assert_eq!(
        p.set_metadata(2, 1, vec![b'x'], vec![b'y'], 2),
        Err(Error::NoPermission)
    );
    assert_eq!(p.force_clear_metadata(1), Ok(4));
    assert_eq!(p.force_clear_metadata(1), Err(Error::Unknown));
}

#[test]
fn extra_payload_needs_a_record() {
    let mut p = Pallet::new(admin_config());
    let mut c = RefCounter::new();
    p.force_create(1, 1, true, 10).unwrap();
    assert_eq!(p.set_extra(1, 2, 77), Err(Error::NoProvider));
    p.do_mint(&mut c, 1, 2, 20, None).unwrap();
    assert_eq!(p.extra(1, 2), 0);
    assert_eq!(p.set_extra(1, 2, 77), Ok(()));
    assert_eq!(p.extra(1, 2), 77);
    assert_eq!(p.balance(1, 2), 20);
}

#[test]
fn freeze_requires_roles_and_a_record() {
    let mut p = Pallet::new(admin_config());
    let mut c = RefCounter::new();
    p.force_create(1, 1, true, 10).unwrap();
    p.do_mint(&mut c, 1, 2, 20, None).unwrap();
    assert_eq!(p.freeze(9, 1, 2), Err(Error::NoPermission));
    assert_eq!(p.freeze(1, 1, 5), Err(Error::BalanceZero));
    assert_eq!(p.freeze(1, 1, 2), Ok(()));
    assert!(p.account(1, 2).unwrap().is_frozen);
    assert_eq!(p.thaw(9, 1, 2), Err(Error::NoPermission));
    assert_eq!(p.thaw(1, 1, 2), Ok(()));
    assert!(!p.account(1, 2).unwrap().is_frozen);
    assert_eq!(p.freeze(1, 9, 2), Err(Error::Unknown));
}
