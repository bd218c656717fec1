//! Scenarios for the balance engine: minting, burning, transfers, dust
//! sweeping, keep-alive, freezing, and reference counting.

use asset_ledger::freeze::NoFreeze;
use asset_ledger::refs::RefCounter;
use asset_ledger::state::Config;
use asset_ledger::state::Pallet;
use asset_ledger::types::Error;

fn test_config() -> Config {
    Config {
        asset_deposit: 7,
        metadata_deposit_base: 2,
        metadata_deposit_per_byte: 1,
        approval_deposit: 3,
        string_limit: 8,
    }
}

/// A ledger with one sufficient asset (id 1, min balance 10, owner 1) where
/// account 2 holds 12.
fn dust_setup() -> (Pallet, RefCounter, NoFreeze) {
    let mut p = Pallet::new(test_config());
    let mut c = RefCounter::new();
    let mut hook = NoFreeze;
    p.force_create(1, 1, true, 10).unwrap();
    p.do_mint(&mut c, 1, 2, 12, None).unwrap();
    (p, c, hook)
}

#[test]
fn mint_creates_account_and_supply() {
    let (p, c, _hook) = dust_setup();
    assert_eq!(p.balance(1, 2), 12);
    assert_eq!(p.total_supply(1), 12);
    assert_eq!(p.minimum_balance(1), 10);
    let a = p.account(1, 2).unwrap();
    assert!(a.sufficient);
    assert!(!a.is_frozen);
    assert_eq!(c.sufficients(2), 1);
    assert_eq!(c.consumers(2), 0);
}

#[test]
fn mint_below_minimum_rejected() {
    let mut p = Pallet::new(test_config());
    let mut c = RefCounter::new();
    p.force_create(1, 1, true, 10).unwrap();
    assert_eq!(p.do_mint(&mut c, 1, 2, 9, None), Err(Error::BelowMinimum));
    assert_eq!(p.balance(1, 2), 0);
    assert_eq!(p.total_supply(1), 0);
}

#[test]
fn mint_unknown_asset_rejected() {
    let mut p = Pallet::new(test_config());
    let mut c = RefCounter::new();
    assert_eq!(p.do_mint(&mut c, 9, 2, 100, None), Err(Error::UnknownAsset));
}

#[test]
fn mint_checks_issuer() {
    let mut p = Pallet::new(test_config());
    let mut c = RefCounter::new();
    p.force_create(1, 1, true, 10).unwrap();
    assert_eq!(p.mint(&mut c, 5, 1, 2, 50), Err(Error::NoPermission));
    assert_eq!(p.mint(&mut c, 1, 2, 1, 50), Err(Error::UnknownAsset));
    assert_eq!(p.mint(&mut c, 1, 1, 2, 50), Ok(()));
    assert_eq!(p.balance(1, 2), 50);
}

#[test]
fn mint_supply_overflow_rejected() {
    let mut p = Pallet::new(test_config());
    let mut c = RefCounter::new();
    p.force_create(1, 1, true, 10).unwrap();
    p.do_mint(&mut c, 1, 2, u64::MAX, None).unwrap();
    assert_eq!(p.do_mint(&mut c, 1, 3, 1, None), Err(Error::Overflow));
    assert_eq!(p.total_supply(1), u64::MAX);
}

#[test]
fn mint_needs_provider_for_insufficient_asset() {
    let mut p = Pallet::new(test_config());
    let mut c = RefCounter::new();
    p.force_create(1, 1, false, 10).unwrap();
    assert_eq!(p.do_mint(&mut c, 1, 2, 50, None), Err(Error::CannotCreate));
    c.inc_providers(2);
    assert_eq!(p.do_mint(&mut c, 1, 2, 50, None), Ok(()));
    assert_eq!(c.consumers(2), 1);
    assert_eq!(c.sufficients(2), 0);
}

#[test]
fn zero_transfer_is_noop() {
    let (mut p, mut c, mut hook) = dust_setup();
    let moved = p.transfer(&mut c, &mut hook, 2, 1, 3, 0).unwrap();
    assert_eq!(moved, 0);
    assert_eq!(p.balance(1, 2), 12);
    assert_eq!(p.balance(1, 3), 0);
    assert_eq!(p.total_supply(1), 12);
    assert!(p.account(1, 3).is_none());
}

#[test]
fn transfer_sweeps_dust() {
    let (mut p, mut c, mut hook) = dust_setup();
    // Moving 5 would leave 7 < 10 behind, so the whole 12 moves.
    let moved = p.transfer(&mut c, &mut hook, 2, 1, 3, 5).unwrap();
    assert_eq!(moved, 12);
    assert!(p.account(1, 2).is_none());
    assert_eq!(p.balance(1, 2), 0);
    assert_eq!(p.balance(1, 3), 12);
    assert_eq!(p.total_supply(1), 12);
    // The source's reference was released, the destination's placed.
    assert_eq!(c.sufficients(2), 0);
    assert_eq!(c.sufficients(3), 1);
}

#[test]
fn keep_alive_rejects_dusting_transfer() {
    let (mut p, mut c, mut hook) = dust_setup();
    // The admissibility check refuses to let the source die.
    let consequence = p.can_decrease(
        &hook,
        1,
        2,
        5,
        true,
        asset_ledger::types::RespectFrozen::Respect,
    );
    assert_eq!(consequence.0, asset_ledger::types::WithdrawConsequence::WouldDie);
    // The transfer itself caps the debit at what keeps the source alive (2)
    // before confirming, so it reports the shortfall.
    assert_eq!(
        p.transfer_keep_alive(&mut c, &mut hook, 2, 1, 3, 5),
        Err(Error::BalanceLow)
    );
    // Nothing moved.
    assert_eq!(p.balance(1, 2), 12);
    assert_eq!(p.balance(1, 3), 0);
    assert_eq!(p.total_supply(1), 12);
    assert_eq!(c.sufficients(2), 1);
}

#[test]
fn transfer_without_funds_rejected() {
    let (mut p, mut c, mut hook) = dust_setup();
    assert_eq!(
        p.transfer(&mut c, &mut hook, 3, 1, 2, 5),
        Err(Error::BalanceLow)
    );
}

#[test]
fn transfer_below_destination_minimum_rejected() {
    let mut p = Pallet::new(test_config());
    let mut c = RefCounter::new();
    let mut hook = NoFreeze;
    p.force_create(1, 1, true, 10).unwrap();
    p.do_mint(&mut c, 1, 2, 40, None).unwrap();
    // 5 cannot create the destination account under a minimum of 10.
    assert_eq!(
        p.transfer(&mut c, &mut hook, 2, 1, 3, 5),
        Err(Error::BelowMinimum)
    );
}

#[test]
fn self_transfer_changes_nothing() {
    let (mut p, mut c, mut hook) = dust_setup();
    // The debit of 5 sweeps the sub-minimum residue, so 12 is reported moved,
    // but an identity transfer touches nothing.
    let moved = p.transfer(&mut c, &mut hook, 2, 1, 2, 5).unwrap();
    assert_eq!(moved, 12);
    assert_eq!(p.balance(1, 2), 12);
    assert_eq!(p.total_supply(1), 12);
}

#[test]
fn force_transfer_checks_admin() {
    let (mut p, mut c, mut hook) = dust_setup();
    assert_eq!(
        p.force_transfer(&mut c, &mut hook, 9, 1, 2, 3, 12),
        Err(Error::NoPermission)
    );
    let moved = p.force_transfer(&mut c, &mut hook, 1, 1, 2, 3, 12).unwrap();
    assert_eq!(moved, 12);
    assert_eq!(p.balance(1, 3), 12);
}

#[test]
fn best_effort_burn_caps_at_decreasable() {
    let (mut p, mut c, mut hook) = dust_setup();
    // Burning 100 with best effort burns exactly what is decreasable: all 12.
    let burned = p.burn(&mut c, &mut hook, 1, 1, 2, 100).unwrap();
    assert_eq!(burned, 12);
    assert!(p.account(1, 2).is_none());
    assert_eq!(p.total_supply(1), 0);
    assert_eq!(c.sufficients(2), 0);
}

#[test]
fn burn_checks_admin() {
    let (mut p, mut c, mut hook) = dust_setup();
    assert_eq!(
        p.burn(&mut c, &mut hook, 9, 1, 2, 5),
        Err(Error::NoPermission)
    );
}

#[test]
fn burn_sweeps_dust_exactly_to_zero() {
    let mut p = Pallet::new(test_config());
    let mut c = RefCounter::new();
    let mut hook = NoFreeze;
    p.force_create(1, 1, true, 10).unwrap();
    p.do_mint(&mut c, 1, 2, 40, None).unwrap();
    // Burning 35 would leave 5 < 10, so the whole 40 goes.
    let burned = p
        .do_burn(&mut c, &mut hook, 1, 2, 35, None, false, asset_ledger::types::RespectFrozen::Ignore, false)
        .unwrap();
    assert_eq!(burned, 40);
    assert!(p.account(1, 2).is_none());
    assert_eq!(p.total_supply(1), 0);
}

#[test]
fn burn_keep_alive_leaves_minimum() {
    let mut p = Pallet::new(test_config());
    let mut c = RefCounter::new();
    let mut hook = NoFreeze;
    p.force_create(1, 1, true, 10).unwrap();
    p.do_mint(&mut c, 1, 2, 40, None).unwrap();
    let burned = p
        .do_burn(&mut c, &mut hook, 1, 2, 100, None, true, asset_ledger::types::RespectFrozen::Ignore, true)
        .unwrap();
    assert_eq!(burned, 30);
    assert_eq!(p.balance(1, 2), 10);
    assert_eq!(p.total_supply(1), 10);
}

#[test]
fn frozen_account_cannot_send() {
    let (mut p, mut c, mut hook) = dust_setup();
    p.freeze(1, 1, 2).unwrap();
    assert_eq!(
        p.transfer(&mut c, &mut hook, 2, 1, 3, 12),
        Err(Error::Frozen)
    );
    p.thaw(1, 1, 2).unwrap();
    assert_eq!(p.transfer(&mut c, &mut hook, 2, 1, 3, 12), Ok(12));
}

#[test]
fn frozen_asset_blocks_all_sends() {
    let (mut p, mut c, mut hook) = dust_setup();
    p.freeze_asset(1, 1).unwrap();
    assert_eq!(
        p.transfer(&mut c, &mut hook, 2, 1, 3, 12),
        Err(Error::Frozen)
    );
    p.thaw_asset(1, 1).unwrap();
    assert_eq!(p.transfer(&mut c, &mut hook, 2, 1, 3, 12), Ok(12));
}

#[test]
fn withdrawable_balance_respects_minimum_keepalive_rules() {
    let (p, _c, hook) = dust_setup();
    // Respecting freezes with no freeze hook data: the whole balance.
    assert_eq!(p.withdrawable_balance(&hook, 1, 2), 12);
    assert_eq!(p.withdrawable_balance(&hook, 1, 9), 0);
}

#[test]
fn queries_on_unknown_asset_default_to_zero() {
    let p = Pallet::new(test_config());
    assert_eq!(p.balance(9, 9), 0);
    assert_eq!(p.total_supply(9), 0);
    assert_eq!(p.minimum_balance(9), 0);
    assert!(p.asset_details(9).is_none());
    assert!(p.account(9, 9).is_none());
}

#[test]
fn supply_stays_sum_of_balances_across_operations() {
    let (mut p, mut c, mut hook) = dust_setup();
    p.do_mint(&mut c, 1, 4, 25, None).unwrap();
    p.transfer(&mut c, &mut hook, 4, 1, 5, 11).unwrap();
    p.burn(&mut c, &mut hook, 1, 1, 2, 3).unwrap();
    let sum = p.balance(1, 2) + p.balance(1, 3) + p.balance(1, 4) + p.balance(1, 5);
    assert_eq!(p.total_supply(1), sum);
}

#[test]
fn admissibility_reports_underflow_and_no_funds() {
    let mut p = Pallet::new(test_config());
    let mut c = RefCounter::new();
    let hook = NoFreeze;
    p.force_create(1, 1, true, 10).unwrap();
    p.do_mint(&mut c, 1, 2, 12, None).unwrap();
    p.do_mint(&mut c, 1, 3, 12, None).unwrap();
    // More than the whole supply cannot leave it.
    let c1 = p.can_decrease(&hook, 1, 2, 25, false, asset_ledger::types::RespectFrozen::Respect);
    assert_eq!(c1.0, asset_ledger::types::WithdrawConsequence::Underflow);
    // Within the supply but beyond the holder's balance.
    let c2 = p.can_decrease(&hook, 1, 2, 13, false, asset_ledger::types::RespectFrozen::Respect);
    assert_eq!(c2.0, asset_ledger::types::WithdrawConsequence::NoFunds);
    assert_eq!(c2.0.into_result(), Err(Error::NoFunds));
    // A plain decrease succeeds with no dust to sweep.
    let c3 = p.can_decrease(&hook, 1, 2, 2, false, asset_ledger::types::RespectFrozen::Respect);
    assert_eq!(c3.0, asset_ledger::types::WithdrawConsequence::Success);
    assert_eq!(c3.0.into_result(), Ok(0));
    // One that empties the account reports the residue to sweep.
    let c4 = p.can_decrease(&hook, 1, 2, 5, false, asset_ledger::types::RespectFrozen::Respect);
    assert_eq!(c4.0, asset_ledger::types::WithdrawConsequence::ReducedToZero(7));
    assert_eq!(c4.0.into_result(), Ok(7));
}

#[test]
fn deposit_admissibility_matches_mint_errors() {
    let mut p = Pallet::new(test_config());
    let mut c = RefCounter::new();
    p.force_create(1, 1, true, 10).unwrap();
    assert_eq!(
        p.can_increase(&c, 1, 2, 9),
        asset_ledger::types::DepositConsequence::BelowMinimum
    );
    assert_eq!(
        p.can_increase(&c, 1, 2, 10),
        asset_ledger::types::DepositConsequence::Success
    );
    assert_eq!(
        p.can_increase(&c, 9, 2, 10),
        asset_ledger::types::DepositConsequence::UnknownAsset
    );
    assert_eq!(
        p.can_increase(&c, 1, 2, 10).into_result(),
        Ok(())
    );
}
