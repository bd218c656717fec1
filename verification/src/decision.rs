//! The admissibility layer of the balance engine: whether a deposit or a
//! withdrawal may go ahead, the maximum decrease an account can take, and the
//! two-pass debit/credit preparation that computes the actual amounts moved.
//!
//! Every decision is stated first as a pure function of the values it reads
//! (the asset record, the account record, the externally frozen amount, the
//! holder's provider references); the executable checks are proved to return
//! exactly those functions' results.

use vstd::prelude::*;
use crate::freeze::FrozenBalance;
use crate::refs::RefCounter;
use crate::state::acct_of;
use crate::state::acct_uniq;
use crate::state::account_or_default;
use crate::state::find_account;
use crate::state::AccountEntry;
use crate::state::Pallet;
use crate::types::AccountId;
use crate::types::AssetBalance;
use crate::types::AssetDetails;
use crate::types::AssetId;
use crate::types::Balance;
use crate::types::DepositConsequence;
use crate::types::Error;
use crate::types::RespectFrozen;
use crate::types::WithdrawConsequence;

verus! {

/// Addition clamped at the balance type's maximum.
pub open spec fn sat_add(a: Balance, b: Balance) -> Balance {
    if a + b > Balance::MAX {
        Balance::MAX
    } else {
        (a + b) as Balance
    }
}

/// Subtraction clamped at zero.
pub open spec fn sat_sub(a: Balance, b: Balance) -> Balance {
    if a >= b {
        (a - b) as Balance
    } else {
        0
    }
}

/// The smaller of two amounts.
pub open spec fn min_bal(a: Balance, b: Balance) -> Balance {
    if a <= b {
        a
    } else {
        b
    }
}

/// Whether depositing `amount` into the account holding `balance` may go
/// ahead, given the asset's record and the holder's provider references.
pub open spec fn deposit_consequence(
    details: AssetDetails,
    balance: Balance,
    providers: u64,
    amount: Balance,
) -> DepositConsequence {
    if details.supply + amount > Balance::MAX {
        DepositConsequence::Overflow
    } else if balance + amount > Balance::MAX {
        DepositConsequence::Overflow
    } else if balance == 0 {
        if amount < details.min_balance {
            DepositConsequence::BelowMinimum
        } else if !details.is_sufficient && providers == 0 {
            DepositConsequence::CannotCreate
        } else if details.is_sufficient && details.sufficients == u32::MAX {
            DepositConsequence::Overflow
        } else {
            DepositConsequence::Success
        }
    } else {
        DepositConsequence::Success
    }
}

/// Whether withdrawing `amount` from `account` may go ahead, and the argument
/// of the melt notification owed to the freeze hook, if one is.
///
/// `frozen` is the extra amount the freeze hook reports; when present, the
/// account is asked to retain `frozen + min_balance`. A withdrawal that dips
/// below that requirement fails `Frozen` when freezes are respected; otherwise
/// it proceeds and the hook is owed a melt notification carrying what remains
/// above the minimum balance. Independently, a remainder below the minimum
/// balance fails `WouldDie` when the account must stay alive, and otherwise
/// succeeds as `ReducedToZero` with the remainder to be swept.
pub open spec fn withdraw_consequence(
    details: AssetDetails,
    account: AssetBalance,
    frozen: Option<Balance>,
    amount: Balance,
    keep_alive: bool,
    respect: RespectFrozen,
) -> (WithdrawConsequence, Option<Balance>) {
    if details.supply < amount {
        (WithdrawConsequence::Underflow, None)
    } else if details.is_frozen {
        (WithdrawConsequence::Frozen, None)
    } else if account.is_frozen {
        (WithdrawConsequence::Frozen, None)
    } else if account.balance < amount {
        (WithdrawConsequence::NoFunds, None)
    } else {
        let rest = (account.balance - amount) as Balance;
        if frozen is Some && frozen->0 + details.min_balance > Balance::MAX {
            (WithdrawConsequence::Overflow, None)
        } else if frozen is Some && rest < (frozen->0 + details.min_balance) as Balance
            && respect == RespectFrozen::Respect {
            (WithdrawConsequence::Frozen, None)
        } else {
            let melt = if frozen is Some && rest < (frozen->0 + details.min_balance) as Balance {
                Some(sat_sub(rest, details.min_balance))
            } else {
                None
            };
            if rest < details.min_balance {
                if keep_alive {
                    (WithdrawConsequence::WouldDie, None)
                } else {
                    (WithdrawConsequence::ReducedToZero(rest), melt)
                }
            } else {
                (WithdrawConsequence::Success, melt)
            }
        }
    }
}

/// The maximum amount a withdrawal from `account` can take with consequence
/// `Success` or `ReducedToZero`: the balance less whatever the freeze and
/// keep-alive rules retain, clamped to the supply.
pub open spec fn decreasable(
    details: AssetDetails,
    account: AssetBalance,
    frozen: Option<Balance>,
    keep_alive: bool,
    respect: RespectFrozen,
) -> Result<Balance, Error> {
    if details.is_frozen {
        Err(Error::Frozen)
    } else if account.is_frozen {
        Err(Error::Frozen)
    } else if respect == RespectFrozen::Respect && frozen is Some {
        // A respected frozen balance: the account cannot be deleted.
        if frozen->0 + details.min_balance > Balance::MAX {
            Err(Error::Overflow)
        } else {
            Ok(
                min_bal(
                    sat_sub(account.balance, (frozen->0 + details.min_balance) as Balance),
                    details.supply,
                ),
            )
        }
    } else if keep_alive {
        Ok(min_bal(sat_sub(account.balance, details.min_balance), details.supply))
    } else {
        // No frozen balance, or one that is not respected: the account can be
        // deleted, and if a frozen balance was present a melt notification
        // will be owed.
        Ok(min_bal(account.balance, details.supply))
    }
}

/// The two-pass debit preparation: cap the amount by `decreasable`, refuse
/// `BalanceLow` unless the cap covers the request or the debit is best-effort,
/// then re-run `withdraw_consequence` on the capped amount to learn the
/// authoritative consequence, folding any `ReducedToZero` dust into the debit.
pub open spec fn debit_prep(
    details: AssetDetails,
    account: AssetBalance,
    frozen: Option<Balance>,
    amount: Balance,
    keep_alive: bool,
    respect: RespectFrozen,
    best_effort: bool,
) -> Result<(Balance, Option<Balance>), Error> {
    match decreasable(details, account, frozen, keep_alive, respect) {
        Err(e) => Err(e),
        Ok(cap) => {
            let actual = min_bal(cap, amount);
            if !best_effort && actual < amount {
                Err(Error::BalanceLow)
            } else {
                let cm = withdraw_consequence(details, account, frozen, actual, keep_alive, respect);
                match cm.0.spec_into_result() {
                    Ok(dust) => Ok((((actual + dust) as Balance, cm.1))),
                    Err(e) => Err(e),
                }
            }
        },
    }
}

/// The credit preparation: when dust is to be burned and the debit exceeds the
/// requested amount, only the requested amount is delivered and the excess is
/// earmarked for destruction; otherwise the whole debit is delivered.
pub open spec fn credit_prep(amount: Balance, debit: Balance, burn_dust: bool) -> (
    Balance,
    Option<Balance>,
) {
    if burn_dust && debit >= amount {
        (amount, Some((debit - amount) as Balance))
    } else {
        (debit, None)
    }
}

impl Pallet {
    /// `deposit_consequence` applied to this ledger's records; `UnknownAsset`
    /// when the asset is missing.
    pub open spec fn can_increase_s(
        self,
        providers: u64,
        id: AssetId,
        who: AccountId,
        amount: Balance,
    ) -> DepositConsequence {
        if !self.has_asset(id) {
            DepositConsequence::UnknownAsset
        } else {
            deposit_consequence(self.details_of(id), self.balance_of(id, who), providers, amount)
        }
    }

    /// `withdraw_consequence` applied to this ledger's records; `UnknownAsset`
    /// when the asset is missing.
    pub open spec fn can_decrease_s(
        self,
        frozen: Option<Balance>,
        id: AssetId,
        who: AccountId,
        amount: Balance,
        keep_alive: bool,
        respect: RespectFrozen,
    ) -> (WithdrawConsequence, Option<Balance>) {
        if !self.has_asset(id) {
            (WithdrawConsequence::UnknownAsset, None)
        } else {
            withdraw_consequence(
                self.details_of(id),
                account_or_default(self.account_of(id, who)),
                frozen,
                amount,
                keep_alive,
                respect,
            )
        }
    }

    /// `decreasable` applied to this ledger's records; `Unknown` when the asset
    /// is missing.
    pub open spec fn decreasable_s(
        self,
        frozen: Option<Balance>,
        id: AssetId,
        who: AccountId,
        keep_alive: bool,
        respect: RespectFrozen,
    ) -> Result<Balance, Error> {
        if !self.has_asset(id) {
            Err(Error::Unknown)
        } else {
            decreasable(
                self.details_of(id),
                account_or_default(self.account_of(id, who)),
                frozen,
                keep_alive,
                respect,
            )
        }
    }

    /// `debit_prep` applied to this ledger's records; `Unknown` when the asset
    /// is missing.
    pub open spec fn prep_debit_s(
        self,
        frozen: Option<Balance>,
        id: AssetId,
        who: AccountId,
        amount: Balance,
        keep_alive: bool,
        respect: RespectFrozen,
        best_effort: bool,
    ) -> Result<(Balance, Option<Balance>), Error> {
        if !self.has_asset(id) {
            Err(Error::Unknown)
        } else {
            debit_prep(
                self.details_of(id),
                account_or_default(self.account_of(id, who)),
                frozen,
                amount,
                keep_alive,
                respect,
                best_effort,
            )
        }
    }

    /// `credit_prep` checked against `deposit_consequence` for the destination.
    pub open spec fn prep_credit_s(
        self,
        providers: u64,
        id: AssetId,
        dest: AccountId,
        amount: Balance,
        debit: Balance,
        burn_dust: bool,
    ) -> Result<(Balance, Option<Balance>), Error> {
        let cb = credit_prep(amount, debit, burn_dust);
        match self.can_increase_s(providers, id, dest, cb.0).spec_into_result() {
            Ok(u) => Ok(cb),
            Err(e) => Err(e),
        }
    }

    /// Whether depositing `amount` of `id` into `who` may go ahead.
    pub fn can_increase(
        &self,
        counter: &RefCounter,
        id: AssetId,
        who: AccountId,
        amount: Balance,
    ) -> (r: DepositConsequence)
        requires
            self.wf(),
            counter.uniq(),
        ensures
            r == self.can_increase_s(counter.providers_of(who), id, who, amount),
    {
        let found = self.find_asset(id);
        let ai = match found {
            Some(ai) => ai,
            None => {
                return DepositConsequence::UnknownAsset;
            },
        };
        let entry = &self.assets[ai];
        let details = entry.details;
        if details.supply > Balance::MAX - amount {
            return DepositConsequence::Overflow;
        }
        let account = read_account(&entry.accounts, who);
        proof {
            assert(account == account_or_default(self.account_of(id, who)));
        }
        if account.balance > Balance::MAX - amount {
            return DepositConsequence::Overflow;
        }
        if account.balance == 0 {
            if amount < details.min_balance {
                return DepositConsequence::BelowMinimum;
            }
            if !details.is_sufficient && counter.providers(who) == 0 {
                return DepositConsequence::CannotCreate;
            }
            if details.is_sufficient && details.sufficients == u32::MAX {
                return DepositConsequence::Overflow;
            }
        }
        DepositConsequence::Success
    }

    /// Whether withdrawing `amount` of `id` from `who` may go ahead, together
    /// with the melt notification owed to the freeze hook, if one is.
    pub fn can_decrease<F: FrozenBalance>(
        &self,
        hook: &F,
        id: AssetId,
        who: AccountId,
        amount: Balance,
        keep_alive: bool,
        respect: RespectFrozen,
    ) -> (r: (WithdrawConsequence, Option<Balance>))
        requires
            self.wf(),
        ensures
            r == self.can_decrease_s(
                hook.frozen_spec(id, who),
                id,
                who,
                amount,
                keep_alive,
                respect,
            ),
    {
        let found = self.find_asset(id);
        let ai = match found {
            Some(ai) => ai,
            None => {
                return (WithdrawConsequence::UnknownAsset, None);
            },
        };
        let entry = &self.assets[ai];
        let details = entry.details;
        if details.supply < amount {
            return (WithdrawConsequence::Underflow, None);
        }
        if details.is_frozen {
            return (WithdrawConsequence::Frozen, None);
        }
        let account = read_account(&entry.accounts, who);
        proof {
            assert(account == account_or_default(self.account_of(id, who)));
        }
        if account.is_frozen {
            return (WithdrawConsequence::Frozen, None);
        }
        if account.balance < amount {
            return (WithdrawConsequence::NoFunds, None);
        }
        let rest = account.balance - amount;
        let frozen = hook.frozen_balance(id, who);
        let melt: Option<Balance> = match frozen {
            Some(f) => {
                if f > Balance::MAX - details.min_balance {
                    return (WithdrawConsequence::Overflow, None);
                }
                let required = f + details.min_balance;
                if rest < required {
                    match respect {
                        RespectFrozen::Respect => {
                            return (WithdrawConsequence::Frozen, None);
                        },
                        RespectFrozen::Ignore => {
                            if rest >= details.min_balance {
                                Some(rest - details.min_balance)
                            } else {
                                Some(0)
                            }
                        },
                    }
                } else {
                    None
                }
            },
            None => None,
        };
        if rest < details.min_balance {
            if keep_alive {
                (WithdrawConsequence::WouldDie, None)
            } else {
                (WithdrawConsequence::ReducedToZero(rest), melt)
            }
        } else {
            (WithdrawConsequence::Success, melt)
        }
    }

    /// The maximum amount `can_decrease` accepts with consequence `Success` or
    /// `ReducedToZero`.
    pub fn decreasable_balance<F: FrozenBalance>(
        &self,
        hook: &F,
        id: AssetId,
        who: AccountId,
        keep_alive: bool,
        respect: RespectFrozen,
    ) -> (r: Result<Balance, Error>)
        requires
            self.wf(),
        ensures
            r == self.decreasable_s(hook.frozen_spec(id, who), id, who, keep_alive, respect),
    {
        let found = self.find_asset(id);
        let ai = match found {
            Some(ai) => ai,
            None => {
                return Err(Error::Unknown);
            },
        };
        let entry = &self.assets[ai];
        let details = entry.details;
        if details.is_frozen {
            return Err(Error::Frozen);
        }
        let account = read_account(&entry.accounts, who);
        proof {
            assert(account == account_or_default(self.account_of(id, who)));
        }
        if account.is_frozen {
            return Err(Error::Frozen);
        }
        let frozen = hook.frozen_balance(id, who);
        let amount: Balance = match (respect, frozen) {
            (RespectFrozen::Respect, Some(f)) => {
                if f > Balance::MAX - details.min_balance {
                    return Err(Error::Overflow);
                }
                let required = f + details.min_balance;
                if account.balance >= required {
                    account.balance - required
                } else {
                    0
                }
            },
            _ => {
                if keep_alive {
                    if account.balance >= details.min_balance {
                        account.balance - details.min_balance
                    } else {
                        0
                    }
                } else {
                    account.balance
                }
            },
        };
        if amount <= details.supply {
            Ok(amount)
        } else {
            Ok(details.supply)
        }
    }

    /// Prepare a debit of `amount` of `id` from `target`: the amount which
    /// should actually be debited (at least `amount` unless `best_effort`,
    /// possibly more by a swept dust residue), and the melt notification owed
    /// to the freeze hook, if one is.
    pub fn prep_debit<F: FrozenBalance>(
        &self,
        hook: &F,
        id: AssetId,
        target: AccountId,
        amount: Balance,
        keep_alive: bool,
        respect: RespectFrozen,
        best_effort: bool,
    ) -> (r: Result<(Balance, Option<Balance>), Error>)
        requires
            self.wf(),
        ensures
            r == self.prep_debit_s(
                hook.frozen_spec(id, target),
                id,
                target,
                amount,
                keep_alive,
                respect,
                best_effort,
            ),
    {
        let cap = match self.decreasable_balance(hook, id, target, keep_alive, respect) {
            Ok(cap) => cap,
            Err(e) => {
                return Err(e);
            },
        };
        let actual = if cap <= amount {
            cap
        } else {
            amount
        };
        if !best_effort && actual < amount {
            return Err(Error::BalanceLow);
        }
        let cm = self.can_decrease(hook, id, target, actual, keep_alive, respect);
        let dust = match cm.0.into_result() {
            Ok(dust) => dust,
            Err(e) => {
                return Err(e);
            },
        };
        proof {
            let acct = account_or_default(self.account_of(id, target));
            match cm.0 {
                WithdrawConsequence::ReducedToZero(d) => {
                    assert(actual + d == acct.balance);
                },
                _ => {
                    assert(dust == 0);
                },
            }
        }
        Ok((actual + dust, cm.1))
    }

    /// Prepare a credit of `debit` towards `dest`, of which `amount` was asked
    /// for: the amount which should be delivered and the excess earmarked to be
    /// burned, if dust is to be burned rather than delivered.
    pub fn prep_credit(
        &self,
        counter: &RefCounter,
        id: AssetId,
        dest: AccountId,
        amount: Balance,
        debit: Balance,
        burn_dust: bool,
    ) -> (r: Result<(Balance, Option<Balance>), Error>)
        requires
            self.wf(),
            counter.uniq(),
        ensures
            r == self.prep_credit_s(
                counter.providers_of(dest),
                id,
                dest,
                amount,
                debit,
                burn_dust,
            ),
    {
        let (credit, maybe_burn) = if burn_dust && debit >= amount {
            (amount, Some(debit - amount))
        } else {
            (debit, None)
        };
        match self.can_increase(counter, id, dest, credit).into_result() {
            Ok(u) => Ok((credit, maybe_burn)),
            Err(e) => Err(e),
        }
    }
}

/// Read the account record of `who` by value, the all-zero default when no
/// record exists.
pub(crate) fn read_account(v: &Vec<AccountEntry>, who: AccountId) -> (a: AssetBalance)
    requires
        acct_uniq(v@),
    ensures
        a == account_or_default(acct_of(v@, who)),
{
    let found = find_account(v, who);
    match found {
        Some(k) => {
            proof {
                crate::lemmas::lemma_acct_at(v@, k as int);
            }
            v[k].data
        },
        None => AssetBalance { balance: 0, is_frozen: false, sufficient: false, extra: 0 },
    }
}


impl Pallet {
    /// The amount of `id` that `who` could withdraw with consequence
    /// `Success`, respecting freezes and keeping the account alive; zero when
    /// nothing can be withdrawn.
    pub fn withdrawable_balance<F: FrozenBalance>(
        &self,
        hook: &F,
        id: AssetId,
        who: AccountId,
    ) -> (r: Balance)
        requires
            self.wf(),
        ensures
            r == (match self.decreasable_s(
                hook.frozen_spec(id, who),
                id,
                who,
                false,
                RespectFrozen::Respect,
            ) {
                Ok(x) => x,
                Err(e) => 0,
            }),
    {
        match self.decreasable_balance(hook, id, who, false, RespectFrozen::Respect) {
            Ok(x) => x,
            Err(e) => 0,
        }
    }
}


} // verus!
