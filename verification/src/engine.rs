//! The mutating half of the balance engine: account lifecycle bookkeeping and
//! the mint operation. Each operation either fails with a typed error and
//! leaves every piece of state exactly as it was, or performs the transition
//! its contract describes, preserving the ledger's well-formedness invariant.

use vstd::prelude::*;
use crate::freeze::FrozenBalance;
use crate::lemmas::lemma_acct_at;
use crate::lemmas::lemma_acct_push;
use crate::lemmas::lemma_acct_update;
use crate::lemmas::lemma_asset_at;
use crate::lemmas::lemma_asset_update;
use crate::lemmas::lemma_bal_sum_push;
use crate::lemmas::lemma_bal_sum_update;
use crate::lemmas::lemma_suff_count_push;
use crate::lemmas::lemma_suff_count_update;
use crate::refs::sat_dec;
use crate::refs::sat_inc;
use crate::refs::RefCounter;
use crate::refs::RefEntry;
use crate::state::account_or_default;
use crate::state::find_account;
use crate::state::AccountEntry;
use crate::state::Pallet;
use crate::types::AccountId;
use crate::types::AssetBalance;
use crate::types::AssetDetails;
use crate::types::AssetId;
use crate::types::Balance;
use crate::types::DepositConsequence;
use crate::types::Error;

verus! {

/// The counts of `who` after an increment of the class picked by `sufficient`.
pub open spec fn refs_after_inc(c: RefCounter, who: AccountId, sufficient: bool) -> RefEntry {
    if sufficient {
        RefEntry { sufficients: sat_inc(c.sufficients_of(who)), ..c.entry_of(who) }
    } else {
        RefEntry { consumers: sat_inc(c.consumers_of(who)), ..c.entry_of(who) }
    }
}

/// The counts of `who` after a decrement of the class picked by `sufficient`.
pub open spec fn refs_after_dec(c: RefCounter, who: AccountId, sufficient: bool) -> RefEntry {
    if sufficient {
        RefEntry { sufficients: sat_dec(c.sufficients_of(who)), ..c.entry_of(who) }
    } else {
        RefEntry { consumers: sat_dec(c.consumers_of(who)), ..c.entry_of(who) }
    }
}

/// The account record after a credit: topped up when it existed, fresh (with
/// the asset's reference class recorded) when it did not.
pub open spec fn credited_account(
    acct: Option<AssetBalance>,
    amount: Balance,
    is_sufficient: bool,
) -> AssetBalance {
    match acct {
        Some(a) => AssetBalance { balance: (a.balance + amount) as Balance, ..a },
        None => AssetBalance { balance: amount, is_frozen: false, sufficient: is_sufficient, extra: 0 },
    }
}

/// The asset record after a mint of `amount`, which created a record when
/// `creating`.
pub open spec fn credited_details(d: AssetDetails, amount: Balance, creating: bool) -> AssetDetails {
    AssetDetails {
        supply: (d.supply + amount) as Balance,
        accounts: if creating {
            (d.accounts + 1) as u32
        } else {
            d.accounts
        },
        sufficients: if creating && d.is_sufficient {
            (d.sufficients + 1) as u32
        } else {
            d.sufficients
        },
        ..d
    }
}

/// What a mint operation promises: either a typed failure with nothing
/// changed, or exactly the credit transition.
///
/// The failures, in the order they take precedence: any non-`Success`
/// admissibility consequence; `NoPermission` when an issuer check was asked
/// for and fails; `Overflow` when a record must be created but the asset's
/// account count is at its maximum. A zero amount is a no-op that succeeds.
pub open spec fn mint_spec(
    pre: Pallet,
    post: Pallet,
    cpre: RefCounter,
    cpost: RefCounter,
    id: AssetId,
    beneficiary: AccountId,
    amount: Balance,
    maybe_check_issuer: Option<AccountId>,
    r: Result<(), Error>,
) -> bool {
    let c = pre.can_increase_s(cpre.providers_of(beneficiary), id, beneficiary, amount);
    let creating = pre.balance_of(id, beneficiary) == 0;
    let d = pre.details_of(id);
    if amount == 0 {
        r == Ok::<(), Error>(()) && post == pre && cpost == cpre
    } else if c != DepositConsequence::Success {
        r == Err::<(), Error>(c.spec_into_result()->Err_0) && post == pre && cpost == cpre
    } else if maybe_check_issuer is Some && maybe_check_issuer->0 != d.issuer {
        r == Err::<(), Error>(Error::NoPermission) && post == pre && cpost == cpre
    } else if creating && d.accounts == u32::MAX {
        r == Err::<(), Error>(Error::Overflow) && post == pre && cpost == cpre
    } else {
        &&& r == Ok::<(), Error>(())
        &&& post.has_asset(id)
        &&& post.details_of(id) == credited_details(d, amount, creating)
        &&& post.account_of(id, beneficiary) == Some(
            credited_account(pre.account_of(id, beneficiary), amount, d.is_sufficient),
        )
        &&& forall|w: AccountId| w != beneficiary ==> post.account_of(id, w) == pre.account_of(
            id,
            w,
        )
        &&& forall|k: crate::types::ApprovalKey| post.approval_of(id, k) == pre.approval_of(id, k)
        &&& post.metadata_of(id) == pre.metadata_of(id)
        &&& forall|id2: AssetId| id2 != id ==> post.asset_same(pre, id2)
        &&& post.config == pre.config
        &&& (if creating {
            cpost.entry_of(beneficiary) == refs_after_inc(cpre, beneficiary, d.is_sufficient)
                && cpost.same_except(cpre, beneficiary)
        } else {
            cpost == cpre
        })
    }
}

/// Bookkeeping for a record coming to exist: bump the asset's account count
/// (failing `Overflow` at the maximum) and place a reference of the class the
/// asset calls for — self-sufficient unconditionally, dependent only while the
/// holder has a provider (failing `NoProvider` otherwise). Returns the class
/// placed, to be recorded for symmetric teardown.
fn new_account(who: AccountId, d: &mut AssetDetails, counter: &mut RefCounter) -> (r: Result<
    bool,
    Error,
>)
    requires
        old(counter).uniq(),
        old(d).is_sufficient ==> old(d).sufficients < u32::MAX,
    ensures
        final(counter).uniq(),
        match r {
            Ok(s) => {
                &&& s == old(d).is_sufficient
                &&& old(d).accounts < u32::MAX
                &&& *final(d) == (AssetDetails {
                    accounts: (old(d).accounts + 1) as u32,
                    sufficients: if s {
                        (old(d).sufficients + 1) as u32
                    } else {
                        old(d).sufficients
                    },
                    ..*old(d)
                })
                &&& final(counter).entry_of(who) == refs_after_inc(*old(counter), who, s)
                &&& final(counter).same_except(*old(counter), who)
            },
            Err(e) => {
                &&& *final(d) == *old(d)
                &&& *final(counter) == *old(counter)
                &&& (e == Error::Overflow <==> old(d).accounts == u32::MAX)
                &&& (e == Error::NoProvider <==> old(d).accounts < u32::MAX
                    && !old(d).is_sufficient && old(counter).providers_of(who) == 0)
                &&& (e == Error::Overflow || e == Error::NoProvider)
            },
        },
{
    if d.accounts == u32::MAX {
        return Err(Error::Overflow);
    }
    let accounts = d.accounts + 1;
    let is_sufficient: bool;
    if d.is_sufficient {
        counter.inc_sufficients(who);
        d.sufficients = d.sufficients + 1;
        is_sufficient = true;
    } else {
        match counter.inc_consumers(who) {
            Ok(u) => {},
            Err(e) => {
                return Err(Error::NoProvider);
            },
        }
        is_sufficient = false;
    }
    d.accounts = accounts;
    Ok(is_sufficient)
}

/// Bookkeeping for a record ceasing to exist: drop the asset's account count,
/// release the reference class recorded at creation, and notify the freeze
/// hook of the death.
pub(crate) fn dead_account<F: FrozenBalance>(
    id: AssetId,
    who: AccountId,
    d: &mut AssetDetails,
    sufficient: bool,
    counter: &mut RefCounter,
    hook: &mut F,
)
    requires
        old(counter).uniq(),
        old(d).accounts >= 1,
        sufficient ==> old(d).sufficients >= 1,
    ensures
        final(counter).uniq(),
        *final(d) == (AssetDetails {
            accounts: (old(d).accounts - 1) as u32,
            sufficients: if sufficient {
                (old(d).sufficients - 1) as u32
            } else {
                old(d).sufficients
            },
            ..*old(d)
        }),
        final(counter).entry_of(who) == refs_after_dec(*old(counter), who, sufficient),
        final(counter).same_except(*old(counter), who),
{
    if sufficient {
        d.sufficients = d.sufficients - 1;
        counter.dec_sufficients(who);
    } else {
        counter.dec_consumers(who);
    }
    d.accounts = d.accounts - 1;
    hook.died(id, who);
}

impl Pallet {
    /// Credit `amount` of `id` to `beneficiary`, creating its record (and
    /// placing the matching reference) if this is its first nonzero balance,
    /// and growing the supply by the same amount. Checks the issuer when asked
    /// to. A failure anywhere leaves all state untouched.
    pub fn increase_balance(
        &mut self,
        counter: &mut RefCounter,
        id: AssetId,
        beneficiary: AccountId,
        amount: Balance,
        maybe_check_issuer: Option<AccountId>,
    ) -> (r: Result<(), Error>)
        requires
            old(self).wf(),
            old(counter).uniq(),
        ensures
            final(self).wf(),
            final(counter).uniq(),
            mint_spec(
                *old(self),
                *final(self),
                *old(counter),
                *final(counter),
                id,
                beneficiary,
                amount,
                maybe_check_issuer,
                r,
            ),
    {
        if amount == 0 {
            return Ok(());
        }
        match self.can_increase(counter, id, beneficiary, amount).into_result() {
            Ok(u) => {},
            Err(e) => {
                return Err(e);
            },
        }
        let found = self.find_asset(id);
        let ai = match found {
            Some(ai) => ai,
            None => {
                proof {
                    assert(false);
                }
                return Err(Error::Unknown);
            },
        };
        proof {
            assert(crate::state::entry_wf(self.assets@[ai as int]));
        }
        let details_pre = self.assets[ai].details;
        match maybe_check_issuer {
            Some(check_issuer) => {
                if check_issuer != details_pre.issuer {
                    return Err(Error::NoPermission);
                }
            },
            None => {},
        }
        let account_pre = crate::decision::read_account(&self.assets[ai].accounts, beneficiary);
        let creating = account_pre.balance == 0;
        proof {
            if self.account_of(id, beneficiary) is Some {
                let s = self.assets@[ai as int].accounts@;
                lemma_acct_at(s, crate::state::acct_idx(s, beneficiary));
                assert(account_pre.balance >= details_pre.min_balance);
            }
        }
        if creating && details_pre.accounts == u32::MAX {
            return Err(Error::Overflow);
        }
        // All checks passed: stage the mutation.
        let ghost pre = *self;
        let ghost cpre = *counter;
        let mut entry = self.assets.remove(ai);
        let mut details = entry.details;
        details.supply = details.supply + amount;
        let mut sufficient_flag = false;
        if creating {
            match new_account(beneficiary, &mut details, counter) {
                Ok(s) => {
                    sufficient_flag = s;
                },
                Err(e) => {
                    proof {
                        assert(false);
                    }
                    return Err(e);
                },
            }
        }
        let ghost accounts_pre = entry.accounts@;
        let found_acct = find_account(&entry.accounts, beneficiary);
        match found_acct {
            Some(k) => {
                proof {
                    lemma_acct_at(accounts_pre, k as int);
                    assert(!creating);
                }
                let a = entry.accounts[k].data;
                let updated = AccountEntry {
                    holder: beneficiary,
                    data: AssetBalance { balance: a.balance + amount, ..a },
                };
                proof {
                    lemma_acct_update(accounts_pre, k as int, updated);
                    lemma_bal_sum_update(accounts_pre, k as int, updated);
                    lemma_suff_count_update(accounts_pre, k as int, updated);
                }
                entry.accounts.set(k, updated);
            },
            None => {
                proof {
                    assert(creating);
                }
                let fresh = AccountEntry {
                    holder: beneficiary,
                    data: AssetBalance {
                        balance: amount,
                        is_frozen: false,
                        sufficient: sufficient_flag,
                        extra: 0,
                    },
                };
                proof {
                    lemma_acct_push(accounts_pre, fresh);
                    lemma_bal_sum_push(accounts_pre, fresh);
                    lemma_suff_count_push(accounts_pre, fresh);
                }
                entry.accounts.push(fresh);
            },
        }
        entry.details = details;
        self.assets.insert(ai, entry);
        proof {
            assert(self.assets@ =~= pre.assets@.update(ai as int, self.assets@[ai as int]));
            lemma_asset_update(pre, *self, ai as int);
            assert(crate::state::entry_wf(self.assets@[ai as int]));
            assert forall|i: int| 0 <= i < self.assets@.len() implies crate::state::entry_wf(
                #[trigger] self.assets@[i],
            ) by {
                if i != ai as int {
                    assert(self.assets@[i] == pre.assets@[i]);
                }
            }
            assert(self.account_of(id, beneficiary) == Some(
                credited_account(pre.account_of(id, beneficiary), amount, details_pre.is_sufficient),
            ));
        }
        Ok(())
    }

    /// Mint `amount` of `id` into `beneficiary`, checking that `check_issuer`
    /// (when given) is the asset's issuer before any state is touched by the
    /// credit itself.
    pub fn do_mint(
        &mut self,
        counter: &mut RefCounter,
        id: AssetId,
        beneficiary: AccountId,
        amount: Balance,
        maybe_check_issuer: Option<AccountId>,
    ) -> (r: Result<(), Error>)
        requires
            old(self).wf(),
            old(counter).uniq(),
        ensures
            final(self).wf(),
            final(counter).uniq(),
            mint_spec(
                *old(self),
                *final(self),
                *old(counter),
                *final(counter),
                id,
                beneficiary,
                amount,
                maybe_check_issuer,
                r,
            ),
    {
        self.increase_balance(counter, id, beneficiary, amount, maybe_check_issuer)
    }

    /// Mint `amount` of `id` into `beneficiary` on behalf of `origin`, who must
    /// be the asset's issuer.
    pub fn mint(
        &mut self,
        counter: &mut RefCounter,
        origin: AccountId,
        id: AssetId,
        beneficiary: AccountId,
        amount: Balance,
    ) -> (r: Result<(), Error>)
        requires
            old(self).wf(),
            old(counter).uniq(),
        ensures
            final(self).wf(),
            final(counter).uniq(),
            mint_spec(
                *old(self),
                *final(self),
                *old(counter),
                *final(counter),
                id,
                beneficiary,
                amount,
                Some(origin),
                r,
            ),
    {
        self.do_mint(counter, id, beneficiary, amount, Some(origin))
    }
}


/// The account record after a debit of `actual`.
pub open spec fn debited_account(a: AssetBalance, actual: Balance) -> AssetBalance {
    AssetBalance { balance: (a.balance - actual) as Balance, ..a }
}

/// The asset record after a burn of `actual`, which removed the record (and
/// released a reference of the class `was_sufficient` picks) when `removing`.
pub open spec fn debited_details(
    d: AssetDetails,
    actual: Balance,
    removing: bool,
    was_sufficient: bool,
) -> AssetDetails {
    AssetDetails {
        supply: (d.supply - actual) as Balance,
        accounts: if removing {
            (d.accounts - 1) as u32
        } else {
            d.accounts
        },
        sufficients: if removing && was_sufficient {
            (d.sufficients - 1) as u32
        } else {
            d.sufficients
        },
        ..d
    }
}

/// What a burn operation promises: either a typed failure with nothing
/// changed, or exactly the debit transition for the amount the two-pass
/// preparation settled on.
///
/// The failures, in the order they take precedence: whatever the debit
/// preparation reports; `NoPermission` when an admin check was asked for and
/// fails. A zero amount is a no-op that succeeds with zero burned. On success
/// the supply and the target's balance both fall by the returned amount, and a
/// record left below the minimum balance (hence, exactly empty) is deleted,
/// its reference class released.
pub open spec fn burn_spec(
    pre: Pallet,
    post: Pallet,
    cpre: RefCounter,
    cpost: RefCounter,
    frozen: Option<Balance>,
    id: AssetId,
    target: AccountId,
    amount: Balance,
    maybe_check_admin: Option<AccountId>,
    keep_alive: bool,
    respect: crate::types::RespectFrozen,
    best_effort: bool,
    r: Result<Balance, Error>,
) -> bool {
    let p = pre.prep_debit_s(frozen, id, target, amount, keep_alive, respect, best_effort);
    let d = pre.details_of(id);
    if amount == 0 {
        r == Ok::<Balance, Error>(0) && post == pre && cpost == cpre
    } else if p is Err {
        r == Err::<Balance, Error>(p->Err_0) && post == pre && cpost == cpre
    } else if maybe_check_admin is Some && maybe_check_admin->0 != d.admin {
        r == Err::<Balance, Error>(Error::NoPermission) && post == pre && cpost == cpre
    } else {
        let actual = p->Ok_0.0;
        let acct = pre.account_of(id, target);
        let a = account_or_default(acct);
        let new_bal = (a.balance - actual) as Balance;
        let removing = acct is Some && new_bal < d.min_balance;
        &&& r == Ok::<Balance, Error>(actual)
        &&& post.has_asset(id)
        &&& post.details_of(id) == debited_details(d, actual, removing, a.sufficient)
        &&& post.account_of(id, target) == (if removing || acct is None {
            None::<AssetBalance>
        } else {
            Some(debited_account(a, actual))
        })
        &&& forall|w: AccountId| w != target ==> post.account_of(id, w) == pre.account_of(id, w)
        &&& forall|k: crate::types::ApprovalKey| post.approval_of(id, k) == pre.approval_of(id, k)
        &&& post.metadata_of(id) == pre.metadata_of(id)
        &&& forall|id2: AssetId| id2 != id ==> post.asset_same(pre, id2)
        &&& post.config == pre.config
        &&& (if removing {
            cpost.entry_of(target) == refs_after_dec(cpre, target, a.sufficient)
                && cpost.same_except(cpre, target)
        } else {
            cpost == cpre
        })
    }
}

/// The facts a successful debit preparation guarantees: the settled amount is
/// covered by the balance and the supply, what remains is either exactly zero
/// or no less than the minimum balance, nothing was frozen, and a debit that
/// was not best-effort covers the requested amount.
pub proof fn lemma_debit_prep_ok(
    details: AssetDetails,
    account: AssetBalance,
    frozen: Option<Balance>,
    amount: Balance,
    keep_alive: bool,
    respect: crate::types::RespectFrozen,
    best_effort: bool,
)
    requires
        crate::decision::debit_prep(
            details,
            account,
            frozen,
            amount,
            keep_alive,
            respect,
            best_effort,
        ) is Ok,
        account.balance <= details.supply,
    ensures
        ({
            let actual = crate::decision::debit_prep(
                details,
                account,
                frozen,
                amount,
                keep_alive,
                respect,
                best_effort,
            )->Ok_0.0;
            &&& actual <= account.balance
            &&& actual <= details.supply
            &&& (account.balance - actual == 0 || account.balance - actual
                >= details.min_balance)
            &&& !details.is_frozen
            &&& !account.is_frozen
            &&& (!best_effort ==> actual >= amount)
        }),
{
}

impl Pallet {
    /// Debit up to `amount` of `id` from `target`, reducing the supply by the
    /// same amount. The amount actually debited is settled by the two-pass
    /// preparation: it can fall short of `amount` only when `best_effort`, and
    /// exceed it by a swept dust residue. A record left empty is deleted, its
    /// reference class released and the freeze hook notified of the death; a
    /// melt notification owed by the preparation is sent after the mutation.
    /// Checks the admin when asked to. A failure leaves all state untouched.
    #[verifier::rlimit(100)]
    pub fn decrease_balance<F: FrozenBalance>(
        &mut self,
        counter: &mut RefCounter,
        hook: &mut F,
        id: AssetId,
        target: AccountId,
        amount: Balance,
        keep_alive: bool,
        respect: crate::types::RespectFrozen,
        best_effort: bool,
        maybe_check_admin: Option<AccountId>,
    ) -> (r: Result<Balance, Error>)
        requires
            old(self).wf(),
            old(counter).uniq(),
        ensures
            final(self).wf(),
            final(counter).uniq(),
            burn_spec(
                *old(self),
                *final(self),
                *old(counter),
                *final(counter),
                old(hook).frozen_spec(id, target),
                id,
                target,
                amount,
                maybe_check_admin,
                keep_alive,
                respect,
                best_effort,
                r,
            ),
            (amount == 0 || r is Err) ==> *final(hook) == *old(hook),
    {
        if amount == 0 {
            return Ok(0);
        }
        let p = self.prep_debit(&*hook, id, target, amount, keep_alive, respect, best_effort);
        let (actual, melt) = match p {
            Ok(am) => am,
            Err(e) => {
                return Err(e);
            },
        };
        let found = self.find_asset(id);
        let ai = match found {
            Some(ai) => ai,
            None => {
                proof {
                    assert(false);
                }
                return Err(Error::Unknown);
            },
        };
        proof {
            assert(crate::state::entry_wf(self.assets@[ai as int]));
        }
        let details_pre = self.assets[ai].details;
        match maybe_check_admin {
            Some(check_admin) => {
                if check_admin != details_pre.admin {
                    return Err(Error::NoPermission);
                }
            },
            None => {},
        }
        let account_pre = crate::decision::read_account(&self.assets[ai].accounts, target);
        proof {
            let s = self.assets@[ai as int].accounts@;
            if self.account_of(id, target) is Some {
                let k = crate::state::acct_idx(s, target);
                lemma_acct_at(s, k);
                crate::lemmas::lemma_bal_sum_member(s, k);
            }
            lemma_debit_prep_ok(
                details_pre,
                account_pre,
                old(hook).frozen_spec(id, target),
                amount,
                keep_alive,
                respect,
                best_effort,
            );
        }
        let new_bal = account_pre.balance - actual;
        let ghost pre = *self;
        let ghost cpre = *counter;
        let mut entry = self.assets.remove(ai);
        let mut details = entry.details;
        details.supply = details.supply - actual;
        let ghost accounts_pre = entry.accounts@;
        let found_acct = find_account(&entry.accounts, target);
        match found_acct {
            Some(k) => {
                proof {
                    lemma_acct_at(accounts_pre, k as int);
                }
                if new_bal < details.min_balance {
                    proof {
                        if accounts_pre[k as int].data.sufficient {
                            crate::lemmas::lemma_suff_count_member(accounts_pre, k as int);
                        }
                        crate::lemmas::lemma_acct_remove(accounts_pre, k as int);
                        crate::lemmas::lemma_bal_sum_remove(accounts_pre, k as int);
                        crate::lemmas::lemma_suff_count_remove(accounts_pre, k as int);
                    }
                    let removed = entry.accounts.remove(k);
                    dead_account(id, target, &mut details, removed.data.sufficient, counter, hook);
                } else {
                    let a = entry.accounts[k].data;
                    let updated = AccountEntry {
                        holder: target,
                        data: AssetBalance { balance: new_bal, ..a },
                    };
                    proof {
                        lemma_acct_update(accounts_pre, k as int, updated);
                        lemma_bal_sum_update(accounts_pre, k as int, updated);
                        lemma_suff_count_update(accounts_pre, k as int, updated);
                    }
                    entry.accounts.set(k, updated);
                }
            },
            None => {
                proof {
                    assert(actual == 0);
                }
            },
        }
        entry.details = details;
        self.assets.insert(ai, entry);
        proof {
            assert(self.assets@ =~= pre.assets@.update(ai as int, self.assets@[ai as int]));
            lemma_asset_update(pre, *self, ai as int);
            assert(crate::state::entry_wf(self.assets@[ai as int]));
            assert forall|i: int| 0 <= i < self.assets@.len() implies crate::state::entry_wf(
                #[trigger] self.assets@[i],
            ) by {
                if i != ai as int {
                    assert(self.assets@[i] == pre.assets@[i]);
                }
            }
        }
        match melt {
            Some(m) => {
                hook.melted(id, target, m);
            },
            None => {},
        }
        Ok(actual)
    }

    /// Burn up to `amount` of `id` from `target`, checking that `check_admin`
    /// (when given) is the asset's admin. Returns the amount actually burned:
    /// capped at the decreasable balance when `best_effort`, topped up by a
    /// swept dust residue when the debit empties the account.
    pub fn do_burn<F: FrozenBalance>(
        &mut self,
        counter: &mut RefCounter,
        hook: &mut F,
        id: AssetId,
        target: AccountId,
        amount: Balance,
        maybe_check_admin: Option<AccountId>,
        keep_alive: bool,
        respect: crate::types::RespectFrozen,
        best_effort: bool,
    ) -> (r: Result<Balance, Error>)
        requires
            old(self).wf(),
            old(counter).uniq(),
        ensures
            final(self).wf(),
            final(counter).uniq(),
            burn_spec(
                *old(self),
                *final(self),
                *old(counter),
                *final(counter),
                old(hook).frozen_spec(id, target),
                id,
                target,
                amount,
                maybe_check_admin,
                keep_alive,
                respect,
                best_effort,
                r,
            ),
            (amount == 0 || r is Err) ==> *final(hook) == *old(hook),
    {
        self.decrease_balance(
            counter,
            hook,
            id,
            target,
            amount,
            keep_alive,
            respect,
            best_effort,
            maybe_check_admin,
        )
    }

    /// Burn as much as possible of `amount` of `id` from `who`, on behalf of
    /// `origin`, who must be the asset's admin. Freezes are not respected (the
    /// admin is privileged), and the burn is best-effort.
    pub fn burn<F: FrozenBalance>(
        &mut self,
        counter: &mut RefCounter,
        hook: &mut F,
        origin: AccountId,
        id: AssetId,
        who: AccountId,
        amount: Balance,
    ) -> (r: Result<Balance, Error>)
        requires
            old(self).wf(),
            old(counter).uniq(),
        ensures
            final(self).wf(),
            final(counter).uniq(),
            burn_spec(
                *old(self),
                *final(self),
                *old(counter),
                *final(counter),
                old(hook).frozen_spec(id, who),
                id,
                who,
                amount,
                Some(origin),
                false,
                crate::types::RespectFrozen::Ignore,
                true,
                r,
            ),
            (amount == 0 || r is Err) ==> *final(hook) == *old(hook),
    {
        self.do_burn(
            counter,
            hook,
            id,
            who,
            amount,
            Some(origin),
            false,
            crate::types::RespectFrozen::Ignore,
            true,
        )
    }
}



/// The state transition a transfer that went ahead performs, given the
/// settled debit, credit, and burn amounts.
pub open spec fn transfer_applied(
    pre: Pallet,
    post: Pallet,
    cpre: RefCounter,
    cpost: RefCounter,
    id: AssetId,
    source: AccountId,
    dest: AccountId,
    debit: Balance,
    credit: Balance,
    burn: Balance,
) -> bool {
    let d = pre.details_of(id);
    let src_acct = pre.account_of(id, source);
    let sa = account_or_default(src_acct);
    let new_src_bal = (sa.balance - debit) as Balance;
    let removing = src_acct is Some && new_src_bal < d.min_balance;
    let creating = pre.balance_of(id, dest) == 0;
    &&& post.has_asset(id)
    &&& post.details_of(id) == (AssetDetails {
        supply: (d.supply - burn) as Balance,
        accounts: ((d.accounts + (if creating {
            1int
        } else {
            0int
        }) - (if removing {
            1int
        } else {
            0int
        })) as u32),
        sufficients: ((d.sufficients + (if creating && d.is_sufficient {
            1int
        } else {
            0int
        }) - (if removing && sa.sufficient {
            1int
        } else {
            0int
        })) as u32),
        ..d
    })
    &&& post.account_of(id, dest) == Some(
        credited_account(pre.account_of(id, dest), credit, d.is_sufficient),
    )
    &&& post.account_of(id, source) == (if removing || src_acct is None {
        None::<AssetBalance>
    } else {
        Some(debited_account(sa, debit))
    })
    &&& forall|w: AccountId|
        w != source && w != dest ==> post.account_of(id, w) == pre.account_of(id, w)
    &&& forall|k: crate::types::ApprovalKey| post.approval_of(id, k) == pre.approval_of(id, k)
    &&& post.metadata_of(id) == pre.metadata_of(id)
    &&& forall|id2: AssetId| id2 != id ==> post.asset_same(pre, id2)
    &&& post.config == pre.config
    &&& cpost.entry_of(dest) == (if creating {
        refs_after_inc(cpre, dest, d.is_sufficient)
    } else {
        cpre.entry_of(dest)
    })
    &&& cpost.entry_of(source) == (if removing {
        refs_after_dec(cpre, source, sa.sufficient)
    } else {
        cpre.entry_of(source)
    })
    &&& forall|w: AccountId|
        w != source && w != dest ==> cpost.entry_of(w) == cpre.entry_of(w)
}

/// What a transfer promises: either a typed failure with nothing changed, or
/// exactly the composed debit-and-credit transition.
///
/// The failures, in the order they take precedence: whatever the debit
/// preparation reports for the source; whatever the credit preparation
/// reports for the destination; `NoPermission` when an admin check was asked
/// for and fails; `Overflow` when the destination record must be created but
/// the asset\'s account count is at its maximum. A zero amount, and a transfer
/// from an account to itself, are no-ops that succeed. On success the
/// reported amount is what the destination was credited: the debit less any
/// dust burned, which can exceed the requested amount through sweeping or
/// fall short of it when `best_effort`.
pub open spec fn transfer_spec(
    pre: Pallet,
    post: Pallet,
    cpre: RefCounter,
    cpost: RefCounter,
    frozen: Option<Balance>,
    id: AssetId,
    source: AccountId,
    dest: AccountId,
    amount: Balance,
    maybe_need_admin: Option<AccountId>,
    keep_alive: bool,
    respect: crate::types::RespectFrozen,
    best_effort: bool,
    burn_dust: bool,
    r: Result<Balance, Error>,
) -> bool {
    let d = pre.details_of(id);
    let p = pre.prep_debit_s(frozen, id, source, amount, keep_alive, respect, best_effort);
    if amount == 0 {
        r == Ok::<Balance, Error>(0) && post == pre && cpost == cpre
    } else if p is Err {
        r == Err::<Balance, Error>(p->Err_0) && post == pre && cpost == cpre
    } else {
        let debit = p->Ok_0.0;
        let q = pre.prep_credit_s(cpre.providers_of(dest), id, dest, amount, debit, burn_dust);
        if q is Err {
            r == Err::<Balance, Error>(q->Err_0) && post == pre && cpost == cpre
        } else {
            let credit = q->Ok_0.0;
            let burn = match q->Ok_0.1 {
                Some(b) => b,
                None => 0,
            };
            let src_acct = pre.account_of(id, source);
            let sa = account_or_default(src_acct);
            let new_src_bal = (sa.balance - debit) as Balance;
            let removing = src_acct is Some && new_src_bal < d.min_balance;
            let creating = pre.balance_of(id, dest) == 0;
            if maybe_need_admin is Some && maybe_need_admin->0 != d.admin {
                r == Err::<Balance, Error>(Error::NoPermission) && post == pre && cpost == cpre
            } else if source == dest {
                r == Ok::<Balance, Error>(credit) && post == pre && cpost == cpre
            } else if creating && d.accounts == u32::MAX {
                r == Err::<Balance, Error>(Error::Overflow) && post == pre && cpost == cpre
            } else {
                r == Ok::<Balance, Error>(credit) && transfer_applied(
                    pre,
                    post,
                    cpre,
                    cpost,
                    id,
                    source,
                    dest,
                    debit,
                    credit,
                    burn,
                )
            }
        }
    }
}

impl Pallet {
    /// Move assets of `id` from `source` to `dest`: debit the source by the
    /// amount the two-pass preparation settles on, credit the destination
    /// with it less any dust earmarked to burn, create the destination record
    /// (placing its reference) on its first nonzero balance, and delete an
    /// emptied source record (releasing its reference, with the death
    /// notification). A melt notification owed by the preparation is sent
    /// after the mutation. Checks the admin when asked to. A failure leaves
    /// all state untouched.
    #[verifier::rlimit(100)]
    pub fn do_transfer<F: FrozenBalance>(
        &mut self,
        counter: &mut RefCounter,
        hook: &mut F,
        id: AssetId,
        source: AccountId,
        dest: AccountId,
        amount: Balance,
        maybe_need_admin: Option<AccountId>,
        keep_alive: bool,
        respect: crate::types::RespectFrozen,
        best_effort: bool,
        burn_dust: bool,
    ) -> (r: Result<Balance, Error>)
        requires
            old(self).wf(),
            old(counter).uniq(),
        ensures
            final(self).wf(),
            final(counter).uniq(),
            transfer_spec(
                *old(self),
                *final(self),
                *old(counter),
                *final(counter),
                old(hook).frozen_spec(id, source),
                id,
                source,
                dest,
                amount,
                maybe_need_admin,
                keep_alive,
                respect,
                best_effort,
                burn_dust,
                r,
            ),
            (amount == 0 || r is Err) ==> *final(hook) == *old(hook),
    {
        if amount == 0 {
            return Ok(0);
        }
        let p = self.prep_debit(&*hook, id, source, amount, keep_alive, respect, best_effort);
        let (debit, melt) = match p {
            Ok(dm) => dm,
            Err(e) => {
                return Err(e);
            },
        };
        let q = self.prep_credit(counter, id, dest, amount, debit, burn_dust);
        let (credit, maybe_burn) = match q {
            Ok(cb) => cb,
            Err(e) => {
                return Err(e);
            },
        };
        let burn = match maybe_burn {
            Some(b) => b,
            None => 0,
        };
        let found = self.find_asset(id);
        let ai = match found {
            Some(ai) => ai,
            None => {
                proof {
                    assert(false);
                }
                return Err(Error::Unknown);
            },
        };
        proof {
            assert(crate::state::entry_wf(self.assets@[ai as int]));
        }
        let details_pre = self.assets[ai].details;
        match maybe_need_admin {
            Some(need_admin) => {
                if need_admin != details_pre.admin {
                    return Err(Error::NoPermission);
                }
            },
            None => {},
        }
        if source == dest {
            match melt {
                Some(m) => {
                    hook.melted(id, source, m);
                },
                None => {},
            }
            return Ok(credit);
        }
        let source_pre = crate::decision::read_account(&self.assets[ai].accounts, source);
        let dest_pre = crate::decision::read_account(&self.assets[ai].accounts, dest);
        let creating = dest_pre.balance == 0;
        proof {
            let s = self.assets@[ai as int].accounts@;
            if self.account_of(id, source) is Some {
                let k = crate::state::acct_idx(s, source);
                lemma_acct_at(s, k);
                crate::lemmas::lemma_bal_sum_member(s, k);
            }
            if self.account_of(id, dest) is Some {
                let k = crate::state::acct_idx(s, dest);
                lemma_acct_at(s, k);
            }
            lemma_debit_prep_ok(
                details_pre,
                source_pre,
                old(hook).frozen_spec(id, source),
                amount,
                keep_alive,
                respect,
                best_effort,
            );
        }
        if creating && details_pre.accounts == u32::MAX {
            return Err(Error::Overflow);
        }
        self.transfer_apply(counter, hook, id, source, dest, debit, credit, burn);
        match melt {
            Some(m) => {
                hook.melted(id, source, m);
            },
            None => {},
        }
        Ok(credit)
    }

    /// Apply the staged transfer mutation; all admissibility facts hold by
    /// this point.
    #[verifier::rlimit(100)]
    fn transfer_apply<F: FrozenBalance>(
        &mut self,
        counter: &mut RefCounter,
        hook: &mut F,
        id: AssetId,
        source: AccountId,
        dest: AccountId,
        debit: Balance,
        credit: Balance,
        burn: Balance,
    )
        requires
            old(self).wf(),
            old(counter).uniq(),
            old(self).has_asset(id),
            source != dest,
            ({
                let d = old(self).details_of(id);
                let sa = account_or_default(old(self).account_of(id, source));
                let da = account_or_default(old(self).account_of(id, dest));
                &&& debit <= sa.balance
                &&& sa.balance <= d.supply
                &&& credit + burn == debit
                &&& (sa.balance - debit == 0 || sa.balance - debit >= d.min_balance)
                &&& da.balance + credit <= Balance::MAX
                &&& (da.balance == 0 ==> credit >= d.min_balance)
                &&& (da.balance == 0 ==> d.accounts < u32::MAX)
                &&& (da.balance == 0 && d.is_sufficient ==> d.sufficients < u32::MAX)
                &&& (da.balance == 0 && !d.is_sufficient ==> old(counter).providers_of(dest) > 0)
            }),
        ensures
            final(self).wf(),
            final(counter).uniq(),
            transfer_applied(
                *old(self),
                *final(self),
                *old(counter),
                *final(counter),
                id,
                source,
                dest,
                debit,
                credit,
                burn,
            ),
    {
        let found = self.find_asset(id);
        let ai = match found {
            Some(ai) => ai,
            None => {
                proof {
                    assert(false);
                }
                return ;
            },
        };
        proof {
            assert(crate::state::entry_wf(self.assets@[ai as int]));
        }
        let source_pre = crate::decision::read_account(&self.assets[ai].accounts, source);
        let dest_pre = crate::decision::read_account(&self.assets[ai].accounts, dest);
        let creating = dest_pre.balance == 0;
        proof {
            let s = self.assets@[ai as int].accounts@;
            if self.account_of(id, source) is Some {
                let k = crate::state::acct_idx(s, source);
                lemma_acct_at(s, k);
            }
            if self.account_of(id, dest) is Some {
                let k = crate::state::acct_idx(s, dest);
                lemma_acct_at(s, k);
            }
        }
        let new_src_bal = source_pre.balance - debit;
        let ghost pre = *self;
        let ghost cpre = *counter;
        let mut entry = self.assets.remove(ai);
        let mut details = entry.details;
        details.supply = details.supply - burn;
        let mut sufficient_flag = false;
        if creating {
            match new_account(dest, &mut details, counter) {
                Ok(sf) => {
                    sufficient_flag = sf;
                },
                Err(e) => {
                    proof {
                        assert(false);
                    }
                    return ;
                },
            }
        }
        let ghost accounts0 = entry.accounts@;
        let found_dest = find_account(&entry.accounts, dest);
        match found_dest {
            Some(k) => {
                proof {
                    lemma_acct_at(accounts0, k as int);
                    assert(!creating);
                }
                let a = entry.accounts[k].data;
                let updated = AccountEntry {
                    holder: dest,
                    data: AssetBalance { balance: a.balance + credit, ..a },
                };
                proof {
                    lemma_acct_update(accounts0, k as int, updated);
                    lemma_bal_sum_update(accounts0, k as int, updated);
                    lemma_suff_count_update(accounts0, k as int, updated);
                }
                entry.accounts.set(k, updated);
            },
            None => {
                proof {
                    assert(creating);
                }
                let fresh = AccountEntry {
                    holder: dest,
                    data: AssetBalance {
                        balance: credit,
                        is_frozen: false,
                        sufficient: sufficient_flag,
                        extra: 0,
                    },
                };
                proof {
                    lemma_acct_push(accounts0, fresh);
                    lemma_bal_sum_push(accounts0, fresh);
                    lemma_suff_count_push(accounts0, fresh);
                }
                entry.accounts.push(fresh);
            },
        }
        let ghost accounts1 = entry.accounts@;
        let found_src = find_account(&entry.accounts, source);
        match found_src {
            Some(k2) => {
                proof {
                    lemma_acct_at(accounts1, k2 as int);
                }
                if new_src_bal < details.min_balance {
                    proof {
                        if accounts1[k2 as int].data.sufficient {
                            crate::lemmas::lemma_suff_count_member(accounts1, k2 as int);
                        }
                        crate::lemmas::lemma_acct_remove(accounts1, k2 as int);
                        crate::lemmas::lemma_bal_sum_remove(accounts1, k2 as int);
                        crate::lemmas::lemma_suff_count_remove(accounts1, k2 as int);
                    }
                    let removed = entry.accounts.remove(k2);
                    dead_account(id, source, &mut details, removed.data.sufficient, counter, hook);
                } else {
                    let a2 = entry.accounts[k2].data;
                    let updated2 = AccountEntry {
                        holder: source,
                        data: AssetBalance { balance: new_src_bal, ..a2 },
                    };
                    proof {
                        lemma_acct_update(accounts1, k2 as int, updated2);
                        lemma_bal_sum_update(accounts1, k2 as int, updated2);
                        lemma_suff_count_update(accounts1, k2 as int, updated2);
                    }
                    entry.accounts.set(k2, updated2);
                }
            },
            None => {
                proof {
                    assert(debit == 0);
                }
            },
        }
        entry.details = details;
        self.assets.insert(ai, entry);
        proof {
            assert(self.assets@ =~= pre.assets@.update(ai as int, self.assets@[ai as int]));
            lemma_asset_update(pre, *self, ai as int);
            assert(crate::state::entry_wf(self.assets@[ai as int]));
            assert forall|i: int| 0 <= i < self.assets@.len() implies crate::state::entry_wf(
                #[trigger] self.assets@[i],
            ) by {
                if i != ai as int {
                    assert(self.assets@[i] == pre.assets@[i]);
                }
            }
        }
    }
}



impl Pallet {
    /// Move `amount` of `id` from the caller `origin` to `target`. The source
    /// may be emptied by dust sweeping; freezes are respected.
    pub fn transfer<F: FrozenBalance>(
        &mut self,
        counter: &mut RefCounter,
        hook: &mut F,
        origin: AccountId,
        id: AssetId,
        target: AccountId,
        amount: Balance,
    ) -> (r: Result<Balance, Error>)
        requires
            old(self).wf(),
            old(counter).uniq(),
        ensures
            final(self).wf(),
            final(counter).uniq(),
            transfer_spec(
                *old(self),
                *final(self),
                *old(counter),
                *final(counter),
                old(hook).frozen_spec(id, origin),
                id,
                origin,
                target,
                amount,
                None,
                false,
                crate::types::RespectFrozen::Respect,
                false,
                false,
                r,
            ),
            (amount == 0 || r is Err) ==> *final(hook) == *old(hook),
    {
        self.do_transfer(
            counter,
            hook,
            id,
            origin,
            target,
            amount,
            None,
            false,
            crate::types::RespectFrozen::Respect,
            false,
            false,
        )
    }

    /// Move `amount` of `id` from the caller `origin` to `target`, requiring
    /// that the caller\'s account survive the transfer.
    pub fn transfer_keep_alive<F: FrozenBalance>(
        &mut self,
        counter: &mut RefCounter,
        hook: &mut F,
        origin: AccountId,
        id: AssetId,
        target: AccountId,
        amount: Balance,
    ) -> (r: Result<Balance, Error>)
        requires
            old(self).wf(),
            old(counter).uniq(),
        ensures
            final(self).wf(),
            final(counter).uniq(),
            transfer_spec(
                *old(self),
                *final(self),
                *old(counter),
                *final(counter),
                old(hook).frozen_spec(id, origin),
                id,
                origin,
                target,
                amount,
                None,
                true,
                crate::types::RespectFrozen::Respect,
                false,
                false,
                r,
            ),
            (amount == 0 || r is Err) ==> *final(hook) == *old(hook),
    {
        self.do_transfer(
            counter,
            hook,
            id,
            origin,
            target,
            amount,
            None,
            true,
            crate::types::RespectFrozen::Respect,
            false,
            false,
        )
    }

    /// Move `amount` of `id` between arbitrary accounts on behalf of `origin`,
    /// who must be the asset\'s admin; external freezes are not respected.
    pub fn force_transfer<F: FrozenBalance>(
        &mut self,
        counter: &mut RefCounter,
        hook: &mut F,
        origin: AccountId,
        id: AssetId,
        source: AccountId,
        dest: AccountId,
        amount: Balance,
    ) -> (r: Result<Balance, Error>)
        requires
            old(self).wf(),
            old(counter).uniq(),
        ensures
            final(self).wf(),
            final(counter).uniq(),
            transfer_spec(
                *old(self),
                *final(self),
                *old(counter),
                *final(counter),
                old(hook).frozen_spec(id, source),
                id,
                source,
                dest,
                amount,
                Some(origin),
                false,
                crate::types::RespectFrozen::Ignore,
                false,
                false,
                r,
            ),
            (amount == 0 || r is Err) ==> *final(hook) == *old(hook),
    {
        self.do_transfer(
            counter,
            hook,
            id,
            source,
            dest,
            amount,
            Some(origin),
            false,
            crate::types::RespectFrozen::Ignore,
            false,
            false,
        )
    }
}


} // verus!
