//! The approval subsystem: delegated spending allowances keyed by (asset,
//! owner, delegate), consumed by approved transfers. No allowance record ever
//! holds amount zero; the record's deposit pays for its storage and is
//! released when the record goes away.

use vstd::prelude::*;
use crate::engine::credited_account;
use crate::engine::debited_account;
use crate::engine::refs_after_dec;
use crate::engine::refs_after_inc;
use crate::freeze::FrozenBalance;
use crate::lemmas::lemma_appr_at;
use crate::lemmas::lemma_appr_push;
use crate::lemmas::lemma_appr_remove;
use crate::lemmas::lemma_appr_update;
use crate::lemmas::lemma_asset_update;
use crate::refs::RefCounter;
use crate::state::account_or_default;
use crate::state::find_approval;
use crate::state::ApprovalRecord;
use crate::state::Pallet;
use crate::types::AccountId;
use crate::types::Approval;
use crate::types::ApprovalKey;
use crate::types::AssetBalance;
use crate::types::AssetDetails;
use crate::types::AssetId;
use crate::types::Balance;
use crate::types::Error;
use crate::types::RespectFrozen;

verus! {

/// The allowance after a further approval of `amount`: topped up, clamped at
/// the maximum, with the deposit raised to the currently required one.
pub open spec fn topped_up(a: Approval, amount: Balance, required: Balance) -> Approval {
    Approval {
        amount: crate::decision::sat_add(a.amount, amount),
        deposit: if a.deposit < required {
            required
        } else {
            a.deposit
        },
    }
}

/// The functional outcome of a transfer: the error of the first check that
/// refuses it, or the credited amount.
pub open spec fn transfer_outcome(
    pre: Pallet,
    frozen: Option<Balance>,
    providers_dest: u64,
    id: AssetId,
    source: AccountId,
    dest: AccountId,
    amount: Balance,
    maybe_need_admin: Option<AccountId>,
    keep_alive: bool,
    respect: RespectFrozen,
    best_effort: bool,
    burn_dust: bool,
) -> Result<Balance, Error> {
    let p = pre.prep_debit_s(frozen, id, source, amount, keep_alive, respect, best_effort);
    if amount == 0 {
        Ok(0)
    } else if p is Err {
        Err(p->Err_0)
    } else {
        let q = pre.prep_credit_s(providers_dest, id, dest, amount, p->Ok_0.0, burn_dust);
        if q is Err {
            Err(q->Err_0)
        } else {
            let d = pre.details_of(id);
            let credit = q->Ok_0.0;
            if maybe_need_admin is Some && maybe_need_admin->0 != d.admin {
                Err(Error::NoPermission)
            } else if source == dest {
                Ok(credit)
            } else if pre.balance_of(id, dest) == 0 && d.accounts == u32::MAX {
                Err(Error::Overflow)
            } else {
                Ok(credit)
            }
        }
    }
}

/// What an approved transfer promises. The delegate's allowance from `owner`
/// must cover the amount (else `Unapproved`, also when no allowance exists);
/// the transfer itself then runs from `owner` to `destination` under the
/// standard rules, and only if it goes through is the allowance reduced: to a
/// smaller active allowance, or away entirely when exactly consumed, in which
/// case its deposit is reported released.
pub open spec fn transfer_approved_spec(
    pre: Pallet,
    post: Pallet,
    cpre: RefCounter,
    cpost: RefCounter,
    frozen: Option<Balance>,
    id: AssetId,
    owner: AccountId,
    delegate: AccountId,
    destination: AccountId,
    amount: Balance,
    r: Result<Option<Balance>, Error>,
) -> bool {
    let key = ApprovalKey { owner, delegate };
    let cur = pre.approval_of(id, key);
    if cur is None || amount > cur->0.amount {
        r == Err::<Option<Balance>, Error>(Error::Unapproved) && post == pre && cpost == cpre
    } else if amount == 0 {
        r == Ok::<Option<Balance>, Error>(None) && post == pre && cpost == cpre
    } else {
        let a = cur->0;
        let remaining = (a.amount - amount) as Balance;
        let t = transfer_outcome(
            pre,
            frozen,
            cpre.providers_of(destination),
            id,
            owner,
            destination,
            amount,
            None,
            false,
            RespectFrozen::Respect,
            false,
            false,
        );
        match t {
            Err(e) => r == Err::<Option<Balance>, Error>(e) && post == pre && cpost == cpre,
            Ok(credit) => {
                let d = pre.details_of(id);
                let src_acct = pre.account_of(id, owner);
                let sa = account_or_default(src_acct);
                let p = pre.prep_debit_s(
                    frozen,
                    id,
                    owner,
                    amount,
                    false,
                    RespectFrozen::Respect,
                    false,
                );
                let debit = p->Ok_0.0;
                let new_src_bal = (sa.balance - debit) as Balance;
                let removing = owner != destination && src_acct is Some && new_src_bal
                    < d.min_balance;
                let creating = owner != destination && pre.balance_of(id, destination) == 0;
                &&& r == Ok::<Option<Balance>, Error>(
                    if remaining == 0 {
                        Some(a.deposit)
                    } else {
                        None
                    },
                )
                &&& post.has_asset(id)
                &&& post.details_of(id) == (AssetDetails {
                    supply: d.supply,
                    accounts: ((d.accounts + (if creating {
                        1int
                    } else {
                        0int
                    }) - (if removing {
                        1int
                    } else {
                        0int
                    })) as u32),
                    sufficients: ((d.sufficients + (if creating && d.is_sufficient {
                        1int
                    } else {
                        0int
                    }) - (if removing && sa.sufficient {
                        1int
                    } else {
                        0int
                    })) as u32),
                    approvals: (if remaining == 0 {
                        (d.approvals - 1) as u32
                    } else {
                        d.approvals
                    }),
                    ..d
                })
                &&& (owner != destination ==> post.account_of(id, destination) == Some(
                    credited_account(pre.account_of(id, destination), credit, d.is_sufficient),
                ))
                &&& (owner != destination ==> post.account_of(id, owner) == (if removing
                    || src_acct is None {
                    None::<AssetBalance>
                } else {
                    Some(debited_account(sa, debit))
                }))
                &&& forall|w: AccountId|
                    w != owner && w != destination ==> post.account_of(id, w) == pre.account_of(
                        id,
                        w,
                    )
                &&& post.approval_of(id, key) == (if remaining == 0 {
                    None::<Approval>
                } else {
                    Some(Approval { amount: remaining, deposit: a.deposit })
                })
                &&& forall|k: ApprovalKey| k != key ==> post.approval_of(id, k) == pre.approval_of(
                    id,
                    k,
                )
                &&& post.metadata_of(id) == pre.metadata_of(id)
                &&& forall|id2: AssetId| id2 != id ==> post.asset_same(pre, id2)
                &&& post.config == pre.config
                &&& cpost.entry_of(destination) == (if creating {
                    refs_after_inc(cpre, destination, d.is_sufficient)
                } else {
                    cpre.entry_of(destination)
                })
                &&& cpost.entry_of(owner) == (if removing {
                    refs_after_dec(cpre, owner, sa.sufficient)
                } else {
                    cpre.entry_of(owner)
                })
                &&& forall|w: AccountId|
                    w != owner && w != destination ==> cpost.entry_of(w) == cpre.entry_of(w)
            },
        }
    }
}

impl Pallet {
    /// Write, replace or delete the allowance under `key` of the asset at
    /// `ai`, adjusting the asset's approval count.
    fn write_approval(&mut self, ai: usize, key: ApprovalKey, val: Option<Approval>)
        requires
            old(self).wf(),
            ai < old(self).assets@.len(),
            val is Some ==> val->0.amount > 0,
            (val is Some && old(self).approval_of(old(self).assets@[ai as int].id, key) is None)
                ==> old(self).assets@[ai as int].details.approvals < u32::MAX,
            val is None ==> old(self).approval_of(old(self).assets@[ai as int].id, key) is Some,
        ensures
            final(self).wf(),
            final(self).config == old(self).config,
            ({
                let id = old(self).assets@[ai as int].id;
                let existed = old(self).approval_of(id, key) is Some;
                &&& final(self).has_asset(id)
                &&& final(self).details_of(id) == (AssetDetails {
                    approvals: ((old(self).assets@[ai as int].details.approvals + (if val is Some
                        && !existed {
                        1int
                    } else {
                        0int
                    }) - (if val is None && existed {
                        1int
                    } else {
                        0int
                    })) as u32),
                    ..old(self).assets@[ai as int].details
                })
                &&& final(self).approval_of(id, key) == val
                &&& forall|k: ApprovalKey| k != key ==> final(self).approval_of(id, k) == old(
                    self,
                ).approval_of(id, k)
                &&& forall|w: AccountId| final(self).account_of(id, w) == old(self).account_of(
                    id,
                    w,
                )
                &&& final(self).metadata_of(id) == old(self).metadata_of(id)
                &&& forall|id2: AssetId| id2 != id ==> final(self).asset_same(*old(self), id2)
            }),
    {
        proof {
            assert(crate::state::entry_wf(self.assets@[ai as int]));
        }
        let ghost pre = *self;
        let mut entry = self.assets.remove(ai);
        let mut details = entry.details;
        let ghost approvals_pre = entry.approvals@;
        let found = find_approval(&entry.approvals, key);
        match found {
            Some(k) => {
                proof {
                    lemma_appr_at(approvals_pre, k as int);
                }
                match val {
                    Some(v) => {
                        let updated = ApprovalRecord { key, approval: v };
                        proof {
                            lemma_appr_update(approvals_pre, k as int, updated);
                        }
                        entry.approvals.set(k, updated);
                    },
                    None => {
                        proof {
                            lemma_appr_remove(approvals_pre, k as int);
                        }
                        entry.approvals.remove(k);
                        details.approvals = details.approvals - 1;
                    },
                }
            },
            None => {
                match val {
                    Some(v) => {
                        let fresh = ApprovalRecord { key, approval: v };
                        proof {
                            lemma_appr_push(approvals_pre, fresh);
                        }
                        entry.approvals.push(fresh);
                        details.approvals = details.approvals + 1;
                    },
                    None => {
                        proof {
                            assert(false);
                        }
                    },
                }
            },
        }
        entry.details = details;
        self.assets.insert(ai, entry);
        proof {
            assert(self.assets@ =~= pre.assets@.update(ai as int, self.assets@[ai as int]));
            lemma_asset_update(pre, *self, ai as int);
            assert(crate::state::entry_wf(self.assets@[ai as int]));
            assert forall|i: int| 0 <= i < self.assets@.len() implies crate::state::entry_wf(
                #[trigger] self.assets@[i],
            ) by {
                if i != ai as int {
                    assert(self.assets@[i] == pre.assets@[i]);
                }
            }
        }
    }

    /// Approve `delegate` to transfer up to `amount` of `owner`'s `id`,
    /// additively with any allowance already in place. The first approval of a
    /// pair reserves the configured approval deposit from the owner; the
    /// returned value is the additional deposit the caller must reserve. An
    /// approval of zero with no allowance in place stores nothing.
    pub fn approve_transfer(
        &mut self,
        owner: AccountId,
        id: AssetId,
        delegate: AccountId,
        amount: Balance,
    ) -> (r: Result<Balance, Error>)
        requires
            old(self).wf(),
        ensures
            final(self).wf(),
            final(self).config == old(self).config,
            ({
                let key = ApprovalKey { owner, delegate };
                let required = old(self).config.approval_deposit;
                let cur = old(self).approval_of(id, key);
                if !old(self).has_asset(id) {
                    r == Err::<Balance, Error>(Error::Unknown) && *final(self) == *old(self)
                } else if cur is None && amount == 0 {
                    r == Ok::<Balance, Error>(0) && *final(self) == *old(self)
                } else if cur is None && old(self).details_of(id).approvals == u32::MAX {
                    r == Err::<Balance, Error>(Error::Overflow) && *final(self) == *old(self)
                } else {
                    &&& r == Ok::<Balance, Error>(
                        match cur {
                            Some(a) => if a.deposit < required {
                                (required - a.deposit) as Balance
                            } else {
                                0
                            },
                            None => required,
                        },
                    )
                    &&& final(self).has_asset(id)
                    &&& final(self).details_of(id) == (AssetDetails {
                        approvals: (match cur {
                            Some(a) => old(self).details_of(id).approvals,
                            None => (old(self).details_of(id).approvals + 1) as u32,
                        }),
                        ..old(self).details_of(id)
                    })
                    &&& final(self).approval_of(id, key) == Some(
                        match cur {
                            Some(a) => topped_up(a, amount, required),
                            None => Approval { amount, deposit: required },
                        },
                    )
                    &&& forall|k: ApprovalKey| k != key ==> final(self).approval_of(id, k) == old(
                        self,
                    ).approval_of(id, k)
                    &&& forall|w: AccountId| final(self).account_of(id, w) == old(self).account_of(
                        id,
                        w,
                    )
                    &&& final(self).metadata_of(id) == old(self).metadata_of(id)
                    &&& forall|id2: AssetId|
                        id2 != id ==> final(self).asset_same(*old(self), id2)
                }
            }),
    {
        let key = ApprovalKey { owner, delegate };
        let found = self.find_asset(id);
        let ai = match found {
            Some(ai) => ai,
            None => {
                return Err(Error::Unknown);
            },
        };
        let required = self.config.approval_deposit;
        proof {
            assert(crate::state::entry_wf(self.assets@[ai as int]));
        }
        let existing = find_approval(&self.assets[ai].approvals, key);
        match existing {
            Some(k) => {
                proof {
                    lemma_appr_at(self.assets@[ai as int].approvals@, k as int);
                }
                let a = self.assets[ai].approvals[k].approval;
                let extra = if a.deposit < required {
                    required - a.deposit
                } else {
                    0
                };
                let new_deposit = if a.deposit < required {
                    required
                } else {
                    a.deposit
                };
                let new_amount = if a.amount > Balance::MAX - amount {
                    Balance::MAX
                } else {
                    a.amount + amount
                };
                self.write_approval(
                    ai,
                    key,
                    Some(Approval { amount: new_amount, deposit: new_deposit }),
                );
                Ok(extra)
            },
            None => {
                if amount == 0 {
                    return Ok(0);
                }
                if self.assets[ai].details.approvals == u32::MAX {
                    return Err(Error::Overflow);
                }
                self.write_approval(ai, key, Some(Approval { amount, deposit: required }));
                Ok(required)
            },
        }
    }

    /// Cancel the allowance the caller `owner` gave `delegate` for `id`,
    /// releasing its deposit; fails `Unknown` when none is in place.
    pub fn cancel_approval(&mut self, owner: AccountId, id: AssetId, delegate: AccountId) -> (r:
        Result<Balance, Error>)
        requires
            old(self).wf(),
        ensures
            final(self).wf(),
            final(self).config == old(self).config,
            ({
                let key = ApprovalKey { owner, delegate };
                let cur = old(self).approval_of(id, key);
                if cur is None {
                    r == Err::<Balance, Error>(Error::Unknown) && *final(self) == *old(self)
                } else {
                    &&& r == Ok::<Balance, Error>(cur->0.deposit)
                    &&& final(self).has_asset(id)
                    &&& final(self).details_of(id) == (AssetDetails {
                        approvals: (old(self).details_of(id).approvals - 1) as u32,
                        ..old(self).details_of(id)
                    })
                    &&& final(self).approval_of(id, key) is None
                    &&& forall|k: ApprovalKey| k != key ==> final(self).approval_of(id, k) == old(
                        self,
                    ).approval_of(id, k)
                    &&& forall|w: AccountId| final(self).account_of(id, w) == old(self).account_of(
                        id,
                        w,
                    )
                    &&& final(self).metadata_of(id) == old(self).metadata_of(id)
                    &&& forall|id2: AssetId|
                        id2 != id ==> final(self).asset_same(*old(self), id2)
                }
            }),
    {
        self.take_approval(ApprovalKey { owner, delegate }, id)
    }

    /// Cancel the allowance `owner` gave `delegate` for `id` from a privileged
    /// or admin origin; when `maybe_check_admin` is given it must be the
    /// asset's admin.
    pub fn force_cancel_approval(
        &mut self,
        maybe_check_admin: Option<AccountId>,
        id: AssetId,
        owner: AccountId,
        delegate: AccountId,
    ) -> (r: Result<Balance, Error>)
        requires
            old(self).wf(),
        ensures
            final(self).wf(),
            final(self).config == old(self).config,
            ({
                let key = ApprovalKey { owner, delegate };
                let cur = old(self).approval_of(id, key);
                if maybe_check_admin is Some && !old(self).has_asset(id) {
                    r == Err::<Balance, Error>(Error::Unknown) && *final(self) == *old(self)
                } else if maybe_check_admin is Some && maybe_check_admin->0 != old(
                    self,
                ).details_of(id).admin {
                    r == Err::<Balance, Error>(Error::NoPermission) && *final(self) == *old(self)
                } else if cur is None {
                    r == Err::<Balance, Error>(Error::Unknown) && *final(self) == *old(self)
                } else {
                    &&& r == Ok::<Balance, Error>(cur->0.deposit)
                    &&& final(self).has_asset(id)
                    &&& final(self).details_of(id) == (AssetDetails {
                        approvals: (old(self).details_of(id).approvals - 1) as u32,
                        ..old(self).details_of(id)
                    })
                    &&& final(self).approval_of(id, key) is None
                    &&& forall|k: ApprovalKey| k != key ==> final(self).approval_of(id, k) == old(
                        self,
                    ).approval_of(id, k)
                    &&& forall|w: AccountId| final(self).account_of(id, w) == old(self).account_of(
                        id,
                        w,
                    )
                    &&& final(self).metadata_of(id) == old(self).metadata_of(id)
                    &&& forall|id2: AssetId|
                        id2 != id ==> final(self).asset_same(*old(self), id2)
                }
            }),
    {
        match maybe_check_admin {
            Some(check_admin) => {
                let found = self.find_asset(id);
                let ai = match found {
                    Some(ai) => ai,
                    None => {
                        return Err(Error::Unknown);
                    },
                };
                if check_admin != self.assets[ai].details.admin {
                    return Err(Error::NoPermission);
                }
            },
            None => {},
        }
        self.take_approval(ApprovalKey { owner, delegate }, id)
    }

    /// Remove the allowance under `key`, returning its deposit; `Unknown` when
    /// none is in place.
    fn take_approval(&mut self, key: ApprovalKey, id: AssetId) -> (r: Result<Balance, Error>)
        requires
            old(self).wf(),
        ensures
            final(self).wf(),
            final(self).config == old(self).config,
            ({
                let cur = old(self).approval_of(id, key);
                if cur is None {
                    r == Err::<Balance, Error>(Error::Unknown) && *final(self) == *old(self)
                } else {
                    &&& r == Ok::<Balance, Error>(cur->0.deposit)
                    &&& final(self).has_asset(id)
                    &&& final(self).details_of(id) == (AssetDetails {
                        approvals: (old(self).details_of(id).approvals - 1) as u32,
                        ..old(self).details_of(id)
                    })
                    &&& final(self).approval_of(id, key) is None
                    &&& forall|k: ApprovalKey| k != key ==> final(self).approval_of(id, k) == old(
                        self,
                    ).approval_of(id, k)
                    &&& forall|w: AccountId| final(self).account_of(id, w) == old(self).account_of(
                        id,
                        w,
                    )
                    &&& final(self).metadata_of(id) == old(self).metadata_of(id)
                    &&& forall|id2: AssetId|
                        id2 != id ==> final(self).asset_same(*old(self), id2)
                }
            }),
    {
        let found = self.find_asset(id);
        let ai = match found {
            Some(ai) => ai,
            None => {
                return Err(Error::Unknown);
            },
        };
        proof {
            assert(crate::state::entry_wf(self.assets@[ai as int]));
        }
        let existing = find_approval(&self.assets[ai].approvals, key);
        let k = match existing {
            Some(k) => k,
            None => {
                return Err(Error::Unknown);
            },
        };
        proof {
            lemma_appr_at(self.assets@[ai as int].approvals@, k as int);
        }
        let deposit = self.assets[ai].approvals[k].approval.deposit;
        self.write_approval(ai, key, None);
        Ok(deposit)
    }

    /// Transfer `amount` of `owner`'s `id` to `destination`, drawing on the
    /// allowance `owner` gave the caller `delegate`; the allowance shrinks by
    /// the amount, and its deposit is released (and reported) when it is
    /// exactly consumed. A failing transfer leaves the allowance untouched.
    #[verifier::rlimit(100)]
    pub fn transfer_approved<F: FrozenBalance>(
        &mut self,
        counter: &mut RefCounter,
        hook: &mut F,
        delegate: AccountId,
        id: AssetId,
        owner: AccountId,
        destination: AccountId,
        amount: Balance,
    ) -> (r: Result<Option<Balance>, Error>)
        requires
            old(self).wf(),
            old(counter).uniq(),
        ensures
            final(self).wf(),
            final(counter).uniq(),
            transfer_approved_spec(
                *old(self),
                *final(self),
                *old(counter),
                *final(counter),
                old(hook).frozen_spec(id, owner),
                id,
                owner,
                delegate,
                destination,
                amount,
                r,
            ),
            r is Err ==> *final(hook) == *old(hook),
    {
        let key = ApprovalKey { owner, delegate };
        let found = self.find_asset(id);
        let ai = match found {
            Some(ai) => ai,
            None => {
                return Err(Error::Unapproved);
            },
        };
        proof {
            assert(crate::state::entry_wf(self.assets@[ai as int]));
        }
        let existing = find_approval(&self.assets[ai].approvals, key);
        let k = match existing {
            Some(k) => k,
            None => {
                return Err(Error::Unapproved);
            },
        };
        proof {
            lemma_appr_at(self.assets@[ai as int].approvals@, k as int);
        }
        let a = self.assets[ai].approvals[k].approval;
        if amount > a.amount {
            return Err(Error::Unapproved);
        }
        if amount == 0 {
            return Ok(None);
        }
        let remaining = a.amount - amount;
        let ghost pre = *self;
        let ghost cpre = *counter;
        let r2 = self.do_transfer(
            counter,
            hook,
            id,
            owner,
            destination,
            amount,
            None,
            false,
            RespectFrozen::Respect,
            false,
            false,
        );
        let credit = match r2 {
            Ok(credit) => credit,
            Err(e) => {
                proof {
                    let fr = old(hook).frozen_spec(id, owner);
                    assert(transfer_outcome(
                        pre,
                        fr,
                        cpre.providers_of(destination),
                        id,
                        owner,
                        destination,
                        amount,
                        None,
                        false,
                        RespectFrozen::Respect,
                        false,
                        false,
                    ) == Err::<Balance, Error>(e));
                }
                return Err(e);
            },
        };
        let ghost mid = *self;
        let found2 = self.find_asset(id);
        let ai2 = match found2 {
            Some(ai2) => ai2,
            None => {
                proof {
                    assert(false);
                }
                return Err(Error::Unknown);
            },
        };
        proof {
            assert(mid.approval_of(id, key) == pre.approval_of(id, key));
            assert(crate::state::entry_wf(self.assets@[ai2 as int]));
        }
        proof {
            let fr = old(hook).frozen_spec(id, owner);
            assert(transfer_outcome(
                pre,
                fr,
                cpre.providers_of(destination),
                id,
                owner,
                destination,
                amount,
                None,
                false,
                RespectFrozen::Respect,
                false,
                false,
            ) == Ok::<Balance, Error>(credit));
            let q = pre.prep_credit_s(
                cpre.providers_of(destination),
                id,
                destination,
                amount,
                pre.prep_debit_s(
                    fr,
                    id,
                    owner,
                    amount,
                    false,
                    RespectFrozen::Respect,
                    false,
                )->Ok_0.0,
                false,
            );
            assert(q->Ok_0.1 is None);
        }
        let out: Option<Balance>;
        if remaining == 0 {
            self.write_approval(ai2, key, None);
            out = Some(a.deposit);
        } else {
            self.write_approval(
                ai2,
                key,
                Some(Approval { amount: remaining, deposit: a.deposit }),
            );
            out = None;
        }
        proof {
            assert forall|id2: AssetId| id2 != id implies self.asset_same(pre, id2) by {
                assert(self.asset_same(mid, id2));
                assert(mid.asset_same(pre, id2));
                if pre.has_asset(id2) {
                    assert(mid.has_asset(id2));
                    assert forall|w: AccountId| self.account_of(id2, w) == pre.account_of(
                        id2,
                        w,
                    ) by {
                        assert(self.account_of(id2, w) == mid.account_of(id2, w));
                        assert(mid.account_of(id2, w) == pre.account_of(id2, w));
                    }
                    assert forall|k2: ApprovalKey| self.approval_of(id2, k2) == pre.approval_of(
                        id2,
                        k2,
                    ) by {
                        assert(self.approval_of(id2, k2) == mid.approval_of(id2, k2));
                        assert(mid.approval_of(id2, k2) == pre.approval_of(id2, k2));
                    }
                }
            }
        }
        Ok(out)
    }
}

} // verus!
