//! Administrative operations on asset classes: creation, per-account and
//! asset-wide freezing, team and ownership changes, forced attribute changes,
//! and the side-car payload.

use vstd::prelude::*;
use crate::lemmas::lemma_acct_at;
use crate::lemmas::lemma_acct_update;
use crate::lemmas::lemma_asset_push;
use crate::lemmas::lemma_asset_update;
use crate::lemmas::lemma_bal_sum_update;
use crate::lemmas::lemma_suff_count_update;
use crate::state::account_or_default;
use crate::state::find_account;
use crate::state::AccountEntry;
use crate::state::AssetEntry;
use crate::state::Pallet;
use crate::types::AccountId;
use crate::types::AssetBalance;
use crate::types::AssetDetails;
use crate::types::AssetId;
use crate::types::Balance;
use crate::types::Error;

verus! {

/// The record a newly created asset starts from.
pub open spec fn fresh_details(
    owner: AccountId,
    issuer: AccountId,
    admin: AccountId,
    freezer: AccountId,
    deposit: Balance,
    min_balance: Balance,
    is_sufficient: bool,
) -> AssetDetails {
    AssetDetails {
        owner,
        issuer,
        admin,
        freezer,
        supply: 0,
        deposit,
        min_balance,
        is_sufficient,
        accounts: 0,
        sufficients: 0,
        approvals: 0,
        is_frozen: false,
    }
}

impl Pallet {
    /// Replace the asset record at `ai`, leaving the fields the invariant ties
    /// to the live records untouched.
    fn update_details(&mut self, ai: usize, d: AssetDetails)
        requires
            old(self).wf(),
            ai < old(self).assets@.len(),
            d.supply == old(self).assets@[ai as int].details.supply,
            d.min_balance == old(self).assets@[ai as int].details.min_balance,
            d.accounts == old(self).assets@[ai as int].details.accounts,
            d.sufficients == old(self).assets@[ai as int].details.sufficients,
            d.approvals == old(self).assets@[ai as int].details.approvals,
        ensures
            final(self).wf(),
            final(self).config == old(self).config,
            final(self).has_asset(old(self).assets@[ai as int].id),
            final(self).details_of(old(self).assets@[ai as int].id) == d,
            forall|w: AccountId| final(self).account_of(old(self).assets@[ai as int].id, w) == old(
                self,
            ).account_of(old(self).assets@[ai as int].id, w),
            forall|k: crate::types::ApprovalKey| final(self).approval_of(
                old(self).assets@[ai as int].id,
                k,
            ) == old(self).approval_of(old(self).assets@[ai as int].id, k),
            final(self).metadata_of(old(self).assets@[ai as int].id) == old(self).metadata_of(
                old(self).assets@[ai as int].id,
            ),
            forall|id2: AssetId| id2 != old(self).assets@[ai as int].id ==> final(self).asset_same(
                *old(self),
                id2,
            ),
    {
        let ghost pre = *self;
        let mut entry = self.assets.remove(ai);
        entry.details = d;
        self.assets.insert(ai, entry);
        proof {
            assert(self.assets@ =~= pre.assets@.update(ai as int, self.assets@[ai as int]));
            lemma_asset_update(pre, *self, ai as int);
            assert(crate::state::entry_wf(pre.assets@[ai as int]));
            assert(crate::state::entry_wf(self.assets@[ai as int]));
            assert forall|i: int| 0 <= i < self.assets@.len() implies crate::state::entry_wf(
                #[trigger] self.assets@[i],
            ) by {
                if i != ai as int {
                    assert(self.assets@[i] == pre.assets@[i]);
                }
            }
        }
    }

    /// Set the frozen flag of an existing account record.
    fn set_account_frozen(&mut self, ai: usize, who: AccountId, frozen: bool)
        requires
            old(self).wf(),
            ai < old(self).assets@.len(),
            old(self).account_of(old(self).assets@[ai as int].id, who) is Some,
        ensures
            final(self).wf(),
            final(self).config == old(self).config,
            final(self).has_asset(old(self).assets@[ai as int].id),
            final(self).details_of(old(self).assets@[ai as int].id) == old(self).details_of(
                old(self).assets@[ai as int].id,
            ),
            final(self).account_of(old(self).assets@[ai as int].id, who) == Some(
                AssetBalance {
                    is_frozen: frozen,
                    ..account_or_default(old(self).account_of(old(self).assets@[ai as int].id, who))
                },
            ),
            forall|w: AccountId| w != who ==> final(self).account_of(
                old(self).assets@[ai as int].id,
                w,
            ) == old(self).account_of(old(self).assets@[ai as int].id, w),
            forall|k: crate::types::ApprovalKey| final(self).approval_of(
                old(self).assets@[ai as int].id,
                k,
            ) == old(self).approval_of(old(self).assets@[ai as int].id, k),
            final(self).metadata_of(old(self).assets@[ai as int].id) == old(self).metadata_of(
                old(self).assets@[ai as int].id,
            ),
            forall|id2: AssetId| id2 != old(self).assets@[ai as int].id ==> final(self).asset_same(
                *old(self),
                id2,
            ),
    {
        let ghost pre = *self;
        let ghost id = pre.assets@[ai as int].id;
        proof {
            assert(crate::state::entry_wf(self.assets@[ai as int]));
        }
        let mut entry = self.assets.remove(ai);
        let ghost accounts_pre = entry.accounts@;
        let found = find_account(&entry.accounts, who);
        match found {
            Some(k) => {
                proof {
                    lemma_acct_at(accounts_pre, k as int);
                }
                let a = entry.accounts[k].data;
                let updated = AccountEntry {
                    holder: who,
                    data: AssetBalance { is_frozen: frozen, ..a },
                };
                proof {
                    lemma_acct_update(accounts_pre, k as int, updated);
                    lemma_bal_sum_update(accounts_pre, k as int, updated);
                    lemma_suff_count_update(accounts_pre, k as int, updated);
                }
                entry.accounts.set(k, updated);
            },
            None => {
                proof {
                    assert(false);
                }
            },
        }
        self.assets.insert(ai, entry);
        proof {
            assert(self.assets@ =~= pre.assets@.update(ai as int, self.assets@[ai as int]));
            lemma_asset_update(pre, *self, ai as int);
            assert(crate::state::entry_wf(self.assets@[ai as int]));
            assert forall|i: int| 0 <= i < self.assets@.len() implies crate::state::entry_wf(
                #[trigger] self.assets@[i],
            ) by {
                if i != ai as int {
                    assert(self.assets@[i] == pre.assets@[i]);
                }
            }
        }
    }

    /// Create a new asset class `id` owned by `owner` and administered in every
    /// role by `admin`, reserving the configured asset deposit from the owner.
    /// Fails `InUse` when the identifier is taken and `MinBalanceZero` when the
    /// minimum balance is zero.
    pub fn create(
        &mut self,
        origin: AccountId,
        id: AssetId,
        admin: AccountId,
        min_balance: Balance,
    ) -> (r: Result<(), Error>)
        requires
            old(self).wf(),
        ensures
            final(self).wf(),
            final(self).config == old(self).config,
            ({
                let d = fresh_details(
                    origin,
                    admin,
                    admin,
                    admin,
                    old(self).config.asset_deposit,
                    min_balance,
                    false,
                );
                if old(self).has_asset(id) {
                    r == Err::<(), Error>(Error::InUse) && *final(self) == *old(self)
                } else if min_balance == 0 {
                    r == Err::<(), Error>(Error::MinBalanceZero) && *final(self) == *old(self)
                } else {
                    &&& r == Ok::<(), Error>(())
                    &&& final(self).has_asset(id)
                    &&& final(self).details_of(id) == d
                    &&& forall|w: AccountId| final(self).account_of(id, w) is None
                    &&& forall|k: crate::types::ApprovalKey| final(self).approval_of(id, k) is None
                    &&& final(self).metadata_of(id) is None
                    &&& forall|id2: AssetId|
                        id2 != id ==> final(self).asset_same(*old(self), id2)
                }
            }),
    {
        let deposit = self.config.asset_deposit;
        self.insert_asset(id, origin, admin, admin, admin, deposit, min_balance, false)
    }

    /// Create a new asset class `id` from a privileged origin: owned and
    /// administered in every role by `owner`, with no deposit taken, and with
    /// its sufficiency chosen freely.
    pub fn force_create(
        &mut self,
        id: AssetId,
        owner: AccountId,
        is_sufficient: bool,
        min_balance: Balance,
    ) -> (r: Result<(), Error>)
        requires
            old(self).wf(),
        ensures
            final(self).wf(),
            final(self).config == old(self).config,
            ({
                let d = fresh_details(owner, owner, owner, owner, 0, min_balance, is_sufficient);
                if old(self).has_asset(id) {
                    r == Err::<(), Error>(Error::InUse) && *final(self) == *old(self)
                } else if min_balance == 0 {
                    r == Err::<(), Error>(Error::MinBalanceZero) && *final(self) == *old(self)
                } else {
                    &&& r == Ok::<(), Error>(())
                    &&& final(self).has_asset(id)
                    &&& final(self).details_of(id) == d
                    &&& forall|w: AccountId| final(self).account_of(id, w) is None
                    &&& forall|k: crate::types::ApprovalKey| final(self).approval_of(id, k) is None
                    &&& final(self).metadata_of(id) is None
                    &&& forall|id2: AssetId|
                        id2 != id ==> final(self).asset_same(*old(self), id2)
                }
            }),
    {
        self.insert_asset(id, owner, owner, owner, owner, 0, min_balance, is_sufficient)
    }

    /// Insert a fresh, empty asset entry.
    fn insert_asset(
        &mut self,
        id: AssetId,
        owner: AccountId,
        issuer: AccountId,
        admin: AccountId,
        freezer: AccountId,
        deposit: Balance,
        min_balance: Balance,
        is_sufficient: bool,
    ) -> (r: Result<(), Error>)
        requires
            old(self).wf(),
        ensures
            final(self).wf(),
            final(self).config == old(self).config,
            ({
                let d = fresh_details(
                    owner,
                    issuer,
                    admin,
                    freezer,
                    deposit,
                    min_balance,
                    is_sufficient,
                );
                if old(self).has_asset(id) {
                    r == Err::<(), Error>(Error::InUse) && *final(self) == *old(self)
                } else if min_balance == 0 {
                    r == Err::<(), Error>(Error::MinBalanceZero) && *final(self) == *old(self)
                } else {
                    &&& r == Ok::<(), Error>(())
                    &&& final(self).has_asset(id)
                    &&& final(self).details_of(id) == d
                    &&& forall|w: AccountId| final(self).account_of(id, w) is None
                    &&& forall|k: crate::types::ApprovalKey| final(self).approval_of(id, k) is None
                    &&& final(self).metadata_of(id) is None
                    &&& forall|id2: AssetId|
                        id2 != id ==> final(self).asset_same(*old(self), id2)
                }
            }),
    {
        let found = self.find_asset(id);
        if found.is_some() {
            return Err(Error::InUse);
        }
        if min_balance == 0 {
            return Err(Error::MinBalanceZero);
        }
        let ghost pre = *self;
        let entry = AssetEntry {
            id,
            details: AssetDetails {
                owner,
                issuer,
                admin,
                freezer,
                supply: 0,
                deposit,
                min_balance,
                is_sufficient,
                accounts: 0,
                sufficients: 0,
                approvals: 0,
                is_frozen: false,
            },
            accounts: Vec::new(),
            approvals: Vec::new(),
            metadata: None,
        };
        self.assets.push(entry);
        proof {
            let n = pre.assets@.len() as int;
            assert(self.assets@ == pre.assets@.push(self.assets@[n]));
            lemma_asset_push(pre, *self);
            assert(crate::state::entry_wf(self.assets@[n]));
            assert forall|i: int| 0 <= i < self.assets@.len() implies crate::state::entry_wf(
                #[trigger] self.assets@[i],
            ) by {
                if i != n {
                    assert(self.assets@[i] == pre.assets@[i]);
                }
            }
        }
        Ok(())
    }

    /// Disallow further unprivileged transfers of `id` from `who`; `origin`
    /// must be the asset's freezer, and `who` must hold a record (else
    /// `BalanceZero`).
    pub fn freeze(&mut self, origin: AccountId, id: AssetId, who: AccountId) -> (r: Result<
        (),
        Error,
    >)
        requires
            old(self).wf(),
        ensures
            final(self).wf(),
            final(self).config == old(self).config,
            (if !old(self).has_asset(id) {
                r == Err::<(), Error>(Error::Unknown) && *final(self) == *old(self)
            } else if origin != old(self).details_of(id).freezer {
                r == Err::<(), Error>(Error::NoPermission) && *final(self) == *old(self)
            } else if old(self).account_of(id, who) is None {
                r == Err::<(), Error>(Error::BalanceZero) && *final(self) == *old(self)
            } else {
                &&& r == Ok::<(), Error>(())
                &&& final(self).has_asset(id)
                &&& final(self).details_of(id) == old(self).details_of(id)
                &&& final(self).account_of(id, who) == Some(
                    AssetBalance {
                        is_frozen: true,
                        ..account_or_default(old(self).account_of(id, who))
                    },
                )
                &&& forall|w: AccountId| w != who ==> final(self).account_of(id, w) == old(
                    self,
                ).account_of(id, w)
                &&& forall|k: crate::types::ApprovalKey| final(self).approval_of(id, k) == old(
                    self,
                ).approval_of(id, k)
                &&& final(self).metadata_of(id) == old(self).metadata_of(id)
                &&& forall|id2: AssetId| id2 != id ==> final(self).asset_same(*old(self), id2)
            }),
    {
        self.set_frozen_flag(origin, id, who, true, false)
    }

    /// Allow unprivileged transfers of `id` from `who` again; `origin` must be
    /// the asset's admin.
    pub fn thaw(&mut self, origin: AccountId, id: AssetId, who: AccountId) -> (r: Result<
        (),
        Error,
    >)
        requires
            old(self).wf(),
        ensures
            final(self).wf(),
            final(self).config == old(self).config,
            (if !old(self).has_asset(id) {
                r == Err::<(), Error>(Error::Unknown) && *final(self) == *old(self)
            } else if origin != old(self).details_of(id).admin {
                r == Err::<(), Error>(Error::NoPermission) && *final(self) == *old(self)
            } else if old(self).account_of(id, who) is None {
                r == Err::<(), Error>(Error::BalanceZero) && *final(self) == *old(self)
            } else {
                &&& r == Ok::<(), Error>(())
                &&& final(self).has_asset(id)
                &&& final(self).details_of(id) == old(self).details_of(id)
                &&& final(self).account_of(id, who) == Some(
                    AssetBalance {
                        is_frozen: false,
                        ..account_or_default(old(self).account_of(id, who))
                    },
                )
                &&& forall|w: AccountId| w != who ==> final(self).account_of(id, w) == old(
                    self,
                ).account_of(id, w)
                &&& forall|k: crate::types::ApprovalKey| final(self).approval_of(id, k) == old(
                    self,
                ).approval_of(id, k)
                &&& final(self).metadata_of(id) == old(self).metadata_of(id)
                &&& forall|id2: AssetId| id2 != id ==> final(self).asset_same(*old(self), id2)
            }),
    {
        self.set_frozen_flag(origin, id, who, false, true)
    }

    /// Shared body of `freeze` and `thaw`: `use_admin` picks which role may
    /// call, `frozen` the flag value written.
    fn set_frozen_flag(
        &mut self,
        origin: AccountId,
        id: AssetId,
        who: AccountId,
        frozen: bool,
        use_admin: bool,
    ) -> (r: Result<(), Error>)
        requires
            old(self).wf(),
        ensures
            final(self).wf(),
            final(self).config == old(self).config,
            (if !old(self).has_asset(id) {
                r == Err::<(), Error>(Error::Unknown) && *final(self) == *old(self)
            } else if origin != (if use_admin {
                old(self).details_of(id).admin
            } else {
                old(self).details_of(id).freezer
            }) {
                r == Err::<(), Error>(Error::NoPermission) && *final(self) == *old(self)
            } else if old(self).account_of(id, who) is None {
                r == Err::<(), Error>(Error::BalanceZero) && *final(self) == *old(self)
            } else {
                &&& r == Ok::<(), Error>(())
                &&& final(self).has_asset(id)
                &&& final(self).details_of(id) == old(self).details_of(id)
                &&& final(self).account_of(id, who) == Some(
                    AssetBalance {
                        is_frozen: frozen,
                        ..account_or_default(old(self).account_of(id, who))
                    },
                )
                &&& forall|w: AccountId| w != who ==> final(self).account_of(id, w) == old(
                    self,
                ).account_of(id, w)
                &&& forall|k: crate::types::ApprovalKey| final(self).approval_of(id, k) == old(
                    self,
                ).approval_of(id, k)
                &&& final(self).metadata_of(id) == old(self).metadata_of(id)
                &&& forall|id2: AssetId| id2 != id ==> final(self).asset_same(*old(self), id2)
            }),
    {
        let found = self.find_asset(id);
        let ai = match found {
            Some(ai) => ai,
            None => {
                return Err(Error::Unknown);
            },
        };
        let details = self.assets[ai].details;
        let gate = if use_admin {
            details.admin
        } else {
            details.freezer
        };
        if origin != gate {
            return Err(Error::NoPermission);
        }
        let acct = find_account(&self.assets[ai].accounts, who);
        if acct.is_none() {
            return Err(Error::BalanceZero);
        }
        proof {
            assert(crate::state::entry_wf(self.assets@[ai as int]));
            let s = self.assets@[ai as int].accounts@;
            let k = crate::state::acct_idx(s, who);
            if crate::state::acct_has(s, who) {
                lemma_acct_at(s, k);
            }
        }
        self.set_account_frozen(ai, who, frozen);
        Ok(())
    }

    /// Disallow further unprivileged transfers for the whole class `id`;
    /// `origin` must be the asset's freezer.
    pub fn freeze_asset(&mut self, origin: AccountId, id: AssetId) -> (r: Result<(), Error>)
        requires
            old(self).wf(),
        ensures
            final(self).wf(),
            final(self).config == old(self).config,
            (if !old(self).has_asset(id) {
                r == Err::<(), Error>(Error::Unknown) && *final(self) == *old(self)
            } else if origin != old(self).details_of(id).freezer {
                r == Err::<(), Error>(Error::NoPermission) && *final(self) == *old(self)
            } else {
                &&& r == Ok::<(), Error>(())
                &&& final(self).has_asset(id)
                &&& final(self).details_of(id) == (AssetDetails {
                    is_frozen: true,
                    ..old(self).details_of(id)
                })
                &&& forall|w: AccountId| final(self).account_of(id, w) == old(self).account_of(
                    id,
                    w,
                )
                &&& forall|k: crate::types::ApprovalKey| final(self).approval_of(id, k) == old(
                    self,
                ).approval_of(id, k)
                &&& final(self).metadata_of(id) == old(self).metadata_of(id)
                &&& forall|id2: AssetId| id2 != id ==> final(self).asset_same(*old(self), id2)
            }),
    {
        let found = self.find_asset(id);
        let ai = match found {
            Some(ai) => ai,
            None => {
                return Err(Error::Unknown);
            },
        };
        let details = self.assets[ai].details;
        if origin != details.freezer {
            return Err(Error::NoPermission);
        }
        self.update_details(ai, AssetDetails { is_frozen: true, ..details });
        Ok(())
    }

    /// Allow unprivileged transfers for the whole class `id` again; `origin`
    /// must be the asset's admin.
    pub fn thaw_asset(&mut self, origin: AccountId, id: AssetId) -> (r: Result<(), Error>)
        requires
            old(self).wf(),
        ensures
            final(self).wf(),
            final(self).config == old(self).config,
            (if !old(self).has_asset(id) {
                r == Err::<(), Error>(Error::Unknown) && *final(self) == *old(self)
            } else if origin != old(self).details_of(id).admin {
                r == Err::<(), Error>(Error::NoPermission) && *final(self) == *old(self)
            } else {
                &&& r == Ok::<(), Error>(())
                &&& final(self).has_asset(id)
                &&& final(self).details_of(id) == (AssetDetails {
                    is_frozen: false,
                    ..old(self).details_of(id)
                })
                &&& forall|w: AccountId| final(self).account_of(id, w) == old(self).account_of(
                    id,
                    w,
                )
                &&& forall|k: crate::types::ApprovalKey| final(self).approval_of(id, k) == old(
                    self,
                ).approval_of(id, k)
                &&& final(self).metadata_of(id) == old(self).metadata_of(id)
                &&& forall|id2: AssetId| id2 != id ==> final(self).asset_same(*old(self), id2)
            }),
    {
        let found = self.find_asset(id);
        let ai = match found {
            Some(ai) => ai,
            None => {
                return Err(Error::Unknown);
            },
        };
        let details = self.assets[ai].details;
        if origin != details.admin {
            return Err(Error::NoPermission);
        }
        self.update_details(ai, AssetDetails { is_frozen: false, ..details });
        Ok(())
    }

    /// Change the owner of `id` to `owner`; `origin` must be the current
    /// owner. Returns the deposit to move to the new owner's reservation:
    /// the asset's plus its metadata's, zero when nothing changes.
    pub fn transfer_ownership(&mut self, origin: AccountId, id: AssetId, owner: AccountId) -> (r:
        Result<Balance, Error>)
        requires
            old(self).wf(),
        ensures
            final(self).wf(),
            final(self).config == old(self).config,
            (if !old(self).has_asset(id) {
                r == Err::<Balance, Error>(Error::Unknown) && *final(self) == *old(self)
            } else if origin != old(self).details_of(id).owner {
                r == Err::<Balance, Error>(Error::NoPermission) && *final(self) == *old(self)
            } else if owner == old(self).details_of(id).owner {
                r == Ok::<Balance, Error>(0) && *final(self) == *old(self)
            } else {
                &&& r == Ok::<Balance, Error>(
                    crate::decision::sat_add(
                        old(self).details_of(id).deposit,
                        match old(self).metadata_of(id) {
                            Some(m) => m.deposit,
                            None => 0,
                        },
                    ),
                )
                &&& final(self).has_asset(id)
                &&& final(self).details_of(id) == (AssetDetails {
                    owner,
                    ..old(self).details_of(id)
                })
                &&& forall|w: AccountId| final(self).account_of(id, w) == old(self).account_of(
                    id,
                    w,
                )
                &&& forall|k: crate::types::ApprovalKey| final(self).approval_of(id, k) == old(
                    self,
                ).approval_of(id, k)
                &&& final(self).metadata_of(id) == old(self).metadata_of(id)
                &&& forall|id2: AssetId| id2 != id ==> final(self).asset_same(*old(self), id2)
            }),
    {
        let found = self.find_asset(id);
        let ai = match found {
            Some(ai) => ai,
            None => {
                return Err(Error::Unknown);
            },
        };
        let details = self.assets[ai].details;
        if origin != details.owner {
            return Err(Error::NoPermission);
        }
        if owner == details.owner {
            return Ok(0);
        }
        let metadata_deposit = match self.assets[ai].metadata.as_ref() {
            Some(m) => m.deposit,
            None => 0,
        };
        let deposit = if details.deposit > Balance::MAX - metadata_deposit {
            Balance::MAX
        } else {
            details.deposit + metadata_deposit
        };
        self.update_details(ai, AssetDetails { owner, ..details });
        Ok(deposit)
    }

    /// Change the issuer, admin and freezer of `id`; `origin` must be the
    /// owner.
    pub fn set_team(
        &mut self,
        origin: AccountId,
        id: AssetId,
        issuer: AccountId,
        admin: AccountId,
        freezer: AccountId,
    ) -> (r: Result<(), Error>)
        requires
            old(self).wf(),
        ensures
            final(self).wf(),
            final(self).config == old(self).config,
            (if !old(self).has_asset(id) {
                r == Err::<(), Error>(Error::Unknown) && *final(self) == *old(self)
            } else if origin != old(self).details_of(id).owner {
                r == Err::<(), Error>(Error::NoPermission) && *final(self) == *old(self)
            } else {
                &&& r == Ok::<(), Error>(())
                &&& final(self).has_asset(id)
                &&& final(self).details_of(id) == (AssetDetails {
                    issuer,
                    admin,
                    freezer,
                    ..old(self).details_of(id)
                })
                &&& forall|w: AccountId| final(self).account_of(id, w) == old(self).account_of(
                    id,
                    w,
                )
                &&& forall|k: crate::types::ApprovalKey| final(self).approval_of(id, k) == old(
                    self,
                ).approval_of(id, k)
                &&& final(self).metadata_of(id) == old(self).metadata_of(id)
                &&& forall|id2: AssetId| id2 != id ==> final(self).asset_same(*old(self), id2)
            }),
    {
        let found = self.find_asset(id);
        let ai = match found {
            Some(ai) => ai,
            None => {
                return Err(Error::Unknown);
            },
        };
        let details = self.assets[ai].details;
        if origin != details.owner {
            return Err(Error::NoPermission);
        }
        self.update_details(ai, AssetDetails { issuer, admin, freezer, ..details });
        Ok(())
    }

    /// Write the side-car payload of `who`'s record under `id`; fails
    /// `NoProvider` when no record exists to carry it.
    pub fn set_extra(&mut self, id: AssetId, who: AccountId, extra: u64) -> (r: Result<(), Error>)
        requires
            old(self).wf(),
        ensures
            final(self).wf(),
            final(self).config == old(self).config,
            (if old(self).account_of(id, who) is None {
                r == Err::<(), Error>(Error::NoProvider) && *final(self) == *old(self)
            } else {
                &&& r == Ok::<(), Error>(())
                &&& final(self).has_asset(id)
                &&& final(self).details_of(id) == old(self).details_of(id)
                &&& final(self).account_of(id, who) == Some(
                    AssetBalance {
                        extra,
                        ..account_or_default(old(self).account_of(id, who))
                    },
                )
                &&& forall|w: AccountId| w != who ==> final(self).account_of(id, w) == old(
                    self,
                ).account_of(id, w)
                &&& forall|k: crate::types::ApprovalKey| final(self).approval_of(id, k) == old(
                    self,
                ).approval_of(id, k)
                &&& final(self).metadata_of(id) == old(self).metadata_of(id)
                &&& forall|id2: AssetId| id2 != id ==> final(self).asset_same(*old(self), id2)
            }),
    {
        let found = self.find_asset(id);
        let ai = match found {
            Some(ai) => ai,
            None => {
                return Err(Error::NoProvider);
            },
        };
        proof {
            assert(crate::state::entry_wf(self.assets@[ai as int]));
        }
        let probe = find_account(&self.assets[ai].accounts, who);
        if probe.is_none() {
            return Err(Error::NoProvider);
        }
        let ghost pre = *self;
        let mut entry = self.assets.remove(ai);
        let ghost accounts_pre = entry.accounts@;
        let found_acct = find_account(&entry.accounts, who);
        match found_acct {
            Some(k) => {
                proof {
                    lemma_acct_at(accounts_pre, k as int);
                }
                let a = entry.accounts[k].data;
                let updated = AccountEntry { holder: who, data: AssetBalance { extra, ..a } };
                proof {
                    lemma_acct_update(accounts_pre, k as int, updated);
                    lemma_bal_sum_update(accounts_pre, k as int, updated);
                    lemma_suff_count_update(accounts_pre, k as int, updated);
                }
                entry.accounts.set(k, updated);
            },
            None => {
                proof {
                    assert(false);
                }
            },
        }
        self.assets.insert(ai, entry);
        proof {
            assert(self.assets@ =~= pre.assets@.update(ai as int, self.assets@[ai as int]));
            lemma_asset_update(pre, *self, ai as int);
            assert(crate::state::entry_wf(self.assets@[ai as int]));
            assert forall|i: int| 0 <= i < self.assets@.len() implies crate::state::entry_wf(
                #[trigger] self.assets@[i],
            ) by {
                if i != ai as int {
                    assert(self.assets@[i] == pre.assets@[i]);
                }
            }
        }
        Ok(())
    }
}


/// The deposit owed for metadata of `n` bytes under `config`: the per-byte
/// charge times the length, plus the base charge, clamped at the maximum.
pub open spec fn metadata_deposit(config: crate::state::Config, n: nat) -> Balance {
    crate::decision::sat_add(
        (if config.metadata_deposit_per_byte * n > Balance::MAX {
            Balance::MAX
        } else {
            (config.metadata_deposit_per_byte * n) as Balance
        }),
        config.metadata_deposit_base,
    )
}

impl Pallet {
    /// Replace the metadata of the asset at `ai`.
    fn write_metadata(&mut self, ai: usize, m: Option<crate::types::AssetMetadata>)
        requires
            old(self).wf(),
            ai < old(self).assets@.len(),
        ensures
            final(self).wf(),
            final(self).config == old(self).config,
            final(self).has_asset(old(self).assets@[ai as int].id),
            final(self).details_of(old(self).assets@[ai as int].id) == old(self).details_of(
                old(self).assets@[ai as int].id,
            ),
            final(self).metadata_of(old(self).assets@[ai as int].id) == m,
            forall|w: AccountId| final(self).account_of(old(self).assets@[ai as int].id, w) == old(
                self,
            ).account_of(old(self).assets@[ai as int].id, w),
            forall|k: crate::types::ApprovalKey| final(self).approval_of(
                old(self).assets@[ai as int].id,
                k,
            ) == old(self).approval_of(old(self).assets@[ai as int].id, k),
            forall|id2: AssetId| id2 != old(self).assets@[ai as int].id ==> final(self).asset_same(
                *old(self),
                id2,
            ),
    {
        let ghost pre = *self;
        let mut entry = self.assets.remove(ai);
        entry.metadata = m;
        self.assets.insert(ai, entry);
        proof {
            assert(self.assets@ =~= pre.assets@.update(ai as int, self.assets@[ai as int]));
            lemma_asset_update(pre, *self, ai as int);
            assert(crate::state::entry_wf(pre.assets@[ai as int]));
            assert(crate::state::entry_wf(self.assets@[ai as int]));
            assert forall|i: int| 0 <= i < self.assets@.len() implies crate::state::entry_wf(
                #[trigger] self.assets@[i],
            ) by {
                if i != ai as int {
                    assert(self.assets@[i] == pre.assets@[i]);
                }
            }
        }
    }

    /// Set the metadata of `id`: its name, symbol and decimal places. `origin`
    /// must be the owner, the strings within the configured limit, and any
    /// existing metadata not frozen. Returns the deposit previously held and
    /// the deposit now owed; the caller settles the difference with the
    /// currency reserve.
    pub fn set_metadata(
        &mut self,
        origin: AccountId,
        id: AssetId,
        name: Vec<u8>,
        symbol: Vec<u8>,
        decimals: u8,
    ) -> (r: Result<(Balance, Balance), Error>)
        requires
            old(self).wf(),
        ensures
            final(self).wf(),
            final(self).config == old(self).config,
            ({
                let limit = old(self).config.string_limit;
                let old_deposit = match old(self).metadata_of(id) {
                    Some(m) => m.deposit,
                    None => 0,
                };
                let new_deposit = metadata_deposit(
                    old(self).config,
                    name@.len() + symbol@.len(),
                );
                if name@.len() > limit || symbol@.len() > limit {
                    r == Err::<(Balance, Balance), Error>(Error::BadMetadata) && *final(self)
                        == *old(self)
                } else if !old(self).has_asset(id) {
                    r == Err::<(Balance, Balance), Error>(Error::Unknown) && *final(self) == *old(
                        self,
                    )
                } else if origin != old(self).details_of(id).owner {
                    r == Err::<(Balance, Balance), Error>(Error::NoPermission) && *final(self)
                        == *old(self)
                } else if old(self).metadata_of(id) is Some
                    && old(self).metadata_of(id)->0.is_frozen {
                    r == Err::<(Balance, Balance), Error>(Error::NoPermission) && *final(self)
                        == *old(self)
                } else {
                    &&& r == Ok::<(Balance, Balance), Error>((old_deposit, new_deposit))
                    &&& final(self).has_asset(id)
                    &&& final(self).details_of(id) == old(self).details_of(id)
                    &&& final(self).metadata_of(id) == Some(
                        crate::types::AssetMetadata {
                            deposit: new_deposit,
                            name,
                            symbol,
                            decimals,
                            is_frozen: false,
                        },
                    )
                    &&& forall|w: AccountId| final(self).account_of(id, w) == old(self).account_of(
                        id,
                        w,
                    )
                    &&& forall|k: crate::types::ApprovalKey| final(self).approval_of(id, k) == old(
                        self,
                    ).approval_of(id, k)
                    &&& forall|id2: AssetId|
                        id2 != id ==> final(self).asset_same(*old(self), id2)
                }
            }),
    {
        let limit = self.config.string_limit as usize;
        if name.len() > limit || symbol.len() > limit {
            return Err(Error::BadMetadata);
        }
        let found = self.find_asset(id);
        let ai = match found {
            Some(ai) => ai,
            None => {
                return Err(Error::Unknown);
            },
        };
        let details = self.assets[ai].details;
        if origin != details.owner {
            return Err(Error::NoPermission);
        }
        let old_deposit: Balance;
        match self.assets[ai].metadata.as_ref() {
            Some(m) => {
                if m.is_frozen {
                    return Err(Error::NoPermission);
                }
                old_deposit = m.deposit;
            },
            None => {
                old_deposit = 0;
            },
        }
        let n: u64 = name.len() as u64 + symbol.len() as u64;
        let new_deposit = self.metadata_charge(n);
        self.write_metadata(
            ai,
            Some(
                crate::types::AssetMetadata {
                    deposit: new_deposit,
                    name,
                    symbol,
                    decimals,
                    is_frozen: false,
                },
            ),
        );
        Ok((old_deposit, new_deposit))
    }

    /// The deposit owed for metadata of `n` bytes.
    fn metadata_charge(&self, n: u64) -> (r: Balance)
        ensures
            r == metadata_deposit(self.config, n as nat),
    {
        let per_byte = self.config.metadata_deposit_per_byte;
        let scaled = match per_byte.checked_mul(n) {
            Some(x) => x,
            None => Balance::MAX,
        };
        if scaled > Balance::MAX - self.config.metadata_deposit_base {
            Balance::MAX
        } else {
            scaled + self.config.metadata_deposit_base
        }
    }

    /// Clear the metadata of `id`; `origin` must be the owner, and metadata
    /// must exist. Returns the deposit released.
    pub fn clear_metadata(&mut self, origin: AccountId, id: AssetId) -> (r: Result<Balance, Error>)
        requires
            old(self).wf(),
        ensures
            final(self).wf(),
            final(self).config == old(self).config,
            (if !old(self).has_asset(id) {
                r == Err::<Balance, Error>(Error::Unknown) && *final(self) == *old(self)
            } else if origin != old(self).details_of(id).owner {
                r == Err::<Balance, Error>(Error::NoPermission) && *final(self) == *old(self)
            } else if old(self).metadata_of(id) is None {
                r == Err::<Balance, Error>(Error::Unknown) && *final(self) == *old(self)
            } else {
                &&& r == Ok::<Balance, Error>(old(self).metadata_of(id)->0.deposit)
                &&& final(self).has_asset(id)
                &&& final(self).details_of(id) == old(self).details_of(id)
                &&& final(self).metadata_of(id) is None
                &&& forall|w: AccountId| final(self).account_of(id, w) == old(self).account_of(
                    id,
                    w,
                )
                &&& forall|k: crate::types::ApprovalKey| final(self).approval_of(id, k) == old(
                    self,
                ).approval_of(id, k)
                &&& forall|id2: AssetId| id2 != id ==> final(self).asset_same(*old(self), id2)
            }),
    {
        let found = self.find_asset(id);
        let ai = match found {
            Some(ai) => ai,
            None => {
                return Err(Error::Unknown);
            },
        };
        let details = self.assets[ai].details;
        if origin != details.owner {
            return Err(Error::NoPermission);
        }
        let deposit = match self.assets[ai].metadata.as_ref() {
            Some(m) => m.deposit,
            None => {
                return Err(Error::Unknown);
            },
        };
        self.write_metadata(ai, None);
        Ok(deposit)
    }

    /// Force the metadata of `id` to the given value, leaving any deposit as it
    /// was; for a privileged origin.
    pub fn force_set_metadata(
        &mut self,
        id: AssetId,
        name: Vec<u8>,
        symbol: Vec<u8>,
        decimals: u8,
        is_frozen: bool,
    ) -> (r: Result<(), Error>)
        requires
            old(self).wf(),
        ensures
            final(self).wf(),
            final(self).config == old(self).config,
            ({
                let limit = old(self).config.string_limit;
                let kept_deposit = match old(self).metadata_of(id) {
                    Some(m) => m.deposit,
                    None => 0,
                };
                if name@.len() > limit || symbol@.len() > limit {
                    r == Err::<(), Error>(Error::BadMetadata) && *final(self) == *old(self)
                } else if !old(self).has_asset(id) {
                    r == Err::<(), Error>(Error::Unknown) && *final(self) == *old(self)
                } else {
                    &&& r == Ok::<(), Error>(())
                    &&& final(self).has_asset(id)
                    &&& final(self).details_of(id) == old(self).details_of(id)
                    &&& final(self).metadata_of(id) == Some(
                        crate::types::AssetMetadata {
                            deposit: kept_deposit,
                            name,
                            symbol,
                            decimals,
                            is_frozen,
                        },
                    )
                    &&& forall|w: AccountId| final(self).account_of(id, w) == old(self).account_of(
                        id,
                        w,
                    )
                    &&& forall|k: crate::types::ApprovalKey| final(self).approval_of(id, k) == old(
                        self,
                    ).approval_of(id, k)
                    &&& forall|id2: AssetId|
                        id2 != id ==> final(self).asset_same(*old(self), id2)
                }
            }),
    {
        let limit = self.config.string_limit as usize;
        if name.len() > limit || symbol.len() > limit {
            return Err(Error::BadMetadata);
        }
        let found = self.find_asset(id);
        let ai = match found {
            Some(ai) => ai,
            None => {
                return Err(Error::Unknown);
            },
        };
        let deposit = match self.assets[ai].metadata.as_ref() {
            Some(m) => m.deposit,
            None => 0,
        };
        self.write_metadata(
            ai,
            Some(crate::types::AssetMetadata { deposit, name, symbol, decimals, is_frozen }),
        );
        Ok(())
    }

    /// Clear the metadata of `id` from a privileged origin; metadata must
    /// exist. Returns the deposit released to the owner.
    pub fn force_clear_metadata(&mut self, id: AssetId) -> (r: Result<Balance, Error>)
        requires
            old(self).wf(),
        ensures
            final(self).wf(),
            final(self).config == old(self).config,
            (if !old(self).has_asset(id) {
                r == Err::<Balance, Error>(Error::Unknown) && *final(self) == *old(self)
            } else if old(self).metadata_of(id) is None {
                r == Err::<Balance, Error>(Error::Unknown) && *final(self) == *old(self)
            } else {
                &&& r == Ok::<Balance, Error>(old(self).metadata_of(id)->0.deposit)
                &&& final(self).has_asset(id)
                &&& final(self).details_of(id) == old(self).details_of(id)
                &&& final(self).metadata_of(id) is None
                &&& forall|w: AccountId| final(self).account_of(id, w) == old(self).account_of(
                    id,
                    w,
                )
                &&& forall|k: crate::types::ApprovalKey| final(self).approval_of(id, k) == old(
                    self,
                ).approval_of(id, k)
                &&& forall|id2: AssetId| id2 != id ==> final(self).asset_same(*old(self), id2)
            }),
    {
        let found = self.find_asset(id);
        let ai = match found {
            Some(ai) => ai,
            None => {
                return Err(Error::Unknown);
            },
        };
        let deposit = match self.assets[ai].metadata.as_ref() {
            Some(m) => m.deposit,
            None => {
                return Err(Error::Unknown);
            },
        };
        self.write_metadata(ai, None);
        Ok(deposit)
    }

    /// Alter the attributes of `id` from a privileged origin. The lifecycle
    /// counters, the supply, and the metadata are left untouched. A zero
    /// minimum balance is refused, and so is one that some live record falls
    /// below: a persisted balance strictly between zero and the minimum must
    /// never arise.
    pub fn force_asset_status(
        &mut self,
        id: AssetId,
        owner: AccountId,
        issuer: AccountId,
        admin: AccountId,
        freezer: AccountId,
        min_balance: Balance,
        is_sufficient: bool,
        is_frozen: bool,
    ) -> (r: Result<(), Error>)
        requires
            old(self).wf(),
        ensures
            final(self).wf(),
            final(self).config == old(self).config,
            (if !old(self).has_asset(id) {
                r == Err::<(), Error>(Error::Unknown) && *final(self) == *old(self)
            } else if min_balance == 0 {
                r == Err::<(), Error>(Error::MinBalanceZero) && *final(self) == *old(self)
            } else if exists|w: AccountId|
                old(self).account_of(id, w) is Some && old(self).account_of(id, w)->0.balance
                    < min_balance {
                r == Err::<(), Error>(Error::BelowMinimum) && *final(self) == *old(self)
            } else {
                &&& r == Ok::<(), Error>(())
                &&& final(self).has_asset(id)
                &&& final(self).details_of(id) == (AssetDetails {
                    owner,
                    issuer,
                    admin,
                    freezer,
                    min_balance,
                    is_sufficient,
                    is_frozen,
                    ..old(self).details_of(id)
                })
                &&& forall|w: AccountId| final(self).account_of(id, w) == old(self).account_of(
                    id,
                    w,
                )
                &&& forall|k: crate::types::ApprovalKey| final(self).approval_of(id, k) == old(
                    self,
                ).approval_of(id, k)
                &&& final(self).metadata_of(id) == old(self).metadata_of(id)
                &&& forall|id2: AssetId| id2 != id ==> final(self).asset_same(*old(self), id2)
            }),
    {
        let found = self.find_asset(id);
        let ai = match found {
            Some(ai) => ai,
            None => {
                return Err(Error::Unknown);
            },
        };
        if min_balance == 0 {
            return Err(Error::MinBalanceZero);
        }
        proof {
            assert(crate::state::entry_wf(self.assets@[ai as int]));
        }
        // Refuse a minimum that a live record would fall below.
        let accounts_len = self.assets[ai].accounts.len();
        let mut i: usize = 0;
        while i < accounts_len
            invariant
                self.wf(),
                ai < self.assets@.len(),
                self.assets@[ai as int].id == id,
                self.has_asset(id),
                self.asset_i(id) == ai as int,
                accounts_len == self.assets@[ai as int].accounts@.len(),
                i <= accounts_len,
                forall|j: int|
                    0 <= j < i ==> self.assets@[ai as int].accounts@[j].data.balance
                        >= min_balance,
            decreases accounts_len - i,
        {
            if self.assets[ai].accounts[i].data.balance < min_balance {
                proof {
                    assert(crate::state::entry_wf(self.assets@[ai as int]));
                    let s = self.assets@[ai as int].accounts@;
                    lemma_acct_at(s, i as int);
                    assert(self.account_of(id, s[i as int].holder) is Some);
                }
                return Err(Error::BelowMinimum);
            }
            i = i + 1;
        }
        proof {
            assert forall|w: AccountId|
                self.account_of(id, w) is Some implies self.account_of(id, w)->0.balance
                >= min_balance by {
                let s = self.assets@[ai as int].accounts@;
                if crate::state::acct_has(s, w) {
                    let k = crate::state::acct_idx(s, w);
                    lemma_acct_at(s, k);
                }
            }
        }
        let details = self.assets[ai].details;
        let ghost pre = *self;
        let mut entry = self.assets.remove(ai);
        entry.details = AssetDetails {
            owner,
            issuer,
            admin,
            freezer,
            min_balance,
            is_sufficient,
            is_frozen,
            ..details
        };
        self.assets.insert(ai, entry);
        proof {
            assert(self.assets@ =~= pre.assets@.update(ai as int, self.assets@[ai as int]));
            lemma_asset_update(pre, *self, ai as int);
            assert(crate::state::entry_wf(pre.assets@[ai as int]));
            assert(crate::state::entry_wf(self.assets@[ai as int]));
            assert forall|i2: int| 0 <= i2 < self.assets@.len() implies crate::state::entry_wf(
                #[trigger] self.assets@[i2],
            ) by {
                if i2 != ai as int {
                    assert(self.assets@[i2] == pre.assets@[i2]);
                }
            }
        }
        Ok(())
    }
}



/// After tearing down the first `i` records of `s`, every holder among them
/// has had the reference class its record carried released, and every other
/// holder's counts are untouched.
pub open spec fn torn_down(
    cpre: crate::refs::RefCounter,
    cnow: crate::refs::RefCounter,
    s: Seq<AccountEntry>,
    i: int,
    w: AccountId,
) -> bool {
    if exists|j: int| 0 <= j < i && s[j].holder == w {
        cnow.entry_of(w) == crate::engine::refs_after_dec(
            cpre,
            w,
            s[choose|j: int| 0 <= j < i && s[j].holder == w].data.sufficient,
        )
    } else {
        cnow.entry_of(w) == cpre.entry_of(w)
    }
}

impl Pallet {
    /// Destroy the whole class `id`: tear down every account record (releasing
    /// its reference and notifying the freeze hook of each death), drop all
    /// approvals and metadata, and remove the asset. The caller passes the
    /// owner when the origin is not privileged, and a witness of the lifecycle
    /// counters; destruction is refused with `BadWitness` when the stored
    /// counters have moved since the witness was captured. Returns the deposit
    /// released to the owner: the asset's plus its metadata's.
    #[verifier::rlimit(100)]
    pub fn destroy<F: crate::freeze::FrozenBalance>(
        &mut self,
        counter: &mut crate::refs::RefCounter,
        hook: &mut F,
        id: AssetId,
        maybe_check_owner: Option<AccountId>,
        witness: crate::types::DestroyWitness,
    ) -> (r: Result<Balance, Error>)
        requires
            old(self).wf(),
            old(counter).uniq(),
        ensures
            final(self).wf(),
            final(counter).uniq(),
            final(self).config == old(self).config,
            (if !old(self).has_asset(id) {
                r == Err::<Balance, Error>(Error::Unknown) && *final(self) == *old(self)
                    && *final(counter) == *old(counter)
            } else if maybe_check_owner is Some && maybe_check_owner->0 != old(self).details_of(
                id,
            ).owner {
                r == Err::<Balance, Error>(Error::NoPermission) && *final(self) == *old(self)
                    && *final(counter) == *old(counter)
            } else if witness.accounts != old(self).details_of(id).accounts
                || witness.sufficients != old(self).details_of(id).sufficients
                || witness.approvals != old(self).details_of(id).approvals {
                r == Err::<Balance, Error>(Error::BadWitness) && *final(self) == *old(self)
                    && *final(counter) == *old(counter)
            } else {
                &&& r == Ok::<Balance, Error>(
                    crate::decision::sat_add(
                        old(self).details_of(id).deposit,
                        match old(self).metadata_of(id) {
                            Some(m) => m.deposit,
                            None => 0,
                        },
                    ),
                )
                &&& !final(self).has_asset(id)
                &&& forall|id2: AssetId| id2 != id ==> final(self).asset_same(*old(self), id2)
                &&& forall|w: AccountId|
                    final(counter).entry_of(w) == (match old(self).account_of(id, w) {
                        Some(a) => crate::engine::refs_after_dec(*old(counter), w, a.sufficient),
                        None => old(counter).entry_of(w),
                    })
            }),
            r is Err ==> *final(hook) == *old(hook),
    {
        let found = self.find_asset(id);
        let ai = match found {
            Some(ai) => ai,
            None => {
                return Err(Error::Unknown);
            },
        };
        let details = self.assets[ai].details;
        match maybe_check_owner {
            Some(check_owner) => {
                if check_owner != details.owner {
                    return Err(Error::NoPermission);
                }
            },
            None => {},
        }
        if witness.accounts != details.accounts || witness.sufficients != details.sufficients
            || witness.approvals != details.approvals {
            return Err(Error::BadWitness);
        }
        let metadata_deposit = match self.assets[ai].metadata.as_ref() {
            Some(m) => m.deposit,
            None => 0,
        };
        let released = if details.deposit > Balance::MAX - metadata_deposit {
            Balance::MAX
        } else {
            details.deposit + metadata_deposit
        };
        proof {
            assert(crate::state::entry_wf(self.assets@[ai as int]));
        }
        let ghost pre = *self;
        let ghost cpre = *counter;
        let entry = self.assets.remove(ai);
        proof {
            crate::lemmas::lemma_asset_remove(pre, *self, ai as int);
            assert forall|i2: int| 0 <= i2 < self.assets@.len() implies crate::state::entry_wf(
                #[trigger] self.assets@[i2],
            ) by {
                if i2 < ai as int {
                    assert(self.assets@[i2] == pre.assets@[i2]);
                } else {
                    assert(self.assets@[i2] == pre.assets@[i2 + 1]);
                }
            }
        }
        let mut details2 = entry.details;
        let accounts = entry.accounts;
        let ghost s = accounts@;
        proof {
            assert(s.subrange(0, s.len() as int) =~= s);
            assert(forall|w: AccountId| torn_down(cpre, *counter, s, 0, w));
        }
        let mut i: usize = 0;
        while i < accounts.len()
            invariant
                counter.uniq(),
                i <= s.len(),
                accounts@ == s,
                crate::state::acct_uniq(s),
                details2.accounts as int == s.len() - i,
                details2.sufficients as int == crate::state::suff_count(
                    s.subrange(i as int, s.len() as int),
                ),
                forall|w: AccountId| #[trigger] torn_down(cpre, *counter, s, i as int, w),
            decreases s.len() - i,
        {
            let rec = accounts[i];
            proof {
                assert(torn_down(cpre, *counter, s, i as int, rec.holder));
                let tail = s.subrange(i as int, s.len() as int);
                crate::lemmas::lemma_suff_count_drop_first(tail);
                assert(tail[0] == s[i as int]);
                assert(tail.drop_first() =~= s.subrange(i as int + 1, s.len() as int));
                crate::lemmas::lemma_suff_count_bounds(
                    s.subrange(i as int + 1, s.len() as int),
                );
                assert(!(exists|j: int| 0 <= j < i && s[j].holder == rec.holder));
                assert((*counter).entry_of(rec.holder) == cpre.entry_of(rec.holder));
            }
            let ghost cbefore = *counter;
            crate::engine::dead_account(id, rec.holder, &mut details2, rec.data.sufficient, counter, hook);
            proof {
                let h = rec.holder;
                assert forall|w: AccountId| #[trigger] torn_down(
                    cpre,
                    *counter,
                    s,
                    i as int + 1,
                    w,
                ) by {
                    assert(torn_down(cpre, cbefore, s, i as int, w));
                    if w == h {
                        assert(s[i as int].holder == h);
                        assert(exists|j: int| 0 <= j < i + 1 && s[j].holder == h);
                        let j = choose|j: int| 0 <= j < i + 1 && s[j].holder == h;
                        assert(0 <= j < i + 1 && s[j].holder == h);
                        if j != i as int {
                            assert(s[j].holder != s[i as int].holder);
                            assert(false);
                        }
                        assert(crate::engine::refs_after_dec(cbefore, h, rec.data.sufficient)
                            == crate::engine::refs_after_dec(cpre, h, rec.data.sufficient));
                    } else {
                        assert((*counter).entry_of(w) == cbefore.entry_of(w));
                        if exists|j: int| 0 <= j < i && s[j].holder == w {
                            let j0 = choose|j: int| 0 <= j < i && s[j].holder == w;
                            assert(0 <= j0 < i && s[j0].holder == w);
                            assert(exists|j: int| 0 <= j < i + 1 && s[j].holder == w);
                            let j1 = choose|j: int| 0 <= j < i + 1 && s[j].holder == w;
                            assert(0 <= j1 < i + 1 && s[j1].holder == w);
                            if j1 != j0 {
                                if j1 < j0 {
                                    assert(s[j1].holder != s[j0].holder);
                                } else {
                                    assert(s[j0].holder != s[j1].holder);
                                }
                                assert(false);
                            }
                        } else {
                            if exists|j: int| 0 <= j < i + 1 && s[j].holder == w {
                                let j1 = choose|j: int| 0 <= j < i + 1 && s[j].holder == w;
                                assert(0 <= j1 < i + 1 && s[j1].holder == w);
                                assert(j1 != i as int);
                                assert(false);
                            }
                        }
                    }
                }
            }
            i = i + 1;
        }
        proof {
            // Every record was torn down: the lifecycle counters are spent.
            assert(s.subrange(s.len() as int, s.len() as int) =~= Seq::<AccountEntry>::empty());
            assert(details2.accounts == 0);
            assert(details2.sufficients == 0);
            assert forall|w: AccountId|
                final(counter).entry_of(w) == (match pre.account_of(id, w) {
                    Some(a) => crate::engine::refs_after_dec(cpre, w, a.sufficient),
                    None => cpre.entry_of(w),
                }) by {
                assert(torn_down(cpre, *final(counter), s, s.len() as int, w));
                if pre.account_of(id, w) is Some {
                    let k = crate::state::acct_idx(s, w);
                    crate::lemmas::lemma_acct_at(s, k);
                    assert(exists|j: int| 0 <= j < s.len() && s[j].holder == w);
                    let j = choose|j: int| 0 <= j < s.len() && s[j].holder == w;
                    assert(0 <= j < s.len() && s[j].holder == w);
                    if j != k {
                        if j < k {
                            assert(s[j].holder != s[k].holder);
                        } else {
                            assert(s[k].holder != s[j].holder);
                        }
                        assert(false);
                    }
                } else {
                    if exists|j: int| 0 <= j < s.len() && s[j].holder == w {
                        let j = choose|j: int| 0 <= j < s.len() && s[j].holder == w;
                        assert(0 <= j < s.len() && s[j].holder == w);
                        assert(crate::state::acct_has(s, w));
                        assert(false);
                    }
                }
            }
        }
        Ok(released)
    }
}


} // verus!
