//! The freeze hook: a pluggable collaborator that can demand an extra frozen
//! amount, beyond the asset's minimum balance, be kept in an account, and that
//! is notified when a privileged reduction violates that amount ("melting") or
//! when an account is removed.

use vstd::prelude::*;
use crate::types::AccountId;
use crate::types::AssetId;
use crate::types::Balance;

verus! {

/// A hook allowing a per-asset, per-account minimum balance to be enforced
/// beyond the asset's own `min_balance`. The requirement is additive: the
/// asset's minimum balance must be met *and then* anything reported here in
/// addition.
pub trait FrozenBalance: Sized {
    /// The frozen amount the hook currently reports, as a pure function of the
    /// hook's state.
    spec fn frozen_spec(&self, asset: AssetId, who: AccountId) -> Option<Balance>;

    /// Return the extra frozen balance, if any. Under normal behaviour this
    /// amount should always stay withdrawable: the balance of the account must
    /// be at least the sum of this (if `Some`) and the asset's minimum balance.
    /// If `None` is returned, nothing special is enforced.
    fn frozen_balance(&self, asset: AssetId, who: AccountId) -> (r: Option<Balance>)
        ensures
            r == self.frozen_spec(asset, who),
    ;

    /// Called when a balance falls below the frozen amount due to a privileged
    /// operation that does not respect freezes, so the hook can reconcile its
    /// own bookkeeping. `amount_left_frozen` is what remains above the minimum
    /// balance.
    fn melted(&mut self, asset: AssetId, who: AccountId, amount_left_frozen: Balance);

    /// Called when an account has been removed.
    fn died(&mut self, asset: AssetId, who: AccountId);
}

/// The trivial hook: nothing is ever frozen and notifications are discarded.
#[derive(Clone, Copy, PartialEq, Eq, Structural, Debug)]
pub struct NoFreeze;

impl FrozenBalance for NoFreeze {
    open spec fn frozen_spec(&self, asset: AssetId, who: AccountId) -> Option<Balance> {
        None
    }

    fn frozen_balance(&self, asset: AssetId, who: AccountId) -> (r: Option<Balance>) {
        None
    }

    fn melted(&mut self, asset: AssetId, who: AccountId, amount_left_frozen: Balance) {
    }

    fn died(&mut self, asset: AssetId, who: AccountId) {
    }
}

/// The information the reserving hook keeps per asset and account.
#[derive(Clone, Copy, PartialEq, Eq, Structural, Debug)]
pub struct FreezeData {
    /// The amount of funds that have been reserved. While this is nonzero the
    /// ledger attempts to keep the account alive by retaining the asset's
    /// minimum balance *plus* this amount in it.
    pub reserved: Balance,
    /// The amount of reserved funds that have melted: the account was reduced
    /// below the reserved amount despite the reservation.
    pub melted: Balance,
}

/// One (asset, holder) freeze record.
#[derive(Clone, Copy, PartialEq, Eq, Structural, Debug)]
pub struct FreezeEntry {
    /// The asset the reservation is under.
    pub asset: AssetId,
    /// The holder whose funds are reserved.
    pub who: AccountId,
    /// The reservation bookkeeping itself.
    pub data: FreezeData,
}

/// A freeze hook that keeps funds reserved per asset and account, and records
/// how much of a reservation has melted away under privileged operations.
pub struct Freezer {
    entries: Vec<FreezeEntry>,
}

impl Freezer {
    /// (asset, holder) pairs occur at most once.
    #[verifier::type_invariant]
    spec fn inv(self) -> bool {
        forall|i: int, j: int|
            0 <= i < j < self.entries@.len() ==> !(self.entries@[i].asset == self.entries@[j].asset
                && self.entries@[i].who == self.entries@[j].who)
    }

    /// Whether a record for (asset, who) exists.
    pub closed spec fn has(self, asset: AssetId, who: AccountId) -> bool {
        exists|i: int|
            0 <= i < self.entries@.len() && self.entries@[i].asset == asset
                && self.entries@[i].who == who
    }

    /// The index of the (asset, who) record (meaningful only when `has`).
    closed spec fn idx(self, asset: AssetId, who: AccountId) -> int {
        choose|i: int|
            0 <= i < self.entries@.len() && self.entries@[i].asset == asset
                && self.entries@[i].who == who
    }

    /// The bookkeeping for (asset, who); zeros when no record exists.
    pub closed spec fn data_of(self, asset: AssetId, who: AccountId) -> FreezeData {
        if self.has(asset, who) {
            self.entries@[self.idx(asset, who)].data
        } else {
            FreezeData { reserved: 0, melted: 0 }
        }
    }

    /// Every (asset, holder) pair but the given one has the same bookkeeping in
    /// `self` as in `other`.
    pub open spec fn same_except(self, other: Freezer, asset: AssetId, who: AccountId) -> bool {
        forall|a: AssetId, w: AccountId|
            !(a == asset && w == who) ==> self.data_of(a, w) == other.data_of(a, w)
    }

    /// A hook with no reservations.
    pub fn new() -> (r: Freezer)
        ensures
            forall|a: AssetId, w: AccountId| r.data_of(a, w) == (FreezeData {
                reserved: 0,
                melted: 0,
            }),
    {
        let r = Freezer { entries: Vec::new() };
        proof {
            assert(forall|a: AssetId, w: AccountId| !r.has(a, w));
        }
        r
    }

    /// Find the index of the (asset, who) record.
    fn find(&self, asset: AssetId, who: AccountId) -> (r: Option<usize>)
        ensures
            match r {
                Some(i) => i < self.entries@.len() && self.entries@[i as int].asset == asset
                    && self.entries@[i as int].who == who,
                None => !self.has(asset, who),
            },
    {
        let mut i: usize = 0;
        while i < self.entries.len()
            invariant
                i <= self.entries@.len(),
                forall|j: int|
                    0 <= j < i ==> !(self.entries@[j].asset == asset && self.entries@[j].who
                        == who),
            decreases self.entries@.len() - i,
        {
            if self.entries[i].asset == asset && self.entries[i].who == who {
                return Some(i);
            }
            i = i + 1;
        }
        None
    }

    /// Write `d` as the bookkeeping of (asset, who), creating the record if
    /// need be.
    fn put(&mut self, asset: AssetId, who: AccountId, d: FreezeData)
        ensures
            final(self).data_of(asset, who) == d,
            final(self).same_except(*old(self), asset, who),
    {
        proof {
            use_type_invariant(&*self);
        }
        let ghost pre = *old(self);
        let e = FreezeEntry { asset, who, data: d };
        let found = self.find(asset, who);
        let mut entries: Vec<FreezeEntry> = Vec::new();
        core::mem::swap(&mut entries, &mut self.entries);
        match found {
            Some(i) => {
                entries.set(i, e);
                self.entries = entries;
                proof {
                    assert forall|i2: int, j2: int|
                        0 <= i2 < j2 < self.entries@.len() implies !(self.entries@[i2].asset
                        == self.entries@[j2].asset && self.entries@[i2].who
                        == self.entries@[j2].who) by {
                        assert(pre.entries@[i2].asset == self.entries@[i2].asset
                            && pre.entries@[i2].who == self.entries@[i2].who);
                        assert(pre.entries@[j2].asset == self.entries@[j2].asset
                            && pre.entries@[j2].who == self.entries@[j2].who);
                    }
                    assert(self.entries@[i as int].asset == asset && self.entries@[i as int].who
                        == who);
                    assert(self.has(asset, who));
                    assert(self.idx(asset, who) == i as int);
                    assert forall|a: AssetId, w: AccountId|
                        !(a == asset && w == who) implies self.data_of(a, w) == pre.data_of(
                        a,
                        w,
                    ) by {
                        if pre.has(a, w) {
                            let k = pre.idx(a, w);
                            assert(pre.entries@[k].asset == a && pre.entries@[k].who == w);
                            assert(k != i as int);
                            assert(self.entries@[k] == pre.entries@[k]);
                            assert(self.has(a, w));
                            let k2 = self.idx(a, w);
                            assert(self.entries@[k2].asset == a && self.entries@[k2].who == w);
                            assert(k2 != i as int);
                            assert(k2 == k);
                        } else {
                            assert(!self.has(a, w));
                        }
                    }
                }
            },
            None => {
                entries.push(e);
                self.entries = entries;
                proof {
                    let n = pre.entries@.len() as int;
                    assert(self.entries@ == pre.entries@.push(e));
                    assert forall|i2: int, j2: int|
                        0 <= i2 < j2 < self.entries@.len() implies !(self.entries@[i2].asset
                        == self.entries@[j2].asset && self.entries@[i2].who
                        == self.entries@[j2].who) by {
                        if j2 < n {
                            assert(self.entries@[i2] == pre.entries@[i2]);
                            assert(self.entries@[j2] == pre.entries@[j2]);
                        } else {
                            assert(self.entries@[i2] == pre.entries@[i2]);
                        }
                    }
                    assert(self.entries@[n].asset == asset && self.entries@[n].who == who);
                    assert(self.has(asset, who));
                    assert(self.idx(asset, who) == n);
                    assert forall|a: AssetId, w: AccountId|
                        !(a == asset && w == who) implies self.data_of(a, w) == pre.data_of(
                        a,
                        w,
                    ) by {
                        if pre.has(a, w) {
                            let k = pre.idx(a, w);
                            assert(pre.entries@[k].asset == a && pre.entries@[k].who == w);
                            assert(self.entries@[k] == pre.entries@[k]);
                            assert(self.has(a, w));
                            let k2 = self.idx(a, w);
                            assert(self.entries@[k2].asset == a && self.entries@[k2].who == w);
                            assert(k2 != n);
                            assert(self.entries@[k2] == pre.entries@[k2]);
                            assert(k2 == k);
                        } else {
                            if self.has(a, w) {
                                let k2 = self.idx(a, w);
                                assert(self.entries@[k2].asset == a && self.entries@[k2].who == w);
                                assert(k2 != n);
                                assert(pre.entries@[k2].asset == a && pre.entries@[k2].who == w);
                                assert(false);
                            }
                        }
                    }
                }
            },
        }
    }

    /// Read the bookkeeping of (asset, who) by value.
    pub fn get(&self, asset: AssetId, who: AccountId) -> (d: FreezeData)
        ensures
            d == self.data_of(asset, who),
    {
        proof {
            use_type_invariant(&*self);
        }
        let found = self.find(asset, who);
        match found {
            Some(i) => {
                proof {
                    assert(self.entries@[i as int].asset == asset && self.entries@[i as int].who
                        == who);
                    assert(self.has(asset, who));
                    assert(self.idx(asset, who) == i as int);
                }
                self.entries[i].data
            },
            None => FreezeData { reserved: 0, melted: 0 },
        }
    }

    /// The reserved balance of (asset, who).
    pub fn reserved_balance(&self, asset: AssetId, who: AccountId) -> (r: Balance)
        ensures
            r == self.data_of(asset, who).reserved,
    {
        self.get(asset, who).reserved
    }

    /// The melted amount recorded for (asset, who).
    pub fn melted_balance(&self, asset: AssetId, who: AccountId) -> (r: Balance)
        ensures
            r == self.data_of(asset, who).melted,
    {
        self.get(asset, who).melted
    }

    /// Set the reserved amount of (asset, who), keeping its melted bookkeeping.
    pub fn set_reserved(&mut self, asset: AssetId, who: AccountId, amount: Balance)
        ensures
            final(self).data_of(asset, who) == (FreezeData {
                reserved: amount,
                ..old(self).data_of(asset, who)
            }),
            final(self).same_except(*old(self), asset, who),
    {
        let d = self.get(asset, who);
        self.put(asset, who, FreezeData { reserved: amount, ..d });
    }
}

impl FrozenBalance for Freezer {
    /// A nonzero reserved amount is reported as frozen; zero reports nothing.
    open spec fn frozen_spec(&self, asset: AssetId, who: AccountId) -> Option<Balance> {
        if self.data_of(asset, who).reserved == 0 {
            None
        } else {
            Some(self.data_of(asset, who).reserved)
        }
    }

    fn frozen_balance(&self, asset: AssetId, who: AccountId) -> (r: Option<Balance>) {
        let d = self.get(asset, who);
        if d.reserved == 0 {
            None
        } else {
            Some(d.reserved)
        }
    }

    /// Bump the melted bookkeeping, assuming the reservation record still
    /// exists; the reserved amount itself is left to the reserving subsystem.
    fn melted(&mut self, asset: AssetId, who: AccountId, amount_left_frozen: Balance) {
        let d = self.get(asset, who);
        let m = if d.melted > u64::MAX - amount_left_frozen {
            u64::MAX
        } else {
            d.melted + amount_left_frozen
        };
        self.put(asset, who, FreezeData { melted: m, ..d });
    }

    fn died(&mut self, asset: AssetId, who: AccountId) {
    }
}


/// Whether `amount` of `id` could be reserved from `who`: true exactly when a
/// withdrawal of that amount would succeed outright, without even dipping into
/// the account's life.
pub fn can_reserve<F: FrozenBalance>(
    ledger: &crate::state::Pallet,
    hook: &F,
    id: AssetId,
    who: AccountId,
    amount: Balance,
) -> (r: bool)
    requires
        ledger.wf(),
    ensures
        r == (ledger.can_decrease_s(
            hook.frozen_spec(id, who),
            id,
            who,
            amount,
            false,
            crate::types::RespectFrozen::Respect,
        ).0 == crate::types::WithdrawConsequence::Success),
{
    let c = ledger.can_decrease(hook, id, who, amount, false, crate::types::RespectFrozen::Respect);
    match c.0 {
        crate::types::WithdrawConsequence::Success => true,
        _ => false,
    }
}


} // verus!
