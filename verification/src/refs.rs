//! The reference counter: tracks, per holder identity, how many subsystems
//! require the identity to remain alive. Two independent counter classes are
//! kept: "self-sufficient" references (a record justifies its own existence)
//! and "dependent" references (grantable only while the identity has a
//! provider reference).

use vstd::prelude::*;
use crate::types::AccountId;
use crate::types::Error;

verus! {

/// A saturating increment: the counters never wrap.
pub open spec fn sat_inc(x: u64) -> u64 {
    if x == u64::MAX {
        x
    } else {
        (x + 1) as u64
    }
}

/// A saturating decrement: the counters never wrap.
pub open spec fn sat_dec(x: u64) -> u64 {
    if x == 0 {
        x
    } else {
        (x - 1) as u64
    }
}

/// One holder's reference counts.
#[derive(Clone, Copy, PartialEq, Eq, Structural, Debug)]
pub struct RefEntry {
    /// The holder the counts belong to.
    pub who: AccountId,
    /// References that allow the identity to host dependent records.
    pub providers: u64,
    /// Dependent references: records that need the identity to stay alive.
    pub consumers: u64,
    /// Self-sufficient references: records that justify their own existence.
    pub sufficients: u64,
}

/// The per-holder reference counts, keyed by holder identity.
pub struct RefCounter {
    /// The live entries; holder identities are unique.
    pub entries: Vec<RefEntry>,
}

impl RefCounter {
    /// Holder identities occur at most once.
    pub open spec fn uniq(self) -> bool {
        forall|i: int, j: int|
            0 <= i < j < self.entries@.len() ==> self.entries@[i].who != self.entries@[j].who
    }

    /// Whether an entry for `who` exists.
    pub open spec fn has(self, who: AccountId) -> bool {
        exists|i: int| 0 <= i < self.entries@.len() && self.entries@[i].who == who
    }

    /// The index of `who`'s entry (meaningful only when `has(who)`).
    pub open spec fn idx(self, who: AccountId) -> int {
        choose|i: int| 0 <= i < self.entries@.len() && self.entries@[i].who == who
    }

    /// The counts of `who`; all zero when no entry exists.
    pub open spec fn entry_of(self, who: AccountId) -> RefEntry {
        if self.has(who) {
            self.entries@[self.idx(who)]
        } else {
            RefEntry { who, providers: 0, consumers: 0, sufficients: 0 }
        }
    }

    /// The provider references of `who`.
    pub open spec fn providers_of(self, who: AccountId) -> u64 {
        self.entry_of(who).providers
    }

    /// The dependent references of `who`.
    pub open spec fn consumers_of(self, who: AccountId) -> u64 {
        self.entry_of(who).consumers
    }

    /// The self-sufficient references of `who`.
    pub open spec fn sufficients_of(self, who: AccountId) -> u64 {
        self.entry_of(who).sufficients
    }

    /// Every holder but `who` has the same counts in `self` as in `other`.
    pub open spec fn same_except(self, other: RefCounter, who: AccountId) -> bool {
        forall|w: AccountId| w != who ==> self.entry_of(w) == other.entry_of(w)
    }

    /// An empty counter: every holder has zero counts.
    pub fn new() -> (r: RefCounter)
        ensures
            r.uniq(),
            forall|w: AccountId| r.entry_of(w) == (RefEntry {
                who: w,
                providers: 0,
                consumers: 0,
                sufficients: 0,
            }),
    {
        let r = RefCounter { entries: Vec::new() };
        proof {
            assert(forall|w: AccountId| !r.has(w));
        }
        r
    }

    /// Find the index of `who`'s entry.
    fn find(&self, who: AccountId) -> (r: Option<usize>)
        ensures
            match r {
                Some(i) => i < self.entries@.len() && self.entries@[i as int].who == who,
                None => !self.has(who),
            },
    {
        let mut i: usize = 0;
        while i < self.entries.len()
            invariant
                i <= self.entries@.len(),
                forall|j: int| 0 <= j < i ==> self.entries@[j].who != who,
            decreases self.entries@.len() - i,
        {
            if self.entries[i].who == who {
                return Some(i);
            }
            i = i + 1;
        }
        None
    }

    /// Write `e` as the counts of `who`, creating the entry if need be.
    fn put(&mut self, who: AccountId, e: RefEntry)
        requires
            old(self).uniq(),
            e.who == who,
        ensures
            final(self).uniq(),
            final(self).entry_of(who) == e,
            final(self).same_except(*old(self), who),
    {
        let found = self.find(who);
        match found {
            Some(i) => {
                self.entries.set(i, e);
                proof {
                    let pre = *old(self);
                    assert forall|i2: int, j2: int|
                        0 <= i2 < j2 < self.entries@.len() implies self.entries@[i2].who
                        != self.entries@[j2].who by {
                        assert(pre.entries@[i2].who == self.entries@[i2].who);
                        assert(pre.entries@[j2].who == self.entries@[j2].who);
                    }
                    assert(self.entries@[i as int] == e);
                    assert(self.has(who));
                    assert(self.entries@[self.idx(who)].who == who);
                    assert(self.idx(who) == i as int);
                    assert forall|w: AccountId| w != who implies self.entry_of(w) == pre.entry_of(
                        w,
                    ) by {
                        assert forall|j: int|
                            0 <= j < self.entries@.len() && j != i as int implies self.entries@[j]
                            == pre.entries@[j] by {}
                        if pre.has(w) {
                            let k = pre.idx(w);
                            assert(pre.entries@[k].who == w);
                            assert(k != i as int);
                            assert(self.entries@[k] == pre.entries@[k]);
                            assert(self.has(w));
                            let k2 = self.idx(w);
                            assert(self.entries@[k2].who == w);
                            assert(k2 != i as int);
                            assert(k2 == k);
                        } else {
                            assert(!self.has(w));
                        }
                    }
                }
            },
            None => {
                let ghost pre = *old(self);
                self.entries.push(e);
                proof {
                    let n = pre.entries@.len() as int;
                    assert(self.entries@ == pre.entries@.push(e));
                    assert(self.entries@[n] == e);
                    assert forall|i2: int, j2: int|
                        0 <= i2 < j2 < self.entries@.len() implies self.entries@[i2].who
                        != self.entries@[j2].who by {
                        if j2 < n {
                            assert(self.entries@[i2] == pre.entries@[i2]);
                            assert(self.entries@[j2] == pre.entries@[j2]);
                        } else {
                            assert(self.entries@[i2] == pre.entries@[i2]);
                            assert(pre.entries@[i2].who != who);
                        }
                    }
                    assert(self.has(who));
                    assert(self.idx(who) == n);
                    assert forall|w: AccountId| w != who implies self.entry_of(w) == pre.entry_of(
                        w,
                    ) by {
                        if pre.has(w) {
                            let k = pre.idx(w);
                            assert(pre.entries@[k].who == w);
                            assert(self.entries@[k] == pre.entries@[k]);
                            assert(self.has(w));
                            let k2 = self.idx(w);
                            assert(self.entries@[k2].who == w);
                            assert(k2 != n);
                            assert(self.entries@[k2] == pre.entries@[k2]);
                            assert(k2 == k);
                        } else {
                            if self.has(w) {
                                let k2 = self.idx(w);
                                assert(self.entries@[k2].who == w);
                                assert(k2 != n);
                                assert(pre.entries@[k2].who == w);
                                assert(false);
                            }
                        }
                    }
                }
            },
        }
    }

    /// The provider references of `who`.
    pub fn providers(&self, who: AccountId) -> (r: u64)
        ensures
            self.uniq() ==> r == self.providers_of(who),
    {
        let found = self.find(who);
        match found {
            Some(i) => {
                proof {
                    assert(self.has(who));
                    assert(self.entries@[self.idx(who)].who == who);
                    if self.uniq() {
                        assert(self.idx(who) == i as int);
                    }
                }
                self.entries[i].providers
            },
            None => 0,
        }
    }

    /// The dependent references of `who`.
    pub fn consumers(&self, who: AccountId) -> (r: u64)
        ensures
            self.uniq() ==> r == self.consumers_of(who),
    {
        let found = self.find(who);
        match found {
            Some(i) => {
                proof {
                    assert(self.has(who));
                    assert(self.entries@[self.idx(who)].who == who);
                    if self.uniq() {
                        assert(self.idx(who) == i as int);
                    }
                }
                self.entries[i].consumers
            },
            None => 0,
        }
    }

    /// The self-sufficient references of `who`.
    pub fn sufficients(&self, who: AccountId) -> (r: u64)
        ensures
            self.uniq() ==> r == self.sufficients_of(who),
    {
        let found = self.find(who);
        match found {
            Some(i) => {
                proof {
                    assert(self.has(who));
                    assert(self.entries@[self.idx(who)].who == who);
                    if self.uniq() {
                        assert(self.idx(who) == i as int);
                    }
                }
                self.entries[i].sufficients
            },
            None => 0,
        }
    }

    /// Grant `who` a provider reference. Done by the enclosing system when the
    /// identity comes to exist in its own right; it is what entitles the
    /// identity to dependent references.
    pub fn inc_providers(&mut self, who: AccountId)
        requires
            old(self).uniq(),
        ensures
            final(self).uniq(),
            final(self).entry_of(who) == (RefEntry {
                providers: sat_inc(old(self).providers_of(who)),
                ..old(self).entry_of(who)
            }),
            final(self).same_except(*old(self), who),
    {
        let e = self.read_entry(who);
        let p = if e.providers == u64::MAX {
            e.providers
        } else {
            e.providers + 1
        };
        self.put(who, RefEntry { providers: p, ..e });
    }

    /// Place a self-sufficient reference on `who`.
    pub fn inc_sufficients(&mut self, who: AccountId)
        requires
            old(self).uniq(),
        ensures
            final(self).uniq(),
            final(self).entry_of(who) == (RefEntry {
                sufficients: sat_inc(old(self).sufficients_of(who)),
                ..old(self).entry_of(who)
            }),
            final(self).same_except(*old(self), who),
    {
        let e = self.read_entry(who);
        let s = if e.sufficients == u64::MAX {
            e.sufficients
        } else {
            e.sufficients + 1
        };
        self.put(who, RefEntry { sufficients: s, ..e });
    }

    /// Release a self-sufficient reference of `who`.
    pub fn dec_sufficients(&mut self, who: AccountId)
        requires
            old(self).uniq(),
        ensures
            final(self).uniq(),
            final(self).entry_of(who) == (RefEntry {
                sufficients: sat_dec(old(self).sufficients_of(who)),
                ..old(self).entry_of(who)
            }),
            final(self).same_except(*old(self), who),
    {
        let e = self.read_entry(who);
        let s = if e.sufficients == 0 {
            e.sufficients
        } else {
            e.sufficients - 1
        };
        self.put(who, RefEntry { sufficients: s, ..e });
    }

    /// Place a dependent reference on `who`; fails `NoProvider` when the
    /// identity has no provider reference to depend on.
    pub fn inc_consumers(&mut self, who: AccountId) -> (r: Result<(), Error>)
        requires
            old(self).uniq(),
        ensures
            final(self).uniq(),
            r == (if old(self).providers_of(who) == 0 {
                Err::<(), Error>(Error::NoProvider)
            } else {
                Ok::<(), Error>(())
            }),
            r is Ok ==> final(self).entry_of(who) == (RefEntry {
                consumers: sat_inc(old(self).consumers_of(who)),
                ..old(self).entry_of(who)
            }) && final(self).same_except(*old(self), who),
            r is Err ==> *final(self) == *old(self),
    {
        let e = self.read_entry(who);
        if e.providers == 0 {
            return Err(Error::NoProvider);
        }
        let c = if e.consumers == u64::MAX {
            e.consumers
        } else {
            e.consumers + 1
        };
        self.put(who, RefEntry { consumers: c, ..e });
        Ok(())
    }

    /// Release a dependent reference of `who`.
    pub fn dec_consumers(&mut self, who: AccountId)
        requires
            old(self).uniq(),
        ensures
            final(self).uniq(),
            final(self).entry_of(who) == (RefEntry {
                consumers: sat_dec(old(self).consumers_of(who)),
                ..old(self).entry_of(who)
            }),
            final(self).same_except(*old(self), who),
    {
        let e = self.read_entry(who);
        let c = if e.consumers == 0 {
            e.consumers
        } else {
            e.consumers - 1
        };
        self.put(who, RefEntry { consumers: c, ..e });
    }

    /// Read the counts of `who` by value, zeros when no entry exists.
    fn read_entry(&self, who: AccountId) -> (e: RefEntry)
        requires
            self.uniq(),
        ensures
            e == self.entry_of(who),
            e.who == who,
    {
        let found = self.find(who);
        match found {
            Some(i) => {
                proof {
                    assert(self.has(who));
                    assert(self.entries@[self.idx(who)].who == who);
                    assert(self.idx(who) == i as int);
                }
                let e = self.entries[i];
                RefEntry { who, ..e }
            },
            None => RefEntry { who, providers: 0, consumers: 0, sufficients: 0 },
        }
    }
}

} // verus!
