//! Proof support for the ledger state: how the balance sum, the
//! sufficient-record count, and the keyed accessors behave under point
//! updates, insertions, and removals of entries.

use vstd::prelude::*;
use crate::types::AccountId;
use crate::types::ApprovalKey;
use crate::state::acct_has;
use crate::state::acct_idx;
use crate::state::acct_of;
use crate::state::acct_uniq;
use crate::state::appr_has;
use crate::state::appr_idx;
use crate::state::appr_of;
use crate::state::appr_uniq;
use crate::state::bal_sum;
use crate::state::suff_count;
use crate::state::AccountEntry;
use crate::state::ApprovalRecord;
use crate::state::Pallet;
use crate::types::AssetId;

verus! {

// ---------------------------------------------------------------------------
// The balance sum.
// ---------------------------------------------------------------------------

/// The sum of balances never goes negative.
pub proof fn lemma_bal_sum_nonneg(s: Seq<AccountEntry>)
    ensures
        bal_sum(s) >= 0,
    decreases s.len(),
{
    if s.len() > 0 {
        lemma_bal_sum_nonneg(s.drop_last());
    }
}

/// Each single balance is bounded by the sum of all of them.
pub proof fn lemma_bal_sum_member(s: Seq<AccountEntry>, i: int)
    requires
        0 <= i < s.len(),
    ensures
        bal_sum(s) >= s[i].data.balance,
    decreases s.len(),
{
    if i == s.len() - 1 {
        lemma_bal_sum_nonneg(s.drop_last());
    } else {
        lemma_bal_sum_member(s.drop_last(), i);
    }
}

/// Updating one entry moves the sum by the difference of the balances.
pub proof fn lemma_bal_sum_update(s: Seq<AccountEntry>, i: int, e: AccountEntry)
    requires
        0 <= i < s.len(),
    ensures
        bal_sum(s.update(i, e)) == bal_sum(s) - s[i].data.balance + e.data.balance,
    decreases s.len(),
{
    let t = s.update(i, e);
    if i == s.len() - 1 {
        assert(t.drop_last() =~= s.drop_last());
    } else {
        assert(t.drop_last() =~= s.drop_last().update(i, e));
        assert(t.last() == s.last());
        lemma_bal_sum_update(s.drop_last(), i, e);
    }
}

/// Appending an entry adds its balance to the sum.
pub proof fn lemma_bal_sum_push(s: Seq<AccountEntry>, e: AccountEntry)
    ensures
        bal_sum(s.push(e)) == bal_sum(s) + e.data.balance,
{
    assert(s.push(e).drop_last() =~= s);
    assert(s.push(e).last() == e);
}

/// Removing an entry subtracts its balance from the sum.
pub proof fn lemma_bal_sum_remove(s: Seq<AccountEntry>, i: int)
    requires
        0 <= i < s.len(),
    ensures
        bal_sum(s.remove(i)) == bal_sum(s) - s[i].data.balance,
    decreases s.len(),
{
    let t = s.remove(i);
    if i == s.len() - 1 {
        assert(t =~= s.drop_last());
    } else {
        assert(t.drop_last() =~= s.drop_last().remove(i));
        assert(t.last() == s.last());
        lemma_bal_sum_remove(s.drop_last(), i);
    }
}

// ---------------------------------------------------------------------------
// The count of self-sufficient records.
// ---------------------------------------------------------------------------

/// The count of self-sufficient records lies between zero and the number of
/// records.
pub proof fn lemma_suff_count_bounds(s: Seq<AccountEntry>)
    ensures
        0 <= suff_count(s) <= s.len(),
    decreases s.len(),
{
    if s.len() > 0 {
        lemma_suff_count_bounds(s.drop_last());
    }
}

/// A self-sufficient record contributes at least one to the count.
pub proof fn lemma_suff_count_member(s: Seq<AccountEntry>, i: int)
    requires
        0 <= i < s.len(),
        s[i].data.sufficient,
    ensures
        suff_count(s) >= 1,
    decreases s.len(),
{
    lemma_suff_count_bounds(s.drop_last());
    if i < s.len() - 1 {
        lemma_suff_count_member(s.drop_last(), i);
    }
}

/// The count of a nonempty sequence splits into its first record's flag and
/// the count of the rest.
pub proof fn lemma_suff_count_drop_first(s: Seq<AccountEntry>)
    requires
        s.len() > 0,
    ensures
        suff_count(s) == (if s[0].data.sufficient {
            1int
        } else {
            0int
        }) + suff_count(s.drop_first()),
    decreases s.len(),
{
    if s.len() == 1 {
        assert(s.drop_first() =~= Seq::<AccountEntry>::empty());
        assert(s.drop_last() =~= Seq::<AccountEntry>::empty());
        assert(suff_count(Seq::<AccountEntry>::empty()) == 0);
        assert(suff_count(s) == suff_count(s.drop_last()) + (if s.last().data.sufficient {
            1int
        } else {
            0int
        }));
    } else {
        lemma_suff_count_drop_first(s.drop_last());
        assert(s.drop_last()[0] == s[0]);
        assert(s.drop_first().drop_last() =~= s.drop_last().drop_first());
        assert(s.drop_first().last() == s.last());
        assert(suff_count(s) == suff_count(s.drop_last()) + (if s.last().data.sufficient {
            1int
        } else {
            0int
        }));
        assert(suff_count(s.drop_first()) == suff_count(s.drop_first().drop_last()) + (if s.drop_first().last().data.sufficient {
            1int
        } else {
            0int
        }));
        assert(suff_count(s.drop_first().drop_last()) == suff_count(s.drop_last().drop_first()));
    }
}

/// Updating one entry moves the count by the difference of the flags.
pub proof fn lemma_suff_count_update(s: Seq<AccountEntry>, i: int, e: AccountEntry)
    requires
        0 <= i < s.len(),
    ensures
        suff_count(s.update(i, e)) == suff_count(s) - (if s[i].data.sufficient {
            1int
        } else {
            0int
        }) + (if e.data.sufficient {
            1int
        } else {
            0int
        }),
    decreases s.len(),
{
    let t = s.update(i, e);
    if i == s.len() - 1 {
        assert(t.drop_last() =~= s.drop_last());
    } else {
        assert(t.drop_last() =~= s.drop_last().update(i, e));
        assert(t.last() == s.last());
        lemma_suff_count_update(s.drop_last(), i, e);
    }
}

/// Appending an entry adds its flag to the count.
pub proof fn lemma_suff_count_push(s: Seq<AccountEntry>, e: AccountEntry)
    ensures
        suff_count(s.push(e)) == suff_count(s) + (if e.data.sufficient {
            1int
        } else {
            0int
        }),
{
    assert(s.push(e).drop_last() =~= s);
    assert(s.push(e).last() == e);
}

/// Removing an entry subtracts its flag from the count.
pub proof fn lemma_suff_count_remove(s: Seq<AccountEntry>, i: int)
    requires
        0 <= i < s.len(),
    ensures
        suff_count(s.remove(i)) == suff_count(s) - (if s[i].data.sufficient {
            1int
        } else {
            0int
        }),
    decreases s.len(),
{
    let t = s.remove(i);
    if i == s.len() - 1 {
        assert(t =~= s.drop_last());
    } else {
        assert(t.drop_last() =~= s.drop_last().remove(i));
        assert(t.last() == s.last());
        lemma_suff_count_remove(s.drop_last(), i);
    }
}

// ---------------------------------------------------------------------------
// The account accessor under mutation.
// ---------------------------------------------------------------------------

/// With unique holders, the record at any index is what the accessor returns
/// for its holder.
pub proof fn lemma_acct_at(s: Seq<AccountEntry>, i: int)
    requires
        acct_uniq(s),
        0 <= i < s.len(),
    ensures
        acct_has(s, s[i].holder),
        acct_idx(s, s[i].holder) == i,
        acct_of(s, s[i].holder) == Some(s[i].data),
{
    assert(acct_has(s, s[i].holder));
    let k = acct_idx(s, s[i].holder);
    assert(0 <= k < s.len() && s[k].holder == s[i].holder);
    if k != i {
        if k < i {
            assert(s[k].holder != s[i].holder);
        } else {
            assert(s[i].holder != s[k].holder);
        }
        assert(false);
    }
}

/// Updating the record of one holder leaves every other holder's record as it
/// was.
pub proof fn lemma_acct_update(s: Seq<AccountEntry>, i: int, e: AccountEntry)
    requires
        acct_uniq(s),
        0 <= i < s.len(),
        e.holder == s[i].holder,
    ensures
        acct_uniq(s.update(i, e)),
        acct_of(s.update(i, e), e.holder) == Some(e.data),
        forall|w: AccountId| w != e.holder ==> acct_of(s.update(i, e), w) == acct_of(s, w),
{
    let t = s.update(i, e);
    assert forall|i2: int, j2: int| 0 <= i2 < j2 < t.len() implies t[i2].holder != t[j2].holder by {
        assert(t[i2].holder == s[i2].holder);
        assert(t[j2].holder == s[j2].holder);
    }
    lemma_acct_at(t, i);
    assert forall|w: AccountId| w != e.holder implies acct_of(t, w) == acct_of(s, w) by {
        if acct_has(s, w) {
            let k = acct_idx(s, w);
            assert(0 <= k < s.len() && s[k].holder == w);
            assert(k != i);
            assert(t[k] == s[k]);
            lemma_acct_at(t, k);
            lemma_acct_at(s, k);
        } else {
            if acct_has(t, w) {
                let k = acct_idx(t, w);
                assert(0 <= k < t.len() && t[k].holder == w);
                assert(k != i);
                assert(s[k].holder == w);
                assert(false);
            }
        }
    }
}

/// Adding a record for a new holder leaves every other holder's record as it
/// was.
pub proof fn lemma_acct_push(s: Seq<AccountEntry>, e: AccountEntry)
    requires
        acct_uniq(s),
        !acct_has(s, e.holder),
    ensures
        acct_uniq(s.push(e)),
        acct_of(s.push(e), e.holder) == Some(e.data),
        forall|w: AccountId| w != e.holder ==> acct_of(s.push(e), w) == acct_of(s, w),
{
    let t = s.push(e);
    let n = s.len() as int;
    assert forall|i2: int, j2: int| 0 <= i2 < j2 < t.len() implies t[i2].holder != t[j2].holder by {
        if j2 < n {
            assert(t[i2] == s[i2]);
            assert(t[j2] == s[j2]);
        } else {
            assert(t[i2] == s[i2]);
            assert(s[i2].holder != e.holder);
        }
    }
    lemma_acct_at(t, n);
    assert forall|w: AccountId| w != e.holder implies acct_of(t, w) == acct_of(s, w) by {
        if acct_has(s, w) {
            let k = acct_idx(s, w);
            assert(0 <= k < s.len() && s[k].holder == w);
            assert(t[k] == s[k]);
            lemma_acct_at(t, k);
            lemma_acct_at(s, k);
        } else {
            if acct_has(t, w) {
                let k = acct_idx(t, w);
                assert(0 <= k < t.len() && t[k].holder == w);
                assert(k != n);
                assert(s[k].holder == w);
                assert(false);
            }
        }
    }
}

/// Removing one holder's record leaves every other holder's record as it was.
pub proof fn lemma_acct_remove(s: Seq<AccountEntry>, i: int)
    requires
        acct_uniq(s),
        0 <= i < s.len(),
    ensures
        acct_uniq(s.remove(i)),
        acct_of(s.remove(i), s[i].holder) == None::<crate::types::AssetBalance>,
        forall|w: AccountId| w != s[i].holder ==> acct_of(s.remove(i), w) == acct_of(s, w),
{
    let t = s.remove(i);
    let who = s[i].holder;
    assert forall|i2: int, j2: int| 0 <= i2 < j2 < t.len() implies t[i2].holder != t[j2].holder by {
        let i3 = if i2 < i {
            i2
        } else {
            i2 + 1
        };
        let j3 = if j2 < i {
            j2
        } else {
            j2 + 1
        };
        assert(t[i2] == s[i3]);
        assert(t[j2] == s[j3]);
    }
    assert forall|k: int| 0 <= k < t.len() implies t[k].holder != who by {
        let k3 = if k < i {
            k
        } else {
            k + 1
        };
        assert(t[k] == s[k3]);
        if k3 < i {
            assert(s[k3].holder != s[i].holder);
        } else {
            assert(s[i].holder != s[k3].holder);
        }
    }
    assert(!acct_has(t, who));
    assert forall|w: AccountId| w != who implies acct_of(t, w) == acct_of(s, w) by {
        if acct_has(s, w) {
            let k = acct_idx(s, w);
            assert(0 <= k < s.len() && s[k].holder == w);
            assert(k != i);
            let k2 = if k < i {
                k
            } else {
                k - 1
            };
            assert(t[k2] == s[k]);
            lemma_acct_at(t, k2);
            lemma_acct_at(s, k);
        } else {
            if acct_has(t, w) {
                let k = acct_idx(t, w);
                assert(0 <= k < t.len() && t[k].holder == w);
                let k3 = if k < i {
                    k
                } else {
                    k + 1
                };
                assert(t[k] == s[k3]);
                assert(acct_has(s, w));
                assert(false);
            }
        }
    }
}

// ---------------------------------------------------------------------------
// The approval accessor under mutation.
// ---------------------------------------------------------------------------

/// With unique keys, the record at any index is what the accessor returns for
/// its key.
pub proof fn lemma_appr_at(s: Seq<ApprovalRecord>, i: int)
    requires
        appr_uniq(s),
        0 <= i < s.len(),
    ensures
        appr_has(s, s[i].key),
        appr_idx(s, s[i].key) == i,
        appr_of(s, s[i].key) == Some(s[i].approval),
{
    assert(appr_has(s, s[i].key));
    let k = appr_idx(s, s[i].key);
    assert(0 <= k < s.len() && s[k].key == s[i].key);
    if k != i {
        if k < i {
            assert(s[k].key != s[i].key);
        } else {
            assert(s[i].key != s[k].key);
        }
        assert(false);
    }
}

/// Updating the record of one key leaves every other key's record as it was.
pub proof fn lemma_appr_update(s: Seq<ApprovalRecord>, i: int, e: ApprovalRecord)
    requires
        appr_uniq(s),
        0 <= i < s.len(),
        e.key == s[i].key,
    ensures
        appr_uniq(s.update(i, e)),
        appr_of(s.update(i, e), e.key) == Some(e.approval),
        forall|k: ApprovalKey| k != e.key ==> appr_of(s.update(i, e), k) == appr_of(s, k),
{
    let t = s.update(i, e);
    assert forall|i2: int, j2: int| 0 <= i2 < j2 < t.len() implies t[i2].key != t[j2].key by {
        assert(t[i2].key == s[i2].key);
        assert(t[j2].key == s[j2].key);
    }
    lemma_appr_at(t, i);
    assert forall|k: ApprovalKey| k != e.key implies appr_of(t, k) == appr_of(s, k) by {
        if appr_has(s, k) {
            let m = appr_idx(s, k);
            assert(0 <= m < s.len() && s[m].key == k);
            assert(m != i);
            assert(t[m] == s[m]);
            lemma_appr_at(t, m);
            lemma_appr_at(s, m);
        } else {
            if appr_has(t, k) {
                let m = appr_idx(t, k);
                assert(0 <= m < t.len() && t[m].key == k);
                assert(m != i);
                assert(s[m].key == k);
                assert(false);
            }
        }
    }
}

/// Adding a record under a new key leaves every other key's record as it was.
pub proof fn lemma_appr_push(s: Seq<ApprovalRecord>, e: ApprovalRecord)
    requires
        appr_uniq(s),
        !appr_has(s, e.key),
    ensures
        appr_uniq(s.push(e)),
        appr_of(s.push(e), e.key) == Some(e.approval),
        forall|k: ApprovalKey| k != e.key ==> appr_of(s.push(e), k) == appr_of(s, k),
{
    let t = s.push(e);
    let n = s.len() as int;
    assert forall|i2: int, j2: int| 0 <= i2 < j2 < t.len() implies t[i2].key != t[j2].key by {
        if j2 < n {
            assert(t[i2] == s[i2]);
            assert(t[j2] == s[j2]);
        } else {
            assert(t[i2] == s[i2]);
            assert(s[i2].key != e.key);
        }
    }
    lemma_appr_at(t, n);
    assert forall|k: ApprovalKey| k != e.key implies appr_of(t, k) == appr_of(s, k) by {
        if appr_has(s, k) {
            let m = appr_idx(s, k);
            assert(0 <= m < s.len() && s[m].key == k);
            assert(t[m] == s[m]);
            lemma_appr_at(t, m);
            lemma_appr_at(s, m);
        } else {
            if appr_has(t, k) {
                let m = appr_idx(t, k);
                assert(0 <= m < t.len() && t[m].key == k);
                assert(m != n);
                assert(s[m].key == k);
                assert(false);
            }
        }
    }
}

/// Removing one key's record leaves every other key's record as it was.
pub proof fn lemma_appr_remove(s: Seq<ApprovalRecord>, i: int)
    requires
        appr_uniq(s),
        0 <= i < s.len(),
    ensures
        appr_uniq(s.remove(i)),
        appr_of(s.remove(i), s[i].key) == None::<crate::types::Approval>,
        forall|k: ApprovalKey| k != s[i].key ==> appr_of(s.remove(i), k) == appr_of(s, k),
{
    let t = s.remove(i);
    let key = s[i].key;
    assert forall|i2: int, j2: int| 0 <= i2 < j2 < t.len() implies t[i2].key != t[j2].key by {
        let i3 = if i2 < i {
            i2
        } else {
            i2 + 1
        };
        let j3 = if j2 < i {
            j2
        } else {
            j2 + 1
        };
        assert(t[i2] == s[i3]);
        assert(t[j2] == s[j3]);
    }
    assert forall|m: int| 0 <= m < t.len() implies t[m].key != key by {
        let m3 = if m < i {
            m
        } else {
            m + 1
        };
        assert(t[m] == s[m3]);
        if m3 < i {
            assert(s[m3].key != s[i].key);
        } else {
            assert(s[i].key != s[m3].key);
        }
    }
    assert(!appr_has(t, key));
    assert forall|k: ApprovalKey| k != key implies appr_of(t, k) == appr_of(s, k) by {
        if appr_has(s, k) {
            let m = appr_idx(s, k);
            assert(0 <= m < s.len() && s[m].key == k);
            assert(m != i);
            let m2 = if m < i {
                m
            } else {
                m - 1
            };
            assert(t[m2] == s[m]);
            lemma_appr_at(t, m2);
            lemma_appr_at(s, m);
        } else {
            if appr_has(t, k) {
                let m = appr_idx(t, k);
                assert(0 <= m < t.len() && t[m].key == k);
                let m3 = if m < i {
                    m
                } else {
                    m + 1
                };
                assert(t[m] == s[m3]);
                assert(appr_has(s, k));
                assert(false);
            }
        }
    }
}

// ---------------------------------------------------------------------------
// The asset accessor under mutation.
// ---------------------------------------------------------------------------

/// With unique identifiers, the entry at any index is the one the ledger's
/// accessors look at for its identifier.
pub proof fn lemma_asset_at(p: Pallet, i: int)
    requires
        p.asset_uniq(),
        0 <= i < p.assets@.len(),
    ensures
        p.has_asset(p.assets@[i].id),
        p.asset_i(p.assets@[i].id) == i,
{
    assert(p.has_asset(p.assets@[i].id));
    let k = p.asset_i(p.assets@[i].id);
    assert(0 <= k < p.assets@.len() && p.assets@[k].id == p.assets@[i].id);
    if k != i {
        if k < i {
            assert(p.assets@[k].id != p.assets@[i].id);
        } else {
            assert(p.assets@[i].id != p.assets@[k].id);
        }
        assert(false);
    }
}

/// Replacing the entry of one asset, keeping its identifier, leaves every
/// other asset observably as it was.
pub proof fn lemma_asset_update(pre: Pallet, post: Pallet, i: int)
    requires
        pre.asset_uniq(),
        0 <= i < pre.assets@.len(),
        post.assets@ == pre.assets@.update(i, post.assets@[i]),
        post.assets@[i].id == pre.assets@[i].id,
        post.config == pre.config,
    ensures
        post.asset_uniq(),
        post.has_asset(pre.assets@[i].id),
        post.asset_i(pre.assets@[i].id) == i,
        forall|id2: AssetId| id2 != pre.assets@[i].id ==> post.asset_same(pre, id2),
{
    let id = pre.assets@[i].id;
    assert forall|i2: int, j2: int|
        0 <= i2 < j2 < post.assets@.len() implies post.assets@[i2].id != post.assets@[j2].id by {
        assert(post.assets@[i2].id == pre.assets@[i2].id);
        assert(post.assets@[j2].id == pre.assets@[j2].id);
    }
    lemma_asset_at(post, i);
    assert forall|id2: AssetId| id2 != id implies post.asset_same(pre, id2) by {
        if pre.has_asset(id2) {
            let k = pre.asset_i(id2);
            assert(0 <= k < pre.assets@.len() && pre.assets@[k].id == id2);
            assert(k != i);
            assert(post.assets@[k] == pre.assets@[k]);
            lemma_asset_at(post, k);
            lemma_asset_at(pre, k);
        } else {
            if post.has_asset(id2) {
                let k = post.asset_i(id2);
                assert(0 <= k < post.assets@.len() && post.assets@[k].id == id2);
                assert(k != i);
                assert(pre.assets@[k].id == id2);
                assert(false);
            }
        }
    }
}

/// Adding an entry under a new identifier leaves every other asset observably
/// as it was.
pub proof fn lemma_asset_push(pre: Pallet, post: Pallet)
    requires
        pre.asset_uniq(),
        post.assets@.len() == pre.assets@.len() + 1,
        post.assets@ == pre.assets@.push(post.assets@.last()),
        !pre.has_asset(post.assets@.last().id),
        post.config == pre.config,
    ensures
        post.asset_uniq(),
        post.has_asset(post.assets@.last().id),
        post.asset_i(post.assets@.last().id) == pre.assets@.len(),
        forall|id2: AssetId| id2 != post.assets@.last().id ==> post.asset_same(pre, id2),
{
    let id = post.assets@.last().id;
    let n = pre.assets@.len() as int;
    assert forall|i2: int, j2: int|
        0 <= i2 < j2 < post.assets@.len() implies post.assets@[i2].id != post.assets@[j2].id by {
        if j2 < n {
            assert(post.assets@[i2] == pre.assets@[i2]);
            assert(post.assets@[j2] == pre.assets@[j2]);
        } else {
            assert(post.assets@[i2] == pre.assets@[i2]);
            lemma_asset_at(pre, i2);
            assert(pre.has_asset(pre.assets@[i2].id));
        }
    }
    lemma_asset_at(post, n);
    assert forall|id2: AssetId| id2 != id implies post.asset_same(pre, id2) by {
        if pre.has_asset(id2) {
            let k = pre.asset_i(id2);
            assert(0 <= k < pre.assets@.len() && pre.assets@[k].id == id2);
            assert(post.assets@[k] == pre.assets@[k]);
            lemma_asset_at(post, k);
            lemma_asset_at(pre, k);
        } else {
            if post.has_asset(id2) {
                let k = post.asset_i(id2);
                assert(0 <= k < post.assets@.len() && post.assets@[k].id == id2);
                assert(k != n);
                assert(pre.assets@[k].id == id2);
                assert(false);
            }
        }
    }
}

/// Removing one asset's entry leaves every other asset observably as it was.
pub proof fn lemma_asset_remove(pre: Pallet, post: Pallet, i: int)
    requires
        pre.asset_uniq(),
        0 <= i < pre.assets@.len(),
        post.assets@ == pre.assets@.remove(i),
        post.config == pre.config,
    ensures
        post.asset_uniq(),
        !post.has_asset(pre.assets@[i].id),
        forall|id2: AssetId| id2 != pre.assets@[i].id ==> post.asset_same(pre, id2),
{
    let id = pre.assets@[i].id;
    assert forall|i2: int, j2: int|
        0 <= i2 < j2 < post.assets@.len() implies post.assets@[i2].id != post.assets@[j2].id by {
        let i3 = if i2 < i {
            i2
        } else {
            i2 + 1
        };
        let j3 = if j2 < i {
            j2
        } else {
            j2 + 1
        };
        assert(post.assets@[i2] == pre.assets@[i3]);
        assert(post.assets@[j2] == pre.assets@[j3]);
    }
    assert forall|k: int| 0 <= k < post.assets@.len() implies post.assets@[k].id != id by {
        let k3 = if k < i {
            k
        } else {
            k + 1
        };
        assert(post.assets@[k] == pre.assets@[k3]);
        if k3 < i {
            assert(pre.assets@[k3].id != pre.assets@[i].id);
        } else {
            assert(pre.assets@[i].id != pre.assets@[k3].id);
        }
    }
    assert(!post.has_asset(id));
    assert forall|id2: AssetId| id2 != id implies post.asset_same(pre, id2) by {
        if pre.has_asset(id2) {
            let k = pre.asset_i(id2);
            assert(0 <= k < pre.assets@.len() && pre.assets@[k].id == id2);
            assert(k != i);
            let k2 = if k < i {
                k
            } else {
                k - 1
            };
            assert(post.assets@[k2] == pre.assets@[k]);
            lemma_asset_at(post, k2);
            lemma_asset_at(pre, k);
        } else {
            if post.has_asset(id2) {
                let k = post.asset_i(id2);
                assert(0 <= k < post.assets@.len() && post.assets@[k].id == id2);
                let k3 = if k < i {
                    k
                } else {
                    k + 1
                };
                assert(post.assets@[k] == pre.assets@[k3]);
                assert(pre.has_asset(id2));
                assert(false);
            }
        }
    }
}

} // verus!
