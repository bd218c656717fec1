//! The global laws of the ledger, stated and proved once and for all. Each
//! operation's contract preserves `Pallet::wf`, so by induction these hold
//! after every sequence of operations that starts from a well-formed ledger.

use vstd::prelude::*;
use crate::engine::burn_spec;
use crate::engine::mint_spec;
use crate::engine::refs_after_dec;
use crate::engine::refs_after_inc;
use crate::engine::transfer_spec;
use crate::lemmas::lemma_acct_at;
use crate::lemmas::lemma_suff_count_bounds;
use crate::refs::RefCounter;
use crate::state::bal_sum;
use crate::state::Pallet;
use crate::types::AccountId;
use crate::types::AssetId;
use crate::types::Balance;
use crate::types::Error;
use crate::types::RespectFrozen;

verus! {

/// Supply conservation: in every well-formed ledger, an asset's total supply
/// equals the sum of the balances of all its live account records. Every
/// operation's contract preserves well-formedness, so this holds at every
/// point of every sequence of mints, burns and transfers.
pub proof fn lemma_supply_conservation(l: Pallet, id: AssetId)
    requires
        l.wf(),
        l.has_asset(id),
    ensures
        l.details_of(id).supply as int == bal_sum(l.assets@[l.asset_i(id)].accounts@),
        forall|k: int|
            0 <= k < l.assets@[l.asset_i(id)].accounts@.len() ==> l.account_of(
                id,
                #[trigger] l.assets@[l.asset_i(id)].accounts@[k].holder,
            ) == Some(l.assets@[l.asset_i(id)].accounts@[k].data),
{
    let ai = l.asset_i(id);
    assert(crate::state::entry_wf(l.assets@[ai]));
    assert forall|k: int|
        0 <= k < l.assets@[ai].accounts@.len() implies l.account_of(
        id,
        #[trigger] l.assets@[ai].accounts@[k].holder,
    ) == Some(l.assets@[ai].accounts@[k].data) by {
        lemma_acct_at(l.assets@[ai].accounts@, k);
    }
}

/// No sub-minimum dust: no live account record ever holds a balance strictly
/// between zero and its asset's minimum balance — every persisted balance is
/// at least the minimum, which itself is positive.
pub proof fn lemma_no_sub_minimum_dust(l: Pallet, id: AssetId, who: AccountId)
    requires
        l.wf(),
        l.account_of(id, who) is Some,
    ensures
        l.account_of(id, who)->0.balance >= l.details_of(id).min_balance,
        l.details_of(id).min_balance > 0,
{
    let ai = l.asset_i(id);
    assert(crate::state::entry_wf(l.assets@[ai]));
    let s = l.assets@[ai].accounts@;
    let k = crate::state::acct_idx(s, who);
    assert(crate::state::acct_has(s, who));
    assert(0 <= k < s.len() && s[k].holder == who);
}

/// The lifecycle counters are consistent: the count of self-sufficient
/// records never exceeds the count of all records.
pub proof fn lemma_sufficients_bounded(l: Pallet, id: AssetId)
    requires
        l.wf(),
        l.has_asset(id),
    ensures
        l.details_of(id).sufficients <= l.details_of(id).accounts,
{
    let ai = l.asset_i(id);
    assert(crate::state::entry_wf(l.assets@[ai]));
    lemma_suff_count_bounds(l.assets@[ai].accounts@);
}

/// Transfer idempotence of zero: a transfer of amount zero reports success
/// with amount zero and mutates nothing, whatever its other arguments.
pub proof fn lemma_zero_transfer_is_noop(
    pre: Pallet,
    post: Pallet,
    cpre: RefCounter,
    cpost: RefCounter,
    frozen: Option<Balance>,
    id: AssetId,
    source: AccountId,
    dest: AccountId,
    maybe_need_admin: Option<AccountId>,
    keep_alive: bool,
    respect: RespectFrozen,
    best_effort: bool,
    burn_dust: bool,
    r: Result<Balance, Error>,
)
    requires
        transfer_spec(
            pre,
            post,
            cpre,
            cpost,
            frozen,
            id,
            source,
            dest,
            0,
            maybe_need_admin,
            keep_alive,
            respect,
            best_effort,
            burn_dust,
            r,
        ),
    ensures
        r == Ok::<Balance, Error>(0),
        post == pre,
        cpost == cpre,
{
}

/// Best-effort burn cap: asking to burn more than the decreasable balance
/// with best effort burns exactly the decreasable balance and reports that
/// amount, never erroring.
///
/// The freeze-related corners on which a best-effort burn still fails are
/// excluded by hypothesis: an externally frozen amount whose sum with the
/// minimum balance overflows, a respected frozen requirement already violated
/// by the current balance, a keep-alive burn from a holder with no record,
/// and a failing admin check.
pub proof fn lemma_best_effort_burn_cap(
    pre: Pallet,
    post: Pallet,
    cpre: RefCounter,
    cpost: RefCounter,
    frozen: Option<Balance>,
    id: AssetId,
    target: AccountId,
    amount: Balance,
    maybe_check_admin: Option<AccountId>,
    keep_alive: bool,
    respect: RespectFrozen,
    r: Result<Balance, Error>,
)
    requires
        pre.wf(),
        burn_spec(
            pre,
            post,
            cpre,
            cpost,
            frozen,
            id,
            target,
            amount,
            maybe_check_admin,
            keep_alive,
            respect,
            true,
            r,
        ),
        pre.decreasable_s(frozen, id, target, keep_alive, respect) is Ok,
        amount > pre.decreasable_s(frozen, id, target, keep_alive, respect)->Ok_0,
        amount > 0,
        maybe_check_admin is Some ==> maybe_check_admin->0 == pre.details_of(id).admin,
        frozen is Some ==> frozen->0 + pre.details_of(id).min_balance <= Balance::MAX,
        (respect == RespectFrozen::Respect && frozen is Some)
            ==> crate::state::account_or_default(pre.account_of(id, target)).balance >= frozen->0
            + pre.details_of(id).min_balance,
        keep_alive ==> pre.account_of(id, target) is Some,
    ensures
        r == Ok::<Balance, Error>(pre.decreasable_s(frozen, id, target, keep_alive, respect)->Ok_0),
{
    let cap = pre.decreasable_s(frozen, id, target, keep_alive, respect)->Ok_0;
    let ai = pre.asset_i(id);
    assert(crate::state::entry_wf(pre.assets@[ai]));
    if pre.account_of(id, target) is Some {
        let s = pre.assets@[ai].accounts@;
        let k = crate::state::acct_idx(s, target);
        lemma_acct_at(s, k);
        crate::lemmas::lemma_bal_sum_member(s, k);
    }
}

/// Reference-count symmetry, abstractly: placing a reference of one class and
/// later releasing a reference of the same class returns every holder's
/// counts to what they were, provided the counter was not saturated. No
/// release happens twice: the release acts on the counter state the placement
/// produced.
pub proof fn lemma_refs_inc_dec_cancel(
    c0: RefCounter,
    c1: RefCounter,
    c2: RefCounter,
    who: AccountId,
    sufficient: bool,
)
    requires
        c1.entry_of(who) == refs_after_inc(c0, who, sufficient),
        c1.same_except(c0, who),
        c2.entry_of(who) == refs_after_dec(c1, who, sufficient),
        c2.same_except(c1, who),
        sufficient ==> c0.sufficients_of(who) < u64::MAX,
        !sufficient ==> c0.consumers_of(who) < u64::MAX,
    ensures
        forall|w: AccountId| c2.entry_of(w) == c0.entry_of(w),
{
    assert forall|w: AccountId| c2.entry_of(w) == c0.entry_of(w) by {
        if w != who {
            assert(c2.entry_of(w) == c1.entry_of(w));
            assert(c1.entry_of(w) == c0.entry_of(w));
        }
    }
}

/// Reference-count symmetry, through the engine: a mint that creates an
/// account record places one reference, recording its class in the record,
/// and a burn that later empties the record releases a reference of that same
/// class — so the two together leave every holder's counts exactly as they
/// were.
pub proof fn lemma_create_destroy_refs_roundtrip(
    p0: Pallet,
    p1: Pallet,
    p2: Pallet,
    c0: RefCounter,
    c1: RefCounter,
    c2: RefCounter,
    frozen: Option<Balance>,
    id: AssetId,
    who: AccountId,
    mint_amount: Balance,
    burn_amount: Balance,
    maybe_check_issuer: Option<AccountId>,
    maybe_check_admin: Option<AccountId>,
    keep_alive: bool,
    respect: RespectFrozen,
    best_effort: bool,
    r2: Result<Balance, Error>,
)
    requires
        p0.wf(),
        mint_spec(p0, p1, c0, c1, id, who, mint_amount, maybe_check_issuer, Ok(())),
        burn_spec(
            p1,
            p2,
            c1,
            c2,
            frozen,
            id,
            who,
            burn_amount,
            maybe_check_admin,
            keep_alive,
            respect,
            best_effort,
            r2,
        ),
        mint_amount > 0,
        burn_amount > 0,
        p0.balance_of(id, who) == 0,
        r2 is Ok,
        p2.account_of(id, who) is None,
        p0.details_of(id).is_sufficient ==> c0.sufficients_of(who) < u64::MAX,
        !p0.details_of(id).is_sufficient ==> c0.consumers_of(who) < u64::MAX,
    ensures
        forall|w: AccountId| c2.entry_of(w) == c0.entry_of(w),
{
    let sufficient = p0.details_of(id).is_sufficient;
    assert(p0.has_asset(id));
    if p0.account_of(id, who) is Some {
        let ai = p0.asset_i(id);
        assert(crate::state::entry_wf(p0.assets@[ai]));
        let s = p0.assets@[ai].accounts@;
        let k = crate::state::acct_idx(s, who);
        assert(crate::state::acct_has(s, who));
        assert(0 <= k < s.len() && s[k].holder == who);
        assert(false);
    }
    assert(p1.account_of(id, who)->0.sufficient == sufficient);
    lemma_refs_inc_dec_cancel(c0, c1, c2, who, sufficient);
}


/// Approval round-trip, first half: spending exactly the approved amount
/// through an approved transfer that goes through leaves the allowance Absent
/// and returns the deposit reserved for it.
pub proof fn lemma_full_spend_clears_approval(
    pre: Pallet,
    post: Pallet,
    cpre: RefCounter,
    cpost: RefCounter,
    frozen: Option<Balance>,
    id: AssetId,
    owner: AccountId,
    delegate: AccountId,
    destination: AccountId,
    r: Result<Option<Balance>, Error>,
)
    requires
        pre.wf(),
        pre.approval_of(id, crate::types::ApprovalKey { owner, delegate }) is Some,
        crate::approvals::transfer_approved_spec(
            pre,
            post,
            cpre,
            cpost,
            frozen,
            id,
            owner,
            delegate,
            destination,
            pre.approval_of(id, crate::types::ApprovalKey { owner, delegate })->0.amount,
            r,
        ),
        r is Ok,
    ensures
        r == Ok::<Option<Balance>, Error>(
            Some(pre.approval_of(id, crate::types::ApprovalKey { owner, delegate })->0.deposit),
        ),
        post.approval_of(id, crate::types::ApprovalKey { owner, delegate }) is None,
{
    let key = crate::types::ApprovalKey { owner, delegate };
    lemma_approval_amount_positive(pre, id, key);
}

/// Approval round-trip, second half: spending part of the approved amount
/// through an approved transfer that goes through leaves the allowance Active
/// with exactly the remainder, its deposit still held.
pub proof fn lemma_partial_spend_keeps_remainder(
    pre: Pallet,
    post: Pallet,
    cpre: RefCounter,
    cpost: RefCounter,
    frozen: Option<Balance>,
    id: AssetId,
    owner: AccountId,
    delegate: AccountId,
    destination: AccountId,
    amount: Balance,
    r: Result<Option<Balance>, Error>,
)
    requires
        pre.wf(),
        pre.approval_of(id, crate::types::ApprovalKey { owner, delegate }) is Some,
        0 < amount < pre.approval_of(id, crate::types::ApprovalKey { owner, delegate })->0.amount,
        crate::approvals::transfer_approved_spec(
            pre,
            post,
            cpre,
            cpost,
            frozen,
            id,
            owner,
            delegate,
            destination,
            amount,
            r,
        ),
        r is Ok,
    ensures
        r == Ok::<Option<Balance>, Error>(None),
        post.approval_of(id, crate::types::ApprovalKey { owner, delegate }) == Some(
            crate::types::Approval {
                amount: (pre.approval_of(id, crate::types::ApprovalKey { owner, delegate })->0.amount
                    - amount) as Balance,
                deposit: pre.approval_of(
                    id,
                    crate::types::ApprovalKey { owner, delegate },
                )->0.deposit,
            },
        ),
{
}

/// In a well-formed ledger no allowance record holds amount zero.
pub proof fn lemma_approval_amount_positive(
    l: Pallet,
    id: AssetId,
    key: crate::types::ApprovalKey,
)
    requires
        l.wf(),
        l.approval_of(id, key) is Some,
    ensures
        l.approval_of(id, key)->0.amount > 0,
{
    let ai = l.asset_i(id);
    assert(crate::state::entry_wf(l.assets@[ai]));
    let s = l.assets@[ai].approvals@;
    let k = crate::state::appr_idx(s, key);
    assert(crate::state::appr_has(s, key));
    assert(0 <= k < s.len() && s[k].key == key);
}


} // verus!
