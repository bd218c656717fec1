//! The ledger state: the asset registry with its per-asset account balances,
//! approvals, and metadata, together with the spec-level accessors, the
//! well-formedness invariant, and the read-only queries.

use vstd::prelude::*;
use crate::types::AccountId;
use crate::types::Approval;
use crate::types::ApprovalKey;
use crate::types::AssetBalance;
use crate::types::AssetDetails;
use crate::types::AssetId;
use crate::types::AssetMetadata;
use crate::types::Balance;

verus! {

/// The configured constants of a ledger.
#[derive(Clone, Copy, PartialEq, Eq, Structural, Debug)]
pub struct Config {
    /// The basic amount of funds that must be reserved for an asset.
    pub asset_deposit: Balance,
    /// The basic amount of funds that must be reserved when adding metadata.
    pub metadata_deposit_base: Balance,
    /// The additional funds reserved per byte of metadata stored.
    pub metadata_deposit_per_byte: Balance,
    /// The amount of funds that must be reserved when creating a new approval.
    pub approval_deposit: Balance,
    /// The maximum length of a name or symbol stored for an asset.
    pub string_limit: u32,
}

/// One account's record under one asset.
#[derive(Clone, Copy, PartialEq, Eq, Structural, Debug)]
pub struct AccountEntry {
    /// The holder of the balance.
    pub holder: AccountId,
    /// The record itself.
    pub data: AssetBalance,
}

/// One delegated-transfer allowance under one asset.
#[derive(Clone, Copy, PartialEq, Eq, Structural, Debug)]
pub struct ApprovalRecord {
    /// The (owner, delegate) pair the allowance is keyed by.
    pub key: ApprovalKey,
    /// The allowance itself.
    pub approval: Approval,
}

/// Everything the ledger stores about one asset class.
pub struct AssetEntry {
    /// The asset's identifier.
    pub id: AssetId,
    /// The asset record.
    pub details: AssetDetails,
    /// The live account records; holders are unique, balances at least the
    /// minimum, and their sum is the total supply.
    pub accounts: Vec<AccountEntry>,
    /// The live approvals; (owner, delegate) keys are unique, amounts nonzero.
    pub approvals: Vec<ApprovalRecord>,
    /// Descriptive metadata, if any was set.
    pub metadata: Option<AssetMetadata>,
}

/// The ledger: the balance-transition engine's whole state.
pub struct Pallet {
    /// The configured constants.
    pub config: Config,
    /// One entry per existing asset class; identifiers are unique.
    pub assets: Vec<AssetEntry>,
}

// ---------------------------------------------------------------------------
// Spec-level accessors over the entry sequences.
// ---------------------------------------------------------------------------

/// Account holders occur at most once.
pub open spec fn acct_uniq(s: Seq<AccountEntry>) -> bool {
    forall|i: int, j: int| 0 <= i < j < s.len() ==> s[i].holder != s[j].holder
}

/// Whether `who` has a record in `s`.
pub open spec fn acct_has(s: Seq<AccountEntry>, who: AccountId) -> bool {
    exists|i: int| 0 <= i < s.len() && s[i].holder == who
}

/// The index of `who`'s record (meaningful only when `acct_has`).
pub open spec fn acct_idx(s: Seq<AccountEntry>, who: AccountId) -> int {
    choose|i: int| 0 <= i < s.len() && s[i].holder == who
}

/// The record of `who`, if any.
pub open spec fn acct_of(s: Seq<AccountEntry>, who: AccountId) -> Option<AssetBalance> {
    if acct_has(s, who) {
        Some(s[acct_idx(s, who)].data)
    } else {
        None
    }
}

/// Approval keys occur at most once.
pub open spec fn appr_uniq(s: Seq<ApprovalRecord>) -> bool {
    forall|i: int, j: int| 0 <= i < j < s.len() ==> s[i].key != s[j].key
}

/// Whether `key` has a record in `s`.
pub open spec fn appr_has(s: Seq<ApprovalRecord>, key: ApprovalKey) -> bool {
    exists|i: int| 0 <= i < s.len() && s[i].key == key
}

/// The index of `key`'s record (meaningful only when `appr_has`).
pub open spec fn appr_idx(s: Seq<ApprovalRecord>, key: ApprovalKey) -> int {
    choose|i: int| 0 <= i < s.len() && s[i].key == key
}

/// The allowance under `key`, if any.
pub open spec fn appr_of(s: Seq<ApprovalRecord>, key: ApprovalKey) -> Option<Approval> {
    if appr_has(s, key) {
        Some(s[appr_idx(s, key)].approval)
    } else {
        None
    }
}

/// The record behind an optional account: the all-zero default when absent, as
/// the admissibility checks read it.
pub open spec fn account_or_default(a: Option<AssetBalance>) -> AssetBalance {
    match a {
        Some(x) => x,
        None => AssetBalance { balance: 0, is_frozen: false, sufficient: false, extra: 0 },
    }
}

/// The sum of all balances recorded in `s`.
pub open spec fn bal_sum(s: Seq<AccountEntry>) -> int
    decreases s.len(),
{
    if s.len() == 0 {
        0
    } else {
        bal_sum(s.drop_last()) + s.last().data.balance
    }
}

/// How many records in `s` carry a self-sufficient reference.
pub open spec fn suff_count(s: Seq<AccountEntry>) -> int
    decreases s.len(),
{
    if s.len() == 0 {
        0
    } else {
        suff_count(s.drop_last()) + (if s.last().data.sufficient {
            1int
        } else {
            0int
        })
    }
}

/// The conditions a single asset entry keeps at all times:
/// the minimum balance is positive; holders and approval keys are unique; the
/// total supply equals the sum of the balances; every persisted balance is at
/// least the minimum; the lifecycle counters are exact counts of the live
/// records; and no approval has amount zero.
pub open spec fn entry_wf(e: AssetEntry) -> bool {
    &&& e.details.min_balance > 0
    &&& acct_uniq(e.accounts@)
    &&& appr_uniq(e.approvals@)
    &&& e.details.supply as int == bal_sum(e.accounts@)
    &&& forall|k: int|
        0 <= k < e.accounts@.len() ==> e.accounts@[k].data.balance >= e.details.min_balance
    &&& e.details.accounts as int == e.accounts@.len()
    &&& e.details.sufficients as int == suff_count(e.accounts@)
    &&& e.details.approvals as int == e.approvals@.len()
    &&& forall|k: int| 0 <= k < e.approvals@.len() ==> e.approvals@[k].approval.amount > 0
}

impl Pallet {
    /// Asset identifiers occur at most once.
    pub open spec fn asset_uniq(self) -> bool {
        forall|i: int, j: int|
            0 <= i < j < self.assets@.len() ==> self.assets@[i].id != self.assets@[j].id
    }

    /// The ledger's global well-formedness invariant: identifiers are unique
    /// and every asset entry is well-formed. Established by construction and
    /// preserved by every operation.
    pub open spec fn wf(self) -> bool {
        &&& self.asset_uniq()
        &&& forall|i: int| 0 <= i < self.assets@.len() ==> entry_wf(#[trigger] self.assets@[i])
    }

    /// Whether the asset exists.
    pub open spec fn has_asset(self, id: AssetId) -> bool {
        exists|i: int| 0 <= i < self.assets@.len() && self.assets@[i].id == id
    }

    /// The index of the asset's entry (meaningful only when `has_asset`).
    pub open spec fn asset_i(self, id: AssetId) -> int {
        choose|i: int| 0 <= i < self.assets@.len() && self.assets@[i].id == id
    }

    /// The asset's record (meaningful only when `has_asset`).
    pub open spec fn details_of(self, id: AssetId) -> AssetDetails {
        self.assets@[self.asset_i(id)].details
    }

    /// The account record of `who` under `id`, if both exist.
    pub open spec fn account_of(self, id: AssetId, who: AccountId) -> Option<AssetBalance> {
        if self.has_asset(id) {
            acct_of(self.assets@[self.asset_i(id)].accounts@, who)
        } else {
            None
        }
    }

    /// The balance of `who` under `id`; zero when no record exists.
    pub open spec fn balance_of(self, id: AssetId, who: AccountId) -> Balance {
        match self.account_of(id, who) {
            Some(a) => a.balance,
            None => 0,
        }
    }

    /// The allowance of (owner, delegate) under `id`, if it exists.
    pub open spec fn approval_of(self, id: AssetId, key: ApprovalKey) -> Option<Approval> {
        if self.has_asset(id) {
            appr_of(self.assets@[self.asset_i(id)].approvals@, key)
        } else {
            None
        }
    }

    /// The metadata of `id`, if the asset exists and metadata was set.
    pub open spec fn metadata_of(self, id: AssetId) -> Option<AssetMetadata> {
        if self.has_asset(id) {
            self.assets@[self.asset_i(id)].metadata
        } else {
            None
        }
    }

    /// The total supply of `id`; zero when the asset does not exist.
    pub open spec fn supply_of(self, id: AssetId) -> Balance {
        if self.has_asset(id) {
            self.details_of(id).supply
        } else {
            0
        }
    }

    /// Everything observable about the asset `id` is the same in `self` and
    /// `other`.
    pub open spec fn asset_same(self, other: Pallet, id: AssetId) -> bool {
        &&& self.has_asset(id) == other.has_asset(id)
        &&& (self.has_asset(id) ==> {
            &&& self.details_of(id) == other.details_of(id)
            &&& (forall|w: AccountId| self.account_of(id, w) == other.account_of(id, w))
            &&& (forall|k: ApprovalKey| self.approval_of(id, k) == other.approval_of(id, k))
            &&& self.metadata_of(id) == other.metadata_of(id)
        })
    }

    /// An empty ledger with the given constants.
    pub fn new(config: Config) -> (r: Pallet)
        ensures
            r.wf(),
            r.config == config,
            forall|id: AssetId| !r.has_asset(id),
    {
        Pallet { config, assets: Vec::new() }
    }

    /// Find the index of the asset's entry.
    pub(crate) fn find_asset(&self, id: AssetId) -> (r: Option<usize>)
        ensures
            match r {
                Some(i) => i < self.assets@.len() && self.assets@[i as int].id == id
                    && self.has_asset(id) && (self.asset_uniq() ==> self.asset_i(id) == i as int),
                None => !self.has_asset(id),
            },
    {
        let mut i: usize = 0;
        while i < self.assets.len()
            invariant
                i <= self.assets@.len(),
                forall|j: int| 0 <= j < i ==> self.assets@[j].id != id,
            decreases self.assets@.len() - i,
        {
            if self.assets[i].id == id {
                proof {
                    assert(self.has_asset(id));
                    if self.asset_uniq() {
                        crate::lemmas::lemma_asset_at(*self, i as int);
                    }
                }
                return Some(i);
            }
            i = i + 1;
        }
        None
    }

    /// Get the asset `id` balance of `who`; zero when no record exists.
    pub fn balance(&self, id: AssetId, who: AccountId) -> (r: Balance)
        ensures
            self.wf() ==> r == self.balance_of(id, who),
    {
        let found = self.find_asset(id);
        match found {
            Some(ai) => {
                let entry = &self.assets[ai];
                let acct = find_account(&entry.accounts, who);
                match acct {
                    Some(k) => {
                        proof {
                            if self.wf() {
                                crate::lemmas::lemma_acct_at(entry.accounts@, k as int);
                            }
                        }
                        entry.accounts[k].data.balance
                    },
                    None => 0,
                }
            },
            None => 0,
        }
    }

    /// Get the total supply of the asset `id`; zero when the asset is unknown.
    pub fn total_supply(&self, id: AssetId) -> (r: Balance)
        ensures
            self.wf() ==> r == self.supply_of(id),
    {
        let found = self.find_asset(id);
        match found {
            Some(ai) => self.assets[ai].details.supply,
            None => 0,
        }
    }

    /// Get the minimum balance of the asset `id`; zero when the asset is
    /// unknown.
    pub fn minimum_balance(&self, id: AssetId) -> (r: Balance)
        ensures
            self.wf() ==> r == (if self.has_asset(id) {
                self.details_of(id).min_balance
            } else {
                0
            }),
    {
        let found = self.find_asset(id);
        match found {
            Some(ai) => self.assets[ai].details.min_balance,
            None => 0,
        }
    }

    /// Read the asset record of `id` by value.
    pub fn asset_details(&self, id: AssetId) -> (r: Option<AssetDetails>)
        ensures
            self.wf() ==> r == (if self.has_asset(id) {
                Some(self.details_of(id))
            } else {
                None::<AssetDetails>
            }),
    {
        let found = self.find_asset(id);
        match found {
            Some(ai) => Some(self.assets[ai].details),
            None => None,
        }
    }

    /// Read the whole account record of `who` under `id` by value.
    pub fn account(&self, id: AssetId, who: AccountId) -> (r: Option<AssetBalance>)
        ensures
            self.wf() ==> r == self.account_of(id, who),
    {
        let found = self.find_asset(id);
        match found {
            Some(ai) => {
                let entry = &self.assets[ai];
                let acct = find_account(&entry.accounts, who);
                match acct {
                    Some(k) => {
                        proof {
                            if self.wf() {
                                crate::lemmas::lemma_acct_at(entry.accounts@, k as int);
                            }
                        }
                        Some(entry.accounts[k].data)
                    },
                    None => None,
                }
            },
            None => None,
        }
    }

    /// The side-car payload of `who` under `id`; zero when no record exists.
    pub fn extra(&self, id: AssetId, who: AccountId) -> (r: u64)
        ensures
            self.wf() ==> r == (match self.account_of(id, who) {
                Some(a) => a.extra,
                None => 0,
            }),
    {
        let found = self.account(id, who);
        match found {
            Some(a) => a.extra,
            None => 0,
        }
    }

    /// Read the allowance of (owner, delegate) under `id` by value.
    pub fn approval(&self, id: AssetId, owner: AccountId, delegate: AccountId) -> (r: Option<
        Approval,
    >)
        ensures
            self.wf() ==> r == self.approval_of(id, ApprovalKey { owner, delegate }),
    {
        let found = self.find_asset(id);
        match found {
            Some(ai) => {
                let entry = &self.assets[ai];
                let idx = find_approval(&entry.approvals, ApprovalKey { owner, delegate });
                match idx {
                    Some(k) => {
                        proof {
                            if self.wf() {
                                crate::lemmas::lemma_appr_at(entry.approvals@, k as int);
                            }
                        }
                        Some(entry.approvals[k].approval)
                    },
                    None => None,
                }
            },
            None => None,
        }
    }

    /// Read the metadata of `id`.
    pub fn metadata(&self, id: AssetId) -> (r: Option<&AssetMetadata>)
        ensures
            self.wf() ==> (match r {
                Some(m) => self.metadata_of(id) == Some(*m),
                None => self.metadata_of(id) is None,
            }),
    {
        let found = self.find_asset(id);
        match found {
            Some(ai) => self.assets[ai].metadata.as_ref(),
            None => None,
        }
    }
}

/// Find the index of `who`'s record.
pub(crate) fn find_account(v: &Vec<AccountEntry>, who: AccountId) -> (r: Option<usize>)
    ensures
        match r {
            Some(i) => i < v@.len() && v@[i as int].holder == who,
            None => !acct_has(v@, who),
        },
{
    let mut i: usize = 0;
    while i < v.len()
        invariant
            i <= v@.len(),
            forall|j: int| 0 <= j < i ==> v@[j].holder != who,
        decreases v@.len() - i,
    {
        if v[i].holder == who {
            return Some(i);
        }
        i = i + 1;
    }
    None
}

/// Find the index of `key`'s record.
pub(crate) fn find_approval(v: &Vec<ApprovalRecord>, key: ApprovalKey) -> (r: Option<usize>)
    ensures
        match r {
            Some(i) => i < v@.len() && v@[i as int].key == key,
            None => !appr_has(v@, key),
        },
{
    let mut i: usize = 0;
    while i < v.len()
        invariant
            i <= v@.len(),
            forall|j: int| 0 <= j < i ==> v@[j].key != key,
        decreases v@.len() - i,
    {
        if v[i].key.owner == key.owner && v[i].key.delegate == key.delegate {
            return Some(i);
        }
        i = i + 1;
    }
    None
}

} // verus!
