//! Core data model: balances, asset records, per-account records, approvals,
//! metadata, and the error and consequence taxonomies.

use vstd::prelude::*;

verus! {

/// The units in which balances are recorded.
pub type Balance = u64;

/// Identifier for a class of asset.
pub type AssetId = u64;

/// The identity of a holder: an opaque, comparable, copyable token.
pub type AccountId = u64;

/// Typed failures surfaced to the caller. No operation partially commits: an
/// error anywhere in admissibility checking guarantees zero state mutation.
#[derive(Clone, Copy, PartialEq, Eq, Structural, Debug)]
pub enum Error {
    /// Account balance must be greater than or equal to the transfer amount.
    BalanceLow,
    /// Balance should be non-zero.
    BalanceZero,
    /// The calling account has no permission to do the operation.
    NoPermission,
    /// The given asset ID is unknown.
    Unknown,
    /// The asset, the account, or a respected external freeze forbids the change.
    Frozen,
    /// The asset ID is already taken.
    InUse,
    /// Invalid witness data given.
    BadWitness,
    /// Minimum balance should be non-zero.
    MinBalanceZero,
    /// An arithmetic operation would exceed the balance type's bounds.
    Overflow,
    /// No provider reference exists to allow a non-zero balance of a
    /// non-self-sufficient asset.
    NoProvider,
    /// Invalid metadata given.
    BadMetadata,
    /// No approval exists that would allow the transfer.
    Unapproved,
    /// The source account would not survive the transfer and it needs to stay
    /// alive.
    WouldDie,
    /// The asset in question is unknown (reported by admissibility checks).
    UnknownAsset,
    /// The total supply would underflow.
    Underflow,
    /// Account cannot be created: the first deposit is below the minimum balance.
    BelowMinimum,
    /// Account cannot be created.
    CannotCreate,
    /// The account does not hold the funds to be withdrawn.
    NoFunds,
}

/// One record per asset class.
#[derive(Clone, Copy, PartialEq, Eq, Structural, Debug)]
pub struct AssetDetails {
    /// Can change `owner`, `issuer`, `freezer` and `admin` accounts.
    pub owner: AccountId,
    /// Can mint tokens.
    pub issuer: AccountId,
    /// Can thaw tokens, force transfers and burn tokens from any account.
    pub admin: AccountId,
    /// Can freeze tokens.
    pub freezer: AccountId,
    /// The total supply across all accounts.
    pub supply: Balance,
    /// The balance deposited for this asset; it pays for the record's storage.
    pub deposit: Balance,
    /// The minimum balance any single account may hold.
    pub min_balance: Balance,
    /// If `true`, any account with this asset is given a self-sufficient
    /// reference; otherwise account creation requires a dependent reference.
    pub is_sufficient: bool,
    /// The total number of accounts.
    pub accounts: u32,
    /// The total number of accounts for which a self-sufficient reference was
    /// placed.
    pub sufficients: u32,
    /// The total number of approvals.
    pub approvals: u32,
    /// Whether the asset is frozen for non-admin transfers.
    pub is_frozen: bool,
}

/// Witness data for destroy operations: a snapshot of an asset's lifecycle
/// counters. Destruction is refused when the stored counters have moved since
/// the witness was captured.
#[derive(Clone, Copy, PartialEq, Eq, Structural, Debug)]
pub struct DestroyWitness {
    /// The number of accounts holding the asset.
    pub accounts: u32,
    /// The number of accounts holding the asset with a self-sufficient reference.
    pub sufficients: u32,
    /// The number of transfer-approvals of the asset.
    pub approvals: u32,
}

impl AssetDetails {
    /// Capture the lifecycle counters as a witness for a later destroy call.
    pub fn destroy_witness(&self) -> (w: DestroyWitness)
        ensures
            w.accounts == self.accounts,
            w.sufficients == self.sufficients,
            w.approvals == self.approvals,
    {
        DestroyWitness {
            accounts: self.accounts,
            sufficients: self.sufficients,
            approvals: self.approvals,
        }
    }
}

/// The units of one asset held by one account.
#[derive(Clone, Copy, PartialEq, Eq, Structural, Debug)]
pub struct AssetBalance {
    /// The balance. Never persisted strictly between zero and the asset's
    /// minimum balance; a record with balance zero is never persisted at all.
    pub balance: Balance,
    /// Whether the account is frozen.
    pub is_frozen: bool,
    /// `true` if this balance gave the account a self-sufficient reference,
    /// recorded at creation so that teardown releases the same class.
    pub sufficient: bool,
    /// Additional side-car data owned by collaborators, untouched by the engine.
    pub extra: u64,
}

/// A pair acting as the key of the approvals table.
#[derive(Clone, Copy, PartialEq, Eq, Structural, Debug)]
pub struct ApprovalKey {
    /// The owner of the funds that are being approved.
    pub owner: AccountId,
    /// The party to whom transfer of the funds is being delegated.
    pub delegate: AccountId,
}

/// Data concerning an approval.
#[derive(Clone, Copy, PartialEq, Eq, Structural, Debug)]
pub struct Approval {
    /// The amount of funds approved for transfer from the owner to some
    /// delegated target.
    pub amount: Balance,
    /// The amount reserved on the owner's account to hold this record in
    /// storage.
    pub deposit: Balance,
}

/// Descriptive metadata of an asset class.
#[derive(Debug)]
pub struct AssetMetadata {
    /// The balance deposited for this metadata; it pays for this record.
    pub deposit: Balance,
    /// The user-friendly name of this asset.
    pub name: Vec<u8>,
    /// The ticker symbol of this asset.
    pub symbol: Vec<u8>,
    /// The number of decimals this asset uses to represent one unit.
    pub decimals: u8,
    /// Whether the metadata may be changed by a non-privileged origin.
    pub is_frozen: bool,
}

/// Whether to respect an externally frozen balance or not.
#[derive(Clone, Copy, PartialEq, Eq, Structural, Debug)]
pub enum RespectFrozen {
    /// Do respect it; the freeze hook's melt notification will not be sent.
    Respect,
    /// Don't respect it; the melt notification may be sent.
    Ignore,
}

/// The admissibility of a deposit.
#[derive(Clone, Copy, PartialEq, Eq, Structural, Debug)]
pub enum DepositConsequence {
    /// The deposit would create the account with less than the minimum balance.
    BelowMinimum,
    /// The account cannot be created: the asset is not self-sufficient and the
    /// holder has no provider reference.
    CannotCreate,
    /// The asset record is missing.
    UnknownAsset,
    /// The supply, the balance, or the sufficient-reference count would
    /// overflow.
    Overflow,
    /// The deposit is admissible.
    Success,
}

impl DepositConsequence {
    /// The error a consequence converts to, `Ok` for `Success`.
    pub open spec fn spec_into_result(self) -> Result<(), Error> {
        match self {
            DepositConsequence::BelowMinimum => Err(Error::BelowMinimum),
            DepositConsequence::CannotCreate => Err(Error::CannotCreate),
            DepositConsequence::UnknownAsset => Err(Error::UnknownAsset),
            DepositConsequence::Overflow => Err(Error::Overflow),
            DepositConsequence::Success => Ok(()),
        }
    }

    /// Convert the consequence into a typed failure, `Ok` for `Success`.
    pub fn into_result(self) -> (r: Result<(), Error>)
        ensures
            r == self.spec_into_result(),
    {
        match self {
            DepositConsequence::BelowMinimum => Err(Error::BelowMinimum),
            DepositConsequence::CannotCreate => Err(Error::CannotCreate),
            DepositConsequence::UnknownAsset => Err(Error::UnknownAsset),
            DepositConsequence::Overflow => Err(Error::Overflow),
            DepositConsequence::Success => Ok(()),
        }
    }
}

/// The admissibility of a withdrawal.
#[derive(Clone, Copy, PartialEq, Eq, Structural, Debug)]
pub enum WithdrawConsequence {
    /// The account does not hold the funds to be withdrawn.
    NoFunds,
    /// The withdrawal would kill an account that must stay alive.
    WouldDie,
    /// The asset record is missing.
    UnknownAsset,
    /// The total supply would underflow.
    Underflow,
    /// The externally frozen amount plus the minimum balance overflows.
    Overflow,
    /// The asset, the account, or a respected external freeze forbids it.
    Frozen,
    /// The withdrawal succeeds, but leaves a residue below the minimum balance
    /// which must be swept as well, emptying the account. The payload is that
    /// residue.
    ReducedToZero(Balance),
    /// The withdrawal is admissible as requested.
    Success,
}

impl WithdrawConsequence {
    /// The dust to sweep on success (zero unless `ReducedToZero`), or the error
    /// the consequence converts to.
    pub open spec fn spec_into_result(self) -> Result<Balance, Error> {
        match self {
            WithdrawConsequence::NoFunds => Err(Error::NoFunds),
            WithdrawConsequence::WouldDie => Err(Error::WouldDie),
            WithdrawConsequence::UnknownAsset => Err(Error::UnknownAsset),
            WithdrawConsequence::Underflow => Err(Error::Underflow),
            WithdrawConsequence::Overflow => Err(Error::Overflow),
            WithdrawConsequence::Frozen => Err(Error::Frozen),
            WithdrawConsequence::ReducedToZero(dust) => Ok(dust),
            WithdrawConsequence::Success => Ok(0),
        }
    }

    /// Convert the consequence into the dust to sweep or a typed failure.
    pub fn into_result(self) -> (r: Result<Balance, Error>)
        ensures
            r == self.spec_into_result(),
    {
        match self {
            WithdrawConsequence::NoFunds => Err(Error::NoFunds),
            WithdrawConsequence::WouldDie => Err(Error::WouldDie),
            WithdrawConsequence::UnknownAsset => Err(Error::UnknownAsset),
            WithdrawConsequence::Underflow => Err(Error::Underflow),
            WithdrawConsequence::Overflow => Err(Error::Overflow),
            WithdrawConsequence::Frozen => Err(Error::Frozen),
            WithdrawConsequence::ReducedToZero(dust) => Ok(dust),
            WithdrawConsequence::Success => Ok(0),
        }
    }
}

} // verus!
