//! The plain values that the ledger's operations take and return.

use vstd::prelude::*;

verus! {

/// Identifies an account. The ledger gives it no meaning of its own.
pub type AccountId = u64;

/// Identifies an asset. Ids are handed out in increasing order and never reused.
pub type AssetId = u64;

/// Why an operation was refused. Every refusal leaves the ledger as it was.
#[derive(Clone, Copy, Debug, PartialEq, Eq, Structural)]
pub enum Error {
    /// An asset must be created with a supply above zero.
    InvalidSupply,
    /// The metadata is longer than the ledger's bound.
    MetadataTooLong,
    /// No asset has this id.
    UnknownAsset,
    /// The account holds nothing of the asset.
    NotOwned,
    /// Funds that were taken out of a balance cannot be paid out as a credit.
    CannotResolveNegativeAsCredit,
    /// Two imbalances differ in kind or asset, or one has the wrong kind for the operation.
    ImbalanceKindMismatch,
    /// A counter, a supply or an amount would leave its range.
    Overflow,
    /// The caller lacks the privilege or the account that the operation needs.
    Unauthorized,
}

/// One entry of the ledger's log.
#[derive(Clone, Copy, Debug, PartialEq, Eq, Structural)]
pub enum Event {
    /// A new asset exists, and its creator holds all of it.
    Created { creator: AccountId, asset_id: AssetId },
    /// An owner destroyed part of an asset; `total_supply` is what is left of it.
    Burned { asset_id: AssetId, owner: AccountId, total_supply: u128 },
    /// `amount` moved from one account to another.
    Transferred { asset_id: AssetId, from: AccountId, to: AccountId, amount: u128 },
}

/// What a registered asset is, as `Ledger::get` reports it.
#[derive(Debug, PartialEq, Eq)]
pub struct AssetRecord {
    pub id: AssetId,
    pub creator: AccountId,
    pub metadata: Vec<u8>,
    pub total_supply: u128,
}

/// Who asks for an operation: the root, a signed account, or neither.
#[derive(Clone, Copy, Debug, PartialEq, Eq)]
pub struct Caller {
    pub is_root: bool,
    pub account: Option<AccountId>,
}

/// The constants that a pallet is set up with.
#[derive(Clone, Copy, Debug, PartialEq, Eq, Structural)]
pub struct Config {
    /// The longest metadata that an asset may carry, in bytes.
    pub max_length: u32,
    /// The account that collects the treasury's share.
    pub treasury_account: AccountId,
    /// What the treasury takes from each account that is sacked, at most.
    pub treasury_flat_cut: u128,
}

} // verus!
