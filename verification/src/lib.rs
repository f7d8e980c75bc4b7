//! A ledger of fungible assets: a registry of assets with their total supply,
//! the balance of each account in each asset, and imbalances, the values that
//! stand for funds taken out of balances or issued and not yet settled.

pub mod conservation;
pub mod imbalance;
pub mod laws;
pub mod ledger;
pub mod model;
pub mod pallet;
pub mod price;
pub mod tally;
pub mod types;
