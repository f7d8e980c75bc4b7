//! What a ledger is, mathematically, and what each operation makes of it.
//! The executable ledger is specified against these functions.

use vstd::prelude::*;
use crate::imbalance::capped;
use crate::imbalance::ImbalanceKind;
use crate::imbalance::ImbalanceModel;
use crate::tally::held;
use crate::tally::total;
use crate::types::AccountId;
use crate::types::AssetId;
use crate::types::Error;
use crate::types::Event;

verus! {

/// One asset: who created it, its metadata, its supply, the balances in it,
/// and how much of the supply is out in imbalances and not yet settled.
pub struct AssetModel {
    pub creator: AccountId,
    pub metadata: Seq<u8>,
    pub total_supply: u128,
    pub unsettled: u128,
    pub balances: Map<AccountId, u128>,
}

/// The whole ledger.
pub struct LedgerModel {
    pub max_length: u32,
    pub nonce: AssetId,
    pub assets: Map<AssetId, AssetModel>,
    pub events: Seq<Event>,
}

/// The balances after every listed account has been emptied.
pub open spec fn drained(balances: Map<AccountId, u128>, accounts: Seq<AccountId>) -> Map<
    AccountId,
    u128,
> {
    Map::new(
        |a: AccountId| balances.contains_key(a),
        |a: AccountId|
            if accounts.contains(a) {
                0u128
            } else {
                balances[a]
            },
    )
}

/// What the listed accounts give up when each of them pays its balance, but
/// at most `cap`. An account that is listed twice pays once.
pub open spec fn levy(balances: Map<AccountId, u128>, accounts: Seq<AccountId>, cap: u128) -> nat
    decreases accounts.len(),
{
    if accounts.len() == 0 {
        0
    } else {
        let earlier = accounts.drop_last();
        let a = accounts.last();
        levy(balances, earlier, cap) + if earlier.contains(a) {
            0nat
        } else {
            capped(cap, held(balances, a)) as nat
        }
    }
}

impl AssetModel {
    /// The balances and what is unsettled make up the supply.
    pub open spec fn wf(self) -> bool {
        &&& self.balances.dom().finite()
        &&& total(self.balances) + self.unsettled == self.total_supply
    }

    /// What `account` holds.
    pub open spec fn balance(self, account: AccountId) -> u128 {
        held(self.balances, account)
    }

    /// The sum of all balances.
    pub open spec fn circulating(self) -> nat {
        total(self.balances)
    }

    /// The asset with `amount` more in the balance of `account`.
    pub open spec fn credited(self, account: AccountId, amount: u128) -> AssetModel {
        AssetModel {
            balances: self.balances.insert(account, (self.balance(account) + amount) as u128),
            ..self
        }
    }

    /// The asset with `amount` less in the balance of `account`.
    pub open spec fn debited(self, account: AccountId, amount: u128) -> AssetModel {
        AssetModel {
            balances: self.balances.insert(account, (self.balance(account) - amount) as u128),
            ..self
        }
    }
}

impl LedgerModel {
    /// Every asset is consistent and has an id below the next one to be given.
    pub open spec fn wf(self) -> bool {
        &&& self.assets.dom().finite()
        &&& forall|a: AssetId| #[trigger]
            self.assets.contains_key(a) ==> a < self.nonce && self.assets[a].wf()
    }

    /// A ledger without assets.
    pub open spec fn empty(max_length: u32) -> LedgerModel {
        LedgerModel { max_length, nonce: 0, assets: Map::empty(), events: Seq::empty() }
    }

    /// What `account` holds of `asset`; nothing where the asset is unknown.
    pub open spec fn balance(self, asset: AssetId, account: AccountId) -> u128 {
        if self.assets.contains_key(asset) {
            self.assets[asset].balance(account)
        } else {
            0
        }
    }

    /// How much of `asset` is out in imbalances.
    pub open spec fn unsettled(self, asset: AssetId) -> u128 {
        if self.assets.contains_key(asset) {
            self.assets[asset].unsettled
        } else {
            0
        }
    }

    /// The ledger with `asset` replaced and everything else kept.
    pub open spec fn with_asset(self, asset: AssetId, state: AssetModel) -> LedgerModel {
        LedgerModel { assets: self.assets.insert(asset, state), ..self }
    }

    /// The ledger with one more entry in its log.
    pub open spec fn logged(self, event: Event) -> LedgerModel {
        LedgerModel { events: self.events.push(event), ..self }
    }

    /// Why an asset cannot be created, if it cannot.
    pub open spec fn create_refusal(self, metadata: Seq<u8>, supply: u128) -> Option<Error> {
        if supply == 0 {
            Some(Error::InvalidSupply)
        } else if metadata.len() > self.max_length {
            Some(Error::MetadataTooLong)
        } else if self.nonce == u64::MAX {
            Some(Error::Overflow)
        } else {
            None
        }
    }

    /// The ledger after `creator` has created an asset: it has the id that was
    /// next, the creator holds the whole supply, and the next id is one higher.
    pub open spec fn created(self, creator: AccountId, metadata: Seq<u8>, supply: u128) -> LedgerModel {
        LedgerModel {
            nonce: (self.nonce + 1) as u64,
            assets: self.assets.insert(
                self.nonce,
                AssetModel {
                    creator,
                    metadata,
                    total_supply: supply,
                    unsettled: 0,
                    balances: Map::empty().insert(creator, supply),
                },
            ),
            events: self.events.push(Event::Created { creator, asset_id: self.nonce }),
            ..self
        }
    }

    /// Why `account` cannot give up any of `asset`, if it cannot: burning and
    /// transferring are refused on the same grounds.
    pub open spec fn spend_refusal(self, asset: AssetId, account: AccountId) -> Option<Error> {
        if !self.assets.contains_key(asset) {
            Some(Error::UnknownAsset)
        } else if self.balance(asset, account) == 0 {
            Some(Error::NotOwned)
        } else {
            None
        }
    }

    /// The ledger after `account` has burned `amount` of `asset`, or all it
    /// holds where that is less: balance and supply fall by the same amount.
    pub open spec fn burned(self, asset: AssetId, account: AccountId, amount: u128) -> LedgerModel {
        let state = self.assets[asset];
        let actual = capped(amount, state.balance(account));
        let left = (state.total_supply - actual) as u128;
        self.with_asset(
            asset,
            AssetModel { total_supply: left, ..state.debited(account, actual) },
        ).logged(Event::Burned { asset_id: asset, owner: account, total_supply: left })
    }

    /// The ledger after `from` has sent `amount` of `asset` to `to`, or all it
    /// holds where that is less.
    pub open spec fn transferred(
        self,
        asset: AssetId,
        from: AccountId,
        to: AccountId,
        amount: u128,
    ) -> LedgerModel {
        let state = self.assets[asset];
        let actual = capped(amount, state.balance(from));
        self.with_asset(asset, state.debited(from, actual).credited(to, actual)).logged(
            Event::Transferred { asset_id: asset, from, to, amount: actual },
        )
    }

    /// Why `amount` of `asset` cannot be issued, if it cannot.
    pub open spec fn issue_refusal(self, asset: AssetId, amount: u128) -> Option<Error> {
        if !self.assets.contains_key(asset) {
            Some(Error::UnknownAsset)
        } else if self.assets[asset].total_supply + amount > u128::MAX {
            Some(Error::Overflow)
        } else {
            None
        }
    }

    /// The ledger after `amount` of `asset` has been issued: the supply has
    /// grown, and the new funds are unsettled until they are credited.
    pub open spec fn issued(self, asset: AssetId, amount: u128) -> LedgerModel {
        let state = self.assets[asset];
        self.with_asset(
            asset,
            AssetModel {
                total_supply: (state.total_supply + amount) as u128,
                unsettled: (state.unsettled + amount) as u128,
                ..state
            },
        )
    }

    /// The ledger after up to `amount` of `asset` has been taken from
    /// `account`: what was taken is unsettled, the supply is as it was.
    pub open spec fn slashed(self, asset: AssetId, account: AccountId, amount: u128) -> LedgerModel {
        let actual = capped(amount, self.balance(asset, account));
        if actual == 0 {
            self
        } else {
            let state = self.assets[asset];
            self.with_asset(
                asset,
                AssetModel {
                    unsettled: (state.unsettled + actual) as u128,
                    ..state.debited(account, actual)
                },
            )
        }
    }

    /// Why an imbalance cannot be credited to an account, if it cannot. Only a
    /// surplus can, and only as far as the ledger has that much unsettled.
    pub open spec fn credit_refusal(self, imbalance: ImbalanceModel) -> Option<Error> {
        if imbalance.kind == ImbalanceKind::Negative {
            Some(Error::CannotResolveNegativeAsCredit)
        } else {
            self.backing_refusal(imbalance)
        }
    }

    /// Why an imbalance cannot be burned, if it cannot. Only a deficit can,
    /// and only as far as the ledger has that much unsettled.
    pub open spec fn burn_refusal(self, imbalance: ImbalanceModel) -> Option<Error> {
        if imbalance.kind == ImbalanceKind::Positive {
            Some(Error::ImbalanceKindMismatch)
        } else {
            self.backing_refusal(imbalance)
        }
    }

    /// Why the ledger does not stand behind an imbalance, if it does not.
    pub open spec fn backing_refusal(self, imbalance: ImbalanceModel) -> Option<Error> {
        if !self.assets.contains_key(imbalance.asset) {
            Some(Error::UnknownAsset)
        } else if imbalance.amount > self.assets[imbalance.asset].unsettled {
            Some(Error::Overflow)
        } else {
            None
        }
    }

    /// The ledger after `amount` of what was unsettled in `asset` has been
    /// credited to `account`.
    pub open spec fn paid_out(self, asset: AssetId, account: AccountId, amount: u128) -> LedgerModel {
        let state = self.assets[asset];
        self.with_asset(
            asset,
            AssetModel {
                unsettled: (state.unsettled - amount) as u128,
                ..state.credited(account, amount)
            },
        )
    }

    /// The ledger after `amount` of what was unsettled in `asset` has been
    /// taken off the supply.
    pub open spec fn written_off(self, asset: AssetId, amount: u128) -> LedgerModel {
        let state = self.assets[asset];
        self.with_asset(
            asset,
            AssetModel {
                unsettled: (state.unsettled - amount) as u128,
                total_supply: (state.total_supply - amount) as u128,
                ..state
            },
        )
    }

    /// The ledger after the listed accounts have been sacked: each is empty,
    /// the treasury has received from each what it held, up to `flat_cut`, and
    /// the beneficiary all the rest.
    pub open spec fn sacked(
        self,
        asset: AssetId,
        accounts: Seq<AccountId>,
        beneficiary: AccountId,
        treasury: AccountId,
        flat_cut: u128,
    ) -> LedgerModel {
        let state = self.assets[asset];
        let taken = levy(state.balances, accounts, u128::MAX);
        let cuts = levy(state.balances, accounts, flat_cut);
        let emptied = AssetModel { balances: drained(state.balances, accounts), ..state };
        self.with_asset(
            asset,
            emptied.credited(treasury, cuts as u128).credited(beneficiary, (taken - cuts) as u128),
        )
    }
}

} // verus!
