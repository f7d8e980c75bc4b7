//! The executable ledger: the registry of assets, the balances, and the
//! settling of imbalances.

use std::collections::HashMap;
use vstd::prelude::*;
use vstd::std_specs::hash::group_hash_axioms;
use crate::conservation::lemma_burned;
use crate::conservation::lemma_created;
use crate::conservation::lemma_issued;
use crate::conservation::lemma_levy_drains;
use crate::conservation::lemma_paid_out;
use crate::conservation::lemma_sack_one_more;
use crate::conservation::lemma_sacked;
use crate::conservation::lemma_slashed;
use crate::conservation::lemma_transferred;
use crate::conservation::lemma_written_off;
use crate::imbalance::capped;
use crate::imbalance::Imbalance;
use crate::imbalance::ImbalanceKind;
use crate::imbalance::ImbalanceModel;
use crate::imbalance::join;
use crate::imbalance::split;
use crate::model::AssetModel;
use crate::model::drained;
use crate::model::LedgerModel;
use crate::model::levy;
use crate::types::AccountId;
use crate::types::AssetId;
use crate::types::AssetRecord;
use crate::types::Error;
use crate::types::Event;

verus! {

broadcast use group_hash_axioms;

/// One asset as the ledger stores it.
struct AssetState {
    creator: AccountId,
    metadata: Vec<u8>,
    total_supply: u128,
    unsettled: u128,
    balances: HashMap<AccountId, u128>,
}

impl AssetState {
    /// What the stored asset stands for.
    spec fn model(&self) -> AssetModel {
        AssetModel {
            creator: self.creator,
            metadata: self.metadata@,
            total_supply: self.total_supply,
            unsettled: self.unsettled,
            balances: self.balances@,
        }
    }

    /// What `account` holds, and nothing where it has no entry.
    fn balance(&self, account: AccountId) -> (b: u128)
        ensures
            b == self.model().balance(account),
    {
        match self.balances.get(&account) {
            Some(b) => *b,
            None => 0,
        }
    }

    /// Adds `amount` to what `account` holds. The supply is the caller's
    /// business, and so is the log.
    fn mint(&mut self, account: AccountId, amount: u128)
        requires
            old(self).model().balance(account) + amount <= u128::MAX,
        ensures
            final(self).model() == old(self).model().credited(account, amount),
    {
        let before: u128 = self.balance(account);
        self.balances.insert(account, before + amount);
    }

    /// Takes `amount` from what `account` holds.
    fn debit(&mut self, account: AccountId, amount: u128)
        requires
            amount <= old(self).model().balance(account),
        ensures
            final(self).model() == old(self).model().debited(account, amount),
    {
        let before: u128 = self.balance(account);
        self.balances.insert(account, before - amount);
    }

    /// Takes `amount` off the supply, which stops at zero.
    fn reduce_supply(&mut self, amount: u128)
        ensures
            final(self).model() == (AssetModel {
                total_supply: if amount <= old(self).total_supply {
                    (old(self).total_supply - amount) as u128
                } else {
                    0
                },
                ..old(self).model()
            }),
    {
        self.total_supply = self.total_supply.saturating_sub(amount);
    }
}

/// A registry of assets with the balances in each of them and a log of what
/// happened.
pub struct Ledger {
    max_length: u32,
    nonce: AssetId,
    assets: HashMap<AssetId, AssetState>,
    events: Vec<Event>,
}

impl View for Ledger {
    type V = LedgerModel;

    closed spec fn view(&self) -> LedgerModel {
        LedgerModel {
            max_length: self.max_length,
            nonce: self.nonce,
            assets: Map::new(
                |a: AssetId| self.assets@.contains_key(a),
                |a: AssetId| self.assets@[a].model(),
            ),
            events: self.events@,
        }
    }
}

/// A copy of the bytes, in their order.
fn copy_bytes(bytes: &Vec<u8>) -> (copy: Vec<u8>)
    ensures
        copy@ == bytes@,
{
    let mut copy: Vec<u8> = Vec::new();
    let mut i: usize = 0;
    while i < bytes.len()
        invariant
            i <= bytes.len(),
            copy@ == bytes@.take(i as int),
        decreases bytes.len() - i,
    {
        copy.push(bytes[i]);
        i += 1;
        assert(bytes@.take(i as int) =~= bytes@.take(i - 1).push(bytes@[i - 1]));
    }
    assert(bytes@.take(bytes.len() as int) =~= bytes@);
    copy
}

impl Ledger {
    /// Every asset's balances and unsettled funds make up its supply, and no
    /// asset has an id that is still to be given.
    pub open spec fn wf(&self) -> bool {
        self@.wf()
    }

    /// A ledger without assets, which takes metadata of up to `max_length`
    /// bytes.
    pub fn new(max_length: u32) -> (ledger: Ledger)
        ensures
            ledger.wf(),
            ledger@ == LedgerModel::empty(max_length),
    {
        let ledger = Ledger { max_length, nonce: 0, assets: HashMap::new(), events: Vec::new() };
        assert(ledger@.assets =~= Map::empty());
        ledger
    }

    /// Installs `state` as the asset `asset`.
    fn put(&mut self, asset: AssetId, state: AssetState)
        ensures
            final(self)@ == old(self)@.with_asset(asset, state.model()),
    {
        self.assets.insert(asset, state);
        assert(self@.assets =~= old(self)@.assets.insert(asset, state.model()));
    }

    /// Takes the asset `asset` out to work on it; `put` brings it back.
    fn take(&mut self, asset: AssetId) -> (state: AssetState)
        requires
            old(self)@.assets.contains_key(asset),
        ensures
            state.model() == old(self)@.assets[asset],
            final(self)@ == (LedgerModel {
                assets: old(self)@.assets.remove(asset),
                ..old(self)@
            }),
    {
        let state = self.assets.remove(&asset).unwrap();
        assert(self@.assets =~= old(self)@.assets.remove(asset));
        state
    }

    /// Whether an asset has this id.
    pub fn contains(&self, asset: AssetId) -> (known: bool)
        ensures
            known == self@.assets.contains_key(asset),
    {
        self.assets.contains_key(&asset)
    }

    /// The id that the next asset will get.
    pub fn nonce(&self) -> (next: AssetId)
        ensures
            next == self@.nonce,
    {
        self.nonce
    }

    /// The asset's record, where there is such an asset.
    pub fn get(&self, asset: AssetId) -> (record: Option<AssetRecord>)
        ensures
            record.is_some() == self@.assets.contains_key(asset),
            record matches Some(r) ==> {
                &&& r.id == asset
                &&& r.creator == self@.assets[asset].creator
                &&& r.metadata@ == self@.assets[asset].metadata
                &&& r.total_supply == self@.assets[asset].total_supply
            },
    {
        match self.assets.get(&asset) {
            Some(state) => Some(
                AssetRecord {
                    id: asset,
                    creator: state.creator,
                    metadata: copy_bytes(&state.metadata),
                    total_supply: state.total_supply,
                },
            ),
            None => None,
        }
    }

    /// What `account` holds of `asset`: nothing where either is unknown.
    pub fn balance_of(&self, asset: AssetId, account: AccountId) -> (balance: u128)
        ensures
            balance == self@.balance(asset, account),
    {
        match self.assets.get(&asset) {
            Some(state) => state.balance(account),
            None => 0,
        }
    }

    /// How much of `asset` is out in imbalances that are not settled yet.
    pub fn unsettled(&self, asset: AssetId) -> (amount: u128)
        ensures
            amount == self@.unsettled(asset),
    {
        match self.assets.get(&asset) {
            Some(state) => state.unsettled,
            None => 0,
        }
    }

    /// Hands the log over, oldest entry first, and starts a new one. The
    /// assets and balances are not touched.
    pub fn take_events(&mut self) -> (log: Vec<Event>)
        ensures
            log@ == old(self)@.events,
            final(self)@ == (LedgerModel { events: Seq::empty(), ..old(self)@ }),
    {
        let mut log: Vec<Event> = Vec::new();
        std::mem::swap(&mut self.events, &mut log);
        log
    }

    /// The log of what happened, oldest first.
    pub fn events(&self) -> (log: &Vec<Event>)
        ensures
            log@ == self@.events,
    {
        &self.events
    }
}

impl Ledger {
    /// Registers a new asset for `creator`, who gets the whole `supply`, and
    /// logs `Created`. Refused with `InvalidSupply` where `supply` is zero,
    /// with `MetadataTooLong` where the metadata exceeds the bound, and with
    /// `Overflow` where no id is left; a refusal changes nothing.
    pub fn create_asset(&mut self, creator: AccountId, metadata: Vec<u8>, supply: u128) -> (r:
        Result<AssetId, Error>)
        requires
            old(self).wf(),
        ensures
            final(self).wf(),
            match r {
                Ok(id) => {
                    &&& old(self)@.create_refusal(metadata@, supply).is_none()
                    &&& id == old(self)@.nonce
                    &&& final(self)@ == old(self)@.created(creator, metadata@, supply)
                },
                Err(e) => {
                    &&& old(self)@.create_refusal(metadata@, supply) == Some(e)
                    &&& final(self)@ == old(self)@
                },
            },
    {
        if supply == 0 {
            return Err(Error::InvalidSupply);
        }
        if metadata.len() > self.max_length as usize {
            return Err(Error::MetadataTooLong);
        }
        if self.nonce == u64::MAX {
            return Err(Error::Overflow);
        }
        proof {
            lemma_created(self@, creator, metadata@, supply);
        }
        let id: AssetId = self.nonce;
        let mut state = AssetState {
            creator,
            metadata,
            total_supply: supply,
            unsettled: 0,
            balances: HashMap::new(),
        };
        state.mint(creator, supply);
        self.put(id, state);
        self.nonce = id + 1;
        self.events.push(Event::Created { creator, asset_id: id });
        Ok(id)
    }

    /// Destroys `amount` of what `account` holds of `asset`, or all of it
    /// where it holds less, takes the same off the supply, logs `Burned` and
    /// returns what was destroyed. Refused with `UnknownAsset`, and with
    /// `NotOwned` where the account holds nothing; a refusal changes nothing.
    pub fn burn(&mut self, asset: AssetId, account: AccountId, amount: u128) -> (r: Result<
        u128,
        Error,
    >)
        requires
            old(self).wf(),
        ensures
            final(self).wf(),
            match r {
                Ok(actual) => {
                    &&& old(self)@.spend_refusal(asset, account).is_none()
                    &&& actual == capped(amount, old(self)@.balance(asset, account))
                    &&& final(self)@ == old(self)@.burned(asset, account, amount)
                },
                Err(e) => {
                    &&& old(self)@.spend_refusal(asset, account) == Some(e)
                    &&& final(self)@ == old(self)@
                },
            },
    {
        if !self.contains(asset) {
            return Err(Error::UnknownAsset);
        }
        let balance: u128 = self.balance_of(asset, account);
        if balance == 0 {
            return Err(Error::NotOwned);
        }
        proof {
            lemma_burned(self@, asset, account, amount);
        }
        let actual: u128 = if amount <= balance {
            amount
        } else {
            balance
        };
        let mut state = self.take(asset);
        state.debit(account, actual);
        state.reduce_supply(actual);
        let left: u128 = state.total_supply;
        self.put(asset, state);
        self.events.push(Event::Burned { asset_id: asset, owner: account, total_supply: left });
        assert(self@.assets =~= old(self)@.burned(asset, account, amount).assets);
        Ok(actual)
    }

    /// Moves `amount` of `asset` from `from` to `to`, or all that `from`
    /// holds where that is less, logs `Transferred` and returns what was
    /// moved. A transfer to oneself leaves the balance as it was and is logged
    /// all the same. Refused with `UnknownAsset`, and with `NotOwned` where
    /// `from` holds nothing; a refusal changes nothing.
    pub fn transfer(&mut self, asset: AssetId, from: AccountId, to: AccountId, amount: u128) -> (r:
        Result<u128, Error>)
        requires
            old(self).wf(),
        ensures
            final(self).wf(),
            match r {
                Ok(actual) => {
                    &&& old(self)@.spend_refusal(asset, from).is_none()
                    &&& actual == capped(amount, old(self)@.balance(asset, from))
                    &&& final(self)@ == old(self)@.transferred(asset, from, to, amount)
                },
                Err(e) => {
                    &&& old(self)@.spend_refusal(asset, from) == Some(e)
                    &&& final(self)@ == old(self)@
                },
            },
    {
        if !self.contains(asset) {
            return Err(Error::UnknownAsset);
        }
        let balance: u128 = self.balance_of(asset, from);
        if balance == 0 {
            return Err(Error::NotOwned);
        }
        proof {
            lemma_transferred(self@, asset, from, to, amount);
        }
        let actual: u128 = if amount <= balance {
            amount
        } else {
            balance
        };
        let mut state = self.take(asset);
        state.debit(from, actual);
        state.mint(to, actual);
        self.put(asset, state);
        self.events.push(Event::Transferred { asset_id: asset, from, to, amount: actual });
        assert(self@.assets =~= old(self)@.transferred(asset, from, to, amount).assets);
        Ok(actual)
    }
}

impl Ledger {
    /// Adds `amount` to the supply of `asset` and returns it as a surplus, to
    /// be credited to an account. Refused with `UnknownAsset`, and with
    /// `Overflow` where the supply would leave its range; a refusal changes
    /// nothing.
    pub fn issue(&mut self, asset: AssetId, amount: u128) -> (r: Result<Imbalance, Error>)
        requires
            old(self).wf(),
        ensures
            final(self).wf(),
            match r {
                Ok(surplus) => {
                    &&& old(self)@.issue_refusal(asset, amount).is_none()
                    &&& surplus@ == (ImbalanceModel {
                        kind: ImbalanceKind::Positive,
                        amount,
                        asset,
                    })
                    &&& final(self)@ == old(self)@.issued(asset, amount)
                },
                Err(e) => {
                    &&& old(self)@.issue_refusal(asset, amount) == Some(e)
                    &&& final(self)@ == old(self)@
                },
            },
    {
        let supply: u128 = match self.assets.get(&asset) {
            Some(state) => state.total_supply,
            None => {
                return Err(Error::UnknownAsset);
            },
        };
        if amount > u128::MAX - supply {
            return Err(Error::Overflow);
        }
        proof {
            lemma_issued(self@, asset, amount);
        }
        let mut state = self.take(asset);
        state.total_supply = state.total_supply + amount;
        state.unsettled = state.unsettled + amount;
        self.put(asset, state);
        assert(self@.assets =~= old(self)@.issued(asset, amount).assets);
        Ok(Imbalance::new(ImbalanceKind::Positive, amount, asset))
    }

    /// Takes up to `amount` of `asset` from `account`. Returns what was taken
    /// as a deficit, to be burned, and how much of `amount` the account could
    /// not pay. An account that holds nothing, or an unknown asset, gives an
    /// empty deficit and leaves the ledger as it was.
    pub fn slash(&mut self, asset: AssetId, account: AccountId, amount: u128) -> (r: (
        Imbalance,
        u128,
    ))
        requires
            old(self).wf(),
        ensures
            final(self).wf(),
            r.0@ == (ImbalanceModel {
                kind: ImbalanceKind::Negative,
                amount: capped(amount, old(self)@.balance(asset, account)),
                asset,
            }),
            r.1 == amount - capped(amount, old(self)@.balance(asset, account)),
            final(self)@ == old(self)@.slashed(asset, account, amount),
    {
        let balance: u128 = self.balance_of(asset, account);
        let actual: u128 = if amount <= balance {
            amount
        } else {
            balance
        };
        if actual > 0 {
            proof {
                lemma_slashed(self@, asset, account, amount);
            }
            let mut state = self.take(asset);
            state.debit(account, actual);
            state.unsettled = state.unsettled + actual;
            self.put(asset, state);
            assert(self@.assets =~= old(self)@.slashed(asset, account, amount).assets);
        }
        (Imbalance::new(ImbalanceKind::Negative, actual, asset), amount - actual)
    }

    /// Credits what an imbalance holds to `account`, whatever its kind.
    pub(crate) fn pay_out(&mut self, imbalance: Imbalance, account: AccountId)
        requires
            old(self).wf(),
            old(self)@.backing_refusal(imbalance@).is_none(),
        ensures
            final(self).wf(),
            final(self)@ == old(self)@.paid_out(imbalance@.asset, account, imbalance@.amount),
    {
        let asset: AssetId = imbalance.asset();
        let amount: u128 = imbalance.amount();
        proof {
            lemma_paid_out(self@, asset, account, amount);
        }
        let mut state = self.take(asset);
        state.mint(account, amount);
        state.unsettled = state.unsettled - amount;
        self.put(asset, state);
        assert(self@.assets =~= old(self)@.paid_out(asset, account, amount).assets);
    }

    /// Takes what an imbalance holds off the supply, whatever its kind.
    pub(crate) fn write_off(&mut self, imbalance: Imbalance)
        requires
            old(self).wf(),
            old(self)@.backing_refusal(imbalance@).is_none(),
        ensures
            final(self).wf(),
            final(self)@ == old(self)@.written_off(imbalance@.asset, imbalance@.amount),
    {
        let asset: AssetId = imbalance.asset();
        let amount: u128 = imbalance.amount();
        proof {
            lemma_written_off(self@, asset, amount);
        }
        let mut state = self.take(asset);
        state.reduce_supply(amount);
        state.unsettled = state.unsettled - amount;
        self.put(asset, state);
        assert(self@.assets =~= old(self)@.written_off(asset, amount).assets);
    }

    /// Whether the ledger stands behind an imbalance: its asset is known and
    /// at least its amount is unsettled.
    fn backing(&self, imbalance: &Imbalance) -> (r: Result<(), Error>)
        ensures
            match r {
                Ok(()) => self@.backing_refusal(imbalance@).is_none(),
                Err(e) => self@.backing_refusal(imbalance@) == Some(e),
            },
    {
        if !self.contains(imbalance.asset()) {
            return Err(Error::UnknownAsset);
        }
        if imbalance.amount() > self.unsettled(imbalance.asset()) {
            return Err(Error::Overflow);
        }
        Ok(())
    }

    /// Settles a surplus by crediting it to `account`. A deficit is refused
    /// with `CannotResolveNegativeAsCredit`, an imbalance of an asset that the
    /// ledger does not know with `UnknownAsset`, and one that holds more than
    /// the ledger has unsettled with `Overflow`. A refusal changes nothing and
    /// hands the imbalance back.
    pub fn resolve_into_balance(&mut self, imbalance: Imbalance, account: AccountId) -> (r: Result<
        (),
        (Error, Imbalance),
    >)
        requires
            old(self).wf(),
        ensures
            final(self).wf(),
            match r {
                Ok(()) => {
                    &&& old(self)@.credit_refusal(imbalance@).is_none()
                    &&& final(self)@ == old(self)@.paid_out(
                        imbalance@.asset,
                        account,
                        imbalance@.amount,
                    )
                },
                Err((e, back)) => {
                    &&& old(self)@.credit_refusal(imbalance@) == Some(e)
                    &&& back@ == imbalance@
                    &&& final(self)@ == old(self)@
                },
            },
    {
        match imbalance.kind() {
            ImbalanceKind::Negative => {
                return Err((Error::CannotResolveNegativeAsCredit, imbalance));
            },
            ImbalanceKind::Positive => {},
        }
        match self.backing(&imbalance) {
            Err(e) => Err((e, imbalance)),
            Ok(()) => {
                self.pay_out(imbalance, account);
                Ok(())
            },
        }
    }

    /// Settles a deficit by taking it off the supply of its asset. A surplus
    /// is refused with `ImbalanceKindMismatch`, an imbalance of an asset that
    /// the ledger does not know with `UnknownAsset`, and one that holds more
    /// than the ledger has unsettled with `Overflow`. A refusal changes
    /// nothing and hands the imbalance back.
    pub fn resolve_into_burn(&mut self, imbalance: Imbalance) -> (r: Result<(), (Error, Imbalance)>)
        requires
            old(self).wf(),
        ensures
            final(self).wf(),
            match r {
                Ok(()) => {
                    &&& old(self)@.burn_refusal(imbalance@).is_none()
                    &&& final(self)@ == old(self)@.written_off(imbalance@.asset, imbalance@.amount)
                },
                Err((e, back)) => {
                    &&& old(self)@.burn_refusal(imbalance@) == Some(e)
                    &&& back@ == imbalance@
                    &&& final(self)@ == old(self)@
                },
            },
    {
        match imbalance.kind() {
            ImbalanceKind::Positive => {
                return Err((Error::ImbalanceKindMismatch, imbalance));
            },
            ImbalanceKind::Negative => {},
        }
        match self.backing(&imbalance) {
            Err(e) => Err((e, imbalance)),
            Ok(()) => {
                self.write_off(imbalance);
                Ok(())
            },
        }
    }
}

impl Ledger {
    /// Empties every listed account of `asset`. From what each held the
    /// treasury gets `flat_cut`, or all of it where it held less, and the
    /// beneficiary the rest; an account that is empty, or listed a second
    /// time, gives nothing. Nothing is credited before every account has been
    /// emptied. Supply and circulation stay as they were. Refused with
    /// `UnknownAsset`, which changes nothing.
    pub fn sack(
        &mut self,
        asset: AssetId,
        accounts: Vec<AccountId>,
        beneficiary: AccountId,
        treasury: AccountId,
        flat_cut: u128,
    ) -> (r: Result<(), Error>)
        requires
            old(self).wf(),
        ensures
            final(self).wf(),
            match r {
                Ok(()) => {
                    &&& old(self)@.assets.contains_key(asset)
                    &&& final(self)@ == old(self)@.sacked(
                        asset,
                        accounts@,
                        beneficiary,
                        treasury,
                        flat_cut,
                    )
                    &&& final(self)@.assets[asset].circulating()
                        == old(self)@.assets[asset].circulating()
                },
                Err(e) => {
                    &&& e == Error::UnknownAsset
                    &&& !old(self)@.assets.contains_key(asset)
                    &&& final(self)@ == old(self)@
                },
            },
    {
        if !self.contains(asset) {
            return Err(Error::UnknownAsset);
        }
        let ghost before = self@;
        let ghost state = before.assets[asset];
        let mut to_treasury = Imbalance::new(ImbalanceKind::Negative, 0, asset);
        let mut to_beneficiary = Imbalance::new(ImbalanceKind::Negative, 0, asset);
        let mut i: usize = 0;
        proof {
            assert(drained(state.balances, accounts@.take(0)) =~= state.balances);
            assert(before.assets.insert(asset, state) =~= before.assets);
        }
        while i < accounts.len()
            invariant
                i <= accounts.len(),
                self.wf(),
                before.wf(),
                before.assets.contains_key(asset),
                state == before.assets[asset],
                levy(state.balances, accounts@.take(i as int), flat_cut) <= levy(
                    state.balances,
                    accounts@.take(i as int),
                    u128::MAX,
                ),
                state.unsettled + levy(state.balances, accounts@.take(i as int), u128::MAX)
                    <= u128::MAX,
                self@ == before.with_asset(
                    asset,
                    AssetModel {
                        balances: drained(state.balances, accounts@.take(i as int)),
                        unsettled: (state.unsettled + levy(
                            state.balances,
                            accounts@.take(i as int),
                            u128::MAX,
                        )) as u128,
                        ..state
                    },
                ),
                to_treasury@ == (ImbalanceModel {
                    kind: ImbalanceKind::Negative,
                    amount: levy(state.balances, accounts@.take(i as int), flat_cut) as u128,
                    asset,
                }),
                to_beneficiary@ == (ImbalanceModel {
                    kind: ImbalanceKind::Negative,
                    amount: (levy(state.balances, accounts@.take(i as int), u128::MAX) - levy(
                        state.balances,
                        accounts@.take(i as int),
                        flat_cut,
                    )) as u128,
                    asset,
                }),
            decreases accounts.len() - i,
        {
            let account: AccountId = accounts[i];
            proof {
                let listed = accounts@.take(i as int);
                assert(accounts@.take(i + 1) =~= listed.push(account));
                lemma_sack_one_more(state.balances, listed, account, flat_cut);
                lemma_sack_one_more(state.balances, listed, account, u128::MAX);
                lemma_levy_drains(state.balances, listed.push(account), flat_cut);
                lemma_slashed(self@, asset, account, u128::MAX);
            }
            let (taken, _) = self.slash(asset, account, u128::MAX);
            let (cut, rest) = split(taken, flat_cut);
            to_treasury = join(to_treasury, cut);
            to_beneficiary = join(to_beneficiary, rest);
            i += 1;
            assert(self@.assets =~= before.with_asset(
                asset,
                AssetModel {
                    balances: drained(state.balances, accounts@.take(i as int)),
                    unsettled: (state.unsettled + levy(
                        state.balances,
                        accounts@.take(i as int),
                        u128::MAX,
                    )) as u128,
                    ..state
                },
            ).assets);
        }
        proof {
            assert(accounts@.take(i as int) =~= accounts@);
            lemma_sacked(before, asset, accounts@, beneficiary, treasury, flat_cut);
        }
        self.pay_out(to_treasury, treasury);
        self.pay_out(to_beneficiary, beneficiary);
        assert(self@.assets =~= before.sacked(
            asset,
            accounts@,
            beneficiary,
            treasury,
            flat_cut,
        ).assets);
        Ok(())
    }
}

} // verus!
