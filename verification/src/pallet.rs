//! The ledger as callers reach it: every call names its caller, and the calls
//! that change what others hold are for the root alone.

use vstd::prelude::*;
use crate::conservation::lemma_slashed;
use crate::conservation::lemma_written_off;
use crate::imbalance::capped;
use crate::imbalance::ration;
use crate::imbalance::share;
use crate::ledger::Ledger;
use crate::model::LedgerModel;
use crate::types::AccountId;
use crate::types::AssetId;
use crate::types::Caller;
use crate::types::Config;
use crate::types::Error;

verus! {

/// A price as a fixed-point number: the price times 10^9.
pub type FixedPointPrice = i64;

/// A pallet's constants, the state of its ledger, and the price that was
/// last reported to it.
pub struct PalletModel {
    pub config: Config,
    pub ledger: LedgerModel,
    pub price: Option<FixedPointPrice>,
}

/// A ledger with the constants it was set up with.
pub struct Pallet {
    config: Config,
    ledger: Ledger,
    price: Option<FixedPointPrice>,
}

impl View for Pallet {
    type V = PalletModel;

    closed spec fn view(&self) -> PalletModel {
        PalletModel { config: self.config, ledger: self.ledger@, price: self.price }
    }
}

/// Why a call that needs a signed account is refused, if it is.
pub open spec fn signed_refusal(origin: Caller) -> Option<Error> {
    if origin.account.is_none() {
        Some(Error::Unauthorized)
    } else {
        None
    }
}

/// Why a call that needs the root is refused, if it is.
pub open spec fn root_refusal(origin: Caller) -> Option<Error> {
    if !origin.is_root {
        Some(Error::Unauthorized)
    } else {
        None
    }
}

/// The refusal on the caller's account, and behind it that of the operation.
pub open spec fn first_of(caller: Option<Error>, operation: Option<Error>) -> Option<Error> {
    if caller.is_some() {
        caller
    } else {
        operation
    }
}

/// Why an asset cannot be slashed or sacked, if it cannot.
pub open spec fn known_refusal(ledger: LedgerModel, asset: AssetId) -> Option<Error> {
    if !ledger.assets.contains_key(asset) {
        Some(Error::UnknownAsset)
    } else {
        None
    }
}

/// The ledger after the root has slashed `target`: of what was taken a third,
/// rounded down, is with the treasury, and the rest is off the supply.
pub open spec fn slashed_and_shared(
    ledger: LedgerModel,
    asset: AssetId,
    target: AccountId,
    amount: u128,
    treasury: AccountId,
) -> LedgerModel {
    let taken = capped(amount, ledger.balance(asset, target));
    let third = share(taken, 1, 3) as u128;
    ledger.slashed(asset, target, amount).written_off(asset, (taken - third) as u128).paid_out(
        asset,
        treasury,
        third,
    )
}

/// The account that signed, or `Unauthorized` where none did.
pub fn ensure_signed(origin: Caller) -> (r: Result<AccountId, Error>)
    ensures
        match r {
            Ok(who) => origin.account == Some(who),
            Err(e) => signed_refusal(origin) == Some(e),
        },
{
    match origin.account {
        Some(who) => Ok(who),
        None => Err(Error::Unauthorized),
    }
}

/// Passes the root, and refuses everyone else with `Unauthorized`.
pub fn ensure_root(origin: Caller) -> (r: Result<(), Error>)
    ensures
        match r {
            Ok(()) => root_refusal(origin).is_none(),
            Err(e) => root_refusal(origin) == Some(e),
        },
{
    if origin.is_root {
        Ok(())
    } else {
        Err(Error::Unauthorized)
    }
}

impl Pallet {
    /// The ledger is consistent and takes metadata up to the configured
    /// length.
    pub open spec fn wf(&self) -> bool {
        &&& self@.ledger.wf()
        &&& self@.ledger.max_length == self@.config.max_length
    }

    /// A pallet with an empty ledger.
    pub fn new(config: Config) -> (pallet: Pallet)
        ensures
            pallet.wf(),
            pallet@ == (PalletModel {
                config,
                ledger: LedgerModel::empty(config.max_length),
                price: None,
            }),
    {
        Pallet { config, ledger: Ledger::new(config.max_length), price: None }
    }

    /// The constants that the pallet was set up with.
    pub fn config(&self) -> (config: Config)
        ensures
            config == self@.config,
    {
        self.config
    }

    /// The price that was last reported, if any was.
    pub fn price(&self) -> (price: Option<FixedPointPrice>)
        ensures
            price == self@.price,
    {
        self.price
    }

    /// Records the price that the price feed reports; the ledger is not
    /// touched.
    pub fn set_price(&mut self, price: FixedPointPrice)
        ensures
            final(self)@ == (PalletModel { price: Some(price), ..old(self)@ }),
    {
        self.price = Some(price);
    }

    /// The ledger, to read from.
    pub fn ledger(&self) -> (ledger: &Ledger)
        ensures
            ledger@ == self@.ledger,
    {
        &self.ledger
    }

    /// Creates an asset for the account that signed; see
    /// `Ledger::create_asset`. Refused with `Unauthorized` where no account
    /// signed.
    pub fn mint(&mut self, origin: Caller, metadata: Vec<u8>, supply: u128) -> (r: Result<
        AssetId,
        Error,
    >)
        requires
            old(self).wf(),
        ensures
            final(self).wf(),
            final(self)@ == (PalletModel { ledger: final(self)@.ledger, ..old(self)@ }),
            match r {
                Ok(id) => {
                    &&& origin.account.is_some()
                    &&& old(self)@.ledger.create_refusal(metadata@, supply).is_none()
                    &&& id == old(self)@.ledger.nonce
                    &&& final(self)@.ledger == old(self)@.ledger.created(
                        origin.account.unwrap(),
                        metadata@,
                        supply,
                    )
                },
                Err(e) => {
                    &&& first_of(
                        signed_refusal(origin),
                        old(self)@.ledger.create_refusal(metadata@, supply),
                    ) == Some(e)
                    &&& final(self)@ == old(self)@
                },
            },
    {
        let who: AccountId = match ensure_signed(origin) {
            Ok(who) => who,
            Err(e) => {
                return Err(e);
            },
        };
        self.ledger.create_asset(who, metadata, supply)
    }

    /// Burns from what the account that signed holds; see `Ledger::burn`.
    /// Refused with `Unauthorized` where no account signed.
    pub fn burn(&mut self, origin: Caller, asset_id: AssetId, amount: u128) -> (r: Result<
        u128,
        Error,
    >)
        requires
            old(self).wf(),
        ensures
            final(self).wf(),
            final(self)@ == (PalletModel { ledger: final(self)@.ledger, ..old(self)@ }),
            match r {
                Ok(actual) => {
                    &&& origin.account.is_some()
                    &&& old(self)@.ledger.spend_refusal(asset_id, origin.account.unwrap()).is_none()
                    &&& actual == capped(
                        amount,
                        old(self)@.ledger.balance(asset_id, origin.account.unwrap()),
                    )
                    &&& final(self)@.ledger == old(self)@.ledger.burned(
                        asset_id,
                        origin.account.unwrap(),
                        amount,
                    )
                },
                Err(e) => {
                    &&& if origin.account.is_some() {
                        old(self)@.ledger.spend_refusal(asset_id, origin.account.unwrap()) == Some(
                            e,
                        )
                    } else {
                        e == Error::Unauthorized
                    }
                    &&& final(self)@ == old(self)@
                },
            },
    {
        let who: AccountId = match ensure_signed(origin) {
            Ok(who) => who,
            Err(e) => {
                return Err(e);
            },
        };
        self.ledger.burn(asset_id, who, amount)
    }

    /// Transfers from the account that signed to `to`; see
    /// `Ledger::transfer`. Refused with `Unauthorized` where no account
    /// signed.
    pub fn transfer(&mut self, origin: Caller, asset_id: AssetId, amount: u128, to: AccountId) -> (r:
        Result<u128, Error>)
        requires
            old(self).wf(),
        ensures
            final(self).wf(),
            final(self)@ == (PalletModel { ledger: final(self)@.ledger, ..old(self)@ }),
            match r {
                Ok(actual) => {
                    &&& origin.account.is_some()
                    &&& old(self)@.ledger.spend_refusal(asset_id, origin.account.unwrap()).is_none()
                    &&& actual == capped(
                        amount,
                        old(self)@.ledger.balance(asset_id, origin.account.unwrap()),
                    )
                    &&& final(self)@.ledger == old(self)@.ledger.transferred(
                        asset_id,
                        origin.account.unwrap(),
                        to,
                        amount,
                    )
                },
                Err(e) => {
                    &&& if origin.account.is_some() {
                        old(self)@.ledger.spend_refusal(asset_id, origin.account.unwrap()) == Some(
                            e,
                        )
                    } else {
                        e == Error::Unauthorized
                    }
                    &&& final(self)@ == old(self)@
                },
            },
    {
        let who: AccountId = match ensure_signed(origin) {
            Ok(who) => who,
            Err(e) => {
                return Err(e);
            },
        };
        self.ledger.transfer(asset_id, who, to, amount)
    }

    /// Issues `amount` of `asset_id` and credits it to `beneficiary`: supply
    /// and balance grow by the same amount, and nothing is left unsettled.
    /// For the root alone; refused with `Unauthorized`, `UnknownAsset`, or
    /// `Overflow` where the supply would leave its range.
    pub fn mint_to(
        &mut self,
        origin: Caller,
        asset_id: AssetId,
        amount: u128,
        beneficiary: AccountId,
    ) -> (r: Result<(), Error>)
        requires
            old(self).wf(),
        ensures
            final(self).wf(),
            final(self)@ == (PalletModel { ledger: final(self)@.ledger, ..old(self)@ }),
            match r {
                Ok(()) => {
                    &&& root_refusal(origin).is_none()
                    &&& old(self)@.ledger.issue_refusal(asset_id, amount).is_none()
                    &&& final(self)@.ledger == old(self)@.ledger.issued(asset_id, amount).paid_out(
                        asset_id,
                        beneficiary,
                        amount,
                    )
                },
                Err(e) => {
                    &&& first_of(
                        root_refusal(origin),
                        old(self)@.ledger.issue_refusal(asset_id, amount),
                    ) == Some(e)
                    &&& final(self)@ == old(self)@
                },
            },
    {
        match ensure_root(origin) {
            Ok(()) => {},
            Err(e) => {
                return Err(e);
            },
        }
        match self.ledger.issue(asset_id, amount) {
            Ok(surplus) => {
                self.ledger.pay_out(surplus, beneficiary);
                Ok(())
            },
            Err(e) => Err(e),
        }
    }

    /// Takes up to `amount` of `asset_id` from `target` and returns what was
    /// taken. A third of it, rounded down, goes to the treasury account; the
    /// rest is burned, so the supply falls by it. For the root alone; refused
    /// with `Unauthorized` or `UnknownAsset`.
    pub fn slash(&mut self, origin: Caller, asset_id: AssetId, amount: u128, target: AccountId) -> (r:
        Result<u128, Error>)
        requires
            old(self).wf(),
        ensures
            final(self).wf(),
            final(self)@ == (PalletModel { ledger: final(self)@.ledger, ..old(self)@ }),
            match r {
                Ok(taken) => {
                    &&& root_refusal(origin).is_none()
                    &&& old(self)@.ledger.assets.contains_key(asset_id)
                    &&& taken == capped(amount, old(self)@.ledger.balance(asset_id, target))
                    &&& final(self)@.ledger == slashed_and_shared(
                        old(self)@.ledger,
                        asset_id,
                        target,
                        amount,
                        old(self)@.config.treasury_account,
                    )
                },
                Err(e) => {
                    &&& first_of(root_refusal(origin), known_refusal(old(self)@.ledger, asset_id))
                        == Some(e)
                    &&& final(self)@ == old(self)@
                },
            },
    {
        match ensure_root(origin) {
            Ok(()) => {},
            Err(e) => {
                return Err(e);
            },
        }
        if !self.ledger.contains(asset_id) {
            return Err(Error::UnknownAsset);
        }
        proof {
            lemma_slashed(self.ledger@, asset_id, target, amount);
        }
        let (deficit, _) = self.ledger.slash(asset_id, target, amount);
        let taken: u128 = deficit.amount();
        let (to_treasury, to_burn) = ration(deficit, 1, 3);
        proof {
            lemma_written_off(self.ledger@, asset_id, to_burn@.amount);
        }
        self.ledger.write_off(to_burn);
        self.ledger.pay_out(to_treasury, self.config.treasury_account);
        Ok(taken)
    }

    /// Sacks the listed accounts in favour of `beneficiary`, with the
    /// treasury account and the flat cut that the pallet was set up with; see
    /// `Ledger::sack`. For the root alone; refused with `Unauthorized` or
    /// `UnknownAsset`.
    pub fn sack(
        &mut self,
        origin: Caller,
        asset_id: AssetId,
        sacked_accounts: Vec<AccountId>,
        beneficiary: AccountId,
    ) -> (r: Result<(), Error>)
        requires
            old(self).wf(),
        ensures
            final(self).wf(),
            final(self)@ == (PalletModel { ledger: final(self)@.ledger, ..old(self)@ }),
            match r {
                Ok(()) => {
                    &&& root_refusal(origin).is_none()
                    &&& old(self)@.ledger.assets.contains_key(asset_id)
                    &&& final(self)@.ledger == old(self)@.ledger.sacked(
                        asset_id,
                        sacked_accounts@,
                        beneficiary,
                        old(self)@.config.treasury_account,
                        old(self)@.config.treasury_flat_cut,
                    )
                },
                Err(e) => {
                    &&& first_of(root_refusal(origin), known_refusal(old(self)@.ledger, asset_id))
                        == Some(e)
                    &&& final(self)@ == old(self)@
                },
            },
    {
        match ensure_root(origin) {
            Ok(()) => {},
            Err(e) => {
                return Err(e);
            },
        }
        self.ledger.sack(
            asset_id,
            sacked_accounts,
            beneficiary,
            self.config.treasury_account,
            self.config.treasury_flat_cut,
        )
    }
}

} // verus!
