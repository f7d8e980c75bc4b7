use asset_ledger::pallet::ensure_root;
use asset_ledger::pallet::ensure_signed;
use asset_ledger::pallet::Pallet;
use asset_ledger::types::Caller;
use asset_ledger::types::Config;
use asset_ledger::types::Error;
use asset_ledger::types::Event;

const ALICE: u64 = 1;
const BOB: u64 = 2;
const CAROL: u64 = 3;
const TREASURY: u64 = 999;

fn signed(who: u64) -> Caller {
    Caller { is_root: false, account: Some(who) }
}

fn root() -> Caller {
    Caller { is_root: true, account: None }
}

fn nobody() -> Caller {
    Caller { is_root: false, account: None }
}

fn pallet() -> Pallet {
    Pallet::new(Config { max_length: 4, treasury_account: TREASURY, treasury_flat_cut: 10 })
}

#[test]
fn origin_checks() {
    assert_eq!(ensure_signed(signed(ALICE)), Ok(ALICE));
    assert_eq!(ensure_signed(nobody()), Err(Error::Unauthorized));
    assert_eq!(ensure_signed(root()), Err(Error::Unauthorized));
    assert_eq!(ensure_root(root()), Ok(()));
    assert_eq!(ensure_root(signed(ALICE)), Err(Error::Unauthorized));
    assert_eq!(ensure_root(nobody()), Err(Error::Unauthorized));
}

#[test]
fn pallet_starts_empty() {
    let p = pallet();
    assert_eq!(p.config().treasury_account, TREASURY);
    assert_eq!(p.config().treasury_flat_cut, 10);
    assert_eq!(p.config().max_length, 4);
    assert_eq!(p.ledger().nonce(), 0);
    assert_eq!(p.price(), None);
}

#[test]
fn mint_needs_a_signer() {
    let mut p = pallet();
    assert_eq!(p.mint(nobody(), vec![], 5), Err(Error::Unauthorized));
    assert_eq!(p.mint(nobody(), vec![], 0), Err(Error::Unauthorized));
    assert_eq!(p.ledger().nonce(), 0);
    assert_eq!(p.mint(signed(ALICE), vec![1, 2, 3, 4, 5], 5), Err(Error::MetadataTooLong));
    assert_eq!(p.mint(signed(ALICE), vec![], 0), Err(Error::InvalidSupply));
    assert_eq!(p.mint(signed(ALICE), vec![7], 5), Ok(0));
    assert_eq!(p.ledger().balance_of(0, ALICE), 5);
    assert_eq!(p.ledger().events()[0], Event::Created { creator: ALICE, asset_id: 0 });
}

#[test]
fn burn_and_transfer_act_for_the_signer() {
    let mut p = pallet();
    assert_eq!(p.mint(signed(ALICE), vec![], 50), Ok(0));
    assert_eq!(p.transfer(signed(ALICE), 0, 20, BOB), Ok(20));
    assert_eq!(p.transfer(nobody(), 0, 20, BOB), Err(Error::Unauthorized));
    assert_eq!(p.transfer(signed(CAROL), 0, 20, BOB), Err(Error::NotOwned));
    assert_eq!(p.transfer(signed(ALICE), 1, 20, BOB), Err(Error::UnknownAsset));
    assert_eq!(p.burn(signed(BOB), 0, 25), Ok(20));
    assert_eq!(p.burn(signed(BOB), 0, 25), Err(Error::NotOwned));
    assert_eq!(p.burn(nobody(), 0, 25), Err(Error::Unauthorized));
    assert_eq!(p.burn(signed(BOB), 4, 25), Err(Error::UnknownAsset));
    assert_eq!(p.ledger().balance_of(0, ALICE), 30);
    assert_eq!(p.ledger().balance_of(0, BOB), 0);
    assert_eq!(p.ledger().get(0).unwrap().total_supply, 30);
    assert_eq!(p.ledger().events().len(), 3);
}

#[test]
fn mint_to_raises_supply_and_balance() {
    let mut p = pallet();
    assert_eq!(p.mint(signed(ALICE), vec![], 50), Ok(0));
    assert_eq!(p.mint_to(signed(ALICE), 0, 5, BOB), Err(Error::Unauthorized));
    assert_eq!(p.mint_to(root(), 1, 5, BOB), Err(Error::UnknownAsset));
    assert_eq!(p.mint_to(root(), 0, u128::MAX - 49, BOB), Err(Error::Overflow));
    assert_eq!(p.mint_to(root(), 0, u128::MAX - 50, BOB), Ok(()));
    assert_eq!(p.ledger().balance_of(0, BOB), u128::MAX - 50);
    assert_eq!(p.ledger().balance_of(0, ALICE), 50);
    assert_eq!(p.ledger().get(0).unwrap().total_supply, u128::MAX);
    assert_eq!(p.ledger().unsettled(0), 0);
}

#[test]
fn slash_gives_a_third_to_the_treasury_and_burns_the_rest() {
    let mut p = pallet();
    assert_eq!(p.mint(signed(ALICE), vec![], 50), Ok(0));
    assert_eq!(p.slash(signed(ALICE), 0, 10, ALICE), Err(Error::Unauthorized));
    assert_eq!(p.slash(root(), 3, 10, ALICE), Err(Error::UnknownAsset));
    assert_eq!(p.slash(root(), 0, 10, ALICE), Ok(10));
    assert_eq!(p.ledger().balance_of(0, ALICE), 40);
    assert_eq!(p.ledger().balance_of(0, TREASURY), 3);
    assert_eq!(p.ledger().get(0).unwrap().total_supply, 43);
    assert_eq!(p.ledger().unsettled(0), 0);
    assert_eq!(p.slash(root(), 0, 100, ALICE), Ok(40));
    assert_eq!(p.ledger().balance_of(0, ALICE), 0);
    assert_eq!(p.ledger().balance_of(0, TREASURY), 16);
    assert_eq!(p.ledger().get(0).unwrap().total_supply, 16);
    assert_eq!(p.slash(root(), 0, 100, BOB), Ok(0));
    assert_eq!(p.ledger().get(0).unwrap().total_supply, 16);
}

#[test]
fn sack_uses_the_configured_treasury_and_cut() {
    let mut p = pallet();
    assert_eq!(p.mint(signed(ALICE), vec![], 150), Ok(0));
    assert_eq!(p.transfer(signed(ALICE), 0, 50, CAROL), Ok(50));
    assert_eq!(p.sack(signed(ALICE), 0, vec![ALICE, BOB, CAROL], BOB), Err(Error::Unauthorized));
    assert_eq!(p.sack(root(), 1, vec![ALICE, BOB, CAROL], BOB), Err(Error::UnknownAsset));
    assert_eq!(p.ledger().balance_of(0, ALICE), 100);
    assert_eq!(p.sack(root(), 0, vec![ALICE, BOB, CAROL], BOB), Ok(()));
    assert_eq!(p.ledger().balance_of(0, ALICE), 0);
    assert_eq!(p.ledger().balance_of(0, CAROL), 0);
    assert_eq!(p.ledger().balance_of(0, TREASURY), 20);
    assert_eq!(p.ledger().balance_of(0, BOB), 130);
    assert_eq!(p.ledger().get(0).unwrap().total_supply, 150);
}

#[test]
fn set_price_keeps_the_last_report() {
    let mut p = pallet();
    assert_eq!(p.mint(signed(ALICE), vec![], 50), Ok(0));
    p.set_price(64_123_450_000_000);
    assert_eq!(p.price(), Some(64_123_450_000_000));
    p.set_price(-1);
    assert_eq!(p.price(), Some(-1));
    assert_eq!(p.ledger().balance_of(0, ALICE), 50);
}
