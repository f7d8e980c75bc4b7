use asset_ledger::imbalance::merge;
use asset_ledger::imbalance::ration;
use asset_ledger::imbalance::split;
use asset_ledger::imbalance::ImbalanceKind;
use asset_ledger::ledger::Ledger;
use asset_ledger::types::Error;
use asset_ledger::types::Event;

const ALICE: u64 = 1;
const BOB: u64 = 2;
const CAROL: u64 = 3;
const TREASURY: u64 = 100;
const HEIR: u64 = 200;

#[test]
fn create_asset_credits_creator_and_logs() {
    let mut ledger = Ledger::new(8);
    let id = ledger.create_asset(ALICE, vec![1, 2, 3], 500).unwrap();
    assert_eq!(id, 0);
    assert_eq!(ledger.nonce(), 1);
    assert_eq!(ledger.balance_of(id, ALICE), 500);
    assert_eq!(ledger.balance_of(id, BOB), 0);
    let record = ledger.get(id).unwrap();
    assert_eq!(record.id, 0);
    assert_eq!(record.creator, ALICE);
    assert_eq!(record.metadata, vec![1, 2, 3]);
    assert_eq!(record.total_supply, 500);
    assert_eq!(ledger.events().len(), 1);
    assert_eq!(ledger.events()[0], Event::Created { creator: ALICE, asset_id: 0 });
    let second = ledger.create_asset(BOB, vec![], 1).unwrap();
    assert_eq!(second, 1);
}

#[test]
fn create_asset_with_zero_supply_registers_nothing() {
    let mut ledger = Ledger::new(8);
    assert_eq!(ledger.create_asset(ALICE, vec![], 0), Err(Error::InvalidSupply));
    assert_eq!(ledger.nonce(), 0);
    assert!(ledger.get(0).is_none());
    assert!(ledger.events().is_empty());
}

#[test]
fn create_asset_refuses_long_metadata() {
    let mut ledger = Ledger::new(2);
    assert_eq!(ledger.create_asset(ALICE, vec![0, 1, 2], 5), Err(Error::MetadataTooLong));
    assert_eq!(ledger.create_asset(ALICE, vec![0, 1], 5), Ok(0));
    assert_eq!(ledger.create_asset(ALICE, vec![0, 1, 2], 0), Err(Error::InvalidSupply));
}

#[test]
fn burn_more_than_held_burns_what_is_held() {
    let mut ledger = Ledger::new(8);
    let id = ledger.create_asset(ALICE, vec![], 40).unwrap();
    assert_eq!(ledger.burn(id, ALICE, 100), Ok(40));
    assert_eq!(ledger.balance_of(id, ALICE), 0);
    assert_eq!(ledger.get(id).unwrap().total_supply, 0);
    assert_eq!(
        ledger.events()[1],
        Event::Burned { asset_id: id, owner: ALICE, total_supply: 0 }
    );
    assert_eq!(ledger.burn(id, ALICE, 1), Err(Error::NotOwned));
    assert_eq!(ledger.burn(id + 1, ALICE, 1), Err(Error::UnknownAsset));
}

#[test]
fn burn_part_keeps_supply_equal_to_balances() {
    let mut ledger = Ledger::new(8);
    let id = ledger.create_asset(ALICE, vec![], 40).unwrap();
    assert_eq!(ledger.transfer(id, ALICE, BOB, 15), Ok(15));
    assert_eq!(ledger.burn(id, BOB, 5), Ok(5));
    assert_eq!(ledger.balance_of(id, ALICE), 25);
    assert_eq!(ledger.balance_of(id, BOB), 10);
    assert_eq!(ledger.get(id).unwrap().total_supply, 35);
    assert_eq!(ledger.unsettled(id), 0);
    assert_eq!(
        ledger.events()[2],
        Event::Burned { asset_id: id, owner: BOB, total_supply: 35 }
    );
}

#[test]
fn transfer_to_self_changes_nothing_but_the_log() {
    let mut ledger = Ledger::new(8);
    let id = ledger.create_asset(ALICE, vec![], 40).unwrap();
    assert_eq!(ledger.transfer(id, ALICE, ALICE, 70), Ok(40));
    assert_eq!(ledger.balance_of(id, ALICE), 40);
    assert_eq!(ledger.get(id).unwrap().total_supply, 40);
    assert_eq!(
        ledger.events()[1],
        Event::Transferred { asset_id: id, from: ALICE, to: ALICE, amount: 40 }
    );
}

#[test]
fn transfer_refusals() {
    let mut ledger = Ledger::new(8);
    let id = ledger.create_asset(ALICE, vec![], 40).unwrap();
    assert_eq!(ledger.transfer(id, BOB, ALICE, 1), Err(Error::NotOwned));
    assert_eq!(ledger.transfer(7, ALICE, BOB, 1), Err(Error::UnknownAsset));
    assert_eq!(ledger.balance_of(id, ALICE), 40);
    assert_eq!(ledger.events().len(), 1);
}

#[test]
fn slash_reports_what_was_missing() {
    let mut ledger = Ledger::new(8);
    let id = ledger.create_asset(ALICE, vec![], 40).unwrap();
    let (deficit, missing) = ledger.slash(id, ALICE, 100);
    assert_eq!(deficit.kind(), ImbalanceKind::Negative);
    assert_eq!(deficit.amount(), 40);
    assert_eq!(deficit.asset(), id);
    assert_eq!(missing, 60);
    assert_eq!(ledger.balance_of(id, ALICE), 0);
    assert_eq!(ledger.unsettled(id), 40);
    assert_eq!(ledger.get(id).unwrap().total_supply, 40);
    assert!(ledger.resolve_into_burn(deficit).is_ok());
    assert_eq!(ledger.unsettled(id), 0);
    assert_eq!(ledger.get(id).unwrap().total_supply, 0);
    let (nothing, all) = ledger.slash(9, ALICE, 5);
    assert_eq!(nothing.amount(), 0);
    assert_eq!(all, 5);
}

#[test]
fn ration_one_third_of_ten() {
    let mut ledger = Ledger::new(8);
    let id = ledger.create_asset(ALICE, vec![], 10).unwrap();
    let (deficit, _) = ledger.slash(id, ALICE, 10);
    let (first, second) = ration(deficit, 1, 3);
    assert_eq!(first.amount(), 3);
    assert_eq!(second.amount(), 7);
    assert_eq!(first.kind(), ImbalanceKind::Negative);
    assert_eq!(second.kind(), ImbalanceKind::Negative);
    assert_eq!(first.asset(), id);
    assert_eq!(second.asset(), id);
}

#[test]
fn ration_edges() {
    let mut ledger = Ledger::new(8);
    let id = ledger.create_asset(ALICE, vec![], u128::MAX).unwrap();
    let (deficit, _) = ledger.slash(id, ALICE, u128::MAX);
    let (first, second) = ration(deficit, 2, 3);
    assert_eq!(first.amount(), 226854911280625642308916404954512140970);
    assert_eq!(second.amount(), u128::MAX - 226854911280625642308916404954512140970);
    let (none, all) = ration(second, 1, 0);
    assert_eq!(none.amount(), 0);
    let (everything, left) = ration(all, 5, 4);
    assert_eq!(left.amount(), 0);
    assert_eq!(everything.amount(), u128::MAX - 226854911280625642308916404954512140970);
}

#[test]
fn split_caps_the_first_part() {
    let mut ledger = Ledger::new(8);
    let id = ledger.create_asset(ALICE, vec![], 10).unwrap();
    let (deficit, _) = ledger.slash(id, ALICE, 10);
    let (first, second) = split(deficit, 4);
    assert_eq!((first.amount(), second.amount()), (4, 6));
    let (first, second) = split(second, 9);
    assert_eq!((first.amount(), second.amount()), (6, 0));
}

#[test]
fn merge_same_asset_adds_up() {
    let mut ledger = Ledger::new(8);
    let id = ledger.create_asset(ALICE, vec![], 10).unwrap();
    let (a, _) = ledger.slash(id, ALICE, 4);
    let (b, _) = ledger.slash(id, ALICE, 5);
    let sum = merge(a, b).unwrap();
    assert_eq!(sum.amount(), 9);
    assert_eq!(sum.asset(), id);
    assert_eq!(sum.kind(), ImbalanceKind::Negative);
}

#[test]
fn merge_of_different_assets_is_refused() {
    let mut ledger = Ledger::new(8);
    let one = ledger.create_asset(ALICE, vec![], 10).unwrap();
    let two = ledger.create_asset(ALICE, vec![], 10).unwrap();
    let (a, _) = ledger.slash(one, ALICE, 4);
    let (b, _) = ledger.slash(two, ALICE, 5);
    let (error, a, b) = merge(a, b).unwrap_err();
    assert_eq!(error, Error::ImbalanceKindMismatch);
    assert_eq!((a.amount(), a.asset()), (4, one));
    assert_eq!((b.amount(), b.asset()), (5, two));
}

#[test]
fn merge_of_different_kinds_is_refused() {
    let mut ledger = Ledger::new(8);
    let id = ledger.create_asset(ALICE, vec![], 10).unwrap();
    let (deficit, _) = ledger.slash(id, ALICE, 4);
    let surplus = ledger.issue(id, 4).unwrap();
    let (error, _, _) = merge(deficit, surplus).unwrap_err();
    assert_eq!(error, Error::ImbalanceKindMismatch);
}

#[test]
fn merge_that_overflows_is_refused() {
    let mut one = Ledger::new(8);
    let mut two = Ledger::new(8);
    let id = one.create_asset(ALICE, vec![], u128::MAX).unwrap();
    assert_eq!(two.create_asset(ALICE, vec![], 1), Ok(id));
    let (a, _) = one.slash(id, ALICE, u128::MAX);
    let (b, _) = two.slash(id, ALICE, 1);
    let (error, a, b) = merge(a, b).unwrap_err();
    assert_eq!(error, Error::Overflow);
    assert_eq!(a.amount(), u128::MAX);
    assert_eq!(b.amount(), 1);
}

#[test]
fn issue_and_resolve_into_balance() {
    let mut ledger = Ledger::new(8);
    let id = ledger.create_asset(ALICE, vec![], 10).unwrap();
    let surplus = ledger.issue(id, 5).unwrap();
    assert_eq!(surplus.kind(), ImbalanceKind::Positive);
    assert_eq!(ledger.get(id).unwrap().total_supply, 15);
    assert_eq!(ledger.unsettled(id), 5);
    assert!(ledger.resolve_into_balance(surplus, BOB).is_ok());
    assert_eq!(ledger.balance_of(id, BOB), 5);
    assert_eq!(ledger.unsettled(id), 0);
    assert_eq!(ledger.issue(id, u128::MAX).unwrap_err(), Error::Overflow);
    assert_eq!(ledger.issue(id + 1, 1).unwrap_err(), Error::UnknownAsset);
}

#[test]
fn resolve_refusals_hand_the_imbalance_back() {
    let mut ledger = Ledger::new(8);
    let id = ledger.create_asset(ALICE, vec![], 10).unwrap();
    let (deficit, _) = ledger.slash(id, ALICE, 4);
    let (error, deficit) = ledger.resolve_into_balance(deficit, BOB).unwrap_err();
    assert_eq!(error, Error::CannotResolveNegativeAsCredit);
    assert_eq!(deficit.amount(), 4);
    assert_eq!(ledger.balance_of(id, BOB), 0);
    let surplus = ledger.issue(id, 3).unwrap();
    let (error, surplus) = ledger.resolve_into_burn(surplus).unwrap_err();
    assert_eq!(error, Error::ImbalanceKindMismatch);
    assert_eq!(surplus.amount(), 3);

    let mut other = Ledger::new(8);
    let (error, deficit) = other.resolve_into_burn(deficit).unwrap_err();
    assert_eq!(error, Error::UnknownAsset);
    assert_eq!(other.create_asset(BOB, vec![], 50), Ok(id));
    let (error, _) = other.resolve_into_burn(deficit).unwrap_err();
    assert_eq!(error, Error::Overflow);
    let (error, _) = other.resolve_into_balance(surplus, BOB).unwrap_err();
    assert_eq!(error, Error::Overflow);
    assert_eq!(other.get(id).unwrap().total_supply, 50);
    assert_eq!(other.balance_of(id, BOB), 50);
}

#[test]
fn sack_shares_between_treasury_and_beneficiary() {
    let mut ledger = Ledger::new(8);
    let id = ledger.create_asset(ALICE, vec![], 150).unwrap();
    assert_eq!(ledger.transfer(id, ALICE, CAROL, 50), Ok(50));
    assert_eq!(ledger.sack(id, vec![ALICE, BOB, CAROL], HEIR, TREASURY, 10), Ok(()));
    assert_eq!(ledger.balance_of(id, ALICE), 0);
    assert_eq!(ledger.balance_of(id, BOB), 0);
    assert_eq!(ledger.balance_of(id, CAROL), 0);
    assert_eq!(ledger.balance_of(id, TREASURY), 20);
    assert_eq!(ledger.balance_of(id, HEIR), 130);
    assert_eq!(ledger.get(id).unwrap().total_supply, 150);
    assert_eq!(ledger.unsettled(id), 0);
}

#[test]
fn sack_of_unknown_asset_changes_nothing() {
    let mut ledger = Ledger::new(8);
    let id = ledger.create_asset(ALICE, vec![], 100).unwrap();
    assert_eq!(
        ledger.sack(id + 1, vec![ALICE, BOB, CAROL], HEIR, TREASURY, 10),
        Err(Error::UnknownAsset)
    );
    assert_eq!(ledger.balance_of(id, ALICE), 100);
    assert_eq!(ledger.balance_of(id, TREASURY), 0);
    assert_eq!(ledger.balance_of(id, HEIR), 0);
    assert_eq!(ledger.events().len(), 1);
}

#[test]
fn sack_counts_a_repeated_account_once() {
    let mut ledger = Ledger::new(8);
    let id = ledger.create_asset(ALICE, vec![], 7).unwrap();
    assert_eq!(ledger.sack(id, vec![ALICE, ALICE, HEIR, TREASURY], HEIR, TREASURY, 10), Ok(()));
    assert_eq!(ledger.balance_of(id, ALICE), 0);
    assert_eq!(ledger.balance_of(id, TREASURY), 7);
    assert_eq!(ledger.balance_of(id, HEIR), 0);
    assert_eq!(ledger.get(id).unwrap().total_supply, 7);
}

fn held_by_all(ledger: &Ledger, asset: u64) -> u128 {
    let mut sum: u128 = 0;
    for account in [ALICE, BOB, CAROL, TREASURY, HEIR] {
        sum += ledger.balance_of(asset, account);
    }
    sum
}

#[test]
fn balances_add_up_to_the_supply_after_each_call() {
    let mut ledger = Ledger::new(8);
    let id = ledger.create_asset(ALICE, vec![9], 1000).unwrap();
    assert_eq!(held_by_all(&ledger, id), 1000);
    assert_eq!(ledger.transfer(id, ALICE, BOB, 300), Ok(300));
    assert_eq!(held_by_all(&ledger, id), ledger.get(id).unwrap().total_supply);
    assert_eq!(ledger.burn(id, BOB, 120), Ok(120));
    assert_eq!(held_by_all(&ledger, id), 880);
    assert_eq!(ledger.get(id).unwrap().total_supply, 880);
    assert_eq!(ledger.transfer(id, BOB, CAROL, 500), Ok(180));
    assert_eq!(ledger.burn(id, CAROL, 1), Ok(1));
    assert_eq!(ledger.transfer(id, CAROL, CAROL, 5), Ok(5));
    assert_eq!(ledger.burn(id, BOB, 1), Err(Error::NotOwned));
    assert_eq!(held_by_all(&ledger, id), 879);
    assert_eq!(ledger.get(id).unwrap().total_supply, 879);
    let other = ledger.create_asset(BOB, vec![], 7).unwrap();
    assert_eq!(held_by_all(&ledger, other), 7);
    assert_eq!(held_by_all(&ledger, id), 879);
    assert_eq!(ledger.unsettled(id), 0);
    assert_eq!(ledger.unsettled(other), 0);
}

#[test]
fn take_events_hands_the_log_over() {
    let mut ledger = Ledger::new(8);
    let id = ledger.create_asset(ALICE, vec![], 10).unwrap();
    assert_eq!(ledger.transfer(id, ALICE, BOB, 4), Ok(4));
    let log = ledger.take_events();
    assert_eq!(
        log,
        vec![
            Event::Created { creator: ALICE, asset_id: id },
            Event::Transferred { asset_id: id, from: ALICE, to: BOB, amount: 4 },
        ]
    );
    assert!(ledger.events().is_empty());
    assert_eq!(ledger.balance_of(id, BOB), 4);
    assert_eq!(ledger.burn(id, BOB, 4), Ok(4));
    assert_eq!(
        ledger.take_events(),
        vec![Event::Burned { asset_id: id, owner: BOB, total_supply: 6 }]
    );
}

#[test]
fn contains_tells_known_assets() {
    let mut ledger = Ledger::new(0);
    assert!(!ledger.contains(0));
    assert_eq!(ledger.create_asset(ALICE, vec![], 1), Ok(0));
    assert!(ledger.contains(0));
    assert!(!ledger.contains(1));
    assert_eq!(ledger.create_asset(ALICE, vec![1], 1), Err(Error::MetadataTooLong));
    assert_eq!(ledger.get(0).unwrap().metadata, Vec::<u8>::new());
}
