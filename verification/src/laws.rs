//! What holds of the ledger over any run of creating, burning and
//! transferring, and of burning and transferring at their edges.

use vstd::prelude::*;
use crate::conservation::lemma_burned;
use crate::conservation::lemma_created;
use crate::conservation::lemma_issued;
use crate::conservation::lemma_levy_drains;
use crate::conservation::lemma_paid_out;
use crate::conservation::lemma_sacked;
use crate::conservation::lemma_slashed;
use crate::conservation::lemma_transferred;
use crate::conservation::lemma_written_off;
use crate::imbalance::capped;
use crate::model::AssetModel;
use crate::model::drained;
use crate::model::LedgerModel;
use crate::model::levy;
use crate::tally::lemma_total_bounds_entry;
use crate::tally::lemma_total_bounds_pair;
use crate::types::AccountId;
use crate::types::AssetId;
use crate::types::Event;

verus! {

/// One call of `create_asset`, `burn` or `transfer`, with its arguments.
pub enum Op {
    Create { creator: AccountId, metadata: Seq<u8>, supply: u128 },
    Burn { asset: AssetId, account: AccountId, amount: u128 },
    Transfer { asset: AssetId, from: AccountId, to: AccountId, amount: u128 },
}

/// The ledger after one call: changed as the operation says, or unchanged
/// where the operation is refused.
pub open spec fn step(m: LedgerModel, op: Op) -> LedgerModel {
    match op {
        Op::Create { creator, metadata, supply } => if m.create_refusal(metadata, supply).is_none() {
            m.created(creator, metadata, supply)
        } else {
            m
        },
        Op::Burn { asset, account, amount } => if m.spend_refusal(asset, account).is_none() {
            m.burned(asset, account, amount)
        } else {
            m
        },
        Op::Transfer { asset, from, to, amount } => if m.spend_refusal(asset, from).is_none() {
            m.transferred(asset, from, to, amount)
        } else {
            m
        },
    }
}

/// The ledger after a run of calls, first to last.
pub open spec fn run(m: LedgerModel, ops: Seq<Op>) -> LedgerModel
    decreases ops.len(),
{
    if ops.len() == 0 {
        m
    } else {
        step(run(m, ops.drop_last()), ops.last())
    }
}

/// Nothing of `asset` is unsettled, and so, where the asset exists, its
/// balances add up to its supply.
pub open spec fn balanced(m: LedgerModel, asset: AssetId) -> bool {
    &&& m.unsettled(asset) == 0
    &&& m.assets.contains_key(asset) ==> m.assets[asset].circulating()
        == m.assets[asset].total_supply
}

/// In a consistent ledger an asset with nothing unsettled is balanced.
pub proof fn lemma_settled_is_balanced(m: LedgerModel, asset: AssetId)
    requires
        m.wf(),
        m.unsettled(asset) == 0,
    ensures
        balanced(m, asset),
{
}

/// One call of `create_asset`, `burn` or `transfer` keeps the ledger
/// consistent and every balanced asset balanced, whether the asset exists
/// already or the call creates it.
pub proof fn lemma_step_keeps_balance(m: LedgerModel, op: Op, asset: AssetId)
    requires
        m.wf(),
        balanced(m, asset),
    ensures
        step(m, op).wf(),
        balanced(step(m, op), asset),
{
    match op {
        Op::Create { creator, metadata, supply } => {
            if m.create_refusal(metadata, supply).is_none() {
                lemma_created(m, creator, metadata, supply);
            }
        },
        Op::Burn { asset: burned, account, amount } => {
            if m.spend_refusal(burned, account).is_none() {
                lemma_burned(m, burned, account, amount);
            }
        },
        Op::Transfer { asset: moved, from, to, amount } => {
            if m.spend_refusal(moved, from).is_none() {
                lemma_transferred(m, moved, from, to, amount);
            }
        },
    }
}

/// After any run of `create_asset`, `burn` and `transfer`, the balances of
/// an asset add up to its supply, if they did so before the run or the run
/// created the asset. As every start of a run is a run, this holds after each
/// call of it.
pub proof fn lemma_run_keeps_balance(m: LedgerModel, ops: Seq<Op>, asset: AssetId)
    requires
        m.wf(),
        balanced(m, asset),
    ensures
        run(m, ops).wf(),
        balanced(run(m, ops), asset),
    decreases ops.len(),
{
    if ops.len() > 0 {
        lemma_run_keeps_balance(m, ops.drop_last(), asset);
        lemma_step_keeps_balance(run(m, ops.drop_last()), ops.last(), asset);
    }
}

/// In a ledger that started empty, every asset is balanced after any run of
/// `create_asset`, `burn` and `transfer`.
pub proof fn lemma_run_from_empty(max_length: u32, ops: Seq<Op>, asset: AssetId)
    ensures
        run(LedgerModel::empty(max_length), ops).wf(),
        balanced(run(LedgerModel::empty(max_length), ops), asset),
{
    lemma_run_keeps_balance(LedgerModel::empty(max_length), ops, asset);
}

/// Burning more than an account holds burns exactly what it holds and
/// leaves it with nothing.
pub proof fn lemma_burn_beyond_balance(
    m: LedgerModel,
    asset: AssetId,
    account: AccountId,
    amount: u128,
)
    requires
        m.wf(),
        m.spend_refusal(asset, account).is_none(),
        amount > m.balance(asset, account),
    ensures
        capped(amount, m.balance(asset, account)) == m.balance(asset, account),
        m.burned(asset, account, amount).balance(asset, account) == 0,
        m.burned(asset, account, amount).assets[asset].total_supply
            == m.assets[asset].total_supply - m.balance(asset, account),
{
    lemma_burned(m, asset, account, amount);
}

/// Burning takes the same amount off the account's balance and off the
/// supply, and touches no other balance.
pub proof fn lemma_burn_moves_both(m: LedgerModel, asset: AssetId, account: AccountId, amount: u128)
    requires
        m.wf(),
        m.spend_refusal(asset, account).is_none(),
    ensures
        m.burned(asset, account, amount).balance(asset, account) == m.balance(asset, account)
            - capped(amount, m.balance(asset, account)),
        m.burned(asset, account, amount).assets[asset].total_supply == m.assets[asset].total_supply
            - capped(amount, m.balance(asset, account)),
        forall|other: AccountId|
            other != account ==> m.burned(asset, account, amount).balance(asset, other)
                == m.balance(asset, other),
{
    lemma_burned(m, asset, account, amount);
}

/// A transfer to oneself succeeds wherever a transfer does, leaves every
/// balance and the supply as they were, and logs the amount that a transfer
/// to another account would have moved.
pub proof fn lemma_transfer_to_self(m: LedgerModel, asset: AssetId, account: AccountId, amount: u128)
    requires
        m.wf(),
        m.spend_refusal(asset, account).is_none(),
    ensures
        m.transferred(asset, account, account, amount).assets == m.assets,
        m.transferred(asset, account, account, amount).events == m.events.push(
            Event::Transferred {
                asset_id: asset,
                from: account,
                to: account,
                amount: capped(amount, m.balance(asset, account)),
            },
        ),
{
    let state = m.assets[asset];
    let actual = capped(amount, state.balance(account));
    assert(state.debited(account, actual).credited(account, actual).balances =~= state.balances);
    assert(m.transferred(asset, account, account, amount).assets =~= m.assets);
}

/// A transfer between two accounts takes from the one what it gives to the
/// other, and touches no third balance.
pub proof fn lemma_transfer_moves(
    m: LedgerModel,
    asset: AssetId,
    from: AccountId,
    to: AccountId,
    amount: u128,
)
    requires
        m.wf(),
        m.spend_refusal(asset, from).is_none(),
        from != to,
    ensures
        m.transferred(asset, from, to, amount).balance(asset, from) == m.balance(asset, from)
            - capped(amount, m.balance(asset, from)),
        m.transferred(asset, from, to, amount).balance(asset, to) == m.balance(asset, to) + capped(
            amount,
            m.balance(asset, from),
        ),
        forall|other: AccountId|
            other != from && other != to ==> m.transferred(asset, from, to, amount).balance(
                asset,
                other,
            ) == m.balance(asset, other),
{
    lemma_transferred(m, asset, from, to, amount);
}

/// Slashing an account and burning what was taken closes the loop: supply
/// and circulation have fallen by what was taken, and nothing more is
/// unsettled than before.
pub proof fn lemma_slash_then_burn(m: LedgerModel, asset: AssetId, account: AccountId, amount: u128)
    requires
        m.wf(),
        m.assets.contains_key(asset),
    ensures
        ({
            let taken = capped(amount, m.balance(asset, account));
            let after = m.slashed(asset, account, amount).written_off(asset, taken);
            &&& after.wf()
            &&& after.unsettled(asset) == m.unsettled(asset)
            &&& after.balance(asset, account) == m.balance(asset, account) - taken
            &&& after.assets[asset].total_supply == m.assets[asset].total_supply - taken
            &&& after.assets[asset].circulating() == m.assets[asset].circulating() - taken
        }),
{
    let taken = capped(amount, m.balance(asset, account));
    lemma_slashed(m, asset, account, amount);
    lemma_written_off(m.slashed(asset, account, amount), asset, taken);
}

/// Issuing an amount and crediting it to an account closes the loop: supply
/// and circulation have grown by the amount, and nothing more is unsettled
/// than before.
pub proof fn lemma_issue_then_credit(m: LedgerModel, asset: AssetId, account: AccountId, amount: u128)
    requires
        m.wf(),
        m.issue_refusal(asset, amount).is_none(),
    ensures
        ({
            let after = m.issued(asset, amount).paid_out(asset, account, amount);
            &&& after.wf()
            &&& after.unsettled(asset) == m.unsettled(asset)
            &&& after.balance(asset, account) == m.balance(asset, account) + amount
            &&& after.assets[asset].total_supply == m.assets[asset].total_supply + amount
            &&& after.assets[asset].circulating() == m.assets[asset].circulating() + amount
        }),
{
    lemma_issued(m, asset, amount);
    lemma_paid_out(m.issued(asset, amount), asset, account, amount);
}

/// What a sacking leaves in each account. A listed account ends empty and
/// any other as it was, but that the treasury then gets the cuts and the
/// beneficiary the rest of what was taken. Nothing is lost: supply,
/// circulation and what is unsettled are as before.
pub proof fn lemma_sack_outcome(
    m: LedgerModel,
    asset: AssetId,
    accounts: Seq<AccountId>,
    beneficiary: AccountId,
    treasury: AccountId,
    flat_cut: u128,
)
    requires
        m.wf(),
        m.assets.contains_key(asset),
    ensures
        ({
            let before = m.assets[asset];
            let after = m.sacked(asset, accounts, beneficiary, treasury, flat_cut);
            let cuts = levy(before.balances, accounts, flat_cut);
            let taken = levy(before.balances, accounts, u128::MAX);
            let left = |a: AccountId|
                if accounts.contains(a) {
                    0u128
                } else {
                    before.balance(a)
                };
            &&& after.wf()
            &&& cuts <= taken
            &&& after.assets[asset].circulating() == before.circulating()
            &&& after.assets[asset].total_supply == before.total_supply
            &&& after.assets[asset].unsettled == before.unsettled
            &&& forall|a: AccountId|
                a != treasury && a != beneficiary ==> #[trigger] after.balance(asset, a) == left(a)
            &&& treasury != beneficiary ==> after.balance(asset, treasury) == left(treasury) + cuts
            &&& treasury != beneficiary ==> after.balance(asset, beneficiary) == left(beneficiary)
                + taken - cuts
            &&& treasury == beneficiary ==> after.balance(asset, treasury) == left(treasury) + taken
        }),
{
    let before = m.assets[asset];
    lemma_sacked(m, asset, accounts, beneficiary, treasury, flat_cut);
    lemma_levy_drains(before.balances, accounts, flat_cut);
    let emptied = AssetModel { balances: drained(before.balances, accounts), ..before };
    lemma_total_bounds_entry(emptied.balances, treasury);
    lemma_total_bounds_entry(emptied.balances, beneficiary);
    if treasury != beneficiary {
        lemma_total_bounds_pair(emptied.balances, treasury, beneficiary);
    }
}

} // verus!
