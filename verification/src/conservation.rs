//! Each operation keeps the ledger consistent: the balances of an asset and
//! what is unsettled of it always make up its supply.

use vstd::prelude::*;
use crate::imbalance::capped;
use crate::model::AssetModel;
use crate::model::drained;
use crate::model::LedgerModel;
use crate::model::levy;
use crate::tally::held;
use crate::tally::lemma_total_bounds_entry;
use crate::tally::lemma_total_bounds_pair;
use crate::tally::lemma_total_empty;
use crate::tally::lemma_total_insert;
use crate::tally::total;
use crate::types::AccountId;
use crate::types::AssetId;

verus! {

/// A balance never exceeds what circulates, and that never exceeds the supply.
pub proof fn lemma_balance_within_supply(state: AssetModel, account: AccountId)
    requires
        state.wf(),
    ensures
        state.balance(account) <= state.circulating() <= state.total_supply,
{
    lemma_total_bounds_entry(state.balances, account);
}

/// Crediting raises what circulates by the amount, debiting lowers it.
pub proof fn lemma_credit_debit(state: AssetModel, account: AccountId, amount: u128)
    requires
        state.balances.dom().finite(),
    ensures
        state.balance(account) + amount <= u128::MAX ==> state.credited(
            account,
            amount,
        ).circulating() == state.circulating() + amount,
        amount <= state.balance(account) ==> state.debited(account, amount).circulating()
            == state.circulating() - amount,
        state.credited(account, amount).balances.dom().finite(),
        state.debited(account, amount).balances.dom().finite(),
{
    lemma_total_insert(state.balances, account, (state.balance(account) + amount) as u128);
    lemma_total_insert(state.balances, account, (state.balance(account) - amount) as u128);
}

/// Creating an asset keeps the ledger consistent; the new asset is settled
/// and all of it circulates.
pub proof fn lemma_created(m: LedgerModel, creator: AccountId, metadata: Seq<u8>, supply: u128)
    requires
        m.wf(),
        m.create_refusal(metadata, supply).is_none(),
    ensures
        m.created(creator, metadata, supply).wf(),
        !m.assets.contains_key(m.nonce),
        m.created(creator, metadata, supply).assets[m.nonce].circulating() == supply,
{
    lemma_total_empty();
    lemma_total_insert(Map::empty(), creator, supply);
    let after = m.created(creator, metadata, supply);
    assert forall|a: AssetId| #[trigger] after.assets.contains_key(a) implies a < after.nonce
        && after.assets[a].wf() by {
        if a != m.nonce {
            assert(m.assets.contains_key(a));
        }
    }
}

/// Burning keeps the ledger consistent and settles nothing and unsettles
/// nothing: supply and circulation fall together.
pub proof fn lemma_burned(m: LedgerModel, asset: AssetId, account: AccountId, amount: u128)
    requires
        m.wf(),
        m.spend_refusal(asset, account).is_none(),
    ensures
        m.burned(asset, account, amount).wf(),
        capped(amount, m.balance(asset, account)) <= m.assets[asset].total_supply,
        m.burned(asset, account, amount).unsettled(asset) == m.unsettled(asset),
{
    let state = m.assets[asset];
    let actual = capped(amount, state.balance(account));
    lemma_balance_within_supply(state, account);
    lemma_credit_debit(state, account, actual);
    let after = m.burned(asset, account, amount);
    assert forall|a: AssetId| #[trigger] after.assets.contains_key(a) implies a < after.nonce
        && after.assets[a].wf() by {
        if a != asset {
            assert(m.assets.contains_key(a));
        }
    }
}

/// Transferring keeps the ledger consistent: what circulates, the supply and
/// what is unsettled all stay as they were, and the credit cannot overflow.
pub proof fn lemma_transferred(
    m: LedgerModel,
    asset: AssetId,
    from: AccountId,
    to: AccountId,
    amount: u128,
)
    requires
        m.wf(),
        m.spend_refusal(asset, from).is_none(),
    ensures
        m.transferred(asset, from, to, amount).wf(),
        m.assets[asset].debited(from, capped(amount, m.balance(asset, from))).balance(to) + capped(
            amount,
            m.balance(asset, from),
        ) <= u128::MAX,
        m.transferred(asset, from, to, amount).assets[asset].circulating()
            == m.assets[asset].circulating(),
        m.transferred(asset, from, to, amount).assets[asset].total_supply
            == m.assets[asset].total_supply,
        m.transferred(asset, from, to, amount).unsettled(asset) == m.unsettled(asset),
{
    let state = m.assets[asset];
    let actual = capped(amount, state.balance(from));
    let debited = state.debited(from, actual);
    lemma_balance_within_supply(state, from);
    lemma_credit_debit(state, from, actual);
    if from != to {
        lemma_total_bounds_pair(state.balances, from, to);
    }
    lemma_credit_debit(debited, to, actual);
    let after = m.transferred(asset, from, to, amount);
    assert forall|a: AssetId| #[trigger] after.assets.contains_key(a) implies a < after.nonce
        && after.assets[a].wf() by {
        if a != asset {
            assert(m.assets.contains_key(a));
        }
    }
}

/// Issuing keeps the ledger consistent: the supply grows by what becomes
/// unsettled, and the balances stay as they were.
pub proof fn lemma_issued(m: LedgerModel, asset: AssetId, amount: u128)
    requires
        m.wf(),
        m.issue_refusal(asset, amount).is_none(),
    ensures
        m.issued(asset, amount).wf(),
        m.assets[asset].unsettled + amount <= u128::MAX,
{
    let after = m.issued(asset, amount);
    assert forall|a: AssetId| #[trigger] after.assets.contains_key(a) implies a < after.nonce
        && after.assets[a].wf() by {
        if a != asset {
            assert(m.assets.contains_key(a));
        }
    }
}

/// Slashing keeps the ledger consistent: what leaves the balance becomes
/// unsettled, and the supply stays as it was.
pub proof fn lemma_slashed(m: LedgerModel, asset: AssetId, account: AccountId, amount: u128)
    requires
        m.wf(),
    ensures
        m.slashed(asset, account, amount).wf(),
        m.unsettled(asset) + capped(amount, m.balance(asset, account)) <= u128::MAX,
        m.slashed(asset, account, amount).unsettled(asset) == m.unsettled(asset) + capped(
            amount,
            m.balance(asset, account),
        ),
{
    let actual = capped(amount, m.balance(asset, account));
    if actual != 0 {
        let state = m.assets[asset];
        lemma_balance_within_supply(state, account);
        lemma_credit_debit(state, account, actual);
        let after = m.slashed(asset, account, amount);
        assert forall|a: AssetId| #[trigger] after.assets.contains_key(a) implies a < after.nonce
            && after.assets[a].wf() by {
            if a != asset {
                assert(m.assets.contains_key(a));
            }
        }
    }
}

/// Crediting unsettled funds to an account keeps the ledger consistent, and
/// the credit cannot overflow.
pub proof fn lemma_paid_out(m: LedgerModel, asset: AssetId, account: AccountId, amount: u128)
    requires
        m.wf(),
        m.assets.contains_key(asset),
        amount <= m.assets[asset].unsettled,
    ensures
        m.paid_out(asset, account, amount).wf(),
        m.balance(asset, account) + amount <= u128::MAX,
        m.paid_out(asset, account, amount).assets[asset].total_supply
            == m.assets[asset].total_supply,
{
    let state = m.assets[asset];
    lemma_balance_within_supply(state, account);
    lemma_credit_debit(state, account, amount);
    let after = m.paid_out(asset, account, amount);
    assert forall|a: AssetId| #[trigger] after.assets.contains_key(a) implies a < after.nonce
        && after.assets[a].wf() by {
        if a != asset {
            assert(m.assets.contains_key(a));
        }
    }
}

/// Taking unsettled funds off the supply keeps the ledger consistent, and
/// the balances stay as they were.
pub proof fn lemma_written_off(m: LedgerModel, asset: AssetId, amount: u128)
    requires
        m.wf(),
        m.assets.contains_key(asset),
        amount <= m.assets[asset].unsettled,
    ensures
        m.written_off(asset, amount).wf(),
        amount <= m.assets[asset].total_supply,
        m.written_off(asset, amount).assets[asset].balances == m.assets[asset].balances,
{
    let after = m.written_off(asset, amount);
    assert forall|a: AssetId| #[trigger] after.assets.contains_key(a) implies a < after.nonce
        && after.assets[a].wf() by {
        if a != asset {
            assert(m.assets.contains_key(a));
        }
    }
}

/// A list with one more account at its end holds what it held before, and
/// that account.
pub proof fn lemma_contains_push(list: Seq<AccountId>, last: AccountId, a: AccountId)
    ensures
        list.push(last).contains(a) <==> list.contains(a) || a == last,
        list.push(last).drop_last() == list,
        list.push(last).last() == last,
{
    let longer = list.push(last);
    assert(longer.drop_last() =~= list);
    if list.contains(a) {
        let i = choose|i: int| 0 <= i < list.len() && list[i] == a;
        assert(longer[i] == a);
    }
    if a == last {
        assert(longer[list.len() as int] == a);
    }
}

/// What one more account at the end of the list adds to a sacking: it pays
/// what it holds, up to the cap, unless it was listed before, and is empty
/// afterwards.
pub proof fn lemma_sack_one_more(
    balances: Map<AccountId, u128>,
    list: Seq<AccountId>,
    next: AccountId,
    cap: u128,
)
    ensures
        held(drained(balances, list), next) == if list.contains(next) {
            0
        } else {
            held(balances, next)
        },
        levy(balances, list.push(next), cap) == levy(balances, list, cap) + capped(
            cap,
            held(drained(balances, list), next),
        ),
        drained(balances, list.push(next)) == if held(drained(balances, list), next) == 0 {
            drained(balances, list)
        } else {
            drained(balances, list).insert(next, 0)
        },
{
    lemma_contains_push(list, next, next);
    let before = drained(balances, list);
    let after = drained(balances, list.push(next));
    assert forall|a: AccountId| #[trigger]
        list.push(next).contains(a) <==> list.contains(a) || a == next by {
        lemma_contains_push(list, next, a);
    }
    if held(before, next) == 0 {
        assert(after =~= before);
    } else {
        assert(after =~= before.insert(next, 0));
    }
}

/// Sacking moves funds and loses none: what the listed accounts pay in full
/// is what the balances lose, and a capped levy is never more than that.
pub proof fn lemma_levy_drains(balances: Map<AccountId, u128>, list: Seq<AccountId>, cap: u128)
    requires
        balances.dom().finite(),
    ensures
        drained(balances, list).dom() == balances.dom(),
        total(drained(balances, list)) + levy(balances, list, u128::MAX) == total(balances),
        levy(balances, list, cap) <= levy(balances, list, u128::MAX),
    decreases list.len(),
{
    assert(drained(balances, list).dom() =~= balances.dom());
    if list.len() == 0 {
        assert(drained(balances, list) =~= balances);
    } else {
        let earlier = list.drop_last();
        let next = list.last();
        assert(earlier.push(next) =~= list);
        lemma_levy_drains(balances, earlier, cap);
        lemma_sack_one_more(balances, earlier, next, cap);
        lemma_sack_one_more(balances, earlier, next, u128::MAX);
        lemma_total_insert(drained(balances, earlier), next, 0);
    }
}

/// Sacking keeps the ledger consistent: supply, circulation and what is
/// unsettled are all as they were.
pub proof fn lemma_sacked(
    m: LedgerModel,
    asset: AssetId,
    accounts: Seq<AccountId>,
    beneficiary: AccountId,
    treasury: AccountId,
    flat_cut: u128,
)
    requires
        m.wf(),
        m.assets.contains_key(asset),
    ensures
        m.sacked(asset, accounts, beneficiary, treasury, flat_cut).wf(),
        m.sacked(asset, accounts, beneficiary, treasury, flat_cut).assets[asset].circulating()
            == m.assets[asset].circulating(),
        m.sacked(asset, accounts, beneficiary, treasury, flat_cut).assets[asset].total_supply
            == m.assets[asset].total_supply,
        m.sacked(asset, accounts, beneficiary, treasury, flat_cut).assets[asset].unsettled
            == m.assets[asset].unsettled,
{
    let state = m.assets[asset];
    let taken = levy(state.balances, accounts, u128::MAX);
    let cuts = levy(state.balances, accounts, flat_cut);
    lemma_levy_drains(state.balances, accounts, flat_cut);
    let emptied = AssetModel { balances: drained(state.balances, accounts), ..state };
    lemma_total_bounds_entry(emptied.balances, treasury);
    lemma_credit_debit(emptied, treasury, cuts as u128);
    let first = emptied.credited(treasury, cuts as u128);
    lemma_total_bounds_entry(first.balances, beneficiary);
    lemma_credit_debit(first, beneficiary, (taken - cuts) as u128);
    let after = m.sacked(asset, accounts, beneficiary, treasury, flat_cut);
    assert forall|a: AssetId| #[trigger] after.assets.contains_key(a) implies a < after.nonce
        && after.assets[a].wf() by {
        if a != asset {
            assert(m.assets.contains_key(a));
        }
    }
}

} // verus!
