//! Imbalances: funds that have left the balances, or have been issued, and are
//! not settled yet. An imbalance is neither copied nor cloned; every function
//! that takes one either uses it up or hands it back.

use vstd::arithmetic::div_mod::lemma_div_is_ordered;
use vstd::arithmetic::div_mod::lemma_div_multiples_vanish;
use vstd::arithmetic::div_mod::lemma_fundamental_div_mod;
use vstd::arithmetic::div_mod::lemma_hoist_over_denominator;
use vstd::arithmetic::mul::lemma_mul_is_commutative;
use vstd::prelude::*;
use crate::types::AssetId;
use crate::types::Error;

verus! {

/// Whether an imbalance is a surplus or a deficit.
#[derive(Clone, Copy, Debug, PartialEq, Eq, Structural)]
pub enum ImbalanceKind {
    /// Funds that were issued and wait to be credited to an account.
    Positive,
    /// Funds that were taken out of a balance and wait to be burned.
    Negative,
}

/// What an imbalance stands for.
pub struct ImbalanceModel {
    pub kind: ImbalanceKind,
    pub amount: u128,
    pub asset: AssetId,
}

/// An unsettled amount of one asset.
#[derive(Debug)]
pub struct Imbalance {
    kind: ImbalanceKind,
    amount: u128,
    asset: AssetId,
}

impl View for Imbalance {
    type V = ImbalanceModel;

    closed spec fn view(&self) -> ImbalanceModel {
        ImbalanceModel { kind: self.kind, amount: self.amount, asset: self.asset }
    }
}

impl Imbalance {
    /// An imbalance of the ledger's making: only a ledger creates one.
    pub(crate) fn new(kind: ImbalanceKind, amount: u128, asset: AssetId) -> (r: Imbalance)
        ensures
            r@ == (ImbalanceModel { kind, amount, asset }),
    {
        Imbalance { kind, amount, asset }
    }

    /// Whether this is a surplus or a deficit.
    pub fn kind(&self) -> (k: ImbalanceKind)
        ensures
            k == self@.kind,
    {
        self.kind
    }

    /// How much is unsettled.
    pub fn amount(&self) -> (a: u128)
        ensures
            a == self@.amount,
    {
        self.amount
    }

    /// The asset that the amount is of.
    pub fn asset(&self) -> (a: AssetId)
        ensures
            a == self@.asset,
    {
        self.asset
    }
}

/// `amount`, or `available` where that is less.
pub open spec fn capped(amount: u128, available: u128) -> u128 {
    if amount <= available {
        amount
    } else {
        available
    }
}

/// The first part when `amount` is rationed by `num / denom`: the quotient
/// `amount * num / denom` rounded down, but never more than `amount`, and
/// nothing at all where `denom` is zero.
pub open spec fn share(amount: u128, num: u32, denom: u32) -> int {
    if denom == 0 {
        0
    } else if (amount as int * num as int) / (denom as int) <= amount {
        (amount as int * num as int) / (denom as int)
    } else {
        amount as int
    }
}

/// With `n < d` the share can be computed from quotient and remainder of
/// `amount` by `d` without leaving 128 bits, and is at most `amount`.
proof fn lemma_share_proper(amount: u128, n: u128, d: u128)
    requires
        0 < d,
        n < d,
    ensures
        (amount as int * n as int) / (d as int) == (amount / d) * n + ((amount % d) * n) / (d as int),
        (amount / d) * n <= amount,
        ((amount % d) * n) <= d * d,
        (amount as int * n as int) / (d as int) <= amount,
{
    let a = amount as int;
    let q = a / (d as int);
    let r = a % (d as int);
    let ni = n as int;
    let di = d as int;
    assert(a == q * di + r) by {
        lemma_fundamental_div_mod(a, di);
        lemma_mul_is_commutative(di, q);
    }
    assert(a * ni == (q * ni) * di + r * ni) by (nonlinear_arith)
        requires
            a == q * di + r,
    ;
    lemma_hoist_over_denominator(r * ni, q * ni, di as nat);
    assert(0 <= r < di);
    assert(0 <= q);
    assert(q * ni <= q * di) by (nonlinear_arith)
        requires
            0 <= q,
            0 <= ni <= di,
    ;
    assert(r * ni <= di * di) by (nonlinear_arith)
        requires
            0 <= r <= di,
            0 <= ni <= di,
    ;
    assert(a * ni <= a * di) by (nonlinear_arith)
        requires
            0 <= a,
            0 <= ni <= di,
    ;
    lemma_div_is_ordered(a * ni, a * di, di);
    lemma_div_multiples_vanish(a, di);
}

/// With `n >= d` the quotient is at least `amount`, so the share is all of it.
proof fn lemma_share_improper(amount: u128, n: u128, d: u128)
    requires
        0 < d,
        d <= n,
    ensures
        (amount as int * n as int) / (d as int) >= amount,
{
    let a = amount as int;
    let ni = n as int;
    let di = d as int;
    assert(a * di <= a * ni) by (nonlinear_arith)
        requires
            0 <= a,
            0 <= di <= ni,
    ;
    lemma_div_is_ordered(a * di, a * ni, di);
    lemma_div_multiples_vanish(a, di);
}

/// Computes `share(amount, num, denom)` in 128 bits.
fn share_of(amount: u128, num: u32, denom: u32) -> (r: u128)
    ensures
        r == share(amount, num, denom),
        r <= amount,
{
    if denom == 0 {
        return 0;
    }
    let n: u128 = num as u128;
    let d: u128 = denom as u128;
    if num >= denom {
        proof {
            lemma_share_improper(amount, n, d);
        }
        return amount;
    }
    proof {
        lemma_share_proper(amount, n, d);
        assert(d * d <= 0xFFFF_FFFF * 0xFFFF_FFFF) by (nonlinear_arith)
            requires
                d <= 0xFFFF_FFFF,
        ;
    }
    let whole: u128 = (amount / d) * n;
    let rest: u128 = ((amount % d) * n) / d;
    whole + rest
}

/// Splits an imbalance in two of its kind and asset. The first gets `amount`,
/// or everything where the imbalance holds less; the second gets what is left.
pub fn split(imbalance: Imbalance, amount: u128) -> (parts: (Imbalance, Imbalance))
    ensures
        parts.0@.kind == imbalance@.kind,
        parts.1@.kind == imbalance@.kind,
        parts.0@.asset == imbalance@.asset,
        parts.1@.asset == imbalance@.asset,
        parts.0@.amount == capped(amount, imbalance@.amount),
        parts.0@.amount + parts.1@.amount == imbalance@.amount,
{
    let first: u128 = if amount <= imbalance.amount {
        amount
    } else {
        imbalance.amount
    };
    let second: u128 = imbalance.amount - first;
    (
        Imbalance { kind: imbalance.kind, amount: first, asset: imbalance.asset },
        Imbalance { kind: imbalance.kind, amount: second, asset: imbalance.asset },
    )
}

/// Splits an imbalance in proportion. The first part is `amount * num / denom`,
/// rounded down and capped at the whole amount; the second part is the
/// remainder, so what the division loses in rounding goes to the second. With
/// `denom` zero the first part is empty.
pub fn ration(imbalance: Imbalance, num: u32, denom: u32) -> (parts: (Imbalance, Imbalance))
    ensures
        parts.0@.kind == imbalance@.kind,
        parts.1@.kind == imbalance@.kind,
        parts.0@.asset == imbalance@.asset,
        parts.1@.asset == imbalance@.asset,
        parts.0@.amount == share(imbalance@.amount, num, denom),
        parts.0@.amount + parts.1@.amount == imbalance@.amount,
{
    let first: u128 = share_of(imbalance.amount, num, denom);
    split(imbalance, first)
}

/// Whether two imbalances can be merged: same kind, same asset, and a sum
/// that fits.
pub open spec fn merge_refusal(a: ImbalanceModel, b: ImbalanceModel) -> Option<Error> {
    if a.kind != b.kind || a.asset != b.asset {
        Some(Error::ImbalanceKindMismatch)
    } else if a.amount + b.amount > u128::MAX {
        Some(Error::Overflow)
    } else {
        None
    }
}

/// Merges two imbalances of one kind and asset into one that holds the sum.
/// Where they differ in kind or asset, or the sum does not fit, both come back
/// unchanged beside the error.
pub fn merge(a: Imbalance, b: Imbalance) -> (r: Result<Imbalance, (Error, Imbalance, Imbalance)>)
    ensures
        match r {
            Ok(sum) => {
                &&& merge_refusal(a@, b@).is_none()
                &&& sum@.kind == a@.kind
                &&& sum@.asset == a@.asset
                &&& sum@.amount == a@.amount + b@.amount
            },
            Err((e, left, right)) => {
                &&& merge_refusal(a@, b@) == Some(e)
                &&& left@ == a@
                &&& right@ == b@
            },
        },
{
    if a.kind != b.kind || a.asset != b.asset {
        return Err((Error::ImbalanceKindMismatch, a, b));
    }
    if a.amount > u128::MAX - b.amount {
        return Err((Error::Overflow, a, b));
    }
    Ok(join(a, b))
}

/// Merges two imbalances that are known to go together.
pub(crate) fn join(a: Imbalance, b: Imbalance) -> (sum: Imbalance)
    requires
        merge_refusal(a@, b@).is_none(),
    ensures
        sum@ == (ImbalanceModel { amount: (a@.amount + b@.amount) as u128, ..a@ }),
{
    Imbalance { kind: a.kind, amount: a.amount + b.amount, asset: a.asset }
}

} // verus!
