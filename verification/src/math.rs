//! The arithmetic by which shares and assets are exchanged.
use vstd::prelude::*;

verus! {

/// Whether `n` is an amount that can be held.
pub open spec fn fits(n: int) -> bool {
    i128::MIN <= n <= i128::MAX
}

/// `n / d` rounded towards zero, for a positive `d`.
pub open spec fn quotient(n: int, d: int) -> int
    recommends
        d > 0,
{
    if n >= 0 {
        n / d
    } else {
        -((-n) / d)
    }
}

/// What `part` out of `whole` is worth when the whole is worth `total`.
pub open spec fn pro_rata(part: int, total: int, whole: int) -> int {
    quotient(part * total, whole)
}

/// Shares that a deposit of `amount` buys while `total_shares` are backed by `total_assets`: as
/// many as its amount when there are none yet, else as many as keep the exchange rate.
pub open spec fn shares_bought(amount: int, total_assets: int, total_shares: int) -> int {
    if total_shares == 0 {
        amount
    } else {
        pro_rata(amount, total_shares, total_assets)
    }
}

/// Whether the exchange rate prices `shares` at all.
pub open spec fn can_price(shares: int, total_assets: int, total_shares: int) -> bool {
    total_shares > 0 && total_assets >= 0 && fits(shares * total_assets)
}

/// Assets that `shares` redeem to while `total_shares` are backed by `total_assets`.
pub open spec fn assets_for(shares: int, total_assets: int, total_shares: int) -> int {
    pro_rata(shares, total_assets, total_shares)
}

/// `a - b`, or the bound that it lies beyond.
pub open spec fn saturating_difference(a: int, b: int) -> int {
    if a - b > i128::MAX {
        i128::MAX as int
    } else if a - b < i128::MIN {
        i128::MIN as int
    } else {
        a - b
    }
}

/// A quotient lies between zero and its numerator.
pub proof fn lemma_quotient_bounds(n: int, d: int)
    requires
        d > 0,
    ensures
        n >= 0 ==> 0 <= quotient(n, d) <= n,
        n <= 0 ==> n <= quotient(n, d) <= 0,
{
    assert(n >= 0 ==> 0 <= n / d <= n) by (nonlinear_arith)
        requires
            d > 0,
    ;
    assert(n <= 0 ==> 0 <= (-n) / d <= -n) by (nonlinear_arith)
        requires
            d > 0,
    ;
}

/// What rounding down means: the rest is smaller than the whole.
pub proof fn lemma_pro_rata(part: int, total: int, whole: int)
    requires
        part >= 0,
        total >= 0,
        whole > 0,
    ensures
        0 <= pro_rata(part, total, whole),
        pro_rata(part, total, whole) * whole <= part * total,
        part * total < (pro_rata(part, total, whole) + 1) * whole,
{
    let n = part * total;
    assert(n >= 0) by (nonlinear_arith)
        requires
            part >= 0,
            total >= 0,
            n == part * total,
    ;
    let q = n / whole;
    assert(0 <= q && q * whole <= n && n < (q + 1) * whole) by (nonlinear_arith)
        requires
            n >= 0,
            whole > 0,
            q == n / whole,
    ;
}

/// The greatest number that, times `d`, does not exceed `n`.
pub proof fn lemma_quotient_is_greatest(q: int, n: int, d: int)
    requires
        d > 0,
        n >= 0,
        q * d <= n,
    ensures
        q <= quotient(n, d),
{
    let f = n / d;
    assert(n < (f + 1) * d) by (nonlinear_arith)
        requires
            d > 0,
            f == n / d,
    ;
    assert(q < f + 1) by (nonlinear_arith)
        requires
            q * d < (f + 1) * d,
            d > 0,
    ;
}

/// Some of the whole is worth no more than all of it, and less unless it is all of it; all of it
/// is worth the total.
pub proof fn lemma_part_of_whole(part: int, total: int, whole: int)
    requires
        0 <= part <= whole,
        total >= 0,
        whole > 0,
    ensures
        0 <= pro_rata(part, total, whole) <= total,
        part == whole ==> pro_rata(part, total, whole) == total,
        part < whole && total > 0 ==> pro_rata(part, total, whole) < total,
{
    lemma_pro_rata(part, total, whole);
    let q = pro_rata(part, total, whole);
    assert(q <= total) by (nonlinear_arith)
        requires
            q * whole <= part * total,
            0 <= part <= whole,
            total >= 0,
            whole > 0,
    ;
    if part == whole {
        assert(total < q + 1) by (nonlinear_arith)
            requires
                part * total < (q + 1) * whole,
                part == whole,
                whole > 0,
        ;
    }
    if part < whole && total > 0 {
        assert(q < total) by (nonlinear_arith)
            requires
                q * whole <= part * total,
                part < whole,
                total > 0,
                whole > 0,
        ;
    }
}

/// Of two totals the greater gives a part no less, and the difference is no more than that of the
/// totals.
pub proof fn lemma_two_totals(part: int, less: int, more: int, whole: int)
    requires
        0 <= part <= whole,
        0 <= less <= more,
        whole > 0,
    ensures
        pro_rata(part, less, whole) <= pro_rata(part, more, whole),
        pro_rata(part, more, whole) - pro_rata(part, less, whole) <= more - less,
{
    lemma_pro_rata(part, less, whole);
    lemma_pro_rata(part, more, whole);
    let q = pro_rata(part, less, whole);
    let r = pro_rata(part, more, whole);
    assert(part * more >= 0 && part * less <= part * more) by (nonlinear_arith)
        requires
            0 <= part,
            0 <= less <= more,
    ;
    lemma_quotient_is_greatest(q, part * more, whole);
    // r * whole <= part * more and part * less < (q + 1) * whole
    assert(part * more - part * less <= (more - less) * whole) by (nonlinear_arith)
        requires
            0 <= part <= whole,
            0 <= less <= more,
    ;
    assert(r - q - 1 < more - less) by (nonlinear_arith)
        requires
            r * whole <= part * more,
            part * less < (q + 1) * whole,
            part * more - part * less <= (more - less) * whole,
            whole > 0,
    ;
}

/// Where the exchange rate has not fallen, no part is worth less.
pub proof fn lemma_better_rate(part: int, total: int, whole: int, new_total: int, new_whole: int)
    requires
        part >= 0,
        total >= 0,
        whole > 0,
        new_total >= 0,
        new_whole > 0,
        new_total * whole >= total * new_whole,
    ensures
        pro_rata(part, new_total, new_whole) >= pro_rata(part, total, whole),
{
    lemma_pro_rata(part, total, whole);
    let q = pro_rata(part, total, whole);
    assert((q * whole) * new_whole <= (part * total) * new_whole) by (nonlinear_arith)
        requires
            q * whole <= part * total,
            new_whole > 0,
    ;
    assert(part * (total * new_whole) <= part * (new_total * whole)) by (nonlinear_arith)
        requires
            part >= 0,
            new_total * whole >= total * new_whole,
    ;
    assert((q * whole) * new_whole == (q * new_whole) * whole) by (nonlinear_arith);
    assert((part * total) * new_whole == part * (total * new_whole)) by (nonlinear_arith);
    assert(part * (new_total * whole) == (part * new_total) * whole) by (nonlinear_arith);
    assert(q * new_whole <= part * new_total) by (nonlinear_arith)
        requires
            (q * new_whole) * whole <= (part * new_total) * whole,
            whole > 0,
    ;
    assert(part * new_total >= 0) by (nonlinear_arith)
        requires
            part >= 0,
            new_total >= 0,
    ;
    lemma_quotient_is_greatest(q, part * new_total, new_whole);
}

/// `a - b`, or the bound that it lies beyond.
pub fn saturating_minus(a: i128, b: i128) -> (r: i128)
    ensures
        r == saturating_difference(a as int, b as int),
{
    match a.checked_sub(b) {
        Some(r) => r,
        None => if b < 0 {
            i128::MAX
        } else {
            i128::MIN
        },
    }
}

/// `part * total / whole` rounded towards zero, if the product can be held.
pub fn checked_pro_rata(part: i128, total: i128, whole: i128) -> (r: Option<i128>)
    requires
        whole > 0,
    ensures
        fits(part * total) ==> r is Some && r->0 == pro_rata(
            part as int,
            total as int,
            whole as int,
        ),
        !fits(part * total) ==> r is None,
{
    match part.checked_mul(total) {
        Some(product) => {
            proof {
                lemma_quotient_bounds(product as int, whole as int);
            }
            product.checked_div(whole)
        },
        None => None,
    }
}

} // verus!
