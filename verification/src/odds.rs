//! Exact odds arithmetic. The odds of a side are the ratio of the total pool
//! to that side's stake; a partial fill is rejected when the taker's implied
//! odds exceed the resting record's by more than 1/100, and the resting
//! record then shrinks proportionally, preserving its price.
use vstd::prelude::*;

use vstd::arithmetic::div_mod::{lemma_fundamental_div_mod, lemma_mod_bound,
    lemma_mod_multiples_basic};

verus! {

/// The taker's implied odds `(p0 + p1) / ps` exceed the resting odds
/// `(s0 + s1) / ss` by more than 1/100, stated cross-multiplied so that it is
/// exact for every stake.
pub open spec fn odds_too_high(p0: u64, p1: u64, ps: u64, s0: u64, s1: u64, ss: u64) -> bool {
    100 * (p0 + p1) * ss > 100 * (s0 + s1) * ps + ps * ss
}

/// Compares `a / b` against `c / d + 1` by quotient and remainder, so that
/// no product wider than 128 bits is ever needed.
proof fn lemma_frac_cmp(a: int, b: int, c: int, d: int)
    requires
        a >= 0,
        c >= 0,
        b > 0,
        d > 0,
    ensures
        (a * d > c * b + b * d) <==> (a / b > c / d + 1 || (a / b == c / d + 1 && (a % b) * d > (c
            % d) * b)),
{
    let q1 = a / b;
    let r1 = a % b;
    let q2 = c / d;
    let r2 = c % d;
    lemma_fundamental_div_mod(a, b);
    lemma_fundamental_div_mod(c, d);
    lemma_mod_bound(a, b);
    lemma_mod_bound(c, d);
    let x = b * d;
    assert(a * d == q1 * x + r1 * d) by (nonlinear_arith)
        requires
            a == b * q1 + r1,
            x == b * d,
    ;
    assert(c * b + b * d == q2 * x + r2 * b + x) by (nonlinear_arith)
        requires
            c == d * q2 + r2,
            x == b * d,
    ;
    assert(0 <= r1 * d < x && 0 <= r2 * b < x) by (nonlinear_arith)
        requires
            0 <= r1 < b,
            0 <= r2 < d,
            b > 0,
            d > 0,
            x == b * d,
    ;
    assert(q1 >= 0 && q2 >= 0) by (nonlinear_arith)
        requires
            a == b * q1 + r1,
            c == d * q2 + r2,
            a >= 0,
            c >= 0,
            0 <= r1 < b,
            0 <= r2 < d,
    ;
    if q1 >= q2 + 2 {
        assert(q1 * x + r1 * d > q2 * x + r2 * b + x) by (nonlinear_arith)
            requires
                q1 >= q2 + 2,
                x > 0,
                0 <= r1 * d,
                r2 * b < x,
        ;
    } else if q1 <= q2 {
        assert(q1 * x + r1 * d < q2 * x + r2 * b + x) by (nonlinear_arith)
            requires
                q1 <= q2,
                x > 0,
                r1 * d < x,
                0 <= r2 * b,
        ;
    } else {
        assert(q1 == q2 + 1);
        assert(q1 * x + r1 * d > q2 * x + r2 * b + x <==> r1 * d > r2 * b) by (nonlinear_arith)
            requires
                q1 == q2 + 1,
        ;
    }
}

/// Decides whether the taker's odds exceed the resting odds by more than the
/// 1/100 tolerance.
pub fn odds_exceed_tolerance(p0: u64, p1: u64, ps: u64, s0: u64, s1: u64, ss: u64) -> (r: bool)
    requires
        ps > 0,
        ss > 0,
    ensures
        r == odds_too_high(p0, p1, ps, s0, s1, ss),
{
    let a: u128 = 100 * (p0 as u128 + p1 as u128);
    let b: u128 = ps as u128;
    let c: u128 = 100 * (s0 as u128 + s1 as u128);
    let d: u128 = ss as u128;
    let q1: u128 = a / b;
    let r1: u128 = a % b;
    let q2: u128 = c / d;
    let r2: u128 = c % d;
    proof {
        lemma_mod_bound(a as int, b as int);
        lemma_mod_bound(c as int, d as int);
        assert(r1 * d < 0x1_0000_0000_0000_0000_0000_0000_0000_0000) by (nonlinear_arith)
            requires
                0 <= r1 < b,
                b <= 0xffff_ffff_ffff_ffff,
                0 <= d <= 0xffff_ffff_ffff_ffff,
        ;
        assert(r2 * b < 0x1_0000_0000_0000_0000_0000_0000_0000_0000) by (nonlinear_arith)
            requires
                0 <= r2 < d,
                d <= 0xffff_ffff_ffff_ffff,
                0 <= b <= 0xffff_ffff_ffff_ffff,
        ;
        lemma_frac_cmp(a as int, b as int, c as int, d as int);
        assert(a * d == 100 * (p0 + p1) * ss && c * b + b * d == 100 * (s0 + s1) * ps + ps * ss)
            by (nonlinear_arith)
            requires
                a == 100 * (p0 + p1),
                b == ps,
                c == 100 * (s0 + s1),
                d == ss,
        ;
    }
    q1 > q2 + 1 || (q1 == q2 + 1 && r1 * d > r2 * b)
}

/// The stake that keeps the resting record's price after its targeted side
/// shrinks to `new_side`: the opposite stake is rebuilt from the record's
/// prior whole-number odds, truncating towards zero.
pub open spec fn rebalanced_other(old_side: u64, old_other: u64, new_side: u64) -> int {
    new_side * (old_other as int / old_side as int)
}

/// Shrinks the resting side by `fill` and rebuilds the opposite stake so the
/// record keeps its original price.
pub fn rebalance(old_side: u64, old_other: u64, fill: u64) -> (r: (u64, u64))
    requires
        0 < old_side,
        fill <= old_side,
    ensures
        r.0 == old_side - fill,
        r.1 == rebalanced_other(old_side, old_other, (old_side - fill) as u64),
{
    let new_side = old_side - fill;
    let q = old_other / old_side;
    proof {
        lemma_fundamental_div_mod(old_other as int, old_side as int);
        lemma_mod_bound(old_other as int, old_side as int);
        assert(new_side * q <= old_other) by (nonlinear_arith)
            requires
                old_other == old_side * q + old_other as int % old_side as int,
                0 <= old_other as int % old_side as int,
                0 <= new_side <= old_side,
                q >= 0,
        ;
    }
    let new_other = new_side * q;
    (new_side, new_other)
}

/// Law (odds invariance, one fill): when the resting side's stake divides
/// the opposite stake, a partial fill leaves the targeted side's implied
/// odds exactly unchanged — cross-multiplied, the new pool over the new
/// stake equals the old pool over the old stake — and divisibility carries
/// to the shrunken record.
pub proof fn lemma_partial_fill_preserves_odds(old_side: u64, old_other: u64, fill: u64)
    requires
        0 < old_side,
        fill <= old_side,
        old_other % old_side == 0,
    ensures
        (rebalanced_other(old_side, old_other, (old_side - fill) as u64) + (old_side - fill))
            * old_side == (old_other + old_side) * (old_side - fill),
        old_side - fill > 0 ==> rebalanced_other(old_side, old_other, (old_side - fill) as u64)
            % (old_side - fill) == 0,
{
    let q = old_other as int / old_side as int;
    let ns = old_side - fill;
    lemma_fundamental_div_mod(old_other as int, old_side as int);
    assert(old_other == old_side * q);
    assert((ns * q + ns) * old_side == (old_side * q + old_side) * ns) by (nonlinear_arith);
    if ns > 0 {
        lemma_mod_multiples_basic(q, ns);
        assert(ns * q == q * ns) by (nonlinear_arith);
    }
}

/// Every fill in the sequence can be carried out against the record it meets:
/// the targeted side is still positive and at least as large as the fill.
pub open spec fn fills_ok(side: u64, other: u64, fills: Seq<u64>) -> bool
    decreases fills.len(),
{
    fills.len() == 0 || (0 < side && fills[0] <= side && fills_ok(
        (side - fills[0]) as u64,
        rebalanced_other(side, other, (side - fills[0]) as u64) as u64,
        fills.drop_first(),
    ))
}

/// The targeted side's stakes after a sequence of partial fills, each
/// shrinking the side and rebuilding the opposite stake.
pub open spec fn apply_fills(side: u64, other: u64, fills: Seq<u64>) -> (u64, u64)
    decreases fills.len(),
{
    if fills.len() == 0 {
        (side, other)
    } else {
        apply_fills(
            (side - fills[0]) as u64,
            rebalanced_other(side, other, (side - fills[0]) as u64) as u64,
            fills.drop_first(),
        )
    }
}

/// Law (odds invariance, any sequence): starting from a record whose
/// targeted side divides the opposite stake, any sequence of partial fills
/// leaves the targeted side's implied odds exactly where they began:
/// cross-multiplied, the final pool over the final stake equals the original
/// pool over the original stake.
pub proof fn lemma_fill_sequence_preserves_odds(side: u64, other: u64, fills: Seq<u64>)
    requires
        other % side == 0 || side == 0,
        fills_ok(side, other, fills),
    ensures
        (apply_fills(side, other, fills).1 + apply_fills(side, other, fills).0) * side == (other
            + side) * apply_fills(side, other, fills).0,
    decreases fills.len(),
{
    if fills.len() == 0 {
    } else {
        let ns = (side - fills[0]) as u64;
        let q = other as int / side as int;
        lemma_fundamental_div_mod(other as int, side as int);
        lemma_mod_bound(other as int, side as int);
        assert(0 <= ns * q <= other) by (nonlinear_arith)
            requires
                other == side * q + other as int % side as int,
                0 <= other as int % side as int,
                0 <= ns <= side,
                0 < side,
        ;
        let no = rebalanced_other(side, other, ns) as u64;
        assert(no == ns * q);
        lemma_partial_fill_preserves_odds(side, other, fills[0]);
        assert((no + ns) * side == (other + side) * ns);
        lemma_fill_sequence_preserves_odds(ns, no, fills.drop_first());
        let fs = apply_fills(ns, no, fills.drop_first());
        assert(fs == apply_fills(side, other, fills));
        assert((fs.1 + fs.0) * ns == (no + ns) * fs.0);
        if ns == 0 {
            assert(fills.drop_first().len() == 0) by {
                if fills.drop_first().len() > 0 {
                    assert(fills_ok(ns, no, fills.drop_first()));
                }
            }
            assert(fs == (ns, no));
            assert(no == 0) by (nonlinear_arith)
                requires
                    no == ns * q,
                    ns == 0,
            ;
        } else {
            assert((fs.1 + fs.0) * side * ns == (other + side) * fs.0 * ns) by (nonlinear_arith)
                requires
                    (fs.1 + fs.0) * ns == (no + ns) * fs.0,
                    (no + ns) * side == (other + side) * ns,
            ;
            assert((fs.1 + fs.0) * side == (other + side) * fs.0) by (nonlinear_arith)
                requires
                    (fs.1 + fs.0) * side * ns == (other + side) * fs.0 * ns,
                    ns != 0,
            ;
        }
    }
}

} // verus!
