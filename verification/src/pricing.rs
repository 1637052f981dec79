//! Constant-product pricing.
//!
//! A pool that holds `reserve_in` of one token and `reserve_out` of the other
//! keeps the product of the two from shrinking. For an input of `amount_in`
//! it first takes its fee, `fee_bps` basis points of the input, and then pays
//!
//! ```text
//! reserve_out * d / (reserve_in + d),    d = amount_in * (10_000 - fee_bps) / 10_000
//! ```
//!
//! with both divisions rounded down. All amounts are whole numbers of the
//! smallest unit of their token; nothing is computed in floating point, so
//! the same reserves always give the same amounts.
//!
//! In the proofs `i` and `o` stand for the reserves on the paying and on the
//! receiving side of a pool, `x` for what enters a chain of swaps and `y`
//! for what leaves a swap.

use vstd::arithmetic::mul::{
    lemma_mul_basics, lemma_mul_inequality, lemma_mul_inequality_converse,
    lemma_mul_is_associative, lemma_mul_is_commutative, lemma_mul_is_distributive_add,
    lemma_mul_is_distributive_add_other_way, lemma_mul_is_distributive_sub,
    lemma_mul_is_distributive_sub_other_way, lemma_mul_nonnegative, lemma_mul_strictly_positive,
    lemma_mul_upper_bound,
};
use vstd::prelude::*;

verus! {

/// One hundred percent, in basis points.
pub const BPS_DENOMINATOR: u64 = 10_000;

/// `amount` less `bps` basis points of it, rounded down:
/// `amount * (10_000 - bps) / 10_000`. A deduction of 100% or more leaves
/// nothing. It gives the input that reaches a pool after its fee, and the
/// least output that a slippage tolerance still accepts.
pub open spec fn reduced_by_bps(amount: nat, bps: nat) -> nat {
    if bps >= 10_000 {
        0
    } else {
        (amount * (10_000 - bps)) as nat / 10_000
    }
}

/// What a constant-product pool pays out for `amount_in`:
/// `reserve_out * d / (reserve_in + d)`, rounded down, where `d` is the
/// input after the fee. A pool with nothing on the input side that also
/// receives nothing pays nothing.
pub open spec fn swap_output(reserve_in: nat, reserve_out: nat, amount_in: nat, fee_bps: nat) -> nat {
    let effective = reduced_by_bps(amount_in, fee_bps);
    if reserve_in + effective == 0 {
        0
    } else {
        reserve_out * effective / (reserve_in + effective)
    }
}

/// A deduction never adds, and a deduction of nothing changes nothing.
pub proof fn lemma_reduced_by_bps_bound(amount: nat, bps: nat)
    ensures
        reduced_by_bps(amount, bps) <= amount,
        bps == 0 ==> reduced_by_bps(amount, bps) == amount,
{
    if bps < 10_000 {
        let keep: int = 10_000 - bps;
        lemma_mul_nonnegative(amount as int, keep);
        lemma_mul_inequality(keep, 10_000, amount as int);
        lemma_mul_is_commutative(keep, amount as int);
        vstd::arithmetic::div_mod::lemma_div_is_ordered(amount * keep, 10_000 * (amount as int), 10_000);
        vstd::arithmetic::div_mod::lemma_div_multiples_vanish(amount as int, 10_000);
    }
}

/// Computes `reduced_by_bps` without overflow.
pub fn reduce_by_bps(amount: u64, bps: u64) -> (reduced: u64)
    ensures
        reduced == reduced_by_bps(amount as nat, bps as nat),
{
    if bps >= BPS_DENOMINATOR {
        return 0;
    }
    let keep: u128 = (BPS_DENOMINATOR - bps) as u128;
    proof {
        lemma_reduced_by_bps_bound(amount as nat, bps as nat);
        lemma_mul_upper_bound(amount as int, 0xffff_ffff_ffff_ffff, keep as int, 10_000);
    }
    let scaled: u128 = (amount as u128) * keep;
    let reduced: u128 = scaled / (BPS_DENOMINATOR as u128);
    reduced as u64
}

/// The bounds that every swap keeps: the pool never pays more than it holds,
/// the payout is the quotient rounded down, and the product of the reserves
/// does not shrink.
pub proof fn lemma_swap_output_bounds(reserve_in: nat, reserve_out: nat, amount_in: nat, fee_bps: nat)
    ensures
        swap_output(reserve_in, reserve_out, amount_in, fee_bps) <= reserve_out,
        swap_output(reserve_in, reserve_out, amount_in, fee_bps) * (reserve_in + reduced_by_bps(
            amount_in,
            fee_bps,
        )) <= reserve_out * reduced_by_bps(amount_in, fee_bps),
        reserve_in * reserve_out <= (reserve_in + reduced_by_bps(amount_in, fee_bps)) * (reserve_out
            - swap_output(reserve_in, reserve_out, amount_in, fee_bps)),
{
    let e: int = reduced_by_bps(amount_in, fee_bps) as int;
    let d: int = reserve_in + e;
    let i: int = reserve_in as int;
    let o: int = reserve_out as int;
    let y: int = swap_output(reserve_in, reserve_out, amount_in, fee_bps) as int;
    lemma_mul_nonnegative(o, e);
    if d == 0 {
        assert(y == 0 && i == 0 && e == 0);
        lemma_mul_basics(y);
        lemma_mul_basics(o);
        lemma_mul_basics(o - y);
    } else {
        // y is the quotient of o * e by d, so y * d <= o * e.
        vstd::arithmetic::div_mod::lemma_fundamental_div_mod(o * e, d);
        vstd::arithmetic::div_mod::lemma_mod_bound(o * e, d);
        lemma_mul_is_commutative(d, y);
        assert(y * d <= o * e);
        // e <= d, so y * d <= o * d, and y <= o.
        lemma_mul_inequality(e, d, o);
        lemma_mul_is_commutative(e, o);
        lemma_mul_is_commutative(d, o);
        lemma_mul_inequality_converse(y, o, d);
        // (i + e) * (o - y) = d * o - d * y >= d * o - o * e = i * o.
        lemma_mul_is_distributive_sub(d, o, y);
        lemma_mul_is_distributive_add_other_way(o, i, e);
        lemma_mul_is_commutative(e, o);
    }
}

/// A swap of nothing pays nothing.
pub proof fn lemma_swap_of_nothing(reserve_in: nat, reserve_out: nat, fee_bps: nat)
    ensures
        swap_output(reserve_in, reserve_out, 0, fee_bps) == 0,
{
    lemma_reduced_by_bps_bound(0, fee_bps);
    assert(reduced_by_bps(0, fee_bps) == 0);
    if reserve_in > 0 {
        lemma_mul_basics(reserve_out as int);
        vstd::arithmetic::div_mod::lemma_div_of0(reserve_in as int);
    }
}

/// Computes `swap_output` without overflow: every intermediate value fits
/// in 128 bits, and the result is at most `reserve_out`.
pub fn quote_swap(reserve_in: u64, reserve_out: u64, amount_in: u64, fee_bps: u64) -> (amount_out: u64)
    ensures
        amount_out == swap_output(reserve_in as nat, reserve_out as nat, amount_in as nat, fee_bps as nat),
{
    let effective: u64 = reduce_by_bps(amount_in, fee_bps);
    let denominator: u128 = reserve_in as u128 + effective as u128;
    if denominator == 0 {
        return 0;
    }
    proof {
        lemma_swap_output_bounds(reserve_in as nat, reserve_out as nat, amount_in as nat, fee_bps as nat);
        lemma_mul_upper_bound(
            reserve_out as int,
            0xffff_ffff_ffff_ffff,
            effective as int,
            0xffff_ffff_ffff_ffff,
        );
    }
    let numerator: u128 = (reserve_out as u128) * (effective as u128);
    let amount_out: u128 = numerator / denominator;
    amount_out as u64
}


/// What comes back from routing `amount_in` through three pools in turn,
/// each leg paying in what the leg before paid out.
pub open spec fn round_trip_output(
    reserve_in_1: nat,
    reserve_out_1: nat,
    reserve_in_2: nat,
    reserve_out_2: nat,
    reserve_in_3: nat,
    reserve_out_3: nat,
    amount_in: nat,
    fee_bps: nat,
) -> nat {
    let after_first = swap_output(reserve_in_1, reserve_out_1, amount_in, fee_bps);
    let after_second = swap_output(reserve_in_2, reserve_out_2, after_first, fee_bps);
    swap_output(reserve_in_3, reserve_out_3, after_second, fee_bps)
}

/// One step of the bound on a chain of swaps. If the amount `t` that enters
/// a leg satisfies `t * (a + b * x) <= c * x`, then what leaves the leg
/// satisfies the same shape of bound with the leg's reserves folded in.
proof fn lemma_chain_step(i: int, o: int, e: int, t: int, y: int, a: int, b: int, c: int, x: int)
    requires
        0 <= i,
        0 <= e <= t,
        0 <= y <= o,
        y * (i + e) <= o * e,
        0 <= a,
        0 <= b,
        0 <= c,
        0 <= x,
        t * (a + b * x) <= c * x,
    ensures
        y * (i * a + (i * b + c) * x) <= o * c * x,
{
    let w: int = a + b * x;
    let u: int = o - y;
    lemma_mul_nonnegative(b, x);
    // What the leg itself gives: y * i <= u * t.
    lemma_mul_is_distributive_add(y, i, e);
    lemma_mul_is_distributive_sub_other_way(e, o, y);
    lemma_mul_inequality(e, t, u);
    lemma_mul_is_commutative(e, u);
    lemma_mul_is_commutative(t, u);
    assert(y * i <= u * t);
    // Scaled by w, and with the bound on t.
    lemma_mul_inequality(y * i, u * t, w);
    lemma_mul_is_associative(u, t, w);
    lemma_mul_inequality(t * w, c * x, u);
    lemma_mul_is_commutative(t * w, u);
    lemma_mul_is_commutative(c * x, u);
    assert((y * i) * w <= u * (c * x));
    lemma_mul_is_distributive_sub_other_way(c * x, o, y);
    lemma_mul_is_associative(o, c, x);
    assert((y * i) * w + y * (c * x) <= o * c * x);
    // The left side, regrouped.
    lemma_mul_is_distributive_add_other_way(x, i * b, c);
    lemma_mul_is_associative(i, b, x);
    lemma_mul_is_distributive_add(i, a, b * x);
    assert(i * a + (i * b + c) * x == i * w + c * x);
    lemma_mul_is_distributive_add(y, i * w, c * x);
    lemma_mul_is_associative(y, i, w);
}

/// The bound on a whole round trip: with `p` the product of the three
/// reserves on the paying side, `q` the product of the three on the
/// receiving side, and `k` the correction for the depth of the pools,
/// `output * (p + k * amount_in) <= q * amount_in`.
pub proof fn lemma_round_trip_bound(
    reserve_in_1: nat,
    reserve_out_1: nat,
    reserve_in_2: nat,
    reserve_out_2: nat,
    reserve_in_3: nat,
    reserve_out_3: nat,
    amount_in: nat,
    fee_bps: nat,
)
    ensures
        round_trip_output(
            reserve_in_1,
            reserve_out_1,
            reserve_in_2,
            reserve_out_2,
            reserve_in_3,
            reserve_out_3,
            amount_in,
            fee_bps,
        ) * (reserve_in_3 * (reserve_in_2 * reserve_in_1) + (reserve_in_3 * (reserve_in_2
            + reserve_out_1) + reserve_out_2 * reserve_out_1) * amount_in) <= reserve_out_3 * (
        reserve_out_2 * reserve_out_1) * amount_in,
{
    let x: int = amount_in as int;
    let (i1, o1): (int, int) = (reserve_in_1 as int, reserve_out_1 as int);
    let (i2, o2): (int, int) = (reserve_in_2 as int, reserve_out_2 as int);
    let (i3, o3): (int, int) = (reserve_in_3 as int, reserve_out_3 as int);
    let y1 = swap_output(reserve_in_1, reserve_out_1, amount_in, fee_bps);
    let y2 = swap_output(reserve_in_2, reserve_out_2, y1, fee_bps);
    let y3 = swap_output(reserve_in_3, reserve_out_3, y2, fee_bps);
    let e1: int = reduced_by_bps(amount_in, fee_bps) as int;
    let e2: int = reduced_by_bps(y1, fee_bps) as int;
    let e3: int = reduced_by_bps(y2, fee_bps) as int;
    lemma_reduced_by_bps_bound(amount_in, fee_bps);
    lemma_reduced_by_bps_bound(y1, fee_bps);
    lemma_reduced_by_bps_bound(y2, fee_bps);
    lemma_swap_output_bounds(reserve_in_1, reserve_out_1, amount_in, fee_bps);
    lemma_swap_output_bounds(reserve_in_2, reserve_out_2, y1, fee_bps);
    lemma_swap_output_bounds(reserve_in_3, reserve_out_3, y2, fee_bps);

    // After the first leg: y1 * (i1 + x) <= o1 * x.
    lemma_mul_basics(x);
    lemma_chain_step(i1, o1, e1, x, y1 as int, 1, 0, 1, x);
    lemma_mul_basics(i1);
    lemma_mul_basics(o1);
    assert(y1 * (i1 + 1 * x) <= o1 * x);
    // After the second: y2 * (i2 * i1 + (i2 + o1) * x) <= o2 * o1 * x.
    lemma_chain_step(i2, o2, e2, y1 as int, y2 as int, i1, 1, o1, x);
    lemma_mul_basics(i2);
    lemma_mul_nonnegative(i2, i1);
    lemma_mul_nonnegative(o2, o1);
    assert(y2 * (i2 * i1 + (i2 + o1) * x) <= o2 * o1 * x);
    // After the third, the bound of the statement.
    lemma_chain_step(i3, o3, e3, y2 as int, y3 as int, i2 * i1, i2 + o1, o2 * o1, x);
}

/// A round trip against the marginal rates never gains. When the product of
/// the reserves on the receiving sides is no larger than the product on the
/// paying sides, the round trip returns no more than was put in, whatever
/// the amount and the fee.
pub proof fn lemma_round_trip_without_skew_never_gains(
    reserve_in_1: nat,
    reserve_out_1: nat,
    reserve_in_2: nat,
    reserve_out_2: nat,
    reserve_in_3: nat,
    reserve_out_3: nat,
    amount_in: nat,
    fee_bps: nat,
)
    requires
        reserve_out_1 * reserve_out_2 * reserve_out_3 <= reserve_in_1 * reserve_in_2 * reserve_in_3,
    ensures
        round_trip_output(
            reserve_in_1,
            reserve_out_1,
            reserve_in_2,
            reserve_out_2,
            reserve_in_3,
            reserve_out_3,
            amount_in,
            fee_bps,
        ) <= amount_in,
{
    let x: int = amount_in as int;
    let (i1, o1): (int, int) = (reserve_in_1 as int, reserve_out_1 as int);
    let (i2, o2): (int, int) = (reserve_in_2 as int, reserve_out_2 as int);
    let (i3, o3): (int, int) = (reserve_in_3 as int, reserve_out_3 as int);
    let y1 = swap_output(reserve_in_1, reserve_out_1, amount_in, fee_bps);
    let y2 = swap_output(reserve_in_2, reserve_out_2, y1, fee_bps);
    let y3 = swap_output(reserve_in_3, reserve_out_3, y2, fee_bps);
    lemma_swap_output_bounds(reserve_in_1, reserve_out_1, amount_in, fee_bps);
    lemma_swap_output_bounds(reserve_in_2, reserve_out_2, y1, fee_bps);
    lemma_swap_output_bounds(reserve_in_3, reserve_out_3, y2, fee_bps);
    if o1 == 0 || o2 == 0 || o3 == 0 {
        // An empty receiving side stops the chain: everything after it is zero.
        if o1 == 0 {
            lemma_swap_of_nothing(reserve_in_2, reserve_out_2, fee_bps);
        }
        if y2 == 0 {
            lemma_swap_of_nothing(reserve_in_3, reserve_out_3, fee_bps);
        }
    } else {
        lemma_round_trip_bound(
            reserve_in_1,
            reserve_out_1,
            reserve_in_2,
            reserve_out_2,
            reserve_in_3,
            reserve_out_3,
            amount_in,
            fee_bps,
        );
        let p: int = i3 * (i2 * i1);
        let q: int = o3 * (o2 * o1);
        let k: int = i3 * (i2 + o1) + o2 * o1;
        assert(y3 * (p + k * x) <= q * x);
        // The products of the statement, regrouped.
        lemma_mul_is_commutative(o3, o2 * o1);
        lemma_mul_is_commutative(o2, o1);
        lemma_mul_is_commutative(i3, i2 * i1);
        lemma_mul_is_commutative(i2, i1);
        assert(q == o1 * o2 * o3 && p == i1 * i2 * i3);
        lemma_mul_strictly_positive(o2, o1);
        lemma_mul_strictly_positive(o3, o2 * o1);
        lemma_mul_nonnegative(i3, i2 + o1);
        lemma_mul_nonnegative(o2, o1);
        lemma_mul_nonnegative(k, x);
        // y3 * p <= y3 * (p + k * x) <= q * x <= p * x, and p > 0.
        lemma_mul_inequality(p, p + k * x, y3 as int);
        lemma_mul_is_commutative(p, y3 as int);
        lemma_mul_is_commutative(p + k * x, y3 as int);
        lemma_mul_inequality(q, p, x);
        lemma_mul_is_commutative(p, x);
        lemma_mul_inequality_converse(y3 as int, x, p);
    }
}

} // verus!
