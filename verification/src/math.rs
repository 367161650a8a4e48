use vstd::prelude::*;
use vstd::arithmetic::div_mod::{
    lemma_div_by_multiple, lemma_div_denominator, lemma_div_is_ordered, lemma_div_pos_is_pos,
    lemma_fundamental_div_mod, lemma_fundamental_div_mod_converse, lemma_mod_bound,
};
use vstd::arithmetic::mul::{
    lemma_mul_inequality, lemma_mul_is_commutative, lemma_mul_is_distributive_add,
    lemma_mul_upper_bound,
};

verus! {

/// Fee percentages are carried in hundredths of a percent (basis points):
/// a fee of 1% is 100, and `FEE_SCALE` is the whole.
pub const FEE_SCALE: u64 = 10_000;

/// `amount` scaled by `keep_bps / FEE_SCALE`, truncated toward zero.
pub open spec fn scaled(amount: nat, keep_bps: nat) -> nat
    recommends
        keep_bps <= FEE_SCALE,
{
    (amount * keep_bps) / (FEE_SCALE as nat)
}

/// The constant-product output before any fee: paying `amount_in` of one
/// asset against an input reserve of `reserve_in` yields
/// `reserve_out * amount_in / (reserve_in + amount_in)` of the other,
/// truncated toward zero.
pub open spec fn ratio(reserve_out: nat, amount_in: nat, denominator_sum: nat) -> nat
    recommends
        denominator_sum > 0,
{
    (reserve_out * amount_in) / denominator_sum
}

/// The constant-product output with the fee taken in the same division:
/// `ratio` scaled by `keep_bps / FEE_SCALE`, with a single truncation.
pub open spec fn scaled_ratio(
    reserve_out: nat,
    amount_in: nat,
    denominator_sum: nat,
    keep_bps: nat,
) -> nat
    recommends
        denominator_sum > 0,
        keep_bps <= FEE_SCALE,
{
    (reserve_out * amount_in * keep_bps) / (denominator_sum * (FEE_SCALE as nat))
}

/// Scaling by at most the whole never increases the amount.
pub proof fn lemma_scaled_le(amount: nat, keep_bps: nat)
    requires
        keep_bps <= FEE_SCALE,
    ensures
        scaled(amount, keep_bps) <= amount,
{
    let s = FEE_SCALE as int;
    lemma_mul_inequality(keep_bps as int, s, amount as int);
    lemma_mul_is_commutative(amount as int, keep_bps as int);
    lemma_mul_is_commutative(amount as int, s);
    lemma_div_is_ordered(amount as int * keep_bps as int, amount as int * s, s);
    lemma_div_by_multiple(amount as int, s);
}

/// The constant-product output never exceeds the opposite reserve, because
/// `amount_in` never exceeds the denominator it is part of.
pub proof fn lemma_ratio_le_reserve(reserve_out: nat, amount_in: nat, denominator_sum: nat)
    requires
        denominator_sum > 0,
        amount_in <= denominator_sum,
    ensures
        ratio(reserve_out, amount_in, denominator_sum) <= reserve_out,
{
    let d = denominator_sum as int;
    lemma_mul_inequality(amount_in as int, d, reserve_out as int);
    lemma_mul_is_commutative(reserve_out as int, amount_in as int);
    lemma_mul_is_commutative(reserve_out as int, d);
    lemma_div_is_ordered(reserve_out as int * amount_in as int, reserve_out as int * d, d);
    lemma_div_by_multiple(reserve_out as int, d);
}

/// Two fractions in lowest terms of ordered cross products have ordered
/// truncations: `p1 / q1 <= p2 / q2` whenever `p1 * q2 <= p2 * q1`.
pub proof fn lemma_div_frac_ordered(p1: int, q1: int, p2: int, q2: int)
    requires
        0 <= p1,
        0 <= p2,
        0 < q1,
        0 < q2,
        p1 * q2 <= p2 * q1,
    ensures
        p1 / q1 <= p2 / q2,
{
    lemma_mul_is_commutative(p1, q2);
    lemma_div_by_multiple(p1, q2);
    lemma_div_denominator(p1 * q2, q2, q1);
    assert(p1 / q1 == (p1 * q2) / (q2 * q1));
    lemma_mul_is_commutative(p2, q1);
    lemma_div_by_multiple(p2, q1);
    lemma_div_denominator(p2 * q1, q1, q2);
    assert(p2 / q2 == (p2 * q1) / (q1 * q2));
    lemma_mul_is_commutative(q1, q2);
    assert(q1 * q2 > 0) by (nonlinear_arith)
        requires
            q1 > 0,
            q2 > 0,
    ;
    lemma_div_is_ordered(p1 * q2, p2 * q1, q1 * q2);
}

/// Truncating division splits a sum with a loss of at most one unit.
pub proof fn lemma_div_sum_bounds(x: int, y: int, d: int)
    requires
        0 <= x,
        0 <= y,
        0 < d,
    ensures
        x / d + y / d <= (x + y) / d,
        (x + y) / d <= x / d + y / d + 1,
{
    let q1 = x / d;
    let r1 = x % d;
    let q2 = y / d;
    let r2 = y % d;
    lemma_fundamental_div_mod(x, d);
    lemma_fundamental_div_mod(y, d);
    lemma_mod_bound(x, d);
    lemma_mod_bound(y, d);
    lemma_mul_is_distributive_add(d, q1, q2);
    lemma_mul_is_commutative(d, q1 + q2);
    if r1 + r2 < d {
        lemma_fundamental_div_mod_converse(x + y, d, q1 + q2, r1 + r2);
    } else {
        lemma_mul_is_distributive_add(d, q1 + q2, 1);
        lemma_mul_is_commutative(d, q1 + q2 + 1);
        lemma_fundamental_div_mod_converse(x + y, d, q1 + q2 + 1, r1 + r2 - d);
    }
}

/// `amount` scaled by `keep_bps / FEE_SCALE`, truncated toward zero.
pub fn scale_by_bps(amount: u64, keep_bps: u64) -> (r: u64)
    requires
        keep_bps <= FEE_SCALE,
    ensures
        r == scaled(amount as nat, keep_bps as nat),
        r <= amount,
{
    proof {
        lemma_mul_upper_bound(amount as int, u64::MAX as int, keep_bps as int, FEE_SCALE as int);
        lemma_scaled_le(amount as nat, keep_bps as nat);
        lemma_div_pos_is_pos(amount as int * keep_bps as int, FEE_SCALE as int);
    }
    (((amount as u128) * (keep_bps as u128)) / (FEE_SCALE as u128)) as u64
}

/// The constant-product division: `reserve_out * amount_in / denominator_sum`,
/// truncated toward zero. The result never exceeds `reserve_out`.
pub fn ratio_out(reserve_out: u64, amount_in: u64, denominator_sum: u64) -> (r: u64)
    requires
        denominator_sum > 0,
        amount_in <= denominator_sum,
    ensures
        r == ratio(reserve_out as nat, amount_in as nat, denominator_sum as nat),
        r <= reserve_out,
{
    proof {
        lemma_mul_upper_bound(reserve_out as int, u64::MAX as int, amount_in as int, u64::MAX as int);
        lemma_ratio_le_reserve(reserve_out as nat, amount_in as nat, denominator_sum as nat);
        lemma_div_pos_is_pos(reserve_out as int * amount_in as int, denominator_sum as int);
    }
    (((reserve_out as u128) * (amount_in as u128)) / (denominator_sum as u128)) as u64
}

/// The constant-product division with the fee folded in: the numerator also
/// carries `keep_bps` and the denominator `FEE_SCALE`, still with one
/// truncation. The product of three 64-bit factors does not fit a `u128`, so
/// the quotient is assembled from the split `q == hi * m + lo`.
pub fn scaled_ratio_out(reserve_out: u64, amount_in: u64, denominator_sum: u64, keep_bps: u64) -> (r: u64)
    requires
        denominator_sum > 0,
        amount_in <= denominator_sum,
        keep_bps <= FEE_SCALE,
    ensures
        r == scaled_ratio(reserve_out as nat, amount_in as nat, denominator_sum as nat, keep_bps as nat),
        r <= ratio(reserve_out as nat, amount_in as nat, denominator_sum as nat),
        r <= reserve_out,
{
    proof {
        lemma_mul_upper_bound(reserve_out as int, u64::MAX as int, amount_in as int, u64::MAX as int);
        lemma_mul_upper_bound(denominator_sum as int, u64::MAX as int, FEE_SCALE as int, FEE_SCALE as int);
    }
    let q: u128 = (reserve_out as u128) * (amount_in as u128);
    let m: u128 = (denominator_sum as u128) * (FEE_SCALE as u128);
    let k: u128 = keep_bps as u128;
    proof {
        lemma_mul_inequality(1, denominator_sum as int, FEE_SCALE as int);
        lemma_mul_is_commutative(denominator_sum as int, FEE_SCALE as int);
        assert(FEE_SCALE <= m);
    }
    let hi: u128 = q / m;
    let lo: u128 = q % m;
    proof {
        lemma_fundamental_div_mod(q as int, m as int);
        lemma_mod_bound(q as int, m as int);
        lemma_div_pos_is_pos(q as int, m as int);
        // hi * k stays below q, because k <= m and hi * m <= q.
        lemma_mul_inequality(k as int, m as int, hi as int);
        lemma_mul_is_commutative(hi as int, k as int);
        lemma_mul_is_commutative(hi as int, m as int);
        lemma_mul_inequality(0, lo as int, m as int);
        assert(hi as int * m as int <= q as int);
        lemma_mul_upper_bound(lo as int, m as int, k as int, FEE_SCALE as int);
    }
    let high_part: u128 = hi * k;
    let low_part: u128 = (lo * k) / m;
    proof {
        let qi = q as int;
        let mi = m as int;
        let ki = k as int;
        let hii = hi as int;
        let loi = lo as int;
        let q2 = (loi * ki) / mi;
        let r2 = (loi * ki) % mi;
        lemma_mul_nonneg(loi, ki);
        lemma_fundamental_div_mod(loi * ki, mi);
        lemma_mod_bound(loi * ki, mi);
        lemma_div_pos_is_pos(loi * ki, mi);
        assert(qi * ki == (hii * ki + q2) * mi + r2) by (nonlinear_arith)
            requires
                qi == mi * hii + loi,
                loi * ki == mi * q2 + r2,
        ;
        lemma_mul_nonneg(qi, ki);
        lemma_fundamental_div_mod_converse(qi * ki, mi, hii * ki + q2, r2);
        assert((qi * ki) / mi == hii * ki + q2);
        // The full quotient is bounded by the unscaled ratio, hence by the
        // reserve, so the sum and the final narrowing are in range.
        lemma_mul_inequality(ki, FEE_SCALE as int, qi);
        lemma_mul_is_commutative(qi, ki);
        lemma_mul_is_commutative(qi, FEE_SCALE as int);
        lemma_div_is_ordered(qi * ki, qi * (FEE_SCALE as int), mi);
        lemma_div_by_multiple(qi, FEE_SCALE as int);
        lemma_div_denominator(qi * (FEE_SCALE as int), FEE_SCALE as int, denominator_sum as int);
        lemma_mul_is_commutative(FEE_SCALE as int, denominator_sum as int);
        assert((qi * (FEE_SCALE as int)) / mi == qi / (denominator_sum as int));
        lemma_ratio_le_reserve(reserve_out as nat, amount_in as nat, denominator_sum as nat);
    }
    (high_part + low_part) as u64
}

/// A product of nonnegative factors is nonnegative.
pub proof fn lemma_mul_nonneg(x: int, y: int)
    requires
        0 <= x,
        0 <= y,
    ensures
        0 <= x * y,
{
    lemma_mul_inequality(0, x, y);
}

} // verus!
