use vstd::prelude::*;
use vstd::arithmetic::div_mod::{
    lemma_div_by_multiple, lemma_div_denominator, lemma_div_is_ordered, lemma_remainder_lower,
};
use vstd::arithmetic::mul::{
    lemma_mul_inequality, lemma_mul_is_commutative, lemma_mul_is_distributive_add,
    lemma_mul_is_distributive_sub,
};
use crate::errors::CurveError;
use crate::math::{
    lemma_div_frac_ordered, lemma_div_sum_bounds, lemma_mul_nonneg, lemma_ratio_le_reserve,
    ratio, scaled, scaled_ratio, FEE_SCALE,
};
use crate::state::{spec_swap, BondingCurve, Config, Direction, SwapOutcome};

verus! {

/// `p / q` is unchanged by scaling both parts: `p / q == (p * s) / (q * s)`.
pub proof fn lemma_div_scale(p: int, q: int, s: int)
    requires
        0 <= p,
        0 < q,
        0 < s,
    ensures
        p / q == (p * s) / (q * s),
{
    lemma_mul_nonneg(p, s);
    lemma_mul_is_commutative(p, s);
    lemma_div_by_multiple(p, s);
    lemma_div_denominator(p * s, s, q);
    lemma_mul_is_commutative(q, s);
}

/// Conservation for a sell of `amount` tokens: the realized output plus the
/// fee is the gross constant-product output, and the gross output never
/// exceeds the pre-trade base reserve, so the base-reserve subtraction
/// `reserve_lamport - (amount_out + fee)` never goes negative.
pub proof fn lemma_sell_conserves_reserve(
    reserve_lamport: nat,
    reserve_token: nat,
    amount: nat,
    sell_fee_bps: nat,
)
    requires
        amount > 0,
        sell_fee_bps <= FEE_SCALE,
    ensures
        scaled_ratio(
            reserve_lamport,
            amount,
            reserve_token + amount,
            (FEE_SCALE - sell_fee_bps) as nat,
        ) <= ratio(reserve_lamport, amount, reserve_token + amount),
        ratio(reserve_lamport, amount, reserve_token + amount) <= reserve_lamport,
{
    let d = reserve_token as int + amount as int;
    let s = FEE_SCALE as int;
    let k = s - sell_fee_bps;
    let q = reserve_lamport as int * amount as int;
    lemma_mul_nonneg(reserve_lamport as int, amount as int);
    lemma_ratio_le_reserve(reserve_lamport, amount, reserve_token + amount);
    lemma_mul_inequality(k, s, q);
    lemma_mul_is_commutative(q, k);
    lemma_mul_is_commutative(q, s);
    assert(0 < d * s) by {
        lemma_mul_inequality(1, d, s);
    }
    lemma_div_is_ordered(q * k, q * s, d * s);
    lemma_div_scale(q, d, s);
}

/// The buy-side fee in base units: the incoming amount minus its
/// fee-adjusted part.
pub open spec fn spec_buy_fee(amount: nat, buy_fee_bps: nat) -> int
    recommends
        buy_fee_bps <= FEE_SCALE,
{
    amount - scaled(amount, (FEE_SCALE - buy_fee_bps) as nat)
}

/// Fee monotonicity for buys: with the fee percentage fixed, a larger
/// incoming amount never pays a smaller absolute fee.
pub proof fn lemma_buy_fee_monotone(a1: nat, a2: nat, buy_fee_bps: nat)
    requires
        a1 <= a2,
        buy_fee_bps <= FEE_SCALE,
    ensures
        spec_buy_fee(a1, buy_fee_bps) <= spec_buy_fee(a2, buy_fee_bps),
{
    let s = FEE_SCALE as int;
    let k = s - buy_fee_bps;
    let d = a2 as int - a1 as int;
    lemma_mul_is_distributive_add(k, a1 as int, d);
    lemma_mul_is_commutative(k, a1 as int + d);
    lemma_mul_is_commutative(k, a1 as int);
    lemma_mul_is_commutative(k, d);
    lemma_mul_nonneg(a1 as int, k);
    lemma_mul_nonneg(d, k);
    lemma_div_sum_bounds(a1 as int * k, d * k, s);
    if k == s {
        lemma_div_by_multiple(a1 as int, s);
        lemma_div_by_multiple(a2 as int, s);
    } else if d > 0 {
        let x = d * s - d;
        assert(d * k <= x) by {
            lemma_mul_inequality(k, s - 1, d);
            lemma_mul_is_commutative(d, k);
            lemma_mul_is_commutative(d, s - 1);
            lemma_mul_is_distributive_sub(d, s, 1);
        }
        lemma_remainder_lower(x, s);
        if x / s >= d {
            lemma_mul_inequality(d, x / s, s);
            assert(false);
        }
        lemma_div_is_ordered(d * k, x, s);
    }
}

/// The sell-side fee in base units: gross output minus realized output.
pub open spec fn spec_sell_fee(
    reserve_lamport: nat,
    reserve_token: nat,
    amount: nat,
    sell_fee_bps: nat,
) -> int
    recommends
        amount > 0,
        sell_fee_bps <= FEE_SCALE,
{
    ratio(reserve_lamport, amount, reserve_token + amount) - scaled_ratio(
        reserve_lamport,
        amount,
        reserve_token + amount,
        (FEE_SCALE - sell_fee_bps) as nat,
    )
}

/// The truncated sell fee sits within one unit above the singly-truncated
/// fee fraction `reserve_lamport * amount * fee_bps / ((reserve_token +
/// amount) * FEE_SCALE)`.
proof fn lemma_sell_fee_sandwich(b: int, t: int, a: int, k: int, s: int)
    requires
        0 <= b,
        0 <= t,
        0 < a,
        0 <= k <= s,
        0 < s,
    ensures
        ({
            let d = (t + a) * s;
            let gross = (b * a) / (t + a);
            let net = (b * a * k) / d;
            let f = (b * a * (s - k)) / d;
            f + net <= gross && gross <= f + net + 1
        }),
{
    let q = b * a;
    let d = (t + a) * s;
    lemma_mul_nonneg(b, a);
    assert(0 < d) by {
        lemma_mul_inequality(1, t + a, s);
    }
    lemma_div_scale(q, t + a, s);
    lemma_mul_is_distributive_add(q, k, s - k);
    lemma_mul_nonneg(q, k);
    lemma_mul_nonneg(q, s - k);
    lemma_div_sum_bounds(q * k, q * (s - k), d);
}

/// Near-monotonicity of the sell-side fee: with reserves and percentage
/// fixed, a larger amount can lower the truncated fee by at most one minor
/// unit. (The untruncated fee is monotone; one truncation on each side of
/// the difference can shift it by one. The fee itself is not monotone.)
pub proof fn lemma_sell_fee_near_monotone(
    reserve_lamport: nat,
    reserve_token: nat,
    a1: nat,
    a2: nat,
    sell_fee_bps: nat,
)
    requires
        0 < a1 <= a2,
        sell_fee_bps <= FEE_SCALE,
    ensures
        spec_sell_fee(reserve_lamport, reserve_token, a1, sell_fee_bps) <= spec_sell_fee(
            reserve_lamport,
            reserve_token,
            a2,
            sell_fee_bps,
        ) + 1,
{
    let b = reserve_lamport as int;
    let t = reserve_token as int;
    let s = FEE_SCALE as int;
    let k = s - sell_fee_bps;
    let x1 = a1 as int;
    let x2 = a2 as int;
    lemma_sell_fee_sandwich(b, t, x1, k, s);
    lemma_sell_fee_sandwich(b, t, x2, k, s);
    let p1 = b * x1 * (s - k);
    let q1 = (t + x1) * s;
    let p2 = b * x2 * (s - k);
    let q2 = (t + x2) * s;
    assert(p1 * q2 <= p2 * q1) by (nonlinear_arith)
        requires
            0 <= b,
            0 <= t,
            0 < x1 <= x2,
            0 <= s - k,
            0 < s,
            p1 == b * x1 * (s - k),
            q1 == (t + x1) * s,
            p2 == b * x2 * (s - k),
            q2 == (t + x2) * s,
    ;
    lemma_mul_nonneg(b * x1, s - k);
    lemma_mul_nonneg(b, x1);
    lemma_mul_nonneg(b * x2, s - k);
    lemma_mul_nonneg(b, x2);
    assert(0 < q1) by {
        lemma_mul_inequality(1, t + x1, s);
    }
    assert(0 < q2) by {
        lemma_mul_inequality(1, t + x2, s);
    }
    lemma_div_frac_ordered(p1, q1, p2, q2);
}

/// One swap request as handed to the engine.
#[derive(Clone, Copy, Debug, PartialEq, Eq, Structural)]
pub struct SwapRequest {
    pub amount: u64,
    pub direction: Direction,
    pub minimum_receive_amount: u64,
}

/// The curve state after a sequence of swap requests, failed requests
/// leaving the state as it was.
pub open spec fn apply_swaps(pre: BondingCurve, cfg: Config, requests: Seq<SwapRequest>) -> BondingCurve
    decreases requests.len(),
{
    if requests.len() == 0 {
        pre
    } else {
        let first = requests[0];
        let next = match spec_swap(
            pre,
            cfg,
            first.amount,
            first.direction,
            first.minimum_receive_amount,
        ) {
            Ok(step) => step.0,
            Err(_) => pre,
        };
        apply_swaps(next, cfg, requests.drop_first())
    }
}

/// Completion is monotone: once a curve is completed, every further swap
/// fails with `CurveAlreadyCompleted`, and no sequence of swap requests
/// changes the state or clears the flag.
pub proof fn lemma_completion_monotone(pre: BondingCurve, cfg: Config, requests: Seq<SwapRequest>)
    requires
        pre.is_completed,
    ensures
        apply_swaps(pre, cfg, requests) == pre,
        forall|q: SwapRequest| #[trigger] spec_swap(
            pre,
            cfg,
            q.amount,
            q.direction,
            q.minimum_receive_amount,
        ) == Err::<(BondingCurve, SwapOutcome), CurveError>(CurveError::CurveAlreadyCompleted),
    decreases requests.len(),
{
    if requests.len() > 0 {
        lemma_completion_monotone(pre, cfg, requests.drop_first());
    }
}

} // verus!
