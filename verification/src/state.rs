use vstd::prelude::*;
use crate::errors::CurveError;
use crate::math::{
    ratio, ratio_out, scale_by_bps, scaled, scaled_ratio, scaled_ratio_out, FEE_SCALE,
};

verus! {

/// Trade orientation: buy (base asset in, token out) or
/// sell (token in, base asset out).
#[derive(Clone, Copy, Debug, PartialEq, Eq, Structural)]
pub enum Direction {
    Buy,
    Sell,
}

/// Process-wide configuration: one per deployment, governing every curve.
/// Identities are opaque account numbers; the engine never inspects them.
/// Percentages are in basis points (see `FEE_SCALE`).
#[derive(Clone, Copy, Debug, PartialEq, Eq, Structural)]
pub struct Config {
    pub authority: u64,
    pub pending_authority: u64,
    pub team_wallet: u64,
    pub init_bonding_curve_bps: u64,
    pub platform_buy_fee_bps: u64,
    pub platform_sell_fee_bps: u64,
    pub platform_migration_fee_bps: u64,
    pub curve_limit: u64,
    pub lamport_amount_config: u64,
    pub token_supply_config: u64,
    pub token_decimals_config: u8,
}

impl Config {
    /// Every percentage is a fraction of the whole.
    pub open spec fn wf(self) -> bool {
        &&& self.init_bonding_curve_bps <= FEE_SCALE
        &&& self.platform_buy_fee_bps <= FEE_SCALE
        &&& self.platform_sell_fee_bps <= FEE_SCALE
        &&& self.platform_migration_fee_bps <= FEE_SCALE
    }
}

/// A validation predicate over a configuration amount: either a numeric
/// range with optional inclusive bounds, or an enumerated allow-set.
#[derive(Debug)]
pub enum AmountConfig {
    Range { min: Option<u64>, max: Option<u64> },
    Enum(Vec<u64>),
}

impl AmountConfig {
    /// What `validate` returns: the first violated bound names the error.
    pub open spec fn spec_validate(self, value: u64) -> Result<(), CurveError> {
        match self {
            AmountConfig::Range { min, max } => {
                let too_small = match min {
                    Some(lo) => value < lo,
                    None => false,
                };
                let too_large = match max {
                    Some(hi) => value > hi,
                    None => false,
                };
                if too_small {
                    Err(CurveError::ValueTooSmall)
                } else if too_large {
                    Err(CurveError::ValueTooLarge)
                } else {
                    Ok(())
                }
            },
            AmountConfig::Enum(options) => {
                if options@.contains(value) {
                    Ok(())
                } else {
                    Err(CurveError::ValueInvalid)
                }
            },
        }
    }

    /// Accepts `value` exactly when it lies in the range or in the allow-set.
    pub fn validate(&self, value: u64) -> (r: Result<(), CurveError>)
        ensures
            r == self.spec_validate(value),
    {
        match self {
            AmountConfig::Range { min, max } => {
                if let Some(lo) = min {
                    if value < *lo {
                        return Err(CurveError::ValueTooSmall);
                    }
                }
                if let Some(hi) = max {
                    if value > *hi {
                        return Err(CurveError::ValueTooLarge);
                    }
                }
                Ok(())
            },
            AmountConfig::Enum(options) => {
                let n = options.len();
                let mut i: usize = 0;
                while i < n
                    invariant
                        i <= n,
                        n == options@.len(),
                        forall|j: int| 0 <= j < i ==> options@[j] != value,
                        *self matches AmountConfig::Enum(opts) && opts@ == options@,
                    decreases n - i,
                {
                    if options[i] == value {
                        assert(options@[i as int] == value);
                        assert(*self matches AmountConfig::Enum(opts) && opts@.contains(value));
                        return Ok(());
                    }
                    i += 1;
                }
                Err(CurveError::ValueInvalid)
            },
        }
    }
}

/// One bonding curve: its token, creator, seed amount, the two reserves and
/// the one-way completion flag.
#[derive(Clone, Copy, Debug, PartialEq, Eq, Structural)]
pub struct BondingCurve {
    pub token_mint: u64,
    pub creator: u64,
    pub init_lamport: u64,
    pub reserve_lamport: u64,
    pub reserve_token: u64,
    pub is_completed: bool,
}

/// Everything a committed swap hands back: the fee, the realized output, the
/// principal actually credited to the pool, whether this commit crossed the
/// completion threshold, and whether a completion notification is owed (only
/// a buy announces completion).
#[derive(Clone, Copy, Debug, PartialEq, Eq, Structural)]
pub struct SwapOutcome {
    pub fee: u64,
    pub amount_out: u64,
    pub net_in: u64,
    pub completed: bool,
    pub announce_completion: bool,
}

/// The quote: `(fee, amount_out)` for a swap against the given reserves, or
/// the overflow error when a checked sum would not fit.
///
/// Sell: the gross base output is `reserve_lamport * amount` over
/// `reserve_token + amount`; the realized output carries the fee factor
/// `(FEE_SCALE - sell_fee_bps) / FEE_SCALE` inside the same single-truncation
/// division, and the fee is the difference.
///
/// Buy: the fee is netted off the incoming base amount first; the token
/// output is the symmetric constant-product division on the adjusted amount.
pub open spec fn spec_quote(
    curve: BondingCurve,
    amount: u64,
    direction: Direction,
    sell_fee_bps: u64,
    buy_fee_bps: u64,
) -> Result<(u64, u64), CurveError>
    recommends
        amount > 0,
        sell_fee_bps <= FEE_SCALE,
        buy_fee_bps <= FEE_SCALE,
{
    match direction {
        Direction::Sell => {
            if curve.reserve_token + amount > u64::MAX {
                Err(CurveError::OverflowOrUnderflowOccurred)
            } else {
                let denominator_sum = (curve.reserve_token + amount) as nat;
                let gross = ratio(curve.reserve_lamport as nat, amount as nat, denominator_sum);
                let net = scaled_ratio(
                    curve.reserve_lamport as nat,
                    amount as nat,
                    denominator_sum,
                    (FEE_SCALE - sell_fee_bps) as nat,
                );
                Ok((((gross - net)) as u64, net as u64))
            }
        },
        Direction::Buy => {
            let adjusted = scaled(amount as nat, (FEE_SCALE - buy_fee_bps) as nat);
            if curve.reserve_lamport + adjusted > u64::MAX {
                Err(CurveError::OverflowOrUnderflowOccurred)
            } else {
                let out = if adjusted == 0 {
                    0
                } else {
                    ratio(
                        curve.reserve_token as nat,
                        adjusted,
                        (curve.reserve_lamport + adjusted) as nat,
                    )
                };
                Ok((((amount - adjusted)) as u64, out as u64))
            }
        },
    }
}

/// What a reserve commit does: both reserves are overwritten, and the
/// completion flag is set (never cleared) when the new base reserve reaches
/// the threshold. The boolean reports whether the threshold is met.
pub open spec fn spec_commit(
    pre: BondingCurve,
    cfg: Config,
    reserve_token: u64,
    reserve_lamport: u64,
) -> (BondingCurve, bool) {
    let completed_now = reserve_lamport >= cfg.curve_limit;
    (
        BondingCurve {
            token_mint: pre.token_mint,
            creator: pre.creator,
            init_lamport: pre.init_lamport,
            reserve_lamport: reserve_lamport,
            reserve_token: reserve_token,
            is_completed: pre.is_completed || completed_now,
        },
        completed_now,
    )
}

/// The whole swap as a state transition: validation, quote, slippage bound,
/// checked reserve arithmetic, commit. A completed curve rejects every swap;
/// a sell can overflow the token reserve; the base subtraction of a sell and
/// both reserve updates of a buy are always in range (see
/// `lemma_sell_conserves_reserve`), so no other failure exists.
pub open spec fn spec_swap(
    pre: BondingCurve,
    cfg: Config,
    amount: u64,
    direction: Direction,
    minimum_receive_amount: u64,
) -> Result<(BondingCurve, SwapOutcome), CurveError>
    recommends
        cfg.wf(),
{
    if pre.is_completed {
        Err(CurveError::CurveAlreadyCompleted)
    } else if amount == 0 {
        Err(CurveError::InvalidAmount)
    } else {
        match spec_quote(pre, amount, direction, cfg.platform_sell_fee_bps, cfg.platform_buy_fee_bps) {
            Err(e) => Err(e),
            Ok((fee, amount_out)) => {
                if amount_out < minimum_receive_amount {
                    Err(CurveError::ReturnAmountTooSmall)
                } else {
                    match direction {
                        Direction::Sell => {
                            if pre.reserve_token + amount_out > u64::MAX {
                                Err(CurveError::OverflowOrUnderflowOccurred)
                            } else {
                                let new_token = (pre.reserve_token + amount_out) as u64;
                                let new_lamport = (pre.reserve_lamport - (amount_out + fee)) as u64;
                                let step = spec_commit(pre, cfg, new_token, new_lamport);
                                Ok(
                                    (
                                        step.0,
                                        SwapOutcome {
                                            fee,
                                            amount_out,
                                            net_in: amount,
                                            completed: step.1,
                                            announce_completion: false,
                                        },
                                    ),
                                )
                            }
                        },
                        Direction::Buy => {
                            let new_token = (pre.reserve_token - amount_out) as u64;
                            let new_lamport = (pre.reserve_lamport + (amount - fee)) as u64;
                            let step = spec_commit(pre, cfg, new_token, new_lamport);
                            Ok(
                                (
                                    step.0,
                                    SwapOutcome {
                                        fee,
                                        amount_out,
                                        net_in: (amount - fee) as u64,
                                        completed: step.1,
                                        announce_completion: step.1,
                                    },
                                ),
                            )
                        },
                    }
                }
            },
        }
    }
}

impl BondingCurve {
    /// The pure quote: `(fee, amount_out)` for the given amount and
    /// direction, never mutating state. Equal inputs always give equal
    /// results, because the result is a function of the arguments alone.
    pub fn cal_amount_out(
        &self,
        amount: u64,
        direction: Direction,
        platform_sell_fee_bps: u64,
        platform_buy_fee_bps: u64,
    ) -> (r: Result<(u64, u64), CurveError>)
        requires
            amount > 0,
            platform_sell_fee_bps <= FEE_SCALE,
            platform_buy_fee_bps <= FEE_SCALE,
        ensures
            r == spec_quote(*self, amount, direction, platform_sell_fee_bps, platform_buy_fee_bps),
            direction is Sell ==> (r matches Ok(p) ==> p.0 + p.1 <= self.reserve_lamport),
            direction is Buy ==> (r matches Ok(p) ==> p.1 <= self.reserve_token && p.0 <= amount
                && self.reserve_lamport + (amount - p.0) <= u64::MAX),
    {
        match direction {
            Direction::Sell => {
                if amount > u64::MAX - self.reserve_token {
                    return Err(CurveError::OverflowOrUnderflowOccurred);
                }
                let denominator_sum = self.reserve_token + amount;
                let gross = ratio_out(self.reserve_lamport, amount, denominator_sum);
                let net = scaled_ratio_out(
                    self.reserve_lamport,
                    amount,
                    denominator_sum,
                    FEE_SCALE - platform_sell_fee_bps,
                );
                Ok((gross - net, net))
            },
            Direction::Buy => {
                let adjusted = scale_by_bps(amount, FEE_SCALE - platform_buy_fee_bps);
                if adjusted > u64::MAX - self.reserve_lamport {
                    return Err(CurveError::OverflowOrUnderflowOccurred);
                }
                let fee = amount - adjusted;
                let amount_out = if adjusted == 0 {
                    0
                } else {
                    ratio_out(self.reserve_token, adjusted, self.reserve_lamport + adjusted)
                };
                Ok((fee, amount_out))
            },
        }
    }

    /// Overwrites both reserves unconditionally, then checks the completion
    /// threshold: the flag is set when the new base reserve reaches
    /// `curve_limit` and is never cleared. Returns whether the threshold is
    /// met. Callers enforce that a completed curve takes no further swap.
    pub fn update_reserves(
        &mut self,
        global_config: &Config,
        reserve_token: u64,
        reserve_lamport: u64,
    ) -> (completed: bool)
        ensures
            *final(self) == spec_commit(*old(self), *global_config, reserve_token, reserve_lamport).0,
            completed == spec_commit(*old(self), *global_config, reserve_token, reserve_lamport).1,
            completed == (reserve_lamport >= global_config.curve_limit),
            old(self).is_completed ==> final(self).is_completed,
    {
        self.reserve_token = reserve_token;
        self.reserve_lamport = reserve_lamport;
        if reserve_lamport >= global_config.curve_limit {
            self.is_completed = true;
            return true;
        }
        false
    }

    /// The swap entry point: validates, quotes, enforces the caller's
    /// minimum-receive bound (inclusive), derives the new reserves with
    /// checked arithmetic and commits them. Any failure leaves the curve
    /// untouched; the caller executes transfers only after this returns.
    pub fn swap(
        &mut self,
        global_config: &Config,
        amount: u64,
        direction: Direction,
        minimum_receive_amount: u64,
    ) -> (r: Result<SwapOutcome, CurveError>)
        requires
            global_config.wf(),
        ensures
            ({
                let step = spec_swap(*old(self), *global_config, amount, direction, minimum_receive_amount);
                match step {
                    Ok(p) => r == Ok::<SwapOutcome, CurveError>(p.1) && *final(self) == p.0,
                    Err(e) => r == Err::<SwapOutcome, CurveError>(e) && *final(self) == *old(self),
                }
            }),
            r matches Ok(o) ==> o.amount_out >= minimum_receive_amount,
            old(self).is_completed ==> r == Err::<SwapOutcome, CurveError>(
                CurveError::CurveAlreadyCompleted,
            ) && *final(self) == *old(self),
            old(self).is_completed ==> final(self).is_completed,
    {
        if self.is_completed {
            return Err(CurveError::CurveAlreadyCompleted);
        }
        if amount == 0 {
            return Err(CurveError::InvalidAmount);
        }
        let quote = self.cal_amount_out(
            amount,
            direction,
            global_config.platform_sell_fee_bps,
            global_config.platform_buy_fee_bps,
        );
        let (fee, amount_out) = match quote {
            Ok(p) => p,
            Err(e) => {
                return Err(e);
            },
        };
        if amount_out < minimum_receive_amount {
            return Err(CurveError::ReturnAmountTooSmall);
        }
        match direction {
            Direction::Sell => {
                if amount_out > u64::MAX - self.reserve_token {
                    return Err(CurveError::OverflowOrUnderflowOccurred);
                }
                let new_token = self.reserve_token + amount_out;
                let new_lamport = self.reserve_lamport - (amount_out + fee);
                let completed = self.update_reserves(global_config, new_token, new_lamport);
                Ok(
                    SwapOutcome {
                        fee,
                        amount_out,
                        net_in: amount,
                        completed,
                        announce_completion: false,
                    },
                )
            },
            Direction::Buy => {
                let new_token = self.reserve_token - amount_out;
                let new_lamport = self.reserve_lamport + (amount - fee);
                let completed = self.update_reserves(global_config, new_token, new_lamport);
                Ok(
                    SwapOutcome {
                        fee,
                        amount_out,
                        net_in: amount - fee,
                        completed,
                        announce_completion: completed,
                    },
                )
            },
        }
    }
}

} // verus!
