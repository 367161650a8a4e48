use bonding_curve::errors::CurveError;
use bonding_curve::migrate::{Migrate, MigrateEvent, PoolSeed};
use bonding_curve::state::{AmountConfig, BondingCurve, Config, Direction, SwapOutcome};

fn test_config(curve_limit: u64) -> Config {
    Config {
        authority: 10,
        pending_authority: 0,
        team_wallet: 11,
        init_bonding_curve_bps: 5_000,
        platform_buy_fee_bps: 100,
        platform_sell_fee_bps: 100,
        platform_migration_fee_bps: 50,
        curve_limit,
        lamport_amount_config: 1_000_000,
        token_supply_config: 1_000_000_000,
        token_decimals_config: 6,
    }
}

fn fresh_curve() -> BondingCurve {
    BondingCurve {
        token_mint: 7,
        creator: 8,
        init_lamport: 1_000_000,
        reserve_lamport: 100_000_000,
        reserve_token: 1_000_000,
        is_completed: false,
    }
}

#[test]
fn quote_is_deterministic() {
    let curve = fresh_curve();
    let a = curve.cal_amount_out(123_456, Direction::Buy, 100, 100);
    let b = curve.cal_amount_out(123_456, Direction::Buy, 100, 100);
    assert_eq!(a, b);
    let c = curve.cal_amount_out(123_456, Direction::Sell, 100, 100);
    let d = curve.cal_amount_out(123_456, Direction::Sell, 100, 100);
    assert_eq!(c, d);
}

#[test]
fn quote_buy_scenario() {
    // reserve_token 1_000_000, reserve_lamport 100_000_000, buy 1_000_000
    // lamports at a 1% fee: the adjusted input is 990_000, the fee 10_000,
    // and the output 1_000_000 * 990_000 / 100_990_000 = 9_802.
    let curve = fresh_curve();
    let r = curve.cal_amount_out(1_000_000, Direction::Buy, 100, 100);
    assert_eq!(r, Ok((10_000, 9_802)));
}

#[test]
fn quote_sell_scenario() {
    // Selling 1_000_000 tokens into the same reserves: the gross output is
    // 100_000_000 * 1_000_000 / 2_000_000 = 50_000_000 lamports, the
    // realized output carries the 99% factor in the same division, and the
    // fee is the difference.
    let curve = fresh_curve();
    let r = curve.cal_amount_out(1_000_000, Direction::Sell, 100, 100);
    assert_eq!(r, Ok((500_000, 49_500_000)));
}

#[test]
fn quote_buy_full_fee_consumes_everything() {
    // A 100% buy fee leaves no adjusted input: the whole amount is fee and
    // nothing comes out.
    let curve = fresh_curve();
    let r = curve.cal_amount_out(1, Direction::Buy, 100, 10_000);
    assert_eq!(r, Ok((1, 0)));
}

#[test]
fn quote_sell_overflow() {
    let mut curve = fresh_curve();
    curve.reserve_token = u64::MAX;
    let r = curve.cal_amount_out(1, Direction::Sell, 100, 100);
    assert_eq!(r, Err(CurveError::OverflowOrUnderflowOccurred));
}

#[test]
fn quote_buy_overflow() {
    let mut curve = fresh_curve();
    curve.reserve_lamport = u64::MAX;
    let r = curve.cal_amount_out(1, Direction::Buy, 100, 0);
    assert_eq!(r, Err(CurveError::OverflowOrUnderflowOccurred));
}

#[test]
fn swap_zero_amount_rejected() {
    let cfg = test_config(1_000_000_000);
    let mut curve = fresh_curve();
    let r = curve.swap(&cfg, 0, Direction::Buy, 0);
    assert_eq!(r, Err(CurveError::InvalidAmount));
    assert_eq!(curve, fresh_curve());
}

#[test]
fn swap_slippage_bound_is_inclusive() {
    let cfg = test_config(1_000_000_000);
    let mut curve = fresh_curve();
    let r = curve.swap(&cfg, 1_000_000, Direction::Buy, 9_802);
    assert_eq!(r.map(|o| o.amount_out), Ok(9_802));
}

#[test]
fn swap_slippage_violation_fails() {
    let cfg = test_config(1_000_000_000);
    let mut curve = fresh_curve();
    let before = curve;
    let r = curve.swap(&cfg, 1_000_000, Direction::Buy, 9_803);
    assert_eq!(r, Err(CurveError::ReturnAmountTooSmall));
    assert_eq!(curve, before);
}

#[test]
fn swap_buy_commits_reserves() {
    let cfg = test_config(1_000_000_000);
    let mut curve = fresh_curve();
    let r = curve.swap(&cfg, 1_000_000, Direction::Buy, 0);
    assert_eq!(
        r,
        Ok(SwapOutcome {
            fee: 10_000,
            amount_out: 9_802,
            net_in: 990_000,
            completed: false,
            announce_completion: false,
        })
    );
    assert_eq!(curve.reserve_token, 1_000_000 - 9_802);
    assert_eq!(curve.reserve_lamport, 100_000_000 + 990_000);
    assert!(!curve.is_completed);
}

#[test]
fn swap_sell_conserves_base_reserve() {
    let cfg = test_config(1_000_000_000);
    let mut curve = fresh_curve();
    let r = curve.swap(&cfg, 1_000_000, Direction::Sell, 0).unwrap();
    // The base paid out plus the fee equals the gross output, and the new
    // base reserve is exactly the old one minus that gross output.
    assert_eq!(r.amount_out + r.fee, 50_000_000);
    assert_eq!(curve.reserve_lamport, 100_000_000 - (r.amount_out + r.fee));
    assert_eq!(curve.reserve_token, 1_000_000 + r.amount_out);
    assert_eq!(r.net_in, 1_000_000);
    assert!(!r.announce_completion);
}

#[test]
fn completion_threshold_met_exactly() {
    let cfg = test_config(100_000_000);
    let mut curve = fresh_curve();
    curve.reserve_lamport = 0;
    let completed = curve.update_reserves(&cfg, 1_000_000, 100_000_000);
    assert!(completed);
    assert!(curve.is_completed);
}

#[test]
fn completion_threshold_one_short() {
    let cfg = test_config(100_000_000);
    let mut curve = fresh_curve();
    curve.reserve_lamport = 0;
    let completed = curve.update_reserves(&cfg, 1_000_000, 99_999_999);
    assert!(!completed);
    assert!(!curve.is_completed);
}

#[test]
fn buy_crossing_threshold_announces_completion() {
    // The threshold sits 500_000 lamports above the base reserve; a buy of
    // 1_000_000 at 1% fee credits 990_000 and crosses it.
    let cfg = test_config(100_500_000);
    let mut curve = fresh_curve();
    let r = curve.swap(&cfg, 1_000_000, Direction::Buy, 0).unwrap();
    assert!(r.completed);
    assert!(r.announce_completion);
    assert!(curve.is_completed);
}

#[test]
fn completed_curve_rejects_every_swap() {
    let cfg = test_config(100_500_000);
    let mut curve = fresh_curve();
    curve.swap(&cfg, 1_000_000, Direction::Buy, 0).unwrap();
    assert!(curve.is_completed);
    let frozen = curve;
    assert_eq!(
        curve.swap(&cfg, 1, Direction::Buy, 0),
        Err(CurveError::CurveAlreadyCompleted)
    );
    assert_eq!(
        curve.swap(&cfg, 1_000, Direction::Sell, 0),
        Err(CurveError::CurveAlreadyCompleted)
    );
    assert_eq!(curve, frozen);
    assert!(curve.is_completed);
}

#[test]
fn buy_fee_non_decreasing_in_amount() {
    let curve = fresh_curve();
    let mut last_fee = 0u64;
    for amount in [1u64, 9, 99, 100, 101, 1_000, 10_000, 123_456, 1_000_000] {
        let (fee, _) = curve.cal_amount_out(amount, Direction::Buy, 100, 100).unwrap();
        assert!(fee >= last_fee);
        last_fee = fee;
    }
}

#[test]
fn sell_fee_dips_at_most_one_unit() {
    // With base reserve 151, token reserve 1 and a 1% fee, the truncated
    // sell fee is 2 at amount 200 and 1 at amount 400: the exact fee is
    // monotone, but truncation can take one unit back.
    let curve = BondingCurve {
        token_mint: 7,
        creator: 8,
        init_lamport: 0,
        reserve_lamport: 151,
        reserve_token: 1,
        is_completed: false,
    };
    let (fee_small, out_small) = curve.cal_amount_out(200, Direction::Sell, 100, 100).unwrap();
    let (fee_large, out_large) = curve.cal_amount_out(400, Direction::Sell, 100, 100).unwrap();
    assert_eq!((fee_small, out_small), (2, 148));
    assert_eq!((fee_large, out_large), (1, 149));
    assert!(fee_small <= fee_large + 1);
}

#[test]
fn validate_range_bounds() {
    let rule = AmountConfig::Range { min: Some(10), max: Some(100) };
    assert_eq!(rule.validate(9), Err(CurveError::ValueTooSmall));
    assert_eq!(rule.validate(10), Ok(()));
    assert_eq!(rule.validate(100), Ok(()));
    assert_eq!(rule.validate(101), Err(CurveError::ValueTooLarge));
}

#[test]
fn validate_range_open_ended() {
    let rule = AmountConfig::Range { min: None, max: None };
    assert_eq!(rule.validate(0), Ok(()));
    assert_eq!(rule.validate(u64::MAX), Ok(()));
}

#[test]
fn validate_enum_membership() {
    let rule = AmountConfig::Enum(vec![6, 9]);
    assert_eq!(rule.validate(6), Ok(()));
    assert_eq!(rule.validate(9), Ok(()));
    assert_eq!(rule.validate(7), Err(CurveError::ValueInvalid));
    let empty = AmountConfig::Enum(vec![]);
    assert_eq!(empty.validate(0), Err(CurveError::ValueInvalid));
}

#[test]
fn migrate_requires_completion() {
    let curve = fresh_curve();
    let m = Migrate { payer: 3, token_holding: 500, lamport_holding: 900 };
    assert_eq!(m.process(&curve), Err(CurveError::CurveNotCompleted));
}

#[test]
fn migrate_hands_off_full_holdings_and_freezes() {
    let cfg = test_config(100_000_000);
    let mut curve = fresh_curve();
    curve.is_completed = true;
    let m = Migrate { payer: 3, token_holding: 500, lamport_holding: 900 };
    let seed = m.process(&curve).unwrap();
    assert_eq!(seed, PoolSeed { coin_amount: 500, pc_amount: 900 });
    let ev = m.finalize(&mut curve, &cfg, seed);
    assert_eq!(
        ev,
        MigrateEvent { admin: 3, token: 7, token_in: 500, sol_in: 900 }
    );
    assert_eq!(curve.reserve_token, 0);
    assert_eq!(curve.reserve_lamport, 0);
    assert!(curve.is_completed);
    // After the handoff the custodial holdings are empty: a repeated
    // migration is built over nothing, and the external pool initializer
    // fails on the already-existing pool.
    let drained = Migrate { payer: 3, token_holding: 0, lamport_holding: 0 };
    assert_eq!(
        drained.process(&curve),
        Ok(PoolSeed { coin_amount: 0, pc_amount: 0 })
    );
    // The migrated curve is terminal: no swap touches it again.
    assert_eq!(
        curve.swap(&cfg, 1_000, Direction::Buy, 0),
        Err(CurveError::CurveAlreadyCompleted)
    );
}
