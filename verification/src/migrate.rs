use vstd::prelude::*;
use crate::errors::CurveError;
use crate::state::{spec_commit, BondingCurve, Config};

verus! {

/// The initial liquidity handed to the external pool initializer: the full
/// custodial token and base-asset holdings of the curve.
#[derive(Clone, Copy, Debug, PartialEq, Eq, Structural)]
pub struct PoolSeed {
    pub coin_amount: u64,
    pub pc_amount: u64,
}

/// The migration event: the actor that paid for pool creation, the token,
/// and the pre-migration amounts handed to the pool.
#[derive(Clone, Copy, Debug, PartialEq, Eq, Structural)]
pub struct MigrateEvent {
    pub admin: u64,
    pub token: u64,
    pub token_in: u64,
    pub sol_in: u64,
}

/// A migration request: the actor paying for pool creation and the curve's
/// actual liquid custodial holdings (not the cached reserve fields).
#[derive(Clone, Copy, Debug, PartialEq, Eq, Structural)]
pub struct Migrate {
    pub payer: u64,
    pub token_holding: u64,
    pub lamport_holding: u64,
}

impl Migrate {
    /// Validates that the curve has completed and fixes the liquidity the
    /// external pool is created with: the full custodial holdings. Rejects
    /// an incomplete curve and decides nothing else; the caller then runs
    /// pool creation and burns the liquidity credit in full, and only after
    /// both succeed calls `finalize`.
    pub fn process(&self, bonding_curve: &BondingCurve) -> (r: Result<PoolSeed, CurveError>)
        ensures
            bonding_curve.is_completed ==> r == Ok::<PoolSeed, CurveError>(
                PoolSeed { coin_amount: self.token_holding, pc_amount: self.lamport_holding },
            ),
            !bonding_curve.is_completed ==> r == Err::<PoolSeed, CurveError>(
                CurveError::CurveNotCompleted,
            ),
    {
        if !bonding_curve.is_completed {
            return Err(CurveError::CurveNotCompleted);
        }
        Ok(PoolSeed { coin_amount: self.token_holding, pc_amount: self.lamport_holding })
    }

    /// Terminal accounting once the pool exists and the liquidity credit is
    /// burnt: zeroes the cached reserves through the one sanctioned
    /// post-completion commit, keeps the completion flag set, and reports
    /// the migrated amounts. The caller must have observed completion.
    pub fn finalize(
        &self,
        bonding_curve: &mut BondingCurve,
        global_config: &Config,
        seed: PoolSeed,
    ) -> (ev: MigrateEvent)
        requires
            old(bonding_curve).is_completed,
        ensures
            *final(bonding_curve) == spec_commit(*old(bonding_curve), *global_config, 0, 0).0,
            final(bonding_curve).reserve_token == 0,
            final(bonding_curve).reserve_lamport == 0,
            final(bonding_curve).is_completed,
            ev == (MigrateEvent {
                admin: self.payer,
                token: old(bonding_curve).token_mint,
                token_in: seed.coin_amount,
                sol_in: seed.pc_amount,
            }),
    {
        let _ = bonding_curve.update_reserves(global_config, 0, 0);
        MigrateEvent {
            admin: self.payer,
            token: bonding_curve.token_mint,
            token_in: seed.coin_amount,
            sol_in: seed.pc_amount,
        }
    }
}

} // verus!
