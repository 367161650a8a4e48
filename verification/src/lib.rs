//! A bonding-curve market maker: sells a fixed-supply token against a base
//! asset (lamports) with constant-product pricing, collects a percentage fee
//! on every trade, and irreversibly completes once the base reserve crosses a
//! configured threshold, at which point the liquidity is handed off to an
//! external automated market maker.
//!
//! All curve arithmetic is exact integer arithmetic: a product divided by a
//! denominator, truncated toward zero. Fee percentages are carried in basis
//! points so that the computation is deterministic and reproducible on every
//! machine. Account validation, asset transfers, and the external pool
//! protocol are collaborators outside this crate.

pub mod errors;
pub mod math;
pub mod state;
pub mod laws;
pub mod migrate;
