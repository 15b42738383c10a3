//! Fixed parameters of the engine.
use vstd::prelude::*;

verus! {

/// Number of decimals of an outcome share: shares are whole units.
pub const SHARES_DECIMALS: u32 = 0;

/// Number of decimals of the collateral token.
pub const TOKEN_DECIMALS: u32 = 9;

/// Collateral units in one share's worth of cost: ten to the power of
/// `TOKEN_DECIMALS - SHARES_DECIMALS`.
pub const COST_SCALE: u64 = 1_000_000_000;

/// Collateral units paid out for one share of the winning outcome.
pub const PAYOUT_PER_SHARE: u64 = 1_000_000_000;

/// Basis points that make up the whole of an amount.
pub const BPS_DENOMINATOR: u64 = 10_000;

/// Largest number of outcomes of one market.
pub const MAX_OUTCOMES: usize = 10;

/// Largest length of a market's title, in bytes.
pub const MAX_TITLE_LEN: usize = 50;

/// Largest length of an outcome's name, in bytes.
pub const MAX_NAME_LEN: usize = 50;

} // verus!
