//! The operations on a market, one module each.
pub mod add_outcome;
pub mod buy_shares;
pub mod claim_payout;
pub mod close_market;
pub mod create_market;
pub mod sell_shares;
pub mod set_outcome;
pub mod trade;
pub mod withdraw_fees;
