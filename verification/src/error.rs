//! The failures that the engine reports.
use vstd::prelude::*;

verus! {

/// Why an operation was refused. An operation that fails leaves the market
/// as it was and instructs the ledger to do nothing.
#[derive(Clone, Copy, Debug, PartialEq, Eq, Structural)]
pub enum CustomError {
    /// A malformed argument: no outcomes or too many, a liquidity parameter
    /// of zero, a duration that is not positive, a fee above 100%, a title
    /// or a name that is too long, or share tokens that do not match the
    /// outcomes in number.
    InvalidParameter,
    /// The market no longer accepts trades or new outcomes.
    MarketClosed,
    /// The market has to be closed first.
    MarketNotClosed,
    /// The market was closed before.
    AlreadyClosed,
    /// The winning outcome was declared before.
    AlreadySettled,
    /// The winning outcome has not been declared yet.
    MarketNotSettled,
    /// The market's end time has not passed yet.
    NotYetExpired,
    /// The outcome index names no outcome of the market.
    InvalidOutcome,
    /// A trade of zero shares.
    InvalidShareCount,
    /// The seller holds fewer shares than the order sells.
    InsufficientShares,
    /// The market maker's funds do not cover the payout.
    InsufficientFunds,
    /// The caller is not the identity that may do this.
    Unauthorized,
    /// A result does not fit the 64-bit range of amounts.
    ArithmeticOverflow,
    /// More would be taken from a counter than it holds.
    Underflow,
    /// The pricing engine gave a cost that moved against the trade.
    MathError,
    /// The holder has no shares of the winning outcome.
    NoSharesToClaim,
    /// No fees have been collected.
    NoFeesToWithdraw,
    /// A token account or a share token is not the one that the market uses.
    InvalidMint,
    /// A token account does not belong to the trader.
    InvalidOwner,
    /// The market is not the authority over the share token.
    InvalidMintAuthority,
}

} // verus!
