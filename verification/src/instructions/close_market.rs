//! Closing a market to trades.
use crate::error::CustomError;
use crate::state::market::{Market, MarketState, MarketView};
use vstd::prelude::*;

verus! {

/// What closing a market depends on besides the market.
#[derive(Clone, Copy, Debug)]
pub struct CloseMarket {
    /// The ledger's current time.
    pub now: i64,
}

/// The outcome of closing the market at the time that `ctx` gives.
pub open spec fn close_outcome(m: MarketView, ctx: CloseMarket) -> Result<MarketView, CustomError> {
    if m.state != MarketState::Open {
        Err(CustomError::AlreadyClosed)
    } else if ctx.now < m.end_timestamp {
        Err(CustomError::NotYetExpired)
    } else {
        Ok(MarketView { state: MarketState::Closed, ..m })
    }
}

/// Closes an open market once its end time has come. Nothing else of the
/// market changes, and nothing at all on failure.
pub fn handler(market: &mut Market, ctx: &CloseMarket) -> (r: Result<(), CustomError>)
    requires
        old(market)@.wf(),
    ensures
        match r {
            Ok(_) => close_outcome(old(market)@, *ctx) == Ok::<MarketView, CustomError>(
                final(market)@,
            ),
            Err(e) => close_outcome(old(market)@, *ctx) == Err::<MarketView, CustomError>(e)
                && *final(market) == *old(market),
        },
        final(market)@.wf(),
{
    if market.state != MarketState::Open {
        return Err(CustomError::AlreadyClosed);
    }
    if ctx.now < market.end_timestamp {
        return Err(CustomError::NotYetExpired);
    }
    market.state = MarketState::Closed;
    Ok(())
}

} // verus!
