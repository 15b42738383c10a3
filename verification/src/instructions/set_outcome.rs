//! Declaring the winning outcome.
use crate::error::CustomError;
use crate::state::identity::Identity;
use crate::state::market::{Market, MarketState, MarketView};
use vstd::prelude::*;

verus! {

/// The accounts that a settlement names.
#[derive(Clone, Copy, Debug)]
pub struct SetOutcome {
    /// The caller, who has to be the market's oracle.
    pub oracle: Identity,
}

/// The outcome of declaring `winning_outcome` the winner. The checks are
/// made in the order in which they stand here.
pub open spec fn settle_outcome(m: MarketView, ctx: SetOutcome, winning_outcome: u64) -> Result<
    MarketView,
    CustomError,
> {
    if ctx.oracle != m.oracle {
        Err(CustomError::Unauthorized)
    } else if m.state == MarketState::Open {
        Err(CustomError::MarketNotClosed)
    } else if m.state == MarketState::Settled {
        Err(CustomError::AlreadySettled)
    } else if winning_outcome >= m.outcomes.len() {
        Err(CustomError::InvalidOutcome)
    } else {
        Ok(MarketView { state: MarketState::Settled, winning_outcome, ..m })
    }
}

/// Settles a closed market on the outcome `winning_outcome`, for the oracle
/// alone. Nothing else of the market changes, and nothing at all on
/// failure.
pub fn handler(market: &mut Market, ctx: &SetOutcome, winning_outcome: u64) -> (r: Result<
    (),
    CustomError,
>)
    requires
        old(market)@.wf(),
    ensures
        match r {
            Ok(_) => settle_outcome(old(market)@, *ctx, winning_outcome) == Ok::<
                MarketView,
                CustomError,
            >(final(market)@),
            Err(e) => settle_outcome(old(market)@, *ctx, winning_outcome) == Err::<
                MarketView,
                CustomError,
            >(e) && *final(market) == *old(market),
        },
        final(market)@.wf(),
{
    if ctx.oracle != market.oracle {
        return Err(CustomError::Unauthorized);
    }
    if market.state == MarketState::Open {
        return Err(CustomError::MarketNotClosed);
    }
    if market.state == MarketState::Settled {
        return Err(CustomError::AlreadySettled);
    }
    if winning_outcome >= market.outcomes.len() as u64 {
        return Err(CustomError::InvalidOutcome);
    }
    market.winning_outcome = winning_outcome;
    market.state = MarketState::Settled;
    Ok(())
}

} // verus!
