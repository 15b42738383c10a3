//! Adding an outcome to a market that nobody has a stake in yet.
use crate::constants::{MAX_NAME_LEN, MAX_OUTCOMES};
use crate::error::CustomError;
use crate::state::identity::Identity;
use crate::state::market::{Market, MarketState, MarketView};
use crate::state::outcome::{byte_len, outcome_views, text_len, Outcome, OutcomeView};
use vstd::prelude::*;

verus! {

/// The accounts that the addition of an outcome names.
#[derive(Clone, Copy, Debug)]
pub struct AddOutcome {
    /// The share token of the new outcome.
    pub outcome_mint: Identity,
}

/// No shares of any outcome are outstanding.
pub open spec fn no_shares_outstanding(outcomes: Seq<OutcomeView>) -> bool {
    forall|j: int| 0 <= j < outcomes.len() ==> (#[trigger] outcomes[j]).total_shares == 0
}

/// The outcome of adding an outcome called `name`. An outcome can be added
/// only while the market is open and no shares are outstanding, so that no
/// holder's price moves under them.
pub open spec fn add_outcome_result(m: MarketView, ctx: AddOutcome, name: Seq<char>) -> Result<
    MarketView,
    CustomError,
> {
    if byte_len(name) > MAX_NAME_LEN || m.outcomes.len() >= MAX_OUTCOMES {
        Err(CustomError::InvalidParameter)
    } else if m.state != MarketState::Open || !no_shares_outstanding(m.outcomes) {
        Err(CustomError::MarketClosed)
    } else {
        Ok(
            MarketView {
                outcomes: m.outcomes.push(
                    OutcomeView { name, total_shares: 0, mint: ctx.outcome_mint },
                ),
                ..m
            },
        )
    }
}

/// Whether no shares of any outcome are outstanding.
fn nothing_outstanding(outcomes: &Vec<Outcome>) -> (ok: bool)
    ensures
        ok == no_shares_outstanding(outcome_views(outcomes@)),
{
    let mut j: usize = 0;
    while j < outcomes.len()
        invariant
            j <= outcomes.len(),
            forall|k: int| 0 <= k < j ==> (#[trigger] outcome_views(outcomes@)[k]).total_shares == 0,
        decreases outcomes.len() - j,
    {
        if outcomes[j].total_shares != 0 {
            assert(outcome_views(outcomes@)[j as int].total_shares != 0);
            return false;
        }
        j = j + 1;
    }
    true
}

/// Appends an outcome called `name`, with no shares, to an open market in
/// which no shares are outstanding. Nothing else of the market changes, and
/// nothing at all on failure.
pub fn handler(market: &mut Market, ctx: &AddOutcome, name: String) -> (r: Result<(), CustomError>)
    requires
        old(market)@.wf(),
    ensures
        match r {
            Ok(_) => add_outcome_result(old(market)@, *ctx, name@) == Ok::<MarketView, CustomError>(
                final(market)@,
            ),
            Err(e) => add_outcome_result(old(market)@, *ctx, name@) == Err::<
                MarketView,
                CustomError,
            >(e) && *final(market) == *old(market),
        },
        final(market)@.wf(),
{
    if text_len(&name) > MAX_NAME_LEN || market.outcomes.len() >= MAX_OUTCOMES {
        return Err(CustomError::InvalidParameter);
    }
    if market.state != MarketState::Open || !nothing_outstanding(&market.outcomes) {
        return Err(CustomError::MarketClosed);
    }
    let ghost added = OutcomeView { name: name@, total_shares: 0, mint: ctx.outcome_mint };
    market.outcomes.push(Outcome { name, total_shares: 0, mint: ctx.outcome_mint });
    proof {
        assert(final(market)@.outcomes =~= old(market)@.outcomes.push(added));
    }
    Ok(())
}

} // verus!
