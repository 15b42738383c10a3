//! Pricing and settlement engine of a prediction market with a logarithmic
//! market scoring rule.
//!
//! The engine owns the record of one market and nothing else. Every
//! operation checks whether it is legal on the market as it stands, computes
//! how much value has to move, updates the record and hands back the
//! instructions for the value ledger; a refused operation changes nothing.
//! The functions at the root are the operation surface; each forwards to the
//! handler of its module under `instructions`.
pub mod constants;
pub mod error;
pub mod fixed;
pub mod instructions;
pub mod laws;
pub mod ledger;
pub mod state;
pub mod utils;

use crate::error::CustomError;
use crate::instructions::buy_shares::{buy_outcome, BuyShares};
use crate::instructions::claim_payout::{claim_outcome, ClaimPayout};
use crate::instructions::close_market::{close_outcome, CloseMarket};
use crate::instructions::create_market::{create_outcome, text_views, CreateMarket};
use crate::instructions::sell_shares::{sell_outcome, SellShares};
use crate::instructions::set_outcome::{settle_outcome, SetOutcome};
use crate::instructions::withdraw_fees::{withdraw_outcome, WithdrawFees};
use crate::ledger::LedgerInstruction;
use crate::state::identity::Identity;
use crate::state::market::{Market, MarketView};
use vstd::prelude::*;

verus! {

/// Creates a market; see `instructions::create_market::handler`.
pub fn create_market(
    ctx: &CreateMarket,
    market_id: u64,
    title: String,
    outcomes: Vec<String>,
    oracle: Identity,
    b: u64,
    duration: i64,
    fee_percent: u64,
    fee_recipient: Identity,
    initial_funds: u64,
) -> (r: Result<(Market, Vec<LedgerInstruction>), CustomError>)
    ensures
        match r {
            Ok(created) => create_outcome(
                *ctx,
                market_id,
                title@,
                text_views(outcomes@),
                oracle,
                b,
                duration,
                fee_percent,
                fee_recipient,
                initial_funds,
            ) == Ok::<(MarketView, Seq<LedgerInstruction>), CustomError>(
                (created.0@, created.1@),
            ) && created.0@.wf(),
            Err(e) => create_outcome(
                *ctx,
                market_id,
                title@,
                text_views(outcomes@),
                oracle,
                b,
                duration,
                fee_percent,
                fee_recipient,
                initial_funds,
            ) == Err::<(MarketView, Seq<LedgerInstruction>), CustomError>(e),
        },
{
    crate::instructions::create_market::handler(
        ctx,
        market_id,
        title,
        outcomes,
        oracle,
        b,
        duration,
        fee_percent,
        fee_recipient,
        initial_funds,
    )
}

/// Buys shares of an outcome; see `instructions::buy_shares::handler`.
pub fn buy_shares(market: &mut Market, ctx: &BuyShares, outcome_index: u64, num_shares: u64) -> (r:
    Result<Vec<LedgerInstruction>, CustomError>)
    requires
        old(market)@.wf(),
    ensures
        match r {
            Ok(instructions) => buy_outcome(old(market)@, *ctx, outcome_index, num_shares) == Ok::<
                (MarketView, Seq<LedgerInstruction>),
                CustomError,
            >((final(market)@, instructions@)),
            Err(e) => buy_outcome(old(market)@, *ctx, outcome_index, num_shares) == Err::<
                (MarketView, Seq<LedgerInstruction>),
                CustomError,
            >(e) && *final(market) == *old(market),
        },
        final(market)@.wf(),
{
    crate::instructions::buy_shares::handler(market, ctx, outcome_index, num_shares)
}

/// Sells shares of an outcome; see `instructions::sell_shares::handler`.
pub fn sell_shares(market: &mut Market, ctx: &SellShares, outcome_index: u64, num_shares: u64) -> (r:
    Result<Vec<LedgerInstruction>, CustomError>)
    requires
        old(market)@.wf(),
    ensures
        match r {
            Ok(instructions) => sell_outcome(old(market)@, *ctx, outcome_index, num_shares)
                == Ok::<(MarketView, Seq<LedgerInstruction>), CustomError>(
                (final(market)@, instructions@),
            ),
            Err(e) => sell_outcome(old(market)@, *ctx, outcome_index, num_shares) == Err::<
                (MarketView, Seq<LedgerInstruction>),
                CustomError,
            >(e) && *final(market) == *old(market),
        },
        final(market)@.wf(),
{
    crate::instructions::sell_shares::handler(market, ctx, outcome_index, num_shares)
}

/// Closes a market to trades; see `instructions::close_market::handler`.
pub fn close_market(market: &mut Market, ctx: &CloseMarket) -> (r: Result<(), CustomError>)
    requires
        old(market)@.wf(),
    ensures
        match r {
            Ok(_) => close_outcome(old(market)@, *ctx) == Ok::<MarketView, CustomError>(
                final(market)@,
            ),
            Err(e) => close_outcome(old(market)@, *ctx) == Err::<MarketView, CustomError>(e)
                && *final(market) == *old(market),
        },
        final(market)@.wf(),
{
    crate::instructions::close_market::handler(market, ctx)
}

/// Declares the winning outcome; see `instructions::set_outcome::handler`.
pub fn set_outcome(market: &mut Market, ctx: &SetOutcome, winning_outcome: u64) -> (r: Result<
    (),
    CustomError,
>)
    requires
        old(market)@.wf(),
    ensures
        match r {
            Ok(_) => settle_outcome(old(market)@, *ctx, winning_outcome) == Ok::<
                MarketView,
                CustomError,
            >(final(market)@),
            Err(e) => settle_outcome(old(market)@, *ctx, winning_outcome) == Err::<
                MarketView,
                CustomError,
            >(e) && *final(market) == *old(market),
        },
        final(market)@.wf(),
{
    crate::instructions::set_outcome::handler(market, ctx, winning_outcome)
}

/// Redeems shares of the winning outcome; see
/// `instructions::claim_payout::handler`.
pub fn claim_payout(market: &mut Market, ctx: &ClaimPayout) -> (r: Result<
    Vec<LedgerInstruction>,
    CustomError,
>)
    requires
        old(market)@.wf(),
    ensures
        match r {
            Ok(instructions) => claim_outcome(old(market)@, *ctx) == Ok::<
                (MarketView, Seq<LedgerInstruction>),
                CustomError,
            >((final(market)@, instructions@)),
            Err(e) => claim_outcome(old(market)@, *ctx) == Err::<
                (MarketView, Seq<LedgerInstruction>),
                CustomError,
            >(e) && *final(market) == *old(market),
        },
        final(market)@.wf(),
{
    crate::instructions::claim_payout::handler(market, ctx)
}

/// Withdraws the collected fees; see `instructions::withdraw_fees::handler`.
pub fn withdraw_fees(market: &mut Market, ctx: &WithdrawFees) -> (r: Result<
    Vec<LedgerInstruction>,
    CustomError,
>)
    requires
        old(market)@.wf(),
    ensures
        match r {
            Ok(instructions) => withdraw_outcome(old(market)@, *ctx) == Ok::<
                (MarketView, Seq<LedgerInstruction>),
                CustomError,
            >((final(market)@, instructions@)),
            Err(e) => withdraw_outcome(old(market)@, *ctx) == Err::<
                (MarketView, Seq<LedgerInstruction>),
                CustomError,
            >(e) && *final(market) == *old(market),
        },
        final(market)@.wf(),
{
    crate::instructions::withdraw_fees::handler(market, ctx)
}

} // verus!
