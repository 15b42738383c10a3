//! Selling shares of an outcome back to the market.
use crate::error::CustomError;
use crate::instructions::trade::{sell_quote, sell_quote_exec, Quote};
use crate::ledger::{LedgerInstruction, MintAccount, TokenAccount};
use crate::state::identity::Identity;
use crate::state::market::{Market, MarketState, MarketView};
use crate::state::outcome::{share_totals, share_vector, OutcomeView};
use vstd::prelude::*;

verus! {

/// The accounts that a sale names.
#[derive(Clone, Copy, Debug)]
pub struct SellShares {
    /// The market's own identity on the ledger: the authority over its
    /// custody account.
    pub market_key: Identity,
    /// The seller.
    pub seller: Identity,
    /// The seller's collateral account, which is paid.
    pub seller_token_account: Identity,
    /// The market's custody account, which pays.
    pub market_token_account: Identity,
    /// The share token that is sold.
    pub outcome_mint: MintAccount,
    /// The seller's account for that share token, with its balance.
    pub seller_share_account: TokenAccount,
}

/// The market after a sale with quote `quote`.
pub open spec fn market_after_sell(m: MarketView, i: int, n: u64, quote: Quote) -> MarketView {
    MarketView {
        outcomes: m.outcomes.update(
            i,
            OutcomeView { total_shares: (m.outcomes[i].total_shares - n) as u64, ..m.outcomes[i] },
        ),
        market_maker_funds: (m.market_maker_funds - quote.amount) as u64,
        collected_fees: (m.collected_fees + quote.fee_to_recipient) as u64,
        ..m
    }
}

/// What the ledger has to do for a sale with quote `quote`: destroy the
/// shares, then pay the refund less the fee out of custody.
pub open spec fn sell_instructions(ctx: SellShares, n: u64, quote: Quote) -> Seq<
    LedgerInstruction,
> {
    seq![
        LedgerInstruction::Burn {
            mint: ctx.outcome_mint.key,
            from: ctx.seller_share_account.key,
            amount: n,
            authority: ctx.seller,
        },
        LedgerInstruction::Transfer {
            from: ctx.market_token_account,
            to: ctx.seller_token_account,
            amount: (quote.amount - quote.fee) as u64,
            authority: ctx.market_key,
        },
    ]
}

/// The outcome of selling `n` shares of outcome `i`: the market afterwards
/// and the ledger instructions, or the reason for the refusal. The checks
/// are made in the order in which they stand here.
pub open spec fn sell_outcome(m: MarketView, ctx: SellShares, i: u64, n: u64) -> Result<
    (MarketView, Seq<LedgerInstruction>),
    CustomError,
> {
    if m.state != MarketState::Open {
        Err(CustomError::MarketClosed)
    } else if i >= m.outcomes.len() {
        Err(CustomError::InvalidOutcome)
    } else if n == 0 {
        Err(CustomError::InvalidShareCount)
    } else if m.outcomes[i as int].mint != ctx.outcome_mint.key
        || ctx.seller_share_account.mint != ctx.outcome_mint.key {
        Err(CustomError::InvalidMint)
    } else if ctx.seller_share_account.owner != ctx.seller {
        Err(CustomError::InvalidOwner)
    } else if ctx.seller_share_account.amount < n {
        Err(CustomError::InsufficientShares)
    } else {
        match sell_quote(share_totals(m.outcomes), m.b, m.fee_bps, i as int, n) {
            Err(e) => Err(e),
            Ok(quote) => if m.market_maker_funds < quote.amount {
                Err(CustomError::Underflow)
            } else if m.collected_fees + quote.fee_to_recipient > u64::MAX {
                Err(CustomError::ArithmeticOverflow)
            } else {
                Ok((market_after_sell(m, i as int, n, quote), sell_instructions(ctx, n, quote)))
            },
        }
    }
}

/// At a fee of at most 100% the fee never exceeds the amount it is taken of.
pub proof fn lemma_fee_at_most_amount(amount: u64, fee_bps: u64)
    requires
        fee_bps <= crate::constants::BPS_DENOMINATOR,
    ensures
        amount * fee_bps / 10000 <= amount,
{
    assert(amount * fee_bps <= amount * 10000) by (nonlinear_arith)
        requires
            fee_bps <= 10000,
            amount >= 0,
    ;
    vstd::arithmetic::div_mod::lemma_div_is_ordered(
        (amount * fee_bps) as int,
        (amount * 10000) as int,
        10000,
    );
}

/// Sells `num_shares` shares of the outcome `outcome_index` for the seller
/// that `ctx` names.
///
/// On success the market has the shares taken off the outcome, the refund
/// taken off the market maker's funds and the recipient's half of the fee
/// added to the collected fees; the instructions burn the shares and pay the
/// seller the refund less the fee. On failure the market is unchanged.
pub fn handler(market: &mut Market, ctx: &SellShares, outcome_index: u64, num_shares: u64) -> (r:
    Result<Vec<LedgerInstruction>, CustomError>)
    requires
        old(market)@.wf(),
    ensures
        match r {
            Ok(instructions) => sell_outcome(old(market)@, *ctx, outcome_index, num_shares)
                == Ok::<(MarketView, Seq<LedgerInstruction>), CustomError>(
                (final(market)@, instructions@),
            ),
            Err(e) => sell_outcome(old(market)@, *ctx, outcome_index, num_shares) == Err::<
                (MarketView, Seq<LedgerInstruction>),
                CustomError,
            >(e) && *final(market) == *old(market),
        },
        final(market)@.wf(),
{
    if market.state != MarketState::Open {
        return Err(CustomError::MarketClosed);
    }
    if outcome_index >= market.outcomes.len() as u64 {
        return Err(CustomError::InvalidOutcome);
    }
    if num_shares == 0 {
        return Err(CustomError::InvalidShareCount);
    }
    let i: usize = outcome_index as usize;
    if market.outcomes[i].mint != ctx.outcome_mint.key || ctx.seller_share_account.mint
        != ctx.outcome_mint.key {
        return Err(CustomError::InvalidMint);
    }
    if ctx.seller_share_account.owner != ctx.seller {
        return Err(CustomError::InvalidOwner);
    }
    if ctx.seller_share_account.amount < num_shares {
        return Err(CustomError::InsufficientShares);
    }
    let q: Vec<u64> = share_vector(&market.outcomes);
    let quote: Quote = match sell_quote_exec(q, market.b, market.fee_bps, i, num_shares) {
        Err(e) => { return Err(e); },
        Ok(quote) => quote,
    };
    if market.market_maker_funds < quote.amount {
        return Err(CustomError::Underflow);
    }
    let fees: u64 = match market.collected_fees.checked_add(quote.fee_to_recipient) {
        None => { return Err(CustomError::ArithmeticOverflow); },
        Some(f) => f,
    };
    proof {
        lemma_fee_at_most_amount(quote.amount, market.fee_bps);
    }
    let net_refund: u64 = quote.amount - quote.fee;
    // The quote exists, so the outcome has the shares.
    let lowered: u64 = market.outcomes[i].total_shares - num_shares;
    market.outcomes[i].total_shares = lowered;
    market.market_maker_funds = market.market_maker_funds - quote.amount;
    market.collected_fees = fees;
    proof {
        assert(final(market)@.outcomes =~= market_after_sell(
            old(market)@,
            i as int,
            num_shares,
            quote,
        ).outcomes);
    }
    let mut instructions: Vec<LedgerInstruction> = Vec::new();
    instructions.push(
        LedgerInstruction::Burn {
            mint: ctx.outcome_mint.key,
            from: ctx.seller_share_account.key,
            amount: num_shares,
            authority: ctx.seller,
        },
    );
    instructions.push(
        LedgerInstruction::Transfer {
            from: ctx.market_token_account,
            to: ctx.seller_token_account,
            amount: net_refund,
            authority: ctx.market_key,
        },
    );
    proof {
        assert(instructions@ =~= sell_instructions(*ctx, num_shares, quote));
    }
    Ok(instructions)
}

} // verus!
