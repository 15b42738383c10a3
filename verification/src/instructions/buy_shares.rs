//! Buying shares of an outcome.
use crate::error::CustomError;
use crate::instructions::trade::{buy_quote, buy_quote_exec, Quote};
use crate::ledger::{LedgerInstruction, MintAccount, TokenAccount};
use crate::state::identity::Identity;
use crate::state::market::{Market, MarketState, MarketView};
use crate::state::outcome::{share_totals, share_vector, OutcomeView};
use vstd::prelude::*;

verus! {

/// The accounts that a purchase names.
#[derive(Clone, Copy, Debug)]
pub struct BuyShares {
    /// The market's own identity on the ledger: the authority over its share
    /// tokens and its custody account.
    pub market_key: Identity,
    /// The buyer.
    pub buyer: Identity,
    /// The buyer's collateral account, which pays.
    pub buyer_token_account: Identity,
    /// The market's custody account, which is paid.
    pub market_token_account: Identity,
    /// The share token that is bought.
    pub outcome_mint: MintAccount,
    /// The buyer's account for that share token.
    pub buyer_share_account: TokenAccount,
}

/// The market after a purchase with quote `quote`.
pub open spec fn market_after_buy(m: MarketView, i: int, n: u64, quote: Quote) -> MarketView {
    MarketView {
        outcomes: m.outcomes.update(
            i,
            OutcomeView { total_shares: (m.outcomes[i].total_shares + n) as u64, ..m.outcomes[i] },
        ),
        market_maker_funds: (m.market_maker_funds + quote.amount) as u64,
        collected_fees: (m.collected_fees + quote.fee_to_recipient) as u64,
        ..m
    }
}

/// What the buyer's ledger has to do for a purchase with quote `quote`: pay
/// cost and fee into custody, then receive the shares.
pub open spec fn buy_instructions(ctx: BuyShares, n: u64, quote: Quote) -> Seq<LedgerInstruction> {
    seq![
        LedgerInstruction::Transfer {
            from: ctx.buyer_token_account,
            to: ctx.market_token_account,
            amount: (quote.amount + quote.fee) as u64,
            authority: ctx.buyer,
        },
        LedgerInstruction::MintTo {
            mint: ctx.outcome_mint.key,
            to: ctx.buyer_share_account.key,
            amount: n,
            authority: ctx.market_key,
        },
    ]
}

/// The outcome of buying `n` shares of outcome `i`: the market afterwards
/// and the ledger instructions, or the reason for the refusal. The checks
/// are made in the order in which they stand here.
pub open spec fn buy_outcome(m: MarketView, ctx: BuyShares, i: u64, n: u64) -> Result<
    (MarketView, Seq<LedgerInstruction>),
    CustomError,
> {
    if ctx.outcome_mint.mint_authority != Some(ctx.market_key) {
        Err(CustomError::InvalidMintAuthority)
    } else if ctx.buyer_share_account.mint != ctx.outcome_mint.key {
        Err(CustomError::InvalidMint)
    } else if ctx.buyer_share_account.owner != ctx.buyer {
        Err(CustomError::InvalidOwner)
    } else if m.state != MarketState::Open {
        Err(CustomError::MarketClosed)
    } else if i >= m.outcomes.len() {
        Err(CustomError::InvalidOutcome)
    } else if n == 0 {
        Err(CustomError::InvalidShareCount)
    } else if m.outcomes[i as int].mint != ctx.outcome_mint.key {
        Err(CustomError::InvalidMint)
    } else {
        match buy_quote(share_totals(m.outcomes), m.b, m.fee_bps, i as int, n) {
            Err(e) => Err(e),
            Ok(quote) => if quote.amount + quote.fee > u64::MAX || m.market_maker_funds
                + quote.amount > u64::MAX || m.collected_fees + quote.fee_to_recipient
                > u64::MAX {
                Err(CustomError::ArithmeticOverflow)
            } else {
                Ok((market_after_buy(m, i as int, n, quote), buy_instructions(ctx, n, quote)))
            },
        }
    }
}

/// Buys `num_shares` shares of the outcome `outcome_index` for the buyer
/// that `ctx` names.
///
/// On success the market has the shares added to the outcome, the cost added
/// to the market maker's funds and the recipient's half of the fee added to
/// the collected fees; the instructions charge the buyer cost plus fee and
/// mint the shares. On failure the market is unchanged.
pub fn handler(market: &mut Market, ctx: &BuyShares, outcome_index: u64, num_shares: u64) -> (r:
    Result<Vec<LedgerInstruction>, CustomError>)
    requires
        old(market)@.wf(),
    ensures
        match r {
            Ok(instructions) => buy_outcome(old(market)@, *ctx, outcome_index, num_shares) == Ok::<
                (MarketView, Seq<LedgerInstruction>),
                CustomError,
            >((final(market)@, instructions@)),
            Err(e) => buy_outcome(old(market)@, *ctx, outcome_index, num_shares) == Err::<
                (MarketView, Seq<LedgerInstruction>),
                CustomError,
            >(e) && *final(market) == *old(market),
        },
        final(market)@.wf(),
{
    match ctx.outcome_mint.mint_authority {
        None => { return Err(CustomError::InvalidMintAuthority); },
        Some(authority) => {
            if authority != ctx.market_key {
                return Err(CustomError::InvalidMintAuthority);
            }
        },
    }
    if ctx.buyer_share_account.mint != ctx.outcome_mint.key {
        return Err(CustomError::InvalidMint);
    }
    if ctx.buyer_share_account.owner != ctx.buyer {
        return Err(CustomError::InvalidOwner);
    }
    if market.state != MarketState::Open {
        return Err(CustomError::MarketClosed);
    }
    if outcome_index >= market.outcomes.len() as u64 {
        return Err(CustomError::InvalidOutcome);
    }
    if num_shares == 0 {
        return Err(CustomError::InvalidShareCount);
    }
    let i: usize = outcome_index as usize;
    if market.outcomes[i].mint != ctx.outcome_mint.key {
        return Err(CustomError::InvalidMint);
    }
    let q: Vec<u64> = share_vector(&market.outcomes);
    let quote: Quote = match buy_quote_exec(q, market.b, market.fee_bps, i, num_shares) {
        Err(e) => { return Err(e); },
        Ok(quote) => quote,
    };
    let total_charge: u64 = match quote.amount.checked_add(quote.fee) {
        None => { return Err(CustomError::ArithmeticOverflow); },
        Some(c) => c,
    };
    let funds: u64 = match market.market_maker_funds.checked_add(quote.amount) {
        None => { return Err(CustomError::ArithmeticOverflow); },
        Some(f) => f,
    };
    let fees: u64 = match market.collected_fees.checked_add(quote.fee_to_recipient) {
        None => { return Err(CustomError::ArithmeticOverflow); },
        Some(f) => f,
    };
    // The quote exists, so the shares fit.
    let raised: u64 = market.outcomes[i].total_shares + num_shares;
    market.outcomes[i].total_shares = raised;
    market.market_maker_funds = funds;
    market.collected_fees = fees;
    proof {
        assert(final(market)@.outcomes =~= market_after_buy(
            old(market)@,
            i as int,
            num_shares,
            quote,
        ).outcomes);
    }
    let mut instructions: Vec<LedgerInstruction> = Vec::new();
    instructions.push(
        LedgerInstruction::Transfer {
            from: ctx.buyer_token_account,
            to: ctx.market_token_account,
            amount: total_charge,
            authority: ctx.buyer,
        },
    );
    instructions.push(
        LedgerInstruction::MintTo {
            mint: ctx.outcome_mint.key,
            to: ctx.buyer_share_account.key,
            amount: num_shares,
            authority: ctx.market_key,
        },
    );
    proof {
        assert(instructions@ =~= buy_instructions(*ctx, num_shares, quote));
    }
    Ok(instructions)
}

} // verus!
