//! Redeeming shares of the winning outcome.
use crate::constants::PAYOUT_PER_SHARE;
use crate::error::CustomError;
use crate::ledger::{LedgerInstruction, TokenAccount};
use crate::state::identity::Identity;
use crate::state::market::{Market, MarketState, MarketView};
use vstd::prelude::*;

verus! {

/// The accounts that a claim names.
#[derive(Clone, Copy, Debug)]
pub struct ClaimPayout {
    /// The market's own identity on the ledger: the authority over its
    /// custody account.
    pub market_key: Identity,
    /// The holder who claims.
    pub user: Identity,
    /// The holder's collateral account, which is paid.
    pub user_token_account: Identity,
    /// The market's custody account, which pays.
    pub market_token_account: Identity,
    /// The holder's account for the winning outcome's share token, with its
    /// balance.
    pub user_share_account: TokenAccount,
}

/// What the ledger has to do for a claim: destroy all the shares held, then
/// pay `payout` out of custody.
pub open spec fn claim_instructions(ctx: ClaimPayout, payout: u64) -> Seq<LedgerInstruction> {
    seq![
        LedgerInstruction::Burn {
            mint: ctx.user_share_account.mint,
            from: ctx.user_share_account.key,
            amount: ctx.user_share_account.amount,
            authority: ctx.user,
        },
        LedgerInstruction::Transfer {
            from: ctx.market_token_account,
            to: ctx.user_token_account,
            amount: payout,
            authority: ctx.market_key,
        },
    ]
}

/// The outcome of a claim: the market afterwards and the ledger
/// instructions, or the reason for the refusal. The checks are made in the
/// order in which they stand here. The payout is `PAYOUT_PER_SHARE` for
/// every share held.
pub open spec fn claim_outcome(m: MarketView, ctx: ClaimPayout) -> Result<
    (MarketView, Seq<LedgerInstruction>),
    CustomError,
> {
    let held = ctx.user_share_account.amount;
    if m.state != MarketState::Settled {
        Err(CustomError::MarketNotSettled)
    } else if m.winning_outcome >= m.outcomes.len() {
        Err(CustomError::InvalidOutcome)
    } else if ctx.user_share_account.mint != m.outcomes[m.winning_outcome as int].mint {
        Err(CustomError::InvalidMint)
    } else if ctx.user_share_account.owner != ctx.user {
        Err(CustomError::InvalidOwner)
    } else if held == 0 {
        Err(CustomError::NoSharesToClaim)
    } else if held * PAYOUT_PER_SHARE > u64::MAX {
        Err(CustomError::ArithmeticOverflow)
    } else if m.market_maker_funds < held * PAYOUT_PER_SHARE {
        Err(CustomError::InsufficientFunds)
    } else {
        Ok(
            (
                MarketView {
                    market_maker_funds: (m.market_maker_funds - held * PAYOUT_PER_SHARE) as u64,
                    ..m
                },
                claim_instructions(ctx, (held * PAYOUT_PER_SHARE) as u64),
            ),
        )
    }
}

/// Pays the holder that `ctx` names for all the shares of the winning
/// outcome that they hold.
///
/// On success the payout is taken off the market maker's funds and the
/// instructions burn the shares and pay the holder. On failure the market is
/// unchanged.
pub fn handler(market: &mut Market, ctx: &ClaimPayout) -> (r: Result<
    Vec<LedgerInstruction>,
    CustomError,
>)
    requires
        old(market)@.wf(),
    ensures
        match r {
            Ok(instructions) => claim_outcome(old(market)@, *ctx) == Ok::<
                (MarketView, Seq<LedgerInstruction>),
                CustomError,
            >((final(market)@, instructions@)),
            Err(e) => claim_outcome(old(market)@, *ctx) == Err::<
                (MarketView, Seq<LedgerInstruction>),
                CustomError,
            >(e) && *final(market) == *old(market),
        },
        final(market)@.wf(),
{
    if market.state != MarketState::Settled {
        return Err(CustomError::MarketNotSettled);
    }
    if market.winning_outcome >= market.outcomes.len() as u64 {
        return Err(CustomError::InvalidOutcome);
    }
    let winner: usize = market.winning_outcome as usize;
    if ctx.user_share_account.mint != market.outcomes[winner].mint {
        return Err(CustomError::InvalidMint);
    }
    if ctx.user_share_account.owner != ctx.user {
        return Err(CustomError::InvalidOwner);
    }
    let held: u64 = ctx.user_share_account.amount;
    if held == 0 {
        return Err(CustomError::NoSharesToClaim);
    }
    let payout: u64 = match held.checked_mul(PAYOUT_PER_SHARE) {
        None => { return Err(CustomError::ArithmeticOverflow); },
        Some(p) => p,
    };
    if market.market_maker_funds < payout {
        return Err(CustomError::InsufficientFunds);
    }
    market.market_maker_funds = market.market_maker_funds - payout;
    let mut instructions: Vec<LedgerInstruction> = Vec::new();
    instructions.push(
        LedgerInstruction::Burn {
            mint: ctx.user_share_account.mint,
            from: ctx.user_share_account.key,
            amount: held,
            authority: ctx.user,
        },
    );
    instructions.push(
        LedgerInstruction::Transfer {
            from: ctx.market_token_account,
            to: ctx.user_token_account,
            amount: payout,
            authority: ctx.market_key,
        },
    );
    proof {
        assert(instructions@ =~= claim_instructions(*ctx, payout));
    }
    Ok(instructions)
}

} // verus!
