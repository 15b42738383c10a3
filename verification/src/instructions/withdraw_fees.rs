//! Withdrawing the collected fees.
use crate::error::CustomError;
use crate::ledger::LedgerInstruction;
use crate::state::identity::Identity;
use crate::state::market::{Market, MarketView};
use vstd::prelude::*;

verus! {

/// The accounts that a withdrawal names.
#[derive(Clone, Copy, Debug)]
pub struct WithdrawFees {
    /// The market's own identity on the ledger: the authority over its
    /// custody account.
    pub market_key: Identity,
    /// The caller, who has to be the market's fee recipient.
    pub fee_recipient: Identity,
    /// The recipient's collateral account, which is paid.
    pub fee_recipient_token_account: Identity,
    /// The market's custody account, which pays.
    pub market_token_account: Identity,
}

/// What the ledger has to do for a withdrawal of `fees`.
pub open spec fn withdraw_instructions(ctx: WithdrawFees, fees: u64) -> Seq<LedgerInstruction> {
    seq![
        LedgerInstruction::Transfer {
            from: ctx.market_token_account,
            to: ctx.fee_recipient_token_account,
            amount: fees,
            authority: ctx.market_key,
        },
    ]
}

/// The outcome of a withdrawal: the market afterwards and the ledger
/// instructions, or the reason for the refusal.
pub open spec fn withdraw_outcome(m: MarketView, ctx: WithdrawFees) -> Result<
    (MarketView, Seq<LedgerInstruction>),
    CustomError,
> {
    if ctx.fee_recipient != m.fee_recipient {
        Err(CustomError::Unauthorized)
    } else if m.collected_fees == 0 {
        Err(CustomError::NoFeesToWithdraw)
    } else {
        Ok((MarketView { collected_fees: 0, ..m }, withdraw_instructions(ctx, m.collected_fees)))
    }
}

/// Hands all collected fees to the fee recipient, who alone may ask.
///
/// On success the counter of collected fees is zero and the instruction pays
/// what it held out of custody. On failure the market is unchanged.
pub fn handler(market: &mut Market, ctx: &WithdrawFees) -> (r: Result<
    Vec<LedgerInstruction>,
    CustomError,
>)
    requires
        old(market)@.wf(),
    ensures
        match r {
            Ok(instructions) => withdraw_outcome(old(market)@, *ctx) == Ok::<
                (MarketView, Seq<LedgerInstruction>),
                CustomError,
            >((final(market)@, instructions@)),
            Err(e) => withdraw_outcome(old(market)@, *ctx) == Err::<
                (MarketView, Seq<LedgerInstruction>),
                CustomError,
            >(e) && *final(market) == *old(market),
        },
        final(market)@.wf(),
{
    if ctx.fee_recipient != market.fee_recipient {
        return Err(CustomError::Unauthorized);
    }
    let fees: u64 = market.collected_fees;
    if fees == 0 {
        return Err(CustomError::NoFeesToWithdraw);
    }
    market.collected_fees = 0;
    let mut instructions: Vec<LedgerInstruction> = Vec::new();
    instructions.push(
        LedgerInstruction::Transfer {
            from: ctx.market_token_account,
            to: ctx.fee_recipient_token_account,
            amount: fees,
            authority: ctx.market_key,
        },
    );
    proof {
        assert(instructions@ =~= withdraw_instructions(*ctx, fees));
    }
    Ok(instructions)
}

} // verus!
