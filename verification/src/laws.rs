//! What holds of every market, whatever is done to it.
//!
//! The operations are gathered into one step function on the mathematical
//! view of a market, and the laws are stated of that function: of one step,
//! and of any run of steps.
use crate::error::CustomError;
use crate::instructions::add_outcome::{add_outcome_result, AddOutcome};
use crate::instructions::buy_shares::{buy_instructions, buy_outcome, BuyShares};
use crate::instructions::claim_payout::{claim_outcome, ClaimPayout};
use crate::instructions::close_market::{close_outcome, CloseMarket};
use crate::instructions::sell_shares::{
    lemma_fee_at_most_amount, sell_instructions, sell_outcome, SellShares,
};
use crate::instructions::set_outcome::{settle_outcome, SetOutcome};
use crate::instructions::trade::{buy_quote, sell_quote, Quote};
use crate::instructions::withdraw_fees::{withdraw_outcome, WithdrawFees};
use crate::ledger::LedgerInstruction;
use crate::state::identity::Identity;
use crate::state::market::{MarketState, MarketView};
use crate::state::outcome::share_totals;
use crate::utils::lemma_lmsr_cost_monotone;
use vstd::prelude::*;

verus! {

/// One request to a market.
#[allow(inconsistent_fields)]
pub enum Operation {
    AddOutcome { ctx: AddOutcome, name: Seq<char> },
    Buy { ctx: BuyShares, outcome_index: u64, num_shares: u64 },
    Sell { ctx: SellShares, outcome_index: u64, num_shares: u64 },
    Close { ctx: CloseMarket },
    Settle { ctx: SetOutcome, winning_outcome: u64 },
    Claim { ctx: ClaimPayout },
    Withdraw { ctx: WithdrawFees },
}

/// The outcome of one request: the market afterwards and the ledger
/// instructions, or the reason for the refusal.
pub open spec fn step(m: MarketView, op: Operation) -> Result<
    (MarketView, Seq<LedgerInstruction>),
    CustomError,
> {
    match op {
        Operation::AddOutcome { ctx, name } => match add_outcome_result(m, ctx, name) {
            Ok(after) => Ok((after, Seq::empty())),
            Err(e) => Err(e),
        },
        Operation::Buy { ctx, outcome_index, num_shares } => buy_outcome(
            m,
            ctx,
            outcome_index,
            num_shares,
        ),
        Operation::Sell { ctx, outcome_index, num_shares } => sell_outcome(
            m,
            ctx,
            outcome_index,
            num_shares,
        ),
        Operation::Close { ctx } => match close_outcome(m, ctx) {
            Ok(after) => Ok((after, Seq::empty())),
            Err(e) => Err(e),
        },
        Operation::Settle { ctx, winning_outcome } => match settle_outcome(
            m,
            ctx,
            winning_outcome,
        ) {
            Ok(after) => Ok((after, Seq::empty())),
            Err(e) => Err(e),
        },
        Operation::Claim { ctx } => claim_outcome(m, ctx),
        Operation::Withdraw { ctx } => withdraw_outcome(m, ctx),
    }
}

/// The market after one request: changed as the request asks where it is
/// granted, unchanged where it is refused.
pub open spec fn after(m: MarketView, op: Operation) -> MarketView {
    match step(m, op) {
        Ok(granted) => granted.0,
        Err(_) => m,
    }
}

/// The market after a run of requests, each applied to what the one before
/// left.
pub open spec fn after_all(m: MarketView, ops: Seq<Operation>) -> MarketView
    decreases ops.len(),
{
    if ops.len() == 0 {
        m
    } else {
        after(after_all(m, ops.drop_last()), ops.last())
    }
}

/// The shares that a request trades: positive for a purchase, negative for a
/// sale, zero for everything else.
pub open spec fn traded(op: Operation) -> int {
    match op {
        Operation::Buy { num_shares, .. } => num_shares as int,
        Operation::Sell { num_shares, .. } => -(num_shares as int),
        _ => 0,
    }
}

/// The sum of the quantities `q`.
pub open spec fn total_outstanding(q: Seq<u64>) -> int
    decreases q.len(),
{
    if q.len() == 0 {
        0
    } else {
        total_outstanding(q.drop_last()) + q.last()
    }
}

proof fn lemma_total_after_update(q: Seq<u64>, i: int, v: u64)
    requires
        0 <= i < q.len(),
    ensures
        total_outstanding(q.update(i, v)) == total_outstanding(q) - q[i] + v,
    decreases q.len(),
{
    if i == q.len() - 1 {
        assert(q.update(i, v).drop_last() =~= q.drop_last());
    } else {
        lemma_total_after_update(q.drop_last(), i, v);
        assert(q.update(i, v).drop_last() =~= q.drop_last().update(i, v));
    }
}

proof fn lemma_total_after_push(q: Seq<u64>, v: u64)
    ensures
        total_outstanding(q.push(v)) == total_outstanding(q) + v,
{
    assert(q.push(v).drop_last() =~= q);
}

/// Every granted request leaves a well-formed market well-formed, and never
/// changes who its oracle and its fee recipient are.
pub proof fn lemma_step_keeps_invariant(m: MarketView, op: Operation)
    requires
        m.wf(),
    ensures
        after(m, op).wf(),
        after(m, op).oracle == m.oracle,
        after(m, op).fee_recipient == m.fee_recipient,
        after(m, op).b == m.b,
        after(m, op).fee_bps == m.fee_bps,
{
}

/// The state of a market never goes back: no request moves it from
/// `Settled` to `Closed` or `Open`, or from `Closed` to `Open`.
pub proof fn lemma_state_never_regresses(m: MarketView, op: Operation)
    ensures
        after(m, op).state.rank() >= m.state.rank(),
{
}

/// Over any run of requests the state of a market never goes back.
pub proof fn lemma_state_never_regresses_over_runs(m: MarketView, ops: Seq<Operation>)
    ensures
        after_all(m, ops).state.rank() >= m.state.rank(),
    decreases ops.len(),
{
    if ops.len() > 0 {
        lemma_state_never_regresses_over_runs(m, ops.drop_last());
        lemma_state_never_regresses(after_all(m, ops.drop_last()), ops.last());
    }
}

/// A market is settled at most once: after a settlement has been granted,
/// and whatever requests have followed it, every further settlement is
/// refused, with `AlreadySettled` where the oracle asks, and the winning
/// outcome stands.
pub proof fn lemma_settled_once(
    m: MarketView,
    first: SetOutcome,
    winner: u64,
    ops: Seq<Operation>,
    again: SetOutcome,
    other: u64,
)
    requires
        m.wf(),
        settle_outcome(m, first, winner) is Ok,
    ensures
        ({
            let settled = settle_outcome(m, first, winner)->Ok_0;
            let later = after_all(settled, ops);
            &&& later.state == MarketState::Settled
            &&& later.winning_outcome == winner
            &&& settle_outcome(later, again, other) is Err
            &&& again.oracle == m.oracle ==> settle_outcome(later, again, other) == Err::<
                MarketView,
                CustomError,
            >(CustomError::AlreadySettled)
        }),
{
    let settled = settle_outcome(m, first, winner)->Ok_0;
    lemma_settled_stays(settled, ops);
}

/// Whatever is asked of a settled market, it stays settled on the same
/// outcome, with the same oracle.
pub proof fn lemma_settled_stays(m: MarketView, ops: Seq<Operation>)
    requires
        m.state == MarketState::Settled,
    ensures
        after_all(m, ops).state == MarketState::Settled,
        after_all(m, ops).winning_outcome == m.winning_outcome,
        after_all(m, ops).oracle == m.oracle,
    decreases ops.len(),
{
    if ops.len() > 0 {
        lemma_settled_stays(m, ops.drop_last());
    }
}

/// A request changes the shares of at most one outcome, and the sum of all
/// shares by exactly what it trades: up by a purchase, down by a sale, not
/// at all otherwise.
pub proof fn lemma_shares_move_by_the_trade(m: MarketView, op: Operation)
    requires
        m.wf(),
        step(m, op) is Ok,
    ensures
        ({
            let before = share_totals(m.outcomes);
            let later = share_totals(after(m, op).outcomes);
            &&& later.len() >= before.len()
            &&& total_outstanding(later) == total_outstanding(before) + traded(op)
            &&& forall|j: int, k: int|
                0 <= j < k < before.len() ==> later[j] == before[j] || later[k] == before[k]
            &&& forall|j: int| before.len() <= j < later.len() ==> later[j] == 0
        }),
{
    let before = share_totals(m.outcomes);
    let later = share_totals(after(m, op).outcomes);
    match op {
        Operation::Buy { ctx, outcome_index, num_shares } => {
            let i = outcome_index as int;
            assert(later =~= before.update(i, (before[i] + num_shares) as u64));
            lemma_total_after_update(before, i, (before[i] + num_shares) as u64);
        },
        Operation::Sell { ctx, outcome_index, num_shares } => {
            let i = outcome_index as int;
            assert(later =~= before.update(i, (before[i] - num_shares) as u64));
            lemma_total_after_update(before, i, (before[i] - num_shares) as u64);
        },
        Operation::AddOutcome { ctx, name } => {
            assert(later =~= before.push(0));
            lemma_total_after_push(before, 0);
        },
        _ => {
            assert(later =~= before);
        },
    }
}

/// A request that is refused changes nothing, and one that does not trade or
/// add an outcome leaves every outcome as it was.
pub proof fn lemma_outcomes_change_only_by_trades(m: MarketView, op: Operation)
    ensures
        step(m, op) is Err ==> after(m, op) == m,
        !(op is Buy || op is Sell || op is AddOutcome) ==> after(m, op).outcomes == m.outcomes,
{
}

/// The collected fees change by trades, which never lower them, and by a
/// granted withdrawal, which takes all of them; nothing else touches them.
pub proof fn lemma_fees_grow_until_withdrawn(m: MarketView, op: Operation)
    requires
        m.wf(),
    ensures
        op is Withdraw && step(m, op) is Ok ==> after(m, op).collected_fees == 0,
        !(op is Withdraw) ==> after(m, op).collected_fees >= m.collected_fees,
        !(op is Buy || op is Sell || op is Withdraw) ==> after(m, op).collected_fees
            == m.collected_fees,
{
}

/// The winning outcome is declared by a settlement alone: a request that
/// changes the winning outcome, or that settles the market, is a settlement
/// by the market's oracle on a closed market.
pub proof fn lemma_winner_is_declared_by_the_oracle(m: MarketView, op: Operation)
    requires
        after(m, op).winning_outcome != m.winning_outcome || (after(m, op).state
            == MarketState::Settled && m.state != MarketState::Settled),
    ensures
        m.state == MarketState::Closed,
        op matches Operation::Settle { ctx, winning_outcome } && ctx.oracle == m.oracle
            && winning_outcome == after(m, op).winning_outcome,
{
}

/// Shares are counted as the ledger is told to make them: a granted purchase
/// mints, and a granted sale burns, exactly the traded number of the traded
/// outcome's share token, and each comes with one payment, which is the only
/// other instruction.
pub proof fn lemma_shares_are_minted_and_burnt_as_counted(m: MarketView, op: Operation)
    requires
        m.wf(),
        step(m, op) is Ok,
    ensures
        ({
            let instructions = step(m, op)->Ok_0.1;
            &&& op matches Operation::Buy { ctx, outcome_index, num_shares } ==> {
                &&& instructions.len() == 2
                &&& instructions[0] matches LedgerInstruction::Transfer { from, to, .. }
                    && from == ctx.buyer_token_account && to == ctx.market_token_account
                &&& instructions[1] == LedgerInstruction::MintTo {
                    mint: m.outcomes[outcome_index as int].mint,
                    to: ctx.buyer_share_account.key,
                    amount: num_shares,
                    authority: ctx.market_key,
                }
            }
            &&& op matches Operation::Sell { ctx, outcome_index, num_shares } ==> {
                &&& instructions.len() == 2
                &&& instructions[0] == LedgerInstruction::Burn {
                    mint: m.outcomes[outcome_index as int].mint,
                    from: ctx.seller_share_account.key,
                    amount: num_shares,
                    authority: ctx.seller,
                }
                &&& instructions[1] matches LedgerInstruction::Transfer { from, to, .. }
                    && from == ctx.market_token_account && to == ctx.seller_token_account
            }
            &&& !(op is Buy || op is Sell) ==> forall|k: int|
                0 <= k < instructions.len() ==> !(#[trigger] instructions[k] is MintTo)
        }),
{
}

/// The collateral that the instructions move into the account `custody`,
/// less what they move out of it.
pub open spec fn inflow(instructions: Seq<LedgerInstruction>, custody: Identity) -> int
    decreases instructions.len(),
{
    if instructions.len() == 0 {
        0
    } else {
        inflow(instructions.drop_last(), custody) + match instructions.last() {
            LedgerInstruction::Transfer { from, to, amount, .. } => (if to == custody {
                amount as int
            } else {
                0
            }) - (if from == custody {
                amount as int
            } else {
                0
            }),
            _ => 0,
        }
    }
}

/// Whether the request names `custody` as the market's custody account, and
/// another account as the other side of its payment.
pub open spec fn pays_through(op: Operation, custody: Identity) -> bool {
    match op {
        Operation::Buy { ctx, .. } => ctx.market_token_account == custody
            && ctx.buyer_token_account != custody,
        Operation::Sell { ctx, .. } => ctx.market_token_account == custody
            && ctx.seller_token_account != custody,
        Operation::Claim { ctx } => ctx.market_token_account == custody && ctx.user_token_account
            != custody,
        Operation::Withdraw { ctx } => ctx.market_token_account == custody
            && ctx.fee_recipient_token_account != custody,
        _ => true,
    }
}

/// The counters of a market never lay claim to more than custody receives:
/// whatever a granted request adds to the market maker's funds and the
/// collected fees together, its instructions move at least as much into
/// custody, and whatever they take out of custody, the counters give up.
/// A custody balance that covers the counters before a request covers them
/// after it.
pub proof fn lemma_custody_covers_the_counters(m: MarketView, op: Operation, custody: Identity)
    requires
        m.wf(),
        step(m, op) is Ok,
        pays_through(op, custody),
    ensures
        inflow(step(m, op)->Ok_0.1, custody) >= after(m, op).claimed() - m.claimed(),
        !(op is Buy || op is Sell) ==> inflow(step(m, op)->Ok_0.1, custody) == after(
            m,
            op,
        ).claimed() - m.claimed(),
{
    let instructions = step(m, op)->Ok_0.1;
    reveal_with_fuel(inflow, 3);
    match op {
        Operation::Buy { ctx, outcome_index, num_shares } => {
            assert(instructions.drop_last().drop_last() =~= Seq::empty());
            assert(instructions.drop_last().last() == instructions[0]);
            assert(instructions.last() == instructions[1]);
            assert(inflow(instructions, custody) >= after(m, op).claimed() - m.claimed());
        },
        Operation::Sell { ctx, outcome_index, num_shares } => {
            let quote = sell_quote(
                share_totals(m.outcomes),
                m.b,
                m.fee_bps,
                outcome_index as int,
                num_shares,
            )->Ok_0;
            lemma_fee_at_most_amount(quote.amount, m.fee_bps);
            assert(instructions.drop_last().drop_last() =~= Seq::empty());
            assert(instructions.drop_last().last() == instructions[0]);
            assert(instructions.last() == instructions[1]);
            assert(inflow(instructions, custody) >= after(m, op).claimed() - m.claimed());
        },
        Operation::Claim { ctx } => {
            assert(instructions.drop_last().drop_last() =~= Seq::empty());
            assert(instructions.drop_last().last() == instructions[0]);
            assert(instructions.last() == instructions[1]);
            assert(inflow(instructions, custody) == after(m, op).claimed() - m.claimed());
        },
        Operation::Withdraw { ctx } => {
            assert(instructions.drop_last() =~= Seq::empty());
            assert(instructions.last() == instructions[0]);
            assert(inflow(instructions, custody) == after(m, op).claimed() - m.claimed());
        },
        Operation::AddOutcome { .. } => {
            assert(inflow(instructions, custody) == after(m, op).claimed() - m.claimed());
        },
        Operation::Close { .. } => {
            assert(inflow(instructions, custody) == after(m, op).claimed() - m.claimed());
        },
        Operation::Settle { .. } => {
            assert(inflow(instructions, custody) == after(m, op).claimed() - m.claimed());
        },
    }
}

/// A purchase is never refused for a falling cost: raising a quantity does
/// not lower the cost function.
pub proof fn lemma_buy_never_math_error(q: Seq<u64>, b: u64, fee_bps: u64, i: int, n: u64)
    requires
        0 <= i < q.len(),
    ensures
        buy_quote(q, b, fee_bps, i, n) != Err::<Quote, CustomError>(CustomError::MathError),
{
    if b > 0 && q[i] + n <= u64::MAX {
        lemma_lmsr_cost_monotone(q, q.update(i, (q[i] + n) as u64), b);
    }
}

/// A sale is refused for a rising cost only where the outcome has fewer
/// shares than are sold: lowering a quantity does not raise the cost
/// function.
pub proof fn lemma_sell_math_error_only_without_shares(
    q: Seq<u64>,
    b: u64,
    fee_bps: u64,
    i: int,
    n: u64,
)
    requires
        0 <= i < q.len(),
        q[i] >= n,
    ensures
        sell_quote(q, b, fee_bps, i, n) != Err::<Quote, CustomError>(CustomError::MathError),
{
    if b > 0 {
        lemma_lmsr_cost_monotone(q.update(i, (q[i] - n) as u64), q, b);
    }
}

/// Buying shares and selling the same shares straight back costs the trader
/// the two fees and nothing else.
///
/// The sale refunds exactly what the purchase cost before fees, at the same
/// fee; so what the trader paid less what they got back is the fee of the
/// purchase plus the fee of the sale. The shares of every outcome and the
/// market maker's funds are what they were, and the collected fees have
/// grown by the recipient's part of both fees.
pub proof fn lemma_round_trip(
    m: MarketView,
    buy: BuyShares,
    sell: SellShares,
    outcome_index: u64,
    num_shares: u64,
)
    requires
        m.wf(),
        buy_outcome(m, buy, outcome_index, num_shares) is Ok,
        sell_outcome(
            buy_outcome(m, buy, outcome_index, num_shares)->Ok_0.0,
            sell,
            outcome_index,
            num_shares,
        ) is Ok,
    ensures
        ({
            let i = outcome_index as int;
            let bought = buy_outcome(m, buy, outcome_index, num_shares)->Ok_0;
            let sold = sell_outcome(bought.0, sell, outcome_index, num_shares)->Ok_0;
            let paid = buy_quote(share_totals(m.outcomes), m.b, m.fee_bps, i, num_shares)->Ok_0;
            let back = sell_quote(
                share_totals(bought.0.outcomes),
                m.b,
                m.fee_bps,
                i,
                num_shares,
            )->Ok_0;
            &&& bought.1 == buy_instructions(buy, num_shares, paid)
            &&& sold.1 == sell_instructions(sell, num_shares, back)
            &&& back.amount == paid.amount
            &&& back.fee == paid.fee
            &&& back.fee <= back.amount
            &&& (paid.amount + paid.fee) - (back.amount - back.fee) == paid.fee + back.fee
            &&& sold.0.outcomes == m.outcomes
            &&& sold.0.market_maker_funds == m.market_maker_funds
            &&& sold.0.collected_fees == m.collected_fees + paid.fee_to_recipient
                + back.fee_to_recipient
            &&& sold.0.state == m.state
        }),
{
    let i = outcome_index as int;
    let q = share_totals(m.outcomes);
    let bought = buy_outcome(m, buy, outcome_index, num_shares)->Ok_0;
    let q1 = share_totals(bought.0.outcomes);
    let raised = (q[i] + num_shares) as u64;
    assert(q1 =~= q.update(i, raised));
    assert(q1.update(i, (q1[i] - num_shares) as u64) =~= q);
    let paid = buy_quote(q, m.b, m.fee_bps, i, num_shares)->Ok_0;
    let back = sell_quote(q1, m.b, m.fee_bps, i, num_shares)->Ok_0;
    lemma_fee_at_most_amount(back.amount, m.fee_bps);
    let sold = sell_outcome(bought.0, sell, outcome_index, num_shares)->Ok_0;
    assert(sold.0.outcomes =~= m.outcomes);
}

} // verus!
