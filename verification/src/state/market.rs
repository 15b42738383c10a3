//! The market record and its invariant.
use crate::constants::{BPS_DENOMINATOR, MAX_NAME_LEN, MAX_OUTCOMES, MAX_TITLE_LEN};
use crate::state::identity::Identity;
use crate::state::outcome::{byte_len, outcome_views, text_len, Outcome, OutcomeView};
use vstd::prelude::*;

verus! {

/// Where a market stands in its life. It only ever moves forward:
/// `Open`, then `Closed`, then `Settled`.
#[derive(Clone, Copy, Debug, PartialEq, Eq, Structural)]
pub enum MarketState {
    /// Trades are accepted.
    Open,
    /// Trading has ended; the winning outcome is not declared yet.
    Closed,
    /// The winning outcome is declared; holders can claim.
    Settled,
}

impl MarketState {
    /// Position of the state in the market's life.
    pub open spec fn rank(self) -> nat {
        match self {
            MarketState::Open => 0,
            MarketState::Closed => 1,
            MarketState::Settled => 2,
        }
    }
}

/// The persistent state of one market.
#[derive(Clone, Debug)]
pub struct Market {
    pub market_id: u64,
    /// At most `MAX_TITLE_LEN` bytes.
    pub title: String,
    /// The identity that declares the winning outcome.
    pub oracle: Identity,
    /// Liquidity parameter of the scoring rule; positive.
    pub b: u64,
    /// Fee on every trade, in basis points; at most `BPS_DENOMINATOR`.
    pub fee_bps: u64,
    /// The identity that may withdraw the collected fees.
    pub fee_recipient: Identity,
    /// Between 1 and `MAX_OUTCOMES` outcomes; an outcome's index is its
    /// position here.
    pub outcomes: Vec<Outcome>,
    /// Time from which the market may be closed.
    pub end_timestamp: i64,
    pub state: MarketState,
    /// Index of the winning outcome once the market is settled; 0 before.
    pub winning_outcome: u64,
    /// Funds that back refunds and payouts.
    pub market_maker_funds: u64,
    /// Funds that the market started with.
    pub initial_funds: u64,
    /// Fees collected for the fee recipient and not yet withdrawn.
    pub collected_fees: u64,
    /// The collateral token in which costs, fees and payouts are counted.
    pub base_token_mint: Identity,
}

/// A market as a mathematical value.
pub struct MarketView {
    pub market_id: u64,
    pub title: Seq<char>,
    pub oracle: Identity,
    pub b: u64,
    pub fee_bps: u64,
    pub fee_recipient: Identity,
    pub outcomes: Seq<OutcomeView>,
    pub end_timestamp: i64,
    pub state: MarketState,
    pub winning_outcome: u64,
    pub market_maker_funds: u64,
    pub initial_funds: u64,
    pub collected_fees: u64,
    pub base_token_mint: Identity,
}

impl View for Market {
    type V = MarketView;

    open spec fn view(&self) -> MarketView {
        MarketView {
            market_id: self.market_id,
            title: self.title@,
            oracle: self.oracle,
            b: self.b,
            fee_bps: self.fee_bps,
            fee_recipient: self.fee_recipient,
            outcomes: outcome_views(self.outcomes@),
            end_timestamp: self.end_timestamp,
            state: self.state,
            winning_outcome: self.winning_outcome,
            market_maker_funds: self.market_maker_funds,
            initial_funds: self.initial_funds,
            collected_fees: self.collected_fees,
            base_token_mint: self.base_token_mint,
        }
    }
}

impl MarketView {
    /// The invariant of a market record: what creation establishes and every
    /// operation keeps.
    pub open spec fn wf(self) -> bool {
        &&& 1 <= self.outcomes.len() <= MAX_OUTCOMES
        &&& self.b > 0
        &&& self.fee_bps <= BPS_DENOMINATOR
        &&& byte_len(self.title) <= MAX_TITLE_LEN
        &&& forall|j: int| 0 <= j < self.outcomes.len() ==> (#[trigger] self.outcomes[j]).wf()
        &&& self.state == MarketState::Settled ==> self.winning_outcome < self.outcomes.len()
    }
}

impl MarketView {
    /// The collateral that the record's counters lay claim to: the market
    /// maker's funds and the fees that wait for the recipient.
    pub open spec fn claimed(self) -> int {
        self.market_maker_funds + self.collected_fees
    }
}

impl Market {
    /// Whether a custody balance of `custody_balance` covers what the
    /// record's counters lay claim to. To be held against the ledger's own
    /// figure, so that the two never part unnoticed.
    pub fn covered_by(&self, custody_balance: u64) -> (ok: bool)
        ensures
            ok == (self@.claimed() <= custody_balance),
    {
        match self.market_maker_funds.checked_add(self.collected_fees) {
            None => false,
            Some(claimed) => claimed <= custody_balance,
        }
    }

    /// Whether the record satisfies the invariant of a market.
    pub fn is_well_formed(&self) -> (ok: bool)
        ensures
            ok == self@.wf(),
    {
        let n: usize = self.outcomes.len();
        if n < 1 || n > MAX_OUTCOMES || self.b == 0 || self.fee_bps > BPS_DENOMINATOR
            || text_len(&self.title) > MAX_TITLE_LEN {
            return false;
        }
        if self.state == MarketState::Settled && self.winning_outcome >= n as u64 {
            return false;
        }
        let mut j: usize = 0;
        while j < n
            invariant
                j <= n,
                n == self.outcomes.len(),
                forall|i: int| 0 <= i < j ==> (#[trigger] self@.outcomes[i]).wf(),
            decreases n - j,
        {
            if text_len(&self.outcomes[j].name) > MAX_NAME_LEN {
                assert(!self@.outcomes[j as int].wf());
                return false;
            }
            j = j + 1;
        }
        true
    }
}

} // verus!
