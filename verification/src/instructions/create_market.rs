//! Creating a market.
use crate::constants::{
    BPS_DENOMINATOR, MAX_NAME_LEN, MAX_OUTCOMES, MAX_TITLE_LEN, SHARES_DECIMALS,
};
use crate::error::CustomError;
use crate::ledger::{is_initialized_mint, mint_unpacks, AccountData, LedgerInstruction, MINT_LEN};
use crate::state::identity::Identity;
use crate::state::market::{Market, MarketState, MarketView};
use crate::state::outcome::{byte_len, outcome_views, text_len, Outcome, OutcomeView};
use vstd::prelude::*;

verus! {

/// The accounts that a creation names, and the time.
#[derive(Clone, Debug)]
pub struct CreateMarket {
    /// The ledger's current time.
    pub now: i64,
    /// The identity of the new market on the ledger, which becomes the
    /// authority over its share tokens.
    pub market_key: Identity,
    /// The ledger's token program, which has to own every token.
    pub token_program: Identity,
    /// The collateral token.
    pub base_token_mint: AccountData,
    /// The share token of each outcome, in the order of the outcomes.
    pub remaining_accounts: Vec<AccountData>,
}

/// The names of a vector of texts, in order.
pub open spec fn text_views(texts: Seq<String>) -> Seq<Seq<char>> {
    Seq::new(texts.len(), |j: int| texts[j]@)
}

/// The outcomes of a new market: one for each name, with the share token of
/// the same position and no shares.
pub open spec fn fresh_outcomes(names: Seq<Seq<char>>, mints: Seq<AccountData>) -> Seq<
    OutcomeView,
> {
    Seq::new(
        names.len(),
        |j: int| OutcomeView { name: names[j], total_shares: 0, mint: mints[j].key },
    )
}

/// Whether the arguments of a creation are acceptable, the share tokens
/// apart.
pub open spec fn valid_creation(
    title: Seq<char>,
    names: Seq<Seq<char>>,
    b: u64,
    duration: i64,
    fee_bps: u64,
) -> bool {
    &&& 1 <= names.len() <= MAX_OUTCOMES
    &&& b > 0
    &&& duration > 0
    &&& fee_bps <= BPS_DENOMINATOR
    &&& byte_len(title) <= MAX_TITLE_LEN
    &&& forall|j: int| 0 <= j < names.len() ==> byte_len(#[trigger] names[j]) <= MAX_NAME_LEN
}

/// Whether the token program owns every one of the accounts.
pub open spec fn all_owned_by(accounts: Seq<AccountData>, program: Identity) -> bool {
    forall|j: int| 0 <= j < accounts.len() ==> (#[trigger] accounts[j]).owner == program
}

/// The instructions that set up those of the first `upto` share tokens that
/// are not initialized yet, in order: shares have `SHARES_DECIMALS` decimals
/// and the market is their authority.
pub open spec fn mint_setup(mints: Seq<AccountData>, market_key: Identity, upto: int) -> Seq<
    LedgerInstruction,
>
    decreases upto,
{
    if upto <= 0 {
        Seq::empty()
    } else {
        let before = mint_setup(mints, market_key, upto - 1);
        if is_initialized_mint(mints[upto - 1].data@) {
            before
        } else {
            before.push(
                LedgerInstruction::InitializeMint {
                    mint: mints[upto - 1].key,
                    decimals: SHARES_DECIMALS as u8,
                    authority: market_key,
                },
            )
        }
    }
}

/// The outcome of creating a market: the new record and the ledger
/// instructions, or the reason for the refusal. The checks are made in the
/// order in which they stand here.
pub open spec fn create_outcome(
    ctx: CreateMarket,
    market_id: u64,
    title: Seq<char>,
    names: Seq<Seq<char>>,
    oracle: Identity,
    b: u64,
    duration: i64,
    fee_bps: u64,
    fee_recipient: Identity,
    initial_funds: u64,
) -> Result<(MarketView, Seq<LedgerInstruction>), CustomError> {
    let mints = ctx.remaining_accounts@;
    if !valid_creation(title, names, b, duration, fee_bps) {
        Err(CustomError::InvalidParameter)
    } else if ctx.base_token_mint.owner != ctx.token_program {
        Err(CustomError::InvalidOwner)
    } else if !is_initialized_mint(ctx.base_token_mint.data@) {
        Err(CustomError::InvalidMint)
    } else if ctx.now + duration > i64::MAX {
        Err(CustomError::ArithmeticOverflow)
    } else if mints.len() != names.len() {
        Err(CustomError::InvalidParameter)
    } else if !all_owned_by(mints, ctx.token_program) {
        Err(CustomError::InvalidMint)
    } else {
        Ok(
            (
                MarketView {
                    market_id,
                    title,
                    oracle,
                    b,
                    fee_bps,
                    fee_recipient,
                    outcomes: fresh_outcomes(names, mints),
                    end_timestamp: (ctx.now + duration) as i64,
                    state: MarketState::Open,
                    winning_outcome: 0,
                    market_maker_funds: initial_funds,
                    initial_funds,
                    collected_fees: 0,
                    base_token_mint: ctx.base_token_mint.key,
                },
                mint_setup(mints, ctx.market_key, mints.len() as int),
            ),
        )
    }
}

/// Whether every name fits its bound.
fn names_fit(outcomes: &Vec<String>) -> (ok: bool)
    ensures
        ok == (forall|j: int|
            0 <= j < outcomes.len() ==> byte_len(#[trigger] text_views(outcomes@)[j])
                <= MAX_NAME_LEN),
{
    let mut j: usize = 0;
    while j < outcomes.len()
        invariant
            j <= outcomes.len(),
            forall|k: int|
                0 <= k < j ==> byte_len(#[trigger] text_views(outcomes@)[k]) <= MAX_NAME_LEN,
        decreases outcomes.len() - j,
    {
        if text_len(&outcomes[j]) > MAX_NAME_LEN {
            assert(byte_len(text_views(outcomes@)[j as int]) > MAX_NAME_LEN);
            return false;
        }
        j = j + 1;
    }
    true
}

/// Creates a market that is open for trading until `duration` seconds after
/// the time `ctx.now`.
///
/// The market has one outcome for each name in `outcomes`, with the share
/// token of the same position in `ctx.remaining_accounts` and no shares; its
/// funds are `initial_funds` and no fees are collected. The instructions set
/// up the share tokens that are not initialized yet.
///
/// It is refused with `InvalidParameter` unless there are between 1 and
/// `MAX_OUTCOMES` names and as many share tokens, `b` and `duration` are
/// positive, the fee is at most 100%, and title and names fit their bounds;
/// with `InvalidOwner` or `InvalidMint` when the collateral token is not an
/// initialized token of the token program, with `InvalidMint` when a share
/// token is not owned by the token program, and with `ArithmeticOverflow`
/// when the end time leaves the range of times.
pub fn handler(
    ctx: &CreateMarket,
    market_id: u64,
    title: String,
    outcomes: Vec<String>,
    oracle: Identity,
    b: u64,
    duration: i64,
    fee_percent: u64,
    fee_recipient: Identity,
    initial_funds: u64,
) -> (r: Result<(Market, Vec<LedgerInstruction>), CustomError>)
    ensures
        match r {
            Ok(created) => create_outcome(
                *ctx,
                market_id,
                title@,
                text_views(outcomes@),
                oracle,
                b,
                duration,
                fee_percent,
                fee_recipient,
                initial_funds,
            ) == Ok::<(MarketView, Seq<LedgerInstruction>), CustomError>(
                (created.0@, created.1@),
            ) && created.0@.wf(),
            Err(e) => create_outcome(
                *ctx,
                market_id,
                title@,
                text_views(outcomes@),
                oracle,
                b,
                duration,
                fee_percent,
                fee_recipient,
                initial_funds,
            ) == Err::<(MarketView, Seq<LedgerInstruction>), CustomError>(e),
        },
{
    let n: usize = outcomes.len();
    if n < 1 || n > MAX_OUTCOMES || b == 0 || duration <= 0 || fee_percent > BPS_DENOMINATOR
        || text_len(&title) > MAX_TITLE_LEN {
        return Err(CustomError::InvalidParameter);
    }
    if !names_fit(&outcomes) {
        return Err(CustomError::InvalidParameter);
    }
    if ctx.base_token_mint.owner != ctx.token_program {
        return Err(CustomError::InvalidOwner);
    }
    if ctx.base_token_mint.data.len() != MINT_LEN || !mint_unpacks(&ctx.base_token_mint.data) {
        return Err(CustomError::InvalidMint);
    }
    let end_timestamp: i64 = match ctx.now.checked_add(duration) {
        None => { return Err(CustomError::ArithmeticOverflow); },
        Some(t) => t,
    };
    if ctx.remaining_accounts.len() != n {
        return Err(CustomError::InvalidParameter);
    }
    let ghost names = text_views(outcomes@);
    let ghost mints = ctx.remaining_accounts@;
    let mut records: Vec<Outcome> = Vec::new();
    let mut instructions: Vec<LedgerInstruction> = Vec::new();
    let mut j: usize = 0;
    while j < n
        invariant
            j <= n,
            n == outcomes.len(),
            n == ctx.remaining_accounts.len(),
            valid_creation(title@, text_views(outcomes@), b, duration, fee_percent),
            ctx.base_token_mint.owner == ctx.token_program,
            is_initialized_mint(ctx.base_token_mint.data@),
            ctx.now + duration <= i64::MAX,
            names == text_views(outcomes@),
            mints == ctx.remaining_accounts@,
            records@.len() == j,
            forall|k: int| 0 <= k < j ==> (#[trigger] records@[k])@ == fresh_outcomes(names, mints)[k],
            forall|k: int| 0 <= k < j ==> (#[trigger] mints[k]).owner == ctx.token_program,
            instructions@ == mint_setup(mints, ctx.market_key, j as int),
        decreases n - j,
    {
        let account = &ctx.remaining_accounts[j];
        if account.owner != ctx.token_program {
            assert(!all_owned_by(mints, ctx.token_program));
            return Err(CustomError::InvalidMint);
        }
        if !mint_unpacks(&account.data) {
            instructions.push(
                LedgerInstruction::InitializeMint {
                    mint: account.key,
                    decimals: SHARES_DECIMALS as u8,
                    authority: ctx.market_key,
                },
            );
        }
        records.push(Outcome { name: outcomes[j].clone(), total_shares: 0, mint: account.key });
        j = j + 1;
    }
    proof {
        assert(outcome_views(records@) =~= fresh_outcomes(names, mints));
    }
    let market = Market {
        market_id,
        title,
        oracle,
        b,
        fee_bps: fee_percent,
        fee_recipient,
        outcomes: records,
        end_timestamp,
        state: MarketState::Open,
        winning_outcome: 0,
        market_maker_funds: initial_funds,
        initial_funds,
        collected_fees: 0,
        base_token_mint: ctx.base_token_mint.key,
    };
    Ok((market, instructions))
}

} // verus!
