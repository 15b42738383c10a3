use anchor_lang::solana_program::program_option::COption;
use anchor_lang::solana_program::program_pack::Pack;
use anchor_lang::solana_program::pubkey::Pubkey;
use anchor_spl::token::spl_token::state::Mint;
use prediction_market::claim_payout;
use prediction_market::close_market;
use prediction_market::constants::PAYOUT_PER_SHARE;
use prediction_market::create_market;
use prediction_market::error::CustomError;
use prediction_market::instructions::claim_payout::ClaimPayout;
use prediction_market::instructions::close_market::CloseMarket;
use prediction_market::instructions::create_market::CreateMarket;
use prediction_market::instructions::set_outcome::SetOutcome;
use prediction_market::instructions::withdraw_fees::WithdrawFees;
use prediction_market::ledger::{AccountData, LedgerInstruction, TokenAccount};
use prediction_market::set_outcome;
use prediction_market::state::identity::Identity;
use prediction_market::state::market::{Market, MarketState};
use prediction_market::withdraw_fees;

fn id(n: u128) -> Identity {
    Identity { hi: 0, lo: n }
}

const MARKET: u128 = 1;
const ORACLE: u128 = 2;
const RECIPIENT: u128 = 3;
const HOLDER: u128 = 4;
const HOLDER_FUNDS: u128 = 5;
const CUSTODY: u128 = 6;
const HOLDER_SHARES: u128 = 7;
const RECIPIENT_FUNDS: u128 = 8;
const TOKEN_PROGRAM: u128 = 9;
const COLLATERAL: u128 = 10;
const YES: u128 = 100;
const NO: u128 = 101;

fn initialized_mint() -> Vec<u8> {
    let mut data = vec![0u8; 82];
    data[45] = 1;
    data
}

fn token(key: u128) -> AccountData {
    AccountData { key: id(key), owner: id(TOKEN_PROGRAM), data: initialized_mint() }
}

fn creation(now: i64, mints: Vec<u128>) -> CreateMarket {
    CreateMarket {
        now,
        market_key: id(MARKET),
        token_program: id(TOKEN_PROGRAM),
        base_token_mint: token(COLLATERAL),
        remaining_accounts: mints.into_iter().map(token).collect(),
    }
}

fn create_with(
    ctx: &CreateMarket,
    names: Vec<&str>,
) -> Result<(Market, Vec<LedgerInstruction>), CustomError> {
    create_market(
        ctx,
        42,
        String::from("Will it rain?"),
        names.into_iter().map(String::from).collect(),
        id(ORACLE),
        100,
        3_600,
        500,
        id(RECIPIENT),
        777,
    )
}

fn create(
    names: Vec<&str>,
    mints: Vec<u128>,
    title: &str,
    b: u64,
    duration: i64,
    fee: u64,
    now: i64,
) -> Result<Market, CustomError> {
    let ctx = creation(now, mints);
    create_market(
        &ctx,
        42,
        String::from(title),
        names.into_iter().map(String::from).collect(),
        id(ORACLE),
        b,
        duration,
        fee,
        id(RECIPIENT),
        777,
    )
    .map(|created| created.0)
}

fn yes_no_market() -> Market {
    create(vec!["Yes", "No"], vec![YES, NO], "Will it rain?", 100, 3_600, 500, 1_000).unwrap()
}

fn settled_market(winner: u64, funds: u64) -> Market {
    let mut market = yes_no_market();
    close_market(&mut market, &CloseMarket { now: 4_600 }).unwrap();
    set_outcome(&mut market, &SetOutcome { oracle: id(ORACLE) }, winner).unwrap();
    market.market_maker_funds = funds;
    market
}

fn claim_ctx(mint: u128, held: u64) -> ClaimPayout {
    ClaimPayout {
        market_key: id(MARKET),
        user: id(HOLDER),
        user_token_account: id(HOLDER_FUNDS),
        market_token_account: id(CUSTODY),
        user_share_account: TokenAccount {
            key: id(HOLDER_SHARES),
            mint: id(mint),
            owner: id(HOLDER),
            amount: held,
        },
    }
}

fn withdraw_ctx(caller: u128) -> WithdrawFees {
    WithdrawFees {
        market_key: id(MARKET),
        fee_recipient: id(caller),
        fee_recipient_token_account: id(RECIPIENT_FUNDS),
        market_token_account: id(CUSTODY),
    }
}

#[test]
fn created_market_is_open_and_empty() {
    let market = yes_no_market();
    assert_eq!(market.market_id, 42);
    assert_eq!(market.title, "Will it rain?");
    assert_eq!(market.oracle, id(ORACLE));
    assert_eq!(market.b, 100);
    assert_eq!(market.fee_bps, 500);
    assert_eq!(market.fee_recipient, id(RECIPIENT));
    assert_eq!(market.end_timestamp, 4_600);
    assert_eq!(market.state, MarketState::Open);
    assert_eq!(market.winning_outcome, 0);
    assert_eq!(market.market_maker_funds, 777);
    assert_eq!(market.initial_funds, 777);
    assert_eq!(market.collected_fees, 0);
    assert_eq!(market.base_token_mint, id(COLLATERAL));
    assert_eq!(market.outcomes.len(), 2);
    assert_eq!(market.outcomes[0].name, "Yes");
    assert_eq!(market.outcomes[0].mint, id(YES));
    assert_eq!(market.outcomes[0].total_shares, 0);
    assert_eq!(market.outcomes[1].name, "No");
    assert_eq!(market.outcomes[1].mint, id(NO));
    assert_eq!(market.outcomes[1].total_shares, 0);
    assert!(market.is_well_formed());
}

#[test]
fn create_rejects_malformed_arguments() {
    let bad = Err(CustomError::InvalidParameter);
    assert_eq!(create(vec![], vec![], "t", 100, 10, 500, 0).map(|_| ()), bad);
    assert_eq!(create(vec!["Yes", "No"], vec![YES, NO], "t", 0, 10, 500, 0).map(|_| ()), bad);
    assert_eq!(create(vec!["Yes", "No"], vec![YES, NO], "t", 100, 0, 500, 0).map(|_| ()), bad);
    assert_eq!(create(vec!["Yes", "No"], vec![YES, NO], "t", 100, -5, 500, 0).map(|_| ()), bad);
    assert_eq!(create(vec!["Yes", "No"], vec![YES], "t", 100, 10, 500, 0).map(|_| ()), bad);
    assert_eq!(create(vec!["Yes"], vec![YES, NO], "t", 100, 10, 500, 0).map(|_| ()), bad);
    assert_eq!(create(vec!["Yes", "No"], vec![YES, NO], "t", 100, 10, 10_001, 0).map(|_| ()), bad);
    let long = "x".repeat(51);
    assert_eq!(create(vec!["Yes", "No"], vec![YES, NO], &long, 100, 10, 500, 0).map(|_| ()), bad);
    assert_eq!(create(vec!["Yes", &long], vec![YES, NO], "t", 100, 10, 500, 0).map(|_| ()), bad);
    let eleven: Vec<&str> = vec!["a"; 11];
    let mints: Vec<u128> = (0..11).collect();
    assert_eq!(create(eleven, mints, "t", 100, 10, 500, 0).map(|_| ()), bad);
}

#[test]
fn create_accepts_the_bounds() {
    let fifty = "x".repeat(50);
    let ten: Vec<&str> = vec![fifty.as_str(); 10];
    let mints: Vec<u128> = (0..10).collect();
    let market = create(ten, mints, &fifty, 1, 1, 10_000, 0).unwrap();
    assert_eq!(market.outcomes.len(), 10);
    assert!(market.is_well_formed());
    let single = create(vec!["Only"], vec![YES], "", 1, 1, 0, -50).unwrap();
    assert_eq!(single.end_timestamp, -49);
}

#[test]
fn create_counts_lengths_in_bytes() {
    // Seventeen characters of three bytes each are 51 bytes.
    let wide = "\u{20ac}".repeat(17);
    assert_eq!(
        create(vec!["Yes", "No"], vec![YES, NO], &wide, 100, 10, 500, 0).map(|_| ()),
        Err(CustomError::InvalidParameter)
    );
    let fits = "\u{20ac}".repeat(16);
    assert!(create(vec!["Yes", "No"], vec![YES, NO], &fits, 100, 10, 500, 0).is_ok());
}

#[test]
fn create_with_an_end_time_out_of_range_overflows() {
    assert_eq!(
        create(vec!["Yes", "No"], vec![YES, NO], "t", 100, 2, 500, i64::MAX - 1).map(|_| ()),
        Err(CustomError::ArithmeticOverflow)
    );
    assert!(create(vec!["Yes", "No"], vec![YES, NO], "t", 100, 1, 500, i64::MAX - 1).is_ok());
}

#[test]
fn well_formedness_is_checked() {
    let mut market = yes_no_market();
    assert!(market.is_well_formed());
    market.b = 0;
    assert!(!market.is_well_formed());
    let mut market = yes_no_market();
    market.fee_bps = 10_001;
    assert!(!market.is_well_formed());
    let mut market = yes_no_market();
    market.state = MarketState::Settled;
    market.winning_outcome = 2;
    assert!(!market.is_well_formed());
    market.winning_outcome = 1;
    assert!(market.is_well_formed());
    let mut market = yes_no_market();
    market.outcomes[1].name = "x".repeat(51);
    assert!(!market.is_well_formed());
    let mut market = yes_no_market();
    market.outcomes.clear();
    assert!(!market.is_well_formed());
    let mut market = yes_no_market();
    market.title = "x".repeat(51);
    assert!(!market.is_well_formed());
}

#[test]
fn close_before_the_end_fails_and_after_succeeds() {
    let mut market = yes_no_market();
    assert_eq!(
        close_market(&mut market, &CloseMarket { now: 4_599 }),
        Err(CustomError::NotYetExpired)
    );
    assert_eq!(market.state, MarketState::Open);
    assert_eq!(close_market(&mut market, &CloseMarket { now: 4_600 }), Ok(()));
    assert_eq!(market.state, MarketState::Closed);
}

#[test]
fn close_twice_fails() {
    let mut market = yes_no_market();
    close_market(&mut market, &CloseMarket { now: 5_000 }).unwrap();
    assert_eq!(
        close_market(&mut market, &CloseMarket { now: 5_001 }),
        Err(CustomError::AlreadyClosed)
    );
    assert_eq!(market.state, MarketState::Closed);
    let mut settled = settled_market(0, 0);
    assert_eq!(
        close_market(&mut settled, &CloseMarket { now: 9_000 }),
        Err(CustomError::AlreadyClosed)
    );
    assert_eq!(settled.state, MarketState::Settled);
}

#[test]
fn set_outcome_by_a_stranger_is_unauthorized() {
    let mut market = yes_no_market();
    close_market(&mut market, &CloseMarket { now: 5_000 }).unwrap();
    assert_eq!(
        set_outcome(&mut market, &SetOutcome { oracle: id(HOLDER) }, 0),
        Err(CustomError::Unauthorized)
    );
    assert_eq!(market.state, MarketState::Closed);
    assert_eq!(market.winning_outcome, 0);
}

#[test]
fn set_outcome_by_a_stranger_is_unauthorized_in_every_state() {
    let mut open = yes_no_market();
    assert_eq!(
        set_outcome(&mut open, &SetOutcome { oracle: id(RECIPIENT) }, 1),
        Err(CustomError::Unauthorized)
    );
    assert_eq!(open.state, MarketState::Open);
    let mut settled = settled_market(1, 0);
    assert_eq!(
        set_outcome(&mut settled, &SetOutcome { oracle: id(RECIPIENT) }, 0),
        Err(CustomError::Unauthorized)
    );
    assert_eq!(settled.state, MarketState::Settled);
    assert_eq!(settled.winning_outcome, 1);
}

#[test]
fn set_outcome_needs_a_closed_market() {
    let mut market = yes_no_market();
    assert_eq!(
        set_outcome(&mut market, &SetOutcome { oracle: id(ORACLE) }, 0),
        Err(CustomError::MarketNotClosed)
    );
    assert_eq!(market.state, MarketState::Open);
}

#[test]
fn set_outcome_settles_once() {
    let mut market = yes_no_market();
    close_market(&mut market, &CloseMarket { now: 5_000 }).unwrap();
    assert_eq!(set_outcome(&mut market, &SetOutcome { oracle: id(ORACLE) }, 1), Ok(()));
    assert_eq!(market.state, MarketState::Settled);
    assert_eq!(market.winning_outcome, 1);
    assert_eq!(
        set_outcome(&mut market, &SetOutcome { oracle: id(ORACLE) }, 0),
        Err(CustomError::AlreadySettled)
    );
    assert_eq!(market.state, MarketState::Settled);
    assert_eq!(market.winning_outcome, 1);
}

#[test]
fn set_outcome_rejects_an_unknown_outcome() {
    let mut market = yes_no_market();
    close_market(&mut market, &CloseMarket { now: 5_000 }).unwrap();
    assert_eq!(
        set_outcome(&mut market, &SetOutcome { oracle: id(ORACLE) }, 2),
        Err(CustomError::InvalidOutcome)
    );
    assert_eq!(market.state, MarketState::Closed);
}

#[test]
fn claim_pays_per_share_held() {
    let mut market = settled_market(0, 10 * PAYOUT_PER_SHARE);
    let instructions = claim_payout(&mut market, &claim_ctx(YES, 4)).unwrap();
    assert_eq!(
        instructions,
        vec![
            LedgerInstruction::Burn {
                mint: id(YES),
                from: id(HOLDER_SHARES),
                amount: 4,
                authority: id(HOLDER),
            },
            LedgerInstruction::Transfer {
                from: id(CUSTODY),
                to: id(HOLDER_FUNDS),
                amount: 4 * PAYOUT_PER_SHARE,
                authority: id(MARKET),
            },
        ]
    );
    assert_eq!(market.market_maker_funds, 6 * PAYOUT_PER_SHARE);
    assert_eq!(market.state, MarketState::Settled);
}

#[test]
fn claim_without_shares_fails() {
    let mut market = settled_market(0, 10 * PAYOUT_PER_SHARE);
    assert_eq!(
        claim_payout(&mut market, &claim_ctx(YES, 0)).map(|_| ()),
        Err(CustomError::NoSharesToClaim)
    );
    assert_eq!(market.market_maker_funds, 10 * PAYOUT_PER_SHARE);
}

#[test]
fn claim_before_settlement_fails() {
    let mut market = yes_no_market();
    assert_eq!(
        claim_payout(&mut market, &claim_ctx(YES, 4)).map(|_| ()),
        Err(CustomError::MarketNotSettled)
    );
    close_market(&mut market, &CloseMarket { now: 5_000 }).unwrap();
    assert_eq!(
        claim_payout(&mut market, &claim_ctx(YES, 4)).map(|_| ()),
        Err(CustomError::MarketNotSettled)
    );
}

#[test]
fn claim_beyond_the_funds_fails() {
    let mut market = settled_market(0, 4 * PAYOUT_PER_SHARE - 1);
    assert_eq!(
        claim_payout(&mut market, &claim_ctx(YES, 4)).map(|_| ()),
        Err(CustomError::InsufficientFunds)
    );
    assert_eq!(market.market_maker_funds, 4 * PAYOUT_PER_SHARE - 1);
    market.market_maker_funds = 4 * PAYOUT_PER_SHARE;
    assert!(claim_payout(&mut market, &claim_ctx(YES, 4)).is_ok());
    assert_eq!(market.market_maker_funds, 0);
}

#[test]
fn claim_with_a_payout_out_of_range_overflows() {
    let mut market = settled_market(0, u64::MAX);
    assert_eq!(
        claim_payout(&mut market, &claim_ctx(YES, u64::MAX / PAYOUT_PER_SHARE + 1)).map(|_| ()),
        Err(CustomError::ArithmeticOverflow)
    );
}

#[test]
fn claim_with_shares_of_a_losing_outcome_fails() {
    let mut market = settled_market(0, 10 * PAYOUT_PER_SHARE);
    assert_eq!(
        claim_payout(&mut market, &claim_ctx(NO, 4)).map(|_| ()),
        Err(CustomError::InvalidMint)
    );
    let mut ctx = claim_ctx(YES, 4);
    ctx.user_share_account.owner = id(ORACLE);
    assert_eq!(
        claim_payout(&mut market, &ctx).map(|_| ()),
        Err(CustomError::InvalidOwner)
    );
    assert_eq!(market.market_maker_funds, 10 * PAYOUT_PER_SHARE);
}

#[test]
fn claim_on_a_record_with_a_bad_winner_fails() {
    let mut market = settled_market(0, 10 * PAYOUT_PER_SHARE);
    market.winning_outcome = 9;
    assert_eq!(
        claim_payout(&mut market, &claim_ctx(YES, 4)).map(|_| ()),
        Err(CustomError::InvalidOutcome)
    );
}

#[test]
fn withdraw_hands_out_the_fees_and_zeroes_them() {
    let mut market = yes_no_market();
    market.collected_fees = 1_234;
    let instructions = withdraw_fees(&mut market, &withdraw_ctx(RECIPIENT)).unwrap();
    assert_eq!(
        instructions,
        vec![LedgerInstruction::Transfer {
            from: id(CUSTODY),
            to: id(RECIPIENT_FUNDS),
            amount: 1_234,
            authority: id(MARKET),
        }]
    );
    assert_eq!(market.collected_fees, 0);
    assert_eq!(market.market_maker_funds, 777);
    assert_eq!(
        withdraw_fees(&mut market, &withdraw_ctx(RECIPIENT)).map(|_| ()),
        Err(CustomError::NoFeesToWithdraw)
    );
}

#[test]
fn withdraw_by_a_stranger_is_unauthorized() {
    let mut market = yes_no_market();
    market.collected_fees = 1_234;
    assert_eq!(
        withdraw_fees(&mut market, &withdraw_ctx(ORACLE)).map(|_| ()),
        Err(CustomError::Unauthorized)
    );
    assert_eq!(market.collected_fees, 1_234);
}

#[test]
fn state_only_moves_forward() {
    let mut market = yes_no_market();
    assert_eq!(market.state, MarketState::Open);
    close_market(&mut market, &CloseMarket { now: 5_000 }).unwrap();
    assert_eq!(market.state, MarketState::Closed);
    market.collected_fees = 5;
    withdraw_fees(&mut market, &withdraw_ctx(RECIPIENT)).unwrap();
    assert_eq!(market.state, MarketState::Closed);
    set_outcome(&mut market, &SetOutcome { oracle: id(ORACLE) }, 0).unwrap();
    assert_eq!(market.state, MarketState::Settled);
    market.market_maker_funds = PAYOUT_PER_SHARE;
    claim_payout(&mut market, &claim_ctx(YES, 1)).unwrap();
    assert_eq!(market.state, MarketState::Settled);
    let _ = close_market(&mut market, &CloseMarket { now: 9_000 });
    assert_eq!(market.state, MarketState::Settled);
}

#[test]
fn create_sets_up_the_share_tokens_that_are_new() {
    let mut ctx = creation(1_000, vec![YES, NO, 102]);
    ctx.remaining_accounts[0].data = vec![0u8; 82];
    ctx.remaining_accounts[2].data = Vec::new();
    let (market, instructions) = create_with(&ctx, vec!["Yes", "No", "Maybe"]).unwrap();
    assert_eq!(
        instructions,
        vec![
            LedgerInstruction::InitializeMint { mint: id(YES), decimals: 0, authority: id(MARKET) },
            LedgerInstruction::InitializeMint { mint: id(102), decimals: 0, authority: id(MARKET) },
        ]
    );
    assert_eq!(market.outcomes.len(), 3);
    assert_eq!(market.outcomes[2].mint, id(102));
}

#[test]
fn create_leaves_initialized_share_tokens_alone() {
    let ctx = creation(1_000, vec![YES, NO]);
    let (_, instructions) = create_with(&ctx, vec!["Yes", "No"]).unwrap();
    assert_eq!(instructions, vec![]);
}

#[test]
fn create_reads_tokens_as_the_token_program_packs_them() {
    let mut packed = vec![0u8; Mint::LEN];
    let mint = Mint {
        mint_authority: COption::Some(Pubkey::new_from_array([7u8; 32])),
        supply: 1_000_000,
        decimals: 9,
        is_initialized: true,
        freeze_authority: COption::None,
    };
    Mint::pack(mint, &mut packed).unwrap();
    let mut blank = vec![0u8; Mint::LEN];
    Mint::pack(Mint::default(), &mut blank).unwrap();

    let mut ctx = creation(1_000, vec![YES, NO]);
    ctx.base_token_mint.data = packed.clone();
    ctx.remaining_accounts[0].data = packed;
    ctx.remaining_accounts[1].data = blank.clone();
    let (_, instructions) = create_with(&ctx, vec!["Yes", "No"]).unwrap();
    assert_eq!(
        instructions,
        vec![LedgerInstruction::InitializeMint { mint: id(NO), decimals: 0, authority: id(MARKET) }]
    );
    ctx.base_token_mint.data = blank;
    assert_eq!(
        create_with(&ctx, vec!["Yes", "No"]).map(|_| ()),
        Err(CustomError::InvalidMint)
    );
}

#[test]
fn create_reads_the_bytes_of_a_token() {
    let good = initialized_mint();
    let variants: Vec<(usize, u8, bool)> = vec![
        (0, 1, true),
        (0, 2, false),
        (1, 1, false),
        (2, 1, false),
        (3, 1, false),
        (45, 0, false),
        (45, 2, false),
        (46, 1, true),
        (46, 2, false),
        (47, 1, false),
        (48, 1, false),
        (49, 1, false),
        (4, 255, true),
        (36, 255, true),
        (44, 255, true),
        (50, 255, true),
        (81, 255, true),
    ];
    for (at, byte, initialized) in variants {
        let mut ctx = creation(1_000, vec![YES, NO]);
        ctx.remaining_accounts[0].data = good.clone();
        ctx.remaining_accounts[0].data[at] = byte;
        let (_, instructions) = create_with(&ctx, vec!["Yes", "No"]).unwrap();
        assert_eq!(instructions.is_empty(), initialized, "byte {} set to {}", at, byte);
    }
    for len in [0usize, 81, 83, 165] {
        let mut ctx = creation(1_000, vec![YES, NO]);
        ctx.remaining_accounts[1].data = vec![0u8; len];
        if len > 45 {
            ctx.remaining_accounts[1].data[45] = 1;
        }
        let (_, instructions) = create_with(&ctx, vec!["Yes", "No"]).unwrap();
        assert_eq!(instructions.len(), 1, "length {}", len);
    }
}

#[test]
fn create_checks_the_collateral_token() {
    let mut ctx = creation(1_000, vec![YES, NO]);
    ctx.base_token_mint.owner = id(ORACLE);
    assert_eq!(
        create_with(&ctx, vec!["Yes", "No"]).map(|_| ()),
        Err(CustomError::InvalidOwner)
    );
    let mut ctx = creation(1_000, vec![YES, NO]);
    ctx.base_token_mint.data = vec![0u8; 82];
    assert_eq!(
        create_with(&ctx, vec!["Yes", "No"]).map(|_| ()),
        Err(CustomError::InvalidMint)
    );
    ctx.base_token_mint.data = vec![1u8; 81];
    assert_eq!(
        create_with(&ctx, vec!["Yes", "No"]).map(|_| ()),
        Err(CustomError::InvalidMint)
    );
}

#[test]
fn create_checks_who_owns_the_share_tokens() {
    let mut ctx = creation(1_000, vec![YES, NO]);
    ctx.remaining_accounts[1].owner = id(HOLDER);
    assert_eq!(
        create_with(&ctx, vec!["Yes", "No"]).map(|_| ()),
        Err(CustomError::InvalidMint)
    );
}

#[test]
fn custody_check_compares_the_counters_with_the_balance() {
    let mut market = yes_no_market();
    market.market_maker_funds = 1_000;
    market.collected_fees = 24;
    assert!(market.covered_by(1_024));
    assert!(market.covered_by(u64::MAX));
    assert!(!market.covered_by(1_023));
    market.market_maker_funds = u64::MAX;
    assert!(!market.covered_by(u64::MAX));
    market.collected_fees = 0;
    assert!(market.covered_by(u64::MAX));
}
