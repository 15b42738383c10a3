use prediction_market::buy_shares;
use prediction_market::create_market;
use prediction_market::error::CustomError;
use prediction_market::instructions::add_outcome::{handler as add_outcome, AddOutcome};
use prediction_market::instructions::buy_shares::BuyShares;
use prediction_market::instructions::create_market::CreateMarket;
use prediction_market::instructions::sell_shares::SellShares;
use prediction_market::instructions::trade::{
    buy_quote_exec, quote_for_exec, sell_quote_exec, Quote,
};
use prediction_market::ledger::{AccountData, LedgerInstruction, MintAccount, TokenAccount};
use prediction_market::sell_shares;
use prediction_market::state::identity::Identity;
use prediction_market::state::market::{Market, MarketState};

fn id(n: u128) -> Identity {
    Identity { hi: 0, lo: n }
}

const MARKET: u128 = 1;
const ORACLE: u128 = 2;
const RECIPIENT: u128 = 3;
const TRADER: u128 = 4;
const TRADER_FUNDS: u128 = 5;
const CUSTODY: u128 = 6;
const TRADER_SHARES: u128 = 7;
const TOKEN_PROGRAM: u128 = 8;
const COLLATERAL: u128 = 9;
const YES: u128 = 100;
const NO: u128 = 101;

fn initialized_mint() -> Vec<u8> {
    let mut data = vec![0u8; 82];
    data[45] = 1;
    data
}

fn token(key: u128) -> AccountData {
    AccountData { key: id(key), owner: id(TOKEN_PROGRAM), data: initialized_mint() }
}

fn creation(mints: Vec<u128>) -> CreateMarket {
    CreateMarket {
        now: 1_000,
        market_key: id(MARKET),
        token_program: id(TOKEN_PROGRAM),
        base_token_mint: token(COLLATERAL),
        remaining_accounts: mints.into_iter().map(token).collect(),
    }
}

fn yes_no_market(initial_funds: u64) -> Market {
    let ctx = creation(vec![YES, NO]);
    create_market(
        &ctx,
        42,
        String::from("Will it rain?"),
        vec![String::from("Yes"), String::from("No")],
        id(ORACLE),
        100,
        3_600,
        500,
        id(RECIPIENT),
        initial_funds,
    )
    .unwrap()
    .0
}

fn buy_ctx(mint: u128) -> BuyShares {
    BuyShares {
        market_key: id(MARKET),
        buyer: id(TRADER),
        buyer_token_account: id(TRADER_FUNDS),
        market_token_account: id(CUSTODY),
        outcome_mint: MintAccount { key: id(mint), mint_authority: Some(id(MARKET)) },
        buyer_share_account: TokenAccount {
            key: id(TRADER_SHARES),
            mint: id(mint),
            owner: id(TRADER),
            amount: 0,
        },
    }
}

fn sell_ctx(mint: u128, held: u64) -> SellShares {
    SellShares {
        market_key: id(MARKET),
        seller: id(TRADER),
        seller_token_account: id(TRADER_FUNDS),
        market_token_account: id(CUSTODY),
        outcome_mint: MintAccount { key: id(mint), mint_authority: Some(id(MARKET)) },
        seller_share_account: TokenAccount {
            key: id(TRADER_SHARES),
            mint: id(mint),
            owner: id(TRADER),
            amount: held,
        },
    }
}

fn shares(market: &Market) -> Vec<u64> {
    market.outcomes.iter().map(|o| o.total_shares).collect()
}

const DELTA: u64 = 5_124_947_951;
const FEE: u64 = 256_247_397;

#[test]
fn buy_ten_yes_shares() {
    let mut market = yes_no_market(0);
    let instructions = buy_shares(&mut market, &buy_ctx(YES), 0, 10).unwrap();
    assert_eq!(
        instructions,
        vec![
            LedgerInstruction::Transfer {
                from: id(TRADER_FUNDS),
                to: id(CUSTODY),
                amount: DELTA + FEE,
                authority: id(TRADER),
            },
            LedgerInstruction::MintTo {
                mint: id(YES),
                to: id(TRADER_SHARES),
                amount: 10,
                authority: id(MARKET),
            },
        ]
    );
    assert_eq!(shares(&market), vec![10, 0]);
    assert_eq!(market.market_maker_funds, DELTA);
    assert_eq!(market.collected_fees, FEE - FEE / 2);
    assert_eq!(market.state, MarketState::Open);
}

#[test]
fn buy_cost_matches_the_formula() {
    // 100 ln(e^(10/100) + 1) - 100 ln 2, in collateral units.
    let ideal = (100.0 * ((0.1f64).exp() + 1.0).ln() - 100.0 * 2f64.ln()) * 1e9;
    assert!((DELTA as f64 - ideal).abs() <= 2.0);
    assert_eq!(FEE, DELTA * 500 / 10_000);
}

#[test]
fn buy_then_sell_costs_both_fees() {
    let mut market = yes_no_market(0);
    let bought = buy_shares(&mut market, &buy_ctx(YES), 0, 10).unwrap();
    let sold = sell_shares(&mut market, &sell_ctx(YES, 10), 0, 10).unwrap();
    assert_eq!(
        sold,
        vec![
            LedgerInstruction::Burn {
                mint: id(YES),
                from: id(TRADER_SHARES),
                amount: 10,
                authority: id(TRADER),
            },
            LedgerInstruction::Transfer {
                from: id(CUSTODY),
                to: id(TRADER_FUNDS),
                amount: DELTA - FEE,
                authority: id(MARKET),
            },
        ]
    );
    let paid = match bought[0] {
        LedgerInstruction::Transfer { amount, .. } => amount,
        _ => panic!("the first instruction of a purchase is the payment"),
    };
    let got_back = match sold[1] {
        LedgerInstruction::Transfer { amount, .. } => amount,
        _ => panic!("the second instruction of a sale is the refund"),
    };
    assert_eq!(paid - got_back, 2 * FEE);
    assert_eq!(shares(&market), vec![0, 0]);
    assert_eq!(market.market_maker_funds, 0);
    assert_eq!(market.collected_fees, 2 * (FEE - FEE / 2));
}

#[test]
fn round_trip_from_a_traded_market() {
    let mut market = yes_no_market(1_000_000_000_000);
    buy_shares(&mut market, &buy_ctx(YES), 0, 37).unwrap();
    buy_shares(&mut market, &buy_ctx(NO), 1, 12).unwrap();
    let funds = market.market_maker_funds;
    let before = shares(&market);
    let bought = buy_shares(&mut market, &buy_ctx(NO), 1, 25).unwrap();
    let sold = sell_shares(&mut market, &sell_ctx(NO, 25), 1, 25).unwrap();
    let paid = match bought[0] {
        LedgerInstruction::Transfer { amount, .. } => amount,
        _ => panic!("the first instruction of a purchase is the payment"),
    };
    let got_back = match sold[1] {
        LedgerInstruction::Transfer { amount, .. } => amount,
        _ => panic!("the second instruction of a sale is the refund"),
    };
    let quote = buy_quote_exec(before.clone(), 100, 500, 1, 25).unwrap();
    assert_eq!(paid, quote.amount + quote.fee);
    assert_eq!(got_back, quote.amount - quote.fee);
    assert_eq!(paid - got_back, 2 * quote.fee);
    assert_eq!(shares(&market), before);
    assert_eq!(market.market_maker_funds, funds);
}

#[test]
fn trades_move_the_shares_of_one_outcome_only() {
    let ctx = creation(vec![10, 11, 12]);
    let (mut market, _) = create_market(
        &ctx,
        1,
        String::from("Three ways"),
        vec![String::from("A"), String::from("B"), String::from("C")],
        id(ORACLE),
        50,
        10,
        100,
        id(RECIPIENT),
        0,
    )
    .unwrap();
    buy_shares(&mut market, &buy_ctx(11), 1, 8).unwrap();
    assert_eq!(shares(&market), vec![0, 8, 0]);
    buy_shares(&mut market, &buy_ctx(12), 2, 5).unwrap();
    assert_eq!(shares(&market), vec![0, 8, 5]);
    sell_shares(&mut market, &sell_ctx(11, 8), 1, 3).unwrap();
    assert_eq!(shares(&market), vec![0, 5, 5]);
    assert_eq!(shares(&market).iter().sum::<u64>(), 8 + 5 - 3);
}

#[test]
fn quotes_split_the_fee_in_two() {
    assert_eq!(
        quote_for_exec(10_000, 500),
        Ok(Quote { amount: 10_000, fee: 500, reinvest: 250, fee_to_recipient: 250 })
    );
    assert_eq!(
        quote_for_exec(10_020, 500),
        Ok(Quote { amount: 10_020, fee: 501, reinvest: 250, fee_to_recipient: 251 })
    );
    assert_eq!(
        quote_for_exec(u64::MAX, 500),
        Err(CustomError::ArithmeticOverflow)
    );
}

#[test]
fn quotes_of_a_purchase_and_of_the_sale_back_agree() {
    let buy = buy_quote_exec(vec![3, 9, 27], 10, 250, 2, 4).unwrap();
    let sell = sell_quote_exec(vec![3, 9, 31], 10, 250, 2, 4).unwrap();
    assert_eq!(buy, sell);
    assert!(buy.amount > 0);
}

#[test]
fn sell_quote_without_the_shares_is_a_math_error() {
    assert_eq!(
        sell_quote_exec(vec![3, 9], 10, 250, 0, 4),
        Err(CustomError::MathError)
    );
}

#[test]
fn buy_quote_with_too_many_shares_overflows() {
    assert_eq!(
        buy_quote_exec(vec![u64::MAX - 1, 0], u64::MAX, 0, 0, 2),
        Err(CustomError::ArithmeticOverflow)
    );
    assert_eq!(
        buy_quote_exec(vec![u64::MAX - 1, 0], 1_000_000_000_000, 0, 0, 2),
        Err(CustomError::ArithmeticOverflow)
    );
}

#[test]
fn buy_on_a_closed_market_fails() {
    let mut market = yes_no_market(0);
    market.state = MarketState::Closed;
    let before = market.clone();
    assert_eq!(
        buy_shares(&mut market, &buy_ctx(YES), 0, 10),
        Err(CustomError::MarketClosed)
    );
    assert_eq!(shares(&market), shares(&before));
    assert_eq!(market.market_maker_funds, before.market_maker_funds);
    market.state = MarketState::Settled;
    assert_eq!(
        buy_shares(&mut market, &buy_ctx(YES), 0, 10),
        Err(CustomError::MarketClosed)
    );
}

#[test]
fn buy_of_an_unknown_outcome_fails() {
    let mut market = yes_no_market(0);
    assert_eq!(
        buy_shares(&mut market, &buy_ctx(YES), 2, 10),
        Err(CustomError::InvalidOutcome)
    );
    assert_eq!(
        buy_shares(&mut market, &buy_ctx(YES), u64::MAX, 10),
        Err(CustomError::InvalidOutcome)
    );
}

#[test]
fn buy_of_no_shares_fails() {
    let mut market = yes_no_market(0);
    assert_eq!(
        buy_shares(&mut market, &buy_ctx(YES), 0, 0),
        Err(CustomError::InvalidShareCount)
    );
}

#[test]
fn buy_checks_the_accounts() {
    let mut market = yes_no_market(0);
    let mut ctx = buy_ctx(YES);
    ctx.outcome_mint.mint_authority = Some(id(TRADER));
    assert_eq!(
        buy_shares(&mut market, &ctx, 0, 10),
        Err(CustomError::InvalidMintAuthority)
    );
    ctx.outcome_mint.mint_authority = None;
    assert_eq!(
        buy_shares(&mut market, &ctx, 0, 10),
        Err(CustomError::InvalidMintAuthority)
    );
    let mut ctx = buy_ctx(YES);
    ctx.buyer_share_account.mint = id(NO);
    assert_eq!(buy_shares(&mut market, &ctx, 0, 10), Err(CustomError::InvalidMint));
    let mut ctx = buy_ctx(YES);
    ctx.buyer_share_account.owner = id(ORACLE);
    assert_eq!(buy_shares(&mut market, &ctx, 0, 10), Err(CustomError::InvalidOwner));
    // The share token has to be the one of the outcome that is bought.
    assert_eq!(
        buy_shares(&mut market, &buy_ctx(NO), 0, 10),
        Err(CustomError::InvalidMint)
    );
    assert_eq!(shares(&market), vec![0, 0]);
}

#[test]
fn buy_that_overflows_the_funds_fails_and_changes_nothing() {
    let mut market = yes_no_market(u64::MAX - 10);
    assert_eq!(
        buy_shares(&mut market, &buy_ctx(YES), 0, 10),
        Err(CustomError::ArithmeticOverflow)
    );
    assert_eq!(shares(&market), vec![0, 0]);
    assert_eq!(market.market_maker_funds, u64::MAX - 10);
    assert_eq!(market.collected_fees, 0);
}

#[test]
fn sell_more_than_held_fails() {
    let mut market = yes_no_market(0);
    buy_shares(&mut market, &buy_ctx(YES), 0, 10).unwrap();
    assert_eq!(
        sell_shares(&mut market, &sell_ctx(YES, 9), 0, 10),
        Err(CustomError::InsufficientShares)
    );
    assert_eq!(shares(&market), vec![10, 0]);
}

#[test]
fn sell_more_than_outstanding_is_a_math_error() {
    let mut market = yes_no_market(0);
    buy_shares(&mut market, &buy_ctx(YES), 0, 10).unwrap();
    assert_eq!(
        sell_shares(&mut market, &sell_ctx(YES, 11), 0, 11),
        Err(CustomError::MathError)
    );
}

#[test]
fn sell_beyond_the_funds_is_an_underflow() {
    let mut market = yes_no_market(0);
    buy_shares(&mut market, &buy_ctx(YES), 0, 10).unwrap();
    market.market_maker_funds = DELTA - 1;
    assert_eq!(
        sell_shares(&mut market, &sell_ctx(YES, 10), 0, 10),
        Err(CustomError::Underflow)
    );
    assert_eq!(shares(&market), vec![10, 0]);
    assert_eq!(market.market_maker_funds, DELTA - 1);
}

#[test]
fn sell_checks_state_outcome_and_count() {
    let mut market = yes_no_market(0);
    buy_shares(&mut market, &buy_ctx(YES), 0, 10).unwrap();
    assert_eq!(
        sell_shares(&mut market, &sell_ctx(YES, 10), 5, 10),
        Err(CustomError::InvalidOutcome)
    );
    assert_eq!(
        sell_shares(&mut market, &sell_ctx(YES, 10), 0, 0),
        Err(CustomError::InvalidShareCount)
    );
    assert_eq!(
        sell_shares(&mut market, &sell_ctx(NO, 10), 0, 10),
        Err(CustomError::InvalidMint)
    );
    let mut ctx = sell_ctx(YES, 10);
    ctx.seller_share_account.owner = id(ORACLE);
    assert_eq!(sell_shares(&mut market, &ctx, 0, 10), Err(CustomError::InvalidOwner));
    market.state = MarketState::Closed;
    assert_eq!(
        sell_shares(&mut market, &sell_ctx(YES, 10), 0, 10),
        Err(CustomError::MarketClosed)
    );
}

#[test]
fn sell_that_overflows_the_fees_fails() {
    let mut market = yes_no_market(0);
    buy_shares(&mut market, &buy_ctx(YES), 0, 10).unwrap();
    market.collected_fees = u64::MAX;
    assert_eq!(
        sell_shares(&mut market, &sell_ctx(YES, 10), 0, 10),
        Err(CustomError::ArithmeticOverflow)
    );
}

#[test]
fn add_outcome_before_any_trade() {
    let mut market = yes_no_market(0);
    add_outcome(&mut market, &AddOutcome { outcome_mint: id(102) }, String::from("Maybe"))
        .unwrap();
    assert_eq!(market.outcomes.len(), 3);
    assert_eq!(market.outcomes[2].name, "Maybe");
    assert_eq!(market.outcomes[2].total_shares, 0);
    assert_eq!(market.outcomes[2].mint, id(102));
    assert_eq!(market.outcomes[0].name, "Yes");
}

#[test]
fn add_outcome_after_a_trade_fails() {
    let mut market = yes_no_market(0);
    buy_shares(&mut market, &buy_ctx(YES), 0, 1).unwrap();
    assert_eq!(
        add_outcome(&mut market, &AddOutcome { outcome_mint: id(102) }, String::from("Maybe")),
        Err(CustomError::MarketClosed)
    );
    assert_eq!(market.outcomes.len(), 2);
}

#[test]
fn add_outcome_checks_name_count_and_state() {
    let mut market = yes_no_market(0);
    assert_eq!(
        add_outcome(&mut market, &AddOutcome { outcome_mint: id(102) }, "x".repeat(51)),
        Err(CustomError::InvalidParameter)
    );
    for k in 0..8 {
        add_outcome(&mut market, &AddOutcome { outcome_mint: id(200 + k) }, "x".repeat(50))
            .unwrap();
    }
    assert_eq!(market.outcomes.len(), 10);
    assert_eq!(
        add_outcome(&mut market, &AddOutcome { outcome_mint: id(300) }, String::from("One more")),
        Err(CustomError::InvalidParameter)
    );
    let mut closed = yes_no_market(0);
    closed.state = MarketState::Closed;
    assert_eq!(
        add_outcome(&mut closed, &AddOutcome { outcome_mint: id(102) }, String::from("Maybe")),
        Err(CustomError::MarketClosed)
    );
}

#[test]
fn custody_keeps_covering_the_counters_through_trades() {
    let mut market = yes_no_market(0);
    let mut custody: u64 = 0;
    let trades: Vec<(bool, u128, u64, u64)> = vec![
        (true, YES, 0, 10),
        (true, NO, 1, 25),
        (false, YES, 0, 4),
        (true, YES, 0, 300),
        (false, NO, 1, 25),
        (false, YES, 0, 306),
    ];
    let mut held = [0u64; 2];
    for (buy, mint, index, count) in trades {
        let instructions = if buy {
            held[index as usize] += count;
            buy_shares(&mut market, &buy_ctx(mint), index, count).unwrap()
        } else {
            let ctx = sell_ctx(mint, held[index as usize]);
            held[index as usize] -= count;
            sell_shares(&mut market, &ctx, index, count).unwrap()
        };
        for instruction in instructions {
            if let LedgerInstruction::Transfer { from, to, amount, .. } = instruction {
                if to == id(CUSTODY) {
                    custody += amount;
                }
                if from == id(CUSTODY) {
                    custody -= amount;
                }
            }
        }
        assert!(market.covered_by(custody));
    }
    assert_eq!(shares(&market), vec![0, 0]);
    assert_eq!(market.market_maker_funds, 0);
}
