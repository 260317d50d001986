use liquidity_pool::engine::NOURISH_CHAIN_FEE;
use liquidity_pool::operations::{Config, Pallet};
use liquidity_pool::types::{Error, Event, Transfer, TransferError};

const ALICE: u64 = 1;
const BOB: u64 = 2;
const CUSTODY: u64 = 99;
const ASSET_A: u32 = 10;
const ASSET_B: u32 = 20;

fn engine() -> Pallet {
    Pallet::new(Config { trading_fee: NOURISH_CHAIN_FEE, minimum_liquidity: 0, custody: CUSTODY })
}

fn funded(reserve_a: u128, reserve_b: u128) -> Pallet {
    let mut pallet = engine();
    let events = pallet.add_liquidity(ALICE, ASSET_A, ASSET_B, reserve_a, reserve_b, 0, Ok(()));
    assert!(events.is_ok());
    pallet
}

#[test]
fn first_deposit_mints_the_smaller_amount() {
    let mut pallet = engine();
    let events = pallet.add_liquidity(ALICE, ASSET_A, ASSET_B, 500, 500, 0, Ok(()));
    assert_eq!(events, Ok(vec![Event::LiquidityAdded(ALICE, ASSET_A, ASSET_B, 500, 500, 500)]));
    assert_eq!(pallet.liquidity_pools(ASSET_A, ASSET_B), (500, 500));
    assert_eq!(pallet.total_liquidity(ASSET_A, ASSET_B), 500);
    assert_eq!(pallet.liquidity_tokens(ASSET_A, ASSET_B, ALICE), 500);
}

#[test]
fn first_deposit_of_unequal_amounts() {
    let mut pallet = engine();
    let events = pallet.add_liquidity(ALICE, ASSET_A, ASSET_B, 700, 300, 300, Ok(()));
    assert_eq!(events, Ok(vec![Event::LiquidityAdded(ALICE, ASSET_A, ASSET_B, 700, 300, 300)]));
    assert_eq!(pallet.liquidity_pools(ASSET_A, ASSET_B), (700, 300));
    assert_eq!(pallet.total_liquidity(ASSET_A, ASSET_B), 300);
}

#[test]
fn later_deposit_mints_in_proportion() {
    let mut pallet = funded(1000, 2000);
    assert_eq!(pallet.total_liquidity(ASSET_A, ASSET_B), 1000);
    let events = pallet.add_liquidity(BOB, ASSET_A, ASSET_B, 100, 300, 150, Ok(()));
    assert_eq!(events, Ok(vec![Event::LiquidityAdded(BOB, ASSET_A, ASSET_B, 100, 300, 150)]));
    assert_eq!(pallet.liquidity_pools(ASSET_A, ASSET_B), (1100, 2300));
    assert_eq!(pallet.total_liquidity(ASSET_A, ASSET_B), 1150);
    assert_eq!(pallet.liquidity_tokens(ASSET_A, ASSET_B, BOB), 150);
    assert_eq!(pallet.liquidity_tokens(ASSET_A, ASSET_B, ALICE), 1000);
}

#[test]
fn deposit_below_the_callers_floor_is_refused() {
    let mut pallet = funded(1000, 2000);
    let events = pallet.add_liquidity(BOB, ASSET_A, ASSET_B, 100, 300, 151, Ok(()));
    assert_eq!(events, Err(Error::InsufficientLiquidity));
    assert_eq!(pallet.liquidity_pools(ASSET_A, ASSET_B), (1000, 2000));
    assert_eq!(pallet.total_liquidity(ASSET_A, ASSET_B), 1000);
    assert_eq!(pallet.liquidity_tokens(ASSET_A, ASSET_B, BOB), 0);
}

#[test]
fn swap_of_a_small_amount_pays_no_fee() {
    let mut pallet = funded(10000, 12800);
    let events = pallet.swap(BOB, ASSET_A, ASSET_B, 100, 0, Ok(()));
    assert_eq!(
        events,
        Ok(vec![
            Event::Swap(BOB, ASSET_A, ASSET_B, 100, 127, 0),
            Event::FeeCollected(ASSET_A, 0),
        ])
    );
    assert_eq!(pallet.liquidity_pools(ASSET_A, ASSET_B), (10100, 12673));
    assert_eq!(pallet.total_liquidity(ASSET_A, ASSET_B), 10000);
}

#[test]
fn swap_of_a_large_amount_pays_a_fee() {
    let mut pallet = funded(10000, 12800);
    let events = pallet.swap(BOB, ASSET_A, ASSET_B, 100000, 0, Ok(()));
    // fee 369, net 99631, 128000000 / 109631 = 1167
    assert_eq!(
        events,
        Ok(vec![
            Event::Swap(BOB, ASSET_A, ASSET_B, 100000, 11633, 369),
            Event::FeeCollected(ASSET_A, 369),
        ])
    );
    assert_eq!(pallet.liquidity_pools(ASSET_A, ASSET_B), (110000, 1167));
}

#[test]
fn swap_below_the_callers_floor_is_refused() {
    let mut pallet = funded(10000, 12800);
    let events = pallet.swap(BOB, ASSET_A, ASSET_B, 100, 200, Ok(()));
    assert_eq!(events, Err(Error::SlippageExceeded));
    assert_eq!(pallet.liquidity_pools(ASSET_A, ASSET_B), (10000, 12800));
}

#[test]
fn swap_at_the_callers_floor_passes() {
    let mut pallet = funded(10000, 12800);
    assert!(pallet.swap(BOB, ASSET_A, ASSET_B, 100, 127, Ok(())).is_ok());
    let mut other = funded(10000, 12800);
    assert_eq!(other.swap(BOB, ASSET_A, ASSET_B, 100, 128, Ok(())), Err(Error::SlippageExceeded));
}

#[test]
fn swap_against_the_pools_order_credits_the_asset_paid() {
    let mut pallet = funded(10000, 12800);
    let events = pallet.swap(BOB, ASSET_B, ASSET_A, 100, 0, Ok(()));
    // 128000000 / 12900 = 9922
    assert_eq!(
        events,
        Ok(vec![
            Event::Swap(BOB, ASSET_B, ASSET_A, 100, 78, 0),
            Event::FeeCollected(ASSET_B, 0),
        ])
    );
    assert_eq!(pallet.liquidity_pools(ASSET_A, ASSET_B), (9922, 12900));
    assert_eq!(pallet.liquidity_pools(ASSET_B, ASSET_A), (12900, 9922));
}

#[test]
fn zero_amounts_are_refused() {
    let mut pallet = funded(10000, 12800);
    assert_eq!(pallet.swap(BOB, ASSET_A, ASSET_B, 0, 0, Ok(())), Err(Error::InvalidAmount));
    assert_eq!(
        pallet.add_liquidity(BOB, ASSET_A, ASSET_B, 0, 5, 0, Ok(())),
        Err(Error::InvalidAmount)
    );
    assert_eq!(
        pallet.add_liquidity(BOB, ASSET_A, ASSET_B, 5, 0, 0, Ok(())),
        Err(Error::InvalidAmount)
    );
    assert_eq!(
        pallet.remove_liquidity(ALICE, ASSET_A, ASSET_B, 0, 0, 0, Ok(())),
        Err(Error::InvalidAmount)
    );
    assert_eq!(pallet.liquidity_pools(ASSET_A, ASSET_B), (10000, 12800));
}

#[test]
fn identical_assets_are_refused() {
    let mut pallet = funded(10000, 12800);
    assert_eq!(pallet.swap(BOB, ASSET_A, ASSET_A, 100, 0, Ok(())), Err(Error::InvalidAssetPair));
    assert_eq!(
        pallet.add_liquidity(BOB, ASSET_A, ASSET_A, 5, 5, 0, Ok(())),
        Err(Error::InvalidAssetPair)
    );
    assert_eq!(
        pallet.remove_liquidity(ALICE, ASSET_B, ASSET_B, 5, 0, 0, Ok(())),
        Err(Error::InvalidAssetPair)
    );
    // the pair is checked before the amount
    assert_eq!(pallet.swap(BOB, ASSET_A, ASSET_A, 0, 0, Ok(())), Err(Error::InvalidAssetPair));
    assert_eq!(pallet.liquidity_pools(ASSET_A, ASSET_A), (0, 0));
}

#[test]
fn both_orders_of_a_pair_reach_one_pool() {
    let mut one = engine();
    let mut other = engine();
    assert!(one.add_liquidity(ALICE, ASSET_A, ASSET_B, 1000, 2000, 0, Ok(())).is_ok());
    assert!(other.add_liquidity(ALICE, ASSET_B, ASSET_A, 2000, 1000, 0, Ok(())).is_ok());
    assert_eq!(one.liquidity_pools(ASSET_A, ASSET_B), (1000, 2000));
    assert_eq!(other.liquidity_pools(ASSET_A, ASSET_B), (1000, 2000));
    assert_eq!(other.liquidity_pools(ASSET_B, ASSET_A), (2000, 1000));
    assert_eq!(one.total_liquidity(ASSET_B, ASSET_A), other.total_liquidity(ASSET_A, ASSET_B));

    assert!(one.add_liquidity(BOB, ASSET_A, ASSET_B, 100, 300, 0, Ok(())).is_ok());
    assert!(other.add_liquidity(BOB, ASSET_B, ASSET_A, 300, 100, 0, Ok(())).is_ok());
    assert_eq!(one.liquidity_pools(ASSET_A, ASSET_B), other.liquidity_pools(ASSET_A, ASSET_B));
    assert_eq!(one.liquidity_tokens(ASSET_A, ASSET_B, BOB), 150);
    assert_eq!(other.liquidity_tokens(ASSET_A, ASSET_B, BOB), 150);

    let out_one = one.remove_liquidity(BOB, ASSET_A, ASSET_B, 150, 0, 0, Ok(()));
    let out_other = other.remove_liquidity(BOB, ASSET_B, ASSET_A, 150, 0, 0, Ok(()));
    assert_eq!(out_one, Ok(vec![Event::LiquidityRemoved(BOB, ASSET_A, ASSET_B, 143, 300, 150)]));
    assert_eq!(out_other, Ok(vec![Event::LiquidityRemoved(BOB, ASSET_B, ASSET_A, 300, 143, 150)]));
    assert_eq!(one.liquidity_pools(ASSET_A, ASSET_B), other.liquidity_pools(ASSET_A, ASSET_B));
    assert_eq!(one.liquidity_pools(ASSET_A, ASSET_B), (957, 2000));
}

#[test]
fn withdrawal_pays_the_share_of_each_reserve() {
    let mut pallet = funded(1000, 2000);
    let events = pallet.remove_liquidity(ALICE, ASSET_A, ASSET_B, 250, 250, 500, Ok(()));
    assert_eq!(events, Ok(vec![Event::LiquidityRemoved(ALICE, ASSET_A, ASSET_B, 250, 500, 250)]));
    assert_eq!(pallet.liquidity_pools(ASSET_A, ASSET_B), (750, 1500));
    assert_eq!(pallet.total_liquidity(ASSET_A, ASSET_B), 750);
    assert_eq!(pallet.liquidity_tokens(ASSET_A, ASSET_B, ALICE), 750);
}

#[test]
fn withdrawal_below_a_floor_is_refused() {
    let mut pallet = funded(1000, 2000);
    assert_eq!(
        pallet.remove_liquidity(ALICE, ASSET_A, ASSET_B, 250, 251, 0, Ok(())),
        Err(Error::SlippageExceeded)
    );
    assert_eq!(
        pallet.remove_liquidity(ALICE, ASSET_A, ASSET_B, 250, 0, 501, Ok(())),
        Err(Error::SlippageExceeded)
    );
    assert_eq!(pallet.liquidity_pools(ASSET_A, ASSET_B), (1000, 2000));
    assert_eq!(pallet.liquidity_tokens(ASSET_A, ASSET_B, ALICE), 1000);
}

#[test]
fn withdrawal_of_more_units_than_held_is_refused() {
    let mut pallet = funded(1000, 2000);
    assert_eq!(
        pallet.remove_liquidity(BOB, ASSET_A, ASSET_B, 1, 0, 0, Ok(())),
        Err(Error::InsufficientBalance)
    );
    assert!(pallet.add_liquidity(BOB, ASSET_A, ASSET_B, 100, 200, 0, Ok(())).is_ok());
    assert_eq!(pallet.liquidity_tokens(ASSET_A, ASSET_B, BOB), 100);
    assert_eq!(
        pallet.remove_liquidity(BOB, ASSET_A, ASSET_B, 101, 0, 0, Ok(())),
        Err(Error::InsufficientBalance)
    );
    assert_eq!(pallet.liquidity_tokens(ASSET_A, ASSET_B, BOB), 100);
    assert_eq!(pallet.total_liquidity(ASSET_A, ASSET_B), 1100);
}

#[test]
fn operations_on_a_pool_without_reserves_are_refused() {
    let mut pallet = engine();
    assert_eq!(pallet.swap(BOB, ASSET_A, ASSET_B, 100, 0, Ok(())), Err(Error::PoolDoesNotExist));
    assert_eq!(
        pallet.remove_liquidity(BOB, ASSET_A, ASSET_B, 5, 0, 0, Ok(())),
        Err(Error::PoolDoesNotExist)
    );
}

#[test]
fn drained_pool_starts_afresh() {
    let mut pallet = funded(1000, 2000);
    let events = pallet.remove_liquidity(ALICE, ASSET_A, ASSET_B, 1000, 0, 0, Ok(()));
    assert_eq!(events, Ok(vec![Event::LiquidityRemoved(ALICE, ASSET_A, ASSET_B, 1000, 2000, 1000)]));
    assert_eq!(pallet.liquidity_pools(ASSET_A, ASSET_B), (0, 0));
    assert_eq!(pallet.total_liquidity(ASSET_A, ASSET_B), 0);
    assert_eq!(pallet.swap(BOB, ASSET_A, ASSET_B, 100, 0, Ok(())), Err(Error::PoolDoesNotExist));
    let again = pallet.add_liquidity(BOB, ASSET_A, ASSET_B, 40, 70, 0, Ok(()));
    assert_eq!(again, Ok(vec![Event::LiquidityAdded(BOB, ASSET_A, ASSET_B, 40, 70, 40)]));
}

#[test]
fn overflow_is_a_calculation_error() {
    let mut pallet = funded(1000, 2000);
    assert_eq!(
        pallet.add_liquidity(BOB, ASSET_A, ASSET_B, u128::MAX, 1, 0, Ok(())),
        Err(Error::CalculationError)
    );
    assert_eq!(
        pallet.remove_liquidity(ALICE, ASSET_A, ASSET_B, 1000, 0, 0, Ok(())).is_ok(),
        true
    );
    let mut big = funded(u128::MAX, 2);
    assert_eq!(big.swap(BOB, ASSET_A, ASSET_B, 10, 0, Ok(())), Err(Error::CalculationError));
    let mut edge = funded(u128::MAX - 5, 1);
    assert_eq!(edge.swap(BOB, ASSET_A, ASSET_B, 10, 0, Ok(())), Err(Error::CalculationError));
    assert_eq!(edge.liquidity_pools(ASSET_A, ASSET_B), (u128::MAX - 5, 1));
    let mut full = funded(u128::MAX, 1);
    assert_eq!(
        full.add_liquidity(BOB, ASSET_A, ASSET_B, 1, 1, 0, Ok(())),
        Err(Error::CalculationError)
    );
}

#[test]
fn a_pool_that_lost_one_reserve_refuses_deposits() {
    let mut pallet = funded(1, 1);
    let events = pallet.swap(BOB, ASSET_A, ASSET_B, 1, 0, Ok(()));
    assert_eq!(
        events,
        Ok(vec![Event::Swap(BOB, ASSET_A, ASSET_B, 1, 1, 0), Event::FeeCollected(ASSET_A, 0)])
    );
    assert_eq!(pallet.liquidity_pools(ASSET_A, ASSET_B), (2, 0));
    assert_eq!(
        pallet.add_liquidity(BOB, ASSET_A, ASSET_B, 5, 5, 0, Ok(())),
        Err(Error::CalculationError)
    );
    assert_eq!(pallet.swap(BOB, ASSET_A, ASSET_B, 1, 0, Ok(())), Err(Error::PoolDoesNotExist));
}

#[test]
fn refused_transfers_leave_everything_as_it_was() {
    let mut pallet = funded(10000, 12800);
    let refused = Err(TransferError::InsufficientFunds);
    assert_eq!(
        pallet.add_liquidity(BOB, ASSET_A, ASSET_B, 100, 128, 0, refused),
        Err(Error::InsufficientBalance)
    );
    assert_eq!(pallet.swap(BOB, ASSET_A, ASSET_B, 100, 0, refused), Err(Error::InsufficientBalance));
    assert_eq!(
        pallet.remove_liquidity(ALICE, ASSET_A, ASSET_B, 10, 0, 0, refused),
        Err(Error::InsufficientBalance)
    );
    // a failed check is reported before the ledger's refusal
    assert_eq!(pallet.swap(BOB, ASSET_A, ASSET_B, 100, 200, refused), Err(Error::SlippageExceeded));
    assert_eq!(pallet.liquidity_pools(ASSET_A, ASSET_B), (10000, 12800));
    assert_eq!(pallet.total_liquidity(ASSET_A, ASSET_B), 10000);
    assert_eq!(pallet.liquidity_tokens(ASSET_A, ASSET_B, ALICE), 10000);
    assert_eq!(pallet.liquidity_tokens(ASSET_A, ASSET_B, BOB), 0);
}

#[test]
fn prepare_names_the_transfers() {
    let pallet = funded(10000, 12800);
    assert_eq!(pallet.account_id(), CUSTODY);
    assert_eq!(
        pallet.prepare_add_liquidity(BOB, ASSET_B, ASSET_A, 128, 100, 0),
        Ok(vec![
            Transfer { from: BOB, to: CUSTODY, asset: ASSET_B, amount: 128 },
            Transfer { from: BOB, to: CUSTODY, asset: ASSET_A, amount: 100 },
        ])
    );
    assert_eq!(
        pallet.prepare_remove_liquidity(ALICE, ASSET_A, ASSET_B, 5000, 0, 0),
        Ok(vec![
            Transfer { from: CUSTODY, to: ALICE, asset: ASSET_A, amount: 5000 },
            Transfer { from: CUSTODY, to: ALICE, asset: ASSET_B, amount: 6400 },
        ])
    );
    assert_eq!(
        pallet.prepare_swap(BOB, ASSET_A, ASSET_B, 100, 0),
        Ok(vec![
            Transfer { from: BOB, to: CUSTODY, asset: ASSET_A, amount: 100 },
            Transfer { from: CUSTODY, to: BOB, asset: ASSET_B, amount: 127 },
        ])
    );
    assert_eq!(pallet.prepare_swap(BOB, ASSET_A, ASSET_B, 100, 200), Err(Error::SlippageExceeded));
    assert_eq!(
        pallet.prepare_remove_liquidity(BOB, ASSET_A, ASSET_B, 1, 0, 0),
        Err(Error::InsufficientBalance)
    );
    assert_eq!(
        pallet.prepare_add_liquidity(BOB, ASSET_A, ASSET_A, 1, 1, 0),
        Err(Error::InvalidAssetPair)
    );
    assert_eq!(pallet.liquidity_pools(ASSET_A, ASSET_B), (10000, 12800));
}

#[test]
fn units_issued_equal_units_held() {
    let mut pallet = funded(1000, 2000);
    assert!(pallet.add_liquidity(BOB, ASSET_A, ASSET_B, 100, 300, 0, Ok(())).is_ok());
    assert!(pallet.add_liquidity(3, ASSET_B, ASSET_A, 50, 50, 0, Ok(())).is_ok());
    assert!(pallet.add_liquidity(BOB, 7, 8, 10, 10, 0, Ok(())).is_ok());
    assert!(pallet.remove_liquidity(ALICE, ASSET_A, ASSET_B, 400, 0, 0, Ok(())).is_ok());
    assert!(pallet.swap(3, ASSET_A, ASSET_B, 500, 0, Ok(())).is_ok());
    let held: u128 = [ALICE, BOB, 3]
        .iter()
        .map(|account| pallet.liquidity_tokens(ASSET_A, ASSET_B, *account))
        .sum();
    assert_eq!(held, pallet.total_liquidity(ASSET_A, ASSET_B));
    assert_eq!(pallet.liquidity_tokens(7, 8, BOB), 10);
    assert_eq!(pallet.total_liquidity(7, 8), 10);
    assert_eq!(pallet.total_liquidity(8, 7), 10);
}

#[test]
fn product_of_the_reserves_over_a_run_of_swaps() {
    let mut pallet = funded(1_000_000, 2_000_000);
    let mut product = 1_000_000u128 * 2_000_000u128;
    for round in 0..20u128 {
        let (asset_in, asset_out) = if round % 2 == 0 { (ASSET_A, ASSET_B) } else { (ASSET_B, ASSET_A) };
        let before = pallet.liquidity_pools(asset_in, asset_out);
        let events = pallet.swap(BOB, asset_in, asset_out, 50_000 + round, 0, Ok(())).unwrap();
        let fee = match events[1] {
            Event::FeeCollected(_, fee) => fee,
            _ => panic!("the second event reports the fee"),
        };
        let after = pallet.liquidity_pools(ASSET_A, ASSET_B);
        let next = after.0 * after.1;
        // the fee is larger than what the division dropped
        assert!(next >= product);
        assert!(next + before.0 + 50_000 + round - fee > product);
        product = next;
    }
}

#[test]
fn product_of_the_reserves_may_lose_the_rounding() {
    let mut pallet = funded(10000, 12800);
    assert!(pallet.swap(BOB, ASSET_A, ASSET_B, 100, 0, Ok(())).is_ok());
    let after = pallet.liquidity_pools(ASSET_A, ASSET_B);
    assert_eq!(after.0 * after.1, 127_997_300);
    assert!(after.0 * after.1 + 10100 > 128_000_000);
}

#[test]
fn deposit_and_withdrawal_of_the_units_minted() {
    let mut pallet = engine();
    let added = pallet.add_liquidity(ALICE, ASSET_A, ASSET_B, 500, 800, 0, Ok(()));
    assert_eq!(added, Ok(vec![Event::LiquidityAdded(ALICE, ASSET_A, ASSET_B, 500, 800, 500)]));
    let removed = pallet.remove_liquidity(ALICE, ASSET_A, ASSET_B, 500, 0, 0, Ok(()));
    assert_eq!(removed, Ok(vec![Event::LiquidityRemoved(ALICE, ASSET_A, ASSET_B, 500, 800, 500)]));

    let mut even = funded(1000, 1000);
    assert!(even.add_liquidity(BOB, ASSET_A, ASSET_B, 333, 333, 0, Ok(())).is_ok());
    let back = even.remove_liquidity(BOB, ASSET_A, ASSET_B, 333, 0, 0, Ok(()));
    assert_eq!(back, Ok(vec![Event::LiquidityRemoved(BOB, ASSET_A, ASSET_B, 333, 333, 333)]));

    let mut worn = funded(1000, 1000);
    assert!(worn.swap(3, ASSET_A, ASSET_B, 7, 0, Ok(())).is_ok());
    assert_eq!(worn.liquidity_pools(ASSET_A, ASSET_B), (1007, 993));
    let minted = worn.add_liquidity(BOB, ASSET_A, ASSET_B, 100, 100, 0, Ok(()));
    assert_eq!(minted, Ok(vec![Event::LiquidityAdded(BOB, ASSET_A, ASSET_B, 100, 100, 98)]));
    let back = worn.remove_liquidity(BOB, ASSET_A, ASSET_B, 98, 0, 0, Ok(()));
    // 98 * 1107 / 1098 = 98, 98 * 1093 / 1098 = 97
    assert_eq!(back, Ok(vec![Event::LiquidityRemoved(BOB, ASSET_A, ASSET_B, 98, 97, 98)]));
}

#[test]
fn withdrawal_after_a_lopsided_deposit_may_return_more_of_one_asset() {
    let mut pallet = funded(1000, 2000);
    let minted = pallet.add_liquidity(BOB, ASSET_A, ASSET_B, 100, 300, 0, Ok(()));
    assert_eq!(minted, Ok(vec![Event::LiquidityAdded(BOB, ASSET_A, ASSET_B, 100, 300, 150)]));
    // 150 * 1000 = 150000 is not below (100 + 1) * 1000 + 150 = 101150
    let back = pallet.remove_liquidity(BOB, ASSET_A, ASSET_B, 150, 0, 0, Ok(()));
    assert_eq!(back, Ok(vec![Event::LiquidityRemoved(BOB, ASSET_A, ASSET_B, 143, 300, 150)]));
}

#[test]
fn withdrawal_after_a_deposit_at_the_pools_price_returns_no_more() {
    let mut pallet = funded(1000, 2000);
    assert!(pallet.swap(3, ASSET_A, ASSET_B, 10, 0, Ok(())).is_ok());
    assert_eq!(pallet.liquidity_pools(ASSET_A, ASSET_B), (1010, 1980));
    // 100 * 1980 / 1010 = 196, 50 * 1010 / 1980 = 25
    let minted = pallet.add_liquidity(BOB, ASSET_A, ASSET_B, 100, 50, 0, Ok(()));
    assert_eq!(minted, Ok(vec![Event::LiquidityAdded(BOB, ASSET_A, ASSET_B, 100, 50, 25)]));
    // 25 * 1110 / 1025 = 27, 25 * 2030 / 1025 = 49
    let back = pallet.remove_liquidity(BOB, ASSET_A, ASSET_B, 25, 0, 0, Ok(()));
    assert_eq!(back, Ok(vec![Event::LiquidityRemoved(BOB, ASSET_A, ASSET_B, 27, 49, 25)]));
}
