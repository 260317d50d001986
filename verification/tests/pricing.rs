use liquidity_pool::engine::{
    quote_add_liquidity, quote_remove_liquidity, quote_swap, trading_fee, ACCURACY,
    NOURISH_CHAIN_FEE,
};
use liquidity_pool::types::Error;

#[test]
fn fee_rate_is_exact() {
    assert_eq!(NOURISH_CHAIN_FEE, 3_690_000_000_000_000);
    assert_eq!(ACCURACY, 1_000_000_000_000_000_000);
    assert_eq!(trading_fee(NOURISH_CHAIN_FEE, 100_000), 369);
    assert_eq!(trading_fee(NOURISH_CHAIN_FEE, 1_000_000_000_000_000_000_000), 3_690_000_000_000_000_000);
}

#[test]
fn fee_rounds_down() {
    assert_eq!(trading_fee(NOURISH_CHAIN_FEE, 0), 0);
    assert_eq!(trading_fee(NOURISH_CHAIN_FEE, 100), 0);
    assert_eq!(trading_fee(NOURISH_CHAIN_FEE, 271), 0);
    assert_eq!(trading_fee(NOURISH_CHAIN_FEE, 272), 1);
    assert_eq!(trading_fee(NOURISH_CHAIN_FEE, 199_999), 737);
}

#[test]
fn fee_of_the_largest_amount() {
    assert_eq!(
        trading_fee(NOURISH_CHAIN_FEE, u128::MAX),
        1_255_641_933_938_262_930_179_852_301_423_224_700
    );
    assert_eq!(trading_fee(ACCURACY, u128::MAX), u128::MAX);
}

#[test]
fn fee_rate_above_one_counts_as_one() {
    assert_eq!(trading_fee(ACCURACY, 1234), 1234);
    assert_eq!(trading_fee(ACCURACY + 1, 1234), 1234);
    assert_eq!(trading_fee(u64::MAX, 1234), 1234);
    assert_eq!(trading_fee(0, 1234), 0);
    assert_eq!(trading_fee(ACCURACY / 2, 1235), 617);
}

#[test]
fn quote_of_a_first_deposit() {
    assert_eq!(quote_add_liquidity(0, 0, 500, 500), Ok(500));
    assert_eq!(quote_add_liquidity(0, 0, 500, 20), Ok(20));
    assert_eq!(quote_add_liquidity(0, 0, 20, 500), Ok(20));
    assert_eq!(quote_add_liquidity(0, 0, u128::MAX, u128::MAX), Ok(u128::MAX));
}

#[test]
fn quote_of_a_later_deposit() {
    assert_eq!(quote_add_liquidity(1000, 2000, 100, 300), Ok(150));
    assert_eq!(quote_add_liquidity(1000, 2000, 100, 200), Ok(100));
    assert_eq!(quote_add_liquidity(2000, 1000, 300, 100), Ok(150));
    assert_eq!(quote_add_liquidity(3, 7, 1, 1), Ok(0));
    assert_eq!(quote_add_liquidity(3, 7, 10, 10), Ok(4));
}

#[test]
fn quote_of_a_deposit_fails_on_overflow_and_on_a_missing_reserve() {
    assert_eq!(quote_add_liquidity(0, 5, 1, 1), Err(Error::CalculationError));
    assert_eq!(quote_add_liquidity(5, 0, 1, 1), Err(Error::CalculationError));
    assert_eq!(quote_add_liquidity(1000, 2, u128::MAX, 1), Err(Error::CalculationError));
    assert_eq!(quote_add_liquidity(2, 1000, 1, u128::MAX), Err(Error::CalculationError));
    assert_eq!(quote_add_liquidity(1, 1, u128::MAX, u128::MAX), Ok(u128::MAX));
}

#[test]
fn quote_of_a_withdrawal() {
    assert_eq!(quote_remove_liquidity(1000, 2000, 1000, 250), Ok((250, 500)));
    assert_eq!(quote_remove_liquidity(1000, 2000, 1000, 1000), Ok((1000, 2000)));
    assert_eq!(quote_remove_liquidity(10, 10, 3, 1), Ok((3, 3)));
    assert_eq!(quote_remove_liquidity(1100, 2300, 1150, 150), Ok((143, 300)));
    assert_eq!(quote_remove_liquidity(1000, 2000, 1000, 0), Ok((0, 0)));
}

#[test]
fn quote_of_a_withdrawal_fails_without_units_and_on_overflow() {
    assert_eq!(quote_remove_liquidity(1000, 2000, 0, 250), Err(Error::PoolDoesNotExist));
    assert_eq!(quote_remove_liquidity(0, 0, 0, 0), Err(Error::PoolDoesNotExist));
    assert_eq!(quote_remove_liquidity(u128::MAX, 1, 10, 2), Err(Error::CalculationError));
    assert_eq!(quote_remove_liquidity(1, u128::MAX, 10, 2), Err(Error::CalculationError));
}

#[test]
fn quote_of_a_swap() {
    assert_eq!(quote_swap(10000, 12800, 100, NOURISH_CHAIN_FEE), Ok((127, 0)));
    assert_eq!(quote_swap(10000, 12800, 100_000, NOURISH_CHAIN_FEE), Ok((11633, 369)));
    assert_eq!(quote_swap(12800, 10000, 100, NOURISH_CHAIN_FEE), Ok((78, 0)));
    assert_eq!(quote_swap(1, 1, 1, NOURISH_CHAIN_FEE), Ok((1, 0)));
    assert_eq!(quote_swap(1000, 1000, 0, NOURISH_CHAIN_FEE), Ok((0, 0)));
}

#[test]
fn quote_of_a_swap_without_a_fee_and_with_nothing_but_fee() {
    assert_eq!(quote_swap(10000, 12800, 100_000, 0), Ok((11637, 0)));
    assert_eq!(quote_swap(10000, 12800, 100_000, ACCURACY), Ok((0, 100_000)));
}

#[test]
fn quote_of_a_swap_fails_on_overflow_and_on_a_zero_divisor() {
    assert_eq!(quote_swap(u128::MAX, 2, 10, NOURISH_CHAIN_FEE), Err(Error::CalculationError));
    assert_eq!(quote_swap(u128::MAX, 1, 10, NOURISH_CHAIN_FEE), Err(Error::CalculationError));
    assert_eq!(quote_swap(u128::MAX - 10, 1, 10, NOURISH_CHAIN_FEE), Ok((1, 0)));
    assert_eq!(quote_swap(0, 5, 0, NOURISH_CHAIN_FEE), Err(Error::CalculationError));
    assert_eq!(quote_swap(0, 5, 10, ACCURACY), Err(Error::CalculationError));
    assert_eq!(quote_swap(0, 5, 10, NOURISH_CHAIN_FEE), Ok((5, 0)));
}
