//! The plain values that the engine's operations take and give.

use vstd::prelude::*;

verus! {

/// Names a fungible asset. The order of the identifiers decides which asset of
/// a pair comes first in the pool's key, and nothing else.
pub type AssetId = u32;

/// Names an account of the asset ledger.
pub type AccountId = u64;

/// An amount of an asset, or a number of liquidity units.
pub type Balance = u128;

/// Why an operation was refused.
#[derive(Clone, Copy, Debug, PartialEq, Eq, Structural)]
pub enum Error {
    /// The two assets of the pair are the same.
    InvalidAssetPair,
    /// An amount is zero.
    InvalidAmount,
    /// The deposit would mint fewer liquidity units than the caller asked for.
    InsufficientLiquidity,
    /// The account holds fewer liquidity units than it wants to burn, or the
    /// asset ledger refused a transfer.
    InsufficientBalance,
    /// The pool holds nothing of one of its assets, or no liquidity unit exists.
    PoolDoesNotExist,
    /// A product or a sum left the range of `Balance`, or a divisor was zero.
    CalculationError,
    /// The operation would pay out less than the caller asked for.
    SlippageExceeded,
    /// The caller's deadline has passed.
    DeadlineExceeded,
}

/// The asset ledger's refusal of a transfer.
#[derive(Clone, Copy, Debug, PartialEq, Eq, Structural)]
pub enum TransferError {
    /// The paying account does not hold the amount.
    InsufficientFunds,
}

/// One movement of an asset between two accounts, for the asset ledger to make.
#[derive(Clone, Copy, Debug, PartialEq, Eq, Structural)]
pub struct Transfer {
    pub from: AccountId,
    pub to: AccountId,
    pub asset: AssetId,
    pub amount: Balance,
}

/// What an operation reports once it is committed.
#[derive(Clone, Copy, Debug, PartialEq, Eq, Structural)]
pub enum Event {
    /// Account, first asset, second asset, amount of each, units minted.
    LiquidityAdded(AccountId, AssetId, AssetId, Balance, Balance, Balance),
    /// Account, first asset, second asset, amount of each, units burned.
    LiquidityRemoved(AccountId, AssetId, AssetId, Balance, Balance, Balance),
    /// Account, asset paid, asset received, amount paid, amount received, fee.
    Swap(AccountId, AssetId, AssetId, Balance, Balance, Balance),
    /// Asset in which the fee was taken, and the fee.
    FeeCollected(AssetId, Balance),
}

} // verus!
