//! The three operations on a pool: deposit, withdrawal and swap.
//!
//! The asset ledger is outside the engine, so each operation runs in two
//! steps. `prepare_*` checks the request against the pool as it stands and
//! names the transfers that the ledger has to make. The host makes them, all
//! or none, and hands their outcome to the operation itself, which checks the
//! request again and then either writes the pool and the liquidity units and
//! reports its events, or leaves everything as it was.

use vstd::prelude::*;
use crate::engine::{
    lemma_share_bounded,
    lemma_swap_product,
    quote_add_liquidity,
    quote_remove_liquidity,
    quote_swap,
    spec_product,
    spec_quote_add_liquidity,
    spec_quote_remove_liquidity,
    spec_quote_swap,
};
use crate::ledger::LiquidityLedger;
use crate::registry::{canonicalize, spec_canonicalize, PoolRegistry};
use crate::types::{AccountId, AssetId, Balance, Error, Event, Transfer, TransferError};

verus! {

/// What the engine is set up with.
#[derive(Clone, Copy, Debug, PartialEq, Eq, Structural)]
pub struct Config {
    /// The fee on the amount paid into a swap, in parts per quintillion.
    pub trading_fee: u64,
    /// The least liquidity that the host asks of a new pool.
    pub minimum_liquidity: Balance,
    /// The account that holds the pooled assets.
    pub custody: AccountId,
}

/// A deposit that passed every check: the pool, its reserves once the
/// deposit is in, and the units to mint.
#[derive(Clone, Copy, Debug, PartialEq, Eq, Structural)]
pub struct Deposit {
    pub low: AssetId,
    pub high: AssetId,
    pub reserve_low: Balance,
    pub reserve_high: Balance,
    pub minted: Balance,
}

/// A withdrawal that passed every check: the pool, its reserves once the
/// amounts are out, and the amounts, in the order of the request.
#[derive(Clone, Copy, Debug, PartialEq, Eq, Structural)]
pub struct Withdrawal {
    pub low: AssetId,
    pub high: AssetId,
    pub reserve_low: Balance,
    pub reserve_high: Balance,
    pub amount_a: Balance,
    pub amount_b: Balance,
}

/// A swap that passed every check: the pool, its reserves once the swap is
/// done, the amount paid out and the fee.
#[derive(Clone, Copy, Debug, PartialEq, Eq, Structural)]
pub struct Trade {
    pub low: AssetId,
    pub high: AssetId,
    pub reserve_low: Balance,
    pub reserve_high: Balance,
    pub amount_out: Balance,
    pub fee: Balance,
}

/// A pair of reserves in the order of a request: exchanged where the request
/// names the pool's second asset first.
pub open spec fn spec_directed(reserves: (int, int), swapped: bool) -> (int, int) {
    if swapped {
        (reserves.1, reserves.0)
    } else {
        reserves
    }
}

/// A transfer.
pub open spec fn spec_transfer(
    from: AccountId,
    to: AccountId,
    asset: AssetId,
    amount: Balance,
) -> Transfer {
    Transfer { from, to, asset, amount }
}

/// Two transfers from `from` to `to`, one of each asset.
pub open spec fn spec_transfers(
    from: AccountId,
    to: AccountId,
    asset_a: AssetId,
    asset_b: AssetId,
    amount_a: Balance,
    amount_b: Balance,
) -> Seq<Transfer> {
    seq![spec_transfer(from, to, asset_a, amount_a), spec_transfer(from, to, asset_b, amount_b)]
}

/// The transfers of a swap: the amount paid into custody, then the amount
/// received out of it.
pub open spec fn spec_swap_transfers(
    who: AccountId,
    custody: AccountId,
    asset_in: AssetId,
    asset_out: AssetId,
    amount_in: Balance,
    amount_out: Balance,
) -> Seq<Transfer> {
    seq![
        spec_transfer(who, custody, asset_in, amount_in),
        spec_transfer(custody, who, asset_out, amount_out),
    ]
}

/// Puts a pair of reserves in the order of a request, or back.
fn directed(reserves: (Balance, Balance), swapped: bool) -> (result: (Balance, Balance))
    ensures
        (result.0 as int, result.1 as int) == spec_directed(
            (reserves.0 as int, reserves.1 as int),
            swapped,
        ),
{
    if swapped {
        (reserves.1, reserves.0)
    } else {
        reserves
    }
}

/// Builds two transfers from `from` to `to`, one of each asset.
fn transfers(
    from: AccountId,
    to: AccountId,
    asset_a: AssetId,
    asset_b: AssetId,
    amount_a: Balance,
    amount_b: Balance,
) -> (result: Vec<Transfer>)
    ensures
        result@ == spec_transfers(from, to, asset_a, asset_b, amount_a, amount_b),
{
    let mut result = Vec::new();
    result.push(Transfer { from, to, asset: asset_a, amount: amount_a });
    result.push(Transfer { from, to, asset: asset_b, amount: amount_b });
    assert(result@ =~= spec_transfers(from, to, asset_a, asset_b, amount_a, amount_b));
    result
}

/// The engine: its configuration, the reserves and the liquidity units.
pub struct Pallet {
    pub config: Config,
    pub registry: PoolRegistry,
    pub ledger: LiquidityLedger,
}

impl Pallet {
    /// The liquidity units issued are the units held, in every pool.
    pub open spec fn wf(&self) -> bool {
        self.ledger.wf()
    }

    /// The reserves of the pool of a pair, in the order of the pair.
    pub open spec fn spec_reserves(&self, asset_a: AssetId, asset_b: AssetId) -> (int, int) {
        let pair = spec_canonicalize(asset_a, asset_b);
        let held = self.registry.spec_reserves(pair.0, pair.1);
        spec_directed((held.0 as int, held.1 as int), pair.2)
    }

    /// The outcome of the checks on a deposit.
    ///
    /// The assets differ and both amounts are positive; the units quoted reach
    /// the caller's floor; and neither a reserve nor the units issued leave
    /// the range of `Balance`.
    pub open spec fn spec_stage_add_liquidity(
        &self,
        asset_a: AssetId,
        asset_b: AssetId,
        amount_a: Balance,
        amount_b: Balance,
        min_liquidity: Balance,
    ) -> Result<Deposit, Error> {
        let pair = spec_canonicalize(asset_a, asset_b);
        let held = self.spec_reserves(asset_a, asset_b);
        if asset_a == asset_b {
            Err(Error::InvalidAssetPair)
        } else if amount_a == 0 || amount_b == 0 {
            Err(Error::InvalidAmount)
        } else {
            match spec_quote_add_liquidity(
                held.0 as Balance,
                held.1 as Balance,
                amount_a,
                amount_b,
            ) {
                Err(e) => Err(e),
                Ok(minted) => {
                    if minted < min_liquidity {
                        Err(Error::InsufficientLiquidity)
                    } else if held.0 + amount_a > Balance::MAX || held.1 + amount_b > Balance::MAX
                        || self.ledger.spec_total((pair.0, pair.1)) + minted > Balance::MAX {
                        Err(Error::CalculationError)
                    } else {
                        let grown = spec_directed((held.0 + amount_a, held.1 + amount_b), pair.2);
                        Ok(
                            Deposit {
                                low: pair.0,
                                high: pair.1,
                                reserve_low: grown.0 as Balance,
                                reserve_high: grown.1 as Balance,
                                minted,
                            },
                        )
                    }
                },
            }
        }
    }

    /// The outcome of the checks on a withdrawal.
    ///
    /// The assets differ and the units are positive; the pool holds both
    /// assets and has issued units; the amounts quoted reach the caller's
    /// floors; and the account holds the units.
    pub open spec fn spec_stage_remove_liquidity(
        &self,
        who: AccountId,
        asset_a: AssetId,
        asset_b: AssetId,
        liquidity: Balance,
        min_amount_a: Balance,
        min_amount_b: Balance,
    ) -> Result<Withdrawal, Error> {
        let pair = spec_canonicalize(asset_a, asset_b);
        let held = self.spec_reserves(asset_a, asset_b);
        if asset_a == asset_b {
            Err(Error::InvalidAssetPair)
        } else if liquidity == 0 {
            Err(Error::InvalidAmount)
        } else if held.0 == 0 || held.1 == 0 {
            Err(Error::PoolDoesNotExist)
        } else {
            match spec_quote_remove_liquidity(
                held.0 as Balance,
                held.1 as Balance,
                self.ledger.spec_total((pair.0, pair.1)),
                liquidity,
            ) {
                Err(e) => Err(e),
                Ok(amounts) => {
                    if amounts.0 < min_amount_a || amounts.1 < min_amount_b {
                        Err(Error::SlippageExceeded)
                    } else if self.ledger.spec_claim((pair.0, pair.1), who) < liquidity {
                        Err(Error::InsufficientBalance)
                    } else {
                        let left = spec_directed(
                            (held.0 - amounts.0, held.1 - amounts.1),
                            pair.2,
                        );
                        Ok(
                            Withdrawal {
                                low: pair.0,
                                high: pair.1,
                                reserve_low: left.0 as Balance,
                                reserve_high: left.1 as Balance,
                                amount_a: amounts.0,
                                amount_b: amounts.1,
                            },
                        )
                    }
                },
            }
        }
    }

    /// The outcome of the checks on a swap.
    ///
    /// The assets differ and the amount is positive; the pool holds both
    /// assets; the amount quoted reaches the caller's floor; and the reserve
    /// paid into stays in the range of `Balance`. The reserve of the asset
    /// paid in grows by the whole amount and the reserve of the asset
    /// received falls by the amount paid out, whichever of the two comes
    /// first in the pool.
    pub open spec fn spec_stage_swap(
        &self,
        asset_in: AssetId,
        asset_out: AssetId,
        amount_in: Balance,
        min_amount_out: Balance,
    ) -> Result<Trade, Error> {
        let pair = spec_canonicalize(asset_in, asset_out);
        let held = self.spec_reserves(asset_in, asset_out);
        if asset_in == asset_out {
            Err(Error::InvalidAssetPair)
        } else if amount_in == 0 {
            Err(Error::InvalidAmount)
        } else if held.0 == 0 || held.1 == 0 {
            Err(Error::PoolDoesNotExist)
        } else {
            match spec_quote_swap(
                held.0 as Balance,
                held.1 as Balance,
                amount_in,
                self.config.trading_fee,
            ) {
                Err(e) => Err(e),
                Ok(quote) => {
                    if quote.0 < min_amount_out {
                        Err(Error::SlippageExceeded)
                    } else if held.0 + amount_in > Balance::MAX {
                        Err(Error::CalculationError)
                    } else {
                        let moved = spec_directed((held.0 + amount_in, held.1 - quote.0), pair.2);
                        Ok(
                            Trade {
                                low: pair.0,
                                high: pair.1,
                                reserve_low: moved.0 as Balance,
                                reserve_high: moved.1 as Balance,
                                amount_out: quote.0,
                                fee: quote.1,
                            },
                        )
                    }
                },
            }
        }
    }

    /// The pool `(low, high)` holds the reserves given, and nothing else of
    /// the registry or the configuration differs from `before`.
    pub open spec fn spec_pool_written(
        &self,
        before: &Pallet,
        low: AssetId,
        high: AssetId,
        reserve_low: Balance,
        reserve_high: Balance,
    ) -> bool {
        &&& self.config == before.config
        &&& self.registry@ == before.registry@.insert((low, high), (reserve_low, reserve_high))
    }

    /// Two assets name one pool in both orders: read in the other order, the
    /// reserves are the same two amounts, exchanged.
    pub proof fn lemma_reserves_symmetric(&self, asset_x: AssetId, asset_y: AssetId)
        requires
            asset_x != asset_y,
        ensures
            self.spec_reserves(asset_y, asset_x) == spec_directed(
                self.spec_reserves(asset_x, asset_y),
                true,
            ),
    {
    }

    /// Once a pool is written, it reads back what was written, in the order
    /// of the pair asked for.
    pub proof fn lemma_written_reads_back(
        &self,
        before: &Pallet,
        asset_x: AssetId,
        asset_y: AssetId,
        reserve_low: Balance,
        reserve_high: Balance,
    )
        requires
            self.spec_pool_written(
                before,
                spec_canonicalize(asset_x, asset_y).0,
                spec_canonicalize(asset_x, asset_y).1,
                reserve_low,
                reserve_high,
            ),
        ensures
            self.spec_reserves(asset_x, asset_y) == spec_directed(
                (reserve_low as int, reserve_high as int),
                spec_canonicalize(asset_x, asset_y).2,
            ),
    {
    }

    /// A deposit named in the other order, with the amounts exchanged, passes
    /// the same checks and leads to the same pool, reserves and units.
    pub proof fn lemma_add_liquidity_symmetric(
        &self,
        asset_x: AssetId,
        asset_y: AssetId,
        amount_x: Balance,
        amount_y: Balance,
        min_liquidity: Balance,
    )
        ensures
            self.spec_stage_add_liquidity(asset_x, asset_y, amount_x, amount_y, min_liquidity)
                == self.spec_stage_add_liquidity(
                asset_y,
                asset_x,
                amount_y,
                amount_x,
                min_liquidity,
            ),
    {
    }

    /// A withdrawal named in the other order, with the floors exchanged,
    /// passes the same checks and leads to the same pool and reserves; the
    /// amounts paid out are the same two, exchanged.
    pub proof fn lemma_remove_liquidity_symmetric(
        &self,
        who: AccountId,
        asset_x: AssetId,
        asset_y: AssetId,
        liquidity: Balance,
        min_amount_x: Balance,
        min_amount_y: Balance,
    )
        ensures
            match (
                self.spec_stage_remove_liquidity(
                    who,
                    asset_x,
                    asset_y,
                    liquidity,
                    min_amount_x,
                    min_amount_y,
                ),
                self.spec_stage_remove_liquidity(
                    who,
                    asset_y,
                    asset_x,
                    liquidity,
                    min_amount_y,
                    min_amount_x,
                ),
            ) {
                (Ok(one), Ok(other)) => {
                    &&& one.low == other.low
                    &&& one.high == other.high
                    &&& one.reserve_low == other.reserve_low
                    &&& one.reserve_high == other.reserve_high
                    &&& one.amount_a == other.amount_b
                    &&& one.amount_b == other.amount_a
                },
                (Err(one), Err(other)) => one == other,
                _ => false,
            },
    {
    }

    /// A swap credits the asset paid and debits the asset received, whichever
    /// of the two comes first in the pool, and the product of the reserves
    /// falls by less than the divisor of the pricing rule.
    pub proof fn lemma_swap_direction(
        &self,
        asset_in: AssetId,
        asset_out: AssetId,
        amount_in: Balance,
        min_amount_out: Balance,
        trade: Trade,
    )
        requires
            self.spec_stage_swap(asset_in, asset_out, amount_in, min_amount_out) == Ok::<
                Trade,
                Error,
            >(trade),
        ensures
            asset_in != asset_out,
            trade.low < trade.high,
            (trade.low == asset_in && trade.high == asset_out) || (trade.low == asset_out
                && trade.high == asset_in),
            min_amount_out <= trade.amount_out <= self.spec_reserves(asset_in, asset_out).1,
            trade.fee <= amount_in,
            ({
                let held = self.spec_reserves(asset_in, asset_out);
                let moved = spec_directed(
                    (trade.reserve_low as int, trade.reserve_high as int),
                    spec_canonicalize(asset_in, asset_out).2,
                );
                &&& moved.0 == held.0 + amount_in
                &&& moved.1 == held.1 - trade.amount_out
                &&& spec_product(trade.reserve_low as int, trade.reserve_high as int) + (held.0
                    + amount_in - trade.fee) > spec_product(held.0, held.1)
            }),
    {
        let held = self.spec_reserves(asset_in, asset_out);
        lemma_swap_product(
            held.0 as Balance,
            held.1 as Balance,
            amount_in,
            self.config.trading_fee,
            trade.amount_out,
            trade.fee,
        );
        let grown = held.0 + amount_in;
        let left = held.1 - trade.amount_out;
        assert(spec_product(grown, left) == spec_product(left, grown)) by (nonlinear_arith);
    }

    /// The product of a pool's reserves does not fall in a swap whose fee
    /// makes up for what the division of the pricing rule dropped.
    pub proof fn lemma_swap_keeps_pool_product(
        &self,
        asset_in: AssetId,
        asset_out: AssetId,
        amount_in: Balance,
        min_amount_out: Balance,
        trade: Trade,
    )
        requires
            self.spec_stage_swap(asset_in, asset_out, amount_in, min_amount_out) == Ok::<
                Trade,
                Error,
            >(trade),
            ({
                let held = self.spec_reserves(asset_in, asset_out);
                spec_product(held.0, held.1) % (held.0 + amount_in - trade.fee) <= trade.fee * (
                held.1 - trade.amount_out)
            }),
        ensures
            ({
                let held = self.spec_reserves(asset_in, asset_out);
                spec_product(trade.reserve_low as int, trade.reserve_high as int) >= spec_product(
                    held.0,
                    held.1,
                )
            }),
    {
        let held = self.spec_reserves(asset_in, asset_out);
        lemma_swap_product(
            held.0 as Balance,
            held.1 as Balance,
            amount_in,
            self.config.trading_fee,
            trade.amount_out,
            trade.fee,
        );
        let grown = held.0 + amount_in;
        let left = held.1 - trade.amount_out;
        assert(spec_product(grown, left) == spec_product(left, grown)) by (nonlinear_arith);
    }

    /// An engine without pools.
    pub fn new(config: Config) -> (pallet: Pallet)
        ensures
            pallet.wf(),
            pallet.config == config,
            pallet.registry@ == Map::<(AssetId, AssetId), (Balance, Balance)>::empty(),
            forall|pool: (AssetId, AssetId)| #[trigger] pallet.ledger.spec_total(pool) == 0,
            forall|pool: (AssetId, AssetId), account: AccountId| #[trigger]
                pallet.ledger.spec_claim(pool, account) == 0,
    {
        Pallet { config, registry: PoolRegistry::new(), ledger: LiquidityLedger::new() }
    }

    /// The account that holds the pooled assets.
    pub fn account_id(&self) -> (custody: AccountId)
        ensures
            custody == self.config.custody,
    {
        self.config.custody
    }

    /// Reads the reserves of the pool of a pair, in the order of the pair.
    pub fn liquidity_pools(&self, asset_a: AssetId, asset_b: AssetId) -> (reserves: (
        Balance,
        Balance,
    ))
        ensures
            (reserves.0 as int, reserves.1 as int) == self.spec_reserves(asset_a, asset_b),
    {
        let pair = canonicalize(asset_a, asset_b);
        directed(self.registry.get_reserves(pair.0, pair.1), pair.2)
    }

    /// Reads the liquidity units that the pool of a pair has issued.
    pub fn total_liquidity(&self, asset_a: AssetId, asset_b: AssetId) -> (total: Balance)
        ensures
            total == self.ledger.spec_total(
                (spec_canonicalize(asset_a, asset_b).0, spec_canonicalize(asset_a, asset_b).1),
            ),
    {
        let pair = canonicalize(asset_a, asset_b);
        self.ledger.total_liquidity((pair.0, pair.1))
    }

    /// Reads the liquidity units that `account` holds in the pool of a pair.
    pub fn liquidity_tokens(&self, asset_a: AssetId, asset_b: AssetId, account: AccountId) -> (amount:
        Balance)
        requires
            self.wf(),
        ensures
            amount == self.ledger.spec_claim(
                (spec_canonicalize(asset_a, asset_b).0, spec_canonicalize(asset_a, asset_b).1),
                account,
            ),
    {
        let pair = canonicalize(asset_a, asset_b);
        self.ledger.liquidity_tokens((pair.0, pair.1), account)
    }

    /// Checks a deposit against the pool as it stands.
    pub fn stage_add_liquidity(
        &self,
        asset_a: AssetId,
        asset_b: AssetId,
        amount_a: Balance,
        amount_b: Balance,
        min_liquidity: Balance,
    ) -> (result: Result<Deposit, Error>)
        ensures
            result == self.spec_stage_add_liquidity(
                asset_a,
                asset_b,
                amount_a,
                amount_b,
                min_liquidity,
            ),
    {
        if asset_a == asset_b {
            return Err(Error::InvalidAssetPair);
        }
        if amount_a == 0 || amount_b == 0 {
            return Err(Error::InvalidAmount);
        }
        let pair = canonicalize(asset_a, asset_b);
        let held = directed(self.registry.get_reserves(pair.0, pair.1), pair.2);
        let minted = match quote_add_liquidity(held.0, held.1, amount_a, amount_b) {
            Ok(minted) => minted,
            Err(e) => { return Err(e); },
        };
        if minted < min_liquidity {
            return Err(Error::InsufficientLiquidity);
        }
        let reserve_a = match held.0.checked_add(amount_a) {
            Some(sum) => sum,
            None => { return Err(Error::CalculationError); },
        };
        let reserve_b = match held.1.checked_add(amount_b) {
            Some(sum) => sum,
            None => { return Err(Error::CalculationError); },
        };
        if self.ledger.total_liquidity((pair.0, pair.1)).checked_add(minted).is_none() {
            return Err(Error::CalculationError);
        }
        let grown = directed((reserve_a, reserve_b), pair.2);
        Ok(
            Deposit {
                low: pair.0,
                high: pair.1,
                reserve_low: grown.0,
                reserve_high: grown.1,
                minted,
            },
        )
    }

    /// Checks a withdrawal against the pool as it stands.
    pub fn stage_remove_liquidity(
        &self,
        who: AccountId,
        asset_a: AssetId,
        asset_b: AssetId,
        liquidity: Balance,
        min_amount_a: Balance,
        min_amount_b: Balance,
    ) -> (result: Result<Withdrawal, Error>)
        requires
            self.wf(),
        ensures
            result == self.spec_stage_remove_liquidity(
                who,
                asset_a,
                asset_b,
                liquidity,
                min_amount_a,
                min_amount_b,
            ),
    {
        if asset_a == asset_b {
            return Err(Error::InvalidAssetPair);
        }
        if liquidity == 0 {
            return Err(Error::InvalidAmount);
        }
        let pair = canonicalize(asset_a, asset_b);
        let held = directed(self.registry.get_reserves(pair.0, pair.1), pair.2);
        if held.0 == 0 || held.1 == 0 {
            return Err(Error::PoolDoesNotExist);
        }
        let total = self.ledger.total_liquidity((pair.0, pair.1));
        let amounts = match quote_remove_liquidity(held.0, held.1, total, liquidity) {
            Ok(amounts) => amounts,
            Err(e) => { return Err(e); },
        };
        if amounts.0 < min_amount_a || amounts.1 < min_amount_b {
            return Err(Error::SlippageExceeded);
        }
        if self.ledger.liquidity_tokens((pair.0, pair.1), who) < liquidity {
            return Err(Error::InsufficientBalance);
        }
        proof {
            self.ledger.lemma_claim_le_total((pair.0, pair.1), who);
            lemma_share_bounded(held.0 as int, total as int, liquidity as int);
            lemma_share_bounded(held.1 as int, total as int, liquidity as int);
        }
        let left = directed((held.0 - amounts.0, held.1 - amounts.1), pair.2);
        Ok(
            Withdrawal {
                low: pair.0,
                high: pair.1,
                reserve_low: left.0,
                reserve_high: left.1,
                amount_a: amounts.0,
                amount_b: amounts.1,
            },
        )
    }

    /// Checks a swap against the pool as it stands.
    pub fn stage_swap(
        &self,
        asset_in: AssetId,
        asset_out: AssetId,
        amount_in: Balance,
        min_amount_out: Balance,
    ) -> (result: Result<Trade, Error>)
        ensures
            result == self.spec_stage_swap(asset_in, asset_out, amount_in, min_amount_out),
    {
        if asset_in == asset_out {
            return Err(Error::InvalidAssetPair);
        }
        if amount_in == 0 {
            return Err(Error::InvalidAmount);
        }
        let pair = canonicalize(asset_in, asset_out);
        let held = directed(self.registry.get_reserves(pair.0, pair.1), pair.2);
        if held.0 == 0 || held.1 == 0 {
            return Err(Error::PoolDoesNotExist);
        }
        let quote = match quote_swap(held.0, held.1, amount_in, self.config.trading_fee) {
            Ok(quote) => quote,
            Err(e) => { return Err(e); },
        };
        if quote.0 < min_amount_out {
            return Err(Error::SlippageExceeded);
        }
        let reserve_in = match held.0.checked_add(amount_in) {
            Some(sum) => sum,
            None => { return Err(Error::CalculationError); },
        };
        proof {
            lemma_swap_product(
                held.0,
                held.1,
                amount_in,
                self.config.trading_fee,
                quote.0,
                quote.1,
            );
        }
        let moved = directed((reserve_in, held.1 - quote.0), pair.2);
        Ok(
            Trade {
                low: pair.0,
                high: pair.1,
                reserve_low: moved.0,
                reserve_high: moved.1,
                amount_out: quote.0,
                fee: quote.1,
            },
        )
    }

    /// Checks a deposit and names the transfers that it takes: both amounts
    /// from the caller into custody.
    pub fn prepare_add_liquidity(
        &self,
        who: AccountId,
        asset_a: AssetId,
        asset_b: AssetId,
        amount_a: Balance,
        amount_b: Balance,
        min_liquidity: Balance,
    ) -> (result: Result<Vec<Transfer>, Error>)
        ensures
            match self.spec_stage_add_liquidity(asset_a, asset_b, amount_a, amount_b, min_liquidity) {
                Ok(_) => result matches Ok(list) && list@ == spec_transfers(
                    who,
                    self.config.custody,
                    asset_a,
                    asset_b,
                    amount_a,
                    amount_b,
                ),
                Err(e) => result matches Err(refusal) && refusal == e,
            },
    {
        match self.stage_add_liquidity(asset_a, asset_b, amount_a, amount_b, min_liquidity) {
            Ok(_) => Ok(transfers(who, self.config.custody, asset_a, asset_b, amount_a, amount_b)),
            Err(e) => Err(e),
        }
    }

    /// Checks a withdrawal and names the transfers that it takes: both
    /// amounts out of custody to the caller.
    pub fn prepare_remove_liquidity(
        &self,
        who: AccountId,
        asset_a: AssetId,
        asset_b: AssetId,
        liquidity: Balance,
        min_amount_a: Balance,
        min_amount_b: Balance,
    ) -> (result: Result<Vec<Transfer>, Error>)
        requires
            self.wf(),
        ensures
            match self.spec_stage_remove_liquidity(
                who,
                asset_a,
                asset_b,
                liquidity,
                min_amount_a,
                min_amount_b,
            ) {
                Ok(withdrawal) => result matches Ok(list) && list@ == spec_transfers(
                    self.config.custody,
                    who,
                    asset_a,
                    asset_b,
                    withdrawal.amount_a,
                    withdrawal.amount_b,
                ),
                Err(e) => result matches Err(refusal) && refusal == e,
            },
    {
        match self.stage_remove_liquidity(
            who,
            asset_a,
            asset_b,
            liquidity,
            min_amount_a,
            min_amount_b,
        ) {
            Ok(withdrawal) => Ok(
                transfers(
                    self.config.custody,
                    who,
                    asset_a,
                    asset_b,
                    withdrawal.amount_a,
                    withdrawal.amount_b,
                ),
            ),
            Err(e) => Err(e),
        }
    }

    /// Checks a swap and names the transfers that it takes: the amount paid
    /// from the caller into custody, then the amount received out of it.
    pub fn prepare_swap(
        &self,
        who: AccountId,
        asset_in: AssetId,
        asset_out: AssetId,
        amount_in: Balance,
        min_amount_out: Balance,
    ) -> (result: Result<Vec<Transfer>, Error>)
        ensures
            match self.spec_stage_swap(asset_in, asset_out, amount_in, min_amount_out) {
                Ok(trade) => result matches Ok(list) && list@ == spec_swap_transfers(
                    who,
                    self.config.custody,
                    asset_in,
                    asset_out,
                    amount_in,
                    trade.amount_out,
                ),
                Err(e) => result matches Err(refusal) && refusal == e,
            },
    {
        match self.stage_swap(asset_in, asset_out, amount_in, min_amount_out) {
            Ok(trade) => {
                let custody = self.config.custody;
                let mut list = Vec::new();
                list.push(Transfer { from: who, to: custody, asset: asset_in, amount: amount_in });
                list.push(
                    Transfer { from: custody, to: who, asset: asset_out, amount: trade.amount_out },
                );
                assert(list@ =~= spec_swap_transfers(
                    who,
                    custody,
                    asset_in,
                    asset_out,
                    amount_in,
                    trade.amount_out,
                ));
                Ok(list)
            },
            Err(e) => Err(e),
        }
    }

    /// Deposits `amount_a` and `amount_b` into the pool of the two assets and
    /// mints liquidity units to `who`.
    ///
    /// `settled` is what the asset ledger answered to the transfers of
    /// `prepare_add_liquidity`. Where a check fails the call returns its
    /// error; where the checks pass and the ledger refused, it returns
    /// `InsufficientBalance`; in both cases nothing changes. Otherwise the
    /// pool holds the grown reserves, `who` holds the units minted on top of
    /// those held before, and the one event reports the deposit.
    pub fn add_liquidity(
        &mut self,
        who: AccountId,
        asset_a: AssetId,
        asset_b: AssetId,
        amount_a: Balance,
        amount_b: Balance,
        min_liquidity: Balance,
        settled: Result<(), TransferError>,
    ) -> (result: Result<Vec<Event>, Error>)
        requires
            old(self).wf(),
        ensures
            final(self).wf(),
            match old(self).spec_stage_add_liquidity(
                asset_a,
                asset_b,
                amount_a,
                amount_b,
                min_liquidity,
            ) {
                Err(e) => result matches Err(refusal) && refusal == e && *final(self) == *old(self),
                Ok(deposit) => if settled is Err {
                    result matches Err(refusal) && refusal == Error::InsufficientBalance && *final(self) == *old(self)
                } else {
                    let pool = (deposit.low, deposit.high);
                    &&& result matches Ok(events) && events@ == seq![
                        Event::LiquidityAdded(
                            who,
                            asset_a,
                            asset_b,
                            amount_a,
                            amount_b,
                            deposit.minted,
                        ),
                    ]
                    &&& final(self).spec_pool_written(
                        old(self),
                        deposit.low,
                        deposit.high,
                        deposit.reserve_low,
                        deposit.reserve_high,
                    )
                    &&& final(self).ledger.spec_total(pool) == old(self).ledger.spec_total(pool)
                        + deposit.minted
                    &&& final(self).ledger.spec_claim(pool, who) == old(self).ledger.spec_claim(
                        pool,
                        who,
                    ) + deposit.minted
                    &&& final(self).ledger.spec_same_elsewhere(&old(self).ledger, pool, who)
                },
            },
    {
        let deposit = match self.stage_add_liquidity(
            asset_a,
            asset_b,
            amount_a,
            amount_b,
            min_liquidity,
        ) {
            Ok(deposit) => deposit,
            Err(e) => { return Err(e); },
        };
        if settled.is_err() {
            return Err(Error::InsufficientBalance);
        }
        match self.ledger.mint(who, (deposit.low, deposit.high), deposit.minted) {
            Ok(_) => {},
            Err(e) => { return Err(e); },
        }
        self.registry.set_reserves(
            deposit.low,
            deposit.high,
            deposit.reserve_low,
            deposit.reserve_high,
        );
        let mut events = Vec::new();
        events.push(
            Event::LiquidityAdded(who, asset_a, asset_b, amount_a, amount_b, deposit.minted),
        );
        Ok(events)
    }

    /// Burns `liquidity` units of `who` in the pool of the two assets and
    /// pays out their share of the reserves.
    ///
    /// `settled` is what the asset ledger answered to the transfers of
    /// `prepare_remove_liquidity`. Where a check fails the call returns its
    /// error; where the checks pass and the ledger refused, it returns
    /// `InsufficientBalance`; in both cases nothing changes. Otherwise the
    /// pool holds the reserves less the amounts, `who` holds `liquidity`
    /// units fewer, and the one event reports the withdrawal.
    pub fn remove_liquidity(
        &mut self,
        who: AccountId,
        asset_a: AssetId,
        asset_b: AssetId,
        liquidity: Balance,
        min_amount_a: Balance,
        min_amount_b: Balance,
        settled: Result<(), TransferError>,
    ) -> (result: Result<Vec<Event>, Error>)
        requires
            old(self).wf(),
        ensures
            final(self).wf(),
            match old(self).spec_stage_remove_liquidity(
                who,
                asset_a,
                asset_b,
                liquidity,
                min_amount_a,
                min_amount_b,
            ) {
                Err(e) => result matches Err(refusal) && refusal == e && *final(self) == *old(self),
                Ok(withdrawal) => if settled is Err {
                    result matches Err(refusal) && refusal == Error::InsufficientBalance && *final(self) == *old(self)
                } else {
                    let pool = (withdrawal.low, withdrawal.high);
                    &&& result matches Ok(events) && events@ == seq![
                        Event::LiquidityRemoved(
                            who,
                            asset_a,
                            asset_b,
                            withdrawal.amount_a,
                            withdrawal.amount_b,
                            liquidity,
                        ),
                    ]
                    &&& final(self).spec_pool_written(
                        old(self),
                        withdrawal.low,
                        withdrawal.high,
                        withdrawal.reserve_low,
                        withdrawal.reserve_high,
                    )
                    &&& final(self).ledger.spec_total(pool) == old(self).ledger.spec_total(pool)
                        - liquidity
                    &&& final(self).ledger.spec_claim(pool, who) == old(self).ledger.spec_claim(
                        pool,
                        who,
                    ) - liquidity
                    &&& final(self).ledger.spec_same_elsewhere(&old(self).ledger, pool, who)
                },
            },
    {
        let withdrawal = match self.stage_remove_liquidity(
            who,
            asset_a,
            asset_b,
            liquidity,
            min_amount_a,
            min_amount_b,
        ) {
            Ok(withdrawal) => withdrawal,
            Err(e) => { return Err(e); },
        };
        if settled.is_err() {
            return Err(Error::InsufficientBalance);
        }
        match self.ledger.burn(who, (withdrawal.low, withdrawal.high), liquidity) {
            Ok(_) => {},
            Err(e) => { return Err(e); },
        }
        self.registry.set_reserves(
            withdrawal.low,
            withdrawal.high,
            withdrawal.reserve_low,
            withdrawal.reserve_high,
        );
        let mut events = Vec::new();
        events.push(
            Event::LiquidityRemoved(
                who,
                asset_a,
                asset_b,
                withdrawal.amount_a,
                withdrawal.amount_b,
                liquidity,
            ),
        );
        Ok(events)
    }

    /// Swaps `amount_in` of `asset_in` for `asset_out` against the pool of
    /// the two.
    ///
    /// `settled` is what the asset ledger answered to the transfers of
    /// `prepare_swap`. Where a check fails the call returns its error; where
    /// the checks pass and the ledger refused, it returns
    /// `InsufficientBalance`; in both cases nothing changes. Otherwise the
    /// pool holds the moved reserves, the liquidity units stay as they were,
    /// and the two events report the swap and its fee.
    pub fn swap(
        &mut self,
        who: AccountId,
        asset_in: AssetId,
        asset_out: AssetId,
        amount_in: Balance,
        min_amount_out: Balance,
        settled: Result<(), TransferError>,
    ) -> (result: Result<Vec<Event>, Error>)
        requires
            old(self).wf(),
        ensures
            final(self).wf(),
            match old(self).spec_stage_swap(asset_in, asset_out, amount_in, min_amount_out) {
                Err(e) => result matches Err(refusal) && refusal == e && *final(self) == *old(self),
                Ok(trade) => if settled is Err {
                    result matches Err(refusal) && refusal == Error::InsufficientBalance && *final(self) == *old(self)
                } else {
                    &&& result matches Ok(events) && events@ == seq![
                        Event::Swap(
                            who,
                            asset_in,
                            asset_out,
                            amount_in,
                            trade.amount_out,
                            trade.fee,
                        ),
                        Event::FeeCollected(asset_in, trade.fee),
                    ]
                    &&& final(self).spec_pool_written(
                        old(self),
                        trade.low,
                        trade.high,
                        trade.reserve_low,
                        trade.reserve_high,
                    )
                    &&& final(self).ledger == old(self).ledger
                },
            },
    {
        let trade = match self.stage_swap(asset_in, asset_out, amount_in, min_amount_out) {
            Ok(trade) => trade,
            Err(e) => { return Err(e); },
        };
        if settled.is_err() {
            return Err(Error::InsufficientBalance);
        }
        self.registry.set_reserves(trade.low, trade.high, trade.reserve_low, trade.reserve_high);
        let mut events = Vec::new();
        events.push(
            Event::Swap(who, asset_in, asset_out, amount_in, trade.amount_out, trade.fee),
        );
        events.push(Event::FeeCollected(asset_in, trade.fee));
        assert(events@ =~= seq![
            Event::Swap(who, asset_in, asset_out, amount_in, trade.amount_out, trade.fee),
            Event::FeeCollected(asset_in, trade.fee),
        ]);
        Ok(events)
    }
}

} // verus!
