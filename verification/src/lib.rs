//! A constant-product liquidity-pool engine.
//!
//! Parties deposit two assets into a shared pool, receive liquidity units in
//! return, redeem those units, and swap one asset for the other against the
//! pool's reserves. The engine keeps the reserves and the liquidity units; the
//! asset balances themselves live in a ledger outside it, which the host drives
//! from the transfers that each operation asks for.
//!
//! - `types`: assets, accounts, amounts, errors, transfers and events.
//! - `engine`: the pricing of deposits, withdrawals and swaps.
//! - `registry`: the reserves of each pool.
//! - `ledger`: the liquidity units of each pool and account.
//! - `operations`: deposit, withdrawal and swap on the three above.
//!
//! Beside the pools the chain keeps a registry of cultivation facilities:
//!
//! - `cultivation`: its records, and the ranges in which a culture is kept.
//! - `spirulina_registry`: the registry itself.

pub mod types;
pub mod engine;
pub mod registry;
pub mod ledger;
pub mod operations;
pub mod cultivation;
pub mod spirulina_registry;
