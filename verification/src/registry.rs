//! The reserves of every pool, kept under the pair's canonical order.

use vstd::prelude::*;
use std::collections::HashMap;
use crate::types::{AssetId, Balance};

verus! {

broadcast use vstd::std_specs::hash::group_hash_axioms;

/// A pair in canonical order, with the smaller identifier first, and whether
/// that order differs from the one given.
pub open spec fn spec_canonicalize(asset_x: AssetId, asset_y: AssetId) -> (AssetId, AssetId, bool) {
    if asset_x < asset_y {
        (asset_x, asset_y, false)
    } else {
        (asset_y, asset_x, true)
    }
}

/// The pool of a pair: its two assets in canonical order.
pub open spec fn spec_pool(asset_x: AssetId, asset_y: AssetId) -> (AssetId, AssetId) {
    (spec_canonicalize(asset_x, asset_y).0, spec_canonicalize(asset_x, asset_y).1)
}

/// The two assets of a pool as one number, the first above the second.
pub open spec fn spec_pool_key(pool: (AssetId, AssetId)) -> u64 {
    (pool.0 as u64 * 0x1_0000_0000 + pool.1 as u64) as u64
}

/// Two pools with the same key are the same pool.
pub proof fn lemma_pool_key_injective(p: (AssetId, AssetId), q: (AssetId, AssetId))
    ensures
        spec_pool_key(p) == spec_pool_key(q) <==> p == q,
{
}

/// Both orders of a pair name one pool.
pub proof fn lemma_canonical_pair_symmetric(asset_x: AssetId, asset_y: AssetId)
    ensures
        spec_pool(asset_x, asset_y) == spec_pool(asset_y, asset_x),
        spec_pool(asset_x, asset_y).0 <= spec_pool(asset_x, asset_y).1,
        asset_x != asset_y ==> spec_pool(asset_x, asset_y).0 < spec_pool(asset_x, asset_y).1,
        asset_x != asset_y ==> spec_canonicalize(asset_x, asset_y).2 != spec_canonicalize(
            asset_y,
            asset_x,
        ).2,
{
}

/// Puts a pair in canonical order.
pub fn canonicalize(asset_x: AssetId, asset_y: AssetId) -> (result: (AssetId, AssetId, bool))
    ensures
        result == spec_canonicalize(asset_x, asset_y),
{
    if asset_x < asset_y {
        (asset_x, asset_y, false)
    } else {
        (asset_y, asset_x, true)
    }
}

/// Computes a pool's key.
pub(crate) fn pool_key(pool: (AssetId, AssetId)) -> (key: u64)
    ensures
        key == spec_pool_key(pool),
{
    let low: u64 = pool.0 as u64;
    let high: u64 = pool.1 as u64;
    low * 0x1_0000_0000 + high
}

/// The reserves of all pools. A pool that was never written holds nothing.
pub struct PoolRegistry {
    reserves: HashMap<u64, (Balance, Balance)>,
}

impl View for PoolRegistry {
    type V = Map<(AssetId, AssetId), (Balance, Balance)>;

    /// The pools that were written, each with its reserves.
    closed spec fn view(&self) -> Map<(AssetId, AssetId), (Balance, Balance)> {
        Map::new(
            |pool: (AssetId, AssetId)| self.reserves@.contains_key(spec_pool_key(pool)),
            |pool: (AssetId, AssetId)| self.reserves@[spec_pool_key(pool)],
        )
    }
}

impl PoolRegistry {
    /// The reserves of a pool: what was last written, or nothing.
    pub open spec fn spec_reserves(&self, low: AssetId, high: AssetId) -> (Balance, Balance) {
        if self@.contains_key((low, high)) {
            self@[(low, high)]
        } else {
            (0, 0)
        }
    }

    /// A registry without pools.
    pub fn new() -> (registry: PoolRegistry)
        ensures
            registry@ == Map::<(AssetId, AssetId), (Balance, Balance)>::empty(),
    {
        let registry = PoolRegistry { reserves: HashMap::new() };
        assert(registry@ =~= Map::<(AssetId, AssetId), (Balance, Balance)>::empty());
        registry
    }

    /// Reads the reserves of a pool.
    pub fn get_reserves(&self, low: AssetId, high: AssetId) -> (reserves: (Balance, Balance))
        ensures
            reserves == self.spec_reserves(low, high),
    {
        let key = pool_key((low, high));
        match self.reserves.get(&key) {
            Some(found) => *found,
            None => (0, 0),
        }
    }

    /// Overwrites the reserves of a pool.
    pub fn set_reserves(
        &mut self,
        low: AssetId,
        high: AssetId,
        reserve_low: Balance,
        reserve_high: Balance,
    )
        ensures
            final(self)@ == old(self)@.insert((low, high), (reserve_low, reserve_high)),
    {
        let key = pool_key((low, high));
        self.reserves.insert(key, (reserve_low, reserve_high));
        proof {
            assert forall|pool: (AssetId, AssetId)|
                spec_pool_key(pool) == key <==> pool == (low, high) by {
                lemma_pool_key_injective(pool, (low, high));
            }
            assert(final(self)@ =~= old(self)@.insert((low, high), (reserve_low, reserve_high)));
        }
    }
}

} // verus!
