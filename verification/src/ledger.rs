//! The liquidity units: who holds how many in which pool, and how many each
//! pool has issued. Units come and go by `mint` and `burn` alone, which keep
//! the units issued equal to the units held.

use vstd::prelude::*;
use std::collections::HashMap;
use crate::registry::{lemma_pool_key_injective, pool_key, spec_pool_key};
use crate::types::{AccountId, AssetId, Balance, Error};

verus! {

broadcast use vstd::std_specs::hash::group_hash_axioms;

/// The liquidity units that one account holds in one pool.
#[derive(Clone, Copy, Debug)]
pub struct Claim {
    pub pool: (AssetId, AssetId),
    pub account: AccountId,
    pub amount: Balance,
}

/// What a claim adds to the units held in `pool`.
pub open spec fn spec_share(claim: Claim, pool: (AssetId, AssetId)) -> nat {
    if claim.pool == pool {
        claim.amount as nat
    } else {
        0
    }
}

/// The units held in `pool`, summed over the claims.
pub open spec fn spec_sum_of_claims(claims: Seq<Claim>, pool: (AssetId, AssetId)) -> nat
    decreases claims.len(),
{
    if claims.len() == 0 {
        0
    } else {
        spec_sum_of_claims(claims.drop_last(), pool) + spec_share(claims.last(), pool)
    }
}

/// No two claims are of the same account in the same pool.
pub open spec fn spec_one_claim_each(claims: Seq<Claim>) -> bool {
    forall|i: int, j: int|
        0 <= i < j < claims.len() ==> !(#[trigger] claims[i].pool == #[trigger] claims[j].pool
            && claims[i].account == claims[j].account)
}

/// Whether some claim is of `account` in `pool`.
pub open spec fn spec_has_claim(claims: Seq<Claim>, pool: (AssetId, AssetId), account: AccountId) -> bool {
    exists|i: int|
        0 <= i < claims.len() && (#[trigger] claims[i]).pool == pool && claims[i].account
            == account
}

/// The units that `account` holds in `pool`: those of its claim, or none.
pub open spec fn spec_claim_in(claims: Seq<Claim>, pool: (AssetId, AssetId), account: AccountId) -> Balance {
    if spec_has_claim(claims, pool, account) {
        let i = choose|i: int|
            0 <= i < claims.len() && (#[trigger] claims[i]).pool == pool && claims[i].account
                == account;
        claims[i].amount
    } else {
        0
    }
}

/// Where no account has two claims, the claim at `i` is what its account
/// holds in its pool.
pub proof fn lemma_claim_at(claims: Seq<Claim>, i: int)
    requires
        spec_one_claim_each(claims),
        0 <= i < claims.len(),
    ensures
        spec_has_claim(claims, claims[i].pool, claims[i].account),
        spec_claim_in(claims, claims[i].pool, claims[i].account) == claims[i].amount,
{
    let pool = claims[i].pool;
    let account = claims[i].account;
    let j = choose|j: int|
        0 <= j < claims.len() && (#[trigger] claims[j]).pool == pool && claims[j].account
            == account;
    if j < i {
        assert(!(claims[j].pool == claims[i].pool && claims[j].account == claims[i].account));
    } else if i < j {
        assert(!(claims[i].pool == claims[j].pool && claims[i].account == claims[j].account));
    }
}

/// A new claim adds its share to the sum.
pub proof fn lemma_sum_push(claims: Seq<Claim>, claim: Claim, pool: (AssetId, AssetId))
    ensures
        spec_sum_of_claims(claims.push(claim), pool) == spec_sum_of_claims(claims, pool)
            + spec_share(claim, pool),
{
    assert(claims.push(claim).drop_last() =~= claims);
}

/// Replacing a claim changes the sum by the difference of the shares.
pub proof fn lemma_sum_update(claims: Seq<Claim>, i: int, claim: Claim, pool: (AssetId, AssetId))
    requires
        0 <= i < claims.len(),
    ensures
        spec_sum_of_claims(claims.update(i, claim), pool) + spec_share(claims[i], pool)
            == spec_sum_of_claims(claims, pool) + spec_share(claim, pool),
    decreases claims.len(),
{
    let updated = claims.update(i, claim);
    if i == claims.len() - 1 {
        assert(updated.drop_last() =~= claims.drop_last());
    } else {
        lemma_sum_update(claims.drop_last(), i, claim, pool);
        assert(updated.drop_last() =~= claims.drop_last().update(i, claim));
    }
}

/// No claim exceeds the sum of its pool.
pub proof fn lemma_share_le_sum(claims: Seq<Claim>, i: int, pool: (AssetId, AssetId))
    requires
        0 <= i < claims.len(),
    ensures
        spec_share(claims[i], pool) <= spec_sum_of_claims(claims, pool),
    decreases claims.len(),
{
    if i < claims.len() - 1 {
        lemma_share_le_sum(claims.drop_last(), i, pool);
    }
}

/// Replacing a claim by one of the same account in the same pool changes
/// what that account holds there, and nothing else.
pub proof fn lemma_claims_after_update(claims: Seq<Claim>, i: int, claim: Claim)
    requires
        spec_one_claim_each(claims),
        0 <= i < claims.len(),
        claims[i].pool == claim.pool,
        claims[i].account == claim.account,
    ensures
        spec_one_claim_each(claims.update(i, claim)),
        forall|p: (AssetId, AssetId), a: AccountId| #[trigger]
            spec_claim_in(claims.update(i, claim), p, a) == (if p == claim.pool && a
                == claim.account {
                claim.amount
            } else {
                spec_claim_in(claims, p, a)
            }),
{
    let updated = claims.update(i, claim);
    assert forall|j: int, k: int| 0 <= j < k < updated.len() implies !(#[trigger] updated[j].pool
        == #[trigger] updated[k].pool && updated[j].account == updated[k].account) by {
        assert(!(claims[j].pool == claims[k].pool && claims[j].account == claims[k].account));
    }
    assert forall|p: (AssetId, AssetId), a: AccountId| #[trigger]
        spec_claim_in(updated, p, a) == (if p == claim.pool && a == claim.account {
            claim.amount
        } else {
            spec_claim_in(claims, p, a)
        }) by {
        if p == claim.pool && a == claim.account {
            lemma_claim_at(updated, i);
        } else if spec_has_claim(updated, p, a) {
            let j = choose|j: int|
                0 <= j < updated.len() && (#[trigger] updated[j]).pool == p && updated[j].account
                    == a;
            assert(claims[j] == updated[j]);
            lemma_claim_at(claims, j);
            lemma_claim_at(updated, j);
        } else if spec_has_claim(claims, p, a) {
            let j = choose|j: int|
                0 <= j < claims.len() && (#[trigger] claims[j]).pool == p && claims[j].account
                    == a;
            assert(updated[j] == claims[j]);
            lemma_claim_at(updated, j);
        }
    }
}

/// A claim of an account that had none in the pool adds what that account
/// holds there, and changes nothing else.
pub proof fn lemma_claims_after_push(claims: Seq<Claim>, claim: Claim)
    requires
        spec_one_claim_each(claims),
        !spec_has_claim(claims, claim.pool, claim.account),
    ensures
        spec_one_claim_each(claims.push(claim)),
        forall|p: (AssetId, AssetId), a: AccountId| #[trigger]
            spec_claim_in(claims.push(claim), p, a) == (if p == claim.pool && a == claim.account {
                claim.amount
            } else {
                spec_claim_in(claims, p, a)
            }),
{
    let pushed = claims.push(claim);
    let last = claims.len() as int;
    assert forall|j: int, k: int| 0 <= j < k < pushed.len() implies !(#[trigger] pushed[j].pool
        == #[trigger] pushed[k].pool && pushed[j].account == pushed[k].account) by {
        if k == last {
            assert(pushed[j] == claims[j]);
        } else {
            assert(!(claims[j].pool == claims[k].pool && claims[j].account == claims[k].account));
        }
    }
    assert forall|p: (AssetId, AssetId), a: AccountId| #[trigger]
        spec_claim_in(pushed, p, a) == (if p == claim.pool && a == claim.account {
            claim.amount
        } else {
            spec_claim_in(claims, p, a)
        }) by {
        if p == claim.pool && a == claim.account {
            lemma_claim_at(pushed, last);
        } else if spec_has_claim(pushed, p, a) {
            let j = choose|j: int|
                0 <= j < pushed.len() && (#[trigger] pushed[j]).pool == p && pushed[j].account
                    == a;
            assert(claims[j] == pushed[j]);
            lemma_claim_at(claims, j);
            lemma_claim_at(pushed, j);
        } else if spec_has_claim(claims, p, a) {
            let j = choose|j: int|
                0 <= j < claims.len() && (#[trigger] claims[j]).pool == p && claims[j].account
                    == a;
            assert(pushed[j] == claims[j]);
            lemma_claim_at(pushed, j);
        }
    }
}

/// The liquidity units of all pools.
pub struct LiquidityLedger {
    totals: HashMap<u64, Balance>,
    claims: Vec<Claim>,
}

impl LiquidityLedger {
    /// The claims, one for each account that ever held units in a pool.
    pub closed spec fn spec_claims(&self) -> Seq<Claim> {
        self.claims@
    }

    /// The units that a pool has issued.
    pub closed spec fn spec_total(&self, pool: (AssetId, AssetId)) -> Balance {
        if self.totals@.contains_key(spec_pool_key(pool)) {
            self.totals@[spec_pool_key(pool)]
        } else {
            0
        }
    }

    /// The units that `account` holds in `pool`.
    pub open spec fn spec_claim(&self, pool: (AssetId, AssetId), account: AccountId) -> Balance {
        spec_claim_in(self.spec_claims(), pool, account)
    }

    /// No account has two claims in a pool, and every pool has issued exactly
    /// the units that are held in it.
    pub open spec fn wf(&self) -> bool {
        &&& spec_one_claim_each(self.spec_claims())
        &&& forall|pool: (AssetId, AssetId)| #[trigger]
            self.spec_total(pool) == spec_sum_of_claims(self.spec_claims(), pool)
    }

    /// Every other pool, and every other account of `pool`, holds in `self`
    /// what it holds in `before`.
    pub open spec fn spec_same_elsewhere(
        &self,
        before: &LiquidityLedger,
        pool: (AssetId, AssetId),
        account: AccountId,
    ) -> bool {
        &&& forall|p: (AssetId, AssetId)|
            p != pool ==> #[trigger] self.spec_total(p) == before.spec_total(p)
        &&& forall|p: (AssetId, AssetId), a: AccountId|
            !(p == pool && a == account) ==> #[trigger] self.spec_claim(p, a)
                == before.spec_claim(p, a)
    }

    /// The units issued by a pool are the units held in it.
    pub proof fn lemma_liquidity_conserved(&self, pool: (AssetId, AssetId))
        requires
            self.wf(),
        ensures
            self.spec_total(pool) == spec_sum_of_claims(self.spec_claims(), pool),
    {
    }

    /// Each claim is what its account holds in its pool, so the sum of the
    /// claims of a pool counts every account once.
    pub proof fn lemma_claims_are_holdings(&self, i: int)
        requires
            self.wf(),
            0 <= i < self.spec_claims().len(),
        ensures
            self.spec_claim(self.spec_claims()[i].pool, self.spec_claims()[i].account)
                == self.spec_claims()[i].amount,
    {
        lemma_claim_at(self.spec_claims(), i);
    }

    /// No account holds more units of a pool than the pool has issued.
    pub proof fn lemma_claim_le_total(&self, pool: (AssetId, AssetId), account: AccountId)
        requires
            self.wf(),
        ensures
            self.spec_claim(pool, account) <= self.spec_total(pool),
    {
        let claims = self.spec_claims();
        if spec_has_claim(claims, pool, account) {
            let i = choose|i: int|
                0 <= i < claims.len() && (#[trigger] claims[i]).pool == pool && claims[i].account
                    == account;
            lemma_share_le_sum(claims, i, pool);
        }
    }

    /// A ledger without units.
    pub fn new() -> (ledger: LiquidityLedger)
        ensures
            ledger.wf(),
            ledger.spec_claims() == Seq::<Claim>::empty(),
            forall|pool: (AssetId, AssetId)| #[trigger] ledger.spec_total(pool) == 0,
    {
        LiquidityLedger { totals: HashMap::new(), claims: Vec::new() }
    }

    /// Reads the units that a pool has issued.
    pub fn total_liquidity(&self, pool: (AssetId, AssetId)) -> (total: Balance)
        ensures
            total == self.spec_total(pool),
    {
        let key = pool_key(pool);
        match self.totals.get(&key) {
            Some(found) => *found,
            None => 0,
        }
    }

    /// Finds the claim of `account` in `pool`.
    fn find(&self, pool: (AssetId, AssetId), account: AccountId) -> (found: Option<usize>)
        ensures
            match found {
                Some(i) => i < self.claims@.len() && self.claims@[i as int].pool == pool
                    && self.claims@[i as int].account == account,
                None => !spec_has_claim(self.claims@, pool, account),
            },
    {
        let mut i: usize = 0;
        while i < self.claims.len()
            invariant
                i <= self.claims@.len(),
                forall|j: int|
                    0 <= j < i ==> !((#[trigger] self.claims@[j]).pool == pool
                        && self.claims@[j].account == account),
            decreases self.claims@.len() - i,
        {
            let claim = self.claims[i];
            if claim.pool.0 == pool.0 && claim.pool.1 == pool.1 && claim.account == account {
                return Some(i);
            }
            i += 1;
        }
        None
    }

    /// Reads the units that `account` holds in `pool`.
    pub fn liquidity_tokens(&self, pool: (AssetId, AssetId), account: AccountId) -> (amount: Balance)
        requires
            self.wf(),
        ensures
            amount == self.spec_claim(pool, account),
    {
        match self.find(pool, account) {
            Some(i) => {
                proof {
                    lemma_claim_at(self.claims@, i as int);
                }
                self.claims[i].amount
            },
            None => 0,
        }
    }

    /// Writes the claim of one account and the units that its pool has issued.
    fn write(&mut self, slot: Option<usize>, claim: Claim, total: Balance)
        requires
            old(self).wf(),
            match slot {
                Some(i) => i < old(self).claims@.len() && old(self).claims@[i as int].pool
                    == claim.pool && old(self).claims@[i as int].account == claim.account,
                None => !spec_has_claim(old(self).claims@, claim.pool, claim.account),
            },
            total + old(self).spec_claim(claim.pool, claim.account) == old(self).spec_total(
                claim.pool,
            ) + claim.amount,
        ensures
            final(self).wf(),
            final(self).spec_total(claim.pool) == total,
            final(self).spec_claim(claim.pool, claim.account) == claim.amount,
            final(self).spec_same_elsewhere(old(self), claim.pool, claim.account),
    {
        let ghost before = self.claims@;
        let key = pool_key(claim.pool);
        match slot {
            Some(i) => {
                proof {
                    lemma_claim_at(before, i as int);
                    lemma_claims_after_update(before, i as int, claim);
                    assert forall|p: (AssetId, AssetId)|
                        spec_sum_of_claims(before.update(i as int, claim), p) + spec_share(
                            before[i as int],
                            p,
                        ) == #[trigger] spec_sum_of_claims(before, p) + spec_share(claim, p) by {
                        lemma_sum_update(before, i as int, claim, p);
                    }
                }
                self.claims.set(i, claim);
            },
            None => {
                proof {
                    lemma_claims_after_push(before, claim);
                    assert forall|p: (AssetId, AssetId)|
                        spec_sum_of_claims(before.push(claim), p) == #[trigger] spec_sum_of_claims(
                            before,
                            p,
                        ) + spec_share(claim, p) by {
                        lemma_sum_push(before, claim, p);
                    }
                }
                self.claims.push(claim);
            },
        }
        self.totals.insert(key, total);
        proof {
            assert forall|p: (AssetId, AssetId)|
                spec_pool_key(p) == key <==> p == claim.pool by {
                lemma_pool_key_injective(p, claim.pool);
            }
            assert forall|p: (AssetId, AssetId)| #[trigger]
                final(self).spec_total(p) == spec_sum_of_claims(final(self).spec_claims(), p) by {
                assert(old(self).spec_total(p) == spec_sum_of_claims(before, p));
            }
        }
    }

    /// Credits `amount` units of `pool` to `account`.
    ///
    /// Fails, and changes nothing, where the pool would then have issued more
    /// units than a `Balance` holds.
    pub fn mint(&mut self, account: AccountId, pool: (AssetId, AssetId), amount: Balance) -> (result:
        Result<(), Error>)
        requires
            old(self).wf(),
        ensures
            final(self).wf(),
            result is Ok <==> old(self).spec_total(pool) + amount <= Balance::MAX,
            match result {
                Ok(_) => {
                    &&& final(self).spec_total(pool) == old(self).spec_total(pool) + amount
                    &&& final(self).spec_claim(pool, account) == old(self).spec_claim(pool, account)
                        + amount
                    &&& final(self).spec_same_elsewhere(old(self), pool, account)
                },
                Err(e) => e == Error::CalculationError && *final(self) == *old(self),
            },
    {
        let total = match self.total_liquidity(pool).checked_add(amount) {
            Some(t) => t,
            None => { return Err(Error::CalculationError); },
        };
        proof {
            self.lemma_claim_le_total(pool, account);
        }
        let slot = self.find(pool, account);
        let held = match slot {
            Some(i) => {
                proof {
                    lemma_claim_at(self.claims@, i as int);
                }
                self.claims[i].amount
            },
            None => 0,
        };
        self.write(slot, Claim { pool, account, amount: held + amount }, total);
        Ok(())
    }

    /// Takes `amount` units of `pool` from `account`.
    ///
    /// Fails, and changes nothing, where the account holds fewer.
    pub fn burn(&mut self, account: AccountId, pool: (AssetId, AssetId), amount: Balance) -> (result:
        Result<(), Error>)
        requires
            old(self).wf(),
        ensures
            final(self).wf(),
            result is Ok <==> old(self).spec_claim(pool, account) >= amount,
            match result {
                Ok(_) => {
                    &&& final(self).spec_total(pool) == old(self).spec_total(pool) - amount
                    &&& final(self).spec_claim(pool, account) == old(self).spec_claim(pool, account)
                        - amount
                    &&& final(self).spec_same_elsewhere(old(self), pool, account)
                },
                Err(e) => e == Error::InsufficientBalance && *final(self) == *old(self),
            },
    {
        proof {
            self.lemma_claim_le_total(pool, account);
        }
        let slot = self.find(pool, account);
        let held = match slot {
            Some(i) => {
                proof {
                    lemma_claim_at(self.claims@, i as int);
                }
                self.claims[i].amount
            },
            None => 0,
        };
        if held < amount {
            return Err(Error::InsufficientBalance);
        }
        let total = self.total_liquidity(pool);
        self.write(slot, Claim { pool, account, amount: held - amount }, total - amount);
        Ok(())
    }
}

} // verus!
