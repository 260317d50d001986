//! Pricing: how many liquidity units a deposit mints, what a burn pays out,
//! and what a swap returns. Every function here is a function of its
//! arguments alone and touches no state.

use vstd::prelude::*;
use crate::types::{Balance, Error};

verus! {

/// The denominator of a fee rate: a rate counts parts per quintillion.
pub const ACCURACY: u64 = 1_000_000_000_000_000_000;

/// The protocol's trading fee, 0.369 %, in parts per quintillion.
pub const NOURISH_CHAIN_FEE: u64 = 3_690_000_000_000_000;

/// The smaller of two amounts.
pub open spec fn spec_min(a: int, b: int) -> int {
    if a <= b {
        a
    } else {
        b
    }
}

/// The parts per quintillion that a rate stands for: a rate above one
/// counts as one.
pub open spec fn spec_parts(fee_rate: u64) -> int {
    if fee_rate <= ACCURACY {
        fee_rate as int
    } else {
        ACCURACY as int
    }
}

/// The fee on an amount: the amount times the rate, rounded down.
pub open spec fn spec_fee(fee_rate: u64, amount: Balance) -> int {
    (amount as int * spec_parts(fee_rate)) / (ACCURACY as int)
}

/// The product of two reserves, the quantity that a swap is priced to keep.
pub open spec fn spec_product(reserve_a: int, reserve_b: int) -> int {
    reserve_a * reserve_b
}

/// The liquidity units that a deposit mints.
///
/// Into an empty pool the smaller of the two amounts. Otherwise each amount is
/// valued in the other asset at the pool's reserves, rounded down, and the
/// smaller value counts. A product beyond `Balance`, or a pool that holds
/// only one of its assets, is a `CalculationError`.
pub open spec fn spec_quote_add_liquidity(
    reserve_a: Balance,
    reserve_b: Balance,
    amount_a: Balance,
    amount_b: Balance,
) -> Result<Balance, Error> {
    if reserve_a == 0 && reserve_b == 0 {
        Ok(spec_min(amount_a as int, amount_b as int) as Balance)
    } else if reserve_a == 0 || reserve_b == 0 || amount_a * reserve_b > Balance::MAX || amount_b
        * reserve_a > Balance::MAX {
        Err(Error::CalculationError)
    } else {
        Ok(
            spec_min(
                (amount_a * reserve_b) / (reserve_a as int),
                (amount_b * reserve_a) / (reserve_b as int),
            ) as Balance,
        )
    }
}

/// The amounts that burning liquidity units pays out: of each reserve the
/// share that the burned units are of all units, rounded down.
pub open spec fn spec_quote_remove_liquidity(
    reserve_a: Balance,
    reserve_b: Balance,
    total_liquidity: Balance,
    liquidity_burned: Balance,
) -> Result<(Balance, Balance), Error> {
    if total_liquidity == 0 {
        Err(Error::PoolDoesNotExist)
    } else if liquidity_burned * reserve_a > Balance::MAX || liquidity_burned * reserve_b
        > Balance::MAX {
        Err(Error::CalculationError)
    } else {
        Ok(
            (
                ((liquidity_burned * reserve_a) / (total_liquidity as int)) as Balance,
                ((liquidity_burned * reserve_b) / (total_liquidity as int)) as Balance,
            ),
        )
    }
}

/// The amount that goes into the pricing rule once the fee is taken.
pub open spec fn spec_net_in(amount_in: Balance, fee_rate: u64) -> int {
    amount_in - spec_fee(fee_rate, amount_in)
}

/// What a swap returns, and its fee.
///
/// The fee is taken from the amount paid. The reserve of the asset received
/// then falls to the product of the two reserves divided by the reserve of the
/// asset paid plus the net amount, rounded down; the difference is paid out.
pub open spec fn spec_quote_swap(
    reserve_in: Balance,
    reserve_out: Balance,
    amount_in: Balance,
    fee_rate: u64,
) -> Result<(Balance, Balance), Error> {
    let fee = spec_fee(fee_rate, amount_in);
    let product = spec_product(reserve_in as int, reserve_out as int);
    let divisor = reserve_in + spec_net_in(amount_in, fee_rate);
    if product > Balance::MAX || divisor > Balance::MAX || divisor == 0 {
        Err(Error::CalculationError)
    } else {
        Ok(((reserve_out - product / divisor) as Balance, fee as Balance))
    }
}

/// Division of a natural number by a positive one rounds down.
pub proof fn lemma_floor_division(x: int, d: int)
    requires
        0 <= x,
        0 < d,
    ensures
        0 <= x / d,
        0 <= x % d < d,
        x == d * (x / d) + x % d,
        d * (x / d) <= x < d * (x / d) + d,
{
    vstd::arithmetic::div_mod::lemma_fundamental_div_mod(x, d);
    vstd::arithmetic::div_mod::lemma_mod_bound(x, d);
    vstd::arithmetic::div_mod::lemma_div_pos_is_pos(x, d);
}

/// A quotient is at most `bound` exactly when the dividend stays under
/// `(bound + 1) * d`.
pub proof fn lemma_quotient_bound(x: int, d: int, bound: int)
    requires
        0 <= x,
        0 < d,
        0 <= bound,
    ensures
        x / d <= bound <==> x < (bound + 1) * d,
{
    lemma_floor_division(x, d);
    let q = x / d;
    if q <= bound {
        assert(d * q + d <= (bound + 1) * d) by (nonlinear_arith)
            requires
                q <= bound,
                0 < d,
        ;
    } else {
        assert(d * q >= (bound + 1) * d) by (nonlinear_arith)
            requires
                q >= bound + 1,
                0 < d,
        ;
    }
}

/// A fee never exceeds the amount it is taken from.
pub proof fn lemma_fee_bounded(fee_rate: u64, amount: Balance)
    ensures
        0 <= spec_fee(fee_rate, amount) <= amount,
        0 <= spec_net_in(amount, fee_rate) <= amount,
{
    let parts = spec_parts(fee_rate);
    let accuracy = ACCURACY as int;
    let x = amount as int * parts;
    assert(0 <= x <= amount as int * accuracy) by (nonlinear_arith)
        requires
            0 <= parts <= accuracy,
            0 <= amount as int,
            x == amount as int * parts,
    ;
    lemma_floor_division(x, accuracy);
    assert(amount as int * accuracy < (amount as int + 1) * accuracy) by (nonlinear_arith)
        requires
            0 < accuracy,
    ;
    lemma_quotient_bound(x, accuracy, amount as int);
}

/// What a swap leaves of the reserve paid out never exceeds that reserve.
pub proof fn lemma_swap_quotient_bounded(reserve_in: int, reserve_out: int, divisor: int)
    requires
        0 <= reserve_in <= divisor,
        0 <= reserve_out,
        0 < divisor,
    ensures
        0 <= spec_product(reserve_in, reserve_out) / divisor <= reserve_out,
{
    let product = spec_product(reserve_in, reserve_out);
    assert(0 <= product <= reserve_out * divisor < (reserve_out + 1) * divisor)
        by (nonlinear_arith)
        requires
            0 <= reserve_in <= divisor,
            0 <= reserve_out,
            0 < divisor,
            product == reserve_in * reserve_out,
    ;
    lemma_floor_division(product, divisor);
    lemma_quotient_bound(product, divisor, reserve_out);
}

/// A burn of no more units than exist pays out no more than the reserve.
pub proof fn lemma_share_bounded(reserve: int, total: int, burned: int)
    requires
        0 <= reserve,
        0 <= burned <= total,
        0 < total,
    ensures
        0 <= (burned * reserve) / total <= reserve,
{
    let x = burned * reserve;
    assert(0 <= x <= reserve * total < (reserve + 1) * total) by (nonlinear_arith)
        requires
            0 <= reserve,
            0 <= burned <= total,
            0 < total,
            x == burned * reserve,
    ;
    lemma_floor_division(x, total);
    lemma_quotient_bound(x, total, reserve);
}

/// How a swap changes the product of the reserves.
///
/// The reserve paid into grows by the whole amount, fee included; the reserve
/// paid out of falls to the rounded quotient. The product after the swap is
/// the product before it, less the remainder of that division, plus the fee
/// times what is left of the reserve paid out. So, but for what the rounding
/// dropped, the product never falls; it falls by less than the divisor; and
/// it does not fall at all exactly when the fee makes up for the remainder.
pub proof fn lemma_swap_product(
    reserve_in: Balance,
    reserve_out: Balance,
    amount_in: Balance,
    fee_rate: u64,
    amount_out: Balance,
    fee: Balance,
)
    requires
        spec_quote_swap(reserve_in, reserve_out, amount_in, fee_rate) == Ok::<
            (Balance, Balance),
            Error,
        >((amount_out, fee)),
    ensures
        amount_out <= reserve_out,
        fee <= amount_in,
        ({
            let before = spec_product(reserve_in as int, reserve_out as int);
            let after = spec_product(reserve_in + amount_in, reserve_out - amount_out);
            let divisor = reserve_in + amount_in - fee;
            &&& divisor > 0
            &&& after == before - before % divisor + fee * (reserve_out - amount_out)
            &&& after >= before - before % divisor
            &&& after + divisor > before
            &&& after >= before <==> fee * (reserve_out - amount_out) >= before % divisor
        }),
{
    lemma_fee_bounded(fee_rate, amount_in);
    let before = spec_product(reserve_in as int, reserve_out as int);
    let divisor = reserve_in + amount_in - fee;
    lemma_swap_quotient_bounded(reserve_in as int, reserve_out as int, divisor);
    lemma_floor_division(before, divisor);
    let left = before / divisor;
    assert(reserve_out - amount_out == left);
    assert((divisor + fee) * left == divisor * left + fee * left) by (nonlinear_arith);
    assert(fee * left >= 0) by (nonlinear_arith)
        requires
            fee >= 0,
            left >= 0,
    ;
}

/// The product of the reserves does not fall in a swap whose fee makes up for
/// what the division dropped: in particular where the division left no
/// remainder.
pub proof fn lemma_swap_keeps_product(
    reserve_in: Balance,
    reserve_out: Balance,
    amount_in: Balance,
    fee_rate: u64,
    amount_out: Balance,
    fee: Balance,
)
    requires
        spec_quote_swap(reserve_in, reserve_out, amount_in, fee_rate) == Ok::<
            (Balance, Balance),
            Error,
        >((amount_out, fee)),
        spec_product(reserve_in as int, reserve_out as int) % (reserve_in + amount_in - fee) <= fee
            * (reserve_out - amount_out),
    ensures
        spec_product(reserve_in + amount_in, reserve_out - amount_out) >= spec_product(
            reserve_in as int,
            reserve_out as int,
        ),
{
    lemma_swap_product(reserve_in, reserve_out, amount_in, fee_rate, amount_out, fee);
}

/// A deposit never lowers the product of the reserves.
pub proof fn lemma_deposit_grows_product(
    reserve_a: Balance,
    reserve_b: Balance,
    amount_a: Balance,
    amount_b: Balance,
)
    ensures
        spec_product(reserve_a + amount_a, reserve_b + amount_b) >= spec_product(
            reserve_a as int,
            reserve_b as int,
        ),
{
    assert((reserve_a + amount_a) * (reserve_b + amount_b) >= reserve_a * reserve_b)
        by (nonlinear_arith);
}

/// A withdrawal leaves the pool at least its share of each reserve, and so
/// at least the square of that share of the product: the rounding is in the
/// pool's favour.
pub proof fn lemma_withdrawal_scales_product(
    reserve_a: Balance,
    reserve_b: Balance,
    total: Balance,
    burned: Balance,
    amount_a: Balance,
    amount_b: Balance,
)
    requires
        spec_quote_remove_liquidity(reserve_a, reserve_b, total, burned) == Ok::<
            (Balance, Balance),
            Error,
        >((amount_a, amount_b)),
        burned <= total,
    ensures
        amount_a <= reserve_a,
        amount_b <= reserve_b,
        (reserve_a - amount_a) * total >= reserve_a * (total - burned),
        (reserve_b - amount_b) * total >= reserve_b * (total - burned),
        spec_product(reserve_a - amount_a, reserve_b - amount_b) * (total * total) >= spec_product(
            reserve_a as int,
            reserve_b as int,
        ) * ((total - burned) * (total - burned)),
{
    let t = total as int;
    let l = burned as int;
    let ra = reserve_a as int;
    let rb = reserve_b as int;
    let xa = amount_a as int;
    let xb = amount_b as int;
    lemma_share_bounded(ra, t, l);
    lemma_share_bounded(rb, t, l);
    lemma_floor_division(l * ra, t);
    lemma_floor_division(l * rb, t);
    assert(xa == (l * ra) / t);
    assert(xb == (l * rb) / t);
    assert((ra - xa) * t >= ra * (t - l)) by (nonlinear_arith)
        requires
            t * xa <= l * ra,
    ;
    assert((rb - xb) * t >= rb * (t - l)) by (nonlinear_arith)
        requires
            t * xb <= l * rb,
    ;
    let ka = (ra - xa) * t;
    let kb = (rb - xb) * t;
    let ma = ra * (t - l);
    let mb = rb * (t - l);
    assert(ma >= 0 && mb >= 0) by (nonlinear_arith)
        requires
            ma == ra * (t - l),
            mb == rb * (t - l),
            ra >= 0,
            rb >= 0,
            t - l >= 0,
    ;
    assert(ka * kb >= ma * mb) by (nonlinear_arith)
        requires
            ka >= ma,
            kb >= mb,
            ma >= 0,
            mb >= 0,
    ;
    assert(ka * kb == ((ra - xa) * (rb - xb)) * (t * t)) by (nonlinear_arith)
        requires
            ka == (ra - xa) * t,
            kb == (rb - xb) * t,
    ;
    assert(ma * mb == (ra * rb) * ((t - l) * (t - l))) by (nonlinear_arith)
        requires
            ma == ra * (t - l),
            mb == rb * (t - l),
    ;
}

/// Depositing and at once burning the units just minted.
///
/// `total` is the number of units before the deposit. Of each asset the burn
/// returns no more than was deposited exactly when
/// `minted * reserve < (amount + 1) * total + minted`, with the reserve as it
/// was before the deposit.
pub proof fn lemma_round_trip(
    reserve_a: Balance,
    reserve_b: Balance,
    total: Balance,
    amount_a: Balance,
    amount_b: Balance,
    minted: Balance,
    back_a: Balance,
    back_b: Balance,
)
    requires
        spec_quote_add_liquidity(reserve_a, reserve_b, amount_a, amount_b) == Ok::<Balance, Error>(
            minted,
        ),
        reserve_a + amount_a <= Balance::MAX,
        reserve_b + amount_b <= Balance::MAX,
        total + minted <= Balance::MAX,
        spec_quote_remove_liquidity(
            (reserve_a + amount_a) as Balance,
            (reserve_b + amount_b) as Balance,
            (total + minted) as Balance,
            minted,
        ) == Ok::<(Balance, Balance), Error>((back_a, back_b)),
    ensures
        back_a <= amount_a <==> minted * reserve_a < (amount_a + 1) * total + minted,
        back_b <= amount_b <==> minted * reserve_b < (amount_b + 1) * total + minted,
{
    lemma_round_trip_side(reserve_a as int, amount_a as int, total as int, minted as int);
    lemma_round_trip_side(reserve_b as int, amount_b as int, total as int, minted as int);
}

/// Depositing and at once burning the units just minted returns no more of
/// either asset than was deposited, where the units minted are no larger a
/// part of the units before than the deposit is of the reserve before.
pub proof fn lemma_round_trip_returns_no_more(
    reserve_a: Balance,
    reserve_b: Balance,
    total: Balance,
    amount_a: Balance,
    amount_b: Balance,
    minted: Balance,
    back_a: Balance,
    back_b: Balance,
)
    requires
        spec_quote_add_liquidity(reserve_a, reserve_b, amount_a, amount_b) == Ok::<Balance, Error>(
            minted,
        ),
        reserve_a + amount_a <= Balance::MAX,
        reserve_b + amount_b <= Balance::MAX,
        total + minted <= Balance::MAX,
        spec_quote_remove_liquidity(
            (reserve_a + amount_a) as Balance,
            (reserve_b + amount_b) as Balance,
            (total + minted) as Balance,
            minted,
        ) == Ok::<(Balance, Balance), Error>((back_a, back_b)),
        minted * reserve_a <= amount_a * total,
        minted * reserve_b <= amount_b * total,
    ensures
        back_a <= amount_a,
        back_b <= amount_b,
{
    lemma_round_trip(reserve_a, reserve_b, total, amount_a, amount_b, minted, back_a, back_b);
    assert((amount_a + 1) * total == amount_a * total + total) by (nonlinear_arith);
    assert((amount_b + 1) * total == amount_b * total + total) by (nonlinear_arith);
}

/// One asset's side of a deposit followed by a burn of the units minted.
proof fn lemma_round_trip_side(reserve: int, amount: int, total: int, minted: int)
    requires
        0 <= reserve,
        0 <= amount,
        0 <= total,
        0 <= minted,
        0 < total + minted,
    ensures
        (minted * (reserve + amount)) / (total + minted) <= amount <==> minted * reserve < (amount
            + 1) * total + minted,
{
    let x = minted * (reserve + amount);
    let units = total + minted;
    assert(0 <= x) by (nonlinear_arith)
        requires
            x == minted * (reserve + amount),
            0 <= minted,
            0 <= reserve + amount,
    ;
    lemma_quotient_bound(x, units, amount);
    assert(x < (amount + 1) * units <==> minted * reserve < (amount + 1) * total + minted)
        by (nonlinear_arith)
        requires
            x == minted * (reserve + amount),
            units == total + minted,
    ;
}

/// A first deposit into a pool without units, burned at once, returns exactly
/// what was deposited.
pub proof fn lemma_round_trip_first_deposit(
    amount_a: Balance,
    amount_b: Balance,
    minted: Balance,
    back_a: Balance,
    back_b: Balance,
)
    requires
        spec_quote_add_liquidity(0, 0, amount_a, amount_b) == Ok::<Balance, Error>(minted),
        spec_quote_remove_liquidity(amount_a, amount_b, minted, minted) == Ok::<
            (Balance, Balance),
            Error,
        >((back_a, back_b)),
    ensures
        back_a == amount_a,
        back_b == amount_b,
{
    vstd::arithmetic::div_mod::lemma_div_multiples_vanish(amount_a as int, minted as int);
    vstd::arithmetic::div_mod::lemma_div_multiples_vanish(amount_b as int, minted as int);
    assert(minted * amount_a == (minted as int) * (amount_a as int));
    assert(minted * amount_b == (minted as int) * (amount_b as int));
}

/// Takes the fee on an amount.
///
/// Calls `sp_arithmetic::Perquintill::from_parts` on the rate and
/// `Perquintill::mul_floor` on the amount. The first caps the rate at one; the
/// second multiplies the whole quintillions of the amount and the remainder
/// apart and adds the two, which is the product of amount and rate divided by
/// a quintillion and rounded down, with no intermediate value beyond `u128`.
#[verifier::external_body]
fn mul_floor(fee_rate: u64, amount: Balance) -> (fee: Balance)
    ensures
        fee as int == spec_fee(fee_rate, amount),
{
    sp_arithmetic::Perquintill::from_parts(fee_rate).mul_floor(amount)
}

/// The fee that a swap of `amount` pays at `fee_rate`.
pub fn trading_fee(fee_rate: u64, amount: Balance) -> (fee: Balance)
    ensures
        fee as int == spec_fee(fee_rate, amount),
        fee <= amount,
{
    proof {
        lemma_fee_bounded(fee_rate, amount);
    }
    mul_floor(fee_rate, amount)
}

/// Quotes the liquidity units that a deposit of `amount_a` and `amount_b`
/// mints in a pool that holds `reserve_a` and `reserve_b`.
pub fn quote_add_liquidity(
    reserve_a: Balance,
    reserve_b: Balance,
    amount_a: Balance,
    amount_b: Balance,
) -> (result: Result<Balance, Error>)
    ensures
        result == spec_quote_add_liquidity(reserve_a, reserve_b, amount_a, amount_b),
{
    if reserve_a == 0 && reserve_b == 0 {
        return Ok(if amount_a <= amount_b { amount_a } else { amount_b });
    }
    let product_a = match amount_a.checked_mul(reserve_b) {
        Some(p) => p,
        None => { return Err(Error::CalculationError); },
    };
    let liquidity_a = match product_a.checked_div(reserve_a) {
        Some(q) => q,
        None => { return Err(Error::CalculationError); },
    };
    let product_b = match amount_b.checked_mul(reserve_a) {
        Some(p) => p,
        None => { return Err(Error::CalculationError); },
    };
    let liquidity_b = match product_b.checked_div(reserve_b) {
        Some(q) => q,
        None => { return Err(Error::CalculationError); },
    };
    Ok(if liquidity_a <= liquidity_b { liquidity_a } else { liquidity_b })
}

/// Quotes what burning `liquidity_burned` of `total_liquidity` units pays out
/// of a pool that holds `reserve_a` and `reserve_b`.
pub fn quote_remove_liquidity(
    reserve_a: Balance,
    reserve_b: Balance,
    total_liquidity: Balance,
    liquidity_burned: Balance,
) -> (result: Result<(Balance, Balance), Error>)
    ensures
        result == spec_quote_remove_liquidity(
            reserve_a,
            reserve_b,
            total_liquidity,
            liquidity_burned,
        ),
{
    if total_liquidity == 0 {
        return Err(Error::PoolDoesNotExist);
    }
    let product_a = match liquidity_burned.checked_mul(reserve_a) {
        Some(p) => p,
        None => { return Err(Error::CalculationError); },
    };
    let product_b = match liquidity_burned.checked_mul(reserve_b) {
        Some(p) => p,
        None => { return Err(Error::CalculationError); },
    };
    Ok((product_a / total_liquidity, product_b / total_liquidity))
}

/// Quotes a swap of `amount_in` against a pool that holds `reserve_in` of the
/// asset paid and `reserve_out` of the asset received: the amount paid out,
/// and the fee.
pub fn quote_swap(reserve_in: Balance, reserve_out: Balance, amount_in: Balance, fee_rate: u64) -> (result:
    Result<(Balance, Balance), Error>)
    ensures
        result == spec_quote_swap(reserve_in, reserve_out, amount_in, fee_rate),
{
    let fee = trading_fee(fee_rate, amount_in);
    let net = amount_in - fee;
    let product = match reserve_in.checked_mul(reserve_out) {
        Some(p) => p,
        None => { return Err(Error::CalculationError); },
    };
    let divisor = match reserve_in.checked_add(net) {
        Some(d) => d,
        None => { return Err(Error::CalculationError); },
    };
    let remaining = match product.checked_div(divisor) {
        Some(q) => q,
        None => { return Err(Error::CalculationError); },
    };
    proof {
        lemma_swap_quotient_bounded(reserve_in as int, reserve_out as int, divisor as int);
    }
    Ok((reserve_out - remaining, fee))
}

} // verus!
