//! The liquidity policy shared by both pool variants.
//!
//! Minting and redeeming liquidity shares follow the same rules on the
//! constant-product and the stable-swap pool, so both are computed here and
//! the pools only apply the resulting deltas to their own fields.
//!
//! * A deposit into an empty pool mints the geometric mean of the two
//!   amounts, rounded down.
//! * A deposit into a funded pool mints by the more constraining side of
//!   the current reserve ratio.
//! * A redemption pays out pro rata to the share of the supply redeemed,
//!   rounding down, in the pool's favour.

use vstd::prelude::*;

verus! {

use vstd::arithmetic::div_mod::lemma_div_is_ordered;
use vstd::arithmetic::div_mod::lemma_div_multiples_vanish;
use vstd::arithmetic::div_mod::lemma_div_pos_is_pos;
use vstd::arithmetic::div_mod::lemma_fundamental_div_mod;
use vstd::arithmetic::mul::lemma_mul_inequality;
use vstd::arithmetic::mul::lemma_mul_is_commutative;
use vstd::arithmetic::mul::lemma_mul_nonnegative;
use vstd::arithmetic::mul::lemma_mul_upper_bound;
use crate::arith::isqrt_u128;
use crate::arith::sqrt_floor;

/// The ways the shared liquidity policy can refuse an operation.
#[derive(Debug)]
pub enum LiquidityError {
    /// A zero amount was passed where a positive amount is required.
    AmountIsZero,
    /// More shares were redeemed than are outstanding.
    InsufficientLiquidity,
}

/// The number of shares minted for a deposit of `amount_one` and
/// `amount_two` into a pool holding `reserve_one` and `reserve_two` with
/// `supply` shares outstanding: the floor of the geometric mean on an empty
/// pool, and the more constraining pro-rata side otherwise.
pub open spec fn mint_amount(
    reserve_one: int,
    reserve_two: int,
    supply: int,
    amount_one: int,
    amount_two: int,
) -> int {
    if reserve_one == 0 && reserve_two == 0 {
        sqrt_floor(amount_one * amount_two)
    } else {
        vstd::math::min(
            amount_one * supply / reserve_one,
            amount_two * supply / reserve_two,
        )
    }
}

/// The amount of one asset paid out when `shares` of `supply` are redeemed
/// against a reserve of `reserve`: pro rata, rounded down.
pub open spec fn redeem_share(reserve: int, shares: int, supply: int) -> int {
    reserve * shares / supply
}

/// Computes the shares minted for a deposit, without touching any pool
/// state. Fails if and only if either amount is zero.
pub fn compute_mint(
    reserve_one: u64,
    reserve_two: u64,
    supply: u64,
    amount_one: u64,
    amount_two: u64,
) -> (r: Result<u64, LiquidityError>)
    requires
        (reserve_one == 0) == (reserve_two == 0),
        mint_amount(
            reserve_one as int,
            reserve_two as int,
            supply as int,
            amount_one as int,
            amount_two as int,
        ) <= u64::MAX,
    ensures
        (r matches Err(LiquidityError::AmountIsZero)) <==> (amount_one == 0 || amount_two == 0),
        r is Err ==> r matches Err(LiquidityError::AmountIsZero),
        r matches Ok(minted) ==> minted == mint_amount(
            reserve_one as int,
            reserve_two as int,
            supply as int,
            amount_one as int,
            amount_two as int,
        ),
{
    if amount_one == 0 || amount_two == 0 {
        return Err(LiquidityError::AmountIsZero);
    }
    if reserve_one == 0 && reserve_two == 0 {
        proof {
            lemma_mul_upper_bound(
                amount_one as int,
                u64::MAX as int,
                amount_two as int,
                u64::MAX as int,
            );
        }
        let product = (amount_one as u128) * (amount_two as u128);
        let minted = isqrt_u128(product);
        Ok(minted)
    } else {
        proof {
            lemma_mul_upper_bound(amount_one as int, u64::MAX as int, supply as int, u64::MAX as int);
            lemma_mul_upper_bound(amount_two as int, u64::MAX as int, supply as int, u64::MAX as int);
        }
        let share_one = ((amount_one as u128) * (supply as u128)) / (reserve_one as u128);
        let share_two = ((amount_two as u128) * (supply as u128)) / (reserve_two as u128);
        let minted = if share_one <= share_two {
            share_one
        } else {
            share_two
        };
        Ok(minted as u64)
    }
}

/// Computes the pro-rata payout for redeeming `shares`, without touching
/// any pool state. Fails on a zero request or one exceeding the supply;
/// each payout never exceeds its reserve.
pub fn compute_redeem(reserve_one: u64, reserve_two: u64, supply: u64, shares: u64) -> (r: Result<
    (u64, u64),
    LiquidityError,
>)
    ensures
        (r matches Err(LiquidityError::AmountIsZero)) <==> shares == 0,
        (r matches Err(LiquidityError::InsufficientLiquidity)) <==> (shares > 0 && shares
            > supply),
        (r is Ok) <==> (0 < shares <= supply),
        r matches Ok(amounts) ==> amounts.0 == redeem_share(
            reserve_one as int,
            shares as int,
            supply as int,
        ) && amounts.1 == redeem_share(reserve_two as int, shares as int, supply as int)
            && amounts.0 <= reserve_one && amounts.1 <= reserve_two,
{
    if shares == 0 {
        return Err(LiquidityError::AmountIsZero);
    }
    if shares > supply {
        return Err(LiquidityError::InsufficientLiquidity);
    }
    proof {
        lemma_payout_bounded(reserve_one as int, shares as int, supply as int);
        lemma_payout_bounded(reserve_two as int, shares as int, supply as int);
        lemma_mul_upper_bound(reserve_one as int, u64::MAX as int, shares as int, u64::MAX as int);
        lemma_mul_upper_bound(reserve_two as int, u64::MAX as int, shares as int, u64::MAX as int);
    }
    let amount_one = (((reserve_one as u128) * (shares as u128)) / (supply as u128)) as u64;
    let amount_two = (((reserve_two as u128) * (shares as u128)) / (supply as u128)) as u64;
    Ok((amount_one, amount_two))
}

/// Redeeming at most the whole supply can pay out at most the whole
/// reserve.
pub proof fn lemma_payout_bounded(reserve: int, shares: int, supply: int)
    requires
        0 <= reserve,
        0 < shares <= supply,
    ensures
        0 <= redeem_share(reserve, shares, supply) <= reserve,
{
    lemma_mul_nonnegative(reserve, shares);
    lemma_div_pos_is_pos(reserve * shares, supply);
    lemma_mul_inequality(shares, supply, reserve);
    lemma_mul_is_commutative(reserve, shares);
    lemma_mul_is_commutative(supply, reserve);
    lemma_div_is_ordered(reserve * shares, supply * reserve, supply);
    lemma_div_multiples_vanish(reserve, supply);
}

/// Adding liquidity and then removing exactly the minted shares never pays
/// out more of either asset than was deposited, and it restores the share
/// supply to its pre-deposit value; on a previously empty pool the deposit
/// comes back exactly.
pub proof fn lemma_liquidity_round_trip(
    reserve_one: int,
    reserve_two: int,
    supply: int,
    amount_one: int,
    amount_two: int,
    minted: int,
)
    requires
        0 < amount_one,
        0 < amount_two,
        0 <= reserve_one,
        0 <= reserve_two,
        (reserve_one == 0) <==> (reserve_two == 0),
        (supply == 0) <==> (reserve_one == 0 && reserve_two == 0),
        0 <= supply,
        minted == mint_amount(reserve_one, reserve_two, supply, amount_one, amount_two),
        0 < minted,
    ensures
        redeem_share(reserve_one + amount_one, minted, supply + minted) <= amount_one,
        redeem_share(reserve_two + amount_two, minted, supply + minted) <= amount_two,
        (supply + minted) - minted == supply,
        supply == 0 ==> redeem_share(reserve_one + amount_one, minted, supply + minted)
            == amount_one,
        supply == 0 ==> redeem_share(reserve_two + amount_two, minted, supply + minted)
            == amount_two,
{
    if supply == 0 {
        lemma_div_multiples_vanish(amount_one, minted);
        lemma_mul_is_commutative(amount_one, minted);
        lemma_div_multiples_vanish(amount_two, minted);
        lemma_mul_is_commutative(amount_two, minted);
    } else {
        lemma_round_trip_side(reserve_one, supply, amount_one, minted);
        lemma_round_trip_side(reserve_two, supply, amount_two, minted);
    }
}

/// One side of the round trip: if `minted` is at most the pro-rata mint of
/// `amount` against `reserve`, redeeming `minted` of the grown pool pays
/// back at most `amount`.
proof fn lemma_round_trip_side(reserve: int, supply: int, amount: int, minted: int)
    requires
        0 < reserve,
        0 < supply,
        0 < amount,
        0 < minted <= amount * supply / reserve,
    ensures
        redeem_share(reserve + amount, minted, supply + minted) <= amount,
{
    let q = amount * supply / reserve;
    lemma_fundamental_div_mod(amount * supply, reserve);
    assert(q * reserve <= amount * supply) by (nonlinear_arith)
        requires
            0 < reserve,
            amount * supply == reserve * q + (amount * supply) % reserve,
            (amount * supply) % reserve >= 0,
    ;
    assert(minted * reserve <= amount * supply) by (nonlinear_arith)
        requires
            0 < reserve,
            minted <= q,
            q * reserve <= amount * supply,
    ;
    assert((reserve + amount) * minted <= amount * (supply + minted)) by (nonlinear_arith)
        requires
            minted * reserve <= amount * supply,
    ;
    lemma_div_is_ordered((reserve + amount) * minted, amount * (supply + minted), supply + minted);
    lemma_mul_is_commutative(amount, supply + minted);
    lemma_div_multiples_vanish(amount, supply + minted);
}

} // verus!
