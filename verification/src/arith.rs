//! Shared integer arithmetic: basis-point fees and integer square roots.
//!
//! Both pool variants charge the same fee, and the bootstrap liquidity rule
//! mints the floor of a square root, so these definitions are kept in one
//! place and stated over mathematical integers.

use vstd::prelude::*;

verus! {

use vstd::arithmetic::div_mod::lemma_div_is_ordered;
use vstd::arithmetic::div_mod::lemma_div_multiples_vanish;
use vstd::arithmetic::div_mod::lemma_div_pos_is_pos;
use vstd::arithmetic::div_mod::lemma_fundamental_div_mod_converse;
use vstd::arithmetic::mul::lemma_mul_inequality;
use vstd::arithmetic::mul::lemma_mul_nonnegative;
use vstd::arithmetic::mul::lemma_mul_upper_bound;

/// Fee rates are expressed in basis points; 10000 basis points are 100%.
pub const BPS_DENOMINATOR: u64 = 10000;

/// The fee charged on `amount_in` at a rate of `fee_bps` basis points,
/// rounded down.
pub open spec fn fee_of(amount_in: int, fee_bps: int) -> int {
    amount_in * fee_bps / (BPS_DENOMINATOR as int)
}

/// A fee at a rate below 100% never exceeds the amount it is charged on,
/// and is strictly smaller whenever the amount is positive.
pub proof fn lemma_fee_bounds(amount_in: int, fee_bps: int)
    requires
        0 <= amount_in,
        0 <= fee_bps < BPS_DENOMINATOR,
    ensures
        0 <= fee_of(amount_in, fee_bps) <= amount_in,
        amount_in > 0 ==> fee_of(amount_in, fee_bps) < amount_in,
{
    let d = BPS_DENOMINATOR as int;
    lemma_mul_nonnegative(amount_in, fee_bps);
    lemma_div_pos_is_pos(amount_in * fee_bps, d);
    lemma_mul_inequality(fee_bps, d, amount_in);
    assert(amount_in * fee_bps == fee_bps * amount_in) by (nonlinear_arith);
    lemma_div_is_ordered(amount_in * fee_bps, d * amount_in, d);
    lemma_div_multiples_vanish(amount_in, d);
    if amount_in > 0 {
        lemma_mul_inequality(fee_bps, d - 1, amount_in);
        assert((d - 1) * amount_in <= d * amount_in - 1) by (nonlinear_arith)
            requires
                amount_in >= 1,
        ;
        lemma_div_is_ordered(amount_in * fee_bps, d * amount_in - 1, d);
        lemma_fundamental_div_mod_converse(d * amount_in - 1, d, amount_in - 1, d - 1);
    }
}

/// Computes the basis-point fee on `amount_in`, widening to 128 bits so the
/// intermediate product cannot overflow.
pub fn fee_for(amount_in: u64, fee_bps: u64) -> (fee: u64)
    requires
        fee_bps < BPS_DENOMINATOR,
    ensures
        fee == fee_of(amount_in as int, fee_bps as int),
        fee <= amount_in,
        amount_in > 0 ==> fee < amount_in,
{
    proof {
        lemma_fee_bounds(amount_in as int, fee_bps as int);
        lemma_mul_upper_bound(amount_in as int, u64::MAX as int, fee_bps as int, (
        BPS_DENOMINATOR - 1) as int);
    }
    (((amount_in as u128) * (fee_bps as u128)) / (BPS_DENOMINATOR as u128)) as u64
}

/// Holds when `r` is the integer square root of `n`: the greatest integer
/// whose square does not exceed `n`.
pub open spec fn sqrt_bounds(r: int, n: int) -> bool {
    0 <= r && r * r <= n && n < (r + 1) * (r + 1)
}

/// The integer square root of `n`, as a mathematical function.
pub open spec fn sqrt_floor(n: int) -> int {
    choose|r: int| #[trigger] sqrt_bounds(r, n)
}

/// The integer square root is unique, so any witness equals `sqrt_floor`.
pub proof fn lemma_sqrt_unique(r: int, n: int)
    requires
        sqrt_bounds(r, n),
    ensures
        sqrt_floor(n) == r,
{
    let w = sqrt_floor(n);
    assert(sqrt_bounds(w, n));
    if w < r {
        assert(false) by (nonlinear_arith)
            requires
                sqrt_bounds(w, n),
                sqrt_bounds(r, n),
                w < r,
        ;
    }
    if r < w {
        assert(false) by (nonlinear_arith)
            requires
                sqrt_bounds(w, n),
                sqrt_bounds(r, n),
                r < w,
        ;
    }
}

/// Binary search for the integer square root of a 128-bit value. The root
/// of any 128-bit integer fits in 64 bits.
pub fn isqrt_u128(n: u128) -> (r: u64)
    ensures
        sqrt_bounds(r as int, n as int),
        r == sqrt_floor(n as int),
{
    let mut lo: u128 = 0;
    let mut hi: u128 = u64::MAX as u128;
    proof {
        assert((u64::MAX as int + 1) * (u64::MAX as int + 1) > u128::MAX as int);
    }
    while lo < hi
        invariant
            lo <= hi <= u64::MAX,
            lo * lo <= n,
            n < (hi + 1) * (hi + 1),
        decreases hi - lo,
    {
        let mid = lo + (hi - lo + 1) / 2;
        proof {
            lemma_mul_upper_bound(mid as int, u64::MAX as int, mid as int, u64::MAX as int);
        }
        let sq = mid * mid;
        if sq <= n {
            lo = mid;
        } else {
            hi = mid - 1;
        }
    }
    proof {
        lemma_sqrt_unique(lo as int, n as int);
    }
    lo as u64
}

} // verus!
