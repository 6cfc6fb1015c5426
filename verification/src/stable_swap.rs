//! A stable-swap pool over the invariant curve `x^3*y + y^3*x = k`.
//!
//! A swap adds the fee-reduced input to one reserve and solves the cubic
//! invariant for the new opposite reserve. The curve has no closed-form
//! inverse, so the solve is a search for the least integer `new_y` that
//! keeps the invariant at or above its pre-swap value; the trader receives
//! `y - new_y`, so all rounding favours the pool.

use vstd::prelude::*;

verus! {

use crate::arith::fee_for;
use crate::arith::fee_of;
use crate::arith::BPS_DENOMINATOR;
use crate::liquidity::compute_mint;
use crate::liquidity::compute_redeem;
use crate::liquidity::mint_amount;
use crate::liquidity::redeem_share;
use crate::liquidity::LiquidityError;

/// Reserves are capped so that `x^3*y + y^3*x` always fits in 128-bit
/// intermediate arithmetic (the cap's fourth power is below `2^127`).
pub const MAX_STABLE_RESERVE: u64 = 3_000_000_000;

/// The stable-swap invariant `x^3*y + y^3*x`, written over mathematical
/// integers.
pub open spec fn stable_curve(x: int, y: int) -> int {
    x * y * y * y + x * x * x * y
}

/// Holds when `m` is the least non-negative integer that keeps the curve at
/// input reserve `x_new` at or above `k`; `m` is the ceiling of the real
/// root of `x_new*m^3 + x_new^3*m = k`.
pub open spec fn ceil_root_ok(x_new: int, k: int, m: int) -> bool {
    0 <= m && stable_curve(x_new, m) >= k && (m > 0 ==> stable_curve(x_new, m - 1) < k)
}

proof fn lemma_cubic_mono_in_y(x: int, y1: int, y2: int)
    by (nonlinear_arith)
    requires
        0 <= x,
        0 <= y1 <= y2,
    ensures
        x * y1 * y1 * y1 + x * x * x * y1 <= x * y2 * y2 * y2 + x * x * x * y2,
{
}

proof fn lemma_cubic_mono_in_x(x1: int, x2: int, y: int)
    by (nonlinear_arith)
    requires
        0 <= x1 <= x2,
        0 <= y,
    ensures
        x1 * y * y * y + x1 * x1 * x1 * y <= x2 * y * y * y + x2 * x2 * x2 * y,
{
}

/// With the input reserve fixed, the curve value grows with the opposite
/// reserve.
pub proof fn lemma_stable_curve_mono_y(x: int, y1: int, y2: int)
    requires
        0 <= x,
        0 <= y1 <= y2,
    ensures
        stable_curve(x, y1) <= stable_curve(x, y2),
{
    lemma_cubic_mono_in_y(x, y1, y2);
}

/// With the opposite reserve fixed, the curve value grows with the input
/// reserve.
pub proof fn lemma_stable_curve_mono_x(x1: int, x2: int, y: int)
    requires
        0 <= x1 <= x2,
        0 <= y,
    ensures
        stable_curve(x1, y) <= stable_curve(x2, y),
{
    lemma_cubic_mono_in_x(x1, x2, y);
}

/// The curve does not depend on the order of the two reserves.
pub proof fn lemma_stable_curve_symmetric(x: int, y: int)
    ensures
        stable_curve(x, y) == stable_curve(y, x),
{
    assert(x * y * y * y + x * x * x * y == y * x * x * x + y * y * y * x) by (nonlinear_arith);
}

/// The ceiling root is unique: any two integers satisfying `ceil_root_ok`
/// for the same curve are equal.
pub proof fn lemma_ceil_root_unique(x_new: int, k: int, m1: int, m2: int)
    requires
        0 <= x_new,
        ceil_root_ok(x_new, k, m1),
        ceil_root_ok(x_new, k, m2),
    ensures
        m1 == m2,
{
    if m1 < m2 {
        lemma_stable_curve_mono_y(x_new, m1, m2 - 1);
    }
    if m2 < m1 {
        lemma_stable_curve_mono_y(x_new, m2, m1 - 1);
    }
}

/// Evaluates the invariant curve in 128-bit arithmetic; the reserve cap
/// keeps every intermediate product in range.
fn stable_curve_eval(x: u64, y: u64) -> (v: u128)
    requires
        x <= MAX_STABLE_RESERVE,
        y <= MAX_STABLE_RESERVE,
    ensures
        v == stable_curve(x as int, y as int),
{
    let xw = x as u128;
    let yw = y as u128;
    proof {
        assert(xw * yw <= 9_000_000_000_000_000_000
            && xw * yw * yw <= 27_000_000_000_000_000_000_000_000_000
            && xw * yw * yw * yw <= 81_000_000_000_000_000_000_000_000_000_000_000_000
            && xw * xw <= 9_000_000_000_000_000_000
            && xw * xw * xw <= 27_000_000_000_000_000_000_000_000_000
            && xw * xw * xw * yw <= 81_000_000_000_000_000_000_000_000_000_000_000_000)
            by (nonlinear_arith)
            requires
                xw <= 3_000_000_000,
                yw <= 3_000_000_000,
        ;
    }
    xw * yw * yw * yw + xw * xw * xw * yw
}

/// Binary search for the least `m` with `stable_curve(x_new, m) >= k`,
/// starting from an upper bracket `y_start` known to satisfy the bound.
fn solve_ceil_root(x_new: u64, y_start: u64, k: u128) -> (m: u64)
    requires
        1 <= x_new <= MAX_STABLE_RESERVE,
        y_start <= MAX_STABLE_RESERVE,
        stable_curve(x_new as int, y_start as int) >= k,
    ensures
        m <= y_start,
        ceil_root_ok(x_new as int, k as int, m as int),
{
    let mut lo: u64 = 0;
    let mut hi: u64 = y_start;
    while lo < hi
        invariant
            lo <= hi <= y_start <= MAX_STABLE_RESERVE,
            1 <= x_new <= MAX_STABLE_RESERVE,
            stable_curve(x_new as int, hi as int) >= k,
            lo > 0 ==> stable_curve(x_new as int, lo as int - 1) < k,
        decreases hi - lo,
    {
        let mid = lo + (hi - lo) / 2;
        let v = stable_curve_eval(x_new, mid);
        if v >= k {
            hi = mid;
        } else {
            lo = mid + 1;
        }
    }
    lo
}

/// The ways a stable-swap operation can fail. On every failure the pool is
/// left exactly as it was.
#[derive(Debug)]
pub enum StableSwapError {
    /// A zero amount was passed where a positive amount is required.
    AmountIsZero,
    /// The operation would drain the opposite reserve, produce no output,
    /// or redeem more shares than exist.
    InsufficientLiquidity,
}

/// A stable-swap pool: two reserves, a basis-point fee rate, per-asset
/// accrued fees, and the outstanding liquidity-share supply.
pub struct StableSwap {
    pub token_one: String,
    pub token_two: String,
    pub reserve_one: u64,
    pub reserve_two: u64,
    pub fee: u64,
    pub fee_one: u64,
    pub fee_two: u64,
    pub total_supply: u64,
}

impl StableSwap {
    /// The reserve of the asset being paid in.
    pub open spec fn spec_reserve_in(self, token_in_is_one: bool) -> int {
        if token_in_is_one {
            self.reserve_one as int
        } else {
            self.reserve_two as int
        }
    }

    /// The reserve of the asset being paid out.
    pub open spec fn spec_reserve_out(self, token_in_is_one: bool) -> int {
        if token_in_is_one {
            self.reserve_two as int
        } else {
            self.reserve_one as int
        }
    }

    /// The accrued-fee counter of the input asset.
    pub open spec fn spec_fee_in(self, token_in_is_one: bool) -> int {
        if token_in_is_one {
            self.fee_one as int
        } else {
            self.fee_two as int
        }
    }

    /// The accrued-fee counter of the output asset.
    pub open spec fn spec_fee_out(self, token_in_is_one: bool) -> int {
        if token_in_is_one {
            self.fee_two as int
        } else {
            self.fee_one as int
        }
    }

    /// The input reserve after the fee-reduced input amount is added.
    pub open spec fn spec_new_x(self, amount_in: int, token_in_is_one: bool) -> int {
        self.spec_reserve_in(token_in_is_one) + amount_in - fee_of(amount_in, self.fee as int)
    }

    /// The invariant value of the current reserves, oriented by input side.
    pub open spec fn spec_k(self, token_in_is_one: bool) -> int {
        stable_curve(self.spec_reserve_in(token_in_is_one), self.spec_reserve_out(token_in_is_one))
    }

    /// The token identifiers and the fee rate of the two pools agree.
    pub open spec fn same_pair(self, other: StableSwap) -> bool {
        self.token_one == other.token_one && self.token_two == other.token_two && self.fee
            == other.fee
    }

    /// The outstanding liquidity-share supply.
    pub fn total_supply(&self) -> (supply: u64)
        ensures
            supply == self.total_supply,
    {
        self.total_supply
    }

    /// Swaps `amount_in` of one asset for the other along the cubic curve.
    ///
    /// The fee-reduced input is added to the input reserve and the opposite
    /// reserve is lowered to the least value that keeps the invariant at or
    /// above its pre-swap value; the difference is paid out. The full input
    /// amount (fee included) enters the reserve, and the fee is accrued to
    /// the input asset's counter. A zero input, a solve that reaches zero,
    /// or a zero payout fails without mutating anything.
    pub fn swap(&mut self, amount_in: u64, token_in_is_one: bool) -> (r: Result<
        u64,
        StableSwapError,
    >)
        requires
            old(self).fee < BPS_DENOMINATOR,
            old(self).reserve_one <= MAX_STABLE_RESERVE,
            old(self).reserve_two <= MAX_STABLE_RESERVE,
            old(self).spec_reserve_in(token_in_is_one) + amount_in <= MAX_STABLE_RESERVE,
            old(self).spec_fee_in(token_in_is_one) + fee_of(amount_in as int, old(self).fee as int)
                <= u64::MAX,
        ensures
            (r matches Err(StableSwapError::AmountIsZero)) <==> amount_in == 0,
            r is Err ==> *final(self) == *old(self),
            amount_in > 0 ==> exists|m: int|
                #[trigger] ceil_root_ok(
                    old(self).spec_new_x(amount_in as int, token_in_is_one),
                    old(self).spec_k(token_in_is_one),
                    m,
                ) && m <= old(self).spec_reserve_out(token_in_is_one),
            amount_in > 0 ==> forall|m: int|
                #[trigger] ceil_root_ok(
                    old(self).spec_new_x(amount_in as int, token_in_is_one),
                    old(self).spec_k(token_in_is_one),
                    m,
                ) ==> ((r is Ok) <==> 0 < m < old(self).spec_reserve_out(token_in_is_one)),
            r matches Ok(amount_out) ==> forall|m: int|
                #[trigger] ceil_root_ok(
                    old(self).spec_new_x(amount_in as int, token_in_is_one),
                    old(self).spec_k(token_in_is_one),
                    m,
                ) ==> amount_out == old(self).spec_reserve_out(token_in_is_one) - m,
            r matches Ok(amount_out) ==> 0 < amount_out < old(self).spec_reserve_out(
                token_in_is_one,
            ) && final(self).spec_reserve_out(token_in_is_one) == old(self).spec_reserve_out(
                token_in_is_one,
            ) - amount_out,
            r is Ok ==> final(self).spec_reserve_in(token_in_is_one) == old(self).spec_reserve_in(
                token_in_is_one,
            ) + amount_in,
            r is Ok ==> final(self).spec_fee_in(token_in_is_one) == old(self).spec_fee_in(
                token_in_is_one,
            ) + fee_of(amount_in as int, old(self).fee as int),
            r is Ok ==> final(self).spec_fee_out(token_in_is_one) == old(self).spec_fee_out(
                token_in_is_one,
            ),
            r is Ok ==> old(self).same_pair(*final(self)) && final(self).total_supply == old(
                self,
            ).total_supply,
            r is Ok ==> stable_curve(
                final(self).reserve_one as int,
                final(self).reserve_two as int,
            ) >= stable_curve(old(self).reserve_one as int, old(self).reserve_two as int),
            old(self).fee_one <= final(self).fee_one && old(self).fee_two <= final(self).fee_two,
            (r is Ok && token_in_is_one && fee_of(amount_in as int, old(self).fee as int) > 0)
                ==> final(self).fee_one > old(self).fee_one,
            (r is Ok && !token_in_is_one && fee_of(amount_in as int, old(self).fee as int) > 0)
                ==> final(self).fee_two > old(self).fee_two,
    {
        if amount_in == 0 {
            return Err(StableSwapError::AmountIsZero);
        }
        let (x, y) = if token_in_is_one {
            (self.reserve_one, self.reserve_two)
        } else {
            (self.reserve_two, self.reserve_one)
        };
        let fee_amount = fee_for(amount_in, self.fee);
        let dx = amount_in - fee_amount;
        let k = stable_curve_eval(x, y);
        let new_x = x + dx;
        let ghost xn = old(self).spec_new_x(amount_in as int, token_in_is_one);
        let ghost kk = old(self).spec_k(token_in_is_one);
        proof {
            assert(new_x as int == xn);
            assert(k as int == kk);
            lemma_stable_curve_mono_x(x as int, xn, y as int);
        }
        let m = solve_ceil_root(new_x, y, k);
        proof {
            assert(ceil_root_ok(xn, kk, m as int));
            assert forall|mm: int| #[trigger] ceil_root_ok(xn, kk, mm) implies mm == m as int by {
                lemma_ceil_root_unique(xn, kk, mm, m as int);
            }
        }
        let amount_out = y - m;
        if amount_out == 0 || m == 0 {
            return Err(StableSwapError::InsufficientLiquidity);
        }
        if token_in_is_one {
            self.reserve_one = self.reserve_one + amount_in;
            self.reserve_two = self.reserve_two - amount_out;
            self.fee_one = self.fee_one + fee_amount;
        } else {
            self.reserve_two = self.reserve_two + amount_in;
            self.reserve_one = self.reserve_one - amount_out;
            self.fee_two = self.fee_two + fee_amount;
        }
        proof {
            lemma_stable_curve_mono_x(xn, x as int + amount_in, m as int);
            if !token_in_is_one {
                lemma_stable_curve_symmetric(x as int + amount_in, m as int);
                lemma_stable_curve_symmetric(x as int, y as int);
            }
        }
        Ok(amount_out)
    }

    /// Deposits both assets and mints liquidity shares under the shared
    /// policy: the geometric mean on an empty pool, the more constraining
    /// pro-rata side otherwise. Fails if and only if either amount is
    /// zero, mutating nothing in that case.
    pub fn add_liquidity(&mut self, amount_one: u64, amount_two: u64) -> (r: Result<
        u64,
        StableSwapError,
    >)
        requires
            (old(self).reserve_one == 0) == (old(self).reserve_two == 0),
            old(self).reserve_one + amount_one <= u64::MAX,
            old(self).reserve_two + amount_two <= u64::MAX,
            old(self).total_supply + mint_amount(
                old(self).reserve_one as int,
                old(self).reserve_two as int,
                old(self).total_supply as int,
                amount_one as int,
                amount_two as int,
            ) <= u64::MAX,
        ensures
            (r matches Err(StableSwapError::AmountIsZero)) <==> (amount_one == 0 || amount_two
                == 0),
            r is Err ==> *final(self) == *old(self) && r matches Err(
                StableSwapError::AmountIsZero,
            ),
            r matches Ok(minted) ==> minted == mint_amount(
                old(self).reserve_one as int,
                old(self).reserve_two as int,
                old(self).total_supply as int,
                amount_one as int,
                amount_two as int,
            ),
            r is Ok ==> final(self).reserve_one == old(self).reserve_one + amount_one && final(self).reserve_two == old(self).reserve_two + amount_two,
            r matches Ok(minted) ==> final(self).total_supply == old(self).total_supply + minted,
            r is Ok ==> final(self).fee_one == old(self).fee_one && final(self).fee_two == old(
                self,
            ).fee_two && old(self).same_pair(*final(self)),
    {
        let minted = match compute_mint(
            self.reserve_one,
            self.reserve_two,
            self.total_supply,
            amount_one,
            amount_two,
        ) {
            Ok(minted) => minted,
            Err(_) => {
                return Err(StableSwapError::AmountIsZero);
            },
        };
        self.reserve_one = self.reserve_one + amount_one;
        self.reserve_two = self.reserve_two + amount_two;
        self.total_supply = self.total_supply + minted;
        Ok(minted)
    }

    /// Burns `liquidity_tokens` shares and pays out both assets pro rata,
    /// rounded down. Fails on a zero request or one exceeding the
    /// outstanding supply, mutating nothing in either case.
    pub fn remove_liquidity(&mut self, liquidity_tokens: u64) -> (r: Result<
        (u64, u64),
        StableSwapError,
    >)
        ensures
            (r matches Err(StableSwapError::AmountIsZero)) <==> liquidity_tokens == 0,
            (r matches Err(StableSwapError::InsufficientLiquidity)) <==> (liquidity_tokens > 0
                && liquidity_tokens > old(self).total_supply),
            (r is Ok) <==> (0 < liquidity_tokens <= old(self).total_supply),
            r is Err ==> *final(self) == *old(self),
            r matches Ok(amounts) ==> amounts.0 == redeem_share(
                old(self).reserve_one as int,
                liquidity_tokens as int,
                old(self).total_supply as int,
            ) && amounts.1 == redeem_share(
                old(self).reserve_two as int,
                liquidity_tokens as int,
                old(self).total_supply as int,
            ),
            r matches Ok(amounts) ==> final(self).reserve_one == old(self).reserve_one - amounts.0
                && final(self).reserve_two == old(self).reserve_two - amounts.1,
            r is Ok ==> final(self).total_supply == old(self).total_supply - liquidity_tokens,
            r is Ok ==> final(self).fee_one == old(self).fee_one && final(self).fee_two == old(
                self,
            ).fee_two && old(self).same_pair(*final(self)),
    {
        let amounts = match compute_redeem(
            self.reserve_one,
            self.reserve_two,
            self.total_supply,
            liquidity_tokens,
        ) {
            Ok(amounts) => amounts,
            Err(LiquidityError::AmountIsZero) => {
                return Err(StableSwapError::AmountIsZero);
            },
            Err(LiquidityError::InsufficientLiquidity) => {
                return Err(StableSwapError::InsufficientLiquidity);
            },
        };
        self.reserve_one = self.reserve_one - amounts.0;
        self.reserve_two = self.reserve_two - amounts.1;
        self.total_supply = self.total_supply - liquidity_tokens;
        Ok(amounts)
    }
}

} // verus!
