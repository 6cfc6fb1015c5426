//! A constant-product pool over the invariant curve `x * y = k`.
//!
//! A swap charges a basis-point fee on the input, solves `x * y = k`
//! exactly in integers for the output amount, and keeps the whole input
//! (fee included) in the pool, so the product of the reserves never
//! decreases across a successful swap.

use vstd::prelude::*;

verus! {

use vstd::arithmetic::div_mod::lemma_div_is_ordered;
use vstd::arithmetic::div_mod::lemma_div_multiples_vanish;
use vstd::arithmetic::div_mod::lemma_div_pos_is_pos;
use vstd::arithmetic::div_mod::lemma_fundamental_div_mod;
use vstd::arithmetic::div_mod::lemma_mod_bound;
use vstd::arithmetic::mul::lemma_mul_inequality;
use vstd::arithmetic::mul::lemma_mul_is_commutative;
use vstd::arithmetic::mul::lemma_mul_nonnegative;
use vstd::arithmetic::mul::lemma_mul_upper_bound;
use crate::arith::fee_for;
use crate::arith::fee_of;
use crate::arith::BPS_DENOMINATOR;
use crate::liquidity::compute_mint;
use crate::liquidity::compute_redeem;
use crate::liquidity::mint_amount;
use crate::liquidity::redeem_share;
use crate::liquidity::LiquidityError;

/// The ways a constant-product operation can fail. On every failure the
/// pool is left exactly as it was.
#[derive(Debug)]
pub enum SwapError {
    /// A zero amount was passed where a positive amount is required.
    AmountIsZero,
    /// The operation would drain or exceed the opposite reserve, or redeem
    /// more shares than exist.
    InsufficientLiquidity,
}

/// The output of an exact integer constant-product swap: with the
/// fee-reduced input `amount_after_fee`, the trader receives
/// `reserve_out * amount_after_fee / (reserve_in + amount_after_fee)`,
/// rounded down in the pool's favour.
pub open spec fn cp_amount_out(reserve_in: int, reserve_out: int, amount_after_fee: int) -> int {
    reserve_out * amount_after_fee / (reserve_in + amount_after_fee)
}

/// A constant-product pool: two reserves, a basis-point fee rate,
/// per-asset accrued fees, and the outstanding liquidity-share supply.
pub struct Swap {
    pub token_one: String,
    pub token_two: String,
    pub reserve_one: u64,
    pub reserve_two: u64,
    pub fee: u64,
    pub fee_one: u64,
    pub fee_two: u64,
    pub total_supply: u64,
}

impl Swap {
    /// The reserve of the asset being paid in.
    pub open spec fn spec_reserve_in(self, token_in_is_one: bool) -> int {
        if token_in_is_one {
            self.reserve_one as int
        } else {
            self.reserve_two as int
        }
    }

    /// The reserve of the asset being paid out.
    pub open spec fn spec_reserve_out(self, token_in_is_one: bool) -> int {
        if token_in_is_one {
            self.reserve_two as int
        } else {
            self.reserve_one as int
        }
    }

    /// The accrued-fee counter of the input asset.
    pub open spec fn spec_fee_in(self, token_in_is_one: bool) -> int {
        if token_in_is_one {
            self.fee_one as int
        } else {
            self.fee_two as int
        }
    }

    /// The accrued-fee counter of the output asset.
    pub open spec fn spec_fee_out(self, token_in_is_one: bool) -> int {
        if token_in_is_one {
            self.fee_two as int
        } else {
            self.fee_one as int
        }
    }

    /// The amount this pool pays out for `amount_in` on the given side.
    pub open spec fn spec_amount_out(self, amount_in: int, token_in_is_one: bool) -> int {
        cp_amount_out(
            self.spec_reserve_in(token_in_is_one),
            self.spec_reserve_out(token_in_is_one),
            amount_in - fee_of(amount_in, self.fee as int),
        )
    }

    /// The token identifiers and the fee rate of the two pools agree.
    pub open spec fn same_pair(self, other: Swap) -> bool {
        self.token_one == other.token_one && self.token_two == other.token_two && self.fee
            == other.fee
    }

    /// The outstanding liquidity-share supply.
    pub fn total_supply(&self) -> (supply: u64)
        ensures
            supply == self.total_supply,
    {
        self.total_supply
    }

    /// Swaps `amount_in` of one asset for the other at the constant
    /// product.
    ///
    /// The fee-reduced input is priced along `x * y = k` with truncating
    /// division; the full input amount (fee included) enters the input
    /// reserve and the fee is accrued to the input asset's counter, so the
    /// reserve product never decreases. A zero input fails, as does an
    /// output that would reach or exceed the opposite reserve; failures
    /// mutate nothing.
    pub fn swap(&mut self, amount_in: u64, token_in_is_one: bool) -> (r: Result<u64, SwapError>)
        requires
            old(self).fee < BPS_DENOMINATOR,
            old(self).spec_reserve_in(token_in_is_one) + amount_in <= u64::MAX,
            old(self).spec_fee_in(token_in_is_one) + fee_of(amount_in as int, old(self).fee as int)
                <= u64::MAX,
        ensures
            (r matches Err(SwapError::AmountIsZero)) <==> amount_in == 0,
            r is Err ==> *final(self) == *old(self),
            amount_in > 0 ==> ((r matches Err(SwapError::InsufficientLiquidity)) <==> old(self).spec_amount_out(amount_in as int, token_in_is_one) >= old(self).spec_reserve_out(
                token_in_is_one,
            )),
            r matches Ok(amount_out) ==> amount_out == old(self).spec_amount_out(
                amount_in as int,
                token_in_is_one,
            ) && amount_out < old(self).spec_reserve_out(token_in_is_one),
            r is Ok ==> final(self).spec_reserve_in(token_in_is_one) == old(self).spec_reserve_in(
                token_in_is_one,
            ) + amount_in,
            r matches Ok(amount_out) ==> final(self).spec_reserve_out(token_in_is_one) == old(self).spec_reserve_out(token_in_is_one) - amount_out,
            r is Ok ==> final(self).spec_fee_in(token_in_is_one) == old(self).spec_fee_in(
                token_in_is_one,
            ) + fee_of(amount_in as int, old(self).fee as int),
            r is Ok ==> final(self).spec_fee_out(token_in_is_one) == old(self).spec_fee_out(
                token_in_is_one,
            ),
            r is Ok ==> old(self).same_pair(*final(self)) && final(self).total_supply == old(self).total_supply,
            r is Ok ==> final(self).reserve_one * final(self).reserve_two >= old(self).reserve_one * old(self).reserve_two,
            old(self).fee_one <= final(self).fee_one && old(self).fee_two <= final(self).fee_two,
            (r is Ok && token_in_is_one && fee_of(amount_in as int, old(self).fee as int) > 0)
                ==> final(self).fee_one > old(self).fee_one,
            (r is Ok && !token_in_is_one && fee_of(amount_in as int, old(self).fee as int) > 0)
                ==> final(self).fee_two > old(self).fee_two,
    {
        if amount_in == 0 {
            return Err(SwapError::AmountIsZero);
        }
        let (reserve_in, reserve_out) = if token_in_is_one {
            (self.reserve_one, self.reserve_two)
        } else {
            (self.reserve_two, self.reserve_one)
        };
        let fee_amount = fee_for(amount_in, self.fee);
        let amount_in_after_fee = amount_in - fee_amount;
        proof {
            lemma_mul_upper_bound(
                reserve_out as int,
                u64::MAX as int,
                amount_in_after_fee as int,
                u64::MAX as int,
            );
            lemma_cp_out_bounded(reserve_in as int, reserve_out as int, amount_in_after_fee as int);
        }
        let numerator = (reserve_out as u128) * (amount_in_after_fee as u128);
        let denominator = (reserve_in as u128) + (amount_in_after_fee as u128);
        let amount_out = (numerator / denominator) as u64;
        if amount_out >= reserve_out {
            return Err(SwapError::InsufficientLiquidity);
        }
        proof {
            lemma_cp_product_grows(
                reserve_in as int,
                reserve_out as int,
                amount_in_after_fee as int,
                amount_in as int,
                amount_out as int,
            );
        }
        if token_in_is_one {
            self.reserve_one = self.reserve_one + amount_in;
            self.reserve_two = self.reserve_two - amount_out;
            self.fee_one = self.fee_one + fee_amount;
        } else {
            self.reserve_two = self.reserve_two + amount_in;
            self.reserve_one = self.reserve_one - amount_out;
            self.fee_two = self.fee_two + fee_amount;
        }
        proof {
            lemma_mul_is_commutative(
                old(self).spec_reserve_in(token_in_is_one) + amount_in,
                old(self).spec_reserve_out(token_in_is_one) - amount_out,
            );
        }
        Ok(amount_out)
    }

    /// Deposits both assets and mints liquidity shares under the shared
    /// policy: the geometric mean on an empty pool, the more constraining
    /// pro-rata side otherwise. Fails if and only if either amount is
    /// zero, mutating nothing in that case.
    pub fn add_liquidity(&mut self, amount_one: u64, amount_two: u64) -> (r: Result<
        u64,
        SwapError,
    >)
        requires
            (old(self).reserve_one == 0) == (old(self).reserve_two == 0),
            old(self).reserve_one + amount_one <= u64::MAX,
            old(self).reserve_two + amount_two <= u64::MAX,
            old(self).total_supply + mint_amount(
                old(self).reserve_one as int,
                old(self).reserve_two as int,
                old(self).total_supply as int,
                amount_one as int,
                amount_two as int,
            ) <= u64::MAX,
        ensures
            (r matches Err(SwapError::AmountIsZero)) <==> (amount_one == 0 || amount_two == 0),
            r is Err ==> *final(self) == *old(self) && r matches Err(SwapError::AmountIsZero),
            r matches Ok(minted) ==> minted == mint_amount(
                old(self).reserve_one as int,
                old(self).reserve_two as int,
                old(self).total_supply as int,
                amount_one as int,
                amount_two as int,
            ),
            r is Ok ==> final(self).reserve_one == old(self).reserve_one + amount_one && final(self).reserve_two == old(self).reserve_two + amount_two,
            r matches Ok(minted) ==> final(self).total_supply == old(self).total_supply + minted,
            r is Ok ==> final(self).fee_one == old(self).fee_one && final(self).fee_two == old(self).fee_two && old(self).same_pair(*final(self)),
    {
        let minted = match compute_mint(
            self.reserve_one,
            self.reserve_two,
            self.total_supply,
            amount_one,
            amount_two,
        ) {
            Ok(minted) => minted,
            Err(_) => {
                return Err(SwapError::AmountIsZero);
            },
        };
        self.reserve_one = self.reserve_one + amount_one;
        self.reserve_two = self.reserve_two + amount_two;
        self.total_supply = self.total_supply + minted;
        Ok(minted)
    }

    /// Burns `liquidity_tokens` shares and pays out both assets pro rata,
    /// rounded down. Fails on a zero request or one exceeding the
    /// outstanding supply, mutating nothing in either case.
    pub fn remove_liquidity(&mut self, liquidity_tokens: u64) -> (r: Result<(u64, u64), SwapError>)
        ensures
            (r matches Err(SwapError::AmountIsZero)) <==> liquidity_tokens == 0,
            (r matches Err(SwapError::InsufficientLiquidity)) <==> (liquidity_tokens > 0
                && liquidity_tokens > old(self).total_supply),
            (r is Ok) <==> (0 < liquidity_tokens <= old(self).total_supply),
            r is Err ==> *final(self) == *old(self),
            r matches Ok(amounts) ==> amounts.0 == redeem_share(
                old(self).reserve_one as int,
                liquidity_tokens as int,
                old(self).total_supply as int,
            ) && amounts.1 == redeem_share(
                old(self).reserve_two as int,
                liquidity_tokens as int,
                old(self).total_supply as int,
            ),
            r matches Ok(amounts) ==> final(self).reserve_one == old(self).reserve_one - amounts.0
                && final(self).reserve_two == old(self).reserve_two - amounts.1,
            r is Ok ==> final(self).total_supply == old(self).total_supply - liquidity_tokens,
            r is Ok ==> final(self).fee_one == old(self).fee_one && final(self).fee_two == old(self).fee_two && old(self).same_pair(*final(self)),
    {
        let amounts = match compute_redeem(
            self.reserve_one,
            self.reserve_two,
            self.total_supply,
            liquidity_tokens,
        ) {
            Ok(amounts) => amounts,
            Err(LiquidityError::AmountIsZero) => {
                return Err(SwapError::AmountIsZero);
            },
            Err(LiquidityError::InsufficientLiquidity) => {
                return Err(SwapError::InsufficientLiquidity);
            },
        };
        self.reserve_one = self.reserve_one - amounts.0;
        self.reserve_two = self.reserve_two - amounts.1;
        self.total_supply = self.total_supply - liquidity_tokens;
        Ok(amounts)
    }
}

/// The constant-product output never exceeds the opposite reserve.
proof fn lemma_cp_out_bounded(reserve_in: int, reserve_out: int, amount_after_fee: int)
    requires
        0 <= reserve_in,
        0 <= reserve_out,
        0 < amount_after_fee,
    ensures
        0 <= cp_amount_out(reserve_in, reserve_out, amount_after_fee) <= reserve_out,
{
    let denominator = reserve_in + amount_after_fee;
    lemma_mul_nonnegative(reserve_out, amount_after_fee);
    lemma_div_pos_is_pos(reserve_out * amount_after_fee, denominator);
    lemma_mul_inequality(amount_after_fee, denominator, reserve_out);
    lemma_mul_is_commutative(reserve_out, amount_after_fee);
    lemma_mul_is_commutative(denominator, reserve_out);
    lemma_div_is_ordered(reserve_out * amount_after_fee, denominator * reserve_out, denominator);
    lemma_div_multiples_vanish(reserve_out, denominator);
}

/// Across a successful constant-product swap the reserve product does not
/// fall: the pool keeps the fee, and truncation rounds the payout down.
proof fn lemma_cp_product_grows(
    reserve_in: int,
    reserve_out: int,
    amount_after_fee: int,
    amount_in: int,
    amount_out: int,
)
    requires
        0 <= reserve_in,
        0 <= reserve_out,
        0 < amount_after_fee <= amount_in,
        amount_out == cp_amount_out(reserve_in, reserve_out, amount_after_fee),
        0 <= amount_out <= reserve_out,
    ensures
        (reserve_in + amount_in) * (reserve_out - amount_out) >= reserve_in * reserve_out,
{
    let denominator = reserve_in + amount_after_fee;
    lemma_fundamental_div_mod(reserve_out * amount_after_fee, denominator);
    lemma_mod_bound(reserve_out * amount_after_fee, denominator);
    assert(amount_out * denominator <= reserve_out * amount_after_fee) by (nonlinear_arith)
        requires
            0 < denominator,
            reserve_out * amount_after_fee == denominator * amount_out + (reserve_out
                * amount_after_fee) % denominator,
            (reserve_out * amount_after_fee) % denominator >= 0,
    ;
    assert((reserve_in + amount_in) * (reserve_out - amount_out) >= reserve_in * reserve_out)
        by (nonlinear_arith)
        requires
            0 <= reserve_in,
            0 < amount_after_fee <= amount_in,
            0 <= amount_out <= reserve_out,
            denominator == reserve_in + amount_after_fee,
            amount_out * denominator <= reserve_out * amount_after_fee,
    ;
}

} // verus!
