use amm_pool::arith::fee_for;
use amm_pool::arith::isqrt_u128;
use amm_pool::liquidity::compute_mint;
use amm_pool::liquidity::compute_redeem;
use amm_pool::liquidity::LiquidityError;
use amm_pool::stable_swap::StableSwap;
use amm_pool::stable_swap::StableSwapError;
use amm_pool::swap::Swap;
use amm_pool::swap::SwapError;
use amm_pool::vec_ops::dedup;
use amm_pool::vec_ops::filter;
use amm_pool::vec_ops::sum;
use amm_pool::vec_ops::vec_contains;
use amm_pool::words::first_word;
use amm_pool::words::get_word;

fn fresh_swap(reserve_one: u64, reserve_two: u64, total_supply: u64) -> Swap {
    Swap {
        token_one: "TokenA".to_string(),
        token_two: "TokenB".to_string(),
        reserve_one,
        reserve_two,
        fee: 30,
        fee_one: 0,
        fee_two: 0,
        total_supply,
    }
}

fn fresh_stable(reserve_one: u64, reserve_two: u64, total_supply: u64) -> StableSwap {
    StableSwap {
        token_one: "StableA".to_string(),
        token_two: "StableB".to_string(),
        reserve_one,
        reserve_two,
        fee: 30,
        fee_one: 0,
        fee_two: 0,
        total_supply,
    }
}

#[test]
fn test_bootstrap_mints_floor_sqrt() {
    // floor(sqrt(1000 * 2000)) = floor(sqrt(2_000_000)) = 1414
    let mut swap = fresh_swap(0, 0, 0);
    let minted = swap.add_liquidity(1000, 2000).unwrap();
    assert_eq!(minted, 1414);
    assert_eq!(swap.total_supply, 1414);
}

#[test]
fn test_round_trip_empty_pool_exact() {
    let mut swap = fresh_swap(0, 0, 0);
    let minted = swap.add_liquidity(1000, 2000).unwrap();
    let (amount_one, amount_two) = swap.remove_liquidity(minted).unwrap();
    assert_eq!(amount_one, 1000);
    assert_eq!(amount_two, 2000);
    assert_eq!(swap.total_supply, 0);
}

#[test]
fn test_round_trip_funded_pool_bounded() {
    let mut swap = fresh_swap(1000, 2000, 1000);
    let minted = swap.add_liquidity(100, 200).unwrap();
    assert_eq!(minted, 100);
    let (amount_one, amount_two) = swap.remove_liquidity(minted).unwrap();
    assert!(amount_one <= 100);
    assert!(amount_two <= 200);
    assert_eq!(amount_one, 100);
    assert_eq!(amount_two, 200);
    assert_eq!(swap.total_supply, 1000);
}

#[test]
fn test_stable_swap_small_trade_exact() {
    // Reserves (1000, 1000), fee 30 bps: swapping 10 pays the fee-free
    // input along the cubic curve and rounds down to 9.
    let mut swap = fresh_stable(1000, 1000, 0);
    let amount_out = swap.swap(10, true).unwrap();
    assert!(amount_out > 0);
    assert!(amount_out < 10);
    assert_eq!(amount_out, 9);
    assert_eq!(swap.reserve_one, 1010);
    assert_eq!(swap.reserve_two, 991);
}

#[test]
fn test_stable_swap_add_liquidity_zero_amount() {
    let mut swap = fresh_stable(1000, 1000, 0);
    assert!(matches!(swap.add_liquidity(0, 100), Err(StableSwapError::AmountIsZero)));
    assert!(matches!(swap.add_liquidity(100, 0), Err(StableSwapError::AmountIsZero)));
    assert_eq!(swap.reserve_one, 1000);
    assert_eq!(swap.reserve_two, 1000);
}

#[test]
fn test_stable_swap_remove_liquidity_guards() {
    let mut swap = fresh_stable(1000, 1000, 100);
    assert!(matches!(swap.remove_liquidity(0), Err(StableSwapError::AmountIsZero)));
    assert!(matches!(swap.remove_liquidity(200), Err(StableSwapError::InsufficientLiquidity)));
    assert_eq!(swap.reserve_one, 1000);
    assert_eq!(swap.reserve_two, 1000);
    assert_eq!(swap.total_supply, 100);
}

#[test]
fn test_swap_error_paths_leave_pool_untouched() {
    let mut swap = fresh_swap(0, 2000, 0);
    // With an empty input reserve the full opposite reserve would be paid
    // out, which the pool refuses.
    assert!(matches!(swap.swap(100, true), Err(SwapError::InsufficientLiquidity)));
    assert_eq!(swap.reserve_one, 0);
    assert_eq!(swap.reserve_two, 2000);
    assert_eq!(swap.fee_one, 0);
}

#[test]
fn test_fee_for_rounds_down() {
    assert_eq!(fee_for(1000, 30), 3);
    assert_eq!(fee_for(100, 30), 0);
    assert_eq!(fee_for(10000, 1), 1);
    assert_eq!(fee_for(9999, 9999), 9998);
}

#[test]
fn test_isqrt_edges() {
    assert_eq!(isqrt_u128(0), 0);
    assert_eq!(isqrt_u128(1), 1);
    assert_eq!(isqrt_u128(2), 1);
    assert_eq!(isqrt_u128(144), 12);
    assert_eq!(isqrt_u128(2_000_000), 1414);
    assert_eq!(isqrt_u128(u128::MAX), u64::MAX);
}

#[test]
fn test_compute_mint_policy() {
    assert!(matches!(compute_mint(0, 0, 0, 0, 5), Err(LiquidityError::AmountIsZero)));
    assert_eq!(compute_mint(0, 0, 0, 4, 9).unwrap(), 6);
    assert_eq!(compute_mint(1000, 2000, 1000, 100, 200).unwrap(), 100);
    // The more constraining side decides the mint.
    assert_eq!(compute_mint(1000, 2000, 1000, 100, 4000).unwrap(), 100);
}

#[test]
fn test_compute_redeem_policy() {
    assert!(matches!(compute_redeem(1000, 2000, 1000, 0), Err(LiquidityError::AmountIsZero)));
    assert!(matches!(
        compute_redeem(1000, 2000, 1000, 1001),
        Err(LiquidityError::InsufficientLiquidity)
    ));
    assert_eq!(compute_redeem(1000, 2000, 1000, 100).unwrap(), (100, 200));
}

#[test]
fn test_sum_small() {
    let values: [i32; 4] = [1, 2, 3, 4];
    assert_eq!(sum(&values), 10);
    let empty: [i32; 0] = [];
    assert_eq!(sum(&empty), 0);
    let mixed: [i32; 3] = [5, -7, 3];
    assert_eq!(sum(&mixed), 1);
}

#[test]
fn test_dedup_keeps_first_occurrences() {
    let values = vec![1, 1, 2, 3, 2, 1];
    let deduped = dedup(&values);
    assert_eq!(deduped, vec![1, 2, 3]);
    assert!(vec_contains(&deduped, 3));
    assert!(!vec_contains(&deduped, 4));
}

#[test]
fn test_filter_by_predicate() {
    let values = vec![1, 3, 6, 9, 10];
    let kept = filter(&values, &|x: i32| x % 3 == 0);
    assert_eq!(kept, vec![3, 6, 9]);
}

#[test]
fn test_first_word_splits_at_space() {
    let text = "one two three four five";
    assert_eq!(first_word(text), "one");
    assert_eq!(first_word("hello"), "hello");
    assert_eq!(first_word(" leading"), "");
}

#[test]
fn test_get_word_scans_spaces() {
    let text = "one two three four five";
    assert_eq!(get_word(text, 0), "one");
    // Words after the first are returned with the space that precedes them.
    assert_eq!(get_word(text, 3), " four");
    assert_eq!(get_word(text, 9), text);
    assert_eq!(get_word(text, -1), text);
}
