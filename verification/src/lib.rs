//! An automated-market-maker liquidity-pool engine.
//!
//! Two pool variants are provided: a constant-product pool ([`swap::Swap`],
//! curve `x * y = k`) and a stable-swap pool ([`stable_swap::StableSwap`],
//! curve `x^3 * y + y^3 * x = k`). Each supports `swap`, `add_liquidity` and
//! `remove_liquidity` over two unsigned reserve balances, with basis-point
//! fees. The liquidity policy shared by both pools lives in [`liquidity`].
//!
//! The engine is a pure in-memory calculator: it never touches storage or
//! the network, and on any error path it leaves the pool unchanged.

pub mod account;
pub mod arith;
pub mod liquidity;
pub mod stable_swap;
pub mod swap;
pub mod vec_ops;
pub mod words;
