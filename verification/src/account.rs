//! Account-side records for assets held outside any pool.
//!
//! These are plain data carriers: the engine never interprets them, and
//! the surrounding ledger owns all bookkeeping over them.

use vstd::prelude::*;

verus! {

/// A token description: an address, display data, and its total supply.
pub struct Token {
    pub address: String,
    pub name: String,
    pub symbol: String,
    pub decimals: u64,
    pub supply: u64,
}

/// An account: a native balance and the tokens it holds.
pub struct Account {
    pub alph_amount: u64,
    pub tokens: Vec<Token>,
}

} // verus!
