//! Optimal splitting of one trade across several liquidity venues, and the
//! programs that route and hold the tokens.
//!
//! The routing core quantizes the trade ([`quantize`]), quotes every venue
//! at every level ([`quote`]) and finds the split that yields the most
//! ([`optimize`]); [`pipeline`] runs the three in a row. [`matrix`] says
//! what a split and its optimum are, and [`laws`] what follows for every
//! optimum. [`route`] and [`escrow`] hold the two programs: their
//! instructions, their stored state and what they decide on the accounts
//! they are handed. [`account`] and [`token`] hold what they share with the
//! runtime and with the token programs.

pub mod account;
pub mod error;
pub mod escrow;
pub mod laws;
pub mod matrix;
pub mod optimize;
pub mod pipeline;
pub mod quantize;
pub mod quote;
pub mod route;
mod search;
pub mod token;
