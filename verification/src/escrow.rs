//! The token escrow program: its instructions, its stored state and the
//! checks it makes before moving tokens.

pub mod instruction;
pub mod processor;
pub mod state;
