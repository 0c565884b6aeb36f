//! The token program: mints with a supply, and token accounts with a balance
//! in one mint.

pub mod error;
pub mod instruction;
pub mod ledger;
pub mod processor;
pub mod state;
