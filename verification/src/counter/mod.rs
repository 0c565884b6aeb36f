//! The counter program: one instruction, which adds one to the count held in
//! a storage cell.

pub mod instruction;
pub mod processor;
pub mod state;
