//! The authorized counter program: a count that only its authority may raise.
//! The authority is bound by the first increment.

pub mod instruction;
pub mod processor;
pub mod state;
