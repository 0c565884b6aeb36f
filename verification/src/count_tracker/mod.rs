//! The tracker program: a count, per user and counter, of the increments
//! that the user made to an authorized counter through the tracker. The
//! tracker raises the counter by a delegated invocation, which it signs with
//! an address derived from the counter's.

pub mod error;
pub mod instruction;
pub mod processor;
pub mod state;
