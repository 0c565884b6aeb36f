//! The instructions of the echo program, which copies a payload into a
//! buffer cell.

pub mod instruction;
