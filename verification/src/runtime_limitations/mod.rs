//! The instructions of the program that probes the limits of the host: the
//! stack, the budget of a run, the size of a payload.

pub mod instruction;
