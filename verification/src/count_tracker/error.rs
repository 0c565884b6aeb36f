//! Errors of the tracker program's own.

use vstd::prelude::*;
use vstd::std_specs::convert::FromSpecImpl;
use crate::error::ProgramError;

verus! {

/// An error of the tracker program.
#[derive(Clone, Copy, Debug, PartialEq, Eq, Structural)]
pub enum CounterError {
    /// The instruction is known and not handled.
    NotImplemented,
}

impl CounterError {
    /// The number under which the error is reported.
    pub open spec fn code(self) -> u32 {
        match self {
            CounterError::NotImplemented => 0,
        }
    }

    /// What the error says.
    pub fn message(&self) -> (r: &'static str)
        ensures
            r@ == "Instruction not implemented."@,
    {
        match self {
            CounterError::NotImplemented => "Instruction not implemented.",
        }
    }
}

impl From<CounterError> for ProgramError {
    fn from(e: CounterError) -> (r: ProgramError) {
        match e {
            CounterError::NotImplemented => ProgramError::Custom(0),
        }
    }
}

impl FromSpecImpl<CounterError> for ProgramError {
    open spec fn obeys_from_spec() -> bool {
        true
    }

    open spec fn from_spec(e: CounterError) -> ProgramError {
        ProgramError::Custom(e.code())
    }
}

} // verus!
