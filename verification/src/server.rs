//! Errors of the server program.
use vstd::prelude::*;

use crate::error::PulseError;

verus! {

/// Every error of the server.
#[derive(Debug)]
pub enum Error {
    Pulse(PulseError),
}

impl From<PulseError> for Error {
    fn from(value: PulseError) -> (r: Self) {
        Error::Pulse(value)
    }
}

impl vstd::std_specs::convert::FromSpecImpl<PulseError> for Error {
    open spec fn obeys_from_spec() -> bool {
        true
    }

    open spec fn from_spec(v: PulseError) -> Self {
        Error::Pulse(v)
    }
}

} // verus!
