//! Errors of the client program.
use vstd::prelude::*;

use crate::devices::CpalError;
use crate::error::PulseError;

verus! {

/// Every error of the client: audio devices, or the shared library.
#[derive(Debug)]
pub enum Error {
    Cpal(CpalError),
    Pulse(PulseError),
}

impl From<CpalError> for Error {
    fn from(value: CpalError) -> (r: Self) {
        Error::Cpal(value)
    }
}

impl vstd::std_specs::convert::FromSpecImpl<CpalError> for Error {
    open spec fn obeys_from_spec() -> bool {
        true
    }

    open spec fn from_spec(v: CpalError) -> Self {
        Error::Cpal(v)
    }
}

impl From<PulseError> for Error {
    fn from(value: PulseError) -> (r: Self) {
        Error::Pulse(value)
    }
}

impl vstd::std_specs::convert::FromSpecImpl<PulseError> for Error {
    open spec fn obeys_from_spec() -> bool {
        true
    }

    open spec fn from_spec(v: PulseError) -> Self {
        Error::Pulse(v)
    }
}

} // verus!
