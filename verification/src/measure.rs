//! Errors a measurement orchestration can end with.

use crate::driver;
use crate::utils;
use vstd::prelude::*;

verus! {

/// Any failure of a complete measurement: a failed lock on the shared
/// instrument, a driver error propagated verbatim, an argument error
/// detected before any driver call, an undefined conductance (every
/// sample carried zero voltage), or a retrieved sample outside
/// the ranges this model carries exactly.
#[derive(Debug)]
pub enum Error {
    WgfmuMutexLockError,
    WgfmuError(driver::Error),
    UtilsError(utils::Error),
    ConductanceUndefined,
    SampleOutOfRange,
}

impl From<driver::Error> for Error {
    fn from(error: driver::Error) -> (r: Self) {
        Error::WgfmuError(error)
    }
}

impl vstd::std_specs::convert::FromSpecImpl<driver::Error> for Error {
    open spec fn obeys_from_spec() -> bool {
        true
    }

    open spec fn from_spec(error: driver::Error) -> Self {
        Error::WgfmuError(error)
    }
}

impl From<utils::Error> for Error {
    fn from(error: utils::Error) -> (r: Self) {
        Error::UtilsError(error)
    }
}

impl vstd::std_specs::convert::FromSpecImpl<utils::Error> for Error {
    open spec fn obeys_from_spec() -> bool {
        true
    }

    open spec fn from_spec(error: utils::Error) -> Self {
        Error::UtilsError(error)
    }
}

} // verus!
