//! What can go wrong with the device.

use vstd::prelude::*;
use vstd::std_specs::convert::FromSpecImpl;

verus! {

/// `std::io::Error`, carried through as it came: nothing here looks inside it.
#[verifier::external_type_specification]
#[verifier::external_body]
pub struct ExIoError(std::io::Error);

/// A failure of the device. Each one ends the run: none is retried.
#[derive(Debug)]
pub enum Error {
    /// A device file could not be read or written.
    Io(std::io::Error),
    /// A device file holds something other than a decimal integer.
    NotANumber,
    /// A device file holds a number that is no brightness: a maximum that is
    /// not positive, or a level below zero or above the maximum.
    OutOfRange,
}

impl From<std::io::Error> for Error {
    fn from(err: std::io::Error) -> (e: Error) {
        Error::Io(err)
    }
}

impl FromSpecImpl<std::io::Error> for Error {
    open spec fn obeys_from_spec() -> bool {
        true
    }

    open spec fn from_spec(err: std::io::Error) -> Error {
        Error::Io(err)
    }
}

} // verus!
