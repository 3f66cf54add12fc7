//! The error a command of the device tool can end with.

use vstd::prelude::*;

verus! {

/// `std::io::Error`, carried through untouched: nothing is known of what it holds.
#[verifier::external_type_specification]
#[verifier::external_body]
pub struct ExIoError(std::io::Error);

/// Why a command of the device tool did not do what was asked.
#[derive(Debug)]
pub enum CommandError {
    /// The tool could not be started, or its output could not be read.
    Io(std::io::Error),
    /// The tool ran and gave up; `stderr` is what it said.
    Failed { stderr: String },
}

} // verus!
