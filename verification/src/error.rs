//! The ways in which the library's operations fail.
use vstd::prelude::*;

verus! {

/// Why an operation of the library failed.
#[derive(Debug, PartialEq, Eq)]
pub enum Error {
    /// A command asked for the entry at this index, which the clipboard does not hold.
    IndexError(usize),
    /// No directory for the application's data could be determined.
    ApplicationDirNotAccessible,
    /// This path (a file joined to the working directory) could not be resolved
    /// to an existing path.
    InvalidPath(String),
    /// The command line named an alias option without a value.
    ParseError,
}

} // verus!
