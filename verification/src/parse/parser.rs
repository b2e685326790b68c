//! The file id that a command line names.
use vstd::prelude::*;
use crate::text::{integer_value, parse_isize};

verus! {

/// The id of a saved path as given on the command line.
#[derive(Debug, Clone, Copy, PartialEq, Eq)]
pub struct Id(pub isize);

/// The message given for an id that is not an integer.
pub open spec fn bad_id_message() -> Seq<char> {
    "Couldn't parse file id. Must be integer."@
}

/// Reads a file id: an integer in the range of `isize`, optionally signed.
pub fn parse_id(s: &str) -> (r: Result<Id, String>)
    ensures
        match r {
            Ok(id) => integer_value(s@) == Some(id.0 as int),
            Err(msg) => integer_value(s@) is None && msg@ == bad_id_message(),
        },
{
    match parse_isize(s) {
        Some(v) => Ok(Id(v)),
        None => Err(String::from_str("Couldn't parse file id. Must be integer.")),
    }
}

} // verus!
