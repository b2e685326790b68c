//! What the `sap` command line asks for.
use vstd::prelude::*;
use crate::error::Error;

verus! {

/// A request to the clipboard.
#[derive(Debug, PartialEq, Eq)]
pub enum CMD {
    /// Save these paths.
    Add { files: Vec<String> },
    /// Show the saved paths.
    List,
    /// Forget every saved path.
    Clear,
    /// Print the alias function named `alias` for the shell named `shell`.
    Alias { alias: String, shell: String },
}

/// Picks the request from what the command line holds: `--list` wins over
/// `--clear`, which wins over an `--alias` given on the command line; otherwise
/// the paths to save. `alias_given` says whether `--alias` was written on the
/// command line (not merely defaulted), `alias` is its value.
pub fn select_command(
    list: bool,
    clear: bool,
    alias_given: bool,
    alias: Option<String>,
    shell: String,
    files: Option<Vec<String>>,
) -> (r: Result<CMD, Error>)
    requires
        !list && !clear && !alias_given ==> files is Some,
    ensures
        list ==> r == Ok::<CMD, Error>(CMD::List),
        !list && clear ==> r == Ok::<CMD, Error>(CMD::Clear),
        !list && !clear && alias_given ==> match alias {
            Some(a) => r == Ok::<CMD, Error>(CMD::Alias { alias: a, shell }),
            None => r == Err::<CMD, Error>(Error::ParseError),
        },
        !list && !clear && !alias_given ==> r == Ok::<CMD, Error>(CMD::Add { files: files.unwrap() }),
{
    if list {
        Ok(CMD::List)
    } else if clear {
        Ok(CMD::Clear)
    } else if alias_given {
        match alias {
            Some(a) => Ok(CMD::Alias { alias: a, shell }),
            None => Err(Error::ParseError),
        }
    } else {
        match files {
            Some(f) => Ok(CMD::Add { files: f }),
            None => Ok(CMD::List),
        }
    }
}

} // verus!
