//! The file id of the command line of the `cb` tool.
pub use crate::parse::parser::{parse_id, Id};
