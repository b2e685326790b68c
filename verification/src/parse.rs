//! What the command lines of the tools decide.
pub mod pap;
pub mod parser;
pub mod sap;
