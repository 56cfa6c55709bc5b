//! The logic of the command-line tools: reading their arguments, building the
//! requests they send and deciding what they report.

pub mod scan;
pub mod tools;
pub mod run;
pub mod laws;
