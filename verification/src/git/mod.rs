//! Reading the log of the version-control tool.

pub mod diff_parser;
pub mod log_parser;
