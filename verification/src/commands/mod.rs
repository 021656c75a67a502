//! The rules behind the command-line commands.

pub mod analysis_index;
pub mod analysis_prepare;
pub mod analysis_rolling;
pub mod finance_parse;
