//! Personal finance and market-analysis toolkit: statement ingestion,
//! price-data normalisation and rolling-return windows, with the rules
//! that drive them stated and proved with Verus.

pub mod calendar;
pub mod cli;
pub mod commands;
pub mod csv_table;
pub mod data_sources;
pub mod database;
pub mod file_parsers;
pub mod money;
pub mod statement_parsers;
pub mod text;
