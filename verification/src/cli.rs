//! The command tree of the command-line tool, as plain data.

use crate::commands::analysis_index::AnalysisIndexArgs;
use crate::commands::analysis_prepare::AnalysisPrepareArgs;
use crate::commands::analysis_rolling::AnalysisRollingArgs;
use crate::commands::finance_parse::FinanceParseArgs;
use vstd::prelude::*;

verus! {

/// The top-level command line.
#[derive(Debug)]
pub struct Cli {
    pub command: Commands,
}

/// The command groups.
#[derive(Debug)]
pub enum Commands {
    /// Personal finance and statement ingestion.
    FinanceGroup(Finance),
    /// Market and portfolio analysis.
    AnalysisGroup(Analysis),
}

/// The finance command group.
#[derive(Debug)]
pub struct Finance {
    pub finance_commands: FinanceCommands,
}

/// The finance commands.
#[derive(Debug)]
pub enum FinanceCommands {
    /// Parse and ingest a statement.
    Parse(FinanceParseArgs),
}

/// The analysis command group.
#[derive(Debug)]
pub struct Analysis {
    pub analysis_commands: AnalysisCommands,
}

/// The analysis commands.
#[derive(Debug)]
pub enum AnalysisCommands {
    /// Import daily exchange prices.
    Prepare(AnalysisPrepareArgs),
    /// Construct a market index.
    Index(AnalysisIndexArgs),
    /// Rolling returns of a fund.
    Rolling(AnalysisRollingArgs),
}

} // verus!
