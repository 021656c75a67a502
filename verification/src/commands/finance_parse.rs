//! The statement-ingestion command.

use vstd::prelude::*;

verus! {

/// Arguments of the `finance parse` command.
#[derive(Debug)]
pub struct FinanceParseArgs {
    /// Template used to parse the input file.
    pub template: String,
    /// Path to the input file.
    pub file: String,
    /// Explicit file type (overrides the file's extension).
    pub file_type: Option<String>,
    /// Default source account.
    pub from: Option<String>,
    /// Default destination account.
    pub to: Option<String>,
}

} // verus!
