//! The market-index command.

use vstd::prelude::*;

verus! {

/// Arguments of the `analysis index` command (it takes none).
#[derive(Debug)]
pub struct AnalysisIndexArgs {}

} // verus!
