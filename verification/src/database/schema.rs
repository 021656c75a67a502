//! Database schema markers.

use vstd::prelude::*;

verus! {

/// The database type of a price's source (the `price_source` enum of the
/// `price_listing` table).
#[derive(Clone, Copy, Debug, PartialEq, Eq, Structural)]
pub struct PriceSource;

} // verus!
