//! Records that the importers produce for the database.

use crate::calendar::Date;
use vstd::prelude::*;

verus! {

/// A closing price of one security on one day, in minor units (paise).
#[derive(Debug)]
pub struct PriceListing {
    pub date: Date,
    pub isin: String,
    pub ticker: String,
    pub amount: i64,
}

} // verus!
