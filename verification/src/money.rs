//! Amounts of Indian rupees, read with rusty_money.

use vstd::prelude::*;

verus! {

/// The amount, in paise, that rusty_money reads from a text as Indian rupees
/// (`Money::from_str` with `iso::INR`, then `to_minor_units`); `None` when
/// rusty_money rejects the text.
pub uninterp spec fn inr_minor_units(text: Seq<char>) -> Option<int>;

/// The text of the error rusty_money reports for a text that is no amount.
pub open spec fn amount_error_text() -> Seq<char> {
    "Amount not parsable"@
}

/// Wraps rusty_money's `Money::from_str(text, iso::INR)` followed by
/// `Money::to_minor_units`. `from_str` rejects a text only with
/// `MoneyError::InvalidAmount`, which displays as `Amount not parsable`.
#[verifier::external_body]
pub(crate) fn parse_inr_minor_units(text: &str) -> (r: Result<i64, String>)
    ensures
        r matches Ok(v) ==> inr_minor_units(text@) == Some(v as int),
        r matches Err(m) ==> inr_minor_units(text@) is None && m@ == amount_error_text(),
{
    rusty_money::Money::from_str(text, rusty_money::iso::INR).map(|m| m.to_minor_units()).map_err(
        |e| e.to_string(),
    )
}

} // verus!
