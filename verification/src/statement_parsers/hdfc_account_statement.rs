//! Rows of an HDFC Bank account statement export: date, narration, value
//! date, debit amount, credit amount, cheque/reference number, closing
//! balance.

use super::{text_or, ParsedRow, ParsedRowModel, RowError, RowFailure, UnparsedRow};
use crate::calendar::{chrono_parsed_day, Date};
use crate::money::{inr_minor_units, parse_inr_minor_units};
use crate::text::{trim, trimmed};
use vstd::prelude::*;

verus! {

/// The date format of the statement's first column: `31/12/2024`.
pub open spec fn hdfc_date_format() -> Seq<char> {
    "%d/%m/%Y"@
}

/// The amount, in paise, that a cell of the row holds: the trimmed cell read
/// as rupees, `None` when the cell is missing or is no amount.
pub open spec fn hdfc_amount_cell(cells: Seq<Seq<char>>, idx: int) -> Option<int> {
    if 0 <= idx < cells.len() {
        inr_minor_units(trimmed(cells[idx]))
    } else {
        None
    }
}

/// What a statement row reads as. The date comes from the first cell, the
/// description from the second; the source and destination accounts default
/// to the description. A row with an amount in the debit column (index 3)
/// only is a debit, taken as negative; one with an amount in the credit
/// column (index 4) only is a credit; any other combination is refused.
pub open spec fn hdfc_row(
    default_from: Option<Seq<char>>,
    default_to: Option<Seq<char>>,
    cells: Seq<Seq<char>>,
) -> Result<ParsedRowModel, RowFailure> {
    if cells.len() == 0 {
        Err(RowFailure::MissingDate)
    } else {
        match chrono_parsed_day(cells[0], hdfc_date_format()) {
            Err(message) => Err(RowFailure::InvalidDate(message)),
            Ok(day) => if cells.len() < 2 {
                Err(RowFailure::MissingDescription)
            } else {
                let description = cells[1];
                let source = text_or(default_from, description);
                let destination = text_or(default_to, description);
                match (hdfc_amount_cell(cells, 3), hdfc_amount_cell(cells, 4)) {
                    (Some(debit), None) => Ok(
                        ParsedRowModel { date: day, source, destination, description, amount: -debit },
                    ),
                    (None, Some(credit)) => Ok(
                        ParsedRowModel {
                            date: day,
                            source,
                            destination,
                            description,
                            amount: credit,
                        },
                    ),
                    _ => Err(RowFailure::InvalidDebitCredit),
                }
            },
        }
    }
}

/// A row whose debit is the most negative amount an `i64` holds: negating it
/// overflows, and the statement importer panics on it.
pub open spec fn hdfc_row_overflows(cells: Seq<Seq<char>>) -> bool {
    &&& cells.len() >= 2
    &&& chrono_parsed_day(cells[0], hdfc_date_format()) is Ok
    &&& hdfc_amount_cell(cells, 3) == Some(i64::MIN as int)
    &&& hdfc_amount_cell(cells, 4) is None
}

/// Reads the amount in a cell of the row (see `hdfc_amount_cell`).
fn parse_amount_cell(row: &UnparsedRow, idx: usize) -> (r: Option<i64>)
    ensures
        r matches Some(v) ==> hdfc_amount_cell(row.cells_view(), idx as int) == Some(v as int),
        r is None ==> hdfc_amount_cell(row.cells_view(), idx as int) is None,
{
    if idx < row.cells.len() {
        let cell = trim(row.cells[idx].as_str());
        match parse_inr_minor_units(cell.as_str()) {
            Ok(v) => Some(v),
            Err(_) => None,
        }
    } else {
        None
    }
}

/// Whether reading the row would negate the most negative `i64`.
pub fn hdfc_row_would_overflow(row: &UnparsedRow) -> (r: bool)
    ensures
        r == hdfc_row_overflows(row.cells_view()),
{
    if row.cells.len() < 2 {
        return false;
    }
    if Date::parse_from_str(row.cells[0].as_str(), "%d/%m/%Y").is_err() {
        return false;
    }
    match (parse_amount_cell(row, 3), parse_amount_cell(row, 4)) {
        (Some(debit), None) => debit == i64::MIN,
        _ => false,
    }
}

/// Reads a row of an HDFC account statement (see `hdfc_row`).
pub fn parse_hdfc_row(
    default_from: Option<&String>,
    default_to: Option<&String>,
    row: &UnparsedRow,
) -> (r: Result<ParsedRow, RowError>)
    requires
        !hdfc_row_overflows(row.cells_view()),
    ensures
        super::row_outcome_view(&r) == hdfc_row(
            super::opt_text_view(default_from),
            super::opt_text_view(default_to),
            row.cells_view(),
        ),
        r matches Ok(p) ==> p.date.wf(),
{
    if row.cells.len() == 0 {
        return Err(RowError::MissingDate);
    }
    let date = match Date::parse_from_str(row.cells[0].as_str(), "%d/%m/%Y") {
        Ok(d) => d,
        Err(message) => return Err(RowError::InvalidDate(message)),
    };
    if row.cells.len() < 2 {
        return Err(RowError::MissingDescription);
    }
    let description = row.cells[1].clone();
    let source = match default_from {
        Some(s) => s.clone(),
        None => description.clone(),
    };
    let destination = match default_to {
        Some(s) => s.clone(),
        None => description.clone(),
    };
    let amount = match (parse_amount_cell(row, 3), parse_amount_cell(row, 4)) {
        (Some(debit), None) => -debit,
        (None, Some(credit)) => credit,
        _ => return Err(RowError::InvalidDebitCredit),
    };
    Ok(ParsedRow { date, source, destination, description, amount })
}

/// Reads a row like `parse_hdfc_row`, or gives `None` on the one row that
/// would make it panic (see `hdfc_row_overflows`).
pub fn parse_hdfc_row_checked(
    default_from: Option<&String>,
    default_to: Option<&String>,
    row: &UnparsedRow,
) -> (r: Option<Result<ParsedRow, RowError>>)
    ensures
        r is None <==> hdfc_row_overflows(row.cells_view()),
        r matches Some(o) ==> super::row_outcome_view(&o) == hdfc_row(
            super::opt_text_view(default_from),
            super::opt_text_view(default_to),
            row.cells_view(),
        ),
{
    if hdfc_row_would_overflow(row) {
        None
    } else {
        Some(parse_hdfc_row(default_from, default_to, row))
    }
}

} // verus!
