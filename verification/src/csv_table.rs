//! CSV text read with the csv crate, as rows of text fields.

use crate::statement_parsers::cells_view;
use vstd::prelude::*;

verus! {

/// The csv crate's error type.
#[verifier::external_type_specification]
#[verifier::external_body]
pub struct ExCsvError(csv::Error);

/// A CSV document as the csv crate reads it: the header row (or the error
/// met reading it) and every later record (or the error met reading it).
pub struct CsvTable {
    pub headers: Result<Vec<String>, csv::Error>,
    pub records: Vec<Result<Vec<String>, csv::Error>>,
}

/// The fields of a record, or `None` for a record the csv crate could not read.
pub open spec fn record_view(r: &Result<Vec<String>, csv::Error>) -> Option<Seq<Seq<char>>> {
    match r {
        Ok(fields) => Some(cells_view(fields@)),
        Err(_) => None,
    }
}

impl View for CsvTable {
    type V = (Option<Seq<Seq<char>>>, Seq<Option<Seq<Seq<char>>>>);

    open spec fn view(&self) -> (Option<Seq<Seq<char>>>, Seq<Option<Seq<Seq<char>>>>) {
        (
            record_view(&self.headers),
            self.records@.map_values(|r: Result<Vec<String>, csv::Error>| record_view(&r)),
        )
    }
}

/// What the csv crate reads from a document with a header row: the header
/// fields and the later records, each `None` where the crate reports an
/// error. `flexible` admits records of differing lengths; `trim_all` trims
/// white space around headers and fields.
pub uninterp spec fn csv_read(bytes: Seq<u8>, flexible: bool, trim_all: bool) -> (
    Option<Seq<Seq<char>>>,
    Seq<Option<Seq<Seq<char>>>>,
);

/// Wraps the csv crate's `ReaderBuilder` (with headers, `flexible` as given,
/// `Trim::All` or `Trim::None`) over the bytes, then `Reader::headers` and
/// `Reader::records`, with every field copied into a `String`.
#[verifier::external_body]
pub(crate) fn read_csv(bytes: &[u8], flexible: bool, trim_all: bool) -> (r: CsvTable)
    ensures
        r@ == csv_read(bytes@, flexible, trim_all),
{
    let trim = if trim_all { csv::Trim::All } else { csv::Trim::None };
    let mut reader = csv::ReaderBuilder::new().flexible(flexible).trim(trim).from_reader(bytes);
    let headers = reader.headers().map(|h| h.iter().map(String::from).collect());
    let records = reader.records().map(|r| r.map(|rec| rec.iter().map(String::from).collect()));
    CsvTable { headers, records: records.collect() }
}

} // verus!
