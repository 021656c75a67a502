//! The exchange's daily bhavcopy: where it is published, how its archive
//! and CSV are read, and the closing prices taken from it.

use crate::calendar::{chrono_formatted_day, Date};
use crate::csv_table::{csv_read, read_csv, record_view};
use crate::database::models::PriceListing;
use crate::money::{inr_minor_units, parse_inr_minor_units};
use crate::statement_parsers::cells_view;
use crate::text::text_eq;
use std::io::Read;
use vstd::prelude::*;

verus! {

/// The zip crate's error type.
#[verifier::external_type_specification]
#[verifier::external_body]
pub struct ExZipError(zip::result::ZipError);

/// The bhavcopy of one trading day: its equity records.
#[derive(Debug)]
pub struct Bhavcopy {
    pub date: Date,
    pub records: Vec<BhavRecord>,
}

/// One security's line of the bhavcopy: its series (`EQ` for equities),
/// ISIN, ticker symbol and closing price in rupees.
#[derive(Debug)]
pub struct BhavRecord {
    pub series: String,
    pub isin: String,
    pub ticker: String,
    pub close: String,
}

/// What a bhavcopy record holds, as mathematical values.
pub struct BhavRecordModel {
    pub series: Seq<char>,
    pub isin: Seq<char>,
    pub ticker: Seq<char>,
    pub close: Seq<char>,
}

impl View for BhavRecord {
    type V = BhavRecordModel;

    open spec fn view(&self) -> BhavRecordModel {
        BhavRecordModel { series: self.series@, isin: self.isin@, ticker: self.ticker@, close: self.close@ }
    }
}

/// Why a bhavcopy could not be read.
#[derive(Debug)]
pub enum BhavError {
    /// The zip crate reported an error.
    Zip(zip::result::ZipError),
    /// The archive holds no file.
    EmptyArchive,
    /// The csv crate could not read the header row.
    Csv(csv::Error),
}

/// A bhavcopy-reading error, as a mathematical value.
#[derive(PartialEq, Eq, Structural)]
pub enum BhavFailure {
    Zip,
    EmptyArchive,
    Csv,
}

impl BhavError {
    /// What kind of error this is.
    pub open spec fn failure(&self) -> BhavFailure {
        match self {
            BhavError::Zip(_) => BhavFailure::Zip,
            BhavError::EmptyArchive => BhavFailure::EmptyArchive,
            BhavError::Csv(_) => BhavFailure::Csv,
        }
    }
}

/// The number of files that the zip crate finds in an archive
/// (`ZipArchive::new` then `len`), `None` when it cannot open the archive.
pub uninterp spec fn zip_file_count(archive: Seq<u8>) -> Option<int>;

/// The contents of a file of an archive as the zip crate reads them
/// (`ZipArchive::new`, `by_index`, `read_to_end`), `None` on an error.
pub uninterp spec fn zip_file_contents(archive: Seq<u8>, index: int) -> Option<Seq<u8>>;

/// Wraps the zip crate's `ZipArchive::new` over the bytes, then `len`.
#[verifier::external_body]
fn zip_len(archive: &[u8]) -> (r: Result<usize, zip::result::ZipError>)
    ensures
        r matches Ok(n) ==> zip_file_count(archive@) == Some(n as int),
        r is Err ==> zip_file_count(archive@) is None,
{
    zip::ZipArchive::new(std::io::Cursor::new(archive)).map(|a| a.len())
}

/// Wraps the zip crate's `ZipArchive::new` over the bytes, then `by_index`
/// and `read_to_end`.
#[verifier::external_body]
fn zip_read(archive: &[u8], index: usize) -> (r: Result<Vec<u8>, zip::result::ZipError>)
    ensures
        r matches Ok(v) ==> zip_file_contents(archive@, index as int) == Some(v@),
        r is Err ==> zip_file_contents(archive@, index as int) is None,
{
    let mut zip_archive = zip::ZipArchive::new(std::io::Cursor::new(archive))?;
    let mut file = zip_archive.by_index(index)?;
    let mut contents = Vec::new();
    file.read_to_end(&mut contents)?;
    Ok(contents)
}

/// What unzipping a bhavcopy archive gives: the contents of its first file.
pub open spec fn unzip_spec(archive: Seq<u8>) -> Result<Seq<u8>, BhavFailure> {
    match zip_file_count(archive) {
        None => Err(BhavFailure::Zip),
        Some(n) => if n == 0 {
            Err(BhavFailure::EmptyArchive)
        } else {
            match zip_file_contents(archive, 0) {
                None => Err(BhavFailure::Zip),
                Some(c) => Ok(c),
            }
        },
    }
}

/// The contents of the first file of a zip archive.
pub fn unzip_file(zip_bytes: &[u8]) -> (r: Result<Vec<u8>, BhavError>)
    ensures
        match r {
            Ok(c) => unzip_spec(zip_bytes@) == Ok::<Seq<u8>, BhavFailure>(c@),
            Err(e) => unzip_spec(zip_bytes@) == Err::<Seq<u8>, BhavFailure>(e.failure()),
        },
{
    let n = match zip_len(zip_bytes) {
        Ok(n) => n,
        Err(e) => return Err(BhavError::Zip(e)),
    };
    if n == 0 {
        return Err(BhavError::EmptyArchive);
    }
    match zip_read(zip_bytes, 0) {
        Ok(c) => Ok(c),
        Err(e) => Err(BhavError::Zip(e)),
    }
}

/// Index of the first empty header at or after `from`, or the number of
/// headers when there is none.
pub open spec fn first_empty_header(headers: Seq<Seq<char>>, from: int) -> int
    decreases headers.len() - from,
{
    if from >= headers.len() || headers[from].len() == 0 {
        from
    } else {
        first_empty_header(headers, from + 1)
    }
}

/// The headers up to the first empty one.
pub open spec fn used_headers(headers: Seq<Seq<char>>) -> Seq<Seq<char>> {
    headers.take(first_empty_header(headers, 0))
}

/// The header row names `name` in exactly one column.
pub open spec fn has_unique_column(headers: Seq<Seq<char>>, name: Seq<char>) -> bool {
    exists|i: int|
        0 <= i < headers.len() && #[trigger] headers[i] == name && forall|j: int|
            0 <= j < headers.len() && #[trigger] headers[j] == name ==> j == i
}

/// The column whose header is `name` (meaningful when it is unique).
pub open spec fn column_of(headers: Seq<Seq<char>>, name: Seq<char>) -> int {
    choose|i: int| 0 <= i < headers.len() && #[trigger] headers[i] == name
}

/// The header names of the bhavcopy columns the importer reads.
pub open spec fn series_header() -> Seq<char> {
    "SctySrs"@
}

pub open spec fn isin_header() -> Seq<char> {
    "ISIN"@
}

pub open spec fn ticker_header() -> Seq<char> {
    "TckrSymb"@
}

pub open spec fn close_header() -> Seq<char> {
    "ClsPric"@
}

/// What a record reads as under the headers, as the csv crate hands named
/// fields to a struct: every header takes a field, so the record must have
/// at least as many fields as there are headers, and each of the four
/// columns read must be named exactly once.
pub open spec fn bhav_record_of(headers: Seq<Seq<char>>, fields: Seq<Seq<char>>) -> Option<BhavRecordModel> {
    if fields.len() >= headers.len() && has_unique_column(headers, series_header())
        && has_unique_column(headers, isin_header()) && has_unique_column(headers, ticker_header())
        && has_unique_column(headers, close_header()) {
        Some(
            BhavRecordModel {
                series: fields[column_of(headers, series_header())],
                isin: fields[column_of(headers, isin_header())],
                ticker: fields[column_of(headers, ticker_header())],
                close: fields[column_of(headers, close_header())],
            },
        )
    } else {
        None
    }
}

/// The equity records of the bhavcopy: the records that read under the
/// headers and whose series is `EQ`, in order; the others are skipped.
pub open spec fn equity_records(headers: Seq<Seq<char>>, records: Seq<Option<Seq<Seq<char>>>>) -> Seq<
    BhavRecordModel,
>
    decreases records.len(),
{
    if records.len() == 0 {
        seq![]
    } else {
        let before = equity_records(headers, records.drop_last());
        match records.last() {
            None => before,
            Some(fields) => match bhav_record_of(headers, fields) {
                None => before,
                Some(r) => if r.series == "EQ"@ {
                    before.push(r)
                } else {
                    before
                },
            },
        }
    }
}

/// What reading the bhavcopy CSV gives: its equity records, under the
/// headers up to the first empty one; the csv crate reads it trimming every
/// field and accepting records of any length.
pub open spec fn parse_csv_spec(csv: Seq<u8>) -> Result<Seq<BhavRecordModel>, BhavFailure> {
    match csv_read(csv, true, true).0 {
        None => Err(BhavFailure::Csv),
        Some(headers) => Ok(equity_records(used_headers(headers), csv_read(csv, true, true).1)),
    }
}

/// Every record the bhavcopy reading keeps is an equity (`EQ`) record.
pub proof fn lemma_equity_records_are_equities(headers: Seq<Seq<char>>, records: Seq<Option<Seq<Seq<char>>>>)
    ensures
        forall|i: int|
            0 <= i < equity_records(headers, records).len() ==> (#[trigger] equity_records(
                headers,
                records,
            )[i]).series == "EQ"@,
        equity_records(headers, records).len() <= records.len(),
    decreases records.len(),
{
    if records.len() > 0 {
        lemma_equity_records_are_equities(headers, records.drop_last());
    }
}

/// The equity record a CSV record gives under the headers: the record read
/// under them when it reads and its series is `EQ`, else none.
pub open spec fn equity_record_of(headers: Seq<Seq<char>>, record: Option<Seq<Seq<char>>>) -> Option<
    BhavRecordModel,
> {
    match record {
        None => None,
        Some(fields) => match bhav_record_of(headers, fields) {
            Some(r) => if r.series == "EQ"@ {
                Some(r)
            } else {
                None
            },
            None => None,
        },
    }
}

/// Reading a bhavcopy fails exactly when the csv crate cannot read its
/// header row. Otherwise it gives one record for each CSV record that reads
/// under the headers (up to the first empty one) and is of series `EQ`: all
/// of them, in the order of the file, and nothing else.
pub proof fn lemma_bhavcopy_keeps_every_equity(csv: Seq<u8>)
    ensures
        parse_csv_spec(csv) is Err <==> csv_read(csv, true, true).0 is None,
        csv_read(csv, true, true).0 matches Some(headers) ==> parse_csv_spec(csv) == Ok::<
            Seq<BhavRecordModel>,
            BhavFailure,
        >(
            csv_read(csv, true, true).1.filter_map(
                |o: Option<Seq<Seq<char>>>| equity_record_of(used_headers(headers), o),
            ),
        ),
{
    if let Some(headers) = csv_read(csv, true, true).0 {
        lemma_equity_records_filter(used_headers(headers), csv_read(csv, true, true).1);
    }
}

/// The equity records are the records filtered by `equity_record_of`.
proof fn lemma_equity_records_filter(headers: Seq<Seq<char>>, records: Seq<Option<Seq<Seq<char>>>>)
    ensures
        equity_records(headers, records) == records.filter_map(
            |o: Option<Seq<Seq<char>>>| equity_record_of(headers, o),
        ),
    decreases records.len(),
{
    if records.len() > 0 {
        lemma_equity_records_filter(headers, records.drop_last());
        let before = equity_records(headers, records.drop_last());
        match equity_record_of(headers, records.last()) {
            Some(r) => {
                assert(before.push(r) =~= before + seq![r]);
            },
            None => {},
        }
    }
}

/// The views of a sequence of records.
pub open spec fn records_view(records: Seq<BhavRecord>) -> Seq<BhavRecordModel> {
    records.map_values(|r: BhavRecord| r@)
}

/// Finds where the used headers end (see `first_empty_header`).
fn used_header_count(headers: &Vec<String>) -> (r: usize)
    ensures
        r == first_empty_header(cells_view(headers@), 0),
        r <= headers@.len(),
{
    let ghost hs = cells_view(headers@);
    let mut i: usize = 0;
    while i < headers.len() && !headers[i].as_str().is_empty()
        invariant
            hs == cells_view(headers@),
            i <= headers@.len(),
            first_empty_header(hs, i as int) == first_empty_header(hs, 0),
        decreases headers@.len() - i,
    {
        assert(hs[i as int] == headers@[i as int]@);
        i = i + 1;
    }
    proof {
        lemma_first_empty_header_bound(hs, i as int);
    }
    i
}

proof fn lemma_first_empty_header_bound(headers: Seq<Seq<char>>, from: int)
    requires
        0 <= from <= headers.len(),
    ensures
        from <= first_empty_header(headers, from) <= headers.len(),
    decreases headers.len() - from,
{
    if from < headers.len() && headers[from].len() != 0 {
        lemma_first_empty_header_bound(headers, from + 1);
    }
}

/// The column of the used headers named `name`, when exactly one is.
fn unique_column(headers: &Vec<String>, used: usize, name: &str) -> (r: Option<usize>)
    requires
        used <= headers@.len(),
    ensures
        r is Some <==> has_unique_column(cells_view(headers@).take(used as int), name@),
        r matches Some(c) ==> c == column_of(cells_view(headers@).take(used as int), name@),
{
    let ghost hs = cells_view(headers@).take(used as int);
    let mut i: usize = 0;
    while i < used && !text_eq(headers[i].as_str(), name)
        invariant
            hs == cells_view(headers@).take(used as int),
            used <= headers@.len(),
            i <= used,
            forall|k: int| 0 <= k < i ==> #[trigger] hs[k] != name@,
        decreases used - i,
    {
        assert(hs[i as int] == headers@[i as int]@);
        i = i + 1;
    }
    if i == used {
        assert(!has_unique_column(hs, name@));
        return None;
    }
    let first = i;
    assert(hs[first as int] == name@);
    let mut j: usize = first + 1;
    while j < used
        invariant
            hs == cells_view(headers@).take(used as int),
            used <= headers@.len(),
            first < j <= used,
            hs[first as int] == name@,
            forall|k: int| 0 <= k < first ==> #[trigger] hs[k] != name@,
            forall|k: int| first < k < j ==> #[trigger] hs[k] != name@,
        decreases used - j,
    {
        assert(hs[j as int] == headers@[j as int]@);
        if text_eq(headers[j].as_str(), name) {
            assert(!has_unique_column(hs, name@)) by {
                if has_unique_column(hs, name@) {
                    let u = choose|u: int|
                        0 <= u < hs.len() && #[trigger] hs[u] == name@ && forall|v: int|
                            0 <= v < hs.len() && #[trigger] hs[v] == name@ ==> v == u;
                    assert(hs[j as int] == name@);
                }
            }
            return None;
        }
        j = j + 1;
    }
    assert(has_unique_column(hs, name@));
    let ghost c = column_of(hs, name@);
    assert(c == first);
    Some(first)
}

/// The columns of the four fields read, when each is named exactly once.
pub struct BhavColumns {
    pub series: usize,
    pub isin: usize,
    pub ticker: usize,
    pub close: usize,
}

/// Reads a bhavcopy CSV into its equity records (see `parse_csv_spec`).
pub fn parse_csv(bytes: &[u8]) -> (r: Result<Vec<BhavRecord>, BhavError>)
    ensures
        match r {
            Ok(records) => parse_csv_spec(bytes@) == Ok::<Seq<BhavRecordModel>, BhavFailure>(records_view(records@)),
            Err(e) => parse_csv_spec(bytes@) == Err::<Seq<BhavRecordModel>, BhavFailure>(e.failure()),
        },
        r is Err <==> csv_read(bytes@, true, true).0 is None,
        r matches Ok(records) ==> records_view(records@) == csv_read(bytes@, true, true).1.filter_map(
            |o: Option<Seq<Seq<char>>>|
                equity_record_of(used_headers(csv_read(bytes@, true, true).0->Some_0), o),
        ),
{
    proof {
        lemma_bhavcopy_keeps_every_equity(bytes@);
    }
    let table = read_csv(bytes, true, true);
    let headers = match table.headers {
        Ok(h) => h,
        Err(e) => return Err(BhavError::Csv(e)),
    };
    let ghost recs = csv_read(bytes@, true, true).1;
    let used = used_header_count(&headers);
    let ghost hs = used_headers(cells_view(headers@));
    assert(hs == cells_view(headers@).take(used as int));
    let columns = match (
        unique_column(&headers, used, "SctySrs"),
        unique_column(&headers, used, "ISIN"),
        unique_column(&headers, used, "TckrSymb"),
        unique_column(&headers, used, "ClsPric"),
    ) {
        (Some(series), Some(isin), Some(ticker), Some(close)) => Some(
            BhavColumns { series, isin, ticker, close },
        ),
        _ => None,
    };
    let records = table.records;
    let mut out: Vec<BhavRecord> = Vec::new();
    let mut i: usize = 0;
    while i < records.len()
        invariant
            recs == records@.map_values(|r: Result<Vec<String>, csv::Error>| record_view(&r)),
            hs == cells_view(headers@).take(used as int),
            used <= headers@.len(),
            i <= records@.len(),
            columns is Some <==> (has_unique_column(hs, series_header()) && has_unique_column(
                hs,
                isin_header(),
            ) && has_unique_column(hs, ticker_header()) && has_unique_column(hs, close_header())),
            columns matches Some(c) ==> c.series == column_of(hs, series_header()) && c.isin
                == column_of(hs, isin_header()) && c.ticker == column_of(hs, ticker_header())
                && c.close == column_of(hs, close_header()),
            records_view(out@) == equity_records(hs, recs.take(i as int)),
        decreases records@.len() - i,
    {
        assert(recs.take(i + 1).drop_last() =~= recs.take(i as int));
        assert(recs.take(i + 1).last() == recs[i as int]);
        let ghost before = records_view(out@);
        match (&records[i], &columns) {
            (Ok(fields), Some(c)) => {
                if fields.len() >= used {
                    proof {
                        lemma_column_in_range(hs, series_header());
                        lemma_column_in_range(hs, isin_header());
                        lemma_column_in_range(hs, ticker_header());
                        lemma_column_in_range(hs, close_header());
                    }
                    if text_eq(fields[c.series].as_str(), "EQ") {
                        let record = BhavRecord {
                            series: fields[c.series].clone(),
                            isin: fields[c.isin].clone(),
                            ticker: fields[c.ticker].clone(),
                            close: fields[c.close].clone(),
                        };
                        out.push(record);
                        assert(records_view(out@) =~= before.push(record@));
                    }
                }
            },
            _ => {},
        }
        i = i + 1;
    }
    assert(recs.take(records@.len() as int) =~= recs);
    Ok(out)
}

/// A unique column lies within the headers.
proof fn lemma_column_in_range(headers: Seq<Seq<char>>, name: Seq<char>)
    requires
        has_unique_column(headers, name),
    ensures
        0 <= column_of(headers, name) < headers.len(),
        headers[column_of(headers, name)] == name,
{
}

/// The text that serde_json writes for an array of objects whose fields are
/// all strings (`Value::to_string`).
pub uninterp spec fn json_text(objects: Seq<Seq<(Seq<char>, Seq<char>)>>) -> Seq<char>;

/// The fields of each object, as texts.
pub open spec fn objects_view(objects: Seq<Vec<(String, String)>>) -> Seq<Seq<(Seq<char>, Seq<char>)>> {
    objects.map_values(
        |o: Vec<(String, String)>| o@.map_values(|kv: (String, String)| (kv.0@, kv.1@)),
    )
}

/// Wraps serde_json's `Value::to_string` of an array of objects whose
/// fields are strings. The objects keep their order; within each object,
/// serde_json's map orders the fields by key (the `preserve_order` feature
/// is off), as it does for the `json!` macro.
#[verifier::external_body]
fn json_array_of_objects(objects: &Vec<Vec<(String, String)>>) -> (r: String)
    ensures
        r@ == json_text(objects_view(objects@)),
{
    serde_json::Value::Array(
        objects.iter().map(
            |o| serde_json::Value::Object(
                o.iter().map(|(k, v)| (k.clone(), serde_json::Value::String(v.clone()))).collect(),
            ),
        ).collect(),
    ).to_string()
}

/// The report the importer asks the exchange for: the final common
/// bhavcopy of the equities section, as a zip archive.
pub open spec fn bhavcopy_report() -> Seq<Seq<(Seq<char>, Seq<char>)>> {
    seq![
        seq![
            ("name"@, "CM-UDiFF Common Bhavcopy Final (zip)"@),
            ("type"@, "daily-reports"@),
            ("category"@, "capital-market"@),
            ("section"@, "equities"@),
        ],
    ]
}

/// What the exchange's answer to a bhavcopy request means.
#[derive(Clone, Copy, Debug, PartialEq, Eq, Structural)]
pub enum BhavResponse {
    /// No bhavcopy was published for the day (404).
    Missing,
    /// The exchange answered with another client or server error.
    Failed,
    /// The answer's body is the archive.
    Archive,
}

/// How the answer to a bhavcopy request is taken, by its HTTP status: 404
/// means no bhavcopy for the day, any other 4xx or 5xx status is an error,
/// and anything else carries the archive.
pub fn bhav_response(status: u16) -> (r: BhavResponse)
    ensures
        r == (if status == 404 {
            BhavResponse::Missing
        } else if 400 <= status < 600 {
            BhavResponse::Failed
        } else {
            BhavResponse::Archive
        }),
{
    if status == 404 {
        BhavResponse::Missing
    } else if 400 <= status && status < 600 {
        BhavResponse::Failed
    } else {
        BhavResponse::Archive
    }
}

/// The address of the exchange's report archive for a day.
pub open spec fn nse_reports_url_spec(day: int) -> Seq<char> {
    "https://www.nseindia.com/api/reports?archives="@ + json_text(bhavcopy_report()) + "&date="@
        + chrono_formatted_day(day, "%d-%b-%Y"@) + "&type=equities&mode=single"@
}

/// The address of the exchange's bhavcopy archive for a day.
pub fn nse_reports_url(date: Date) -> (r: String)
    requires
        date.wf(),
    ensures
        r@ == nse_reports_url_spec(date@),
{
    let mut report: Vec<(String, String)> = Vec::new();
    report.push(("name".to_owned(), "CM-UDiFF Common Bhavcopy Final (zip)".to_owned()));
    report.push(("type".to_owned(), "daily-reports".to_owned()));
    report.push(("category".to_owned(), "capital-market".to_owned()));
    report.push(("section".to_owned(), "equities".to_owned()));
    assert(report@.map_values(|kv: (String, String)| (kv.0@, kv.1@)) =~= bhavcopy_report()[0]);
    let mut objects: Vec<Vec<(String, String)>> = Vec::new();
    objects.push(report);
    assert(objects_view(objects@) =~= bhavcopy_report());
    let file = json_array_of_objects(&objects);
    let mut url = "https://www.nseindia.com/api/reports?archives=".to_owned();
    url.append(file.as_str());
    url.append("&date=");
    let day = date.format_day_month_year();
    url.append(day.as_str());
    url.append("&type=equities&mode=single");
    url
}

/// What a price listing holds, as mathematical values.
pub struct PriceListingModel {
    pub date: int,
    pub isin: Seq<char>,
    pub ticker: Seq<char>,
    pub amount: int,
}

impl View for PriceListing {
    type V = PriceListingModel;

    open spec fn view(&self) -> PriceListingModel {
        PriceListingModel {
            date: self.date@,
            isin: self.isin@,
            ticker: self.ticker@,
            amount: self.amount as int,
        }
    }
}

/// The price listings of a bhavcopy: one for each record whose closing
/// price reads as rupees, in order, on the bhavcopy's day; records whose
/// price does not read are skipped.
pub open spec fn bhav_listings(day: int, records: Seq<BhavRecordModel>) -> Seq<PriceListingModel>
    decreases records.len(),
{
    if records.len() == 0 {
        seq![]
    } else {
        let before = bhav_listings(day, records.drop_last());
        let r = records.last();
        match inr_minor_units(r.close) {
            None => before,
            Some(amount) => before.push(
                PriceListingModel { date: day, isin: r.isin, ticker: r.ticker, amount },
            ),
        }
    }
}

/// Every listing of a bhavcopy is on the bhavcopy's day, and there is at
/// most one listing per record.
pub proof fn lemma_bhav_listings_on_day(day: int, records: Seq<BhavRecordModel>)
    ensures
        forall|i: int|
            0 <= i < bhav_listings(day, records).len() ==> (#[trigger] bhav_listings(day, records)[i]).date
                == day,
        bhav_listings(day, records).len() <= records.len(),
    decreases records.len(),
{
    if records.len() > 0 {
        lemma_bhav_listings_on_day(day, records.drop_last());
    }
}

/// The views of a sequence of price listings.
pub open spec fn listings_view(listings: Seq<PriceListing>) -> Seq<PriceListingModel> {
    listings.map_values(|l: PriceListing| l@)
}

/// The price listings of a bhavcopy (see `bhav_listings`).
pub fn bhav_to_listings(bhav: Bhavcopy) -> (r: Vec<PriceListing>)
    ensures
        listings_view(r@) == bhav_listings(bhav.date@, records_view(bhav.records@)),
{
    let ghost rs = records_view(bhav.records@);
    let mut out: Vec<PriceListing> = Vec::new();
    let mut i: usize = 0;
    while i < bhav.records.len()
        invariant
            rs == records_view(bhav.records@),
            i <= bhav.records@.len(),
            listings_view(out@) == bhav_listings(bhav.date@, rs.take(i as int)),
        decreases bhav.records@.len() - i,
    {
        assert(rs.take(i + 1).drop_last() =~= rs.take(i as int));
        assert(rs.take(i + 1).last() == bhav.records@[i as int]@);
        let ghost before = listings_view(out@);
        let record = &bhav.records[i];
        match parse_inr_minor_units(record.close.as_str()) {
            Ok(amount) => {
                let listing = PriceListing {
                    date: bhav.date,
                    isin: record.isin.clone(),
                    ticker: record.ticker.clone(),
                    amount,
                };
                out.push(listing);
                assert(listings_view(out@) =~= before.push(listing@));
            },
            Err(_) => {},
        }
        i = i + 1;
    }
    assert(rs.take(bhav.records@.len() as int) =~= rs);
    out
}

} // verus!
