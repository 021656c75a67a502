//! Statement files: CSV or spreadsheet, read into rows of trimmed cells.

use crate::csv_table::{csv_read, read_csv, record_view};
use crate::statement_parsers::cells_view;
use crate::text::{
    ascii_lowercase, is_ascii_text, has_portable_file_name, lowered, path_extension, portable_extension, text_eq,
    to_lowercase, trim, trimmed, lemma_trimmed_is_trimmed,
};
use calamine::Reader;
use vstd::prelude::*;

verus! {

/// calamine's error type.
#[verifier::external_type_specification]
#[verifier::external_body]
pub struct ExCalamineError(calamine::Error);

/// The kinds of file that can be read.
#[derive(Clone, Copy, Debug, PartialEq, Eq, Structural)]
pub enum FileKind {
    Csv,
    Spreadsheet,
}

/// Why a file could not be read.
#[derive(Debug)]
pub enum FileParseError {
    /// The file type (lower-cased) is none of `csv`, `xls`, `xlsx`.
    UnsupportedFileType(String),
    /// The csv crate reported an error.
    Csv(csv::Error),
    /// calamine reported an error.
    Spreadsheet(calamine::Error),
    /// The workbook has no sheet.
    NoSheets,
}

/// A file-reading error, as a mathematical value.
pub enum FileParseFailure {
    UnsupportedFileType(Seq<char>),
    Csv,
    Spreadsheet,
    NoSheets,
}

impl FileParseError {
    /// What kind of error this is.
    pub open spec fn failure(&self) -> FileParseFailure {
        match self {
            FileParseError::UnsupportedFileType(t) => FileParseFailure::UnsupportedFileType(t@),
            FileParseError::Csv(_) => FileParseFailure::Csv,
            FileParseError::Spreadsheet(_) => FileParseFailure::Spreadsheet,
            FileParseError::NoSheets => FileParseFailure::NoSheets,
        }
    }
}

/// The text rows of a table.
pub open spec fn table_view(rows: Seq<Vec<String>>) -> Seq<Seq<Seq<char>>> {
    rows.map_values(|row: Vec<String>| cells_view(row@))
}

/// The outcome of reading a file, as mathematical values.
pub open spec fn parse_outcome_view(r: &Result<Vec<Vec<String>>, FileParseError>) -> Result<
    Seq<Seq<Seq<char>>>,
    FileParseFailure,
> {
    match r {
        Ok(rows) => Ok(table_view(rows@)),
        Err(e) => Err(e.failure()),
    }
}

/// The file type: the one the user gives, else the file's extension, else
/// empty; lower-cased.
pub open spec fn file_type_text(extension: Option<Seq<char>>, user_file_type: Option<Seq<char>>) -> Seq<char> {
    lowered(
        match user_file_type {
            Some(t) => t,
            None => match extension {
                Some(e) => e,
                None => seq![],
            },
        },
    )
}

/// The kind of file a (lower-cased) file type names.
pub open spec fn file_kind_of(file_type: Seq<char>) -> Option<FileKind> {
    if file_type == "csv"@ {
        Some(FileKind::Csv)
    } else if file_type == "xls"@ || file_type == "xlsx"@ {
        Some(FileKind::Spreadsheet)
    } else {
        None
    }
}

/// Each field of a row, trimmed.
pub open spec fn trimmed_row(fields: Seq<Seq<char>>) -> Seq<Seq<char>> {
    fields.map_values(|f: Seq<char>| trimmed(f))
}

/// The data rows of a CSV document read by the csv crate, every field
/// trimmed; `None` when the crate reports an error on any record.
pub open spec fn csv_data_rows(records: Seq<Option<Seq<Seq<char>>>>) -> Option<Seq<Seq<Seq<char>>>>
    decreases records.len(),
{
    if records.len() == 0 {
        Some(seq![])
    } else {
        match (csv_data_rows(records.drop_last()), records.last()) {
            (Some(rows), Some(fields)) => Some(rows.push(trimmed_row(fields))),
            _ => None,
        }
    }
}

/// What calamine reads of the first sheet of a workbook held in memory
/// (`open_workbook_auto_from_rs`, `worksheet_range_at(0)`, each cell written
/// as text): `None` when the workbook cannot be opened, `Some(None)` when it
/// has no sheet, `Some(Some(None))` when the sheet cannot be read, else the
/// rows of cell texts.
pub uninterp spec fn spreadsheet_first_sheet(bytes: Seq<u8>) -> Option<Option<Option<Seq<Seq<Seq<char>>>>>>;

/// The first sheet of a workbook, as calamine reads it.
pub enum SheetRead {
    OpenFailed(calamine::Error),
    NoSheets,
    SheetFailed(calamine::Error),
    Rows(Vec<Vec<String>>),
}

impl View for SheetRead {
    type V = Option<Option<Option<Seq<Seq<Seq<char>>>>>>;

    open spec fn view(&self) -> Option<Option<Option<Seq<Seq<Seq<char>>>>>> {
        match self {
            SheetRead::OpenFailed(_) => None,
            SheetRead::NoSheets => Some(None),
            SheetRead::SheetFailed(_) => Some(Some(None)),
            SheetRead::Rows(rows) => Some(Some(Some(table_view(rows@)))),
        }
    }
}

/// Wraps calamine's `open_workbook_auto_from_rs` over the bytes, then
/// `Reader::worksheet_range_at(0)` and the `Display` text of every cell.
#[verifier::external_body]
fn read_first_sheet(bytes: &[u8]) -> (r: SheetRead)
    ensures
        r@ == spreadsheet_first_sheet(bytes@),
{
    match calamine::open_workbook_auto_from_rs(std::io::Cursor::new(bytes.to_vec())) {
        Err(e) => SheetRead::OpenFailed(e),
        Ok(mut workbook) => match workbook.worksheet_range_at(0) {
            None => SheetRead::NoSheets,
            Some(Err(e)) => SheetRead::SheetFailed(e),
            Some(Ok(range)) => SheetRead::Rows(
                range.rows().map(|row| row.iter().map(|c| c.to_string()).collect()).collect(),
            ),
        },
    }
}

/// What reading a file gives, once its file type is known.
pub open spec fn parse_spec(
    extension: Option<Seq<char>>,
    user_file_type: Option<Seq<char>>,
    content: Seq<u8>,
) -> Result<Seq<Seq<Seq<char>>>, FileParseFailure> {
    let file_type = file_type_text(extension, user_file_type);
    match file_kind_of(file_type) {
        None => Err(FileParseFailure::UnsupportedFileType(file_type)),
        Some(FileKind::Csv) => match csv_data_rows(csv_read(content, false, false).1) {
            Some(rows) => Ok(rows),
            None => Err(FileParseFailure::Csv),
        },
        Some(FileKind::Spreadsheet) => match spreadsheet_first_sheet(content) {
            None => Err(FileParseFailure::Spreadsheet),
            Some(None) => Err(FileParseFailure::NoSheets),
            Some(Some(None)) => Err(FileParseFailure::Spreadsheet),
            Some(Some(Some(rows))) => Ok(rows.map_values(|r: Seq<Seq<char>>| trimmed_row(r))),
        },
    }
}

/// The text of an optional string.
pub open spec fn opt_string_view(text: Option<String>) -> Option<Seq<char>> {
    match text {
        Some(t) => Some(t@),
        None => None,
    }
}

/// The file type is matched without regard to the case of ASCII letters: two
/// file types that differ only in it read a file alike, whether each is the
/// user's or the extension. A file type the user gives decides whatever the
/// extension is.
pub proof fn lemma_file_type_ignores_case(
    extension: Option<Seq<char>>,
    other_extension: Option<Seq<char>>,
    a: Seq<char>,
    b: Seq<char>,
    content: Seq<u8>,
)
    requires
        is_ascii_text(a),
        is_ascii_text(b),
        ascii_lowercase(a) == ascii_lowercase(b),
    ensures
        parse_spec(extension, Some(a), content) == parse_spec(extension, Some(b), content),
        parse_spec(Some(a), None, content) == parse_spec(extension, Some(b), content),
        parse_spec(extension, Some(a), content) == parse_spec(other_extension, Some(a), content),
{
}

/// The rows the csv crate's data records become: one row per record, every
/// record read, each row the record's fields trimmed.
proof fn lemma_csv_data_rows_shape(records: Seq<Option<Seq<Seq<char>>>>)
    ensures
        csv_data_rows(records) matches Some(rows) ==> {
            &&& rows.len() == records.len()
            &&& forall|i: int| 0 <= i < records.len() ==> {
                &&& #[trigger] records[i] is Some
                &&& rows[i].len() == records[i]->Some_0.len()
                &&& forall|j: int| 0 <= j < rows[i].len() ==> rows[i][j] == trimmed(
                    records[i]->Some_0[j],
                )
            }
        },
    decreases records.len(),
{
    if records.len() > 0 {
        lemma_csv_data_rows_shape(records.drop_last());
        if let Some(rows) = csv_data_rows(records) {
            let prev = csv_data_rows(records.drop_last())->Some_0;
            assert forall|i: int| 0 <= i < records.len() implies {
                &&& #[trigger] records[i] is Some
                &&& rows[i].len() == records[i]->Some_0.len()
                &&& forall|j: int| 0 <= j < rows[i].len() ==> rows[i][j] == trimmed(
                    records[i]->Some_0[j],
                )
            } by {
                if i < records.len() - 1 {
                    assert(records[i] == records.drop_last()[i]);
                    assert(rows[i] == prev[i]);
                }
            }
        }
    }
}

/// What a file that reads gives: for a CSV file, one row per data record
/// the csv crate reads, each cell a field of the record, trimmed; for a
/// spreadsheet, one row per row of the first sheet, each cell a cell of the
/// sheet, trimmed. No cell of the result has white space at either end.
pub proof fn lemma_read_rows_are_trimmed_cells(
    extension: Option<Seq<char>>,
    user_file_type: Option<Seq<char>>,
    content: Seq<u8>,
)
    ensures
        parse_spec(extension, user_file_type, content) matches Ok(rows) ==> forall|i: int, j: int|
            0 <= i < rows.len() && 0 <= j < rows[i].len() ==> trimmed(#[trigger] rows[i][j])
                == rows[i][j],
        file_kind_of(file_type_text(extension, user_file_type)) == Some(FileKind::Csv) ==> (parse_spec(
            extension,
            user_file_type,
            content,
        ) matches Ok(rows) ==> {
            let records = csv_read(content, false, false).1;
            &&& rows.len() == records.len()
            &&& forall|i: int| 0 <= i < records.len() ==> {
                &&& #[trigger] records[i] is Some
                &&& rows[i].len() == records[i]->Some_0.len()
                &&& forall|j: int| 0 <= j < rows[i].len() ==> rows[i][j] == trimmed(
                    records[i]->Some_0[j],
                )
            }
        }),
        file_kind_of(file_type_text(extension, user_file_type)) == Some(FileKind::Spreadsheet) ==> (
        parse_spec(extension, user_file_type, content) matches Ok(rows) ==> {
            &&& spreadsheet_first_sheet(content) matches Some(Some(Some(sheet)))
            &&& rows.len() == sheet.len()
            &&& forall|i: int| 0 <= i < sheet.len() ==> {
                &&& (#[trigger] rows[i]).len() == sheet[i].len()
                &&& forall|j: int| 0 <= j < rows[i].len() ==> rows[i][j] == trimmed(sheet[i][j])
            }
        }),
{
    let file_type = file_type_text(extension, user_file_type);
    match file_kind_of(file_type) {
        Some(FileKind::Csv) => {
            let records = csv_read(content, false, false).1;
            lemma_csv_data_rows_shape(records);
            if let Ok(rows) = parse_spec(extension, user_file_type, content) {
                assert forall|i: int, j: int|
                    0 <= i < rows.len() && 0 <= j < rows[i].len() implies trimmed(
                    #[trigger] rows[i][j],
                ) == rows[i][j] by {
                    assert(records[i] is Some);
                    lemma_trimmed_is_trimmed(records[i]->Some_0[j]);
                }
            }
        },
        Some(FileKind::Spreadsheet) => {
            if let Ok(rows) = parse_spec(extension, user_file_type, content) {
                let sheet = spreadsheet_first_sheet(content)->Some_0->Some_0->Some_0;
                assert forall|i: int, j: int|
                    0 <= i < rows.len() && 0 <= j < rows[i].len() implies trimmed(
                    #[trigger] rows[i][j],
                ) == rows[i][j] by {
                    assert(rows[i] == trimmed_row(sheet[i]));
                    lemma_trimmed_is_trimmed(sheet[i][j]);
                }
                assert forall|i: int| 0 <= i < sheet.len() implies {
                    &&& (#[trigger] rows[i]).len() == sheet[i].len()
                    &&& forall|j: int| 0 <= j < rows[i].len() ==> rows[i][j] == trimmed(sheet[i][j])
                } by {
                    assert(rows[i] == trimmed_row(sheet[i]));
                }
            }
        },
        None => {},
    }
}

/// The file type to read a file as (see `file_type_text`).
pub fn file_type_name(extension: Option<String>, user_file_type: Option<String>) -> (r: String)
    ensures
        r@ == file_type_text(opt_string_view(extension), opt_string_view(user_file_type)),
{
    let chosen = match user_file_type {
        Some(t) => t,
        None => match extension {
            Some(e) => e,
            None => String::new(),
        },
    };
    to_lowercase(chosen.as_str())
}

/// The kind of file a file type names; unsupported types are an error.
pub fn file_kind(file_type: String) -> (r: Result<FileKind, FileParseError>)
    ensures
        r matches Ok(k) ==> file_kind_of(file_type@) == Some(k),
        r matches Err(e) ==> file_kind_of(file_type@) is None && e.failure()
            == FileParseFailure::UnsupportedFileType(file_type@),
{
    if text_eq(file_type.as_str(), "csv") {
        Ok(FileKind::Csv)
    } else if text_eq(file_type.as_str(), "xls") || text_eq(file_type.as_str(), "xlsx") {
        Ok(FileKind::Spreadsheet)
    } else {
        Err(FileParseError::UnsupportedFileType(file_type))
    }
}

/// The kind of file to read a path as: the user's file type, else the
/// path's extension.
pub fn file_kind_for_path(path: &str, user_file_type: Option<String>) -> (r: Result<FileKind, FileParseError>)
    ensures
        exists|extension: Option<Seq<char>>|
            #![trigger file_type_text(extension, opt_string_view(user_file_type))]
            {
                let file_type = file_type_text(extension, opt_string_view(user_file_type));
                &&& r matches Ok(k) ==> file_kind_of(file_type) == Some(k)
                &&& r matches Err(e) ==> file_kind_of(file_type) is None && e.failure()
                    == FileParseFailure::UnsupportedFileType(file_type)
            },
        has_portable_file_name(path@) ==> {
            let file_type = file_type_text(portable_extension(path@), opt_string_view(user_file_type));
            &&& r matches Ok(k) ==> file_kind_of(file_type) == Some(k)
            &&& r matches Err(e) ==> file_kind_of(file_type) is None && e.failure()
                == FileParseFailure::UnsupportedFileType(file_type)
        },
{
    let extension = path_extension(path);
    let ghost ext = opt_string_view(extension);
    let r = file_kind(file_type_name(extension, user_file_type));
    assert({
        let file_type = file_type_text(ext, opt_string_view(user_file_type));
        &&& r matches Ok(k) ==> file_kind_of(file_type) == Some(k)
        &&& r matches Err(e) ==> file_kind_of(file_type) is None && e.failure()
            == FileParseFailure::UnsupportedFileType(file_type)
    });
    r
}

/// A record the csv crate could not read makes the whole document fail.
proof fn lemma_csv_data_rows_fail(records: Seq<Option<Seq<Seq<char>>>>, k: int)
    requires
        0 <= k < records.len(),
        records[k] is None,
    ensures
        csv_data_rows(records) is None,
    decreases records.len(),
{
    if k < records.len() - 1 {
        lemma_csv_data_rows_fail(records.drop_last(), k);
    }
}

/// Each field of a row, trimmed.
fn trim_fields(fields: &Vec<String>) -> (r: Vec<String>)
    ensures
        cells_view(r@) == trimmed_row(cells_view(fields@)),
{
    let mut out: Vec<String> = Vec::new();
    let mut i: usize = 0;
    while i < fields.len()
        invariant
            i <= fields@.len(),
            cells_view(out@) == trimmed_row(cells_view(fields@)).take(i as int),
        decreases fields@.len() - i,
    {
        let ghost before = out@;
        let t = trim(fields[i].as_str());
        out.push(t);
        assert(cells_view(out@) =~= cells_view(before).push(t@));
        assert(trimmed_row(cells_view(fields@)).take(i + 1) =~= trimmed_row(cells_view(fields@)).take(
            i as int,
        ).push(trimmed(fields@[i as int]@)));
        i = i + 1;
    }
    assert(trimmed_row(cells_view(fields@)).take(fields@.len() as int) =~= trimmed_row(
        cells_view(fields@),
    ));
    out
}

/// Reads the data rows of a CSV document (the header row excluded), every
/// field trimmed; a record the csv crate cannot read is an error.
fn parse_csv(content: &[u8]) -> (r: Result<Vec<Vec<String>>, FileParseError>)
    ensures
        parse_outcome_view(&r) == match csv_data_rows(csv_read(content@, false, false).1) {
            Some(rows) => Ok(rows),
            None => Err(FileParseFailure::Csv),
        },
{
    let table = read_csv(content, false, false);
    let ghost recs = table@.1;
    let mut records = table.records;
    let mut rows: Vec<Vec<String>> = Vec::new();
    let mut i: usize = 0;
    while i < records.len()
        invariant
            recs == csv_read(content@, false, false).1,
            recs == records@.map_values(|r: Result<Vec<String>, csv::Error>| record_view(&r)),
            i <= records@.len(),
            csv_data_rows(recs.take(i as int)) == Some(table_view(rows@)),
        decreases records@.len() - i,
    {
        assert(recs.take(i + 1).drop_last() =~= recs.take(i as int));
        assert(recs.take(i + 1).last() == recs[i as int]);
        match &records[i] {
            Ok(fields) => {
                let ghost before = rows@;
                rows.push(trim_fields(fields));
                assert(table_view(rows@) =~= table_view(before).push(trimmed_row(cells_view(fields@))));
            },
            Err(_) => {
                proof {
                    lemma_csv_data_rows_fail(recs, i as int);
                }
                let failed = records.remove(i);
                match failed {
                    Err(e) => {
                        return Err(FileParseError::Csv(e));
                    },
                    Ok(_) => {
                        return Ok(rows);
                    },
                }
            },
        }
        i = i + 1;
    }
    assert(recs.take(records@.len() as int) =~= recs);
    Ok(rows)
}

/// Each row's fields, trimmed.
fn trim_rows(rows: Vec<Vec<String>>) -> (r: Vec<Vec<String>>)
    ensures
        table_view(r@) == table_view(rows@).map_values(|row: Seq<Seq<char>>| trimmed_row(row)),
{
    let mut out: Vec<Vec<String>> = Vec::new();
    let mut i: usize = 0;
    while i < rows.len()
        invariant
            i <= rows@.len(),
            table_view(out@) == table_view(rows@).map_values(
                |row: Seq<Seq<char>>| trimmed_row(row),
            ).take(i as int),
        decreases rows@.len() - i,
    {
        let ghost before = out@;
        let t = trim_fields(&rows[i]);
        out.push(t);
        assert(table_view(out@) =~= table_view(before).push(cells_view(t@)));
        assert(table_view(rows@).map_values(|row: Seq<Seq<char>>| trimmed_row(row)).take(i + 1)
            =~= table_view(rows@).map_values(|row: Seq<Seq<char>>| trimmed_row(row)).take(
            i as int,
        ).push(trimmed_row(cells_view(rows@[i as int]@))));
        i = i + 1;
    }
    assert(table_view(rows@).map_values(|row: Seq<Seq<char>>| trimmed_row(row)).take(
        rows@.len() as int,
    ) =~= table_view(rows@).map_values(|row: Seq<Seq<char>>| trimmed_row(row)));
    out
}

/// Reads the first sheet of a workbook, every cell's text trimmed.
fn parse_xls(content: &[u8]) -> (r: Result<Vec<Vec<String>>, FileParseError>)
    ensures
        parse_outcome_view(&r) == match spreadsheet_first_sheet(content@) {
            None => Err(FileParseFailure::Spreadsheet),
            Some(None) => Err(FileParseFailure::NoSheets),
            Some(Some(None)) => Err(FileParseFailure::Spreadsheet),
            Some(Some(Some(rows))) => Ok(rows.map_values(|r: Seq<Seq<char>>| trimmed_row(r))),
        },
{
    match read_first_sheet(content) {
        SheetRead::OpenFailed(e) => Err(FileParseError::Spreadsheet(e)),
        SheetRead::NoSheets => Err(FileParseError::NoSheets),
        SheetRead::SheetFailed(e) => Err(FileParseError::Spreadsheet(e)),
        SheetRead::Rows(rows) => Ok(trim_rows(rows)),
    }
}

/// Reads a statement file whose extension is known: as CSV or as a
/// spreadsheet according to the user's file type, else the extension (see
/// `parse_spec`).
pub fn parse_with_extension(
    extension: Option<String>,
    user_file_type: Option<String>,
    content: &[u8],
) -> (r: Result<Vec<Vec<String>>, FileParseError>)
    ensures
        parse_outcome_view(&r) == parse_spec(
            opt_string_view(extension),
            opt_string_view(user_file_type),
            content@,
        ),
        r matches Ok(rows) ==> forall|i: int, j: int|
            0 <= i < rows@.len() && 0 <= j < rows@[i]@.len() ==> trimmed(#[trigger] rows@[i]@[j]@)
                == rows@[i]@[j]@,
{
    let ghost ext = opt_string_view(extension);
    let ghost user = opt_string_view(user_file_type);
    proof {
        lemma_read_rows_are_trimmed_cells(ext, user, content@);
    }
    let file_type = file_type_name(extension, user_file_type);
    let r = match file_kind(file_type) {
        Err(e) => Err(e),
        Ok(FileKind::Csv) => parse_csv(content),
        Ok(FileKind::Spreadsheet) => parse_xls(content),
    };
    proof {
        if r is Ok {
            let rows = r->Ok_0;
            let table = table_view(rows@);
            assert forall|i: int, j: int|
                0 <= i < rows@.len() && 0 <= j < rows@[i]@.len() implies trimmed(
                #[trigger] rows@[i]@[j]@,
            ) == rows@[i]@[j]@ by {
                assert(table[i] == cells_view(rows@[i]@));
                assert(table[i][j] == rows@[i]@[j]@);
            }
        }
    }
    r
}

/// Reads a statement file held in memory, taking its type from the user's
/// file type or, failing that, from the extension of its path. Which text is
/// the extension of a path depends on the platform's path syntax, so the
/// outcome is stated for the extension found, whatever it is.
pub fn parse(path: &str, user_file_type: Option<String>, content: &[u8]) -> (r: Result<
    Vec<Vec<String>>,
    FileParseError,
>)
    ensures
        exists|extension: Option<Seq<char>>|
            parse_outcome_view(&r) == #[trigger] parse_spec(
                extension,
                opt_string_view(user_file_type),
                content@,
            ),
        has_portable_file_name(path@) ==> parse_outcome_view(&r) == parse_spec(
            portable_extension(path@),
            opt_string_view(user_file_type),
            content@,
        ),
        r matches Ok(rows) ==> forall|i: int, j: int|
            0 <= i < rows@.len() && 0 <= j < rows@[i]@.len() ==> trimmed(#[trigger] rows@[i]@[j]@)
                == rows@[i]@[j]@,
{
    let extension = path_extension(path);
    let ghost ext = opt_string_view(extension);
    let ghost user = opt_string_view(user_file_type);
    let r = parse_with_extension(extension, user_file_type, content);
    assert(parse_outcome_view(&r) == parse_spec(ext, user, content@));
    r
}

} // verus!
