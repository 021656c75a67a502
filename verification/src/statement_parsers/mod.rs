//! Bank statements: raw rows in, normalised transactions out.

pub mod hdfc_account_statement;

use self::hdfc_account_statement::{hdfc_row, hdfc_row_overflows, hdfc_row_would_overflow, parse_hdfc_row};
use crate::calendar::Date;
use crate::text::text_eq;
use vstd::prelude::*;

verus! {

/// Raw statement row: the cells of one line of the statement file.
#[derive(Debug)]
pub struct UnparsedRow {
    pub cells: Vec<String>,
}

impl UnparsedRow {
    /// The texts of the cells.
    pub open spec fn cells_view(&self) -> Seq<Seq<char>> {
        cells_view(self.cells@)
    }
}

/// The texts of a sequence of cells.
pub open spec fn cells_view(cells: Seq<String>) -> Seq<Seq<char>> {
    cells.map_values(|c: String| c@)
}

/// Normalised row after parsing: a transaction.
#[derive(Debug)]
pub struct ParsedRow {
    pub date: Date,
    pub source: String,
    pub destination: String,
    pub description: String,
    /// Amount in minor units (paise); negative for money leaving the account.
    pub amount: i64,
}

/// What a parsed row holds, as mathematical values.
pub struct ParsedRowModel {
    pub date: int,
    pub source: Seq<char>,
    pub destination: Seq<char>,
    pub description: Seq<char>,
    pub amount: int,
}

impl View for ParsedRow {
    type V = ParsedRowModel;

    open spec fn view(&self) -> ParsedRowModel {
        ParsedRowModel {
            date: self.date@,
            source: self.source@,
            destination: self.destination@,
            description: self.description@,
            amount: self.amount as int,
        }
    }
}

/// Why a statement row could not be read.
#[derive(Clone, Debug, PartialEq, Eq)]
pub enum RowError {
    MissingDate,
    /// The date cell does not read; chrono's message.
    InvalidDate(String),
    MissingDescription,
    InvalidDebitCredit,
}

/// A row error, as a mathematical value.
pub enum RowFailure {
    MissingDate,
    InvalidDate(Seq<char>),
    MissingDescription,
    InvalidDebitCredit,
}

impl RowError {
    /// What kind of error this is, with its message.
    pub open spec fn failure(&self) -> RowFailure {
        match self {
            RowError::MissingDate => RowFailure::MissingDate,
            RowError::InvalidDate(m) => RowFailure::InvalidDate(m@),
            RowError::MissingDescription => RowFailure::MissingDescription,
            RowError::InvalidDebitCredit => RowFailure::InvalidDebitCredit,
        }
    }

    /// The error as text.
    pub fn message(&self) -> (r: String)
        ensures
            r@ == row_error_message(self.failure()),
    {
        match self {
            RowError::MissingDate => "Missing date".to_owned(),
            RowError::InvalidDate(m) => m.clone(),
            RowError::MissingDescription => "Missing description".to_owned(),
            RowError::InvalidDebitCredit => "Invalid debit/credit structure".to_owned(),
        }
    }
}

/// The text of a row error.
pub open spec fn row_error_message(e: RowFailure) -> Seq<char> {
    match e {
        RowFailure::MissingDate => "Missing date"@,
        RowFailure::InvalidDate(m) => m,
        RowFailure::MissingDescription => "Missing description"@,
        RowFailure::InvalidDebitCredit => "Invalid debit/credit structure"@,
    }
}

/// `text` when given, otherwise `default`.
pub open spec fn text_or(text: Option<Seq<char>>, default: Seq<char>) -> Seq<char> {
    match text {
        Some(t) => t,
        None => default,
    }
}

/// The text of an optional string.
pub open spec fn opt_text_view(text: Option<&String>) -> Option<Seq<char>> {
    match text {
        Some(t) => Some(t@),
        None => None,
    }
}

/// The outcome of reading a row, as mathematical values.
pub open spec fn row_outcome_view(r: &Result<ParsedRow, RowError>) -> Result<ParsedRowModel, RowFailure> {
    match r {
        Ok(p) => Ok(p@),
        Err(e) => Err(e.failure()),
    }
}

/// The row formats the library can read.
#[derive(Clone, Copy, Debug, PartialEq, Eq, Structural)]
pub enum RowFormat {
    /// An HDFC Bank account statement (see `hdfc_account_statement`).
    HdfcAccount,
}

/// A statement template: its name, as the user gives it, and its row format.
#[derive(Debug)]
pub struct StatementParser {
    pub name: String,
    pub format: RowFormat,
}

/// The template for HDFC Bank account statements.
pub fn hdfc_account_parser() -> (r: StatementParser)
    ensures
        r.name@ == "HDFC Account"@,
        r.format == RowFormat::HdfcAccount,
{
    StatementParser { name: "HDFC Account".to_owned(), format: RowFormat::HdfcAccount }
}

/// All available templates.
pub fn statement_parsers() -> (r: Vec<StatementParser>)
    ensures
        r@.len() == 1,
        r@[0].name@ == "HDFC Account"@,
        r@[0].format == RowFormat::HdfcAccount,
{
    let mut parsers = Vec::new();
    parsers.push(hdfc_account_parser());
    parsers
}

/// Whether a template of that name exists.
pub open spec fn is_statement_parser_name(name: Seq<char>) -> bool {
    name == "HDFC Account"@
}

/// The template of the given name; there must be one.
pub fn get_statement_parser(name: &str) -> (r: StatementParser)
    requires
        is_statement_parser_name(name@),
    ensures
        r.name@ == name@,
        r.format == RowFormat::HdfcAccount,
{
    find_statement_parser(name).unwrap()
}

/// The template of the given name, `None` when there is none.
pub fn find_statement_parser(name: &str) -> (r: Option<StatementParser>)
    ensures
        r is Some <==> is_statement_parser_name(name@),
        r matches Some(p) ==> p.name@ == name@ && p.format == RowFormat::HdfcAccount,
{
    let parsers = statement_parsers();
    let mut i: usize = 0;
    while i < parsers.len()
        invariant
            parsers@.len() == 1,
            parsers@[0].name@ == "HDFC Account"@,
            parsers@[0].format == RowFormat::HdfcAccount,
            0 <= i <= 1,
            i == 1 ==> name@ != "HDFC Account"@,
        decreases parsers@.len() - i,
    {
        if text_eq(parsers[i].name.as_str(), name) {
            return Some(hdfc_account_parser());
        }
        i = i + 1;
    }
    None
}

/// What a row reads as under a row format.
pub open spec fn format_row(
    format: RowFormat,
    default_from: Option<Seq<char>>,
    default_to: Option<Seq<char>>,
    cells: Seq<Seq<char>>,
) -> Result<ParsedRowModel, RowFailure> {
    match format {
        RowFormat::HdfcAccount => hdfc_row(default_from, default_to, cells),
    }
}

/// Whether reading the row under the format would overflow.
pub open spec fn format_row_overflows(format: RowFormat, cells: Seq<Seq<char>>) -> bool {
    match format {
        RowFormat::HdfcAccount => hdfc_row_overflows(cells),
    }
}

impl StatementParser {
    /// Reads one row with this template's row format.
    pub fn parse_row(
        &self,
        default_from: Option<&String>,
        default_to: Option<&String>,
        row: &UnparsedRow,
    ) -> (r: Result<ParsedRow, RowError>)
        requires
            !format_row_overflows(self.format, row.cells_view()),
        ensures
            row_outcome_view(&r) == format_row(
                self.format,
                opt_text_view(default_from),
                opt_text_view(default_to),
                row.cells_view(),
            ),
    {
        match self.format {
            RowFormat::HdfcAccount => parse_hdfc_row(default_from, default_to, row),
        }
    }

    /// Whether reading the row with this template would overflow.
    pub fn row_would_overflow(&self, row: &UnparsedRow) -> (r: bool)
        ensures
            r == format_row_overflows(self.format, row.cells_view()),
    {
        match self.format {
            RowFormat::HdfcAccount => hdfc_row_would_overflow(row),
        }
    }
}

/// The outcomes of reading each row of a statement, in order.
pub open spec fn statement_outcomes(
    format: RowFormat,
    default_from: Option<Seq<char>>,
    default_to: Option<Seq<char>>,
    rows: Seq<Seq<Seq<char>>>,
) -> Seq<Result<ParsedRowModel, RowFailure>> {
    rows.map_values(|cells: Seq<Seq<char>>| format_row(format, default_from, default_to, cells))
}

/// The transactions of a statement: the rows that read successfully, in
/// their order in the statement; the others are skipped.
pub open spec fn statement_rows(
    format: RowFormat,
    default_from: Option<Seq<char>>,
    default_to: Option<Seq<char>>,
    rows: Seq<Seq<Seq<char>>>,
) -> Seq<ParsedRowModel>
    decreases rows.len(),
{
    if rows.len() == 0 {
        seq![]
    } else {
        let before = statement_rows(format, default_from, default_to, rows.drop_last());
        match format_row(format, default_from, default_to, rows.last()) {
            Ok(p) => before.push(p),
            Err(_) => before,
        }
    }
}

/// The transaction of a row outcome, if the row read.
pub open spec fn ok_transaction(outcome: Result<ParsedRowModel, RowFailure>) -> Option<ParsedRowModel> {
    match outcome {
        Ok(p) => Some(p),
        Err(_) => None,
    }
}

/// The transactions of the rows that read, in order, one for each.
pub open spec fn read_transactions(outcomes: Seq<Result<ParsedRowModel, RowFailure>>) -> Seq<ParsedRowModel> {
    outcomes.filter_map(|o: Result<ParsedRowModel, RowFailure>| ok_transaction(o))
}

/// A statement yields exactly one transaction for each row that reads, the
/// one that row reads as, in the order of the rows; nothing else. Two equal
/// rows give two equal transactions.
pub proof fn lemma_statement_rows_are_read_rows(
    format: RowFormat,
    default_from: Option<Seq<char>>,
    default_to: Option<Seq<char>>,
    rows: Seq<Seq<Seq<char>>>,
)
    ensures
        statement_rows(format, default_from, default_to, rows) == read_transactions(
            statement_outcomes(format, default_from, default_to, rows),
        ),
    decreases rows.len(),
{
    let outcomes = statement_outcomes(format, default_from, default_to, rows);
    if rows.len() > 0 {
        lemma_statement_rows_are_read_rows(format, default_from, default_to, rows.drop_last());
        let prev = statement_outcomes(format, default_from, default_to, rows.drop_last());
        assert(outcomes.drop_last() =~= prev);
        assert(outcomes.last() == format_row(format, default_from, default_to, rows.last()));
        let before = statement_rows(format, default_from, default_to, rows.drop_last());
        match outcomes.last() {
            Ok(p) => {
                assert(before.push(p) =~= before + seq![p]);
            },
            Err(_) => {},
        }
    } else {
        assert(outcomes =~= seq![]);
    }
}

/// A statement yields at most one transaction per row; every transaction's
/// source and destination are the default accounts when given, else its
/// description.
pub proof fn lemma_statement_rows_accounts(
    format: RowFormat,
    default_from: Option<Seq<char>>,
    default_to: Option<Seq<char>>,
    rows: Seq<Seq<Seq<char>>>,
)
    ensures
        statement_rows(format, default_from, default_to, rows).len() <= rows.len(),
        forall|i: int|
            0 <= i < statement_rows(format, default_from, default_to, rows).len() ==> {
                let t = #[trigger] statement_rows(format, default_from, default_to, rows)[i];
                &&& t.source == text_or(default_from, t.description)
                &&& t.destination == text_or(default_to, t.description)
            },
    decreases rows.len(),
{
    if rows.len() > 0 {
        lemma_statement_rows_accounts(format, default_from, default_to, rows.drop_last());
    }
}

/// The texts of the cells of each row.
pub open spec fn rows_view(data: Seq<Vec<String>>) -> Seq<Seq<Seq<char>>> {
    data.map_values(|cells: Vec<String>| cells_view(cells@))
}

/// Whether some row of the statement would overflow when read.
pub open spec fn statement_overflows(format: RowFormat, rows: Seq<Seq<Seq<char>>>) -> bool {
    exists|i: int| 0 <= i < rows.len() && format_row_overflows(format, #[trigger] rows[i])
}

/// Copies the cells of a row.
fn copy_cells(cells: &Vec<String>) -> (r: Vec<String>)
    ensures
        r@ == cells@,
{
    let mut out: Vec<String> = Vec::new();
    let mut i: usize = 0;
    while i < cells.len()
        invariant
            i <= cells@.len(),
            out@ == cells@.take(i as int),
        decreases cells@.len() - i,
    {
        out.push(cells[i].clone());
        assert(out@ =~= cells@.take(i + 1));
        i = i + 1;
    }
    assert(cells@.take(cells@.len() as int) =~= cells@);
    out
}

/// The outcome of reading each row of a statement with the named template,
/// in order.
pub fn parse_statement_outcomes(
    name: &str,
    default_from: Option<&String>,
    default_to: Option<&String>,
    data: &Vec<Vec<String>>,
) -> (r: Vec<Result<ParsedRow, RowError>>)
    requires
        is_statement_parser_name(name@),
        !statement_overflows(RowFormat::HdfcAccount, rows_view(data@)),
    ensures
        r@.map_values(|o: Result<ParsedRow, RowError>| row_outcome_view(&o)) == statement_outcomes(
            RowFormat::HdfcAccount,
            opt_text_view(default_from),
            opt_text_view(default_to),
            rows_view(data@),
        ),
{
    let parser = get_statement_parser(name);
    let ghost from = opt_text_view(default_from);
    let ghost to = opt_text_view(default_to);
    let mut out: Vec<Result<ParsedRow, RowError>> = Vec::new();
    let mut i: usize = 0;
    while i < data.len()
        invariant
            parser.format == RowFormat::HdfcAccount,
            from == opt_text_view(default_from),
            to == opt_text_view(default_to),
            !statement_overflows(RowFormat::HdfcAccount, rows_view(data@)),
            i <= data@.len(),
            out@.len() == i,
            forall|k: int|
                0 <= k < i ==> row_outcome_view(&#[trigger] out@[k]) == format_row(
                    RowFormat::HdfcAccount,
                    from,
                    to,
                    rows_view(data@)[k],
                ),
        decreases data@.len() - i,
    {
        let row = UnparsedRow { cells: copy_cells(&data[i]) };
        assert(row.cells_view() == rows_view(data@)[i as int]);
        assert(!format_row_overflows(RowFormat::HdfcAccount, rows_view(data@)[i as int]));
        let ghost before = out@;
        let outcome = parser.parse_row(default_from, default_to, &row);
        assert(row_outcome_view(&outcome) == format_row(RowFormat::HdfcAccount, from, to, rows_view(data@)[i as int]));
        out.push(outcome);
        assert forall|k: int| 0 <= k < i + 1 implies row_outcome_view(&#[trigger] out@[k]) == format_row(
            RowFormat::HdfcAccount,
            from,
            to,
            rows_view(data@)[k],
        ) by {
            if k < i {
                assert(out@[k] == before[k]);
            }
        }
        i = i + 1;
    }
    assert(out@.map_values(|o: Result<ParsedRow, RowError>| row_outcome_view(&o)) =~= statement_outcomes(
        RowFormat::HdfcAccount,
        from,
        to,
        rows_view(data@),
    ));
    out
}

/// The transactions of a statement read with the named template: the rows
/// that read successfully, in order; rows that do not read are skipped.
pub fn parse_statement(
    name: &str,
    default_from: Option<&String>,
    default_to: Option<&String>,
    data: Vec<Vec<String>>,
) -> (r: Vec<ParsedRow>)
    requires
        is_statement_parser_name(name@),
        !statement_overflows(RowFormat::HdfcAccount, rows_view(data@)),
    ensures
        r@.map_values(|p: ParsedRow| p@) == statement_rows(
            RowFormat::HdfcAccount,
            opt_text_view(default_from),
            opt_text_view(default_to),
            rows_view(data@),
        ),
        r@.map_values(|p: ParsedRow| p@) == read_transactions(
            statement_outcomes(
                RowFormat::HdfcAccount,
                opt_text_view(default_from),
                opt_text_view(default_to),
                rows_view(data@),
            ),
        ),
{
    proof {
        lemma_statement_rows_are_read_rows(
            RowFormat::HdfcAccount,
            opt_text_view(default_from),
            opt_text_view(default_to),
            rows_view(data@),
        );
    }
    let parser = get_statement_parser(name);
    let ghost from = opt_text_view(default_from);
    let ghost to = opt_text_view(default_to);
    let ghost rows = rows_view(data@);
    let mut out: Vec<ParsedRow> = Vec::new();
    let mut i: usize = 0;
    while i < data.len()
        invariant
            parser.format == RowFormat::HdfcAccount,
            from == opt_text_view(default_from),
            to == opt_text_view(default_to),
            !statement_overflows(RowFormat::HdfcAccount, rows),
            rows == rows_view(data@),
            i <= data@.len(),
            out@.map_values(|p: ParsedRow| p@) == statement_rows(
                RowFormat::HdfcAccount,
                from,
                to,
                rows.take(i as int),
            ),
        decreases data@.len() - i,
    {
        let ghost before = out@;
        let row = UnparsedRow { cells: copy_cells(&data[i]) };
        assert(row.cells_view() == rows[i as int]);
        assert(!format_row_overflows(RowFormat::HdfcAccount, rows[i as int]));
        assert(rows.take(i + 1).drop_last() =~= rows.take(i as int));
        assert(rows.take(i + 1).last() == rows[i as int]);
        let outcome = parser.parse_row(default_from, default_to, &row);
        let ghost step = format_row(RowFormat::HdfcAccount, from, to, rows[i as int]);
        assert(row_outcome_view(&outcome) == step);
        assert(statement_rows(RowFormat::HdfcAccount, from, to, rows.take(i + 1)) == match step {
            Ok(p) => statement_rows(RowFormat::HdfcAccount, from, to, rows.take(i as int)).push(p),
            Err(_) => statement_rows(RowFormat::HdfcAccount, from, to, rows.take(i as int)),
        });
        match outcome {
            Ok(p) => {
                out.push(p);
                assert(out@.map_values(|p: ParsedRow| p@) =~= before.map_values(|p: ParsedRow| p@).push(p@));
            },
            Err(_) => {},
        }
        i = i + 1;
    }
    assert(rows.take(data@.len() as int) =~= rows);
    out
}

/// Whether reading some row of the statement with the template would
/// overflow (see `hdfc_row_overflows`).
pub fn statement_would_overflow(parser: &StatementParser, data: &Vec<Vec<String>>) -> (r: bool)
    ensures
        r == statement_overflows(parser.format, rows_view(data@)),
{
    let mut i: usize = 0;
    while i < data.len()
        invariant
            i <= data@.len(),
            forall|k: int| 0 <= k < i ==> !format_row_overflows(parser.format, #[trigger] rows_view(data@)[k]),
        decreases data@.len() - i,
    {
        let row = UnparsedRow { cells: copy_cells(&data[i]) };
        assert(row.cells_view() == rows_view(data@)[i as int]);
        if parser.row_would_overflow(&row) {
            return true;
        }
        i = i + 1;
    }
    false
}

/// Reads a statement like `parse_statement_outcomes`, or gives `None` when
/// some row would make the importer panic (see `hdfc_row_overflows`).
pub fn parse_statement_outcomes_checked(
    name: &str,
    default_from: Option<&String>,
    default_to: Option<&String>,
    data: &Vec<Vec<String>>,
) -> (r: Option<Vec<Result<ParsedRow, RowError>>>)
    requires
        is_statement_parser_name(name@),
    ensures
        r is None <==> statement_overflows(RowFormat::HdfcAccount, rows_view(data@)),
        r matches Some(v) ==> v@.map_values(|o: Result<ParsedRow, RowError>| row_outcome_view(&o))
            == statement_outcomes(
            RowFormat::HdfcAccount,
            opt_text_view(default_from),
            opt_text_view(default_to),
            rows_view(data@),
        ),
{
    let parser = hdfc_account_parser();
    if statement_would_overflow(&parser, data) {
        None
    } else {
        Some(parse_statement_outcomes(name, default_from, default_to, data))
    }
}

/// Reads a statement like `parse_statement`, or gives `None` when some row
/// would make the importer panic (see `hdfc_row_overflows`).
pub fn parse_statement_checked(
    name: &str,
    default_from: Option<&String>,
    default_to: Option<&String>,
    data: Vec<Vec<String>>,
) -> (r: Option<Vec<ParsedRow>>)
    requires
        is_statement_parser_name(name@),
    ensures
        r is None <==> statement_overflows(RowFormat::HdfcAccount, rows_view(data@)),
        r matches Some(v) ==> v@.map_values(|p: ParsedRow| p@) == statement_rows(
            RowFormat::HdfcAccount,
            opt_text_view(default_from),
            opt_text_view(default_to),
            rows_view(data@),
        ),
        r matches Some(v) ==> v@.map_values(|p: ParsedRow| p@) == read_transactions(
            statement_outcomes(
                RowFormat::HdfcAccount,
                opt_text_view(default_from),
                opt_text_view(default_to),
                rows_view(data@),
            ),
        ),
{
    let parser = hdfc_account_parser();
    if statement_would_overflow(&parser, &data) {
        None
    } else {
        Some(parse_statement(name, default_from, default_to, data))
    }
}

} // verus!
