# rupee

A personal-finance and market-analysis tool: it imports bank statements
(CSV or spreadsheet) as transactions, imports the exchange's daily closing
prices, and reports rolling returns of mutual funds.

The rules behind it are a library verified with Verus:

- `src/calendar.rs`, `src/text.rs`, `src/money.rs`, `src/csv_table.rs`: days,
  text, rupee amounts and CSV tables, over chrono, std, rusty_money and csv.
- `src/file_parsers`: which file type a statement is read as, and its rows.
- `src/statement_parsers`: statement templates and how a row becomes a
  transaction.
- `src/data_sources`: NAV histories from mfapi.in as price histories; the
  bhavcopy archive, its address, and its equity closing prices.
- `src/commands`: the trading calendar, the holding periods and the rolling
  windows of a price history.
- `src/database`: how a database URL is shown without credentials, and the
  records handed to the database.

`app/` is the command-line program around it: argument parsing, HTTP, the
PostgreSQL database (migrations are read from a `migrations` directory at
start-up), files, and the floating-point return statistics. `tests/` runs
the library on concrete values.
