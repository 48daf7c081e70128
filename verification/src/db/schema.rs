//! The statements that the record store runs and the rows that it reads,
//! without the connection that carries them: a caller runs each statement
//! and hands back what came of it.

use vstd::multiset::Multiset;
use vstd::prelude::*;
use crate::config::ApiResponse;
use crate::text::{decimal, decimal_text};
use crate::db::models::{
    optional_text, Amount, CategoryMap, Client, ClientView, TaxReturn, TaxReturnView, Timestamp,
};
use vstd::seq_lib::{to_multiset_build, to_multiset_remove};

verus! {

/// Creates the two tables, unless they are there already, and has the
/// store hold every tax return to an existing client.
pub const SCHEMA: &'static str =
    "PRAGMA foreign_keys = ON; \
    CREATE TABLE IF NOT EXISTS clients (\
        client_id INTEGER PRIMARY KEY AUTOINCREMENT, \
        first_name TEXT NOT NULL, \
        last_name TEXT NOT NULL, \
        social_security_number TEXT NOT NULL, \
        address TEXT NOT NULL, \
        phone_number TEXT NOT NULL, \
        email TEXT NOT NULL, \
        created_at DATETIME NOT NULL DEFAULT CURRENT_TIMESTAMP, \
        updated_at DATETIME NOT NULL DEFAULT CURRENT_TIMESTAMP\
    ); \
    CREATE TABLE IF NOT EXISTS tax_returns (\
        tax_return_id INTEGER PRIMARY KEY AUTOINCREMENT, \
        client_id INTEGER NOT NULL REFERENCES clients(client_id), \
        tax_year INTEGER NOT NULL, \
        filing_status TEXT NOT NULL, \
        income_sources TEXT NOT NULL DEFAULT '{}', \
        deductions TEXT NOT NULL DEFAULT '{}', \
        credits TEXT NOT NULL DEFAULT '{}', \
        taxes_paid REAL NOT NULL, \
        tax_liability REAL NOT NULL, \
        refund_or_amount_due REAL NOT NULL, \
        created_at DATETIME NOT NULL DEFAULT CURRENT_TIMESTAMP, \
        updated_at DATETIME NOT NULL DEFAULT CURRENT_TIMESTAMP\
    );";

/// Stores a client; its six parameters are the client's fields, in the order
/// of the column list.
pub const INSERT_CLIENT: &'static str =
    "INSERT INTO clients (first_name, last_name, social_security_number, address, phone_number, email) \
     VALUES (?, ?, ?, ?, ?, ?)";

/// Reads the client whose id is the one parameter.
pub const SELECT_CLIENT: &'static str =
    "SELECT client_id, first_name, last_name, social_security_number, address, phone_number, email, \
     created_at, updated_at FROM clients WHERE client_id = ?";

/// Reads every client.
pub const SELECT_CLIENTS: &'static str =
    "SELECT client_id, first_name, last_name, social_security_number, address, phone_number, email, \
     created_at, updated_at FROM clients";

/// Stores a tax return; its nine parameters are the return's fields, in the
/// order of the column list.
pub const INSERT_TAX_RETURN: &'static str =
    "INSERT INTO tax_returns (client_id, tax_year, filing_status, income_sources, deductions, credits, \
     taxes_paid, tax_liability, refund_or_amount_due) VALUES (?, ?, ?, ?, ?, ?, ?, ?, ?)";

/// Reads the tax return whose id is the one parameter.
pub const SELECT_TAX_RETURN: &'static str =
    "SELECT tax_return_id, client_id, tax_year, filing_status, income_sources, deductions, credits, \
     taxes_paid, tax_liability, refund_or_amount_due, created_at, updated_at \
     FROM tax_returns WHERE tax_return_id = ?";

/// Reads every tax return.
pub const SELECT_TAX_RETURNS: &'static str =
    "SELECT tax_return_id, client_id, tax_year, filing_status, income_sources, deductions, credits, \
     taxes_paid, tax_liability, refund_or_amount_due, created_at, updated_at \
     FROM tax_returns";

/// Reads the tax returns of the client whose id is the one parameter, the
/// latest year first.
pub const SELECT_CLIENT_TAX_RETURNS: &'static str =
    "SELECT tax_return_id, client_id, tax_year, filing_status, income_sources, deductions, credits, \
     taxes_paid, tax_liability, refund_or_amount_due, created_at, updated_at \
     FROM tax_returns WHERE client_id = ? ORDER BY tax_year DESC";

/// A value that a statement binds or a row holds.
pub enum SqlValue {
    Null,
    Integer(i64),
    Real(Amount),
    Text(String),
    Blob(Vec<u8>),
}

/// What a `SqlValue` holds.
pub ghost enum Cell {
    Null,
    Integer(i64),
    Real(Amount),
    Text(Seq<char>),
    Blob(Seq<u8>),
}

impl View for SqlValue {
    type V = Cell;

    open spec fn view(&self) -> Cell {
        match self {
            SqlValue::Null => Cell::Null,
            SqlValue::Integer(i) => Cell::Integer(*i),
            SqlValue::Real(a) => Cell::Real(*a),
            SqlValue::Text(s) => Cell::Text(s@),
            SqlValue::Blob(b) => Cell::Blob(b@),
        }
    }
}

/// What each value of `values` holds.
pub open spec fn cells(values: Seq<SqlValue>) -> Seq<Cell> {
    values.map_values(|v: SqlValue| v@)
}

/// A statement to run: its text and the values of its parameters, in order.
pub struct Statement {
    pub sql: String,
    pub params: Vec<SqlValue>,
}

impl View for Statement {
    type V = (Seq<char>, Seq<Cell>);

    open spec fn view(&self) -> (Seq<char>, Seq<Cell>) {
        (self.sql@, cells(self.params@))
    }
}

/// Why the record store failed.
pub enum StoreError {
    /// The store could not be opened, or its schema not applied.
    Init(String),
    /// A record could not be written.
    Write(String),
    /// A record could not be read.
    Read(String),
    /// A tax return names a client that the store does not hold.
    ReferentialIntegrity { client_id: i64 },
}

impl StoreError {
    /// What the error tells the reader: the kind of failure, and the
    /// store's own message or the id of the missing client.
    pub open spec fn message_text(self) -> Seq<char> {
        match self {
            StoreError::Init(cause) => "Storage initialization failed: "@ + cause@,
            StoreError::Write(cause) => "Storage write failed: "@ + cause@,
            StoreError::Read(cause) => "Storage read failed: "@ + cause@,
            StoreError::ReferentialIntegrity { client_id } => "No such client: "@ + decimal_text(
                client_id as int,
            ),
        }
    }

    /// The envelope that reports the error.
    pub fn response(&self) -> (response: ApiResponse)
        ensures
            response@ == ("error"@, self.message_text()),
    {
        let message = match self {
            StoreError::Init(cause) => String::from_str("Storage initialization failed: ").concat(
                cause.as_str(),
            ),
            StoreError::Write(cause) => String::from_str("Storage write failed: ").concat(
                cause.as_str(),
            ),
            StoreError::Read(cause) => String::from_str("Storage read failed: ").concat(
                cause.as_str(),
            ),
            StoreError::ReferentialIntegrity { client_id } => String::from_str(
                "No such client: ",
            ).concat(decimal(*client_id).as_str()),
        };
        ApiResponse { status: String::from_str("error"), message }
    }
}

/// What came of applying the schema: nothing to report, or the store's
/// message where it failed.
pub fn initialized(outcome: Result<(), String>) -> (result: Result<(), StoreError>)
    ensures
        match outcome {
            Ok(_) => result is Ok,
            Err(message) => result == Err::<(), StoreError>(StoreError::Init(message)),
        },
{
    match outcome {
        Ok(_) => Ok(()),
        Err(message) => Err(StoreError::Init(message)),
    }
}

/// What came of storing a record: the id that the store assigned, or the
/// store's message where it failed.
pub fn created(outcome: Result<i64, String>) -> (result: Result<i64, StoreError>)
    ensures
        match outcome {
            Ok(id) => result == Ok::<i64, StoreError>(id),
            Err(message) => result == Err::<i64, StoreError>(StoreError::Write(message)),
        },
{
    match outcome {
        Ok(id) => Ok(id),
        Err(message) => Err(StoreError::Write(message)),
    }
}

/// What came of looking for one record.
pub enum Lookup<T> {
    Found(T),
    NotFound,
    Failed(StoreError),
}

/// The statement that stores `client`. The id and the two timestamps are the
/// store's to assign, and are not bound.
pub fn create_client(client: &Client) -> (statement: Statement)
    ensures
        statement@ == (INSERT_CLIENT@, client_parameters(client@)),
{
    let mut params: Vec<SqlValue> = Vec::new();
    params.push(SqlValue::Text(client.first_name.clone()));
    params.push(SqlValue::Text(client.last_name.clone()));
    params.push(SqlValue::Text(client.social_security_number.clone()));
    params.push(SqlValue::Text(client.address.clone()));
    params.push(SqlValue::Text(client.phone_number.clone()));
    params.push(SqlValue::Text(client.email.clone()));
    Statement { sql: String::from_str(INSERT_CLIENT), params }
}

/// The values that storing a client binds.
pub open spec fn client_parameters(client: ClientView) -> Seq<Cell> {
    seq![
        Cell::Text(client.first_name),
        Cell::Text(client.last_name),
        Cell::Text(client.social_security_number),
        Cell::Text(client.address),
        Cell::Text(client.phone_number),
        Cell::Text(client.email),
    ]
}

/// The statement that reads the client `client_id`.
pub fn get_client(client_id: i64) -> (statement: Statement)
    ensures
        statement@ == (SELECT_CLIENT@, seq![Cell::Integer(client_id)]),
{
    let mut params: Vec<SqlValue> = Vec::new();
    params.push(SqlValue::Integer(client_id));
    Statement { sql: String::from_str(SELECT_CLIENT), params }
}

/// The text that `cell` holds, if it holds text.
pub open spec fn text_of(cell: Cell) -> Option<Seq<char>> {
    match cell {
        Cell::Text(text) => Some(text),
        _ => None,
    }
}

/// The integer that `cell` holds, if it holds one.
pub open spec fn integer_of(cell: Cell) -> Option<i64> {
    match cell {
        Cell::Integer(i) => Some(i),
        _ => None,
    }
}

/// The amount that `cell` holds, if it holds one.
pub open spec fn amount_of(cell: Cell) -> Option<Amount> {
    match cell {
        Cell::Real(amount) => Some(amount),
        _ => None,
    }
}

/// The point in time that a cell holding an integer or a text stands for,
/// as rusqlite converts a column to `chrono::DateTime<chrono::Utc>`: an
/// integer counts seconds, a text is a date and a time of day in one of the
/// notations that the conversion knows. `None` where the conversion fails.
pub uninterp spec fn stored_time(cell: Cell) -> Option<Timestamp>;

/// What a timestamp column holds: no time where the cell is null, else the
/// time that its integer or text stands for. `None` where it stands for no
/// time, or the cell holds anything else.
pub open spec fn timestamp_of(cell: Cell) -> Option<Option<Timestamp>> {
    match cell {
        Cell::Null => Some(None),
        Cell::Integer(_) | Cell::Text(_) => match stored_time(cell) {
            Some(time) => Some(Some(time)),
            None => None,
        },
        _ => None,
    }
}

/// Calls rusqlite's `FromSql::column_result` for
/// `chrono::DateTime<chrono::Utc>` on an integer or a text, and takes the
/// seconds and nanoseconds of the time that it gives by chrono's
/// `DateTime::timestamp` and `DateTime::timestamp_subsec_nanos`. The
/// conversion reads its argument and nothing else; the contract gives what
/// comes of it a name. Of an integer it claims one thing more: the
/// conversion goes by `DateTime::from_timestamp` with no nanoseconds, which
/// chrono documents to give back the seconds it was made from, so the time,
/// where there is one, has the integer for its seconds.
#[verifier::external_body]
fn column_time(value: &SqlValue) -> (time: Option<Timestamp>)
    requires
        value@ is Integer || value@ is Text,
    ensures
        time == stored_time(value@),
        value@ is Integer && time is Some ==> time == Some(
            Timestamp { seconds: value@->Integer_0, nanos: 0 },
        ),
{
    let column = match value {
        SqlValue::Integer(seconds) => rusqlite::types::ValueRef::Integer(*seconds),
        SqlValue::Text(text) => rusqlite::types::ValueRef::Text(text.as_bytes()),
        _ => rusqlite::types::ValueRef::Null,
    };
    let time = <chrono::DateTime<chrono::Utc> as rusqlite::types::FromSql>::column_result(column);
    time.ok().map(|t| Timestamp { seconds: t.timestamp(), nanos: t.timestamp_subsec_nanos() })
}

/// Reads a timestamp column.
pub fn read_time(value: &SqlValue) -> (time: Option<Option<Timestamp>>)
    ensures
        time == timestamp_of(value@),
        value@ is Integer && time is Some ==> time == Some(
            Some(Timestamp { seconds: value@->Integer_0, nanos: 0 }),
        ),
{
    match value {
        SqlValue::Null => Some(None),
        SqlValue::Integer(_) => match column_time(value) {
            Some(time) => Some(Some(time)),
            None => None,
        },
        SqlValue::Text(_) => match column_time(value) {
            Some(time) => Some(Some(time)),
            None => None,
        },
        _ => None,
    }
}

fn text_at(row: &Vec<SqlValue>, i: usize) -> (text: Option<String>)
    requires
        i < row@.len(),
    ensures
        optional_text(text) == text_of(row@[i as int]@),
{
    match &row[i] {
        SqlValue::Text(text) => Some(text.clone()),
        _ => None,
    }
}

fn integer_at(row: &Vec<SqlValue>, i: usize) -> (value: Option<i64>)
    requires
        i < row@.len(),
    ensures
        value == integer_of(row@[i as int]@),
{
    match &row[i] {
        SqlValue::Integer(value) => Some(*value),
        _ => None,
    }
}

fn amount_at(row: &Vec<SqlValue>, i: usize) -> (value: Option<Amount>)
    requires
        i < row@.len(),
    ensures
        value == amount_of(row@[i as int]@),
{
    match &row[i] {
        SqlValue::Real(value) => Some(*value),
        _ => None,
    }
}

/// The client that a row holds in its first seven cells, the id and the six
/// text fields in the order of `SELECT_CLIENT`, with the two timestamps
/// given. `None` where the row is shorter or a cell holds another kind of
/// value.
pub open spec fn client_of_cells(row: Seq<Cell>, created_at: Option<Timestamp>, updated_at: Option<Timestamp>) -> Option<
    ClientView,
> {
    if row.len() >= 7 && integer_of(row[0]) is Some && text_of(row[1]) is Some && text_of(row[2]) is Some
        && text_of(row[3]) is Some && text_of(row[4]) is Some && text_of(row[5]) is Some && text_of(
        row[6],
    ) is Some {
        Some(
            ClientView {
                client_id: Some(integer_of(row[0])->0),
                first_name: text_of(row[1])->0,
                last_name: text_of(row[2])->0,
                social_security_number: text_of(row[3])->0,
                address: text_of(row[4])->0,
                phone_number: text_of(row[5])->0,
                email: text_of(row[6])->0,
                created_at,
                updated_at,
            },
        )
    } else {
        None
    }
}

/// The client that a row of nine cells or more holds: the id, the six text
/// fields and the two timestamps, in the order of `SELECT_CLIENT`. `None`
/// where the row is shorter, a cell holds another kind of value, or a
/// timestamp stands for no time.
pub open spec fn client_of_row(row: Seq<Cell>) -> Option<ClientView> {
    if row.len() >= 9 && timestamp_of(row[7]) is Some && timestamp_of(row[8]) is Some {
        client_of_cells(row, timestamp_of(row[7])->0, timestamp_of(row[8])->0)
    } else {
        None
    }
}

/// Reads a client from the first seven cells of a row, and gives it the two
/// timestamps.
pub fn client_with_times(row: &Vec<SqlValue>, created_at: Option<Timestamp>, updated_at: Option<Timestamp>) -> (client:
    Option<Client>)
    ensures
        match client {
            Some(client) => client_of_cells(cells(row@), created_at, updated_at) == Some(client@),
            None => client_of_cells(cells(row@), created_at, updated_at) is None,
        },
{
    if row.len() < 7 {
        return None;
    }
    let client_id = integer_at(row, 0)?;
    let first_name = text_at(row, 1)?;
    let last_name = text_at(row, 2)?;
    let social_security_number = text_at(row, 3)?;
    let address = text_at(row, 4)?;
    let phone_number = text_at(row, 5)?;
    let email = text_at(row, 6)?;
    Some(
        Client {
            client_id: Some(client_id),
            first_name,
            last_name,
            social_security_number,
            address,
            phone_number,
            email,
            created_at,
            updated_at,
        },
    )
}

/// Reads a client from a row of `SELECT_CLIENT` or `SELECT_CLIENTS`.
pub fn client_from_row(row: &Vec<SqlValue>) -> (client: Option<Client>)
    ensures
        match client {
            Some(client) => client_of_row(cells(row@)) == Some(client@),
            None => client_of_row(cells(row@)) is None,
        },
{
    if row.len() < 9 {
        return None;
    }
    let created_at = read_time(&row[7])?;
    let updated_at = read_time(&row[8])?;
    client_with_times(row, created_at, updated_at)
}

/// The three category tables of a tax return in the form in which the store
/// keeps them: each as one text.
pub struct EncodedTables {
    pub income_sources: String,
    pub deductions: String,
    pub credits: String,
}

/// The values that storing a tax return binds.
pub open spec fn tax_return_parameters(
    tax_return: TaxReturnView,
    income_sources: Seq<char>,
    deductions: Seq<char>,
    credits: Seq<char>,
) -> Seq<Cell> {
    seq![
        Cell::Integer(tax_return.client_id),
        Cell::Integer(tax_return.tax_year as i64),
        Cell::Text(tax_return.filing_status),
        Cell::Text(income_sources),
        Cell::Text(deductions),
        Cell::Text(credits),
        Cell::Real(tax_return.taxes_paid),
        Cell::Real(tax_return.tax_liability),
        Cell::Real(tax_return.refund_or_amount_due),
    ]
}

/// `parent` is the client that `tax_return` names.
pub open spec fn is_parent_of(parent: Lookup<Client>, tax_return: TaxReturnView) -> bool {
    parent matches Lookup::Found(client) && client.client_id == Some(tax_return.client_id)
}

/// The statement that stores `tax_return`, with its three tables in the
/// encoded form `tables`. `parent` is what came of looking for the client
/// that the return names: the return is stored only if that client was
/// found.
pub fn create_tax_return(tax_return: &TaxReturn, tables: EncodedTables, parent: Lookup<Client>) -> (statement:
    Result<Statement, StoreError>)
    ensures
        match statement {
            Ok(statement) => is_parent_of(parent, tax_return@) && statement@ == (
                INSERT_TAX_RETURN@,
                tax_return_parameters(
                    tax_return@,
                    tables.income_sources@,
                    tables.deductions@,
                    tables.credits@,
                ),
            ),
            Err(error) => !is_parent_of(parent, tax_return@) && match parent {
                Lookup::Failed(cause) => error == cause,
                _ => error == (StoreError::ReferentialIntegrity { client_id: tax_return.client_id }),
            },
        },
{
    match parent {
        Lookup::Found(client) => {
            match client.client_id {
                Some(id) => {
                    if id != tax_return.client_id {
                        return Err(
                            StoreError::ReferentialIntegrity { client_id: tax_return.client_id },
                        );
                    }
                },
                None => {
                    return Err(StoreError::ReferentialIntegrity { client_id: tax_return.client_id });
                },
            }
        },
        Lookup::NotFound => {
            return Err(StoreError::ReferentialIntegrity { client_id: tax_return.client_id });
        },
        Lookup::Failed(cause) => {
            return Err(cause);
        },
    }
    let mut params: Vec<SqlValue> = Vec::new();
    params.push(SqlValue::Integer(tax_return.client_id));
    params.push(SqlValue::Integer(tax_return.tax_year as i64));
    params.push(SqlValue::Text(tax_return.filing_status.clone()));
    params.push(SqlValue::Text(tables.income_sources));
    params.push(SqlValue::Text(tables.deductions));
    params.push(SqlValue::Text(tables.credits));
    params.push(SqlValue::Real(tax_return.taxes_paid));
    params.push(SqlValue::Real(tax_return.tax_liability));
    params.push(SqlValue::Real(tax_return.refund_or_amount_due));
    Ok(Statement { sql: String::from_str(INSERT_TAX_RETURN), params })
}

/// The statement that reads the tax return `tax_return_id`.
pub fn get_tax_return(tax_return_id: i64) -> (statement: Statement)
    ensures
        statement@ == (SELECT_TAX_RETURN@, seq![Cell::Integer(tax_return_id)]),
{
    let mut params: Vec<SqlValue> = Vec::new();
    params.push(SqlValue::Integer(tax_return_id));
    Statement { sql: String::from_str(SELECT_TAX_RETURN), params }
}

/// The statement that reads the tax returns of the client `client_id`.
pub fn get_client_tax_returns(client_id: i64) -> (statement: Statement)
    ensures
        statement@ == (SELECT_CLIENT_TAX_RETURNS@, seq![Cell::Integer(client_id)]),
{
    let mut params: Vec<SqlValue> = Vec::new();
    params.push(SqlValue::Integer(client_id));
    Statement { sql: String::from_str(SELECT_CLIENT_TAX_RETURNS), params }
}

/// What to make of a table whose text does not decode.
#[derive(Debug, Clone, Copy, PartialEq, Eq, Structural)]
pub enum TablePolicy {
    /// The table comes out empty, and the record is read all the same.
    Lenient,
    /// The record counts as unreadable.
    Strict,
}

/// A row of `tax_returns` as it was read, beside the tables that the texts
/// of its columns 4 to 6 decode to: `None` for a text that does not decode.
/// An amount that the store handed out as a whole number stands in `cells`
/// as the amount that it converts to.
pub struct TaxReturnRow {
    pub cells: Vec<SqlValue>,
    pub income_sources: Option<CategoryMap>,
    pub deductions: Option<CategoryMap>,
    pub credits: Option<CategoryMap>,
}

/// The texts of the three tables of a row, those of its cells 4 to 6, in the
/// order of `SELECT_TAX_RETURN`.
pub open spec fn table_texts_of(row: Seq<Cell>) -> Option<(Seq<char>, Seq<char>, Seq<char>)> {
    if row.len() >= 7 && text_of(row[4]) is Some && text_of(row[5]) is Some && text_of(row[6]) is Some {
        Some((text_of(row[4])->0, text_of(row[5])->0, text_of(row[6])->0))
    } else {
        None
    }
}

/// Picks the texts of the three tables out of a row of `tax_returns`, for
/// the caller to decode. `None` where the row is too short or one of the
/// three cells holds no text: such a row holds no tax return.
pub fn table_texts(row: &Vec<SqlValue>) -> (texts: Option<EncodedTables>)
    ensures
        match texts {
            Some(texts) => table_texts_of(cells(row@)) == Some(
                (texts.income_sources@, texts.deductions@, texts.credits@),
            ),
            None => table_texts_of(cells(row@)) is None,
        },
{
    if row.len() < 7 {
        return None;
    }
    let income_sources = text_at(row, 4)?;
    let deductions = text_at(row, 5)?;
    let credits = text_at(row, 6)?;
    Some(EncodedTables { income_sources, deductions, credits })
}

/// Column `i` of a row of `tax_returns` is one of the three that hold an
/// amount: taxes paid, tax liability, and refund or amount due.
pub open spec fn is_amount_column(i: int) -> bool {
    7 <= i <= 9
}

/// Whether column `i` of a row of `tax_returns` holds an amount. The store
/// may hand out an amount that is a whole number as an integer, which the
/// caller converts before the row is read.
pub fn holds_amount(i: usize) -> (yes: bool)
    ensures
        yes == is_amount_column(i as int),
{
    7 <= i && i <= 9
}

/// The table that a column decoded to, or the empty table where it did not
/// decode.
pub open spec fn table_or_empty(table: Option<CategoryMap>) -> Map<Seq<char>, Amount> {
    match table {
        Some(table) => table@,
        None => Map::empty(),
    }
}

/// The year that `cell` holds, if it holds an integer that is a year.
pub open spec fn year_of(cell: Cell) -> Option<i32> {
    match cell {
        Cell::Integer(i) => if i32::MIN <= i <= i32::MAX {
            Some(i as i32)
        } else {
            None
        },
        _ => None,
    }
}

/// The three tables are all there, or the policy does without.
pub open spec fn tables_pass(
    policy: TablePolicy,
    income_sources: Option<CategoryMap>,
    deductions: Option<CategoryMap>,
    credits: Option<CategoryMap>,
) -> bool {
    policy == TablePolicy::Lenient || (income_sources is Some && deductions is Some && credits is Some)
}

/// The tax return that a row holds in its first ten cells, in the order of
/// `SELECT_TAX_RETURN`, with the three tables as they were decoded and the
/// two timestamps given. `None` where the row is shorter, a cell holds
/// another kind of value, or a table did not decode and the policy is
/// strict.
pub open spec fn tax_return_of_cells(
    row: Seq<Cell>,
    income_sources: Option<CategoryMap>,
    deductions: Option<CategoryMap>,
    credits: Option<CategoryMap>,
    created_at: Option<Timestamp>,
    updated_at: Option<Timestamp>,
    policy: TablePolicy,
) -> Option<TaxReturnView> {
    if tables_pass(policy, income_sources, deductions, credits) && row.len() >= 10 && integer_of(row[0]) is Some
        && integer_of(row[1]) is Some && year_of(row[2]) is Some && text_of(row[3]) is Some && text_of(
        row[4],
    ) is Some && text_of(row[5]) is Some && text_of(row[6]) is Some && amount_of(row[7]) is Some
        && amount_of(row[8]) is Some && amount_of(row[9]) is Some {
        Some(
            TaxReturnView {
                tax_return_id: Some(integer_of(row[0])->0),
                client_id: integer_of(row[1])->0,
                tax_year: year_of(row[2])->0,
                filing_status: text_of(row[3])->0,
                income_sources: table_or_empty(income_sources),
                deductions: table_or_empty(deductions),
                credits: table_or_empty(credits),
                taxes_paid: amount_of(row[7])->0,
                tax_liability: amount_of(row[8])->0,
                refund_or_amount_due: amount_of(row[9])->0,
                created_at,
                updated_at,
            },
        )
    } else {
        None
    }
}

/// The tax return that a row of twelve cells or more holds, in the order of
/// `SELECT_TAX_RETURN`, with the three tables as they were decoded. `None`
/// where the row is shorter, a cell holds another kind of value, a
/// timestamp stands for no time, or a table did not decode and the policy is
/// strict.
pub open spec fn tax_return_of_row(
    row: Seq<Cell>,
    income_sources: Option<CategoryMap>,
    deductions: Option<CategoryMap>,
    credits: Option<CategoryMap>,
    policy: TablePolicy,
) -> Option<TaxReturnView> {
    if row.len() >= 12 && timestamp_of(row[10]) is Some && timestamp_of(row[11]) is Some {
        tax_return_of_cells(
            row,
            income_sources,
            deductions,
            credits,
            timestamp_of(row[10])->0,
            timestamp_of(row[11])->0,
            policy,
        )
    } else {
        None
    }
}

impl TaxReturnRow {
    /// The tax return that the row holds under `policy`, if it holds one.
    pub open spec fn tax_return(&self, policy: TablePolicy) -> Option<TaxReturnView> {
        tax_return_of_row(
            cells(self.cells@),
            self.income_sources,
            self.deductions,
            self.credits,
            policy,
        )
    }
}

fn year_at(row: &Vec<SqlValue>, i: usize) -> (value: Option<i32>)
    requires
        i < row@.len(),
    ensures
        value == year_of(row@[i as int]@),
{
    match &row[i] {
        SqlValue::Integer(value) => {
            if -2147483648 <= *value && *value <= 2147483647 {
                Some(*value as i32)
            } else {
                None
            }
        },
        _ => None,
    }
}

fn is_text_at(row: &Vec<SqlValue>, i: usize) -> (is_text: bool)
    requires
        i < row@.len(),
    ensures
        is_text == text_of(row@[i as int]@) is Some,
{
    match &row[i] {
        SqlValue::Text(_) => true,
        _ => false,
    }
}

fn or_empty(table: Option<CategoryMap>) -> (result: CategoryMap)
    ensures
        result@ == table_or_empty(table),
{
    match table {
        Some(table) => table,
        None => CategoryMap::new(),
    }
}

/// Reads a tax return from the first ten cells of a row and its decoded
/// tables, and gives it the two timestamps. Under the lenient policy a
/// table whose text did not decode comes out empty; under the strict one it
/// makes the row unreadable.
pub fn tax_return_with_times(
    row: TaxReturnRow,
    created_at: Option<Timestamp>,
    updated_at: Option<Timestamp>,
    policy: TablePolicy,
) -> (tax_return: Option<TaxReturn>)
    ensures
        match tax_return {
            Some(tax_return) => tax_return_of_cells(
                cells(row.cells@),
                row.income_sources,
                row.deductions,
                row.credits,
                created_at,
                updated_at,
                policy,
            ) == Some(tax_return@),
            None => tax_return_of_cells(
                cells(row.cells@),
                row.income_sources,
                row.deductions,
                row.credits,
                created_at,
                updated_at,
                policy,
            ) is None,
        },
{
    let cells = &row.cells;
    if policy == TablePolicy::Strict && (row.income_sources.is_none() || row.deductions.is_none()
        || row.credits.is_none()) {
        return None;
    }
    if cells.len() < 10 {
        return None;
    }
    let tax_return_id = integer_at(cells, 0)?;
    let client_id = integer_at(cells, 1)?;
    let tax_year = year_at(cells, 2)?;
    let filing_status = text_at(cells, 3)?;
    if !is_text_at(cells, 4) || !is_text_at(cells, 5) || !is_text_at(cells, 6) {
        return None;
    }
    let taxes_paid = amount_at(cells, 7)?;
    let tax_liability = amount_at(cells, 8)?;
    let refund_or_amount_due = amount_at(cells, 9)?;
    Some(
        TaxReturn {
            tax_return_id: Some(tax_return_id),
            client_id,
            tax_year,
            filing_status,
            income_sources: or_empty(row.income_sources),
            deductions: or_empty(row.deductions),
            credits: or_empty(row.credits),
            taxes_paid,
            tax_liability,
            refund_or_amount_due,
            created_at,
            updated_at,
        },
    )
}

/// Reads a tax return from a row of `SELECT_TAX_RETURN` and its like, with
/// the tables that its three texts decode to.
pub fn map_tax_return(row: TaxReturnRow, policy: TablePolicy) -> (tax_return: Option<TaxReturn>)
    ensures
        match tax_return {
            Some(tax_return) => row.tax_return(policy) == Some(tax_return@),
            None => row.tax_return(policy) is None,
        },
{
    if row.cells.len() < 12 {
        return None;
    }
    let created_at = read_time(&row.cells[10])?;
    let updated_at = read_time(&row.cells[11])?;
    tax_return_with_times(row, created_at, updated_at, policy)
}

/// What each tax return of `filings` holds.
pub open spec fn return_views(filings: Seq<TaxReturn>) -> Seq<TaxReturnView> {
    filings.map_values(|r: TaxReturn| r@)
}

/// No tax return of `filings` comes before one of a later year.
pub open spec fn latest_year_first(filings: Seq<TaxReturnView>) -> bool {
    forall|i: int, j: int|
        0 <= i < j < filings.len() ==> (#[trigger] filings[i]).tax_year >= (#[trigger] filings[j]).tax_year
}

/// Putting one more item into a sequence, wherever, adds that item to what
/// the sequence holds.
proof fn lemma_insert_to_multiset<A>(s: Seq<A>, i: int, a: A)
    requires
        0 <= i <= s.len(),
    ensures
        s.insert(i, a).to_multiset() == s.to_multiset().insert(a),
{
    let longer = s.insert(i, a);
    assert(longer.remove(i) == s);
    to_multiset_remove(longer, i);
    assert(longer[i] == a);
    assert(longer.to_multiset().count(a) > 0) by {
        longer.to_multiset_ensures();
        assert(longer.contains(a));
    }
    assert(longer.to_multiset() =~= s.to_multiset().insert(a));
}

/// A sequence without items holds nothing.
proof fn lemma_empty_to_multiset<A>(s: Seq<A>)
    requires
        s.len() == 0,
    ensures
        s.to_multiset() == Multiset::<A>::empty(),
{
    s.to_multiset_ensures();
    assert forall|a: A| s.to_multiset().count(a) == 0 by {
        assert(!s.contains(a));
    }
    assert(s.to_multiset() =~= Multiset::<A>::empty());
}

/// Orders tax returns by year, the latest first.
pub fn latest_first(filings: Vec<TaxReturn>) -> (ordered: Vec<TaxReturn>)
    ensures
        latest_year_first(return_views(ordered@)),
        return_views(ordered@).to_multiset() == return_views(filings@).to_multiset(),
{
    let mut rest = filings;
    let mut ordered: Vec<TaxReturn> = Vec::new();
    proof {
        lemma_empty_to_multiset(return_views(ordered@));
        assert(return_views(ordered@).to_multiset().add(return_views(rest@).to_multiset())
            =~= return_views(filings@).to_multiset());
    }
    while rest.len() > 0
        invariant
            latest_year_first(return_views(ordered@)),
            return_views(ordered@).to_multiset().add(return_views(rest@).to_multiset())
                == return_views(filings@).to_multiset(),
        decreases rest@.len(),
    {
        let ghost before = rest@;
        let ghost sorted = ordered@;
        let next = rest.pop().unwrap();
        let mut at: usize = 0;
        while at < ordered.len() && ordered[at].tax_year > next.tax_year
            invariant
                at <= ordered@.len(),
                forall|k: int| 0 <= k < at ==> (#[trigger] ordered@[k]).tax_year > next.tax_year,
            decreases ordered@.len() - at,
        {
            at = at + 1;
        }
        ordered.insert(at, next);
        proof {
            assert(return_views(before) == return_views(rest@).push(next@));
            to_multiset_build(return_views(rest@), next@);
            assert(return_views(ordered@) == return_views(sorted).insert(at as int, next@));
            lemma_insert_to_multiset(return_views(sorted), at as int, next@);
            assert(return_views(ordered@).to_multiset().add(return_views(rest@).to_multiset())
                =~= return_views(sorted).to_multiset().add(return_views(before).to_multiset()));
            assert forall|i: int, j: int| 0 <= i < j < ordered@.len() implies (
            #[trigger] return_views(ordered@)[i]).tax_year >= (#[trigger] return_views(
                ordered@,
            )[j]).tax_year by {
                let a = if i < at { i } else { i - 1 };
                let b = if j < at { j } else { j - 1 };
                if i != at && j != at {
                    assert(return_views(sorted)[a].tax_year >= return_views(sorted)[b].tax_year);
                } else if i == at {
                    assert(return_views(sorted)[at as int].tax_year <= next.tax_year);
                    assert(return_views(sorted)[at as int].tax_year >= return_views(
                        sorted,
                    )[b].tax_year);
                } else {
                    assert(sorted[i].tax_year > next.tax_year);
                }
            }
        }
    }
    proof {
        lemma_empty_to_multiset(return_views(rest@));
        assert(return_views(ordered@).to_multiset() =~= return_views(ordered@).to_multiset().add(
            Multiset::empty(),
        ));
    }
    ordered
}

/// The row that the store holds of a record once it has run an insert
/// with the values `parameters`: the id that it assigned, the values in
/// the order of the columns, and the two timestamps that it set, as texts.
pub open spec fn stored_row(id: i64, parameters: Seq<Cell>, created_at: Seq<char>, updated_at: Seq<char>) -> Seq<
    Cell,
> {
    seq![Cell::Integer(id)] + parameters + seq![Cell::Text(created_at), Cell::Text(updated_at)]
}

/// A client that was stored reads back as it was written. The row that
/// holds what `create_client` binds can be read exactly if the two
/// timestamps that the store set stand for points in time; and the client
/// that it then holds is equal on every field that was given, bears the id
/// that the store assigned, and has both timestamps.
pub proof fn lemma_client_reads_back(client: ClientView, id: i64, created_at: Seq<char>, updated_at: Seq<char>)
    ensures
        ({
            let row = stored_row(id, client_parameters(client), created_at, updated_at);
            let created = stored_time(Cell::Text(created_at));
            let updated = stored_time(Cell::Text(updated_at));
            &&& client_of_row(row) is Some <==> created is Some && updated is Some
            &&& client_of_row(row) is Some ==> client_of_row(row) == Some(
                ClientView { client_id: Some(id), created_at: created, updated_at: updated, ..client },
            )
        }),
{
}

/// A tax return that was stored reads back as it was written. The row that
/// holds what `create_tax_return` binds can be read exactly if the two
/// timestamps that the store set stand for points in time; and the tax
/// return that it then holds is equal on every field that was given, bears
/// the id that the store assigned, has both timestamps, and has for its
/// tables whatever the three texts decoded to.
pub proof fn lemma_tax_return_reads_back(
    tax_return: TaxReturnView,
    encoded: (Seq<char>, Seq<char>, Seq<char>),
    decoded: (CategoryMap, CategoryMap, CategoryMap),
    id: i64,
    created_at: Seq<char>,
    updated_at: Seq<char>,
    policy: TablePolicy,
)
    ensures
        ({
            let row = stored_row(
                id,
                tax_return_parameters(tax_return, encoded.0, encoded.1, encoded.2),
                created_at,
                updated_at,
            );
            let read = tax_return_of_row(
                row,
                Some(decoded.0),
                Some(decoded.1),
                Some(decoded.2),
                policy,
            );
            let created = stored_time(Cell::Text(created_at));
            let updated = stored_time(Cell::Text(updated_at));
            &&& table_texts_of(row) == Some(encoded)
            &&& read is Some <==> created is Some && updated is Some
            &&& read is Some ==> read == Some(
                TaxReturnView {
                    tax_return_id: Some(id),
                    income_sources: decoded.0@,
                    deductions: decoded.1@,
                    credits: decoded.2@,
                    created_at: created,
                    updated_at: updated,
                    ..tax_return
                },
            )
        }),
{
}

} // verus!
