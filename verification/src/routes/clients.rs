//! Clients, their tax returns and their files: what a request for them
//! answers, given what the store and the file system said.

use vstd::prelude::*;
use crate::config::AppState;
use crate::db::models::{Client, ClientView, TaxReturn, TaxReturnView};
use crate::db::schema::{
    cells, client_from_row, client_of_row, latest_first, latest_year_first, map_tax_return,
    return_views, Cell, Lookup, SqlValue, Statement, StoreError, TablePolicy, TaxReturnRow,
    SELECT_CLIENTS, SELECT_CLIENT_TAX_RETURNS, SELECT_TAX_RETURNS,
};
use crate::path::{
    is_file_name, is_separator, join_path, joined, lemma_file_lies_in_directory, root_segments, segments,
};
use crate::text::{decimal, decimal_text, digits, lemma_texts_push, texts};

verus! {

/// What a lookup reports of a row that does not hold the record asked for.
pub const MALFORMED_ROW: &'static str = "the row read does not hold the record";

/// What each client of `clients` holds.
pub open spec fn client_views(clients: Seq<Client>) -> Seq<ClientView> {
    clients.map_values(|c: Client| c@)
}

/// The clients that the first `n` rows of `rows` hold, in the order of the
/// rows; a row that holds no client is passed over.
pub open spec fn clients_of_rows(rows: Seq<Vec<SqlValue>>, n: int) -> Seq<ClientView>
    decreases n,
{
    if n <= 0 {
        Seq::empty()
    } else {
        match client_of_row(cells(rows[n - 1]@)) {
            Some(client) => clients_of_rows(rows, n - 1).push(client),
            None => clients_of_rows(rows, n - 1),
        }
    }
}

/// The statement that reads every client.
pub fn all_clients() -> (statement: Statement)
    ensures
        statement@ == (SELECT_CLIENTS@, Seq::<Cell>::empty()),
{
    let params: Vec<SqlValue> = Vec::new();
    Statement { sql: String::from_str(SELECT_CLIENTS), params }
}

/// The clients that the rows of `all_clients` hold.
pub fn list_clients(rows: &Vec<Vec<SqlValue>>) -> (clients: Vec<Client>)
    ensures
        client_views(clients@) == clients_of_rows(rows@, rows@.len() as int),
{
    let mut clients: Vec<Client> = Vec::new();
    let mut i: usize = 0;
    while i < rows.len()
        invariant
            i <= rows@.len(),
            client_views(clients@) == clients_of_rows(rows@, i as int),
        decreases rows@.len() - i,
    {
        match client_from_row(&rows[i]) {
            Some(client) => {
                clients.push(client);
            },
            None => {},
        }
        i = i + 1;
    }
    clients
}

/// What a request for one client answers, given what running `get_client`
/// of the record store came to: the rows that it read, or the store's
/// message where it failed.
pub fn get_client(outcome: Result<Vec<Vec<SqlValue>>, String>) -> (client: Lookup<Client>)
    ensures
        match outcome {
            Err(message) => client == Lookup::<Client>::Failed(StoreError::Read(message)),
            Ok(rows) => if rows@.len() == 0 {
                client is NotFound
            } else {
                match client_of_row(cells(rows@[0]@)) {
                    Some(found) => client matches Lookup::Found(c) && c@ == found,
                    None => client matches Lookup::Failed(StoreError::Read(message)) && message@
                        == MALFORMED_ROW@,
                }
            },
        },
{
    match outcome {
        Err(message) => Lookup::Failed(StoreError::Read(message)),
        Ok(rows) => {
            if rows.len() == 0 {
                return Lookup::NotFound;
            }
            match client_from_row(&rows[0]) {
                Some(client) => Lookup::Found(client),
                None => Lookup::Failed(StoreError::Read(String::from_str(MALFORMED_ROW))),
            }
        },
    }
}

/// The directory that holds the files of the client `client_id`: the one
/// below the root that bears the id in decimal notation. `None` while no
/// root is configured.
pub fn client_files_dir(state: &AppState, client_id: i64) -> (dir: Option<String>)
    ensures
        dir is Some <==> state@ is Some,
        dir is Some ==> dir->0@ == joined(state@->0, decimal_text(client_id as int)),
{
    match state.get_root_path() {
        Some(root) => {
            let name = decimal(client_id);
            Some(join_path(root.as_str(), name.as_str()))
        },
        None => None,
    }
}

/// The digits of a number are digits, and there is at least one.
proof fn lemma_digits_are_digits(n: nat)
    ensures
        digits(n).len() >= 1,
        forall|i: int| 0 <= i < digits(n).len() ==> '0' <= #[trigger] digits(n)[i] <= '9',
    decreases n,
{
    if n >= 10 {
        lemma_digits_are_digits(n / 10);
    }
}

/// The directory of a client lies directly in the root: its path has the
/// root's segments and then the client's id in decimal notation, which is a
/// file name.
pub proof fn lemma_client_directory_lies_in_root(root: Seq<char>, client_id: i64)
    ensures
        is_file_name(decimal_text(client_id as int)),
        segments(joined(root, decimal_text(client_id as int))) == root_segments(root).push(
            decimal_text(client_id as int),
        ),
{
    let name = decimal_text(client_id as int);
    let magnitude: nat = if client_id < 0 {
        (-client_id) as nat
    } else {
        client_id as nat
    };
    lemma_digits_are_digits(magnitude);
    assert forall|i: int| 0 <= i < name.len() implies !is_separator(#[trigger] name[i]) by {
        if client_id < 0 {
            if i > 0 {
                assert(name[i] == digits(magnitude)[i - 1]);
            }
        } else {
            assert(name[i] == digits(magnitude)[i]);
        }
    }
    assert(name != seq!['.']) by {
        if name == seq!['.'] {
            assert(name[0] == '.');
            if client_id >= 0 {
                assert(name[0] == digits(magnitude)[0]);
            }
        }
    }
    assert(name != seq!['.', '.']) by {
        if name == seq!['.', '.'] {
            assert(name[0] == '.');
            if client_id >= 0 {
                assert(name[0] == digits(magnitude)[0]);
            }
        }
    }
    lemma_file_lies_in_directory(root, name);
}

/// What reading a directory found of one entry.
pub struct DirectoryEntry {
    /// The entry's name, where it is text.
    pub file_name: Option<String>,
    /// Whether the entry is known to be a regular file.
    pub is_file: bool,
}

/// The names of the regular files among the first `n` of `entries`, in
/// order.
pub open spec fn regular_file_names(entries: Seq<DirectoryEntry>, n: int) -> Seq<Seq<char>>
    decreases n,
{
    if n <= 0 {
        Seq::empty()
    } else if entries[n - 1].is_file && entries[n - 1].file_name is Some {
        regular_file_names(entries, n - 1).push(entries[n - 1].file_name->0@)
    } else {
        regular_file_names(entries, n - 1)
    }
}

/// The names of a client's files, given what reading the client's directory
/// found: `None` where the directory could not be read, which makes the
/// client one without files. Directories and other entries that are no
/// regular files are left out.
pub fn list_client_files(listing: &Option<Vec<DirectoryEntry>>) -> (files: Vec<String>)
    ensures
        match listing {
            Some(entries) => texts(files@) == regular_file_names(entries@, entries@.len() as int),
            None => files@.len() == 0,
        },
{
    let mut files: Vec<String> = Vec::new();
    match listing {
        Some(entries) => {
            let mut i: usize = 0;
            while i < entries.len()
                invariant
                    i <= entries@.len(),
                    texts(files@) == regular_file_names(entries@, i as int),
                decreases entries@.len() - i,
            {
                if entries[i].is_file {
                    match &entries[i].file_name {
                        Some(name) => {
                            let name = name.clone();
                            proof {
                                lemma_texts_push(files@, name);
                            }
                            files.push(name);
                        },
                        None => {},
                    }
                }
                i = i + 1;
            }
        },
        None => {},
    }
    files
}

/// The row holds a tax return that a listing for `client_id` takes in: any
/// tax return where `client_id` is `None`, else one of that client.
pub open spec fn listed(row: TaxReturnRow, client_id: Option<i64>, policy: TablePolicy) -> bool {
    match row.tax_return(policy) {
        Some(tax_return) => client_id is None || client_id == Some(tax_return.client_id),
        None => false,
    }
}

/// The tax returns for `client_id` that the first `n` rows of `rows` hold,
/// in the order of the rows; a row that holds no tax return, or one of
/// another client, is passed over.
pub open spec fn tax_returns_of_rows(
    rows: Seq<TaxReturnRow>,
    client_id: Option<i64>,
    policy: TablePolicy,
    n: int,
) -> Seq<TaxReturnView>
    decreases n,
{
    if n <= 0 {
        Seq::empty()
    } else if listed(rows[n - 1], client_id, policy) {
        tax_returns_of_rows(rows, client_id, policy, n - 1).push(rows[n - 1].tax_return(policy)->0)
    } else {
        tax_returns_of_rows(rows, client_id, policy, n - 1)
    }
}

/// The statement that reads the tax returns of one client, or of all
/// clients where `client_id` is `None`.
pub fn tax_returns_query(client_id: Option<i64>) -> (statement: Statement)
    ensures
        match client_id {
            Some(id) => statement@ == (SELECT_CLIENT_TAX_RETURNS@, seq![Cell::Integer(id)]),
            None => statement@ == (SELECT_TAX_RETURNS@, Seq::<Cell>::empty()),
        },
{
    let mut params: Vec<SqlValue> = Vec::new();
    match client_id {
        Some(id) => {
            params.push(SqlValue::Integer(id));
            Statement { sql: String::from_str(SELECT_CLIENT_TAX_RETURNS), params }
        },
        None => {
            Statement { sql: String::from_str(SELECT_TAX_RETURNS), params }
        },
    }
}

/// Every tax return of `filings` is one of the client `client_id`, where
/// there is one.
pub open spec fn all_of_client(filings: Seq<TaxReturnView>, client_id: Option<i64>) -> bool {
    forall|i: int|
        0 <= i < filings.len() ==> client_id is None || client_id == Some(
            (#[trigger] filings[i]).client_id,
        )
}

/// The tax returns that the rows of `tax_returns_query` hold. Those of one
/// client come with the latest year first, and only that client's are taken;
/// those of all clients come in the order of the rows.
pub fn list_returns(client_id: Option<i64>, rows: Vec<TaxReturnRow>, policy: TablePolicy) -> (filings: Vec<
    TaxReturn,
>)
    ensures
        client_id is None ==> return_views(filings@) == tax_returns_of_rows(
            rows@,
            client_id,
            policy,
            rows@.len() as int,
        ),
        client_id is Some ==> latest_year_first(return_views(filings@)),
        client_id is Some ==> return_views(filings@).to_multiset() == tax_returns_of_rows(
            rows@,
            client_id,
            policy,
            rows@.len() as int,
        ).to_multiset(),
        all_of_client(return_views(filings@), client_id),
{
    let mut filings: Vec<TaxReturn> = Vec::new();
    let ghost all = rows@;
    for row in it: rows
        invariant
            it.seq() == all,
            return_views(filings@) == tax_returns_of_rows(all, client_id, policy, it.index() as int),
            all_of_client(return_views(filings@), client_id),
    {
        match map_tax_return(row, policy) {
            Some(tax_return) => {
                let wanted = match client_id {
                    Some(id) => tax_return.client_id == id,
                    None => true,
                };
                if wanted {
                    assert(return_views(filings@.push(tax_return)) == return_views(filings@).push(
                        tax_return@,
                    ));
                    filings.push(tax_return);
                }
            },
            None => {},
        }
    }
    match client_id {
        Some(_) => {
            let ghost unordered = return_views(filings@);
            let ordered = latest_first(filings);
            proof {
                let sorted = return_views(ordered@);
                sorted.to_multiset_ensures();
                unordered.to_multiset_ensures();
                assert forall|i: int| 0 <= i < sorted.len() implies client_id == Some(
                    (#[trigger] sorted[i]).client_id,
                ) by {
                    assert(sorted.contains(sorted[i]));
                    assert(unordered.to_multiset().count(sorted[i]) > 0);
                    assert(unordered.contains(sorted[i]));
                    let j = choose|j: int| 0 <= j < unordered.len() && unordered[j] == sorted[i];
                    assert(client_id == Some(unordered[j].client_id));
                }
            }
            ordered
        },
        None => filings,
    }
}

/// What a request for one tax return answers, given what running
/// `get_tax_return` of the record store came to: the rows that it read, or
/// the store's message where it failed.
pub fn get_return(outcome: Result<Vec<TaxReturnRow>, String>, policy: TablePolicy) -> (tax_return: Lookup<
    TaxReturn,
>)
    ensures
        match outcome {
            Err(message) => tax_return == Lookup::<TaxReturn>::Failed(StoreError::Read(message)),
            Ok(rows) => if rows@.len() == 0 {
                tax_return is NotFound
            } else {
                match rows@[0].tax_return(policy) {
                    Some(found) => tax_return matches Lookup::Found(t) && t@ == found,
                    None => tax_return matches Lookup::Failed(StoreError::Read(message)) && message@
                        == MALFORMED_ROW@,
                }
            },
        },
{
    match outcome {
        Err(message) => Lookup::Failed(StoreError::Read(message)),
        Ok(rows) => {
            let mut rows = rows;
            if rows.len() == 0 {
                return Lookup::NotFound;
            }
            let first = rows.swap_remove(0);
            match map_tax_return(first, policy) {
                Some(tax_return) => Lookup::Found(tax_return),
                None => Lookup::Failed(StoreError::Read(String::from_str(MALFORMED_ROW))),
            }
        },
    }
}

} // verus!
