//! The rows of a CSV export, read with the `csv` crate, and their fields by column name.
use vstd::prelude::*;
use crate::pattern::opt_view;
use crate::text::{copy_str, str_eq};

verus! {

/// The header row that `csv::Reader::headers` reads from `data`, or the text of
/// its error.
pub uninterp spec fn csv_headers(data: Seq<u8>) -> Result<Seq<Seq<char>>, Seq<char>>;

/// The records that `csv::Reader::records` yields for `data` after the header
/// row, each one its fields or the text of its error.
pub uninterp spec fn csv_records(data: Seq<u8>) -> Seq<Result<Seq<Seq<char>>, Seq<char>>>;

/// For each record that `csv::Reader::deserialize` reads from `data` into a
/// map from column names to fields, the text of its error, or `None` when
/// the record reads as such a map.
pub uninterp spec fn csv_map_errors(data: Seq<u8>) -> Seq<Option<Seq<char>>>;

/// The model of a row of fields or of its error.
pub open spec fn fields_view(r: Result<Vec<String>, String>) -> Result<Seq<Seq<char>>, Seq<char>> {
    match r {
        Ok(v) => Ok(v.deep_view()),
        Err(e) => Err(e@),
    }
}

/// Calls `csv::Reader::from_reader(data).headers()`: the header row, each field
/// as a `String`, or the error's text.  Its contract names the result
/// (`csv_headers`) and says nothing more of it.
#[verifier::external_body]
fn read_headers(data: &[u8]) -> (res: Result<Vec<String>, String>)
    ensures
        fields_view(res) == csv_headers(data@),
{
    match csv::Reader::from_reader(data).headers() {
        Ok(h) => Ok(h.iter().map(String::from).collect()),
        Err(e) => Err(e.to_string()),
    }
}

/// Calls `csv::Reader::from_reader(data).records()` and collects every item it
/// yields: the fields of each record after the header row, or the error's text.
/// Its contract names the result (`csv_records`) and says nothing more of it.
#[verifier::external_body]
fn read_records(data: &[u8]) -> (res: Vec<Result<Vec<String>, String>>)
    ensures
        res@.len() == csv_records(data@).len(),
        forall|i: int| 0 <= i < res@.len() ==> fields_view(#[trigger] res@[i]) == csv_records(data@)[i],
{
    csv::Reader::from_reader(data).records().map(|r| match r {
        Ok(r) => Ok(r.iter().map(String::from).collect()),
        Err(e) => Err(e.to_string()),
    }).collect()
}

/// Calls `csv::Reader::from_reader(data).deserialize::<HashMap<String, String>>()`
/// and keeps, of every item it yields, only the text of its error, if any.
/// Its contract names the result (`csv_map_errors`) and states two facts the
/// `csv` source shows: the deserializer reads the same records as `records`
/// (both read one record per item with `read_record`, after the header row),
/// and a record reads as a map only when it and the header row were read
/// (`deserialize` drops an unreadable header row, and a record without
/// headers is then read as a sequence, which a map refuses).
#[verifier::external_body]
fn read_map_errors(data: &[u8]) -> (res: Vec<Option<String>>)
    ensures
        res@.len() == csv_map_errors(data@).len(),
        res@.len() == csv_records(data@).len(),
        forall|i: int| 0 <= i < res@.len() ==> opt_view(#[trigger] res@[i]) == csv_map_errors(data@)[i],
        forall|i: int|
            0 <= i < res@.len() && #[trigger] res@[i] is None ==> csv_headers(data@) is Ok
                && csv_records(data@)[i] is Ok,
{
    csv::Reader::from_reader(data)
        .deserialize::<std::collections::HashMap<String, String>>()
        .map(|r| r.err().map(|e| e.to_string()))
        .collect()
}

/// A CSV export: its header row, its records, and for each record the error
/// that reading it as a map from column names to fields gives, if any.
pub struct Table {
    pub headers: Result<Vec<String>, String>,
    pub records: Vec<Result<Vec<String>, String>>,
    pub row_errors: Vec<Option<String>>,
}

/// The model of a table: header row and records.
pub struct TableView {
    pub headers: Result<Seq<Seq<char>>, Seq<char>>,
    pub row_errors: Seq<Option<Seq<char>>>,
    pub records: Seq<Result<Seq<Seq<char>>, Seq<char>>>,
}

impl View for Table {
    type V = TableView;

    open spec fn view(&self) -> TableView {
        TableView {
            headers: fields_view(self.headers),
            records: Seq::new(self.records@.len(), |i: int| fields_view(self.records@[i])),
            row_errors: Seq::new(self.row_errors@.len(), |i: int| opt_view(self.row_errors@[i])),
        }
    }
}

/// The value under `key` among the first `n` columns: that of the last column
/// named `key` that the row has a field for.
pub open spec fn lookup_within(headers: Seq<Seq<char>>, fields: Seq<Seq<char>>, key: Seq<char>, n: int) -> Option<Seq<char>>
    decreases n,
{
    if n <= 0 {
        None
    } else if n - 1 < headers.len() && n - 1 < fields.len() && headers[n - 1] == key {
        Some(fields[n - 1])
    } else {
        lookup_within(headers, fields, key, n - 1)
    }
}

/// The value of a row under the column named `key`: the field of the last
/// column with that name, as a map from names to fields keeps it.
pub open spec fn lookup(headers: Seq<Seq<char>>, fields: Seq<Seq<char>>, key: Seq<char>) -> Option<Seq<char>> {
    lookup_within(headers, fields, key, headers.len() as int)
}

/// A table as read from an export: one map-read outcome per record, and a
/// record that reads as a map was read, as was the header row.
pub open spec fn well_formed(t: TableView) -> bool {
    &&& t.row_errors.len() == t.records.len()
    &&& forall|i: int|
        0 <= i < t.row_errors.len() && #[trigger] t.row_errors[i] is None ==> t.headers is Ok
            && t.records[i] is Ok
}

impl Table {
    /// Reads a CSV export: its header row, every record after it, and the
    /// error that reading each record as a map gives.
    pub fn parse(data: &[u8]) -> (res: Table)
        ensures
            res@.headers == csv_headers(data@),
            res@.records == csv_records(data@),
            res@.row_errors == csv_map_errors(data@),
            well_formed(res@),
    {
        let headers = read_headers(data);
        let records = read_records(data);
        let row_errors = read_map_errors(data);
        let res = Table { headers, records, row_errors };
        assert(res@.records =~= csv_records(data@));
        assert(res@.row_errors =~= csv_map_errors(data@));
        res
    }

    /// The error that reading record `row` as a map from column names to
    /// fields gives, if any: that of reading the record, or, when the header
    /// row could not be read, that of reading a record without headers as a map.
    pub fn row_error(&self, row: usize) -> (res: Option<String>)
        requires
            row < self@.row_errors.len(),
        ensures
            opt_view(res) == self@.row_errors[row as int],
    {
        match &self.row_errors[row] {
            Some(e) => Some(copy_str(e.as_str())),
            None => None,
        }
    }

    /// How many records there are.
    pub fn row_count(&self) -> (n: usize)
        ensures
            n == self@.row_errors.len(),
    {
        self.row_errors.len()
    }
}

/// The field under the column named `key`, given the header row and a record.
pub fn field(headers: &Vec<String>, fields: &Vec<String>, key: &str) -> (res: Option<String>)
    ensures
        match res {
            Some(v) => lookup(headers.deep_view(), fields.deep_view(), key@) == Some(v@),
            None => lookup(headers.deep_view(), fields.deep_view(), key@) is None,
        },
{
    let ghost hs = headers.deep_view();
    let ghost fs = fields.deep_view();
    let mut n = headers.len();
    while n > 0
        invariant
            n <= headers@.len(),
            hs == headers.deep_view(),
            fs == fields.deep_view(),
            lookup(hs, fs, key@) == lookup_within(hs, fs, key@, n as int),
        decreases n,
    {
        if n - 1 < fields.len() && str_eq(headers[n - 1].as_str(), key) {
            assert(hs[n - 1] == headers@[n - 1]@);
            assert(fs[n - 1] == fields@[n - 1]@);
            return Some(copy_str(fields[n - 1].as_str()));
        }
        assert(n - 1 < fields.len() ==> hs[n - 1] == headers@[n - 1]@);
        n -= 1;
    }
    None
}

} // verus!
