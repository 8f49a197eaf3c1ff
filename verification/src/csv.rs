//! From the text of a table to update records.
//!
//! The first row of a table names its columns. A record takes its three
//! fields from the columns named `Key`, `Title` and `Extra`; other columns
//! are passed over. A row cannot be mapped where it has another number of
//! fields than the first row, or where one of the three names heads no
//! column or more than one.

use crate::{PatchData, PatchDataView};
use vstd::prelude::*;
use vstd::slice::slice_subrange;

verus! {

#[verifier::external_type_specification]
#[verifier::external_body]
pub struct ExCsvError(::csv::Error);

/// One of the three fields of a record.
#[derive(Clone, Copy, Debug, PartialEq, Eq)]
pub enum Field {
    Key,
    Title,
    Extra,
}

/// Why a row cannot be mapped to a record.
#[derive(Clone, Copy, Debug, PartialEq, Eq)]
pub enum RowErrorKind {
    /// The row has another number of fields than the header row.
    Length,
    /// No column is named after the field.
    Missing(Field),
    /// More than one column is named after the field.
    Duplicate(Field),
}

/// A row that cannot be mapped: its place among the data rows, counted from
/// zero, and why.
#[derive(Clone, Copy, Debug, PartialEq, Eq)]
pub struct RowError {
    pub row: usize,
    pub kind: RowErrorKind,
}

/// Why a table gave no records.
#[derive(Debug)]
pub enum ExtractError {
    /// The text is not a table: its rows differ in length, for one, or it
    /// is not UTF-8.
    Table(::csv::Error),
    /// A row of the table cannot be mapped.
    Row(RowError),
}

/// The rows of the table that `content` writes, each as the texts of its
/// fields, or `None` where `content` is not a table: what reading all
/// records of a `csv::Reader` over `content` yields, with the header row as
/// the first.
pub uninterp spec fn csv_table(content: Seq<u8>) -> Option<Seq<Seq<Seq<char>>>>;

/// The name of the column that holds `field`.
pub open spec fn column_name(field: Field) -> Seq<char> {
    match field {
        Field::Key => "Key"@,
        Field::Title => "Title"@,
        Field::Extra => "Extra"@,
    }
}

/// Whether column `i` of `headers` is named `name`.
pub open spec fn names(headers: Seq<Seq<char>>, i: int, name: Seq<char>) -> bool {
    0 <= i < headers.len() && headers[i] == name
}

/// The column that holds `field`: the one column named after it.
pub open spec fn locate(headers: Seq<Seq<char>>, field: Field) -> Result<int, RowErrorKind> {
    let name = column_name(field);
    if !(exists|i: int| names(headers, i, name)) {
        Err(RowErrorKind::Missing(field))
    } else {
        let first = choose|i: int| names(headers, i, name);
        if forall|j: int| names(headers, j, name) ==> j == first {
            Ok(first)
        } else {
            Err(RowErrorKind::Duplicate(field))
        }
    }
}

/// The record that `row` holds under `headers`. Of several reasons why it
/// holds none, the length of the row comes first, then the fields in the
/// order key, title, extra.
pub open spec fn map_row(headers: Seq<Seq<char>>, row: Seq<Seq<char>>) -> Result<
    PatchDataView,
    RowErrorKind,
> {
    if row.len() != headers.len() {
        Err(RowErrorKind::Length)
    } else {
        match locate(headers, Field::Key) {
            Err(kind) => Err(kind),
            Ok(key) => match locate(headers, Field::Title) {
                Err(kind) => Err(kind),
                Ok(title) => match locate(headers, Field::Extra) {
                    Err(kind) => Err(kind),
                    Ok(extra) => Ok(
                        PatchDataView { key: row[key], title: row[title], extra: row[extra] },
                    ),
                },
            },
        }
    }
}

/// Whether `found` is what mapping `rows` under `headers` gives: the record
/// of every row, in order, where every row holds one, and else the first row
/// that holds none, with the reason.
pub open spec fn is_mapping(
    headers: Seq<Seq<char>>,
    rows: Seq<Seq<Seq<char>>>,
    found: Result<Vec<PatchData>, RowError>,
) -> bool {
    match found {
        Ok(records) => {
            &&& records@.len() == rows.len()
            &&& forall|i: int|
                0 <= i < rows.len() ==> map_row(headers, #[trigger] rows[i]) == Ok::<
                    PatchDataView,
                    RowErrorKind,
                >(records@[i]@)
        },
        Err(error) => {
            &&& error.row < rows.len()
            &&& map_row(headers, rows[error.row as int]) == Err::<PatchDataView, RowErrorKind>(
                error.kind,
            )
            &&& forall|i: int| 0 <= i < error.row ==> map_row(headers, #[trigger] rows[i]) is Ok
        },
    }
}

/// Whether `found` is what a table gives: an error of the table where there
/// is none, no records where it has no row at all, and else the mapping of
/// the rows after the first under the names in the first.
pub open spec fn is_extract(
    table: Option<Seq<Seq<Seq<char>>>>,
    found: Result<Vec<PatchData>, ExtractError>,
) -> bool {
    match table {
        None => found matches Err(ExtractError::Table(_)),
        Some(rows) => match found {
            Ok(records) => if rows.len() == 0 {
                records@.len() == 0
            } else {
                is_mapping(rows[0], rows.subrange(1, rows.len() as int), Ok(records))
            },
            Err(ExtractError::Row(error)) => rows.len() > 0 && is_mapping(
                rows[0],
                rows.subrange(1, rows.len() as int),
                Err(error),
            ),
            Err(ExtractError::Table(_)) => false,
        },
    }
}

/// The text of each of `fields`.
pub open spec fn texts(fields: Seq<String>) -> Seq<Seq<char>> {
    Seq::new(fields.len(), |i: int| fields[i]@)
}

/// The texts of the fields of each of `rows`.
pub open spec fn row_texts(rows: Seq<Vec<String>>) -> Seq<Seq<Seq<char>>> {
    Seq::new(rows.len(), |i: int| texts(rows[i]@))
}

/// `csv::Reader::records`, on a reader over `content` that takes the first
/// row as a record like the others. Trusted: whether the call succeeds and
/// the rows that it yields depend on `content` alone.
#[verifier::external_body]
fn read_table(content: &[u8]) -> (table: Result<Vec<Vec<String>>, ::csv::Error>)
    ensures
        match table {
            Ok(rows) => csv_table(content@) == Some(row_texts(rows@)),
            Err(_) => csv_table(content@) is None,
        },
{
    let mut reader = ::csv::ReaderBuilder::new().has_headers(false).from_reader(content);
    reader.records().map(|row| row.map(|fields| fields.iter().map(String::from).collect())).collect()
}

fn name_of(field: Field) -> (name: String)
    ensures
        name@ == column_name(field),
{
    match field {
        Field::Key => String::from_str("Key"),
        Field::Title => String::from_str("Title"),
        Field::Extra => String::from_str("Extra"),
    }
}

/// Finds the column of `field` under `headers`.
pub fn find_column(headers: &Vec<String>, field: Field) -> (found: Result<usize, RowErrorKind>)
    ensures
        locate(texts(headers@), field) == (match found {
            Ok(i) => Ok::<int, RowErrorKind>(i as int),
            Err(kind) => Err(kind),
        }),
{
    let name = name_of(field);
    let ghost named = texts(headers@);
    let mut first: Option<usize> = None;
    let mut repeated = false;
    let mut i: usize = 0;
    while i < headers.len()
        invariant
            i <= headers.len(),
            named == texts(headers@),
            name@ == column_name(field),
            first is None ==> !repeated && forall|j: int| 0 <= j < i ==> !names(named, j, name@),
            first matches Some(f) ==> f < i && names(named, f as int, name@) && (repeated
                <==> exists|j: int| 0 <= j < i && j != f && names(named, j, name@)),
        decreases headers.len() - i,
    {
        if headers[i] == name {
            assert(names(named, i as int, name@));
            match first {
                None => {
                    first = Some(i);
                },
                Some(_) => {
                    repeated = true;
                },
            }
        }
        i += 1;
    }
    match first {
        None => Err(RowErrorKind::Missing(field)),
        Some(f) => {
            assert(names(named, f as int, name@));
            if repeated {
                Err(RowErrorKind::Duplicate(field))
            } else {
                Ok(f)
            }
        },
    }
}

/// Maps each of `rows` to a record under `headers`, in order. Succeeds
/// where every row can be mapped; fails at the first that cannot, with its
/// place and the reason.
pub fn map_rows(headers: &Vec<String>, rows: &[Vec<String>]) -> (found: Result<
    Vec<PatchData>,
    RowError,
>)
    ensures
        is_mapping(texts(headers@), row_texts(rows@), found),
{
    let key = find_column(headers, Field::Key);
    let title = find_column(headers, Field::Title);
    let extra = find_column(headers, Field::Extra);
    let width = headers.len();
    let ghost named = texts(headers@);
    let ghost table = row_texts(rows@);
    let mut records: Vec<PatchData> = Vec::with_capacity(rows.len());
    let mut i: usize = 0;
    while i < rows.len()
        invariant
            i <= rows@.len(),
            width == named.len(),
            named == texts(headers@),
            table == row_texts(rows@),
            locate(named, Field::Key) == (match key {
                Ok(k) => Ok::<int, RowErrorKind>(k as int),
                Err(kind) => Err(kind),
            }),
            locate(named, Field::Title) == (match title {
                Ok(k) => Ok::<int, RowErrorKind>(k as int),
                Err(kind) => Err(kind),
            }),
            locate(named, Field::Extra) == (match extra {
                Ok(k) => Ok::<int, RowErrorKind>(k as int),
                Err(kind) => Err(kind),
            }),
            records@.len() == i,
            forall|j: int|
                0 <= j < i ==> map_row(named, #[trigger] table[j]) == Ok::<
                    PatchDataView,
                    RowErrorKind,
                >(records@[j]@),
        decreases rows@.len() - i,
    {
        let row = &rows[i];
        assert(table[i as int] == texts(row@));
        if row.len() != width {
            return Err(RowError { row: i, kind: RowErrorKind::Length });
        }
        let k = match key {
            Ok(k) => k,
            Err(kind) => {
                return Err(RowError { row: i, kind });
            },
        };
        let t = match title {
            Ok(t) => t,
            Err(kind) => {
                return Err(RowError { row: i, kind });
            },
        };
        let x = match extra {
            Ok(x) => x,
            Err(kind) => {
                return Err(RowError { row: i, kind });
            },
        };
        let record = PatchData::new(row[k].clone(), row[t].clone(), row[x].clone());
        records.push(record);
        i += 1;
    }
    Ok(records)
}

/// Maps the rows of `table` to records, in order. The first row names the
/// columns and gives no record; a table without any row gives none.
pub fn map_table(table: &Vec<Vec<String>>) -> (found: Result<Vec<PatchData>, ExtractError>)
    ensures
        is_extract(Some(row_texts(table@)), found),
{
    if table.len() == 0 {
        Ok(Vec::new())
    } else {
        let rows = slice_subrange(table.as_slice(), 1, table.len());
        assert(row_texts(rows@) =~= row_texts(table@).subrange(1, table@.len() as int));
        match map_rows(&table[0], rows) {
            Ok(records) => Ok(records),
            Err(error) => Err(ExtractError::Row(error)),
        }
    }
}

/// Reads the records of a table from its text.
#[derive(Debug)]
pub struct CsvReader {
    content: Vec<u8>,
}

impl View for CsvReader {
    type V = Seq<u8>;

    /// The text of the table.
    closed spec fn view(&self) -> Seq<u8> {
        self.content@
    }
}

impl CsvReader {
    /// A reader for the table that `content` writes.
    pub fn new(content: Vec<u8>) -> (reader: CsvReader)
        ensures
            reader@ == content@,
    {
        CsvReader { content }
    }

    /// Reads the table and maps its rows to records as [`map_table`] does.
    /// Rows of unequal length are no table, so no row comes out as too long
    /// or too short here.
    pub fn extract(&self) -> (found: Result<Vec<PatchData>, ExtractError>)
        ensures
            is_extract(csv_table(self@), found),
    {
        match read_table(self.content.as_slice()) {
            Err(error) => Err(ExtractError::Table(error)),
            Ok(table) => map_table(&table),
        }
    }
}

} // verus!
