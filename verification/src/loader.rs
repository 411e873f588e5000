//! The record loader: from the bytes of a table to a chronological series.
//!
//! The table is comma-separated text. Its first record is the header, which
//! names the columns; `Date`, `Open`, `High`, `Low`, `Close` and `Volume`
//! must be among them, each once, in any order. Every further record is
//! one trading interval. A load gives all of them or fails.

use crate::custom_date_format::{deserialize, parsed_instant, FORMAT};
use crate::decimal::{as_i64, decimal_value, parse_decimal};
use crate::error::{Column, Fault, LoadError};
use crate::series::{is_stable_ordering, Record, Series};
use vstd::prelude::*;
use vstd::string::*;

verus! {

/// Digits behind the point that a price keeps.
pub const PRICE_PLACES: u8 = 6;

/// The records that the `csv` crate's reader finds in `bytes`, the first
/// record included, each as its fields; `None` stands for a record at which
/// the reader reported an error.
pub uninterp spec fn csv_records(bytes: Seq<u8>) -> Seq<Option<Seq<Seq<char>>>>;

/// Reads `bytes` with a `csv::Reader` that is built by
/// `csv::ReaderBuilder` with `has_headers(false)`, so that the header comes
/// as the first record, and collects what `Reader::records` yields: the
/// fields of each record, or `None` where the reader reported an error
/// (text that is not UTF-8, or a record with another number of fields than
/// the first). The contract only names the result.
#[verifier::external_body]
fn read_records(bytes: &[u8]) -> (lines: Vec<Option<Vec<String>>>)
    ensures
        lines.deep_view() == csv_records(bytes@),
{
    let mut reader = csv::ReaderBuilder::new().has_headers(false).from_reader(bytes);
    reader.records().map(
        |line| line.ok().map(|fields| fields.iter().map(|field| field.to_string()).collect()),
    ).collect()
}

/// How often `name` occurs in `header`.
pub open spec fn occurrences(header: Seq<Seq<char>>, name: Seq<char>) -> nat
    decreases header.len(),
{
    if header.len() == 0 {
        0
    } else if header.last() == name {
        occurrences(header.drop_last(), name) + 1
    } else {
        occurrences(header.drop_last(), name)
    }
}

/// The first position of `header` that holds `name`, or the length of
/// `header` if none does.
pub open spec fn position(header: Seq<Seq<char>>, name: Seq<char>) -> int
    decreases header.len(),
{
    if header.len() == 0 {
        0
    } else if position(header.drop_last(), name) < header.len() - 1 {
        position(header.drop_last(), name)
    } else if header.last() == name {
        header.len() - 1
    } else {
        header.len() as int
    }
}

/// What is wrong with the way `header` names `column`, if anything.
pub open spec fn column_fault(header: Seq<Seq<char>>, column: Column) -> Option<Fault> {
    let count = occurrences(header, column.name());
    if count == 0 {
        Some(Fault::MissingColumn(column))
    } else if count > 1 {
        Some(Fault::RepeatedColumn(column))
    } else {
        None
    }
}

/// The first of two findings.
pub open spec fn or_else(first: Option<Fault>, second: Option<Fault>) -> Option<Fault> {
    if first is Some {
        first
    } else {
        second
    }
}

/// What is wrong with `header`, if anything: the fault of the first column
/// that has one, the columns taken in the order date, open, high, low,
/// close, volume.
pub open spec fn header_fault(header: Seq<Seq<char>>) -> Option<Fault> {
    or_else(
        column_fault(header, Column::Date),
        or_else(
            column_fault(header, Column::Open),
            or_else(
                column_fault(header, Column::High),
                or_else(
                    column_fault(header, Column::Low),
                    or_else(
                        column_fault(header, Column::Close),
                        column_fault(header, Column::Volume),
                    ),
                ),
            ),
        ),
    )
}

/// The price that a field denotes.
pub open spec fn price_of(text: Seq<char>) -> Option<i64> {
    as_i64(decimal_value(text, PRICE_PLACES as nat))
}

/// The volume that a field denotes: a number that is not negative, in
/// whole units.
pub open spec fn volume_of(text: Seq<char>) -> Option<u64> {
    match as_i64(decimal_value(text, 0)) {
        Some(v) if v >= 0 => Some(v as u64),
        _ => None,
    }
}

/// Where the fields of a record stand.
pub struct Columns {
    pub date: usize,
    pub open: usize,
    pub high: usize,
    pub low: usize,
    pub close: usize,
    pub volume: usize,
}

/// Where `header` has the six columns.
pub open spec fn columns_of(header: Seq<Seq<char>>) -> Columns {
    Columns {
        date: position(header, Column::Date.name()) as usize,
        open: position(header, Column::Open.name()) as usize,
        high: position(header, Column::High.name()) as usize,
        low: position(header, Column::Low.name()) as usize,
        close: position(header, Column::Close.name()) as usize,
        volume: position(header, Column::Volume.name()) as usize,
    }
}

impl Columns {
    /// Whether a record of `count` fields has all six columns.
    pub open spec fn within(self, count: nat) -> bool {
        &&& self.date < count
        &&& self.open < count
        &&& self.high < count
        &&& self.low < count
        &&& self.close < count
        &&& self.volume < count
    }
}

/// The trading interval that `fields` describe, or the first thing that is
/// wrong with them: a column is not there, or a field does not read as
/// what its column holds, the columns taken in the order date, open, high,
/// low, close, volume.
pub open spec fn row_of(columns: Columns, fields: Seq<Seq<char>>) -> Result<Record, Fault> {
    if !columns.within(fields.len()) {
        Err(Fault::Malformed)
    } else if parsed_instant(fields[columns.date as int], FORMAT@) is None {
        Err(Fault::Timestamp)
    } else if price_of(fields[columns.open as int]) is None {
        Err(Fault::Number(Column::Open))
    } else if price_of(fields[columns.high as int]) is None {
        Err(Fault::Number(Column::High))
    } else if price_of(fields[columns.low as int]) is None {
        Err(Fault::Number(Column::Low))
    } else if price_of(fields[columns.close as int]) is None {
        Err(Fault::Number(Column::Close))
    } else if volume_of(fields[columns.volume as int]) is None {
        Err(Fault::Number(Column::Volume))
    } else {
        Ok(
            Record {
                timestamp: parsed_instant(fields[columns.date as int], FORMAT@)->0,
                open: price_of(fields[columns.open as int])->0,
                high: price_of(fields[columns.high as int])->0,
                low: price_of(fields[columns.low as int])->0,
                close: price_of(fields[columns.close as int])->0,
                volume: volume_of(fields[columns.volume as int])->0,
            },
        )
    }
}

/// The trading interval of one record of the table.
pub open spec fn line_of(columns: Columns, line: Option<Seq<Seq<char>>>) -> Result<Record, Fault> {
    match line {
        Some(fields) => row_of(columns, fields),
        None => Err(Fault::Malformed),
    }
}

/// The first record from `from` on that does not give a trading interval,
/// with what is wrong with it.
pub open spec fn first_fault(
    columns: Columns,
    lines: Seq<Option<Seq<Seq<char>>>>,
    from: int,
) -> Option<(int, Fault)>
    decreases lines.len() - from,
{
    if from < 0 || from >= lines.len() {
        None
    } else {
        match line_of(columns, lines[from]) {
            Err(fault) => Some((from, fault)),
            Ok(_) => first_fault(columns, lines, from + 1),
        }
    }
}

/// The rows of a table, in the order of its records, or what is wrong with
/// the first record that something is wrong with. A table without a header
/// lacks the date column.
pub open spec fn table_of(lines: Seq<Option<Seq<Seq<char>>>>) -> Result<Seq<Record>, LoadError> {
    if lines.len() == 0 {
        Err(LoadError::Parse { line: 0, fault: Fault::MissingColumn(Column::Date) })
    } else {
        match lines[0] {
            None => Err(LoadError::Parse { line: 0, fault: Fault::Malformed }),
            Some(header) => match header_fault(header) {
                Some(fault) => Err(LoadError::Parse { line: 0, fault }),
                None => match first_fault(columns_of(header), lines, 1) {
                    Some((line, fault)) => Err(LoadError::Parse { line: line as usize, fault }),
                    None => Ok(
                        Seq::new(
                            (lines.len() - 1) as nat,
                            |k: int| line_of(columns_of(header), lines[k + 1])->Ok_0,
                        ),
                    ),
                },
            },
        }
    }
}

/// Finds the one position at which `header` names `column`.
fn locate(header: &Vec<String>, column: Column) -> (found: Result<usize, Fault>)
    ensures
        match found {
            Ok(p) => column_fault(header.deep_view(), column) is None && p == position(
                header.deep_view(),
                column.name(),
            ),
            Err(fault) => column_fault(header.deep_view(), column) == Some(fault),
        },
{
    let name = String::from_str(column.label());
    let ghost h = header.deep_view();
    let mut first: usize = 0;
    let mut count: usize = 0;
    let mut i: usize = 0;
    while i < header.len()
        invariant
            i <= header.len(),
            h == header.deep_view(),
            name@ == column.name(),
            first == position(h.take(i as int), name@),
            count == occurrences(h.take(i as int), name@),
            first <= i,
            count <= i,
        decreases header.len() - i,
    {
        proof {
            assert(h.take(i + 1).drop_last() =~= h.take(i as int));
            assert(h.take(i + 1).last() == header@[i as int]@);
        }
        if header[i] == name {
            count = count + 1;
        } else if first == i {
            first = i + 1;
        }
        i = i + 1;
    }
    proof {
        assert(h.take(i as int) =~= h);
    }
    if count == 0 {
        Err(Fault::MissingColumn(column))
    } else if count > 1 {
        Err(Fault::RepeatedColumn(column))
    } else {
        Ok(first)
    }
}

/// Finds the six columns in `header`.
fn find_columns(header: &Vec<String>) -> (found: Result<Columns, Fault>)
    ensures
        match found {
            Ok(columns) => header_fault(header.deep_view()) is None && columns == columns_of(
                header.deep_view(),
            ),
            Err(fault) => header_fault(header.deep_view()) == Some(fault),
        },
{
    let date = match locate(header, Column::Date) {
        Ok(p) => p,
        Err(fault) => {
            return Err(fault);
        },
    };
    let open = match locate(header, Column::Open) {
        Ok(p) => p,
        Err(fault) => {
            return Err(fault);
        },
    };
    let high = match locate(header, Column::High) {
        Ok(p) => p,
        Err(fault) => {
            return Err(fault);
        },
    };
    let low = match locate(header, Column::Low) {
        Ok(p) => p,
        Err(fault) => {
            return Err(fault);
        },
    };
    let close = match locate(header, Column::Close) {
        Ok(p) => p,
        Err(fault) => {
            return Err(fault);
        },
    };
    let volume = match locate(header, Column::Volume) {
        Ok(p) => p,
        Err(fault) => {
            return Err(fault);
        },
    };
    Ok(Columns { date, open, high, low, close, volume })
}

/// Reads a field of a price column.
fn read_price(text: &str, column: Column) -> (price: Result<i64, Fault>)
    ensures
        price == match price_of(text@) {
            Some(p) => Ok::<i64, Fault>(p),
            None => Err(Fault::Number(column)),
        },
{
    match parse_decimal(text, PRICE_PLACES) {
        Some(p) => Ok(p),
        None => Err(Fault::Number(column)),
    }
}

/// Reads a field of the volume column.
fn read_volume(text: &str) -> (volume: Result<u64, Fault>)
    ensures
        volume == match volume_of(text@) {
            Some(v) => Ok::<u64, Fault>(v),
            None => Err(Fault::Number(Column::Volume)),
        },
{
    match parse_decimal(text, 0) {
        Some(v) => if v >= 0 {
            Ok(v as u64)
        } else {
            Err(Fault::Number(Column::Volume))
        },
        None => Err(Fault::Number(Column::Volume)),
    }
}

/// Reads the fields of one record as a trading interval.
pub fn read_row(columns: &Columns, fields: &Vec<String>) -> (row: Result<Record, Fault>)
    ensures
        row == row_of(*columns, fields.deep_view()),
{
    let count = fields.len();
    if !(columns.date < count && columns.open < count && columns.high < count && columns.low
        < count && columns.close < count && columns.volume < count) {
        return Err(Fault::Malformed);
    }
    let timestamp = match deserialize(fields[columns.date].as_str()) {
        Ok(t) => t,
        Err(fault) => {
            return Err(fault);
        },
    };
    let open = match read_price(fields[columns.open].as_str(), Column::Open) {
        Ok(p) => p,
        Err(fault) => {
            return Err(fault);
        },
    };
    let high = match read_price(fields[columns.high].as_str(), Column::High) {
        Ok(p) => p,
        Err(fault) => {
            return Err(fault);
        },
    };
    let low = match read_price(fields[columns.low].as_str(), Column::Low) {
        Ok(p) => p,
        Err(fault) => {
            return Err(fault);
        },
    };
    let close = match read_price(fields[columns.close].as_str(), Column::Close) {
        Ok(p) => p,
        Err(fault) => {
            return Err(fault);
        },
    };
    let volume = match read_volume(fields[columns.volume].as_str()) {
        Ok(v) => v,
        Err(fault) => {
            return Err(fault);
        },
    };
    Ok(Record { timestamp, open, high, low, close, volume })
}

/// Reads the records of a table, the header first, as trading intervals in
/// the order of the table.
pub fn read_table(lines: &Vec<Option<Vec<String>>>) -> (rows: Result<Vec<Record>, LoadError>)
    ensures
        match table_of(lines.deep_view()) {
            Ok(expected) => rows matches Ok(found) && found@ == expected,
            Err(error) => rows == Err::<Vec<Record>, LoadError>(error),
        },
{
    let ghost table = lines.deep_view();
    if lines.len() == 0 {
        return Err(LoadError::Parse { line: 0, fault: Fault::MissingColumn(Column::Date) });
    }
    let header = match &lines[0] {
        Some(header) => header,
        None => {
            return Err(LoadError::Parse { line: 0, fault: Fault::Malformed });
        },
    };
    let columns = match find_columns(header) {
        Ok(columns) => columns,
        Err(fault) => {
            return Err(LoadError::Parse { line: 0, fault });
        },
    };
    let mut rows: Vec<Record> = Vec::new();
    let mut i: usize = 1;
    while i < lines.len()
        invariant
            1 <= i <= lines.len(),
            table == lines.deep_view(),
            table[0] is Some,
            header_fault(table[0]->0) is None,
            columns == columns_of(table[0]->0),
            rows.len() == i - 1,
            forall|k: int| 0 <= k < i - 1 ==> line_of(columns, table[k + 1]) == Ok::<Record, Fault>(
                #[trigger] rows[k],
            ),
            first_fault(columns, table, 1) == first_fault(columns, table, i as int),
        decreases lines.len() - i,
    {
        let row = match &lines[i] {
            Some(fields) => read_row(&columns, fields),
            None => Err(Fault::Malformed),
        };
        assert(row == line_of(columns, table[i as int]));
        match row {
            Ok(record) => {
                rows.push(record);
            },
            Err(fault) => {
                assert(first_fault(columns, table, i as int) == Some((i as int, fault)));
                return Err(LoadError::Parse { line: i, fault });
            },
        }
        i = i + 1;
    }
    proof {
        let expected = Seq::new(
            (table.len() - 1) as nat,
            |k: int| line_of(columns, table[k + 1])->Ok_0,
        );
        assert(rows@ =~= expected);
    }
    Ok(rows)
}

/// What loading the bytes of a table gives: the rows of the table in
/// chronological order, rows of equal timestamp in the order of the table,
/// or what is wrong with the table.
pub open spec fn loads_as(bytes: Seq<u8>, outcome: Result<Series, LoadError>) -> bool {
    match table_of(csv_records(bytes)) {
        Ok(rows) => outcome matches Ok(series) && is_stable_ordering(rows, series@),
        Err(error) => outcome matches Err(found) && found == error,
    }
}

/// Loads a series from the bytes of a table.
pub fn parse_series(bytes: &[u8]) -> (outcome: Result<Series, LoadError>)
    ensures
        loads_as(bytes@, outcome),
{
    let lines = read_records(bytes);
    match read_table(&lines) {
        Ok(rows) => Ok(Series::from_rows(rows)),
        Err(error) => Err(error),
    }
}

/// Loads the series of a ticker from the resource that was found for it,
/// if one was.
pub fn load(resource: Option<&[u8]>) -> (outcome: Result<Series, LoadError>)
    ensures
        match resource {
            Some(bytes) => loads_as(bytes@, outcome),
            None => outcome matches Err(error) && error == LoadError::ResourceNotFound,
        },
{
    match resource {
        Some(bytes) => parse_series(bytes),
        None => Err(LoadError::ResourceNotFound),
    }
}

} // verus!
