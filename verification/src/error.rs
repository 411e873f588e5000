//! Why a load can fail.

use crate::labels::{decimal_text, push_decimal};
use vstd::prelude::*;
use vstd::string::*;

verus! {

/// A column of the input table.
#[derive(Clone, Copy, Debug, PartialEq, Eq, Structural)]
pub enum Column {
    Date,
    Open,
    High,
    Low,
    Close,
    Volume,
}

/// What is wrong with a line of the input.
#[derive(Clone, Copy, Debug, PartialEq, Eq, Structural)]
pub enum Fault {
    /// The line is not a record of the table: it is not valid text, or it
    /// has another number of fields than the lines before it.
    Malformed,
    /// The header names no such column.
    MissingColumn(Column),
    /// The header names the column more than once.
    RepeatedColumn(Column),
    /// The date field does not read as a timestamp.
    Timestamp,
    /// The field of this column does not read as a number, or the number
    /// is out of range.
    Number(Column),
}

/// A failed load. A load gives all the rows of its input or none.
#[derive(Clone, Copy, Debug, PartialEq, Eq, Structural)]
pub enum LoadError {
    /// There is no data for the ticker.
    ResourceNotFound,
    /// The data does not read as a table of records. `line` counts the
    /// records of the input from 0, which is the header.
    Parse { line: usize, fault: Fault },
}

impl Column {
    /// The name by which the header of a table refers to the column.
    pub open spec fn name(self) -> Seq<char> {
        match self {
            Column::Date => "Date"@,
            Column::Open => "Open"@,
            Column::High => "High"@,
            Column::Low => "Low"@,
            Column::Close => "Close"@,
            Column::Volume => "Volume"@,
        }
    }

    /// The name by which the header of a table refers to the column.
    pub fn label(self) -> (name: &'static str)
        ensures
            name@ == self.name(),
    {
        match self {
            Column::Date => "Date",
            Column::Open => "Open",
            Column::High => "High",
            Column::Low => "Low",
            Column::Close => "Close",
            Column::Volume => "Volume",
        }
    }
}

impl Fault {
    /// What the fault is, in words.
    pub open spec fn text(self) -> Seq<char> {
        match self {
            Fault::Malformed => "malformed record"@,
            Fault::MissingColumn(column) => "missing column "@ + column.name(),
            Fault::RepeatedColumn(column) => "repeated column "@ + column.name(),
            Fault::Timestamp => "invalid timestamp"@,
            Fault::Number(column) => "invalid number in column "@ + column.name(),
        }
    }

    /// What the fault is, in words.
    pub fn describe(self) -> (text: String)
        ensures
            text@ == self.text(),
    {
        match self {
            Fault::Malformed => String::from_str("malformed record"),
            Fault::MissingColumn(column) => {
                let mut text = String::from_str("missing column ");
                text.append(column.label());
                text
            },
            Fault::RepeatedColumn(column) => {
                let mut text = String::from_str("repeated column ");
                text.append(column.label());
                text
            },
            Fault::Timestamp => String::from_str("invalid timestamp"),
            Fault::Number(column) => {
                let mut text = String::from_str("invalid number in column ");
                text.append(column.label());
                text
            },
        }
    }
}

impl LoadError {
    /// The message that tells the user why the load of `ticker` failed.
    pub open spec fn text(self, ticker: Seq<char>) -> Seq<char> {
        match self {
            LoadError::ResourceNotFound => "Data file not found for ticker: "@ + ticker,
            LoadError::Parse { line, fault } => "line "@ + decimal_text(line as nat) + ": "@
                + fault.text(),
        }
    }

    /// The message that tells the user why the load of `ticker` failed: that
    /// there is no data for the ticker, or which line of the data is at
    /// fault and how.
    pub fn message(self, ticker: &str) -> (text: String)
        ensures
            text@ == self.text(ticker@),
    {
        match self {
            LoadError::ResourceNotFound => {
                let mut text = String::from_str("Data file not found for ticker: ");
                text.append(ticker);
                text
            },
            LoadError::Parse { line, fault } => {
                let mut text = String::from_str("line ");
                push_decimal(&mut text, line as u128);
                text.append(": ");
                let detail = fault.describe();
                text.append(detail.as_str());
                text
            },
        }
    }
}

} // verus!
