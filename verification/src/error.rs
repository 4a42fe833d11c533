//! What a rejected row is reported with.

use crate::value::{ColumnType, DataType, Value};
use vstd::prelude::*;

verus! {

/// Why a row was rejected.
#[derive(Debug)]
pub enum DatabaseError {
    /// The value does not have the declared type of its column, or the
    /// table has no such column; in the second case `expected` is `Text`.
    WrongDataType { column: String, expected: ColumnType, found: DataType },
    /// Kept for columns with a bounded size. No check raises it.
    ValueTooLarge,
    /// The value would be written to a row that the other columns have
    /// already left behind.
    DuplicateEntry,
}

/// Mathematical content of a [`DatabaseError`].
pub enum ErrorKind {
    WrongDataType { column: Seq<char>, expected: ColumnType, found: Value },
    ValueTooLarge,
    DuplicateEntry,
}

impl View for DatabaseError {
    type V = ErrorKind;

    open spec fn view(&self) -> ErrorKind {
        match *self {
            DatabaseError::WrongDataType { column, expected, found } => ErrorKind::WrongDataType {
                column: column@,
                expected,
                found: found@,
            },
            DatabaseError::ValueTooLarge => ErrorKind::ValueTooLarge,
            DatabaseError::DuplicateEntry => ErrorKind::DuplicateEntry,
        }
    }
}

/// One rejected row: the table, the first offending column and its value,
/// the row index at which the conflict was found, and the reason. The row
/// index is the one at which the value would have been stored: the number
/// of values that the column held.
#[derive(Debug)]
pub struct DbError {
    pub table: String,
    pub column: String,
    pub row: usize,
    pub value: DataType,
    pub kind: DatabaseError,
}

/// Mathematical content of a [`DbError`].
pub struct ErrorView {
    pub table: Seq<char>,
    pub column: Seq<char>,
    pub row: nat,
    pub value: Value,
    pub kind: ErrorKind,
}

impl View for DbError {
    type V = ErrorView;

    open spec fn view(&self) -> ErrorView {
        ErrorView {
            table: self.table@,
            column: self.column@,
            row: self.row as nat,
            value: self.value@,
            kind: self.kind@,
        }
    }
}

} // verus!
