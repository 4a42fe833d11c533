//! The table as a mathematical value, and what saving a row does to it.

use crate::error::{ErrorKind, ErrorView};
use crate::row::row_names;
use crate::value::{ColumnType, Value};
use vstd::prelude::*;

verus! {

/// Mathematical content of a table.
///
/// `columns` holds the columns that have received at least one value; a
/// column of the schema that never received one is absent from it.
pub struct TableView {
    pub name: Seq<char>,
    pub schema: Map<Seq<char>, ColumnType>,
    pub columns: Map<Seq<char>, Seq<Value>>,
    pub select_columns: Seq<Seq<char>>,
    pub row_count: nat,
}

impl TableView {
    /// The values of column `column`, oldest first; none while the column is
    /// absent.
    pub open spec fn cells(self, column: Seq<char>) -> Seq<Value> {
        if self.columns.contains_key(column) {
            self.columns[column]
        } else {
            Seq::empty()
        }
    }

    /// The row index at which a value for `column` would be stored: the
    /// number of values that the column holds.
    pub open spec fn target_row(self, column: Seq<char>) -> nat {
        self.cells(column).len()
    }

    /// Column `column` has received at least one value.
    pub open spec fn received(self, column: Seq<char>) -> bool {
        self.columns.contains_key(column) && self.columns[column].len() > 0
    }

    /// Every value of column `column` is of the column's declared type.
    pub open spec fn typed(self, column: Seq<char>) -> bool {
        forall|i: int|
            0 <= i < self.cells(column).len() ==> (#[trigger] self.cells(column)[i]).matches(
                self.schema[column],
            )
    }

    /// Every stored column belongs to the schema, is not empty, holds at
    /// most one value per saved row, and holds only values of its declared
    /// type.
    pub open spec fn wf(self) -> bool {
        forall|column: Seq<char>| #[trigger]
            self.columns.contains_key(column) ==> {
                &&& self.schema.contains_key(column)
                &&& 0 < self.columns[column].len() <= self.row_count
                &&& self.typed(column)
            }
    }

    /// Every column of the schema holds exactly one value per saved row.
    pub open spec fn aligned(self) -> bool {
        forall|column: Seq<char>| #[trigger]
            self.schema.contains_key(column) ==> self.cells(column).len() == self.row_count
    }

    /// The schema turns the pair away: it has no such column, or the value
    /// is not of the column's declared type.
    pub open spec fn rejects(self, pair: (Seq<char>, Value)) -> bool {
        !self.schema.contains_key(pair.0) || !pair.1.matches(self.schema[pair.0])
    }

    /// A value for `column` would be a duplicate entry: the table holds
    /// data, and every column that has received a value is longer than
    /// `column`, so the row index at which the value would land has been
    /// left behind by all of them.
    pub open spec fn is_duplicate(self, column: Seq<char>) -> bool {
        &&& exists|other: Seq<char>| self.received(other)
        &&& forall|other: Seq<char>| #[trigger]
            self.received(other) ==> self.columns[other].len() > self.target_row(column)
    }

    /// Pair `i` of `row` is the first that the schema turns away.
    pub open spec fn first_rejected(self, row: Seq<(Seq<char>, Value)>, i: int) -> bool {
        &&& 0 <= i < row.len()
        &&& self.rejects(row[i])
        &&& forall|j: int| 0 <= j < i ==> !self.rejects(#[trigger] row[j])
    }

    /// Pair `i` of `row` is the first whose value would be a duplicate
    /// entry.
    pub open spec fn first_duplicate(self, row: Seq<(Seq<char>, Value)>, i: int) -> bool {
        &&& 0 <= i < row.len()
        &&& self.is_duplicate(row[i].0)
        &&& forall|j: int| 0 <= j < i ==> !self.is_duplicate((#[trigger] row[j]).0)
    }

    /// Every pair of `row` passes both checks: the schema turns none away,
    /// and no value would be a duplicate entry.
    pub open spec fn accepts(self, row: Seq<(Seq<char>, Value)>) -> bool {
        forall|j: int|
            0 <= j < row.len() ==> !self.rejects(#[trigger] row[j]) && !self.is_duplicate(row[j].0)
    }

    /// The error for a pair that the schema turns away. Its row is the index
    /// at which the value would have been stored. For a column that the
    /// schema does not have, the expected type is reported as `Text`.
    pub open spec fn type_error(self, pair: (Seq<char>, Value)) -> ErrorView {
        ErrorView {
            table: self.name,
            column: pair.0,
            row: self.target_row(pair.0),
            value: pair.1,
            kind: ErrorKind::WrongDataType {
                column: pair.0,
                expected: if self.schema.contains_key(pair.0) {
                    self.schema[pair.0]
                } else {
                    ColumnType::Text
                },
                found: pair.1,
            },
        }
    }

    /// The error for a pair whose value would be a duplicate entry. Its row
    /// is the index at which the value would have been stored.
    pub open spec fn duplicate_error(self, pair: (Seq<char>, Value)) -> ErrorView {
        ErrorView {
            table: self.name,
            column: pair.0,
            row: self.target_row(pair.0),
            value: pair.1,
            kind: ErrorKind::DuplicateEntry,
        }
    }

    /// The table after `row` has been stored: each column that the row
    /// names has the row's value appended, every other column is as before,
    /// and one more row is counted.
    pub open spec fn with_row(self, row: Seq<(Seq<char>, Value)>) -> TableView {
        TableView {
            columns: Map::new(
                |column: Seq<char>|
                    self.columns.contains_key(column) || row_names(row).contains(column),
                |column: Seq<char>|
                    if row_names(row).contains(column) {
                        self.cells(column).push(row[row_names(row).index_of(column)].1)
                    } else {
                        self.columns[column]
                    },
            ),
            row_count: self.row_count + 1,
            ..self
        }
    }

    /// What saving `row` gives: the error for the first pair that the schema
    /// turns away; failing that, the error for the first pair whose value
    /// would be a duplicate entry; failing that, the table with the row
    /// stored.
    pub open spec fn save(self, row: Seq<(Seq<char>, Value)>) -> Result<TableView, ErrorView> {
        if exists|i: int| self.first_rejected(row, i) {
            Err(self.type_error(row[choose|i: int| self.first_rejected(row, i)]))
        } else if exists|i: int| self.first_duplicate(row, i) {
            Err(self.duplicate_error(row[choose|i: int| self.first_duplicate(row, i)]))
        } else {
            Ok(self.with_row(row))
        }
    }

    /// The table after an attempt to save `row`: with the row stored if it
    /// was accepted, unchanged if it was rejected.
    pub open spec fn after_save(self, row: Seq<(Seq<char>, Value)>) -> TableView {
        match self.save(row) {
            Ok(next) => next,
            Err(_) => self,
        }
    }
}

} // verus!
