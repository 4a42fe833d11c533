//! What holds of every table and every row.

use crate::error::{ErrorKind, ErrorView};
use crate::model::TableView;
use crate::names::lemma_index_of_unique;
use crate::row::row_names;
use crate::value::{ColumnType, Value};
use vstd::prelude::*;

verus! {

/// The row gives a value to every column of the table's schema.
pub open spec fn covers_schema(table: TableView, row: Seq<(Seq<char>, Value)>) -> bool {
    forall|column: Seq<char>| #[trigger]
        table.schema.contains_key(column) ==> row_names(row).contains(column)
}

/// The table after saving each of `rows` in turn, provided that every one of
/// them is accepted.
pub open spec fn save_each(table: TableView, rows: Seq<Seq<(Seq<char>, Value)>>) -> Option<
    TableView,
>
    decreases rows.len(),
{
    if rows.len() == 0 {
        Some(table)
    } else {
        match save_each(table, rows.drop_last()) {
            Some(earlier) => match earlier.save(rows.last()) {
                Ok(next) => Some(next),
                Err(_) => None,
            },
            None => None,
        }
    }
}

/// Where the schema turns some pair of a row away, one pair is the first
/// that it turns away.
pub proof fn lemma_some_pair_is_first_rejected(
    table: TableView,
    row: Seq<(Seq<char>, Value)>,
    k: int,
) -> (i: int)
    requires
        0 <= k < row.len(),
        table.rejects(row[k]),
    ensures
        table.first_rejected(row, i),
        i <= k,
    decreases k,
{
    if exists|j: int| 0 <= j < k && table.rejects(row[j]) {
        let j = choose|j: int| 0 <= j < k && table.rejects(row[j]);
        lemma_some_pair_is_first_rejected(table, row, j)
    } else {
        k
    }
}

/// Where some value of a row would be a duplicate entry, one pair is the
/// first of which that holds.
pub proof fn lemma_some_pair_is_first_duplicate(
    table: TableView,
    row: Seq<(Seq<char>, Value)>,
    k: int,
) -> (i: int)
    requires
        0 <= k < row.len(),
        table.is_duplicate(row[k].0),
    ensures
        table.first_duplicate(row, i),
        i <= k,
    decreases k,
{
    if exists|j: int| 0 <= j < k && table.is_duplicate(row[j].0) {
        let j = choose|j: int| 0 <= j < k && table.is_duplicate(row[j].0);
        lemma_some_pair_is_first_duplicate(table, row, j)
    } else {
        k
    }
}

/// A row is accepted exactly when the schema turns none of its pairs away
/// and none of its values would be a duplicate entry.
pub proof fn lemma_accepted_iff_every_pair_passes(table: TableView, row: Seq<(Seq<char>, Value)>)
    ensures
        table.save(row) is Ok <==> table.accepts(row),
        table.save(row) is Ok ==> table.save(row) == Ok::<TableView, ErrorView>(
            table.with_row(row),
        ),
{
    if exists|k: int| 0 <= k < row.len() && table.rejects(row[k]) {
        let k = choose|k: int| 0 <= k < row.len() && table.rejects(row[k]);
        lemma_some_pair_is_first_rejected(table, row, k);
    } else if exists|k: int| 0 <= k < row.len() && table.is_duplicate(row[k].0) {
        let k = choose|k: int| 0 <= k < row.len() && table.is_duplicate(row[k].0);
        lemma_some_pair_is_first_duplicate(table, row, k);
    }
}

/// A rejected row is reported with the name of the table, with the column
/// and the value of one of its pairs, and with the index at which that value
/// would have been stored. The reason is `WrongDataType`, for a pair that
/// the schema turns away, with the pair's column and value in it, or
/// `DuplicateEntry`, for a value that would be a duplicate entry: nothing
/// raises `ValueTooLarge`.
pub proof fn lemma_error_names_a_pair(table: TableView, row: Seq<(Seq<char>, Value)>)
    requires
        table.save(row) is Err,
    ensures
        table.save(row)->Err_0.table == table.name,
        exists|i: int|
            0 <= i < row.len() && table.save(row)->Err_0.column == row[i].0 && table.save(
                row,
            )->Err_0.value == row[i].1,
        table.save(row)->Err_0.row == table.target_row(table.save(row)->Err_0.column),
        table.save(row)->Err_0.kind is WrongDataType <==> exists|k: int|
            0 <= k < row.len() && table.rejects(row[k]),
        table.save(row)->Err_0.kind matches ErrorKind::WrongDataType { column, expected, found }
            ==> {
            &&& column == table.save(row)->Err_0.column
            &&& found == table.save(row)->Err_0.value
            &&& table.rejects((column, found))
            &&& expected == if table.schema.contains_key(column) {
                table.schema[column]
            } else {
                ColumnType::Text
            }
        },
        table.save(row)->Err_0.kind is DuplicateEntry ==> table.is_duplicate(
            table.save(row)->Err_0.column,
        ),
        table.save(row)->Err_0.kind is WrongDataType || table.save(row)->Err_0.kind
            is DuplicateEntry,
{
    let error = table.save(row)->Err_0;
    if exists|i: int| table.first_rejected(row, i) {
        let i = choose|i: int| table.first_rejected(row, i);
        assert(error.column == row[i].0 && error.value == row[i].1);
    } else {
        let i = choose|i: int| table.first_duplicate(row, i);
        assert(error.column == row[i].0 && error.value == row[i].1);
        if exists|k: int| 0 <= k < row.len() && table.rejects(row[k]) {
            let k = choose|k: int| 0 <= k < row.len() && table.rejects(row[k]);
            lemma_some_pair_is_first_rejected(table, row, k);
        }
    }
}

/// Type safety: a single value whose variant is not the declared type of
/// its column is rejected as `WrongDataType`, with the declared type as the
/// expected one and with the index at which the value would have been
/// stored, and the table stays as it was.
pub proof fn lemma_mismatched_value_is_rejected(table: TableView, column: Seq<char>, value: Value)
    requires
        table.schema.contains_key(column),
        value.column_type() != table.schema[column],
    ensures
        table.save(seq![(column, value)]) == Err::<TableView, ErrorView>(
            ErrorView {
                table: table.name,
                column,
                row: table.target_row(column),
                value,
                kind: ErrorKind::WrongDataType {
                    column,
                    expected: table.schema[column],
                    found: value,
                },
            },
        ),
        !table.accepts(seq![(column, value)]),
        table.after_save(seq![(column, value)]) == table,
{
    assert(table.first_rejected(seq![(column, value)], 0));
}

/// Unknown columns: a row that names a column outside the schema is
/// rejected as `WrongDataType`, whatever else it holds, and the table stays
/// as it was.
pub proof fn lemma_unknown_column_is_rejected(table: TableView, row: Seq<(Seq<char>, Value)>)
    requires
        exists|k: int| 0 <= k < row.len() && !table.schema.contains_key(row[k].0),
    ensures
        !table.accepts(row),
        table.save(row) is Err,
        table.save(row)->Err_0.kind is WrongDataType,
        table.after_save(row) == table,
{
    let k = choose|k: int| 0 <= k < row.len() && !table.schema.contains_key(row[k].0);
    lemma_some_pair_is_first_rejected(table, row, k);
}

/// A rejected row changes nothing: the columns, the number of rows and all
/// else are as before.
pub proof fn lemma_rejected_row_changes_nothing(table: TableView, row: Seq<(Seq<char>, Value)>)
    requires
        table.save(row) is Err,
    ensures
        table.after_save(row) == table,
        table.after_save(row).row_count == table.row_count,
{
}

/// An accepted row is counted as one row, lengthens each column that it
/// names by its value, and leaves every other column alone.
pub proof fn lemma_accepted_row_is_appended(table: TableView, row: Seq<(Seq<char>, Value)>, i: int)
    requires
        row_names(row).no_duplicates(),
        table.save(row) is Ok,
        0 <= i < row.len(),
    ensures
        table.after_save(row).row_count == table.row_count + 1,
        table.after_save(row).cells(row[i].0) == table.cells(row[i].0).push(row[i].1),
        forall|column: Seq<char>|
            !row_names(row).contains(column) ==> table.after_save(row).cells(column)
                == table.cells(column),
{
    lemma_accepted_iff_every_pair_passes(table, row);
    lemma_index_of_unique(row_names(row), i);
}

/// In a well-formed table a value is a duplicate entry exactly when its
/// column has never received a value while another column has.
pub proof fn lemma_duplicate_means_late_column(table: TableView, column: Seq<char>)
    requires
        table.wf(),
    ensures
        table.is_duplicate(column) <==> {
            &&& !table.columns.contains_key(column)
            &&& exists|other: Seq<char>| table.columns.contains_key(other)
        },
{
    if table.is_duplicate(column) && table.columns.contains_key(column) {
        // The column would have to be longer than itself.
        assert(table.received(column));
    }
    if !table.columns.contains_key(column) && exists|other: Seq<char>|
        table.columns.contains_key(other) {
        let other = choose|other: Seq<char>| table.columns.contains_key(other);
        assert(table.received(other));
    }
}

/// Saving a row, accepted or not, leaves the name, the schema and the
/// columns chosen for display as they were, and a well-formed table stays
/// well formed: every column still holds only values of its declared type.
pub proof fn lemma_save_keeps_wf(table: TableView, row: Seq<(Seq<char>, Value)>)
    requires
        table.wf(),
        row_names(row).no_duplicates(),
    ensures
        table.after_save(row).wf(),
        table.after_save(row).name == table.name,
        table.after_save(row).schema == table.schema,
        table.after_save(row).select_columns == table.select_columns,
{
    if table.save(row) is Ok {
        lemma_accepted_iff_every_pair_passes(table, row);
        let next = table.with_row(row);
        assert forall|column: Seq<char>| #[trigger] next.columns.contains_key(column) implies {
            &&& next.schema.contains_key(column)
            &&& 0 < next.columns[column].len() <= next.row_count
            &&& next.typed(column)
        } by {
            if table.columns.contains_key(column) {
                assert(table.typed(column));
            }
            if row_names(row).contains(column) {
                // The new value is of the declared type, as the schema accepted its pair.
                let j = row_names(row).index_of(column);
                assert(!table.rejects(row[j]));
                assert(next.cells(column) == table.cells(column).push(row[j].1));
            } else {
                assert(next.cells(column) == table.cells(column));
            }
        }
    }
}

/// On a well-formed table whose columns are aligned, every row that the
/// schema does not turn away is accepted: none of its values is a duplicate
/// entry.
pub proof fn lemma_full_row_is_accepted(table: TableView, row: Seq<(Seq<char>, Value)>)
    requires
        table.wf(),
        table.aligned(),
        forall|j: int| 0 <= j < row.len() ==> !table.rejects(#[trigger] row[j]),
    ensures
        table.save(row) is Ok,
{
    lemma_accepted_iff_every_pair_passes(table, row);
    assert forall|j: int| 0 <= j < row.len() implies !table.is_duplicate((#[trigger] row[j]).0) by {
        if table.is_duplicate(row[j].0) {
            // Some column has received a value, and it is as long as the column of the pair.
            let other = choose|other: Seq<char>| table.received(other);
            assert(table.cells(other).len() == table.cells(row[j].0).len());
        }
    }
}

/// Alignment: when every one of `rows` gives a value to each column of the
/// schema and all of them are accepted, one after the other, by a table
/// whose columns are aligned, then the columns are aligned afterwards too:
/// each holds one more value for each of the rows.
pub proof fn lemma_full_rows_keep_alignment(table: TableView, rows: Seq<Seq<(Seq<char>, Value)>>)
    requires
        table.aligned(),
        forall|k: int|
            0 <= k < rows.len() ==> row_names(#[trigger] rows[k]).no_duplicates() && covers_schema(
                table,
                rows[k],
            ),
        save_each(table, rows) is Some,
    ensures
        save_each(table, rows).unwrap().schema == table.schema,
        save_each(table, rows).unwrap().row_count == table.row_count + rows.len(),
        save_each(table, rows).unwrap().aligned(),
        forall|column: Seq<char>| #[trigger]
            table.schema.contains_key(column) ==> save_each(table, rows).unwrap().cells(
                column,
            ).len() == table.row_count + rows.len(),
    decreases rows.len(),
{
    if rows.len() > 0 {
        let row = rows.last();
        lemma_full_rows_keep_alignment(table, rows.drop_last());
        let earlier = save_each(table, rows.drop_last()).unwrap();
        lemma_accepted_iff_every_pair_passes(earlier, row);
        assert(covers_schema(table, row));
        assert(earlier.with_row(row).aligned());
    }
}

/// Alignment after `N` rows: when a table that holds nothing yet accepts
/// `N` rows in turn, each of which gives a value to every column of the
/// schema, then every column holds `N` values and `N` rows are counted.
pub proof fn lemma_full_rows_fill_every_column(
    table: TableView,
    rows: Seq<Seq<(Seq<char>, Value)>>,
)
    requires
        table.columns == Map::<Seq<char>, Seq<Value>>::empty(),
        table.row_count == 0,
        forall|k: int|
            0 <= k < rows.len() ==> row_names(#[trigger] rows[k]).no_duplicates() && covers_schema(
                table,
                rows[k],
            ),
        save_each(table, rows) is Some,
    ensures
        save_each(table, rows).unwrap().row_count == rows.len(),
        forall|column: Seq<char>| #[trigger]
            table.schema.contains_key(column) ==> save_each(table, rows).unwrap().cells(
                column,
            ).len() == rows.len(),
{
    lemma_full_rows_keep_alignment(table, rows);
}

} // verus!
