//! The table and its one mutating operation.

use crate::error::{DatabaseError, DbError, ErrorKind, ErrorView};
use crate::model::TableView;
use crate::names::{chars_of, lemma_index_of_unique};
use crate::row::{row_names, Row};
use crate::schema::Schema;
use crate::value::{ColumnType, DataType, Value};
use vstd::prelude::*;

verus! {

/// A named collection of typed columns.
///
/// The schema is fixed when the table is made. The cells of each column are
/// kept in the order of the schema's names; a column counts as present once
/// it holds a value.
///
/// A row may leave columns out. Such columns are not appended to, so columns
/// may differ in length; [`TableView::aligned`] says when they do not, which
/// is the case as long as every row names every column.
#[derive(Debug)]
pub struct Table {
    name: String,
    fields: Schema,
    columns: Vec<Vec<DataType>>,
    select_columns: Vec<String>,
    row_count: usize,
}

impl View for Table {
    type V = TableView;

    closed spec fn view(&self) -> TableView {
        TableView {
            name: self.name@,
            schema: self.fields@,
            columns: Map::new(
                |column: Seq<char>|
                    self.fields.names().contains(column) && self.stored(
                        self.fields.names().index_of(column),
                    ).len() > 0,
                |column: Seq<char>| self.stored(self.fields.names().index_of(column)),
            ),
            select_columns: chars_of(self.select_columns@),
            row_count: self.row_count as nat,
        }
    }
}

impl Table {
    /// The values stored for the column at place `k` of the schema.
    closed spec fn stored(&self, k: int) -> Seq<Value> {
        self.columns@[k].deep_view()
    }

    /// `slots` gives, for each pair of `row`, the place of its column in the
    /// schema.
    closed spec fn places(&self, row: Seq<(Seq<char>, Value)>, slots: Seq<usize>) -> bool {
        &&& slots.len() == row.len()
        &&& forall|j: int|
            0 <= j < row.len() ==> (#[trigger] slots[j]) < self.fields.names().len()
                && self.fields.names()[slots[j] as int] == row[j].0
    }

    /// The schema is well formed, every one of its columns has its cells,
    /// no column holds more values than rows were saved, and every cell has
    /// the declared type of its column.
    pub closed spec fn wf(&self) -> bool {
        &&& self.fields.wf()
        &&& self.columns@.len() == self.fields.names().len()
        &&& forall|k: int|
            0 <= k < self.columns@.len() ==> (#[trigger] self.columns@[k])@.len() <= self.row_count
        &&& forall|k: int, i: int|
            0 <= k < self.columns@.len() && 0 <= i < self.columns@[k]@.len() ==> (
            #[trigger] self.columns@[k]@[i])@.matches(self.fields.types()[k])
    }

    /// What the table shows of the column at place `k` of the schema.
    proof fn lemma_slot(&self, k: int)
        requires
            self.wf(),
            0 <= k < self.fields.names().len(),
        ensures
            self@.schema.contains_key(self.fields.names()[k]),
            self@.schema[self.fields.names()[k]] == self.fields.types()[k],
            self@.cells(self.fields.names()[k]) == self.stored(k),
            self@.received(self.fields.names()[k]) <==> self.stored(k).len() > 0,
            self@.columns.contains_key(self.fields.names()[k]) <==> self.stored(k).len() > 0,
            self.stored(k).len() == self.columns@[k]@.len(),
    {
        self.fields.lemma_view();
        lemma_index_of_unique(self.fields.names(), k);
    }

    /// A stored column stands at some place of the schema.
    proof fn lemma_place_of(&self, column: Seq<char>) -> (k: int)
        requires
            self.wf(),
            self@.columns.contains_key(column),
        ensures
            0 <= k < self.fields.names().len(),
            self.fields.names()[k] == column,
    {
        self.fields.names().index_of(column)
    }

    /// A well-formed table shows a well-formed value.
    pub proof fn lemma_view_wf(&self)
        requires
            self.wf(),
        ensures
            self@.wf(),
            self@.schema.dom().finite(),
    {
        self.fields.lemma_view();
        let view = self@;
        assert forall|column: Seq<char>| #[trigger] view.columns.contains_key(column) implies {
            &&& view.schema.contains_key(column)
            &&& 0 < view.columns[column].len() <= view.row_count
            &&& view.typed(column)
        } by {
            let k = self.lemma_place_of(column);
            self.lemma_slot(k);
            assert(forall|i: int|
                0 <= i < view.cells(column).len() ==> #[trigger] view.cells(column)[i]
                    == self.columns@[k]@[i]@);
        }
    }

    /// An empty table named `name` with the columns of `fields`.
    pub fn new(name: String, fields: Schema) -> (table: Table)
        requires
            fields.wf(),
        ensures
            table.wf(),
            table@ == (TableView {
                name: name@,
                schema: fields@,
                columns: Map::empty(),
                select_columns: Seq::empty(),
                row_count: 0,
            }),
    {
        let width = fields.len();
        let mut columns: Vec<Vec<DataType>> = Vec::new();
        while columns.len() < width
            invariant
                columns@.len() <= width,
                forall|k: int| 0 <= k < columns@.len() ==> (#[trigger] columns@[k])@.len() == 0,
            decreases width - columns@.len(),
        {
            columns.push(Vec::new());
        }
        let table = Table { name, fields, columns, select_columns: Vec::new(), row_count: 0 };
        proof {
            assert(table@.columns =~= Map::<Seq<char>, Seq<Value>>::empty());
            assert(table@.select_columns =~= Seq::<Seq<char>>::empty());
        }
        table
    }

    /// The error that reports `found` as unfit for column `column`, which
    /// was expected to hold `expected` and would have stored the value at
    /// index `row`.
    fn wrong_type(
        &self,
        column: &String,
        row: usize,
        expected: ColumnType,
        found: &DataType,
    ) -> (error: DbError)
        ensures
            error@ == (ErrorView {
                table: self@.name,
                column: column@,
                row: row as nat,
                value: found@,
                kind: ErrorKind::WrongDataType {
                    column: column@,
                    expected,
                    found: found@,
                },
            }),
    {
        DbError {
            table: self.name.clone(),
            column: column.clone(),
            row,
            value: found.clone(),
            kind: DatabaseError::WrongDataType {
                column: column.clone(),
                expected,
                found: found.clone(),
            },
        }
    }

    /// Holds every pair of `data` against the schema, in the order of the
    /// row, and finds the place of each column.
    fn check_types(&self, data: &Row) -> (res: Result<Vec<usize>, DbError>)
        requires
            self.wf(),
            data.wf(),
        ensures
            match res {
                Ok(slots) => {
                    &&& self.places(data@, slots@)
                    &&& forall|j: int| 0 <= j < data@.len() ==> !self@.rejects(#[trigger] data@[j])
                },
                Err(e) => exists|i: int|
                    self@.first_rejected(data@, i) && e@ == self@.type_error(data@[i]),
            },
    {
        proof {
            self.fields.lemma_view();
        }
        let mut slots: Vec<usize> = Vec::new();
        let mut i: usize = 0;
        while i < data.len()
            invariant
                self.wf(),
                data.wf(),
                i <= data@.len(),
                self.places(data@.take(i as int), slots@),
                forall|j: int| 0 <= j < i ==> !self@.rejects(#[trigger] data@[j]),
            decreases data@.len() - i,
        {
            let name = data.name_at(i);
            let value = data.value_at(i);
            match self.fields.slot(name) {
                None => {
                    let error = self.wrong_type(name, 0, ColumnType::Text, value);
                    proof {
                        // A column outside the schema holds no value.
                        self.fields.lemma_view();
                        assert(!self@.columns.contains_key(name@));
                    }
                    assert(self@.first_rejected(data@, i as int));
                    return Err(error);
                },
                Some(k) => {
                    proof {
                        self.lemma_slot(k as int);
                    }
                    let expected = self.fields.type_at(k);
                    if !value.matches(&expected) {
                        let target = self.columns[k].len();
                        let error = self.wrong_type(name, target, expected, value);
                        assert(self@.first_rejected(data@, i as int));
                        return Err(error);
                    }
                    slots.push(k);
                },
            }
            i += 1;
        }
        Ok(slots)
    }

    /// Length of the shortest column that has received a value, if any has.
    fn shortest_received(&self) -> (shortest: Option<usize>)
        requires
            self.wf(),
        ensures
            match shortest {
                Some(least) => {
                    &&& exists|column: Seq<char>|
                        self@.received(column) && self@.columns[column].len() == least
                    &&& forall|column: Seq<char>| #[trigger]
                        self@.received(column) ==> self@.columns[column].len() >= least
                },
                None => forall|column: Seq<char>| !self@.received(column),
            },
    {
        let mut shortest: Option<usize> = None;
        let mut k: usize = 0;
        while k < self.columns.len()
            invariant
                self.wf(),
                k <= self.columns@.len(),
                match shortest {
                    Some(least) => {
                        &&& least > 0
                        &&& exists|at: int| 0 <= at < k && self.stored(at).len() == least
                        &&& forall|at: int|
                            0 <= at < k && self.stored(at).len() > 0 ==> self.stored(at).len()
                                >= least
                    },
                    None => forall|at: int| 0 <= at < k ==> self.stored(at).len() == 0,
                },
            decreases self.columns@.len() - k,
        {
            let length = self.columns[k].len();
            assert(self.stored(k as int).len() == length);
            if length > 0 {
                shortest =
                match shortest {
                    Some(least) if least <= length => Some(least),
                    _ => Some(length),
                };
            }
            k += 1;
        }
        proof {
            assert forall|column: Seq<char>| self@.received(column) implies match shortest {
                Some(least) => self@.columns[column].len() >= least,
                None => false,
            } by {
                let at = self.lemma_place_of(column);
                self.lemma_slot(at);
            }
            if let Some(least) = shortest {
                let at = choose|at: int|
                    0 <= at < self.columns@.len() && self.stored(at).len() == least;
                self.lemma_slot(at);
            }
        }
        shortest
    }

    /// Looks for the first pair of `data` whose value would be a duplicate
    /// entry in the table as it stands.
    fn check_duplicates(&self, data: &Row, slots: &Vec<usize>) -> (res: Option<DbError>)
        requires
            self.wf(),
            data.wf(),
            self.places(data@, slots@),
        ensures
            match res {
                None => forall|j: int|
                    0 <= j < data@.len() ==> !self@.is_duplicate((#[trigger] data@[j]).0),
                Some(e) => exists|i: int|
                    self@.first_duplicate(data@, i) && e@ == self@.duplicate_error(data@[i]),
            },
    {
        let least = match self.shortest_received() {
            Some(least) => least,
            None => {
                return None;
            },
        };
        let mut i: usize = 0;
        while i < data.len()
            invariant
                self.wf(),
                data.wf(),
                self.places(data@, slots@),
                i <= data@.len(),
                exists|column: Seq<char>|
                    self@.received(column) && self@.columns[column].len() == least,
                forall|column: Seq<char>| #[trigger]
                    self@.received(column) ==> self@.columns[column].len() >= least,
                forall|j: int| 0 <= j < i ==> !self@.is_duplicate((#[trigger] data@[j]).0),
            decreases data@.len() - i,
        {
            let k = slots[i];
            proof {
                self.lemma_slot(k as int);
            }
            let target = self.columns[k].len();
            if least > target {
                let error = DbError {
                    table: self.name.clone(),
                    column: data.name_at(i).clone(),
                    row: target,
                    value: data.value_at(i).clone(),
                    kind: DatabaseError::DuplicateEntry,
                };
                assert(self@.first_duplicate(data@, i as int));
                return Some(error);
            }
            i += 1;
        }
        None
    }

    /// Appends the value of every pair of `data` to its column and counts
    /// one more row.
    fn append_row(&mut self, data: &Row, slots: &Vec<usize>)
        requires
            old(self).wf(),
            data.wf(),
            old(self).places(data@, slots@),
            forall|j: int| 0 <= j < data@.len() ==> !old(self)@.rejects(#[trigger] data@[j]),
            old(self)@.row_count < usize::MAX,
        ensures
            final(self).wf(),
            final(self)@ == old(self)@.with_row(data@),
    {
        let ghost before = *self;
        proof {
            data.lemma_names_distinct();
            before.fields.lemma_view();
            assert forall|a: int, b: int| 0 <= a < b < data@.len() implies slots@[a]
                != slots@[b] by {
                assert(row_names(data@)[a] == data@[a].0);
                assert(row_names(data@)[b] == data@[b].0);
            }
            assert forall|j: int| 0 <= j < data@.len() implies (#[trigger] data@[j]).1.matches(
                before.fields.types()[slots@[j] as int],
            ) by {
                before.lemma_slot(slots@[j] as int);
            }
        }
        self.row_count += 1;
        let mut i: usize = 0;
        while i < data.len()
            invariant
                before.wf(),
                data.wf(),
                before.places(data@, slots@),
                i <= data@.len(),
                self.name == before.name,
                self.fields == before.fields,
                self.select_columns == before.select_columns,
                self.row_count == before.row_count + 1,
                self.columns@.len() == before.columns@.len(),
                forall|a: int, b: int| 0 <= a < b < data@.len() ==> slots@[a] != slots@[b],
                forall|j: int|
                    0 <= j < data@.len() ==> (#[trigger] data@[j]).1.matches(
                        before.fields.types()[slots@[j] as int],
                    ),
                forall|j: int|
                    0 <= j < i ==> self.stored(#[trigger] slots@[j] as int) == before.stored(
                        slots@[j] as int,
                    ).push(data@[j].1),
                forall|k: int|
                    0 <= k < self.columns@.len() && (forall|j: int|
                        0 <= j < i ==> #[trigger] slots@[j] != k) ==> #[trigger] self.columns@[k]
                        == before.columns@[k],
            decreases data@.len() - i,
        {
            let k = slots[i];
            let cell = data.value_at(i).clone();
            self.columns[k].push(cell);
            i += 1;
        }
        proof {
            self.lemma_committed(before, data@, slots@);
        }
    }

    /// A table whose columns are those of `before`, but for one value
    /// appended for each pair of `row`, shows `before` with that row stored.
    proof fn lemma_committed(&self, before: Table, row: Seq<(Seq<char>, Value)>, slots: Seq<usize>)
        requires
            before.wf(),
            row_names(row).no_duplicates(),
            before.places(row, slots),
            self.name == before.name,
            self.fields == before.fields,
            self.select_columns == before.select_columns,
            self.row_count == before.row_count + 1,
            self.columns@.len() == before.columns@.len(),
            forall|j: int|
                0 <= j < row.len() ==> (#[trigger] row[j]).1.matches(
                    before.fields.types()[slots[j] as int],
                ),
            forall|j: int|
                0 <= j < row.len() ==> self.stored(#[trigger] slots[j] as int) == before.stored(
                    slots[j] as int,
                ).push(row[j].1),
            forall|k: int|
                0 <= k < self.columns@.len() && (forall|j: int|
                    0 <= j < row.len() ==> #[trigger] slots[j] != k) ==> #[trigger] self.columns@[k]
                    == before.columns@[k],
        ensures
            self.wf(),
            self@ == before@.with_row(row),
    {
        let names = before.fields.names();
        before.fields.lemma_view();
        // Every place of the schema either receives the value of one pair or keeps its cells.
        assert forall|k: int| 0 <= k < names.len() implies {
            ||| exists|j: int| 0 <= j < row.len() && slots[j] == k && row_names(row)[j] == names[k]
            ||| (self.columns@[k] == before.columns@[k] && !row_names(row).contains(names[k]))
        } by {
            if exists|j: int| 0 <= j < row.len() && slots[j] == k {
                let j = choose|j: int| 0 <= j < row.len() && slots[j] == k;
                assert(row_names(row)[j] == names[k]);
            } else if row_names(row).contains(names[k]) {
                let j = row_names(row).index_of(names[k]);
                assert(slots[j] == k);
            }
        }
        assert(self.wf()) by {
            assert forall|k: int| 0 <= k < self.columns@.len() implies (
            #[trigger] self.columns@[k])@.len() <= self.row_count by {
                if exists|j: int| 0 <= j < row.len() && slots[j] == k {
                    let j = choose|j: int| 0 <= j < row.len() && slots[j] == k;
                    assert(self.stored(slots[j] as int).len() == before.stored(k).len() + 1);
                }
            }
            assert forall|k: int, i: int|
                0 <= k < self.columns@.len() && 0 <= i < self.columns@[k]@.len() implies (
            #[trigger] self.columns@[k]@[i])@.matches(self.fields.types()[k]) by {
                assert(self.stored(k)[i] == self.columns@[k]@[i]@);
                if exists|j: int| 0 <= j < row.len() && slots[j] == k {
                    let j = choose|j: int| 0 <= j < row.len() && slots[j] == k;
                    assert(self.stored(slots[j] as int) == before.stored(k).push(row[j].1));
                }
            }
        }
        let after = before@.with_row(row);
        assert(self@.columns =~= after.columns) by {
            assert forall|column: Seq<char>| after.columns.contains_key(column) implies names
                .contains(column) by {
                if before@.columns.contains_key(column) {
                    before.lemma_place_of(column);
                } else {
                    let j = row_names(row).index_of(column);
                    assert(names[slots[j] as int] == column);
                }
            }
            assert forall|column: Seq<char>| names.contains(column) implies {
                &&& self@.columns.contains_key(column) <==> after.columns.contains_key(column)
                &&& self@.cells(column) == after.cells(column)
            } by {
                let k = names.index_of(column);
                before.lemma_slot(k);
                self.lemma_slot(k);
                if row_names(row).contains(column) {
                    let j = choose|j: int|
                        0 <= j < row.len() && slots[j] == k && row_names(row)[j] == names[k];
                    lemma_index_of_unique(row_names(row), j);
                }
            }
        }
    }

    /// Stores one row.
    ///
    /// The row is first held against the schema, pair by pair in its own
    /// order: a pair whose column the table does not have, or whose value is
    /// not of the column's declared type, is reported as `WrongDataType`.
    /// Then each pair is held against the columns as they stood before the
    /// call: a value is reported as `DuplicateEntry` when the table holds
    /// data and every column that has received a value is longer than the
    /// pair's column. Either error names the first pair that it is about
    /// and, as its row, the index at which that pair's value would have been
    /// stored. Only a row that passes both is stored: each value is
    /// appended to its column, columns that the row does not name are left
    /// alone, and one more row is counted. A rejected row changes nothing.
    pub fn save_data(&mut self, data: Row) -> (res: Result<(), DbError>)
        requires
            old(self).wf(),
            data.wf(),
            old(self)@.accepts(data@) ==> old(self)@.row_count < usize::MAX,
        ensures
            final(self).wf(),
            final(self)@ == old(self)@.after_save(data@),
            res is Ok <==> old(self)@.accepts(data@),
            match res {
                Ok(()) => {
                    &&& old(self)@.save(data@) == Ok::<TableView, ErrorView>(final(self)@)
                    &&& final(self)@ == old(self)@.with_row(data@)
                    &&& final(self)@.row_count == old(self)@.row_count + 1
                    &&& forall|i: int|
                        0 <= i < data@.len() ==> final(self)@.cells((#[trigger] data@[i]).0)
                            == old(self)@.cells(data@[i].0).push(data@[i].1)
                    &&& forall|column: Seq<char>|
                        !row_names(data@).contains(column) ==> #[trigger] final(self)@.cells(column)
                            == old(self)@.cells(column)
                },
                Err(e) => {
                    &&& old(self)@.save(data@) == Err::<TableView, ErrorView>(e@)
                    &&& final(self)@ == old(self)@
                    &&& e@.table == old(self)@.name
                    &&& e@.row == old(self)@.target_row(e@.column)
                    &&& exists|i: int| 0 <= i < data@.len() && data@[i] == (e@.column, e@.value)
                    &&& e@.kind is WrongDataType ==> old(self)@.rejects((e@.column, e@.value))
                        && e@ == old(self)@.type_error((e@.column, e@.value))
                    &&& e@.kind is DuplicateEntry ==> old(self)@.is_duplicate(e@.column)
                        && e@ == old(self)@.duplicate_error((e@.column, e@.value))
                    &&& e@.kind !is ValueTooLarge
                },
            },
            (exists|k: int| 0 <= k < data@.len() && old(self)@.rejects(data@[k])) ==> res is Err
                && res->Err_0@.kind is WrongDataType,
            data@.len() == 1 && old(self)@.rejects(data@[0]) ==> res is Err
                && res->Err_0@ == old(self)@.type_error(data@[0]),
    {
        let slots = match self.check_types(&data) {
            Ok(slots) => slots,
            Err(error) => {
                return Err(error);
            },
        };
        if let Some(error) = self.check_duplicates(&data, &slots) {
            return Err(error);
        }
        self.append_row(&data, &slots);
        proof {
            data.lemma_names_distinct();
            assert forall|i: int| 0 <= i < data@.len() implies self@.cells((#[trigger] data@[i]).0)
                == old(self)@.cells(data@[i].0).push(data@[i].1) by {
                lemma_index_of_unique(row_names(data@), i);
            }
        }
        Ok(())
    }

    /// The name of the table.
    pub fn name(&self) -> (name: &String)
        ensures
            name@ == self@.name,
    {
        &self.name
    }

    /// The schema that the table was made with.
    pub fn fields(&self) -> (fields: &Schema)
        requires
            self.wf(),
        ensures
            fields.wf(),
            fields@ == self@.schema,
    {
        &self.fields
    }

    /// Number of rows that were saved.
    pub fn row_count(&self) -> (count: usize)
        ensures
            count == self@.row_count,
    {
        self.row_count
    }

    /// The cells of column `name`, oldest first, once the column has
    /// received a value.
    pub fn column(&self, name: &String) -> (cells: Option<&Vec<DataType>>)
        requires
            self.wf(),
        ensures
            match cells {
                Some(cells) => self@.columns.contains_key(name@) && cells.deep_view()
                    == self@.columns[name@],
                None => !self@.columns.contains_key(name@),
            },
    {
        proof {
            self.fields.lemma_view();
        }
        match self.fields.slot(name) {
            Some(k) => {
                proof {
                    self.lemma_slot(k as int);
                }
                if self.columns[k].len() > 0 {
                    Some(&self.columns[k])
                } else {
                    None
                }
            },
            None => None,
        }
    }

    /// The column names that the caller has chosen for display, in their
    /// order.
    pub fn select_columns(&self) -> (names: &Vec<String>)
        ensures
            chars_of(names@) == self@.select_columns,
    {
        &self.select_columns
    }

    /// Replaces the column names chosen for display. Saving rows never
    /// touches them.
    pub fn set_select_columns(&mut self, names: Vec<String>)
        requires
            old(self).wf(),
        ensures
            final(self).wf(),
            final(self)@ == (TableView { select_columns: chars_of(names@), ..old(self)@ }),
    {
        self.select_columns = names;
        assert(self@.columns =~= old(self)@.columns);
    }
}

} // verus!
