//! One logical row: a value for each of some columns.

use crate::names::{chars_of, position};
use crate::value::{DataType, Value};
use vstd::prelude::*;

verus! {

/// The column names of a row, in the order of its pairs.
pub open spec fn row_names(row: Seq<(Seq<char>, Value)>) -> Seq<Seq<char>> {
    Seq::new(row.len(), |i: int| row[i].0)
}

/// The row that results from giving column `name` the value `value`: the
/// pair of that column is replaced where it stands, or a new pair is added
/// at the end.
pub open spec fn row_put(row: Seq<(Seq<char>, Value)>, name: Seq<char>, value: Value) -> Seq<
    (Seq<char>, Value),
> {
    if row_names(row).contains(name) {
        row.update(row_names(row).index_of(name), (name, value))
    } else {
        row.push((name, value))
    }
}

/// A mapping from column name to value, in the order in which the columns
/// were first given.
///
/// Names are unique. Giving a column a second value replaces the first.
#[derive(Debug)]
pub struct Row {
    names: Vec<String>,
    values: Vec<DataType>,
}

impl View for Row {
    type V = Seq<(Seq<char>, Value)>;

    closed spec fn view(&self) -> Seq<(Seq<char>, Value)> {
        Seq::new(self.names@.len(), |i: int| (self.names@[i]@, self.values@[i]@))
    }
}

impl Row {
    /// Every name has a value and no name occurs twice.
    pub closed spec fn wf(&self) -> bool {
        &&& self.names@.len() == self.values@.len()
        &&& chars_of(self.names@).no_duplicates()
    }

    /// No column is named twice in a row.
    pub proof fn lemma_names_distinct(&self)
        requires
            self.wf(),
        ensures
            row_names(self@).no_duplicates(),
    {
        assert(row_names(self@) =~= chars_of(self.names@));
    }

    /// A row without values.
    pub fn new() -> (row: Row)
        ensures
            row.wf(),
            row@ == Seq::<(Seq<char>, Value)>::empty(),
    {
        Row { names: Vec::new(), values: Vec::new() }
    }

    /// Gives column `name` the value `value`, replacing a value given to
    /// that column before.
    pub fn insert(&mut self, name: String, value: DataType)
        requires
            old(self).wf(),
        ensures
            final(self).wf(),
            final(self)@ == row_put(old(self)@, name@, value@),
            final(self)@.contains((name@, value@)),
    {
        let ghost before = *self;
        assert(row_names(before@) =~= chars_of(before.names@));
        match position(&self.names, &name) {
            Some(i) => {
                self.values.set(i, value);
                assert(row_names(before@)[i as int] == name@);
                assert(self@[i as int] == (name@, value@));
            },
            None => {
                self.names.push(name);
                self.values.push(value);
                assert(chars_of(self.names@) =~= chars_of(before.names@).push(name@));
                assert(self@.last() == (name@, value@));
            },
        }
    }

    /// Number of columns that the row gives a value.
    pub fn len(&self) -> (n: usize)
        ensures
            n == self@.len(),
    {
        self.names.len()
    }

    /// Name of the column of the pair at place `i`.
    pub(crate) fn name_at(&self, i: usize) -> (name: &String)
        requires
            self.wf(),
            i < self@.len(),
        ensures
            name@ == self@[i as int].0,
    {
        &self.names[i]
    }

    /// Value of the pair at place `i`.
    pub(crate) fn value_at(&self, i: usize) -> (value: &DataType)
        requires
            self.wf(),
            i < self@.len(),
        ensures
            value@ == self@[i as int].1,
    {
        &self.values[i]
    }
}

} // verus!
