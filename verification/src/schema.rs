//! The schema of a table: its column names and their declared types.

use crate::names::{chars_of, lemma_index_of_unique, position};
use crate::value::ColumnType;
use vstd::prelude::*;

verus! {

/// A mapping from column name to declared type.
///
/// Names are unique. Declaring a name a second time replaces its type.
#[derive(Debug)]
pub struct Schema {
    names: Vec<String>,
    types: Vec<ColumnType>,
}

impl View for Schema {
    type V = Map<Seq<char>, ColumnType>;

    closed spec fn view(&self) -> Map<Seq<char>, ColumnType> {
        Map::new(
            |name: Seq<char>| self.names().contains(name),
            |name: Seq<char>| self.types@[self.names().index_of(name)],
        )
    }
}

impl Schema {
    /// The column names, in the order of their first declaration.
    pub closed spec fn names(&self) -> Seq<Seq<char>> {
        chars_of(self.names@)
    }

    /// The declared types, in the order of `names`.
    pub closed spec fn types(&self) -> Seq<ColumnType> {
        self.types@
    }

    /// Every name has a type and no name occurs twice.
    pub closed spec fn wf(&self) -> bool {
        &&& self.names@.len() == self.types@.len()
        &&& self.names().no_duplicates()
    }

    /// The mapping holds exactly the listed names, each with the type listed
    /// at the same place.
    pub proof fn lemma_view(&self)
        requires
            self.wf(),
        ensures
            self.names().len() == self.types().len(),
            self.names().no_duplicates(),
            self@.dom().finite(),
            self@.len() == self.names().len(),
            forall|name: Seq<char>| self@.contains_key(name) <==> self.names().contains(name),
            forall|i: int|
                0 <= i < self.names().len() ==> self@.contains_key(#[trigger] self.names()[i])
                    && self@[self.names()[i]] == self.types()[i],
    {
        let names = self.names();
        assert forall|i: int| 0 <= i < names.len() implies self@.contains_key(#[trigger] names[i])
            && self@[names[i]] == self.types()[i] by {
            lemma_index_of_unique(names, i);
        }
        assert(self@.dom() =~= names.to_set());
        vstd::seq_lib::seq_to_set_is_finite(names);
        names.unique_seq_to_set();
    }

    /// A schema without columns.
    pub fn new() -> (schema: Schema)
        ensures
            schema.wf(),
            schema@ == Map::<Seq<char>, ColumnType>::empty(),
            schema.names() == Seq::<Seq<char>>::empty(),
    {
        Schema { names: Vec::new(), types: Vec::new() }
    }

    /// Declares column `name` with type `ty`, replacing an earlier
    /// declaration of the same name.
    pub fn insert(&mut self, name: String, ty: ColumnType)
        requires
            old(self).wf(),
        ensures
            final(self).wf(),
            final(self)@ == old(self)@.insert(name@, ty),
            final(self).names() == if old(self)@.contains_key(name@) {
                old(self).names()
            } else {
                old(self).names().push(name@)
            },
    {
        proof {
            self.lemma_view();
        }
        let ghost before = *self;
        match position(&self.names, &name) {
            Some(i) => {
                self.types.set(i, ty);
                proof {
                    assert(before.names()[i as int] == name@);
                    self.lemma_view();
                    assert(self@ =~= before@.insert(name@, ty));
                }
            },
            None => {
                self.names.push(name);
                self.types.push(ty);
                proof {
                    assert(self.names() =~= before.names().push(name@));
                    self.lemma_view();
                    assert(self@ =~= before@.insert(name@, ty)) by {
                        assert(self.names().last() == name@);
                        assert forall|n: Seq<char>| before.names().contains(n) implies self.names()
                            .contains(n) by {
                            let j = before.names().index_of(n);
                            assert(self.names()[j] == n);
                        }
                    }
                }
            },
        }
    }

    /// Number of declared columns.
    pub fn len(&self) -> (n: usize)
        requires
            self.wf(),
        ensures
            n == self@.len(),
            n == self.names().len(),
    {
        proof {
            self.lemma_view();
        }
        self.names.len()
    }

    /// The declared type of column `name`, if the schema has such a column.
    pub fn get(&self, name: &String) -> (ty: Option<ColumnType>)
        requires
            self.wf(),
        ensures
            ty == if self@.contains_key(name@) {
                Some(self@[name@])
            } else {
                None
            },
    {
        proof {
            self.lemma_view();
        }
        match position(&self.names, name) {
            Some(i) => {
                assert(self.names()[i as int] == name@);
                Some(self.types[i])
            },
            None => None,
        }
    }

    /// Place of column `name` in the order of `names`.
    pub(crate) fn slot(&self, name: &String) -> (found: Option<usize>)
        requires
            self.wf(),
        ensures
            match found {
                Some(i) => i < self.names().len() && self.names()[i as int] == name@,
                None => !self@.contains_key(name@),
            },
    {
        proof {
            self.lemma_view();
        }
        position(&self.names, name)
    }

    /// Declared type of the column at place `i`.
    pub(crate) fn type_at(&self, i: usize) -> (ty: ColumnType)
        requires
            self.wf(),
            i < self.names().len(),
        ensures
            ty == self.types()[i as int],
    {
        self.types[i]
    }
}

} // verus!
