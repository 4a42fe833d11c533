//! Column names, compared by their characters.

use vstd::prelude::*;

verus! {

/// The names held in `names`, each as its sequence of characters.
pub open spec fn chars_of(names: Seq<String>) -> Seq<Seq<char>> {
    Seq::new(names.len(), |i: int| names[i]@)
}

/// Index at which `name` stands in `names`, if it occurs there.
pub fn position(names: &Vec<String>, name: &String) -> (found: Option<usize>)
    ensures
        match found {
            Some(i) => i < names.len() && names[i as int]@ == name@ && forall|j: int|
                0 <= j < i ==> names[j]@ != name@,
            None => forall|j: int| 0 <= j < names.len() ==> names[j]@ != name@,
        },
{
    let mut i: usize = 0;
    while i < names.len()
        invariant
            i <= names.len(),
            forall|j: int| 0 <= j < i ==> names[j]@ != name@,
        decreases names.len() - i,
    {
        if names[i] == *name {
            return Some(i);
        }
        i += 1;
    }
    None
}

/// In a sequence without repetitions an element is found where it stands.
pub proof fn lemma_index_of_unique(names: Seq<Seq<char>>, i: int)
    requires
        names.no_duplicates(),
        0 <= i < names.len(),
    ensures
        names.contains(names[i]),
        names.index_of(names[i]) == i,
{
}

} // verus!
