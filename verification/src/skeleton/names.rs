//! Finding things by their names.

use vstd::prelude::*;
use crate::text::str_eq;

verus! {

/// Something that is found by its name.
pub trait Named {
    /// The name.
    spec fn spec_name(&self) -> Seq<char>;

    /// The name.
    fn name(&self) -> (r: &str)
        ensures
            r@ == self.spec_name(),
    ;
}

/// The index of the first item of that name, or `None` where no item has the name.
pub open spec fn spec_index<N: Named>(items: Seq<N>, name: Seq<char>) -> Option<int>
    decreases items.len(),
{
    if items.len() == 0 {
        None
    } else {
        match spec_index(items.drop_last(), name) {
            Some(i) => Some(i),
            None => if items.last().spec_name() == name {
                Some(items.len() - 1)
            } else {
                None
            },
        }
    }
}

/// What [`spec_index`] finds has the name and is the first item that has it;
/// where it finds nothing, no item has the name.
pub proof fn lemma_index<N: Named>(items: Seq<N>, name: Seq<char>)
    ensures
        match spec_index(items, name) {
            Some(i) => 0 <= i < items.len() && items[i].spec_name() == name && forall|j: int|
                0 <= j < i ==> items[j].spec_name() != name,
            None => forall|j: int| 0 <= j < items.len() ==> items[j].spec_name() != name,
        },
    decreases items.len(),
{
    if items.len() > 0 {
        lemma_index(items.drop_last(), name);
        match spec_index(items.drop_last(), name) {
            Some(i) => {
                assert(items.drop_last()[i] == items[i]);
                assert forall|j: int| 0 <= j < i implies items[j].spec_name() != name by {
                    assert(items.drop_last()[j] == items[j]);
                }
            },
            None => {
                assert forall|j: int| 0 <= j < items.len() - 1 implies items[j].spec_name()
                    != name by {
                    assert(items.drop_last()[j] == items[j]);
                }
            },
        }
    }
}

/// The first item that has the name is what [`spec_index`] finds.
pub proof fn lemma_index_first<N: Named>(items: Seq<N>, name: Seq<char>, i: int)
    requires
        0 <= i < items.len(),
        items[i].spec_name() == name,
        forall|j: int| 0 <= j < i ==> items[j].spec_name() != name,
    ensures
        spec_index(items, name) == Some(i),
{
    lemma_index(items, name);
}

/// Finds the first item of that name.
pub fn index_of<N: Named>(items: &[N], name: &str) -> (r: Option<usize>)
    ensures
        match r {
            Some(i) => spec_index(items@, name@) == Some(i as int),
            None => spec_index(items@, name@) is None,
        },
{
    let mut i: usize = 0;
    while i < items.len()
        invariant
            i <= items@.len(),
            forall|j: int| 0 <= j < i ==> items@[j].spec_name() != name@,
        decreases items@.len() - i,
    {
        if str_eq(items[i].name(), name) {
            proof {
                lemma_index_first(items@, name@, i as int);
            }
            return Some(i);
        }
        i += 1;
    }
    proof {
        lemma_index(items@, name@);
    }
    None
}

impl<V> Named for (String, V) {
    open spec fn spec_name(&self) -> Seq<char> {
        self.0@
    }

    fn name(&self) -> (r: &str) {
        self.0.as_str()
    }
}

/// Lists that agree in their names find every name at the same place.
pub proof fn lemma_index_same_names<A: Named, B: Named>(a: Seq<A>, b: Seq<B>, name: Seq<char>)
    requires
        a.len() == b.len(),
        forall|i: int| 0 <= i < a.len() ==> a[i].spec_name() == b[i].spec_name(),
    ensures
        spec_index(a, name) == spec_index(b, name),
{
    lemma_index(a, name);
    lemma_index(b, name);
}

} // verus!
