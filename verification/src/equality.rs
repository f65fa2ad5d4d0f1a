//! Equality of trees and of lists: by their elements in order, whatever
//! shape holds them.

use crate::tree::TernaryTree;
use crate::TernaryTreeList;
use vstd::prelude::*;
use vstd::std_specs::cmp::PartialEqSpec;
use vstd::std_specs::cmp::PartialEqSpecImpl;

verus! {

/// Two sequences are equally long and hold, place by place, equal elements.
pub open spec fn same_items<T: PartialEq>(a: Seq<T>, b: Seq<T>) -> bool {
    &&& a.len() == b.len()
    &&& forall|i: int| 0 <= i < a.len() ==> (#[trigger] a[i]).eq_spec(&b[i])
}

/// Whether two rows of references are equally long and refer, place by
/// place, to equal elements.
fn same_refs<T: PartialEq>(a: &Vec<&T>, b: &Vec<&T>) -> (same: bool)
    ensures
        T::obeys_eq_spec() ==> same == {
            &&& a@.len() == b@.len()
            &&& forall|i: int| 0 <= i < a@.len() ==> (*#[trigger] a@[i]).eq_spec(&*b@[i])
        },
{
    if a.len() != b.len() {
        return false;
    }
    let mut index: usize = 0;
    while index < a.len()
        invariant
            index <= a@.len(),
            a@.len() == b@.len(),
            T::obeys_eq_spec() ==> forall|i: int|
                0 <= i < index ==> (*#[trigger] a@[i]).eq_spec(&*b@[i]),
        decreases a@.len() - index,
    {
        if !(*a[index]).eq(&*b[index]) {
            return false;
        }
        index = index + 1;
    }
    true
}

/// Rows of references are equal, place by place, where the rows that they
/// refer to are.
proof fn lemma_same_items<T: PartialEq>(a: Seq<T>, b: Seq<T>, to_a: Seq<&T>, to_b: Seq<&T>)
    requires
        to_a.len() == a.len(),
        to_b.len() == b.len(),
        forall|i: int| 0 <= i < a.len() ==> *#[trigger] to_a[i] == a[i],
        forall|i: int| 0 <= i < b.len() ==> *#[trigger] to_b[i] == b[i],
    ensures
        same_items(a, b) <==> {
            &&& to_a.len() == to_b.len()
            &&& forall|i: int| 0 <= i < to_a.len() ==> (*#[trigger] to_a[i]).eq_spec(&*to_b[i])
        },
{
    if same_items(a, b) {
        assert forall|i: int| 0 <= i < to_a.len() implies (*#[trigger] to_a[i]).eq_spec(
            &*to_b[i],
        ) by {
            assert(a[i].eq_spec(&b[i]));
        }
    }
    if to_a.len() == to_b.len() && (forall|i: int|
        0 <= i < to_a.len() ==> (*#[trigger] to_a[i]).eq_spec(&*to_b[i])) {
        assert forall|i: int| 0 <= i < a.len() implies (#[trigger] a[i]).eq_spec(&b[i]) by {
            assert((*to_a[i]).eq_spec(&*to_b[i]));
        }
    }
}

impl<T: PartialEq> PartialEq for TernaryTree<T> {
    /// Whether the two trees hold equal elements in the same order.
    fn eq(&self, ys: &Self) -> (same: bool) {
        let mine = self.to_refs();
        let theirs = ys.to_refs();
        proof {
            lemma_same_items(self@, ys@, mine@, theirs@);
        }
        same_refs(&mine, &theirs)
    }
}

impl<T: PartialEq> PartialEqSpecImpl for TernaryTree<T> {
    open spec fn obeys_eq_spec() -> bool {
        T::obeys_eq_spec()
    }

    open spec fn eq_spec(&self, other: &Self) -> bool {
        same_items(self@, other@)
    }
}

impl<T: PartialEq> PartialEq for TernaryTreeList<T> {
    /// Whether the two lists hold equal elements in the same order.
    fn eq(&self, ys: &Self) -> (same: bool) {
        match (self, ys) {
            (TernaryTreeList::Empty, TernaryTreeList::Empty) => true,
            (TernaryTreeList::Tree(x), TernaryTreeList::Tree(y)) => x.eq(y),
            (TernaryTreeList::Empty, TernaryTreeList::Tree(y)) => {
                proof {
                    y.lemma_never_empty();
                }
                false
            },
            (TernaryTreeList::Tree(x), TernaryTreeList::Empty) => {
                proof {
                    x.lemma_never_empty();
                }
                false
            },
        }
    }
}

impl<T: PartialEq> PartialEqSpecImpl for TernaryTreeList<T> {
    open spec fn obeys_eq_spec() -> bool {
        T::obeys_eq_spec()
    }

    open spec fn eq_spec(&self, other: &Self) -> bool {
        same_items(self@, other@)
    }
}

impl<T: Eq> Eq for TernaryTree<T> {

}

impl<T: Eq> Eq for TernaryTreeList<T> {

}

} // verus!
