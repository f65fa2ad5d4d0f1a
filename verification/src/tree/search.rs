//! Looking for an element: the first or last place of an element that equals
//! a given one, the first place of an element that a test accepts, and the
//! test whether two trees hold equal elements in the same shape.

use crate::tree::share;
use crate::tree::TernaryTree;
use std::sync::Arc;
use vstd::prelude::*;
use vstd::std_specs::cmp::PartialEqSpec;

verus! {

/// `found` is the first index in `items` of an element that `item` equals,
/// or `None` where `item` equals no element.
pub open spec fn is_first_index_of<T: PartialEq>(items: Seq<T>, item: T, found: Option<usize>)
    -> bool {
    match found {
        Some(pos) => {
            &&& pos < items.len()
            &&& item.eq_spec(&items[pos as int])
            &&& forall|j: int| 0 <= j < pos ==> !item.eq_spec(&#[trigger] items[j])
        },
        None => forall|j: int| 0 <= j < items.len() ==> !item.eq_spec(&#[trigger] items[j]),
    }
}

/// `found` is the distance from the end of `items` to the last element that
/// `item` equals: 0 where that is the last element of all. It is `None`
/// where `item` equals no element.
pub open spec fn is_last_index_of<T: PartialEq>(items: Seq<T>, item: T, found: Option<usize>)
    -> bool {
    match found {
        Some(back) => {
            &&& back < items.len()
            &&& item.eq_spec(&items[items.len() - 1 - back])
            &&& forall|j: int|
                items.len() - 1 - back < j < items.len() ==> !item.eq_spec(&#[trigger] items[j])
        },
        None => forall|j: int| 0 <= j < items.len() ==> !item.eq_spec(&#[trigger] items[j]),
    }
}

/// `f` may be called on every element of `items`.
pub open spec fn takes_all<T, R, F: Fn(&T) -> R>(f: F, items: Seq<T>) -> bool {
    forall|i: int| 0 <= i < items.len() ==> f.requires((&#[trigger] items[i],))
}

/// A function that may be called on every element of a whole may be called
/// on every element of each of its two parts.
pub proof fn lemma_takes_parts<T, R, F: Fn(&T) -> R>(f: &F, a: Seq<T>, b: Seq<T>)
    requires
        takes_all(*f, a + b),
    ensures
        takes_all(*f, a),
        takes_all(*f, b),
{
    assert forall|i: int| 0 <= i < a.len() implies f.requires((&#[trigger] a[i],)) by {
        assert(a[i] == (a + b)[i]);
    }
    assert forall|i: int| 0 <= i < b.len() implies f.requires((&#[trigger] b[i],)) by {
        assert(b[i] == (a + b)[i + a.len()]);
    }
}

/// `found` is the first index in `items` of an element on which `f` has
/// answered `true`, after answering `false` on every element before it; it is
/// `None` where `f` has answered `false` on every element.
pub open spec fn is_first_accepted<T, F: Fn(&T) -> bool>(
    items: Seq<T>,
    f: F,
    found: Option<i64>,
) -> bool {
    match found {
        Some(pos) => {
            &&& 0 <= pos < items.len()
            &&& f.ensures((&items[pos as int],), true)
            &&& forall|j: int| 0 <= j < pos ==> f.ensures((&#[trigger] items[j],), false)
        },
        None => forall|j: int| 0 <= j < items.len() ==> f.ensures((&#[trigger] items[j],), false),
    }
}

impl<T> TernaryTree<T> {
    /// The index of the first element that `f` accepts. `f` is asked about
    /// the elements from left to right, up to the first that it accepts.
    pub fn find_index<F: Fn(&T) -> bool>(&self, f: Arc<F>) -> (found: Option<i64>)
        requires
            self.wf(),
            self.spec_len() <= i64::MAX,
            takes_all(*f, self@),
        ensures
            is_first_accepted(self@, *f, found),
        decreases self,
    {
        broadcast use TernaryTree::lemma_wf_len;

        proof {
            self.lemma_parts();
        }
        match self {
            TernaryTree::Leaf(value) => {
                assert(self@[0] == **value);
                assert(f.requires((&self@[0],)));
                if (*f)(&**value) {
                    Some(0)
                } else {
                    None
                }
            },
            TernaryTree::Branch2 { left, middle, .. } => {
                proof {
                    lemma_takes_parts(&*f, left@, middle@);
                }
                match left.find_index(share(&f)) {
                    Some(pos) => Some(pos),
                    None => match middle.find_index(share(&f)) {
                        Some(pos) => Some(pos + left.len() as i64),
                        None => None,
                    },
                }
            },
            TernaryTree::Branch3 { left, middle, right, .. } => {
                proof {
                    lemma_takes_parts(&*f, left@ + middle@, right@);
                    lemma_takes_parts(&*f, left@, middle@);
                }
                match left.find_index(share(&f)) {
                    Some(pos) => Some(pos),
                    None => match middle.find_index(share(&f)) {
                        Some(pos) => Some(pos + left.len() as i64),
                        None => match right.find_index(share(&f)) {
                            Some(pos) => Some(pos + left.len() as i64 + middle.len() as i64),
                            None => None,
                        },
                    },
                }
            },
        }
    }
}

impl<T: PartialEq> TernaryTree<T> {
    /// Two trees have the same shape and, leaf by leaf, equal elements.
    pub open spec fn same_shape(self, other: Self) -> bool
        decreases self,
    {
        match (self, other) {
            (TernaryTree::Leaf(a), TernaryTree::Leaf(b)) => (*a).eq_spec(&*b),
            (
                TernaryTree::Branch2 { left, middle, .. },
                TernaryTree::Branch2 { left: left2, middle: middle2, .. },
            ) => left.same_shape(*left2) && middle.same_shape(*middle2),
            (
                TernaryTree::Branch3 { left, middle, right, .. },
                TernaryTree::Branch3 { left: left2, middle: middle2, right: right2, .. },
            ) => left.same_shape(*left2) && middle.same_shape(*middle2) && right.same_shape(
                *right2,
            ),
            _ => false,
        }
    }

    /// Trees of the same shape hold equally many elements.
    pub proof fn lemma_same_shape_len(&self, other: &Self)
        requires
            self.wf(),
            other.wf(),
            self.same_shape(*other),
        ensures
            self.spec_len() == other.spec_len(),
        decreases self,
    {
        match (self, other) {
            (
                TernaryTree::Branch2 { left, middle, .. },
                TernaryTree::Branch2 { left: left2, middle: middle2, .. },
            ) => {
                left.lemma_same_shape_len(left2);
                middle.lemma_same_shape_len(middle2);
            },
            (
                TernaryTree::Branch3 { left, middle, right, .. },
                TernaryTree::Branch3 { left: left2, middle: middle2, right: right2, .. },
            ) => {
                left.lemma_same_shape_len(left2);
                middle.lemma_same_shape_len(middle2);
                right.lemma_same_shape_len(right2);
            },
            _ => {},
        }
    }

    /// Whether the two trees have the same shape and equal elements in it.
    pub fn eq_shape(&self, ys: &Self) -> (same: bool)
        requires
            self.wf(),
            ys.wf(),
        ensures
            T::obeys_eq_spec() ==> same == self.same_shape(*ys),
        decreases self,
    {
        proof {
            self.lemma_parts();
            ys.lemma_parts();
            if self.same_shape(*ys) {
                self.lemma_same_shape_len(ys);
            }
        }
        if self.len() != ys.len() {
            return false;
        }
        match (self, ys) {
            (TernaryTree::Leaf(value), TernaryTree::Leaf(v2)) => (**value).eq(&**v2),
            (
                TernaryTree::Branch2 { left, middle, .. },
                TernaryTree::Branch2 { left: left2, middle: middle2, .. },
            ) => left.eq_shape(left2) && middle.eq_shape(middle2),
            (
                TernaryTree::Branch3 { left, middle, right, .. },
                TernaryTree::Branch3 { left: left2, middle: middle2, right: right2, .. },
            ) => left.eq_shape(left2) && middle.eq_shape(middle2) && right.eq_shape(right2),
            (_, _) => false,
        }
    }

    /// The index of the first element that `item` equals.
    pub fn index_of(&self, item: &T) -> (found: Option<usize>)
        requires
            self.wf(),
        ensures
            found matches Some(pos) ==> pos < self.spec_len(),
            T::obeys_eq_spec() ==> is_first_index_of(self@, *item, found),
        decreases self,
    {
        broadcast use TernaryTree::lemma_wf_len;

        proof {
            self.lemma_parts();
        }
        match self {
            TernaryTree::Leaf(value) => {
                assert(self@[0] == **value);
                if item.eq(&**value) {
                    Some(0)
                } else {
                    None
                }
            },
            TernaryTree::Branch2 { left, middle, .. } => match left.index_of(item) {
                Some(pos) => Some(pos),
                None => match middle.index_of(item) {
                    Some(pos) => Some(pos + left.len()),
                    None => None,
                },
            },
            TernaryTree::Branch3 { left, middle, right, .. } => match left.index_of(item) {
                Some(pos) => Some(pos),
                None => match middle.index_of(item) {
                    Some(pos) => Some(pos + left.len()),
                    None => match right.index_of(item) {
                        Some(pos) => Some(pos + left.len() + middle.len()),
                        None => None,
                    },
                },
            },
        }
    }

    /// How far from the end the last element is that `item` equals: 0 where
    /// it is the last element of the tree.
    pub fn last_index_of(&self, item: &T) -> (found: Option<usize>)
        requires
            self.wf(),
        ensures
            found matches Some(back) ==> back < self.spec_len(),
            T::obeys_eq_spec() ==> is_last_index_of(self@, *item, found),
        decreases self,
    {
        broadcast use TernaryTree::lemma_wf_len;

        proof {
            self.lemma_parts();
        }
        match self {
            TernaryTree::Leaf(value) => {
                assert(self@[0] == **value);
                if item.eq(&**value) {
                    Some(0)
                } else {
                    None
                }
            },
            TernaryTree::Branch2 { left, middle, .. } => match middle.last_index_of(item) {
                Some(pos) => Some(pos),
                None => match left.last_index_of(item) {
                    Some(pos) => Some(pos + middle.len()),
                    None => None,
                },
            },
            TernaryTree::Branch3 { left, middle, right, .. } => match right.last_index_of(item) {
                Some(pos) => Some(pos),
                None => match middle.last_index_of(item) {
                    Some(pos) => Some(pos + right.len()),
                    None => match left.last_index_of(item) {
                        Some(pos) => Some(pos + middle.len() + right.len()),
                        None => None,
                    },
                },
            },
        }
    }
}

} // verus!
