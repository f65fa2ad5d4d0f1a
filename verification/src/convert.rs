//! Lists made from vectors and arrays, and the standard ways to read a list:
//! by index and in a `for` loop.

use crate::tree::access::clones_exactly;
use crate::tree::builder::all_wf;
use crate::tree::builder::even_shape;
use crate::tree::TernaryTree;
use crate::TernaryTreeList;
use std::sync::Arc;
use vstd::prelude::*;
use vstd::std_specs::convert::FromSpecImpl;
use vstd::std_specs::iter::IteratorSpec;

verus! {

impl<T> TernaryTreeList<T> {
    /// The list that is built from a row of elements: the empty list from
    /// none, and otherwise the even tree over one leaf for each element.
    pub open spec fn built(items: Seq<T>) -> Self {
        if items.len() == 0 {
            TernaryTreeList::Empty
        } else {
            TernaryTreeList::Tree(
                even_shape(items.map_values(|value: T| TernaryTree::Leaf(Arc::new(value)))),
            )
        }
    }

    /// Builds the list over a row of leaves.
    fn from_leaves(ys: Vec<TernaryTree<T>>, Ghost(items): Ghost<Seq<T>>) -> (list: Self)
        requires
            ys@ == items.map_values(|value: T| TernaryTree::Leaf(Arc::new(value))),
        ensures
            list == Self::built(items),
            list.wf(),
            list@ == items,
    {
        if ys.len() == 0 {
            assert(items =~= Seq::<T>::empty());
            TernaryTreeList::Empty
        } else {
            proof {
                assert(ys@.subrange(0, ys@.len() as int) =~= ys@);
                assert(all_wf(ys@));
                TernaryTree::lemma_leaves_of(items);
            }
            TernaryTreeList::Tree(TernaryTree::rebuild_list_side(ys.len(), 0, ys.as_slice()))
        }
    }
}

impl<T> From<Vec<T>> for TernaryTreeList<T> {
    /// The list of the elements of `xs`, in the shallowest tree there is for
    /// them.
    fn from(xs: Vec<T>) -> (list: Self)
        ensures
            list.wf(),
            list@ == xs@,
    {
        let mut xs = xs;
        let ghost items = xs@;
        let mut backwards: Vec<TernaryTree<T>> = Vec::new();
        while xs.len() > 0
            invariant
                xs@.len() <= items.len(),
                xs@ == items.take(xs@.len() as int),
                backwards@.len() == items.len() - xs@.len(),
                forall|i: int|
                    0 <= i < backwards@.len() ==> #[trigger] backwards@[i] == TernaryTree::Leaf(
                        Arc::new(items[items.len() - 1 - i]),
                    ),
            decreases xs@.len(),
        {
            let x = xs.pop().unwrap();
            backwards.push(TernaryTree::leaf(x));
        }
        let mut ys: Vec<TernaryTree<T>> = Vec::new();
        while backwards.len() > 0
            invariant
                backwards@.len() + ys@.len() == items.len(),
                forall|i: int|
                    0 <= i < backwards@.len() ==> #[trigger] backwards@[i] == TernaryTree::Leaf(
                        Arc::new(items[items.len() - 1 - i]),
                    ),
                forall|i: int|
                    0 <= i < ys@.len() ==> #[trigger] ys@[i] == TernaryTree::Leaf(
                        Arc::new(items[i]),
                    ),
            decreases backwards@.len(),
        {
            let leaf = backwards.pop().unwrap();
            ys.push(leaf);
        }
        assert(ys@ =~= items.map_values(|value: T| TernaryTree::Leaf(Arc::new(value))));
        Self::from_leaves(ys, Ghost(items))
    }
}

impl<T> FromSpecImpl<Vec<T>> for TernaryTreeList<T> {
    open spec fn obeys_from_spec() -> bool {
        true
    }

    open spec fn from_spec(xs: Vec<T>) -> Self {
        Self::built(xs@)
    }
}

impl<T: Clone> TernaryTreeList<T> {
    /// The list over a clone of each element of `xs`.
    fn from_cloned(xs: &[T]) -> (list: Self)
        ensures
            list.wf(),
            list@.len() == xs@.len(),
            forall|i: int| 0 <= i < xs@.len() ==> cloned(xs@[i], #[trigger] list@[i]),
            clones_exactly::<T>() ==> list@ == xs@,
            list == Self::built(list@),
    {
        let mut ys: Vec<TernaryTree<T>> = Vec::new();
        let ghost mut items: Seq<T> = Seq::empty();
        let mut index: usize = 0;
        while index < xs.len()
            invariant
                index <= xs@.len(),
                items.len() == index,
                forall|i: int| 0 <= i < index ==> cloned(xs@[i], #[trigger] items[i]),
                ys@ == items.map_values(|value: T| TernaryTree::Leaf(Arc::new(value))),
            decreases xs@.len() - index,
        {
            let x = xs[index].clone();
            ys.push(TernaryTree::leaf(x));
            proof {
                let before = items;
                items = items.push(x);
                assert(ys@ =~= items.map_values(|value: T| TernaryTree::Leaf(Arc::new(value))));
            }
            index = index + 1;
        }
        proof {
            if clones_exactly::<T>() {
                assert(items =~= xs@);
            }
        }
        Self::from_leaves(ys, Ghost(items))
    }
}

impl<T: Clone> From<&Vec<T>> for TernaryTreeList<T> {
    /// The list of a clone of each element of `xs`, in the shallowest tree
    /// there is for them.
    fn from(xs: &Vec<T>) -> (list: Self)
        ensures
            list.wf(),
            list@.len() == xs@.len(),
            forall|i: int| 0 <= i < xs@.len() ==> cloned(xs@[i], #[trigger] list@[i]),
            clones_exactly::<T>() ==> list@ == xs@,
            list == Self::built(list@),
    {
        Self::from_cloned(xs.as_slice())
    }
}

impl<T: Clone> FromSpecImpl<&Vec<T>> for TernaryTreeList<T> {
    open spec fn obeys_from_spec() -> bool {
        false
    }

    open spec fn from_spec(xs: &Vec<T>) -> Self {
        Self::built(xs@)
    }
}

impl<T: Clone, const N: usize> From<&[T; N]> for TernaryTreeList<T> {
    /// The list of a clone of each element of `xs`, in the shallowest tree
    /// there is for them.
    fn from(xs: &[T; N]) -> (list: Self)
        ensures
            list.wf(),
            list@.len() == xs@.len(),
            forall|i: int| 0 <= i < xs@.len() ==> cloned(xs@[i], #[trigger] list@[i]),
            clones_exactly::<T>() ==> list@ == xs@,
            list == Self::built(list@),
    {
        Self::from_cloned(xs.as_slice())
    }
}

impl<T: Clone, const N: usize> FromSpecImpl<&[T; N]> for TernaryTreeList<T> {
    open spec fn obeys_from_spec() -> bool {
        false
    }

    open spec fn from_spec(xs: &[T; N]) -> Self {
        Self::built(xs@)
    }
}

impl<T> Clone for TernaryTree<T> {
    /// A second handle on the same tree: the root node is copied, everything
    /// below it is shared.
    fn clone(&self) -> (other: Self)
        ensures
            other == *self,
    {
        self.duplicate()
    }
}

impl<T> Clone for TernaryTreeList<T> {
    /// A second handle on the same list: nothing below the root is copied.
    fn clone(&self) -> (other: Self)
        ensures
            other == *self,
    {
        self.duplicate()
    }
}

impl<T> std::ops::Index<usize> for TernaryTreeList<T> {
    type Output = T;

    /// The element at `idx`, which the list has.
    fn index(&self, idx: usize) -> (item: &T)
        ensures
            *item == self@[idx as int],
    {
        broadcast use TernaryTreeList::lemma_wf_len;

        match self {
            TernaryTreeList::Empty => vstd::pervasive::unreached(),
            TernaryTreeList::Tree(t) => t.loop_get(idx),
        }
    }
}

impl<T> vstd::std_specs::core::IndexSpecImpl<usize> for TernaryTreeList<T> {
    open spec fn index_req(&self, index: &usize) -> bool {
        self.wf() && *index < self@.len()
    }
}

impl<T> std::ops::Index<usize> for TernaryTree<T> {
    type Output = T;

    /// The element at `idx`, which the tree has.
    fn index(&self, idx: usize) -> (item: &T)
        ensures
            *item == self@[idx as int],
    {
        broadcast use TernaryTree::lemma_wf_len;

        self.loop_get(idx)
    }
}

impl<T> vstd::std_specs::core::IndexSpecImpl<usize> for TernaryTree<T> {
    open spec fn index_req(&self, index: &usize) -> bool {
        self.wf() && *index < self@.len()
    }
}

impl<T> TernaryTreeList<T> {
    /// The standard library's iterator over references to the elements, in
    /// order.
    pub fn iter(&self) -> (walk: std::vec::IntoIter<&T>)
        ensures
            walk.remaining().len() == self@.len(),
            forall|i: int| 0 <= i < self@.len() ==> *#[trigger] walk.remaining()[i] == self@[i],
    {
        broadcast use vstd::std_specs::vec::axiom_spec_into_iter;

        self.to_refs().into_iter()
    }
}

impl<'a, T> IntoIterator for &'a TernaryTreeList<T> {
    type Item = &'a T;

    type IntoIter = std::vec::IntoIter<&'a T>;

    /// The standard library's iterator over references to the elements, in
    /// order.
    fn into_iter(self) -> (walk: std::vec::IntoIter<&'a T>)
        ensures
            walk.remaining().len() == self@.len(),
            forall|i: int| 0 <= i < self@.len() ==> *#[trigger] walk.remaining()[i] == self@[i],
    {
        broadcast use vstd::std_specs::vec::axiom_spec_into_iter;

        self.to_refs().into_iter()
    }
}

impl<T> TernaryTree<T> {
    /// The standard library's iterator over references to the elements, in
    /// order.
    pub fn iter(&self) -> (walk: std::vec::IntoIter<&T>)
        ensures
            walk.remaining().len() == self@.len(),
            forall|i: int| 0 <= i < self@.len() ==> *#[trigger] walk.remaining()[i] == self@[i],
    {
        broadcast use vstd::std_specs::vec::axiom_spec_into_iter;

        self.to_refs().into_iter()
    }
}

impl<'a, T> IntoIterator for &'a TernaryTree<T> {
    type Item = &'a T;

    type IntoIter = std::vec::IntoIter<&'a T>;

    /// The standard library's iterator over references to the elements, in
    /// order.
    fn into_iter(self) -> (walk: std::vec::IntoIter<&'a T>)
        ensures
            walk.remaining().len() == self@.len(),
            forall|i: int| 0 <= i < self@.len() ==> *#[trigger] walk.remaining()[i] == self@[i],
    {
        broadcast use vstd::std_specs::vec::axiom_spec_into_iter;

        self.to_refs().into_iter()
    }
}

/// A cursor that reads the elements of a list by their indices, from the
/// first to the last.
pub struct TernaryTreeListRefIntoIterator<'a, T> {
    value: &'a TernaryTreeList<T>,
    index: usize,
    size: usize,
}

impl<'a, T> TernaryTreeListRefIntoIterator<'a, T> {
    /// The cursor stands in a well-formed list, at an index up to its size.
    pub closed spec fn wf(self) -> bool {
        &&& self.value.wf()
        &&& self.size == self.value.spec_len()
        &&& self.index <= self.size
    }

    /// The elements that the cursor has still to hand out, in order.
    pub closed spec fn remaining(self) -> Seq<T> {
        self.value@.skip(self.index as int)
    }

    /// The cursor at the start of `list`.
    pub fn new(list: &'a TernaryTreeList<T>) -> (walk: Self)
        requires
            list.wf(),
        ensures
            walk.wf(),
            walk.remaining() == list@,
    {
        assert(list@.skip(0) =~= list@);
        TernaryTreeListRefIntoIterator { value: list, index: 0, size: list.len() }
    }

    /// Hands out the next element and moves on, or `None` at the end.
    pub fn next(&mut self) -> (item: Option<&'a T>)
        requires
            old(self).wf(),
        ensures
            final(self).wf(),
            match item {
                Some(element) => {
                    &&& old(self).remaining().len() > 0
                    &&& *element == old(self).remaining()[0]
                    &&& final(self).remaining() == old(self).remaining().drop_first()
                },
                None => old(self).remaining().len() == 0 && *final(self) == *old(self),
            },
    {
        broadcast use TernaryTreeList::lemma_wf_len;

        if self.index < self.size {
            let ret = self.value.loop_get(self.index);
            assert(self.value@.skip(self.index + 1) =~= self.value@.skip(
                self.index as int,
            ).drop_first());
            self.index = self.index + 1;
            ret
        } else {
            None
        }
    }
}

} // verus!
