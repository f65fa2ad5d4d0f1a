//! A persistent ordered sequence kept in a self-balancing ternary tree.
//!
//! [`TernaryTreeList`] is the sequence; [`tree::TernaryTree`] is the tree that
//! holds a sequence of at least one element. Every operation hands back a
//! new list and leaves the old one as it was; the two share all subtrees
//! that the operation did not touch.
//!
//! A list written in brackets shows its shape:
//!
//! ```text
//! (((0 1) (2 3 4) (5 6)) ((7 8) (9 10) (11 12)) ((13 14) (15 16 17) (18 19)))
//! ```

pub mod convert;
pub mod equality;
pub mod laws;
pub mod message;
pub mod order;
pub mod seqs;
pub mod tree;
pub mod util;

use crate::message::index_message;
use crate::tree::builder::all_wf;
use crate::tree::builder::flat;
use crate::tree::search::is_first_accepted;
use crate::tree::search::is_first_index_of;
use crate::tree::search::is_last_index_of;
use crate::tree::search::takes_all;
use crate::tree::TernaryTree;
use std::fmt::Display;
use std::sync::Arc;
use vstd::prelude::*;
use vstd::std_specs::cmp::PartialEqSpec;
use vstd::string::StringExecFns;

verus! {

/// A sequence of elements: empty, or a tree of at least one element.
#[derive(Debug)]
pub enum TernaryTreeList<T> {
    /// No element.
    Empty,
    /// One element or more, in a tree.
    Tree(TernaryTree<T>),
}

impl<T> View for TernaryTreeList<T> {
    type V = Seq<T>;

    /// The elements of the list in order.
    open spec fn view(&self) -> Seq<T> {
        match self {
            TernaryTreeList::Empty => Seq::empty(),
            TernaryTreeList::Tree(t) => t@,
        }
    }
}

/// The elements of a row of lists: those of the first list, then those of
/// the second, and so on.
pub open spec fn flat_lists<T>(lists: Seq<TernaryTreeList<T>>) -> Seq<T>
    decreases lists.len(),
{
    if lists.len() == 0 {
        Seq::empty()
    } else {
        flat_lists(lists.drop_last()) + lists.last()@
    }
}

/// The trees of the lists of a row that are not empty, in order.
pub open spec fn trees_of<T>(lists: Seq<TernaryTreeList<T>>) -> Seq<TernaryTree<T>>
    decreases lists.len(),
{
    if lists.len() == 0 {
        Seq::empty()
    } else {
        match lists.last() {
            TernaryTreeList::Empty => trees_of(lists.drop_last()),
            TernaryTreeList::Tree(t) => trees_of(lists.drop_last()).push(t),
        }
    }
}

/// Every list of the row is well-formed.
pub open spec fn all_lists_wf<T>(lists: Seq<TernaryTreeList<T>>) -> bool {
    forall|i: int| 0 <= i < lists.len() ==> (#[trigger] lists[i]).wf()
}

impl<T> TernaryTreeList<T> {
    /// The list of one element.
    pub open spec fn single(item: T) -> Self {
        TernaryTreeList::Tree(TernaryTree::Leaf(Arc::new(item)))
    }

    /// The element that the descent to `idx` arrives at in the tree of the
    /// list.
    pub open spec fn at(self, idx: nat) -> T {
        match self {
            TernaryTreeList::Empty => arbitrary(),
            TernaryTreeList::Tree(t) => t.at(idx),
        }
    }

    /// The list that [`Self::assoc`] makes.
    pub open spec fn updated(self, idx: nat, item: T) -> Self {
        match self {
            TernaryTreeList::Empty => self,
            TernaryTreeList::Tree(t) => TernaryTreeList::Tree(t.updated(idx, item)),
        }
    }

    /// The list that [`Self::dissoc`] makes: the empty list where the only
    /// element goes.
    pub open spec fn removed(self, idx: nat) -> Self {
        match self {
            TernaryTreeList::Empty => self,
            TernaryTreeList::Tree(t) => if t.spec_len() == 1 {
                TernaryTreeList::Empty
            } else {
                TernaryTreeList::Tree(t.removed(idx))
            },
        }
    }

    /// The list that [`Self::insert`] makes.
    pub open spec fn inserted(self, idx: nat, item: T, after: bool) -> Self {
        match self {
            TernaryTreeList::Empty => Self::single(item),
            TernaryTreeList::Tree(t) => if after {
                TernaryTreeList::Tree(t.inserted_after(idx, item))
            } else {
                TernaryTreeList::Tree(t.inserted_before(idx, item))
            },
        }
    }

    /// The list that [`Self::prepend`] makes: `item` inserted before the
    /// first element, and the tree rebuilt where that made it too deep.
    pub open spec fn prepended(self, item: T) -> Self {
        match self {
            TernaryTreeList::Empty => Self::single(item),
            TernaryTreeList::Tree(t) => TernaryTreeList::Tree(
                t.inserted_before(0, item).rebalanced(),
            ),
        }
    }

    /// The list that [`Self::append`] makes: `item` inserted after the last
    /// element, and the tree rebuilt where that made it too deep.
    pub open spec fn appended(self, item: T) -> Self {
        match self {
            TernaryTreeList::Empty => Self::single(item),
            TernaryTreeList::Tree(t) => TernaryTreeList::Tree(
                t.inserted_after((t.spec_len() - 1) as nat, item).rebalanced(),
            ),
        }
    }

    /// The list that [`Self::push_right`] makes.
    pub open spec fn pushed_right(self, item: T) -> Self {
        match self {
            TernaryTreeList::Empty => Self::single(item),
            TernaryTreeList::Tree(t) => TernaryTreeList::Tree(
                t.pushed_right_main(TernaryTree::Leaf(Arc::new(item)), 2),
            ),
        }
    }

    /// The list that [`Self::push_left`] makes.
    pub open spec fn pushed_left(self, item: T) -> Self {
        match self {
            TernaryTreeList::Empty => Self::single(item),
            TernaryTreeList::Tree(t) => TernaryTreeList::Tree(
                t.pushed_left_main(TernaryTree::Leaf(Arc::new(item)), 2),
            ),
        }
    }

    /// The list that [`Self::drop_left`] makes.
    pub open spec fn dropped_left(self) -> Self {
        match self {
            TernaryTreeList::Empty => self,
            TernaryTreeList::Tree(t) => if t.spec_len() == 1 {
                TernaryTreeList::Empty
            } else {
                TernaryTreeList::Tree(t.dropped_left())
            },
        }
    }

    /// The list that [`Self::drop_right`] makes.
    pub open spec fn dropped_right(self) -> Self {
        match self {
            TernaryTreeList::Empty => self,
            TernaryTreeList::Tree(t) => if t.spec_len() == 1 {
                TernaryTreeList::Empty
            } else {
                TernaryTreeList::Tree(t.dropped_right())
            },
        }
    }

    /// The list of what a split leaves of a tree.
    pub open spec fn of_rest(rest: Option<TernaryTree<T>>) -> Self {
        match rest {
            Some(tree) => TernaryTreeList::Tree(tree),
            None => TernaryTreeList::Empty,
        }
    }

    /// The list that [`Self::drop_left_shallow`] makes.
    pub open spec fn dropped_left_shallow(self) -> Self {
        match self {
            TernaryTreeList::Empty => self,
            TernaryTreeList::Tree(t) => Self::of_rest(t.left_rest(1)),
        }
    }

    /// The list that [`Self::drop_right_shallow`] makes.
    pub open spec fn dropped_right_shallow(self) -> Self {
        match self {
            TernaryTreeList::Empty => self,
            TernaryTreeList::Tree(t) => Self::of_rest(t.right_rest(1)),
        }
    }

    /// The two lists that [`Self::split`] makes.
    pub open spec fn halved(self, idx: nat) -> (Self, Self) {
        match self {
            TernaryTreeList::Empty => (self, self),
            TernaryTreeList::Tree(t) => if idx == 0 {
                (TernaryTreeList::Empty, self)
            } else if idx >= t.spec_len() {
                (self, TernaryTreeList::Empty)
            } else {
                (TernaryTreeList::Tree(t.halved(idx).0), TernaryTreeList::Tree(t.halved(idx).1))
            },
        }
    }

    /// The list that [`Self::slice`] makes.
    pub open spec fn sliced(self, start: nat, end: nat) -> Self {
        match self {
            TernaryTreeList::Empty => self,
            TernaryTreeList::Tree(t) => if start == end {
                TernaryTreeList::Empty
            } else {
                TernaryTreeList::Tree(t.sliced(start, end))
            },
        }
    }

    /// The list that [`Self::skip`] makes.
    pub open spec fn skipped(self, idx: nat) -> Self {
        match self {
            TernaryTreeList::Empty => self,
            TernaryTreeList::Tree(t) => if idx == t.spec_len() {
                TernaryTreeList::Empty
            } else {
                TernaryTreeList::Tree(t.taken_right(idx))
            },
        }
    }

    /// The list that [`Self::take`] makes.
    pub open spec fn taken(self, idx: nat) -> Self {
        match self {
            TernaryTreeList::Empty => self,
            TernaryTreeList::Tree(t) => if idx == 0 {
                TernaryTreeList::Empty
            } else {
                TernaryTreeList::Tree(t.taken_left(idx))
            },
        }
    }

    /// The list that [`Self::reverse`] makes.
    pub open spec fn mirrored(self) -> Self {
        match self {
            TernaryTreeList::Empty => self,
            TernaryTreeList::Tree(t) => TernaryTreeList::Tree(t.mirrored()),
        }
    }

    /// The list that [`Self::force_inplace_balancing`] leaves.
    pub open spec fn rebuilt(self) -> Self {
        match self {
            TernaryTreeList::Empty => self,
            TernaryTreeList::Tree(t) => TernaryTreeList::Tree(
                crate::tree::builder::even_shape(t.leaves()),
            ),
        }
    }

    /// The list that [`Self::concat`] makes of a row of lists.
    pub open spec fn joined(lists: Seq<TernaryTreeList<T>>) -> Self {
        if trees_of(lists).len() == 0 {
            TernaryTreeList::Empty
        } else {
            TernaryTreeList::Tree(TernaryTree::joined(trees_of(lists)).rebalanced())
        }
    }

    /// The list that is reached from the empty list by adding the elements
    /// of `items`, one after another, as [`Self::push_right`] adds them.
    pub open spec fn piled(items: Seq<T>) -> Self
        decreases items.len(),
    {
        if items.len() == 0 {
            TernaryTreeList::Empty
        } else {
            Self::piled(items.drop_last()).pushed_right(items.last())
        }
    }

    /// The list that is reached from the empty list by adding the elements
    /// of `items`, one after another, as [`Self::push_left`] adds them.
    pub open spec fn piled_left(items: Seq<T>) -> Self
        decreases items.len(),
    {
        if items.len() == 0 {
            TernaryTreeList::Empty
        } else {
            Self::piled_left(items.drop_last()).pushed_left(items.last())
        }
    }

    /// Two lists branch in the same way, whatever their leaves hold.
    pub open spec fn same_form<V>(self, other: TernaryTreeList<V>) -> bool {
        match (self, other) {
            (TernaryTreeList::Empty, TernaryTreeList::Empty) => true,
            (TernaryTreeList::Tree(t), TernaryTreeList::Tree(u)) => t.same_form(u),
            _ => false,
        }
    }
}

impl<T> TernaryTreeList<T> {
    /// The list is well-formed where its tree is.
    pub open spec fn wf(self) -> bool {
        match self {
            TernaryTreeList::Empty => true,
            TernaryTreeList::Tree(t) => t.wf(),
        }
    }

    /// The recorded number of elements.
    pub open spec fn spec_len(self) -> nat {
        match self {
            TernaryTreeList::Empty => 0,
            TernaryTreeList::Tree(t) => t.spec_len(),
        }
    }

    /// In a well-formed list the recorded size is the number of elements,
    /// and only the empty list has none.
    pub broadcast proof fn lemma_wf_len(&self)
        requires
            #[trigger] self.wf(),
        ensures
            self.spec_len() == self@.len(),
            self is Empty <==> self@.len() == 0,
    {
        broadcast use TernaryTree::lemma_wf_len;

    }

    /// Whether the list has no element.
    pub fn is_empty(&self) -> (b: bool)
        ensures
            b == (self is Empty),
            self.wf() ==> b == (self@.len() == 0),
    {
        broadcast use TernaryTreeList::lemma_wf_len;

        match self {
            TernaryTreeList::Empty => true,
            TernaryTreeList::Tree(_) => false,
        }
    }

    /// Number of elements.
    pub fn len(&self) -> (n: usize)
        ensures
            n == self.spec_len(),
            self.wf() ==> n == self@.len(),
    {
        broadcast use TernaryTreeList::lemma_wf_len;

        match self {
            TernaryTreeList::Empty => 0,
            TernaryTreeList::Tree(t) => t.len(),
        }
    }

    /// The element at `idx`, or `None` where the list has no such element.
    pub fn get(&self, idx: usize) -> (item: Option<&T>)
        requires
            self.wf(),
        ensures
            item == if idx < self@.len() {
                Some(&self@[idx as int])
            } else {
                None
            },
            idx < self@.len() ==> item == Some(&self.at(idx as nat)),
    {
        broadcast use TernaryTreeList::lemma_wf_len;

        proof {
            if let TernaryTreeList::Tree(t) = self {
                if idx < t.spec_len() {
                    t.lemma_at(idx as nat);
                }
            }
        }
        let l = self.len();
        if l == 0 || idx >= l {
            None
        } else if idx == 0 {
            match self {
                TernaryTreeList::Empty => None,
                TernaryTreeList::Tree(t) => Some(t.loop_first()),
            }
        } else if idx == l - 1 {
            match self {
                TernaryTreeList::Empty => None,
                TernaryTreeList::Tree(t) => Some(t.loop_last()),
            }
        } else {
            self.loop_get(idx)
        }
    }

    /// The element at `idx` of a list that is known to have one there, found
    /// by recursive descent; `None` for the empty list.
    pub fn ref_get(&self, idx: usize) -> (item: Option<&T>)
        requires
            self.wf(),
            self@.len() > 0 ==> idx < self@.len(),
        ensures
            item == if self@.len() > 0 {
                Some(&self@[idx as int])
            } else {
                None
            },
            self@.len() > 0 ==> item == Some(&self.at(idx as nat)),
    {
        broadcast use TernaryTreeList::lemma_wf_len;

        match self {
            TernaryTreeList::Empty => None,
            TernaryTreeList::Tree(t) => Some(t.ref_get(idx)),
        }
    }

    /// The element at `idx` of a list that is known to have one
    /// there, found by walking down with a cursor; `None` for the empty list.
    pub fn loop_get(&self, idx: usize) -> (item: Option<&T>)
        requires
            self.wf(),
            self@.len() > 0 ==> idx < self@.len(),
        ensures
            item == if self@.len() > 0 {
                Some(&self@[idx as int])
            } else {
                None
            },
            self@.len() > 0 ==> item == Some(&self.at(idx as nat)),
    {
        broadcast use TernaryTreeList::lemma_wf_len;

        match self {
            TernaryTreeList::Empty => None,
            TernaryTreeList::Tree(t) => Some(t.loop_get(idx)),
        }
    }

    /// The first element, if there is one.
    pub fn first(&self) -> (item: Option<&T>)
        requires
            self.wf(),
        ensures
            item == if self@.len() > 0 {
                Some(&self@.first())
            } else {
                None
            },
    {
        broadcast use TernaryTreeList::lemma_wf_len;

        match self {
            TernaryTreeList::Empty => None,
            TernaryTreeList::Tree(t) => t.first(),
        }
    }

    /// The last element, if there is one.
    pub fn last(&self) -> (item: Option<&T>)
        requires
            self.wf(),
        ensures
            item == if self@.len() > 0 {
                Some(&self@.last())
            } else {
                None
            },
    {
        broadcast use TernaryTreeList::lemma_wf_len;

        match self {
            TernaryTreeList::Empty => None,
            TernaryTreeList::Tree(t) => t.last(),
        }
    }

    /// The index of the first element that `f` accepts.
    pub fn find_index<F: Fn(&T) -> bool>(&self, f: Arc<F>) -> (found: Option<i64>)
        requires
            self.wf(),
            self@.len() <= i64::MAX,
            takes_all(*f, self@),
        ensures
            is_first_accepted(self@, *f, found),
    {
        broadcast use TernaryTreeList::lemma_wf_len;

        match self {
            TernaryTreeList::Empty => None,
            TernaryTreeList::Tree(t) => {
                t.find_index(f)
            },
        }
    }

    /// The list with `item` in place of the element at `idx`; an error where
    /// the list has no element at `idx`.
    pub fn assoc(&self, idx: usize, item: T) -> (res: Result<Self, String>)
        requires
            self.wf(),
        ensures
            match res {
                Ok(list) => {
                    &&& idx < self@.len()
                    &&& list == self.updated(idx as nat, item)
                    &&& list.wf()
                    &&& list@ == self@.update(idx as int, item)
                },
                Err(_) => idx >= self@.len(),
            },
    {
        broadcast use TernaryTreeList::lemma_wf_len;

        match self {
            TernaryTreeList::Empty => Err(String::from_str("empty")),
            TernaryTreeList::Tree(t) => {
                if idx > self.len() - 1 {
                    Err(index_message("Index too large ", idx))
                } else {
                    Ok(TernaryTreeList::Tree(t.assoc(idx, item)?))
                }
            },
        }
    }

    /// The list without the element at `idx`; an error where the list has no
    /// element at `idx`.
    pub fn dissoc(&self, idx: usize) -> (res: Result<Self, String>)
        requires
            self.wf(),
        ensures
            match res {
                Ok(list) => {
                    &&& idx < self@.len()
                    &&& list == self.removed(idx as nat)
                    &&& list.wf()
                    &&& list@ == self@.remove(idx as int)
                },
                Err(_) => idx >= self@.len(),
            },
    {
        broadcast use TernaryTreeList::lemma_wf_len;

        match self {
            TernaryTreeList::Empty => Err(String::from_str("calling dissoc from empty")),
            TernaryTreeList::Tree(t) => {
                if t.len() == 1 {
                    if idx == 0 {
                        assert(self@.remove(0) =~= Seq::<T>::empty());
                        Ok(TernaryTreeList::Empty)
                    } else {
                        Err(index_message("Index too large ", idx))
                    }
                } else if idx < t.len() {
                    Ok(TernaryTreeList::Tree(t.dissoc(idx)?))
                } else {
                    Err(index_message("Index too large ", idx))
                }
            },
        }
    }

    /// The list without its first element; an error for the empty list.
    pub fn rest(&self) -> (res: Result<Self, String>)
        requires
            self.wf(),
        ensures
            match res {
                Ok(list) => {
                    &&& self@.len() > 0
                    &&& list == self.removed(0)
                    &&& list.wf()
                    &&& list@ == self@.drop_first()
                },
                Err(_) => self@.len() == 0,
            },
    {
        broadcast use TernaryTreeList::lemma_wf_len;

        let size = self.len();
        if size == 0 {
            Err(String::from_str("calling rest on empty"))
        } else if size == 1 {
            assert(self@.drop_first() =~= Seq::<T>::empty());
            Ok(TernaryTreeList::Empty)
        } else {
            self.dissoc(0)
        }
    }

    /// The list without its last element; an error for the empty list.
    pub fn butlast(&self) -> (res: Result<Self, String>)
        requires
            self.wf(),
        ensures
            match res {
                Ok(list) => {
                    &&& self@.len() > 0
                    &&& list == self.removed((self@.len() - 1) as nat)
                    &&& list.wf()
                    &&& list@ == self@.drop_last()
                },
                Err(_) => self@.len() == 0,
            },
    {
        broadcast use TernaryTreeList::lemma_wf_len;

        let size = self.len();
        if size == 0 {
            Err(String::from_str("calling butlast on empty"))
        } else if size == 1 {
            assert(self@.drop_last() =~= Seq::<T>::empty());
            Ok(TernaryTreeList::Empty)
        } else {
            self.dissoc(size - 1)
        }
    }

    /// Where `item` comes to stand when it is inserted at `idx`: just after
    /// the element at `idx` with `after`, just before it without.
    pub open spec fn insert_place(idx: usize, after: bool) -> int {
        if after {
            idx + 1
        } else {
            idx as int
        }
    }

    /// The list with `item` put in beside the element at `idx`: just after
    /// it with `after`, just before it without. Into the empty list `item`
    /// goes at index 0. An index at which the list has no element is an
    /// error.
    pub fn insert(&self, idx: usize, item: T, after: bool) -> (res: Result<Self, String>)
        requires
            self.wf(),
            self@.len() < usize::MAX,
        ensures
            match res {
                Ok(list) => {
                    &&& list == self.inserted(idx as nat, item, after)
                    &&& list.wf()
                    &&& if self@.len() == 0 {
                        idx == 0 && list@ == seq![item]
                    } else {
                        idx < self@.len() && list@ == self@.insert(
                            Self::insert_place(idx, after),
                            item,
                        )
                    }
                },
                Err(_) => if self@.len() == 0 {
                    idx != 0
                } else {
                    idx >= self@.len()
                },
            },
    {
        broadcast use TernaryTreeList::lemma_wf_len;

        match self {
            TernaryTreeList::Empty => {
                if idx == 0 {
                    Ok(TernaryTreeList::Tree(TernaryTree::leaf(item)))
                } else {
                    Err(String::from_str("inserting into empty, but index is not 0"))
                }
            },
            TernaryTreeList::Tree(t) => {
                if idx >= t.len() {
                    Err(index_message("Index too large ", idx))
                } else if after {
                    Ok(TernaryTreeList::Tree(t.insert_after(idx, item)?))
                } else {
                    Ok(TernaryTreeList::Tree(t.insert_before(idx, item)?))
                }
            },
        }
    }

    /// [`Self::insert`] before the element at `idx`.
    pub fn assoc_before(&self, idx: usize, item: T) -> (res: Result<Self, String>)
        requires
            self.wf(),
            self@.len() < usize::MAX,
        ensures
            match res {
                Ok(list) => {
                    &&& list == self.inserted(idx as nat, item, false)
                    &&& list.wf()
                    &&& if self@.len() == 0 {
                        idx == 0 && list@ == seq![item]
                    } else {
                        idx < self@.len() && list@ == self@.insert(idx as int, item)
                    }
                },
                Err(_) => if self@.len() == 0 {
                    idx != 0
                } else {
                    idx >= self@.len()
                },
            },
    {
        self.insert(idx, item, false)
    }

    /// [`Self::insert`] after the element at `idx`.
    pub fn assoc_after(&self, idx: usize, item: T) -> (res: Result<Self, String>)
        requires
            self.wf(),
            self@.len() < usize::MAX,
        ensures
            match res {
                Ok(list) => {
                    &&& list == self.inserted(idx as nat, item, true)
                    &&& list.wf()
                    &&& if self@.len() == 0 {
                        idx == 0 && list@ == seq![item]
                    } else {
                        idx < self@.len() && list@ == self@.insert(idx + 1, item)
                    }
                },
                Err(_) => if self@.len() == 0 {
                    idx != 0
                } else {
                    idx >= self@.len()
                },
            },
    {
        self.insert(idx, item, true)
    }

    /// Rebuilds the tree of the list in place into the shallowest tree of
    /// its size. The elements and their order stay as they are.
    pub fn force_inplace_balancing(&mut self) -> (res: Result<(), String>)
        requires
            old(self).wf(),
        ensures
            res is Ok,
            *final(self) == old(self).rebuilt(),
            final(self).wf(),
            final(self)@ == old(self)@,
    {
        match self {
            TernaryTreeList::Empty => Ok(()),
            TernaryTreeList::Tree(t) => t.force_inplace_balancing(),
        }
    }

    /// [`Self::prepend`] under its other name.
    pub fn unshift(&self, item: T) -> (list: Self)
        requires
            self.wf(),
            self@.len() < usize::MAX,
        ensures
            list == self.prepended(item),
            list.wf(),
            list@ == seq![item] + self@,
    {
        broadcast use TernaryTreeList::lemma_wf_len;

        self.prepend(item)
    }

    /// The list with `item` put in before the first element, by insertion at
    /// index 0. A tree that this has made too deep for its size is rebuilt.
    pub fn prepend(&self, item: T) -> (list: Self)
        requires
            self.wf(),
            self@.len() < usize::MAX,
        ensures
            list == self.prepended(item),
            list.wf(),
            list@ == seq![item] + self@,
    {
        broadcast use TernaryTreeList::lemma_wf_len;

        match self {
            TernaryTreeList::Empty => TernaryTreeList::Tree(TernaryTree::leaf(item)),
            TernaryTreeList::Tree(t) => {
                let mut tree = t.prepend(item);
                tree.maybe_rebalance();
                TernaryTreeList::Tree(tree)
            },
        }
    }

    /// [`Self::append`] under its other name.
    pub fn push(&self, item: T) -> (list: Self)
        requires
            self.wf(),
            self@.len() < usize::MAX,
        ensures
            list == self.appended(item),
            list.wf(),
            list@ == self@.push(item),
    {
        broadcast use TernaryTreeList::lemma_wf_len;

        self.append(item)
    }

    /// The list with `item` put in after the last element, by insertion
    /// after the last index. A tree that this has made too deep for its size
    /// is rebuilt. [`Self::push_right`] does the same more cheaply when many
    /// elements are added.
    pub fn append(&self, item: T) -> (list: Self)
        requires
            self.wf(),
            self@.len() < usize::MAX,
        ensures
            list == self.appended(item),
            list.wf(),
            list@ == self@.push(item),
    {
        broadcast use TernaryTree::lemma_wf_len;

        match self {
            TernaryTreeList::Empty => TernaryTreeList::Tree(TernaryTree::leaf(item)),
            TernaryTreeList::Tree(t) => {
                match t.insert_after(t.len() - 1, item) {
                    Ok(grown) => {
                        let mut tree = grown;
                        tree.maybe_rebalance();
                        TernaryTreeList::Tree(tree)
                    },
                    Err(_) => vstd::pervasive::unreached(),
                }
            },
        }
    }

    /// The list with `item` added after the last element, at a cost that
    /// evens out to a constant over many calls.
    pub fn push_right(&self, item: T) -> (list: Self)
        requires
            self.wf(),
            self@.len() < usize::MAX,
        ensures
            list == self.pushed_right(item),
            list.wf(),
            list@ == self@.push(item),
    {
        broadcast use TernaryTreeList::lemma_wf_len;

        match self {
            TernaryTreeList::Empty => TernaryTreeList::Tree(TernaryTree::leaf(item)),
            TernaryTreeList::Tree(t) => TernaryTreeList::Tree(t.push_right(item)),
        }
    }

    /// The list with `item` added before the first element, at a cost that
    /// evens out to a constant over many calls.
    pub fn push_left(&self, item: T) -> (list: Self)
        requires
            self.wf(),
            self@.len() < usize::MAX,
        ensures
            list == self.pushed_left(item),
            list.wf(),
            list@ == seq![item] + self@,
    {
        broadcast use TernaryTreeList::lemma_wf_len;

        match self {
            TernaryTreeList::Empty => TernaryTreeList::Tree(TernaryTree::leaf(item)),
            TernaryTreeList::Tree(t) => TernaryTreeList::Tree(t.push_left(item)),
        }
    }

    /// What is left of a sequence without its first element: nothing, for
    /// the empty sequence too.
    pub open spec fn without_first(items: Seq<T>) -> Seq<T> {
        if items.len() == 0 {
            items
        } else {
            items.drop_first()
        }
    }

    /// What is left of a sequence without its last element: nothing, for
    /// the empty sequence too.
    pub open spec fn without_last(items: Seq<T>) -> Seq<T> {
        if items.len() == 0 {
            items
        } else {
            items.drop_last()
        }
    }

    /// The list without its first element. The empty list stays empty.
    pub fn drop_left(&self) -> (list: Self)
        requires
            self.wf(),
        ensures
            list == self.dropped_left(),
            list.wf(),
            list@ == Self::without_first(self@),
    {
        broadcast use TernaryTreeList::lemma_wf_len;

        match self {
            TernaryTreeList::Empty => TernaryTreeList::Empty,
            TernaryTreeList::Tree(t) => {
                if t.len() == 1 {
                    assert(self@.drop_first() =~= Seq::<T>::empty());
                    TernaryTreeList::Empty
                } else {
                    TernaryTreeList::Tree(t.drop_left())
                }
            },
        }
    }

    /// The list without its first element, by splitting a bunch of one off
    /// the left end: more copying for each call than [`Self::drop_left`],
    /// less relinking over many calls. The empty list stays empty.
    pub fn drop_left_shallow(&self) -> (list: Self)
        requires
            self.wf(),
        ensures
            list == self.dropped_left_shallow(),
            list.wf(),
            list@ == Self::without_first(self@),
    {
        broadcast use TernaryTreeList::lemma_wf_len, TernaryTree::lemma_wf_len;

        match self {
            TernaryTreeList::Empty => TernaryTreeList::Empty,
            TernaryTreeList::Tree(t) => {
                if t.len() == 1 {
                    assert(self@.drop_first() =~= Seq::<T>::empty());
                    TernaryTreeList::Empty
                } else {
                    let (bunch, rest) = t.split_left_some(1);
                    match rest {
                        Some(v) => {
                            assert(v@ =~= (bunch@ + v@).drop_first());
                            TernaryTreeList::Tree(v)
                        },
                        None => TernaryTreeList::Empty,
                    }
                }
            },
        }
    }

    /// The list without its last element. The empty list stays empty.
    pub fn drop_right(&self) -> (list: Self)
        requires
            self.wf(),
        ensures
            list == self.dropped_right(),
            list.wf(),
            list@ == Self::without_last(self@),
    {
        broadcast use TernaryTreeList::lemma_wf_len;

        match self {
            TernaryTreeList::Empty => TernaryTreeList::Empty,
            TernaryTreeList::Tree(t) => {
                if t.len() == 1 {
                    assert(self@.drop_last() =~= Seq::<T>::empty());
                    TernaryTreeList::Empty
                } else {
                    TernaryTreeList::Tree(t.drop_right())
                }
            },
        }
    }

    /// The list without its last element, by splitting a bunch of one off
    /// the right end: the mirror image of [`Self::drop_left_shallow`].
    pub fn drop_right_shallow(&self) -> (list: Self)
        requires
            self.wf(),
        ensures
            list == self.dropped_right_shallow(),
            list.wf(),
            list@ == Self::without_last(self@),
    {
        broadcast use TernaryTreeList::lemma_wf_len, TernaryTree::lemma_wf_len;

        match self {
            TernaryTreeList::Empty => TernaryTreeList::Empty,
            TernaryTreeList::Tree(t) => {
                if t.len() == 1 {
                    assert(self@.drop_last() =~= Seq::<T>::empty());
                    TernaryTreeList::Empty
                } else {
                    let (rest, bunch) = t.split_right_some(1);
                    match rest {
                        Some(v) => {
                            assert(v@ =~= (v@ + bunch@).drop_last());
                            TernaryTreeList::Tree(v)
                        },
                        None => TernaryTreeList::Empty,
                    }
                }
            },
        }
    }

    /// The list cut in two before the element at `idx`. With an `idx` of 0
    /// the first half is empty, with the length of the list as `idx` the
    /// second half is. An `idx` beyond the length is an error.
    pub fn split(self, idx: usize) -> (res: Result<(Self, Self), String>)
        requires
            self.wf(),
        ensures
            match res {
                Ok(halves) => {
                    &&& idx <= self@.len()
                    &&& halves == self.halved(idx as nat)
                    &&& halves.0.wf()
                    &&& halves.1.wf()
                    &&& halves.0@ == self@.take(idx as int)
                    &&& halves.1@ == self@.skip(idx as int)
                },
                Err(_) => idx > self@.len(),
            },
    {
        broadcast use TernaryTreeList::lemma_wf_len;

        if idx > self.len() {
            Err(index_message("Split index too large ", idx))
        } else if idx == 0 {
            assert(self@.take(0) =~= Seq::<T>::empty());
            assert(self@.skip(0) =~= self@);
            Ok((TernaryTreeList::Empty, self))
        } else if idx == self.len() {
            assert(self@.take(self@.len() as int) =~= self@);
            assert(self@.skip(self@.len() as int) =~= Seq::<T>::empty());
            Ok((self, TernaryTreeList::Empty))
        } else {
            match self {
                TernaryTreeList::Empty => Ok((TernaryTreeList::Empty, TernaryTreeList::Empty)),
                TernaryTreeList::Tree(t) => {
                    let (l, r) = t.split(idx);
                    Ok((TernaryTreeList::Tree(l), TernaryTreeList::Tree(r)))
                },
            }
        }
    }

    /// The elements from `start_idx` up to, and without, `end_idx`. A range
    /// that ends beyond the list or that ends before it starts is an error.
    pub fn slice(&self, start_idx: usize, end_idx: usize) -> (res: Result<Self, String>)
        requires
            self.wf(),
        ensures
            match res {
                Ok(list) => {
                    &&& start_idx <= end_idx <= self@.len()
                    &&& list == self.sliced(start_idx as nat, end_idx as nat)
                    &&& list.wf()
                    &&& list@ == self@.subrange(start_idx as int, end_idx as int)
                },
                Err(_) => !(start_idx <= end_idx <= self@.len()),
            },
    {
        broadcast use TernaryTreeList::lemma_wf_len;

        if end_idx > self.len() {
            return Err(index_message("Slice range too large ", end_idx));
        }
        if start_idx > end_idx {
            return Err(index_message("Invalid slice range, which ends at ", end_idx));
        }
        if start_idx == end_idx {
            assert(self@.subrange(start_idx as int, end_idx as int) =~= Seq::<T>::empty());
            return Ok(TernaryTreeList::Empty);
        }
        match self {
            TernaryTreeList::Empty => Err(String::from_str("empty")),
            TernaryTreeList::Tree(t) => Ok(TernaryTreeList::Tree(t.slice(start_idx, end_idx)?)),
        }
    }

    /// The list without its first `idx` elements. To skip more elements than
    /// a list that is not empty holds is an error; the empty list stays
    /// empty whatever `idx` is.
    pub fn skip(&self, idx: usize) -> (res: Result<Self, String>)
        requires
            self.wf(),
        ensures
            match res {
                Ok(list) => {
                    &&& self@.len() == 0 || idx <= self@.len()
                    &&& list == self.skipped(idx as nat)
                    &&& list.wf()
                    &&& list@ == if idx <= self@.len() {
                        self@.skip(idx as int)
                    } else {
                        self@
                    }
                },
                Err(_) => self@.len() > 0 && idx > self@.len(),
            },
    {
        broadcast use TernaryTreeList::lemma_wf_len;

        match self {
            TernaryTreeList::Empty => {
                assert(self@.skip(0) =~= self@);
                Ok(TernaryTreeList::Empty)
            },
            TernaryTreeList::Tree(t) => {
                let size = t.len();
                if idx == size {
                    assert(self@.skip(idx as int) =~= Seq::<T>::empty());
                    Ok(TernaryTreeList::Empty)
                } else if idx > size {
                    Err(index_message("Skip range too large ", idx))
                } else {
                    Ok(TernaryTreeList::Tree(t.take_right(idx)?))
                }
            },
        }
    }

    /// The first `idx` elements. To take more elements than a list that is
    /// not empty holds is an error; the empty list stays empty whatever
    /// `idx` is.
    pub fn take(&self, idx: usize) -> (res: Result<Self, String>)
        requires
            self.wf(),
        ensures
            match res {
                Ok(list) => {
                    &&& self@.len() == 0 || idx <= self@.len()
                    &&& list == self.taken(idx as nat)
                    &&& list.wf()
                    &&& list@ == if idx <= self@.len() {
                        self@.take(idx as int)
                    } else {
                        self@
                    }
                },
                Err(_) => self@.len() > 0 && idx > self@.len(),
            },
    {
        broadcast use TernaryTreeList::lemma_wf_len;

        match self {
            TernaryTreeList::Empty => {
                assert(self@.take(0) =~= self@);
                Ok(TernaryTreeList::Empty)
            },
            TernaryTreeList::Tree(t) => {
                if idx == 0 {
                    assert(self@.take(0) =~= Seq::<T>::empty());
                    Ok(TernaryTreeList::Empty)
                } else if idx > self.len() {
                    Err(index_message("Take range too large ", idx))
                } else {
                    Ok(TernaryTreeList::Tree(t.take_left(idx)?))
                }
            },
        }
    }

    /// The list read from right to left.
    pub fn reverse(&self) -> (list: Self)
        requires
            self.wf(),
        ensures
            list == self.mirrored(),
            list.wf(),
            list@ == self@.reverse(),
    {
        match self {
            TernaryTreeList::Empty => {
                assert(self@.reverse() =~= Seq::<T>::empty());
                TernaryTreeList::Empty
            },
            TernaryTreeList::Tree(t) => TernaryTreeList::Tree(t.reverse()),
        }
    }

    /// The list that holds, in the place of each element, what `f` returns
    /// for it.
    pub fn map<V, F: Fn(&T) -> V>(&self, f: Arc<F>) -> (list: TernaryTreeList<V>)
        requires
            self.wf(),
            takes_all(*f, self@),
        ensures
            list.wf(),
            list@.len() == self@.len(),
            forall|i: int| 0 <= i < self@.len() ==> f.ensures((&self@[i],), #[trigger] list@[i]),
            self.same_form(list),
    {
        match self {
            TernaryTreeList::Empty => TernaryTreeList::Empty,
            TernaryTreeList::Tree(t) => {
                TernaryTreeList::Tree(t.map(f))
            },
        }
    }

    /// The elements in order, each by reference.
    pub fn to_refs(&self) -> (items: Vec<&T>)
        ensures
            items@.len() == self@.len(),
            forall|i: int| 0 <= i < self@.len() ==> *#[trigger] items@[i] == self@[i],
    {
        match self {
            TernaryTreeList::Empty => Vec::new(),
            TernaryTreeList::Tree(t) => t.to_refs(),
        }
    }

    /// A second handle on the same list: nothing below the root is copied.
    pub fn duplicate(&self) -> (other: Self)
        ensures
            other == *self,
    {
        match self {
            TernaryTreeList::Empty => TernaryTreeList::Empty,
            TernaryTreeList::Tree(t) => TernaryTreeList::Tree(t.duplicate()),
        }
    }

    /// The elements of the first `count` lists of a row are those of the
    /// lists before the last of them, followed by those of the last.
    pub proof fn lemma_flat_lists_step(lists: Seq<TernaryTreeList<T>>, count: int)
        requires
            0 <= count < lists.len(),
        ensures
            flat_lists(lists.take(count + 1)) == flat_lists(lists.take(count)) + lists[count]@,
            flat_lists(lists.take(count)).len() <= flat_lists(lists.take(count + 1)).len(),
            flat_lists(lists.take(lists.len() as int)) == flat_lists(lists),
        decreases lists.len() - count,
    {
        assert(lists.take(count + 1).drop_last() =~= lists.take(count));
        assert(lists.take(lists.len() as int) =~= lists);
    }

    /// The first lists of a row hold no more elements than the whole row.
    pub proof fn lemma_flat_lists_prefix(lists: Seq<TernaryTreeList<T>>, count: int)
        requires
            0 <= count <= lists.len(),
        ensures
            flat_lists(lists.take(count)).len() <= flat_lists(lists).len(),
        decreases lists.len() - count,
    {
        if count < lists.len() {
            Self::lemma_flat_lists_step(lists, count);
            Self::lemma_flat_lists_prefix(lists, count + 1);
        } else {
            assert(lists.take(count) =~= lists);
        }
    }

    /// Joins the lists of `raw` into one list that holds their elements in
    /// order. Empty lists are passed over; the trees of the others are
    /// joined as [`TernaryTree::concat`] joins them.
    pub fn concat(raw: &[TernaryTreeList<T>]) -> (list: Self)
        requires
            all_lists_wf(raw@),
            flat_lists(raw@).len() <= usize::MAX,
        ensures
            list == Self::joined(raw@),
            list.wf(),
            list@ == flat_lists(raw@),
    {
        broadcast use TernaryTreeList::lemma_wf_len;

        let mut trees: Vec<TernaryTree<T>> = Vec::new();
        let mut index: usize = 0;
        proof {
            crate::tree::builder::lemma_flat_none::<T>();
        }
        while index < raw.len()
            invariant
                index <= raw.len(),
                all_lists_wf(raw@),
                all_wf(trees@),
                trees@ == trees_of(raw@.take(index as int)),
                flat(trees@) == flat_lists(raw@.take(index as int)),
            decreases raw.len() - index,
        {
            proof {
                Self::lemma_flat_lists_step(raw@, index as int);
                assert(raw@.take(index + 1).drop_last() =~= raw@.take(index as int));
            }
            match &raw[index] {
                TernaryTreeList::Empty => {},
                TernaryTreeList::Tree(t) => {
                    proof {
                        crate::tree::builder::lemma_flat_push(trees@, *t);
                    }
                    trees.push(t.duplicate());
                },
            }
            index = index + 1;
        }
        proof {
            assert(raw@.take(raw@.len() as int) =~= raw@);
        }
        if trees.is_empty() {
            proof {
                assert(trees@ =~= Seq::<TernaryTree<T>>::empty());
                crate::tree::builder::lemma_flat_none::<T>();
            }
            TernaryTreeList::Empty
        } else {
            TernaryTreeList::Tree(TernaryTree::concat(trees.as_slice()))
        }
    }

    /// Joins the lists of `raw` as [`Self::concat`] does, in the plain way:
    /// the elements are added one by one at the right end of the result.
    pub fn concat_dumb(raw: &[TernaryTreeList<T>]) -> (list: Self)
        requires
            all_lists_wf(raw@),
            flat_lists(raw@).len() <= usize::MAX,
        ensures
            list == Self::piled(flat_lists(raw@)),
            list.wf(),
            list@ == flat_lists(raw@),
    {
        broadcast use TernaryTreeList::lemma_wf_len;

        let mut list: TernaryTreeList<T> = TernaryTreeList::Empty;
        let mut index: usize = 0;
        while index < raw.len()
            invariant
                index <= raw.len(),
                all_lists_wf(raw@),
                flat_lists(raw@).len() <= usize::MAX,
                list.wf(),
                list@ == flat_lists(raw@.take(index as int)),
                list == Self::piled(list@),
            decreases raw.len() - index,
        {
            proof {
                Self::lemma_flat_lists_step(raw@, index as int);
                Self::lemma_flat_lists_prefix(raw@, index + 1);
            }
            match &raw[index] {
                TernaryTreeList::Empty => {},
                TernaryTreeList::Tree(t) => {
                    let leaves = t.to_leaves();
                    proof {
                        t.lemma_leaves();
                    }
                    let ghost start = list@;
                    let mut taken: usize = 0;
                    while taken < leaves.len()
                        invariant
                            taken <= leaves.len(),
                            t.wf(),
                            leaves@ == t.leaves(),
                            leaves@.len() == t@.len(),
                            start.len() + t@.len() <= usize::MAX,
                            list.wf(),
                            list@ == start + t@.take(taken as int),
                            list == Self::piled(list@),
                        decreases leaves.len() - taken,
                    {
                        let leaf = leaves[taken].duplicate();
                        let ghost before = list@;
                        assert(leaf@ =~= seq![t@[taken as int]]);
                        assert(t@.take(taken + 1) =~= t@.take(taken as int) + leaf@);
                        assert((before + leaf@).drop_last() =~= before);
                        list = match list {
                            TernaryTreeList::Empty => TernaryTreeList::Tree(leaf),
                            TernaryTreeList::Tree(grown) => {
                                proof {
                                    grown.lemma_wf_len();
                                    leaf.lemma_wf_len();
                                }
                                TernaryTreeList::Tree(grown.push_right_tree(leaf))
                            },
                        };
                        taken = taken + 1;
                    }
                    assert(t@.take(t@.len() as int) =~= t@);
                },
            }
            index = index + 1;
        }
        proof {
            assert(raw@.take(raw@.len() as int) =~= raw@);
        }
        list
    }

    /// The list written as its kind and its size, as in `TernaryTree[4, ...]`.
    pub fn to_string(&self) -> (text: String)
        ensures
            exists|head: Seq<char>|
                crate::message::is_index_message(head, "TernaryTree["@, self.spec_len() as usize)
                    && text@ == #[trigger] (head + ", ...]"@),
    {
        let mut text = index_message("TernaryTree[", self.len());
        let ghost head = text@;
        text.append(", ...]");
        assert(text@ == head + ", ...]"@);
        text
    }
}

impl<T: PartialEq> TernaryTreeList<T> {
    /// The index of the first element that `item` equals.
    pub fn index_of(&self, item: &T) -> (found: Option<usize>)
        requires
            self.wf(),
        ensures
            T::obeys_eq_spec() ==> is_first_index_of(self@, *item, found),
    {
        match self {
            TernaryTreeList::Empty => None,
            TernaryTreeList::Tree(t) => t.index_of(item),
        }
    }

    /// How far from the end the last element is that `item` equals: 0 where
    /// it is the last element of the list.
    pub fn last_index_of(&self, item: &T) -> (found: Option<usize>)
        requires
            self.wf(),
        ensures
            T::obeys_eq_spec() ==> is_last_index_of(self@, *item, found),
    {
        match self {
            TernaryTreeList::Empty => None,
            TernaryTreeList::Tree(t) => t.last_index_of(item),
        }
    }

    /// Two lists have the same shape and, leaf by leaf, equal elements.
    pub open spec fn same_shape(self, other: Self) -> bool {
        match (self, other) {
            (TernaryTreeList::Empty, TernaryTreeList::Empty) => true,
            (TernaryTreeList::Tree(x), TernaryTreeList::Tree(y)) => x.same_shape(y),
            _ => false,
        }
    }

    /// Whether the two lists have the same shape and equal elements in it.
    pub fn eq_shape(&self, ys: &Self) -> (same: bool)
        requires
            self.wf(),
            ys.wf(),
        ensures
            T::obeys_eq_spec() ==> same == self.same_shape(*ys),
    {
        match (self, ys) {
            (TernaryTreeList::Empty, TernaryTreeList::Empty) => true,
            (TernaryTreeList::Empty, _) => false,
            (_, TernaryTreeList::Empty) => false,
            (TernaryTreeList::Tree(x), TernaryTreeList::Tree(y)) => x.eq_shape(y),
        }
    }
}

impl<T: Display> TernaryTreeList<T> {
    /// `text` is the list written in brackets: `_` for the empty list, and
    /// the tree as [`TernaryTree::format_inline`] writes it otherwise.
    pub open spec fn inline_text(self, text: Seq<char>) -> bool {
        match self {
            TernaryTreeList::Empty => text == seq!['_'],
            TernaryTreeList::Tree(t) => t.inline_text(text),
        }
    }

    /// The list written in brackets, as in `((1 2) 3 (4 5))`; `_` for the
    /// empty list.
    pub fn format_inline(&self) -> (text: String)
        ensures
            self.inline_text(text@),
    {
        match self {
            TernaryTreeList::Empty => {
                proof {
                    reveal_strlit("_");
                }
                let text = String::from_str("_");
                assert(text@ =~= seq!['_']);
                text
            },
            TernaryTreeList::Tree(t) => t.format_inline(),
        }
    }

    /// Checks the structure of the tree of the list. The answer is `Ok` for
    /// a well-formed list and for no other.
    pub fn check_structure(&self) -> (res: Result<(), String>)
        ensures
            res is Ok <==> self.wf(),
    {
        match self {
            TernaryTreeList::Empty => Ok(()),
            TernaryTreeList::Tree(t) => t.check_structure(),
        }
    }
}

impl<T: Clone> TernaryTreeList<T> {
    /// The elements in order, each a clone of the one in the list.
    pub fn to_vec(&self) -> (items: Vec<T>)
        requires
            self.wf(),
        ensures
            items@.len() == self@.len(),
            forall|i: int| 0 <= i < self@.len() ==> cloned(self@[i], #[trigger] items@[i]),
            crate::tree::access::clones_exactly::<T>() ==> items@ == self@,
    {
        match self {
            TernaryTreeList::Empty => Vec::new(),
            TernaryTreeList::Tree(t) => t.to_vec(),
        }
    }
}

impl<T: std::fmt::Debug> TernaryTreeList<T> {
    /// The list written for debugging: its kind, then each element as its
    /// `Debug` writes it, a space before each, all in round brackets.
    pub fn format_debug(&self) -> (text: String)
        ensures
            exists|parts: Seq<Seq<char>>|
                parts.len() == self@.len() && text@ == "(TernaryTreeList debug"@
                    + #[trigger] crate::message::spaced(parts) + ")"@,
    {
        let items = self.to_refs();
        let mut text = String::from_str("(TernaryTreeList debug");
        let ghost mut parts: Seq<Seq<char>> = Seq::empty();
        let mut index: usize = 0;
        assert(text@ =~= "(TernaryTreeList debug"@ + crate::message::spaced(parts));
        while index < items.len()
            invariant
                index <= items@.len(),
                parts.len() == index,
                text@ == "(TernaryTreeList debug"@ + crate::message::spaced(parts),
            decreases items@.len() - index,
        {
            let part = crate::message::debug_text(items[index]);
            let ghost before = text@;
            text.append(" ");
            text.append(part.as_str());
            proof {
                reveal_strlit(" ");
                let longer = parts.push(part@);
                assert(longer.drop_last() =~= parts);
                assert(text@ =~= "(TernaryTreeList debug"@ + crate::message::spaced(longer));
                parts = longer;
            }
            index = index + 1;
        }
        text.append(")");
        text
    }
}

} // verus!
