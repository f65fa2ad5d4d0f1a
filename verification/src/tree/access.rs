//! Indexed reads: recursive and iterative descent to the element at an index.

use crate::tree::TernaryTree;
use vstd::prelude::*;

verus! {

impl<T> TernaryTree<T> {
    /// The element that the descent to `idx` arrives at: at each branch it
    /// goes into the child that holds the index, counting from the sizes
    /// that the branch records.
    pub open spec fn at(self, idx: nat) -> T
        decreases self,
    {
        match self {
            TernaryTree::Leaf(value) => *value,
            TernaryTree::Branch2 { left, middle, .. } => if idx < left.spec_len() {
                left.at(idx)
            } else {
                middle.at((idx - left.spec_len()) as nat)
            },
            TernaryTree::Branch3 { left, middle, right, .. } => if idx < left.spec_len() {
                left.at(idx)
            } else if idx < left.spec_len() + middle.spec_len() {
                middle.at((idx - left.spec_len()) as nat)
            } else {
                right.at((idx - left.spec_len() - middle.spec_len()) as nat)
            },
        }
    }

    /// In a well-formed tree the descent to an index arrives at the element
    /// that stands at that index in the sequence of all elements.
    pub proof fn lemma_at(&self, idx: nat)
        requires
            self.wf(),
            idx < self.spec_len(),
        ensures
            self.at(idx) == self@[idx as int],
        decreases self,
    {
        self.lemma_parts();
        match self {
            TernaryTree::Leaf(_) => {},
            TernaryTree::Branch2 { left, middle, .. } => {
                let left = Self::under(*left);
                let middle = Self::under(*middle);
                if idx < left.spec_len() {
                    left.lemma_at(idx);
                } else {
                    middle.lemma_at((idx - left.spec_len()) as nat);
                }
            },
            TernaryTree::Branch3 { left, middle, right, .. } => {
                let left = Self::under(*left);
                let middle = Self::under(*middle);
                let right = Self::under(*right);
                if idx < left.spec_len() {
                    left.lemma_at(idx);
                } else if idx < left.spec_len() + middle.spec_len() {
                    middle.lemma_at((idx - left.spec_len()) as nat);
                } else {
                    right.lemma_at((idx - left.spec_len() - middle.spec_len()) as nat);
                }
            },
        }
    }

    /// The element at `idx`, found by recursive descent.
    pub fn ref_get(&self, idx: usize) -> (item: &T)
        requires
            self.wf(),
            idx < self.spec_len(),
        ensures
            *item == self.at(idx as nat),
            *item == self@[idx as int],
        decreases self,
    {
        proof {
            self.lemma_parts();
            self.lemma_at(idx as nat);
        }
        match self {
            TernaryTree::Branch3 { left, middle, right, .. } => {
                let base = left.len();
                if idx < base {
                    return left.ref_get(idx);
                }
                let idx_in_middle = idx - base;
                if idx_in_middle < middle.len() {
                    middle.ref_get(idx_in_middle)
                } else {
                    right.ref_get(idx_in_middle - middle.len())
                }
            },
            TernaryTree::Branch2 { left, middle, .. } => {
                let base = left.len();
                if idx < base {
                    left.ref_get(idx)
                } else {
                    middle.ref_get(idx - base)
                }
            },
            TernaryTree::Leaf(value) => value,
        }
    }

    /// The element at `idx`, found by walking down with a cursor.
    pub fn loop_get(&self, idx: usize) -> (item: &T)
        requires
            self.wf(),
            idx < self.spec_len(),
        ensures
            *item == self.at(idx as nat),
            *item == self@[idx as int],
    {
        broadcast use TernaryTree::lemma_wf_len;

        let mut tree_parent = self;
        let mut at = idx;
        proof {
            self.lemma_at(idx as nat);
        }
        loop
            invariant
                tree_parent.wf(),
                at < tree_parent.spec_len(),
                tree_parent.at(at as nat) == self.at(idx as nat),
                self.at(idx as nat) == self@[idx as int],
            decreases tree_parent,
        {
            proof {
                tree_parent.lemma_parts();
            }
            match tree_parent {
                TernaryTree::Leaf(value) => {
                    return value;
                },
                TernaryTree::Branch2 { left, middle, .. } => {
                    let left_size = left.len();
                    if at < left_size {
                        tree_parent = left;
                    } else {
                        tree_parent = middle;
                        at -= left_size;
                    }
                },
                TernaryTree::Branch3 { left, middle, right, .. } => {
                    let left_size = left.len();
                    if at < left_size {
                        tree_parent = left;
                        continue ;
                    }
                    at -= left_size;
                    let middle_size = middle.len();
                    if at < middle_size {
                        tree_parent = middle;
                        continue ;
                    }
                    tree_parent = right;
                    at -= middle_size;
                },
            }
        }
    }

    /// The first element, found by walking down the left edge.
    pub fn loop_first(&self) -> (item: &T)
        requires
            self.wf(),
        ensures
            *item == self@.first(),
    {
        broadcast use TernaryTree::lemma_wf_len;

        let mut tree_parent = self;
        loop
            invariant
                tree_parent.wf(),
                tree_parent@.first() == self@.first(),
            decreases tree_parent,
        {
            proof {
                tree_parent.lemma_parts();
            }
            match tree_parent {
                TernaryTree::Leaf(value) => {
                    return value;
                },
                TernaryTree::Branch2 { left, .. } => {
                    tree_parent = left;
                },
                TernaryTree::Branch3 { left, .. } => {
                    tree_parent = left;
                },
            }
        }
    }

    /// The last element, found by walking down the right edge.
    pub fn loop_last(&self) -> (item: &T)
        requires
            self.wf(),
        ensures
            *item == self@.last(),
    {
        broadcast use TernaryTree::lemma_wf_len;

        let mut tree_parent = self;
        loop
            invariant
                tree_parent.wf(),
                tree_parent@.last() == self@.last(),
            decreases tree_parent,
        {
            proof {
                tree_parent.lemma_parts();
            }
            match tree_parent {
                TernaryTree::Leaf(value) => {
                    return value;
                },
                TernaryTree::Branch2 { middle, .. } => {
                    tree_parent = middle;
                },
                TernaryTree::Branch3 { right, .. } => {
                    tree_parent = right;
                },
            }
        }
    }

    /// The first element. A tree always has one.
    pub fn first(&self) -> (item: Option<&T>)
        requires
            self.wf(),
        ensures
            item == Some(&self@.first()),
        decreases self,
    {
        broadcast use TernaryTree::lemma_wf_len;

        proof {
            self.lemma_parts();
        }
        match self {
            TernaryTree::Leaf(value) => Some(value),
            TernaryTree::Branch2 { left, .. } => left.first(),
            TernaryTree::Branch3 { left, .. } => left.first(),
        }
    }

    /// The last element. A tree always has one.
    pub fn last(&self) -> (item: Option<&T>)
        requires
            self.wf(),
        ensures
            item == Some(&self@.last()),
        decreases self,
    {
        broadcast use TernaryTree::lemma_wf_len;

        proof {
            self.lemma_parts();
        }
        match self {
            TernaryTree::Leaf(value) => Some(value),
            TernaryTree::Branch2 { middle, .. } => middle.last(),
            TernaryTree::Branch3 { right, .. } => right.last(),
        }
    }

    /// The elements from left to right, each by reference. The walk goes by
    /// the structure alone, so it is at home on any tree.
    pub fn to_refs(&self) -> (items: Vec<&T>)
        ensures
            items@.len() == self@.len(),
            forall|i: int| 0 <= i < self@.len() ==> *#[trigger] items@[i] == self@[i],
    {
        let mut items: Vec<&T> = Vec::new();
        write_refs(self, &mut items);
        items
    }
}

/// Writes references to the elements of `xs`, from left to right, at the
/// end of `acc`.
fn write_refs<'a, T>(xs: &'a TernaryTree<T>, acc: &mut Vec<&'a T>)
    ensures
        final(acc)@.len() == old(acc)@.len() + xs@.len(),
        forall|i: int| 0 <= i < old(acc)@.len() ==> final(acc)@[i] == old(acc)@[i],
        forall|i: int|
            0 <= i < xs@.len() ==> *final(acc)@[old(acc)@.len() + i] == #[trigger] xs@[i],
    decreases xs,
{
    match xs {
        TernaryTree::Leaf(value) => {
            acc.push(&**value);
        },
        TernaryTree::Branch2 { left, middle, .. } => {
            write_refs(left, acc);
            let ghost half = acc@;
            write_refs(middle, acc);
            assert forall|i: int| 0 <= i < xs@.len() implies *acc@[old(acc)@.len() + i]
                == #[trigger] xs@[i] by {
                if i < left@.len() {
                    assert(acc@[old(acc)@.len() + i] == half[old(acc)@.len() + i]);
                } else {
                    assert(*acc@[half.len() + (i - left@.len())] == middle@[i - left@.len()]);
                    assert(xs@[i] == middle@[i - left@.len()]);
                }
            }
        },
        TernaryTree::Branch3 { left, middle, right, .. } => {
            write_refs(left, acc);
            let ghost first = acc@;
            write_refs(middle, acc);
            let ghost second = acc@;
            write_refs(right, acc);
            assert forall|i: int| 0 <= i < xs@.len() implies *acc@[old(acc)@.len() + i]
                == #[trigger] xs@[i] by {
                if i < left@.len() {
                    assert(second[old(acc)@.len() + i] == first[old(acc)@.len() + i]);
                    assert(acc@[old(acc)@.len() + i] == second[old(acc)@.len() + i]);
                } else if i < left@.len() + middle@.len() {
                    assert(*second[first.len() + (i - left@.len())] == middle@[i - left@.len()]);
                    assert(acc@[old(acc)@.len() + i] == second[old(acc)@.len() + i]);
                } else {
                    assert(*acc@[second.len() + (i - left@.len() - middle@.len())] == right@[i
                        - left@.len() - middle@.len()]);
                }
            }
        },
    }
}

/// A clone of a value of this type always equals the value: so it is for
/// the numbers, for `bool`, `char` and `String`, and for every type whose
/// `clone` says so of its result.
pub open spec fn clones_exactly<T: Clone>() -> bool {
    forall|a: T, b: T| #[trigger] cloned(a, b) ==> a == b
}

impl<T: Clone> TernaryTree<T> {
    /// The elements from left to right, each a clone of the one in the tree.
    pub fn to_vec(&self) -> (items: Vec<T>)
        requires
            self.wf(),
        ensures
            items@.len() == self@.len(),
            forall|i: int| 0 <= i < self@.len() ==> cloned(self@[i], #[trigger] items@[i]),
            clones_exactly::<T>() ==> items@ == self@,
    {
        broadcast use TernaryTree::lemma_wf_len;

        let size = self.len();
        let mut items: Vec<T> = Vec::with_capacity(size);
        let mut index: usize = 0;
        while index < size
            invariant
                self.wf(),
                size == self.spec_len(),
                index <= size,
                items@.len() == index,
                forall|i: int| 0 <= i < index ==> cloned(self@[i], #[trigger] items@[i]),
            decreases size - index,
        {
            let item = self.loop_get(index).clone();
            items.push(item);
            index = index + 1;
        }
        proof {
            if clones_exactly::<T>() {
                assert(items@ =~= self@);
            }
        }
        items
    }
}

} // verus!
