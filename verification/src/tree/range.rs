//! Ranges: the first or last elements of a tree, a slice of it, its two
//! halves at an index, and the tree read backwards or through a function.

use crate::message::index_message;
use crate::seqs::lemma_regroup;
use crate::seqs::lemma_reverse_parts;
use crate::seqs::lemma_skip_first;
use crate::seqs::lemma_skip_second;
use crate::seqs::lemma_subrange_across;
use crate::seqs::lemma_subrange_first;
use crate::seqs::lemma_subrange_second;
use crate::seqs::lemma_take_first;
use crate::seqs::lemma_take_second;
use crate::seqs::lemma_take_skip_all;
use crate::tree::search::lemma_takes_parts;
use crate::tree::search::takes_all;
use crate::tree::share;
use crate::tree::TernaryTree;
use std::sync::Arc;
use vstd::prelude::*;
use vstd::string::StringExecFns;

verus! {

impl<T> TernaryTree<T> {
    /// The tree that [`Self::take_left`] makes: the tree itself for all of
    /// its elements, and otherwise the children before the end of the range
    /// joined with the cut child that the range ends in.
    pub open spec fn taken_left(self, end: nat) -> Self
        decreases self,
    {
        match self {
            TernaryTree::Leaf(_) => self,
            TernaryTree::Branch2 { left, middle, size, .. } => if end == size {
                self
            } else if end <= left.spec_len() {
                left.taken_left(end)
            } else {
                Self::joined_two(*left, middle.taken_left((end - left.spec_len()) as nat))
            },
            TernaryTree::Branch3 { left, middle, right, size, .. } => if end == size {
                self
            } else if end <= left.spec_len() {
                left.taken_left(end)
            } else if end <= left.spec_len() + middle.spec_len() {
                Self::joined_two(*left, middle.taken_left((end - left.spec_len()) as nat))
            } else {
                Self::joined_three(
                    *left,
                    *middle,
                    right.taken_left((end - left.spec_len() - middle.spec_len()) as nat),
                )
            },
        }
    }

    /// The tree that [`Self::take_right`] makes: the tree itself for all of
    /// its elements, and otherwise the cut child that the range starts in
    /// joined with the children after it.
    pub open spec fn taken_right(self, start: nat) -> Self
        decreases self,
    {
        match self {
            TernaryTree::Leaf(_) => self,
            TernaryTree::Branch2 { left, middle, .. } => if start == 0 {
                self
            } else if start >= left.spec_len() {
                middle.taken_right((start - left.spec_len()) as nat)
            } else {
                Self::joined_two(left.taken_right(start), *middle)
            },
            TernaryTree::Branch3 { left, middle, right, .. } => if start == 0 {
                self
            } else if start >= left.spec_len() + middle.spec_len() {
                right.taken_right((start - left.spec_len() - middle.spec_len()) as nat)
            } else if start >= left.spec_len() {
                Self::joined_two(middle.taken_right((start - left.spec_len()) as nat), *right)
            } else {
                Self::joined_three(left.taken_right(start), *middle, *right)
            },
        }
    }

    /// The tree that [`Self::slice`] makes. A range inside one child is a
    /// slice of that child. A range over several children is joined from
    /// what [`Self::taken_right`] keeps of the first of them, what
    /// [`Self::taken_left`] keeps of the last, and the child between them.
    pub open spec fn sliced(self, start: nat, end: nat) -> Self
        decreases self,
    {
        match self {
            TernaryTree::Leaf(_) => self,
            TernaryTree::Branch2 { left, middle, size, .. } => {
                let base = left.spec_len();
                if start == 0 && end == size {
                    self
                } else if start >= base {
                    middle.sliced((start - base) as nat, (end - base) as nat)
                } else if end <= base {
                    left.sliced(start, end)
                } else {
                    Self::joined_two(left.taken_right(start), middle.taken_left((end - base) as nat))
                }
            },
            TernaryTree::Branch3 { left, middle, right, size, .. } => {
                let base1 = left.spec_len();
                let base2 = left.spec_len() + middle.spec_len();
                if start == 0 && end == size {
                    self
                } else if start >= base2 {
                    right.sliced((start - base2) as nat, (end - base2) as nat)
                } else if start >= base1 {
                    if end <= base2 {
                        middle.sliced((start - base1) as nat, (end - base1) as nat)
                    } else {
                        Self::joined_two(
                            middle.taken_right((start - base1) as nat),
                            right.taken_left((end - base2) as nat),
                        )
                    }
                } else if end <= base1 {
                    left.sliced(start, end)
                } else if end <= base2 {
                    Self::joined_two(left.taken_right(start), middle.taken_left((end - base1) as nat))
                } else {
                    Self::joined_three(
                        left.taken_right(start),
                        *middle,
                        right.taken_left((end - base2) as nat),
                    )
                }
            },
        }
    }

    /// The two trees that [`Self::split`] makes: the children before the
    /// cut and the children after it, each with its half of the child that
    /// the cut goes through.
    pub open spec fn halved(self, idx: nat) -> (Self, Self)
        decreases self,
    {
        match self {
            TernaryTree::Leaf(_) => (self, self),
            TernaryTree::Branch2 { left, middle, .. } => {
                let base = left.spec_len();
                if idx < base {
                    (left.halved(idx).0, Self::node2(left.halved(idx).1, *middle))
                } else if idx == base {
                    (*left, *middle)
                } else {
                    let cut = middle.halved((idx - base) as nat);
                    (Self::node2(*left, cut.0), cut.1)
                }
            },
            TernaryTree::Branch3 { left, middle, right, .. } => {
                let base1 = left.spec_len();
                let base2 = left.spec_len() + middle.spec_len();
                if idx < base1 {
                    (left.halved(idx).0, Self::node3(left.halved(idx).1, *middle, *right))
                } else if idx == base1 {
                    (*left, Self::node2(*middle, *right))
                } else if idx < base2 {
                    let cut = middle.halved((idx - base1) as nat);
                    (Self::node2(*left, cut.0), Self::node2(cut.1, *right))
                } else if idx == base2 {
                    (Self::node2(*left, *middle), *right)
                } else {
                    let cut = right.halved((idx - base2) as nat);
                    (Self::node3(*left, *middle, cut.0), cut.1)
                }
            },
        }
    }

    /// The tree that [`Self::reverse`] makes: the mirror image of the tree.
    pub open spec fn mirrored(self) -> Self
        decreases self,
    {
        match self {
            TernaryTree::Leaf(_) => self,
            TernaryTree::Branch2 { left, middle, .. } => Self::node2(
                middle.mirrored(),
                left.mirrored(),
            ),
            TernaryTree::Branch3 { left, middle, right, .. } => Self::node3(
                right.mirrored(),
                middle.mirrored(),
                left.mirrored(),
            ),
        }
    }

    /// Two trees branch in the same way, whatever their leaves hold.
    pub open spec fn same_form<V>(self, other: TernaryTree<V>) -> bool
        decreases self,
    {
        match (self, other) {
            (TernaryTree::Leaf(_), TernaryTree::Leaf(_)) => true,
            (
                TernaryTree::Branch2 { size, depth, left, middle },
                TernaryTree::Branch2 { size: size2, depth: depth2, left: left2, middle: middle2 },
            ) => size == size2 && depth == depth2 && left.same_form(*left2) && middle.same_form(
                *middle2,
            ),
            (
                TernaryTree::Branch3 { size, depth, left, middle, right },
                TernaryTree::Branch3 {
                    size: size2,
                    depth: depth2,
                    left: left2,
                    middle: middle2,
                    right: right2,
                },
            ) => size == size2 && depth == depth2 && left.same_form(*left2) && middle.same_form(
                *middle2,
            ) && right.same_form(*right2),
            _ => false,
        }
    }
}

impl<T> TernaryTree<T> {
    /// The first elements of a well-formed tree make a well-formed tree of
    /// these elements.
    pub proof fn lemma_taken_left(&self, end: nat)
        requires
            self.wf(),
            1 <= end <= self.spec_len(),
        ensures
            self.taken_left(end).wf(),
            self.taken_left(end)@ == self@.take(end as int),
        decreases self,
    {
        self.lemma_parts();
        self.lemma_wf_len();
        lemma_take_skip_all(self@);
        match self {
            TernaryTree::Leaf(_) => {},
            TernaryTree::Branch2 { left, middle, .. } => {
                let left = Self::under(*left);
                let middle = Self::under(*middle);
                if end == self.spec_len() {
                } else if end <= left.spec_len() {
                    left.lemma_taken_left(end);
                    lemma_take_first(left@, middle@, end as int);
                } else {
                    let inner = (end - left.spec_len()) as nat;
                    middle.lemma_taken_left(inner);
                    middle.taken_left(inner).lemma_wf_len();
                    Self::lemma_joined_two(&left, &middle.taken_left(inner));
                    lemma_take_second(left@, middle@, end as int);
                }
            },
            TernaryTree::Branch3 { left, middle, right, .. } => {
                let left = Self::under(*left);
                let middle = Self::under(*middle);
                let right = Self::under(*right);
                if end == self.spec_len() {
                } else if end <= left.spec_len() {
                    left.lemma_taken_left(end);
                    lemma_take_first(left@, middle@, end as int);
                    lemma_take_first(left@ + middle@, right@, end as int);
                } else if end <= left.spec_len() + middle.spec_len() {
                    let inner = (end - left.spec_len()) as nat;
                    middle.lemma_taken_left(inner);
                    middle.taken_left(inner).lemma_wf_len();
                    Self::lemma_joined_two(&left, &middle.taken_left(inner));
                    lemma_take_second(left@, middle@, end as int);
                    lemma_take_first(left@ + middle@, right@, end as int);
                } else {
                    let inner = (end - left.spec_len() - middle.spec_len()) as nat;
                    right.lemma_taken_left(inner);
                    right.taken_left(inner).lemma_wf_len();
                    Self::lemma_joined_three(&left, &middle, &right.taken_left(inner));
                    lemma_take_second(left@ + middle@, right@, end as int);
                }
            },
        }
    }

    /// The last elements of a well-formed tree make a well-formed tree of
    /// these elements.
    pub proof fn lemma_taken_right(&self, start: nat)
        requires
            self.wf(),
            start < self.spec_len(),
        ensures
            self.taken_right(start).wf(),
            self.taken_right(start)@ == self@.skip(start as int),
        decreases self,
    {
        self.lemma_parts();
        self.lemma_wf_len();
        lemma_take_skip_all(self@);
        match self {
            TernaryTree::Leaf(_) => {},
            TernaryTree::Branch2 { left, middle, .. } => {
                let left = Self::under(*left);
                let middle = Self::under(*middle);
                if start == 0 {
                } else if start >= left.spec_len() {
                    let inner = (start - left.spec_len()) as nat;
                    middle.lemma_taken_right(inner);
                    lemma_skip_second(left@, middle@, start as int);
                } else {
                    left.lemma_taken_right(start);
                    left.taken_right(start).lemma_wf_len();
                    Self::lemma_joined_two(&left.taken_right(start), &middle);
                    lemma_skip_first(left@, middle@, start as int);
                }
            },
            TernaryTree::Branch3 { left, middle, right, .. } => {
                let left = Self::under(*left);
                let middle = Self::under(*middle);
                let right = Self::under(*right);
                if start == 0 {
                } else if start >= left.spec_len() + middle.spec_len() {
                    let inner = (start - left.spec_len() - middle.spec_len()) as nat;
                    right.lemma_taken_right(inner);
                    lemma_skip_second(left@ + middle@, right@, start as int);
                } else if start >= left.spec_len() {
                    let inner = (start - left.spec_len()) as nat;
                    middle.lemma_taken_right(inner);
                    middle.taken_right(inner).lemma_wf_len();
                    Self::lemma_joined_two(&middle.taken_right(inner), &right);
                    lemma_skip_second(left@, middle@, start as int);
                    lemma_skip_first(left@ + middle@, right@, start as int);
                } else {
                    left.lemma_taken_right(start);
                    left.taken_right(start).lemma_wf_len();
                    Self::lemma_joined_three(&left.taken_right(start), &middle, &right);
                    lemma_skip_first(left@, middle@, start as int);
                    lemma_skip_first(left@ + middle@, right@, start as int);
                }
            },
        }
    }

    /// A slice of a well-formed tree is a well-formed tree of the elements
    /// in the range.
    pub proof fn lemma_sliced(&self, start: nat, end: nat)
        requires
            self.wf(),
            start < end <= self.spec_len(),
        ensures
            self.sliced(start, end).wf(),
            self.sliced(start, end)@ == self@.subrange(start as int, end as int),
        decreases self,
    {
        self.lemma_parts();
        self.lemma_wf_len();
        lemma_take_skip_all(self@);
        match self {
            TernaryTree::Leaf(_) => {},
            TernaryTree::Branch2 { left, middle, .. } => {
                let left = Self::under(*left);
                let middle = Self::under(*middle);
                let base = left.spec_len();
                if start == 0 && end == self.spec_len() {
                } else if start >= base {
                    middle.lemma_sliced((start - base) as nat, (end - base) as nat);
                    lemma_subrange_second(left@, middle@, start as int, end as int);
                } else if end <= base {
                    left.lemma_sliced(start, end);
                    lemma_subrange_first(left@, middle@, start as int, end as int);
                } else {
                    let first = left.taken_right(start);
                    let last = middle.taken_left((end - base) as nat);
                    left.lemma_taken_right(start);
                    middle.lemma_taken_left((end - base) as nat);
                    first.lemma_wf_len();
                    last.lemma_wf_len();
                    Self::lemma_joined_two(&first, &last);
                    lemma_subrange_across(left@, middle@, start as int, end as int);
                }
            },
            TernaryTree::Branch3 { left, middle, right, .. } => {
                let left = Self::under(*left);
                let middle = Self::under(*middle);
                let right = Self::under(*right);
                let base1 = left.spec_len();
                let base2 = left.spec_len() + middle.spec_len();
                if start == 0 && end == self.spec_len() {
                } else if start >= base2 {
                    right.lemma_sliced((start - base2) as nat, (end - base2) as nat);
                    lemma_subrange_second(left@ + middle@, right@, start as int, end as int);
                } else if start >= base1 {
                    if end <= base2 {
                        middle.lemma_sliced((start - base1) as nat, (end - base1) as nat);
                        lemma_subrange_first(left@ + middle@, right@, start as int, end as int);
                        lemma_subrange_second(left@, middle@, start as int, end as int);
                    } else {
                        let first = middle.taken_right((start - base1) as nat);
                        let last = right.taken_left((end - base2) as nat);
                        middle.lemma_taken_right((start - base1) as nat);
                        right.lemma_taken_left((end - base2) as nat);
                        first.lemma_wf_len();
                        last.lemma_wf_len();
                        Self::lemma_joined_two(&first, &last);
                        lemma_subrange_across(left@ + middle@, right@, start as int, end as int);
                        lemma_skip_second(left@, middle@, start as int);
                    }
                } else if end <= base1 {
                    left.lemma_sliced(start, end);
                    lemma_subrange_first(left@ + middle@, right@, start as int, end as int);
                    lemma_subrange_first(left@, middle@, start as int, end as int);
                } else if end <= base2 {
                    let first = left.taken_right(start);
                    let last = middle.taken_left((end - base1) as nat);
                    left.lemma_taken_right(start);
                    middle.lemma_taken_left((end - base1) as nat);
                    first.lemma_wf_len();
                    last.lemma_wf_len();
                    Self::lemma_joined_two(&first, &last);
                    lemma_subrange_first(left@ + middle@, right@, start as int, end as int);
                    lemma_subrange_across(left@, middle@, start as int, end as int);
                } else {
                    let first = left.taken_right(start);
                    let last = right.taken_left((end - base2) as nat);
                    left.lemma_taken_right(start);
                    right.lemma_taken_left((end - base2) as nat);
                    first.lemma_wf_len();
                    last.lemma_wf_len();
                    Self::lemma_joined_three(&first, &middle, &last);
                    lemma_subrange_across(left@ + middle@, right@, start as int, end as int);
                    lemma_skip_first(left@, middle@, start as int);
                }
            },
        }
    }

    /// The two halves of a well-formed tree are well-formed and hold the
    /// elements before the cut and the elements from the cut on.
    pub proof fn lemma_halved(&self, idx: nat)
        requires
            self.wf(),
            0 < idx < self.spec_len(),
        ensures
            self.halved(idx).0.wf(),
            self.halved(idx).1.wf(),
            self.halved(idx).0@ == self@.take(idx as int),
            self.halved(idx).1@ == self@.skip(idx as int),
        decreases self,
    {
        let at = idx as int;
        self.lemma_parts();
        self.lemma_wf_len();
        match self {
            TernaryTree::Leaf(_) => {},
            TernaryTree::Branch2 { left, middle, .. } => {
                let left = Self::under(*left);
                let middle = Self::under(*middle);
                let base = left.spec_len();
                lemma_take_skip_all(left@);
                lemma_take_skip_all(middle@);
                if idx < base {
                    left.lemma_halved(idx);
                    left.halved(idx).1.lemma_wf_len();
                    Self::lemma_node2(&left.halved(idx).1, &middle);
                    lemma_take_first(left@, middle@, at);
                    lemma_skip_first(left@, middle@, at);
                } else if idx == base {
                    lemma_take_first(left@, middle@, at);
                    lemma_skip_second(left@, middle@, at);
                } else {
                    let cut = middle.halved((idx - base) as nat);
                    middle.lemma_halved((idx - base) as nat);
                    cut.0.lemma_wf_len();
                    Self::lemma_node2(&left, &cut.0);
                    lemma_take_second(left@, middle@, at);
                    lemma_skip_second(left@, middle@, at);
                }
            },
            TernaryTree::Branch3 { left, middle, right, .. } => {
                let left = Self::under(*left);
                let middle = Self::under(*middle);
                let right = Self::under(*right);
                let base1 = left.spec_len();
                let base2 = left.spec_len() + middle.spec_len();
                lemma_take_skip_all(left@);
                lemma_take_skip_all(middle@);
                lemma_take_skip_all(right@);
                lemma_take_skip_all(left@ + middle@);
                if idx < base1 {
                    left.lemma_halved(idx);
                    left.halved(idx).1.lemma_wf_len();
                    Self::lemma_node3(&left.halved(idx).1, &middle, &right);
                    lemma_take_first(left@, middle@, at);
                    lemma_take_first(left@ + middle@, right@, at);
                    lemma_skip_first(left@, middle@, at);
                    lemma_skip_first(left@ + middle@, right@, at);
                } else if idx == base1 {
                    Self::lemma_node2(&middle, &right);
                    lemma_take_first(left@, middle@, at);
                    lemma_take_first(left@ + middle@, right@, at);
                    lemma_skip_second(left@, middle@, at);
                    lemma_skip_first(left@ + middle@, right@, at);
                } else if idx < base2 {
                    let cut = middle.halved((idx - base1) as nat);
                    middle.lemma_halved((idx - base1) as nat);
                    cut.0.lemma_wf_len();
                    cut.1.lemma_wf_len();
                    Self::lemma_node2(&left, &cut.0);
                    Self::lemma_node2(&cut.1, &right);
                    lemma_take_second(left@, middle@, at);
                    lemma_take_first(left@ + middle@, right@, at);
                    lemma_skip_second(left@, middle@, at);
                    lemma_skip_first(left@ + middle@, right@, at);
                } else if idx == base2 {
                    Self::lemma_node2(&left, &middle);
                    lemma_take_first(left@ + middle@, right@, at);
                    lemma_skip_second(left@ + middle@, right@, at);
                } else {
                    let cut = right.halved((idx - base2) as nat);
                    right.lemma_halved((idx - base2) as nat);
                    cut.0.lemma_wf_len();
                    Self::lemma_node3(&left, &middle, &cut.0);
                    lemma_take_second(left@ + middle@, right@, at);
                    lemma_skip_second(left@ + middle@, right@, at);
                }
            },
        }
    }

    /// The mirror image of a well-formed tree is well-formed, as deep as
    /// the tree, and holds its elements in reverse.
    pub proof fn lemma_mirrored(&self)
        requires
            self.wf(),
        ensures
            self.mirrored().wf(),
            self.mirrored()@ == self@.reverse(),
            self.mirrored().spec_depth() == self.spec_depth(),
            self.mirrored().spec_len() == self.spec_len(),
        decreases self,
    {
        self.lemma_parts();
        self.lemma_wf_len();
        match self {
            TernaryTree::Leaf(_) => {
                assert(self@.reverse() =~= self@);
            },
            TernaryTree::Branch2 { left, middle, .. } => {
                let left = Self::under(*left);
                let middle = Self::under(*middle);
                left.lemma_mirrored();
                middle.lemma_mirrored();
                Self::lemma_node2(&middle.mirrored(), &left.mirrored());
                lemma_reverse_parts(left@, middle@);
            },
            TernaryTree::Branch3 { left, middle, right, .. } => {
                let left = Self::under(*left);
                let middle = Self::under(*middle);
                let right = Self::under(*right);
                left.lemma_mirrored();
                middle.lemma_mirrored();
                right.lemma_mirrored();
                Self::lemma_node3(&right.mirrored(), &middle.mirrored(), &left.mirrored());
                lemma_reverse_parts(left@, middle@);
                lemma_reverse_parts(left@ + middle@, right@);
                lemma_regroup(right@.reverse(), middle@.reverse(), left@.reverse());
            },
        }
    }
}

impl<T> TernaryTree<T> {
    /// The first `end_idx` elements. Children that lie wholly inside the
    /// range are shared, the one that the range ends in is cut, and the
    /// pieces are joined by [`Self::concat_two`] or [`Self::concat_three`],
    /// which look after the balance of what they make. To take no element,
    /// or more elements than the tree holds, is an error.
    pub fn take_left(&self, end_idx: usize) -> (res: Result<Self, String>)
        requires
            self.wf(),
        ensures
            match res {
                Ok(tree) => {
                    &&& 1 <= end_idx <= self.spec_len()
                    &&& tree == self.taken_left(end_idx as nat)
                    &&& tree.wf()
                    &&& tree@ == self@.take(end_idx as int)
                },
                Err(_) => !(1 <= end_idx <= self.spec_len()),
            },
        decreases self,
    {
        broadcast use TernaryTree::lemma_wf_len;

        proof {
            self.lemma_parts();
            if 1 <= end_idx <= self.spec_len() {
                self.lemma_taken_left(end_idx as nat);
            }
        }
        match self {
            TernaryTree::Leaf(_) => {
                if end_idx == 1 {
                    Ok(self.duplicate())
                } else {
                    Err(index_message("Invalid take_left for a leaf: ", end_idx))
                }
            },
            TernaryTree::Branch2 { left, middle, size, .. } => {
                if end_idx == *size {
                    Ok(self.duplicate())
                } else if end_idx <= left.len() {
                    left.take_left(end_idx)
                } else {
                    let left_len = left.len();
                    let middle_cut = middle.take_left(end_idx - left_len)?;
                    Ok(Self::concat_two(left.duplicate(), middle_cut))
                }
            },
            TernaryTree::Branch3 { left, middle, right, size, .. } => {
                let base1 = left.len();
                let base2 = base1 + middle.len();
                if end_idx == *size {
                    Ok(self.duplicate())
                } else if end_idx <= base1 {
                    left.take_left(end_idx)
                } else if end_idx <= base2 {
                    let middle_cut = middle.take_left(end_idx - base1)?;
                    Ok(Self::concat_two(left.duplicate(), middle_cut))
                } else {
                    let right_cut = right.take_left(end_idx - base2)?;
                    Ok(Self::concat_three(left.duplicate(), middle.duplicate(), right_cut))
                }
            },
        }
    }

    /// The elements from `start_idx` on. Children that lie wholly inside the
    /// range are shared, the one that the range starts in is cut, and the
    /// pieces are joined by [`Self::concat_two`] or [`Self::concat_three`],
    /// which look after the balance of what they make. To leave no element
    /// is an error.
    pub fn take_right(&self, start_idx: usize) -> (res: Result<Self, String>)
        requires
            self.wf(),
        ensures
            match res {
                Ok(tree) => {
                    &&& start_idx < self.spec_len()
                    &&& tree == self.taken_right(start_idx as nat)
                    &&& tree.wf()
                    &&& tree@ == self@.skip(start_idx as int)
                },
                Err(_) => start_idx >= self.spec_len(),
            },
        decreases self,
    {
        broadcast use TernaryTree::lemma_wf_len;

        proof {
            self.lemma_parts();
            if start_idx < self.spec_len() {
                self.lemma_taken_right(start_idx as nat);
            }
        }
        match self {
            TernaryTree::Leaf(_) => {
                if start_idx == 0 {
                    Ok(self.duplicate())
                } else {
                    Err(index_message("Invalid take_right range for a leaf: ", start_idx))
                }
            },
            TernaryTree::Branch2 { left, middle, .. } => {
                if start_idx == 0 {
                    Ok(self.duplicate())
                } else if start_idx >= left.len() {
                    let left_len = left.len();
                    middle.take_right(start_idx - left_len)
                } else {
                    let left_cut = left.take_right(start_idx)?;
                    Ok(Self::concat_two(left_cut, middle.duplicate()))
                }
            },
            TernaryTree::Branch3 { left, middle, right, .. } => {
                let base1 = left.len();
                let base2 = base1 + middle.len();
                if start_idx == 0 {
                    Ok(self.duplicate())
                } else if start_idx >= base2 {
                    right.take_right(start_idx - base2)
                } else if start_idx >= base1 {
                    let middle_cut = middle.take_right(start_idx - base1)?;
                    Ok(Self::concat_two(middle_cut, right.duplicate()))
                } else {
                    let left_cut = left.take_right(start_idx)?;
                    Ok(Self::concat_three(left_cut, middle.duplicate(), right.duplicate()))
                }
            },
        }
    }

    /// The elements from `start_idx` up to, and without, `end_idx`. The
    /// search goes down to the smallest subtree that spans the range; where
    /// the range reaches over several children, those at its two ends are
    /// cut and joined with what lies between them by [`Self::concat_two`] or
    /// [`Self::concat_three`]; the balance of the result is their business
    /// alone. A range that holds no element, or that ends beyond the tree,
    /// is an error; no range ends before it starts.
    pub fn slice(&self, start_idx: usize, end_idx: usize) -> (res: Result<Self, String>)
        requires
            self.wf(),
            start_idx <= end_idx,
        ensures
            match res {
                Ok(tree) => {
                    &&& start_idx < end_idx <= self.spec_len()
                    &&& tree == self.sliced(start_idx as nat, end_idx as nat)
                    &&& tree.wf()
                    &&& tree@ == self@.subrange(start_idx as int, end_idx as int)
                },
                Err(_) => !(start_idx < end_idx <= self.spec_len()),
            },
        decreases self,
    {
        proof {
            self.lemma_parts();
            self.lemma_wf_len();
            if start_idx < end_idx <= self.spec_len() {
                self.lemma_sliced(start_idx as nat, end_idx as nat);
            }
        }
        match self {
            TernaryTree::Leaf(_) => {
                if start_idx == 0 && end_idx == 1 {
                    Ok(self.duplicate())
                } else {
                    Err(index_message("Invalid slice range for a leaf, which ends at ", end_idx))
                }
            },
            TernaryTree::Branch2 { left, middle, size, .. } => {
                let left_size = left.len();
                if start_idx == 0 && end_idx == *size {
                    Ok(self.duplicate())
                } else if start_idx >= left_size {
                    middle.slice(start_idx - left_size, end_idx - left_size)
                } else if end_idx <= left_size {
                    left.slice(start_idx, end_idx)
                } else if start_idx == 0 {
                    let middle_cut = middle.take_left(end_idx - left_size)?;
                    proof {
                        middle_cut.lemma_wf_len();
                    }
                    Ok(Self::concat_two(left.duplicate(), middle_cut))
                } else if end_idx == *size {
                    let left_cut = left.take_right(start_idx)?;
                    proof {
                        left_cut.lemma_wf_len();
                    }
                    Ok(Self::concat_two(left_cut, middle.duplicate()))
                } else {
                    let left_cut = left.take_right(start_idx)?;
                    let middle_cut = middle.take_left(end_idx - left_size)?;
                    proof {
                        left_cut.lemma_wf_len();
                        middle_cut.lemma_wf_len();
                    }
                    Ok(Self::concat_two(left_cut, middle_cut))
                }
            },
            TernaryTree::Branch3 { left, middle, right, size, .. } => {
                let base1 = left.len();
                let base2 = base1 + middle.len();
                if start_idx == 0 && end_idx == *size {
                    Ok(self.duplicate())
                } else if start_idx >= base2 {
                    right.slice(start_idx - base2, end_idx - base2)
                } else if start_idx >= base1 {
                    if end_idx <= base2 {
                        middle.slice(start_idx - base1, end_idx - base1)
                    } else if end_idx == *size {
                        let middle_cut = middle.take_right(start_idx - base1)?;
                        proof {
                            middle_cut.lemma_wf_len();
                        }
                        Ok(Self::concat_two(middle_cut, right.duplicate()))
                    } else {
                        let middle_cut = middle.take_right(start_idx - base1)?;
                        let right_cut = right.take_left(end_idx - base2)?;
                        proof {
                            middle_cut.lemma_wf_len();
                            right_cut.lemma_wf_len();
                        }
                        Ok(Self::concat_two(middle_cut, right_cut))
                    }
                } else if end_idx <= base1 {
                    left.slice(start_idx, end_idx)
                } else if end_idx <= base2 {
                    if start_idx == 0 {
                        let middle_cut = middle.take_left(end_idx - base1)?;
                        proof {
                            middle_cut.lemma_wf_len();
                        }
                        Ok(Self::concat_two(left.duplicate(), middle_cut))
                    } else {
                        let left_cut = left.take_right(start_idx)?;
                        let middle_cut = middle.take_left(end_idx - base1)?;
                        proof {
                            left_cut.lemma_wf_len();
                            middle_cut.lemma_wf_len();
                        }
                        Ok(Self::concat_two(left_cut, middle_cut))
                    }
                } else {
                    let left_cut = left.take_right(start_idx)?;
                    let right_cut = right.take_left(end_idx - base2)?;
                    proof {
                        left_cut.lemma_wf_len();
                        right_cut.lemma_wf_len();
                    }
                    Ok(Self::concat_three(left_cut, middle.duplicate(), right_cut))
                }
            },
        }
    }

    /// The tree cut in two before the element at `idx`, which lies strictly
    /// inside the tree. Each half is put together from the children on its
    /// side of the cut and, where the cut goes through a child, the two
    /// halves of that child.
    pub fn split(&self, idx: usize) -> (halves: (Self, Self))
        requires
            self.wf(),
            0 < idx < self.spec_len(),
        ensures
            halves == self.halved(idx as nat),
            halves.0.wf(),
            halves.1.wf(),
            halves.0@ == self@.take(idx as int),
            halves.1@ == self@.skip(idx as int),
        decreases self,
    {
        proof {
            self.lemma_parts();
            self.lemma_wf_len();
            self.lemma_halved(idx as nat);
        }
        match self {
            TernaryTree::Leaf(_) => vstd::pervasive::unreached(),
            TernaryTree::Branch2 { left, middle, .. } => {
                if idx < left.len() {
                    let (cut_a, cut_b) = left.split(idx);
                    proof {
                        cut_b.lemma_wf_len();
                    }
                    (cut_a, Self::branch2(Arc::new(cut_b), share(middle)))
                } else if idx == left.len() {
                    (left.duplicate(), middle.duplicate())
                } else {
                    let (cut_a, cut_b) = middle.split(idx - left.len());
                    proof {
                        cut_a.lemma_wf_len();
                    }
                    (Self::branch2(share(left), Arc::new(cut_a)), cut_b)
                }
            },
            TernaryTree::Branch3 { left, middle, right, .. } => {
                if idx < left.len() {
                    let (cut_a, cut_b) = left.split(idx);
                    proof {
                        cut_b.lemma_wf_len();
                    }
                    (cut_a, Self::branch3(Arc::new(cut_b), share(middle), share(right)))
                } else if idx == left.len() {
                    (left.duplicate(), Self::branch2(share(middle), share(right)))
                } else if idx - left.len() < middle.len() {
                    let (cut_a, cut_b) = middle.split(idx - left.len());
                    proof {
                        cut_a.lemma_wf_len();
                        cut_b.lemma_wf_len();
                    }
                    (
                        Self::branch2(share(left), Arc::new(cut_a)),
                        Self::branch2(Arc::new(cut_b), share(right)),
                    )
                } else if idx == left.len() + middle.len() {
                    (Self::branch2(share(left), share(middle)), right.duplicate())
                } else {
                    let (cut_a, cut_b) = right.split(idx - left.len() - middle.len());
                    proof {
                        cut_a.lemma_wf_len();
                    }
                    (Self::branch3(share(left), share(middle), Arc::new(cut_a)), cut_b)
                }
            },
        }
    }

    /// The tree read from right to left. The shape is mirrored with it.
    pub fn reverse(&self) -> (tree: Self)
        requires
            self.wf(),
        ensures
            tree == self.mirrored(),
            tree.wf(),
            tree@ == self@.reverse(),
            tree.spec_depth() == self.spec_depth(),
        decreases self,
    {
        broadcast use TernaryTree::lemma_wf_len;

        proof {
            self.lemma_parts();
            self.lemma_mirrored();
        }
        match self {
            TernaryTree::Leaf(_) => self.duplicate(),
            TernaryTree::Branch2 { left, middle, .. } => Self::branch2(
                Arc::new(middle.reverse()),
                Arc::new(left.reverse()),
            ),
            TernaryTree::Branch3 { left, middle, right, .. } => Self::branch3(
                Arc::new(right.reverse()),
                Arc::new(middle.reverse()),
                Arc::new(left.reverse()),
            ),
        }
    }

    /// The tree of the same shape that holds, in the place of each element,
    /// what `f` returns for it.
    pub fn map<V, F: Fn(&T) -> V>(&self, f: Arc<F>) -> (tree: TernaryTree<V>)
        requires
            self.wf(),
            takes_all(*f, self@),
        ensures
            tree.wf(),
            tree@.len() == self@.len(),
            forall|i: int| 0 <= i < self@.len() ==> f.ensures((&self@[i],), #[trigger] tree@[i]),
            self.same_form(tree),
        decreases self,
    {
        broadcast use TernaryTree::lemma_wf_len;

        proof {
            self.lemma_parts();
        }
        match self {
            TernaryTree::Leaf(value) => {
                assert(self@[0] == **value);
                assert(f.requires((&self@[0],)));
                let mapped = (*f)(&**value);
                assert(TernaryTree::<V>::Leaf(Arc::new(mapped))@[0] == mapped);
                TernaryTree::<V>::leaf(mapped)
            },
            TernaryTree::Branch2 { left, middle, .. } => {
                proof {
                    lemma_takes_parts(&*f, left@, middle@);
                }
                let l = left.map(share(&f));
                let m = middle.map(share(&f));
                proof {
                    TernaryTree::<V>::lemma_nodes(l, m, m);
                }
                TernaryTree::<V>::branch2(Arc::new(l), Arc::new(m))
            },
            TernaryTree::Branch3 { left, middle, right, .. } => {
                proof {
                    lemma_takes_parts(&*f, left@ + middle@, right@);
                    lemma_takes_parts(&*f, left@, middle@);
                }
                let l = left.map(share(&f));
                let m = middle.map(share(&f));
                let r = right.map(share(&f));
                proof {
                    TernaryTree::<V>::lemma_nodes(l, m, r);
                }
                TernaryTree::<V>::branch3(Arc::new(l), Arc::new(m), Arc::new(r))
            },
        }
    }
}

} // verus!
