//! Cheap work at the two ends: pushing and dropping single elements, and
//! peeling a small bunch of elements off an end. Branches near both ends are
//! kept shallow, so that this work mostly touches a few small nodes.

use crate::seqs::lemma_drop_first;
use crate::seqs::lemma_drop_last;
use crate::seqs::lemma_regroup;
use crate::seqs::lemma_remove_whole_first;
use crate::seqs::lemma_remove_whole_second;
use crate::tree::share;
use crate::tree::TernaryTree;
use crate::util::lemma_pow3_fits;
use crate::util::spec_triple_size;
use crate::util::triple_size;
use std::sync::Arc;
use vstd::prelude::*;

verus! {

/// Three times `bound`, or the largest number there is where that does not fit.
pub fn widen_bound(bound: usize) -> (more: usize)
    ensures
        more == wider(bound as nat),
{
    if bound > usize::MAX / 3 {
        usize::MAX
    } else {
        bound * 3
    }
}

/// What [`widen_bound`] returns.
pub open spec fn wider(bound: nat) -> nat {
    if bound * 3 <= usize::MAX {
        bound * 3
    } else {
        usize::MAX as nat
    }
}

impl<T> TernaryTree<T> {
    /// The tree that a side branch becomes when the subtree `item` is
    /// pushed onto its right end.
    pub open spec fn pushed_right_side(self, item: Self) -> Self
        decreases self,
    {
        match self {
            TernaryTree::Leaf(_) => Self::node2(self, item),
            TernaryTree::Branch2 { left, middle, .. } => if middle.spec_len() + item.spec_len()
                > left.spec_len() {
                Self::node3(*left, *middle, item)
            } else {
                Self::node2(*left, middle.pushed_right_side(item))
            },
            TernaryTree::Branch3 { left, middle, right, .. } => if right.spec_len()
                + item.spec_len() > middle.spec_len() {
                Self::node2(self, item)
            } else {
                Self::node3(*left, *middle, right.pushed_right_side(item))
            },
        }
    }

    /// The tree that a side branch becomes when the subtree `item` is
    /// pushed onto its left end.
    pub open spec fn pushed_left_side(self, item: Self) -> Self
        decreases self,
    {
        match self {
            TernaryTree::Leaf(_) => Self::node2(item, self),
            TernaryTree::Branch2 { left, middle, .. } => if left.spec_len() + item.spec_len()
                > middle.spec_len() {
                Self::node3(item, *left, *middle)
            } else {
                Self::node2(left.pushed_left_side(item), *middle)
            },
            TernaryTree::Branch3 { left, middle, right, .. } => if left.spec_len()
                + item.spec_len() > middle.spec_len() {
                Self::node2(item, self)
            } else {
                Self::node3(left.pushed_left_side(item), *middle, *right)
            },
        }
    }

    /// The tree that a main branch of level `n` becomes when the subtree
    /// `item` is pushed onto its right end.
    pub open spec fn pushed_right_main(self, item: Self, n: nat) -> Self
        decreases self,
    {
        if self.spec_len() + item.spec_len() <= spec_triple_size(n) {
            self.pushed_right_side(item)
        } else {
            match self {
                TernaryTree::Leaf(_) => self.pushed_right_side(item),
                TernaryTree::Branch2 { left, middle, .. } => if middle.spec_len()
                    + item.spec_len() > spec_triple_size(n) {
                    Self::node3(*left, *middle, item)
                } else {
                    Self::node2(*left, middle.pushed_right_side(item))
                },
                TernaryTree::Branch3 { left, middle, right, .. } => if right.spec_len()
                    + item.spec_len() > spec_triple_size((n - 1) as nat) {
                    Self::node3(*left, middle.pushed_right_main(*right, n + 1), item)
                } else {
                    Self::node3(*left, *middle, right.pushed_right_side(item))
                },
            }
        }
    }

    /// The tree that a main branch of level `n` becomes when the subtree
    /// `item` is pushed onto its left end.
    pub open spec fn pushed_left_main(self, item: Self, n: nat) -> Self
        decreases self,
    {
        if self.spec_len() + item.spec_len() <= spec_triple_size(n) {
            self.pushed_left_side(item)
        } else {
            match self {
                TernaryTree::Leaf(_) => self.pushed_left_side(item),
                TernaryTree::Branch2 { left, middle, .. } => if left.spec_len() + item.spec_len()
                    > spec_triple_size(n) {
                    Self::node3(item, *left, *middle)
                } else {
                    Self::node2(left.pushed_left_side(item), *middle)
                },
                TernaryTree::Branch3 { left, middle, right, .. } => if left.spec_len()
                    + item.spec_len() > spec_triple_size((n - 1) as nat) {
                    Self::node3(item, middle.pushed_left_main(*left, n + 1), *right)
                } else {
                    Self::node3(left.pushed_left_side(item), *middle, *right)
                },
            }
        }
    }

    /// A branch with the children of `first` in the first places and `last`
    /// behind them: a branch of two opens into the new branch, a branch of
    /// three keeps its last two children together, a leaf stays whole.
    pub open spec fn opened_before(first: Self, last: Self) -> Self {
        match first {
            TernaryTree::Branch2 { left, middle, .. } => Self::node3(*left, *middle, last),
            TernaryTree::Branch3 { left, middle, right, .. } => Self::node3(
                *left,
                Self::node2(*middle, *right),
                last,
            ),
            TernaryTree::Leaf(_) => Self::node2(first, last),
        }
    }

    /// A branch with `first` in the first place and the children of `last`
    /// behind it: a branch of two opens into the new branch, a branch of
    /// three keeps its first two children together, a leaf stays whole.
    pub open spec fn opened_after(first: Self, last: Self) -> Self {
        match last {
            TernaryTree::Branch2 { left, middle, .. } => Self::node3(first, *left, *middle),
            TernaryTree::Branch3 { left, middle, right, .. } => Self::node3(
                first,
                Self::node2(*left, *middle),
                *right,
            ),
            TernaryTree::Leaf(_) => Self::node2(first, last),
        }
    }

    /// The tree that [`Self::drop_left`] makes.
    pub open spec fn dropped_left(self) -> Self
        decreases self,
    {
        match self {
            TernaryTree::Leaf(_) => self,
            TernaryTree::Branch2 { left, middle, .. } => if left.spec_len() == 1 {
                *middle
            } else {
                Self::opened_before(left.dropped_left(), *middle)
            },
            TernaryTree::Branch3 { left, middle, right, .. } => if left.spec_len() == 1 {
                Self::opened_before(*middle, *right)
            } else {
                Self::node3(left.dropped_left(), *middle, *right)
            },
        }
    }

    /// The tree that [`Self::drop_right`] makes.
    pub open spec fn dropped_right(self) -> Self
        decreases self,
    {
        match self {
            TernaryTree::Leaf(_) => self,
            TernaryTree::Branch2 { left, middle, .. } => if middle.spec_len() == 1 {
                *left
            } else {
                Self::opened_after(*left, middle.dropped_right())
            },
            TernaryTree::Branch3 { left, middle, right, .. } => if right.spec_len() == 1 {
                Self::opened_after(*left, *middle)
            } else {
                Self::node3(*left, *middle, right.dropped_right())
            },
        }
    }
}

impl<T> TernaryTree<T> {
    /// Going down the left edge from the root, the first subtree that holds
    /// at most `bound` elements; the leftmost leaf if there is none before it.
    pub open spec fn left_piece(self, bound: nat) -> TernaryTree<T>
        decreases self,
    {
        match self {
            TernaryTree::Leaf(_) => self,
            TernaryTree::Branch2 { left, .. } => if self.spec_len() <= bound {
                self
            } else {
                left.left_piece(bound)
            },
            TernaryTree::Branch3 { left, .. } => if self.spec_len() <= bound {
                self
            } else {
                left.left_piece(bound)
            },
        }
    }

    /// Going down the right edge from the root, the first subtree that holds
    /// at most `bound` elements; the rightmost leaf if there is none before it.
    pub open spec fn right_piece(self, bound: nat) -> TernaryTree<T>
        decreases self,
    {
        match self {
            TernaryTree::Leaf(_) => self,
            TernaryTree::Branch2 { middle, .. } => if self.spec_len() <= bound {
                self
            } else {
                middle.right_piece(bound)
            },
            TernaryTree::Branch3 { right, .. } => if self.spec_len() <= bound {
                self
            } else {
                right.right_piece(bound)
            },
        }
    }

    /// What [`Self::split_left_some`] leaves of a tree after it has taken
    /// [`Self::left_piece`] off: nothing where that is the whole tree. The
    /// piece that has lost its first child gives its other children to the
    /// branch above it, or stays as the smaller branch where that branch is
    /// full; where the piece was a whole child, what follows it is split in
    /// turn, with a bound that is three times as large, to make a shallow
    /// left edge again.
    pub open spec fn left_rest(self, bound: nat) -> Option<Self>
        decreases self,
    {
        if self.spec_len() <= bound {
            None
        } else {
            match self {
                TernaryTree::Leaf(_) => None,
                TernaryTree::Branch2 { left, middle, .. } => if left.spec_len() <= bound {
                    match middle.left_rest(wider(bound)) {
                        Some(branch) => Some(
                            Self::node2(middle.left_piece(wider(bound)), branch),
                        ),
                        None => Some(*middle),
                    }
                } else {
                    match *left {
                        TernaryTree::Leaf(_) => None,
                        TernaryTree::Branch2 { left: left_child, middle: middle_child, .. } => {
                            match left_child.left_rest(bound) {
                                Some(branch) => Some(
                                    Self::node3(branch, *middle_child, *middle),
                                ),
                                None => Some(Self::node2(*middle_child, *middle)),
                            }
                        },
                        TernaryTree::Branch3 {
                            left: left_child,
                            middle: middle_child,
                            right: right_child,
                            ..
                        } => match left_child.left_rest(bound) {
                            Some(branch) => Some(
                                Self::node2(
                                    Self::node3(branch, *middle_child, *right_child),
                                    *middle,
                                ),
                            ),
                            None => Some(Self::node3(*middle_child, *right_child, *middle)),
                        },
                    }
                },
                TernaryTree::Branch3 { left, middle, right, .. } => if left.spec_len() <= bound {
                    match middle.left_rest(wider(bound)) {
                        Some(branch) => Some(
                            Self::node3(middle.left_piece(wider(bound)), branch, *right),
                        ),
                        None => Some(Self::node2(*middle, *right)),
                    }
                } else {
                    match *left {
                        TernaryTree::Leaf(_) => None,
                        TernaryTree::Branch2 { left: left_child, middle: middle_child, .. } => {
                            match left_child.left_rest(bound) {
                                Some(branch) => Some(
                                    Self::node3(
                                        Self::node2(branch, *middle_child),
                                        *middle,
                                        *right,
                                    ),
                                ),
                                None => Some(Self::node3(*middle_child, *middle, *right)),
                            }
                        },
                        TernaryTree::Branch3 {
                            left: left_child,
                            middle: middle_child,
                            right: right_child,
                            ..
                        } => match left_child.left_rest(bound) {
                            Some(branch) => Some(
                                Self::node3(
                                    Self::node3(branch, *middle_child, *right_child),
                                    *middle,
                                    *right,
                                ),
                            ),
                            None => Some(
                                Self::node3(
                                    Self::node2(*middle_child, *right_child),
                                    *middle,
                                    *right,
                                ),
                            ),
                        },
                    }
                },
            }
        }
    }

    /// What [`Self::split_right_some`] leaves of a tree after it has taken
    /// [`Self::right_piece`] off: the mirror image of [`Self::left_rest`].
    pub open spec fn right_rest(self, bound: nat) -> Option<Self>
        decreases self,
    {
        if self.spec_len() <= bound {
            None
        } else {
            match self {
                TernaryTree::Leaf(_) => None,
                TernaryTree::Branch2 { left, middle, .. } => if middle.spec_len() <= bound {
                    match left.right_rest(wider(bound)) {
                        Some(branch) => Some(
                            Self::node2(branch, left.right_piece(wider(bound))),
                        ),
                        None => Some(*left),
                    }
                } else {
                    match *middle {
                        TernaryTree::Leaf(_) => None,
                        TernaryTree::Branch2 { left: left_child, middle: middle_child, .. } => {
                            match middle_child.right_rest(bound) {
                                Some(branch) => Some(Self::node3(*left, *left_child, branch)),
                                None => Some(Self::node2(*left, *left_child)),
                            }
                        },
                        TernaryTree::Branch3 {
                            left: left_child,
                            middle: middle_child,
                            right: right_child,
                            ..
                        } => match right_child.right_rest(bound) {
                            Some(branch) => Some(
                                Self::node2(
                                    *left,
                                    Self::node3(*left_child, *middle_child, branch),
                                ),
                            ),
                            None => Some(Self::node3(*left, *left_child, *middle_child)),
                        },
                    }
                },
                TernaryTree::Branch3 { left, middle, right, .. } => if right.spec_len()
                    <= bound {
                    match middle.right_rest(wider(bound)) {
                        Some(branch) => Some(
                            Self::node3(*left, branch, middle.right_piece(wider(bound))),
                        ),
                        None => Some(Self::node2(*left, *middle)),
                    }
                } else {
                    match *right {
                        TernaryTree::Leaf(_) => None,
                        TernaryTree::Branch2 { left: left_child, middle: middle_child, .. } => {
                            match middle_child.right_rest(bound) {
                                Some(branch) => Some(
                                    Self::node3(
                                        *left,
                                        *middle,
                                        Self::node2(*left_child, branch),
                                    ),
                                ),
                                None => Some(Self::node3(*left, *middle, *left_child)),
                            }
                        },
                        TernaryTree::Branch3 {
                            left: left_child,
                            middle: middle_child,
                            right: right_child,
                            ..
                        } => match right_child.right_rest(bound) {
                            Some(branch) => Some(
                                Self::node3(
                                    *left,
                                    *middle,
                                    Self::node3(*left_child, *middle_child, branch),
                                ),
                            ),
                            None => Some(
                                Self::node3(
                                    *left,
                                    *middle,
                                    Self::node2(*left_child, *middle_child),
                                ),
                            ),
                        },
                    }
                },
            }
        }
    }

    /// The bunch that is split off the left end of a well-formed tree and
    /// what is left are well-formed; the bunch holds at most `bound`
    /// elements, and the two hold the elements of the tree in order. Nothing
    /// is left where the tree itself is small enough.
    pub proof fn lemma_left_split(&self, bound: nat)
        requires
            self.wf(),
            bound >= 1,
        ensures
            self.left_piece(bound).wf(),
            self.left_piece(bound).spec_len() <= bound,
            match self.left_rest(bound) {
                None => self.spec_len() <= bound && self.left_piece(bound) == *self,
                Some(rest) => {
                    &&& self.spec_len() > bound
                    &&& rest.wf()
                    &&& self.left_piece(bound)@ + rest@ == self@
                },
            },
        decreases self,
    {
        self.lemma_parts();
        self.lemma_wf_len();
        if self.spec_len() > bound {
            match self {
                TernaryTree::Leaf(_) => {},
                TernaryTree::Branch2 { left, middle, .. } => {
                    let left = Self::under(*left);
                    let middle = Self::under(*middle);
                    left.lemma_parts();
                    left.lemma_wf_len();
                    if left.spec_len() <= bound {
                        assert(left.left_piece(bound) == left);
                        middle.lemma_left_split(wider(bound));
                        let bunch = middle.left_piece(wider(bound));
                        match middle.left_rest(wider(bound)) {
                            Some(branch) => {
                                bunch.lemma_wf_len();
                                branch.lemma_wf_len();
                                Self::lemma_node2(&bunch, &branch);
                            },
                            None => {},
                        }
                    } else {
                        match left {
                            TernaryTree::Leaf(_) => {},
                            TernaryTree::Branch2 { left: left_child, middle: middle_child, .. } => {
                                let left_child = Self::under(left_child);
                                let middle_child = Self::under(middle_child);
                                left_child.lemma_left_split(bound);
                                let bunch = left_child.left_piece(bound);
                                assert(left.left_piece(bound) == bunch);
                                bunch.lemma_wf_len();
                                match left_child.left_rest(bound) {
                                    Some(branch) => {
                                        branch.lemma_wf_len();
                                        Self::lemma_node3(&branch, &middle_child, &middle);
                                        lemma_regroup(bunch@, branch@ + middle_child@, middle@);
                                        lemma_regroup(bunch@, branch@, middle_child@);
                                    },
                                    None => {
                                        Self::lemma_node2(&middle_child, &middle);
                                        lemma_regroup(left_child@, middle_child@, middle@);
                                    },
                                }
                            },
                            TernaryTree::Branch3 {
                                left: left_child,
                                middle: middle_child,
                                right: right_child,
                                ..
                            } => {
                                let left_child = Self::under(left_child);
                                let middle_child = Self::under(middle_child);
                                let right_child = Self::under(right_child);
                                left_child.lemma_left_split(bound);
                                let bunch = left_child.left_piece(bound);
                                assert(left.left_piece(bound) == bunch);
                                bunch.lemma_wf_len();
                                match left_child.left_rest(bound) {
                                    Some(branch) => {
                                        branch.lemma_wf_len();
                                        Self::lemma_node3(&branch, &middle_child, &right_child);
                                        Self::lemma_node2(
                                            &Self::node3(branch, middle_child, right_child),
                                            &middle,
                                        );
                                        lemma_regroup(
                                            bunch@,
                                            branch@ + middle_child@ + right_child@,
                                            middle@,
                                        );
                                        lemma_regroup(
                                            bunch@,
                                            branch@ + middle_child@,
                                            right_child@,
                                        );
                                        lemma_regroup(bunch@, branch@, middle_child@);
                                    },
                                    None => {
                                        Self::lemma_node3(&middle_child, &right_child, &middle);
                                        lemma_regroup(
                                            left_child@,
                                            middle_child@ + right_child@,
                                            middle@,
                                        );
                                        lemma_regroup(left_child@, middle_child@, right_child@);
                                    },
                                }
                            },
                        }
                    }
                },
                TernaryTree::Branch3 { left, middle, right, .. } => {
                    let left = Self::under(*left);
                    let middle = Self::under(*middle);
                    let right = Self::under(*right);
                    left.lemma_parts();
                    left.lemma_wf_len();
                    if left.spec_len() <= bound {
                        assert(left.left_piece(bound) == left);
                        middle.lemma_left_split(wider(bound));
                        let bunch = middle.left_piece(wider(bound));
                        match middle.left_rest(wider(bound)) {
                            Some(branch) => {
                                bunch.lemma_wf_len();
                                branch.lemma_wf_len();
                                Self::lemma_node3(&bunch, &branch, &right);
                                lemma_regroup(left@, middle@, right@);
                            },
                            None => {
                                Self::lemma_node2(&middle, &right);
                                lemma_regroup(left@, middle@, right@);
                            },
                        }
                    } else {
                        match left {
                            TernaryTree::Leaf(_) => {},
                            TernaryTree::Branch2 { left: left_child, middle: middle_child, .. } => {
                                let left_child = Self::under(left_child);
                                let middle_child = Self::under(middle_child);
                                left_child.lemma_left_split(bound);
                                let bunch = left_child.left_piece(bound);
                                assert(left.left_piece(bound) == bunch);
                                bunch.lemma_wf_len();
                                match left_child.left_rest(bound) {
                                    Some(branch) => {
                                        branch.lemma_wf_len();
                                        Self::lemma_node2(&branch, &middle_child);
                                        Self::lemma_node3(
                                            &Self::node2(branch, middle_child),
                                            &middle,
                                            &right,
                                        );
                                        lemma_regroup(
                                            bunch@,
                                            branch@ + middle_child@ + middle@,
                                            right@,
                                        );
                                        lemma_regroup(bunch@, branch@ + middle_child@, middle@);
                                        lemma_regroup(bunch@, branch@, middle_child@);
                                    },
                                    None => {
                                        Self::lemma_node3(&middle_child, &middle, &right);
                                        lemma_regroup(left_child@, middle_child@ + middle@, right@);
                                        lemma_regroup(left_child@, middle_child@, middle@);
                                    },
                                }
                            },
                            TernaryTree::Branch3 {
                                left: left_child,
                                middle: middle_child,
                                right: right_child,
                                ..
                            } => {
                                let left_child = Self::under(left_child);
                                let middle_child = Self::under(middle_child);
                                let right_child = Self::under(right_child);
                                left_child.lemma_left_split(bound);
                                let bunch = left_child.left_piece(bound);
                                assert(left.left_piece(bound) == bunch);
                                bunch.lemma_wf_len();
                                match left_child.left_rest(bound) {
                                    Some(branch) => {
                                        branch.lemma_wf_len();
                                        Self::lemma_node3(&branch, &middle_child, &right_child);
                                        Self::lemma_node3(
                                            &Self::node3(branch, middle_child, right_child),
                                            &middle,
                                            &right,
                                        );
                                        lemma_regroup(
                                            bunch@,
                                            branch@ + middle_child@ + right_child@ + middle@,
                                            right@,
                                        );
                                        lemma_regroup(
                                            bunch@,
                                            branch@ + middle_child@ + right_child@,
                                            middle@,
                                        );
                                        lemma_regroup(
                                            bunch@,
                                            branch@ + middle_child@,
                                            right_child@,
                                        );
                                        lemma_regroup(bunch@, branch@, middle_child@);
                                    },
                                    None => {
                                        Self::lemma_node2(&middle_child, &right_child);
                                        Self::lemma_node3(
                                            &Self::node2(middle_child, right_child),
                                            &middle,
                                            &right,
                                        );
                                        lemma_regroup(
                                            left_child@,
                                            middle_child@ + right_child@ + middle@,
                                            right@,
                                        );
                                        lemma_regroup(
                                            left_child@,
                                            middle_child@ + right_child@,
                                            middle@,
                                        );
                                        lemma_regroup(left_child@, middle_child@, right_child@);
                                    },
                                }
                            },
                        }
                    }
                },
            }
        }
    }

    /// The bunch that is split off the right end of a well-formed tree and
    /// what is left are well-formed; the bunch holds at most `bound`
    /// elements, and the two hold the elements of the tree in order. Nothing
    /// is left where the tree itself is small enough.
    pub proof fn lemma_right_split(&self, bound: nat)
        requires
            self.wf(),
            bound >= 1,
        ensures
            self.right_piece(bound).wf(),
            self.right_piece(bound).spec_len() <= bound,
            match self.right_rest(bound) {
                None => self.spec_len() <= bound && self.right_piece(bound) == *self,
                Some(rest) => {
                    &&& self.spec_len() > bound
                    &&& rest.wf()
                    &&& rest@ + self.right_piece(bound)@ == self@
                },
            },
        decreases self,
    {
        self.lemma_parts();
        self.lemma_wf_len();
        if self.spec_len() > bound {
            match self {
                TernaryTree::Leaf(_) => {},
                TernaryTree::Branch2 { left, middle, .. } => {
                    let left = Self::under(*left);
                    let middle = Self::under(*middle);
                    middle.lemma_parts();
                    middle.lemma_wf_len();
                    if middle.spec_len() <= bound {
                        assert(middle.right_piece(bound) == middle);
                        left.lemma_right_split(wider(bound));
                        let bunch = left.right_piece(wider(bound));
                        match left.right_rest(wider(bound)) {
                            Some(branch) => {
                                bunch.lemma_wf_len();
                                branch.lemma_wf_len();
                                Self::lemma_node2(&branch, &bunch);
                            },
                            None => {},
                        }
                    } else {
                        match middle {
                            TernaryTree::Leaf(_) => {},
                            TernaryTree::Branch2 { left: left_child, middle: middle_child, .. } => {
                                let left_child = Self::under(left_child);
                                let middle_child = Self::under(middle_child);
                                middle_child.lemma_right_split(bound);
                                let bunch = middle_child.right_piece(bound);
                                assert(middle.right_piece(bound) == bunch);
                                bunch.lemma_wf_len();
                                match middle_child.right_rest(bound) {
                                    Some(branch) => {
                                        branch.lemma_wf_len();
                                        Self::lemma_node3(&left, &left_child, &branch);
                                        lemma_regroup(left@ + left_child@, branch@, bunch@);
                                        lemma_regroup(left@, left_child@, branch@ + bunch@);
                                    },
                                    None => {
                                        Self::lemma_node2(&left, &left_child);
                                        lemma_regroup(left@, left_child@, middle_child@);
                                    },
                                }
                            },
                            TernaryTree::Branch3 {
                                left: left_child,
                                middle: middle_child,
                                right: right_child,
                                ..
                            } => {
                                let left_child = Self::under(left_child);
                                let middle_child = Self::under(middle_child);
                                let right_child = Self::under(right_child);
                                right_child.lemma_right_split(bound);
                                let bunch = right_child.right_piece(bound);
                                assert(middle.right_piece(bound) == bunch);
                                bunch.lemma_wf_len();
                                match right_child.right_rest(bound) {
                                    Some(branch) => {
                                        branch.lemma_wf_len();
                                        Self::lemma_node3(&left_child, &middle_child, &branch);
                                        Self::lemma_node2(
                                            &left,
                                            &Self::node3(left_child, middle_child, branch),
                                        );
                                        lemma_regroup(
                                            left@,
                                            left_child@ + middle_child@ + branch@,
                                            bunch@,
                                        );
                                        lemma_regroup(left_child@ + middle_child@, branch@, bunch@);
                                    },
                                    None => {
                                        Self::lemma_node3(&left, &left_child, &middle_child);
                                        lemma_regroup(left@, left_child@, middle_child@);
                                        lemma_regroup(
                                            left@,
                                            left_child@ + middle_child@,
                                            right_child@,
                                        );
                                    },
                                }
                            },
                        }
                    }
                },
                TernaryTree::Branch3 { left, middle, right, .. } => {
                    let left = Self::under(*left);
                    let middle = Self::under(*middle);
                    let right = Self::under(*right);
                    right.lemma_parts();
                    right.lemma_wf_len();
                    if right.spec_len() <= bound {
                        assert(right.right_piece(bound) == right);
                        middle.lemma_right_split(wider(bound));
                        let bunch = middle.right_piece(wider(bound));
                        match middle.right_rest(wider(bound)) {
                            Some(branch) => {
                                bunch.lemma_wf_len();
                                branch.lemma_wf_len();
                                Self::lemma_node3(&left, &branch, &bunch);
                                lemma_regroup(left@, branch@, bunch@);
                            },
                            None => {
                                Self::lemma_node2(&left, &middle);
                            },
                        }
                    } else {
                        match right {
                            TernaryTree::Leaf(_) => {},
                            TernaryTree::Branch2 { left: left_child, middle: middle_child, .. } => {
                                let left_child = Self::under(left_child);
                                let middle_child = Self::under(middle_child);
                                middle_child.lemma_right_split(bound);
                                let bunch = middle_child.right_piece(bound);
                                assert(right.right_piece(bound) == bunch);
                                bunch.lemma_wf_len();
                                match middle_child.right_rest(bound) {
                                    Some(branch) => {
                                        branch.lemma_wf_len();
                                        Self::lemma_node2(&left_child, &branch);
                                        Self::lemma_node3(
                                            &left,
                                            &middle,
                                            &Self::node2(left_child, branch),
                                        );
                                        lemma_regroup(
                                            left@ + middle@,
                                            left_child@ + branch@,
                                            bunch@,
                                        );
                                        lemma_regroup(left_child@, branch@, bunch@);
                                    },
                                    None => {
                                        Self::lemma_node3(&left, &middle, &left_child);
                                        lemma_regroup(left@ + middle@, left_child@, middle_child@);
                                    },
                                }
                            },
                            TernaryTree::Branch3 {
                                left: left_child,
                                middle: middle_child,
                                right: right_child,
                                ..
                            } => {
                                let left_child = Self::under(left_child);
                                let middle_child = Self::under(middle_child);
                                let right_child = Self::under(right_child);
                                right_child.lemma_right_split(bound);
                                let bunch = right_child.right_piece(bound);
                                assert(right.right_piece(bound) == bunch);
                                bunch.lemma_wf_len();
                                match right_child.right_rest(bound) {
                                    Some(branch) => {
                                        branch.lemma_wf_len();
                                        Self::lemma_node3(&left_child, &middle_child, &branch);
                                        Self::lemma_node3(
                                            &left,
                                            &middle,
                                            &Self::node3(left_child, middle_child, branch),
                                        );
                                        lemma_regroup(
                                            left@ + middle@,
                                            left_child@ + middle_child@ + branch@,
                                            bunch@,
                                        );
                                        lemma_regroup(left_child@ + middle_child@, branch@, bunch@);
                                    },
                                    None => {
                                        Self::lemma_node2(&left_child, &middle_child);
                                        Self::lemma_node3(
                                            &left,
                                            &middle,
                                            &Self::node2(left_child, middle_child),
                                        );
                                        lemma_regroup(
                                            left@ + middle@,
                                            left_child@ + middle_child@,
                                            right_child@,
                                        );
                                    },
                                }
                            },
                        }
                    }
                },
            }
        }
    }

    /// Splits a bunch of at most `bound` elements off the left end: the first
    /// subtree down the left edge that is small enough. The second part is
    /// what remains, relinked so that its own left edge stays shallow; it is
    /// `None` when the bunch is the whole tree. Callers pass 1, 3, 9, ... as
    /// `bound`; one level further in, the bound is three times as large.
    pub fn split_left_some(&self, bound: usize) -> (parts: (Self, Option<Self>))
        requires
            self.wf(),
            bound >= 1,
        ensures
            parts.0 == self.left_piece(bound as nat),
            parts.1 == self.left_rest(bound as nat),
            parts.0.wf(),
            parts.0.spec_len() <= bound,
            match parts.1 {
                None => self.spec_len() <= bound && parts.0 == *self,
                Some(rest) => {
                    &&& self.spec_len() > bound
                    &&& rest.wf()
                    &&& parts.0@ + rest@ == self@
                },
            },
        decreases self,
    {
        proof {
            self.lemma_parts();
            self.lemma_wf_len();
            self.lemma_left_split(bound as nat);
        }
        if self.len() <= bound {
            return (self.duplicate(), None);
        }
        match self {
            TernaryTree::Leaf(_) => (self.duplicate(), None),
            TernaryTree::Branch2 { left, middle, .. } => {
                proof {
                    left.lemma_parts();
                }
                if left.len() <= bound {
                    assert(left.left_piece(bound as nat) == **left);
                    let (next_left_branch, rest_part) = middle.split_left_some(widen_bound(bound));
                    match rest_part {
                        Some(branch) => {
                            proof {
                                next_left_branch.lemma_wf_len();
                                branch.lemma_wf_len();
                            }
                            (
                                left.duplicate(),
                                Some(Self::branch2(Arc::new(next_left_branch), Arc::new(branch))),
                            )
                        },
                        None => (left.duplicate(), Some(middle.duplicate())),
                    }
                } else {
                    match &**left {
                        TernaryTree::Leaf(_) => vstd::pervasive::unreached(),
                        TernaryTree::Branch2 { left: left_child, middle: middle_child, .. } => {
                            let (small_bunch, rest_node) = left_child.split_left_some(bound);
                            assert(left.left_piece(bound as nat) == small_bunch);
                            match rest_node {
                                Some(branch) => {
                                    proof {
                                        branch.lemma_wf_len();
                                    }
                                    (
                                        small_bunch,
                                        Some(
                                            Self::branch3(
                                                Arc::new(branch),
                                                share(middle_child),
                                                share(middle),
                                            ),
                                        ),
                                    )
                                },
                                None => {
                                    (
                                        small_bunch,
                                        Some(Self::branch2(share(middle_child), share(middle))),
                                    )
                                },
                            }
                        },
                        TernaryTree::Branch3 {
                            left: left_child,
                            middle: middle_child,
                            right: right_child,
                            ..
                        } => {
                            let (small_bunch, rest_node) = left_child.split_left_some(bound);
                            assert(left.left_piece(bound as nat) == small_bunch);
                            match rest_node {
                                Some(branch) => {
                                    proof {
                                        branch.lemma_wf_len();
                                    }
                                    let inner = Self::branch3(
                                        Arc::new(branch),
                                        share(middle_child),
                                        share(right_child),
                                    );
                                    (
                                        small_bunch,
                                        Some(Self::branch2(Arc::new(inner), share(middle))),
                                    )
                                },
                                None => {
                                    (
                                        small_bunch,
                                        Some(
                                            Self::branch3(
                                                share(middle_child),
                                                share(right_child),
                                                share(middle),
                                            ),
                                        ),
                                    )
                                },
                            }
                        },
                    }
                }
            },
            TernaryTree::Branch3 { left, middle, right, .. } => {
                proof {
                    left.lemma_parts();
                }
                if left.len() <= bound {
                    assert(left.left_piece(bound as nat) == **left);
                    let (next_left_branch, rest_part) = middle.split_left_some(widen_bound(bound));
                    match rest_part {
                        Some(branch) => {
                            proof {
                                next_left_branch.lemma_wf_len();
                                branch.lemma_wf_len();
                            }
                            (
                                left.duplicate(),
                                Some(
                                    Self::branch3(
                                        Arc::new(next_left_branch),
                                        Arc::new(branch),
                                        share(right),
                                    ),
                                ),
                            )
                        },
                        None => (
                            left.duplicate(),
                            Some(Self::branch2(share(middle), share(right))),
                        ),
                    }
                } else {
                    match &**left {
                        TernaryTree::Leaf(_) => vstd::pervasive::unreached(),
                        TernaryTree::Branch2 { left: left_child, middle: middle_child, .. } => {
                            let (small_bunch, rest_node) = left_child.split_left_some(bound);
                            assert(left.left_piece(bound as nat) == small_bunch);
                            match rest_node {
                                Some(branch) => {
                                    proof {
                                        branch.lemma_wf_len();
                                    }
                                    let inner = Self::branch2(
                                        Arc::new(branch),
                                        share(middle_child),
                                    );
                                    (
                                        small_bunch,
                                        Some(
                                            Self::branch3(
                                                Arc::new(inner),
                                                share(middle),
                                                share(right),
                                            ),
                                        ),
                                    )
                                },
                                None => {
                                    (
                                        small_bunch,
                                        Some(
                                            Self::branch3(
                                                share(middle_child),
                                                share(middle),
                                                share(right),
                                            ),
                                        ),
                                    )
                                },
                            }
                        },
                        TernaryTree::Branch3 {
                            left: left_child,
                            middle: middle_child,
                            right: right_child,
                            ..
                        } => {
                            let (small_bunch, rest_node) = left_child.split_left_some(bound);
                            assert(left.left_piece(bound as nat) == small_bunch);
                            match rest_node {
                                Some(branch) => {
                                    proof {
                                        branch.lemma_wf_len();
                                    }
                                    let inner = Self::branch3(
                                        Arc::new(branch),
                                        share(middle_child),
                                        share(right_child),
                                    );
                                    (
                                        small_bunch,
                                        Some(
                                            Self::branch3(
                                                Arc::new(inner),
                                                share(middle),
                                                share(right),
                                            ),
                                        ),
                                    )
                                },
                                None => {
                                    let inner = Self::branch2(
                                        share(middle_child),
                                        share(right_child),
                                    );
                                    (
                                        small_bunch,
                                        Some(
                                            Self::branch3(
                                                Arc::new(inner),
                                                share(middle),
                                                share(right),
                                            ),
                                        ),
                                    )
                                },
                            }
                        },
                    }
                }
            },
        }
    }

    /// Splits a bunch of at most `bound` elements off the right end: the
    /// first subtree down the right edge that is small enough. The first part
    /// is what remains, relinked so that its own right edge stays shallow; it
    /// is `None` when the bunch is the whole tree. Callers pass 1, 3, 9, ...
    /// as `bound`; one level further in, the bound is three times as large.
    pub fn split_right_some(&self, bound: usize) -> (parts: (Option<Self>, Self))
        requires
            self.wf(),
            bound >= 1,
        ensures
            parts.1 == self.right_piece(bound as nat),
            parts.0 == self.right_rest(bound as nat),
            parts.1.wf(),
            parts.1.spec_len() <= bound,
            match parts.0 {
                None => self.spec_len() <= bound && parts.1 == *self,
                Some(rest) => {
                    &&& self.spec_len() > bound
                    &&& rest.wf()
                    &&& rest@ + parts.1@ == self@
                },
            },
        decreases self,
    {
        proof {
            self.lemma_parts();
            self.lemma_wf_len();
            self.lemma_right_split(bound as nat);
        }
        if self.len() <= bound {
            return (None, self.duplicate());
        }
        match self {
            TernaryTree::Leaf(_) => (None, self.duplicate()),
            TernaryTree::Branch2 { left, middle, .. } => {
                proof {
                    middle.lemma_parts();
                }
                if middle.len() <= bound {
                    assert(middle.right_piece(bound as nat) == **middle);
                    let (rest_part, next_right_branch) = left.split_right_some(widen_bound(bound));
                    match rest_part {
                        Some(branch) => {
                            proof {
                                next_right_branch.lemma_wf_len();
                                branch.lemma_wf_len();
                            }
                            (
                                Some(Self::branch2(Arc::new(branch), Arc::new(next_right_branch))),
                                middle.duplicate(),
                            )
                        },
                        None => (Some(left.duplicate()), middle.duplicate()),
                    }
                } else {
                    match &**middle {
                        TernaryTree::Leaf(_) => vstd::pervasive::unreached(),
                        TernaryTree::Branch2 { left: left_child, middle: middle_child, .. } => {
                            let (rest_node, small_bunch) = middle_child.split_right_some(bound);
                            assert(middle.right_piece(bound as nat) == small_bunch);
                            match rest_node {
                                Some(branch) => {
                                    proof {
                                        branch.lemma_wf_len();
                                    }
                                    (
                                        Some(
                                            Self::branch3(
                                                share(left),
                                                share(left_child),
                                                Arc::new(branch),
                                            ),
                                        ),
                                        small_bunch,
                                    )
                                },
                                None => {
                                    (
                                        Some(Self::branch2(share(left), share(left_child))),
                                        small_bunch,
                                    )
                                },
                            }
                        },
                        TernaryTree::Branch3 {
                            left: left_child,
                            middle: middle_child,
                            right: right_child,
                            ..
                        } => {
                            let (rest_node, small_bunch) = right_child.split_right_some(bound);
                            assert(middle.right_piece(bound as nat) == small_bunch);
                            match rest_node {
                                Some(branch) => {
                                    proof {
                                        branch.lemma_wf_len();
                                    }
                                    let inner = Self::branch3(
                                        share(left_child),
                                        share(middle_child),
                                        Arc::new(branch),
                                    );
                                    (
                                        Some(Self::branch2(share(left), Arc::new(inner))),
                                        small_bunch,
                                    )
                                },
                                None => {
                                    (
                                        Some(
                                            Self::branch3(
                                                share(left),
                                                share(left_child),
                                                share(middle_child),
                                            ),
                                        ),
                                        small_bunch,
                                    )
                                },
                            }
                        },
                    }
                }
            },
            TernaryTree::Branch3 { left, middle, right, .. } => {
                proof {
                    right.lemma_parts();
                }
                if right.len() <= bound {
                    assert(right.right_piece(bound as nat) == **right);
                    let (rest_part, next_right_branch) = middle.split_right_some(
                        widen_bound(bound),
                    );
                    match rest_part {
                        Some(branch) => {
                            proof {
                                next_right_branch.lemma_wf_len();
                                branch.lemma_wf_len();
                            }
                            (
                                Some(
                                    Self::branch3(
                                        share(left),
                                        Arc::new(branch),
                                        Arc::new(next_right_branch),
                                    ),
                                ),
                                right.duplicate(),
                            )
                        },
                        None => (
                            Some(Self::branch2(share(left), share(middle))),
                            right.duplicate(),
                        ),
                    }
                } else {
                    match &**right {
                        TernaryTree::Leaf(_) => vstd::pervasive::unreached(),
                        TernaryTree::Branch2 { left: left_child, middle: middle_child, .. } => {
                            let (rest_node, small_bunch) = middle_child.split_right_some(bound);
                            assert(right.right_piece(bound as nat) == small_bunch);
                            match rest_node {
                                Some(branch) => {
                                    proof {
                                        branch.lemma_wf_len();
                                    }
                                    let inner = Self::branch2(
                                        share(left_child),
                                        Arc::new(branch),
                                    );
                                    (
                                        Some(
                                            Self::branch3(
                                                share(left),
                                                share(middle),
                                                Arc::new(inner),
                                            ),
                                        ),
                                        small_bunch,
                                    )
                                },
                                None => {
                                    (
                                        Some(
                                            Self::branch3(
                                                share(left),
                                                share(middle),
                                                share(left_child),
                                            ),
                                        ),
                                        small_bunch,
                                    )
                                },
                            }
                        },
                        TernaryTree::Branch3 {
                            left: left_child,
                            middle: middle_child,
                            right: right_child,
                            ..
                        } => {
                            let (rest_node, small_bunch) = right_child.split_right_some(bound);
                            assert(right.right_piece(bound as nat) == small_bunch);
                            match rest_node {
                                Some(branch) => {
                                    proof {
                                        branch.lemma_wf_len();
                                    }
                                    let inner = Self::branch3(
                                        share(left_child),
                                        share(middle_child),
                                        Arc::new(branch),
                                    );
                                    (
                                        Some(
                                            Self::branch3(
                                                share(left),
                                                share(middle),
                                                Arc::new(inner),
                                            ),
                                        ),
                                        small_bunch,
                                    )
                                },
                                None => {
                                    let inner = Self::branch2(
                                        share(left_child),
                                        share(middle_child),
                                    );
                                    (
                                        Some(
                                            Self::branch3(
                                                share(left),
                                                share(middle),
                                                Arc::new(inner),
                                            ),
                                        ),
                                        small_bunch,
                                    )
                                },
                            }
                        },
                    }
                }
            },
        }
    }

    /// Pushing a subtree onto the right end of a side branch keeps the tree
    /// well-formed and puts the elements of the subtree behind its own.
    pub proof fn lemma_pushed_right_side(&self, item: &Self)
        requires
            self.wf(),
            item.wf(),
            self.spec_len() + item.spec_len() <= usize::MAX,
        ensures
            self.pushed_right_side(*item).wf(),
            self.pushed_right_side(*item)@ == self@ + item@,
        decreases self,
    {
        self.lemma_parts();
        self.lemma_wf_len();
        item.lemma_wf_len();
        match self {
            TernaryTree::Leaf(_) => {
                Self::lemma_node2(self, item);
            },
            TernaryTree::Branch2 { left, middle, .. } => {
                let left = Self::under(*left);
                let middle = Self::under(*middle);
                if middle.spec_len() + item.spec_len() > left.spec_len() {
                    Self::lemma_node3(&left, &middle, item);
                } else {
                    middle.lemma_pushed_right_side(item);
                    let changed = middle.pushed_right_side(*item);
                    changed.lemma_wf_len();
                    Self::lemma_node2(&left, &changed);
                    lemma_regroup(left@, middle@, item@);
                }
            },
            TernaryTree::Branch3 { left, middle, right, .. } => {
                let left = Self::under(*left);
                let middle = Self::under(*middle);
                let right = Self::under(*right);
                if right.spec_len() + item.spec_len() > middle.spec_len() {
                    Self::lemma_node2(self, item);
                } else {
                    right.lemma_pushed_right_side(item);
                    let changed = right.pushed_right_side(*item);
                    changed.lemma_wf_len();
                    Self::lemma_node3(&left, &middle, &changed);
                    lemma_regroup(left@ + middle@, right@, item@);
                }
            },
        }
    }

    /// Pushing a subtree onto the left end of a side branch keeps the tree
    /// well-formed and puts the elements of the subtree before its own.
    pub proof fn lemma_pushed_left_side(&self, item: &Self)
        requires
            self.wf(),
            item.wf(),
            self.spec_len() + item.spec_len() <= usize::MAX,
        ensures
            self.pushed_left_side(*item).wf(),
            self.pushed_left_side(*item)@ == item@ + self@,
        decreases self,
    {
        self.lemma_parts();
        self.lemma_wf_len();
        item.lemma_wf_len();
        match self {
            TernaryTree::Leaf(_) => {
                Self::lemma_node2(item, self);
            },
            TernaryTree::Branch2 { left, middle, .. } => {
                let left = Self::under(*left);
                let middle = Self::under(*middle);
                if left.spec_len() + item.spec_len() > middle.spec_len() {
                    Self::lemma_node3(item, &left, &middle);
                    lemma_regroup(item@, left@, middle@);
                } else {
                    left.lemma_pushed_left_side(item);
                    let changed = left.pushed_left_side(*item);
                    changed.lemma_wf_len();
                    Self::lemma_node2(&changed, &middle);
                    lemma_regroup(item@, left@, middle@);
                }
            },
            TernaryTree::Branch3 { left, middle, right, .. } => {
                let left = Self::under(*left);
                let middle = Self::under(*middle);
                let right = Self::under(*right);
                if left.spec_len() + item.spec_len() > middle.spec_len() {
                    Self::lemma_node2(item, self);
                } else {
                    left.lemma_pushed_left_side(item);
                    let changed = left.pushed_left_side(*item);
                    changed.lemma_wf_len();
                    Self::lemma_node3(&changed, &middle, &right);
                    lemma_regroup(item@, left@, middle@);
                    lemma_regroup(item@, left@ + middle@, right@);
                }
            },
        }
    }

    /// Pushing a subtree onto the right end of a main branch keeps the tree
    /// well-formed and puts the elements of the subtree behind its own.
    pub proof fn lemma_pushed_right_main(&self, item: &Self, n: nat)
        requires
            self.wf(),
            item.wf(),
            self.spec_len() + item.spec_len() <= usize::MAX,
        ensures
            self.pushed_right_main(*item, n).wf(),
            self.pushed_right_main(*item, n)@ == self@ + item@,
        decreases self,
    {
        self.lemma_parts();
        self.lemma_wf_len();
        item.lemma_wf_len();
        self.lemma_pushed_right_side(item);
        if self.spec_len() + item.spec_len() > spec_triple_size(n) {
            match self {
                TernaryTree::Leaf(_) => {},
                TernaryTree::Branch2 { left, middle, .. } => {
                    let left = Self::under(*left);
                    let middle = Self::under(*middle);
                    if middle.spec_len() + item.spec_len() > spec_triple_size(n) {
                        Self::lemma_node3(&left, &middle, item);
                    } else {
                        middle.lemma_pushed_right_side(item);
                        let changed = middle.pushed_right_side(*item);
                        changed.lemma_wf_len();
                        Self::lemma_node2(&left, &changed);
                        lemma_regroup(left@, middle@, item@);
                    }
                },
                TernaryTree::Branch3 { left, middle, right, .. } => {
                    let left = Self::under(*left);
                    let middle = Self::under(*middle);
                    let right = Self::under(*right);
                    if right.spec_len() + item.spec_len() > spec_triple_size((n - 1) as nat) {
                        middle.lemma_pushed_right_main(&right, n + 1);
                        let changed = middle.pushed_right_main(right, n + 1);
                        changed.lemma_wf_len();
                        Self::lemma_node3(&left, &changed, item);
                        lemma_regroup(left@, middle@, right@);
                    } else {
                        right.lemma_pushed_right_side(item);
                        let changed = right.pushed_right_side(*item);
                        changed.lemma_wf_len();
                        Self::lemma_node3(&left, &middle, &changed);
                        lemma_regroup(left@ + middle@, right@, item@);
                    }
                },
            }
        }
    }

    /// Pushing a subtree onto the left end of a main branch keeps the tree
    /// well-formed and puts the elements of the subtree before its own.
    pub proof fn lemma_pushed_left_main(&self, item: &Self, n: nat)
        requires
            self.wf(),
            item.wf(),
            self.spec_len() + item.spec_len() <= usize::MAX,
        ensures
            self.pushed_left_main(*item, n).wf(),
            self.pushed_left_main(*item, n)@ == item@ + self@,
        decreases self,
    {
        self.lemma_parts();
        self.lemma_wf_len();
        item.lemma_wf_len();
        self.lemma_pushed_left_side(item);
        if self.spec_len() + item.spec_len() > spec_triple_size(n) {
            match self {
                TernaryTree::Leaf(_) => {},
                TernaryTree::Branch2 { left, middle, .. } => {
                    let left = Self::under(*left);
                    let middle = Self::under(*middle);
                    if left.spec_len() + item.spec_len() > spec_triple_size(n) {
                        Self::lemma_node3(item, &left, &middle);
                        lemma_regroup(item@, left@, middle@);
                    } else {
                        left.lemma_pushed_left_side(item);
                        let changed = left.pushed_left_side(*item);
                        changed.lemma_wf_len();
                        Self::lemma_node2(&changed, &middle);
                        lemma_regroup(item@, left@, middle@);
                    }
                },
                TernaryTree::Branch3 { left, middle, right, .. } => {
                    let left = Self::under(*left);
                    let middle = Self::under(*middle);
                    let right = Self::under(*right);
                    if left.spec_len() + item.spec_len() > spec_triple_size((n - 1) as nat) {
                        middle.lemma_pushed_left_main(&left, n + 1);
                        let changed = middle.pushed_left_main(left, n + 1);
                        changed.lemma_wf_len();
                        Self::lemma_node3(item, &changed, &right);
                        lemma_regroup(item@, left@, middle@);
                        lemma_regroup(item@, left@ + middle@, right@);
                    } else {
                        left.lemma_pushed_left_side(item);
                        let changed = left.pushed_left_side(*item);
                        changed.lemma_wf_len();
                        Self::lemma_node3(&changed, &middle, &right);
                        lemma_regroup(item@, left@, middle@);
                        lemma_regroup(item@, left@ + middle@, right@);
                    }
                },
            }
        }
    }

    /// A branch opened before a last child is well-formed and holds the
    /// elements of the opened tree followed by those of the last child.
    pub proof fn lemma_opened_before(first: &Self, last: &Self)
        requires
            first.wf(),
            last.wf(),
            first.spec_len() + last.spec_len() <= usize::MAX,
        ensures
            Self::opened_before(*first, *last).wf(),
            Self::opened_before(*first, *last)@ == first@ + last@,
    {
        first.lemma_parts();
        first.lemma_wf_len();
        last.lemma_wf_len();
        match first {
            TernaryTree::Branch2 { left, middle, .. } => {
                let left = Self::under(*left);
                let middle = Self::under(*middle);
                Self::lemma_node3(&left, &middle, last);
            },
            TernaryTree::Branch3 { left, middle, right, .. } => {
                let left = Self::under(*left);
                let middle = Self::under(*middle);
                let right = Self::under(*right);
                Self::lemma_node2(&middle, &right);
                Self::lemma_node3(&left, &Self::node2(middle, right), last);
                lemma_regroup(left@, middle@, right@);
            },
            TernaryTree::Leaf(_) => {
                Self::lemma_node2(first, last);
            },
        }
    }

    /// A branch opened after a first child is well-formed and holds the
    /// elements of the first child followed by those of the opened tree.
    pub proof fn lemma_opened_after(first: &Self, last: &Self)
        requires
            first.wf(),
            last.wf(),
            first.spec_len() + last.spec_len() <= usize::MAX,
        ensures
            Self::opened_after(*first, *last).wf(),
            Self::opened_after(*first, *last)@ == first@ + last@,
    {
        last.lemma_parts();
        first.lemma_wf_len();
        last.lemma_wf_len();
        match last {
            TernaryTree::Branch2 { left, middle, .. } => {
                let left = Self::under(*left);
                let middle = Self::under(*middle);
                Self::lemma_node3(first, &left, &middle);
                lemma_regroup(first@, left@, middle@);
            },
            TernaryTree::Branch3 { left, middle, right, .. } => {
                let left = Self::under(*left);
                let middle = Self::under(*middle);
                let right = Self::under(*right);
                Self::lemma_node2(&left, &middle);
                Self::lemma_node3(first, &Self::node2(left, middle), &right);
                lemma_regroup(first@, left@ + middle@, right@);
            },
            TernaryTree::Leaf(_) => {
                Self::lemma_node2(first, last);
            },
        }
    }

    /// A well-formed tree of two or more elements without its first element
    /// is well-formed and holds the other elements in their order.
    pub proof fn lemma_dropped_left(&self)
        requires
            self.wf(),
            self.spec_len() >= 2,
        ensures
            self.dropped_left().wf(),
            self.dropped_left()@ == self@.drop_first(),
        decreases self,
    {
        self.lemma_parts();
        self.lemma_wf_len();
        match self {
            TernaryTree::Leaf(_) => {},
            TernaryTree::Branch2 { left, middle, .. } => {
                let left = Self::under(*left);
                let middle = Self::under(*middle);
                if left.spec_len() == 1 {
                    lemma_remove_whole_first(left@, middle@);
                } else {
                    left.lemma_dropped_left();
                    left.dropped_left().lemma_wf_len();
                    Self::lemma_opened_before(&left.dropped_left(), &middle);
                    lemma_drop_first(left@, middle@);
                }
            },
            TernaryTree::Branch3 { left, middle, right, .. } => {
                let left = Self::under(*left);
                let middle = Self::under(*middle);
                let right = Self::under(*right);
                lemma_drop_first(left@ + middle@, right@);
                if left.spec_len() == 1 {
                    Self::lemma_opened_before(&middle, &right);
                    lemma_remove_whole_first(left@, middle@);
                } else {
                    left.lemma_dropped_left();
                    left.dropped_left().lemma_wf_len();
                    Self::lemma_node3(&left.dropped_left(), &middle, &right);
                    lemma_drop_first(left@, middle@);
                }
            },
        }
    }

    /// A well-formed tree of two or more elements without its last element
    /// is well-formed and holds the other elements in their order.
    pub proof fn lemma_dropped_right(&self)
        requires
            self.wf(),
            self.spec_len() >= 2,
        ensures
            self.dropped_right().wf(),
            self.dropped_right()@ == self@.drop_last(),
        decreases self,
    {
        self.lemma_parts();
        self.lemma_wf_len();
        match self {
            TernaryTree::Leaf(_) => {},
            TernaryTree::Branch2 { left, middle, .. } => {
                let left = Self::under(*left);
                let middle = Self::under(*middle);
                if middle.spec_len() == 1 {
                    lemma_remove_whole_second(left@, middle@);
                } else {
                    middle.lemma_dropped_right();
                    middle.dropped_right().lemma_wf_len();
                    Self::lemma_opened_after(&left, &middle.dropped_right());
                    lemma_drop_last(left@, middle@);
                }
            },
            TernaryTree::Branch3 { left, middle, right, .. } => {
                let left = Self::under(*left);
                let middle = Self::under(*middle);
                let right = Self::under(*right);
                if right.spec_len() == 1 {
                    Self::lemma_opened_after(&left, &middle);
                    lemma_remove_whole_second(left@ + middle@, right@);
                } else {
                    right.lemma_dropped_right();
                    right.dropped_right().lemma_wf_len();
                    Self::lemma_node3(&left, &middle, &right.dropped_right());
                    lemma_drop_last(left@ + middle@, right@);
                }
            },
        }
    }

    /// Appends the subtree `item` at the right end of a main branch, one
    /// that lies on the way from the root to the middle of the tree. A main
    /// branch of level `n` takes up to three to the power `n` elements in the
    /// compact way of a side branch; beyond that its right child is pushed
    /// into its middle, one level deeper, and `item` becomes the new right
    /// child, so that the right end stays shallow.
    fn push_right_main(&self, item: Self, n: u8) -> (tree: Self)
        requires
            self.wf(),
            item.wf(),
            self.spec_len() + item.spec_len() <= usize::MAX,
            n >= 1,
        ensures
            tree == self.pushed_right_main(item, n as nat),
            tree.wf(),
            tree@ == self@ + item@,
        decreases self,
    {
        broadcast use TernaryTree::lemma_wf_len;

        proof {
            self.lemma_parts();
            self.lemma_pushed_right_main(&item, n as nat);
        }
        if self.len() + item.len() <= triple_size(n) {
            self.push_right_side(item)
        } else {
            match self {
                TernaryTree::Leaf(_) => self.push_right_side(item),
                TernaryTree::Branch2 { left, middle, .. } => {
                    if middle.len() + item.len() > triple_size(n) {
                        Self::branch3(share(left), share(middle), Arc::new(item))
                    } else {
                        let changed_branch = middle.push_right_side(item);
                        Self::branch2(share(left), Arc::new(changed_branch))
                    }
                },
                TernaryTree::Branch3 { left, middle, right, .. } => {
                    if right.len() + item.len() > triple_size(n - 1) {
                        proof {
                            lemma_pow3_fits((n - 1) as nat);
                        }
                        let changed_branch = middle.push_right_main(right.duplicate(), n + 1);
                        Self::branch3(share(left), Arc::new(changed_branch), Arc::new(item))
                    } else {
                        let changed_branch = right.push_right_side(item);
                        Self::branch3(share(left), share(middle), Arc::new(changed_branch))
                    }
                },
            }
        }
    }

    /// Prepends the subtree `item` at the left end of a main branch: the
    /// mirror image of [`Self::push_right_main`].
    fn push_left_main(&self, item: Self, n: u8) -> (tree: Self)
        requires
            self.wf(),
            item.wf(),
            self.spec_len() + item.spec_len() <= usize::MAX,
            n >= 1,
        ensures
            tree == self.pushed_left_main(item, n as nat),
            tree.wf(),
            tree@ == item@ + self@,
        decreases self,
    {
        broadcast use TernaryTree::lemma_wf_len;

        proof {
            self.lemma_parts();
            self.lemma_pushed_left_main(&item, n as nat);
        }
        if self.len() + item.len() <= triple_size(n) {
            self.push_left_side(item)
        } else {
            match self {
                TernaryTree::Leaf(_) => self.push_left_side(item),
                TernaryTree::Branch2 { left, middle, .. } => {
                    if left.len() + item.len() > triple_size(n) {
                        Self::branch3(Arc::new(item), share(left), share(middle))
                    } else {
                        let changed_branch = left.push_left_side(item);
                        Self::branch2(Arc::new(changed_branch), share(middle))
                    }
                },
                TernaryTree::Branch3 { left, middle, right, .. } => {
                    if left.len() + item.len() > triple_size(n - 1) {
                        proof {
                            lemma_pow3_fits((n - 1) as nat);
                        }
                        let changed_branch = middle.push_left_main(left.duplicate(), n + 1);
                        Self::branch3(Arc::new(item), Arc::new(changed_branch), share(right))
                    } else {
                        let changed_branch = left.push_left_side(item);
                        Self::branch3(Arc::new(changed_branch), share(middle), share(right))
                    }
                },
            }
        }
    }

    /// Appends the subtree `item` at the right end of a side branch, packing
    /// as tightly as the sizes of the neighbouring children allow: `item`
    /// goes down into the last child while that child stays no larger than
    /// the child before it, and becomes a child of its own otherwise.
    fn push_right_side(&self, item: Self) -> (tree: Self)
        requires
            self.wf(),
            item.wf(),
            self.spec_len() + item.spec_len() <= usize::MAX,
        ensures
            tree == self.pushed_right_side(item),
            tree.wf(),
            tree@ == self@ + item@,
        decreases self,
    {
        broadcast use TernaryTree::lemma_wf_len;

        proof {
            self.lemma_parts();
            self.lemma_pushed_right_side(&item);
        }
        match self {
            TernaryTree::Leaf(_) => Self::branch2(Arc::new(self.duplicate()), Arc::new(item)),
            TernaryTree::Branch2 { left, middle, .. } => {
                if middle.len() + item.len() > left.len() {
                    Self::branch3(share(left), share(middle), Arc::new(item))
                } else {
                    let changed_branch = middle.push_right_side(item);
                    Self::branch2(share(left), Arc::new(changed_branch))
                }
            },
            TernaryTree::Branch3 { left, middle, right, .. } => {
                if right.len() + item.len() > middle.len() {
                    Self::branch2(Arc::new(self.duplicate()), Arc::new(item))
                } else {
                    let changed_branch = right.push_right_side(item);
                    Self::branch3(share(left), share(middle), Arc::new(changed_branch))
                }
            },
        }
    }

    /// Prepends the subtree `item` at the left end of a side branch: the
    /// mirror image of [`Self::push_right_side`].
    fn push_left_side(&self, item: Self) -> (tree: Self)
        requires
            self.wf(),
            item.wf(),
            self.spec_len() + item.spec_len() <= usize::MAX,
        ensures
            tree == self.pushed_left_side(item),
            tree.wf(),
            tree@ == item@ + self@,
        decreases self,
    {
        broadcast use TernaryTree::lemma_wf_len;

        proof {
            self.lemma_parts();
            self.lemma_pushed_left_side(&item);
        }
        match self {
            TernaryTree::Leaf(_) => Self::branch2(Arc::new(item), Arc::new(self.duplicate())),
            TernaryTree::Branch2 { left, middle, .. } => {
                if left.len() + item.len() > middle.len() {
                    Self::branch3(Arc::new(item), share(left), share(middle))
                } else {
                    let changed_branch = left.push_left_side(item);
                    Self::branch2(Arc::new(changed_branch), share(middle))
                }
            },
            TernaryTree::Branch3 { left, middle, right, .. } => {
                if left.len() + item.len() > middle.len() {
                    Self::branch2(Arc::new(item), Arc::new(self.duplicate()))
                } else {
                    let changed_branch = left.push_left_side(item);
                    Self::branch3(Arc::new(changed_branch), share(middle), share(right))
                }
            },
        }
    }

    /// The tree with `item` added after the last element. The root counts as
    /// a main branch of level 2, so that its side children take 3 elements.
    pub fn push_right(&self, item: T) -> (tree: Self)
        requires
            self.wf(),
            self.spec_len() < usize::MAX,
        ensures
            tree == self.pushed_right_main(TernaryTree::Leaf(Arc::new(item)), 2),
            tree.wf(),
            tree@ == self@.push(item),
    {
        self.push_right_main(Self::leaf(item), 2)
    }

    /// The tree with the whole subtree `item` added at its right end, as
    /// [`Self::push_right`] adds a single element.
    pub fn push_right_tree(&self, item: Self) -> (tree: Self)
        requires
            self.wf(),
            item.wf(),
            self.spec_len() + item.spec_len() <= usize::MAX,
        ensures
            tree == self.pushed_right_main(item, 2),
            tree.wf(),
            tree@ == self@ + item@,
    {
        self.push_right_main(item, 2)
    }

    /// The tree with `item` added before the first element. The root counts
    /// as a main branch of level 2, so that its side children take 3 elements.
    pub fn push_left(&self, item: T) -> (tree: Self)
        requires
            self.wf(),
            self.spec_len() < usize::MAX,
        ensures
            tree == self.pushed_left_main(TernaryTree::Leaf(Arc::new(item)), 2),
            tree.wf(),
            tree@ == seq![item] + self@,
    {
        self.push_left_main(Self::leaf(item), 2)
    }

    /// The tree without its first element. A child that is used up makes
    /// room: its siblings move up, and a branch of two that takes its place
    /// is opened into the parent. The tree holds at least two elements.
    pub fn drop_left(&self) -> (tree: Self)
        requires
            self.wf(),
            self.spec_len() >= 2,
        ensures
            tree == self.dropped_left(),
            tree.wf(),
            tree@ == self@.drop_first(),
        decreases self,
    {
        broadcast use TernaryTree::lemma_wf_len;

        proof {
            self.lemma_parts();
            self.lemma_dropped_left();
        }
        match self {
            TernaryTree::Leaf(_) => vstd::pervasive::unreached(),
            TernaryTree::Branch2 { left, middle, .. } => {
                if left.len() == 1 {
                    middle.duplicate()
                } else {
                    let changed_branch = left.drop_left();
                    proof {
                        changed_branch.lemma_parts();
                    }
                    match changed_branch {
                        TernaryTree::Branch2 { left: b_left, middle: b_middle, .. } => {
                            Self::branch3(b_left, b_middle, share(middle))
                        },
                        TernaryTree::Branch3 {
                            left: b_left,
                            middle: b_middle,
                            right: b_right,
                            ..
                        } => {
                            let internal_branch = Self::branch2(b_middle, b_right);
                            Self::branch3(b_left, Arc::new(internal_branch), share(middle))
                        },
                        _ => Self::branch2(Arc::new(changed_branch), share(middle)),
                    }
                }
            },
            TernaryTree::Branch3 { left, middle, right, .. } => {
                if left.len() == 1 {
                    proof {
                        middle.lemma_parts();
                    }
                    match &**middle {
                        TernaryTree::Branch2 { left: b_left, middle: b_middle, .. } => {
                            Self::branch3(share(b_left), share(b_middle), share(right))
                        },
                        TernaryTree::Branch3 {
                            left: b_left,
                            middle: b_middle,
                            right: b_right,
                            ..
                        } => {
                            let internal_branch = Self::branch2(share(b_middle), share(b_right));
                            Self::branch3(share(b_left), Arc::new(internal_branch), share(right))
                        },
                        _ => Self::branch2(share(middle), share(right)),
                    }
                } else {
                    let changed_branch = left.drop_left();
                    Self::branch3(Arc::new(changed_branch), share(middle), share(right))
                }
            },
        }
    }

    /// The tree without its last element: the mirror image of
    /// [`Self::drop_left`]. The tree holds at least two elements.
    pub fn drop_right(&self) -> (tree: Self)
        requires
            self.wf(),
            self.spec_len() >= 2,
        ensures
            tree == self.dropped_right(),
            tree.wf(),
            tree@ == self@.drop_last(),
        decreases self,
    {
        broadcast use TernaryTree::lemma_wf_len;

        proof {
            self.lemma_parts();
            self.lemma_dropped_right();
        }
        match self {
            TernaryTree::Leaf(_) => vstd::pervasive::unreached(),
            TernaryTree::Branch2 { left, middle, .. } => {
                if middle.len() == 1 {
                    left.duplicate()
                } else {
                    let changed_branch = middle.drop_right();
                    proof {
                        changed_branch.lemma_parts();
                    }
                    match changed_branch {
                        TernaryTree::Branch2 { left: b_left, middle: b_middle, .. } => {
                            Self::branch3(share(left), b_left, b_middle)
                        },
                        TernaryTree::Branch3 {
                            left: b_left,
                            middle: b_middle,
                            right: b_right,
                            ..
                        } => {
                            let internal_branch = Self::branch2(b_left, b_middle);
                            Self::branch3(share(left), Arc::new(internal_branch), b_right)
                        },
                        _ => Self::branch2(share(left), Arc::new(changed_branch)),
                    }
                }
            },
            TernaryTree::Branch3 { left, middle, right, .. } => {
                if right.len() == 1 {
                    proof {
                        middle.lemma_parts();
                    }
                    match &**middle {
                        TernaryTree::Branch2 { left: b_left, middle: b_middle, .. } => {
                            Self::branch3(share(left), share(b_left), share(b_middle))
                        },
                        TernaryTree::Branch3 {
                            left: b_left,
                            middle: b_middle,
                            right: b_right,
                            ..
                        } => {
                            let internal_branch = Self::branch2(share(b_left), share(b_middle));
                            Self::branch3(share(left), Arc::new(internal_branch), share(b_right))
                        },
                        _ => Self::branch2(share(left), share(middle)),
                    }
                } else {
                    let changed_branch = right.drop_right();
                    Self::branch3(share(left), share(middle), Arc::new(changed_branch))
                }
            },
        }
    }
}

} // verus!
