//! Edits at an index: replacing, removing and inserting one element. Each
//! edit copies the nodes on the way from the root to the place of the edit
//! and shares everything else with the tree it started from.

use crate::message::index_message;
use crate::seqs::lemma_insert_between;
use crate::seqs::lemma_insert_ends;
use crate::seqs::lemma_insert_first;
use crate::seqs::lemma_insert_second;
use crate::seqs::lemma_regroup;
use crate::seqs::lemma_remove_first;
use crate::seqs::lemma_remove_second;
use crate::seqs::lemma_remove_whole_first;
use crate::seqs::lemma_remove_whole_second;
use crate::seqs::lemma_update_first;
use crate::seqs::lemma_update_second;
use crate::tree::share;
use crate::tree::TernaryTree;
use std::sync::Arc;
use vstd::prelude::*;
use vstd::string::StringExecFns;

verus! {

impl<T> TernaryTree<T> {
    /// The tree that [`Self::assoc`] makes: the same tree with a new leaf
    /// in the place of the leaf at `idx`.
    pub open spec fn updated(self, idx: nat, item: T) -> Self
        decreases self,
    {
        match self {
            TernaryTree::Leaf(_) => TernaryTree::Leaf(Arc::new(item)),
            TernaryTree::Branch2 { left, middle, .. } => if idx < left.spec_len() {
                Self::node2(left.updated(idx, item), *middle)
            } else {
                Self::node2(*left, middle.updated((idx - left.spec_len()) as nat, item))
            },
            TernaryTree::Branch3 { left, middle, right, .. } => if idx < left.spec_len() {
                Self::node3(left.updated(idx, item), *middle, *right)
            } else if idx < left.spec_len() + middle.spec_len() {
                Self::node3(*left, middle.updated((idx - left.spec_len()) as nat, item), *right)
            } else {
                Self::node3(
                    *left,
                    *middle,
                    right.updated((idx - left.spec_len() - middle.spec_len()) as nat, item),
                )
            },
        }
    }

    /// The tree that [`Self::dissoc`] makes. The child that holds `idx`
    /// loses the element; a child of one element goes altogether, and then
    /// a branch of three is left as a branch of two, and a branch of two
    /// gives way to its other child.
    pub open spec fn removed(self, idx: nat) -> Self
        decreases self,
    {
        match self {
            TernaryTree::Leaf(_) => self,
            TernaryTree::Branch2 { left, middle, .. } => if idx < left.spec_len() {
                if left.spec_len() == 1 {
                    *middle
                } else {
                    Self::node2(left.removed(idx), *middle)
                }
            } else if middle.spec_len() == 1 {
                *left
            } else {
                Self::node2(*left, middle.removed((idx - left.spec_len()) as nat))
            },
            TernaryTree::Branch3 { left, middle, right, .. } => if idx < left.spec_len() {
                if left.spec_len() == 1 {
                    Self::node2(*middle, *right)
                } else {
                    Self::node3(left.removed(idx), *middle, *right)
                }
            } else if idx < left.spec_len() + middle.spec_len() {
                if middle.spec_len() == 1 {
                    Self::node2(*left, *right)
                } else {
                    Self::node3(*left, middle.removed((idx - left.spec_len()) as nat), *right)
                }
            } else if right.spec_len() == 1 {
                Self::node2(*left, *middle)
            } else {
                Self::node3(
                    *left,
                    *middle,
                    right.removed((idx - left.spec_len() - middle.spec_len()) as nat),
                )
            },
        }
    }

    /// The tree that [`Self::insert_before`] makes. A leaf becomes a branch
    /// of two and a branch of two leaves a branch of three, with the new
    /// leaf in its place. A branch of two subtrees takes a new first leaf
    /// as a third child. A branch of three whose left child is its largest
    /// takes a new first leaf by going one level down, beside that leaf. Any
    /// other insertion goes into the child that holds `idx`.
    pub open spec fn inserted_before(self, idx: nat, item: T) -> Self
        decreases self,
    {
        let leaf = TernaryTree::Leaf(Arc::new(item));
        match self {
            TernaryTree::Leaf(_) => Self::node2(leaf, self),
            TernaryTree::Branch2 { left, middle, size, .. } => if idx == 0 {
                Self::node3(leaf, *left, *middle)
            } else if size == 2 {
                Self::node3(*left, leaf, *middle)
            } else if idx < left.spec_len() {
                Self::node2(left.inserted_before(idx, item), *middle)
            } else {
                Self::node2(*left, middle.inserted_before((idx - left.spec_len()) as nat, item))
            },
            TernaryTree::Branch3 { left, middle, right, .. } => if idx == 0 && left.spec_len()
                >= middle.spec_len() && left.spec_len() >= right.spec_len() {
                Self::node2(leaf, self)
            } else if idx < left.spec_len() {
                Self::node3(left.inserted_before(idx, item), *middle, *right)
            } else if idx < left.spec_len() + middle.spec_len() {
                Self::node3(
                    *left,
                    middle.inserted_before((idx - left.spec_len()) as nat, item),
                    *right,
                )
            } else {
                Self::node3(
                    *left,
                    *middle,
                    right.inserted_before(
                        (idx - left.spec_len() - middle.spec_len()) as nat,
                        item,
                    ),
                )
            },
        }
    }

    /// The tree that [`Self::insert_after`] makes: the mirror image of
    /// [`Self::inserted_before`], with the last element and the right child
    /// in the place of the first element and the left child.
    pub open spec fn inserted_after(self, idx: nat, item: T) -> Self
        decreases self,
    {
        let leaf = TernaryTree::Leaf(Arc::new(item));
        match self {
            TernaryTree::Leaf(_) => Self::node2(self, leaf),
            TernaryTree::Branch2 { left, middle, size, .. } => if idx + 1 == size {
                Self::node3(*left, *middle, leaf)
            } else if size == 2 {
                Self::node3(*left, leaf, *middle)
            } else if idx < left.spec_len() {
                Self::node2(left.inserted_after(idx, item), *middle)
            } else {
                Self::node2(*left, middle.inserted_after((idx - left.spec_len()) as nat, item))
            },
            TernaryTree::Branch3 { left, middle, right, size, .. } => if idx + 1 == size
                && right.spec_len() >= middle.spec_len() && right.spec_len() >= left.spec_len() {
                Self::node2(self, leaf)
            } else if idx < left.spec_len() {
                Self::node3(left.inserted_after(idx, item), *middle, *right)
            } else if idx < left.spec_len() + middle.spec_len() {
                Self::node3(
                    *left,
                    middle.inserted_after((idx - left.spec_len()) as nat, item),
                    *right,
                )
            } else {
                Self::node3(
                    *left,
                    *middle,
                    right.inserted_after((idx - left.spec_len() - middle.spec_len()) as nat, item),
                )
            },
        }
    }
}

impl<T> TernaryTree<T> {
    /// A well-formed tree with one element replaced is well-formed, as deep
    /// as before, and holds the new element in the place of the old one.
    pub proof fn lemma_updated(&self, idx: nat, item: T)
        requires
            self.wf(),
            idx < self.spec_len(),
        ensures
            self.updated(idx, item).wf(),
            self.updated(idx, item)@ == self@.update(idx as int, item),
            self.updated(idx, item).spec_depth() == self.spec_depth(),
            self.updated(idx, item).spec_len() == self.spec_len(),
        decreases self,
    {
        self.lemma_parts();
        self.lemma_wf_len();
        match self {
            TernaryTree::Leaf(_) => {
                assert(self.updated(idx, item)@ =~= self@.update(idx as int, item));
            },
            TernaryTree::Branch2 { left, middle, .. } => {
                let left = Self::under(*left);
                let middle = Self::under(*middle);
                if idx < left.spec_len() {
                    left.lemma_updated(idx, item);
                    Self::lemma_node2(&left.updated(idx, item), &middle);
                    lemma_update_first(left@, middle@, idx as int, item);
                } else {
                    let inner = (idx - left.spec_len()) as nat;
                    middle.lemma_updated(inner, item);
                    Self::lemma_node2(&left, &middle.updated(inner, item));
                    lemma_update_second(left@, middle@, idx as int, item);
                }
            },
            TernaryTree::Branch3 { left, middle, right, .. } => {
                let left = Self::under(*left);
                let middle = Self::under(*middle);
                let right = Self::under(*right);
                if idx < left.spec_len() {
                    left.lemma_updated(idx, item);
                    Self::lemma_node3(&left.updated(idx, item), &middle, &right);
                    lemma_update_first(left@, middle@, idx as int, item);
                    lemma_update_first(left@ + middle@, right@, idx as int, item);
                } else if idx < left.spec_len() + middle.spec_len() {
                    let inner = (idx - left.spec_len()) as nat;
                    middle.lemma_updated(inner, item);
                    Self::lemma_node3(&left, &middle.updated(inner, item), &right);
                    lemma_update_second(left@, middle@, idx as int, item);
                    lemma_update_first(left@ + middle@, right@, idx as int, item);
                } else {
                    let inner = (idx - left.spec_len() - middle.spec_len()) as nat;
                    right.lemma_updated(inner, item);
                    Self::lemma_node3(&left, &middle, &right.updated(inner, item));
                    lemma_update_second(left@ + middle@, right@, idx as int, item);
                }
            },
        }
    }

    /// A well-formed tree of two or more elements without one of them is
    /// well-formed and holds the other elements in their order.
    pub proof fn lemma_removed(&self, idx: nat)
        requires
            self.wf(),
            self.spec_len() >= 2,
            idx < self.spec_len(),
        ensures
            self.removed(idx).wf(),
            self.removed(idx)@ == self@.remove(idx as int),
        decreases self,
    {
        self.lemma_parts();
        self.lemma_wf_len();
        match self {
            TernaryTree::Leaf(_) => {},
            TernaryTree::Branch2 { left, middle, .. } => {
                let left = Self::under(*left);
                let middle = Self::under(*middle);
                if idx < left.spec_len() {
                    if left.spec_len() == 1 {
                        lemma_remove_whole_first(left@, middle@);
                    } else {
                        left.lemma_removed(idx);
                        left.removed(idx).lemma_wf_len();
                        Self::lemma_node2(&left.removed(idx), &middle);
                        lemma_remove_first(left@, middle@, idx as int);
                    }
                } else if middle.spec_len() == 1 {
                    lemma_remove_whole_second(left@, middle@);
                } else {
                    let inner = (idx - left.spec_len()) as nat;
                    middle.lemma_removed(inner);
                    middle.removed(inner).lemma_wf_len();
                    Self::lemma_node2(&left, &middle.removed(inner));
                    lemma_remove_second(left@, middle@, idx as int);
                }
            },
            TernaryTree::Branch3 { left, middle, right, .. } => {
                let left = Self::under(*left);
                let middle = Self::under(*middle);
                let right = Self::under(*right);
                if idx < left.spec_len() {
                    lemma_remove_first(left@ + middle@, right@, idx as int);
                    if left.spec_len() == 1 {
                        Self::lemma_node2(&middle, &right);
                        lemma_remove_whole_first(left@, middle@);
                    } else {
                        left.lemma_removed(idx);
                        left.removed(idx).lemma_wf_len();
                        Self::lemma_node3(&left.removed(idx), &middle, &right);
                        lemma_remove_first(left@, middle@, idx as int);
                    }
                } else if idx < left.spec_len() + middle.spec_len() {
                    lemma_remove_first(left@ + middle@, right@, idx as int);
                    if middle.spec_len() == 1 {
                        Self::lemma_node2(&left, &right);
                        lemma_remove_whole_second(left@, middle@);
                    } else {
                        let inner = (idx - left.spec_len()) as nat;
                        middle.lemma_removed(inner);
                        middle.removed(inner).lemma_wf_len();
                        Self::lemma_node3(&left, &middle.removed(inner), &right);
                        lemma_remove_second(left@, middle@, idx as int);
                    }
                } else if right.spec_len() == 1 {
                    Self::lemma_node2(&left, &middle);
                    lemma_remove_whole_second(left@ + middle@, right@);
                } else {
                    let inner = (idx - left.spec_len() - middle.spec_len()) as nat;
                    right.lemma_removed(inner);
                    right.removed(inner).lemma_wf_len();
                    Self::lemma_node3(&left, &middle, &right.removed(inner));
                    lemma_remove_second(left@ + middle@, right@, idx as int);
                }
            },
        }
    }

    /// A well-formed tree with an element put in before the element at
    /// `idx` is well-formed and holds the new element at `idx`, with the
    /// elements from there on moved one place back.
    pub proof fn lemma_inserted_before(&self, idx: nat, item: T)
        requires
            self.wf(),
            idx < self.spec_len(),
            self.spec_len() < usize::MAX,
        ensures
            self.inserted_before(idx, item).wf(),
            self.inserted_before(idx, item)@ == self@.insert(idx as int, item),
        decreases self,
    {
        let leaf = TernaryTree::Leaf(Arc::new(item));
        assert(leaf@ =~= seq![item]);
        self.lemma_parts();
        self.lemma_wf_len();
        lemma_insert_ends(self@, item);
        match self {
            TernaryTree::Leaf(_) => {
                Self::lemma_node2(&leaf, self);
            },
            TernaryTree::Branch2 { left, middle, .. } => {
                let left = Self::under(*left);
                let middle = Self::under(*middle);
                if idx == 0 {
                    Self::lemma_node3(&leaf, &left, &middle);
                    lemma_regroup(seq![item], left@, middle@);
                } else if self.spec_len() == 2 {
                    Self::lemma_node3(&left, &leaf, &middle);
                    lemma_insert_between(left@, middle@, item);
                } else if idx < left.spec_len() {
                    left.lemma_inserted_before(idx, item);
                    left.inserted_before(idx, item).lemma_wf_len();
                    Self::lemma_node2(&left.inserted_before(idx, item), &middle);
                    lemma_insert_first(left@, middle@, idx as int, item);
                } else {
                    let inner = (idx - left.spec_len()) as nat;
                    middle.lemma_inserted_before(inner, item);
                    middle.inserted_before(inner, item).lemma_wf_len();
                    Self::lemma_node2(&left, &middle.inserted_before(inner, item));
                    lemma_insert_second(left@, middle@, idx as int, item);
                }
            },
            TernaryTree::Branch3 { left, middle, right, .. } => {
                let left = Self::under(*left);
                let middle = Self::under(*middle);
                let right = Self::under(*right);
                if idx == 0 && left.spec_len() >= middle.spec_len() && left.spec_len()
                    >= right.spec_len() {
                    Self::lemma_node2(&leaf, self);
                } else if idx < left.spec_len() {
                    left.lemma_inserted_before(idx, item);
                    left.inserted_before(idx, item).lemma_wf_len();
                    Self::lemma_node3(&left.inserted_before(idx, item), &middle, &right);
                    lemma_insert_first(left@, middle@, idx as int, item);
                    lemma_insert_first(left@ + middle@, right@, idx as int, item);
                } else if idx < left.spec_len() + middle.spec_len() {
                    let inner = (idx - left.spec_len()) as nat;
                    middle.lemma_inserted_before(inner, item);
                    middle.inserted_before(inner, item).lemma_wf_len();
                    Self::lemma_node3(&left, &middle.inserted_before(inner, item), &right);
                    lemma_insert_second(left@, middle@, idx as int, item);
                    lemma_insert_first(left@ + middle@, right@, idx as int, item);
                } else {
                    let inner = (idx - left.spec_len() - middle.spec_len()) as nat;
                    right.lemma_inserted_before(inner, item);
                    right.inserted_before(inner, item).lemma_wf_len();
                    Self::lemma_node3(&left, &middle, &right.inserted_before(inner, item));
                    lemma_insert_second(left@ + middle@, right@, idx as int, item);
                }
            },
        }
    }

    /// A well-formed tree with an element put in after the element at `idx`
    /// is well-formed and holds the new element at `idx + 1`, with the
    /// elements from there on moved one place back.
    pub proof fn lemma_inserted_after(&self, idx: nat, item: T)
        requires
            self.wf(),
            idx < self.spec_len(),
            self.spec_len() < usize::MAX,
        ensures
            self.inserted_after(idx, item).wf(),
            self.inserted_after(idx, item)@ == self@.insert(idx as int + 1, item),
        decreases self,
    {
        let leaf = TernaryTree::Leaf(Arc::new(item));
        assert(leaf@ =~= seq![item]);
        self.lemma_parts();
        self.lemma_wf_len();
        lemma_insert_ends(self@, item);
        match self {
            TernaryTree::Leaf(_) => {
                Self::lemma_node2(self, &leaf);
            },
            TernaryTree::Branch2 { left, middle, .. } => {
                let left = Self::under(*left);
                let middle = Self::under(*middle);
                if idx + 1 == self.spec_len() {
                    Self::lemma_node3(&left, &middle, &leaf);
                } else if self.spec_len() == 2 {
                    Self::lemma_node3(&left, &leaf, &middle);
                    lemma_insert_between(left@, middle@, item);
                } else if idx < left.spec_len() {
                    left.lemma_inserted_after(idx, item);
                    left.inserted_after(idx, item).lemma_wf_len();
                    Self::lemma_node2(&left.inserted_after(idx, item), &middle);
                    lemma_insert_first(left@, middle@, idx as int + 1, item);
                } else {
                    let inner = (idx - left.spec_len()) as nat;
                    middle.lemma_inserted_after(inner, item);
                    middle.inserted_after(inner, item).lemma_wf_len();
                    Self::lemma_node2(&left, &middle.inserted_after(inner, item));
                    lemma_insert_second(left@, middle@, idx as int + 1, item);
                }
            },
            TernaryTree::Branch3 { left, middle, right, .. } => {
                let left = Self::under(*left);
                let middle = Self::under(*middle);
                let right = Self::under(*right);
                if idx + 1 == self.spec_len() && right.spec_len() >= middle.spec_len()
                    && right.spec_len() >= left.spec_len() {
                    Self::lemma_node2(self, &leaf);
                } else if idx < left.spec_len() {
                    left.lemma_inserted_after(idx, item);
                    left.inserted_after(idx, item).lemma_wf_len();
                    Self::lemma_node3(&left.inserted_after(idx, item), &middle, &right);
                    lemma_insert_first(left@, middle@, idx as int + 1, item);
                    lemma_insert_first(left@ + middle@, right@, idx as int + 1, item);
                } else if idx < left.spec_len() + middle.spec_len() {
                    let inner = (idx - left.spec_len()) as nat;
                    middle.lemma_inserted_after(inner, item);
                    middle.inserted_after(inner, item).lemma_wf_len();
                    Self::lemma_node3(&left, &middle.inserted_after(inner, item), &right);
                    lemma_insert_second(left@, middle@, idx as int + 1, item);
                    lemma_insert_first(left@ + middle@, right@, idx as int + 1, item);
                } else {
                    let inner = (idx - left.spec_len() - middle.spec_len()) as nat;
                    right.lemma_inserted_after(inner, item);
                    right.inserted_after(inner, item).lemma_wf_len();
                    Self::lemma_node3(&left, &middle, &right.inserted_after(inner, item));
                    lemma_insert_second(left@ + middle@, right@, idx as int + 1, item);
                }
            },
        }
    }
}

impl<T> TernaryTree<T> {
    /// The tree with `item` in place of the element at `idx`. The shape of
    /// the tree stays as it is. An index at which the tree has no element is
    /// an error.
    pub fn assoc(&self, idx: usize, item: T) -> (res: Result<Self, String>)
        requires
            self.wf(),
        ensures
            match res {
                Ok(tree) => {
                    &&& idx < self.spec_len()
                    &&& tree == self.updated(idx as nat, item)
                    &&& tree.wf()
                    &&& tree@ == self@.update(idx as int, item)
                    &&& tree.spec_depth() == self.spec_depth()
                },
                Err(_) => idx >= self.spec_len(),
            },
        decreases self,
    {
        broadcast use TernaryTree::lemma_wf_len;

        proof {
            self.lemma_parts();
            if idx < self.spec_len() {
                self.lemma_updated(idx as nat, item);
            }
        }
        match self {
            TernaryTree::Leaf(_) => {
                if idx == 0 {
                    Ok(Self::leaf(item))
                } else {
                    Err(index_message("Cannot assoc leaf into index ", idx))
                }
            },
            TernaryTree::Branch2 { left, middle, .. } => {
                if idx < left.len() {
                    let changed_branch = left.assoc(idx, item)?;
                    Ok(Self::branch2(Arc::new(changed_branch), share(middle)))
                } else {
                    let changed_branch = middle.assoc(idx - left.len(), item)?;
                    Ok(Self::branch2(share(left), Arc::new(changed_branch)))
                }
            },
            TernaryTree::Branch3 { left, middle, right, .. } => {
                if idx < left.len() {
                    let changed_branch = left.assoc(idx, item)?;
                    Ok(Self::branch3(Arc::new(changed_branch), share(middle), share(right)))
                } else if idx < left.len() + middle.len() {
                    let changed_branch = middle.assoc(idx - left.len(), item)?;
                    Ok(Self::branch3(share(left), Arc::new(changed_branch), share(right)))
                } else {
                    let changed_branch = right.assoc(idx - left.len() - middle.len(), item)?;
                    Ok(Self::branch3(share(left), share(middle), Arc::new(changed_branch)))
                }
            },
        }
    }

    /// The tree without the element at `idx`. A child that was a single
    /// element leaves no empty slot behind: its siblings move up, a branch of
    /// three becomes a branch of two, a branch of two gives way to the child
    /// that is left. The tree holds at least two elements.
    pub fn dissoc(&self, idx: usize) -> (res: Result<Self, String>)
        requires
            self.wf(),
            self.spec_len() >= 2,
            idx < self.spec_len(),
        ensures
            res matches Ok(tree) && tree == self.removed(idx as nat) && tree.wf() && tree@
                == self@.remove(idx as int),
        decreases self,
    {
        proof {
            self.lemma_parts();
            self.lemma_removed(idx as nat);
        }
        match self {
            TernaryTree::Leaf(_) => vstd::pervasive::unreached(),
            TernaryTree::Branch2 { left, middle, .. } => {
                if idx < left.len() {
                    if left.len() == 1 {
                        Ok(middle.duplicate())
                    } else {
                        let changed_branch = left.dissoc(idx)?;
                        proof {
                            changed_branch.lemma_wf_len();
                        }
                        Ok(Self::branch2(Arc::new(changed_branch), share(middle)))
                    }
                } else if middle.len() == 1 {
                    Ok(left.duplicate())
                } else {
                    let changed_branch = middle.dissoc(idx - left.len())?;
                    proof {
                        changed_branch.lemma_wf_len();
                    }
                    Ok(Self::branch2(share(left), Arc::new(changed_branch)))
                }
            },
            TernaryTree::Branch3 { left, middle, right, .. } => {
                if idx < left.len() {
                    if left.len() == 1 {
                        Ok(Self::branch2(share(middle), share(right)))
                    } else {
                        let changed_branch = left.dissoc(idx)?;
                        proof {
                            changed_branch.lemma_wf_len();
                        }
                        Ok(Self::branch3(Arc::new(changed_branch), share(middle), share(right)))
                    }
                } else if idx < left.len() + middle.len() {
                    if middle.len() == 1 {
                        Ok(Self::branch2(share(left), share(right)))
                    } else {
                        let changed_branch = middle.dissoc(idx - left.len())?;
                        proof {
                            changed_branch.lemma_wf_len();
                        }
                        Ok(Self::branch3(share(left), Arc::new(changed_branch), share(right)))
                    }
                } else if right.len() == 1 {
                    Ok(Self::branch2(share(left), share(middle)))
                } else {
                    let changed_branch = right.dissoc(idx - left.len() - middle.len())?;
                    proof {
                        changed_branch.lemma_wf_len();
                    }
                    Ok(Self::branch3(share(left), share(middle), Arc::new(changed_branch)))
                }
            },
        }
    }

    /// The tree without its first element; an error for a tree of one
    /// element, which would leave no tree.
    pub fn rest(&self) -> (res: Result<Self, String>)
        requires
            self.wf(),
        ensures
            match res {
                Ok(tree) => {
                    &&& self.spec_len() >= 2
                    &&& tree == self.removed(0)
                    &&& tree.wf()
                    &&& tree@ == self@.drop_first()
                },
                Err(_) => self.spec_len() == 1,
            },
    {
        broadcast use TernaryTree::lemma_wf_len;

        if self.len() == 1 {
            Err(String::from_str("unexpected leaf for rest"))
        } else {
            self.dissoc(0)
        }
    }

    /// The tree without its last element; an error for a tree of one
    /// element, which would leave no tree.
    pub fn butlast(&self) -> (res: Result<Self, String>)
        requires
            self.wf(),
        ensures
            match res {
                Ok(tree) => {
                    &&& self.spec_len() >= 2
                    &&& tree == self.removed((self.spec_len() - 1) as nat)
                    &&& tree.wf()
                    &&& tree@ == self@.drop_last()
                },
                Err(_) => self.spec_len() == 1,
            },
    {
        broadcast use TernaryTree::lemma_wf_len;

        if self.len() == 1 {
            Err(String::from_str("unexpected leaf for butlast"))
        } else {
            self.dissoc(self.len() - 1)
        }
    }

    /// The tree with `item` put in just before the element at `idx`.
    ///
    /// Trees of one and two elements grow into a branch of two and of three.
    /// In a larger tree, an insertion before the first element whose left
    /// child is the largest of three puts the whole tree one level down,
    /// beside the new leaf, which keeps repeated insertion at the front
    /// cheap. Any other insertion goes down into the child that holds `idx`.
    pub fn insert_before(&self, idx: usize, item: T) -> (res: Result<Self, String>)
        requires
            self.wf(),
            idx < self.spec_len(),
            self.spec_len() < usize::MAX,
        ensures
            res matches Ok(tree) && tree == self.inserted_before(idx as nat, item) && tree.wf()
                && tree@ == self@.insert(idx as int, item),
        decreases self,
    {
        proof {
            self.lemma_parts();
            self.lemma_wf_len();
            self.lemma_inserted_before(idx as nat, item);
        }
        match self {
            TernaryTree::Leaf(_) => Ok(
                Self::branch2(Arc::new(Self::leaf(item)), Arc::new(self.duplicate())),
            ),
            TernaryTree::Branch2 { left, middle, size, .. } => {
                if *size == 2 {
                    if idx == 0 {
                        return Ok(
                            Self::branch3(Arc::new(Self::leaf(item)), share(left), share(middle)),
                        );
                    } else if idx == 1 {
                        return Ok(
                            Self::branch3(share(left), Arc::new(Self::leaf(item)), share(middle)),
                        );
                    } else {
                        return Err(
                            String::from_str(
                                "cannot insert before position 2 since only 2 elements here",
                            ),
                        );
                    }
                }
                if idx == 0 {
                    return Ok(
                        Self::branch3(Arc::new(Self::leaf(item)), share(left), share(middle)),
                    );
                }
                if idx < left.len() {
                    let changed_branch = left.insert_before(idx, item)?;
                    proof {
                        changed_branch.lemma_wf_len();
                    }
                    Ok(Self::branch2(Arc::new(changed_branch), share(middle)))
                } else {
                    let changed_branch = middle.insert_before(idx - left.len(), item)?;
                    proof {
                        changed_branch.lemma_wf_len();
                    }
                    Ok(Self::branch2(share(left), Arc::new(changed_branch)))
                }
            },
            TernaryTree::Branch3 { left, middle, right, .. } => {
                if idx == 0 && left.len() >= middle.len() && left.len() >= right.len() {
                    return Ok(
                        Self::branch2(Arc::new(Self::leaf(item)), Arc::new(self.duplicate())),
                    );
                }
                if idx < left.len() {
                    let changed_branch = left.insert_before(idx, item)?;
                    proof {
                        changed_branch.lemma_wf_len();
                    }
                    Ok(Self::branch3(Arc::new(changed_branch), share(middle), share(right)))
                } else if idx < left.len() + middle.len() {
                    let changed_branch = middle.insert_before(idx - left.len(), item)?;
                    proof {
                        changed_branch.lemma_wf_len();
                    }
                    Ok(Self::branch3(share(left), Arc::new(changed_branch), share(right)))
                } else {
                    let changed_branch = right.insert_before(
                        idx - left.len() - middle.len(),
                        item,
                    )?;
                    proof {
                        changed_branch.lemma_wf_len();
                    }
                    Ok(Self::branch3(share(left), share(middle), Arc::new(changed_branch)))
                }
            },
        }
    }

    /// The tree with `item` put in just after the element at `idx`.
    ///
    /// Trees of one and two elements grow into a branch of two and of three.
    /// In a larger tree, an insertion after the last element whose right
    /// child is the largest of three puts the whole tree one level down,
    /// beside the new leaf, which keeps repeated insertion at the back
    /// cheap. Any other insertion goes down into the child that holds `idx`.
    pub fn insert_after(&self, idx: usize, item: T) -> (res: Result<Self, String>)
        requires
            self.wf(),
            idx < self.spec_len(),
            self.spec_len() < usize::MAX,
        ensures
            res matches Ok(tree) && tree == self.inserted_after(idx as nat, item) && tree.wf()
                && tree@ == self@.insert(idx as int + 1, item),
        decreases self,
    {
        proof {
            self.lemma_parts();
            self.lemma_wf_len();
            self.lemma_inserted_after(idx as nat, item);
        }
        match self {
            TernaryTree::Leaf(_) => Ok(
                Self::branch2(Arc::new(self.duplicate()), Arc::new(Self::leaf(item))),
            ),
            TernaryTree::Branch2 { left, middle, size, .. } => {
                if *size == 2 {
                    if idx == 0 {
                        return Ok(
                            Self::branch3(share(left), Arc::new(Self::leaf(item)), share(middle)),
                        );
                    }
                    if idx == 1 {
                        return Ok(
                            Self::branch3(share(left), share(middle), Arc::new(Self::leaf(item))),
                        );
                    } else {
                        return Err(
                            String::from_str(
                                "cannot insert after position 2 since only 2 elements here",
                            ),
                        );
                    }
                }
                if idx == *size - 1 {
                    return Ok(
                        Self::branch3(share(left), share(middle), Arc::new(Self::leaf(item))),
                    );
                }
                if idx < left.len() {
                    let changed_branch = left.insert_after(idx, item)?;
                    proof {
                        changed_branch.lemma_wf_len();
                    }
                    Ok(Self::branch2(Arc::new(changed_branch), share(middle)))
                } else {
                    let changed_branch = middle.insert_after(idx - left.len(), item)?;
                    proof {
                        changed_branch.lemma_wf_len();
                    }
                    Ok(Self::branch2(share(left), Arc::new(changed_branch)))
                }
            },
            TernaryTree::Branch3 { left, middle, right, size, .. } => {
                if idx == *size - 1 && right.len() >= middle.len() && right.len() >= left.len() {
                    return Ok(
                        Self::branch2(Arc::new(self.duplicate()), Arc::new(Self::leaf(item))),
                    );
                }
                if idx < left.len() {
                    let changed_branch = left.insert_after(idx, item)?;
                    proof {
                        changed_branch.lemma_wf_len();
                    }
                    Ok(Self::branch3(Arc::new(changed_branch), share(middle), share(right)))
                } else if idx < left.len() + middle.len() {
                    let changed_branch = middle.insert_after(idx - left.len(), item)?;
                    proof {
                        changed_branch.lemma_wf_len();
                    }
                    Ok(Self::branch3(share(left), Arc::new(changed_branch), share(right)))
                } else {
                    let changed_branch = right.insert_after(
                        idx - left.len() - middle.len(),
                        item,
                    )?;
                    proof {
                        changed_branch.lemma_wf_len();
                    }
                    Ok(Self::branch3(share(left), share(middle), Arc::new(changed_branch)))
                }
            },
        }
    }

    /// [`Self::insert_before`] under its other name.
    pub fn assoc_before(&self, idx: usize, item: T) -> (res: Result<Self, String>)
        requires
            self.wf(),
            idx < self.spec_len(),
            self.spec_len() < usize::MAX,
        ensures
            res matches Ok(tree) && tree == self.inserted_before(idx as nat, item) && tree.wf()
                && tree@ == self@.insert(idx as int, item),
    {
        self.insert_before(idx, item)
    }

    /// [`Self::insert_after`] under its other name.
    pub fn assoc_after(&self, idx: usize, item: T) -> (res: Result<Self, String>)
        requires
            self.wf(),
            idx < self.spec_len(),
            self.spec_len() < usize::MAX,
        ensures
            res matches Ok(tree) && tree == self.inserted_after(idx as nat, item) && tree.wf()
                && tree@ == self@.insert(idx as int + 1, item),
    {
        self.insert_after(idx, item)
    }

    /// The tree with `item` put in before the first element.
    pub fn prepend(&self, item: T) -> (tree: Self)
        requires
            self.wf(),
            self.spec_len() < usize::MAX,
        ensures
            tree == self.inserted_before(0, item),
            tree.wf(),
            tree@ == seq![item] + self@,
    {
        broadcast use TernaryTree::lemma_wf_len;

        match self.insert_before(0, item) {
            Ok(tree) => tree,
            Err(_) => vstd::pervasive::unreached(),
        }
    }

    /// [`Self::prepend`] under its other name.
    pub fn unshift(&self, item: T) -> (tree: Self)
        requires
            self.wf(),
            self.spec_len() < usize::MAX,
        ensures
            tree == self.inserted_before(0, item),
            tree.wf(),
            tree@ == seq![item] + self@,
    {
        self.prepend(item)
    }
}

} // verus!
