//! Cursors over a tree: one that walks the structure of the tree and hands
//! out its elements behind their shared handles, and one that reads the
//! elements by their indices.

use crate::seqs::lemma_regroup;
use crate::tree::share;
use crate::tree::TernaryTree;
use std::sync::Arc;
use vstd::prelude::*;

verus! {

/// A cursor that walks a tree from left to right. It holds the subtree
/// that it is about to enter, and behind it the cursor for what comes
/// after that subtree.
pub struct TernaryTreeIntoIter<T> {
    children: Option<Arc<TernaryTree<T>>>,
    parent: Option<Arc<TernaryTreeIntoIter<T>>>,
}

impl<T> TernaryTreeIntoIter<T> {
    /// What comes after the subtree that the cursor is about to enter.
    pub closed spec fn later(self) -> Seq<T>
        decreases self,
    {
        match self.parent {
            None => Seq::empty(),
            Some(parent) => parent.remaining(),
        }
    }

    /// The elements that the cursor has still to hand out, in order.
    pub closed spec fn remaining(self) -> Seq<T>
        decreases self,
    {
        match self.children {
            None => Seq::empty(),
            Some(tree) => tree@ + match self.parent {
                None => Seq::empty(),
                Some(parent) => parent.remaining(),
            },
        }
    }

    /// Every tree that the cursor holds is well-formed.
    pub closed spec fn wf(self) -> bool
        decreases self,
    {
        &&& match self.children {
            None => true,
            Some(tree) => tree.wf(),
        }
        &&& match self.parent {
            None => true,
            Some(parent) => parent.wf(),
        }
    }

    /// How deep the subtree is that the cursor is about to enter.
    pub closed spec fn head_depth(self) -> nat {
        match self.children {
            None => 0,
            Some(tree) => tree.spec_depth(),
        }
    }

    /// The cursor at the start of `tree`.
    pub fn new(tree: TernaryTree<T>) -> (walk: Self)
        requires
            tree.wf(),
        ensures
            walk.wf(),
            walk.remaining() == tree@,
    {
        let walk = TernaryTreeIntoIter { children: Some(Arc::new(tree)), parent: None };
        assert(walk.remaining() =~= tree@);
        walk
    }

    /// A second handle on the same cursor.
    pub fn duplicate(&self) -> (other: Self)
        ensures
            other == *self,
    {
        TernaryTreeIntoIter {
            children: match &self.children {
                Some(tree) => Some(share(tree)),
                None => None,
            },
            parent: match &self.parent {
                Some(parent) => Some(share(parent)),
                None => None,
            },
        }
    }

    /// Hands out the next element and moves on, or `None` at the end. At a
    /// branch the cursor enters the left child and keeps the other
    /// children, as one subtree, for later.
    pub fn next(&mut self) -> (item: Option<Arc<T>>)
        requires
            old(self).wf(),
        ensures
            final(self).wf(),
            match item {
                Some(handle) => {
                    &&& old(self).remaining().len() > 0
                    &&& *handle == old(self).remaining()[0]
                    &&& final(self).remaining() == old(self).remaining().drop_first()
                },
                None => old(self).remaining().len() == 0 && *final(self) == *old(self),
            },
        decreases old(self).head_depth(),
    {
        let target = match &self.children {
            None => {
                return None;
            },
            Some(tree) => share(tree),
        };
        proof {
            target.lemma_parts();
            target.lemma_wf_len();
        }
        let ghost later = self.later();
        assert(self.remaining() == target@ + later);
        match &*target {
            TernaryTree::Leaf(x) => {
                let item = share(x);
                let up = match &self.parent {
                    None => TernaryTreeIntoIter { children: None, parent: None },
                    Some(p) => p.duplicate(),
                };
                *self = up;
                assert(self.remaining() =~= (target@ + later).drop_first());
                Some(item)
            },
            TernaryTree::Branch2 { left, middle, .. } => {
                let mut parent = self.duplicate();
                parent.children = Some(share(middle));
                assert(parent.wf());
                assert(parent.remaining() == middle@ + later);
                *self = TernaryTreeIntoIter {
                    children: Some(share(left)),
                    parent: Some(Arc::new(parent)),
                };
                proof {
                    lemma_regroup(left@, middle@, later);
                    assert(self.wf());
                }
                self.next()
            },
            TernaryTree::Branch3 { left, middle, right, .. } => {
                let mut parent = self.duplicate();
                parent.children = Some(
                    Arc::new(TernaryTree::branch2(share(middle), share(right))),
                );
                assert(parent.wf());
                assert(parent.remaining() == middle@ + right@ + later);
                *self = TernaryTreeIntoIter {
                    children: Some(share(left)),
                    parent: Some(Arc::new(parent)),
                };
                proof {
                    lemma_regroup(left@, middle@ + right@, later);
                    lemma_regroup(left@, middle@, right@);
                    lemma_regroup(left@ + middle@, right@, later);
                    assert(self.wf());
                }
                self.next()
            },
        }
    }
}

impl<T> Default for TernaryTreeIntoIter<T> {
    /// The cursor that has nothing to hand out.
    fn default() -> (walk: Self)
        ensures
            walk.wf(),
            walk.remaining() == Seq::<T>::empty(),
    {
        TernaryTreeIntoIter { children: None, parent: None }
    }
}

/// A cursor that reads the elements of a tree by their indices, from the
/// first to the last.
pub struct TernaryTreeIterator<'a, T> {
    value: &'a TernaryTree<T>,
    index: usize,
    size: usize,
}

impl<'a, T> TernaryTreeIterator<'a, T> {
    /// The cursor stands in a well-formed tree, at an index up to its size.
    pub closed spec fn wf(self) -> bool {
        &&& self.value.wf()
        &&& self.size == self.value.spec_len()
        &&& self.index <= self.size
    }

    /// The elements that the cursor has still to hand out, in order.
    pub closed spec fn remaining(self) -> Seq<T> {
        self.value@.skip(self.index as int)
    }

    /// The cursor at the start of `tree`.
    pub fn new(tree: &'a TernaryTree<T>) -> (walk: Self)
        requires
            tree.wf(),
        ensures
            walk.wf(),
            walk.remaining() == tree@,
    {
        assert(tree@.skip(0) =~= tree@);
        TernaryTreeIterator { value: tree, index: 0, size: tree.len() }
    }

    /// Hands out the next element and moves on, or `None` at the end.
    pub fn next(&mut self) -> (item: Option<&'a T>)
        requires
            old(self).wf(),
        ensures
            final(self).wf(),
            match item {
                Some(element) => {
                    &&& old(self).remaining().len() > 0
                    &&& *element == old(self).remaining()[0]
                    &&& final(self).remaining() == old(self).remaining().drop_first()
                },
                None => old(self).remaining().len() == 0 && *final(self) == *old(self),
            },
    {
        broadcast use TernaryTree::lemma_wf_len;

        if self.index < self.size {
            let ret = self.value.loop_get(self.index);
            assert(self.value@.skip(self.index + 1) =~= self.value@.skip(
                self.index as int,
            ).drop_first());
            self.index = self.index + 1;
            Some(ret)
        } else {
            None
        }
    }
}

} // verus!
