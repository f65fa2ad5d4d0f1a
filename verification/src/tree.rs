//! The tree engine: the node type, its model as a sequence of elements, the
//! structural invariant, and the constructors every other module builds on.

pub mod access;
pub mod builder;
pub mod edit;
pub mod finger;
pub mod iter;
pub mod range;
pub mod search;
pub mod text;

use std::sync::Arc;
use vstd::prelude::*;

verus! {

/// A node of the tree. A tree always holds at least one element: the empty
/// sequence is the business of [`crate::TernaryTreeList`].
///
/// Children and elements sit behind shared handles, so that a new version of
/// a tree shares every subtree it did not touch with the version it came from.
#[derive(Debug)]
pub enum TernaryTree<T> {
    /// One element.
    Leaf(Arc<T>),
    /// Two subtrees, in order.
    Branch2 { size: usize, depth: usize, left: Arc<TernaryTree<T>>, middle: Arc<TernaryTree<T>> },
    /// Three subtrees, in order.
    Branch3 {
        size: usize,
        depth: usize,
        left: Arc<TernaryTree<T>>,
        middle: Arc<TernaryTree<T>>,
        right: Arc<TernaryTree<T>>,
    },
}

impl<T> View for TernaryTree<T> {
    type V = Seq<T>;

    /// The elements of the tree from left to right.
    open spec fn view(&self) -> Seq<T> {
        self.elements()
    }
}

/// `Arc::clone` of the standard library: the new handle points to the same
/// allocation, so as a value it equals the handle it was made from.
#[verifier::external_body]
pub(crate) fn share<T>(handle: &Arc<T>) -> (other: Arc<T>)
    ensures
        other == *handle,
{
    Arc::clone(handle)
}

impl<T> TernaryTree<T> {
    /// The elements of the tree from left to right: what `@` stands for.
    pub open spec fn elements(self) -> Seq<T>
        decreases self,
    {
        match self {
            TernaryTree::Leaf(value) => seq![*value],
            TernaryTree::Branch2 { left, middle, .. } => left.elements() + middle.elements(),
            TernaryTree::Branch3 { left, middle, right, .. } => left.elements()
                + middle.elements() + right.elements(),
        }
    }

    /// The tree behind a handle.
    pub open spec fn under(handle: Arc<Self>) -> Self {
        *handle
    }

    /// The recorded number of elements.
    pub open spec fn spec_len(self) -> nat {
        match self {
            TernaryTree::Leaf(_) => 1,
            TernaryTree::Branch2 { size, .. } => size as nat,
            TernaryTree::Branch3 { size, .. } => size as nat,
        }
    }

    /// The recorded depth: 0 for a leaf.
    pub open spec fn spec_depth(self) -> nat {
        match self {
            TernaryTree::Leaf(_) => 0,
            TernaryTree::Branch2 { depth, .. } => depth as nat,
            TernaryTree::Branch3 { depth, .. } => depth as nat,
        }
    }

    /// The structural invariant: every branch records the sum of its
    /// children's sizes and one more than the largest of their depths.
    pub open spec fn wf(self) -> bool
        decreases self,
    {
        match self {
            TernaryTree::Leaf(_) => true,
            TernaryTree::Branch2 { size, depth, left, middle } => {
                &&& left.wf()
                &&& middle.wf()
                &&& size == left.spec_len() + middle.spec_len()
                &&& depth == 1 + vstd::math::max(
                    left.spec_depth() as int,
                    middle.spec_depth() as int,
                )
            },
            TernaryTree::Branch3 { size, depth, left, middle, right } => {
                &&& left.wf()
                &&& middle.wf()
                &&& right.wf()
                &&& size == left.spec_len() + middle.spec_len() + right.spec_len()
                &&& depth == 1 + vstd::math::max3(
                    left.spec_depth() as int,
                    middle.spec_depth() as int,
                    right.spec_depth() as int,
                )
            },
        }
    }

    /// In a well-formed tree the recorded size is the number of elements,
    /// no tree is empty, and the depth stays below the size.
    pub broadcast proof fn lemma_wf_len(&self)
        requires
            #[trigger] self.wf(),
        ensures
            self.spec_len() == self@.len(),
            self.spec_len() >= 1,
            self.spec_depth() < self.spec_len(),
        decreases self,
    {
        match self {
            TernaryTree::Leaf(_) => {},
            TernaryTree::Branch2 { left, middle, .. } => {
                left.lemma_wf_len();
                middle.lemma_wf_len();
            },
            TernaryTree::Branch3 { left, middle, right, .. } => {
                left.lemma_wf_len();
                middle.lemma_wf_len();
                right.lemma_wf_len();
            },
        }
    }

    /// A tree holds at least one element, well-formed or not.
    pub proof fn lemma_never_empty(&self)
        ensures
            self@.len() >= 1,
        decreases self,
    {
        match self {
            TernaryTree::Leaf(_) => {},
            TernaryTree::Branch2 { left, .. } => {
                left.lemma_never_empty();
            },
            TernaryTree::Branch3 { left, .. } => {
                left.lemma_never_empty();
            },
        }
    }

    /// What well-formedness of a branch says of its children, and how the
    /// elements of the branch are made of theirs.
    pub proof fn lemma_parts(&self)
        requires
            self.wf(),
        ensures
            match *self {
                TernaryTree::Leaf(value) => self@ == seq![*value],
                TernaryTree::Branch2 { left, middle, .. } => {
                    &&& left.wf()
                    &&& middle.wf()
                    &&& 1 <= left.spec_len() == left@.len()
                    &&& 1 <= middle.spec_len() == middle@.len()
                    &&& self@ == left@ + middle@
                    &&& self.spec_len() == left.spec_len() + middle.spec_len()
                },
                TernaryTree::Branch3 { left, middle, right, .. } => {
                    &&& left.wf()
                    &&& middle.wf()
                    &&& right.wf()
                    &&& 1 <= left.spec_len() == left@.len()
                    &&& 1 <= middle.spec_len() == middle@.len()
                    &&& 1 <= right.spec_len() == right@.len()
                    &&& self@ == left@ + middle@ + right@
                    &&& self.spec_len() == left.spec_len() + middle.spec_len() + right.spec_len()
                },
            },
    {
        match self {
            TernaryTree::Leaf(value) => {
                assert(self@ =~= seq![**value]);
            },
            TernaryTree::Branch2 { left, middle, .. } => {
                left.lemma_wf_len();
                middle.lemma_wf_len();
                assert(self@ =~= left@ + middle@);
            },
            TernaryTree::Branch3 { left, middle, right, .. } => {
                left.lemma_wf_len();
                middle.lemma_wf_len();
                right.lemma_wf_len();
                assert(self@ =~= left@ + middle@ + right@);
            },
        }
    }

    /// Number of elements.
    pub fn len(&self) -> (n: usize)
        ensures
            n == self.spec_len(),
    {
        match self {
            TernaryTree::Leaf(_) => 1,
            TernaryTree::Branch2 { size, .. } => *size,
            TernaryTree::Branch3 { size, .. } => *size,
        }
    }

    /// A tree is never empty.
    pub fn is_empty(&self) -> (b: bool)
        ensures
            !b,
    {
        false
    }

    /// Depth of the tree, read from the root.
    pub fn depth(&self) -> (d: usize)
        ensures
            d == self.spec_depth(),
    {
        match self {
            TernaryTree::Leaf(_) => 0,
            TernaryTree::Branch2 { depth, .. } => *depth,
            TernaryTree::Branch3 { depth, .. } => *depth,
        }
    }

    /// A second handle on the same tree: the root node is copied, everything
    /// below it is shared.
    pub fn duplicate(&self) -> (other: Self)
        ensures
            other == *self,
    {
        match self {
            TernaryTree::Leaf(value) => TernaryTree::Leaf(share(value)),
            TernaryTree::Branch2 { size, depth, left, middle } => TernaryTree::Branch2 {
                size: *size,
                depth: *depth,
                left: share(left),
                middle: share(middle),
            },
            TernaryTree::Branch3 { size, depth, left, middle, right } => TernaryTree::Branch3 {
                size: *size,
                depth: *depth,
                left: share(left),
                middle: share(middle),
                right: share(right),
            },
        }
    }

    /// The branch of two over `left` and `middle`, as a value.
    #[verifier::opaque]
    pub open spec fn node2(left: Self, middle: Self) -> Self {
        TernaryTree::Branch2 {
            size: (left.spec_len() + middle.spec_len()) as usize,
            depth: (1 + vstd::math::max(left.spec_depth() as int, middle.spec_depth() as int))
                as usize,
            left: Arc::new(left),
            middle: Arc::new(middle),
        }
    }

    /// The branch of three over `left`, `middle` and `right`, as a value.
    #[verifier::opaque]
    pub open spec fn node3(left: Self, middle: Self, right: Self) -> Self {
        TernaryTree::Branch3 {
            size: (left.spec_len() + middle.spec_len() + right.spec_len()) as usize,
            depth: (1 + vstd::math::max3(
                left.spec_depth() as int,
                middle.spec_depth() as int,
                right.spec_depth() as int,
            )) as usize,
            left: Arc::new(left),
            middle: Arc::new(middle),
            right: Arc::new(right),
        }
    }

    /// What [`Self::node2`] and [`Self::node3`] are, spelled out.
    pub proof fn lemma_nodes(left: Self, middle: Self, right: Self)
        ensures
            Self::node2(left, middle) == (TernaryTree::Branch2 {
                size: (left.spec_len() + middle.spec_len()) as usize,
                depth: (1 + vstd::math::max(left.spec_depth() as int, middle.spec_depth() as int))
                    as usize,
                left: Arc::new(left),
                middle: Arc::new(middle),
            }),
            Self::node3(left, middle, right) == (TernaryTree::Branch3 {
                size: (left.spec_len() + middle.spec_len() + right.spec_len()) as usize,
                depth: (1 + vstd::math::max3(
                    left.spec_depth() as int,
                    middle.spec_depth() as int,
                    right.spec_depth() as int,
                )) as usize,
                left: Arc::new(left),
                middle: Arc::new(middle),
                right: Arc::new(right),
            }),
    {
        reveal(TernaryTree::node2);
        reveal(TernaryTree::node3);
    }

    /// The branch of two over well-formed subtrees is well-formed and
    /// holds their elements in order.
    pub proof fn lemma_node2(left: &Self, middle: &Self)
        requires
            left.wf(),
            middle.wf(),
            left.spec_len() + middle.spec_len() <= usize::MAX,
        ensures
            Self::node2(*left, *middle).wf(),
            Self::node2(*left, *middle)@ == left@ + middle@,
            Self::node2(*left, *middle).spec_len() == left.spec_len() + middle.spec_len(),
            Self::node2(*left, *middle).spec_depth() == 1 + vstd::math::max(
                left.spec_depth() as int,
                middle.spec_depth() as int,
            ),
    {
        reveal(TernaryTree::node2);
        left.lemma_wf_len();
        middle.lemma_wf_len();
        assert(Self::node2(*left, *middle)@ =~= left@ + middle@);
    }

    /// The branch of three over well-formed subtrees is well-formed and
    /// holds their elements in order.
    pub proof fn lemma_node3(left: &Self, middle: &Self, right: &Self)
        requires
            left.wf(),
            middle.wf(),
            right.wf(),
            left.spec_len() + middle.spec_len() + right.spec_len() <= usize::MAX,
        ensures
            Self::node3(*left, *middle, *right).wf(),
            Self::node3(*left, *middle, *right)@ == left@ + middle@ + right@,
            Self::node3(*left, *middle, *right).spec_len() == left.spec_len() + middle.spec_len()
                + right.spec_len(),
            Self::node3(*left, *middle, *right).spec_depth() == 1 + vstd::math::max3(
                left.spec_depth() as int,
                middle.spec_depth() as int,
                right.spec_depth() as int,
            ),
    {
        reveal(TernaryTree::node3);
        left.lemma_wf_len();
        middle.lemma_wf_len();
        right.lemma_wf_len();
        assert(Self::node3(*left, *middle, *right)@ =~= left@ + middle@ + right@);
    }

    /// The tree of one element.
    pub fn leaf(item: T) -> (tree: Self)
        ensures
            tree == TernaryTree::Leaf(Arc::new(item)),
            tree.wf(),
            tree@ == seq![item],
    {
        TernaryTree::Leaf(Arc::new(item))
    }

    /// The branch over two well-formed subtrees.
    pub fn branch2(left: Arc<Self>, middle: Arc<Self>) -> (tree: Self)
        requires
            left.wf(),
            middle.wf(),
            left.spec_len() + middle.spec_len() <= usize::MAX,
        ensures
            tree.wf(),
            tree == Self::node2(*left, *middle),
            tree@ == left@ + middle@,
            tree.spec_len() == left.spec_len() + middle.spec_len(),
            tree.spec_depth() == 1 + vstd::math::max(
                left.spec_depth() as int,
                middle.spec_depth() as int,
            ),
    {
        broadcast use TernaryTree::lemma_wf_len;

        reveal(TernaryTree::node2);
        let size = left.len() + middle.len();
        let dl = left.depth();
        let dm = middle.depth();
        let depth = 1 + if dl >= dm {
            dl
        } else {
            dm
        };
        TernaryTree::Branch2 { size, depth, left, middle }
    }

    /// The branch over three well-formed subtrees.
    pub fn branch3(left: Arc<Self>, middle: Arc<Self>, right: Arc<Self>) -> (tree: Self)
        requires
            left.wf(),
            middle.wf(),
            right.wf(),
            left.spec_len() + middle.spec_len() + right.spec_len() <= usize::MAX,
        ensures
            tree.wf(),
            tree == Self::node3(*left, *middle, *right),
            tree@ == left@ + middle@ + right@,
            tree.spec_len() == left.spec_len() + middle.spec_len() + right.spec_len(),
            tree.spec_depth() == 1 + vstd::math::max3(
                left.spec_depth() as int,
                middle.spec_depth() as int,
                right.spec_depth() as int,
            ),
    {
        broadcast use TernaryTree::lemma_wf_len;

        reveal(TernaryTree::node3);
        let size = left.len() + middle.len() + right.len();
        let dl = left.depth();
        let dm = middle.depth();
        let dr = right.depth();
        let deepest = if dl >= dm && dl >= dr {
            dl
        } else if dm >= dr {
            dm
        } else {
            dr
        };
        TernaryTree::Branch3 { size, depth: 1 + deepest, left, middle, right }
    }
}

} // verus!
