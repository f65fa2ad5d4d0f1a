//! Building a tree from a row of subtrees, and what rests on it: joining
//! trees, and rebuilding a tree that has grown too deep for its size.

use crate::tree::TernaryTree;
use crate::util::divide_ternary_sizes;
use crate::util::lemma_levels_increases;
use crate::util::lemma_pow3_fits;
use crate::util::levels;
use crate::util::pow3;
use crate::util::spec_divide;
use crate::util::spec_triple_size;
use crate::util::triple_size;
use std::sync::Arc;
use vstd::prelude::*;

verus! {

/// The elements of a row of trees: those of the first tree, then those of
/// the second, and so on.
#[verifier::opaque]
pub open spec fn flat<T>(trees: Seq<TernaryTree<T>>) -> Seq<T>
    decreases trees.len(),
{
    if trees.len() == 0 {
        Seq::empty()
    } else {
        flat(trees.drop_last()) + trees.last()@
    }
}

/// Every tree of the row is well-formed.
pub open spec fn all_wf<T>(trees: Seq<TernaryTree<T>>) -> bool {
    forall|i: int| 0 <= i < trees.len() ==> (#[trigger] trees[i]).wf()
}

/// The elements of two rows put end to end are those of the first row
/// followed by those of the second.
pub proof fn lemma_flat_concat<T>(a: Seq<TernaryTree<T>>, b: Seq<TernaryTree<T>>)
    ensures
        flat(a + b) == flat(a) + flat(b),
    decreases b.len(),
{
    reveal(flat);
    if b.len() == 0 {
        assert(a + b =~= a);
    } else {
        lemma_flat_concat(a, b.drop_last());
        assert((a + b).drop_last() =~= a + b.drop_last());
        assert((a + b).last() == b.last());
        assert(flat(a + b) =~= flat(a) + flat(b));
    }
}

/// The elements of a row of one tree are the elements of that tree.
pub proof fn lemma_flat_one<T>(trees: Seq<TernaryTree<T>>)
    requires
        trees.len() == 1,
    ensures
        flat(trees) == trees[0]@,
{
    reveal(flat);
    assert(flat(trees.drop_last()) =~= Seq::<T>::empty());
    assert(flat(trees) =~= trees[0]@);
}

/// A row with one more tree at its end holds the elements of that tree
/// after those of the row.
pub proof fn lemma_flat_push<T>(trees: Seq<TernaryTree<T>>, tree: TernaryTree<T>)
    ensures
        flat(trees.push(tree)) == flat(trees) + tree@,
{
    reveal(flat);
    assert(trees.push(tree).drop_last() =~= trees);
}

/// A row of no trees holds no elements.
pub proof fn lemma_flat_none<T>()
    ensures
        flat(Seq::<TernaryTree<T>>::empty()) == Seq::<T>::empty(),
{
    reveal(flat);
}

/// A stretch of a row, cut in two at `mid`, has the elements of its first
/// part followed by those of its second part.
pub proof fn lemma_flat_split<T>(trees: Seq<TernaryTree<T>>, from: int, mid: int, to: int)
    requires
        0 <= from <= mid <= to <= trees.len(),
    ensures
        flat(trees.subrange(from, to)) == flat(trees.subrange(from, mid)) + flat(
            trees.subrange(mid, to),
        ),
{
    assert(trees.subrange(from, to) =~= trees.subrange(from, mid) + trees.subrange(mid, to));
    lemma_flat_concat(trees.subrange(from, mid), trees.subrange(mid, to));
}

/// A stretch of a row cut in three: each part is a stretch of the row, the
/// parts hold the elements of the whole in order, and none holds more
/// elements than the whole.
pub proof fn lemma_flat_three<T>(
    trees: Seq<TernaryTree<T>>,
    from: int,
    first: int,
    second: int,
    to: int,
)
    requires
        0 <= from <= first <= second <= to <= trees.len(),
    ensures
        ({
            let row = trees.subrange(from, to);
            let a = trees.subrange(from, first);
            let b = trees.subrange(first, second);
            let c = trees.subrange(second, to);
            &&& row.subrange(0, first - from) == a
            &&& row.subrange(first - from, second - from) == b
            &&& row.subrange(second - from, to - from) == c
            &&& flat(row) == flat(a) + flat(b) + flat(c)
            &&& flat(a).len() <= flat(row).len()
            &&& flat(b).len() <= flat(row).len()
            &&& flat(c).len() <= flat(row).len()
        }),
{
    let row = trees.subrange(from, to);
    lemma_flat_split(trees, from, first, to);
    lemma_flat_split(trees, first, second, to);
    assert(row.subrange(0, first - from) =~= trees.subrange(from, first));
    assert(row.subrange(first - from, second - from) =~= trees.subrange(first, second));
    assert(row.subrange(second - from, to - from) =~= trees.subrange(second, to));
    assert(flat(row) =~= flat(trees.subrange(from, first)) + flat(trees.subrange(first, second))
        + flat(trees.subrange(second, to)));
}

/// A row of one, of two and of three trees holds the elements of its trees
/// in order.
pub proof fn lemma_flat_few<T>(trees: Seq<TernaryTree<T>>)
    requires
        1 <= trees.len() <= 3,
    ensures
        trees.len() == 1 ==> flat(trees) == trees[0]@,
        trees.len() == 2 ==> flat(trees) == trees[0]@ + trees[1]@,
        trees.len() == 3 ==> flat(trees) == trees[0]@ + trees[1]@ + trees[2]@,
{
    let n = trees.len() as int;
    assert(trees.subrange(0, n) =~= trees);
    if n == 1 {
        lemma_flat_one(trees);
    } else if n == 2 {
        lemma_flat_split(trees, 0, 1, 2);
        lemma_flat_one(trees.subrange(0, 1));
        lemma_flat_one(trees.subrange(1, 2));
    } else {
        lemma_flat_split(trees, 0, 1, 3);
        lemma_flat_split(trees, 1, 2, 3);
        lemma_flat_one(trees.subrange(0, 1));
        lemma_flat_one(trees.subrange(1, 2));
        lemma_flat_one(trees.subrange(2, 3));
    }
}

/// The tree that the even builder makes of a row of subtrees: the row is
/// divided in three parts that differ in length by at most one, down to
/// rows of one, two or three subtrees.
#[verifier::opaque]
pub open spec fn even_shape<T>(trees: Seq<TernaryTree<T>>) -> TernaryTree<T>
    decreases trees.len(),
{
    let n = trees.len();
    if n <= 1 {
        trees[0]
    } else if n == 2 {
        TernaryTree::node2(trees[0], trees[1])
    } else if n == 3 {
        TernaryTree::node3(trees[0], trees[1], trees[2])
    } else {
        let parts = spec_divide(n);
        TernaryTree::node3(
            even_shape(trees.subrange(0, parts.0 as int)),
            even_shape(trees.subrange(parts.0 as int, (parts.0 + parts.1) as int)),
            even_shape(trees.subrange((parts.0 + parts.1) as int, n as int)),
        )
    }
}

/// The tree that the builder with shallow ends makes of a row of subtrees.
/// While the row is longer than two side branches of three to the power
/// `factor - 1` subtrees, one such branch is set apart at each end and built
/// evenly, and the rest goes to the middle with a `factor` one larger; what
/// remains in the end is built evenly.
#[verifier::opaque]
pub open spec fn finger_shape<T>(trees: Seq<TernaryTree<T>>, factor: nat) -> TernaryTree<T>
    decreases trees.len(),
{
    let n = trees.len();
    let side = spec_triple_size((factor - 1) as nat);
    if n > 3 && factor >= 1 && 1 <= side && 2 * side < n {
        TernaryTree::node3(
            even_shape(trees.subrange(0, side as int)),
            finger_shape(trees.subrange(side as int, n - side), factor + 1),
            even_shape(trees.subrange(n - side, n as int)),
        )
    } else {
        even_shape(trees)
    }
}

/// The even tree over a row, spelled out one level deep.
pub proof fn lemma_even_shape<T>(trees: Seq<TernaryTree<T>>)
    ensures
        trees.len() <= 1 ==> even_shape(trees) == trees[0],
        trees.len() == 2 ==> even_shape(trees) == TernaryTree::node2(trees[0], trees[1]),
        trees.len() == 3 ==> even_shape(trees) == TernaryTree::node3(
            trees[0],
            trees[1],
            trees[2],
        ),
        trees.len() > 3 ==> even_shape(trees) == ({
            let parts = spec_divide(trees.len());
            TernaryTree::node3(
                even_shape(trees.subrange(0, parts.0 as int)),
                even_shape(trees.subrange(parts.0 as int, (parts.0 + parts.1) as int)),
                even_shape(trees.subrange((parts.0 + parts.1) as int, trees.len() as int)),
            )
        }),
{
    reveal(even_shape);
}

/// The tree with shallow ends over a row, spelled out one level deep.
pub proof fn lemma_finger_shape<T>(trees: Seq<TernaryTree<T>>, factor: nat)
    ensures
        ({
            let n = trees.len();
            let side = spec_triple_size((factor - 1) as nat);
            finger_shape(trees, factor) == if n > 3 && factor >= 1 && 1 <= side && 2 * side < n {
                TernaryTree::node3(
                    even_shape(trees.subrange(0, side as int)),
                    finger_shape(trees.subrange(side as int, n - side), factor + 1),
                    even_shape(trees.subrange(n - side, n as int)),
                )
            } else {
                even_shape(trees)
            }
        }),
{
    reveal(finger_shape);
}

/// The even tree over a row of well-formed trees is well-formed and holds
/// the elements of the row in order.
pub proof fn lemma_even_shape_holds<T>(trees: Seq<TernaryTree<T>>)
    requires
        trees.len() >= 1,
        all_wf(trees),
        flat(trees).len() <= usize::MAX,
    ensures
        even_shape(trees).wf(),
        even_shape(trees)@ == flat(trees),
    decreases trees.len(),
{
    let n = trees.len() as int;
    lemma_even_shape(trees);
    assert(trees.subrange(0, n) =~= trees);
    if n <= 3 {
        lemma_flat_few(trees);
        if n == 2 {
            trees[0].lemma_wf_len();
            trees[1].lemma_wf_len();
            TernaryTree::lemma_node2(&trees[0], &trees[1]);
        } else if n == 3 {
            trees[0].lemma_wf_len();
            trees[1].lemma_wf_len();
            trees[2].lemma_wf_len();
            TernaryTree::lemma_node3(&trees[0], &trees[1], &trees[2]);
        }
    } else {
        let parts = spec_divide(n as nat);
        let first = parts.0 as int;
        let second = (parts.0 + parts.1) as int;
        lemma_flat_three(trees, 0, first, second, n);
        let a = trees.subrange(0, first);
        let b = trees.subrange(first, second);
        let c = trees.subrange(second, n);
        lemma_even_shape_holds(a);
        lemma_even_shape_holds(b);
        lemma_even_shape_holds(c);
        even_shape(a).lemma_wf_len();
        even_shape(b).lemma_wf_len();
        even_shape(c).lemma_wf_len();
        TernaryTree::lemma_node3(&even_shape(a), &even_shape(b), &even_shape(c));
    }
}

/// Every tree of the row is a leaf.
pub open spec fn all_leaves<T>(trees: Seq<TernaryTree<T>>) -> bool {
    forall|i: int| 0 <= i < trees.len() ==> (#[trigger] trees[i]) is Leaf
}

/// The even tree over a row of leaves has as few levels as a tree of so
/// many leaves can have.
pub proof fn lemma_even_shape_depth<T>(trees: Seq<TernaryTree<T>>)
    requires
        trees.len() >= 1,
        all_leaves(trees),
        trees.len() <= usize::MAX,
    ensures
        even_shape(trees).spec_depth() == levels(trees.len()),
        even_shape(trees).spec_len() == trees.len(),
    decreases trees.len(),
{
    let n = trees.len() as int;
    lemma_even_shape(trees);
    assert(levels(1) == 0);
    assert(levels(2) == 1) by {
        reveal_with_fuel(levels, 3);
    }
    assert(levels(3) == 1) by {
        reveal_with_fuel(levels, 3);
    }
    if n == 1 {
        assert(trees[0] is Leaf);
    } else if n == 2 {
        assert(trees[0] is Leaf && trees[1] is Leaf);
        TernaryTree::lemma_nodes(trees[0], trees[1], trees[1]);
    } else if n == 3 {
        assert(trees[0] is Leaf && trees[1] is Leaf && trees[2] is Leaf);
        TernaryTree::lemma_nodes(trees[0], trees[1], trees[2]);
    } else {
        let parts = spec_divide(n as nat);
        let first = parts.0 as int;
        let second = (parts.0 + parts.1) as int;
        let a = trees.subrange(0, first);
        let b = trees.subrange(first, second);
        let c = trees.subrange(second, n);
        assert(all_leaves(a)) by {
            assert forall|i: int| 0 <= i < a.len() implies (#[trigger] a[i]) is Leaf by {
                assert(trees[i] is Leaf);
            }
        }
        assert(all_leaves(b)) by {
            assert forall|i: int| 0 <= i < b.len() implies (#[trigger] b[i]) is Leaf by {
                assert(trees[i + first] is Leaf);
            }
        }
        assert(all_leaves(c)) by {
            assert forall|i: int| 0 <= i < c.len() implies (#[trigger] c[i]) is Leaf by {
                assert(trees[i + second] is Leaf);
            }
        }
        lemma_even_shape_depth(a);
        lemma_even_shape_depth(b);
        lemma_even_shape_depth(c);
        TernaryTree::lemma_nodes(even_shape(a), even_shape(b), even_shape(c));
        let third = ((n + 2) / 3) as nat;
        lemma_levels_increases(a.len(), third);
        lemma_levels_increases(b.len(), third);
        lemma_levels_increases(c.len(), third);
        crate::util::lemma_levels_small(third);
        assert(a.len() == third || b.len() == third);
        assert(levels(n as nat) == 1 + levels(third));
    }
}

/// The tree with shallow ends over a row of leaves is at most about twice
/// as deep as a tree of so many leaves needs to be: for the root, whose
/// `factor` is 2, its depth stays below twice the least number of levels.
pub proof fn lemma_finger_shape_depth<T>(trees: Seq<TernaryTree<T>>, factor: nat)
    requires
        trees.len() >= 1,
        all_leaves(trees),
        trees.len() <= usize::MAX,
        factor >= 1,
    ensures
        finger_shape(trees, factor).spec_len() == trees.len(),
        finger_shape(trees, factor).spec_depth() <= vstd::math::max(
            levels(trees.len()) as int,
            2 * levels(trees.len()) - factor + 1,
        ),
    decreases trees.len(),
{
    let n = trees.len() as int;
    let side = spec_triple_size((factor - 1) as nat) as int;
    lemma_finger_shape(trees, factor);
    lemma_even_shape_depth(trees);
    if n > 3 && 1 <= side && 2 * side < n {
        let a = trees.subrange(0, side);
        let b = trees.subrange(side, n - side);
        let c = trees.subrange(n - side, n);
        assert(all_leaves(a)) by {
            assert forall|i: int| 0 <= i < a.len() implies (#[trigger] a[i]) is Leaf by {
                assert(trees[i] is Leaf);
            }
        }
        assert(all_leaves(b)) by {
            assert forall|i: int| 0 <= i < b.len() implies (#[trigger] b[i]) is Leaf by {
                assert(trees[i + side] is Leaf);
            }
        }
        assert(all_leaves(c)) by {
            assert forall|i: int| 0 <= i < c.len() implies (#[trigger] c[i]) is Leaf by {
                assert(trees[i + n - side] is Leaf);
            }
        }
        lemma_even_shape_depth(a);
        lemma_finger_shape_depth(b, factor + 1);
        lemma_even_shape_depth(c);
        TernaryTree::lemma_nodes(even_shape(a), finger_shape(b, factor + 1), even_shape(c));
        // a side holds three to the power `factor - 1` leaves, in `factor - 1` levels
        assert(side == crate::util::pow3((factor - 1) as nat));
        crate::util::lemma_levels_least(side as nat, (factor - 1) as nat);
        // the whole row holds more, so it needs `factor` levels at least
        assert(levels(n as nat) >= factor) by {
            crate::util::lemma_levels_fit(n as nat);
            if levels(n as nat) < factor {
                crate::util::lemma_pow3_increases(levels(n as nat), (factor - 1) as nat);
            }
        }
        lemma_levels_increases(b.len(), n as nat);
        crate::util::lemma_levels_small(n as nat);
    }
}

/// The tree with shallow ends over a row of well-formed trees is
/// well-formed and holds the elements of the row in order.
pub proof fn lemma_finger_shape_holds<T>(trees: Seq<TernaryTree<T>>, factor: nat)
    requires
        trees.len() >= 1,
        all_wf(trees),
        flat(trees).len() <= usize::MAX,
    ensures
        finger_shape(trees, factor).wf(),
        finger_shape(trees, factor)@ == flat(trees),
    decreases trees.len(),
{
    let n = trees.len() as int;
    let side = spec_triple_size((factor - 1) as nat) as int;
    lemma_finger_shape(trees, factor);
    lemma_even_shape_holds(trees);
    assert(trees.subrange(0, n) =~= trees);
    if n > 3 && factor >= 1 && 1 <= side && 2 * side < n {
        lemma_flat_three(trees, 0, side, n - side, n);
        let a = trees.subrange(0, side);
        let b = trees.subrange(side, n - side);
        let c = trees.subrange(n - side, n);
        lemma_even_shape_holds(a);
        lemma_finger_shape_holds(b, factor + 1);
        lemma_even_shape_holds(c);
        even_shape(a).lemma_wf_len();
        finger_shape(b, factor + 1).lemma_wf_len();
        even_shape(c).lemma_wf_len();
        TernaryTree::lemma_node3(&even_shape(a), &finger_shape(b, factor + 1), &even_shape(c));
    }
}

impl<T> TernaryTree<T> {
    /// The leaves of the tree from left to right, each as a tree of its own.
    pub open spec fn leaves(self) -> Seq<TernaryTree<T>> {
        self@.map_values(|value: T| TernaryTree::Leaf(Arc::new(value)))
    }

    /// The leaves of a tree hold its elements, one each.
    pub proof fn lemma_leaves(&self)
        ensures
            flat(self.leaves()) == self@,
            all_wf(self.leaves()),
            self.leaves().len() == self@.len(),
    {
        Self::lemma_leaves_of(self@);
    }

    pub proof fn lemma_leaves_of(values: Seq<T>)
        ensures
            flat(values.map_values(|value: T| TernaryTree::Leaf(Arc::new(value)))) == values,
        decreases values.len(),
    {
        let row = values.map_values(|value: T| TernaryTree::Leaf(Arc::new(value)));
        reveal(flat);
        if values.len() == 0 {
            assert(flat(row) =~= values);
        } else {
            Self::lemma_leaves_of(values.drop_last());
            assert(row.drop_last() =~= values.drop_last().map_values(
                |value: T| TernaryTree::Leaf(Arc::new(value)),
            ));
            assert(row.last()@ =~= seq![values.last()]);
            assert(flat(row) =~= values);
        }
    }

    /// Builds a tree over the `size` subtrees of `xs` that start at
    /// `offset`, dividing them evenly: the three parts differ in length by
    /// at most one. The tree is as shallow as a tree over so many subtrees
    /// can be.
    pub fn rebuild_list_side(size: usize, offset: usize, xs: &[TernaryTree<T>]) -> (tree: Self)
        requires
            size >= 1,
            offset + size <= xs.len(),
            all_wf(xs@),
            flat(xs@.subrange(offset as int, offset + size)).len() <= usize::MAX,
        ensures
            tree == even_shape(xs@.subrange(offset as int, offset + size)),
            tree.wf(),
            tree@ == flat(xs@.subrange(offset as int, offset + size)),
        decreases size,
    {
        broadcast use TernaryTree::lemma_wf_len;

        let ghost row = xs@.subrange(offset as int, offset + size);
        proof {
            lemma_even_shape(row);
        }
        if size == 1 {
            proof {
                lemma_flat_few(row);
            }
            xs[offset].duplicate()
        } else if size == 2 {
            proof {
                lemma_flat_few(row);
            }
            Self::branch2(Arc::new(xs[offset].duplicate()), Arc::new(xs[offset + 1].duplicate()))
        } else if size == 3 {
            proof {
                lemma_flat_few(row);
            }
            Self::branch3(
                Arc::new(xs[offset].duplicate()),
                Arc::new(xs[offset + 1].duplicate()),
                Arc::new(xs[offset + 2].duplicate()),
            )
        } else {
            let divided = divide_ternary_sizes(size);
            let ghost first = offset + divided.0;
            let ghost second = offset + divided.0 + divided.1;
            proof {
                lemma_flat_three(xs@, offset as int, first, second, offset + size);
            }
            let left = Self::rebuild_list_side(divided.0, offset, xs);
            let middle = Self::rebuild_list_side(divided.1, offset + divided.0, xs);
            let right = Self::rebuild_list_side(divided.2, offset + divided.0 + divided.1, xs);
            Self::branch3(Arc::new(left), Arc::new(middle), Arc::new(right))
        }
    }

    /// Builds a tree over the `size` subtrees of `xs` that start at
    /// `offset`, keeping the branches at both ends shallow. While more
    /// subtrees are left than two side branches of three to the power
    /// `factor - 1` can take, one such branch is built evenly at each end
    /// and the rest goes to the middle with a `factor` one larger; the rest
    /// is built evenly. The root has a `factor` of 2.
    pub fn rebuild_list(size: usize, offset: usize, xs: &[TernaryTree<T>], factor: u8) -> (tree:
        Self)
        requires
            size >= 1,
            factor >= 1,
            offset + size <= xs.len(),
            all_wf(xs@),
            flat(xs@.subrange(offset as int, offset + size)).len() <= usize::MAX,
        ensures
            tree == finger_shape(xs@.subrange(offset as int, offset + size), factor as nat),
            tree.wf(),
            tree@ == flat(xs@.subrange(offset as int, offset + size)),
        decreases size,
    {
        let ghost row = xs@.subrange(offset as int, offset + size);
        proof {
            lemma_finger_shape(row, factor as nat);
        }
        if size <= 3 {
            return Self::rebuild_list_side(size, offset, xs);
        }
        let side_capacity = triple_size(factor - 1);
        if side_capacity < size && side_capacity < size - side_capacity {
            let rest = size - side_capacity - side_capacity;
            let ghost first = offset + side_capacity;
            let ghost second = offset + size - side_capacity;
            proof {
                assert(side_capacity >= 1 && factor <= 41) by {
                    crate::util::lemma_pow3_increases(0, (factor - 1) as nat);
                    lemma_pow3_fits((factor - 1) as nat);
                }
                lemma_flat_three(xs@, offset as int, first, second, offset + size);
            }
            let left = Self::rebuild_list_side(side_capacity, offset, xs);
            let middle = Self::rebuild_list(rest, offset + side_capacity, xs, factor + 1);
            let right = Self::rebuild_list_side(side_capacity, offset + side_capacity + rest, xs);
            proof {
                left.lemma_wf_len();
                middle.lemma_wf_len();
                right.lemma_wf_len();
            }
            Self::branch3(Arc::new(left), Arc::new(middle), Arc::new(right))
        } else {
            Self::rebuild_list_side(size, offset, xs)
        }
    }

    /// The leaves of the tree from left to right, for rebuilding it.
    pub fn to_leaves(&self) -> (row: Vec<TernaryTree<T>>)
        requires
            self.wf(),
        ensures
            row@ == self.leaves(),
            row@.len() == self.spec_len(),
    {
        broadcast use TernaryTree::lemma_wf_len;

        let mut acc: Vec<TernaryTree<T>> = Vec::with_capacity(self.len());
        write_leaves(self, &mut acc);
        assert(acc@ =~= self.leaves());
        acc
    }

    /// Whether a tree of `size` elements and of depth `depth` is due for a
    /// rebuild: it holds at least 81 elements, and three to the power
    /// `depth - 20` is more than its size.
    pub open spec fn too_deep(size: nat, depth: nat) -> bool {
        size >= 81 && depth >= 20 && pow3((depth - 20) as nat) > size
    }

    /// What [`Self::maybe_rebalance`] leaves of a tree: the tree itself, or,
    /// where it is too deep for its size, the even tree over its leaves.
    pub open spec fn rebalanced(self) -> Self {
        if Self::too_deep(self.spec_len(), self.spec_depth()) {
            even_shape(self.leaves())
        } else {
            self
        }
    }

    /// A well-formed tree holds at most three to the power of its depth
    /// elements: no tree of its size has fewer levels than
    /// [`crate::util::levels`] says.
    pub proof fn lemma_depth_is_enough(&self)
        requires
            self.wf(),
        ensures
            self.spec_len() <= pow3(self.spec_depth()),
            levels(self.spec_len()) <= self.spec_depth(),
        decreases self,
    {
        self.lemma_parts();
        crate::util::lemma_pow3_step(0);
        match self {
            TernaryTree::Leaf(_) => {},
            TernaryTree::Branch2 { left, middle, .. } => {
                let left = Self::under(*left);
                let middle = Self::under(*middle);
                let below = (self.spec_depth() - 1) as nat;
                left.lemma_depth_is_enough();
                middle.lemma_depth_is_enough();
                crate::util::lemma_pow3_increases(left.spec_depth(), below);
                crate::util::lemma_pow3_increases(middle.spec_depth(), below);
                crate::util::lemma_pow3_step(below);
            },
            TernaryTree::Branch3 { left, middle, right, .. } => {
                let left = Self::under(*left);
                let middle = Self::under(*middle);
                let right = Self::under(*right);
                let below = (self.spec_depth() - 1) as nat;
                left.lemma_depth_is_enough();
                middle.lemma_depth_is_enough();
                right.lemma_depth_is_enough();
                crate::util::lemma_pow3_increases(left.spec_depth(), below);
                crate::util::lemma_pow3_increases(middle.spec_depth(), below);
                crate::util::lemma_pow3_increases(right.spec_depth(), below);
                crate::util::lemma_pow3_step(below);
            },
        }
        crate::util::lemma_levels_least(self.spec_len(), self.spec_depth());
    }

    /// The tree that is made of a row of leaves has as many elements as
    /// there are leaves and stays below twice the least number of levels.
    pub proof fn lemma_joined_depth(raw: Seq<TernaryTree<T>>)
        requires
            raw.len() >= 2,
            all_leaves(raw),
            raw.len() <= usize::MAX,
        ensures
            Self::joined(raw).spec_len() == raw.len(),
            Self::joined(raw).spec_depth() < 2 * levels(raw.len()),
    {
        assert(levels(2) == 1) by {
            reveal_with_fuel(levels, 3);
        }
        assert(levels(3) == 1) by {
            reveal_with_fuel(levels, 3);
        }
        if raw.len() == 2 {
            assert(raw[0] is Leaf && raw[1] is Leaf);
            Self::lemma_nodes(raw[0], raw[1], raw[1]);
        } else if raw.len() == 3 {
            assert(raw[0] is Leaf && raw[1] is Leaf && raw[2] is Leaf);
            Self::lemma_nodes(raw[0], raw[1], raw[2]);
        } else {
            lemma_finger_shape_depth(raw, 2);
            lemma_levels_increases(2, raw.len());
        }
    }

    /// The tree that a rebuild makes of a well-formed tree has as few
    /// levels as a tree of its size can have, so no more than the tree had.
    pub proof fn lemma_rebuilt_depth(&self)
        requires
            self.wf(),
        ensures
            even_shape(self.leaves()).spec_depth() == levels(self.spec_len()),
            even_shape(self.leaves()).spec_depth() <= self.spec_depth(),
    {
        self.lemma_leaves();
        self.lemma_wf_len();
        assert(all_leaves(self.leaves()));
        lemma_even_shape_depth(self.leaves());
        self.lemma_depth_is_enough();
    }

    /// A tree that is rebuilt where it is too deep stays well-formed and
    /// keeps its elements in their order.
    pub proof fn lemma_rebalanced(&self)
        requires
            self.wf(),
        ensures
            self.rebalanced().wf(),
            self.rebalanced()@ == self@,
            even_shape(self.leaves()).wf(),
            even_shape(self.leaves())@ == self@,
    {
        self.lemma_leaves();
        self.lemma_wf_len();
        lemma_even_shape_holds(self.leaves());
    }

    /// Decides from the size and the depth alone whether the tree is due for
    /// a rebuild.
    pub fn is_too_deep(&self) -> (due: bool)
        ensures
            due == Self::too_deep(self.spec_len(), self.spec_depth()),
    {
        let size = self.len();
        let depth = self.depth();
        if size < 81 || depth < 20 {
            return false;
        }
        let steps = depth - 20;
        let mut power: usize = 1;
        let mut done: usize = 0;
        proof {
            crate::util::lemma_pow3_step(0);
        }
        while done < steps
            invariant
                size == self.spec_len(),
                depth == self.spec_depth(),
                size >= 81,
                depth >= 20,
                steps == depth - 20,
                done <= steps,
                power == pow3(done as nat),
                power <= size,
            decreases steps - done,
        {
            proof {
                crate::util::lemma_pow3_step(done as nat);
            }
            if power > size / 3 {
                proof {
                    crate::util::lemma_pow3_increases((done + 1) as nat, steps as nat);
                }
                return true;
            }
            power = power * 3;
            done = done + 1;
        }
        false
    }

    /// Rebuilds the tree in place into the even tree over its leaves, which
    /// is as shallow as a tree of its size can be. The elements and their
    /// order stay as they are. Being a change in place, this is for the one
    /// holder of the tree to call.
    pub fn force_inplace_balancing(&mut self) -> (res: Result<(), String>)
        requires
            old(self).wf(),
        ensures
            res is Ok,
            *final(self) == even_shape(old(self).leaves()),
            final(self).wf(),
            final(self)@ == old(self)@,
            final(self).spec_depth() == levels(old(self).spec_len()),
            final(self).spec_depth() <= old(self).spec_depth(),
    {
        broadcast use TernaryTree::lemma_wf_len;

        let ys = self.to_leaves();
        proof {
            self.lemma_rebuilt_depth();
            self.lemma_leaves();
            assert(ys@.subrange(0, ys@.len() as int) =~= ys@);
        }
        *self = Self::rebuild_list_side(ys.len(), 0, ys.as_slice());
        Ok(())
    }

    /// Rebuilds the tree in place where it has grown too deep for its size,
    /// and leaves it alone otherwise. The test is cheap, so that the check
    /// can follow every operation that may deepen a tree.
    pub fn maybe_rebalance(&mut self)
        requires
            old(self).wf(),
        ensures
            *final(self) == old(self).rebalanced(),
            final(self).wf(),
            final(self)@ == old(self)@,
            final(self).spec_depth() <= old(self).spec_depth(),
    {
        if self.is_too_deep() {
            let _ = self.force_inplace_balancing();
        }
    }

    /// The tree that [`Self::concat`] makes of a row of trees, before the
    /// check of its depth: the tree itself for one, a branch for two and for
    /// three, and the tree with shallow ends over more than three.
    pub open spec fn joined(raw: Seq<TernaryTree<T>>) -> Self {
        if raw.len() <= 1 {
            raw[0]
        } else if raw.len() == 2 {
            Self::node2(raw[0], raw[1])
        } else if raw.len() == 3 {
            Self::node3(raw[0], raw[1], raw[2])
        } else {
            finger_shape(raw, 2)
        }
    }

    /// The tree that is made of a row of well-formed trees is well-formed
    /// and holds the elements of the row in order.
    pub proof fn lemma_joined(raw: Seq<TernaryTree<T>>)
        requires
            raw.len() >= 1,
            all_wf(raw),
            flat(raw).len() <= usize::MAX,
        ensures
            Self::joined(raw).wf(),
            Self::joined(raw)@ == flat(raw),
            Self::joined(raw).rebalanced().wf(),
            Self::joined(raw).rebalanced()@ == flat(raw),
    {
        if raw.len() <= 3 {
            lemma_flat_few(raw);
            if raw.len() == 2 {
                raw[0].lemma_wf_len();
                raw[1].lemma_wf_len();
                Self::lemma_node2(&raw[0], &raw[1]);
            } else if raw.len() == 3 {
                raw[0].lemma_wf_len();
                raw[1].lemma_wf_len();
                raw[2].lemma_wf_len();
                Self::lemma_node3(&raw[0], &raw[1], &raw[2]);
            }
        } else {
            lemma_finger_shape_holds(raw, 2);
        }
        Self::joined(raw).lemma_rebalanced();
    }

    /// The tree that [`Self::concat`] makes of two trees.
    pub open spec fn joined_two(first: Self, second: Self) -> Self {
        Self::node2(first, second).rebalanced()
    }

    /// The tree that [`Self::concat`] makes of three trees.
    pub open spec fn joined_three(first: Self, second: Self, third: Self) -> Self {
        Self::node3(first, second, third).rebalanced()
    }

    /// Two well-formed trees joined make a well-formed tree that holds the
    /// elements of the first followed by those of the second.
    pub proof fn lemma_joined_two(first: &Self, second: &Self)
        requires
            first.wf(),
            second.wf(),
            first.spec_len() + second.spec_len() <= usize::MAX,
        ensures
            Self::joined_two(*first, *second).wf(),
            Self::joined_two(*first, *second)@ == first@ + second@,
            Self::joined_two(*first, *second) == Self::joined(seq![*first, *second]).rebalanced(),
    {
        Self::lemma_node2(first, second);
        Self::node2(*first, *second).lemma_rebalanced();
    }

    /// Three well-formed trees joined make a well-formed tree that holds
    /// the elements of the first, of the second and of the third in turn.
    pub proof fn lemma_joined_three(first: &Self, second: &Self, third: &Self)
        requires
            first.wf(),
            second.wf(),
            third.wf(),
            first.spec_len() + second.spec_len() + third.spec_len() <= usize::MAX,
        ensures
            Self::joined_three(*first, *second, *third).wf(),
            Self::joined_three(*first, *second, *third)@ == first@ + second@ + third@,
            Self::joined_three(*first, *second, *third) == Self::joined(
                seq![*first, *second, *third],
            ).rebalanced(),
    {
        Self::lemma_node3(first, second, third);
        Self::node3(*first, *second, *third).lemma_rebalanced();
    }

    /// Joins two trees as [`Self::concat`] joins a row of two.
    pub fn concat_two(first: Self, second: Self) -> (tree: Self)
        requires
            first.wf(),
            second.wf(),
            first.spec_len() + second.spec_len() <= usize::MAX,
        ensures
            tree == Self::joined_two(first, second),
            tree.wf(),
            tree@ == first@ + second@,
    {
        proof {
            first.lemma_wf_len();
            second.lemma_wf_len();
            lemma_flat_few(seq![first, second]);
            Self::lemma_joined_two(&first, &second);
        }
        let mut pieces: Vec<Self> = Vec::with_capacity(2);
        pieces.push(first);
        pieces.push(second);
        assert(pieces@ =~= seq![first, second]);
        Self::concat(pieces.as_slice())
    }

    /// Joins three trees as [`Self::concat`] joins a row of three.
    pub fn concat_three(first: Self, second: Self, third: Self) -> (tree: Self)
        requires
            first.wf(),
            second.wf(),
            third.wf(),
            first.spec_len() + second.spec_len() + third.spec_len() <= usize::MAX,
        ensures
            tree == Self::joined_three(first, second, third),
            tree.wf(),
            tree@ == first@ + second@ + third@,
    {
        proof {
            first.lemma_wf_len();
            second.lemma_wf_len();
            third.lemma_wf_len();
            lemma_flat_few(seq![first, second, third]);
            Self::lemma_joined_three(&first, &second, &third);
        }
        let mut pieces: Vec<Self> = Vec::with_capacity(3);
        pieces.push(first);
        pieces.push(second);
        pieces.push(third);
        assert(pieces@ =~= seq![first, second, third]);
        Self::concat(pieces.as_slice())
    }

    /// Joins the trees of `raw`, of which there is at least one, into one
    /// tree that holds their elements in order. One, two or three trees
    /// become the children of a new root; more are handed to the builder.
    /// The result is rebuilt where the joining made it too deep for its size.
    pub fn concat(raw: &[TernaryTree<T>]) -> (tree: Self)
        requires
            raw.len() >= 1,
            all_wf(raw@),
            flat(raw@).len() <= usize::MAX,
        ensures
            tree == Self::joined(raw@).rebalanced(),
            tree.wf(),
            tree@ == flat(raw@),
    {
        broadcast use TernaryTree::lemma_wf_len;

        let count = raw.len();
        proof {
            assert(raw@.subrange(0, count as int) =~= raw@);
        }
        let mut tree = if count == 1 {
            proof {
                lemma_flat_few(raw@);
            }
            raw[0].duplicate()
        } else if count == 2 {
            proof {
                lemma_flat_few(raw@);
            }
            Self::branch2(Arc::new(raw[0].duplicate()), Arc::new(raw[1].duplicate()))
        } else if count == 3 {
            proof {
                lemma_flat_few(raw@);
            }
            Self::branch3(
                Arc::new(raw[0].duplicate()),
                Arc::new(raw[1].duplicate()),
                Arc::new(raw[2].duplicate()),
            )
        } else {
            Self::rebuild_list(count, 0, raw, 2)
        };
        tree.maybe_rebalance();
        tree
    }
}

/// Writes the leaves of `xs`, from left to right, at the end of `acc`.
fn write_leaves<T>(xs: &TernaryTree<T>, acc: &mut Vec<TernaryTree<T>>)
    requires
        xs.wf(),
    ensures
        final(acc)@ == old(acc)@ + xs.leaves(),
    decreases xs,
{
    proof {
        xs.lemma_parts();
    }
    match xs {
        TernaryTree::Leaf(_) => {
            acc.push(xs.duplicate());
            assert(acc@ =~= old(acc)@ + xs.leaves());
        },
        TernaryTree::Branch2 { left, middle, .. } => {
            write_leaves(left, acc);
            write_leaves(middle, acc);
            assert(xs.leaves() =~= left.leaves() + middle.leaves());
            assert(acc@ =~= old(acc)@ + xs.leaves());
        },
        TernaryTree::Branch3 { left, middle, right, .. } => {
            write_leaves(left, acc);
            write_leaves(middle, acc);
            write_leaves(right, acc);
            assert(xs.leaves() =~= left.leaves() + middle.leaves() + right.leaves());
            assert(acc@ =~= old(acc)@ + xs.leaves());
        },
    }
}

} // verus!
