//! What holds of the operations taken together. For every operation that
//! makes a list, the library names the list that it makes; the laws below
//! are stated of these lists, and so hold of whatever a chain of operations
//! arrives at.

use crate::all_lists_wf;
use crate::flat_lists;
use crate::tree::builder::all_leaves;
use crate::tree::builder::all_wf;
use crate::tree::builder::even_shape;
use crate::tree::builder::flat;
use crate::tree::builder::lemma_even_shape_depth;
use crate::tree::builder::lemma_even_shape_holds;
use crate::tree::builder::lemma_flat_none;
use crate::tree::builder::lemma_flat_push;
use crate::tree::TernaryTree;
use crate::trees_of;
use crate::util::lemma_levels_fit;
use crate::util::levels;
use crate::util::pow3;
use crate::TernaryTreeList;
use std::sync::Arc;
use vstd::prelude::*;

verus! {

/// Pushing an element onto the right end of a well-formed list makes a
/// well-formed list with the element behind all others.
pub proof fn law_push_right<T>(list: TernaryTreeList<T>, item: T)
    requires
        list.wf(),
        list.spec_len() < usize::MAX,
    ensures
        list.pushed_right(item).wf(),
        list.pushed_right(item)@ == list@.push(item),
{
    let leaf = TernaryTree::Leaf(Arc::new(item));
    assert(leaf@ =~= seq![item]);
    match list {
        TernaryTreeList::Empty => {
            assert(list@.push(item) =~= seq![item]);
        },
        TernaryTreeList::Tree(t) => {
            t.lemma_pushed_right_main(&leaf, 2);
            assert(t@ + leaf@ =~= t@.push(item));
        },
    }
}

/// Pushing an element onto the left end of a well-formed list makes a
/// well-formed list with the element before all others.
pub proof fn law_push_left<T>(list: TernaryTreeList<T>, item: T)
    requires
        list.wf(),
        list.spec_len() < usize::MAX,
    ensures
        list.pushed_left(item).wf(),
        list.pushed_left(item)@ == seq![item] + list@,
{
    let leaf = TernaryTree::Leaf(Arc::new(item));
    assert(leaf@ =~= seq![item]);
    match list {
        TernaryTreeList::Empty => {
            assert(seq![item] + list@ =~= seq![item]);
        },
        TernaryTreeList::Tree(t) => {
            t.lemma_pushed_left_main(&leaf, 2);
        },
    }
}

/// Whatever elements are pushed one after another onto the right end of
/// the empty list, the list that comes of it is well-formed and holds just
/// these elements, in the order in which they were pushed.
pub proof fn law_pushes_right_build<T>(items: Seq<T>)
    requires
        items.len() <= usize::MAX,
    ensures
        TernaryTreeList::piled(items).wf(),
        TernaryTreeList::piled(items)@ == items,
    decreases items.len(),
{
    if items.len() == 0 {
        assert(TernaryTreeList::<T>::piled(items)@ =~= items);
    } else {
        let before = TernaryTreeList::piled(items.drop_last());
        law_pushes_right_build(items.drop_last());
        before.lemma_wf_len();
        law_push_right(before, items.last());
        assert(items.drop_last().push(items.last()) =~= items);
    }
}

/// Whatever elements are pushed one after another onto the left end of the
/// empty list, the list that comes of it is well-formed and holds just
/// these elements, the last pushed first.
pub proof fn law_pushes_left_build<T>(items: Seq<T>)
    requires
        items.len() <= usize::MAX,
    ensures
        TernaryTreeList::piled_left(items).wf(),
        TernaryTreeList::piled_left(items)@ == items.reverse(),
    decreases items.len(),
{
    if items.len() == 0 {
        assert(TernaryTreeList::<T>::piled_left(items)@ =~= items.reverse());
    } else {
        let before = TernaryTreeList::piled_left(items.drop_last());
        law_pushes_left_build(items.drop_last());
        before.lemma_wf_len();
        law_push_left(before, items.last());
        assert(seq![items.last()] + items.drop_last().reverse() =~= items.reverse());
    }
}

/// Reading by index, whether by `get`, by `ref_get` or by `loop_get`, finds
/// the element that stands at the index in the sequence of the elements:
/// the descent that they all make through the tree arrives there.
pub proof fn law_reads_agree<T>(list: TernaryTreeList<T>, idx: nat)
    requires
        list.wf(),
        idx < list@.len(),
    ensures
        list.at(idx) == list@[idx as int],
{
    list.lemma_wf_len();
    match list {
        TernaryTreeList::Empty => {},
        TernaryTreeList::Tree(t) => {
            t.lemma_at(idx);
        },
    }
}

/// Rebuilding a well-formed list leaves a well-formed list of the same
/// elements in the same order.
pub proof fn law_rebuild_keeps_elements<T>(list: TernaryTreeList<T>)
    requires
        list.wf(),
    ensures
        list.rebuilt().wf(),
        list.rebuilt()@ == list@,
{
    match list {
        TernaryTreeList::Empty => {},
        TernaryTreeList::Tree(t) => {
            t.lemma_rebalanced();
        },
    }
}

/// Rebuilding a well-formed tree makes a tree with as few levels as a tree
/// of its size can have: three to the power of its depth is enough for its
/// elements, the power before that is not, and no well-formed tree of the
/// same size is less deep.
pub proof fn law_rebuild_is_shallowest<T>(tree: TernaryTree<T>, other: TernaryTree<T>)
    requires
        tree.wf(),
        other.wf(),
        other.spec_len() == tree.spec_len(),
    ensures
        even_shape(tree.leaves()).spec_depth() == levels(tree.spec_len()),
        tree.spec_len() <= pow3(levels(tree.spec_len())),
        tree.spec_len() >= 2 ==> pow3((levels(tree.spec_len()) - 1) as nat) < tree.spec_len(),
        even_shape(tree.leaves()).spec_depth() <= other.spec_depth(),
{
    tree.lemma_rebuilt_depth();
    lemma_levels_fit(tree.spec_len());
    other.lemma_depth_is_enough();
}

/// A list built from a row of elements is well-formed, holds these
/// elements in order, and has a tree with as few levels as can be.
pub proof fn law_built<T>(items: Seq<T>)
    requires
        1 <= items.len() <= usize::MAX,
    ensures
        TernaryTreeList::built(items).wf(),
        TernaryTreeList::built(items)@ == items,
        TernaryTreeList::built(items) matches TernaryTreeList::Tree(tree) && tree.spec_depth()
            == levels(items.len()),
{
    let row = items.map_values(|value: T| TernaryTree::Leaf(Arc::new(value)));
    TernaryTree::lemma_leaves_of(items);
    assert(all_wf(row));
    assert(all_leaves(row));
    lemma_even_shape_holds(row);
    lemma_even_shape_depth(row);
}

/// A slice of a well-formed list is a well-formed list of the elements in
/// the range, for every range that lies in the list.
pub proof fn law_slice<T>(list: TernaryTreeList<T>, start: nat, end: nat)
    requires
        list.wf(),
        start <= end <= list@.len(),
    ensures
        list.sliced(start, end).wf(),
        list.sliced(start, end)@ == list@.subrange(start as int, end as int),
{
    list.lemma_wf_len();
    match list {
        TernaryTreeList::Empty => {
            assert(list@.subrange(start as int, end as int) =~= list@);
        },
        TernaryTreeList::Tree(t) => {
            if start == end {
                assert(list@.subrange(start as int, end as int) =~= Seq::<T>::empty());
            } else {
                t.lemma_sliced(start, end);
            }
        },
    }
}

/// The first elements of a well-formed list, and what is left without
/// them, are well-formed lists of these elements.
pub proof fn law_take_and_skip<T>(list: TernaryTreeList<T>, idx: nat)
    requires
        list.wf(),
        idx <= list@.len(),
    ensures
        list.taken(idx).wf(),
        list.taken(idx)@ == list@.take(idx as int),
        list.skipped(idx).wf(),
        list.skipped(idx)@ == list@.skip(idx as int),
{
    list.lemma_wf_len();
    match list {
        TernaryTreeList::Empty => {
            assert(list@.take(idx as int) =~= list@);
            assert(list@.skip(idx as int) =~= list@);
        },
        TernaryTreeList::Tree(t) => {
            if idx == 0 {
                assert(list@.take(0) =~= Seq::<T>::empty());
            } else {
                t.lemma_taken_left(idx);
            }
            if idx == t.spec_len() {
                assert(list@.skip(idx as int) =~= Seq::<T>::empty());
            } else {
                t.lemma_taken_right(idx);
            }
        },
    }
}

/// The trees of a row of well-formed lists are well-formed and hold the
/// elements of the row.
pub proof fn lemma_trees_of<T>(lists: Seq<TernaryTreeList<T>>)
    requires
        all_lists_wf(lists),
    ensures
        all_wf(trees_of(lists)),
        flat(trees_of(lists)) == flat_lists(lists),
    decreases lists.len(),
{
    if lists.len() == 0 {
        lemma_flat_none::<T>();
    } else {
        lemma_trees_of(lists.drop_last());
        match lists.last() {
            TernaryTreeList::Empty => {
                assert(flat_lists(lists) =~= flat_lists(lists.drop_last()));
            },
            TernaryTreeList::Tree(t) => {
                lemma_flat_push(trees_of(lists.drop_last()), t);
                assert(lists.last().wf());
            },
        }
    }
}

/// Joining a row of well-formed lists makes a well-formed list that holds
/// the elements of each list in turn, however many lists there are and
/// whether or not some of them are empty.
pub proof fn law_concat<T>(lists: Seq<TernaryTreeList<T>>)
    requires
        all_lists_wf(lists),
        flat_lists(lists).len() <= usize::MAX,
    ensures
        TernaryTreeList::joined(lists).wf(),
        TernaryTreeList::joined(lists)@ == flat_lists(lists),
{
    lemma_trees_of(lists);
    if trees_of(lists).len() == 0 {
        assert(trees_of(lists) =~= Seq::<TernaryTree<T>>::empty());
        lemma_flat_none::<T>();
    } else {
        TernaryTree::lemma_joined(trees_of(lists));
    }
}

/// Joining single elements, however many, makes a tree that stays below
/// twice the least number of levels for its size; its two ends are built
/// evenly and so are as shallow as trees of their sizes can be.
pub proof fn law_joining_stays_shallow<T>(items: Seq<T>)
    requires
        2 <= items.len() <= usize::MAX,
    ensures
        TernaryTree::joined(items.map_values(|value: T| TernaryTree::Leaf(Arc::new(value))))@
            == items,
        TernaryTree::joined(
            items.map_values(|value: T| TernaryTree::Leaf(Arc::new(value))),
        ).spec_depth() < 2 * levels(items.len()),
{
    let row = items.map_values(|value: T| TernaryTree::Leaf(Arc::new(value)));
    TernaryTree::lemma_leaves_of(items);
    assert(all_wf(row));
    assert(all_leaves(row));
    TernaryTree::lemma_joined(row);
    TernaryTree::lemma_joined_depth(row);
}

/// What a row of lists holds, spelled out for rows of up to four lists: no
/// elements for no list, and otherwise the elements of each list in turn.
pub proof fn law_concat_few<T>(
    a: TernaryTreeList<T>,
    b: TernaryTreeList<T>,
    c: TernaryTreeList<T>,
    d: TernaryTreeList<T>,
)
    ensures
        flat_lists(Seq::<TernaryTreeList<T>>::empty()) == Seq::<T>::empty(),
        flat_lists(seq![a]) == a@,
        flat_lists(seq![a, b]) == a@ + b@,
        flat_lists(seq![a, b, c]) == a@ + b@ + c@,
        flat_lists(seq![a, b, c, d]) == a@ + b@ + c@ + d@,
{
    let none = Seq::<TernaryTreeList<T>>::empty();
    assert(seq![a].drop_last() =~= none);
    assert(seq![a, b].drop_last() =~= seq![a]);
    assert(seq![a, b, c].drop_last() =~= seq![a, b]);
    assert(seq![a, b, c, d].drop_last() =~= seq![a, b, c]);
    assert(flat_lists(none) =~= Seq::<T>::empty());
    assert(flat_lists(seq![a]) =~= flat_lists(none) + a@);
    assert(flat_lists(seq![a]) =~= a@);
    assert(flat_lists(seq![a, b]) =~= flat_lists(seq![a]) + b@);
    assert(flat_lists(seq![a, b, c]) =~= flat_lists(seq![a, b]) + c@);
    assert(flat_lists(seq![a, b, c, d]) =~= flat_lists(seq![a, b, c]) + d@);
}

/// The elements of a row of lists put behind another row are those of the
/// first row followed by those of the second: joining lists in one go or
/// in stages comes to the same elements.
pub proof fn law_concat_in_stages<T>(
    first: Seq<TernaryTreeList<T>>,
    second: Seq<TernaryTreeList<T>>,
)
    ensures
        flat_lists(first + second) == flat_lists(first) + flat_lists(second),
    decreases second.len(),
{
    if second.len() == 0 {
        assert(first + second =~= first);
        assert(flat_lists(first) + flat_lists(second) =~= flat_lists(first));
    } else {
        law_concat_in_stages(first, second.drop_last());
        assert((first + second).drop_last() =~= first + second.drop_last());
        assert(flat_lists(first + second) =~= flat_lists(first) + flat_lists(second));
    }
}

/// Replacing, removing and inserting an element in a well-formed list makes
/// a well-formed list that differs from it in just that element.
pub proof fn law_point_edits<T>(list: TernaryTreeList<T>, idx: nat, item: T, after: bool)
    requires
        list.wf(),
        idx < list@.len(),
        list@.len() < usize::MAX,
    ensures
        list.updated(idx, item).wf(),
        list.updated(idx, item)@ == list@.update(idx as int, item),
        list.removed(idx).wf(),
        list.removed(idx)@ == list@.remove(idx as int),
        list.inserted(idx, item, after).wf(),
        list.inserted(idx, item, after)@ == list@.insert(
            TernaryTreeList::<T>::insert_place(idx as usize, after),
            item,
        ),
{
    list.lemma_wf_len();
    match list {
        TernaryTreeList::Empty => {},
        TernaryTreeList::Tree(t) => {
            t.lemma_updated(idx, item);
            if t.spec_len() == 1 {
                assert(list@.remove(0) =~= Seq::<T>::empty());
            } else {
                t.lemma_removed(idx);
            }
            t.lemma_inserted_before(idx, item);
            t.lemma_inserted_after(idx, item);
        },
    }
}

/// Inserting an element at an end of a well-formed list, with the rebuild
/// that follows where the tree has grown too deep, makes a well-formed list
/// with the element at that end.
pub proof fn law_prepend_and_append<T>(list: TernaryTreeList<T>, item: T)
    requires
        list.wf(),
        list@.len() < usize::MAX,
    ensures
        list.prepended(item).wf(),
        list.prepended(item)@ == seq![item] + list@,
        list.appended(item).wf(),
        list.appended(item)@ == list@.push(item),
{
    let leaf = TernaryTree::Leaf(Arc::new(item));
    assert(leaf@ =~= seq![item]);
    list.lemma_wf_len();
    match list {
        TernaryTreeList::Empty => {
            assert(seq![item] + list@ =~= seq![item]);
            assert(list@.push(item) =~= seq![item]);
        },
        TernaryTreeList::Tree(t) => {
            t.lemma_wf_len();
            t.lemma_inserted_before(0, item);
            t.inserted_before(0, item).lemma_rebalanced();
            assert(t@.insert(0, item) =~= seq![item] + t@);
            let last = (t.spec_len() - 1) as nat;
            t.lemma_inserted_after(last, item);
            t.inserted_after(last, item).lemma_rebalanced();
            assert(t@.insert(last as int + 1, item) =~= t@.push(item));
        },
    }
}

/// Dropping an element at an end of a well-formed list makes a well-formed
/// list of the other elements, by either way of dropping; the empty list
/// stays empty.
pub proof fn law_drops<T>(list: TernaryTreeList<T>)
    requires
        list.wf(),
    ensures
        list.dropped_left().wf(),
        list.dropped_left()@ == TernaryTreeList::<T>::without_first(list@),
        list.dropped_left_shallow().wf(),
        list.dropped_left_shallow()@ == TernaryTreeList::<T>::without_first(list@),
        list.dropped_right().wf(),
        list.dropped_right()@ == TernaryTreeList::<T>::without_last(list@),
        list.dropped_right_shallow().wf(),
        list.dropped_right_shallow()@ == TernaryTreeList::<T>::without_last(list@),
{
    list.lemma_wf_len();
    match list {
        TernaryTreeList::Empty => {},
        TernaryTreeList::Tree(t) => {
            t.lemma_wf_len();
            t.lemma_left_split(1);
            t.lemma_right_split(1);
            t.left_piece(1).lemma_wf_len();
            t.right_piece(1).lemma_wf_len();
            if t.spec_len() == 1 {
                assert(t@.drop_first() =~= Seq::<T>::empty());
                assert(t@.drop_last() =~= Seq::<T>::empty());
            } else {
                t.lemma_dropped_left();
                t.lemma_dropped_right();
                match t.left_rest(1) {
                    Some(rest) => {
                        assert(rest@ =~= (t.left_piece(1)@ + rest@).drop_first());
                    },
                    None => {},
                }
                match t.right_rest(1) {
                    Some(rest) => {
                        assert(rest@ =~= (rest@ + t.right_piece(1)@).drop_last());
                    },
                    None => {},
                }
            }
        },
    }
}

/// The two halves of a well-formed list are well-formed lists of the
/// first elements and of the others; put together they hold what the list
/// held.
pub proof fn law_split<T>(list: TernaryTreeList<T>, idx: nat)
    requires
        list.wf(),
        idx <= list@.len(),
    ensures
        list.halved(idx).0.wf(),
        list.halved(idx).1.wf(),
        list.halved(idx).0@ == list@.take(idx as int),
        list.halved(idx).1@ == list@.skip(idx as int),
        list.halved(idx).0@ + list.halved(idx).1@ == list@,
{
    list.lemma_wf_len();
    assert(list@.take(idx as int) + list@.skip(idx as int) =~= list@);
    match list {
        TernaryTreeList::Empty => {
            assert(list@.take(0) =~= list@);
            assert(list@.skip(0) =~= list@);
        },
        TernaryTreeList::Tree(t) => {
            t.lemma_wf_len();
            if idx == 0 {
                assert(list@.take(0) =~= Seq::<T>::empty());
                assert(list@.skip(0) =~= list@);
            } else if idx >= t.spec_len() {
                assert(list@.take(idx as int) =~= list@);
                assert(list@.skip(idx as int) =~= Seq::<T>::empty());
            } else {
                t.lemma_halved(idx);
            }
        },
    }
}

/// The mirror image of a well-formed list is a well-formed list of the
/// same elements in reverse, and the mirror image of that holds the
/// elements in their first order again.
pub proof fn law_reverse<T>(list: TernaryTreeList<T>)
    requires
        list.wf(),
    ensures
        list.mirrored().wf(),
        list.mirrored()@ == list@.reverse(),
        list.mirrored().mirrored()@ == list@,
{
    match list {
        TernaryTreeList::Empty => {
            assert(list@.reverse() =~= list@);
        },
        TernaryTreeList::Tree(t) => {
            t.lemma_mirrored();
            t.mirrored().lemma_mirrored();
            assert(t@.reverse().reverse() =~= t@);
        },
    }
}

} // verus!
