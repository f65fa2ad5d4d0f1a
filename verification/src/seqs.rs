//! Facts about sequences that are put together from two parts: how an
//! operation on the whole comes down to an operation on one of the parts.
//! A whole of three parts is a whole of two, the first of which has two
//! parts of its own.

use vstd::prelude::*;

verus! {

/// The place in a sequence that a machine index names.
pub open spec fn place(index: usize) -> int {
    index as int
}

/// Replacing an element of the first part.
pub proof fn lemma_update_first<A>(a: Seq<A>, b: Seq<A>, i: int, x: A)
    requires
        0 <= i < a.len(),
    ensures
        (a + b).update(i, x) == a.update(i, x) + b,
{
    assert((a + b).update(i, x) =~= a.update(i, x) + b);
}

/// Replacing an element of the second part.
pub proof fn lemma_update_second<A>(a: Seq<A>, b: Seq<A>, i: int, x: A)
    requires
        a.len() <= i < a.len() + b.len(),
    ensures
        (a + b).update(i, x) == a + b.update(i - a.len(), x),
{
    assert((a + b).update(i, x) =~= a + b.update(i - a.len(), x));
}

/// Removing an element of the first part.
pub proof fn lemma_remove_first<A>(a: Seq<A>, b: Seq<A>, i: int)
    requires
        0 <= i < a.len(),
    ensures
        (a + b).remove(i) == a.remove(i) + b,
{
    assert((a + b).remove(i) =~= a.remove(i) + b);
}

/// Removing an element of the second part.
pub proof fn lemma_remove_second<A>(a: Seq<A>, b: Seq<A>, i: int)
    requires
        a.len() <= i < a.len() + b.len(),
    ensures
        (a + b).remove(i) == a + b.remove(i - a.len()),
{
    assert((a + b).remove(i) =~= a + b.remove(i - a.len()));
}

/// Removing the only element of the first part leaves the second part.
pub proof fn lemma_remove_whole_first<A>(a: Seq<A>, b: Seq<A>)
    requires
        a.len() == 1,
    ensures
        (a + b).remove(0) == b,
        (a + b).drop_first() == b,
{
    assert((a + b).remove(0) =~= b);
    assert((a + b).drop_first() =~= b);
}

/// Removing the only element of the second part leaves the first part.
pub proof fn lemma_remove_whole_second<A>(a: Seq<A>, b: Seq<A>)
    requires
        b.len() == 1,
    ensures
        (a + b).remove(a.len() as int) == a,
        (a + b).drop_last() == a,
{
    assert((a + b).remove(a.len() as int) =~= a);
    assert((a + b).drop_last() =~= a);
}

/// Inserting into the first part.
pub proof fn lemma_insert_first<A>(a: Seq<A>, b: Seq<A>, i: int, x: A)
    requires
        0 <= i <= a.len(),
    ensures
        (a + b).insert(i, x) == a.insert(i, x) + b,
{
    assert((a + b).insert(i, x) =~= a.insert(i, x) + b);
}

/// Inserting into the second part.
pub proof fn lemma_insert_second<A>(a: Seq<A>, b: Seq<A>, i: int, x: A)
    requires
        a.len() <= i <= a.len() + b.len(),
    ensures
        (a + b).insert(i, x) == a + b.insert(i - a.len(), x),
{
    assert((a + b).insert(i, x) =~= a + b.insert(i - a.len(), x));
}

/// Inserting at either end is putting a sequence of one element beside the
/// whole, and so is inserting between the two parts.
pub proof fn lemma_insert_ends<A>(a: Seq<A>, x: A)
    ensures
        a.insert(0, x) == seq![x] + a,
        a.insert(a.len() as int, x) == a + seq![x],
        a.push(x) == a + seq![x],
{
    assert(a.insert(0, x) =~= seq![x] + a);
    assert(a.insert(a.len() as int, x) =~= a + seq![x]);
    assert(a.push(x) =~= a + seq![x]);
}

/// Inserting between the two parts.
pub proof fn lemma_insert_between<A>(a: Seq<A>, b: Seq<A>, x: A)
    ensures
        (a + b).insert(a.len() as int, x) == a + seq![x] + b,
{
    assert((a + b).insert(a.len() as int, x) =~= a + seq![x] + b);
}

/// Dropping the first element of a whole whose first part holds more.
pub proof fn lemma_drop_first<A>(a: Seq<A>, b: Seq<A>)
    requires
        a.len() >= 1,
    ensures
        (a + b).drop_first() == a.drop_first() + b,
{
    assert((a + b).drop_first() =~= a.drop_first() + b);
}

/// Dropping the last element of a whole whose second part holds more.
pub proof fn lemma_drop_last<A>(a: Seq<A>, b: Seq<A>)
    requires
        b.len() >= 1,
    ensures
        (a + b).drop_last() == a + b.drop_last(),
{
    assert((a + b).drop_last() =~= a + b.drop_last());
}

/// Putting three parts together goes either way round.
pub proof fn lemma_regroup<A>(a: Seq<A>, b: Seq<A>, c: Seq<A>)
    ensures
        a + b + c == a + (b + c),
{
    assert(a + b + c =~= a + (b + c));
}

/// The first elements, all from the first part.
pub proof fn lemma_take_first<A>(a: Seq<A>, b: Seq<A>, n: int)
    requires
        0 <= n <= a.len(),
    ensures
        (a + b).take(n) == a.take(n),
{
    assert((a + b).take(n) =~= a.take(n));
}

/// The first elements, reaching into the second part.
pub proof fn lemma_take_second<A>(a: Seq<A>, b: Seq<A>, n: int)
    requires
        a.len() <= n <= a.len() + b.len(),
    ensures
        (a + b).take(n) == a + b.take(n - a.len()),
{
    assert((a + b).take(n) =~= a + b.take(n - a.len()));
}

/// The last elements, starting in the first part.
pub proof fn lemma_skip_first<A>(a: Seq<A>, b: Seq<A>, n: int)
    requires
        0 <= n <= a.len(),
    ensures
        (a + b).skip(n) == a.skip(n) + b,
{
    assert((a + b).skip(n) =~= a.skip(n) + b);
}

/// The last elements, all from the second part.
pub proof fn lemma_skip_second<A>(a: Seq<A>, b: Seq<A>, n: int)
    requires
        a.len() <= n <= a.len() + b.len(),
    ensures
        (a + b).skip(n) == b.skip(n - a.len()),
{
    assert((a + b).skip(n) =~= b.skip(n - a.len()));
}

/// All of a sequence, taken from the front or from the back.
pub proof fn lemma_take_skip_all<A>(a: Seq<A>)
    ensures
        a.take(a.len() as int) == a,
        a.skip(0) == a,
        a.subrange(0, a.len() as int) == a,
{
    assert(a.take(a.len() as int) =~= a);
    assert(a.skip(0) =~= a);
}

/// A range that lies in the first part.
pub proof fn lemma_subrange_first<A>(a: Seq<A>, b: Seq<A>, start: int, end: int)
    requires
        0 <= start <= end <= a.len(),
    ensures
        (a + b).subrange(start, end) == a.subrange(start, end),
{
    assert((a + b).subrange(start, end) =~= a.subrange(start, end));
}

/// A range that lies in the second part.
pub proof fn lemma_subrange_second<A>(a: Seq<A>, b: Seq<A>, start: int, end: int)
    requires
        a.len() <= start <= end <= a.len() + b.len(),
    ensures
        (a + b).subrange(start, end) == b.subrange(start - a.len(), end - a.len()),
{
    assert((a + b).subrange(start, end) =~= b.subrange(start - a.len(), end - a.len()));
}

/// A range that starts in the first part and ends in the second.
pub proof fn lemma_subrange_across<A>(a: Seq<A>, b: Seq<A>, start: int, end: int)
    requires
        0 <= start <= a.len() <= end <= a.len() + b.len(),
    ensures
        (a + b).subrange(start, end) == a.skip(start) + b.take(end - a.len()),
{
    assert((a + b).subrange(start, end) =~= a.skip(start) + b.take(end - a.len()));
}

/// A sequence read backwards, part by part.
pub proof fn lemma_reverse_parts<A>(a: Seq<A>, b: Seq<A>)
    ensures
        (a + b).reverse() == b.reverse() + a.reverse(),
{
    assert((a + b).reverse() =~= b.reverse() + a.reverse());
}

} // verus!
