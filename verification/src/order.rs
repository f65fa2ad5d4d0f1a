//! The order of lists: a shorter list comes before a longer one, and lists
//! of one length are ordered by the first place at which they differ.

use crate::seqs::place;
use crate::tree::TernaryTree;
use crate::TernaryTreeList;
use std::cmp::Ordering;
use vstd::prelude::*;
use vstd::std_specs::cmp::OrdSpec;
use vstd::std_specs::cmp::PartialOrdSpecImpl;

verus! {

/// How one list stands to another.
#[derive(Debug, Clone, Copy, PartialEq, Eq)]
pub enum Order {
    Less,
    Equal,
    Greater,
}

/// The order of two rows of one length from the place `from` on: that of
/// the elements at the first place where these are not equal.
pub open spec fn order_from<T: Ord>(a: Seq<T>, b: Seq<T>, from: int) -> Order
    decreases a.len() - from,
{
    if from < 0 || from >= a.len() {
        Order::Equal
    } else {
        match a[from].cmp_spec(&b[from]) {
            Ordering::Less => Order::Less,
            Ordering::Greater => Order::Greater,
            Ordering::Equal => order_from(a, b, from + 1),
        }
    }
}

/// The order of two rows: by their lengths, and for one length by their
/// elements from the first on.
pub open spec fn order_of<T: Ord>(a: Seq<T>, b: Seq<T>) -> Order {
    if a.len() < b.len() {
        Order::Less
    } else if a.len() > b.len() {
        Order::Greater
    } else {
        order_from(a, b, 0)
    }
}

/// The rows that two rows of references refer to.
pub open spec fn referred<T>(refs: Seq<&T>) -> Seq<T> {
    refs.map_values(|item: &T| *item)
}

/// How a row of references stands to another, by what they refer to.
fn compare_refs<T: Ord>(mine: &Vec<&T>, theirs: &Vec<&T>) -> (order: Order)
    ensures
        T::obeys_cmp_spec() ==> order == order_of(referred(mine@), referred(theirs@)),
{
    let ghost a = referred(mine@);
    let ghost b = referred(theirs@);
    if mine.len() < theirs.len() {
        return Order::Less;
    }
    if mine.len() > theirs.len() {
        return Order::Greater;
    }
    let mut index: usize = 0;
    while index < mine.len()
        invariant
            index <= mine@.len(),
            mine@.len() == theirs@.len(),
            a == referred(mine@),
            b == referred(theirs@),
            T::obeys_cmp_spec() ==> order_from(a, b, 0) == order_from(a, b, place(index)),
        decreases mine@.len() - index,
    {
        match mine[index].cmp(theirs[index]) {
            Ordering::Less => {
                return Order::Less;
            },
            Ordering::Greater => {
                return Order::Greater;
            },
            Ordering::Equal => {},
        }
        index = index + 1;
    }
    Order::Equal
}

impl<T: Ord> TernaryTree<T> {
    /// How this tree stands to `other`: a tree of fewer elements is less,
    /// and of two trees of one size the one is less that has the lesser
    /// element at the first place where the two differ.
    pub fn compare(&self, other: &Self) -> (order: Order)
        ensures
            T::obeys_cmp_spec() ==> order == order_of(self@, other@),
    {
        let mine = self.to_refs();
        let theirs = other.to_refs();
        proof {
            assert(referred(mine@) =~= self@);
            assert(referred(theirs@) =~= other@);
        }
        compare_refs(&mine, &theirs)
    }
}

impl<T: Ord> TernaryTreeList<T> {
    /// How this list stands to `other`: a shorter list is less than a
    /// longer one, and of two lists of one length the one is less that has
    /// the lesser element at the first place where the two differ.
    pub fn compare(&self, other: &Self) -> (order: Order)
        ensures
            T::obeys_cmp_spec() ==> order == order_of(self@, other@),
    {
        let mine = self.to_refs();
        let theirs = other.to_refs();
        proof {
            assert(referred(mine@) =~= self@);
            assert(referred(theirs@) =~= other@);
        }
        compare_refs(&mine, &theirs)
    }
}

/// The standard library's word for an order.
pub open spec fn in_std(order: Order) -> Ordering {
    match order {
        Order::Less => Ordering::Less,
        Order::Equal => Ordering::Equal,
        Order::Greater => Ordering::Greater,
    }
}

impl<T: Ord> PartialOrd for TernaryTreeList<T> {
    /// How this list stands to `other`, which is never undecided.
    fn partial_cmp(&self, other: &Self) -> (order: Option<Ordering>) {
        match self.compare(other) {
            Order::Less => Some(Ordering::Less),
            Order::Equal => Some(Ordering::Equal),
            Order::Greater => Some(Ordering::Greater),
        }
    }
}

impl<T: Ord> PartialOrdSpecImpl for TernaryTreeList<T> {
    open spec fn obeys_partial_cmp_spec() -> bool {
        T::obeys_cmp_spec()
    }

    open spec fn partial_cmp_spec(&self, other: &Self) -> Option<Ordering> {
        Some(in_std(order_of(self@, other@)))
    }
}

impl<T: Ord> PartialOrd for TernaryTree<T> {
    /// How this tree stands to `other`, which is never undecided.
    fn partial_cmp(&self, other: &Self) -> (order: Option<Ordering>) {
        match self.compare(other) {
            Order::Less => Some(Ordering::Less),
            Order::Equal => Some(Ordering::Equal),
            Order::Greater => Some(Ordering::Greater),
        }
    }
}

impl<T: Ord> PartialOrdSpecImpl for TernaryTree<T> {
    open spec fn obeys_partial_cmp_spec() -> bool {
        T::obeys_cmp_spec()
    }

    open spec fn partial_cmp_spec(&self, other: &Self) -> Option<Ordering> {
        Some(in_std(order_of(self@, other@)))
    }
}

} // verus!
