//! Arranging items by rank: a merge sort that keeps items of equal rank in
//! their order.

use vstd::prelude::*;
use crate::model::views;
use crate::order::{
    in_order, is_arrangement, is_merged_so_far, is_ordering, lemma_arranged_parts,
    lemma_merge_begins, lemma_merge_ends, lemma_merge_takes_first, lemma_merge_takes_second,
};

verus! {

/// Items that have a rank by which they are arranged.
pub trait Ranked: View + Sized {
    /// What items are ranked by.
    type Rank;

    /// The rank of an item of this value.
    spec fn rank(value: Self::V) -> Self::Rank;

    /// Whether items of rank `a` are put before items of rank `b`.
    spec fn precedes(a: Self::Rank, b: Self::Rank) -> bool;

    /// Of two ranks at most one precedes the other, and a rank that neither
    /// precedes a second, nor the second a third, does not precede the
    /// third.
    proof fn lemma_ranks_are_ordered(a: Self::Rank, b: Self::Rank, c: Self::Rank)
        ensures
            Self::precedes(a, b) ==> !Self::precedes(b, a),
            !Self::precedes(a, b) && !Self::precedes(b, c) ==> !Self::precedes(a, c),
    ;

    /// Whether this item is put before `other`.
    fn comes_before(&self, other: &Self) -> (before: bool)
        ensures
            before == Self::precedes(Self::rank(self@), Self::rank(other@)),
    ;
}

/// The rank of `T` as a function.
pub open spec fn rank_of<T: Ranked>() -> spec_fn(T::V) -> T::Rank {
    |value: T::V| T::rank(value)
}

/// The order of the ranks of `T` as a relation.
pub open spec fn order_of<T: Ranked>() -> spec_fn(T::Rank, T::Rank) -> bool {
    |a: T::Rank, b: T::Rank| T::precedes(a, b)
}

/// The ranks of `T` are ordered.
pub proof fn lemma_order_of<T: Ranked>()
    ensures
        is_ordering(order_of::<T>()),
{
    let precedes = order_of::<T>();
    assert forall|a: T::Rank, b: T::Rank| #[trigger] precedes(a, b) implies !precedes(b, a) by {
        T::lemma_ranks_are_ordered(a, b, a);
    }
    assert forall|a: T::Rank, b: T::Rank, c: T::Rank|
        !#[trigger] precedes(a, b) && !#[trigger] precedes(b, c) implies !precedes(a, c) by {
        T::lemma_ranks_are_ordered(a, b, c);
    }
}

/// The items in reverse.
fn reversed<T>(items: Vec<T>) -> (back: Vec<T>)
    ensures
        back@.len() == items@.len(),
        forall|t: int| 0 <= t < back@.len() ==> back@[t] == items@[items@.len() - 1 - t],
{
    let ghost all = items@;
    let mut items = items;
    let mut back: Vec<T> = Vec::new();
    while items.len() > 0
        invariant
            items@.len() + back@.len() == all.len(),
            items@ == all.take(items@.len() as int),
            forall|t: int| 0 <= t < back@.len() ==> back@[t] == all[all.len() - 1 - t],
        decreases items@.len(),
    {
        let item = items.pop().unwrap();
        back.push(item);
    }
    back
}

/// Merges two sequences, each in order: the result is the first followed by
/// the second, arranged.
fn merge<T: Ranked>(left: Vec<T>, right: Vec<T>) -> (merged: Vec<T>)
    requires
        in_order(views(left@), rank_of::<T>(), order_of::<T>()),
        in_order(views(right@), rank_of::<T>(), order_of::<T>()),
    ensures
        is_arrangement(
            views(left@) + views(right@),
            views(merged@),
            rank_of::<T>(),
            order_of::<T>(),
        ),
{
    let ghost first = views(left@);
    let ghost second = views(right@);
    // Both inputs are turned round, so that the next item of each is its last.
    let mut rest_of_left = reversed(left);
    let mut rest_of_right = reversed(right);
    let mut merged: Vec<T> = Vec::new();
    let ghost mut i: int = 0;
    let ghost mut j: int = 0;
    proof {
        lemma_order_of::<T>();
        lemma_merge_begins(first, second, rank_of::<T>(), order_of::<T>());
        assert(views(merged@) =~= Seq::empty());
    }
    while rest_of_left.len() > 0 || rest_of_right.len() > 0
        invariant
            is_ordering(order_of::<T>()),
            is_merged_so_far(first, second, i, j, views(merged@), rank_of::<T>(), order_of::<T>()),
            rest_of_left@.len() == first.len() - i,
            rest_of_right@.len() == second.len() - j,
            forall|t: int|
                0 <= t < rest_of_left@.len() ==> (#[trigger] rest_of_left@[t])@ == first[first.len()
                    - 1 - t],
            forall|t: int|
                0 <= t < rest_of_right@.len() ==> (#[trigger] rest_of_right@[t])@
                    == second[second.len() - 1 - t],
        decreases rest_of_left@.len() + rest_of_right@.len(),
    {
        let ghost out = views(merged@);
        let from_left = if rest_of_left.len() == 0 {
            false
        } else if rest_of_right.len() == 0 {
            true
        } else {
            let next_left = &rest_of_left[rest_of_left.len() - 1];
            let next_right = &rest_of_right[rest_of_right.len() - 1];
            !next_right.comes_before(next_left)
        };
        let item = if from_left {
            proof {
                lemma_merge_takes_first(first, second, i, j, out, rank_of::<T>(), order_of::<T>());
                i = i + 1;
            }
            rest_of_left.pop().unwrap()
        } else {
            proof {
                lemma_merge_takes_second(first, second, i, j, out, rank_of::<T>(), order_of::<T>());
                j = j + 1;
            }
            rest_of_right.pop().unwrap()
        };
        merged.push(item);
        proof {
            assert(views(merged@) =~= out.push(item@));
        }
    }
    proof {
        lemma_merge_ends(first, second, views(merged@), rank_of::<T>(), order_of::<T>());
    }
    merged
}

/// Arranges items by rank: those that precede first, items of equal rank in
/// the order they came in.
pub fn arrange<T: Ranked>(items: Vec<T>) -> (arranged: Vec<T>)
    ensures
        is_arrangement(views(items@), views(arranged@), rank_of::<T>(), order_of::<T>()),
    decreases items@.len(),
{
    if items.len() <= 1 {
        return items;
    }
    let ghost all = views(items@);
    let mut left = items;
    let right = left.split_off(left.len() / 2);
    let ghost first = views(left@);
    let ghost second = views(right@);
    let left = arrange(left);
    let right = arrange(right);
    let ghost first_arranged = views(left@);
    let ghost second_arranged = views(right@);
    let merged = merge(left, right);
    proof {
        assert(all =~= first + second);
        lemma_arranged_parts(
            first,
            second,
            first_arranged,
            second_arranged,
            views(merged@),
            rank_of::<T>(),
            order_of::<T>(),
        );
    }
    merged
}

} // verus!
