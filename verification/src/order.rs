//! What it means to arrange a sequence by rank without disturbing equals,
//! and why such an arrangement is the only one.

use vstd::prelude::*;

verus! {

/// The test "is of rank `k`".
pub open spec fn ranked<E, K>(rank: spec_fn(E) -> K, k: K) -> spec_fn(E) -> bool {
    |item: E| rank(item) == k
}

/// No item stands behind one that it precedes.
pub open spec fn in_order<E, K>(
    items: Seq<E>,
    rank: spec_fn(E) -> K,
    precedes: spec_fn(K, K) -> bool,
) -> bool {
    forall|i: int, j: int|
        0 <= i < j < items.len() ==> !precedes(rank(#[trigger] items[j]), rank(#[trigger] items[i]))
}

/// For every rank, `output` holds the same items of that rank as `input`,
/// in the same order.
pub open spec fn keeps_ties<E, K>(input: Seq<E>, output: Seq<E>, rank: spec_fn(E) -> K) -> bool {
    forall|k: K|
        #![trigger ranked(rank, k)]
        output.filter(ranked(rank, k)) == input.filter(ranked(rank, k))
}

/// `output` is `input` arranged by rank: the same items, those that precede
/// first, and items of equal rank in the order they had.
pub open spec fn is_arrangement<E, K>(
    input: Seq<E>,
    output: Seq<E>,
    rank: spec_fn(E) -> K,
    precedes: spec_fn(K, K) -> bool,
) -> bool {
    &&& in_order(output, rank, precedes)
    &&& keeps_ties(input, output, rank)
    &&& output.to_multiset() == input.to_multiset()
}

/// Of two different ranks one precedes the other.
pub open spec fn is_connected<K>(precedes: spec_fn(K, K) -> bool) -> bool {
    forall|a: K, b: K| a != b ==> #[trigger] precedes(a, b) || precedes(b, a)
}

/// Two sequences in order that hold, for every rank, the same items of that
/// rank in the same order are one sequence, provided any two different ranks
/// are comparable.
pub proof fn lemma_same_ties_same_order<E, K>(
    first: Seq<E>,
    second: Seq<E>,
    rank: spec_fn(E) -> K,
    precedes: spec_fn(K, K) -> bool,
)
    requires
        is_connected(precedes),
        in_order(first, rank, precedes),
        in_order(second, rank, precedes),
        keeps_ties(first, second, rank),
    ensures
        first == second,
    decreases first.len(),
{
    broadcast use vstd::seq_lib::group_filter_ensures;

    if first.len() == 0 {
        if second.len() > 0 {
            let of_k = ranked(rank, rank(second[0]));
            assert(of_k(second[0]));
            second.lemma_filter_contains(of_k, 0);
            assert(second.filter(of_k).len() > 0);
            first.lemma_filter_len(of_k);
            assert(second.filter(of_k) == first.filter(of_k));
        }
        assert(first =~= second);
    } else {
        let x = first.last();
        let k = rank(x);
        let of_k = ranked(rank, k);
        assert(of_k(x));
        assert(second.filter(of_k) == first.filter(of_k));
        assert(first.filter(of_k) == first.drop_last().filter(of_k).push(x)) by {
            reveal(Seq::filter);
        }
        second.lemma_filter_len(of_k);
        assert(second.len() > 0);
        let y = second.last();
        let ky = rank(y);
        if ky != k {
            // Some item of `second` is of rank k; it stands before y.
            let z = second.filter(of_k)[0];
            second.lemma_filter_pred(of_k, 0);
            assert(second.filter(of_k).contains(z));
            second.lemma_filter_contains_rev(of_k, z);
            let m = choose|m: int| 0 <= m < second.len() && second[m] == z;
            assert(rank(second[m]) == k);
            assert(m < second.len() - 1);
            assert(!precedes(rank(second[second.len() - 1]), rank(second[m])));
            // And y, of rank ky, is an item of `first`; it stands before x.
            let of_y = ranked(rank, ky);
            assert(of_y(y));
            second.lemma_filter_contains(of_y, second.len() - 1);
            assert(second.filter(of_y) == first.filter(of_y));
            first.lemma_filter_contains_rev(of_y, y);
            let n = choose|n: int| 0 <= n < first.len() && first[n] == y;
            assert(n < first.len() - 1);
            assert(!precedes(rank(first[first.len() - 1]), rank(first[n])));
            assert(precedes(ky, k) || precedes(k, ky));
            assert(false);
        }
        assert(of_k(y));
        assert(second.filter(of_k) == second.drop_last().filter(of_k).push(y)) by {
            reveal(Seq::filter);
        }
        assert(first.filter(of_k).last() == x);
        assert(second.filter(of_k).last() == y);
        assert(x == y);
        let shorter = first.drop_last();
        let other = second.drop_last();
        assert(shorter.filter(of_k) =~= first.filter(of_k).drop_last());
        assert(other.filter(of_k) =~= second.filter(of_k).drop_last());
        assert forall|k2: K|
            #![trigger ranked(rank, k2)]
            other.filter(ranked(rank, k2)) == shorter.filter(ranked(rank, k2)) by {
            let of_k2 = ranked(rank, k2);
            assert(second.filter(of_k2) == first.filter(of_k2));
            if k2 != k {
                assert(!of_k2(x));
                assert(first.filter(of_k2) == shorter.filter(of_k2)) by {
                    reveal(Seq::filter);
                }
                assert(second.filter(of_k2) == other.filter(of_k2)) by {
                    reveal(Seq::filter);
                }
            }
        }
        assert forall|i: int, j: int| 0 <= i < j < shorter.len() implies !precedes(
            rank(#[trigger] shorter[j]),
            rank(#[trigger] shorter[i]),
        ) by {
            assert(shorter[i] == first[i] && shorter[j] == first[j]);
        }
        assert forall|i: int, j: int| 0 <= i < j < other.len() implies !precedes(
            rank(#[trigger] other[j]),
            rank(#[trigger] other[i]),
        ) by {
            assert(other[i] == second[i] && other[j] == second[j]);
        }
        lemma_same_ties_same_order(shorter, other, rank, precedes);
        assert(first =~= shorter.push(x));
        assert(second =~= other.push(y));
    }
}

/// An input has one arrangement only, provided any two different ranks are
/// comparable.
pub proof fn lemma_arrangement_is_unique<E, K>(
    input: Seq<E>,
    first: Seq<E>,
    second: Seq<E>,
    rank: spec_fn(E) -> K,
    precedes: spec_fn(K, K) -> bool,
)
    requires
        is_connected(precedes),
        is_arrangement(input, first, rank, precedes),
        is_arrangement(input, second, rank, precedes),
    ensures
        first == second,
{
    assert forall|k: K|
        #![trigger ranked(rank, k)]
        second.filter(ranked(rank, k)) == first.filter(ranked(rank, k)) by {
        assert(second.filter(ranked(rank, k)) == input.filter(ranked(rank, k)));
        assert(first.filter(ranked(rank, k)) == input.filter(ranked(rank, k)));
    }
    lemma_same_ties_same_order(first, second, rank, precedes);
}

/// An arrangement is as long as its input.
pub proof fn lemma_arrangement_keeps_length<E, K>(
    input: Seq<E>,
    output: Seq<E>,
    rank: spec_fn(E) -> K,
    precedes: spec_fn(K, K) -> bool,
)
    requires
        is_arrangement(input, output, rank, precedes),
    ensures
        output.len() == input.len(),
{
    vstd::seq_lib::to_multiset_len(input);
    vstd::seq_lib::to_multiset_len(output);
}

/// `precedes` orders ranks: of two ranks at most one precedes the other, and
/// a rank that neither precedes a second, nor the second a third, does not
/// precede the third.
pub open spec fn is_ordering<K>(precedes: spec_fn(K, K) -> bool) -> bool {
    &&& forall|a: K, b: K| #[trigger] precedes(a, b) ==> !precedes(b, a)
    &&& forall|a: K, b: K, c: K|
        !#[trigger] precedes(a, b) && !#[trigger] precedes(b, c) ==> !precedes(a, c)
}

/// `out` is what a merge of `first` and `second` has put out when it has
/// taken `i` items of `first` and `j` of `second`: those items, arranged,
/// and none of them behind an item that is still to come.
pub open spec fn is_merged_so_far<E, K>(
    first: Seq<E>,
    second: Seq<E>,
    i: int,
    j: int,
    out: Seq<E>,
    rank: spec_fn(E) -> K,
    precedes: spec_fn(K, K) -> bool,
) -> bool {
    &&& 0 <= i <= first.len()
    &&& 0 <= j <= second.len()
    &&& in_order(first, rank, precedes)
    &&& in_order(second, rank, precedes)
    &&& in_order(out, rank, precedes)
    &&& forall|p: int, q: int|
        0 <= p < out.len() && i <= q < first.len() ==> !precedes(
            rank(#[trigger] first[q]),
            rank(#[trigger] out[p]),
        )
    &&& forall|p: int, q: int|
        0 <= p < out.len() && j <= q < second.len() ==> !precedes(
            rank(#[trigger] second[q]),
            rank(#[trigger] out[p]),
        )
    &&& forall|k: K|
        #![trigger ranked(rank, k)]
        out.filter(ranked(rank, k)) + first.skip(i).filter(ranked(rank, k)) + second.skip(
            j,
        ).filter(ranked(rank, k)) == first.filter(ranked(rank, k)) + second.filter(
            ranked(rank, k),
        )
    &&& out.to_multiset().add(first.skip(i).to_multiset()).add(second.skip(j).to_multiset())
        == first.to_multiset().add(second.to_multiset())
}

/// A merge begins with nothing put out.
pub proof fn lemma_merge_begins<E, K>(
    first: Seq<E>,
    second: Seq<E>,
    rank: spec_fn(E) -> K,
    precedes: spec_fn(K, K) -> bool,
)
    requires
        in_order(first, rank, precedes),
        in_order(second, rank, precedes),
    ensures
        is_merged_so_far(first, second, 0, 0, Seq::empty(), rank, precedes),
{
    broadcast use vstd::seq_lib::group_to_multiset_ensures;

    let out = Seq::<E>::empty();
    assert(first.skip(0) =~= first);
    assert(second.skip(0) =~= second);
    assert forall|k: K|
        #![trigger ranked(rank, k)]
        out.filter(ranked(rank, k)) + first.filter(ranked(rank, k)) + second.filter(
            ranked(rank, k),
        ) == first.filter(ranked(rank, k)) + second.filter(ranked(rank, k)) by {
        let of_k = ranked(rank, k);
        assert(out.filter(of_k) =~= Seq::empty()) by {
            reveal(Seq::filter);
        }
        assert(Seq::<E>::empty() + first.filter(of_k) =~= first.filter(of_k));
    }
    assert(out.to_multiset().add(first.to_multiset()).add(second.to_multiset())
        =~= first.to_multiset().add(second.to_multiset()));
}

/// What is left of a sequence begins with its next item.
proof fn lemma_next_of_rest<E, K>(items: Seq<E>, i: int, rank: spec_fn(E) -> K, k: K)
    requires
        0 <= i < items.len(),
    ensures
        items.skip(i).filter(ranked(rank, k)) == (if rank(items[i]) == k {
            seq![items[i]]
        } else {
            Seq::empty()
        }) + items.skip(i + 1).filter(ranked(rank, k)),
        items.skip(i).to_multiset() == items.skip(i + 1).to_multiset().insert(items[i]),
{
    broadcast use vstd::seq_lib::group_to_multiset_ensures;

    let later = items.skip(i + 1);
    assert(items.skip(i) =~= seq![items[i]] + later);
    later.lemma_filter_prepend(items[i], ranked(rank, k));
    vstd::seq_lib::lemma_multiset_commutative(seq![items[i]], later);
    assert(seq![items[i]] =~= Seq::<E>::empty().push(items[i]));
    assert(items.skip(i).to_multiset() =~= later.to_multiset().insert(items[i]));
}

/// The next item of `first` may be put out when the next item of `second`
/// does not precede it.
pub proof fn lemma_merge_takes_first<E, K>(
    first: Seq<E>,
    second: Seq<E>,
    i: int,
    j: int,
    out: Seq<E>,
    rank: spec_fn(E) -> K,
    precedes: spec_fn(K, K) -> bool,
)
    requires
        is_ordering(precedes),
        is_merged_so_far(first, second, i, j, out, rank, precedes),
        i < first.len(),
        j < second.len() ==> !precedes(rank(second[j]), rank(first[i])),
    ensures
        is_merged_so_far(first, second, i + 1, j, out.push(first[i]), rank, precedes),
{
    let item = first[i];
    let next = out.push(item);
    assert forall|p: int, q: int| 0 <= p < q < next.len() implies !precedes(
        rank(#[trigger] next[q]),
        rank(#[trigger] next[p]),
    ) by {
        assert(next[p] == out[p]);
        if q < out.len() {
            assert(next[q] == out[q]);
        }
    }
    assert forall|p: int, q: int| 0 <= p < next.len() && i + 1 <= q < first.len() implies !precedes(
        rank(#[trigger] first[q]),
        rank(#[trigger] next[p]),
    ) by {
        if p < out.len() {
            assert(next[p] == out[p]);
        }
    }
    assert forall|p: int, q: int| 0 <= p < next.len() && j <= q < second.len() implies !precedes(
        rank(#[trigger] second[q]),
        rank(#[trigger] next[p]),
    ) by {
        if p < out.len() {
            assert(next[p] == out[p]);
        } else if q > j {
            assert(!precedes(rank(second[q]), rank(second[j])));
            assert(!precedes(rank(second[j]), rank(item)));
        }
    }
    assert forall|k: K|
        #![trigger ranked(rank, k)]
        next.filter(ranked(rank, k)) + first.skip(i + 1).filter(ranked(rank, k)) + second.skip(
            j,
        ).filter(ranked(rank, k)) == first.filter(ranked(rank, k)) + second.filter(
            ranked(rank, k),
        ) by {
        let of_k = ranked(rank, k);
        let later = first.skip(i + 1).filter(of_k);
        let other = second.skip(j).filter(of_k);
        assert(out.filter(of_k) + first.skip(i).filter(of_k) + other == first.filter(of_k)
            + second.filter(of_k));
        lemma_next_of_rest(first, i, rank, k);
        out.lemma_filter_push(item, of_k);
        if of_k(item) {
            assert(out.filter(of_k).push(item) + later + other =~= out.filter(of_k) + (seq![item]
                + later) + other);
        } else {
            assert(Seq::<E>::empty() + later =~= later);
        }
    }
    lemma_next_of_rest(first, i, rank, rank(item));
    vstd::seq_lib::to_multiset_build(out, item);
    assert(next.to_multiset().add(first.skip(i + 1).to_multiset()).add(
        second.skip(j).to_multiset(),
    ) =~= out.to_multiset().add(first.skip(i).to_multiset()).add(second.skip(j).to_multiset()));
}

/// The next item of `second` may be put out when `first` is used up, or
/// when that item precedes the next item of `first`.
pub proof fn lemma_merge_takes_second<E, K>(
    first: Seq<E>,
    second: Seq<E>,
    i: int,
    j: int,
    out: Seq<E>,
    rank: spec_fn(E) -> K,
    precedes: spec_fn(K, K) -> bool,
)
    requires
        is_ordering(precedes),
        is_merged_so_far(first, second, i, j, out, rank, precedes),
        j < second.len(),
        i < first.len() ==> precedes(rank(second[j]), rank(first[i])),
    ensures
        is_merged_so_far(first, second, i, j + 1, out.push(second[j]), rank, precedes),
{
    let item = second[j];
    let next = out.push(item);
    let rest = first.skip(i);
    // Nothing left in `first` precedes the item, nor has its rank.
    assert forall|q: int| i <= q < first.len() implies !precedes(
        rank(#[trigger] first[q]),
        rank(item),
    ) && rank(first[q]) != rank(item) by {
        assert(precedes(rank(item), rank(first[i])));
        assert(!precedes(rank(first[i]), rank(item)));
        if q > i {
            assert(!precedes(rank(first[q]), rank(first[i])));
        }
    }
    assert forall|p: int, q: int| 0 <= p < q < next.len() implies !precedes(
        rank(#[trigger] next[q]),
        rank(#[trigger] next[p]),
    ) by {
        assert(next[p] == out[p]);
        if q < out.len() {
            assert(next[q] == out[q]);
        }
    }
    assert forall|p: int, q: int| 0 <= p < next.len() && i <= q < first.len() implies !precedes(
        rank(#[trigger] first[q]),
        rank(#[trigger] next[p]),
    ) by {
        if p < out.len() {
            assert(next[p] == out[p]);
        }
    }
    assert forall|p: int, q: int|
        0 <= p < next.len() && j + 1 <= q < second.len() implies !precedes(
        rank(#[trigger] second[q]),
        rank(#[trigger] next[p]),
    ) by {
        if p < out.len() {
            assert(next[p] == out[p]);
        }
    }
    assert forall|k: K|
        #![trigger ranked(rank, k)]
        next.filter(ranked(rank, k)) + rest.filter(ranked(rank, k)) + second.skip(j + 1).filter(
            ranked(rank, k),
        ) == first.filter(ranked(rank, k)) + second.filter(ranked(rank, k)) by {
        let of_k = ranked(rank, k);
        let later = second.skip(j + 1).filter(of_k);
        assert(out.filter(of_k) + rest.filter(of_k) + second.skip(j).filter(of_k) == first.filter(
            of_k,
        ) + second.filter(of_k));
        lemma_next_of_rest(second, j, rank, k);
        out.lemma_filter_push(item, of_k);
        if of_k(item) {
            assert(rest.all(|other: E| !of_k(other))) by {
                assert forall|q: int| 0 <= q < rest.len() implies !of_k(#[trigger] rest[q]) by {
                    assert(rest[q] == first[i + q]);
                }
            }
            rest.lemma_all_neg_filter_empty(of_k);
            assert(rest.filter(of_k) =~= Seq::empty());
            assert(out.filter(of_k).push(item) + rest.filter(of_k) + later =~= out.filter(of_k)
                + rest.filter(of_k) + (seq![item] + later));
        } else {
            assert(Seq::<E>::empty() + later =~= later);
        }
    }
    lemma_next_of_rest(second, j, rank, rank(item));
    vstd::seq_lib::to_multiset_build(out, item);
    assert(next.to_multiset().add(rest.to_multiset()).add(second.skip(j + 1).to_multiset())
        =~= out.to_multiset().add(rest.to_multiset()).add(second.skip(j).to_multiset()));
}

/// When a merge has taken every item, what it has put out is the first
/// sequence followed by the second, arranged.
pub proof fn lemma_merge_ends<E, K>(
    first: Seq<E>,
    second: Seq<E>,
    out: Seq<E>,
    rank: spec_fn(E) -> K,
    precedes: spec_fn(K, K) -> bool,
)
    requires
        is_merged_so_far(
            first,
            second,
            first.len() as int,
            second.len() as int,
            out,
            rank,
            precedes,
        ),
    ensures
        is_arrangement(first + second, out, rank, precedes),
{
    broadcast use vstd::seq_lib::group_to_multiset_ensures;

    let none = Seq::<E>::empty();
    assert(first.skip(first.len() as int) =~= none);
    assert(second.skip(second.len() as int) =~= none);
    assert forall|k: K|
        #![trigger ranked(rank, k)]
        out.filter(ranked(rank, k)) == (first + second).filter(ranked(rank, k)) by {
        let of_k = ranked(rank, k);
        assert(none.filter(of_k) =~= none) by {
            reveal(Seq::filter);
        }
        assert(out.filter(of_k) + none.filter(of_k) + none.filter(of_k) =~= out.filter(of_k));
        Seq::filter_distributes_over_add(first, second, of_k);
    }
    vstd::seq_lib::lemma_multiset_commutative(first, second);
    assert(out.to_multiset().add(none.to_multiset()).add(none.to_multiset()) =~= out.to_multiset());
}

/// An arrangement of two parts, each arranged, is an arrangement of the
/// whole.
pub proof fn lemma_arranged_parts<E, K>(
    first: Seq<E>,
    second: Seq<E>,
    first_arranged: Seq<E>,
    second_arranged: Seq<E>,
    merged: Seq<E>,
    rank: spec_fn(E) -> K,
    precedes: spec_fn(K, K) -> bool,
)
    requires
        is_arrangement(first, first_arranged, rank, precedes),
        is_arrangement(second, second_arranged, rank, precedes),
        is_arrangement(first_arranged + second_arranged, merged, rank, precedes),
    ensures
        is_arrangement(first + second, merged, rank, precedes),
{
    assert forall|k: K|
        #![trigger ranked(rank, k)]
        merged.filter(ranked(rank, k)) == (first + second).filter(ranked(rank, k)) by {
        let of_k = ranked(rank, k);
        assert(merged.filter(of_k) == (first_arranged + second_arranged).filter(of_k));
        assert(first_arranged.filter(of_k) == first.filter(of_k));
        assert(second_arranged.filter(of_k) == second.filter(of_k));
        Seq::filter_distributes_over_add(first_arranged, second_arranged, of_k);
        Seq::filter_distributes_over_add(first, second, of_k);
    }
    vstd::seq_lib::lemma_multiset_commutative(first, second);
    vstd::seq_lib::lemma_multiset_commutative(first_arranged, second_arranged);
}

} // verus!
