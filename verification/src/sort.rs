//! Sorting of numbers.

use vstd::prelude::*;
use vstd::relations;
use vstd::seq_lib;

verus! {

/// The order on numbers.
pub open spec fn ascending() -> spec_fn(u64, u64) -> bool {
    |a: u64, b: u64| a <= b
}

/// The numbers of a list, from the smallest to the largest.
pub open spec fn sorted(list: Seq<u64>) -> Seq<u64> {
    list.sort_by(ascending())
}

/// Whether a list goes up.
pub open spec fn goes_up(list: Seq<u64>) -> bool {
    forall|i: int, j: int| 0 <= i < j < list.len() ==> list[i] <= list[j]
}

/// A list that goes up and has the numbers of another is that other, sorted.
pub proof fn lemma_sorted_is_unique(list: Seq<u64>, up: Seq<u64>)
    requires
        goes_up(up),
        up.to_multiset() == list.to_multiset(),
    ensures
        up == sorted(list),
{
    let leq = ascending();
    assert(relations::total_ordering(leq));
    list.lemma_sort_by_ensures(leq);
    assert(relations::sorted_by(up, leq));
    seq_lib::lemma_sorted_unique(up, sorted(list), leq);
}

proof fn lemma_take_next(list: Seq<u64>, n: int)
    requires
        0 <= n < list.len(),
    ensures
        list.take(n + 1).to_multiset() == list.take(n).to_multiset().insert(list[n]),
{
    assert(list.take(n + 1) =~= list.take(n).push(list[n]));
    seq_lib::to_multiset_build(list.take(n), list[n]);
}

fn merge(a: &Vec<u64>, b: &Vec<u64>) -> (out: Vec<u64>)
    requires
        goes_up(a@),
        goes_up(b@),
    ensures
        goes_up(out@),
        out@.to_multiset() == a@.to_multiset().add(b@.to_multiset()),
{
    let mut out: Vec<u64> = Vec::new();
    let mut i: usize = 0;
    let mut j: usize = 0;
    proof {
        assert(a@.take(0) =~= Seq::<u64>::empty());
        assert(b@.take(0) =~= Seq::<u64>::empty());
        assert(out@ =~= Seq::<u64>::empty());
        broadcast use seq_lib::group_to_multiset_ensures;

        let none = Seq::<u64>::empty().to_multiset();
        assert(none =~= vstd::multiset::Multiset::<u64>::empty());
        assert(none =~= none.add(none));
    }
    while i < a.len() || j < b.len()
        invariant
            i <= a.len(),
            j <= b.len(),
            goes_up(a@),
            goes_up(b@),
            goes_up(out@),
            forall|k: int, l: int|
                0 <= k < out@.len() && i <= l < a@.len() ==> #[trigger] out@[k] <= #[trigger] a@[l],
            forall|k: int, l: int|
                0 <= k < out@.len() && j <= l < b@.len() ==> #[trigger] out@[k] <= #[trigger] b@[l],
            out@.to_multiset() == a@.take(i as int).to_multiset().add(
                b@.take(j as int).to_multiset(),
            ),
        decreases a.len() - i + b.len() - j,
    {
        let from_a: bool = if i < a.len() && j < b.len() {
            a[i] <= b[j]
        } else {
            i < a.len()
        };
        let ghost before = out@;
        if from_a {
            proof {
                lemma_take_next(a@, i as int);
                seq_lib::to_multiset_build(before, a@[i as int]);
            }
            out.push(a[i]);
            i += 1;
        } else {
            proof {
                lemma_take_next(b@, j as int);
                seq_lib::to_multiset_build(before, b@[j as int]);
            }
            out.push(b[j]);
            j += 1;
        }
        assert(out@.to_multiset() =~= a@.take(i as int).to_multiset().add(
            b@.take(j as int).to_multiset(),
        ));
    }
    assert(a@.take(i as int) =~= a@);
    assert(b@.take(j as int) =~= b@);
    out
}

fn merge_sort(list: &[u64]) -> (out: Vec<u64>)
    ensures
        goes_up(out@),
        out@.to_multiset() == list@.to_multiset(),
    decreases list@.len(),
{
    if list.len() <= 1 {
        let out: Vec<u64> = vstd::slice::slice_to_vec(list);
        assert(out@ == list@);
        return out;
    }
    let mid: usize = list.len() / 2;
    let left: &[u64] = vstd::slice::slice_subrange(list, 0, mid);
    let right: &[u64] = vstd::slice::slice_subrange(list, mid, list.len());
    let a: Vec<u64> = merge_sort(left);
    let b: Vec<u64> = merge_sort(right);
    proof {
        assert(list@ =~= left@ + right@);
        seq_lib::lemma_multiset_commutative(left@, right@);
    }
    merge(&a, &b)
}

/// Sorts numbers from the smallest to the largest.
pub fn sort_values(list: &Vec<u64>) -> (out: Vec<u64>)
    ensures
        out@ == sorted(list@),
        out@.len() == list@.len(),
{
    let out: Vec<u64> = merge_sort(list.as_slice());
    proof {
        lemma_sorted_is_unique(list@, out@);
        seq_lib::to_multiset_len(out@);
        seq_lib::to_multiset_len(list@);
    }
    out
}

/// Sorted numbers go up, and are the numbers that were there, each as often.
pub proof fn law_sorting_goes_up(list: &Vec<u64>, out: Vec<u64>, i: int, j: int)
    requires
        call_ensures(sort_values, (list,), out),
    ensures
        out@.to_multiset() == list@.to_multiset(),
        out@.len() == list@.len(),
        0 <= i < j < out@.len() ==> out@[i] <= out@[j],
{
    list@.lemma_sort_by_ensures(ascending());
    if 0 <= i < j < out@.len() {
        assert(ascending()(out@[i], out@[j]));
    }
}

} // verus!
