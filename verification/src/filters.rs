//! Facts about filtered sequences.

use vstd::prelude::*;

verus! {

/// Filters that agree on every element give the same sequence.
pub proof fn equal_filters<A>(values: Seq<A>, p: spec_fn(A) -> bool, q: spec_fn(A) -> bool)
    requires
        forall|i: int| 0 <= i < values.len() ==> p(#[trigger] values[i]) == q(values[i]),
    ensures
        values.filter(p) == values.filter(q),
    decreases values.len(),
{
    reveal(Seq::filter);
    if values.len() > 0 {
        let rest = values.drop_last();
        assert forall|i: int| 0 <= i < rest.len() implies p(#[trigger] rest[i]) == q(rest[i]) by {
            assert(rest[i] == values[i]);
        }
        equal_filters(rest, p, q);
        assert(p(values[values.len() - 1]) == q(values[values.len() - 1]));
    }
}

/// A filter that every element passes keeps them all.
pub proof fn keeping_all<A>(values: Seq<A>, keep: spec_fn(A) -> bool)
    requires
        forall|i: int| 0 <= i < values.len() ==> keep(#[trigger] values[i]),
    ensures
        values.filter(keep) == values,
    decreases values.len(),
{
    reveal(Seq::filter);
    if values.len() > 0 {
        let rest = values.drop_last();
        assert forall|i: int| 0 <= i < rest.len() implies keep(#[trigger] rest[i]) by {
            assert(rest[i] == values[i]);
        }
        keeping_all(rest, keep);
        assert(keep(values[values.len() - 1]));
        assert(rest.push(values.last()) =~= values);
    } else {
        assert(values.filter(keep) =~= values);
    }
}

/// Filtering twice is filtering once.
pub proof fn filtering_twice<A>(values: Seq<A>, keep: spec_fn(A) -> bool)
    ensures
        values.filter(keep).filter(keep) == values.filter(keep),
{
    let once = values.filter(keep);
    assert forall|i: int| 0 <= i < once.len() implies keep(#[trigger] once[i]) by {
        values.lemma_filter_pred(keep, i);
    }
    keeping_all(once, keep);
}

/// Whether `from` names every chosen position below `n` once, in order, and no
/// other.
pub open spec fn picks(from: Seq<int>, n: int, chosen: spec_fn(int) -> bool) -> bool {
    &&& forall|k: int|
        0 <= k < from.len() ==> 0 <= (#[trigger] from[k]) < n && chosen(from[k])
    &&& forall|j: int, k: int|
        0 <= j < k < from.len() ==> (#[trigger] from[j]) < (#[trigger] from[k])
    &&& forall|i: int| 0 <= i < n && #[trigger] chosen(i) ==> from.contains(i)
}

/// The elements that a filter keeps are those at the positions it picks.
pub proof fn kept_positions<A>(values: Seq<A>, keep: spec_fn(A) -> bool) -> (from: Seq<int>)
    ensures
        picks(from, values.len() as int, |i: int| keep(values[i])),
        values.filter(keep) == from.map_values(|i: int| values[i]),
    decreases values.len(),
{
    reveal(Seq::filter);
    let chosen = |i: int| keep(values[i]);
    if values.len() == 0 {
        let from = Seq::<int>::empty();
        assert(values.filter(keep) =~= from.map_values(|i: int| values[i]));
        from
    } else {
        let rest = values.drop_last();
        let n = rest.len() as int;
        let before = kept_positions(rest, keep);
        let earlier = |i: int| keep(rest[i]);
        let from = if keep(values.last()) {
            before.push(n)
        } else {
            before
        };
        assert forall|k: int| 0 <= k < from.len() implies 0 <= (#[trigger] from[k]) < values.len()
            && chosen(from[k]) by {
            if k < before.len() {
                assert(from[k] == before[k]);
                assert(earlier(before[k]));
            }
        }
        assert forall|j: int, k: int| 0 <= j < k < from.len() implies (#[trigger] from[j]) < (
        #[trigger] from[k]) by {
            assert(from[j] == before[j]);
            if k < before.len() {
                assert(from[k] == before[k]);
            }
        }
        assert forall|i: int| 0 <= i < values.len() && #[trigger] chosen(i) implies from.contains(
            i,
        ) by {
            if i < n {
                assert(earlier(i));
                let k = choose|k: int| 0 <= k < before.len() && before[k] == i;
                assert(from[k] == i);
            } else {
                assert(from[before.len() as int] == i);
            }
        }
        assert(values.filter(keep) =~= from.map_values(|i: int| values[i])) by {
            assert forall|k: int| 0 <= k < before.len() implies rest[#[trigger] before[k]]
                == values[before[k]] by {}
        }
        from
    }
}

} // verus!
