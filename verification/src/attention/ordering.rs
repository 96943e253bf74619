//! Arrival order: a stable sort of positions by time, then by rank, then by id.

use vstd::prelude::*;

verus! {

/// When something arrived, and a rank and an id that separate arrivals of one
/// instant. Where these are to play no part, every key carries the same ones.
pub type ArrivalKey = (u64, u64, u128);

/// Whether `a` does not come after `b`.
pub open spec fn not_after(a: ArrivalKey, b: ArrivalKey) -> bool {
    a.0 < b.0 || (a.0 == b.0 && (a.1 < b.1 || (a.1 == b.1 && a.2 <= b.2)))
}

/// Whether `a` does not come after `b`.
fn precedes(a: ArrivalKey, b: ArrivalKey) -> (first: bool)
    ensures
        first == not_after(a, b),
{
    a.0 < b.0 || (a.0 == b.0 && (a.1 < b.1 || (a.1 == b.1 && a.2 <= b.2)))
}

/// `sorted` with position `p` put behind everything that does not come after
/// it.
pub open spec fn placed(sorted: Seq<int>, keys: Seq<ArrivalKey>, p: int) -> Seq<int>
    decreases sorted.len(),
{
    if sorted.len() == 0 || not_after(keys[sorted.last()], keys[p]) {
        sorted.push(p)
    } else {
        placed(sorted.drop_last(), keys, p).push(sorted.last())
    }
}

/// The first `n` positions of `keys`, in arrival order.
pub open spec fn order_of_first(keys: Seq<ArrivalKey>, n: nat) -> Seq<int>
    decreases n,
{
    if n == 0 {
        Seq::empty()
    } else {
        placed(order_of_first(keys, (n - 1) as nat), keys, n - 1)
    }
}

/// The positions of `keys`, in arrival order: by key, and by position where
/// keys are equal.
pub open spec fn order(keys: Seq<ArrivalKey>) -> Seq<int> {
    order_of_first(keys, keys.len())
}

/// `values`, rearranged by a run of positions.
pub open spec fn arranged<T>(values: Seq<T>, positions: Seq<int>) -> Seq<T> {
    positions.map_values(|p: int| values[p])
}

/// Whether position `a` goes before position `b`: its key is smaller, or equal
/// and it stands earlier.
pub open spec fn goes_before(keys: Seq<ArrivalKey>, a: int, b: int) -> bool {
    not_after(keys[a], keys[b]) && (keys[a] == keys[b] ==> a < b)
}

/// Whether `positions` holds each of `0 .. n` exactly once.
pub open spec fn covers(positions: Seq<int>, n: nat) -> bool {
    &&& positions.no_duplicates()
    &&& forall|p: int| #[trigger] positions.contains(p) <==> 0 <= p < n
}

/// Whether every position goes before those behind it.
pub open spec fn in_order(keys: Seq<ArrivalKey>, positions: Seq<int>) -> bool {
    forall|i: int, j: int|
        0 <= i < j < positions.len() ==> goes_before(
            keys,
            #[trigger] positions[i],
            #[trigger] positions[j],
        )
}

/// What putting one more position in keeps.
proof fn placed_keeps_order(sorted: Seq<int>, keys: Seq<ArrivalKey>, p: int)
    requires
        in_order(keys, sorted),
        forall|i: int| 0 <= i < sorted.len() ==> #[trigger] sorted[i] < p,
    ensures
        placed(sorted, keys, p).len() == sorted.len() + 1,
        in_order(keys, placed(sorted, keys, p)),
        forall|i: int|
            0 <= i <= sorted.len() ==> (#[trigger] placed(sorted, keys, p)[i] == p
                || sorted.contains(placed(sorted, keys, p)[i])),
        placed(sorted, keys, p).contains(p),
        forall|i: int|
            0 <= i < sorted.len() ==> placed(sorted, keys, p).contains(#[trigger] sorted[i]),
    decreases sorted.len(),
{
    let result = placed(sorted, keys, p);
    if sorted.len() == 0 || not_after(keys[sorted.last()], keys[p]) {
        assert(result[sorted.len() as int] == p);
        assert forall|i: int| 0 <= i < sorted.len() implies result.contains(#[trigger] sorted[i]) by {
            assert(result[i] == sorted[i]);
        }
        assert forall|i: int| 0 <= i <= sorted.len() implies (#[trigger] result[i] == p
            || sorted.contains(result[i])) by {
            if i < sorted.len() {
                assert(sorted[i] == result[i]);
            }
        }
        assert forall|i: int, j: int| 0 <= i < j < result.len() implies goes_before(
            keys,
            #[trigger] result[i],
            #[trigger] result[j],
        ) by {
            if j == sorted.len() && i < sorted.len() - 1 {
                assert(goes_before(keys, sorted[i], sorted[sorted.len() - 1]));
            }
        }
    } else {
        let rest = sorted.drop_last();
        let inner = placed(rest, keys, p);
        assert forall|i: int, j: int| 0 <= i < j < rest.len() implies goes_before(
            keys,
            #[trigger] rest[i],
            #[trigger] rest[j],
        ) by {
            assert(goes_before(keys, sorted[i], sorted[j]));
        }
        placed_keeps_order(rest, keys, p);
        assert(result == inner.push(sorted.last()));
        let at = choose|i: int| 0 <= i < inner.len() && inner[i] == p;
        assert(result[at] == p);
        assert(result[sorted.len() as int] == sorted.last());
        assert forall|i: int| 0 <= i < sorted.len() implies result.contains(#[trigger] sorted[i]) by {
            if i < rest.len() {
                assert(inner.contains(rest[i]));
                let k = choose|k: int| 0 <= k < inner.len() && inner[k] == rest[i];
                assert(result[k] == sorted[i]);
            }
        }
        assert forall|i: int| 0 <= i <= sorted.len() implies (#[trigger] result[i] == p
            || sorted.contains(result[i])) by {
            if i < inner.len() {
                assert(inner[i] == result[i]);
                if inner[i] != p {
                    assert(rest.contains(inner[i]));
                    let k = choose|k: int| 0 <= k < rest.len() && rest[k] == inner[i];
                    assert(sorted[k] == result[i]);
                }
            } else {
                assert(sorted[sorted.len() - 1] == result[i]);
            }
        }
        assert forall|i: int, j: int| 0 <= i < j < result.len() implies goes_before(
            keys,
            #[trigger] result[i],
            #[trigger] result[j],
        ) by {
            if j < inner.len() {
                assert(goes_before(keys, inner[i], inner[j]));
            } else if inner[i] != p {
                assert(rest.contains(inner[i]));
                let k = choose|k: int| 0 <= k < rest.len() && rest[k] == inner[i];
                assert(goes_before(keys, sorted[k], sorted[sorted.len() - 1]));
            }
        }
    }
}

/// The first `n` positions in arrival order are those positions, once each, in
/// order.
proof fn order_of_first_is_ordered(keys: Seq<ArrivalKey>, n: nat)
    requires
        n <= keys.len(),
    ensures
        order_of_first(keys, n).len() == n,
        covers(order_of_first(keys, n), n),
        in_order(keys, order_of_first(keys, n)),
    decreases n,
{
    if n > 0 {
        let m = (n - 1) as nat;
        let before = order_of_first(keys, m);
        let after = order_of_first(keys, n);
        order_of_first_is_ordered(keys, m);
        assert forall|i: int| 0 <= i < before.len() implies #[trigger] before[i] < m by {
            assert(before.contains(before[i]));
        }
        placed_keeps_order(before, keys, m as int);
        assert forall|p: int| #[trigger] after.contains(p) <==> 0 <= p < n by {
            if after.contains(p) {
                let i = choose|i: int| 0 <= i < after.len() && after[i] == p;
                assert(after[i] == m || before.contains(after[i]));
            }
            if 0 <= p < n && p != m {
                assert(before.contains(p));
                let i = choose|i: int| 0 <= i < before.len() && before[i] == p;
                assert(after.contains(before[i]));
            }
        }
        assert forall|i: int, j: int|
            0 <= i < after.len() && 0 <= j < after.len() && i != j implies after[i] != after[j] by {
            if i < j {
                assert(goes_before(keys, after[i], after[j]));
            } else {
                assert(goes_before(keys, after[j], after[i]));
            }
        }
    }
}

/// Arrival order holds every position once, smaller keys first, and keeps the
/// given order where keys are equal.
pub proof fn order_is_a_stable_sort(keys: Seq<ArrivalKey>)
    ensures
        order(keys).len() == keys.len(),
        covers(order(keys), keys.len()),
        in_order(keys, order(keys)),
{
    order_of_first_is_ordered(keys, keys.len());
}

/// Two runs of one set of positions that are both in order are the same run.
proof fn ordered_runs_agree(keys: Seq<ArrivalKey>, a: Seq<int>, b: Seq<int>)
    requires
        a.no_duplicates(),
        b.no_duplicates(),
        forall|p: int| #[trigger] a.contains(p) <==> b.contains(p),
        in_order(keys, a),
        in_order(keys, b),
    ensures
        a == b,
    decreases a.len(),
{
    if a.len() == 0 {
        if b.len() > 0 {
            assert(b.contains(b[0]));
            assert(a.contains(b[0]));
        }
        assert(a =~= b);
    } else {
        assert(a.contains(a.last()));
        assert(b.contains(a.last()));
        assert(b.contains(b.last()));
        assert(a.contains(b.last()));
        let i = choose|i: int| 0 <= i < a.len() && a[i] == b.last();
        let j = choose|j: int| 0 <= j < b.len() && b[j] == a.last();
        if i < a.len() - 1 {
            assert(goes_before(keys, a[i], a[a.len() - 1]));
            if j < b.len() - 1 {
                assert(goes_before(keys, b[j], b[b.len() - 1]));
            }
        }
        assert(a.last() == b.last());
        let c = a.drop_last();
        let d = b.drop_last();
        assert forall|p: int| #[trigger] c.contains(p) <==> d.contains(p) by {
            if c.contains(p) {
                let k = choose|k: int| 0 <= k < c.len() && c[k] == p;
                assert(a[k] == p);
                assert(a.contains(p));
                let l = choose|l: int| 0 <= l < b.len() && b[l] == p;
                assert(d[l] == p);
            }
            if d.contains(p) {
                let l = choose|l: int| 0 <= l < d.len() && d[l] == p;
                assert(b[l] == p);
                assert(b.contains(p));
                assert(a.contains(p));
                let k = choose|k: int| 0 <= k < a.len() && a[k] == p;
                assert(c[k] == p);
            }
        }
        assert forall|k: int, l: int| 0 <= k < l < c.len() implies goes_before(
            keys,
            #[trigger] c[k],
            #[trigger] c[l],
        ) by {
            assert(goes_before(keys, a[k], a[l]));
        }
        assert forall|k: int, l: int| 0 <= k < l < d.len() implies goes_before(
            keys,
            #[trigger] d[k],
            #[trigger] d[l],
        ) by {
            assert(goes_before(keys, b[k], b[l]));
        }
        ordered_runs_agree(keys, c, d);
        assert(a =~= c.push(a.last()));
        assert(b =~= d.push(b.last()));
    }
}

/// There is only one arrival order: any run of all the positions, once each,
/// smaller keys first and equal keys in the given order, is it.
pub proof fn order_is_unique(keys: Seq<ArrivalKey>, positions: Seq<int>)
    requires
        covers(positions, keys.len()),
        in_order(keys, positions),
    ensures
        positions == order(keys),
{
    order_is_a_stable_sort(keys);
    assert forall|p: int| #[trigger] positions.contains(p) <==> order(keys).contains(p) by {}
    ordered_runs_agree(keys, positions, order(keys));
}

/// Keys that are already in order stay where they are.
pub proof fn ordered_keys_stay(keys: Seq<ArrivalKey>)
    requires
        forall|i: int, j: int| 0 <= i < j < keys.len() ==> not_after(keys[i], keys[j]),
    ensures
        order(keys) == Seq::new(keys.len(), |i: int| i),
{
    let identity = Seq::new(keys.len(), |i: int| i);
    assert forall|p: int| #[trigger] identity.contains(p) <==> 0 <= p < keys.len() by {
        if 0 <= p < keys.len() {
            assert(identity[p] == p);
        }
    }
    order_is_unique(keys, identity);
}

/// The positions of `keys`, in arrival order.
pub fn arrival_order(keys: &Vec<ArrivalKey>) -> (positions: Vec<usize>)
    ensures
        positions@.map_values(|p: usize| p as int) == order(keys@),
        forall|i: int| 0 <= i < positions.len() ==> #[trigger] positions@[i] < keys.len(),
        positions.len() == keys.len(),
{
    let mut positions: Vec<usize> = Vec::new();
    let mut n: usize = 0;
    while n < keys.len()
        invariant
            n <= keys.len(),
            positions.len() == n,
            forall|i: int| 0 <= i < positions.len() ==> #[trigger] positions@[i] < n,
            positions@.map_values(|p: usize| p as int) == order_of_first(keys@, n as nat),
        decreases keys.len() - n,
    {
        let ghost sorted = positions@.map_values(|p: usize| p as int);
        let ghost before = positions@;
        let mut at: usize = n;
        proof {
            assert(sorted.take(n as int) =~= sorted);
            assert(placed(sorted, keys@, n as int) =~= placed(sorted, keys@, n as int)
                + sorted.skip(n as int));
        }
        while at > 0 && !precedes(keys[positions[at - 1]], keys[n])
            invariant
                at <= n < keys.len(),
                positions.len() == n,
                positions@ == before,
                sorted == before.map_values(|p: usize| p as int),
                forall|i: int| 0 <= i < positions.len() ==> #[trigger] positions@[i] < n,
                placed(sorted, keys@, n as int) == placed(sorted.take(at as int), keys@, n as int)
                    + sorted.skip(at as int),
            decreases at,
        {
            proof {
                let head = sorted.take(at as int);
                assert(head.last() == before[at - 1] as int);
                assert(head.drop_last() =~= sorted.take(at - 1));
                assert(placed(head, keys@, n as int) + sorted.skip(at as int) =~= placed(
                    sorted.take(at - 1),
                    keys@,
                    n as int,
                ) + sorted.skip(at - 1));
            }
            at -= 1;
        }
        positions.insert(at, n);
        proof {
            let head = sorted.take(at as int);
            if at > 0 {
                assert(head.last() == before[at - 1] as int);
            }
            assert(placed(head, keys@, n as int) == head.push(n as int));
            assert(positions@.map_values(|p: usize| p as int) =~= head.push(n as int)
                + sorted.skip(at as int));
        }
        n += 1;
    }
    positions
}

} // verus!
