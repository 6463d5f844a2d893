//! Stable ordering of positions by an integer key, as a stable sort by that
//! key lays them out.

use vstd::prelude::*;

verus! {

/// Position `a` comes before position `b`: its key is smaller (larger when
/// descending), or the keys are equal and `a` is earlier.
pub open spec fn precedes(keys: Seq<i64>, descending: bool, a: int, b: int) -> bool {
    if keys[a] == keys[b] {
        a < b
    } else if descending {
        keys[a] > keys[b]
    } else {
        keys[a] < keys[b]
    }
}

/// `out` lists every position of `keys` once, each before the positions it
/// precedes: the order in which a stable sort by the keys leaves them.
pub open spec fn is_stable_order(keys: Seq<i64>, descending: bool, out: Seq<usize>) -> bool {
    &&& out.len() == keys.len()
    &&& forall|i: int| 0 <= i < out.len() ==> (#[trigger] out[i]) < keys.len()
    &&& forall|i: int, j: int| 0 <= i < j < out.len() ==> precedes(keys, descending, #[trigger] out[i] as int, #[trigger] out[j] as int)
    &&& forall|x: usize| x < keys.len() ==> #[trigger] out.contains(x)
}

/// The stable order of the positions of `keys`.
pub open spec fn stable_order_of(keys: Seq<i64>, descending: bool) -> Seq<usize> {
    choose|out: Seq<usize>| is_stable_order(keys, descending, out)
}

/// Two stable orders of the same keys are the same: the order is determined
/// by the keys alone.
pub proof fn lemma_stable_order_unique(keys: Seq<i64>, descending: bool, a: Seq<usize>, b: Seq<usize>)
    requires
        is_stable_order(keys, descending, a),
        is_stable_order(keys, descending, b),
    ensures
        a == b,
{
    assert forall|p: int| 0 <= p < a.len() implies a[p] == b[p] by {
        lemma_orders_agree_at(keys, descending, a, b, p);
    }
    assert(a =~= b);
}

proof fn lemma_orders_agree_at(keys: Seq<i64>, descending: bool, a: Seq<usize>, b: Seq<usize>, p: int)
    requires
        is_stable_order(keys, descending, a),
        is_stable_order(keys, descending, b),
        0 <= p < a.len(),
    ensures
        a[p] == b[p],
    decreases p,
{
    assert forall|q: int| 0 <= q < p implies a[q] == b[q] by {
        lemma_orders_agree_at(keys, descending, a, b, q);
    }
    if a[p] != b[p] {
        // a[p] and b[p] are distinct positions; one precedes the other, and
        // each order would have to place it on both sides of the other.
        let x = a[p];
        let y = b[p];
        if precedes(keys, descending, x as int, y as int) {
            assert(b.contains(x));
            let q = choose|q: int| 0 <= q < b.len() && b[q] == x;
            if q < p {
                assert(a[q] == b[q]);
                assert(precedes(keys, descending, a[q] as int, a[p] as int));
            } else {
                assert(precedes(keys, descending, b[p] as int, b[q] as int));
            }
        } else {
            assert(a.contains(y));
            let q = choose|q: int| 0 <= q < a.len() && a[q] == y;
            if q < p {
                assert(a[q] == b[q]);
                assert(precedes(keys, descending, b[q] as int, b[p] as int));
            } else {
                assert(precedes(keys, descending, a[p] as int, a[q] as int));
            }
        }
    }
}

/// A stable order exists for any keys, and `stable_order_of` is one.
pub proof fn lemma_stable_order_exists(keys: Seq<i64>, descending: bool)
    requires
        keys.len() <= usize::MAX + 1,
    ensures
        is_stable_order(keys, descending, stable_order_of(keys, descending)),
{
    let w = insertion_order(keys, descending, keys.len() as int);
    assert(is_stable_order(keys, descending, w));
}

/// The stable order of the first `n` positions, built by inserting each
/// position after those it does not precede.
proof fn insertion_order(keys: Seq<i64>, descending: bool, n: int) -> (out: Seq<usize>)
    requires
        0 <= n <= keys.len(),
        keys.len() <= usize::MAX + 1,
    ensures
        out.len() == n,
        forall|i: int| 0 <= i < out.len() ==> (#[trigger] out[i]) < n,
        forall|i: int, j: int| 0 <= i < j < out.len() ==> precedes(keys, descending, #[trigger] out[i] as int, #[trigger] out[j] as int),
        forall|x: usize| x < n ==> #[trigger] out.contains(x),
    decreases n,
{
    if n == 0 {
        Seq::empty()
    } else {
        let before = insertion_order(keys, descending, n - 1);
        let i = n - 1;
        let p: int = if exists|q: int| 0 <= q < before.len() && keys[before[q] as int] != keys[i] && !precedes(keys, descending, before[q] as int, i) {
            first_after(keys, descending, before, i, before.len() - 1)
        } else {
            before.len() as int
        };
        assert forall|k: int| 0 <= k < p implies precedes(keys, descending, #[trigger] before[k] as int, i) by {
            if !precedes(keys, descending, before[k] as int, i) {
                assert(keys[before[k] as int] != keys[i]);
            }
        }
        assert forall|k: int| p <= k < before.len() implies precedes(keys, descending, i, #[trigger] before[k] as int) by {
            if k > p {
                assert(precedes(keys, descending, before[p] as int, before[k] as int));
            }
        }
        let out = before.insert(p, i as usize);
        assert forall|k: int, l: int| 0 <= k < l < out.len() implies precedes(keys, descending, #[trigger] out[k] as int, #[trigger] out[l] as int) by {
            if k < p && l == p {
            } else if k == p {
                assert(out[l] == before[l - 1]);
            } else if l < p {
            } else if k < p {
                assert(out[l] == before[l - 1]);
            } else {
                assert(out[k] == before[k - 1]);
                assert(out[l] == before[l - 1]);
            }
        }
        assert forall|x: usize| x < n implies #[trigger] out.contains(x) by {
            if x == i {
                assert(out[p] == i);
            } else {
                assert(before.contains(x));
                let q = choose|q: int| 0 <= q < before.len() && before[q] == x;
                if q < p {
                    assert(out[q] == x);
                } else {
                    assert(out[q + 1] == x);
                }
            }
        }
        out
    }
}

/// The first position (up to `limit`) whose key comes strictly after the key
/// of `i`, given that one exists.
proof fn first_after(keys: Seq<i64>, descending: bool, s: Seq<usize>, i: int, limit: int) -> (p: int)
    requires
        0 <= limit < s.len(),
        0 <= i < keys.len(),
        forall|k: int| 0 <= k < s.len() ==> (#[trigger] s[k]) < keys.len(),
        exists|q: int| 0 <= q <= limit && keys[s[q] as int] != keys[i] && !precedes(keys, descending, s[q] as int, i),
    ensures
        0 <= p <= limit,
        keys[s[p] as int] != keys[i] && !precedes(keys, descending, s[p] as int, i),
        forall|k: int| 0 <= k < p ==> !(keys[(#[trigger] s[k]) as int] != keys[i] && !precedes(keys, descending, s[k] as int, i)),
    decreases limit,
{
    if limit > 0 && exists|q: int| 0 <= q <= limit - 1 && keys[s[q] as int] != keys[i] && !precedes(keys, descending, s[q] as int, i) {
        first_after(keys, descending, s, i, limit - 1)
    } else {
        limit
    }
}

/// Whether the key at `a` comes strictly after the key at `b`.
fn key_after(keys: &Vec<i64>, descending: bool, a: usize, b: usize) -> (r: bool)
    requires
        a < keys@.len(),
        b < keys@.len(),
    ensures
        r == (keys@[a as int] != keys@[b as int] && !precedes(keys@, descending, a as int, b as int)),
{
    if descending {
        keys[a] < keys[b]
    } else {
        keys[a] > keys[b]
    }
}

/// The positions of `keys` in stable order: ascending by key (descending when
/// asked), equal keys in their given order.
pub fn stable_order(keys: &Vec<i64>, descending: bool) -> (out: Vec<usize>)
    ensures
        is_stable_order(keys@, descending, out@),
        out@ == stable_order_of(keys@, descending),
{
    let n = keys.len();
    let mut out: Vec<usize> = Vec::new();
    let mut i: usize = 0;
    while i < n
        invariant
            n == keys@.len(),
            i <= n,
            out@.len() == i,
            forall|k: int| 0 <= k < out@.len() ==> (#[trigger] out@[k]) < i,
            forall|k: int, l: int| 0 <= k < l < out@.len() ==> precedes(keys@, descending, #[trigger] out@[k] as int, #[trigger] out@[l] as int),
            forall|x: usize| x < i ==> #[trigger] out@.contains(x),
        decreases n - i,
    {
        let mut p: usize = 0;
        while p < out.len() && !key_after(keys, descending, out[p], i)
            invariant
                n == keys@.len(),
                i < n,
                p <= out@.len(),
                forall|k: int| 0 <= k < out@.len() ==> (#[trigger] out@[k]) < i,
                forall|k: int| 0 <= k < p ==> precedes(keys@, descending, #[trigger] out@[k] as int, i as int),
            decreases out@.len() - p,
        {
            p = p + 1;
        }
        let ghost before = out@;
        proof {
            // Everything from p on comes after i.
            assert forall|k: int| p <= k < before.len() implies precedes(keys@, descending, i as int, #[trigger] before[k] as int) by {
                if k > p {
                    assert(precedes(keys@, descending, before[p as int] as int, before[k] as int));
                }
            }
        }
        out.insert(p, i);
        proof {
            assert forall|k: int, l: int| 0 <= k < l < out@.len() implies precedes(keys@, descending, #[trigger] out@[k] as int, #[trigger] out@[l] as int) by {
                if k < p as int && l == p as int {
                } else if k == p as int {
                    assert(out@[l] == before[l - 1]);
                } else if l < p as int {
                } else if k < p as int {
                    assert(out@[l] == before[l - 1]);
                } else {
                    assert(out@[k] == before[k - 1]);
                    assert(out@[l] == before[l - 1]);
                }
            }
            assert forall|x: usize| x < i + 1 implies #[trigger] out@.contains(x) by {
                if x == i {
                    assert(out@[p as int] == i);
                } else {
                    assert(before.contains(x));
                    let q = choose|q: int| 0 <= q < before.len() && before[q] == x;
                    if q < p {
                        assert(out@[q] == x);
                    } else {
                        assert(out@[q + 1] == x);
                    }
                }
            }
        }
        i = i + 1;
    }
    proof {
        assert(is_stable_order(keys@, descending, out@));
        lemma_stable_order_unique(keys@, descending, out@, stable_order_of(keys@, descending));
    }
    out
}

} // verus!
