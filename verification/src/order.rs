//! Sorting from the highest key down, keeping equal keys in the order they came in.

use vstd::prelude::*;

verus! {

/// Where the position `x` goes in an order of positions: behind everything whose key is at least
/// its own.
pub open spec fn place(o: Seq<int>, keys: Seq<int>, x: int) -> int
    decreases o.len(),
{
    if o.len() == 0 {
        0
    } else if keys[o.last()] >= keys[x] {
        o.len() as int
    } else {
        place(o.drop_last(), keys, x)
    }
}

/// The positions `0..n` from the highest key down.
pub open spec fn order_of(keys: Seq<int>, n: nat) -> Seq<int>
    decreases n,
{
    if n == 0 {
        seq![]
    } else {
        let o = order_of(keys, (n - 1) as nat);
        o.insert(place(o, keys, n - 1), n - 1)
    }
}

proof fn lemma_place(o: Seq<int>, keys: Seq<int>, x: int)
    ensures
        0 <= place(o, keys, x) <= o.len(),
        forall|i: int| place(o, keys, x) <= i < o.len() ==> keys[#[trigger] o[i]] < keys[x],
        place(o, keys, x) > 0 ==> keys[o[place(o, keys, x) - 1]] >= keys[x],
    decreases o.len(),
{
    if o.len() > 0 && keys[o.last()] < keys[x] {
        let t = o.drop_last();
        lemma_place(t, keys, x);
        assert forall|i: int| place(o, keys, x) <= i < o.len() implies keys[#[trigger] o[i]]
            < keys[x] by {
            if i < t.len() {
                assert(t[i] == o[i]);
            }
        }
        if place(o, keys, x) > 0 {
            assert(t[place(o, keys, x) - 1] == o[place(o, keys, x) - 1]);
        }
    }
}

/// Every position occurs, each once; keys never grow; equal keys keep their order.
pub proof fn law_order_is_stable(keys: Seq<int>, n: nat)
    ensures
        order_of(keys, n).len() == n,
        order_of(keys, n).no_duplicates(),
        forall|i: int| 0 <= i < n ==> order_of(keys, n).contains(i),
        forall|a: int| 0 <= a < n ==> 0 <= #[trigger] order_of(keys, n)[a] < n,
        forall|a: int, b: int|
            0 <= a < b < n ==> {
                let x = #[trigger] order_of(keys, n)[a];
                let y = #[trigger] order_of(keys, n)[b];
                keys[x] > keys[y] || (keys[x] == keys[y] && x < y)
            },
    decreases n,
{
    if n > 0 {
        let m = (n - 1) as nat;
        law_order_is_stable(keys, m);
        let o = order_of(keys, m);
        let p = place(o, keys, m as int);
        let q = order_of(keys, n);
        lemma_place(o, keys, m as int);
        assert(q == o.insert(p, m as int));
        assert forall|a: int| 0 <= a < n implies 0 <= #[trigger] q[a] < n by {
            if a < p {
                assert(q[a] == o[a]);
            } else if a > p {
                assert(q[a] == o[a - 1]);
            }
        }
        assert forall|a: int, b: int| 0 <= a < b < n implies {
            let x = #[trigger] q[a];
            let y = #[trigger] q[b];
            keys[x] > keys[y] || (keys[x] == keys[y] && x < y)
        } by {
            let x = q[a];
            let y = q[b];
            if b < p {
                assert(q[a] == o[a] && q[b] == o[b]);
            } else if b == p {
                assert(q[a] == o[a] && q[b] == m);
                if a < p - 1 {
                    let z = o[p - 1];
                    assert(keys[o[a]] > keys[z] || (keys[o[a]] == keys[z] && o[a] < z));
                }
                assert(o[a] < m);
            } else if a < p {
                assert(q[a] == o[a] && q[b] == o[b - 1]);
            } else if a == p {
                assert(q[b] == o[b - 1]);
            } else {
                assert(q[a] == o[a - 1] && q[b] == o[b - 1]);
            }
        }
        assert forall|i: int| 0 <= i < n implies q.contains(i) by {
            if i == m {
                assert(q[p] == i);
            } else {
                assert(o.contains(i));
                let a = choose|a: int| 0 <= a < o.len() && o[a] == i;
                if a < p {
                    assert(q[a] == i);
                } else {
                    assert(q[a + 1] == i);
                }
            }
        }
    }
}

/// The keys as integers.
pub open spec fn ints(keys: Seq<i32>) -> Seq<int> {
    keys.map_values(|k: i32| k as int)
}

/// The positions of `keys` from the highest key down, equal ones in the order they stand in.
pub fn order_desc(keys: &Vec<i32>) -> (r: Vec<usize>)
    ensures
        r@.map_values(|p: usize| p as int) == order_of(ints(keys@), keys@.len()),
        r@.len() == keys@.len(),
        forall|a: int| 0 <= a < r@.len() ==> #[trigger] r@[a] < keys@.len(),
{
    let mut out: Vec<usize> = Vec::new();
    let mut n: usize = 0;
    let ghost k = ints(keys@);
    assert(out@.map_values(|p: usize| p as int) == order_of(k, 0));
    while n < keys.len()
        invariant
            k == ints(keys@),
            n <= keys@.len(),
            out@.len() == n,
            out@.map_values(|p: usize| p as int) == order_of(k, n as nat),
            forall|a: int| 0 <= a < n ==> #[trigger] out@[a] < n,
        decreases keys@.len() - n,
    {
        let ghost o = order_of(k, n as nat);
        let mut p: usize = out.len();
        assert(o.take(p as int) == o);
        while p > 0 && keys[out[p - 1]] < keys[n]
            invariant
                k == ints(keys@),
                n < keys@.len(),
                p <= out@.len(),
                out@.len() == n,
                o == out@.map_values(|p: usize| p as int),
                forall|a: int| 0 <= a < n ==> #[trigger] out@[a] < n,
                place(o.take(p as int), k, n as int) == place(o, k, n as int),
            decreases p,
        {
            assert(o.take(p as int).last() == out@[p - 1]);
            assert(o.take(p as int).drop_last() == o.take(p - 1));
            p = p - 1;
        }
        proof {
            if p > 0 {
                assert(o.take(p as int).last() == out@[p - 1]);
            }
            assert(place(o, k, n as int) == p);
        }
        let ghost before = out@;
        out.insert(p, n);
        proof {
            assert(out@.map_values(|p: usize| p as int) == o.insert(p as int, n as int));
            assert forall|a: int| 0 <= a < n + 1 implies #[trigger] out@[a] < n + 1 by {
                if a < p {
                    assert(out@[a] == before[a]);
                } else if a > p {
                    assert(out@[a] == before[a - 1]);
                }
            }
        }
        n = n + 1;
    }
    out
}

} // verus!
