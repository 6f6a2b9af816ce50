//! Exhaustive candidate pair enumeration for the contact finder.
use vstd::prelude::*;

verus! {

/// Pairs `(i, j)` for `j` from `j0` up to `n - 1`.
pub open spec fn row(i: int, j0: int, n: int) -> Seq<(usize, usize)>
    decreases n - j0,
{
    if j0 >= n {
        Seq::empty()
    } else {
        seq![(i as usize, j0 as usize)] + row(i, j0 + 1, n)
    }
}

/// Unordered pairs `(i, j)`, `i0 <= i < j < n`, in lexicographic order.
pub open spec fn pairs_from(i0: int, n: int) -> Seq<(usize, usize)>
    decreases n - i0,
{
    if i0 >= n {
        Seq::empty()
    } else {
        row(i0, i0 + 1, n) + pairs_from(i0 + 1, n)
    }
}

/// Every unordered pair of distinct indices below `n`, each once.
pub open spec fn unique_pairs(n: int) -> Seq<(usize, usize)> {
    pairs_from(0, n)
}

/// Pairs `(i, k)` for every `i0 <= i < n` and `k < m`, row by row.
pub open spec fn cross_from(i0: int, n: int, m: int) -> Seq<(usize, usize)>
    decreases n - i0,
{
    if i0 >= n {
        Seq::empty()
    } else {
        row(i0, 0, m) + cross_from(i0 + 1, n, m)
    }
}

/// Every pair of an index below `n` with an index below `m`.
pub open spec fn cross_pairs(n: int, m: int) -> Seq<(usize, usize)> {
    cross_from(0, n, m)
}

/// Appends `row(i, j, n)` to `r`.
fn push_row(r: &mut Vec<(usize, usize)>, i: usize, j: usize, n: usize)
    requires
        j <= n,
    ensures
        final(r)@ == old(r)@ + row(i as int, j as int, n as int),
        forall|k: int|
            old(r)@.len() <= k < final(r)@.len() ==> (#[trigger] final(r)@[k]).0 == i && j
                <= final(r)@[k].1 < n,
{
    let mut t: usize = j;
    while t < n
        invariant
            j <= t <= n,
            old(r)@ + row(i as int, j as int, n as int) == r@ + row(i as int, t as int, n as int),
            old(r)@.len() <= r@.len(),
            forall|k: int| old(r)@.len() <= k < r@.len() ==> (#[trigger] r@[k]).0 == i && j <= r@[k].1 < t,
        decreases n - t,
    {
        let ghost before = r@;
        r.push((i, t));
        proof {
            assert(row(i as int, t as int, n as int) == seq![(i, t)] + row(i as int, t + 1, n as int));
            assert(before + row(i as int, t as int, n as int) =~= r@ + row(i as int, t + 1, n as int));
        }
        t = t + 1;
    }
    proof {
        assert(r@ + row(i as int, t as int, n as int) =~= r@);
    }
}

/// Lists every unordered pair of distinct indices below `n`, each once, in
/// lexicographic order.
pub fn unique_pair_list(n: usize) -> (r: Vec<(usize, usize)>)
    ensures
        r@ == unique_pairs(n as int),
        forall|k: int| 0 <= k < r@.len() ==> (#[trigger] r@[k]).0 < r@[k].1 < n,
{
    let mut r: Vec<(usize, usize)> = Vec::new();
    let mut i: usize = 0;
    while i < n
        invariant
            i <= n,
            r@ + pairs_from(i as int, n as int) == pairs_from(0, n as int),
            forall|k: int| 0 <= k < r@.len() ==> (#[trigger] r@[k]).0 < r@[k].1 < n,
        decreases n - i,
    {
        let ghost before = r@;
        push_row(&mut r, i, i + 1, n);
        proof {
            assert(before + pairs_from(i as int, n as int) =~= r@ + pairs_from(i + 1, n as int));
        }
        i = i + 1;
    }
    proof {
        assert(r@ + pairs_from(i as int, n as int) =~= r@);
    }
    r
}

/// Lists every pair of an index below `n` with an index below `m`.
pub fn cross_pair_list(n: usize, m: usize) -> (r: Vec<(usize, usize)>)
    ensures
        r@ == cross_pairs(n as int, m as int),
        forall|k: int| 0 <= k < r@.len() ==> (#[trigger] r@[k]).0 < n && r@[k].1 < m,
{
    let mut r: Vec<(usize, usize)> = Vec::new();
    let mut i: usize = 0;
    while i < n
        invariant
            i <= n,
            r@ + cross_from(i as int, n as int, m as int) == cross_from(0, n as int, m as int),
            forall|k: int| 0 <= k < r@.len() ==> (#[trigger] r@[k]).0 < n && r@[k].1 < m,
        decreases n - i,
    {
        let ghost before = r@;
        push_row(&mut r, i, 0, m);
        proof {
            assert(before + cross_from(i as int, n as int, m as int) =~= r@ + cross_from(
                i + 1,
                n as int,
                m as int,
            ));
        }
        i = i + 1;
    }
    proof {
        assert(r@ + cross_from(i as int, n as int, m as int) =~= r@);
    }
    r
}

} // verus!
