use vstd::prelude::*;

verus! {

/// The neighbours with which the `j`-th edge visit of a closed contour of `n`
/// edges is made: (previous, current, next). The visits start at the last
/// edge and then go through the edges from the first on, so visit `j` has
/// edge `j` as its next edge.
pub open spec fn neighbours(n: int, j: int) -> (usize, usize, usize) {
    (((j + n - 2) % n) as usize, ((j + n - 1) % n) as usize, j as usize)
}

/// The (previous, current, next) edge indices for each visit of a closed
/// contour of `n` edges, in the order the distance evaluation visits them:
/// every edge is the current one exactly once, with the edges before and after
/// it along the contour.
pub fn neighbour_triples(n: usize) -> (r: Vec<(usize, usize, usize)>)
    ensures
        r@.len() == n,
        forall|j: int| 0 <= j < n ==> #[trigger] r@[j] == neighbours(n as int, j),
{
    let mut r: Vec<(usize, usize, usize)> = Vec::new();
    if n == 0 {
        return r;
    }
    let mut prev: usize = if n >= 2 { n - 2 } else { 0 };
    let mut cur: usize = n - 1;
    proof {
        let ni = n as int;
        if n == 1 {
            assert((ni - 2) % ni == 0);
            assert((ni - 1) % ni == 0);
        } else {
            vstd::arithmetic::div_mod::lemma_small_mod((ni - 2) as nat, ni as nat);
            vstd::arithmetic::div_mod::lemma_small_mod((ni - 1) as nat, ni as nat);
        }
    }
    for j in 0..n
        invariant
            n >= 1,
            r@.len() == j,
            prev as int == (j + n - 2) % (n as int),
            cur as int == (j + n - 1) % (n as int),
            forall|x: int| 0 <= x < j ==> #[trigger] r@[x] == neighbours(n as int, x),
    {
        r.push((prev, cur, j));
        proof {
            let ni = n as int;
            let ji = j as int;
            vstd::arithmetic::div_mod::lemma_mod_add_multiples_vanish(ji, ni);
            vstd::arithmetic::div_mod::lemma_small_mod(ji as nat, ni as nat);
            assert((ji + 1) + ni - 1 == ni + ji);
        }
        prev = cur;
        cur = j;
    }
    r
}

} // verus!
