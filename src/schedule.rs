//! The pair schedule of the force pass.
use vstd::prelude::*;

verus! {

/// An ordered pair `(a, b)` of storage indices takes part in the force pass
/// when both are in range and the two bodies have different identifiers:
/// body `b` then pulls on body `a`.
pub open spec fn interacts(ids: Seq<u64>, p: (usize, usize)) -> bool {
    &&& p.0 < ids.len()
    &&& p.1 < ids.len()
    &&& ids[p.0 as int] != ids[p.1 as int]
}

/// Row-major order on index pairs: by the body acted on, then by the other.
pub open spec fn pair_before(p: (usize, usize), q: (usize, usize)) -> bool {
    p.0 < q.0 || (p.0 == q.0 && p.1 < q.1)
}

/// `s` lists exactly the interacting pairs of `ids`, each once, in row-major
/// order.
pub open spec fn is_schedule(ids: Seq<u64>, s: Seq<(usize, usize)>) -> bool {
    &&& forall|k: int| 0 <= k < s.len() ==> #[trigger] interacts(ids, s[k])
    &&& forall|k: int, l: int| 0 <= k < l < s.len() ==> pair_before(s[k], s[l])
    &&& forall|p: (usize, usize)| #[trigger] interacts(ids, p) ==> s.contains(p)
}

/// How many of the first `b` bodies have an identifier other than that of
/// body `a`: the length of the part of row `a` that lies below `b`.
pub open spec fn partners_below(ids: Seq<u64>, a: int, b: int) -> nat
    decreases b,
{
    if b <= 0 {
        0
    } else {
        partners_below(ids, a, b - 1) + if ids[b - 1] != ids[a] { 1nat } else { 0nat }
    }
}

/// How many interacting pairs lie in the rows of the first `a` bodies.
pub open spec fn rows_below(ids: Seq<u64>, a: int) -> nat
    decreases a,
{
    if a <= 0 {
        0
    } else {
        rows_below(ids, a - 1) + partners_below(ids, a - 1, ids.len() as int)
    }
}

/// Every ordered pair `(a, b)` of bodies with different identifiers, in
/// row-major order: the order in which the force pass adds the pull of body
/// `b` to the velocity of body `a`.
pub fn interaction_pairs(ids: &Vec<u64>) -> (r: Vec<(usize, usize)>)
    ensures
        is_schedule(ids@, r@),
        r@.len() == rows_below(ids@, ids@.len() as int),
{
    let n = ids.len();
    let mut r: Vec<(usize, usize)> = Vec::new();
    let mut a: usize = 0;
    while a < n
        invariant
            n == ids@.len(),
            a <= n,
            forall|k: int| 0 <= k < r@.len() ==> #[trigger] interacts(ids@, r@[k]),
            forall|k: int, l: int| 0 <= k < l < r@.len() ==> pair_before(r@[k], r@[l]),
            forall|k: int| 0 <= k < r@.len() ==> (#[trigger] r@[k]).0 < a,
            r@.len() == rows_below(ids@, a as int),
            forall|p: (usize, usize)| #[trigger] interacts(ids@, p) && p.0 < a ==> r@.contains(p),
        decreases n - a,
    {
        let mut b: usize = 0;
        while b < n
            invariant
                n == ids@.len(),
                a < n,
                b <= n,
                forall|k: int| 0 <= k < r@.len() ==> #[trigger] interacts(ids@, r@[k]),
                forall|k: int, l: int| 0 <= k < l < r@.len() ==> pair_before(r@[k], r@[l]),
                forall|k: int| 0 <= k < r@.len() ==> pair_before(#[trigger] r@[k], (a, b)),
                forall|k: int| 0 <= k < r@.len() ==> (#[trigger] r@[k]).0 <= a,
                r@.len() == rows_below(ids@, a as int) + partners_below(ids@, a as int, b as int),
                forall|p: (usize, usize)|
                    #[trigger] interacts(ids@, p) && (p.0 < a || (p.0 == a && p.1 < b))
                        ==> r@.contains(p),
            decreases n - b,
        {
            if ids[a] != ids[b] {
                let ghost before = r@;
                r.push((a, b));
                assert forall|p: (usize, usize)|
                    #[trigger] interacts(ids@, p) && (p.0 < a || (p.0 == a && p.1 < b + 1))
                        implies r@.contains(p) by {
                    if p == (a, b) {
                        assert(r@[before.len() as int] == p);
                    } else {
                        assert(before.contains(p));
                        let j = choose|j: int| 0 <= j < before.len() && before[j] == p;
                        assert(r@[j] == p);
                    }
                }
            }
            b = b + 1;
        }
        a = a + 1;
    }
    r
}

} // verus!
