//! Properties of the force-pass schedule that hold for every set of bodies.
use vstd::prelude::*;
use crate::schedule::{interacts, is_schedule};

verus! {

/// The identifier pairs `(id of a, id of b)` that a schedule visits.
pub open spec fn visited_ids(ids: Seq<u64>, s: Seq<(usize, usize)>) -> Set<(u64, u64)> {
    Set::new(|q: (u64, u64)| exists|k: int| 0 <= k < s.len() && q == (ids[s[k].0 as int], ids[s[k].1 as int]))
}

/// Each interaction acts both ways: whenever body `b` pulls on body `a` in a
/// step, body `a` pulls on body `b` in the same step.
pub proof fn pulls_come_in_pairs(ids: Seq<u64>, s: Seq<(usize, usize)>, a: usize, b: usize)
    requires
        is_schedule(ids, s),
    ensures
        s.contains((a, b)) == s.contains((b, a)),
{
    if s.contains((a, b)) {
        let k = choose|k: int| 0 <= k < s.len() && s[k] == (a, b);
        assert(interacts(ids, s[k]));
        assert(interacts(ids, (b, a)));
    }
    if s.contains((b, a)) {
        let k = choose|k: int| 0 <= k < s.len() && s[k] == (b, a);
        assert(interacts(ids, s[k]));
        assert(interacts(ids, (a, b)));
    }
}

/// A system of one body has nothing to pull on it: the force pass visits no
/// pair, so its velocity is left as it was.
pub proof fn lone_body_is_not_pulled(ids: Seq<u64>, s: Seq<(usize, usize)>)
    requires
        ids.len() == 1,
        is_schedule(ids, s),
    ensures
        s.len() == 0,
{
    if s.len() > 0 {
        assert(interacts(ids, s[0]));
    }
}

/// Storing the bodies in another order changes which indices the force pass
/// visits but not which bodies pull on which: `moved[k]` is the identifier of
/// the body that stood at `perm[k]`, `inv` undoes `perm`, and the two
/// schedules visit the same pairs of identifiers.
pub proof fn reordering_keeps_interactions(
    ids: Seq<u64>,
    moved: Seq<u64>,
    perm: Seq<usize>,
    inv: Seq<usize>,
    s: Seq<(usize, usize)>,
    t: Seq<(usize, usize)>,
)
    requires
        perm.len() == ids.len(),
        inv.len() == ids.len(),
        moved.len() == ids.len(),
        forall|k: int| 0 <= k < ids.len() ==> (#[trigger] perm[k]) < ids.len() && inv[perm[k] as int] == k,
        forall|k: int| 0 <= k < ids.len() ==> (#[trigger] inv[k]) < ids.len() && perm[inv[k] as int] == k,
        forall|k: int| 0 <= k < ids.len() ==> #[trigger] moved[k] == ids[perm[k] as int],
        is_schedule(ids, s),
        is_schedule(moved, t),
    ensures
        visited_ids(ids, s) == visited_ids(moved, t),
{
    assert forall|q: (u64, u64)| visited_ids(ids, s).contains(q) implies visited_ids(moved, t).contains(q) by {
        let k = choose|k: int| 0 <= k < s.len() && q == (ids[s[k].0 as int], ids[s[k].1 as int]);
        assert(interacts(ids, s[k]));
        let p = (inv[s[k].0 as int], inv[s[k].1 as int]);
        assert(moved[p.0 as int] == ids[s[k].0 as int]);
        assert(moved[p.1 as int] == ids[s[k].1 as int]);
        assert(interacts(moved, p));
        let j = choose|j: int| 0 <= j < t.len() && t[j] == p;
        assert(q == (moved[t[j].0 as int], moved[t[j].1 as int]));
    }
    assert forall|q: (u64, u64)| visited_ids(moved, t).contains(q) implies visited_ids(ids, s).contains(q) by {
        let k = choose|k: int| 0 <= k < t.len() && q == (moved[t[k].0 as int], moved[t[k].1 as int]);
        assert(interacts(moved, t[k]));
        let p = (perm[t[k].0 as int], perm[t[k].1 as int]);
        assert(interacts(ids, p));
        let j = choose|j: int| 0 <= j < s.len() && s[j] == p;
        assert(q == (ids[s[j].0 as int], ids[s[j].1 as int]));
    }
    assert(visited_ids(ids, s) =~= visited_ids(moved, t));
}

} // verus!
