//! Identities of the bodies of a run.
use vstd::prelude::*;
use crate::schedule::{interaction_pairs, interacts, is_schedule, partners_below, rows_below};

verus! {

/// The fixed set of bodies of a run, each known by a stable identifier that is
/// kept apart from the index at which the body is stored.
pub struct BodyRegistry {
    ids: Vec<u64>,
}

/// No two bodies share an identifier.
pub open spec fn distinct_ids(ids: Seq<u64>) -> bool {
    forall|a: int, b: int| 0 <= a < ids.len() && 0 <= b < ids.len() && a != b ==> ids[a] != ids[b]
}

/// With distinct identifiers, row `a` below `b` holds every index under `b`
/// but `a` itself.
proof fn distinct_partners_below(ids: Seq<u64>, a: int, b: int)
    requires
        distinct_ids(ids),
        0 <= a < ids.len(),
        0 <= b <= ids.len(),
    ensures
        partners_below(ids, a, b) == if a < b { b - 1 } else { b },
    decreases b,
{
    if b > 0 {
        distinct_partners_below(ids, a, b - 1);
    }
}

/// With distinct identifiers, each of the first `a` rows holds `n - 1` pairs.
proof fn distinct_rows_below(ids: Seq<u64>, a: int)
    requires
        distinct_ids(ids),
        0 <= a <= ids.len(),
    ensures
        rows_below(ids, a) == a * (ids.len() - 1),
    decreases a,
{
    if a > 0 {
        distinct_rows_below(ids, a - 1);
        distinct_partners_below(ids, a - 1, ids.len() as int);
        let n = ids.len() as int;
        assert((a - 1) * (n - 1) + (n - 1) == a * (n - 1)) by (nonlinear_arith);
    }
}

impl View for BodyRegistry {
    type V = Seq<u64>;

    closed spec fn view(&self) -> Seq<u64> {
        self.ids@
    }
}

impl BodyRegistry {
    /// The identifiers stay distinct for the whole run.
    pub open spec fn wf(&self) -> bool {
        distinct_ids(self@)
    }

    /// Registers `n` bodies, stored in the order given, with the identifiers
    /// `0, 1, ..., n - 1`.
    pub fn initialize(n: usize) -> (r: BodyRegistry)
        ensures
            r.wf(),
            r@ == Seq::new(n as nat, |k: int| k as u64),
    {
        let mut ids: Vec<u64> = Vec::new();
        let mut k: usize = 0;
        while k < n
            invariant
                k <= n,
                ids@ == Seq::new(k as nat, |i: int| i as u64),
            decreases n - k,
        {
            ids.push(k as u64);
            k = k + 1;
        }
        BodyRegistry { ids }
    }

    /// The registry with the bodies stored in another order: the body at index
    /// `k` afterwards is the one that stood at `perm[k]`.
    pub fn reordered(&self, perm: &Vec<usize>) -> (r: BodyRegistry)
        requires
            self.wf(),
            perm@.len() == self@.len(),
            forall|k: int| 0 <= k < perm@.len() ==> (#[trigger] perm@[k]) < self@.len(),
            forall|a: int, b: int| 0 <= a < perm@.len() && 0 <= b < perm@.len() && a != b
                ==> perm@[a] != perm@[b],
        ensures
            r.wf(),
            r@ == Seq::new(perm@.len(), |k: int| self@[perm@[k] as int]),
    {
        let mut ids: Vec<u64> = Vec::new();
        let mut k: usize = 0;
        while k < perm.len()
            invariant
                k <= perm@.len(),
                perm@.len() == self@.len(),
                self@ == self.ids@,
                forall|i: int| 0 <= i < perm@.len() ==> (#[trigger] perm@[i]) < self@.len(),
                ids@ == Seq::new(k as nat, |i: int| self@[perm@[i] as int]),
            decreases perm@.len() - k,
        {
            ids.push(self.ids[perm[k]]);
            k = k + 1;
        }
        let r = BodyRegistry { ids };
        assert forall|a: int, b: int| 0 <= a < r@.len() && 0 <= b < r@.len() && a != b
            implies r@[a] != r@[b] by {
            assert(r@[a] == self@[perm@[a] as int]);
            assert(r@[b] == self@[perm@[b] as int]);
        }
        r
    }

    /// Number of bodies.
    pub fn len(&self) -> (r: usize)
        ensures
            r == self@.len(),
    {
        self.ids.len()
    }

    /// Identifier of the body stored at `index`.
    pub fn id_at(&self, index: usize) -> (r: u64)
        requires
            index < self@.len(),
        ensures
            r == self@[index as int],
    {
        self.ids[index]
    }

    /// The pairs `(a, b)` of the force pass of one step, in the order in which
    /// the pull of body `b` is added to the velocity of body `a`: every ordered
    /// pair of distinct bodies, row by row.
    pub fn step_schedule(&self) -> (r: Vec<(usize, usize)>)
        requires
            self.wf(),
        ensures
            is_schedule(self@, r@),
            r@.len() == self@.len() * (self@.len() - 1),
            forall|p: (usize, usize)|
                r@.contains(p) <==> (p.0 < self@.len() && p.1 < self@.len() && p.0 != p.1),
    {
        let r = interaction_pairs(&self.ids);
        proof {
            distinct_rows_below(self@, self@.len() as int);
        }
        assert forall|p: (usize, usize)|
            r@.contains(p) <==> (p.0 < self@.len() && p.1 < self@.len() && p.0 != p.1) by {
            if r@.contains(p) {
                let k = choose|k: int| 0 <= k < r@.len() && r@[k] == p;
                assert(interacts(self@, r@[k]));
            }
            if p.0 < self@.len() && p.1 < self@.len() && p.0 != p.1 {
                assert(interacts(self@, p));
            }
        }
        r
    }
}

} // verus!
