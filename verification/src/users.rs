//! The user-deduplication set: the accumulating collection of user
//! identifiers already exported in the current run. It grows monotonically,
//! never shrinks, and is consulted before every user export, so that each
//! profile is written at most once per run. The set is threaded by value
//! through the strictly sequential traversal; no shared mutable state exists.

use vstd::prelude::*;

verus! {

/// The set of identifiers a sequence holds.
pub open spec fn set_of(ids: Seq<i64>) -> Set<i64> {
    Set::new(|x: i64| ids.contains(x))
}

/// The set after a run of `claim` calls with the given identifiers, in order.
pub open spec fn run_claims(s: Set<i64>, ids: Seq<i64>) -> Set<i64>
    decreases ids.len(),
{
    if ids.len() == 0 {
        s
    } else {
        run_claims(s.insert(ids[0]), ids.drop_first())
    }
}

/// How many of a run of `claim` calls with the given identifiers, in order,
/// claim the export of `x`: how often `claim(x)` returns true along the run.
pub open spec fn claims_won(s: Set<i64>, ids: Seq<i64>, x: i64) -> nat
    decreases ids.len(),
{
    if ids.len() == 0 {
        0
    } else {
        (if ids[0] == x && !s.contains(x) {
            1nat
        } else {
            0nat
        }) + claims_won(s.insert(ids[0]), ids.drop_first(), x)
    }
}

/// The set of user identifiers already exported in this run.
pub struct UserSet {
    ids: Vec<i64>,
}

impl View for UserSet {
    type V = Set<i64>;

    closed spec fn view(&self) -> Set<i64> {
        Set::new(|x: i64| self.ids@.contains(x))
    }
}

impl UserSet {
    /// The empty set: no user has been exported yet.
    pub fn new() -> (r: UserSet)
        ensures
            r@ == Set::<i64>::empty(),
    {
        let r = UserSet { ids: Vec::new() };
        proof {
            assert(r@ =~= Set::<i64>::empty());
        }
        r
    }

    /// Whether `id` has been exported already.
    pub fn contains(&self, id: i64) -> (r: bool)
        ensures
            r == self@.contains(id),
    {
        let n = self.ids.len();
        let mut i: usize = 0;
        while i < n
            invariant
                n == self.ids@.len(),
                i <= n,
                forall|j: int| 0 <= j < i ==> self.ids@[j] != id,
            decreases n - i,
        {
            if self.ids[i] == id {
                return true;
            }
            i += 1;
        }
        false
    }

    /// Claims the export of `id`: returns true, and the duty to export, only
    /// when `id` has not been exported yet; either way `id` is in the set
    /// afterwards. Callers must carry the returned set forward sequentially.
    pub fn claim(&mut self, id: i64) -> (fresh: bool)
        ensures
            fresh == !old(self)@.contains(id),
            final(self)@ == old(self)@.insert(id),
    {
        if self.contains(id) {
            proof {
                assert(self@ =~= old(self)@.insert(id));
            }
            false
        } else {
            self.ids.push(id);
            proof {
                assert forall|x: i64| self@.contains(x) <==> old(self)@.insert(id).contains(
                    x,
                ) by {
                    if x == id {
                        assert(self.ids@[self.ids@.len() - 1] == id);
                    } else {
                        assert(forall|j: int|
                            0 <= j < self.ids@.len() - 1 ==> self.ids@[j] == old(self).ids@[j]);
                        if old(self).ids@.contains(x) {
                            let j = choose|j: int|
                                0 <= j < old(self).ids@.len() && old(self).ids@[j] == x;
                            assert(self.ids@[j] == x);
                        } else if self.ids@.contains(x) {
                            let j = choose|j: int|
                                0 <= j < self.ids@.len() && self.ids@[j] == x;
                            assert(old(self).ids@[j] == x);
                        }
                    }
                }
                assert(self@ =~= old(self)@.insert(id));
            }
            true
        }
    }
}

/// Dedup invariant, membership half: after any run of `claim` calls the set
/// holds exactly the initial identifiers and the claimed ones — repeating an
/// identifier adds nothing, so the outcome is idempotent under repetition.
pub proof fn lemma_run_claims_membership(s: Set<i64>, ids: Seq<i64>)
    ensures
        run_claims(s, ids) == s.union(set_of(ids)),
    decreases ids.len(),
{
    if ids.len() == 0 {
        assert(run_claims(s, ids) =~= s.union(set_of(ids)));
    } else {
        let rest = ids.drop_first();
        lemma_run_claims_membership(s.insert(ids[0]), rest);
        assert forall|x: i64| set_of(ids).contains(x) implies (x == ids[0] || set_of(
            rest,
        ).contains(x)) by {
            let j = choose|j: int| 0 <= j < ids.len() && ids[j] == x;
            if j > 0 {
                assert(rest[j - 1] == x);
            }
        }
        assert forall|x: i64| set_of(rest).contains(x) implies set_of(ids).contains(x) by {
            let j = choose|j: int| 0 <= j < rest.len() && rest[j] == x;
            assert(ids[j + 1] == x);
        }
        assert(ids.contains(ids[0]));
        assert(run_claims(s, ids) =~= s.union(set_of(ids)));
    }
}

/// Dedup invariant, order half: the set after a run of `claim` calls does not
/// depend on the order (nor on repetitions) of the identifiers, only on which
/// distinct identifiers were claimed.
pub proof fn lemma_run_claims_order_independent(s: Set<i64>, a: Seq<i64>, b: Seq<i64>)
    requires
        set_of(a) == set_of(b),
    ensures
        run_claims(s, a) == run_claims(s, b),
{
    lemma_run_claims_membership(s, a);
    lemma_run_claims_membership(s, b);
}

/// Dedup invariant, uniqueness half: along any run of `claim` calls, the
/// export of an identifier is claimed exactly once when the run names it and
/// it was not already exported, and never otherwise — however often and in
/// whatever interleaving the run repeats it.
pub proof fn lemma_claims_won_once(s: Set<i64>, ids: Seq<i64>, x: i64)
    ensures
        claims_won(s, ids, x) == if ids.contains(x) && !s.contains(x) {
            1nat
        } else {
            0nat
        },
    decreases ids.len(),
{
    if ids.len() == 0 {
    } else {
        let rest = ids.drop_first();
        let s2 = s.insert(ids[0]);
        lemma_claims_won_once(s2, rest, x);
        if ids[0] == x {
            assert(ids.contains(x));
            assert(s2.contains(x));
        } else {
            assert(s2.contains(x) == s.contains(x));
            if rest.contains(x) {
                let j = choose|j: int| 0 <= j < rest.len() && rest[j] == x;
                assert(ids[j + 1] == x);
                assert(ids.contains(x));
            }
            if ids.contains(x) {
                let j = choose|j: int| 0 <= j < ids.len() && ids[j] == x;
                assert(j > 0);
                assert(rest[j - 1] == x);
                assert(rest.contains(x));
            }
        }
    }
}

} // verus!
