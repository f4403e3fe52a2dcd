//! The tie-aware choice of a move from learned values.
//!
//! The moves of a state are examined in order. Each one is ranked against the
//! current leader, the first of the best moves found so far: it has no learned
//! value, or its value is more than the tie tolerance above the leader's, within
//! the tolerance of it, or further below. Comparing values is left to the
//! caller; this module keeps the pool of candidates those rankings produce and
//! draws the move from it.
use vstd::prelude::*;

use rand::seq::SliceRandom;

verus! {

/// How a move's learned value compares with the current leader's.
#[derive(Clone, Copy, Debug, PartialEq, Eq, Structural)]
pub enum Standing {
    /// Nothing was learned for this move.
    Unvalued,
    /// More than the tolerance above the leader.
    Above,
    /// Within the tolerance of the leader.
    Near,
    /// More than the tolerance below the leader.
    Below,
}

/// The moves still in the running (by index) and the leader, once some
/// examined move has a learned value.
pub struct CandidatePool {
    pub members: Vec<usize>,
    pub leader: Option<usize>,
}

pub type PoolView = (Seq<usize>, Option<usize>);

/// One examined move. A valued move with no leader yet, or above the leader,
/// leads a pool of its own; a move near the leader joins the pool; an unvalued
/// move joins only while no move has a value; a move below the leader is dropped.
pub open spec fn spec_step(p: PoolView, index: usize, standing: Standing) -> PoolView {
    match standing {
        Standing::Unvalued => if p.1.is_none() {
            (p.0.push(index), p.1)
        } else {
            p
        },
        Standing::Near => if p.1.is_some() {
            (p.0.push(index), p.1)
        } else {
            (seq![index], Some(index))
        },
        Standing::Above => (seq![index], Some(index)),
        Standing::Below => if p.1.is_some() {
            p
        } else {
            (seq![index], Some(index))
        },
    }
}

/// The pool after examining `events` in order, starting from `p`.
pub open spec fn spec_run(p: PoolView, events: Seq<(usize, Standing)>) -> PoolView
    decreases events.len(),
{
    if events.len() == 0 {
        p
    } else {
        let e = events.last();
        spec_step(spec_run(p, events.drop_last()), e.0, e.1)
    }
}

pub open spec fn empty_pool() -> PoolView {
    (Seq::empty(), None)
}

impl View for CandidatePool {
    type V = PoolView;

    open spec fn view(&self) -> PoolView {
        (self.members@, self.leader)
    }
}

/// Relies on rand's `SliceRandom::choose` with the thread-local generator:
/// `None` for an empty slice, else one of its elements.
#[verifier::external_body]
fn choose_member(members: &Vec<usize>) -> (r: Option<usize>)
    ensures
        r.is_none() <==> members@.len() == 0,
        r matches Some(x) ==> members@.contains(x),
{
    members.as_slice().choose(&mut rand::thread_rng()).copied()
}

impl CandidatePool {
    pub fn new() -> (r: CandidatePool)
        ensures
            r@ == empty_pool(),
    {
        CandidatePool { members: Vec::new(), leader: None }
    }

    /// Takes the move `index`, ranked `standing` against the current leader, into account.
    pub fn step(&mut self, index: usize, standing: Standing)
        ensures
            final(self)@ == spec_step(old(self)@, index, standing),
    {
        match standing {
            Standing::Unvalued => {
                if self.leader.is_none() {
                    self.members.push(index);
                }
            },
            Standing::Near => {
                if self.leader.is_some() {
                    self.members.push(index);
                } else {
                    self.lead(index);
                }
            },
            Standing::Above => {
                self.lead(index);
            },
            Standing::Below => {
                if self.leader.is_none() {
                    self.lead(index);
                }
            },
        }
    }

    fn lead(&mut self, index: usize)
        ensures
            final(self)@ == (seq![index], Some(index)),
    {
        let mut m: Vec<usize> = Vec::new();
        m.push(index);
        self.members = m;
        self.leader = Some(index);
        proof {
            assert(self.members@ =~= seq![index]);
        }
    }

    /// Draws one of the pooled moves at random; `None` when the pool is empty.
    pub fn pick(&self) -> (r: Option<usize>)
        ensures
            r.is_none() <==> self.members@.len() == 0,
            r matches Some(x) ==> self.members@.contains(x),
    {
        choose_member(&self.members)
    }
}

/// Examining at least one move leaves a pool to draw from, and the leader is in it.
pub proof fn lemma_pool_nonempty(events: Seq<(usize, Standing)>)
    ensures
        (spec_run(empty_pool(), events).0.len() > 0) <==> (events.len() > 0),
        spec_run(empty_pool(), events).1 matches Some(l) ==> spec_run(
            empty_pool(),
            events,
        ).0.contains(l),
    decreases events.len(),
{
    if events.len() > 0 {
        lemma_pool_nonempty(events.drop_last());
        let p = spec_run(empty_pool(), events.drop_last());
        let e = events.last();
        if p.1 is Some {
            let l = p.1->0;
            let k = choose|k: int| 0 <= k < p.0.len() && p.0[k] == l;
            assert(p.0.push(e.0)[k] == l);
        }
        assert(seq![e.0][0] == e.0);
        assert(p.0.push(e.0)[p.0.len() as int] == e.0);
    }
}

/// With nothing learned for any move, every move stays in the pool, in order,
/// so the draw is among all of them.
pub proof fn lemma_unvalued_keeps_all(events: Seq<(usize, Standing)>)
    requires
        forall|k: int| 0 <= k < events.len() ==> events[k].1 == Standing::Unvalued,
    ensures
        spec_run(empty_pool(), events) == (events.map_values(|e: (usize, Standing)| e.0), None::<usize>),
    decreases events.len(),
{
    if events.len() > 0 {
        lemma_unvalued_keeps_all(events.drop_last());
        assert(events.map_values(|e: (usize, Standing)| e.0) =~= events.drop_last().map_values(
            |e: (usize, Standing)| e.0,
        ).push(events.last().0));
    } else {
        assert(events.map_values(|e: (usize, Standing)| e.0) =~= Seq::<usize>::empty());
    }
}

/// A move found clearly above the leader, and followed only by moves that are
/// below it or unvalued, is the only candidate left: the draw is certain.
pub proof fn lemma_clear_best_is_certain(p: PoolView, index: usize, rest: Seq<(usize, Standing)>)
    requires
        forall|k: int|
            0 <= k < rest.len() ==> (rest[k].1 == Standing::Below || rest[k].1 == Standing::Unvalued),
    ensures
        spec_run(spec_step(p, index, Standing::Above), rest) == (seq![index], Some(index)),
    decreases rest.len(),
{
    if rest.len() > 0 {
        lemma_clear_best_is_certain(p, index, rest.drop_last());
    }
}

/// Once some move has a value, the leader is a valued move, and every other
/// pooled move was ranked near the leader after the leader took the lead;
/// before that, every pooled move is unvalued.
pub open spec fn pool_only_close(events: Seq<(usize, Standing)>) -> bool {
    let q = spec_run(empty_pool(), events);
    &&& q.1 matches Some(l) ==> exists|j: int|
        0 <= j < events.len() && events[j].0 == l && events[j].1 != Standing::Unvalued && (
        forall|x: usize|
            #![trigger q.0.contains(x)]
            q.0.contains(x) && x != l ==> exists|k: int|
                j < k < events.len() && events[k] == (x, Standing::Near))
    &&& q.1.is_none() ==> forall|x: usize|
        #![trigger q.0.contains(x)]
        q.0.contains(x) ==> exists|k: int|
            0 <= k < events.len() && events[k] == (x, Standing::Unvalued)
}

/// Only near ties of the leader, or moves with no value while none has one,
/// share the draw with it.
pub proof fn lemma_pool_only_close(events: Seq<(usize, Standing)>)
    ensures
        pool_only_close(events),
    decreases events.len(),
{
    let n = events.len();
    if n > 0 {
        let prev = events.drop_last();
        lemma_pool_only_close(prev);
        let p = spec_run(empty_pool(), prev);
        let q = spec_run(empty_pool(), events);
        let e = events.last();
        assert(forall|k: int| 0 <= k < prev.len() ==> events[k] == prev[k]);
        assert(events[n - 1] == e);
        if e.1 == Standing::Above || (p.1.is_none() && e.1 != Standing::Unvalued) {
            assert forall|x: usize| q.0.contains(x) && x != e.0 implies exists|k: int|
                n - 1 < k < n && events[k] == (x, Standing::Near) by {
                assert(q.0[0] == e.0);
            }
        } else if q.1.is_some() {
            let l = q.1->0;
            assert(p.1 == q.1);
            let j = choose|j: int|
                0 <= j < prev.len() && prev[j].0 == l && prev[j].1 != Standing::Unvalued && (
                forall|x: usize|
                    #![trigger p.0.contains(x)]
                    p.0.contains(x) && x != l ==> exists|k: int|
                        j < k < prev.len() && prev[k] == (x, Standing::Near));
            assert forall|x: usize| q.0.contains(x) && x != l implies exists|k: int|
                j < k < n && events[k] == (x, Standing::Near) by {
                let t = choose|t: int| 0 <= t < q.0.len() && q.0[t] == x;
                if t < p.0.len() {
                    assert(p.0[t] == x);
                    assert(p.0.contains(x));
                    let k = choose|k: int| j < k < prev.len() && prev[k] == (x, Standing::Near);
                    assert(events[k] == prev[k]);
                } else {
                    assert(e.1 == Standing::Near);
                }
            }
        } else {
            assert forall|x: usize| q.0.contains(x) implies exists|k: int|
                0 <= k < n && events[k] == (x, Standing::Unvalued) by {
                let t = choose|t: int| 0 <= t < q.0.len() && q.0[t] == x;
                if t < p.0.len() {
                    assert(p.0[t] == x);
                    assert(p.0.contains(x));
                    let k = choose|k: int| 0 <= k < prev.len() && prev[k] == (x, Standing::Unvalued);
                    assert(events[k] == prev[k]);
                } else {
                    assert(e.1 == Standing::Unvalued);
                }
            }
        }
    }
}

} // verus!
