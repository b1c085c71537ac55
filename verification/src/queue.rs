use vstd::prelude::*;
use crate::{PathAttr, Site2D};

verus! {

/// A pending branch: proposed, not yet part of the network. It grows from
/// the registered site `start` toward `end_site`, whose elevation was
/// already found to be defined when the candidate was made.
#[derive(Clone, Copy, PartialEq, Eq, Structural, Debug)]
pub struct Candidate {
    pub start: usize,
    pub end_site: Site2D,
    pub end_elevation: i64,
    pub angle: u64,
    pub cost: i64,
    pub path_attr: PathAttr,
}

/// The index popped next: the first candidate of minimal cost. Ties are
/// broken by insertion order (first in, first out), which makes the whole
/// growth deterministic even among equal costs.
pub open spec fn min_cost_index(s: Seq<Candidate>) -> int
    recommends
        s.len() > 0,
    decreases s.len(),
{
    if s.len() <= 1 {
        0
    } else {
        let m = min_cost_index(s.drop_last());
        if s.last().cost < s[m].cost {
            s.len() - 1
        } else {
            m
        }
    }
}

/// The index returned by `min_cost_index` is valid and minimal.
pub proof fn lemma_min_cost_index(s: Seq<Candidate>)
    requires
        s.len() > 0,
    ensures
        0 <= min_cost_index(s) < s.len(),
        forall|k: int| 0 <= k < s.len() ==> s[min_cost_index(s)].cost <= #[trigger] s[k].cost,
    decreases s.len(),
{
    if s.len() > 1 {
        lemma_min_cost_index(s.drop_last());
        assert(forall|k: int| 0 <= k < s.len() - 1 ==> s.drop_last()[k] == #[trigger] s[k]);
    }
}

/// The priority queue of pending candidates, ordered by ascending cost with
/// first-in-first-out tie-breaking.
pub struct CandidateQueue {
    pub items: Vec<Candidate>,
}

impl CandidateQueue {
    pub fn new() -> (r: CandidateQueue)
        ensures
            r.items@ == Seq::<Candidate>::empty(),
    {
        CandidateQueue { items: Vec::new() }
    }

    pub fn push(&mut self, c: Candidate)
        requires
            old(self).items@.len() < usize::MAX,
        ensures
            final(self).items@ == old(self).items@.push(c),
    {
        self.items.push(c);
    }

    /// Removes and returns the first candidate of minimal cost; `None` on an
    /// empty queue.
    pub fn pop_min(&mut self) -> (r: Option<Candidate>)
        ensures
            old(self).items@.len() == 0 ==> r is None && final(self).items@ == old(self).items@,
            old(self).items@.len() > 0 ==> {
                let m = min_cost_index(old(self).items@);
                &&& r == Option::Some(old(self).items@[m])
                &&& final(self).items@ == old(self).items@.remove(m)
            },
    {
        if self.items.len() == 0 {
            return Option::None;
        }
        let ghost s = self.items@;
        let mut best: usize = 0;
        let mut i: usize = 1;
        proof {
            assert(s.take(1) =~= seq![s[0]]);
        }
        while i < self.items.len()
            invariant
                self.items@ == s,
                1 <= i <= s.len(),
                0 <= best < i,
                best == min_cost_index(s.take(i as int)),
            decreases s.len() - i,
        {
            proof {
                assert(s.take(i + 1).drop_last() =~= s.take(i as int));
                assert(s.take(i + 1).last() == s[i as int]);
            }
            if self.items[i].cost < self.items[best].cost {
                best = i;
            }
            i = i + 1;
        }
        proof {
            assert(s.take(s.len() as int) =~= s);
        }
        let c: Candidate = self.items[best];
        self.items.remove(best);
        Option::Some(c)
    }
}

} // verus!
