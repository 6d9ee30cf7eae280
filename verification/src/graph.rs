//! The wait-for graph: which thread each blocked thread is waiting on.

use crate::dash::{pairs, table_get, table_insert, table_new, table_remove};
use crate::error::CyclicQuery;
use dashmap::DashMap;
use fxhash::FxBuildHasher;
use vstd::prelude::*;

verus! {

/// The thread reached from `from` after following exactly `hops` edges of
/// `edges`, if the chain is that long.
pub open spec fn hop(edges: Map<u64, u64>, from: u64, hops: nat) -> Option<u64>
    decreases hops,
{
    if hops == 0 {
        Some(from)
    } else if edges.dom().contains(from) {
        hop(edges, edges[from], (hops - 1) as nat)
    } else {
        None
    }
}

/// `from` waits on `to` through zero or more edges.
pub open spec fn reaches(edges: Map<u64, u64>, from: u64, to: u64) -> bool {
    exists|hops: nat| hop(edges, from, hops) == Some(to)
}

/// `rank` falls strictly along every edge.
pub open spec fn ranked(edges: Map<u64, u64>, rank: spec_fn(u64) -> nat) -> bool {
    forall|t: u64| edges.dom().contains(t) ==> rank(t) > rank(#[trigger] edges[t])
}

/// Every chain of waits ends: some measure falls strictly along every edge.
pub open spec fn acyclic(edges: Map<u64, u64>) -> bool {
    exists|rank: spec_fn(u64) -> nat| ranked(edges, rank)
}

/// A thread that is not the target and has an edge reaches the target exactly
/// when the thread it waits on does.
pub proof fn lemma_reaches_through_edge(edges: Map<u64, u64>, from: u64, to: u64)
    requires
        edges.dom().contains(from),
        from != to,
    ensures
        reaches(edges, from, to) <==> reaches(edges, edges[from], to),
{
    if reaches(edges, from, to) {
        let hops = choose|hops: nat| hop(edges, from, hops) == Some(to);
        assert(hops != 0);
        assert(hop(edges, edges[from], (hops - 1) as nat) == Some(to));
    }
    if reaches(edges, edges[from], to) {
        let hops = choose|hops: nat| hop(edges, edges[from], hops) == Some(to);
        assert(hop(edges, from, hops + 1) == Some(to));
    }
}

/// A thread without an edge reaches only itself.
pub proof fn lemma_reaches_from_idle(edges: Map<u64, u64>, from: u64, to: u64)
    requires
        !edges.dom().contains(from),
    ensures
        reaches(edges, from, to) <==> from == to,
{
    if from == to {
        assert(hop(edges, from, 0) == Some(to));
    }
    if reaches(edges, from, to) {
        let hops = choose|hops: nat| hop(edges, from, hops) == Some(to);
        assert(hops == 0);
    }
}

/// Along a chain of `hops` edges the rank falls by at least `hops`.
pub proof fn lemma_rank_falls(
    edges: Map<u64, u64>,
    rank: spec_fn(u64) -> nat,
    from: u64,
    hops: nat,
)
    requires
        ranked(edges, rank),
        hop(edges, from, hops) is Some,
    ensures
        rank(hop(edges, from, hops)->0) + hops <= rank(from),
    decreases hops,
{
    if hops > 0 {
        assert(rank(from) > rank(edges[from]));
        lemma_rank_falls(edges, rank, edges[from], (hops - 1) as nat);
    }
}

/// An edge from `me` to `other` keeps the graph free of cycles where `other`
/// does not already wait on `me`.
pub proof fn lemma_insert_keeps_acyclic(edges: Map<u64, u64>, me: u64, other: u64)
    requires
        acyclic(edges),
        !reaches(edges, other, me),
    ensures
        acyclic(edges.insert(me, other)),
{
    let rank = choose|rank: spec_fn(u64) -> nat| ranked(edges, rank);
    let lift = rank(other) + 1;
    let raised = |t: u64|
        if reaches(edges, t, me) {
            (rank(t) + lift) as nat
        } else {
            rank(t)
        };
    let grown = edges.insert(me, other);
    assert(hop(edges, me, 0) == Some(me));
    assert forall|t: u64| grown.dom().contains(t) implies raised(t) > raised(
        #[trigger] grown[t],
    ) by {
        if t != me {
            assert(rank(t) > rank(edges[t]));
            lemma_reaches_through_edge(edges, t, me);
        }
    }
    assert(ranked(grown, raised));
}

/// Dropping an edge keeps the graph free of cycles.
pub proof fn lemma_remove_keeps_acyclic(edges: Map<u64, u64>, thread: u64)
    requires
        acyclic(edges),
    ensures
        acyclic(edges.remove(thread)),
{
    let rank = choose|rank: spec_fn(u64) -> nat| ranked(edges, rank);
    let rest = edges.remove(thread);
    assert forall|t: u64| rest.dom().contains(t) implies rank(t) > rank(#[trigger] rest[t]) by {
        assert(rank(t) > rank(edges[t]));
    }
    assert(ranked(rest, rank));
}

/// Removing edges keeps a graph free of cycles.
pub proof fn lemma_remove_keys_keeps_acyclic(edges: Map<u64, u64>, threads: Set<u64>)
    requires
        acyclic(edges),
    ensures
        acyclic(edges.remove_keys(threads)),
{
    let rank = choose|rank: spec_fn(u64) -> nat| ranked(edges, rank);
    let rest = edges.remove_keys(threads);
    assert forall|t: u64| rest.dom().contains(t) implies rank(t) > rank(#[trigger] rest[t]) by {
        assert(rank(t) > rank(edges[t]));
    }
    assert(ranked(rest, rank));
}

/// For each blocked thread, the thread it waits on.
pub struct WaitGraph {
    edges: DashMap<u64, u64, FxBuildHasher>,
}

impl View for WaitGraph {
    type V = Map<u64, u64>;

    closed spec fn view(&self) -> Map<u64, u64> {
        pairs(self.edges)
    }
}

impl WaitGraph {
    /// No circle of waiting threads.
    pub open spec fn wf(&self) -> bool {
        acyclic(self@)
    }

    /// A graph in which no thread waits.
    pub fn new() -> (graph: WaitGraph)
        ensures
            graph@ == Map::<u64, u64>::empty(),
            graph.wf(),
    {
        let graph = WaitGraph { edges: table_new() };
        proof {
            assert(ranked(graph@, |t: u64| 0nat));
        }
        graph
    }

    /// Records that `me` is about to wait on `other`, unless that would close
    /// a circle of waiting threads: then the graph is left as it was and the
    /// cycle is reported.
    pub fn deadlock_check(&mut self, me: u64, other: u64) -> (verdict: Result<(), CyclicQuery>)
        requires
            old(self).wf(),
        ensures
            final(self).wf(),
            verdict is Err <==> reaches(old(self)@, other, me),
            verdict matches Err(cycle) ==> cycle == CyclicQuery::Global,
            verdict is Err ==> final(self)@ == old(self)@,
            verdict is Ok ==> final(self)@ == old(self)@.insert(me, other),
    {
        let ghost before = self@;
        let ghost rank = choose|rank: spec_fn(u64) -> nat| ranked(before, rank);
        let previous = table_insert(&mut self.edges, me, other);
        let mut current: u64 = other;
        loop
            invariant
                before == old(self)@,
                self@ == before.insert(me, other),
                ranked(before, rank),
                current == other || current != me,
                reaches(before, other, me) <==> reaches(before, current, me),
                previous == (if before.dom().contains(me) {
                    Some(before[me])
                } else {
                    None
                }),
            decreases rank(current),
        {
            match table_get(&self.edges, current) {
                None => {
                    proof {
                        lemma_reaches_from_idle(before, current, me);
                        lemma_insert_keeps_acyclic(before, me, other);
                    }
                    return Ok(());
                },
                Some(next) => {
                    if next == me {
                        proof {
                            if current == me {
                                assert(hop(before, current, 0) == Some(me));
                            } else {
                                assert(before[current] == me);
                                assert(hop(before, me, 0) == Some(me));
                                assert(hop(before, current, 1) == Some(me));
                            }
                        }
                        match previous {
                            Some(target) => {
                                table_insert(&mut self.edges, me, target);
                            },
                            None => {
                                table_remove(&mut self.edges, me);
                            },
                        }
                        assert(self@ =~= before);
                        return Err(CyclicQuery::Global);
                    }
                    proof {
                        assert(current != me);
                        assert(before[current] == next);
                        assert(rank(current) > rank(before[current]));
                        lemma_reaches_through_edge(before, current, me);
                    }
                    current = next;
                },
            }
        }
    }

    /// Forgets whom `thread` was waiting on.
    pub fn release(&mut self, thread: u64)
        requires
            old(self).wf(),
        ensures
            final(self).wf(),
            final(self)@ == old(self)@.remove(thread),
    {
        table_remove(&mut self.edges, thread);
        proof {
            lemma_remove_keeps_acyclic(old(self)@, thread);
        }
    }

    /// The thread that `thread` is waiting on, if it is waiting.
    pub fn waits_on(&self, thread: u64) -> (target: Option<u64>)
        ensures
            target == (if self@.dom().contains(thread) {
                Some(self@[thread])
            } else {
                None
            }),
    {
        table_get(&self.edges, thread)
    }
}

} // verus!
