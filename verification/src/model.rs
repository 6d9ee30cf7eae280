//! The shared state of the engine as a mathematical value, and each step of
//! the protocol as a function on it.

use crate::entry::{EntryView, TryFetch};
use crate::error::CyclicQuery;
use crate::graph::{acyclic, reaches};
use crate::storage::{owned_by, with_claim, with_result, with_waiter};
use vstd::prelude::*;

verus! {

/// What all threads share.
pub struct State<R> {
    /// The entry of every query that was ever claimed.
    pub entries: Map<u64, EntryView<R>>,
    /// For each blocked thread, the thread it waits on.
    pub waits: Map<u64, u64>,
    /// The pending queries that an idle thread may take; the last one is
    /// taken first.
    pub stealable: Seq<(u64, Seq<u64>)>,
}

/// What one round of the fetch protocol decides.
pub enum Verdict<R> {
    /// The caller runs this stolen query.
    Stole((u64, Seq<u64>)),
    /// The caller is registered as a waiter and parks; the given thread is
    /// computing the query.
    WaitFor(u64),
    /// The query is computed, with this result.
    Complete(R),
    /// The query now belongs to the caller.
    Claimed,
    /// The query depends on itself.
    Cyclic(CyclicQuery),
}

/// The value that a step hands out is the one that the model decides. A
/// result is handed out as a clone of the stored one.
pub open spec fn agrees<R: Clone>(
    out: Result<TryFetch<R>, CyclicQuery>,
    verdict: Verdict<R>,
) -> bool {
    match verdict {
        Verdict::Stole(item) => out matches Ok(TryFetch::Stole(got)) && got@ == item,
        Verdict::WaitFor(_) => out matches Ok(TryFetch::WaitFor(_)),
        Verdict::Complete(result) => out matches Ok(TryFetch::Complete(got)) && cloned(result, got),
        Verdict::Claimed => out matches Ok(TryFetch::Claimed),
        Verdict::Cyclic(cycle) => out matches Err(got) && got == cycle,
    }
}

impl<R> EntryView<R> {
    /// `later` is this entry or a later stage of it: a complete entry stays
    /// as it is; one in progress keeps its owner and its waiters, in order,
    /// until it becomes complete.
    pub open spec fn advances_to(self, later: EntryView<R>) -> bool {
        match self {
            EntryView::Complete { .. } => later == self,
            EntryView::InProgress { thread_id, waiters } => match later {
                EntryView::Complete { .. } => true,
                EntryView::InProgress { thread_id: owner, waiters: longer } => owner == thread_id
                    && waiters.is_prefix_of(longer),
            },
        }
    }
}

impl<R> State<R> {
    /// No circle of waiting threads.
    pub open spec fn wf(self) -> bool {
        acyclic(self.waits)
    }

    /// The state with `query` claimed by thread `me`.
    pub open spec fn claimed(self, me: u64, query: u64) -> State<R> {
        State {
            entries: with_claim(self.entries, query, me),
            waits: self.waits,
            stealable: self.stealable,
        }
    }

    /// The state with thread `me` waiting for `query`, which `owner` is
    /// computing.
    pub open spec fn waiting(self, me: u64, query: u64, owner: u64) -> State<R> {
        State {
            entries: with_waiter(self.entries, query, me),
            waits: self.waits.insert(me, owner),
            stealable: self.stealable,
        }
    }

    /// The state with the last pending query taken.
    pub open spec fn robbed(self) -> State<R> {
        State {
            entries: self.entries,
            waits: self.waits,
            stealable: self.stealable.drop_last(),
        }
    }

    /// One round of the protocol for thread `me` and `query`, without the
    /// look at the caller's own call chain: claim an absent query, hand out
    /// a computed result, and for a query that another thread is computing
    /// take pending work if there is any, else wait, unless that would
    /// close a circle of waiting threads.
    pub open spec fn try_fetch(self, me: u64, query: u64) -> (State<R>, Verdict<R>) {
        if !self.entries.dom().contains(query) {
            (self.claimed(me, query), Verdict::Claimed)
        } else {
            match self.entries[query] {
                EntryView::Complete { result, .. } => (self, Verdict::Complete(result)),
                EntryView::InProgress { thread_id, .. } => {
                    if self.stealable.len() > 0 {
                        (self.robbed(), Verdict::Stole(self.stealable.last()))
                    } else if reaches(self.waits, thread_id, me) {
                        (self, Verdict::Cyclic(CyclicQuery::Global))
                    } else {
                        (self.waiting(me, query, thread_id), Verdict::WaitFor(thread_id))
                    }
                },
            }
        }
    }

    /// One round of the protocol for thread `me`, whose call chain is
    /// `stack`: a query that the thread itself is computing, and that is on
    /// its call chain, is a cycle; every other case is as in `try_fetch`.
    pub open spec fn fetch(self, me: u64, stack: Seq<u64>, query: u64) -> (State<R>, Verdict<R>) {
        if owned_by(self.entries, query, me) && stack.contains(query) {
            (self, Verdict::Cyclic(CyclicQuery::Local))
        } else {
            self.try_fetch(me, query)
        }
    }

    /// A thief's claim: `query` is claimed for thread `me` if it is absent,
    /// and else nothing changes.
    pub open spec fn dispatch(self, me: u64, query: u64) -> (State<R>, bool) {
        if self.entries.dom().contains(query) {
            (self, false)
        } else {
            (self.claimed(me, query), true)
        }
    }

    /// The end of a computation: where thread `me` is computing `query`,
    /// the entry becomes complete, no waiter of it waits any longer, and the
    /// waiters are handed out to be woken. In every other case nothing
    /// changes.
    pub open spec fn complete(self, me: u64, query: u64, result: R, dependencies: Seq<u64>) -> (
        State<R>,
        Option<Seq<u64>>,
    ) {
        if owned_by(self.entries, query, me) {
            let waiters = self.entries[query]->waiters;
            (
                State {
                    entries: with_result(self.entries, query, result, dependencies),
                    waits: self.waits.remove_keys(waiters.to_set()),
                    stealable: self.stealable,
                },
                Some(waiters),
            )
        } else {
            (self, None)
        }
    }

    /// The state with one more pending query.
    pub open spec fn offer(self, item: (u64, Seq<u64>)) -> State<R> {
        State {
            entries: self.entries,
            waits: self.waits,
            stealable: self.stealable.push(item),
        }
    }
}

/// Some thread takes one step of the protocol.
pub open spec fn step<R>(pre: State<R>, post: State<R>) -> bool {
    ||| exists|me: u64, stack: Seq<u64>, query: u64| post == pre.fetch(me, stack, query).0
    ||| exists|me: u64, query: u64| post == pre.try_fetch(me, query).0
    ||| exists|me: u64, query: u64| post == pre.dispatch(me, query).0
    ||| exists|me: u64, query: u64, result: R, dependencies: Seq<u64>|
        post == pre.complete(me, query, result, dependencies).0
    ||| exists|item: (u64, Seq<u64>)| post == pre.offer(item)
}

/// Each state of `trace` follows from the one before it by one step.
pub open spec fn run<R>(trace: Seq<State<R>>) -> bool {
    forall|i: int, j: int|
        0 <= i && j == i + 1 && j < trace.len() ==> step(#[trigger] trace[i], #[trigger] trace[j])
}

} // verus!
