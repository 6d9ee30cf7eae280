//! The cached state of one query, and the values that the steps hand out.

use crossbeam::sync::Parker;
use crossbeam::sync::Unparker;
use vstd::prelude::*;

verus! {

/// The state of one query: being computed, or computed.
#[derive(Clone)]
pub enum Entry<R> {
    /// Thread `thread_id` has claimed the query and is running its rule;
    /// `waiters` are the threads parked until it is done, in the order in
    /// which they came, each with the handle that wakes it.
    InProgress { thread_id: u64, waiters: Vec<(u64, Unparker)> },
    /// The rule has returned `result`, after asking for `dependencies` in
    /// this order.
    Complete { result: R, dependencies: Vec<u64> },
}

/// The threads of a list of waiters, in order.
pub open spec fn threads(waiters: Seq<(u64, Unparker)>) -> Seq<u64> {
    Seq::new(waiters.len(), |i: int| waiters[i].0)
}

/// An [`Entry`] with its lists as sequences, and of each waiter the thread
/// alone.
pub enum EntryView<R> {
    InProgress { thread_id: u64, waiters: Seq<u64> },
    Complete { result: R, dependencies: Seq<u64> },
}

impl<R> View for Entry<R> {
    type V = EntryView<R>;

    open spec fn view(&self) -> EntryView<R> {
        match *self {
            Entry::InProgress { thread_id, waiters } => EntryView::InProgress {
                thread_id,
                waiters: threads(waiters@),
            },
            Entry::Complete { result, dependencies } => EntryView::Complete {
                result,
                dependencies: dependencies@,
            },
        }
    }
}

impl<R> Entry<R> {
    /// Whether the rule has returned.
    pub fn is_complete(&self) -> (done: bool)
        ensures
            done == (self@ is Complete),
    {
        match self {
            Entry::InProgress { .. } => false,
            Entry::Complete { .. } => true,
        }
    }

    /// The memoized result, once there is one.
    pub fn result(&self) -> (result: Option<&R>)
        ensures
            match self@ {
                EntryView::Complete { result: stored, .. } => result == Some(&stored),
                EntryView::InProgress { .. } => result is None,
            },
    {
        match self {
            Entry::InProgress { .. } => None,
            Entry::Complete { result, .. } => Some(result),
        }
    }

    /// The thread that is running the rule, while it runs.
    pub fn owner(&self) -> (owner: Option<u64>)
        ensures
            match self@ {
                EntryView::InProgress { thread_id, .. } => owner == Some(thread_id),
                EntryView::Complete { .. } => owner is None,
            },
    {
        match self {
            Entry::InProgress { thread_id, .. } => Some(*thread_id),
            Entry::Complete { .. } => None,
        }
    }
}

/// A pending query that an idle thread may run: the query and the call chain
/// under which it was asked for.
pub struct Stealable {
    pub query: u64,
    pub stack: Vec<u64>,
}

impl View for Stealable {
    type V = (u64, Seq<u64>);

    open spec fn view(&self) -> (u64, Seq<u64>) {
        (self.query, self.stack@)
    }
}

/// What one round of the fetch protocol tells the calling thread to do.
pub enum TryFetch<R> {
    /// Run this stolen query instead of idling, then ask again.
    Stole(Stealable),
    /// Park on this parker: another thread is computing the query and will
    /// wake the caller when it is done.
    WaitFor(Parker),
    /// The query is computed: here is a clone of its result.
    Complete(R),
    /// The query was absent and now belongs to the caller: run its rule and
    /// publish the result.
    Claimed,
}

} // verus!
