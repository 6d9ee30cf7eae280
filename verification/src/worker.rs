//! What belongs to one worker thread: its active call chain and the buffer
//! in which the rule that it is running records its dependencies.

use crate::error::CyclicQuery;
use vstd::prelude::*;

verus! {

/// The state of one worker thread.
pub struct Worker {
    /// The thread that this state belongs to.
    pub thread_id: u64,
    /// The queries whose rules are running on this thread, outermost first.
    pub stack: Vec<u64>,
    /// The dependencies recorded so far for the innermost running rule.
    pub dependencies: Vec<u64>,
}

/// A [`Worker`] with its lists as sequences.
pub struct WorkerView {
    pub thread_id: u64,
    pub stack: Seq<u64>,
    pub dependencies: Seq<u64>,
}

impl View for Worker {
    type V = WorkerView;

    open spec fn view(&self) -> WorkerView {
        WorkerView {
            thread_id: self.thread_id,
            stack: self.stack@,
            dependencies: self.dependencies@,
        }
    }
}

impl WorkerView {
    /// The worker as the rule of `query` starts: the query is on top of the
    /// call chain and the buffer is empty.
    pub open spec fn begin_rule(self, query: u64) -> WorkerView {
        WorkerView {
            thread_id: self.thread_id,
            stack: self.stack.push(query),
            dependencies: Seq::empty(),
        }
    }

    /// The worker as the rule of `query` ends: the top of the call chain is
    /// gone, and the buffer is the one saved at the start with `query` added.
    pub open spec fn end_rule(self, query: u64, saved: Seq<u64>) -> WorkerView {
        WorkerView {
            thread_id: self.thread_id,
            stack: if self.stack.len() > 0 {
                self.stack.drop_last()
            } else {
                self.stack
            },
            dependencies: saved.push(query),
        }
    }
}

/// A rule of `query` has run on the worker from its start to its end:
/// `before` is the worker as the rule starts, `after` as it has ended, and
/// in between the call chain came back to what it was when the rule began
/// to run.
pub open spec fn ran_rule(before: WorkerView, after: WorkerView, query: u64) -> bool {
    exists|inner: WorkerView|
        inner.thread_id == before.thread_id && inner.stack == before.begin_rule(query).stack
            && after == #[trigger] inner.end_rule(query, before.dependencies)
}

/// Whether `query` occurs in `list`.
pub fn contains(list: &Vec<u64>, query: u64) -> (found: bool)
    ensures
        found == list@.contains(query),
{
    let mut i: usize = 0;
    while i < list.len()
        invariant
            i <= list.len(),
            forall|j: int| 0 <= j < i ==> list@[j] != query,
        decreases list.len() - i,
    {
        if list[i] == query {
            return true;
        }
        i += 1;
    }
    false
}

impl Worker {
    /// A worker that runs no rule.
    pub fn new(thread_id: u64) -> (worker: Worker)
        ensures
            worker.thread_id == thread_id,
            worker.stack@ == Seq::<u64>::empty(),
            worker.dependencies@ == Seq::<u64>::empty(),
    {
        Worker { thread_id, stack: Vec::new(), dependencies: Vec::new() }
    }

    /// Starts the rule of `query`: puts the query on the call chain and
    /// hands out the buffer of the enclosing rule, leaving an empty one. A
    /// query that is already on the call chain is refused, and nothing
    /// changes.
    pub fn begin_rule(&mut self, query: u64) -> (saved: Result<Vec<u64>, CyclicQuery>)
        ensures
            saved is Err <==> old(self).stack@.contains(query),
            saved matches Err(cycle) ==> cycle == CyclicQuery::Local && *final(self) == *old(self),
            saved matches Ok(buffer) ==> buffer@ == old(self).dependencies@,
            saved is Ok ==> final(self)@ == old(self)@.begin_rule(query),
    {
        if contains(&self.stack, query) {
            return Err(CyclicQuery::Local);
        }
        let mut buffer: Vec<u64> = Vec::new();
        core::mem::swap(&mut self.dependencies, &mut buffer);
        self.stack.push(query);
        Ok(buffer)
    }

    /// Ends the rule of `query`: takes the query off the call chain, records
    /// it in the buffer of the enclosing rule, `saved`, which becomes the
    /// current one again, and hands out what the rule itself has recorded.
    pub fn end_rule(&mut self, query: u64, saved: Vec<u64>) -> (recorded: Vec<u64>)
        ensures
            recorded@ == old(self).dependencies@,
            final(self)@ == old(self)@.end_rule(query, saved@),
    {
        self.stack.pop();
        let mut buffer = saved;
        buffer.push(query);
        core::mem::swap(&mut self.dependencies, &mut buffer);
        buffer
    }

    /// Replaces the call chain by `stack` and hands out the one it had.
    pub fn swap_stack(&mut self, stack: Vec<u64>) -> (previous: Vec<u64>)
        ensures
            previous@ == old(self).stack@,
            final(self).stack@ == stack@,
            final(self).thread_id == old(self).thread_id,
            final(self).dependencies@ == old(self).dependencies@,
    {
        let mut other = stack;
        core::mem::swap(&mut self.stack, &mut other);
        other
    }
}

} // verus!
