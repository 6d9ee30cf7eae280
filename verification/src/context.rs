//! The engine: storage, wait-for graph and steal queue, and the steps of
//! the fetch protocol on them.

use crate::entry::{threads, Entry, EntryView, Stealable, TryFetch};
use crate::error::CyclicQuery;
use crate::graph::WaitGraph;
use crate::model::{agrees, State};
use crate::park::{parker_new, unpark, unparker_of};
use crate::storage::{Claim, Storage};
use crate::worker::{contains, Worker};
use vstd::prelude::*;

verus! {

/// What all worker threads share. `R` is what a query returns.
pub struct Context<R> {
    database: Storage<R>,
    thread_dependencies: WaitGraph,
    stealable: Vec<Stealable>,
}

impl<R> View for Context<R> {
    type V = State<R>;

    closed spec fn view(&self) -> State<R> {
        State {
            entries: self.database@,
            waits: self.thread_dependencies@,
            stealable: Seq::new(self.stealable@.len(), |i: int| self.stealable@[i]@),
        }
    }
}

impl<R> Context<R> {
    /// The tables are sound and no circle of threads wait on each other.
    pub closed spec fn wf(&self) -> bool {
        &&& self.database.wf()
        &&& self.thread_dependencies.wf()
    }

    /// A well-formed engine is in a well-formed state: what the laws say of
    /// such states holds of it.
    pub proof fn law_wf(&self)
        requires
            self.wf(),
        ensures
            self@.wf(),
    {
    }

    /// An engine that has seen no query.
    pub fn new() -> (context: Context<R>)
        ensures
            context.wf(),
            context@.entries == Map::<u64, EntryView<R>>::empty(),
            context@.waits == Map::<u64, u64>::empty(),
            context@.stealable == Seq::<(u64, Seq<u64>)>::empty(),
    {
        let context = Context {
            database: Storage::new(),
            thread_dependencies: WaitGraph::new(),
            stealable: Vec::new(),
        };
        assert(context@.stealable =~= Seq::<(u64, Seq<u64>)>::empty());
        context
    }

    /// The entry of `query`, if the query was ever claimed.
    pub fn entry(&self, query: u64) -> (entry: Option<&Entry<R>>)
        requires
            self.wf(),
        ensures
            entry is Some <==> self@.entries.dom().contains(query),
            entry matches Some(found) ==> found@ == self@.entries[query],
    {
        self.database.get(query)
    }

    /// The thread that `thread` is waiting on, if it is waiting.
    pub fn waits_on(&self, thread: u64) -> (target: Option<u64>)
        ensures
            target == (if self@.waits.dom().contains(thread) {
                Some(self@.waits[thread])
            } else {
                None
            }),
    {
        self.thread_dependencies.waits_on(thread)
    }

    /// Puts a pending query where idle threads find it.
    pub fn offer(&mut self, item: Stealable)
        requires
            old(self).wf(),
        ensures
            final(self).wf(),
            final(self)@ == old(self)@.offer(item@),
    {
        self.stealable.push(item);
        assert(final(self)@.stealable =~= old(self)@.stealable.push(item@));
    }

    /// One round of the protocol for thread `me`, without the look at the
    /// caller's own call chain.
    pub fn try_fetch(&mut self, me: u64, query: u64) -> (out: Result<TryFetch<R>, CyclicQuery>)
        where R: Clone,
        requires
            old(self).wf(),
        ensures
            final(self).wf(),
            final(self)@ == old(self)@.try_fetch(me, query).0,
            agrees(out, old(self)@.try_fetch(me, query).1),
    {
        let owner: u64 = match self.database.get_or_claim(query, me) {
            Claim::ClaimedByMe => {
                return Ok(TryFetch::Claimed);
            },
            Claim::AlreadyComplete(result) => {
                return Ok(TryFetch::Complete(result.clone()));
            },
            Claim::AlreadyInProgress(owner) => owner,
        };
        if self.stealable.len() > 0 {
            let item = self.stealable.pop().unwrap();
            assert(final(self)@.stealable =~= old(self)@.stealable.drop_last());
            return Ok(TryFetch::Stole(item));
        }
        match self.thread_dependencies.deadlock_check(me, owner) {
            Err(cycle) => Err(cycle),
            Ok(()) => {
                let parker = parker_new();
                self.database.enlist(query, me, unparker_of(&parker));
                Ok(TryFetch::WaitFor(parker))
            },
        }
    }

    /// One round of the protocol for the thread of `worker`: the answer
    /// tells the thread whether to return a result, run the rule, run
    /// stolen work, or park, and after each of the last three to ask again.
    pub fn fetch(&mut self, worker: &Worker, query: u64) -> (out: Result<TryFetch<R>, CyclicQuery>)
        where R: Clone,
        requires
            old(self).wf(),
        ensures
            final(self).wf(),
            final(self)@ == old(self)@.fetch(worker.thread_id, worker.stack@, query).0,
            agrees(out, old(self)@.fetch(worker.thread_id, worker.stack@, query).1),
    {
        let mine: bool = match self.database.get(query) {
            Some(Entry::InProgress { thread_id, .. }) => *thread_id == worker.thread_id,
            _ => false,
        };
        if mine && contains(&worker.stack, query) {
            return Err(CyclicQuery::Local);
        }
        self.try_fetch(worker.thread_id, query)
    }

    /// A thief's claim on `query` for thread `me`: `true` where the query
    /// was absent and is now the caller's to compute.
    pub fn dispatch(&mut self, me: u64, query: u64) -> (claimed: bool)
        requires
            old(self).wf(),
        ensures
            final(self).wf(),
            final(self)@ == old(self)@.dispatch(me, query).0,
            claimed == old(self)@.dispatch(me, query).1,
    {
        self.database.claim(query, me)
    }

    /// Takes on a stolen query. Where the query is absent it is claimed for
    /// the thread of `worker`, which continues under the call chain that
    /// came with the query; the call chain it had is handed out, to be put
    /// back when the stolen work is done. Where the query is present
    /// nothing changes.
    pub fn steal(&mut self, worker: &mut Worker, item: Stealable) -> (saved: Option<Vec<u64>>)
        requires
            old(self).wf(),
        ensures
            final(self).wf(),
            final(self)@ == old(self)@.dispatch(old(worker).thread_id, item.query).0,
            saved is Some == old(self)@.dispatch(old(worker).thread_id, item.query).1,
            saved matches Some(stack) ==> stack@ == old(worker).stack@ && final(worker).stack@
                == item.stack@,
            saved is None ==> final(worker).stack@ == old(worker).stack@,
            final(worker).thread_id == old(worker).thread_id,
            final(worker).dependencies@ == old(worker).dependencies@,
    {
        if self.dispatch(worker.thread_id, item.query) {
            Some(worker.swap_stack(item.stack))
        } else {
            None
        }
    }

    /// Publishes what the rule of `query` returned and recorded, where
    /// thread `me` is the one computing the query, and then wakes every
    /// thread that was waiting for it, in the order in which they came.
    /// None of them waits on any thread afterwards. The threads that were
    /// woken are handed out.
    pub fn complete(
        &mut self,
        me: u64,
        query: u64,
        result: R,
        dependencies: Vec<u64>,
    ) -> (woken: Option<Vec<u64>>)
        requires
            old(self).wf(),
        ensures
            final(self).wf(),
            final(self)@ == old(self)@.complete(me, query, result, dependencies@).0,
            woken is Some == old(self)@.complete(me, query, result, dependencies@).1 is Some,
            woken matches Some(list) ==> Some(list@) == old(self)@.complete(
                me,
                query,
                result,
                dependencies@,
            ).1,
    {
        let ghost before = self.thread_dependencies@;
        match self.database.publish(query, me, result, dependencies) {
            None => None,
            Some(waiters) => {
                let ghost entries = self.database@;
                let ghost pending = self@.stealable;
                let mut woken: Vec<u64> = Vec::new();
                let mut i: usize = 0;
                while i < waiters.len()
                    invariant
                        i <= waiters.len(),
                        self.wf(),
                        self@.entries == entries,
                        self@.stealable == pending,
                        woken@ == threads(waiters@).subrange(0, i as int),
                        self@.waits == before.remove_keys(woken@.to_set()),
                    decreases waiters.len() - i,
                {
                    let thread: u64 = waiters[i].0;
                    self.thread_dependencies.release(thread);
                    unpark(&waiters[i].1);
                    proof {
                        woken@.lemma_push_to_set_commute(thread);
                        assert(before.remove_keys(woken@.to_set()).remove(thread)
                            =~= before.remove_keys(woken@.to_set().insert(thread)));
                        assert(threads(waiters@).subrange(0, i + 1) =~= woken@.push(thread));
                    }
                    woken.push(thread);
                    i += 1;
                }
                assert(threads(waiters@).subrange(0, i as int) =~= threads(waiters@));
                Some(woken)
            },
        }
    }
}

} // verus!
