//! Query storage: the entry of every query that was ever claimed.

use crate::dash::{pairs, table_get, table_insert, table_new};
use crate::entry::{threads, Entry, EntryView};
use crossbeam::sync::Unparker;
use dashmap::DashMap;
use fxhash::FxBuildHasher;
use vstd::prelude::*;

verus! {

/// What a thread finds when it asks for a query.
pub enum Claim<'a, R> {
    /// The query is computed, with this result.
    AlreadyComplete(&'a R),
    /// This thread is computing the query.
    AlreadyInProgress(u64),
    /// No thread had asked before: the query now belongs to the caller.
    ClaimedByMe,
}

/// A map from query to entry. The table maps each query to the slot that
/// holds its entry; slots are only ever added.
pub struct Storage<R> {
    index: DashMap<u64, u64, FxBuildHasher>,
    slots: Vec<Entry<R>>,
}

impl<R> View for Storage<R> {
    type V = Map<u64, EntryView<R>>;

    closed spec fn view(&self) -> Map<u64, EntryView<R>> {
        Map::new(
            |query: u64| pairs(self.index).dom().contains(query),
            |query: u64| self.slots@[pairs(self.index)[query] as int]@,
        )
    }
}

impl<R> Storage<R> {
    /// Every query has a slot of its own.
    pub closed spec fn wf(&self) -> bool {
        &&& forall|query: u64|
            pairs(self.index).dom().contains(query) ==> #[trigger] pairs(self.index)[query]
                < self.slots@.len()
        &&& forall|p: u64, q: u64|
            pairs(self.index).dom().contains(p) && pairs(self.index).dom().contains(q)
                && #[trigger] pairs(self.index)[p] == #[trigger] pairs(self.index)[q] ==> p
                == q
    }

    /// A storage without entries.
    pub fn new() -> (storage: Storage<R>)
        ensures
            storage.wf(),
            storage@ == Map::<u64, EntryView<R>>::empty(),
    {
        let storage = Storage { index: table_new(), slots: Vec::new() };
        assert(storage@ =~= Map::<u64, EntryView<R>>::empty());
        storage
    }

    /// The entry of `query`, if the query was ever claimed.
    pub fn get(&self, query: u64) -> (entry: Option<&Entry<R>>)
        requires
            self.wf(),
        ensures
            entry is Some <==> self@.dom().contains(query),
            entry matches Some(found) ==> found@ == self@[query],
    {
        match table_get(&self.index, query) {
            Some(slot) => {
                let slots: usize = self.slots.len();
                assert(slot == pairs(self.index)[query] && slot < slots);
                Some(&self.slots[slot as usize])
            },
            None => None,
        }
    }

    /// Claims `query` for thread `me` if no thread has claimed it before.
    /// Of all callers for one query exactly the first is told `true`.
    pub fn claim(&mut self, query: u64, me: u64) -> (claimed: bool)
        requires
            old(self).wf(),
        ensures
            final(self).wf(),
            claimed == !old(self)@.dom().contains(query),
            claimed ==> final(self)@ == with_claim(old(self)@, query, me),
            !claimed ==> final(self)@ == old(self)@,
    {
        match table_get(&self.index, query) {
            Some(_) => false,
            None => {
                let slot: u64 = self.slots.len() as u64;
                self.slots.push(Entry::InProgress { thread_id: me, waiters: Vec::new() });
                table_insert(&mut self.index, query, slot);
                assert(threads(Seq::<(u64, Unparker)>::empty()) =~= Seq::<u64>::empty());
                assert(final(self)@ =~= with_claim(old(self)@, query, me));
                true
            },
        }
    }

    /// Looks `query` up and claims it for thread `me` where no thread has
    /// claimed it before.
    pub fn get_or_claim(&mut self, query: u64, me: u64) -> (claim: Claim<'_, R>)
        requires
            old(self).wf(),
        ensures
            final(self).wf(),
            match claim {
                Claim::ClaimedByMe => {
                    &&& !old(self)@.dom().contains(query)
                    &&& final(self)@ == with_claim(old(self)@, query, me)
                },
                Claim::AlreadyInProgress(owner) => {
                    &&& owned_by(old(self)@, query, owner)
                    &&& final(self)@ == old(self)@
                },
                Claim::AlreadyComplete(result) => {
                    &&& old(self)@.dom().contains(query)
                    &&& old(self)@[query] is Complete
                    &&& *result == old(self)@[query]->result
                    &&& final(self)@ == old(self)@
                },
            },
    {
        if self.claim(query, me) {
            return Claim::ClaimedByMe;
        }
        match self.get(query) {
            Some(Entry::Complete { result, .. }) => Claim::AlreadyComplete(result),
            Some(Entry::InProgress { thread_id, .. }) => Claim::AlreadyInProgress(*thread_id),
            None => Claim::ClaimedByMe,
        }
    }

    /// Adds `waiter`, with the handle that wakes it, to the threads that
    /// wait for `query`, where the query is still being computed. Tells
    /// whether it did.
    pub fn enlist(&mut self, query: u64, waiter: u64, unparker: Unparker) -> (enlisted: bool)
        requires
            old(self).wf(),
        ensures
            final(self).wf(),
            enlisted == (old(self)@.dom().contains(query) && old(self)@[query] is InProgress),
            enlisted ==> final(self)@ == with_waiter(old(self)@, query, waiter),
            !enlisted ==> final(self)@ == old(self)@,
    {
        match table_get(&self.index, query) {
            None => false,
            Some(slot) => {
                let slots: usize = self.slots.len();
                assert(slot == pairs(self.index)[query] && slot < slots);
                match &mut self.slots[slot as usize] {
                    Entry::InProgress { waiters, .. } => {
                        let ghost before = waiters@;
                        waiters.push((waiter, unparker));
                        assert(threads(before.push((waiter, unparker))) =~= threads(before).push(
                            waiter,
                        ));
                        assert(final(self)@ =~= with_waiter(old(self)@, query, waiter));
                        true
                    },
                    Entry::Complete { .. } => false,
                }
            },
        }
    }

    /// Publishes the result of `query`, where thread `me` is the one that
    /// is computing it, and hands back the threads that were waiting for it.
    /// In every other case nothing changes and nothing is handed back.
    pub fn publish(&mut self, query: u64, me: u64, result: R, dependencies: Vec<u64>) -> (woken:
        Option<Vec<(u64, Unparker)>>)
        requires
            old(self).wf(),
        ensures
            final(self).wf(),
            woken is Some <==> owned_by(old(self)@, query, me),
            woken matches Some(waiters) ==> threads(waiters@) == old(self)@[query]->waiters,
            woken is Some ==> final(self)@ == with_result(
                old(self)@,
                query,
                result,
                dependencies@,
            ),
            woken is None ==> final(self)@ == old(self)@,
    {
        match table_get(&self.index, query) {
            None => None,
            Some(slot) => {
                let slots: usize = self.slots.len();
                assert(slot == pairs(self.index)[query] && slot < slots);
                if self.slots[slot as usize].owner() != Some(me) {
                    return None;
                }
                let mut entry = Entry::Complete { result, dependencies };
                core::mem::swap(&mut self.slots[slot as usize], &mut entry);
                assert(final(self)@ =~= with_result(old(self)@, query, result, dependencies@));
                match entry {
                    Entry::InProgress { waiters, .. } => Some(waiters),
                    Entry::Complete { .. } => None,
                }
            },
        }
    }
}

/// The entries once thread `me` has claimed `query`.
pub open spec fn with_claim<R>(entries: Map<u64, EntryView<R>>, query: u64, me: u64) -> Map<
    u64,
    EntryView<R>,
> {
    entries.insert(query, EntryView::InProgress { thread_id: me, waiters: Seq::empty() })
}

/// The entries once `waiter` has joined those that wait for `query`.
pub open spec fn with_waiter<R>(entries: Map<u64, EntryView<R>>, query: u64, waiter: u64) -> Map<
    u64,
    EntryView<R>,
> {
    entries.insert(
        query,
        EntryView::InProgress {
            thread_id: entries[query]->thread_id,
            waiters: entries[query]->waiters.push(waiter),
        },
    )
}

/// The entries once `query` is complete.
pub open spec fn with_result<R>(
    entries: Map<u64, EntryView<R>>,
    query: u64,
    result: R,
    dependencies: Seq<u64>,
) -> Map<u64, EntryView<R>> {
    entries.insert(query, EntryView::Complete { result, dependencies })
}

/// Thread `me` has claimed `query` and has not yet published its result.
pub open spec fn owned_by<R>(entries: Map<u64, EntryView<R>>, query: u64, me: u64) -> bool {
    &&& entries.dom().contains(query)
    &&& entries[query] matches EntryView::InProgress { thread_id, .. }
    &&& thread_id == me
}

} // verus!
