//! What holds of the engine over every sequence of steps.

use crate::entry::EntryView;
use crate::error::CyclicQuery;
use crate::graph::{
    acyclic, hop, lemma_insert_keeps_acyclic, lemma_rank_falls, lemma_remove_keys_keeps_acyclic,
    ranked, reaches,
};
use crate::model::{run, step, State, Verdict};
use crate::storage::owned_by;
use crate::worker::{ran_rule, WorkerView};
use vstd::prelude::*;

verus! {

/// A thread never waits, through any number of threads, on itself: in a
/// graph without cycles no chain of one or more edges leads back to where it
/// started.
pub proof fn law_no_circular_wait(edges: Map<u64, u64>, thread: u64, hops: nat)
    requires
        acyclic(edges),
        hops >= 1,
    ensures
        hop(edges, thread, hops) != Some(thread),
{
    let rank = choose|rank: spec_fn(u64) -> nat| ranked(edges, rank);
    if hop(edges, thread, hops) is Some {
        lemma_rank_falls(edges, rank, thread, hops);
    }
}

/// No step lets a circle of waiting threads form.
pub proof fn law_step_keeps_wf<R>(pre: State<R>, post: State<R>)
    requires
        pre.wf(),
        step(pre, post),
    ensures
        post.wf(),
{
    assert forall|me: u64, query: u64| (#[trigger] pre.try_fetch(me, query)).0.wf() by {
        if pre.entries.dom().contains(query) {
            if let EntryView::InProgress { thread_id, .. } = pre.entries[query] {
                if !reaches(pre.waits, thread_id, me) {
                    lemma_insert_keeps_acyclic(pre.waits, me, thread_id);
                }
            }
        }
    }
    assert forall|me: u64, query: u64, result: R, dependencies: Seq<u64>|
        (#[trigger] pre.complete(me, query, result, dependencies)).0.wf() by {
        if owned_by(pre.entries, query, me) {
            lemma_remove_keys_keeps_acyclic(pre.waits, pre.entries[query]->waiters.to_set());
        }
    }
}

/// A step takes no entry away, leaves a complete entry as it is, and leaves
/// an entry in progress its owner and its waiters, in order, until the entry
/// becomes complete.
pub proof fn law_step_advances_entries<R>(pre: State<R>, post: State<R>, query: u64)
    requires
        step(pre, post),
        pre.entries.dom().contains(query),
    ensures
        post.entries.dom().contains(query),
        pre.entries[query].advances_to(post.entries[query]),
{
    let entry = pre.entries[query];
    if let EntryView::InProgress { thread_id, waiters } = entry {
        assert(waiters.is_prefix_of(waiters));
        assert forall|me: u64| waiters.is_prefix_of(#[trigger] waiters.push(me)) by {
            assert(waiters.push(me).subrange(0, waiters.len() as int) =~= waiters);
        }
    }
    assert forall|me: u64, asked: u64|
        entry.advances_to((#[trigger] pre.try_fetch(me, asked)).0.entries[query])
            && pre.try_fetch(me, asked).0.entries.dom().contains(query) by {}
}

/// Over any sequence of steps an entry only advances: from the moment a
/// query is claimed it stays present, and from the moment it is complete
/// its result and dependencies never change.
pub proof fn law_run_advances_entries<R>(trace: Seq<State<R>>, i: int, j: int, query: u64)
    requires
        run(trace),
        0 <= i <= j < trace.len(),
        trace[i].entries.dom().contains(query),
    ensures
        trace[j].entries.dom().contains(query),
        trace[i].entries[query].advances_to(trace[j].entries[query]),
    decreases j - i,
{
    let first = trace[i].entries[query];
    if i == j {
        if let EntryView::InProgress { thread_id, waiters } = first {
            assert(waiters.is_prefix_of(waiters));
        }
    } else {
        law_run_advances_entries(trace, i, j - 1, query);
        assert(step(trace[j - 1], trace[j]));
        law_step_advances_entries(trace[j - 1], trace[j], query);
        let middle = trace[j - 1].entries[query];
        let last = trace[j].entries[query];
        if let EntryView::InProgress { thread_id, waiters } = first {
            if let EntryView::InProgress { thread_id: owner, waiters: longer } = middle {
                if let EntryView::InProgress { thread_id: late, waiters: longest } = last {
                    assert(waiters =~= longer.subrange(0, waiters.len() as int));
                    assert(longer =~= longest.subrange(0, longer.len() as int));
                    assert(waiters =~= longest.subrange(0, waiters.len() as int));
                }
            }
        }
    }
}

/// A round answers that the query is the caller's to compute exactly when
/// no thread has claimed the query before, and the query then belongs to
/// the caller.
pub proof fn law_claim_iff_absent<R>(state: State<R>, me: u64, stack: Seq<u64>, query: u64)
    ensures
        state.fetch(me, stack, query).1 is Claimed <==> !state.entries.dom().contains(query),
        state.try_fetch(me, query).1 is Claimed <==> !state.entries.dom().contains(query),
        state.dispatch(me, query).1 <==> !state.entries.dom().contains(query),
        !state.entries.dom().contains(query) ==> owned_by(
            state.fetch(me, stack, query).0.entries,
            query,
            me,
        ),
{
}

/// At most one computation: once a query has been claimed, no later round
/// of any thread, after any number of steps, hands the query out to be
/// computed again.
pub proof fn law_at_most_once<R>(
    trace: Seq<State<R>>,
    i: int,
    j: int,
    query: u64,
    me: u64,
    stack: Seq<u64>,
)
    requires
        run(trace),
        0 <= i <= j < trace.len(),
        trace[i].entries.dom().contains(query),
    ensures
        !(trace[j].fetch(me, stack, query).1 is Claimed),
        !(trace[j].try_fetch(me, query).1 is Claimed),
        !trace[j].dispatch(me, query).1,
{
    law_run_advances_entries(trace, i, j, query);
}

/// Memoization: once a query is complete, every round of every thread,
/// after any number of steps, answers with the same result and changes
/// nothing.
pub proof fn law_memoized<R>(
    trace: Seq<State<R>>,
    i: int,
    j: int,
    query: u64,
    me: u64,
    stack: Seq<u64>,
)
    requires
        run(trace),
        0 <= i <= j < trace.len(),
        trace[i].entries.dom().contains(query),
        trace[i].entries[query] is Complete,
    ensures
        trace[j].fetch(me, stack, query) == (
            trace[j],
            Verdict::Complete(trace[i].entries[query]->result),
        ),
{
    law_run_advances_entries(trace, i, j, query);
}

/// A cycle on one thread: from the moment a thread has claimed a query and
/// for as long as the query is in progress, after any number of steps, a
/// round of that thread for the query, with the query on its call chain,
/// reports the cycle and changes nothing.
pub proof fn law_local_cycle<R>(
    trace: Seq<State<R>>,
    i: int,
    j: int,
    me: u64,
    stack: Seq<u64>,
    query: u64,
)
    requires
        run(trace),
        0 <= i <= j < trace.len(),
        owned_by(trace[i].entries, query, me),
        trace[j].entries[query] is InProgress,
        stack.contains(query),
    ensures
        trace[j].fetch(me, stack, query) == (trace[j], Verdict::<R>::Cyclic(CyclicQuery::Local)),
{
    law_run_advances_entries(trace, i, j, query);
}

/// A cycle across threads: where the thread that computes `query` waits,
/// through any number of threads, on thread `me`, a round of `me` for that
/// query never tells it to park. With no pending work to take, the round
/// reports the cycle and changes nothing.
pub proof fn law_cross_thread_cycle<R>(state: State<R>, me: u64, stack: Seq<u64>, query: u64)
    requires
        state.entries.dom().contains(query),
        state.entries[query] is InProgress,
        reaches(state.waits, state.entries[query]->thread_id, me),
    ensures
        !(state.fetch(me, stack, query).1 is WaitFor),
        state.stealable.len() == 0 ==> state.fetch(me, stack, query).0 == state
            && state.fetch(me, stack, query).1 is Cyclic,
{
}

/// Two threads that each ask for the query that the other is computing:
/// whichever asks second is told of the cycle, unless the first was told
/// already. Neither of the two is left waiting on the other while the other
/// waits on it.
pub proof fn law_one_of_two_sees_the_cycle<R>(
    state: State<R>,
    a: u64,
    b: u64,
    first: u64,
    second: u64,
    stack_a: Seq<u64>,
    stack_b: Seq<u64>,
)
    requires
        owned_by(state.entries, first, a),
        owned_by(state.entries, second, b),
        state.stealable.len() == 0,
    ensures
        state.fetch(a, stack_a, second).1 is Cyclic || state.fetch(a, stack_a, second).0.fetch(
            b,
            stack_b,
            first,
        ).1 is Cyclic,
{
    let asked = state.fetch(a, stack_a, second);
    if !(asked.1 is Cyclic) {
        assert(asked.1 is WaitFor);
        assert(hop(asked.0.waits, b, 0) == Some(b));
        assert(hop(asked.0.waits, a, 1) == Some(b));
        assert(reaches(asked.0.waits, a, b));
    }
}

/// Pending work is taken once: the round that hands out a pending query
/// takes it off the queue, and it is the one that was offered last.
pub proof fn law_stolen_once<R>(state: State<R>, me: u64, stack: Seq<u64>, query: u64)
    requires
        state.fetch(me, stack, query).1 is Stole,
    ensures
        state.stealable == state.fetch(me, stack, query).0.stealable.push(
            state.fetch(me, stack, query).1->Stole_0,
        ),
        state.fetch(me, stack, query).0.entries == state.entries,
        state.fetch(me, stack, query).0.waits == state.waits,
{
    let taken = state.fetch(me, stack, query).1->Stole_0;
    assert(state.stealable =~= state.stealable.drop_last().push(taken));
}

/// What is offered is what the next thread that would park takes.
pub proof fn law_offer_then_steal<R>(
    state: State<R>,
    item: (u64, Seq<u64>),
    me: u64,
    query: u64,
)
    requires
        state.entries.dom().contains(query),
        state.entries[query] is InProgress,
    ensures
        state.offer(item).try_fetch(me, query) == (state, Verdict::<R>::Stole(item)),
{
    assert(state.offer(item).robbed().stealable =~= state.stealable);
}

/// A thread that is told to park is the last of the waiters of the query
/// and waits on the thread that computes it.
pub proof fn law_waiter_is_registered<R>(state: State<R>, me: u64, stack: Seq<u64>, query: u64)
    requires
        state.fetch(me, stack, query).1 is WaitFor,
    ensures
        ({
            let owner = state.fetch(me, stack, query).1->WaitFor_0;
            let after = state.fetch(me, stack, query).0;
            &&& owned_by(state.entries, query, owner)
            &&& owned_by(after.entries, query, owner)
            &&& after.entries[query]->waiters == state.entries[query]->waiters.push(me)
            &&& after.waits.dom().contains(me)
            &&& after.waits[me] == owner
        }),
{
}

/// No waiter is left unwoken: a thread among the waiters of a query stays
/// among them through any number of steps for as long as the query is in
/// progress, and the step that completes the query hands it out to be
/// woken and leaves it waiting on no thread.
pub proof fn law_waiters_are_woken<R>(
    trace: Seq<State<R>>,
    i: int,
    j: int,
    query: u64,
    waiter: u64,
    result: R,
    dependencies: Seq<u64>,
)
    requires
        run(trace),
        0 <= i <= j < trace.len(),
        trace[i].entries.dom().contains(query),
        trace[i].entries[query] is InProgress,
        trace[i].entries[query]->waiters.contains(waiter),
        trace[j].entries[query] is InProgress,
    ensures
        ({
            let owner = trace[j].entries[query]->thread_id;
            let done = trace[j].complete(owner, query, result, dependencies);
            &&& owner == trace[i].entries[query]->thread_id
            &&& done.1 is Some
            &&& done.1->0.contains(waiter)
            &&& !done.0.waits.dom().contains(waiter)
            &&& done.0.entries[query] == (EntryView::Complete { result, dependencies })
        }),
{
    law_run_advances_entries(trace, i, j, query);
    let early = trace[i].entries[query]->waiters;
    let late = trace[j].entries[query]->waiters;
    let k = choose|k: int| 0 <= k < early.len() && early[k] == waiter;
    assert(early =~= late.subrange(0, early.len() as int));
    assert(late[k] == waiter);
}

/// The net effect of a rule that has run from start to end: the call chain
/// is as before, and the query is recorded once, as the last dependency of
/// the enclosing rule.
pub proof fn law_rule_records_itself(before: WorkerView, after: WorkerView, query: u64)
    requires
        ran_rule(before, after, query),
    ensures
        after.thread_id == before.thread_id,
        after.stack == before.stack,
        after.dependencies == before.dependencies.push(query),
{
    let inner = choose|inner: WorkerView|
        inner.thread_id == before.thread_id && inner.stack == before.begin_rule(query).stack
            && after == #[trigger] inner.end_rule(query, before.dependencies);
    assert(before.stack.push(query).drop_last() =~= before.stack);
}

/// Dependency recording: while the rule of `query` runs, the rules in
/// `nested` run on the same worker one after the other, each from start to
/// end, taking the worker through the states of `trace`. As the rule of
/// `query` ends, what it has recorded is exactly `nested`, in this order,
/// and the worker is as before the rule but for `query`, recorded once.
pub proof fn law_dependencies_recorded(
    start: WorkerView,
    query: u64,
    trace: Seq<WorkerView>,
    nested: Seq<u64>,
)
    requires
        trace.len() == nested.len() + 1,
        trace[0] == start.begin_rule(query),
        forall|k: int, n: int|
            0 <= k < nested.len() && n == k + 1 ==> ran_rule(
                #[trigger] trace[k],
                #[trigger] trace[n],
                nested[k],
            ),
    ensures
        trace.last().dependencies == nested,
        trace.last().end_rule(query, start.dependencies) == (WorkerView {
            thread_id: start.thread_id,
            stack: start.stack,
            dependencies: start.dependencies.push(query),
        }),
{
    assert forall|k: int| 0 <= k < trace.len() implies (#[trigger] trace[k]).stack
        == start.stack.push(query) && trace[k].thread_id == start.thread_id
        && trace[k].dependencies == nested.subrange(0, k) by {
        lemma_nested_prefix(start, query, trace, nested, k);
    }
    assert(nested.subrange(0, nested.len() as int) =~= nested);
    assert(start.stack.push(query).drop_last() =~= start.stack);
}

proof fn lemma_nested_prefix(
    start: WorkerView,
    query: u64,
    trace: Seq<WorkerView>,
    nested: Seq<u64>,
    k: int,
)
    requires
        trace.len() == nested.len() + 1,
        trace[0] == start.begin_rule(query),
        forall|k: int, n: int|
            0 <= k < nested.len() && n == k + 1 ==> ran_rule(
                #[trigger] trace[k],
                #[trigger] trace[n],
                nested[k],
            ),
        0 <= k < trace.len(),
    ensures
        trace[k].stack == start.stack.push(query),
        trace[k].thread_id == start.thread_id,
        trace[k].dependencies == nested.subrange(0, k),
    decreases k,
{
    if k == 0 {
        assert(nested.subrange(0, 0) =~= Seq::<u64>::empty());
    } else {
        lemma_nested_prefix(start, query, trace, nested, k - 1);
        assert(ran_rule(trace[k - 1], trace[k], nested[k - 1]));
        law_rule_records_itself(trace[k - 1], trace[k], nested[k - 1]);
        assert(nested.subrange(0, k) =~= nested.subrange(0, k - 1).push(nested[k - 1]));
    }
}

} // verus!
