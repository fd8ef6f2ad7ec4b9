//! What holds of the dispatcher over a whole run.

use crate::autoscale::pool::AutoscaledPool;
use crate::crawler::dispatch::{DeferredStart, Dispatcher, Pump, SlotState, Start, Turn};
use crate::retry_strategy::AttemptOverrides;
use crate::storage::Lease;
use crate::time::{Duration, Instant};
use vstd::multiset::Multiset;
use vstd::prelude::*;

verus! {

/// A run as it stands: the dispatcher, the candidate that is about to start, and the numbers of the
/// leases that were taken and of those that were settled.
pub struct Run {
    pub dispatcher: Dispatcher,
    pub candidate: Option<DeferredStart>,
    pub taken: Multiset<u64>,
    pub settled: Multiset<u64>,
}

/// What can happen in a run. A lease is settled where it leaves the dispatcher: with the attempt
/// that it was held for, whose outcome is then reported to the queue, or given up.
pub enum RunMove {
    /// A turn began.
    Begin { cancelled: bool, drain: bool, turn: Turn },
    /// A lease was fetched.
    Take { lease: Lease, carried: AttemptOverrides, now: Instant },
    /// An attempt to start was looked for.
    Look { pool: AutoscaledPool, pool_after: AutoscaledPool, now: Instant, pump: Pump },
    /// The candidate was started, or has to wait.
    Launch { wait: Option<Duration>, now: Instant, start: Option<Start> },
    /// An attempt ended.
    Release { slot: u64, state: Option<SlotState> },
    /// A waiting lease was renewed.
    Renew { sequence: u64 },
    /// The waiting leases were given up.
    AbandonWaiting { leases: Seq<Lease> },
    /// All leases were given up.
    AbandonAll { leases: Seq<Lease> },
}

/// The numbers of waiting leases.
pub open spec fn waiting_ids(entries: Seq<DeferredStart>) -> Seq<u64> {
    Seq::new(entries.len(), |i: int| entries[i].lease.lease_id@)
}

/// The numbers of the leases of running attempts.
pub open spec fn running_ids(slots: Seq<SlotState>) -> Seq<u64> {
    Seq::new(slots.len(), |i: int| slots[i].lease.lease_id@)
}

/// The numbers of leases.
pub open spec fn lease_ids(leases: Seq<Lease>) -> Seq<u64> {
    Seq::new(leases.len(), |i: int| leases[i].lease_id@)
}

impl Run {
    /// The numbers of the leases that are held.
    pub open spec fn held(self) -> Multiset<u64> {
        let kept = waiting_ids(self.dispatcher.deferred@).to_multiset().add(
            running_ids(self.dispatcher.slots@).to_multiset(),
        );
        match self.candidate {
            Some(entry) => kept.insert(entry.lease.lease_id@),
            None => kept,
        }
    }

    /// Nothing has happened.
    pub open spec fn is_new(self) -> bool {
        &&& self.dispatcher.deferred@.len() == 0
        &&& self.dispatcher.slots@.len() == 0
        &&& self.candidate is None
        &&& self.taken == Multiset::<u64>::empty()
        &&& self.settled == Multiset::<u64>::empty()
    }

    /// The run is draining, and no lease waits any more.
    pub open spec fn is_drained(self) -> bool {
        self.dispatcher.draining && self.dispatcher.deferred@.len() == 0 && self.candidate is None
    }
}

/// Whether a run goes from `before` to `after` by a move, where `desired` attempts may run at once.
/// Leases are fetched only where the dispatcher wants one, and a candidate is started before
/// anything else happens.
pub open spec fn moves(before: Run, by: RunMove, after: Run, desired: usize) -> bool {
    let (d, e) = (before.dispatcher, after.dispatcher);
    match by {
        RunMove::Begin { cancelled, drain, turn } => {
            &&& before.candidate is None
            &&& d.has_begun(cancelled, drain, turn, e)
            &&& after == (Run { dispatcher: e, ..before })
        },
        RunMove::Take { lease, carried, now } => {
            &&& before.candidate is None
            &&& !d.draining && d.slots@.len() < desired && d.deferred@.len() < d.deferred_cap
            &&& d.has_taken(lease, carried, now, e)
            &&& after == (Run {
                dispatcher: e,
                taken: before.taken.insert(lease.lease_id@),
                ..before
            })
        },
        RunMove::Look { pool, pool_after, now, pump } => {
            &&& before.candidate is None
            &&& d.has_pumped(pool, desired, now, pump, e, pool_after)
            &&& after == (Run {
                dispatcher: e,
                candidate: match pump {
                    Pump::Candidate(entry) => Some(entry),
                    _ => None,
                },
                ..before
            })
        },
        RunMove::Launch { wait, now, start } => {
            &&& before.candidate is Some
            &&& d.has_launched(before.candidate.unwrap(), wait, desired, now, start, e)
            &&& after == (Run { dispatcher: e, candidate: None, ..before })
        },
        RunMove::Release { slot, state } => {
            &&& before.candidate is None
            &&& d.has_released(slot, state, e)
            &&& after == (Run {
                dispatcher: e,
                settled: match state {
                    Some(held) => before.settled.insert(held.lease.lease_id@),
                    None => before.settled,
                },
                ..before
            })
        },
        RunMove::Renew { sequence } => {
            &&& before.candidate is None
            &&& d.has_renewed(sequence, e)
            &&& after == (Run { dispatcher: e, ..before })
        },
        RunMove::AbandonWaiting { leases } => {
            &&& before.candidate is None
            &&& d.has_abandoned_waiting(leases, e)
            &&& after == (Run {
                dispatcher: e,
                settled: before.settled.add(lease_ids(leases).to_multiset()),
                ..before
            })
        },
        RunMove::AbandonAll { leases } => {
            &&& before.candidate is None
            &&& d.has_abandoned_all(leases, e)
            &&& after == (Run {
                dispatcher: e,
                settled: before.settled.add(lease_ids(leases).to_multiset()),
                ..before
            })
        },
    }
}

/// Whether a run goes through `states` by the moves `by`.
pub open spec fn runs(states: Seq<Run>, by: Seq<RunMove>, desired: usize) -> bool {
    &&& states.len() == by.len() + 1
    &&& states[0].is_new()
    &&& forall|i: int|
        0 <= i < by.len() ==> moves(#[trigger] states[i], by[i], states[i + 1], desired)
}

/// Whether every lease that was taken is held or settled, once, and no more attempts run than are
/// desired.
pub open spec fn is_accounted(run: Run, desired: usize) -> bool {
    &&& run.taken == run.held().add(run.settled)
    &&& run.dispatcher.slots@.len() <= desired
    &&& run.candidate is Some ==> run.dispatcher.slots@.len() < desired
}

proof fn lemma_pushed(ids: Seq<u64>, id: u64)
    ensures
        ids.push(id).to_multiset() == ids.to_multiset().insert(id),
{
    broadcast use vstd::seq_lib::group_to_multiset_ensures;
    assert(ids.push(id).to_multiset() =~= ids.to_multiset().insert(id));
}

proof fn lemma_removed(ids: Seq<u64>, at: int)
    requires
        0 <= at < ids.len(),
    ensures
        ids.to_multiset() == ids.remove(at).to_multiset().insert(ids[at]),
{
    broadcast use vstd::seq_lib::group_to_multiset_ensures;
    assert(ids.to_multiset().contains(ids[at])) by {
        assert(ids.contains(ids[at]));
    }
    assert(ids.to_multiset() =~= ids.remove(at).to_multiset().insert(ids[at]));
}

proof fn lemma_joined(a: Seq<u64>, b: Seq<u64>)
    ensures
        (a + b).to_multiset() == a.to_multiset().add(b.to_multiset()),
    decreases b.len(),
{
    broadcast use vstd::seq_lib::group_to_multiset_ensures;
    if b.len() == 0 {
        assert(a + b =~= a);
        assert(b =~= Seq::<u64>::empty());
        assert(a.to_multiset() =~= a.to_multiset().add(b.to_multiset()));
    } else {
        let last = b.last();
        lemma_joined(a, b.drop_last());
        assert(a + b =~= (a + b.drop_last()).push(last));
        assert(b =~= b.drop_last().push(last));
        lemma_pushed(a + b.drop_last(), last);
        lemma_pushed(b.drop_last(), last);
        assert((a + b).to_multiset() =~= a.to_multiset().add(b.to_multiset()));
    }
}

proof fn lemma_none(ids: Seq<u64>)
    requires
        ids.len() == 0,
    ensures
        ids.to_multiset() == Multiset::<u64>::empty(),
{
    broadcast use vstd::seq_lib::group_to_multiset_ensures;
    assert(ids =~= Seq::<u64>::empty());
    assert(ids.to_multiset() =~= Multiset::<u64>::empty());
}

proof fn lemma_move(before: Run, by: RunMove, after: Run, desired: usize)
    requires
        is_accounted(before, desired),
        moves(before, by, after, desired),
    ensures
        is_accounted(after, desired),
{
    let (d, e) = (before.dispatcher, after.dispatcher);
    let (waiting, running) = (waiting_ids(d.deferred@), running_ids(d.slots@));
    match by {
        RunMove::Begin { .. } => {},
        RunMove::Take { lease, .. } => {
            assert(waiting_ids(e.deferred@) =~= waiting.push(lease.lease_id@));
            lemma_pushed(waiting, lease.lease_id@);
        },
        RunMove::Look { pool, now, pump, .. } => {
            match pump {
                Pump::Candidate(entry) => {
                    let i = choose|i: int| #[trigger]
                        d.comes_up(i, desired, now) && entry == (DeferredStart {
                            domain_reserved: true,
                            ..d.deferred@[i]
                        }) && e.deferred@ == d.deferred@.remove(i);
                    lemma_removed(waiting, i);
                    assert(waiting_ids(e.deferred@) =~= waiting.remove(i));
                },
                Pump::Again => {
                    let i = choose|i: int| #[trigger]
                        d.comes_up(i, desired, now) && e.deferred@ == d.deferred@.remove(i).push(
                            DeferredStart {
                                domain_reserved: true,
                                ready_at: crate::crawler::dispatch::host_slot(
                                    d.deferred@[i],
                                    pool,
                                    now,
                                ).unwrap(),
                                ..d.deferred@[i]
                            },
                        );
                    lemma_removed(waiting, i);
                    assert(waiting_ids(e.deferred@) =~= waiting.remove(i).push(waiting[i]));
                    lemma_pushed(waiting.remove(i), waiting[i]);
                },
                Pump::Stop => {},
            }
        },
        RunMove::Launch { wait, .. } => {
            let id = before.candidate.unwrap().lease.lease_id@;
            match wait {
                None => {
                    assert(running_ids(e.slots@) =~= running.push(id));
                    lemma_pushed(running, id);
                },
                Some(_) => {
                    assert(waiting_ids(e.deferred@) =~= waiting.push(id));
                    lemma_pushed(waiting, id);
                },
            }
        },
        RunMove::Release { slot, state } => {
            if let Some(held) = state {
                let i = choose|i: int|
                    {
                        &&& 0 <= i < d.slots@.len()
                        &&& #[trigger] d.slots@[i] == held
                        &&& e.slots@ == d.slots@.remove(i)
                    };
                lemma_removed(running, i);
                assert(running_ids(e.slots@) =~= running.remove(i));
            }
        },
        RunMove::Renew { .. } => {
            assert(waiting_ids(e.deferred@) =~= waiting);
        },
        RunMove::AbandonWaiting { leases } => {
            assert(lease_ids(leases) =~= waiting);
            lemma_none(waiting_ids(e.deferred@));
        },
        RunMove::AbandonAll { leases } => {
            assert(lease_ids(leases) =~= running + waiting);
            lemma_joined(running, waiting);
            lemma_none(waiting_ids(e.deferred@));
            lemma_none(running_ids(e.slots@));
        },
    }
    assert(after.taken =~= after.held().add(after.settled));
}

/// At every moment of a run every lease that was taken is held or settled, exactly once, and no more
/// attempts run than are desired.
pub proof fn leases_are_accounted_for(states: Seq<Run>, by: Seq<RunMove>, desired: usize, at: int)
    requires
        runs(states, by, desired),
        0 <= at < states.len(),
    ensures
        is_accounted(states[at], desired),
    decreases at,
{
    if at == 0 {
        lemma_none(waiting_ids(states[0].dispatcher.deferred@));
        lemma_none(running_ids(states[0].dispatcher.slots@));
        assert(states[0].taken =~= states[0].held().add(states[0].settled));
    } else {
        leases_are_accounted_for(states, by, desired, at - 1);
        assert(moves(states[at - 1], by[at - 1], states[at - 1 + 1], desired));
        lemma_move(states[at - 1], by[at - 1], states[at], desired);
    }
}

/// Where nothing waits and nothing runs, every lease that was taken has been settled, exactly once.
/// So it is at the end of a run: when it is idle, and when it has been aborted.
pub proof fn leases_are_settled_once(states: Seq<Run>, by: Seq<RunMove>, desired: usize, at: int)
    requires
        runs(states, by, desired),
        0 <= at < states.len(),
        states[at].dispatcher.slots@.len() == 0,
        states[at].dispatcher.deferred@.len() == 0,
        states[at].candidate is None,
    ensures
        states[at].settled == states[at].taken,
{
    leases_are_accounted_for(states, by, desired, at);
    lemma_none(waiting_ids(states[at].dispatcher.deferred@));
    lemma_none(running_ids(states[at].dispatcher.slots@));
    assert(states[at].settled =~= states[at].taken);
}

/// Giving up all leases leaves none behind, and settles each once.
pub proof fn an_abort_settles_all(states: Seq<Run>, by: Seq<RunMove>, desired: usize, at: int)
    requires
        runs(states, by, desired),
        0 <= at < by.len(),
        by[at] is AbandonAll,
    ensures
        states[at + 1].settled == states[at + 1].taken,
{
    assert(moves(states[at], by[at], states[at + 1], desired));
    leases_are_settled_once(states, by, desired, at + 1);
}

/// Once a run is draining and the waiting leases have been given up, no lease is taken and no attempt
/// starts any more.
pub proof fn a_drained_run_starts_nothing(
    states: Seq<Run>,
    by: Seq<RunMove>,
    desired: usize,
    drained: int,
    later: int,
)
    requires
        runs(states, by, desired),
        0 <= drained <= later < by.len(),
        states[drained].is_drained(),
    ensures
        states[later].is_drained(),
        !(by[later] is Take),
        !(by[later] is Launch),
    decreases later,
{
    if drained < later {
        a_drained_run_starts_nothing(states, by, desired, drained, later - 1);
        let (before, after) = (states[later - 1], states[later]);
        assert(moves(before, by[later - 1], states[later - 1 + 1], desired));
        if let RunMove::Look { pump, now, .. } = by[later - 1] {
            assert forall|i: int| !#[trigger] before.dispatcher.comes_up(i, desired, now) by {}
        }
    }
    assert(moves(states[later], by[later], states[later + 1], desired));
}

} // verus!
