//! The dispatcher's bookkeeping: leases that wait, attempts that run.

use crate::autoscale::pool::AutoscaledPool;
use crate::retry_strategy::AttemptOverrides;
use crate::storage::Lease;
use crate::time::{Duration, Instant, MAX_INSTANT_NANOS};
use vstd::prelude::*;

verus! {

/// At least so many leases may wait.
pub const MIN_DEFERRED_CAPACITY: usize = 32;

/// A waiting lease is renewed so long before it expires: thirty seconds.
pub const DEFERRED_LEASE_RENEWAL_MARGIN_NANOS: u128 = 30_000_000_000;

/// A waiting lease is extended by three minutes.
pub const DEFERRED_LEASE_EXTENSION_NANOS: u128 = 180_000_000_000;

/// A lease that waits for its attempt to start.
#[derive(Debug)]
pub struct DeferredStart {
    pub lease: Lease,
    pub carried: AttemptOverrides,
    /// Whether a slot of its host has been reserved for it.
    pub domain_reserved: bool,
    /// When the lease is to be renewed.
    pub renew_at: Instant,
    /// When the attempt may start.
    pub ready_at: Instant,
    /// The order in which leases came.
    pub sequence: u64,
}

/// A running attempt.
#[derive(Debug)]
pub struct SlotState {
    pub slot: u64,
    pub lease: Lease,
    pub started: Instant,
}

/// An attempt that is to be started in a slot.
#[derive(Debug)]
pub struct Start {
    pub slot: u64,
    pub carried: AttemptOverrides,
}

/// Whether `a` is ready before `b`, or came first where both are ready at once.
pub open spec fn comes_first(a: DeferredStart, b: DeferredStart) -> bool {
    a.ready_at.nanos < b.ready_at.nanos || (a.ready_at.nanos == b.ready_at.nanos && a.sequence
        <= b.sequence)
}

/// Whether entry number `at` comes before all others.
pub open spec fn is_earliest(entries: Seq<DeferredStart>, at: int) -> bool {
    0 <= at < entries.len() && forall|k: int|
        0 <= k < entries.len() ==> comes_first(entries[at], #[trigger] entries[k])
}

/// The dispatcher's bookkeeping.
#[derive(Debug)]
pub struct Dispatcher {
    pub deferred: Vec<DeferredStart>,
    pub slots: Vec<SlotState>,
    pub deferred_cap: usize,
    pub next_slot: u64,
    pub next_deferred: u64,
    pub draining: bool,
}

/// What a gate decided on a waiting lease.
#[derive(Debug)]
pub enum Gate {
    /// It may go on.
    Open(DeferredStart),
    /// It waits again.
    Deferred,
}

/// What an idle dispatcher does.
#[derive(Clone, Copy, Debug, PartialEq, Eq, Structural)]
pub enum IdleAction {
    /// The crawl is over.
    Exit,
    /// There is work in the queue.
    FetchAgain,
    /// Something has to happen first.
    Wait,
}

/// How a turn of the dispatcher begins.
#[derive(Clone, Copy, Debug, PartialEq, Eq, Structural)]
pub enum Turn {
    /// The crawl is cancelled: give everything up.
    Abort,
    /// The crawl is being drained: give up what waits.
    AbandonDeferred,
    /// Renew leases, start attempts and fetch more.
    Proceed,
}

/// What the dispatcher found when it looked for an attempt to start.
#[derive(Debug)]
pub enum Pump {
    /// A lease that may start if the budget of starts allows it.
    Candidate(DeferredStart),
    /// A lease whose host has to be waited for; there may be others.
    Again,
    /// Nothing can start now.
    Stop,
}

/// When a waiting lease is renewed first: a margin before it expires, or at once.
pub open spec fn first_renewal(expires_at: Instant, now: Instant) -> Instant {
    Instant {
        nanos: if expires_at.nanos >= now.nanos + DEFERRED_LEASE_RENEWAL_MARGIN_NANOS {
            (expires_at.nanos - DEFERRED_LEASE_RENEWAL_MARGIN_NANOS) as u128
        } else {
            now.nanos
        },
    }
}

/// Whether some waiting lease is renewed at `at`.
pub open spec fn renews_at(entries: Seq<DeferredStart>, at: Instant) -> bool {
    exists|k: int| 0 <= k < entries.len() && (#[trigger] entries[k]).renew_at == at
}

/// Whether no waiting lease is renewed before `at`.
pub open spec fn no_renewal_before(entries: Seq<DeferredStart>, at: Instant) -> bool {
    forall|k: int| 0 <= k < entries.len() ==> at.nanos <= (#[trigger] entries[k]).renew_at.nanos
}

/// Whether `wake` is when the dispatcher has to look at the waiting leases again: the start of the
/// earliest one, if that lies ahead, or the first renewal, whichever comes first, and never now or
/// in the past.
pub open spec fn is_wake(entries: Seq<DeferredStart>, now: Instant, wake: Option<Instant>) -> bool {
    exists|ready: Option<Instant>, renewal: Option<Instant>|
        #![trigger earliest_ready(entries, now, ready), first_renewal_of(entries, renewal)]
        earliest_ready(entries, now, ready) && first_renewal_of(entries, renewal) && wake == ahead(
            sooner(ready, renewal),
            now,
        )
}

/// Whether `ready` is when the earliest lease may start, where that lies ahead.
pub open spec fn earliest_ready(
    entries: Seq<DeferredStart>,
    now: Instant,
    ready: Option<Instant>,
) -> bool {
    match ready {
        Some(at) => at.nanos > now.nanos && exists|i: int| #[trigger]
            is_earliest(entries, i) && entries[i].ready_at == at,
        None => entries.len() == 0 || exists|i: int| #[trigger]
            is_earliest(entries, i) && entries[i].ready_at.nanos <= now.nanos,
    }
}

/// Whether `renewal` is the first renewal of all.
pub open spec fn first_renewal_of(entries: Seq<DeferredStart>, renewal: Option<Instant>) -> bool {
    match renewal {
        Some(at) => renews_at(entries, at) && no_renewal_before(entries, at),
        None => entries.len() == 0,
    }
}

/// The earlier of two points in time, as far as they are there.
pub open spec fn sooner(a: Option<Instant>, b: Option<Instant>) -> Option<Instant> {
    match (a, b) {
        (Some(x), Some(y)) => if x.nanos <= y.nanos {
            Some(x)
        } else {
            Some(y)
        },
        (Some(x), None) => Some(x),
        (None, y) => y,
    }
}

/// A point in time that lies ahead.
pub open spec fn ahead(at: Option<Instant>, now: Instant) -> Option<Instant> {
    match at {
        Some(x) => if x.nanos > now.nanos {
            Some(x)
        } else {
            None
        },
        None => None,
    }
}

/// The host at which a waiting lease still has to reserve a slot, if there is one.
pub open spec fn unreserved_host(entry: DeferredStart) -> Option<Seq<char>> {
    if entry.domain_reserved {
        None
    } else {
        entry.lease.request.url@.host
    }
}

/// Whether the host slot that a waiting lease has to reserve can be represented.
pub open spec fn host_fits(entry: DeferredStart, pool: AutoscaledPool, now: Instant) -> bool {
    match unreserved_host(entry) {
        Some(host) => pool.domain_limiter.state_of(host).slot(now).can_add(
            pool.domain_limiter.state_of(host).delay(pool.domain_limiter.same_domain_delay),
        ),
        None => true,
    }
}

/// When a lease that comes up at `now` gets its host slot, where that is later.
pub open spec fn host_slot(entry: DeferredStart, pool: AutoscaledPool, now: Instant) -> Option<
    Instant,
> {
    match unreserved_host(entry) {
        Some(host) => {
            let slot = pool.domain_limiter.state_of(host).slot(now);
            if slot.nanos == now.nanos {
                None
            } else {
                Some(slot)
            }
        },
        None => None,
    }
}

/// Whether a lease that comes up at `now` reserves its host slot, and the pool changes in nothing
/// else.
pub open spec fn host_is_reserved(
    entry: DeferredStart,
    before: AutoscaledPool,
    after: AutoscaledPool,
    now: Instant,
) -> bool {
    match unreserved_host(entry) {
        Some(host) => {
            &&& after == (AutoscaledPool { domain_limiter: after.domain_limiter, ..before })
            &&& after.domain_limiter.same_domain_delay == before.domain_limiter.same_domain_delay
            &&& after.domain_limiter.states@ == before.domain_limiter.states@.insert(
                host,
                before.domain_limiter.state_of(host).reserved(
                    before.domain_limiter.same_domain_delay,
                    now,
                ),
            )
        },
        None => after == before,
    }
}

/// The entries whose renewal is due.
pub open spec fn due_of(entries: Seq<DeferredStart>, now: Instant) -> Seq<u64>
    decreases entries.len(),
{
    if entries.len() == 0 {
        seq![]
    } else if entries.last().renew_at.nanos <= now.nanos {
        due_of(entries.drop_last(), now).push(entries.last().sequence)
    } else {
        due_of(entries.drop_last(), now)
    }
}

/// The leases of waiting entries.
pub open spec fn leases_of(entries: Seq<DeferredStart>) -> Seq<Lease> {
    Seq::new(entries.len(), |i: int| entries[i].lease)
}

/// The leases of running attempts.
pub open spec fn running_of(slots: Seq<SlotState>) -> Seq<Lease> {
    Seq::new(slots.len(), |i: int| slots[i].lease)
}

impl Dispatcher {
    /// How many leases are held: those that wait and those that run.
    pub open spec fn held(self) -> nat {
        self.deferred@.len() + self.slots@.len()
    }

    /// Whether the waiting lease at `i` is the next to start: there is a free slot, and it is the
    /// earliest, and its time has come.
    pub open spec fn comes_up(self, i: int, desired: usize, now: Instant) -> bool {
        &&& self.slots@.len() < desired
        &&& is_earliest(self.deferred@, i)
        &&& self.deferred@[i].ready_at.nanos <= now.nanos
    }

    /// Whether the host slot of the lease that comes up can be represented.
    pub open spec fn host_slot_fits(
        self,
        pool: AutoscaledPool,
        desired: usize,
        now: Instant,
    ) -> bool {
        forall|i: int| #[trigger]
            self.comes_up(i, desired, now) ==> host_fits(self.deferred@[i], pool, now)
    }

    /// A dispatcher without leases, for a pool that runs up to `max_concurrency` attempts.
    pub fn new(max_concurrency: usize) -> (r: Dispatcher)
        ensures
            r.deferred@.len() == 0,
            r.slots@.len() == 0,
            r.deferred_cap == if max_concurrency >= MIN_DEFERRED_CAPACITY {
                max_concurrency
            } else {
                MIN_DEFERRED_CAPACITY
            },
            r.deferred_cap >= 32,
            max_concurrency <= 32 ==> r.deferred_cap == 32,
            r.next_slot == 0,
            r.next_deferred == 0,
            !r.draining,
    {
        Dispatcher {
            deferred: Vec::new(),
            slots: Vec::new(),
            deferred_cap: if max_concurrency >= MIN_DEFERRED_CAPACITY {
                max_concurrency
            } else {
                MIN_DEFERRED_CAPACITY
            },
            next_slot: 0,
            next_deferred: 0,
            draining: false,
        }
    }

    /// Whether there is a free slot and room to wait, and the crawl is not being drained.
    pub open spec fn has_room(self, desired: usize) -> bool {
        !self.draining && self.slots@.len() < desired && self.deferred@.len() < self.deferred_cap
    }

    /// Whether another lease is to be fetched: there is a free slot and room to wait, and the crawl
    /// is not being drained.
    pub fn wants_fetch(&self, desired: usize) -> (r: bool)
        ensures
            r == self.has_room(desired),
    {
        !self.draining && self.slots.len() < desired && self.deferred.len() < self.deferred_cap
    }

    /// Whether a turn begins with `turn`, and leaves the dispatcher as `after`.
    pub open spec fn has_begun(
        self,
        cancelled: bool,
        drain: bool,
        turn: Turn,
        after: Dispatcher,
    ) -> bool {
        &&& after == (Dispatcher {
            draining: self.draining || (drain && !cancelled),
            ..self
        })
        &&& turn == if cancelled {
            Turn::Abort
        } else if after.draining && self.deferred@.len() > 0 {
            Turn::AbandonDeferred
        } else {
            Turn::Proceed
        }
    }

    /// Begins a turn of the dispatcher, given whether the crawl is cancelled or to be drained.
    pub fn begin_turn(&mut self, cancelled: bool, drain: bool) -> (r: Turn)
        ensures
            old(self).has_begun(cancelled, drain, r, *final(self)),
    {
        if cancelled {
            return Turn::Abort;
        }
        if drain {
            self.draining = true;
        }
        if self.draining && self.deferred.len() > 0 {
            Turn::AbandonDeferred
        } else {
            Turn::Proceed
        }
    }

    /// Whether the host slot of the lease that comes up can be represented.
    pub fn can_pump(&self, pool: &AutoscaledPool, desired: usize, now: Instant) -> (r: bool)
        requires
            pool.wf(),
        ensures
            r == self.host_slot_fits(*pool, desired, now),
    {
        if self.slots.len() >= desired {
            return true;
        }
        let best: usize = match self.earliest() {
            Some(best) => best,
            None => {
                return true;
            },
        };
        if self.deferred[best].ready_at.nanos > now.nanos {
            return true;
        }
        let mut i: usize = 0;
        while i < self.deferred.len()
            invariant
                i <= self.deferred@.len(),
                pool.wf(),
                self.slots@.len() < desired,
                is_earliest(self.deferred@, best as int),
                self.deferred@[best as int].ready_at.nanos <= now.nanos,
                forall|k: int|
                    0 <= k < i && #[trigger] self.comes_up(k, desired, now) ==> host_fits(
                        self.deferred@[k],
                        *pool,
                        now,
                    ),
            decreases self.deferred@.len() - i,
        {
            let entry: &DeferredStart = &self.deferred[i];
            let first: &DeferredStart = &self.deferred[best];
            let comes: bool = entry.ready_at.nanos == first.ready_at.nanos && entry.sequence
                == first.sequence;
            assert(comes == self.comes_up(i as int, desired, now)) by {
                if comes {
                    assert forall|k: int| 0 <= k < self.deferred@.len() implies comes_first(
                        self.deferred@[i as int],
                        #[trigger] self.deferred@[k],
                    ) by {
                        assert(comes_first(self.deferred@[best as int], self.deferred@[k]));
                    }
                } else if self.comes_up(i as int, desired, now) {
                    assert(comes_first(self.deferred@[best as int], self.deferred@[i as int]));
                    assert(comes_first(self.deferred@[i as int], self.deferred@[best as int]));
                }
            }
            if comes && !entry.domain_reserved {
                if let Some(host) = entry.lease.request.url.host_str() {
                    if !pool.domain_limiter.can_reserve(host, now) {
                        assert(!host_fits(self.deferred@[i as int], *pool, now));
                        return false;
                    }
                }
            }
            i = i + 1;
        }
        true
    }

    /// Whether looking for an attempt gives `pump`, and leaves dispatcher and pool as `after` and `pool_after`.
    pub open spec fn has_pumped(
        self,
        pool: AutoscaledPool,
        desired: usize,
        now: Instant,
        pump: Pump,
        after: Dispatcher,
        pool_after: AutoscaledPool,
    ) -> bool {
        &&& after == (Dispatcher { deferred: after.deferred, ..self })
        &&& match pump {
            Pump::Candidate(entry) => {
                &&& after.held() + 1 == self.held()
                &&& exists|i: int| #[trigger]
                    self.comes_up(i, desired, now) && host_slot(
                        self.deferred@[i],
                        pool,
                        now,
                    ) is None && host_is_reserved(
                        self.deferred@[i],
                        pool,
                        pool_after,
                        now,
                    ) && entry == (DeferredStart {
                        domain_reserved: true,
                        ..self.deferred@[i]
                    }) && after.deferred@ == self.deferred@.remove(i)
            },
            Pump::Again => {
                &&& after.held() == self.held()
                &&& exists|i: int| #[trigger]
                    self.comes_up(i, desired, now) && host_slot(
                        self.deferred@[i],
                        pool,
                        now,
                    ) is Some && host_is_reserved(
                        self.deferred@[i],
                        pool,
                        pool_after,
                        now,
                    ) && after.deferred@ == self.deferred@.remove(i).push(
                        DeferredStart {
                            domain_reserved: true,
                            ready_at: host_slot(
                                self.deferred@[i],
                                pool,
                                now,
                            ).unwrap(),
                            ..self.deferred@[i]
                        },
                    )
            },
            Pump::Stop => {
                &&& after.deferred@ == self.deferred@
                &&& pool_after == pool
                &&& forall|i: int| !#[trigger] self.comes_up(i, desired, now)
            },
        }
    }

    /// Looks for an attempt to start: takes the earliest lease whose time has come, if there is a
    /// free slot, and reserves its host once.
    pub fn pump(&mut self, pool: &mut AutoscaledPool, desired: usize, now: Instant) -> (r: Pump)
        requires
            old(pool).wf(),
            now.wf(),
            old(self).host_slot_fits(*old(pool), desired, now),
        ensures
            final(pool).wf(),
            old(self).has_pumped(*old(pool), desired, now, r, *final(self), *final(pool)),
    {
        match self.take_ready(desired, now) {
            None => Pump::Stop,
            Some(entry) => {
                proof {
                    let i = choose|i: int| #[trigger]
                        is_earliest(old(self).deferred@, i) && entry == old(self).deferred@[i]
                            && self.deferred@ == old(self).deferred@.remove(i);
                    assert(old(self).comes_up(i, desired, now));
                }
                match self.host_gate(entry, pool, now) {
                    Gate::Open(entry) => Pump::Candidate(entry),
                    Gate::Deferred => Pump::Again,
                }
            },
        }
    }

    /// Whether starting a candidate gives `start`, and leaves the dispatcher as `after`.
    pub open spec fn has_launched(
        self,
        entry: DeferredStart,
        wait: Option<Duration>,
        desired: usize,
        now: Instant,
        start: Option<Start>,
        after: Dispatcher,
    ) -> bool {
        &&& after.held() == self.held() + 1
        &&& after.slots@.len() <= desired
        &&& match wait {
            None => {
                &&& start is Some
                &&& start.unwrap().slot == self.next_slot
                &&& start.unwrap().carried == entry.carried
                &&& after.slots@ == self.slots@.push(
                    SlotState { slot: self.next_slot, lease: entry.lease, started: now },
                )
                &&& after == (Dispatcher {
                    slots: after.slots,
                    next_slot: self.next_slot.wrapping_add(1),
                    ..self
                })
            },
            Some(w) => {
                &&& start is None
                &&& after.deferred@ == self.deferred@.push(
                    DeferredStart { ready_at: now.plus(w), ..entry },
                )
                &&& after == (Dispatcher {
                    deferred: after.deferred,
                    ..self
                })
            },
        }
    }

    /// Starts a candidate, unless the budget of starts makes it wait. No more attempts run than are
    /// desired.
    pub fn launch(
        &mut self,
        entry: DeferredStart,
        wait: Option<Duration>,
        desired: usize,
        now: Instant,
    ) -> (r: Option<Start>)
        requires
            old(self).slots@.len() < desired,
            wait is Some ==> now.can_add(wait.unwrap()),
        ensures
            old(self).has_launched(entry, wait, desired, now, r, *final(self)),
    {
        match self.token_gate(entry, wait, now) {
            Gate::Open(entry) => Some(self.start(entry, now)),
            Gate::Deferred => None,
        }
    }

    /// Whether `after` is the dispatcher once it has taken a lease.
    pub open spec fn has_taken(
        self,
        lease: Lease,
        carried: AttemptOverrides,
        now: Instant,
        after: Dispatcher,
    ) -> bool {
        &&& after.deferred@ == self.deferred@.push(
            DeferredStart {
                lease,
                carried,
                domain_reserved: false,
                renew_at: first_renewal(lease.expires_at, now),
                ready_at: match carried.backoff {
                    Some(backoff) => now.plus(backoff),
                    None => now,
                },
                sequence: self.next_deferred,
            },
        )
        &&& after.held() == self.held() + 1
        &&& after == (Dispatcher {
            deferred: after.deferred,
            next_deferred: self.next_deferred.wrapping_add(1),
            ..self
        })
    }

    /// Takes a fetched lease, with what was set for its attempt.
    pub fn offer(&mut self, lease: Lease, carried: AttemptOverrides, now: Instant)
        requires
            now.wf(),
            carried.backoff is Some ==> now.can_add(carried.backoff.unwrap()),
            lease.expires_at.wf(),
        ensures
            old(self).has_taken(lease, carried, now, *final(self)),
    {
        let sequence: u64 = self.next_deferred;
        self.next_deferred = sequence.wrapping_add(1);
        let ready_at: Instant = match carried.backoff {
            Some(backoff) => now.add_span(backoff),
            None => now,
        };
        let margin: Duration = Duration { nanos: DEFERRED_LEASE_RENEWAL_MARGIN_NANOS };
        let renew_in: Duration = lease.expires_at.saturating_since(now).saturating_sub(margin);
        let renew_at: Instant = now.add_span(renew_in);
        self.deferred.push(
            DeferredStart { lease, carried, domain_reserved: false, renew_at, ready_at, sequence },
        );
    }

    fn earliest(&self) -> (r: Option<usize>)
        ensures
            match r {
                Some(i) => is_earliest(self.deferred@, i as int),
                None => self.deferred@.len() == 0,
            },
    {
        if self.deferred.len() == 0 {
            return None;
        }
        let mut best: usize = 0;
        let mut i: usize = 1;
        while i < self.deferred.len()
            invariant
                0 < i <= self.deferred@.len(),
                best < i,
                forall|k: int|
                    0 <= k < i ==> comes_first(
                        self.deferred@[best as int],
                        #[trigger] self.deferred@[k],
                    ),
            decreases self.deferred@.len() - i,
        {
            let a: &DeferredStart = &self.deferred[i];
            let b: &DeferredStart = &self.deferred[best];
            if a.ready_at.nanos < b.ready_at.nanos || (a.ready_at.nanos == b.ready_at.nanos
                && a.sequence < b.sequence) {
                best = i;
            }
            i = i + 1;
        }
        Some(best)
    }

    /// Takes the earliest waiting lease, if there is a free slot and its time has come.
    pub fn take_ready(&mut self, desired: usize, now: Instant) -> (r: Option<DeferredStart>)
        ensures
            *final(self) == (Dispatcher { deferred: final(self).deferred, ..*old(self) }),
            match r {
                Some(entry) => {
                    &&& old(self).slots@.len() < desired
                    &&& entry.ready_at.nanos <= now.nanos
                    &&& final(self).held() + 1 == old(self).held()
                    &&& exists|i: int| #[trigger]
                        is_earliest(old(self).deferred@, i) && entry == old(self).deferred@[i]
                            && final(self).deferred@ == old(self).deferred@.remove(i)
                },
                None => {
                    &&& final(self).deferred@ == old(self).deferred@
                    &&& old(self).slots@.len() >= desired || forall|k: int|
                        0 <= k < old(self).deferred@.len() ==> (#[trigger] old(
                            self).deferred@[k]).ready_at.nanos > now.nanos
                },
            },
    {
        if self.slots.len() >= desired {
            return None;
        }
        match self.earliest() {
            None => None,
            Some(i) => {
                if self.deferred[i].ready_at.nanos > now.nanos {
                    return None;
                }
                Some(self.deferred.remove(i))
            },
        }
    }

    /// Reserves a slot of the lease's host, once. Where the host has to be waited for, the lease
    /// waits again, and starts without another reservation.
    pub fn host_gate(
        &mut self,
        entry: DeferredStart,
        pool: &mut AutoscaledPool,
        now: Instant,
    ) -> (r: Gate)
        requires
            old(pool).wf(),
            now.wf(),
            host_fits(entry, *old(pool), now),
        ensures
            final(pool).wf(),
            *final(self) == (Dispatcher { deferred: final(self).deferred, ..*old(self) }),
            host_is_reserved(entry, *old(pool), *final(pool), now),
            match host_slot(entry, *old(pool), now) {
                None => {
                    &&& r == Gate::Open(DeferredStart { domain_reserved: true, ..entry })
                    &&& final(self).deferred@ == old(self).deferred@
                },
                Some(slot) => {
                    &&& r is Deferred
                    &&& final(self).deferred@ == old(self).deferred@.push(
                        DeferredStart { domain_reserved: true, ready_at: slot, ..entry },
                    )
                },
            },
    {
        let mut entry: DeferredStart = entry;
        if !entry.domain_reserved {
            entry.domain_reserved = true;
            let wait: Duration = match entry.lease.request.url.host_str() {
                Some(host) => pool.domain_slot_wait(host, now),
                None => Duration { nanos: 0 },
            };
            if !wait.is_zero() {
                entry.ready_at = Instant { nanos: now.nanos + wait.nanos };
                self.deferred.push(entry);
                return Gate::Deferred;
            }
        }
        Gate::Open(entry)
    }

    /// Lets a lease through the budget of starts: `wait` is how long the next start has to wait, if
    /// it has to.
    pub fn token_gate(
        &mut self,
        entry: DeferredStart,
        wait: Option<Duration>,
        now: Instant,
    ) -> (r: Gate)
        requires
            wait is Some ==> now.can_add(wait.unwrap()),
        ensures
            *final(self) == (Dispatcher { deferred: final(self).deferred, ..*old(self) }),
            match wait {
                None => r == Gate::Open(entry) && *final(self) == *old(self),
                Some(w) => r is Deferred && final(self).deferred@ == old(self).deferred@.push(
                    DeferredStart { ready_at: now.plus(w), ..entry },
                ),
            },
    {
        match wait {
            None => Gate::Open(entry),
            Some(w) => {
                let mut entry: DeferredStart = entry;
                entry.ready_at = now.add_span(w);
                self.deferred.push(entry);
                Gate::Deferred
            },
        }
    }

    /// Gives a lease a slot.
    pub fn start(&mut self, entry: DeferredStart, started: Instant) -> (r: Start)
        ensures
            r.slot == old(self).next_slot,
            r.carried == entry.carried,
            final(self).slots@ == old(self).slots@.push(
                SlotState { slot: old(self).next_slot, lease: entry.lease, started },
            ),
            *final(self) == (Dispatcher {
                slots: final(self).slots,
                next_slot: old(self).next_slot.wrapping_add(1),
                ..*old(self)
            }),
    {
        let slot: u64 = self.next_slot;
        self.next_slot = slot.wrapping_add(1);
        self.slots.push(SlotState { slot, lease: entry.lease, started });
        Start { slot, carried: entry.carried }
    }

    /// Whether a slot is given up as `state`, and leaves the dispatcher as `after`.
    pub open spec fn has_released(
        self,
        slot: u64,
        state: Option<SlotState>,
        after: Dispatcher,
    ) -> bool {
        &&& state is Some ==> after.held() + 1 == self.held()
        &&& after == (Dispatcher { slots: after.slots, ..self })
        &&& match state {
            Some(held) => exists|i: int|
                {
                    &&& 0 <= i < self.slots@.len()
                    &&& #[trigger] self.slots@[i] == held
                    &&& held.slot == slot
                    &&& forall|k: int|
                        0 <= k < i ==> (#[trigger] self.slots@[k]).slot != slot
                    &&& after.slots@ == self.slots@.remove(i)
                },
            None => after.slots@ == self.slots@ && forall|k: int|
                0 <= k < self.slots@.len() ==> (#[trigger] self.slots@[k]).slot
                    != slot,
        }
    }

    /// Takes back the lease of an attempt that has ended.
    pub fn release(&mut self, slot: u64) -> (r: Option<SlotState>)
        ensures
            old(self).has_released(slot, r, *final(self)),
    {
        let mut i: usize = 0;
        while i < self.slots.len()
            invariant
                i <= self.slots@.len(),
                *self == *old(self),
                forall|k: int| 0 <= k < i ==> (#[trigger] self.slots@[k]).slot != slot,
            decreases self.slots@.len() - i,
        {
            if self.slots[i].slot == slot {
                return Some(self.slots.remove(i));
            }
            i = i + 1;
        }
        None
    }

    /// When the dispatcher has to look at the waiting leases again.
    ///
    /// A lease whose time has come may only be waiting for a slot, so it wakes nothing.
    pub fn next_wake(&self, now: Instant) -> (r: Option<Instant>)
        ensures
            is_wake(self.deferred@, now, r),
            r is Some ==> r.unwrap().nanos > now.nanos,
    {
        let ready: Option<Instant> = match self.earliest() {
            Some(i) => if self.deferred[i].ready_at.nanos > now.nanos {
                Some(self.deferred[i].ready_at)
            } else {
                None
            },
            None => None,
        };
        assert(earliest_ready(self.deferred@, now, ready));
        let mut renewal: Option<Instant> = None;
        let mut i: usize = 0;
        while i < self.deferred.len()
            invariant
                i <= self.deferred@.len(),
                match renewal {
                    Some(at) => {
                        &&& exists|k: int|
                            0 <= k < i && (#[trigger] self.deferred@[k]).renew_at == at
                        &&& forall|k: int|
                            0 <= k < i ==> at.nanos <= (#[trigger] self.deferred@[k]).renew_at.nanos
                    },
                    None => i == 0,
                },
            decreases self.deferred@.len() - i,
        {
            let at: Instant = self.deferred[i].renew_at;
            assert(self.deferred@[i as int].renew_at == at);
            renewal = match renewal {
                Some(best) => if at.nanos < best.nanos {
                    Some(at)
                } else {
                    Some(best)
                },
                None => Some(at),
            };
            i = i + 1;
        }
        assert(first_renewal_of(self.deferred@, renewal));
        let soonest: Option<Instant> = match (ready, renewal) {
            (Some(a), Some(b)) => if a.nanos <= b.nanos {
                Some(a)
            } else {
                Some(b)
            },
            (Some(a), None) => Some(a),
            (None, b) => b,
        };
        match soonest {
            Some(at) => if at.nanos > now.nanos {
                Some(at)
            } else {
                None
            },
            None => None,
        }
    }

    /// The waiting leases that are to be renewed now.
    pub fn due_renewals(&self, now: Instant) -> (r: Vec<u64>)
        ensures
            r@ == due_of(self.deferred@, now),
    {
        let mut out: Vec<u64> = Vec::new();
        let mut i: usize = 0;
        assert(self.deferred@.subrange(0, 0) =~= seq![]);
        while i < self.deferred.len()
            invariant
                i <= self.deferred@.len(),
                out@ == due_of(self.deferred@.subrange(0, i as int), now),
            decreases self.deferred@.len() - i,
        {
            assert(self.deferred@.subrange(0, i + 1).drop_last() =~= self.deferred@.subrange(
                0,
                i as int,
            ));
            if self.deferred[i].renew_at.nanos <= now.nanos {
                out.push(self.deferred[i].sequence);
            }
            i = i + 1;
        }
        assert(self.deferred@.subrange(0, self.deferred@.len() as int) =~= self.deferred@);
        out
    }

    /// Whether the deadlines of a waiting lease can be extended.
    pub open spec fn can_extend(self, sequence: u64) -> bool {
        forall|k: int|
            0 <= k < self.deferred@.len() && (#[trigger] self.deferred@[k]).sequence == sequence
                ==> self.deferred@[k].renew_at.nanos + DEFERRED_LEASE_EXTENSION_NANOS
                <= MAX_INSTANT_NANOS && self.deferred@[k].lease.expires_at.nanos
                + DEFERRED_LEASE_EXTENSION_NANOS <= MAX_INSTANT_NANOS
    }

    /// Whether `after` is the dispatcher once a waiting lease has been renewed.
    pub open spec fn has_renewed(
        self,
        sequence: u64,
        after: Dispatcher,
    ) -> bool {
        &&& after == (Dispatcher { deferred: after.deferred, ..self })
        &&& after.deferred@.len() == self.deferred@.len()
        &&& forall|k: int|
            0 <= k < self.deferred@.len() ==> #[trigger] after.deferred@[k]
                == if self.deferred@[k].sequence == sequence {
                extended(self.deferred@[k])
            } else {
                self.deferred@[k]
            }
    }

    /// Records that a waiting lease has been renewed.
    pub fn renewed(&mut self, sequence: u64)
        requires
            old(self).can_extend(sequence),
        ensures
            old(self).has_renewed(sequence, *final(self)),
    {
        let mut entries: Vec<DeferredStart> = Vec::new();
        std::mem::swap(&mut self.deferred, &mut entries);
        let ghost all = entries@;
        let ghost mut at: int = 0;
        let mut out: Vec<DeferredStart> = Vec::new();
        for entry in iter: entries
            invariant
                iter.seq() == all,
                at == iter.index(),
                out@.len() == at,
                all == old(self).deferred@,
                old(self).can_extend(sequence),
                forall|k: int|
                    0 <= k < at ==> #[trigger] out@[k] == if all[k].sequence == sequence {
                        extended(all[k])
                    } else {
                        all[k]
                    },
        {
            let mut entry: DeferredStart = entry;
            proof {
                assert(entry == all[at]);
                assert(old(self).deferred@[at] == all[at]);
            }
            if entry.sequence == sequence {
                entry.lease.expires_at = Instant {
                    nanos: entry.lease.expires_at.nanos + DEFERRED_LEASE_EXTENSION_NANOS,
                };
                entry.renew_at = Instant {
                    nanos: entry.renew_at.nanos + DEFERRED_LEASE_EXTENSION_NANOS,
                };
            }
            out.push(entry);
            proof {
                at = at + 1;
            }
        }
        self.deferred = out;
    }

    /// Whether all waiting leases are given up as `leases`, and leave the dispatcher as `after`.
    pub open spec fn has_abandoned_waiting(
        self,
        leases: Seq<Lease>,
        after: Dispatcher,
    ) -> bool {
        &&& leases == leases_of(self.deferred@)
        &&& after.deferred@.len() == 0
        &&& after == (Dispatcher { deferred: after.deferred, ..self })
    }

    /// Gives up all waiting leases.
    pub fn abandon_deferred(&mut self) -> (r: Vec<Lease>)
        ensures
            old(self).has_abandoned_waiting(r@, *final(self)),
    {
        let mut entries: Vec<DeferredStart> = Vec::new();
        std::mem::swap(&mut self.deferred, &mut entries);
        let ghost all = entries@;
        let mut out: Vec<Lease> = Vec::new();
        for entry in iter: entries
            invariant
                iter.seq() == all,
                out@ == leases_of(all).subrange(0, iter.index() as int),
        {
            out.push(entry.lease);
            assert(leases_of(all).subrange(0, iter.index() + 1) =~= leases_of(all).subrange(
                0,
                iter.index() as int,
            ).push(all[iter.index() as int].lease));
        }
        assert(leases_of(all).subrange(0, all.len() as int) =~= leases_of(all));
        out
    }

    /// Whether all leases are given up as `leases`, and leave the dispatcher as `after`.
    pub open spec fn has_abandoned_all(
        self,
        leases: Seq<Lease>,
        after: Dispatcher,
    ) -> bool {
        &&& leases == running_of(self.slots@) + leases_of(self.deferred@)
        &&& after.slots@.len() == 0
        &&& after.deferred@.len() == 0
        &&& after == (Dispatcher {
            slots: after.slots,
            deferred: after.deferred,
            ..self
        })
    }

    /// Gives up all leases: those of running attempts, then those that wait.
    pub fn abandon_all(&mut self) -> (r: Vec<Lease>)
        ensures
            old(self).has_abandoned_all(r@, *final(self)),
    {
        let mut slots: Vec<SlotState> = Vec::new();
        std::mem::swap(&mut self.slots, &mut slots);
        let ghost all = slots@;
        let mut out: Vec<Lease> = Vec::new();
        for state in iter: slots
            invariant
                iter.seq() == all,
                out@ == running_of(all).subrange(0, iter.index() as int),
        {
            out.push(state.lease);
            assert(running_of(all).subrange(0, iter.index() + 1) =~= running_of(all).subrange(
                0,
                iter.index() as int,
            ).push(all[iter.index() as int].lease));
        }
        assert(running_of(all).subrange(0, all.len() as int) =~= running_of(all));
        let mut waiting: Vec<Lease> = self.abandon_deferred();
        out.append(&mut waiting);
        out
    }

    /// Whether nothing runs and nothing waits.
    pub fn is_idle(&self) -> (r: bool)
        ensures
            r == (self.slots@.len() == 0 && self.deferred@.len() == 0),
    {
        self.slots.len() == 0 && self.deferred.len() == 0
    }

    /// What an idle dispatcher does.
    pub open spec fn when_idle(self, finished: Option<bool>, empty: Option<bool>) -> IdleAction {
        if self.draining || finished == Some(true) {
            IdleAction::Exit
        } else if empty == Some(false) {
            IdleAction::FetchAgain
        } else {
            IdleAction::Wait
        }
    }

    /// What an idle dispatcher does, given what the queue says of itself, as far as it could be
    /// asked.
    pub fn idle_action(&self, finished: Option<bool>, empty: Option<bool>) -> (r: IdleAction)
        ensures
            r == self.when_idle(finished, empty),
    {
        if self.draining || matches!(finished, Some(true)) {
            IdleAction::Exit
        } else if matches!(empty, Some(false)) {
            IdleAction::FetchAgain
        } else {
            IdleAction::Wait
        }
    }
}

/// An entry whose lease has been renewed.
pub open spec fn extended(entry: DeferredStart) -> DeferredStart {
    DeferredStart {
        lease: Lease {
            expires_at: Instant {
                nanos: (entry.lease.expires_at.nanos + DEFERRED_LEASE_EXTENSION_NANOS) as u128,
            },
            ..entry.lease
        },
        renew_at: Instant {
            nanos: (entry.renew_at.nanos + DEFERRED_LEASE_EXTENSION_NANOS) as u128,
        },
        ..entry
    }
}

/// A waiting lease is renewed before it expires, and stays so: the margin holds for a lease that is
/// taken in time, and a renewal keeps it.
pub proof fn waiting_leases_are_renewed_in_time(entry: DeferredStart, now: Instant)
    requires
        entry.lease.expires_at.nanos >= now.nanos + DEFERRED_LEASE_RENEWAL_MARGIN_NANOS,
        entry.lease.expires_at.nanos + DEFERRED_LEASE_EXTENSION_NANOS <= MAX_INSTANT_NANOS,
        entry.renew_at == first_renewal(entry.lease.expires_at, now),
    ensures
        entry.renew_at.nanos + DEFERRED_LEASE_RENEWAL_MARGIN_NANOS == entry.lease.expires_at.nanos,
        extended(entry).renew_at.nanos + DEFERRED_LEASE_RENEWAL_MARGIN_NANOS == extended(
            entry,
        ).lease.expires_at.nanos,
{
}

/// The dispatcher wakes in time for every renewal that lies ahead.
pub proof fn no_renewal_is_slept_through(
    entries: Seq<DeferredStart>,
    now: Instant,
    wake: Option<Instant>,
    at: int,
)
    requires
        is_wake(entries, now, wake),
        0 <= at < entries.len(),
        forall|k: int| 0 <= k < entries.len() ==> (#[trigger] entries[k]).renew_at.nanos > now.nanos,
    ensures
        wake is Some,
        now.nanos < wake.unwrap().nanos <= entries[at].renew_at.nanos,
{
    let (ready, renewal) = choose|ready: Option<Instant>, renewal: Option<Instant>|
        #![trigger earliest_ready(entries, now, ready), first_renewal_of(entries, renewal)]
        earliest_ready(entries, now, ready) && first_renewal_of(entries, renewal) && wake == ahead(
            sooner(ready, renewal),
            now,
        );
    assert(renewal is Some);
    let first = renewal.unwrap();
    let k = choose|k: int| 0 <= k < entries.len() && (#[trigger] entries[k]).renew_at == first;
    assert(entries[k].renew_at.nanos > now.nanos);
    assert(first.nanos <= entries[at].renew_at.nanos);
}

/// Of waiting leases the one comes first that is ready earlier, and of two that are ready at once the
/// one that began to wait earlier.
pub proof fn the_earliest_comes_first(entries: Seq<DeferredStart>, at: int, other: int)
    requires
        is_earliest(entries, at),
        0 <= other < entries.len(),
    ensures
        entries[at].ready_at.nanos <= entries[other].ready_at.nanos,
        entries[at].ready_at.nanos == entries[other].ready_at.nanos ==> entries[at].sequence
            <= entries[other].sequence,
        entries[other].ready_at.nanos < entries[at].ready_at.nanos ==> !is_earliest(entries, at),
{
    assert(comes_first(entries[at], entries[other]));
}

/// Where there are waiting leases one of them comes first.
pub proof fn one_comes_first(entries: Seq<DeferredStart>) -> (at: int)
    requires
        entries.len() > 0,
    ensures
        is_earliest(entries, at),
    decreases entries.len(),
{
    if entries.len() == 1 {
        0
    } else {
        let front = entries.drop_last();
        let best = one_comes_first(front);
        assert(entries[best] == front[best]);
        let last = entries.len() - 1;
        if comes_first(entries[best], entries[last]) {
            assert forall|k: int| 0 <= k < entries.len() implies comes_first(
                entries[best],
                #[trigger] entries[k],
            ) by {
                if k < last {
                    assert(front[k] == entries[k]);
                }
            }
            best
        } else {
            assert forall|k: int| 0 <= k < entries.len() implies comes_first(
                entries[last],
                #[trigger] entries[k],
            ) by {
                if k < last {
                    assert(comes_first(front[best], front[k]));
                }
            }
            last
        }
    }
}

/// A lease is renewed half a minute before it expires, at once where less is left, and for three more
/// minutes; nothing else about a waiting lease changes by that.
pub proof fn when_leases_are_renewed(entry: DeferredStart, expires_at: Instant, now: Instant)
    ensures
        expires_at.nanos >= now.nanos + 30_000_000_000 ==> first_renewal(expires_at, now).nanos
            == expires_at.nanos - 30_000_000_000,
        expires_at.nanos < now.nanos + 30_000_000_000 ==> first_renewal(expires_at, now).nanos
            == now.nanos,
        entry.lease.expires_at.nanos + 180_000_000_000 <= MAX_INSTANT_NANOS ==> extended(
            entry,
        ).lease.expires_at.nanos == entry.lease.expires_at.nanos + 180_000_000_000,
        entry.renew_at.nanos + 180_000_000_000 <= MAX_INSTANT_NANOS ==> extended(entry).renew_at.nanos
            == entry.renew_at.nanos + 180_000_000_000,
        extended(entry).lease.request == entry.lease.request,
        extended(entry).lease.lease_id == entry.lease.lease_id,
        extended(entry).ready_at == entry.ready_at,
        extended(entry).sequence == entry.sequence,
        extended(entry).domain_reserved == entry.domain_reserved,
        extended(entry).carried == entry.carried,
{
}

/// Renewals are due for the leases whose time has come, in the order in which they wait.
pub proof fn which_renewals_are_due(
    first: Seq<DeferredStart>,
    second: Seq<DeferredStart>,
    entry: DeferredStart,
    now: Instant,
)
    ensures
        due_of(first + second, now) == due_of(first, now) + due_of(second, now),
        entry.renew_at.nanos <= now.nanos ==> due_of(seq![entry], now) == seq![entry.sequence],
        entry.renew_at.nanos > now.nanos ==> due_of(seq![entry], now).len() == 0,
    decreases second.len(),
{
    reveal_with_fuel(due_of, 2);
    assert(seq![entry].drop_last() =~= Seq::<DeferredStart>::empty());
    assert(Seq::<u64>::empty().push(entry.sequence) =~= seq![entry.sequence]);
    if second.len() > 0 {
        which_renewals_are_due(first, second.drop_last(), entry, now);
        assert((first + second).last() == second.last());
        assert((first + second).drop_last() =~= first + second.drop_last());
        assert(due_of(first + second, now) =~= due_of(first, now) + due_of(second, now));
    } else {
        assert(first + second =~= first);
        assert(due_of(first, now) + due_of(second, now) =~= due_of(first, now));
    }
}

/// Where nothing is due the dispatcher sleeps until the first lease is ready or has to be renewed, and
/// without waiting leases it has nothing to wake for.
pub proof fn when_the_dispatcher_wakes(
    entries: Seq<DeferredStart>,
    now: Instant,
    wake: Option<Instant>,
    at: int,
)
    requires
        is_wake(entries, now, wake),
        forall|k: int|
            0 <= k < entries.len() ==> (#[trigger] entries[k]).renew_at.nanos > now.nanos
                && entries[k].ready_at.nanos > now.nanos,
    ensures
        entries.len() == 0 ==> wake is None,
        0 <= at < entries.len() ==> wake is Some && wake.unwrap().nanos
            <= entries[at].ready_at.nanos && wake.unwrap().nanos <= entries[at].renew_at.nanos,
        entries.len() > 0 ==> exists|k: int|
            0 <= k < entries.len() && ((#[trigger] entries[k]).ready_at == wake.unwrap()
                || entries[k].renew_at == wake.unwrap()),
{
    let (ready, renewal) = choose|ready: Option<Instant>, renewal: Option<Instant>|
        #![trigger earliest_ready(entries, now, ready), first_renewal_of(entries, renewal)]
        earliest_ready(entries, now, ready) && first_renewal_of(entries, renewal) && wake == ahead(
            sooner(ready, renewal),
            now,
        );
    if entries.len() > 0 {
        if ready is None {
            let i = choose|i: int| #[trigger]
                is_earliest(entries, i) && entries[i].ready_at.nanos <= now.nanos;
            assert(entries[i].ready_at.nanos > now.nanos);
        }
        let i = choose|i: int| #[trigger]
            is_earliest(entries, i) && entries[i].ready_at == ready.unwrap();
        let k = choose|k: int|
            0 <= k < entries.len() && (#[trigger] entries[k]).renew_at == renewal.unwrap();
        assert(entries[k].renew_at.nanos > now.nanos);
        assert(entries[i].ready_at.nanos > now.nanos);
        if 0 <= at < entries.len() {
            assert(comes_first(entries[i], entries[at]));
        }
        if ready.unwrap().nanos <= renewal.unwrap().nanos {
            assert(entries[i].ready_at == wake.unwrap());
        } else {
            assert(entries[k].renew_at == wake.unwrap());
        }
    }
}

/// A lease is ready at once, or after the wait that its attempt is to have, and waits behind those
/// that were there before it.
pub proof fn when_a_taken_lease_is_ready(
    before: Dispatcher,
    lease: Lease,
    carried: AttemptOverrides,
    now: Instant,
    after: Dispatcher,
)
    requires
        before.has_taken(lease, carried, now, after),
        carried.backoff is Some ==> now.can_add(carried.backoff.unwrap()),
    ensures
        after.deferred@.len() == before.deferred@.len() + 1,
        after.deferred@.last().lease == lease,
        after.deferred@.last().carried == carried,
        !after.deferred@.last().domain_reserved,
        after.deferred@.last().sequence == before.next_deferred,
        carried.backoff is None ==> after.deferred@.last().ready_at == now,
        carried.backoff is Some ==> after.deferred@.last().ready_at.nanos == now.nanos
            + carried.backoff.unwrap().nanos,
        after.slots == before.slots,
        before.next_deferred < u64::MAX ==> after.next_deferred == before.next_deferred + 1,
{
}

/// A lease is handed out only while a slot is free, only once it is ready, and only if none that waits
/// is ready before it; it is no longer among the waiting then. One whose host needs a pause waits for
/// it instead, with the host's slot reserved.
pub proof fn what_a_look_at_the_waiting_does(
    before: Dispatcher,
    pool: AutoscaledPool,
    desired: usize,
    now: Instant,
    pump: Pump,
    after: Dispatcher,
    pool_after: AutoscaledPool,
    other: int,
)
    requires
        before.has_pumped(pool, desired, now, pump, after, pool_after),
        0 <= other < before.deferred@.len(),
    ensures
        after.slots == before.slots,
        after.draining == before.draining,
        match pump {
            Pump::Candidate(entry) => {
                &&& before.slots@.len() < desired
                &&& entry.ready_at.nanos <= now.nanos
                &&& entry.ready_at.nanos <= before.deferred@[other].ready_at.nanos
                &&& entry.domain_reserved
                &&& after.deferred@.len() == before.deferred@.len() - 1
            },
            Pump::Again => {
                &&& before.slots@.len() < desired
                &&& after.deferred@.len() == before.deferred@.len()
                &&& after.deferred@.last().domain_reserved
                &&& after.deferred@.last().ready_at.nanos != now.nanos
            },
            Pump::Stop => {
                &&& after.deferred@ == before.deferred@
                &&& pool_after == pool
                &&& before.slots@.len() < desired ==> before.deferred@[other].ready_at.nanos
                    > now.nanos
            },
        },
{
    match pump {
        Pump::Candidate(entry) => {
            let i = choose|i: int| #[trigger]
                before.comes_up(i, desired, now) && host_slot(before.deferred@[i], pool, now)
                    is None && host_is_reserved(before.deferred@[i], pool, pool_after, now) && entry
                    == (DeferredStart { domain_reserved: true, ..before.deferred@[i] })
                    && after.deferred@ == before.deferred@.remove(i);
            assert(comes_first(before.deferred@[i], before.deferred@[other]));
        },
        Pump::Again => {},
        Pump::Stop => {
            if before.slots@.len() < desired && before.deferred@[other].ready_at.nanos <= now.nanos {
                let i = one_comes_first(before.deferred@);
                assert(comes_first(before.deferred@[i], before.deferred@[other]));
                assert(before.comes_up(i, desired, now));
            }
        },
    }
}

/// A lease that has its host's slot, or no host, waits for no host; any other waits for the next slot
/// of its host, unless that is now.
pub proof fn which_leases_wait_for_their_host(
    entry: DeferredStart,
    pool: AutoscaledPool,
    now: Instant,
    host: Seq<char>,
)
    ensures
        entry.domain_reserved || entry.lease.request.url@.host is None ==> host_slot(
            entry,
            pool,
            now,
        ) is None,
        !entry.domain_reserved && entry.lease.request.url@.host == Some(host) ==> {
            let slot = pool.domain_limiter.state_of(host).slot(now);
            &&& slot.nanos == now.nanos ==> host_slot(entry, pool, now) is None
            &&& slot.nanos != now.nanos ==> host_slot(entry, pool, now) == Some(slot)
        },
{
}

/// An attempt starts at once, in a slot of its own number, unless it has to wait for its turn; then it
/// is ready again after that wait.
pub proof fn when_an_attempt_starts(
    before: Dispatcher,
    entry: DeferredStart,
    wait: Option<Duration>,
    desired: usize,
    now: Instant,
    start: Option<Start>,
    after: Dispatcher,
)
    requires
        before.has_launched(entry, wait, desired, now, start, after),
    ensures
        wait is None <==> start is Some,
        start is Some ==> {
            &&& after.slots@.len() == before.slots@.len() + 1
            &&& after.slots@.last().lease == entry.lease
            &&& after.slots@.last().started == now
            &&& after.slots@.last().slot == start.unwrap().slot
            &&& start.unwrap().slot == before.next_slot
            &&& start.unwrap().carried == entry.carried
            &&& before.next_slot < u64::MAX ==> after.next_slot == before.next_slot + 1
            &&& after.deferred == before.deferred
        },
        start is None && now.can_add(wait.unwrap()) ==> {
            &&& after.slots == before.slots
            &&& after.deferred@.len() == before.deferred@.len() + 1
            &&& after.deferred@.last().lease == entry.lease
            &&& after.deferred@.last().ready_at.nanos == now.nanos + wait.unwrap().nanos
        },
        after.slots@.len() <= desired,
{
}

/// A turn aborts where the crawl was cancelled, else gives up what waits once the crawl is drained,
/// else goes on; a crawl that is being drained stays so.
pub proof fn how_a_turn_begins(
    before: Dispatcher,
    cancelled: bool,
    drain: bool,
    turn: Turn,
    after: Dispatcher,
)
    requires
        before.has_begun(cancelled, drain, turn, after),
    ensures
        cancelled <==> turn == Turn::Abort,
        before.draining ==> after.draining,
        !cancelled && drain ==> after.draining,
        !drain && !before.draining ==> !after.draining,
        !cancelled && after.draining && before.deferred@.len() > 0 ==> turn == Turn::AbandonDeferred,
        !cancelled && (!after.draining || before.deferred@.len() == 0) ==> turn == Turn::Proceed,
        after.deferred == before.deferred,
        after.slots == before.slots,
{
}

/// All leases that wait are given back when they are given up, and on an abort those that run too.
pub proof fn what_is_given_back(before: Dispatcher, leases: Seq<Lease>, after: Dispatcher, at: int)
    ensures
        before.has_abandoned_waiting(leases, after) ==> {
            &&& leases.len() == before.deferred@.len()
            &&& 0 <= at < leases.len() ==> leases[at] == before.deferred@[at].lease
            &&& after.deferred@.len() == 0
            &&& after.slots == before.slots
        },
        before.has_abandoned_all(leases, after) ==> {
            &&& leases.len() == before.slots@.len() + before.deferred@.len()
            &&& 0 <= at < before.slots@.len() ==> leases[at] == before.slots@[at].lease
            &&& before.slots@.len() <= at < leases.len() ==> leases[at] == before.deferred@[at
                - before.slots@.len()].lease
            &&& after.deferred@.len() == 0
            &&& after.slots@.len() == 0
        },
{
}

/// A released slot gives its attempt back and is free, and no other slot changes.
pub proof fn what_a_release_frees(
    before: Dispatcher,
    slot: u64,
    state: Option<SlotState>,
    after: Dispatcher,
    at: int,
)
    requires
        before.has_released(slot, state, after),
        0 <= at < before.slots@.len(),
    ensures
        before.slots@[at].slot == slot ==> state is Some,
        state is Some ==> state.unwrap().slot == slot && after.slots@.len() == before.slots@.len()
            - 1,
        state is None ==> after.slots@ == before.slots@,
        before.slots@[at].slot != slot ==> after.slots@.contains(before.slots@[at]),
        after.deferred == before.deferred,
{
    if state is Some {
        let held = state.unwrap();
        let i = choose|i: int|
            {
                &&& 0 <= i < before.slots@.len()
                &&& #[trigger] before.slots@[i] == held
                &&& held.slot == slot
                &&& forall|k: int| 0 <= k < i ==> (#[trigger] before.slots@[k]).slot != slot
                &&& after.slots@ == before.slots@.remove(i)
            };
        if before.slots@[at].slot != slot {
            if at < i {
                assert(after.slots@[at] == before.slots@[at]);
            } else {
                assert(after.slots@[at - 1] == before.slots@[at]);
            }
        }
    } else {
        assert(after.slots@[at] == before.slots@[at]);
    }
}

/// Leases are fetched while a slot is free and fewer wait than may, but not by a crawl that is being
/// drained. An idle crawl ends where it is being drained or its queue is finished, fetches again where
/// the queue holds something, and waits otherwise.
pub proof fn when_leases_are_fetched(
    dispatcher: Dispatcher,
    desired: usize,
    finished: Option<bool>,
    empty: Option<bool>,
)
    ensures
        dispatcher.draining ==> !dispatcher.has_room(desired),
        dispatcher.slots@.len() >= desired ==> !dispatcher.has_room(desired),
        dispatcher.deferred@.len() >= dispatcher.deferred_cap ==> !dispatcher.has_room(desired),
        !dispatcher.draining && dispatcher.slots@.len() < desired && dispatcher.deferred@.len()
            < dispatcher.deferred_cap ==> dispatcher.has_room(desired),
        dispatcher.draining || finished == Some(true) <==> dispatcher.when_idle(finished, empty)
            == IdleAction::Exit,
        !dispatcher.draining && finished != Some(true) && empty == Some(false)
            ==> dispatcher.when_idle(finished, empty) == IdleAction::FetchAgain,
        !dispatcher.draining && finished != Some(true) && empty != Some(false)
            ==> dispatcher.when_idle(finished, empty) == IdleAction::Wait,
{
}

/// A lease that comes up and has no slot of its host yet takes the next one: the host's following slot
/// is later by its delay, no other host's changes, and nothing else of the pool does.
pub proof fn what_a_reservation_changes(
    entry: DeferredStart,
    before: AutoscaledPool,
    after: AutoscaledPool,
    now: Instant,
    host: Seq<char>,
    other: Seq<char>,
)
    requires
        host_is_reserved(entry, before, after, now),
    ensures
        entry.domain_reserved || entry.lease.request.url@.host is None ==> after == before,
        !entry.domain_reserved && entry.lease.request.url@.host == Some(host) ==> {
            let (old_state, new_state) = (
                before.domain_limiter.state_of(host),
                after.domain_limiter.state_of(host),
            );
            let delay = old_state.delay(before.domain_limiter.same_domain_delay);
            &&& new_state.last_reserved == Some(old_state.slot(now))
            &&& old_state.slot(now).can_add(delay) ==> new_state.next_allowed is Some
                && new_state.next_allowed.unwrap().nanos == old_state.slot(now).nanos + delay.nanos
            &&& other != host ==> after.domain_limiter.state_of(other)
                == before.domain_limiter.state_of(other)
            &&& after.mode == before.mode
            &&& after.domain_limiter.same_domain_delay == before.domain_limiter.same_domain_delay
        },
{
}

/// A lease that is handed out has its host's slot: it had one before, or none was to be waited for and
/// it took it.
pub proof fn handed_out_leases_have_their_slot(
    before: Dispatcher,
    pool: AutoscaledPool,
    desired: usize,
    now: Instant,
    entry: DeferredStart,
    after: Dispatcher,
    pool_after: AutoscaledPool,
    host: Seq<char>,
)
    requires
        before.has_pumped(pool, desired, now, Pump::Candidate(entry), after, pool_after),
        entry.lease.request.url@.host == Some(host),
    ensures
        exists|i: int|
            {
                &&& 0 <= i < before.deferred@.len()
                &&& (#[trigger] before.deferred@[i]).lease == entry.lease
                &&& before.deferred@[i].carried == entry.carried
                &&& before.deferred@[i].domain_reserved ==> pool_after == pool
                &&& !before.deferred@[i].domain_reserved
                    ==> pool.domain_limiter.state_of(host).slot(now).nanos == now.nanos
                    && pool_after.domain_limiter.state_of(host).last_reserved is Some
                    && pool_after.domain_limiter.state_of(host).last_reserved.unwrap().nanos
                    == now.nanos
            },
{
    let i = choose|i: int| #[trigger]
        before.comes_up(i, desired, now) && host_slot(before.deferred@[i], pool, now) is None
            && host_is_reserved(before.deferred@[i], pool, pool_after, now) && entry == (
        DeferredStart { domain_reserved: true, ..before.deferred@[i] }) && after.deferred@
            == before.deferred@.remove(i);
    assert(before.deferred@[i].lease == entry.lease);
}

/// A renewal extends the waiting lease with its number and no other, and leaves all in their places.
pub proof fn which_leases_a_renewal_extends(
    before: Dispatcher,
    sequence: u64,
    after: Dispatcher,
    at: int,
)
    requires
        before.has_renewed(sequence, after),
        0 <= at < before.deferred@.len(),
    ensures
        after.deferred@.len() == before.deferred@.len(),
        before.deferred@[at].sequence == sequence ==> after.deferred@[at] == extended(
            before.deferred@[at],
        ),
        before.deferred@[at].sequence != sequence ==> after.deferred@[at] == before.deferred@[at],
        after.slots == before.slots,
        after.draining == before.draining,
{
}

} // verus!
