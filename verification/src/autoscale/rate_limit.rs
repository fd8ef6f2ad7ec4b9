//! Politeness toward single hosts.

use crate::http_client::TOO_MANY_REQUESTS;
use crate::text_map::TextMap;
use crate::time::{Duration, Instant, MAX_SPAN_NANOS};
use vstd::prelude::*;

verus! {

/// Two to the power of `n`.
pub open spec fn doubled(n: nat) -> nat
    decreases n,
{
    if n == 0 {
        1
    } else {
        2 * doubled((n - 1) as nat)
    }
}

/// The longest penalty: five minutes.
pub const MAX_PENALTY_NANOS: u128 = 300_000_000_000;

/// The shortest base of a penalty: a second.
pub const MIN_PENALTY_BASE_NANOS: u128 = 1_000_000_000;

/// What is known of a host.
#[derive(Clone, Copy, Debug, PartialEq, Eq, Structural)]
pub struct DomainState {
    /// When the next request may start.
    pub next_allowed: Option<Instant>,
    /// When the last granted request starts.
    pub last_reserved: Option<Instant>,
    /// How many responses in a row asked to slow down.
    pub consecutive_429s: u32,
    /// What is added to the delay for it.
    pub penalty: Duration,
    /// The shortest delay for this host.
    pub floor: Duration,
}

/// The larger of two points in time.
pub open spec fn later(a: Instant, b: Instant) -> Instant {
    if a.nanos >= b.nanos {
        a
    } else {
        b
    }
}

/// The longer of two spans.
pub open spec fn longest(a: Duration, b: Duration) -> Duration {
    if a.nanos >= b.nanos {
        a
    } else {
        b
    }
}

/// The penalty for the given number of responses in a row that asked to slow down: the base,
/// doubled with every response after the first, up to five minutes.
pub open spec fn penalty_for(delay: Duration, count: nat) -> nat {
    let base = if delay.nanos >= MIN_PENALTY_BASE_NANOS {
        delay.nanos as nat
    } else {
        MIN_PENALTY_BASE_NANOS as nat
    };
    let exponent = if count <= 1 {
        0
    } else if count - 1 > 31 {
        31
    } else {
        (count - 1) as nat
    };
    let penalty = base * doubled(exponent);
    if penalty > MAX_PENALTY_NANOS {
        MAX_PENALTY_NANOS as nat
    } else {
        penalty
    }
}

impl DomainState {
    /// Nothing is known.
    pub open spec fn initial() -> DomainState {
        DomainState {
            next_allowed: None,
            last_reserved: None,
            consecutive_429s: 0,
            penalty: Duration { nanos: 0 },
            floor: Duration { nanos: 0 },
        }
    }

    /// The spans are valid ones.
    pub open spec fn wf(self) -> bool {
        self.penalty.wf() && self.floor.wf()
    }

    /// The delay between two requests, without the penalty.
    pub open spec fn base_delay(self, same_domain_delay: Duration) -> Duration {
        longest(same_domain_delay, self.floor)
    }

    /// The delay between two requests.
    pub open spec fn delay(self, same_domain_delay: Duration) -> Duration {
        let sum = self.base_delay(same_domain_delay).nanos + self.penalty.nanos;
        Duration {
            nanos: if sum <= MAX_SPAN_NANOS {
                sum as u128
            } else {
                MAX_SPAN_NANOS
            },
        }
    }

    /// When a request that asks now may start.
    pub open spec fn slot(self, now: Instant) -> Instant {
        match self.next_allowed {
            Some(at) => later(at, now),
            None => now,
        }
    }

    /// The state once a request has been granted its slot.
    pub open spec fn reserved(self, same_domain_delay: Duration, now: Instant) -> DomainState {
        DomainState {
            next_allowed: Some(self.slot(now).plus(self.delay(same_domain_delay))),
            last_reserved: Some(self.slot(now)),
            ..self
        }
    }

    /// The state with no slot before `at`.
    pub open spec fn raised(self, at: Instant) -> DomainState {
        DomainState {
            next_allowed: Some(
                match self.next_allowed {
                    Some(current) => later(current, at),
                    None => at,
                },
            ),
            ..self
        }
    }

    /// The state after a response with a status: a request to slow down adds a penalty, any other
    /// status takes it away.
    pub open spec fn after_status(
        self,
        same_domain_delay: Duration,
        status: Option<u16>,
        now: Instant,
    ) -> DomainState {
        match status {
            None => self,
            Some(code) => if code == TOO_MANY_REQUESTS {
                let count = if self.consecutive_429s < u32::MAX {
                    (self.consecutive_429s + 1) as u32
                } else {
                    u32::MAX
                };
                let penalty = Duration {
                    nanos: penalty_for(same_domain_delay, count as nat) as u128,
                };
                DomainState {
                    consecutive_429s: count,
                    penalty,
                    next_allowed: Some(self.slot(now).plus(penalty)),
                    ..self
                }
            } else {
                DomainState {
                    consecutive_429s: 0,
                    penalty: Duration { nanos: 0 },
                    next_allowed: match self.last_reserved {
                        Some(at) => Some(at.plus(self.base_delay(same_domain_delay))),
                        None => None,
                    },
                    ..self
                }
            },
        }
    }

    /// The state after a response with a status and, possibly, a time to wait.
    pub open spec fn after_response(
        self,
        same_domain_delay: Duration,
        status: Option<u16>,
        retry_after: Option<Duration>,
        now: Instant,
    ) -> DomainState {
        let state = self.after_status(same_domain_delay, status, now);
        match retry_after {
            Some(wait) => state.raised(now.plus(wait)),
            None => state,
        }
    }

    /// The state with a new shortest delay.
    pub open spec fn with_floor(self, same_domain_delay: Duration, floor: Duration) -> DomainState {
        let state = DomainState { floor, ..self };
        match self.last_reserved {
            Some(at) => state.raised(at.plus(state.delay(same_domain_delay))),
            None => state,
        }
    }
}

/// Keeps requests to one host apart.
#[derive(Debug)]
pub struct DomainLimiter {
    pub same_domain_delay: Duration,
    pub states: TextMap<DomainState>,
}

fn power_of_two(exponent: u32) -> (r: u32)
    requires
        exponent <= 31,
    ensures
        r == doubled(exponent as nat),
{
    let mut value: u64 = 1;
    let mut i: u32 = 0;
    assert(doubled(0) == 1);
    while i < exponent
        invariant
            i <= exponent <= 31,
            value == doubled(i as nat),
            value <= doubled(i as nat),
            value * doubled((31 - i) as nat) == doubled(31),
        decreases exponent - i,
    {
        proof {
            assert(doubled((31 - i) as nat) == 2 * doubled((31 - i - 1) as nat));
            let rest = doubled((31 - i - 1) as nat);
            lemma_doubled_positive((31 - i - 1) as nat);
            lemma_doubled_31();
            assert(value * (2 * rest) == (value * 2) * rest) by (nonlinear_arith);
            assert(value * 2 <= (value * 2) * rest) by (nonlinear_arith)
                requires
                    rest >= 1,
            ;
        }
        value = value * 2;
        i = i + 1;
    }
    proof {
        lemma_doubled_positive((31 - exponent) as nat);
        lemma_doubled_31();
        assert(value <= value * doubled((31 - exponent) as nat)) by (nonlinear_arith)
            requires
                doubled((31 - exponent) as nat) >= 1,
        ;
    }
    value as u32
}

proof fn lemma_doubled_positive(n: nat)
    ensures
        doubled(n) >= 1,
    decreases n,
{
    if n > 0 {
        lemma_doubled_positive((n - 1) as nat);
    }
}

proof fn lemma_doubled_31()
    ensures
        doubled(31) == 0x8000_0000,
{
    reveal_with_fuel(doubled, 32);
}

fn later_of(a: Instant, b: Instant) -> (r: Instant)
    ensures
        r == later(a, b),
{
    if a.nanos >= b.nanos {
        a
    } else {
        b
    }
}

fn raise_next_allowed(state: DomainState, candidate: Instant) -> (r: DomainState)
    ensures
        r == state.raised(candidate),
{
    DomainState {
        next_allowed: Some(
            match state.next_allowed {
                Some(current) => later_of(current, candidate),
                None => candidate,
            },
        ),
        ..state
    }
}

impl DomainLimiter {
    /// The spans are valid ones.
    pub open spec fn wf(self) -> bool {
        self.same_domain_delay.wf() && forall|host: Seq<char>| #[trigger]
            self.states@.contains_key(host) ==> self.states@[host].wf()
    }

    /// What is known of a host.
    pub open spec fn state_of(self, host: Seq<char>) -> DomainState {
        if self.states@.contains_key(host) {
            self.states@[host]
        } else {
            DomainState::initial()
        }
    }

    /// A limiter that keeps requests to one host `same_domain_delay` apart.
    pub fn new(same_domain_delay: Duration) -> (r: DomainLimiter)
        requires
            same_domain_delay.wf(),
        ensures
            r.same_domain_delay == same_domain_delay,
            r.states@ == Map::<Seq<char>, DomainState>::empty(),
            r.wf(),
    {
        DomainLimiter { same_domain_delay, states: TextMap::new() }
    }

    fn state(&self, host: &str) -> (r: DomainState)
        requires
            self.wf(),
        ensures
            r == self.state_of(host@),
            r.wf(),
    {
        match self.states.get(host) {
            Some(state) => *state,
            None => DomainState {
                next_allowed: None,
                last_reserved: None,
                consecutive_429s: 0,
                penalty: Duration { nanos: 0 },
                floor: Duration { nanos: 0 },
            },
        }
    }

    fn slot_of(state: DomainState, now: Instant) -> (r: Instant)
        ensures
            r == state.slot(now),
    {
        match state.next_allowed {
            Some(at) => later_of(at, now),
            None => now,
        }
    }

    /// Whether the point in time behind the next slot of a host can be represented.
    pub fn can_reserve(&self, host: &str, now: Instant) -> (r: bool)
        requires
            self.wf(),
        ensures
            r == self.state_of(host@).slot(now).can_add(
                self.state_of(host@).delay(self.same_domain_delay),
            ),
    {
        let state: DomainState = self.state(host);
        let delay: Duration = self.same_domain_delay.longer(state.floor).saturating_add(
            state.penalty,
        );
        DomainLimiter::slot_of(state, now).fits(delay)
    }

    /// Whether the points in time that a response leads to can be represented.
    pub fn can_note(&self, host: &str, retry_after: Option<Duration>, now: Instant) -> (r: bool)
        requires
            self.wf(),
        ensures
            r == self.response_fits(host@, retry_after, now),
    {
        let state: DomainState = self.state(host);
        let reserved: bool = match state.last_reserved {
            Some(at) => at.fits(self.same_domain_delay.longer(state.floor)),
            None => true,
        };
        let asked: bool = match retry_after {
            Some(wait) => now.fits(wait),
            None => true,
        };
        DomainLimiter::slot_of(state, now).fits(Duration { nanos: MAX_PENALTY_NANOS }) && reserved
            && asked
    }

    /// Whether the point in time that a new shortest delay leads to can be represented.
    pub fn can_set_floor(&self, host: &str, floor: Duration) -> (r: bool)
        requires
            self.wf(),
            floor.wf(),
        ensures
            r == self.floor_fits(host@, floor),
    {
        let state: DomainState = self.state(host);
        match state.last_reserved {
            Some(at) => at.fits(
                self.same_domain_delay.longer(floor).saturating_add(state.penalty),
            ),
            None => true,
        }
    }

    /// Whether the point in time that a new shortest delay leads to can be represented.
    pub open spec fn floor_fits(self, host: Seq<char>, floor: Duration) -> bool {
        self.state_of(host).last_reserved is Some ==> self.state_of(
            host,
        ).last_reserved.unwrap().can_add(
            (DomainState { floor, ..self.state_of(host) }).delay(self.same_domain_delay),
        )
    }

    /// Reserves the next host slot and returns how long the caller should wait.
    pub fn reserve_slot(&mut self, host: &str, now: Instant) -> (r: Duration)
        requires
            old(self).wf(),
            old(self).state_of(host@).slot(now).can_add(
                old(self).state_of(host@).delay(old(self).same_domain_delay),
            ),
        ensures
            r.nanos == old(self).state_of(host@).slot(now).nanos - now.nanos,
            final(self).same_domain_delay == old(self).same_domain_delay,
            final(self).states@ == old(self).states@.insert(
                host@,
                old(self).state_of(host@).reserved(old(self).same_domain_delay, now),
            ),
            final(self).wf(),
    {
        let mut state: DomainState = self.state(host);
        let delay: Duration = self.same_domain_delay.longer(state.floor).saturating_add(
            state.penalty,
        );
        let slot: Instant = DomainLimiter::slot_of(state, now);
        let wait: Duration = slot.saturating_since(now);
        state.next_allowed = Some(slot.add_span(delay));
        state.last_reserved = Some(slot);
        self.states.insert(host, state);
        wait
    }

    /// Whether the points in time that a response leads to can be represented.
    pub open spec fn response_fits(
        self,
        host: Seq<char>,
        retry_after: Option<Duration>,
        now: Instant,
    ) -> bool {
        let state = self.state_of(host);
        &&& state.slot(now).can_add(Duration { nanos: MAX_PENALTY_NANOS })
        &&& state.last_reserved is Some ==> state.last_reserved.unwrap().can_add(
            state.base_delay(self.same_domain_delay),
        )
        &&& retry_after is Some ==> now.can_add(retry_after.unwrap())
    }

    /// Updates a host's backoff state from an HTTP response and optional Retry-After value.
    pub fn note_response(
        &mut self,
        host: &str,
        status: Option<u16>,
        retry_after: Option<Duration>,
        now: Instant,
    )
        requires
            old(self).wf(),
            old(self).response_fits(host@, retry_after, now),
        ensures
            final(self).same_domain_delay == old(self).same_domain_delay,
            final(self).states@ == old(self).states@.insert(
                host@,
                old(self).state_of(host@).after_response(
                    old(self).same_domain_delay,
                    status,
                    retry_after,
                    now,
                ),
            ),
            final(self).wf(),
    {
        let mut state: DomainState = self.state(host);
        if let Some(code) = status {
            if code == TOO_MANY_REQUESTS {
                let slot: Instant = DomainLimiter::slot_of(state, now);
                if state.consecutive_429s < u32::MAX {
                    state.consecutive_429s = state.consecutive_429s + 1;
                }
                let exponent: u32 = if state.consecutive_429s - 1 > 31 {
                    31
                } else {
                    state.consecutive_429s - 1
                };
                let base: Duration = self.same_domain_delay.longer(
                    Duration { nanos: MIN_PENALTY_BASE_NANOS },
                );
                let limit: Duration = Duration { nanos: MAX_PENALTY_NANOS };
                let penalty: Duration = match base.checked_mul(power_of_two(exponent)) {
                    Some(penalty) => penalty.shorter(limit),
                    None => limit,
                };
                state.penalty = penalty;
                state.next_allowed = Some(slot.add_span(penalty));
            } else {
                state.consecutive_429s = 0;
                state.penalty = Duration { nanos: 0 };
                state.next_allowed = match state.last_reserved {
                    Some(at) => Some(at.add_span(self.same_domain_delay.longer(state.floor))),
                    None => None,
                };
            }
        }
        if let Some(wait) = retry_after {
            state = raise_next_allowed(state, now.add_span(wait));
        }
        self.states.insert(host, state);
    }

    /// Sets a persistent minimum inter-request delay for one host.
    pub fn set_delay_floor(&mut self, host: &str, floor: Duration)
        requires
            old(self).wf(),
            floor.wf(),
            old(self).floor_fits(host@, floor),
        ensures
            final(self).same_domain_delay == old(self).same_domain_delay,
            final(self).states@ == old(self).states@.insert(
                host@,
                old(self).state_of(host@).with_floor(old(self).same_domain_delay, floor),
            ),
            final(self).wf(),
    {
        let mut state: DomainState = self.state(host);
        state.floor = floor;
        if let Some(at) = state.last_reserved {
            let delay: Duration = self.same_domain_delay.longer(state.floor).saturating_add(
                state.penalty,
            );
            state = raise_next_allowed(state, at.add_span(delay));
        }
        self.states.insert(host, state);
    }
}

/// Two requests to one host that ask one after the other start at least the delay apart, however
/// close together they ask.
pub proof fn reservations_are_spaced(
    state: DomainState,
    same_domain_delay: Duration,
    first: Instant,
    second: Instant,
)
    requires
        state.slot(first).can_add(state.delay(same_domain_delay)),
    ensures
        state.reserved(same_domain_delay, first).slot(second).nanos >= state.slot(first).nanos
            + state.delay(same_domain_delay).nanos,
        state.delay(same_domain_delay).nanos >= same_domain_delay.nanos
            || state.delay(same_domain_delay).nanos == MAX_SPAN_NANOS,
{
}

/// Responses in a row that ask to slow down double the penalty, from one second for a host without
/// a longer delay, up to five minutes.
pub proof fn penalties_double_up_to_a_limit(delay: Duration, count: nat)
    requires
        1 <= count < 31,
    ensures
        delay.nanos <= MIN_PENALTY_BASE_NANOS ==> penalty_for(delay, 1) == MIN_PENALTY_BASE_NANOS,
        penalty_for(delay, count) <= MAX_PENALTY_NANOS,
        penalty_for(delay, count + 1) == if 2 * penalty_for(delay, count) <= MAX_PENALTY_NANOS {
            2 * penalty_for(delay, count)
        } else {
            MAX_PENALTY_NANOS as nat
        },
{
    assert(doubled(0) == 1);
    let base = if delay.nanos >= MIN_PENALTY_BASE_NANOS {
        delay.nanos as nat
    } else {
        MIN_PENALTY_BASE_NANOS as nat
    };
    let d = doubled((count - 1) as nat);
    assert(doubled(count) == 2 * d);
    assert(base * (2 * d) == 2 * (base * d)) by (nonlinear_arith);
}

/// Any answer that does not ask to slow down takes the penalty away at once.
pub proof fn recovery_is_immediate(
    state: DomainState,
    same_domain_delay: Duration,
    status: u16,
    now: Instant,
)
    requires
        status != TOO_MANY_REQUESTS,
        same_domain_delay.wf(),
        state.wf(),
    ensures
        state.after_response(same_domain_delay, Some(status), None, now).consecutive_429s == 0,
        state.after_response(same_domain_delay, Some(status), None, now).delay(same_domain_delay)
            == state.base_delay(same_domain_delay),
{
}

/// A host that names a time to wait gets no request before it.
pub proof fn retry_after_is_kept(
    state: DomainState,
    same_domain_delay: Duration,
    status: Option<u16>,
    wait: Duration,
    now: Instant,
    ask: Instant,
)
    requires
        now.can_add(wait),
    ensures
        state.after_response(same_domain_delay, status, Some(wait), now).slot(ask).nanos
            >= now.nanos + wait.nanos,
{
}

/// A request to a host may go at once where no time is set for it, and else at that time or now,
/// whichever is later. Reserving it sets the time for the next one behind it by the delay: the one
/// between requests to a host, or the host's own where that is longer, and the penalty on top.
pub proof fn when_a_host_may_be_asked(state: DomainState, same_domain_delay: Duration, now: Instant)
    requires
        same_domain_delay.wf(),
        state.wf(),
        state.penalty.nanos + same_domain_delay.nanos <= MAX_SPAN_NANOS,
        state.penalty.nanos + state.floor.nanos <= MAX_SPAN_NANOS,
        state.slot(now).can_add(state.delay(same_domain_delay)),
    ensures
        state.next_allowed is None ==> state.slot(now) == now,
        state.next_allowed is Some && state.next_allowed.unwrap().nanos <= now.nanos ==> state.slot(
            now,
        ).nanos == now.nanos,
        state.next_allowed is Some && state.next_allowed.unwrap().nanos > now.nanos ==> state.slot(
            now,
        ) == state.next_allowed.unwrap(),
        ({
            let longer = if same_domain_delay.nanos >= state.floor.nanos {
                same_domain_delay.nanos as int
            } else {
                state.floor.nanos as int
            };
            let after = state.reserved(same_domain_delay, now);
            &&& after.next_allowed is Some
            &&& after.next_allowed.unwrap().nanos == state.slot(now).nanos + longer
                + state.penalty.nanos
            &&& after.last_reserved == Some(state.slot(now))
            &&& after.penalty == state.penalty
            &&& after.floor == state.floor
            &&& after.consecutive_429s == state.consecutive_429s
        }),
{
}

/// A response that asks to slow down, of status 429, counts, and holds the host back for its penalty
/// from the time at which it could next be asked; any other takes count and penalty off again; and
/// none at all changes nothing.
pub proof fn what_a_response_does(
    state: DomainState,
    same_domain_delay: Duration,
    status: Option<u16>,
    now: Instant,
)
    requires
        state.wf(),
        same_domain_delay.wf(),
        state.slot(now).can_add(Duration { nanos: 300_000_000_000 }),
        state.last_reserved is Some ==> state.last_reserved.unwrap().can_add(
            state.base_delay(same_domain_delay),
        ),
    ensures
        ({
            let after = state.after_response(same_domain_delay, status, None, now);
            &&& status is None ==> after == state
            &&& status == Some(429u16) && state.consecutive_429s < u32::MAX
                ==> after.consecutive_429s == state.consecutive_429s + 1
            &&& status == Some(429u16) ==> {
                &&& after.penalty.nanos == penalty_for(
                    same_domain_delay,
                    after.consecutive_429s as nat,
                )
                &&& after.next_allowed is Some && after.next_allowed.unwrap().nanos == state.slot(
                    now,
                ).nanos + after.penalty.nanos
            }
            &&& status is Some && status != Some(429u16) ==> {
                &&& after.consecutive_429s == 0
                &&& after.penalty.nanos == 0
                &&& state.last_reserved is None ==> after.next_allowed is None
                &&& state.last_reserved is Some && same_domain_delay.nanos >= state.floor.nanos
                    ==> after.next_allowed is Some && after.next_allowed.unwrap().nanos
                    == state.last_reserved.unwrap().nanos + same_domain_delay.nanos
                &&& state.last_reserved is Some && same_domain_delay.nanos < state.floor.nanos
                    ==> after.next_allowed is Some && after.next_allowed.unwrap().nanos
                    == state.last_reserved.unwrap().nanos + state.floor.nanos
            }
            &&& after.floor == state.floor
            &&& after.last_reserved == state.last_reserved
        }),
{
    lemma_penalty_bound(same_domain_delay, (state.consecutive_429s + 1) as nat);
    lemma_penalty_bound(same_domain_delay, state.consecutive_429s as nat);
}

proof fn lemma_penalty_bound(delay: Duration, count: nat)
    ensures
        penalty_for(delay, count) <= 300_000_000_000,
{
}

/// The first penalty is the delay between requests to a host, but at least a second and at most five
/// minutes, and each further one doubles it up to there.
pub proof fn how_penalties_grow(delay: Duration, count: nat)
    requires
        1 <= count < 31,
    ensures
        delay.nanos < 1_000_000_000 ==> penalty_for(delay, 1) == 1_000_000_000,
        1_000_000_000 <= delay.nanos <= 300_000_000_000 ==> penalty_for(delay, 1) == delay.nanos,
        delay.nanos > 300_000_000_000 ==> penalty_for(delay, 1) == 300_000_000_000,
        2 * penalty_for(delay, count) <= 300_000_000_000 ==> penalty_for(delay, count + 1) == 2
            * penalty_for(delay, count),
        2 * penalty_for(delay, count) > 300_000_000_000 ==> penalty_for(delay, count + 1)
            == 300_000_000_000,
        penalty_for(delay, 0) == penalty_for(delay, 1),
{
    reveal_with_fuel(doubled, 2);
    penalties_double_up_to_a_limit(delay, count);
    let base = if delay.nanos >= 1_000_000_000 {
        delay.nanos as nat
    } else {
        1_000_000_000nat
    };
    assert(base * 1 == base);
}

/// A wait that a response asks for holds the host back at least so long, and never lets it be asked
/// sooner than without it.
pub proof fn waits_only_hold_back(
    state: DomainState,
    same_domain_delay: Duration,
    status: Option<u16>,
    wait: Duration,
    now: Instant,
)
    requires
        now.can_add(wait),
    ensures
        ({
            let plain = state.after_response(same_domain_delay, status, None, now);
            let held = state.after_response(same_domain_delay, status, Some(wait), now);
            &&& held.next_allowed is Some
            &&& held.next_allowed.unwrap().nanos >= now.nanos + wait.nanos
            &&& plain.next_allowed is Some ==> held.next_allowed.unwrap().nanos
                >= plain.next_allowed.unwrap().nanos
            &&& held.next_allowed.unwrap().nanos == now.nanos + wait.nanos || held.next_allowed
                == plain.next_allowed
            &&& held.penalty == plain.penalty && held.consecutive_429s == plain.consecutive_429s
        }),
{
}

/// A host's own delay counts from its last request on, where there was one, and never lets it be
/// asked sooner.
pub proof fn floors_only_hold_back(state: DomainState, same_domain_delay: Duration, floor: Duration)
    requires
        state.last_reserved is Some ==> state.last_reserved.unwrap().can_add(
            (DomainState { floor, ..state }).delay(same_domain_delay),
        ),
    ensures
        state.with_floor(same_domain_delay, floor).floor == floor,
        state.last_reserved is None ==> state.with_floor(same_domain_delay, floor).next_allowed
            == state.next_allowed,
        state.last_reserved is Some ==> {
            let after = state.with_floor(same_domain_delay, floor);
            &&& after.next_allowed is Some
            &&& after.next_allowed.unwrap().nanos >= state.last_reserved.unwrap().nanos
                + after.delay(same_domain_delay).nanos
            &&& state.next_allowed is Some ==> after.next_allowed.unwrap().nanos
                >= state.next_allowed.unwrap().nanos
        },
        state.with_floor(same_domain_delay, floor).penalty == state.penalty,
        state.with_floor(same_domain_delay, floor).consecutive_429s == state.consecutive_429s,
        state.with_floor(same_domain_delay, floor).last_reserved == state.last_reserved,
{
}

/// A host that nothing is known of may be asked at once and has no penalty.
pub proof fn unknown_hosts_begin_afresh(limiter: DomainLimiter, host: Seq<char>, now: Instant)
    ensures
        limiter.states@.contains_key(host) ==> limiter.state_of(host) == limiter.states@[host],
        !limiter.states@.contains_key(host) ==> {
            let state = limiter.state_of(host);
            &&& state.slot(now) == now
            &&& state.penalty.nanos == 0
            &&& state.floor.nanos == 0
            &&& state.consecutive_429s == 0
            &&& state.last_reserved is None
        },
{
}

} // verus!
