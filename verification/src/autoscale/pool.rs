//! Concurrency decisions and politeness limits for a crawler's dispatcher.

use crate::autoscale::aimd::{clamp, clamped, AimdController};
use crate::autoscale::rate_limit::{DomainLimiter, DomainState};
use crate::autoscale::system_status::ScaleDecision;
use crate::time::{Duration, Instant};
use vstd::prelude::*;

verus! {

/// Strategy used to adjust desired concurrency.
#[derive(Clone, Copy, Debug, PartialEq, Eq, Structural)]
pub enum AutoscaleMode {
    /// Deterministic additive-increase, multiplicative-decrease scaling.
    Aimd {
        /// Number of consecutive successes required for one additive increase.
        increase_after_successes: usize,
    },
    /// Periodic scaling based on registered load-signal histories.
    LoadSignals,
}

/// Configuration for concurrency scaling and request politeness limits.
#[derive(Clone, Copy, Debug, PartialEq, Eq, Structural)]
pub struct AutoscaledPoolOptions {
    /// Pins concurrency and disables all autoscaling when set.
    pub fixed_concurrency: Option<usize>,
    /// Minimum dynamic concurrency.
    pub min_concurrency: usize,
    /// Maximum dynamic concurrency.
    pub max_concurrency: usize,
    /// Initial desired concurrency, or the minimum when omitted.
    pub desired_concurrency: Option<usize>,
    /// Optional deadline applied to each dispatched request attempt.
    pub task_timeout: Option<Duration>,
    /// Optional global task-start budget per minute.
    pub max_tasks_per_minute: Option<u32>,
    /// Minimum delay between reservations for the same host.
    pub same_domain_delay: Duration,
    /// Dispatcher fallback tick for reconsidering whether more work can run.
    pub maybe_run_interval: Duration,
    /// Interval between load-signal scaling decisions.
    pub autoscale_interval: Duration,
    /// Concurrency scaling strategy.
    pub mode: AutoscaleMode,
    /// Number of registered load signals.
    pub signal_count: usize,
}

impl Default for AutoscaledPoolOptions {
    fn default() -> (r: Self)
        ensures
            r == (AutoscaledPoolOptions {
                fixed_concurrency: None,
                min_concurrency: 1,
                max_concurrency: 200,
                desired_concurrency: None,
                task_timeout: None,
                max_tasks_per_minute: None,
                same_domain_delay: Duration { nanos: 0 },
                maybe_run_interval: Duration::millis(500),
                autoscale_interval: Duration::secs(10),
                mode: AutoscaleMode::Aimd { increase_after_successes: 10 },
                signal_count: 0,
            }),
    {
        AutoscaledPoolOptions {
            fixed_concurrency: None,
            min_concurrency: 1,
            max_concurrency: 200,
            desired_concurrency: None,
            task_timeout: None,
            max_tasks_per_minute: None,
            same_domain_delay: Duration { nanos: 0 },
            maybe_run_interval: Duration::from_millis(500),
            autoscale_interval: Duration::from_secs(10),
            mode: AutoscaleMode::Aimd { increase_after_successes: 10 },
            signal_count: 0,
        }
    }
}

/// Coarse attempt result consumed by AIMD scaling.
#[derive(Clone, Copy, Debug, PartialEq, Eq, Structural)]
pub enum AttemptOutcomeKind {
    /// A successful attempt.
    Success,
    /// A retryable or failed attempt.
    Setback,
}

/// How a pool finds its concurrency.
#[derive(Debug)]
pub enum Mode {
    Fixed(usize),
    Aimd(AimdController),
    LoadSignals { desired: usize },
}

/// Concurrency decision and politeness facade consulted by a crawler dispatch loop.
#[derive(Debug)]
pub struct AutoscaledPool {
    pub mode: Mode,
    pub min: usize,
    pub max: usize,
    pub autoscale_interval: Duration,
    pub domain_limiter: DomainLimiter,
}

impl AutoscaledPoolOptions {
    /// The minimum, at least one.
    pub open spec fn min_spec(self) -> nat {
        if self.min_concurrency == 0 {
            1
        } else {
            self.min_concurrency as nat
        }
    }

    /// The maximum, at least the minimum.
    pub open spec fn max_spec(self) -> nat {
        if (self.max_concurrency as nat) < self.min_spec() {
            self.min_spec()
        } else {
            self.max_concurrency as nat
        }
    }

    /// The concurrency that a pool begins with.
    pub open spec fn initial_spec(self) -> nat {
        match self.fixed_concurrency {
            Some(fixed) => if fixed == 0 {
                1
            } else {
                fixed as nat
            },
            None => clamped(
                match self.desired_concurrency {
                    Some(desired) => desired as nat,
                    None => self.min_spec(),
                },
                self.min_spec(),
                self.max_spec(),
            ),
        }
    }
}

impl AutoscaledPool {
    /// The bounds are in order and the desired concurrency lies between them.
    pub open spec fn wf(self) -> bool {
        &&& 1 <= self.min <= self.max
        &&& self.domain_limiter.wf()
        &&& match self.mode {
            Mode::Fixed(value) => value >= 1,
            Mode::Aimd(controller) => controller@.wf() && controller@.min == self.min
                && controller@.max == self.max,
            Mode::LoadSignals { desired } => self.min <= desired <= self.max,
        }
    }

    /// The concurrency currently desired.
    pub open spec fn desired_spec(self) -> nat {
        match self.mode {
            Mode::Fixed(value) => value as nat,
            Mode::Aimd(controller) => controller@.desired,
            Mode::LoadSignals { desired } => desired as nat,
        }
    }

    /// Creates a pool, normalizing concurrency bounds and selecting its scaling mode. Load signals
    /// without a registered signal fall back to scaling by outcomes.
    pub fn new(options: AutoscaledPoolOptions) -> (r: AutoscaledPool)
        requires
            options.same_domain_delay.wf(),
        ensures
            r.wf(),
            r.min == options.min_spec(),
            r.max == options.max_spec(),
            r.desired_spec() == options.initial_spec(),
            r.mode is Fixed <==> options.fixed_concurrency is Some,
            r.mode is LoadSignals <==> options.fixed_concurrency is None && options.mode
                is LoadSignals && options.signal_count > 0,
            r.mode is Aimd ==> r.mode->Aimd_0@.streak == 0 && r.mode->Aimd_0@.increase_after == (
            match options.mode {
                AutoscaleMode::Aimd { increase_after_successes } => if increase_after_successes
                    == 0 {
                    1
                } else {
                    increase_after_successes as nat
                },
                AutoscaleMode::LoadSignals => 10,
            }),
            r.autoscale_interval == options.autoscale_interval,
            r.domain_limiter.same_domain_delay == options.same_domain_delay,
            r.domain_limiter.states@ == Map::<Seq<char>, DomainState>::empty(),
    {
        let min: usize = if options.min_concurrency == 0 {
            1
        } else {
            options.min_concurrency
        };
        let max: usize = if options.max_concurrency < min {
            min
        } else {
            options.max_concurrency
        };
        let initial: usize = match options.desired_concurrency {
            Some(desired) => desired,
            None => min,
        };
        let mode: Mode = match options.fixed_concurrency {
            Some(fixed) => Mode::Fixed(
                if fixed == 0 {
                    1
                } else {
                    fixed
                },
            ),
            None => match options.mode {
                AutoscaleMode::Aimd { increase_after_successes } => Mode::Aimd(
                    AimdController::new(min, max, initial, increase_after_successes),
                ),
                AutoscaleMode::LoadSignals => if options.signal_count == 0 {
                    Mode::Aimd(AimdController::new(min, max, initial, 10))
                } else {
                    Mode::LoadSignals { desired: clamp(initial, min, max) }
                },
            },
        };
        AutoscaledPool {
            mode,
            min,
            max,
            autoscale_interval: options.autoscale_interval,
            domain_limiter: DomainLimiter::new(options.same_domain_delay),
        }
    }

    /// Returns whether concurrency is explicitly fixed.
    pub fn is_fixed(&self) -> (r: bool)
        ensures
            r == (self.mode is Fixed),
    {
        matches!(self.mode, Mode::Fixed(_))
    }

    /// Returns the concurrency currently desired by the selected mode.
    pub fn desired_concurrency(&self) -> (r: usize)
        ensures
            r == self.desired_spec(),
    {
        match &self.mode {
            Mode::Fixed(value) => *value,
            Mode::Aimd(controller) => controller.desired_concurrency(),
            Mode::LoadSignals { desired } => *desired,
        }
    }

    /// Returns the effective minimum concurrency.
    pub fn min_concurrency(&self) -> (r: usize)
        ensures
            r == match self.mode {
                Mode::Fixed(value) => value,
                _ => self.min,
            },
    {
        match self.mode {
            Mode::Fixed(value) => value,
            _ => self.min,
        }
    }

    /// Returns the effective maximum concurrency.
    pub fn max_concurrency(&self) -> (r: usize)
        ensures
            r == match self.mode {
                Mode::Fixed(value) => value,
                _ => self.max,
            },
    {
        match self.mode {
            Mode::Fixed(value) => value,
            _ => self.max,
        }
    }

    /// Returns the interval between load-signal scaling decisions.
    pub fn autoscale_interval(&self) -> (r: Duration)
        ensures
            r == self.autoscale_interval,
    {
        self.autoscale_interval
    }

    /// Sets a persistent minimum delay between reservations for one host.
    pub fn set_domain_delay_floor(&mut self, host: &str, floor: Duration)
        requires
            old(self).wf(),
            floor.wf(),
            old(self).domain_limiter.floor_fits(host@, floor),
        ensures
            final(self).wf(),
            *final(self) == (AutoscaledPool {
                domain_limiter: final(self).domain_limiter,
                ..*old(self)
            }),
            final(self).domain_limiter.same_domain_delay == old(self).domain_limiter.same_domain_delay,
            final(self).domain_limiter.states@ == old(self).domain_limiter.states@.insert(
                host@,
                old(self).domain_limiter.state_of(host@).with_floor(
                    old(self).domain_limiter.same_domain_delay,
                    floor,
                ),
            ),
    {
        self.domain_limiter.set_delay_floor(host, floor);
    }

    /// Records an attempt result where outcomes scale the pool. `scaled` is the concurrency times
    /// the decrease factor.
    pub fn record_outcome(&mut self, outcome: AttemptOutcomeKind, scaled: usize)
        requires
            old(self).wf(),
        ensures
            final(self).wf(),
            *final(self) == (AutoscaledPool { mode: final(self).mode, ..*old(self) }),
            match (old(self).mode, final(self).mode) {
                (Mode::Aimd(before), Mode::Aimd(after)) => after@ == match outcome {
                    AttemptOutcomeKind::Success => before@.after_success(),
                    AttemptOutcomeKind::Setback => before@.after_setback(scaled as nat),
                },
                (before, after) => before == after,
            },
    {
        if let Mode::Aimd(controller) = &mut self.mode {
            match outcome {
                AttemptOutcomeKind::Success => controller.record_success(),
                AttemptOutcomeKind::Setback => controller.record_setback(scaled),
            }
        }
    }

    /// Reserves a host slot and returns the required wait.
    pub fn domain_slot_wait(&mut self, host: &str, now: Instant) -> (r: Duration)
        requires
            old(self).wf(),
            old(self).domain_limiter.state_of(host@).slot(now).can_add(
                old(self).domain_limiter.state_of(host@).delay(
                    old(self).domain_limiter.same_domain_delay,
                ),
            ),
        ensures
            final(self).wf(),
            *final(self) == (AutoscaledPool {
                domain_limiter: final(self).domain_limiter,
                ..*old(self)
            }),
            r.nanos == old(self).domain_limiter.state_of(host@).slot(now).nanos - now.nanos,
            final(self).domain_limiter.same_domain_delay == old(self).domain_limiter.same_domain_delay,
            final(self).domain_limiter.states@ == old(self).domain_limiter.states@.insert(
                host@,
                old(self).domain_limiter.state_of(host@).reserved(
                    old(self).domain_limiter.same_domain_delay,
                    now,
                ),
            ),
    {
        self.domain_limiter.reserve_slot(host, now)
    }

    /// Updates host politeness state from a response.
    pub fn note_response(
        &mut self,
        host: &str,
        status: Option<u16>,
        retry_after: Option<Duration>,
        now: Instant,
    )
        requires
            old(self).wf(),
            old(self).domain_limiter.response_fits(host@, retry_after, now),
        ensures
            final(self).wf(),
            *final(self) == (AutoscaledPool {
                domain_limiter: final(self).domain_limiter,
                ..*old(self)
            }),
            final(self).domain_limiter.same_domain_delay == old(self).domain_limiter.same_domain_delay,
            final(self).domain_limiter.states@ == old(self).domain_limiter.states@.insert(
                host@,
                old(self).domain_limiter.state_of(host@).after_response(
                    old(self).domain_limiter.same_domain_delay,
                    status,
                    retry_after,
                    now,
                ),
            ),
    {
        self.domain_limiter.note_response(host, status, retry_after, now);
    }

    /// Applies one scaling decision where load signals scale the pool, and returns whether the
    /// concurrency changed. The steps are the concurrency times the step ratios, rounded up.
    pub fn scale(&mut self, decision: ScaleDecision, up_step: usize, down_step: usize) -> (r: bool)
        requires
            old(self).wf(),
        ensures
            final(self).wf(),
            *final(self) == (AutoscaledPool { mode: final(self).mode, ..*old(self) }),
            r == (final(self).desired_spec() != old(self).desired_spec()),
            match old(self).mode {
                Mode::LoadSignals { desired } => final(self).desired_spec() == scaled(
                    desired as nat,
                    decision,
                    old(self).min as nat,
                    old(self).max as nat,
                    up_step as nat,
                    down_step as nat,
                ) && final(self).mode is LoadSignals,
                before => final(self).mode == before,
            },
    {
        if let Mode::LoadSignals { desired } = self.mode {
            let next: usize = apply_scale_decision(
                desired,
                decision,
                self.min,
                self.max,
                up_step,
                down_step,
            );
            self.mode = Mode::LoadSignals { desired: next };
            return next != desired;
        }
        false
    }
}

/// The concurrency after one scaling decision.
pub open spec fn scaled(
    current: nat,
    decision: ScaleDecision,
    min: nat,
    max: nat,
    up_step: nat,
    down_step: nat,
) -> nat {
    let up = if up_step == 0 {
        1
    } else {
        up_step
    };
    let down = if down_step == 0 {
        1
    } else {
        down_step
    };
    let top = if max < min {
        min
    } else {
        max
    };
    match decision {
        ScaleDecision::Hold => current,
        ScaleDecision::ScaleUp => if current + up > top {
            top
        } else {
            current + up
        },
        ScaleDecision::ScaleDown => if current < min + down {
            min
        } else {
            (current - down) as nat
        },
    }
}

/// Applies one load-signal scaling decision within normalized bounds.
pub fn apply_scale_decision(
    current: usize,
    decision: ScaleDecision,
    min: usize,
    max: usize,
    up_step: usize,
    down_step: usize,
) -> (r: usize)
    ensures
        r == scaled(
            current as nat,
            decision,
            min as nat,
            max as nat,
            up_step as nat,
            down_step as nat,
        ),
{
    let up: usize = if up_step == 0 {
        1
    } else {
        up_step
    };
    let down: usize = if down_step == 0 {
        1
    } else {
        down_step
    };
    let top: usize = if max < min {
        min
    } else {
        max
    };
    match decision {
        ScaleDecision::Hold => current,
        ScaleDecision::ScaleUp => if current > top || up > top - current {
            top
        } else {
            current + up
        },
        ScaleDecision::ScaleDown => if current < min || down > current - min {
            min
        } else {
            current - down
        },
    }
}

/// A decision keeps the concurrency within its bounds and moves it in its own direction, by at
/// least one where there is room.
pub proof fn scaling_stays_in_bounds(
    current: nat,
    decision: ScaleDecision,
    min: nat,
    max: nat,
    up_step: nat,
    down_step: nat,
)
    requires
        1 <= min <= current <= max,
    ensures
        min <= scaled(current, decision, min, max, up_step, down_step) <= max,
        decision is ScaleUp ==> scaled(current, decision, min, max, up_step, down_step) >= current,
        decision is ScaleUp && current < max ==> scaled(
            current,
            decision,
            min,
            max,
            up_step,
            down_step,
        ) > current,
        decision is ScaleDown ==> scaled(current, decision, min, max, up_step, down_step)
            <= current,
        decision is ScaleDown && current > min ==> scaled(
            current,
            decision,
            min,
            max,
            up_step,
            down_step,
        ) < current,
        decision is Hold ==> scaled(current, decision, min, max, up_step, down_step) == current,
{
}

/// At least one attempt runs at a time, and the most is at least the least. A crawl begins with its
/// fixed number, or with the desired one kept between the two, or else with the least.
pub proof fn where_a_pool_begins(options: AutoscaledPoolOptions)
    ensures
        options.min_concurrency > 0 ==> options.min_spec() == options.min_concurrency,
        options.min_concurrency == 0 ==> options.min_spec() == 1,
        options.max_concurrency >= options.min_spec() ==> options.max_spec()
            == options.max_concurrency,
        options.max_concurrency < options.min_spec() ==> options.max_spec() == options.min_spec(),
        options.fixed_concurrency is Some && options.fixed_concurrency.unwrap() > 0
            ==> options.initial_spec() == options.fixed_concurrency.unwrap(),
        options.fixed_concurrency == Some(0usize) ==> options.initial_spec() == 1,
        options.fixed_concurrency is None && options.desired_concurrency is None
            ==> options.initial_spec() == options.min_spec(),
        options.fixed_concurrency is None && options.desired_concurrency is Some ==> {
            let wanted = options.desired_concurrency.unwrap() as nat;
            &&& options.min_spec() <= wanted <= options.max_spec() ==> options.initial_spec()
                == wanted
            &&& wanted < options.min_spec() ==> options.initial_spec() == options.min_spec()
            &&& wanted > options.max_spec() ==> options.initial_spec() == options.max_spec()
        },
{
}

/// A decision to scale moves by its own step, at least by one and never past its bound; a decision to
/// hold changes nothing.
pub proof fn steps_are_taken_in_full(
    current: nat,
    min: nat,
    max: nat,
    up_step: nat,
    down_step: nat,
)
    requires
        min <= max,
    ensures
        scaled(current, ScaleDecision::Hold, min, max, up_step, down_step) == current,
        up_step > 0 && current + up_step <= max ==> scaled(
            current,
            ScaleDecision::ScaleUp,
            min,
            max,
            up_step,
            down_step,
        ) == current + up_step,
        up_step > 0 && current + up_step > max ==> scaled(
            current,
            ScaleDecision::ScaleUp,
            min,
            max,
            up_step,
            down_step,
        ) == max,
        down_step > 0 && current >= min + down_step ==> scaled(
            current,
            ScaleDecision::ScaleDown,
            min,
            max,
            up_step,
            down_step,
        ) == current - down_step,
        down_step > 0 && current < min + down_step ==> scaled(
            current,
            ScaleDecision::ScaleDown,
            min,
            max,
            up_step,
            down_step,
        ) == min,
        scaled(current, ScaleDecision::ScaleUp, min, max, 0, down_step) == scaled(
            current,
            ScaleDecision::ScaleUp,
            min,
            max,
            1,
            down_step,
        ),
        scaled(current, ScaleDecision::ScaleDown, min, max, up_step, 0) == scaled(
            current,
            ScaleDecision::ScaleDown,
            min,
            max,
            up_step,
            1,
        ),
{
}

/// The number that a pool wants is that of its mode.
pub proof fn what_a_pool_wants(pool: AutoscaledPool, value: usize)
    ensures
        pool.mode == Mode::Fixed(value) ==> pool.desired_spec() == value,
        pool.mode == (Mode::LoadSignals { desired: value }) ==> pool.desired_spec() == value,
        pool.mode is Aimd ==> pool.desired_spec() == pool.mode->Aimd_0@.desired,
{
}

} // verus!
