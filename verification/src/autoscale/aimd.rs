//! Additive-increase, multiplicative-decrease concurrency.

use vstd::prelude::*;

verus! {

/// `value` held between `low` and `high`.
pub open spec fn clamped(value: nat, low: nat, high: nat) -> nat {
    if value < low {
        low
    } else if value > high {
        high
    } else {
        value
    }
}

/// `value` held between `low` and `high`.
pub fn clamp(value: usize, low: usize, high: usize) -> (r: usize)
    requires
        low <= high,
    ensures
        r == clamped(value as nat, low as nat, high as nat),
        low <= r <= high,
{
    if value < low {
        low
    } else if value > high {
        high
    } else {
        value
    }
}

/// An additive-increase, multiplicative-decrease concurrency controller.
#[derive(Debug)]
pub struct AimdController {
    min: usize,
    max: usize,
    increase_after_successes: usize,
    desired: usize,
    success_streak: usize,
}

/// The mathematical value of a controller.
pub struct AimdView {
    pub min: nat,
    pub max: nat,
    pub increase_after: nat,
    pub desired: nat,
    pub streak: nat,
}

impl AimdView {
    /// The bounds are in order, the desired concurrency lies between them, and the streak is below
    /// the length that leads to an increase.
    pub open spec fn wf(self) -> bool {
        1 <= self.min <= self.desired <= self.max && self.increase_after >= 1 && self.streak
            < self.increase_after
    }

    /// The controller after a success.
    pub open spec fn after_success(self) -> AimdView {
        if self.streak + 1 >= self.increase_after {
            AimdView {
                streak: 0,
                desired: clamped(self.desired + 1, self.min, self.max),
                ..self
            }
        } else {
            AimdView { streak: self.streak + 1, ..self }
        }
    }

    /// The controller after a setback that scales the concurrency to `scaled`.
    pub open spec fn after_setback(self, scaled: nat) -> AimdView {
        AimdView { streak: 0, desired: clamped(scaled, self.min, self.max), ..self }
    }

    /// The controller after `count` successes in a row.
    pub open spec fn after_successes(self, count: nat) -> AimdView
        decreases count,
    {
        if count == 0 {
            self
        } else {
            self.after_successes((count - 1) as nat).after_success()
        }
    }
}

impl View for AimdController {
    type V = AimdView;

    closed spec fn view(&self) -> AimdView {
        AimdView {
            min: self.min as nat,
            max: self.max as nat,
            increase_after: self.increase_after_successes as nat,
            desired: self.desired as nat,
            streak: self.success_streak as nat,
        }
    }
}

impl AimdController {
    /// Creates a controller with normalized bounds and tuning values.
    pub fn new(
        min_concurrency: usize,
        max_concurrency: usize,
        initial_concurrency: usize,
        increase_after_successes: usize,
    ) -> (r: AimdController)
        ensures
            r@.wf(),
            r@.min == if min_concurrency == 0 {
                1
            } else {
                min_concurrency as nat
            },
            r@.max == if (max_concurrency as nat) < r@.min {
                r@.min
            } else {
                max_concurrency as nat
            },
            r@.increase_after == if increase_after_successes == 0 {
                1
            } else {
                increase_after_successes as nat
            },
            r@.desired == clamped(initial_concurrency as nat, r@.min, r@.max),
            r@.streak == 0,
    {
        let min: usize = if min_concurrency == 0 {
            1
        } else {
            min_concurrency
        };
        let max: usize = if max_concurrency < min {
            min
        } else {
            max_concurrency
        };
        AimdController {
            min,
            max,
            increase_after_successes: if increase_after_successes == 0 {
                1
            } else {
                increase_after_successes
            },
            desired: clamp(initial_concurrency, min, max),
            success_streak: 0,
        }
    }

    /// Returns the currently desired concurrency.
    pub fn desired_concurrency(&self) -> (r: usize)
        ensures
            r == self@.desired,
    {
        self.desired
    }

    /// Records a successful attempt, additively increasing after a sustained streak.
    pub fn record_success(&mut self)
        requires
            old(self)@.wf(),
        ensures
            final(self)@ == old(self)@.after_success(),
            final(self)@.wf(),
    {
        if self.success_streak >= self.increase_after_successes - 1 {
            self.success_streak = 0;
            if self.desired < self.max {
                self.desired = self.desired + 1;
            }
        } else {
            self.success_streak = self.success_streak + 1;
        }
    }

    /// Records a setback, clearing the streak and scaling the concurrency to `scaled`, the desired
    /// concurrency times the decrease factor, within the bounds.
    pub fn record_setback(&mut self, scaled: usize)
        requires
            old(self)@.wf(),
        ensures
            final(self)@ == old(self)@.after_setback(scaled as nat),
            final(self)@.wf(),
    {
        self.success_streak = 0;
        self.desired = clamp(scaled, self.min, self.max);
    }
}

/// As many successes in a row as the controller asks for, without a setback between them, raise
/// the concurrency by one, up to its maximum, and no earlier.
pub proof fn a_full_streak_raises_by_one(controller: AimdView)
    requires
        controller.wf(),
        controller.streak == 0,
    ensures
        controller.after_successes(controller.increase_after).desired == clamped(
            controller.desired + 1,
            controller.min,
            controller.max,
        ),
        controller.after_successes(controller.increase_after).streak == 0,
        forall|k: nat|
            k < controller.increase_after ==> (#[trigger] controller.after_successes(k)).desired
                == controller.desired,
{
    assert forall|k: nat| k < controller.increase_after implies (
    #[trigger] controller.after_successes(k)).desired == controller.desired by {
        lemma_partial_streak(controller, k);
    }
    lemma_partial_streak(controller, (controller.increase_after - 1) as nat);
}

proof fn lemma_partial_streak(controller: AimdView, k: nat)
    requires
        controller.wf(),
        controller.streak == 0,
        k < controller.increase_after,
    ensures
        controller.after_successes(k) == (AimdView { streak: k, ..controller }),
    decreases k,
{
    if k > 0 {
        lemma_partial_streak(controller, (k - 1) as nat);
    }
}

/// A setback that scales down never raises the concurrency, and none leads below the minimum.
pub proof fn setbacks_never_raise(controller: AimdView, scaled: nat)
    requires
        controller.wf(),
        scaled <= controller.desired,
    ensures
        controller.after_setback(scaled).desired <= controller.desired,
        controller.after_setback(scaled).desired >= controller.min,
        controller.after_setback(scaled).wf(),
{
}

/// A success counts towards the next step up, and the one that fills the streak takes it: one more,
/// up to the most. Anything else starts the streak anew and takes the proposed number, kept between
/// the least and the most.
pub proof fn what_successes_and_setbacks_do(controller: AimdView, proposed: nat)
    requires
        controller.wf(),
    ensures
        controller.streak + 1 < controller.increase_after ==> {
            &&& controller.after_success().streak == controller.streak + 1
            &&& controller.after_success().desired == controller.desired
        },
        controller.streak + 1 == controller.increase_after ==> {
            &&& controller.after_success().streak == 0
            &&& controller.desired < controller.max ==> controller.after_success().desired
                == controller.desired + 1
            &&& controller.desired == controller.max ==> controller.after_success().desired
                == controller.max
        },
        controller.after_setback(proposed).streak == 0,
        controller.min <= proposed <= controller.max ==> controller.after_setback(proposed).desired
            == proposed,
        proposed < controller.min ==> controller.after_setback(proposed).desired == controller.min,
        proposed > controller.max ==> controller.after_setback(proposed).desired == controller.max,
        controller.after_success().min == controller.min,
        controller.after_success().max == controller.max,
        controller.after_setback(proposed).increase_after == controller.increase_after,
{
}

} // verus!
