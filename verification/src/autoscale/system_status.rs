//! Evaluation of load histories.

use crate::time::Instant;
use vstd::prelude::*;

verus! {

/// A point-in-time overload observation from a load signal.
#[derive(Clone, Copy, Debug, PartialEq, Eq, Structural)]
pub struct LoadSnapshot {
    /// The instant at which the observation was captured.
    pub at: Instant,
    /// Whether the signal was overloaded at that instant.
    pub overloaded: bool,
}

/// The concurrency adjustment recommended by current system load.
#[derive(Clone, Copy, Debug, PartialEq, Eq, Structural)]
pub enum ScaleDecision {
    /// Increase desired concurrency.
    ScaleUp,
    /// Decrease desired concurrency.
    ScaleDown,
    /// Keep desired concurrency unchanged.
    Hold,
}

/// Options controlling load-history evaluation.
#[derive(Clone, Copy, Debug, PartialEq, Eq, Structural)]
pub struct SystemStatusOptions {
    /// Minimum observations a signal needs before it contributes to scale-up.
    pub min_samples: usize,
}

impl Default for SystemStatusOptions {
    fn default() -> (r: Self)
        ensures
            r.min_samples == 0,
    {
        SystemStatusOptions { min_samples: 0 }
    }
}

/// The latest observation, the last of those at the same instant.
pub open spec fn latest(samples: Seq<LoadSnapshot>) -> Option<LoadSnapshot>
    decreases samples.len(),
{
    if samples.len() == 0 {
        None
    } else {
        match latest(samples.drop_last()) {
            Some(best) => if samples.last().at.nanos >= best.at.nanos {
                Some(samples.last())
            } else {
                Some(best)
            },
            None => Some(samples.last()),
        }
    }
}

/// How many observations are free of overload.
pub open spec fn healthy_count(samples: Seq<LoadSnapshot>) -> nat
    decreases samples.len(),
{
    if samples.len() == 0 {
        0
    } else {
        healthy_count(samples.drop_last()) + if samples.last().overloaded {
            0nat
        } else {
            1nat
        }
    }
}

/// Whether the latest observation of a signal is an overload.
pub open spec fn overloaded_now(samples: Seq<LoadSnapshot>) -> bool {
    latest(samples) is Some && latest(samples).unwrap().overloaded
}

/// The healthy and the total number of observations of each signal that has enough of them.
pub open spec fn ratios_of(signals: Seq<Vec<LoadSnapshot>>, min_samples: nat) -> Seq<(nat, nat)>
    decreases signals.len(),
{
    if signals.len() == 0 {
        seq![]
    } else {
        let front = ratios_of(signals.drop_last(), min_samples);
        let samples = signals.last()@;
        if samples.len() >= min_samples {
            front.push((healthy_count(samples), samples.len()))
        } else {
            front
        }
    }
}

/// What the load histories show.
#[derive(Debug)]
pub enum Health {
    /// A signal is overloaded now.
    Overloaded,
    /// The healthy and the total number of observations of each signal that has enough of them.
    Ratios(Vec<(usize, usize)>),
}

/// Evaluates load-signal histories into scaling decisions.
#[derive(Clone, Copy, Debug)]
pub struct SystemStatus {
    pub options: SystemStatusOptions,
}

fn last_overloaded(samples: &Vec<LoadSnapshot>) -> (r: bool)
    ensures
        r == overloaded_now(samples@),
{
    let mut best: Option<LoadSnapshot> = None;
    let mut i: usize = 0;
    assert(samples@.subrange(0, 0) =~= seq![]);
    while i < samples.len()
        invariant
            i <= samples.len(),
            best == latest(samples@.subrange(0, i as int)),
        decreases samples.len() - i,
    {
        assert(samples@.subrange(0, i + 1).drop_last() =~= samples@.subrange(0, i as int));
        let sample: LoadSnapshot = samples[i];
        best = match best {
            Some(b) => if sample.at.nanos >= b.at.nanos {
                Some(sample)
            } else {
                Some(b)
            },
            None => Some(sample),
        };
        i = i + 1;
    }
    assert(samples@.subrange(0, samples@.len() as int) =~= samples@);
    match best {
        Some(b) => b.overloaded,
        None => false,
    }
}

fn count_healthy(samples: &Vec<LoadSnapshot>) -> (r: usize)
    ensures
        r == healthy_count(samples@),
        r <= samples@.len(),
{
    let mut count: usize = 0;
    let mut i: usize = 0;
    assert(samples@.subrange(0, 0) =~= seq![]);
    while i < samples.len()
        invariant
            i <= samples.len(),
            count <= i,
            count == healthy_count(samples@.subrange(0, i as int)),
        decreases samples.len() - i,
    {
        assert(samples@.subrange(0, i + 1).drop_last() =~= samples@.subrange(0, i as int));
        if !samples[i].overloaded {
            count = count + 1;
        }
        i = i + 1;
    }
    assert(samples@.subrange(0, samples@.len() as int) =~= samples@);
    count
}

/// The views of pairs of numbers.
pub open spec fn pair_views(pairs: Seq<(usize, usize)>) -> Seq<(nat, nat)> {
    Seq::new(pairs.len(), |i: int| (pairs[i].0 as nat, pairs[i].1 as nat))
}

/// The decision that follows from the signals' health.
pub open spec fn decided(health: Health, mean_reached: bool) -> ScaleDecision {
    match health {
        Health::Overloaded => ScaleDecision::ScaleDown,
        Health::Ratios(pairs) => if pairs@.len() > 0 && mean_reached {
            ScaleDecision::ScaleUp
        } else {
            ScaleDecision::Hold
        },
    }
}

impl SystemStatus {
    /// Creates a status evaluator from the supplied options.
    pub fn new(options: SystemStatusOptions) -> (r: SystemStatus)
        ensures
            r.options == options,
    {
        SystemStatus { options }
    }

    /// The number of observations that a signal needs, at least one.
    pub open spec fn needed(self) -> nat {
        if self.options.min_samples == 0 {
            1
        } else {
            self.options.min_samples as nat
        }
    }

    /// Sums up the recent observations of all signals.
    pub fn health(&self, signals: &Vec<Vec<LoadSnapshot>>) -> (r: Health)
        ensures
            match r {
                Health::Overloaded => exists|i: int|
                    0 <= i < signals@.len() && overloaded_now((#[trigger] signals@[i])@),
                Health::Ratios(pairs) => {
                    &&& forall|i: int|
                        0 <= i < signals@.len() ==> !overloaded_now((#[trigger] signals@[i])@)
                    &&& pair_views(pairs@) == ratios_of(signals@, self.needed())
                },
            },
    {
        let min_samples: usize = if self.options.min_samples == 0 {
            1
        } else {
            self.options.min_samples
        };
        let mut pairs: Vec<(usize, usize)> = Vec::new();
        let mut i: usize = 0;
        assert(signals@.subrange(0, 0) =~= seq![]);
        assert(pair_views(pairs@) =~= seq![]);
        while i < signals.len()
            invariant
                i <= signals.len(),
                min_samples == self.needed(),
                forall|k: int| 0 <= k < i ==> !overloaded_now((#[trigger] signals@[k])@),
                pair_views(pairs@) == ratios_of(signals@.subrange(0, i as int), self.needed()),
            decreases signals.len() - i,
        {
            assert(signals@.subrange(0, i + 1).drop_last() =~= signals@.subrange(0, i as int));
            let samples: &Vec<LoadSnapshot> = &signals[i];
            if last_overloaded(samples) {
                return Health::Overloaded;
            }
            if samples.len() >= min_samples {
                let ghost prior = pair_views(pairs@);
                let healthy: usize = count_healthy(samples);
                pairs.push((healthy, samples.len()));
                assert(pair_views(pairs@) =~= prior.push((healthy as nat, samples@.len())));
            }
            i = i + 1;
        }
        assert(signals@.subrange(0, signals@.len() as int) =~= signals@);
        Health::Ratios(pairs)
    }

    /// Turns the sum into a decision. `mean_reached` says whether the mean of the ratios reaches
    /// the desired utilization.
    pub fn decide(health: &Health, mean_reached: bool) -> (r: ScaleDecision)
        ensures
            r == decided(*health, mean_reached),
    {
        match health {
            Health::Overloaded => ScaleDecision::ScaleDown,
            Health::Ratios(pairs) => if pairs.len() > 0 && mean_reached {
                ScaleDecision::ScaleUp
            } else {
                ScaleDecision::Hold
            },
        }
    }
}

/// The latest snapshot decides whether a signal is overloaded: none is later, and of several at one
/// time it is the last.
pub proof fn the_latest_snapshot_decides(samples: Seq<LoadSnapshot>, at: int)
    requires
        0 <= at < samples.len(),
        forall|k: int| 0 <= k < at ==> (#[trigger] samples[k]).at.nanos <= samples[at].at.nanos,
        forall|k: int| at < k < samples.len() ==> (#[trigger] samples[k]).at.nanos
            < samples[at].at.nanos,
    ensures
        latest(samples) == Some(samples[at]),
        overloaded_now(samples) <==> samples[at].overloaded,
    decreases samples.len(),
{
    let front = samples.drop_last();
    if at < samples.len() - 1 {
        assert(front[at] == samples[at]);
        assert(forall|k: int| 0 <= k < front.len() ==> #[trigger] front[k] == samples[k]);
        the_latest_snapshot_decides(front, at);
        assert(samples.last() == samples[samples.len() - 1]);
    } else {
        lemma_latest_is_a_sample(front);
        if latest(front) is Some {
            let i = choose|i: int| 0 <= i < front.len() && front[i] == latest(front).unwrap();
            assert(front[i] == samples[i]);
        }
    }
}

proof fn lemma_latest_is_a_sample(samples: Seq<LoadSnapshot>)
    ensures
        latest(samples) is Some <==> samples.len() > 0,
        latest(samples) is Some ==> samples.contains(latest(samples).unwrap()),
    decreases samples.len(),
{
    if samples.len() > 0 {
        let front = samples.drop_last();
        lemma_latest_is_a_sample(front);
        assert(samples[samples.len() - 1] == samples.last());
        if latest(front) is Some {
            let i = choose|i: int| 0 <= i < front.len() && front[i] == latest(front).unwrap();
            assert(samples[i] == front[i]);
        }
    }
}

/// A signal without snapshots is not overloaded.
pub proof fn silent_signals_are_not_overloaded()
    ensures
        !overloaded_now(Seq::<LoadSnapshot>::empty()),
{
}

/// Healthy snapshots are counted one by one.
pub proof fn healthy_snapshots_are_counted(
    first: Seq<LoadSnapshot>,
    second: Seq<LoadSnapshot>,
    snapshot: LoadSnapshot,
)
    ensures
        healthy_count(first + second) == healthy_count(first) + healthy_count(second),
        snapshot.overloaded ==> healthy_count(seq![snapshot]) == 0,
        !snapshot.overloaded ==> healthy_count(seq![snapshot]) == 1,
    decreases second.len(),
{
    reveal_with_fuel(healthy_count, 2);
    assert(seq![snapshot].drop_last() =~= Seq::<LoadSnapshot>::empty());
    if second.len() > 0 {
        healthy_snapshots_are_counted(first, second.drop_last(), snapshot);
        assert((first + second).last() == second.last());
        assert((first + second).drop_last() =~= first + second.drop_last());
    } else {
        assert(first + second =~= first);
    }
}

/// A signal takes part with the share of its healthy snapshots where it has as many as are needed, at
/// least one, and in its place among the signals.
pub proof fn which_signals_take_part(
    signals: Seq<Vec<LoadSnapshot>>,
    signal: Vec<LoadSnapshot>,
    status: SystemStatus,
    min_samples: nat,
)
    ensures
        signal@.len() >= min_samples ==> ratios_of(signals.push(signal), min_samples) == ratios_of(
            signals,
            min_samples,
        ).push((healthy_count(signal@), signal@.len())),
        signal@.len() < min_samples ==> ratios_of(signals.push(signal), min_samples) == ratios_of(
            signals,
            min_samples,
        ),
        ratios_of(Seq::<Vec<LoadSnapshot>>::empty(), min_samples).len() == 0,
        status.options.min_samples == 0 ==> status.needed() == 1,
        status.options.min_samples > 0 ==> status.needed() == status.options.min_samples,
{
    assert(signals.push(signal).drop_last() =~= signals);
}

/// An overloaded signal scales down, whatever the others say; without one a mean that is reached scales
/// up, provided that some signal takes part; and else the crawl holds.
pub proof fn how_scaling_is_decided(health: Health, mean_reached: bool)
    ensures
        health is Overloaded <==> decided(health, mean_reached) == ScaleDecision::ScaleDown,
        health is Ratios && health->Ratios_0@.len() > 0 && mean_reached <==> decided(
            health,
            mean_reached,
        ) == ScaleDecision::ScaleUp,
        health is Ratios && (health->Ratios_0@.len() == 0 || !mean_reached) <==> decided(
            health,
            mean_reached,
        ) == ScaleDecision::Hold,
{
}

} // verus!
