//! Histories of load observations.

use crate::autoscale::system_status::LoadSnapshot;
use crate::time::{Duration, Instant};
use std::collections::VecDeque;
use vstd::prelude::*;

verus! {

/// How long an observation is kept: three hundred seconds.
pub const HISTORY_MAX_AGE_NANOS: u128 = 300_000_000_000;

/// How many observations are kept.
pub const HISTORY_MAX_LEN: usize = 4096;

/// The shortest time between two samples: a millisecond.
pub const MIN_SAMPLE_INTERVAL_NANOS: u128 = 1_000_000;

/// The observations from the first one on that is not older than `cutoff`.
pub open spec fn from_cutoff(snapshots: Seq<LoadSnapshot>, cutoff: int) -> Seq<LoadSnapshot>
    decreases snapshots.len(),
{
    if snapshots.len() > 0 && snapshots[0].at.nanos < cutoff {
        from_cutoff(snapshots.drop_first(), cutoff)
    } else {
        snapshots
    }
}

/// The last `count` observations.
pub open spec fn last_of(snapshots: Seq<LoadSnapshot>, count: nat) -> Seq<LoadSnapshot> {
    if snapshots.len() > count {
        snapshots.skip(snapshots.len() - count)
    } else {
        snapshots
    }
}

/// The history after one more observation.
pub open spec fn recorded(history: Seq<LoadSnapshot>, snapshot: LoadSnapshot) -> Seq<LoadSnapshot> {
    let grown = history.push(snapshot);
    last_of(
        if snapshot.at.nanos >= HISTORY_MAX_AGE_NANOS {
            from_cutoff(grown, snapshot.at.nanos - HISTORY_MAX_AGE_NANOS)
        } else {
            grown
        },
        HISTORY_MAX_LEN as nat,
    )
}

/// The observations that are not older than `cutoff`.
pub open spec fn since(history: Seq<LoadSnapshot>, cutoff: int) -> Seq<LoadSnapshot>
    decreases history.len(),
{
    if history.len() == 0 {
        seq![]
    } else if history.last().at.nanos >= cutoff {
        since(history.drop_last(), cutoff).push(history.last())
    } else {
        since(history.drop_last(), cutoff)
    }
}

/// The recent observations of one signal.
#[derive(Debug)]
pub struct SnapshotHistory {
    snapshots: VecDeque<LoadSnapshot>,
}

impl View for SnapshotHistory {
    type V = Seq<LoadSnapshot>;

    closed spec fn view(&self) -> Seq<LoadSnapshot> {
        self.snapshots@
    }
}

impl Default for SnapshotHistory {
    fn default() -> (r: Self)
        ensures
            r@.len() == 0,
    {
        SnapshotHistory { snapshots: VecDeque::new() }
    }
}

impl SnapshotHistory {
    /// Records an observation, and forgets the old ones and those beyond the limit.
    pub fn push(&mut self, snapshot: LoadSnapshot)
        requires
            old(self)@.len() < usize::MAX,
        ensures
            final(self)@ == recorded(old(self)@, snapshot),
    {
        self.snapshots.push_back(snapshot);
        let ghost grown = self.snapshots@;
        if snapshot.at.nanos >= HISTORY_MAX_AGE_NANOS {
            let cutoff: u128 = snapshot.at.nanos - HISTORY_MAX_AGE_NANOS;
            while self.snapshots.len() > 0 && self.snapshots[0].at.nanos < cutoff
                invariant
                    from_cutoff(grown, cutoff as int) == from_cutoff(
                        self.snapshots@,
                        cutoff as int,
                    ),
                decreases self.snapshots@.len(),
            {
                let ghost prior = self.snapshots@;
                let _ = self.snapshots.pop_front();
                assert(self.snapshots@ =~= prior.drop_first());
            }
        }
        let ghost recent = self.snapshots@;
        while self.snapshots.len() > HISTORY_MAX_LEN
            invariant
                last_of(recent, HISTORY_MAX_LEN as nat) == last_of(
                    self.snapshots@,
                    HISTORY_MAX_LEN as nat,
                ),
            decreases self.snapshots@.len(),
        {
            let ghost prior = self.snapshots@;
            let _ = self.snapshots.pop_front();
            assert(self.snapshots@ =~= prior.drop_first());
            assert(last_of(prior, HISTORY_MAX_LEN as nat) =~= last_of(
                self.snapshots@,
                HISTORY_MAX_LEN as nat,
            ));
        }
    }

    /// The observations of the last `window` before `now`.
    pub fn sample(&self, window: Duration, now: Instant) -> (r: Vec<LoadSnapshot>)
        ensures
            r@ == if now.nanos >= window.nanos {
                since(self@, now.nanos - window.nanos)
            } else {
                self@
            },
    {
        let cutoff: u128 = if now.nanos >= window.nanos {
            now.nanos - window.nanos
        } else {
            0
        };
        let mut out: Vec<LoadSnapshot> = Vec::new();
        let mut i: usize = 0;
        assert(self.snapshots@.subrange(0, 0) =~= seq![]);
        while i < self.snapshots.len()
            invariant
                i <= self.snapshots@.len(),
                out@ == since(self.snapshots@.subrange(0, i as int), cutoff as int),
            decreases self.snapshots@.len() - i,
        {
            assert(self.snapshots@.subrange(0, i + 1).drop_last() =~= self.snapshots@.subrange(
                0,
                i as int,
            ));
            if self.snapshots[i].at.nanos >= cutoff {
                out.push(self.snapshots[i]);
            }
            i = i + 1;
        }
        assert(self.snapshots@.subrange(0, self.snapshots@.len() as int) =~= self.snapshots@);
        proof {
            lemma_since_zero(self.snapshots@);
        }
        out
    }
}

proof fn lemma_since_zero(history: Seq<LoadSnapshot>)
    ensures
        since(history, 0) == history,
    decreases history.len(),
{
    if history.len() > 0 {
        lemma_since_zero(history.drop_last());
        assert(history.drop_last().push(history.last()) =~= history);
    } else {
        assert(history =~= seq![]);
    }
}

/// A history never outgrows its limit, and the newest observation is always in it.
pub proof fn histories_stay_bounded(history: Seq<LoadSnapshot>, snapshot: LoadSnapshot)
    ensures
        0 < recorded(history, snapshot).len() <= HISTORY_MAX_LEN,
        recorded(history, snapshot).last() == snapshot,
{
    let grown = history.push(snapshot);
    if snapshot.at.nanos >= HISTORY_MAX_AGE_NANOS {
        lemma_cutoff_keeps_last(grown, snapshot.at.nanos - HISTORY_MAX_AGE_NANOS);
    }
}

proof fn lemma_cutoff_keeps_last(snapshots: Seq<LoadSnapshot>, cutoff: int)
    requires
        snapshots.len() > 0,
        snapshots.last().at.nanos >= cutoff,
    ensures
        from_cutoff(snapshots, cutoff).len() > 0,
        from_cutoff(snapshots, cutoff).last() == snapshots.last(),
    decreases snapshots.len(),
{
    if snapshots[0].at.nanos < cutoff {
        lemma_cutoff_keeps_last(snapshots.drop_first(), cutoff);
    }
}

/// Whether a runtime that wakes a timer late by `lag` is overloaded: strictly above the limit.
pub fn lag_overloaded(lag: Duration, max_lag: Duration) -> (r: bool)
    ensures
        r == (lag.nanos > max_lag.nanos),
{
    lag.nanos > max_lag.nanos
}

/// Options for detecting scheduling lag of the executor.
#[derive(Clone, Copy, Debug, PartialEq, Eq, Structural)]
pub struct TokioRuntimeLoadSignalOptions {
    /// Maximum scheduling lag before the signal reports overload.
    pub max_lag: Duration,
    /// Interval between scheduling-lag probes. Values below 1 ms are clamped to 1 ms.
    pub sample_interval: Duration,
}

impl Default for TokioRuntimeLoadSignalOptions {
    fn default() -> (r: Self)
        ensures
            r == (TokioRuntimeLoadSignalOptions {
                max_lag: Duration::millis(50),
                sample_interval: Duration::millis(250),
            }),
    {
        TokioRuntimeLoadSignalOptions {
            max_lag: Duration::from_millis(50),
            sample_interval: Duration::from_millis(250),
        }
    }
}

/// The interval between two samples, never shorter than a millisecond.
pub fn effective_interval(interval: Duration) -> (r: Duration)
    ensures
        r.nanos == if interval.nanos >= MIN_SAMPLE_INTERVAL_NANOS {
            interval.nanos
        } else {
            MIN_SAMPLE_INTERVAL_NANOS
        },
        interval.nanos >= 1_000_000 ==> r == interval,
        interval.nanos < 1_000_000 ==> r.nanos == 1_000_000,
{
    interval.longer(Duration { nanos: MIN_SAMPLE_INTERVAL_NANOS })
}

/// A history keeps, of what it held and the new snapshot, what is at most five minutes older than that,
/// and of it the last 4096.
pub proof fn what_a_history_keeps(
    dropped: Seq<LoadSnapshot>,
    recent: Seq<LoadSnapshot>,
    snapshot: LoadSnapshot,
)
    requires
        snapshot.at.nanos >= 300_000_000_000,
        forall|i: int|
            0 <= i < dropped.len() ==> (#[trigger] dropped[i]).at.nanos + 300_000_000_000
                < snapshot.at.nanos,
        recent.len() > 0 ==> recent[0].at.nanos + 300_000_000_000 >= snapshot.at.nanos,
    ensures
        recent.len() < 4096 ==> recorded(dropped + recent, snapshot) == recent.push(snapshot),
        recent.len() >= 4096 ==> recorded(dropped + recent, snapshot) == recent.push(snapshot).skip(
            recent.len() + 1 - 4096,
        ),
{
    let cutoff = snapshot.at.nanos - 300_000_000_000;
    lemma_cutoff_drops(dropped, recent.push(snapshot), cutoff);
    assert((dropped + recent).push(snapshot) =~= dropped + recent.push(snapshot));
    if recent.len() > 0 {
        assert(recent.push(snapshot)[0] == recent[0]);
    }
}

proof fn lemma_cutoff_drops(dropped: Seq<LoadSnapshot>, kept: Seq<LoadSnapshot>, cutoff: int)
    requires
        forall|i: int| 0 <= i < dropped.len() ==> (#[trigger] dropped[i]).at.nanos < cutoff,
        kept.len() > 0,
        kept[0].at.nanos >= cutoff,
    ensures
        from_cutoff(dropped + kept, cutoff) == kept,
    decreases dropped.len(),
{
    let all = dropped + kept;
    if dropped.len() > 0 {
        assert(all[0] == dropped[0]);
        assert(all.drop_first() =~= dropped.drop_first() + kept);
        assert forall|i: int| 0 <= i < dropped.drop_first().len() implies (
        #[trigger] dropped.drop_first()[i]).at.nanos < cutoff by {
            assert(dropped.drop_first()[i] == dropped[i + 1]);
        }
        lemma_cutoff_drops(dropped.drop_first(), kept, cutoff);
    } else {
        assert(all =~= kept);
    }
}

/// A sample holds every snapshot from the start of its window on, in order, and no earlier one.
pub proof fn what_a_sample_holds(
    first: Seq<LoadSnapshot>,
    second: Seq<LoadSnapshot>,
    snapshot: LoadSnapshot,
    cutoff: int,
)
    ensures
        since(first + second, cutoff) == since(first, cutoff) + since(second, cutoff),
        snapshot.at.nanos >= cutoff ==> since(seq![snapshot], cutoff) == seq![snapshot],
        snapshot.at.nanos < cutoff ==> since(seq![snapshot], cutoff).len() == 0,
    decreases second.len(),
{
    reveal_with_fuel(since, 2);
    assert(seq![snapshot].drop_last() =~= Seq::<LoadSnapshot>::empty());
    assert(Seq::<LoadSnapshot>::empty().push(snapshot) =~= seq![snapshot]);
    if second.len() > 0 {
        what_a_sample_holds(first, second.drop_last(), snapshot, cutoff);
        assert((first + second).last() == second.last());
        assert((first + second).drop_last() =~= first + second.drop_last());
        assert(since(first + second, cutoff) =~= since(first, cutoff) + since(second, cutoff));
    } else {
        assert(first + second =~= first);
        assert(since(first, cutoff) + since(second, cutoff) =~= since(first, cutoff));
    }
}

} // verus!
