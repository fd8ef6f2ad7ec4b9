//! A request queue that sitemap entries are drained into.

use crate::request::Request;
use vstd::prelude::*;

verus! {

/// What a fetch from the combined queue does next.
#[derive(Clone, Copy, Debug, PartialEq, Eq, Structural)]
pub enum TandemAction {
    /// Fetch from the inner queue.
    FetchInner,
    /// Drain a batch of sitemap entries into the inner queue first.
    Drain,
}

/// What a pass that drains sitemap entries does next.
#[derive(Clone, Copy, Debug, PartialEq, Eq, Structural)]
pub enum DrainStep {
    /// Add the entry that waits to the inner queue.
    Add,
    /// Take an entry from the sitemap.
    Take,
    /// Nothing: the pass is over.
    Stop,
}

/// The draining of sitemap entries into a queue.
#[derive(Debug)]
pub struct TandemState {
    /// The most entries drained in one pass.
    pub batch: usize,
    /// An entry that has been taken from the sitemap and not yet added to the queue.
    pub pending_add: Option<Request>,
    /// How many entries this pass may still add.
    pub left: usize,
}

impl TandemState {
    /// Drains at most 32 entries per pass.
    pub fn new() -> (r: TandemState)
        ensures
            r.batch == 32,
            r.pending_add is None,
            r.left == 0,
    {
        TandemState { batch: 32, pending_add: None, left: 0 }
    }

    /// Sets the maximum number of sitemap entries drained per pass, at least one.
    pub fn batch_size(self, n: usize) -> (r: TandemState)
        ensures
            r.batch == if n == 0 {
                1
            } else {
                n
            },
            r.pending_add == self.pending_add,
            r.left == self.left,
    {
        TandemState {
            batch: if n == 0 {
                1
            } else {
                n
            },
            pending_add: self.pending_add,
            left: self.left,
        }
    }

    /// Whether sitemap entries remain: one that waits, or what a list that goes on will give.
    pub open spec fn remains(self, list_finished: bool) -> bool {
        self.pending_add is Some || !list_finished
    }

    /// What a fetch does next: queued work comes first, and the sitemap is drained only while the
    /// inner queue is empty.
    pub open spec fn action(self, inner_empty: bool, list_finished: bool) -> TandemAction {
        if inner_empty && self.remains(list_finished) {
            TandemAction::Drain
        } else {
            TandemAction::FetchInner
        }
    }

    /// What the combined queue says where the inner queue says `inner`.
    pub open spec fn says(self, list_finished: bool, inner: bool) -> bool {
        inner && !self.remains(list_finished)
    }

    /// What a fetch from the combined queue does next.
    pub fn next_action(&self, inner_empty: bool, list_finished: bool) -> (r: TandemAction)
        ensures
            r == self.action(inner_empty, list_finished),
    {
        if inner_empty && (self.pending_add.is_some() || !list_finished) {
            TandemAction::Drain
        } else {
            TandemAction::FetchInner
        }
    }

    /// Begins a pass.
    pub fn begin_pass(&mut self)
        ensures
            *final(self) == (TandemState { left: old(self).batch, ..*old(self) }),
    {
        self.left = self.batch;
    }

    /// What the pass does next: an entry that waits comes first, and no more than a batch is added.
    pub open spec fn drains(self) -> DrainStep {
        if self.left == 0 {
            DrainStep::Stop
        } else if self.pending_add is Some {
            DrainStep::Add
        } else {
            DrainStep::Take
        }
    }

    /// What the pass does next.
    pub fn drain_step(&self) -> (r: DrainStep)
        ensures
            r == self.drains(),
    {
        if self.left == 0 {
            DrainStep::Stop
        } else if self.pending_add.is_some() {
            DrainStep::Add
        } else {
            DrainStep::Take
        }
    }

    /// Records what was taken from the sitemap: an entry waits until the inner queue has taken it,
    /// and a sitemap that gives none ends the pass.
    pub fn took(&mut self, entry: Option<Request>)
        ensures
            *final(self) == match entry {
                Some(request) => TandemState { pending_add: Some(request), ..*old(self) },
                None => TandemState { left: 0, ..*old(self) },
            },
    {
        match entry {
            Some(request) => self.hold(request),
            None => {
                self.left = 0;
            },
        }
    }

    /// Holds an entry until the inner queue has taken it.
    pub fn hold(&mut self, request: Request)
        ensures
            *final(self) == (TandemState { pending_add: Some(request), ..*old(self) }),
    {
        self.pending_add = Some(request);
    }

    /// Records that the inner queue has taken the entry.
    pub fn added(&mut self)
        ensures
            *final(self) == (TandemState {
                pending_add: None,
                left: if old(self).left == 0 {
                    0
                } else {
                    (old(self).left - 1) as usize
                },
                ..*old(self)
            }),
    {
        self.pending_add = None;
        if self.left > 0 {
            self.left = self.left - 1;
        }
    }

    /// What the combined queue says of itself where the inner queue says `inner`: `false` while
    /// sitemap entries remain, which keeps a crawl from ending too early.
    pub fn flag(&self, list_finished: bool, inner: bool) -> (r: bool)
        ensures
            r == self.says(list_finished, inner),
    {
        inner && self.pending_add.is_none() && list_finished
    }
}

/// A pass adds no more than a batch: each entry that is added uses up one of the places left, and a
/// pass without places is over.
pub proof fn passes_are_bounded(state: TandemState)
    ensures
        state.drains() == DrainStep::Add ==> state.left > 0 && state.pending_add is Some,
        state.drains() == DrainStep::Take ==> state.left > 0 && state.pending_add is None,
        state.left == 0 ==> state.drains() == DrainStep::Stop,
{
}

/// A crawl does not end while sitemap entries remain: whatever the inner queue says, the combined
/// queue is neither empty nor finished, and a fetch that finds the inner queue empty drains them. An
/// entry that is held remains until the inner queue has taken it.
pub proof fn sitemap_entries_are_not_lost(state: TandemState, list_finished: bool, inner: bool)
    requires
        state.remains(list_finished),
    ensures
        !state.says(list_finished, inner),
        state.action(true, list_finished) == TandemAction::Drain,
        state.pending_add is Some ==> state.remains(true),
{
}

/// The list is drained where the queue is empty and something is left of the list, a request that could
/// not be added included; else the queue is asked. The two together are finished or empty only where
/// the queue is and nothing is left of the list.
pub proof fn when_the_list_is_drained(
    state: TandemState,
    inner_empty: bool,
    list_finished: bool,
    inner: bool,
)
    ensures
        inner_empty && (state.pending_add is Some || !list_finished) ==> state.action(
            inner_empty,
            list_finished,
        ) == TandemAction::Drain,
        !inner_empty || (state.pending_add is None && list_finished) ==> state.action(
            inner_empty,
            list_finished,
        ) == TandemAction::FetchInner,
        state.says(list_finished, inner) <==> inner && list_finished && state.pending_add is None,
{
}

/// A pass ends when nothing of it is left; a request that could not be added before is added first,
/// and else the next one is taken from the list.
pub proof fn how_a_pass_goes(state: TandemState)
    ensures
        state.left == 0 ==> state.drains() == DrainStep::Stop,
        state.left > 0 && state.pending_add is Some ==> state.drains() == DrainStep::Add,
        state.left > 0 && state.pending_add is None ==> state.drains() == DrainStep::Take,
{
}

} // verus!
