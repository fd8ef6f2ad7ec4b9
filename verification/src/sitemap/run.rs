//! What holds of a sitemap list over a whole run.

use crate::request::Request;
use crate::sitemap::list::{ListStep, PendingSitemap, SitemapRequestList};
use crate::sitemap::parser::SitemapEvent;
use vstd::prelude::*;

verus! {

/// What can happen to a list that finds no stored progress.
pub enum ListMove {
    /// It was asked what comes next.
    Step { auto_persist: bool, step: ListStep },
    /// The sitemap on top was opened.
    Opened(PendingSitemap),
    /// The sitemap on top could not be opened.
    FetchFailed(PendingSitemap),
    /// The current sitemap said something.
    Event(SitemapEvent),
    /// The current sitemap was read to its end.
    Completed,
    /// The current sitemap broke off.
    GaveUp,
    /// It looked for stored progress, and found none.
    Loaded,
}

/// Whether a list goes from `before` to `after` by a move.
pub open spec fn moves(before: SitemapRequestList, by: ListMove, after: SitemapRequestList) -> bool {
    match by {
        ListMove::Step { auto_persist, step } => {
            &&& before.stopped() || before.pending_emission is None || before.emitted_total
                < u64::MAX
            &&& before.stepped(auto_persist, step, after)
        },
        ListMove::Opened(next) => before.pending_emission is None && before.has_opened(next, after),
        ListMove::FetchFailed(failed) => before.has_failed(failed, after),
        ListMove::Event(event) => before.current is Some && before.pending_emission is None
            && before.took_event(event, after),
        ListMove::Completed => before.has_completed(after),
        ListMove::GaveUp => before.has_given_up(after),
        ListMove::Loaded => after == (SitemapRequestList { loaded: true, ..before }),
    }
}

/// Whether a list goes through `states` by the moves `by`.
pub open spec fn runs(states: Seq<SitemapRequestList>, by: Seq<ListMove>) -> bool {
    &&& states.len() == by.len() + 1
    &&& forall|i: int| 0 <= i < by.len() ==> moves(#[trigger] states[i], by[i], states[i + 1])
}

/// The requests that a run hands out, in their order.
pub open spec fn handed_out(by: Seq<ListMove>) -> Seq<Request>
    decreases by.len(),
{
    if by.len() == 0 {
        seq![]
    } else {
        let front = handed_out(by.drop_last());
        match by.last() {
            ListMove::Step { auto_persist: _, step: ListStep::Emit { request, checkpoint: _ } } => {
                front.push(request)
            },
            _ => front,
        }
    }
}

/// The texts of the URLs of requests.
pub open spec fn request_texts(requests: Seq<Request>) -> Seq<Seq<char>> {
    Seq::new(requests.len(), |i: int| requests[i].url@.text)
}

/// Whether a move says that nothing more comes.
pub open spec fn is_end(by: ListMove) -> bool {
    match by {
        ListMove::Step { auto_persist: _, step } => step is Done || step is Failed,
        _ => false,
    }
}

/// What a list that was `start` at first has handed out so far.
pub open spec fn has_given(
    start: SitemapRequestList,
    list: SitemapRequestList,
    given: Seq<Request>,
) -> bool {
    let texts = request_texts(given);
    &&& list.limit == start.limit
    &&& list.label == start.label
    &&& list.user_data == start.user_data
    &&& list.emitted_total == given.len()
    &&& list.limit is Some ==> given.len() <= list.limit.unwrap()
    &&& texts.no_duplicates()
    &&& forall|i: int| 0 <= i < texts.len() ==> list.emitted_urls@.contains(#[trigger] texts[i])
    &&& forall|i: int| 0 <= i < given.len() ==> start.emits(#[trigger] given[i], given[i].url@)
    &&& match list.pending_emission {
        Some(request) => {
            &&& list.emitted_urls@.contains(request.url@.text)
            &&& !texts.contains(request.url@.text)
            &&& start.emits(request, request.url@)
        },
        None => true,
    }
}

proof fn lemma_move(
    start: SitemapRequestList,
    before: SitemapRequestList,
    by: ListMove,
    after: SitemapRequestList,
    given: Seq<Request>,
)
    requires
        has_given(start, before, given),
        moves(before, by, after),
    ensures
        match by {
            ListMove::Step { auto_persist: _, step: ListStep::Emit { request, checkpoint: _ } } => {
                has_given(start, after, given.push(request))
            },
            _ => has_given(start, after, given),
        },
        before.finished ==> after.finished,
        is_end(by) ==> after.finished,
{
    match by {
        ListMove::Step { auto_persist: _, step: ListStep::Emit { request, checkpoint: _ } } => {
            let texts = request_texts(given);
            let grown = request_texts(given.push(request));
            assert(grown =~= texts.push(request.url@.text));
            assert forall|i: int, j: int| 0 <= i < grown.len() && 0 <= j < grown.len() && i
                != j implies grown[i] != grown[j] by {
                if i == texts.len() {
                    assert(texts.contains(texts[j]));
                } else if j == texts.len() {
                    assert(texts.contains(texts[i]));
                }
            }
            assert forall|i: int| 0 <= i < grown.len() implies after.emitted_urls@.contains(
                #[trigger] grown[i],
            ) by {
                if i < texts.len() {
                    assert(before.emitted_urls@.contains(texts[i]));
                }
            }
            assert forall|i: int| 0 <= i < given.push(request).len() implies start.emits(
                #[trigger] given.push(request)[i],
                given.push(request)[i].url@,
            ) by {
                if i < given.len() {
                    assert(start.emits(given[i], given[i].url@));
                }
            }
        },
        ListMove::Event(SitemapEvent::Entry(_)) => {
            let texts = request_texts(given);
            if let Some(request) = after.pending_emission {
                assert(!before.emitted_urls@.contains(request.url@.text));
                if texts.contains(request.url@.text) {
                    let i = choose|i: int| 0 <= i < texts.len() && texts[i] == request.url@.text;
                    assert(before.emitted_urls@.contains(texts[i]));
                }
            }
        },
        _ => {},
    }
}

proof fn lemma_run(states: Seq<SitemapRequestList>, by: Seq<ListMove>)
    requires
        runs(states, by),
        states[0].is_untouched(),
    ensures
        has_given(states[0], states.last(), handed_out(by)),
        forall|i: int|
            0 <= i < by.len() && is_end(#[trigger] by[i]) ==> states.last().finished,
    decreases by.len(),
{
    if by.len() == 0 {
        assert(request_texts(handed_out(by)) =~= seq![]);
    } else {
        let front = states.drop_last();
        let fewer = by.drop_last();
        assert(runs(front, fewer)) by {
            assert forall|i: int| 0 <= i < fewer.len() implies moves(
                #[trigger] front[i],
                fewer[i],
                front[i + 1],
            ) by {
                assert(moves(states[i], by[i], states[i + 1]));
            }
        }
        lemma_run(front, fewer);
        let last = by.len() - 1;
        assert(moves(states[last], by[last], states[last + 1]));
        lemma_move(states[0], states[last], by[last], states[last + 1], handed_out(fewer));
        assert forall|i: int| 0 <= i < by.len() && is_end(#[trigger] by[i]) implies
            states.last().finished by {
            if i < last {
                assert(fewer[i] == by[i]);
            }
        }
    }
}

/// Over a whole run from its beginning, whatever the sitemaps say and in whatever order, a list
/// hands out no more requests than its limit and counts them right. All of them are fresh GET
/// requests with the list's label and user data, and no two have the same URL.
pub proof fn a_run_repeats_nothing(states: Seq<SitemapRequestList>, by: Seq<ListMove>)
    requires
        runs(states, by),
        states[0].is_untouched(),
    ensures
        states.last().emitted_total == handed_out(by).len(),
        states[0].limit is Some ==> handed_out(by).len() <= states[0].limit.unwrap(),
        request_texts(handed_out(by)).no_duplicates(),
        forall|i: int|
            0 <= i < handed_out(by).len() ==> states[0].emits(
                #[trigger] handed_out(by)[i],
                handed_out(by)[i].url@,
            ),
{
    lemma_run(states, by);
}

/// Once a list has said that nothing more comes, it says so forever.
pub proof fn the_end_is_final(
    states: Seq<SitemapRequestList>,
    by: Seq<ListMove>,
    end: int,
    later: int,
)
    requires
        runs(states, by),
        states[0].is_untouched(),
        0 <= end < later < by.len(),
        is_end(by[end]),
    ensures
        match by[later] {
            ListMove::Step { auto_persist: _, step } => step is Done,
            _ => true,
        },
{
    let front = states.subrange(0, later + 1);
    let fewer = by.subrange(0, later);
    assert(runs(front, fewer)) by {
        assert forall|i: int| 0 <= i < fewer.len() implies moves(
            #[trigger] front[i],
            fewer[i],
            front[i + 1],
        ) by {
            assert(moves(states[i], by[i], states[i + 1]));
        }
    }
    assert(front[0] == states[0]);
    lemma_run(front, fewer);
    assert(is_end(fewer[end]));
    assert(front.last() == states[later]);
    assert(moves(states[later], by[later], states[later + 1]));
}

} // verus!
