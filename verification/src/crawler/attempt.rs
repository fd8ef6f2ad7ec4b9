//! The course of one attempt at a request.

use crate::errors::{Cause, CrawlError, LinkView};
use crate::text::joined;
use crate::time::{Duration, Instant};
use vstd::prelude::*;

verus! {

/// The text of a span of seconds and nanoseconds with a unit, as debugging output shows it.
pub uninterp spec fn duration_text(seconds: u64, nanos: u32) -> Seq<char>;

/// The `Debug` form of `std::time::Duration`.
#[verifier::external_body]
fn debug_text(seconds: u64, nanos: u32) -> (r: String)
    requires
        nanos < 1_000_000_000,
    ensures
        r@ == duration_text(seconds, nanos),
{
    format!("{:?}", std::time::Duration::new(seconds, nanos))
}

/// The text of a span of time.
pub open spec fn span_text_spec(span: Duration) -> Seq<char> {
    duration_text((span.nanos / 1_000_000_000) as u64, (span.nanos % 1_000_000_000) as u32)
}

fn span_text(span: Duration) -> (r: String)
    requires
        span.wf(),
    ensures
        r@ == span_text_spec(span),
{
    debug_text((span.nanos / 1_000_000_000) as u64, (span.nanos % 1_000_000_000) as u32)
}

/// What a lifecycle hook is told at the end of an attempt.
#[derive(Clone, Copy, Debug, PartialEq, Eq, Structural)]
pub enum CleanupKind {
    /// The handler ran and everything succeeded.
    Handled,
    /// The attempt failed before the handler.
    ExecuteFailed,
    /// The handler or what follows it failed.
    HandlerFailed,
}

/// How a phase of an attempt ended.
#[derive(Debug)]
pub enum PhaseEnd {
    /// It gave a result.
    Completed(Result<(), CrawlError>),
    /// Its time ran out.
    TimedOut,
    /// It panicked with a message.
    Panicked(String),
}

/// Where an attempt stands.
#[derive(Debug)]
pub enum AttemptStep {
    /// Preparing the request.
    Prepare,
    /// Fetching.
    Execute,
    /// Running the request handler.
    Handle,
    /// Running the hook that follows a successful handler.
    Confirm,
    /// Over: one cleanup is due, and the result stands.
    Finish { cleanup: CleanupKind, result: Result<(), CrawlError> },
}

/// The time limits of an attempt.
#[derive(Clone, Copy, Debug, PartialEq, Eq, Structural)]
pub struct AttemptLimits {
    /// Bounds preparation, execution, and handler work together.
    pub task_timeout: Option<Duration>,
    /// Bounds the request handler.
    pub request_handler_timeout: Duration,
}

/// The message of an attempt that ran out of time.
pub open spec fn task_timeout_text(timeout: Duration) -> Seq<char> {
    "task timed out after "@ + span_text_spec(timeout)
}

/// The message of a handler that ran out of time.
pub open spec fn handler_timeout_text(timeout: Duration) -> Seq<char> {
    "request handler timed out after "@ + span_text_spec(timeout)
}

/// The message of an attempt that panicked.
pub open spec fn panic_text(message: Seq<char>) -> Seq<char> {
    "request handler panicked: "@ + message
}

/// Whether `error` is a retryable error with a text.
pub open spec fn is_retry_with(error: CrawlError, text: Seq<char>) -> bool {
    error is Retry && error->Retry_0@ == seq![LinkView { message: text, status: None }]
}

/// The error of an attempt that ran out of time.
pub fn task_timeout_error(timeout: Duration) -> (r: CrawlError)
    requires
        timeout.wf(),
    ensures
        is_retry_with(r, task_timeout_text(timeout)),
{
    let text: String = joined("task timed out after ", span_text(timeout).as_str());
    CrawlError::retry(Cause::msg(text.as_str()))
}

/// The error of an attempt that panicked.
pub fn panic_error(message: &str) -> (r: CrawlError)
    ensures
        is_retry_with(r, panic_text(message@)),
{
    let text: String = joined("request handler panicked: ", message);
    CrawlError::retry(Cause::msg(text.as_str()))
}

/// The point in time at which an attempt runs out of time.
pub fn attempt_deadline(started: Instant, limits: &AttemptLimits) -> (r: Option<Instant>)
    requires
        limits.task_timeout is Some ==> started.can_add(limits.task_timeout.unwrap()),
    ensures
        r == match limits.task_timeout {
            Some(timeout) => Some(started.plus(timeout)),
            None => None,
        },
{
    match limits.task_timeout {
        Some(timeout) => Some(started.add_span(timeout)),
        None => None,
    }
}

/// The point in time at which the handler runs out of time: its own limit, or the attempt's where
/// that is earlier.
pub fn handler_deadline(deadline: Option<Instant>, now: Instant, limits: &AttemptLimits) -> (r:
    Instant)
    requires
        now.can_add(limits.request_handler_timeout),
    ensures
        r.nanos <= now.plus(limits.request_handler_timeout).nanos,
        deadline is Some ==> r.nanos <= deadline.unwrap().nanos,
        r == now.plus(limits.request_handler_timeout) || deadline == Some(r),
{
    let own: Instant = now.add_span(limits.request_handler_timeout);
    match deadline {
        Some(at) => if at.nanos < own.nanos {
            at
        } else {
            own
        },
        None => own,
    }
}

/// Whether `next` is where an attempt stands after a phase ended.
pub open spec fn follows(
    step: AttemptStep,
    end: PhaseEnd,
    limits: AttemptLimits,
    next: AttemptStep,
) -> bool {
    match (step, end) {
        (AttemptStep::Finish { .. }, _) => false,
        (AttemptStep::Prepare, PhaseEnd::Completed(Ok(_))) => next is Execute,
        (AttemptStep::Execute, PhaseEnd::Completed(Ok(_))) => next is Handle,
        (AttemptStep::Handle, PhaseEnd::Completed(Ok(_))) => next is Confirm,
        (AttemptStep::Confirm, PhaseEnd::Completed(Ok(_))) => next == (AttemptStep::Finish {
            cleanup: CleanupKind::Handled,
            result: Ok(()),
        }),
        (AttemptStep::Prepare, PhaseEnd::Completed(Err(e))) => next == (AttemptStep::Finish {
            cleanup: CleanupKind::ExecuteFailed,
            result: Err(e),
        }),
        (AttemptStep::Execute, PhaseEnd::Completed(Err(e))) => next == (AttemptStep::Finish {
            cleanup: CleanupKind::ExecuteFailed,
            result: Err(e),
        }),
        (AttemptStep::Handle, PhaseEnd::Completed(Err(e))) => next == (AttemptStep::Finish {
            cleanup: CleanupKind::HandlerFailed,
            result: Err(e),
        }),
        (AttemptStep::Confirm, PhaseEnd::Completed(Err(e))) => next == (AttemptStep::Finish {
            cleanup: CleanupKind::HandlerFailed,
            result: Err(e),
        }),
        (AttemptStep::Handle, PhaseEnd::TimedOut) => match next {
            AttemptStep::Finish { cleanup, result } => cleanup == CleanupKind::HandlerFailed
                && result is Err && is_retry_with(
                result->Err_0,
                handler_timeout_text(limits.request_handler_timeout),
            ),
            _ => false,
        },
        (_, PhaseEnd::TimedOut) => match next {
            AttemptStep::Finish { cleanup, result } => cleanup == CleanupKind::ExecuteFailed
                && result is Err && limits.task_timeout is Some && is_retry_with(
                result->Err_0,
                task_timeout_text(limits.task_timeout.unwrap()),
            ),
            _ => false,
        },
        (_, PhaseEnd::Panicked(message)) => match next {
            AttemptStep::Finish { cleanup, result } => {
                &&& cleanup == if step is Handle || step is Confirm {
                    CleanupKind::HandlerFailed
                } else {
                    CleanupKind::ExecuteFailed
                }
                &&& result is Err
                &&& is_retry_with(result->Err_0, panic_text(message@))
            },
            _ => false,
        },
    }
}

/// Takes an attempt one phase further.
///
/// Preparing and fetching can run out of time only where the attempt as a whole is bounded, and the
/// hook behind the handler never does.
pub fn advance(step: AttemptStep, end: PhaseEnd, limits: &AttemptLimits) -> (r: AttemptStep)
    requires
        !(step is Finish),
        end is TimedOut ==> step is Handle || ((step is Prepare || step is Execute)
            && limits.task_timeout is Some),
        limits.request_handler_timeout.wf(),
        limits.task_timeout is Some ==> limits.task_timeout.unwrap().wf(),
    ensures
        follows(step, end, *limits, r),
{
    match end {
        PhaseEnd::Completed(Ok(_)) => match step {
            AttemptStep::Prepare => AttemptStep::Execute,
            AttemptStep::Execute => AttemptStep::Handle,
            AttemptStep::Handle => AttemptStep::Confirm,
            _ => AttemptStep::Finish { cleanup: CleanupKind::Handled, result: Ok(()) },
        },
        PhaseEnd::Completed(Err(error)) => match step {
            AttemptStep::Handle | AttemptStep::Confirm => AttemptStep::Finish {
                cleanup: CleanupKind::HandlerFailed,
                result: Err(error),
            },
            _ => AttemptStep::Finish { cleanup: CleanupKind::ExecuteFailed, result: Err(error) },
        },
        PhaseEnd::TimedOut => match step {
            AttemptStep::Handle => {
                let text: String = joined(
                    "request handler timed out after ",
                    span_text(limits.request_handler_timeout).as_str(),
                );
                AttemptStep::Finish {
                    cleanup: CleanupKind::HandlerFailed,
                    result: Err(CrawlError::retry(Cause::msg(text.as_str()))),
                }
            },
            _ => match limits.task_timeout {
                Some(timeout) => AttemptStep::Finish {
                    cleanup: CleanupKind::ExecuteFailed,
                    result: Err(task_timeout_error(timeout)),
                },
                None => AttemptStep::Finish { cleanup: CleanupKind::ExecuteFailed, result: Ok(()) },
            },
        },
        PhaseEnd::Panicked(message) => {
            let cleanup: CleanupKind = match step {
                AttemptStep::Handle | AttemptStep::Confirm => CleanupKind::HandlerFailed,
                _ => CleanupKind::ExecuteFailed,
            };
            AttemptStep::Finish { cleanup, result: Err(panic_error(message.as_str())) }
        },
    }
}

/// How many phases lie ahead at most.
pub open spec fn phases_ahead(step: AttemptStep) -> nat {
    match step {
        AttemptStep::Prepare => 4,
        AttemptStep::Execute => 3,
        AttemptStep::Handle => 2,
        AttemptStep::Confirm => 1,
        AttemptStep::Finish { .. } => 0,
    }
}

/// Whether an attempt goes through `steps`, its phases ending by `ends`.
pub open spec fn goes_through(
    steps: Seq<AttemptStep>,
    ends: Seq<PhaseEnd>,
    limits: AttemptLimits,
) -> bool {
    &&& steps.len() == ends.len() + 1
    &&& steps[0] is Prepare
    &&& forall|i: int|
        0 <= i < ends.len() ==> follows(#[trigger] steps[i], ends[i], limits, steps[i + 1])
}

/// Every attempt comes to its end, with one cleanup, however its phases end: by a result, by a
/// timeout or by a panic. Only the last step asks for a cleanup, there are four phases at most, the
/// first phase that fails is the last, and success goes with the cleanup of a handled request and
/// with no other.
pub proof fn attempts_end_with_one_cleanup(
    steps: Seq<AttemptStep>,
    ends: Seq<PhaseEnd>,
    limits: AttemptLimits,
)
    requires
        goes_through(steps, ends, limits),
    ensures
        ends.len() + phases_ahead(steps.last()) <= 4,
        forall|i: int| 0 <= i < ends.len() ==> !((#[trigger] steps[i]) is Finish),
        ends.len() == 4 ==> steps.last() is Finish,
        ends.len() > 0 && !(ends.last() is Completed && ends.last()->Completed_0 is Ok)
            ==> steps.last() is Finish,
        match steps.last() {
            AttemptStep::Finish { cleanup, result } => result is Ok <==> cleanup
                == CleanupKind::Handled,
            _ => true,
        },
    decreases ends.len(),
{
    if ends.len() > 0 {
        let last = ends.len() - 1;
        let front = steps.drop_last();
        assert(goes_through(front, ends.drop_last(), limits)) by {
            assert forall|i: int| 0 <= i < ends.drop_last().len() implies follows(
                #[trigger] front[i],
                ends.drop_last()[i],
                limits,
                front[i + 1],
            ) by {
                assert(follows(steps[i], ends[i], limits, steps[i + 1]));
            }
        }
        attempts_end_with_one_cleanup(front, ends.drop_last(), limits);
        assert(follows(steps[last], ends[last], limits, steps[last + 1]));
        assert(front.last() == steps[last]);
        assert forall|i: int| 0 <= i < ends.len() implies !((#[trigger] steps[i]) is Finish) by {
            if i < last {
                assert(front[i] == steps[i]);
            }
        }
    }
}

/// An attempt that panics is cleaned up after like any other that fails: before the handler as one
/// that was not executed, from the handler on as one that was not handled.
pub proof fn panics_are_cleaned_up_after(
    step: AttemptStep,
    message: String,
    limits: AttemptLimits,
    next: AttemptStep,
)
    requires
        follows(step, PhaseEnd::Panicked(message), limits, next),
    ensures
        match next {
            AttemptStep::Finish { cleanup, result } => {
                &&& step is Prepare || step is Execute ==> cleanup == CleanupKind::ExecuteFailed
                &&& step is Handle || step is Confirm ==> cleanup == CleanupKind::HandlerFailed
                &&& result is Err && is_retry_with(result->Err_0, panic_text(message@))
            },
            _ => false,
        },
{
}

/// A phase that succeeds leads to the next: preparing, executing, handling, confirming, and then the
/// end of a handled request.
pub proof fn phases_come_in_order(
    step: AttemptStep,
    limits: AttemptLimits,
    next: AttemptStep,
)
    requires
        follows(step, PhaseEnd::Completed(Ok(())), limits, next),
    ensures
        step is Prepare ==> next is Execute,
        step is Execute ==> next is Handle,
        step is Handle ==> next is Confirm,
        step is Confirm ==> next == (AttemptStep::Finish {
            cleanup: CleanupKind::Handled,
            result: Ok(()),
        }),
        !(step is Finish),
{
}

/// A phase that fails ends the attempt with its own error: before the handler as one that was not
/// executed, from the handler on as one that was not handled.
pub proof fn failed_phases_end_the_attempt(
    step: AttemptStep,
    error: CrawlError,
    limits: AttemptLimits,
    next: AttemptStep,
)
    requires
        follows(step, PhaseEnd::Completed(Err(error)), limits, next),
    ensures
        step is Prepare || step is Execute ==> next == (AttemptStep::Finish {
            cleanup: CleanupKind::ExecuteFailed,
            result: Err(error),
        }),
        step is Handle || step is Confirm ==> next == (AttemptStep::Finish {
            cleanup: CleanupKind::HandlerFailed,
            result: Err(error),
        }),
{
}

/// A phase that runs out of time ends the attempt with an error that is worth another try and that
/// names the limit: the handler's own in the handler, the task's before it.
pub proof fn timeouts_name_their_limit(
    step: AttemptStep,
    limits: AttemptLimits,
    next: AttemptStep,
)
    requires
        follows(step, PhaseEnd::TimedOut, limits, next),
    ensures
        next is Finish,
        next->result is Err,
        next->result->Err_0 is Retry,
        ({
            let links = next->result->Err_0->Retry_0@;
            let own = limits.request_handler_timeout;
            let seconds = |span: Duration|
                duration_text(
                    (span.nanos / 1_000_000_000) as u64,
                    (span.nanos % 1_000_000_000) as u32,
                );
            &&& links.len() == 1 && links[0].status is None
            &&& step is Handle ==> next->cleanup == CleanupKind::HandlerFailed && links[0].message
                == "request handler timed out after "@ + seconds(own)
            &&& step is Prepare || step is Execute ==> next->cleanup == CleanupKind::ExecuteFailed
                && limits.task_timeout is Some && links[0].message == "task timed out after "@
                + seconds(limits.task_timeout.unwrap())
        }),
{
}

/// A panic is reported with its message as an error that is worth another try.
pub proof fn panics_are_reported_with_their_message(error: CrawlError, message: Seq<char>)
    requires
        is_retry_with(error, panic_text(message)),
    ensures
        error is Retry,
        error->Retry_0@.len() == 1,
        error->Retry_0@[0].message == "request handler panicked: "@ + message,
        error->Retry_0@[0].status is None,
{
}

} // verus!
