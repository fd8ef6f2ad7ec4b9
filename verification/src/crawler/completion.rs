//! What becomes of a request once an attempt at it has ended.

use crate::autoscale::pool::AttemptOutcomeKind;
use crate::crawler::attempt::{is_retry_with, panic_error, panic_text};
use crate::errors::{
    first_links_with_a_status_count, first_retry_after, first_status, AntiBotTech, Cause, CrawlError,
    LinkView,
};
use crate::proxy::ProxyInfo;
use crate::request::{Request, RequestState};
use crate::retry_strategy::{AttemptOutcome, AttemptOverrides, RetryDirective, SessionRetryAction};
use crate::session::SessionId;
use crate::storage::ReclaimOptions;
use crate::text::{chars_of, slice, string_of};
use crate::text_map::TextMap;
use crate::time::{Duration, Timestamp, MAX_SPAN_NANOS};
use crate::url::Url;
use vstd::prelude::*;

verus! {

/// Limits and intervals of the engine.
#[derive(Clone, Copy, Debug, PartialEq, Eq, Structural)]
pub struct EngineOptions {
    pub max_request_retries: u32,
    pub max_session_rotations: u32,
    pub request_handler_timeout: Duration,
    pub internal_operation_timeout: Duration,
    pub persist_state_interval: Duration,
    /// Bounds preparation, execution, and handler work after an attempt starts.
    pub task_timeout: Option<Duration>,
    /// Periodically wakes an idle dispatcher as a fallback for missed notifications.
    pub maybe_run_interval: Duration,
}

impl Default for EngineOptions {
    fn default() -> (r: Self)
        ensures
            r == (EngineOptions {
                max_request_retries: 3,
                max_session_rotations: 10,
                request_handler_timeout: Duration::secs(60),
                internal_operation_timeout: Duration::secs(30),
                persist_state_interval: Duration::secs(60),
                task_timeout: None,
                maybe_run_interval: Duration::millis(500),
            }),
    {
        EngineOptions {
            max_request_retries: 3,
            max_session_rotations: 10,
            request_handler_timeout: Duration::from_secs(60),
            internal_operation_timeout: Duration::from_secs(30),
            persist_state_interval: Duration::from_secs(60),
            task_timeout: None,
            maybe_run_interval: Duration::from_millis(500),
        }
    }
}

/// What was seen of a response.
#[derive(Debug)]
pub struct AttemptObservation {
    /// The response status.
    pub status: Option<u16>,
    /// The URL after redirects.
    pub loaded_url: Option<Url>,
    /// The proxy of the attempt.
    pub proxy_info: Option<ProxyInfo>,
    /// The session of the attempt.
    pub session_id: Option<SessionId>,
    /// The size of the response body.
    pub response_bytes: Option<usize>,
}

impl AttemptObservation {
    /// Nothing was seen.
    pub open spec fn none() -> AttemptObservation {
        AttemptObservation {
            status: None,
            loaded_url: None,
            proxy_info: None,
            session_id: None,
            response_bytes: None,
        }
    }
}

impl Default for AttemptObservation {
    fn default() -> (r: Self)
        ensures
            r == AttemptObservation::none(),
    {
        AttemptObservation {
            status: None,
            loaded_url: None,
            proxy_info: None,
            session_id: None,
            response_bytes: None,
        }
    }
}

/// How the task of an attempt ended.
#[derive(Debug)]
pub enum Joined {
    /// It was cancelled.
    Cancelled,
    /// It panicked with a message.
    Panicked(String),
    /// It came to its end.
    Finished {
        request: Request,
        result: Result<(), CrawlError>,
        duration: Duration,
        observation: AttemptObservation,
    },
}

/// An attempt whose result is to be judged.
#[derive(Debug)]
pub struct Attempted {
    pub request: Request,
    pub result: Result<(), CrawlError>,
    pub duration: Duration,
    pub observation: AttemptObservation,
}

/// Puts together how the task of an attempt ended, once it has been cleaned up after.
pub fn conclude(
    panicked: Option<String>,
    request: Request,
    result: Result<(), CrawlError>,
    duration: Duration,
    observation: AttemptObservation,
) -> (r: Joined)
    ensures
        r == match panicked {
            Some(message) => Joined::Panicked(message),
            None => Joined::Finished { request, result, duration, observation },
        },
{
    match panicked {
        Some(message) => Joined::Panicked(message),
        None => Joined::Finished { request, result, duration, observation },
    }
}

/// Whether `r` is read of the end of a task.
pub open spec fn is_read(
    leased: Request,
    end: Joined,
    held: Duration,
    r: Result<Attempted, Request>,
) -> bool {
    match (end, r) {
        (Joined::Cancelled, Err(request)) => request == leased,
        (Joined::Panicked(message), Ok(attempted)) => {
            &&& attempted.request == leased
            &&& attempted.duration == held
            &&& attempted.observation == AttemptObservation::none()
            &&& attempted.result is Err
            &&& is_retry_with(attempted.result->Err_0, panic_text(message@))
        },
        (Joined::Finished { request, result, duration, observation }, Ok(attempted)) => {
            &&& attempted.request == (Request {
                retry_count: leased.retry_count,
                session_rotation_count: leased.session_rotation_count,
                ..request
            })
            &&& attempted.result == result
            &&& attempted.duration == duration
            &&& attempted.observation == observation
        },
        _ => false,
    }
}

/// Reads the end of a task. A cancelled attempt gives the leased request back as it was. A panic
/// is a retryable error, and takes as long as the slot was held. A finished attempt keeps what it
/// changed of the request, but for the counters, which belong to the lease.
pub fn read_attempt(leased: Request, end: Joined, held: Duration) -> (r: Result<
    Attempted,
    Request,
>)
    ensures
        is_read(leased, end, held, r),
{
    match end {
        Joined::Cancelled => Err(leased),
        Joined::Panicked(message) => {
            Ok(
                Attempted {
                    request: leased,
                    result: Err(panic_error(message.as_str())),
                    duration: held,
                    observation: AttemptObservation::default(),
                },
            )
        },
        Joined::Finished { request, result, duration, observation } => {
            let mut request: Request = request;
            request.retry_count = leased.retry_count;
            request.session_rotation_count = leased.session_rotation_count;
            Ok(Attempted { request, result, duration, observation })
        },
    }
}

/// What an error says of the time to wait.
pub open spec fn error_wait(error: CrawlError) -> Option<Duration> {
    match error.cause_spec() {
        Some(c) => first_retry_after(c@),
        None => None,
    }
}

/// What an error says of the response status.
pub open spec fn error_status(error: CrawlError) -> Option<u16> {
    match error.cause_spec() {
        Some(c) => first_status(c@),
        None => None,
    }
}

/// The status of a failed attempt: the observed one, else the one that the error carries.
pub open spec fn failure_status(observation: AttemptObservation, error: CrawlError) -> Option<u16> {
    match observation.status {
        Some(status) => Some(status),
        None => error_status(error),
    }
}

/// What the pool is told of an attempt.
#[derive(Debug)]
pub struct PoolNote {
    pub kind: AttemptOutcomeKind,
    pub status: Option<u16>,
    pub retry_after: Option<Duration>,
}

/// Whether `r` sums an attempt up for the pool.
pub open spec fn is_noted(
    result: Result<(), CrawlError>,
    observation: AttemptObservation,
    r: PoolNote,
) -> bool {
    match result {
        Ok(_) => r.kind == AttemptOutcomeKind::Success && r.status == observation.status
            && r.retry_after is None,
        Err(error) => r.kind == AttemptOutcomeKind::Setback && r.status == failure_status(
            observation,
            error,
        ) && r.retry_after == error_wait(error),
    }
}

/// Sums up an attempt for the pool.
pub fn pool_note(result: &Result<(), CrawlError>, observation: &AttemptObservation) -> (r: PoolNote)
    ensures
        is_noted(*result, *observation, r),
{
    match result {
        Ok(_) => PoolNote {
            kind: AttemptOutcomeKind::Success,
            status: observation.status,
            retry_after: None,
        },
        Err(error) => PoolNote {
            kind: AttemptOutcomeKind::Setback,
            status: status_of(observation, error),
            retry_after: error.retry_after(),
        },
    }
}

fn status_of(observation: &AttemptObservation, error: &CrawlError) -> (r: Option<u16>)
    ensures
        r == failure_status(*observation, *error),
{
    match observation.status {
        Some(status) => Some(status),
        None => error.http_status(),
    }
}

/// Whether a retry strategy is asked about a failure: never about a critical one, nor for a request
/// that is not to be retried.
pub fn strategy_is_asked(request: &Request, error: &CrawlError) -> (r: bool)
    ensures
        r == (!(error is Critical) && !request.no_retry),
{
    !error.is_critical() && !request.no_retry
}

/// What a retry strategy is told of a failed attempt.
pub fn attempt_outcome<'a>(attempted: &'a Attempted, error: &'a CrawlError) -> (r: AttemptOutcome<
    'a,
>)
    ensures
        *r.request == attempted.request,
        r.attempt == attempted.request.retry_count,
        r.status == failure_status(attempted.observation, *error),
        r.error == Some(error),
        r.anti_bot == match *error {
            CrawlError::AntiBotDetected { tech, source: _ } => Some(tech),
            _ => None,
        },
        match r.proxy_info {
            Some(info) => attempted.observation.proxy_info == Some(*info),
            None => attempted.observation.proxy_info is None,
        },
        match r.session_id {
            Some(id) => attempted.observation.session_id == Some(*id),
            None => attempted.observation.session_id is None,
        },
        r.response_bytes == attempted.observation.response_bytes,
{
    let anti_bot: Option<AntiBotTech> = match error {
        CrawlError::AntiBotDetected { tech, source: _ } => Some(tech.clone()),
        _ => None,
    };
    AttemptOutcome {
        request: &attempted.request,
        attempt: attempted.request.retry_count,
        status: status_of(&attempted.observation, error),
        error: Some(error),
        anti_bot,
        proxy_info: attempted.observation.proxy_info.as_ref(),
        session_id: attempted.observation.session_id.as_ref(),
        response_bytes: attempted.observation.response_bytes,
    }
}

/// What a retry strategy answered.
#[derive(Debug)]
pub struct StrategyAnswer {
    pub directive: RetryDirective,
    /// The strategy's limit on ordinary retries.
    pub max_retries: u32,
}

/// Who decides on retries.
#[derive(Debug)]
pub enum RetryPolicy {
    /// The error's class.
    ByClass,
    /// A strategy, which has been asked if it was to be.
    ByStrategy(Option<StrategyAnswer>),
}

/// Whether retrying uses up a session rotation in place of a retry.
pub open spec fn rotates(policy: RetryPolicy, error: CrawlError) -> bool {
    error.rotates_spec() || match policy {
        RetryPolicy::ByStrategy(Some(answer)) => answer.directive.session_action
            != SessionRetryAction::Keep,
        _ => false,
    }
}

/// The limit on ordinary retries.
pub open spec fn retry_cap(policy: RetryPolicy, request: Request, opts: EngineOptions) -> u32 {
    match request.max_retries {
        Some(cap) => cap,
        None => match policy {
            RetryPolicy::ByStrategy(Some(answer)) => answer.max_retries,
            _ => opts.max_request_retries,
        },
    }
}

/// Whether the limit that a retry counts against is not reached.
pub open spec fn within_limits(
    policy: RetryPolicy,
    request: Request,
    error: CrawlError,
    opts: EngineOptions,
) -> bool {
    if rotates(policy, error) {
        request.session_rotation_count < opts.max_session_rotations
    } else {
        request.retry_count < retry_cap(policy, request, opts)
    }
}

/// Whether a failed request is tried again.
pub open spec fn eligible(
    policy: RetryPolicy,
    request: Request,
    error: CrawlError,
    opts: EngineOptions,
) -> bool {
    match policy {
        RetryPolicy::ByClass => !request.no_retry && (error is ForceRetry || (
        error.retryable_spec() && within_limits(policy, request, error, opts))),
        RetryPolicy::ByStrategy(Some(answer)) => !request.no_retry && answer.directive.should_retry
            && (error is ForceRetry || within_limits(policy, request, error, opts)),
        RetryPolicy::ByStrategy(None) => false,
    }
}

/// The overrides that a strategy sets for the next attempt, if it sets any.
pub open spec fn carried(policy: RetryPolicy) -> Option<AttemptOverrides> {
    match policy {
        RetryPolicy::ByStrategy(Some(answer)) => {
            let d = answer.directive;
            if d.proxy_kind is Some || d.user_agent_profile is Some || d.backoff is Some {
                Some(
                    AttemptOverrides {
                        proxy_kind: d.proxy_kind,
                        user_agent_profile: d.user_agent_profile,
                        backoff: d.backoff,
                    },
                )
            } else {
                None
            }
        },
        _ => None,
    }
}

/// The first two hundred characters of a text.
pub open spec fn capped_text(text: Seq<char>) -> Seq<char> {
    if text.len() > 200 {
        text.subrange(0, 200)
    } else {
        text
    }
}

/// Whether `after` is `before` with one more error message.
pub open spec fn notes_error(before: Seq<String>, after: Seq<String>, text: Seq<char>) -> bool {
    after.len() == before.len() + 1 && after.drop_last() == before && after.last()@ == capped_text(
        text,
    )
}

/// Records an error, cut to two hundred characters.
pub fn push_error(request: Request, error: &str) -> (r: Request)
    ensures
        notes_error(request.error_messages@, r.error_messages@, error@),
        r == (Request { error_messages: r.error_messages, ..request }),
{
    let mut out: Request = request;
    let text: Vec<char> = chars_of(error);
    let message: String = if text.len() > 200 {
        string_of(&slice(&text, 0, 200))
    } else {
        string_of(&text)
    };
    out.error_messages.push(message);
    assert(out.error_messages@.drop_last() =~= request.error_messages@);
    out
}

/// What the engine remembers between the attempts at a request, under its unique key.
#[derive(Debug)]
pub struct AttemptMemory {
    /// The time spent on earlier attempts.
    pub accumulated: TextMap<Duration>,
    /// What a strategy set for the next attempt.
    pub overrides: TextMap<AttemptOverrides>,
}

impl AttemptMemory {
    /// The time spent on earlier attempts.
    pub open spec fn spent(self, key: Seq<char>) -> Duration {
        if self.accumulated@.contains_key(key) {
            self.accumulated@[key]
        } else {
            Duration { nanos: 0 }
        }
    }

    /// Remembers nothing.
    pub fn new() -> (r: AttemptMemory)
        ensures
            r.accumulated@ == Map::<Seq<char>, Duration>::empty(),
            r.overrides@ == Map::<Seq<char>, AttemptOverrides>::empty(),
    {
        AttemptMemory { accumulated: TextMap::new(), overrides: TextMap::new() }
    }

    /// Takes what was set for the next attempt.
    pub fn take_overrides(&mut self, key: &str) -> (r: AttemptOverrides)
        ensures
            r == if old(self).overrides@.contains_key(key@) {
                old(self).overrides@[key@]
            } else {
                AttemptOverrides::none()
            },
            final(self).overrides@ == old(self).overrides@.remove(key@),
            final(self).accumulated@ == old(self).accumulated@,
    {
        match self.overrides.remove(key) {
            Some(overrides) => overrides,
            None => AttemptOverrides::default(),
        }
    }
}

/// What is to be done with a request.
#[derive(Debug)]
pub enum Completion {
    /// It succeeded: mark it handled and record the success.
    Succeeded { request: Request, status: Option<u16>, total: Duration },
    /// Its error aborts the crawl: give the lease up and stop with the error.
    Aborted { request: Request, error: CrawlError },
    /// It is tried again: return it to the queue and record the retry.
    Retried { request: Request, options: ReclaimOptions, error_text: String },
    /// It failed for good: run the failure handler, mark it handled and record the failure.
    Failed {
        request: Request,
        error: CrawlError,
        error_text: String,
        status: Option<u16>,
        loaded_url: Option<Url>,
        total: Duration,
    },
}

/// Whether the rotation that an attempt leads to, if it leads to one, can be counted.
pub open spec fn rotation_fits(
    attempted: Attempted,
    policy: RetryPolicy,
    opts: EngineOptions,
) -> bool {
    match attempted.result {
        Ok(_) => true,
        Err(error) => !(error is Critical) && eligible(policy, attempted.request, error, opts)
            && rotates(policy, error) ==> attempted.request.session_rotation_count < u32::MAX,
    }
}

/// Whether the rotation that an attempt leads to, if it leads to one, can be counted.
pub fn can_count_rotation(
    attempted: &Attempted,
    policy: &RetryPolicy,
    opts: &EngineOptions,
) -> (r: bool)
    ensures
        r == rotation_fits(*attempted, *policy, *opts),
{
    match &attempted.result {
        Ok(_) => true,
        Err(error) => attempted.request.session_rotation_count < u32::MAX || error.is_critical()
            || !is_rotating(policy, error) || !is_eligible(
            policy,
            &attempted.request,
            error,
            opts,
        ),
    }
}

/// Whether `r` becomes of a request after an attempt, and what is remembered goes from `before` to
/// `after`.
pub open spec fn completes(
    before: AttemptMemory,
    attempted: Attempted,
    policy: RetryPolicy,
    opts: EngineOptions,
    now: Timestamp,
    r: Completion,
    after: AttemptMemory,
) -> bool {
    let request = attempted.request;
    let key = request.unique_key@;
    let total = Duration {
        nanos: (before.spent(key).nanos + attempted.duration.nanos) as u128,
    };
    match attempted.result {
        Ok(_) => {
            &&& after.accumulated@ == before.accumulated@.remove(key)
            &&& after.overrides@ == before.overrides@.remove(key)
            &&& r == (Completion::Succeeded {
                request: Request {
                    loaded_url: attempted.observation.loaded_url,
                    state: RequestState::Done,
                    handled_at: Some(now),
                    ..request
                },
                status: attempted.observation.status,
                total,
            })
        },
        Err(error) => if error is Critical {
            &&& after.accumulated@ == before.accumulated@.remove(key)
            &&& after.overrides@ == before.overrides@.remove(key)
            &&& match r {
                Completion::Aborted { request: out, error: stop } => {
                    &&& notes_error(
                        request.error_messages@,
                        out.error_messages@,
                        error.message_spec(),
                    )
                    &&& out == (Request { error_messages: out.error_messages, ..request })
                    &&& stop is Critical
                    &&& stop->Critical_0@ == seq![
                        LinkView {
                            message: error->Critical_0.message_spec(),
                            status: None,
                        },
                    ]
                    &&& stop.message_spec() == error.message_spec()
                },
                _ => false,
            }
        } else if eligible(policy, request, error, opts) {
            &&& after.accumulated@ == before.accumulated@.insert(key, total)
            &&& after.overrides@ == match carried(policy) {
                Some(overrides) => before.overrides@.insert(key, overrides),
                None => before.overrides@,
            }
            &&& match r {
                Completion::Retried { request: out, options, error_text } => {
                    let rotating = rotates(policy, error);
                    &&& error_text@ == error.message_spec()
                    &&& notes_error(
                        request.error_messages@,
                        out.error_messages@,
                        error.message_spec(),
                    )
                    &&& out == (Request {
                        error_messages: out.error_messages,
                        session_rotation_count: if rotating {
                            (request.session_rotation_count + 1) as u32
                        } else {
                            request.session_rotation_count
                        },
                        ..request
                    })
                    &&& options == (ReclaimOptions {
                        forefront: false,
                        increment_retry: !rotating,
                    })
                },
                _ => false,
            }
        } else {
            &&& after.accumulated@ == before.accumulated@.remove(key)
            &&& after.overrides@ == before.overrides@.remove(key)
            &&& match r {
                Completion::Failed {
                    request: out,
                    error: same_error,
                    error_text,
                    status,
                    loaded_url,
                    total: spent,
                } => {
                    &&& same_error == error
                    &&& error_text@ == error.message_spec()
                    &&& notes_error(
                        request.error_messages@,
                        out.error_messages@,
                        error.message_spec(),
                    )
                    &&& out == (Request {
                        error_messages: out.error_messages,
                        state: RequestState::Error,
                        handled_at: Some(now),
                        ..request
                    })
                    &&& status == failure_status(attempted.observation, error)
                    &&& loaded_url == attempted.observation.loaded_url
                    &&& spent == total
                },
                _ => false,
            }
        },
    }
}

/// Decides what becomes of a request after an attempt, and updates what is remembered of it.
pub fn complete(
    memory: &mut AttemptMemory,
    attempted: Attempted,
    policy: RetryPolicy,
    opts: &EngineOptions,
    now: Timestamp,
) -> (r: Completion)
    requires
        old(memory).spent(attempted.request.unique_key@).nanos + attempted.duration.nanos
            <= MAX_SPAN_NANOS,
        rotation_fits(attempted, policy, *opts),
    ensures
        completes(*old(memory), attempted, policy, *opts, now, r, *final(memory)),
{
    let mut request: Request = attempted.request;
    let key: String = request.unique_key.clone();
    let spent: Duration = match memory.accumulated.get(key.as_str()) {
        Some(d) => *d,
        None => Duration { nanos: 0 },
    };
    let total: Duration = Duration { nanos: spent.nanos + attempted.duration.nanos };
    match attempted.result {
        Ok(_) => {
            memory.accumulated.remove(key.as_str());
            memory.overrides.remove(key.as_str());
            request.loaded_url = attempted.observation.loaded_url;
            request.state = RequestState::Done;
            request.handled_at = Some(now);
            Completion::Succeeded { request, status: attempted.observation.status, total }
        },
        Err(error) => {
            let error_text: String = error.message();
            if let CrawlError::Critical(cause) = &error {
                memory.accumulated.remove(key.as_str());
                memory.overrides.remove(key.as_str());
                return Completion::Aborted {
                    request: push_error(request, error_text.as_str()),
                    error: CrawlError::critical(Cause::msg(cause.message())),
                };
            }
            let rotating: bool = is_rotating(&policy, &error);
            if is_eligible(&policy, &request, &error, opts) {
                memory.accumulated.insert(key.as_str(), total);
                if let Some(overrides) = take_carried(policy) {
                    memory.overrides.insert(key.as_str(), overrides);
                }
                request = push_error(request, error_text.as_str());
                if rotating {
                    request.session_rotation_count = request.session_rotation_count + 1;
                }
                return Completion::Retried {
                    request,
                    options: ReclaimOptions { forefront: false, increment_retry: !rotating },
                    error_text,
                };
            }
            memory.accumulated.remove(key.as_str());
            memory.overrides.remove(key.as_str());
            let status: Option<u16> = status_of(&attempted.observation, &error);
            request = push_error(request, error_text.as_str());
            request.state = RequestState::Error;
            request.handled_at = Some(now);
            Completion::Failed {
                request,
                error,
                error_text,
                status,
                loaded_url: attempted.observation.loaded_url,
                total,
            }
        },
    }
}

fn is_rotating(policy: &RetryPolicy, error: &CrawlError) -> (r: bool)
    ensures
        r == rotates(*policy, *error),
{
    error.rotates_session() || match policy {
        RetryPolicy::ByStrategy(Some(answer)) => !matches!(
            answer.directive.session_action,
            SessionRetryAction::Keep
        ),
        _ => false,
    }
}

fn is_eligible(
    policy: &RetryPolicy,
    request: &Request,
    error: &CrawlError,
    opts: &EngineOptions,
) -> (r: bool)
    ensures
        r == eligible(*policy, *request, *error, *opts),
{
    let cap: u32 = match request.max_retries {
        Some(cap) => cap,
        None => match policy {
            RetryPolicy::ByStrategy(Some(answer)) => answer.max_retries,
            _ => opts.max_request_retries,
        },
    };
    let within: bool = if is_rotating(policy, error) {
        request.session_rotation_count < opts.max_session_rotations
    } else {
        request.retry_count < cap
    };
    match policy {
        RetryPolicy::ByClass => !request.no_retry && (error.ignores_max_retries() || (
        error.is_retryable() && within)),
        RetryPolicy::ByStrategy(Some(answer)) => !request.no_retry && answer.directive.should_retry
            && (error.ignores_max_retries() || within),
        RetryPolicy::ByStrategy(None) => false,
    }
}

fn take_carried(policy: RetryPolicy) -> (r: Option<AttemptOverrides>)
    ensures
        r == carried(policy),
{
    match policy {
        RetryPolicy::ByStrategy(Some(answer)) => {
            let d: RetryDirective = answer.directive;
            if d.proxy_kind.is_some() || d.user_agent_profile.is_some() || d.backoff.is_some() {
                Some(
                    AttemptOverrides {
                        proxy_kind: d.proxy_kind,
                        user_agent_profile: d.user_agent_profile,
                        backoff: d.backoff,
                    },
                )
            } else {
                None
            }
        },
        _ => None,
    }
}

/// A storage failure aborts the crawl.
pub fn storage_failure(message: &str) -> (r: CrawlError)
    ensures
        r is Critical,
        r->Critical_0@ == seq![LinkView { message: message@, status: None }],
{
    CrawlError::critical(Cause::msg(message))
}

/// Retries are bounded: but for an error that forces them, a request is tried again only below the
/// limit on its ordinary retries, or below that on session rotations.
pub proof fn retries_are_bounded(
    policy: RetryPolicy,
    request: Request,
    error: CrawlError,
    opts: EngineOptions,
)
    requires
        eligible(policy, request, error, opts),
        !(error is ForceRetry),
    ensures
        rotates(policy, error) ==> request.session_rotation_count < opts.max_session_rotations,
        !rotates(policy, error) ==> request.retry_count < retry_cap(policy, request, opts),
{
}

/// A request whose retries are disabled is never tried again, whatever the error and whoever
/// decides.
pub proof fn disabled_retries_stay_disabled(
    policy: RetryPolicy,
    request: Request,
    error: CrawlError,
    opts: EngineOptions,
)
    requires
        request.no_retry,
    ensures
        !eligible(policy, request, error, opts),
{
}

/// A forced retry ignores the limit on retries.
pub proof fn forced_retries_ignore_the_limit(
    request: Request,
    error: CrawlError,
    opts: EngineOptions,
)
    requires
        error is ForceRetry,
        !request.no_retry,
    ensures
        eligible(RetryPolicy::ByClass, request, error, opts),
{
}

/// Without a strategy an error of a permanent class is never retried, whatever the limits; a
/// strategy has full authority over it, below the limits.
pub proof fn permanent_errors_need_a_strategy(
    answer: StrategyAnswer,
    request: Request,
    error: CrawlError,
    opts: EngineOptions,
)
    requires
        !error.retryable_spec(),
        !request.no_retry,
        answer.directive.should_retry,
        answer.directive.session_action == SessionRetryAction::Keep,
        request.retry_count < retry_cap(RetryPolicy::ByStrategy(Some(answer)), request, opts),
    ensures
        !eligible(RetryPolicy::ByClass, request, error, opts),
        eligible(RetryPolicy::ByStrategy(Some(answer)), request, error, opts),
{
}

/// Without a strategy an error that is worth another try is tried again as long as its limit allows:
/// an ordinary one counts as a retry, up to the request's own limit or else the engine's, one that
/// blames the session or names an anti-bot technology counts as a rotation of the session, and a
/// forced one has no limit. Nothing else is tried again, nor is a request whose retries are
/// disabled; but for a critical error, which aborts the crawl, it has failed for good.
pub proof fn retries_happen_when_due(
    before: AttemptMemory,
    attempted: Attempted,
    error: CrawlError,
    opts: EngineOptions,
    now: Timestamp,
    r: Completion,
    after: AttemptMemory,
)
    requires
        completes(before, attempted, RetryPolicy::ByClass, opts, now, r, after),
        attempted.result == Err::<(), CrawlError>(error),
    ensures
        error is Critical <==> r is Aborted,
        r is Retried <==> !attempted.request.no_retry && match error {
            CrawlError::Retry(_) => match attempted.request.max_retries {
                Some(own) => attempted.request.retry_count < own,
                None => attempted.request.retry_count < opts.max_request_retries,
            },
            CrawlError::Session(_) => attempted.request.session_rotation_count
                < opts.max_session_rotations,
            CrawlError::AntiBotDetected { .. } => attempted.request.session_rotation_count
                < opts.max_session_rotations,
            CrawlError::ForceRetry(_) => true,
            CrawlError::NonRetryable(_) => false,
            CrawlError::Critical(_) => false,
            CrawlError::MissingRoute { .. } => false,
        },
        r is Failed <==> !(r is Retried) && !(r is Aborted),
        match r {
            Completion::Retried { request, options, error_text: _ } => {
                let rotated = error is Session || error is AntiBotDetected;
                &&& rotated ==> request.session_rotation_count
                    == attempted.request.session_rotation_count + 1 && !options.increment_retry
                &&& !rotated ==> request.session_rotation_count
                    == attempted.request.session_rotation_count && options.increment_retry
                &&& request.retry_count == attempted.request.retry_count
                &&& !options.forefront
            },
            _ => true,
        },
{
}

/// With a strategy a failed attempt is tried again exactly where the strategy says so and the limit
/// allows it: the rotations' where the error or the strategy asks for another session, else the
/// request's own, or the strategy's. A forced retry has no limit, and a request whose retries are
/// disabled, or of which the strategy was not asked, is not tried again.
pub proof fn strategies_decide_within_the_limits(
    before: AttemptMemory,
    attempted: Attempted,
    error: CrawlError,
    asked: Option<StrategyAnswer>,
    opts: EngineOptions,
    now: Timestamp,
    r: Completion,
    after: AttemptMemory,
)
    requires
        completes(before, attempted, RetryPolicy::ByStrategy(asked), opts, now, r, after),
        attempted.result == Err::<(), CrawlError>(error),
        !(error is Critical),
    ensures
        asked is None || attempted.request.no_retry ==> r is Failed,
        asked is Some && !asked.unwrap().directive.should_retry ==> r is Failed,
        asked is Some && asked.unwrap().directive.should_retry && !attempted.request.no_retry ==> {
            let directive = asked.unwrap().directive;
            let rotated = error is Session || error is AntiBotDetected
                || directive.session_action == SessionRetryAction::Rotate
                || directive.session_action == SessionRetryAction::Retire;
            &&& error is ForceRetry ==> r is Retried
            &&& !(error is ForceRetry) && rotated ==> (r is Retried
                <==> attempted.request.session_rotation_count < opts.max_session_rotations)
            &&& !(error is ForceRetry) && !rotated && attempted.request.max_retries is Some ==> (
            r is Retried <==> attempted.request.retry_count
                < attempted.request.max_retries.unwrap())
            &&& !(error is ForceRetry) && !rotated && attempted.request.max_retries is None ==> (
            r is Retried <==> attempted.request.retry_count < asked.unwrap().max_retries)
            &&& match r {
                Completion::Retried { request, options, error_text: _ } => {
                    &&& options.increment_retry == !rotated
                    &&& !rotated ==> request.session_rotation_count
                        == attempted.request.session_rotation_count
                    &&& rotated && attempted.request.session_rotation_count < u32::MAX
                        ==> request.session_rotation_count
                        == attempted.request.session_rotation_count + 1
                },
                Completion::Failed { .. } => true,
                _ => false,
            }
        },
{
}

/// What a strategy sets for the next attempt is what the next attempt gets, and nothing is left of
/// it once the request is done with.
pub proof fn overrides_reach_the_next_attempt(
    before: AttemptMemory,
    attempted: Attempted,
    answer: StrategyAnswer,
    opts: EngineOptions,
    now: Timestamp,
    r: Completion,
    after: AttemptMemory,
)
    requires
        completes(before, attempted, RetryPolicy::ByStrategy(Some(answer)), opts, now, r, after),
    ensures
        r is Retried && (answer.directive.proxy_kind is Some
            || answer.directive.user_agent_profile is Some || answer.directive.backoff is Some) ==> {
            &&& after.overrides@.contains_key(attempted.request.unique_key@)
            &&& after.overrides@[attempted.request.unique_key@].proxy_kind
                == answer.directive.proxy_kind
            &&& after.overrides@[attempted.request.unique_key@].user_agent_profile
                == answer.directive.user_agent_profile
            &&& after.overrides@[attempted.request.unique_key@].backoff == answer.directive.backoff
        },
        !(r is Retried) ==> !after.overrides@.contains_key(attempted.request.unique_key@),
{
}

/// The time spent on a request adds up over its attempts: it is reported with the last one, kept
/// between the others, and belongs to that request alone.
pub proof fn time_adds_up_over_attempts(
    before: AttemptMemory,
    attempted: Attempted,
    policy: RetryPolicy,
    opts: EngineOptions,
    now: Timestamp,
    r: Completion,
    after: AttemptMemory,
    other: Seq<char>,
)
    requires
        completes(before, attempted, policy, opts, now, r, after),
        before.spent(attempted.request.unique_key@).nanos + attempted.duration.nanos
            <= MAX_SPAN_NANOS,
    ensures
        ({
            let key = attempted.request.unique_key@;
            let earlier = if before.accumulated@.contains_key(key) {
                before.accumulated@[key].nanos as int
            } else {
                0
            };
            match r {
                Completion::Retried { .. } => after.accumulated@.contains_key(key)
                    && after.accumulated@[key].nanos == earlier + attempted.duration.nanos,
                Completion::Succeeded { total, .. } => total.nanos == earlier
                    + attempted.duration.nanos && !after.accumulated@.contains_key(key),
                Completion::Failed { total, .. } => total.nanos == earlier
                    + attempted.duration.nanos && !after.accumulated@.contains_key(key),
                Completion::Aborted { .. } => !after.accumulated@.contains_key(key),
            }
        }),
        other != attempted.request.unique_key@ ==> {
            &&& after.accumulated@.contains_key(other) == before.accumulated@.contains_key(other)
            &&& before.accumulated@.contains_key(other) ==> after.accumulated@[other]
                == before.accumulated@[other]
            &&& after.overrides@.contains_key(other) == before.overrides@.contains_key(other)
            &&& before.overrides@.contains_key(other) ==> after.overrides@[other]
                == before.overrides@[other]
        },
{
}

/// The request that comes out of an attempt.
pub open spec fn outcome_request(r: Completion) -> Request {
    match r {
        Completion::Succeeded { request, .. } => request,
        Completion::Aborted { request, .. } => request,
        Completion::Retried { request, .. } => request,
        Completion::Failed { request, .. } => request,
    }
}

/// A failed attempt leaves its error's text in the request, behind those of earlier attempts and cut
/// to two hundred characters; a successful one leaves none. Only a request that is done with gets a
/// final state and the time of it.
pub proof fn requests_remember_their_attempts(
    before: AttemptMemory,
    attempted: Attempted,
    policy: RetryPolicy,
    opts: EngineOptions,
    now: Timestamp,
    r: Completion,
    after: AttemptMemory,
)
    requires
        completes(before, attempted, policy, opts, now, r, after),
    ensures
        ({
            let earlier = attempted.request.error_messages@;
            let noted = outcome_request(r).error_messages@;
            match attempted.result {
                Ok(_) => r is Succeeded && noted == earlier,
                Err(error) => {
                    let text = error.message_spec();
                    &&& !(r is Succeeded)
                    &&& noted.len() == earlier.len() + 1
                    &&& forall|i: int| 0 <= i < earlier.len() ==> #[trigger] noted[i] == earlier[i]
                    &&& text.len() <= 200 ==> noted.last()@ == text
                    &&& text.len() > 200 ==> noted.last()@ == text.subrange(0, 200)
                },
            }
        }),
        match r {
            Completion::Succeeded { request, status, .. } => request.state == RequestState::Done
                && request.handled_at == Some(now) && status == attempted.observation.status
                && request.loaded_url == attempted.observation.loaded_url,
            Completion::Failed { request, loaded_url, .. } => request.state == RequestState::Error
                && request.handled_at == Some(now) && loaded_url
                == attempted.observation.loaded_url,
            Completion::Retried { request, .. } => request.state == attempted.request.state
                && request.handled_at == attempted.request.handled_at,
            Completion::Aborted { request, .. } => request.state == attempted.request.state
                && request.handled_at == attempted.request.handled_at,
        },
        outcome_request(r).unique_key == attempted.request.unique_key,
        outcome_request(r).url == attempted.request.url,
        outcome_request(r).retry_count == attempted.request.retry_count,
{
    if let Err(error) = attempted.result {
        let earlier = attempted.request.error_messages@;
        let noted = outcome_request(r).error_messages@;
        assert(noted.drop_last() == earlier);
        assert forall|i: int| 0 <= i < earlier.len() implies #[trigger] noted[i] == earlier[i] by {
            assert(noted.drop_last()[i] == noted[i]);
        }
    }
}

/// The status of a failure is that of the response, where one was seen, else the one that the error
/// carries in its outermost link with a status; the wait is that of the outermost link with a wait.
pub proof fn failures_carry_status_and_wait(
    observation: AttemptObservation,
    error: CrawlError,
    cause: Cause,
    at: int,
)
    requires
        error.cause_spec() == Some(cause),
        0 <= at < cause@.len(),
        cause@[at].status is Some,
        forall|k: int| 0 <= k < at ==> (#[trigger] cause@[k]).status is None,
    ensures
        observation.status is Some ==> failure_status(observation, error) == observation.status,
        observation.status is None ==> failure_status(observation, error) == Some(
            cause@[at].status.unwrap().status,
        ),
        cause@[at].status.unwrap().retry_after is Some ==> error_wait(error)
            == cause@[at].status.unwrap().retry_after,
{
    first_links_with_a_status_count(cause@, at);
}

/// The counters of retries and rotations belong to the lease, whatever an attempt did to them; all else
/// that a finished attempt says stands. A panicked one leaves the request as it was, took as long as its
/// slot was held, and failed with an error that is worth another try; a cancelled one gives no result.
pub proof fn what_is_read_of_an_attempt(
    leased: Request,
    end: Joined,
    held: Duration,
    r: Result<Attempted, Request>,
)
    requires
        is_read(leased, end, held, r),
    ensures
        end is Cancelled <==> r is Err,
        r is Err ==> r->Err_0 == leased,
        r is Ok ==> r->Ok_0.request.retry_count == leased.retry_count
            && r->Ok_0.request.session_rotation_count == leased.session_rotation_count,
        match end {
            Joined::Panicked(message) => {
                &&& r->Ok_0.request == leased
                &&& r->Ok_0.duration == held
                &&& r->Ok_0.observation.status is None
                &&& r->Ok_0.result is Err && r->Ok_0.result->Err_0 is Retry
                &&& r->Ok_0.result->Err_0->Retry_0@[0].message == "request handler panicked: "@
                    + message@
            },
            Joined::Finished { request, result, duration, observation } => {
                &&& r->Ok_0.request.url == request.url
                &&& r->Ok_0.request.user_data == request.user_data
                &&& r->Ok_0.request.label == request.label
                &&& r->Ok_0.request.no_retry == request.no_retry
                &&& r->Ok_0.request.max_retries == request.max_retries
                &&& r->Ok_0.result == result
                &&& r->Ok_0.duration == duration
                &&& r->Ok_0.observation == observation
            },
            Joined::Cancelled => true,
        },
{
}

/// The pool hears of a success with the status that was seen and without a wait, and of a failure as a
/// setback, with the status and the wait that it carries.
pub proof fn what_the_pool_hears(
    result: Result<(), CrawlError>,
    observation: AttemptObservation,
    r: PoolNote,
)
    requires
        is_noted(result, observation, r),
    ensures
        result is Ok <==> r.kind == AttemptOutcomeKind::Success,
        result is Err <==> r.kind == AttemptOutcomeKind::Setback,
        result is Ok ==> r.status == observation.status && r.retry_after is None,
        observation.status is Some ==> r.status == observation.status,
        result is Err && observation.status is None && result->Err_0.cause_spec() is None ==> r.status
            is None && r.retry_after is None,
        result is Err && observation.status is None && result->Err_0.cause_spec() is Some ==> r.status
            == first_status(result->Err_0.cause_spec().unwrap()@),
        result is Err && result->Err_0.cause_spec() is Some ==> r.retry_after == first_retry_after(
            result->Err_0.cause_spec().unwrap()@,
        ),
{
}

/// What a request that failed for good or is tried again is reported with: its own error, the full text
/// of it, and for a failure the status that was seen or that the error carries.
pub proof fn what_failures_are_reported_with(
    before: AttemptMemory,
    attempted: Attempted,
    error: CrawlError,
    policy: RetryPolicy,
    opts: EngineOptions,
    now: Timestamp,
    r: Completion,
    after: AttemptMemory,
)
    requires
        completes(before, attempted, policy, opts, now, r, after),
        attempted.result == Err::<(), CrawlError>(error),
    ensures
        match r {
            Completion::Retried { error_text, .. } => error_text@ == error.message_spec(),
            Completion::Failed { error: reported, error_text, status, .. } => {
                &&& reported == error
                &&& error_text@ == error.message_spec()
                &&& attempted.observation.status is Some ==> status == attempted.observation.status
                &&& attempted.observation.status is None && error.cause_spec() is Some ==> status
                    == first_status(error.cause_spec().unwrap()@)
                &&& attempted.observation.status is None && error.cause_spec() is None ==> status
                    is None
            },
            Completion::Aborted { error: stop, .. } => {
                &&& stop is Critical
                &&& stop->Critical_0@.len() == 1
                &&& stop.message_spec() == error.message_spec()
            },
            Completion::Succeeded { .. } => false,
        },
{
}

/// The retry directives that a strategy can start from set nothing: they only say whether to retry.
pub proof fn plain_directives_set_nothing(should_retry: bool)
    ensures
        RetryDirective::plain(should_retry).should_retry == should_retry,
        RetryDirective::plain(should_retry).backoff is None,
        RetryDirective::plain(should_retry).proxy_kind is None,
        RetryDirective::plain(should_retry).user_agent_profile is None,
        RetryDirective::plain(should_retry).session_action == SessionRetryAction::Keep,
{
}

} // verus!
