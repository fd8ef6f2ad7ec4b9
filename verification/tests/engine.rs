use millipede_core::autoscale::aimd::AimdController;
use millipede_core::autoscale::pool::{
    apply_scale_decision, AttemptOutcomeKind, AutoscaleMode, AutoscaledPool, AutoscaledPoolOptions,
};
use millipede_core::autoscale::rate_limit::DomainLimiter;
use millipede_core::autoscale::signals::{
    effective_interval, lag_overloaded, SnapshotHistory, TokioRuntimeLoadSignalOptions,
    HISTORY_MAX_LEN,
};
use millipede_core::autoscale::system_status::{
    Health, LoadSnapshot, ScaleDecision, SystemStatus, SystemStatusOptions,
};
use millipede_core::config::{Configuration, Environment};
use millipede_core::crawler::attempt::{
    advance, attempt_deadline, handler_deadline, AttemptLimits, AttemptStep, CleanupKind, PhaseEnd,
};
use millipede_core::crawler::builder::{CrawlerBuildError, CrawlerBuilder, RunGuard};
use millipede_core::crawler::completion::{
    attempt_outcome, can_count_rotation, complete, conclude, pool_note, read_attempt, storage_failure, strategy_is_asked, Attempted,
    AttemptMemory, AttemptObservation, Completion, EngineOptions, Joined, RetryPolicy,
    StrategyAnswer,
};
use millipede_core::crawler::dispatch::{Dispatcher, Gate, IdleAction, Pump, Turn};
use millipede_core::crawler::start::{IntoStartRequest, IntoStartRequests};
use millipede_core::errors::{AntiBotTech, Cause, CrawlError};
use millipede_core::events::{handled_request, RequestFinalState};
use millipede_core::http_client::HttpStatusError;
use millipede_core::proxy::ProxyKind;
use millipede_core::request::{Request, RequestState};
use millipede_core::retry_strategy::{AttemptOverrides, RetryDirective, SessionRetryAction};
use millipede_core::storage::{observe, HealthReport, Lease, LeaseId};
use millipede_core::time::{Duration, Instant, Timestamp};
use millipede_core::util::RandomSource;
use std::sync::Arc;

const SECOND: u128 = 1_000_000_000;

fn at(seconds: u128) -> Instant {
    Instant { nanos: seconds * SECOND }
}

fn millis(count: u64) -> Duration {
    Duration::from_millis(count)
}

#[test]
fn lag_overload_uses_strict_boundary() {
    let max_lag = millis(50);
    assert!(!lag_overloaded(max_lag, max_lag));
    assert!(lag_overloaded(max_lag.saturating_add(Duration::from_nanos(1)), max_lag));
    assert_eq!(effective_interval(Duration { nanos: 0 }), millis(1));
    assert_eq!(effective_interval(millis(2)), millis(2));
}

#[test]
fn autoscale_interval_is_copied_verbatim() {
    let pool = AutoscaledPool::new(AutoscaledPoolOptions {
        autoscale_interval: Duration { nanos: 0 },
        ..AutoscaledPoolOptions::default()
    });
    assert_eq!(pool.autoscale_interval, Duration { nanos: 0 });
    assert_eq!(pool.autoscale_interval(), Duration { nanos: 0 });
}

#[test]
fn consecutive_values_differ() {
    let mut source = RandomSource::from_nanos(1_700_000_000_000_000_000);
    assert_ne!(source.rand_u64(), source.rand_u64());
}

#[test]
fn random_numbers_are_those_of_the_mixer() {
    let mut source = RandomSource { state: 0 };
    assert_eq!(source.rand_u64(), 0xe220_a839_7b1d_cdaf);
    assert_eq!(source.rand_u64(), 0x6e78_9e6a_a1b9_65f4);
    let mut first = RandomSource { state: 1 };
    let mut second = RandomSource { state: 2 };
    assert_ne!(first.rand_u64(), second.rand_u64());
}

#[test]
fn snapshot_history_caps_length_and_prunes_old_entries() {
    let mut history = SnapshotHistory::default();
    for _ in 0..=HISTORY_MAX_LEN {
        history.push(LoadSnapshot { at: at(10), overloaded: false });
    }
    let forever = Duration { nanos: u128::MAX };
    assert_eq!(history.sample(forever, at(10)).len(), HISTORY_MAX_LEN);
    history.push(LoadSnapshot { at: at(10 + 301), overloaded: true });
    let samples = history.sample(forever, at(311));
    assert_eq!(samples.len(), 1);
    assert!(samples[0].overloaded);
}

#[test]
fn samples_come_from_the_window() {
    let mut history = SnapshotHistory::default();
    for second in [1, 2, 3] {
        history.push(LoadSnapshot { at: at(second), overloaded: second == 2 });
    }
    let samples = history.sample(Duration::from_secs(1), at(3));
    assert_eq!(samples.len(), 2);
    assert!(samples[0].overloaded);
}

#[test]
fn fixed_pools_ignore_signals() {
    let mut pool = AutoscaledPool::new(AutoscaledPoolOptions {
        fixed_concurrency: Some(4),
        mode: AutoscaleMode::LoadSignals,
        signal_count: 1,
        ..AutoscaledPoolOptions::default()
    });
    assert!(pool.is_fixed());
    assert_eq!(pool.desired_concurrency(), 4);
    assert_eq!(pool.min_concurrency(), 4);
    assert_eq!(pool.max_concurrency(), 4);
    assert!(!pool.scale(ScaleDecision::ScaleUp, 1, 1));
    pool.record_outcome(AttemptOutcomeKind::Setback, 0);
    assert_eq!(pool.desired_concurrency(), 4);
}

#[test]
fn load_signals_without_signals_fall_back() {
    let options = AutoscaledPoolOptions {
        mode: AutoscaleMode::LoadSignals,
        min_concurrency: 0,
        max_concurrency: 5,
        desired_concurrency: Some(9),
        ..AutoscaledPoolOptions::default()
    };
    let mut fallback = AutoscaledPool::new(options);
    assert_eq!(fallback.desired_concurrency(), 5);
    fallback.record_outcome(AttemptOutcomeKind::Setback, 2);
    assert_eq!(fallback.desired_concurrency(), 2);
    for _ in 0..10 {
        fallback.record_outcome(AttemptOutcomeKind::Success, 0);
    }
    assert_eq!(fallback.desired_concurrency(), 3);
    let mut signals = AutoscaledPool::new(AutoscaledPoolOptions { signal_count: 2, ..options });
    assert!(signals.scale(ScaleDecision::ScaleDown, 0, 0));
    assert_eq!(signals.desired_concurrency(), 4);
    assert!(!signals.scale(ScaleDecision::Hold, 3, 3));
}

#[test]
fn aimd_rises_by_one_and_falls_by_a_factor() {
    let mut controller = AimdController::new(0, 8, 4, 3);
    controller.record_success();
    controller.record_success();
    assert_eq!(controller.desired_concurrency(), 4);
    controller.record_success();
    assert_eq!(controller.desired_concurrency(), 5);
    controller.record_success();
    controller.record_setback(2);
    assert_eq!(controller.desired_concurrency(), 2);
    controller.record_success();
    controller.record_success();
    assert_eq!(controller.desired_concurrency(), 2);
    controller.record_setback(0);
    assert_eq!(controller.desired_concurrency(), 1);
}

#[test]
fn scale_decisions_stay_in_bounds() {
    assert_eq!(apply_scale_decision(10, ScaleDecision::Hold, 1, 20, 3, 3), 10);
    assert_eq!(apply_scale_decision(10, ScaleDecision::ScaleUp, 1, 20, 0, 3), 11);
    assert_eq!(apply_scale_decision(19, ScaleDecision::ScaleUp, 1, 20, 3, 3), 20);
    assert_eq!(apply_scale_decision(10, ScaleDecision::ScaleDown, 1, 20, 3, 3), 7);
    assert_eq!(apply_scale_decision(2, ScaleDecision::ScaleDown, 1, 20, 3, 3), 1);
    assert_eq!(apply_scale_decision(usize::MAX, ScaleDecision::ScaleUp, 1, usize::MAX, 9, 9), usize::MAX);
}

#[test]
fn status_follows_the_latest_sample() {
    let status = SystemStatus::new(SystemStatusOptions { min_samples: 2 });
    let sample = |second, overloaded| LoadSnapshot { at: at(second), overloaded };
    let overloaded = status.health(&vec![
        vec![sample(1, false)],
        vec![sample(2, true), sample(1, false)],
    ]);
    assert!(matches!(overloaded, Health::Overloaded));
    assert_eq!(SystemStatus::decide(&overloaded, true), ScaleDecision::ScaleDown);
    let tie = status.health(&vec![vec![sample(2, true), sample(2, false)]]);
    assert!(matches!(tie, Health::Ratios(ref pairs) if pairs == &[(1, 2)]));
    assert_eq!(SystemStatus::decide(&tie, true), ScaleDecision::ScaleUp);
    assert_eq!(SystemStatus::decide(&tie, false), ScaleDecision::Hold);
    let few = status.health(&vec![vec![sample(1, false)]]);
    assert_eq!(SystemStatus::decide(&few, true), ScaleDecision::Hold);
}

#[test]
fn domain_limiter_enforces_same_domain_delay() {
    let mut limiter = DomainLimiter::new(millis(200));
    let now = at(1);
    assert_eq!(limiter.reserve_slot("a.example", now), millis(0));
    assert_eq!(limiter.reserve_slot("a.example", now), millis(200));
    assert_eq!(limiter.reserve_slot("b.example", now), millis(0));
}

#[test]
fn domain_limiter_extends_on_retry_after_and_429() {
    let mut limiter = DomainLimiter::new(millis(200));
    let now = at(1);
    limiter.note_response("example.com", Some(429), Some(Duration::from_secs(2)), now);
    let wait = limiter.reserve_slot("example.com", now);
    assert!(wait >= Duration::from_secs(2));
    let now = Instant { nanos: now.nanos + wait.nanos };
    limiter.note_response("example.com", Some(200), None, now);
    assert_eq!(limiter.reserve_slot("example.com", now), millis(200));
    assert_eq!(limiter.states.get("example.com").unwrap().consecutive_429s, 0);
}

#[test]
fn domain_limiter_adds_429_penalty_after_reserved_slots() {
    let mut limiter = DomainLimiter::new(Duration::from_secs(1));
    let now = at(1);
    assert_eq!(limiter.reserve_slot("example.com", now), millis(0));
    assert_eq!(limiter.reserve_slot("example.com", now), Duration::from_secs(1));
    limiter.note_response("example.com", Some(429), None, now);
    let next = limiter.states.get("example.com").unwrap().next_allowed.unwrap();
    assert_eq!(next.nanos - now.nanos, 3 * SECOND);
}

#[test]
fn domain_limiter_staggers_back_to_back_reservations_during_429_penalty() {
    let mut limiter = DomainLimiter::new(millis(200));
    let now = at(1);
    limiter.note_response("example.com", Some(429), None, now);
    let first = limiter.reserve_slot("example.com", now);
    let second = limiter.reserve_slot("example.com", now);
    assert_eq!(first, Duration::from_secs(1));
    assert_eq!(second.nanos - first.nanos, millis(1200).nanos);
}

#[test]
fn domain_limiter_set_delay_floor_applies_to_the_next_reservation() {
    let mut limiter = DomainLimiter::new(millis(0));
    let now = at(1);
    assert_eq!(limiter.reserve_slot("example.com", now), millis(0));
    limiter.set_delay_floor("example.com", millis(500));
    assert_eq!(limiter.reserve_slot("example.com", now), millis(500));
}

#[test]
fn repeated_429s_back_off_exponentially_and_cap() {
    let mut limiter = DomainLimiter::new(millis(0));
    let now = at(1);
    let mut previous = now;
    let mut penalties = Vec::new();
    for _ in 0..3 {
        limiter.note_response("example.com", Some(429), None, now);
        let next = limiter.states.get("example.com").unwrap().next_allowed.unwrap();
        penalties.push((next.nanos - previous.nanos) / SECOND);
        previous = next;
    }
    assert_eq!(penalties, [1, 2, 4]);
    for _ in 0..20 {
        limiter.note_response("example.com", Some(429), None, now);
    }
    let before = limiter.states.get("example.com").unwrap().next_allowed.unwrap();
    limiter.note_response("example.com", Some(429), None, now);
    let after = limiter.states.get("example.com").unwrap().next_allowed.unwrap();
    assert_eq!(after.nanos - before.nanos, 300 * SECOND);
}

fn request(url: &str) -> Request {
    Request::get(url).build().unwrap()
}

fn attempted(request: Request, result: Result<(), CrawlError>) -> Attempted {
    Attempted {
        request,
        result,
        duration: millis(30),
        observation: AttemptObservation::default(),
    }
}

fn finish(
    memory: &mut AttemptMemory,
    request: Request,
    result: Result<(), CrawlError>,
    policy: RetryPolicy,
) -> Completion {
    complete(
        memory,
        attempted(request, result),
        policy,
        &EngineOptions::default(),
        Timestamp { unix_nanos: 5 },
    )
}

#[test]
fn retry_increments_retry_count() {
    let mut memory = AttemptMemory::new();
    let error = CrawlError::retry(Cause::msg("flaky"));
    let done = finish(&mut memory, request("https://e.test/"), Err(error), RetryPolicy::ByClass);
    match done {
        Completion::Retried { request, options, error_text } => {
            assert!(options.increment_retry && !options.forefront);
            assert_eq!(error_text, "retryable: flaky");
            assert_eq!(request.error_messages, ["retryable: flaky"]);
            assert_eq!(request.session_rotation_count, 0);
        }
        other => panic!("{other:?}"),
    }
    assert_eq!(memory.accumulated.get("https://e.test/"), Some(&millis(30)));
}

#[test]
fn session_error_increments_session_rotation_count() {
    let mut memory = AttemptMemory::new();
    let error = CrawlError::session(Cause::msg("rotate"));
    match finish(&mut memory, request("https://e.test/"), Err(error), RetryPolicy::ByClass) {
        Completion::Retried { request, options, .. } => {
            assert!(!options.increment_retry);
            match finish(&mut memory, request, Ok(()), RetryPolicy::ByClass) {
                Completion::Succeeded { request, .. } => {
                    assert_eq!((request.session_rotation_count, request.retry_count), (1, 0));
                }
                other => panic!("{other:?}"),
            }
        }
        other => panic!("{other:?}"),
    }
    let mut worn = request("https://e.test/");
    worn.session_rotation_count = 10;
    let error = CrawlError::session(Cause::msg("blocked"));
    let done = finish(&mut memory, worn, Err(error), RetryPolicy::ByClass);
    assert!(matches!(done, Completion::Failed { .. }));
}

#[test]
fn only_rotations_need_room_to_count() {
    let options = EngineOptions::default();
    let worn = || {
        let mut worn = request("https://e.test/");
        worn.session_rotation_count = u32::MAX;
        worn
    };
    let refused = || Err(CrawlError::retry(Cause::msg("flaky")));
    let retry = attempted(worn(), refused());
    assert!(can_count_rotation(&retry, &RetryPolicy::ByClass, &options));
    let mut memory = AttemptMemory::new();
    match finish(&mut memory, worn(), refused(), RetryPolicy::ByClass) {
        Completion::Retried { request, .. } => {
            assert_eq!(request.session_rotation_count, u32::MAX);
        }
        other => panic!("{other:?}"),
    }
    let forced = attempted(worn(), Err(CrawlError::force_retry(Cause::msg("again"))));
    let rotate = RetryPolicy::ByStrategy(Some(StrategyAnswer {
        directive: RetryDirective::retry().session_action(SessionRetryAction::Rotate),
        max_retries: 1,
    }));
    assert!(!can_count_rotation(&forced, &rotate, &options));
}

#[test]
fn hosts_are_reserved_by_the_lease_that_comes_up() {
    let mut pool = AutoscaledPool::new(AutoscaledPoolOptions {
        same_domain_delay: Duration::from_secs(5),
        ..Default::default()
    });
    let mut dispatcher = Dispatcher::new(4);
    dispatcher.offer(lease("https://e.test/1", 100), AttemptOverrides::default(), at(1));
    dispatcher.offer(lease("https://e.test/2", 100), AttemptOverrides::default(), at(1));
    assert!(dispatcher.can_pump(&pool, 2, at(1)));
    assert!(matches!(dispatcher.pump(&mut pool, 0, at(1)), Pump::Stop));
    match dispatcher.pump(&mut pool, 2, at(1)) {
        Pump::Candidate(entry) => {
            assert_eq!(entry.lease.request.url.as_str(), "https://e.test/1");
            assert!(entry.domain_reserved);
        }
        other => panic!("{other:?}"),
    }
    assert!(matches!(dispatcher.pump(&mut pool, 2, at(1)), Pump::Again));
    assert_eq!(dispatcher.deferred[0].ready_at, at(6));
    assert!(dispatcher.deferred[0].domain_reserved);
    assert!(matches!(dispatcher.pump(&mut pool, 2, at(5)), Pump::Stop));
    assert!(matches!(dispatcher.pump(&mut pool, 2, at(6)), Pump::Candidate(_)));
}

#[test]
fn force_retry_ignores_max_retries() {
    let options = EngineOptions { max_request_retries: 1, ..EngineOptions::default() };
    let mut memory = AttemptMemory::new();
    let mut current = request("https://e.test/");
    let mut finished = 0;
    loop {
        let result = if current.retry_count < 5 {
            Err(CrawlError::force_retry(Cause::msg("force")))
        } else {
            Ok(())
        };
        let attempt = attempted(current, result);
        let now = Timestamp { unix_nanos: 5 };
        match complete(&mut memory, attempt, RetryPolicy::ByClass, &options, now) {
            Completion::Retried { request, options, .. } => {
                assert!(options.increment_retry);
                current = request;
                current.retry_count += 1;
            }
            Completion::Succeeded { request, .. } => {
                finished += 1;
                assert_eq!(request.retry_count, 5);
                break;
            }
            other => panic!("{other:?}"),
        }
    }
    assert_eq!(finished, 1);
}

#[test]
fn lag_options_have_defaults() {
    let options = TokioRuntimeLoadSignalOptions::default();
    assert_eq!((options.max_lag, options.sample_interval), (millis(50), millis(250)));
}

#[test]
fn disabled_retries_are_not_forced() {
    let mut memory = AttemptMemory::new();
    let mut stubborn = request("https://e.test/");
    stubborn.no_retry = true;
    let error = CrawlError::force_retry(Cause::msg("force"));
    match finish(&mut memory, stubborn, Err(error), RetryPolicy::ByClass) {
        Completion::Failed { request, .. } => assert_eq!(request.state, RequestState::Error),
        other => panic!("{other:?}"),
    }
}

#[test]
fn strategies_are_told_what_was_seen() {
    let failed = attempted(request("https://e.test/"), Ok(()));
    let error = CrawlError::AntiBotDetected {
        tech: AntiBotTech::Kasada,
        source: Cause::from_status(HttpStatusError::new(403)),
    };
    let outcome = attempt_outcome(&failed, &error);
    assert_eq!((outcome.attempt, outcome.status), (0, Some(403)));
    assert_eq!(outcome.anti_bot, Some(AntiBotTech::Kasada));
    assert!(outcome.error.is_some() && outcome.session_id.is_none());
    assert!(!RetryDirective::default().should_retry);
}

#[test]
fn panics_are_cleaned_up_after_once() {
    let limits = limits(None);
    let panic = || PhaseEnd::Panicked("boom".into());
    for (step, expected) in [
        (AttemptStep::Prepare, CleanupKind::ExecuteFailed),
        (AttemptStep::Execute, CleanupKind::ExecuteFailed),
        (AttemptStep::Handle, CleanupKind::HandlerFailed),
        (AttemptStep::Confirm, CleanupKind::HandlerFailed),
    ] {
        match advance(step, panic(), &limits) {
            AttemptStep::Finish { cleanup, result } => {
                assert_eq!(cleanup, expected);
                let error = result.unwrap_err();
                assert_eq!(error.message(), "retryable: request handler panicked: boom");
            }
            other => panic!("{other:?}"),
        }
    }
    let none = AttemptObservation::default();
    let end = conclude(Some("boom".into()), request("https://e.test/"), Ok(()), millis(1), none);
    assert!(matches!(end, Joined::Panicked(message) if message == "boom"));
    let none = AttemptObservation::default();
    let end = conclude(None, request("https://e.test/"), Ok(()), millis(1), none);
    assert!(matches!(end, Joined::Finished { result: Ok(()), .. }));
}

#[test]
fn non_retryable_calls_failure_handler() {
    let mut memory = AttemptMemory::new();
    memory.accumulated.insert("https://e.test/", millis(10));
    let error = CrawlError::non_retryable(Cause::from_status(HttpStatusError::new(404)));
    let done = finish(&mut memory, request("https://e.test/"), Err(error), RetryPolicy::ByClass);
    match &done {
        Completion::Failed { request, error_text, status, total, .. } => {
            assert_eq!(error_text, "non-retryable: HTTP status 404 Not Found");
            assert_eq!(*status, Some(404));
            assert_eq!(*total, millis(40));
            assert_eq!(request.state, RequestState::Error);
            assert_eq!(request.handled_at, Some(Timestamp { unix_nanos: 5 }));
        }
        other => panic!("{other:?}"),
    }
    assert!(!memory.accumulated.contains_key("https://e.test/"));
    let snapshot = Arc::new(request("https://e.test/"));
    let handled = handled_request(&done, snapshot, None).unwrap();
    assert_eq!(handled.outcome, RequestFinalState::Failed);
    assert_eq!(handled.response_status, Some(404));
}

#[test]
fn critical_halts_engine() {
    let mut memory = AttemptMemory::new();
    let error = CrawlError::critical(Cause::msg("halt"));
    let done = finish(&mut memory, request("https://e.test/"), Err(error), RetryPolicy::ByClass);
    match &done {
        Completion::Aborted { request, error } => {
            assert_eq!(error.message(), "critical: halt");
            assert_eq!(request.error_messages, ["critical: halt"]);
        }
        other => panic!("{other:?}"),
    }
    assert!(handled_request(&done, Arc::new(request("https://e.test/")), None).is_none());
    assert!(matches!(storage_failure("disk"), CrawlError::Critical(_)));
}

#[test]
fn retries_end_at_the_limit() {
    let mut memory = AttemptMemory::new();
    for (own, count, retried) in [(None, 2, true), (None, 3, false), (Some(5), 4, true), (Some(0), 0, false)] {
        let mut request = request("https://e.test/");
        request.max_retries = own;
        request.retry_count = count;
        let error = CrawlError::retry(Cause::msg("x"));
        let done = finish(&mut memory, request, Err(error), RetryPolicy::ByClass);
        assert_eq!(matches!(done, Completion::Retried { .. }), retried);
    }
    let mut closed = request("https://e.test/");
    closed.no_retry = true;
    let error = CrawlError::retry(Cause::msg("x"));
    let done = finish(&mut memory, closed, Err(error), RetryPolicy::ByClass);
    assert!(matches!(done, Completion::Failed { .. }));
}

fn answer(directive: RetryDirective) -> RetryPolicy {
    RetryPolicy::ByStrategy(Some(StrategyAnswer { directive, max_retries: 1 }))
}

#[test]
fn strategies_have_full_authority() {
    let mut memory = AttemptMemory::new();
    let permanent = || CrawlError::non_retryable(Cause::msg("x"));
    let directive = RetryDirective::retry()
        .backoff(millis(250))
        .proxy_kind(ProxyKind::MediaAsset)
        .user_agent_profile("mobile");
    let done = finish(&mut memory, request("https://e.test/"), Err(permanent()), answer(directive));
    assert!(matches!(done, Completion::Retried { .. }));
    let carried = memory.take_overrides("https://e.test/");
    assert_eq!(carried.backoff, Some(millis(250)));
    assert_eq!(carried.proxy_kind, Some(ProxyKind::MediaAsset));
    assert_eq!(carried.user_agent_profile.as_deref(), Some("mobile"));
    assert_eq!(memory.take_overrides("https://e.test/").backoff, None);

    let stop = answer(RetryDirective::stop());
    let error = CrawlError::force_retry(Cause::msg("x"));
    let done = finish(&mut memory, request("https://e.test/"), Err(error), stop);
    assert!(matches!(done, Completion::Failed { .. }));

    let rotate = answer(RetryDirective::retry().session_action(SessionRetryAction::Retire));
    match finish(&mut memory, request("https://e.test/"), Err(permanent()), rotate) {
        Completion::Retried { request, options, .. } => {
            assert_eq!(request.session_rotation_count, 1);
            assert!(!options.increment_retry);
        }
        other => panic!("{other:?}"),
    }

    let mut worn = request("https://e.test/");
    worn.retry_count = 1;
    let done = finish(&mut memory, worn, Err(permanent()), answer(RetryDirective::retry()));
    assert!(matches!(done, Completion::Failed { .. }));

    let mut closed = request("https://e.test/");
    closed.no_retry = true;
    assert!(!strategy_is_asked(&closed, &permanent()));
    assert!(strategy_is_asked(&request("https://e.test/"), &permanent()));
    let done = finish(&mut memory, closed, Err(permanent()), RetryPolicy::ByStrategy(None));
    assert!(matches!(done, Completion::Failed { .. }));
}

#[test]
fn duration_accumulates_across_attempts() {
    let mut memory = AttemptMemory::new();
    let error = CrawlError::retry(Cause::msg("x"));
    finish(&mut memory, request("https://e.test/"), Err(error), RetryPolicy::ByClass);
    match finish(&mut memory, request("https://e.test/"), Ok(()), RetryPolicy::ByClass) {
        Completion::Succeeded { request, total, .. } => {
            assert_eq!(total, millis(60));
            assert_eq!(request.state, RequestState::Done);
        }
        other => panic!("{other:?}"),
    }
    assert!(!memory.accumulated.contains_key("https://e.test/"));
}

#[test]
fn handler_panic_reclaims_with_error() {
    let panicked = Joined::Panicked("boom".into());
    let attempted = read_attempt(request("https://e.test/"), panicked, millis(7)).unwrap();
    let error = attempted.result.unwrap_err();
    assert_eq!(error.message(), "retryable: request handler panicked: boom");
    assert_eq!(attempted.duration, millis(7));
    let cancelled = read_attempt(request("https://e.test/"), Joined::Cancelled, millis(7));
    assert_eq!(cancelled.unwrap_err().unique_key, "https://e.test/");
}

#[test]
fn before_request_mutation_survives_retry() {
    let mut leased = request("https://e.test/");
    leased.retry_count = 2;
    leased.session_rotation_count = 1;
    let mut changed = request("https://e.test/");
    changed.label = Some("marked".into());
    changed.retry_count = 9;
    let joined = Joined::Finished {
        request: changed,
        result: Ok(()),
        duration: millis(1),
        observation: AttemptObservation::default(),
    };
    let attempted = read_attempt(leased, joined, millis(7)).unwrap();
    assert_eq!(attempted.request.label.as_deref(), Some("marked"));
    assert_eq!(
        (attempted.request.retry_count, attempted.request.session_rotation_count),
        (2, 1)
    );
    assert_eq!(attempted.duration, millis(1));
}

#[test]
fn long_errors_are_cut() {
    let mut memory = AttemptMemory::new();
    let error = CrawlError::non_retryable(Cause::msg(&"ä".repeat(300)));
    match finish(&mut memory, request("https://e.test/"), Err(error), RetryPolicy::ByClass) {
        Completion::Failed { request, error_text, .. } => {
            assert_eq!(request.error_messages[0].chars().count(), 200);
            assert_eq!(error_text.chars().count(), 315);
        }
        other => panic!("{other:?}"),
    }
}

#[test]
fn the_pool_hears_of_status_and_wait() {
    let wait = Duration::from_secs(3);
    let status = HttpStatusError::new(429).with_retry_after(wait);
    let failed = Err(CrawlError::retry(Cause::from_status(status)));
    let note = pool_note(&failed, &AttemptObservation::default());
    assert_eq!((note.kind, note.status), (AttemptOutcomeKind::Setback, Some(429)));
    assert_eq!(note.retry_after, Some(wait));
    let mut observation = AttemptObservation::default();
    observation.status = Some(200);
    let note = pool_note(&Ok(()), &observation);
    assert_eq!((note.kind, note.status), (AttemptOutcomeKind::Success, Some(200)));
}

fn lease(url: &str, expires: u128) -> Lease {
    Lease {
        request: request(url),
        lease_id: LeaseId::new(1),
        expires_at: at(expires),
    }
}

fn pool(delay: Duration) -> AutoscaledPool {
    AutoscaledPool::new(AutoscaledPoolOptions {
        same_domain_delay: delay,
        ..AutoscaledPoolOptions::default()
    })
}

#[test]
fn respects_max_concurrency() {
    let mut dispatcher = Dispatcher::new(4);
    assert_eq!(dispatcher.deferred_cap, 32);
    assert_eq!(Dispatcher::new(100).deferred_cap, 100);
    for index in 0..3 {
        dispatcher.offer(lease(&format!("https://e.test/{index}"), 100), AttemptOverrides::default(), at(1));
    }
    for slot in 0..2 {
        let entry = dispatcher.take_ready(2, at(1)).unwrap();
        assert_eq!(entry.sequence, slot);
        assert_eq!(dispatcher.start(entry, at(1)).slot, slot);
    }
    assert!(dispatcher.take_ready(2, at(1)).is_none());
    assert!(!dispatcher.wants_fetch(2));
    assert!(dispatcher.wants_fetch(3));
    let state = dispatcher.release(0).unwrap();
    assert_eq!(state.lease.request.unique_key, "https://e.test/0");
    assert!(dispatcher.release(0).is_none());
    assert!(dispatcher.take_ready(2, at(1)).is_some());
}

#[test]
fn past_ready_deferred_entry_does_not_starve_task_timer() {
    let mut dispatcher = Dispatcher::new(1);
    dispatcher.offer(lease("https://e.test/", 100), AttemptOverrides::default(), at(1));
    assert_eq!(dispatcher.next_wake(at(2)), Some(at(70)));
    assert_eq!(dispatcher.next_wake(at(80)), None);
}

#[test]
fn backoff_delays_the_start() {
    let mut dispatcher = Dispatcher::new(1);
    let overrides = AttemptOverrides {
        proxy_kind: None,
        user_agent_profile: None,
        backoff: Some(Duration::from_secs(5)),
    };
    dispatcher.offer(lease("https://e.test/", 100), overrides, at(1));
    assert!(dispatcher.take_ready(1, at(5)).is_none());
    assert_eq!(dispatcher.next_wake(at(5)), Some(at(6)));
    assert!(dispatcher.take_ready(1, at(6)).is_some());
}

#[test]
fn deferred_lease_is_renewed_before_expiry() {
    let mut dispatcher = Dispatcher::new(1);
    dispatcher.offer(lease("https://e.test/", 100), AttemptOverrides::default(), at(1));
    dispatcher.offer(lease("https://e.test/late", 20), AttemptOverrides::default(), at(1));
    assert_eq!(dispatcher.due_renewals(at(1)), [1]);
    assert_eq!(dispatcher.due_renewals(at(70)), [0, 1]);
    dispatcher.renewed(0);
    assert_eq!(dispatcher.deferred[0].lease.expires_at, at(280));
    assert_eq!(dispatcher.deferred[0].renew_at, at(250));
    assert_eq!(dispatcher.deferred[1].lease.expires_at, at(20));
}

#[test]
fn same_domain_delay_does_not_block_a_different_host() {
    let mut dispatcher = Dispatcher::new(4);
    let mut pool = pool(millis(200));
    for url in ["https://a.test/1", "https://a.test/2", "https://b.test/"] {
        dispatcher.offer(lease(url, 100), AttemptOverrides::default(), at(1));
    }
    let mut started = Vec::new();
    while let Some(entry) = dispatcher.take_ready(4, at(1)) {
        if let Gate::Open(entry) = dispatcher.host_gate(entry, &mut pool, at(1)) {
            if let Gate::Open(entry) = dispatcher.token_gate(entry, None, at(1)) {
                started.push(entry.lease.request.unique_key.clone());
                dispatcher.start(entry, at(1));
            }
        }
    }
    assert_eq!(started, ["https://a.test/1", "https://b.test/"]);
    assert_eq!(dispatcher.deferred[0].ready_at, Instant { nanos: at(1).nanos + 200_000_000 });
    assert!(dispatcher.deferred[0].domain_reserved);
    let entry = dispatcher.take_ready(4, at(2)).unwrap();
    assert!(matches!(dispatcher.host_gate(entry, &mut pool, at(2)), Gate::Open(_)));
}

#[test]
fn start_budget_defers() {
    let mut dispatcher = Dispatcher::new(4);
    dispatcher.offer(lease("https://a.test/1", 100), AttemptOverrides::default(), at(1));
    let entry = dispatcher.take_ready(4, at(1)).unwrap();
    let gate = dispatcher.token_gate(entry, Some(Duration::from_secs(30)), at(1));
    assert!(matches!(gate, Gate::Deferred));
    assert_eq!(dispatcher.deferred[0].ready_at, at(31));
}

#[test]
fn leases_are_given_up_together() {
    let mut dispatcher = Dispatcher::new(4);
    for index in 0..3 {
        dispatcher.offer(lease(&format!("https://e.test/{index}"), 100), AttemptOverrides::default(), at(1));
    }
    let entry = dispatcher.take_ready(4, at(1)).unwrap();
    dispatcher.start(entry, at(1));
    assert!(!dispatcher.is_idle());
    let keys: Vec<String> = dispatcher
        .abandon_all()
        .into_iter()
        .map(|lease| lease.request.unique_key)
        .collect();
    assert_eq!(keys, ["https://e.test/0", "https://e.test/1", "https://e.test/2"]);
    assert!(dispatcher.is_idle());
    dispatcher.offer(lease("https://e.test/", 100), AttemptOverrides::default(), at(1));
    assert_eq!(dispatcher.abandon_deferred().len(), 1);
}

#[test]
fn idle_dispatchers_ask_the_queue() {
    let mut dispatcher = Dispatcher::new(1);
    assert_eq!(dispatcher.idle_action(Some(true), None), IdleAction::Exit);
    assert_eq!(dispatcher.idle_action(Some(false), Some(false)), IdleAction::FetchAgain);
    assert_eq!(dispatcher.idle_action(None, Some(true)), IdleAction::Wait);
    assert_eq!(dispatcher.idle_action(None, None), IdleAction::Wait);
    dispatcher.draining = true;
    assert_eq!(dispatcher.idle_action(None, None), IdleAction::Exit);
    assert!(!dispatcher.wants_fetch(5));
}

fn limits(task: Option<Duration>) -> AttemptLimits {
    AttemptLimits {
        task_timeout: task,
        request_handler_timeout: Duration::from_secs(60),
    }
}

#[test]
fn cleanup_called_on_every_outcome() {
    let limits = limits(Some(millis(50)));
    let mut step = AttemptStep::Prepare;
    for _ in 0..4 {
        step = advance(step, PhaseEnd::Completed(Ok(())), &limits);
    }
    assert!(matches!(
        step,
        AttemptStep::Finish { cleanup: CleanupKind::Handled, result: Ok(()) }
    ));
    let failure = || PhaseEnd::Completed(Err(CrawlError::retry(Cause::msg("x"))));
    for (step, expected) in [
        (AttemptStep::Prepare, CleanupKind::ExecuteFailed),
        (AttemptStep::Execute, CleanupKind::ExecuteFailed),
        (AttemptStep::Handle, CleanupKind::HandlerFailed),
        (AttemptStep::Confirm, CleanupKind::HandlerFailed),
    ] {
        match advance(step, failure(), &limits) {
            AttemptStep::Finish { cleanup, result } => {
                assert_eq!(cleanup, expected);
                assert_eq!(result.unwrap_err().message(), "retryable: x");
            }
            other => panic!("{other:?}"),
        }
    }
}

#[test]
fn handler_timeout_is_retryable() {
    match advance(AttemptStep::Handle, PhaseEnd::TimedOut, &limits(None)) {
        AttemptStep::Finish { cleanup, result } => {
            let error = result.unwrap_err();
            assert_eq!(cleanup, CleanupKind::HandlerFailed);
            assert!(error.is_retryable());
            assert_eq!(error.message(), "retryable: request handler timed out after 60s");
        }
        other => panic!("{other:?}"),
    }
}

#[test]
fn task_timeout_bounds_an_attempt() {
    let limits = limits(Some(millis(50)));
    match advance(AttemptStep::Execute, PhaseEnd::TimedOut, &limits) {
        AttemptStep::Finish { cleanup, result } => {
            assert_eq!(cleanup, CleanupKind::ExecuteFailed);
            assert_eq!(result.unwrap_err().message(), "retryable: task timed out after 50ms");
        }
        other => panic!("{other:?}"),
    }
    let deadline = attempt_deadline(at(1), &limits);
    assert_eq!(deadline, Some(Instant { nanos: at(1).nanos + millis(50).nanos }));
    assert_eq!(handler_deadline(deadline, at(1), &limits), deadline.unwrap());
    assert_eq!(handler_deadline(None, at(1), &limits), at(61));
}

fn builder() -> CrawlerBuilder {
    CrawlerBuilder::new().request_handler().storage_client()
}

fn aimd() -> AutoscaleMode {
    AutoscaleMode::Aimd { increase_after_successes: 1 }
}

#[test]
fn invalid_dynamic_bounds_are_rejected_before_storage_resolution() {
    let zero = CrawlerBuilder::new().request_handler().autoscale_mode(aimd()).min_concurrency(0);
    assert!(matches!(
        zero.build(&Environment::new(), false),
        Err(CrawlerBuildError::InvalidConcurrencyBounds)
    ));
    let inverted = CrawlerBuilder::new()
        .request_handler()
        .min_concurrency(2)
        .max_concurrency(1)
        .autoscale_mode(aimd());
    assert!(matches!(
        inverted.build(&Environment::new(), false),
        Err(CrawlerBuildError::InvalidConcurrencyBounds)
    ));
}

#[test]
fn zero_maybe_run_interval_is_rejected_before_storage_resolution() {
    let options = AutoscaledPoolOptions {
        maybe_run_interval: millis(0),
        ..AutoscaledPoolOptions::default()
    };
    let result = CrawlerBuilder::new()
        .request_handler()
        .autoscaled_pool_options(options)
        .build(&Environment::new(), false);
    assert!(matches!(result, Err(CrawlerBuildError::InvalidConcurrencyBounds)));
}

#[test]
fn the_last_concurrency_setting_decides() {
    let plan = builder()
        .max_concurrency(5)
        .autoscale_mode(aimd())
        .build(&Environment::new(), false)
        .unwrap();
    let pool = AutoscaledPool::new(plan.pool);
    assert!(!pool.is_fixed());
    assert_eq!(pool.max_concurrency(), 5);
    let plan = builder()
        .autoscale_mode(aimd())
        .max_concurrency(5)
        .build(&Environment::new(), false)
        .unwrap();
    let pool = AutoscaledPool::new(plan.pool);
    assert!(pool.is_fixed());
    assert_eq!(pool.desired_concurrency(), 5);
}

#[test]
fn crawlers_are_checked_in_order() {
    let env = Environment::new().with("CRAWLEE_LOG_LEVEL", "loud");
    let missing = CrawlerBuilder::new().max_concurrency(0).build(&env, false).unwrap_err();
    assert_eq!(missing.message(), "a request handler is required");
    let zero = builder().max_concurrency(0).results_capacity(0).build(&env, false).unwrap_err();
    assert_eq!(zero.message(), "max_concurrency must be at least 1");
    let results = builder().results_capacity(0).build(&env, false).unwrap_err();
    assert_eq!(results.message(), "results_capacity must be at least 1");
    let config = builder().build(&env, false).unwrap_err();
    assert!(config.message().starts_with("configuration: invalid value \"loud\""));
    let storage = CrawlerBuilder::new().request_handler().build(&Environment::new(), false);
    assert!(storage.unwrap_err().message().starts_with("no storage client configured"));
    let plan = CrawlerBuilder::new()
        .request_handler()
        .configuration(Configuration::default())
        .max_request_retries(7)
        .build(&env, true)
        .unwrap();
    assert_eq!(plan.engine.max_request_retries, 7);
    assert_eq!(plan.engine.persist_state_interval, Duration::from_secs(60));
    assert_eq!(plan.open_queue.as_deref(), Some("default"));
    assert!(plan.purge);
    let plan = builder().request_queue().build(&Environment::new(), false).unwrap();
    assert_eq!((plan.open_queue, plan.open_store.as_str()), (None, "default"));
}

#[test]
fn crawlers_run_once() {
    let mut guard = RunGuard::new();
    assert!(guard.start().is_ok());
    let error = guard.start().unwrap_err();
    assert_eq!(error.message(), "non-retryable: this crawler has already been run");
}

#[test]
fn start_requests_convert_or_fail() {
    let requests = vec!["https://a.test/", "https://b.test/#x"].into_start_requests().unwrap();
    assert_eq!(requests.len(), 2);
    assert_eq!(requests[1].unique_key, "https://b.test/");
    let error = vec!["https://a.test/", "nope"].into_start_requests().unwrap_err();
    assert_eq!(
        error.message(),
        "non-retryable: invalid URL: relative URL without a base"
    );
    assert_eq!("https://a.test/".into_start_requests().unwrap().len(), 1);
    let array = ["https://a.test/", "https://b.test/"].into_start_requests().unwrap();
    assert_eq!(array[1].url.as_str(), "https://b.test/");
    let texts: Vec<String> = vec!["https://a.test/".into(), "https://c.test/".into()];
    let slice = texts.as_slice().into_start_requests().unwrap();
    assert_eq!(slice[1].url.as_str(), "https://c.test/");
    assert!(["nope"].into_start_requests().is_err());
    let single = request("https://c.test/").into_start_request().unwrap();
    assert_eq!(single.unique_key, "https://c.test/");
}

#[test]
fn turns_begin_by_their_signals() {
    let mut dispatcher = Dispatcher::new(1);
    assert_eq!(dispatcher.begin_turn(false, false), Turn::Proceed);
    dispatcher.offer(lease("https://e.test/", 100), AttemptOverrides::default(), at(1));
    assert_eq!(dispatcher.begin_turn(true, true), Turn::Abort);
    assert!(!dispatcher.draining);
    assert_eq!(dispatcher.begin_turn(false, true), Turn::AbandonDeferred);
    assert!(dispatcher.draining);
    dispatcher.abandon_deferred();
    assert_eq!(dispatcher.begin_turn(false, false), Turn::Proceed);
}

#[test]
fn pumping_starts_what_can_start() {
    let mut dispatcher = Dispatcher::new(2);
    let mut pool = pool(millis(200));
    for url in ["https://a.test/1", "https://a.test/2", "https://b.test/"] {
        dispatcher.offer(lease(url, 100), AttemptOverrides::default(), at(1));
    }
    let mut started = Vec::new();
    loop {
        match dispatcher.pump(&mut pool, 2, at(1)) {
            Pump::Candidate(entry) => {
                started.push(entry.lease.request.unique_key.clone());
                assert!(dispatcher.launch(entry, None, 2, at(1)).is_some());
            }
            Pump::Again => {}
            Pump::Stop => break,
        }
    }
    assert_eq!(started, ["https://a.test/1", "https://b.test/"]);
    dispatcher.release(0);
    match dispatcher.pump(&mut pool, 2, at(2)) {
        Pump::Candidate(entry) => {
            let wait = Some(Duration::from_secs(3));
            assert!(dispatcher.launch(entry, wait, 2, at(2)).is_none());
        }
        other => panic!("{other:?}"),
    }
    assert_eq!(dispatcher.deferred[0].ready_at, at(5));
}

#[test]
fn hosts_can_be_given_a_longer_delay() {
    let mut pool = pool(millis(0));
    assert_eq!(pool.domain_slot_wait("a.test", at(1)), millis(0));
    pool.set_domain_delay_floor("a.test", millis(300));
    assert_eq!(pool.domain_slot_wait("a.test", at(1)), millis(300));
    pool.note_response("a.test", Some(429), None, at(1));
    assert_eq!(pool.domain_slot_wait("a.test", at(1)), millis(1600));
}

#[test]
fn storage_health_is_reported() {
    assert_eq!(observe(true, false), HealthReport::Healthy);
    assert_eq!(observe(false, true), HealthReport::RateLimited);
    assert_eq!(observe(false, false), HealthReport::Silent);
}
