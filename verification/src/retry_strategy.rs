//! Attempt-level retry strategy hooks.

use crate::errors::{AntiBotTech, CrawlError};
use crate::proxy::{ProxyInfo, ProxyKind};
use crate::request::Request;
use crate::session::SessionId;
use crate::text::owned;
use crate::time::Duration;
use crate::url::opt_view;
use vstd::prelude::*;

verus! {

/// Overrides carried to the next attempt of the same request.
#[derive(Debug)]
pub struct AttemptOverrides {
    /// Proxy bucket requested for the next attempt.
    pub proxy_kind: Option<ProxyKind>,
    /// User-agent profile requested for the next attempt.
    pub user_agent_profile: Option<String>,
    /// Delay before the next attempt begins.
    pub backoff: Option<Duration>,
}

impl AttemptOverrides {
    /// Nothing is overridden.
    pub open spec fn none() -> AttemptOverrides {
        AttemptOverrides { proxy_kind: None, user_agent_profile: None, backoff: None }
    }
}

impl Default for AttemptOverrides {
    fn default() -> (r: Self)
        ensures
            r == AttemptOverrides::none(),
    {
        AttemptOverrides { proxy_kind: None, user_agent_profile: None, backoff: None }
    }
}

/// Borrowed metadata describing a failed request attempt.
pub struct AttemptOutcome<'a> {
    /// Request after preparation for this attempt.
    pub request: &'a Request,
    /// The request's retry count, independent of session rotations.
    pub attempt: u32,
    /// Observed or error-carried HTTP status.
    pub status: Option<u16>,
    /// Attempt error.
    pub error: Option<&'a CrawlError>,
    /// Detected anti-bot technology.
    pub anti_bot: Option<AntiBotTech>,
    /// Proxy used by the attempt, when known.
    pub proxy_info: Option<&'a ProxyInfo>,
    /// Session used by the attempt, when known.
    pub session_id: Option<&'a SessionId>,
    /// Number of response body bytes, when known.
    pub response_bytes: Option<usize>,
}

/// Session disposition for a strategy-authorized retry.
#[derive(Clone, Copy, Debug, PartialEq, Eq, Structural)]
pub enum SessionRetryAction {
    /// Keep the current session classification.
    Keep,
    /// Rotate the session for the next attempt.
    Rotate,
    /// Retire the session; it is accounted like a rotation.
    Retire,
}

impl Default for SessionRetryAction {
    fn default() -> (r: Self)
        ensures
            r == SessionRetryAction::Keep,
    {
        SessionRetryAction::Keep
    }
}

/// Owned instructions returned by a [`RetryStrategy`].
#[derive(Debug)]
pub struct RetryDirective {
    /// Whether the attempt should be retried.
    pub should_retry: bool,
    /// Delay before the next attempt.
    pub backoff: Option<Duration>,
    /// Proxy bucket for the next attempt.
    pub proxy_kind: Option<ProxyKind>,
    /// User-agent profile for the next attempt.
    pub user_agent_profile: Option<String>,
    /// Session disposition for the retry.
    pub session_action: SessionRetryAction,
}

impl Default for RetryDirective {
    fn default() -> (r: Self)
        ensures
            r == RetryDirective::plain(false),
    {
        RetryDirective::stop()
    }
}

impl RetryDirective {
    /// A directive without overrides.
    pub open spec fn plain(should_retry: bool) -> RetryDirective {
        RetryDirective {
            should_retry,
            backoff: None,
            proxy_kind: None,
            user_agent_profile: None,
            session_action: SessionRetryAction::Keep,
        }
    }

    /// Creates a directive authorizing a retry.
    pub fn retry() -> (r: RetryDirective)
        ensures
            r == RetryDirective::plain(true),
    {
        RetryDirective {
            should_retry: true,
            backoff: None,
            proxy_kind: None,
            user_agent_profile: None,
            session_action: SessionRetryAction::Keep,
        }
    }

    /// Creates a directive stopping retries.
    pub fn stop() -> (r: RetryDirective)
        ensures
            r == RetryDirective::plain(false),
    {
        RetryDirective {
            should_retry: false,
            backoff: None,
            proxy_kind: None,
            user_agent_profile: None,
            session_action: SessionRetryAction::Keep,
        }
    }

    /// Sets the retry delay.
    pub fn backoff(self, backoff: Duration) -> (r: RetryDirective)
        ensures
            r == (RetryDirective { backoff: Some(backoff), ..self }),
    {
        let mut out = self;
        out.backoff = Some(backoff);
        out
    }

    /// Sets the proxy bucket for the next attempt.
    pub fn proxy_kind(self, proxy_kind: ProxyKind) -> (r: RetryDirective)
        ensures
            r == (RetryDirective { proxy_kind: Some(proxy_kind), ..self }),
    {
        let mut out = self;
        out.proxy_kind = Some(proxy_kind);
        out
    }

    /// Sets the user-agent profile for the next attempt.
    pub fn user_agent_profile(self, profile: &str) -> (r: RetryDirective)
        ensures
            opt_view(r.user_agent_profile) == Some(profile@),
            r == (RetryDirective { user_agent_profile: r.user_agent_profile, ..self }),
    {
        let mut out = self;
        out.user_agent_profile = Some(owned(profile));
        out
    }

    /// Sets the session disposition.
    pub fn session_action(self, action: SessionRetryAction) -> (r: RetryDirective)
        ensures
            r == (RetryDirective { session_action: action, ..self }),
    {
        let mut out = self;
        out.session_action = action;
        out
    }
}

/// Controls retries and next-attempt overrides for non-critical failures.
///
/// A configured strategy has full authority over `should_retry` and may retry a non-retryable
/// error. Critical errors and requests marked `no_retry` never reach it.
pub trait RetryStrategy: Send + Sync + 'static {
    /// Maximum ordinary retries when a request does not override the cap.
    fn max_retries(&self) -> u32;

    /// Returns instructions after a failed attempt.
    fn on_retry(&self, outcome: &AttemptOutcome<'_>) -> RetryDirective;
}

} // verus!
