//! Crawler lifecycle events.

use crate::config::Ratio;
use crate::crawler::completion::Completion;
use crate::request::Request;
use crate::time::{Duration, Timestamp};
use crate::url::Url;
use std::sync::Arc;
use vstd::prelude::*;

verus! {

/// The terminal outcome of a request.
#[derive(Clone, Copy, Debug, PartialEq, Eq, Structural)]
pub enum RequestFinalState {
    /// It was handled.
    Succeeded,
    /// It failed for good.
    Failed,
    /// It was skipped.
    Skipped,
}

/// A request that has reached its end.
#[derive(Debug)]
pub struct HandledRequest {
    /// The request as it ended.
    pub request: Arc<Request>,
    /// The URL after redirects.
    pub loaded_url: Option<Url>,
    /// How it ended.
    pub outcome: RequestFinalState,
    /// The status of the last response.
    pub response_status: Option<u16>,
    /// How often it was retried.
    pub retry_count: u32,
    /// The time spent on all attempts.
    pub duration: Duration,
}

/// A point-in-time view of the machine.
#[derive(Debug)]
pub struct SystemSnapshot {
    /// When it was taken.
    pub created_at: Option<Timestamp>,
    /// The share of the processors in use.
    pub cpu_used_ratio: Option<Ratio>,
    /// The memory in use.
    pub memory_used_bytes: Option<u64>,
}

impl Default for SystemSnapshot {
    fn default() -> (r: Self)
        ensures
            r.created_at is None,
            r.cpu_used_ratio is None,
            r.memory_used_bytes is None,
    {
        SystemSnapshot { created_at: None, cpu_used_ratio: None, memory_used_bytes: None }
    }
}

/// Something that happened to a crawler.
#[derive(Debug)]
pub enum CrawlerEvent {
    /// State is to be stored.
    PersistState {
        /// Whether the crawler moves to another machine.
        is_migrating: bool,
    },
    /// A request succeeded.
    RequestFinished(HandledRequest),
    /// A request failed for good.
    RequestFailed {
        /// The request as it ended.
        request: Arc<Request>,
        /// The text of the error.
        error: String,
    },
    /// News of the machine.
    SystemInfo(SystemSnapshot),
    /// The crawl is being aborted.
    Aborting,
    /// The crawl is over.
    Exiting,
}

/// Whether `r` is reported of a completed attempt.
pub open spec fn is_reported(
    completion: Completion,
    snapshot: Arc<Request>,
    loaded_url: Option<Url>,
    r: Option<HandledRequest>,
) -> bool {
    match completion {
        Completion::Succeeded { request, status, total } => r == Some(
            HandledRequest {
                request: snapshot,
                loaded_url,
                outcome: RequestFinalState::Succeeded,
                response_status: status,
                retry_count: request.retry_count,
                duration: total,
            },
        ),
        Completion::Failed { request, error: _, error_text: _, status, loaded_url: _, total } => r
            == Some(
            HandledRequest {
                request: snapshot,
                loaded_url,
                outcome: RequestFinalState::Failed,
                response_status: status,
                retry_count: request.retry_count,
                duration: total,
            },
        ),
        _ => r is None,
    }
}

/// What is reported of a request that has reached its end: nothing of one that is tried again or
/// whose error stops the crawl.
pub fn handled_request(
    completion: &Completion,
    snapshot: Arc<Request>,
    loaded_url: Option<Url>,
) -> (r: Option<HandledRequest>)
    ensures
        is_reported(*completion, snapshot, loaded_url, r),
{
    match completion {
        Completion::Succeeded { request, status, total } => Some(
            HandledRequest {
                request: snapshot,
                loaded_url,
                outcome: RequestFinalState::Succeeded,
                response_status: *status,
                retry_count: request.retry_count,
                duration: *total,
            },
        ),
        Completion::Failed { request, error: _, error_text: _, status, loaded_url: _, total } => Some(
            HandledRequest {
                request: snapshot,
                loaded_url,
                outcome: RequestFinalState::Failed,
                response_status: *status,
                retry_count: request.retry_count,
                duration: *total,
            },
        ),
        _ => None,
    }
}

/// A request that succeeded or failed for good is reported as that, with its status, its retries and the
/// time that all its attempts took; nothing is reported of one that is tried again or stops the crawl.
pub proof fn which_requests_are_reported(
    completion: Completion,
    snapshot: Arc<Request>,
    loaded_url: Option<Url>,
    r: Option<HandledRequest>,
)
    requires
        is_reported(completion, snapshot, loaded_url, r),
    ensures
        r is Some <==> completion is Succeeded || completion is Failed,
        completion is Succeeded ==> r.unwrap().outcome == RequestFinalState::Succeeded,
        completion is Failed ==> r.unwrap().outcome == RequestFinalState::Failed,
        r is Some ==> r.unwrap().request == snapshot && r.unwrap().loaded_url == loaded_url,
        match completion {
            Completion::Succeeded { request, status, total } => r.unwrap().retry_count
                == request.retry_count && r.unwrap().response_status == status
                && r.unwrap().duration == total,
            Completion::Failed { request, status, total, .. } => r.unwrap().retry_count
                == request.retry_count && r.unwrap().response_status == status
                && r.unwrap().duration == total,
            _ => true,
        },
{
}

} // verus!
