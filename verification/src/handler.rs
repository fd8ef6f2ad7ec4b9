//! What failure handlers receive.

use crate::errors::CrawlError;
use crate::request::Request;
use std::sync::Arc;
use vstd::prelude::*;

verus! {

/// A request that failed for good, with its error.
#[derive(Debug)]
pub struct FailedRequestContext {
    /// The request as it ended.
    pub request: Arc<Request>,
    /// The error of the last attempt.
    pub error: Arc<CrawlError>,
    /// How often the request was retried.
    pub retry_count: u32,
}

impl FailedRequestContext {
    /// Puts the facts together.
    pub fn new(request: Arc<Request>, error: Arc<CrawlError>, retry_count: u32) -> (r:
        FailedRequestContext)
        ensures
            r.request == request,
            r.error == error,
            r.retry_count == retry_count,
    {
        FailedRequestContext { request, error, retry_count }
    }
}

} // verus!
