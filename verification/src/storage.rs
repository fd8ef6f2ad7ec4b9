//! Values that storage backends exchange with the crawler.

use crate::errors::{Cause, CrawlError, LinkView};
use crate::request::{Request, RequestId};
use crate::text::{decimal, joined, owned, push_decimal};
use crate::time::{Instant, Timestamp};
use vstd::prelude::*;

verus! {

/// An error of a storage backend.
#[derive(Debug)]
pub enum StorageError {
    /// A value could not be serialized or deserialized.
    Serialization(Cause),
    /// An input/output operation failed.
    Io(Cause),
    /// A lease is unknown: already completed, abandoned, or expired.
    LeaseNotFound {
        /// The unknown lease.
        lease_id: LeaseId,
    },
    /// The backend failed.
    Backend(Cause),
    /// The backend does not offer an operation.
    Unsupported(&'static str),
}

impl StorageError {
    /// The text of the error.
    pub open spec fn message_spec(self) -> Seq<char> {
        match self {
            StorageError::Serialization(c) => "serialization: "@ + c.message_spec(),
            StorageError::Io(c) => "io: "@ + c.message_spec(),
            StorageError::LeaseNotFound { lease_id } => "lease "@ + decimal(lease_id@ as nat)
                + " not found (already completed, abandoned, or expired)"@,
            StorageError::Backend(c) => "storage backend: "@ + c.message_spec(),
            StorageError::Unsupported(what) => "operation not supported by this backend: "@ + what@,
        }
    }

    /// The text of the error.
    pub fn message(&self) -> (r: String)
        ensures
            r@ == self.message_spec(),
    {
        match self {
            StorageError::Serialization(c) => joined("serialization: ", c.message()),
            StorageError::Io(c) => joined("io: ", c.message()),
            StorageError::LeaseNotFound { lease_id } => {
                let mut out: String = owned("lease ");
                push_decimal(&mut out, lease_id.as_u64() as u128);
                out.append(" not found (already completed, abandoned, or expired)");
                out
            },
            StorageError::Backend(c) => joined("storage backend: ", c.message()),
            StorageError::Unsupported(what) => joined(
                "operation not supported by this backend: ",
                what,
            ),
        }
    }

    /// What the error wraps, as a chain.
    pub open spec fn wrapped(self) -> Seq<LinkView> {
        match self {
            StorageError::Serialization(c) => c@,
            StorageError::Io(c) => c@,
            StorageError::Backend(c) => c@,
            _ => seq![],
        }
    }

    /// The error as a chain of causes: its own text, and what it wraps.
    pub fn into_cause(self) -> (r: Cause)
        ensures
            r@ == seq![LinkView { message: self.message_spec(), status: None }] + self.wrapped(),
    {
        let message: String = self.message();
        let cause: Option<Cause> = match self {
            StorageError::Serialization(c) => Some(c),
            StorageError::Io(c) => Some(c),
            StorageError::Backend(c) => Some(c),
            _ => None,
        };
        match cause {
            Some(c) => c.context(message.as_str()),
            None => {
                let r: Cause = Cause::msg(message.as_str());
                assert(r@ =~= r@ + seq![]);
                r
            },
        }
    }

    /// Whether `r` is the error as a crawl error.
    pub open spec fn becomes(self, r: CrawlError) -> bool {
        match self {
            StorageError::Serialization(c) => r == CrawlError::NonRetryable(c),
            StorageError::Io(c) => r == CrawlError::Retry(c),
            StorageError::Backend(c) => r == CrawlError::Retry(c),
            other => r is NonRetryable && r->NonRetryable_0@ == seq![
                LinkView { message: other.message_spec(), status: None },
            ],
        }
    }

    /// The error as a crawl error: failures of the backend and of input/output may be retried, the
    /// others are permanent.
    pub fn into_crawl_error(self) -> (r: CrawlError)
        ensures
            self.becomes(r),
    {
        let message: String = self.message();
        match self {
            StorageError::Serialization(c) => CrawlError::NonRetryable(c),
            StorageError::Io(c) => CrawlError::Retry(c),
            StorageError::Backend(c) => CrawlError::Retry(c),
            _ => CrawlError::NonRetryable(Cause::msg(message.as_str())),
        }
    }
}

/// What a storage operation tells the load signals.
#[derive(Clone, Copy, Debug, PartialEq, Eq, Structural)]
pub enum HealthReport {
    /// The backend is well.
    Healthy,
    /// The backend asks to slow down.
    RateLimited,
    /// Nothing: the failure has other reasons.
    Silent,
}

/// What an operation tells the load signals.
pub fn observe(succeeded: bool, rate_limited: bool) -> (r: HealthReport)
    ensures
        r == if succeeded {
            HealthReport::Healthy
        } else if rate_limited {
            HealthReport::RateLimited
        } else {
            HealthReport::Silent
        },
{
    if succeeded {
        HealthReport::Healthy
    } else if rate_limited {
        HealthReport::RateLimited
    } else {
        HealthReport::Silent
    }
}

/// Options for listing the items of a dataset.
#[derive(Clone, Copy, Debug, PartialEq, Eq, Structural)]
pub struct ListOptions {
    /// The number of items to skip.
    pub offset: u64,
    /// The most items to return.
    pub limit: Option<u64>,
    /// Whether the newest items come first.
    pub desc: bool,
}

impl Default for ListOptions {
    fn default() -> (r: Self)
        ensures
            r.offset == 0,
            r.limit is None,
            !r.desc,
    {
        ListOptions { offset: 0, limit: None, desc: false }
    }
}

/// A page of items.
#[derive(Debug)]
pub struct Page<T> {
    /// The items.
    pub items: Vec<T>,
    /// The number of items in the whole dataset.
    pub total: u64,
    /// The number of items in front of the page.
    pub offset: u64,
    /// The most items that were asked for.
    pub limit: Option<u64>,
}

/// What is known of a dataset.
#[derive(Debug)]
pub struct DatasetInfo {
    /// The dataset's name.
    pub name: String,
    /// The number of items.
    pub item_count: u64,
    /// When it was created.
    pub created_at: Timestamp,
    /// When it was changed last.
    pub modified_at: Timestamp,
}

impl DatasetInfo {
    /// Puts the facts together.
    pub fn new(
        name: String,
        item_count: u64,
        created_at: Timestamp,
        modified_at: Timestamp,
    ) -> (r: DatasetInfo)
        ensures
            r.name == name,
            r.item_count == item_count,
            r.created_at == created_at,
            r.modified_at == modified_at,
    {
        DatasetInfo { name, item_count, created_at, modified_at }
    }
}

/// An entry of a key-value store.
#[derive(Debug, PartialEq, Eq)]
pub struct KvEntry {
    /// The key.
    pub key: String,
    /// The value.
    pub value: Vec<u8>,
    /// The MIME type of the value.
    pub content_type: String,
}

/// Options for listing keys.
#[derive(Debug)]
pub struct ListKeysOptions {
    /// The most keys to return.
    pub limit: Option<usize>,
    /// The key behind which the list begins.
    pub exclusive_start_key: Option<String>,
}

impl Default for ListKeysOptions {
    fn default() -> (r: Self)
        ensures
            r.limit is None,
            r.exclusive_start_key is None,
    {
        ListKeysOptions { limit: None, exclusive_start_key: None }
    }
}

/// What is known of a key.
#[derive(Debug, PartialEq, Eq)]
pub struct KeyInfo {
    /// The key.
    pub key: String,
    /// The size of its value.
    pub size: u64,
}

/// A list of keys.
#[derive(Debug)]
pub struct KeyList {
    /// The keys.
    pub keys: Vec<KeyInfo>,
    /// Whether there are more.
    pub is_truncated: bool,
    /// Where the next list begins.
    pub next_exclusive_start_key: Option<String>,
}

/// A source from which requests can be added.
#[derive(Debug)]
pub enum RequestSource {
    /// One fully built request.
    Request(Request),
}

impl RequestSource {
    /// The source of one request.
    pub fn from_request(request: Request) -> (r: RequestSource)
        ensures
            r == RequestSource::Request(request),
    {
        RequestSource::Request(request)
    }
}

/// Completion result for a batched request addition.
#[derive(Debug)]
pub struct AddRequestsBatchedResult {
    /// All processed requests.
    pub processed: Vec<ProcessedRequest>,
}

/// Identifier for one active request lease.
#[derive(Clone, Copy, Debug, PartialEq, Eq, Hash, Structural)]
pub struct LeaseId {
    raw: u64,
}

impl View for LeaseId {
    type V = u64;

    closed spec fn view(&self) -> u64 {
        self.raw
    }
}

impl LeaseId {
    /// Creates a lease identifier from its raw value.
    pub fn new(raw: u64) -> (r: LeaseId)
        ensures
            r@ == raw,
    {
        LeaseId { raw }
    }

    /// Returns the raw identifier value.
    pub fn as_u64(&self) -> (r: u64)
        ensures
            r == self@,
    {
        self.raw
    }
}

/// A lease identifier is its number: identifiers with equal numbers are equal, and no others.
pub proof fn lease_ids_are_their_numbers(a: LeaseId, b: LeaseId)
    ensures
        a == b <==> a@ == b@,
{
}

/// Temporary, linear ownership of a queued request.
#[derive(Debug)]
pub struct Lease {
    /// Leased request.
    pub request: Request,
    /// Identifier used to renew this lease.
    pub lease_id: LeaseId,
    /// Current lease deadline.
    pub expires_at: Instant,
}

/// Options controlling insertion of requests.
#[derive(Clone, Copy, Debug, PartialEq, Eq, Structural)]
pub struct AddOptions {
    /// Whether to insert at the front of the queue.
    pub forefront: bool,
}

impl Default for AddOptions {
    fn default() -> (r: Self)
        ensures
            !r.forefront,
    {
        AddOptions { forefront: false }
    }
}

/// Options controlling return of a leased request to the queue.
#[derive(Clone, Copy, Debug, PartialEq, Eq, Structural)]
pub struct ReclaimOptions {
    /// Whether to reinsert at the front of the queue.
    pub forefront: bool,
    /// Whether to increment the request retry count.
    pub increment_retry: bool,
}

impl Default for ReclaimOptions {
    fn default() -> (r: Self)
        ensures
            !r.forefront,
            r.increment_retry,
    {
        ReclaimOptions { forefront: false, increment_retry: true }
    }
}

/// Result metadata for adding one request.
#[derive(Debug)]
pub struct ProcessedRequest {
    /// Stable request identifier.
    pub request_id: RequestId,
    /// Queue deduplication key.
    pub unique_key: String,
    /// Whether the request was already known to the queue.
    pub was_already_present: bool,
    /// Whether the known request had already been handled.
    pub was_already_handled: bool,
}

/// Another name for [`ProcessedRequest`].
pub type QueueOpInfo = ProcessedRequest;

/// What the texts of storage errors say: the kind of failure and the text of its cause, the number of
/// the lease that is missing, or the operation that is not there.
pub proof fn storage_texts_say_what_failed(cause: Cause, lease_id: LeaseId, what: &'static str)
    ensures
        StorageError::Serialization(cause).message_spec() == "serialization: "@ + cause@[0].message,
        StorageError::Io(cause).message_spec() == "io: "@ + cause@[0].message,
        StorageError::Backend(cause).message_spec() == "storage backend: "@ + cause@[0].message,
        (StorageError::LeaseNotFound { lease_id }).message_spec() == "lease "@ + decimal(
            lease_id@ as nat,
        ) + " not found (already completed, abandoned, or expired)"@,
        StorageError::Unsupported(what).message_spec()
            == "operation not supported by this backend: "@ + what@,
        StorageError::Serialization(cause).wrapped() == cause@,
        StorageError::Io(cause).wrapped() == cause@,
        StorageError::Backend(cause).wrapped() == cause@,
        (StorageError::LeaseNotFound { lease_id }).wrapped().len() == 0,
        StorageError::Unsupported(what).wrapped().len() == 0,
{
}

/// Failures of the backend and of input and output are worth another try, the others are not; the
/// cause is kept, or the error's own text where it has none.
pub proof fn which_storage_errors_are_retried(error: StorageError, r: CrawlError)
    requires
        error.becomes(r),
    ensures
        r is Retry <==> error is Io || error is Backend,
        r is NonRetryable <==> error is Serialization || error is LeaseNotFound || error
            is Unsupported,
        r.retryable_spec() <==> error is Io || error is Backend,
        error is Io ==> r->Retry_0 == error->Io_0,
        error is Backend ==> r->Retry_0 == error->Backend_0,
        error is Serialization ==> r->NonRetryable_0 == error->Serialization_0,
        error is LeaseNotFound || error is Unsupported ==> r->NonRetryable_0@.len() == 1
            && r->NonRetryable_0@[0].message == error.message_spec(),
{
}

} // verus!
