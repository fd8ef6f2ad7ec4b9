//! Start-request conversions accepted by crawlers.

use crate::errors::{CrawlError, LinkView};
use crate::request::Request;
use crate::url::{parsed_url, Url, UrlParts};
use vstd::prelude::*;

verus! {

/// Whether `r` is what a URL, or the error of a text that is none, starts a crawl with: a plain GET
/// request, or a permanent error.
pub open spec fn starts_from(url: Result<UrlParts, Seq<char>>, r: Result<Request, CrawlError>) -> bool {
    match (url, r) {
        (Ok(url), Ok(request)) => {
            &&& request.is_fresh_get(url)
            &&& request.label is None
            &&& request.user_data@.dom() == Set::<Seq<char>>::empty()
        },
        (Err(message), Err(error)) => error is NonRetryable && error->NonRetryable_0@ == seq![
            LinkView { message: "invalid URL: "@ + message, status: None },
            LinkView { message, status: None },
        ],
        _ => false,
    }
}

/// A value that one request of a crawl can start from.
pub trait IntoStartRequest: Sized {
    /// Whether the conversion may give `r`.
    spec fn starts(self, r: Result<Request, CrawlError>) -> bool;

    /// Converts the value into a request.
    fn into_start_request(self) -> (r: Result<Request, CrawlError>)
        ensures
            self.starts(r),
    ;
}

impl IntoStartRequest for Request {
    open spec fn starts(self, r: Result<Request, CrawlError>) -> bool {
        r == Ok::<Request, CrawlError>(self)
    }

    fn into_start_request(self) -> (r: Result<Request, CrawlError>) {
        Ok(self)
    }
}

fn start_from<U: crate::request::IntoUrl>(url: U) -> (r: Result<Request, CrawlError>)
    ensures
        starts_from(url.url_value(), r),
{
    match Request::get(url).build() {
        Ok(request) => Ok(request),
        Err(error) => {
            Err(CrawlError::from_build(error))
        },
    }
}

impl IntoStartRequest for Url {
    open spec fn starts(self, r: Result<Request, CrawlError>) -> bool {
        starts_from(Ok(self@), r)
    }

    fn into_start_request(self) -> (r: Result<Request, CrawlError>) {
        start_from(self)
    }
}

impl IntoStartRequest for &str {
    open spec fn starts(self, r: Result<Request, CrawlError>) -> bool {
        starts_from(parsed_url(self@), r)
    }

    fn into_start_request(self) -> (r: Result<Request, CrawlError>) {
        start_from(self)
    }
}

impl IntoStartRequest for String {
    open spec fn starts(self, r: Result<Request, CrawlError>) -> bool {
        starts_from(parsed_url(self@), r)
    }

    fn into_start_request(self) -> (r: Result<Request, CrawlError>) {
        start_from(self)
    }
}

/// A value that a crawl can start from.
pub trait IntoStartRequests: Sized {
    /// Whether the conversion may give `r`.
    spec fn all_start(self, r: Result<Vec<Request>, CrawlError>) -> bool;

    /// Converts the value into requests.
    fn into_start_requests(self) -> (r: Result<Vec<Request>, CrawlError>)
        ensures
            self.all_start(r),
    ;
}

/// Whether `r` is what a single value starts a crawl with.
pub open spec fn single_start<T: IntoStartRequest>(
    value: T,
    r: Result<Vec<Request>, CrawlError>,
) -> bool {
    match r {
        Ok(requests) => requests@.len() == 1 && value.starts(Ok(requests@[0])),
        Err(error) => value.starts(Err(error)),
    }
}

fn start_single<T: IntoStartRequest>(value: T) -> (r: Result<Vec<Request>, CrawlError>)
    ensures
        single_start(value, r),
{
    match value.into_start_request() {
        Ok(request) => {
            let mut out: Vec<Request> = Vec::new();
            out.push(request);
            Ok(out)
        },
        Err(error) => Err(error),
    }
}

impl IntoStartRequests for Request {
    open spec fn all_start(self, r: Result<Vec<Request>, CrawlError>) -> bool {
        single_start(self, r)
    }

    fn into_start_requests(self) -> (r: Result<Vec<Request>, CrawlError>) {
        start_single(self)
    }
}

impl IntoStartRequests for Url {
    open spec fn all_start(self, r: Result<Vec<Request>, CrawlError>) -> bool {
        single_start(self, r)
    }

    fn into_start_requests(self) -> (r: Result<Vec<Request>, CrawlError>) {
        start_single(self)
    }
}

impl IntoStartRequests for &str {
    open spec fn all_start(self, r: Result<Vec<Request>, CrawlError>) -> bool {
        single_start(self, r)
    }

    fn into_start_requests(self) -> (r: Result<Vec<Request>, CrawlError>) {
        start_single(self)
    }
}

impl IntoStartRequests for String {
    open spec fn all_start(self, r: Result<Vec<Request>, CrawlError>) -> bool {
        single_start(self, r)
    }

    fn into_start_requests(self) -> (r: Result<Vec<Request>, CrawlError>) {
        start_single(self)
    }
}

/// Whether a value converts.
pub open spec fn converts<T: IntoStartRequest>(value: T) -> bool {
    exists|request: Request| #[trigger] value.starts(Ok(request))
}

/// Whether every value before `upto` converts.
pub open spec fn convert_before<T: IntoStartRequest>(values: Seq<T>, upto: int) -> bool {
    forall|k: int| 0 <= k < upto ==> converts(#[trigger] values[k])
}

/// Whether `r` is what a sequence of values starts a crawl with: all of them convert, in their
/// order, or the first that does not gives the error.
pub open spec fn sequence_start<T: IntoStartRequest>(
    values: Seq<T>,
    r: Result<Vec<Request>, CrawlError>,
) -> bool {
    match r {
        Ok(requests) => requests@.len() == values.len() && forall|i: int|
            0 <= i < values.len() ==> (#[trigger] values[i]).starts(Ok(requests@[i])),
        Err(error) => exists|i: int|
            0 <= i < values.len() && (#[trigger] values[i]).starts(Err(error)) && convert_before(
                values,
                i,
            ),
    }
}

fn start_all<T: IntoStartRequest>(values: Vec<T>) -> (r: Result<Vec<Request>, CrawlError>)
    ensures
        sequence_start(values@, r),
{
    let ghost all = values@;
    let ghost mut at: int = 0;
    let mut out: Vec<Request> = Vec::new();
    for value in iter: values
        invariant
            iter.seq() == all,
            all == values@,
            at == iter.index(),
            out@.len() == at,
            forall|k: int| 0 <= k < at ==> (#[trigger] all[k]).starts(Ok(out@[k])),
    {
        proof {
            assert(value == all[at]);
        }
        match value.into_start_request() {
            Ok(request) => {
                out.push(request);
            },
            Err(error) => {
                proof {
                    assert(all[at].starts(Err(error)));
                    assert forall|k: int| 0 <= k < at implies converts(#[trigger] all[k]) by {
                        assert(all[k].starts(Ok(out@[k])));
                    }
                    assert(convert_before(all, at));
                }
                return Err(error);
            },
        }
        proof {
            at = at + 1;
        }
    }
    Ok(out)
}

impl<T: IntoStartRequest> IntoStartRequests for Vec<T> {
    open spec fn all_start(self, r: Result<Vec<Request>, CrawlError>) -> bool {
        sequence_start(self@, r)
    }

    fn into_start_requests(self) -> (r: Result<Vec<Request>, CrawlError>) {
        start_all(self)
    }
}

/// `Vec::from` of an array: the array's items, in their order.
#[verifier::external_body]
fn array_items<T, const N: usize>(items: [T; N]) -> (r: Vec<T>)
    ensures
        r@ == items@,
{
    Vec::from(items)
}

impl<T: IntoStartRequest, const N: usize> IntoStartRequests for [T; N] {
    open spec fn all_start(self, r: Result<Vec<Request>, CrawlError>) -> bool {
        sequence_start(self@, r)
    }

    fn into_start_requests(self) -> (r: Result<Vec<Request>, CrawlError>) {
        start_all(array_items(self))
    }
}

/// Whether `copies` are clones of `values`.
pub open spec fn are_clones<T: Clone>(values: Seq<T>, copies: Seq<T>) -> bool {
    copies.len() == values.len() && forall|i: int|
        0 <= i < values.len() ==> cloned(#[trigger] values[i], copies[i])
}

impl<T: IntoStartRequest + Clone> IntoStartRequests for &[T] {
    /// Clones of the values start the crawl.
    open spec fn all_start(self, r: Result<Vec<Request>, CrawlError>) -> bool {
        exists|copies: Seq<T>| #[trigger] are_clones(self@, copies) && sequence_start(copies, r)
    }

    fn into_start_requests(self) -> (r: Result<Vec<Request>, CrawlError>) {
        let mut copies: Vec<T> = Vec::new();
        let mut i: usize = 0;
        while i < self.len()
            invariant
                i <= self@.len(),
                copies@.len() == i,
                forall|k: int| 0 <= k < i ==> cloned(#[trigger] self@[k], copies@[k]),
            decreases self@.len() - i,
        {
            let copy: T = self[i].clone();
            copies.push(copy);
            i = i + 1;
        }
        let ghost given = copies@;
        let r = start_all(copies);
        assert(are_clones(self@, given) && sequence_start(given, r));
        r
    }
}

/// A text that is a URL starts a crawl with a plain GET of it, without a label and without data, at
/// depth zero and untried; one that is none fails for good, with the reason.
pub proof fn what_a_start_url_gives(
    url: Result<UrlParts, Seq<char>>,
    r: Result<Request, CrawlError>,
)
    requires
        starts_from(url, r),
    ensures
        url is Ok <==> r is Ok,
        r is Ok ==> {
            let request = r->Ok_0;
            &&& request.url@ == url->Ok_0
            &&& request.method is Get
            &&& request.unique_key@ == url->Ok_0.bare
            &&& request.label is None
            &&& request.body is None
            &&& request.retry_count == 0
            &&& request.session_rotation_count == 0
            &&& request.crawl_depth == 0
            &&& request.max_retries is None
            &&& !request.no_retry
            &&& !request.skip_navigation
            &&& request.error_messages@.len() == 0
        },
        r is Err ==> {
            &&& r->Err_0 is NonRetryable
            &&& r->Err_0->NonRetryable_0@.len() == 2
            &&& r->Err_0->NonRetryable_0@[0].message == "invalid URL: "@ + url->Err_0
            &&& r->Err_0->NonRetryable_0@[1].message == url->Err_0
        },
{
}

/// Several values start a crawl in their order, all of them or, where one fails, none.
pub proof fn what_start_values_give(values: Seq<Url>, r: Result<Vec<Request>, CrawlError>, i: int)
    requires
        sequence_start(values, r),
        0 <= i < values.len(),
    ensures
        r is Ok,
        r->Ok_0@.len() == values.len(),
        r->Ok_0@[i].url@ == values[i]@,
{
    if let Err(error) = r {
        let k = choose|k: int|
            0 <= k < values.len() && (#[trigger] values[k]).starts(Err(error)) && convert_before(
                values,
                k,
            );
        assert(starts_from(Ok(values[k]@), Err(error)));
    } else {
        assert(values[i].starts(Ok(r->Ok_0@[i])));
    }
}

} // verus!
