//! Request values and their builder.

use crate::errors::{Cause, LinkView};
use crate::headers::{
    append_header, check_header_name, check_header_value, header_contents, header_names,
    is_header_name, is_header_value, new_headers, takes_more, with_header, MAX_HEADER_NAMES,
};
use crate::json::{
    canonical_json, clone_object, insert_member, member_text, new_object, object_contents,
    object_is_empty, Json, JsonError,
};
use crate::snapshot::{lemma_hex_injective, power16};
use crate::text::{chars_of, hex, hex16, joined, lowercased, owned, string_of};
use crate::text_set::TextSet;
use crate::time::Timestamp;
use crate::url::{opt_view, parsed_url, url_outcome, Url, UrlParseError, UrlParts};
use vstd::prelude::*;
use vstd::utf8::encode_utf8;

verus! {

/// An HTTP method.
#[derive(Debug, PartialEq, Eq, Hash)]
pub enum Method {
    Options,
    Get,
    Post,
    Put,
    Delete,
    Head,
    Trace,
    Connect,
    Patch,
    /// A method outside the standard set.
    Extension(String),
}

impl Method {
    pub const GET: Method = Method::Get;

    pub const POST: Method = Method::Post;

    pub const PUT: Method = Method::Put;

    pub const DELETE: Method = Method::Delete;

    pub const HEAD: Method = Method::Head;

    pub const OPTIONS: Method = Method::Options;

    pub const TRACE: Method = Method::Trace;

    pub const CONNECT: Method = Method::Connect;

    pub const PATCH: Method = Method::Patch;

    /// The method's name.
    pub open spec fn text(self) -> Seq<char> {
        match self {
            Method::Options => "OPTIONS"@,
            Method::Get => "GET"@,
            Method::Post => "POST"@,
            Method::Put => "PUT"@,
            Method::Delete => "DELETE"@,
            Method::Head => "HEAD"@,
            Method::Trace => "TRACE"@,
            Method::Connect => "CONNECT"@,
            Method::Patch => "PATCH"@,
            Method::Extension(name) => name@,
        }
    }

    /// The method's name.
    pub fn as_str(&self) -> (r: &str)
        ensures
            r@ == self.text(),
    {
        match self {
            Method::Options => "OPTIONS",
            Method::Get => "GET",
            Method::Post => "POST",
            Method::Put => "PUT",
            Method::Delete => "DELETE",
            Method::Head => "HEAD",
            Method::Trace => "TRACE",
            Method::Connect => "CONNECT",
            Method::Patch => "PATCH",
            Method::Extension(name) => name.as_str(),
        }
    }

    /// Whether two methods are the same.
    pub fn same_as(&self, other: &Method) -> (r: bool)
        ensures
            r == same_method(*self, *other),
    {
        match (self, other) {
            (Method::Options, Method::Options) => true,
            (Method::Get, Method::Get) => true,
            (Method::Post, Method::Post) => true,
            (Method::Put, Method::Put) => true,
            (Method::Delete, Method::Delete) => true,
            (Method::Head, Method::Head) => true,
            (Method::Trace, Method::Trace) => true,
            (Method::Connect, Method::Connect) => true,
            (Method::Patch, Method::Patch) => true,
            (Method::Extension(a), Method::Extension(b)) => crate::text::same(a.as_str(), b.as_str()),
            _ => false,
        }
    }
}

/// Whether two methods are the same.
pub open spec fn same_method(a: Method, b: Method) -> bool {
    match (a, b) {
        (Method::Extension(x), Method::Extension(y)) => x@ == y@,
        (x, y) => x == y,
    }
}

impl Clone for Method {
    fn clone(&self) -> (r: Self)
        ensures
            r == *self,
    {
        match self {
            Method::Options => Method::Options,
            Method::Get => Method::Get,
            Method::Post => Method::Post,
            Method::Put => Method::Put,
            Method::Delete => Method::Delete,
            Method::Head => Method::Head,
            Method::Trace => Method::Trace,
            Method::Connect => Method::Connect,
            Method::Patch => Method::Patch,
            Method::Extension(name) => Method::Extension(name.clone()),
        }
    }
}

/// The seed of the 64-bit FNV-1a hash.
pub const FNV_OFFSET: u64 = 0xcbf29ce484222325;

/// The 64-bit FNV-1a hash of `bytes`, begun at `seed`.
pub open spec fn fnv1a(bytes: Seq<u8>, seed: u64) -> u64
    decreases bytes.len(),
{
    if bytes.len() == 0 {
        seed
    } else {
        (fnv1a(bytes.drop_last(), seed) ^ (bytes.last() as u64)).wrapping_mul(0x100000001b3)
    }
}

fn fnv1a64(bytes: &[u8]) -> (r: u64)
    ensures
        r == fnv1a(bytes@, FNV_OFFSET),
{
    fnv1a64_seeded(bytes, FNV_OFFSET)
}

fn fnv1a64_seeded(bytes: &[u8], seed: u64) -> (r: u64)
    ensures
        r == fnv1a(bytes@, seed),
{
    let mut hash: u64 = seed;
    let mut i: usize = 0;
    while i < bytes.len()
        invariant
            i <= bytes.len(),
            hash == fnv1a(bytes@.subrange(0, i as int), seed),
        decreases bytes.len() - i,
    {
        assert(bytes@.subrange(0, i + 1).drop_last() =~= bytes@.subrange(0, i as int));
        hash = (hash ^ (bytes[i] as u64)).wrapping_mul(0x100000001b3);
        i = i + 1;
    }
    assert(bytes@.subrange(0, bytes@.len() as int) =~= bytes@);
    hash
}

/// A deterministic request identifier.
#[derive(Debug, PartialEq, Eq, Hash)]
pub struct RequestId(String);

impl View for RequestId {
    type V = Seq<char>;

    closed spec fn view(&self) -> Seq<char> {
        self.0@
    }
}

/// The identifier that belongs to a unique key: two chained hashes in hexadecimal.
pub open spec fn request_id(unique_key: Seq<char>) -> Seq<char> {
    let first = fnv1a(encode_utf8(unique_key), FNV_OFFSET);
    hex(first as nat, 16) + hex(fnv1a(encode_utf8(unique_key), first) as nat, 16)
}

impl RequestId {
    /// Derives an identifier deterministically from a request unique key.
    pub fn from_unique_key(unique_key: &str) -> (r: RequestId)
        ensures
            r@ == request_id(unique_key@),
    {
        let h1: u64 = fnv1a64(unique_key.as_bytes());
        let h2: u64 = fnv1a64_seeded(unique_key.as_bytes(), h1);
        RequestId(joined(hex16(h1).as_str(), hex16(h2).as_str()))
    }

    /// The identifier with a text, as it was stored.
    pub fn from_text(text: &str) -> (r: RequestId)
        ensures
            r@ == text@,
    {
        RequestId(owned(text))
    }

    /// Returns the identifier as a string slice.
    pub fn as_str(&self) -> (r: &str)
        ensures
            r@ == self@,
    {
        self.0.as_str()
    }
}

impl Clone for RequestId {
    fn clone(&self) -> (r: Self)
        ensures
            r@ == self@,
    {
        RequestId(self.0.clone())
    }
}

/// The processing lifecycle state of a request.
#[derive(Clone, Copy, Debug, PartialEq, Eq, Structural)]
pub enum RequestState {
    /// Waiting to be processed.
    Unprocessed,
    /// Running pre-navigation hooks.
    BeforeNav,
    /// Running post-navigation hooks.
    AfterNav,
    /// Running the request handler.
    RequestHandler,
    /// Successfully completed.
    Done,
    /// Running the error handler.
    ErrorHandler,
    /// Permanently failed.
    Error,
    /// Deliberately skipped.
    Skipped,
}

impl Default for RequestState {
    fn default() -> (r: Self)
        ensures
            r == RequestState::Unprocessed,
    {
        RequestState::Unprocessed
    }
}

/// A supported request-body representation.
#[derive(Debug, PartialEq, Eq)]
pub enum RequestBody {
    /// Uninterpreted bytes.
    Bytes(Vec<u8>),
    /// Ordered form key-value pairs.
    Form(Vec<(String, String)>),
    /// A JSON value.
    Json(Json),
}

/// The mathematical value of a request body.
pub enum BodyView {
    Bytes(Seq<u8>),
    Form(Seq<(Seq<char>, Seq<char>)>),
    Json(Seq<char>),
}

/// The views of key-value pairs.
pub open spec fn pair_views(pairs: Seq<(String, String)>) -> Seq<(Seq<char>, Seq<char>)> {
    Seq::new(pairs.len(), |i: int| (pairs[i].0@, pairs[i].1@))
}

impl View for RequestBody {
    type V = BodyView;

    open spec fn view(&self) -> BodyView {
        match *self {
            RequestBody::Bytes(b) => BodyView::Bytes(b@),
            RequestBody::Form(pairs) => BodyView::Form(pair_views(pairs@)),
            RequestBody::Json(json) => BodyView::Json(json@),
        }
    }
}

/// The mathematical value of an optional body.
pub open spec fn opt_body_view(body: Option<RequestBody>) -> Option<BodyView> {
    match body {
        Some(b) => Some(b@),
        None => None,
    }
}

/// Key-value pairs as `key=value`, joined by ampersands.
pub open spec fn form_text(pairs: Seq<(Seq<char>, Seq<char>)>) -> Seq<char>
    decreases pairs.len(),
{
    if pairs.len() == 0 {
        seq![]
    } else {
        let pair = pairs.last();
        let front = if pairs.len() == 1 {
            seq![]
        } else {
            form_text(pairs.drop_last()) + seq!['&']
        };
        front + pair.0 + seq!['='] + pair.1
    }
}

/// The bytes that stand for a body in a unique key.
pub open spec fn body_bytes(body: BodyView) -> Seq<u8> {
    match body {
        BodyView::Bytes(bytes) => bytes,
        BodyView::Form(pairs) => encode_utf8(form_text(pairs)),
        BodyView::Json(text) => encode_utf8(text),
    }
}

fn copy_bytes(bytes: &[u8]) -> (r: Vec<u8>)
    ensures
        r@ == bytes@,
{
    let mut out: Vec<u8> = Vec::new();
    let mut i: usize = 0;
    while i < bytes.len()
        invariant
            i <= bytes.len(),
            out@ == bytes@.subrange(0, i as int),
        decreases bytes.len() - i,
    {
        out.push(bytes[i]);
        i = i + 1;
        assert(bytes@.subrange(0, i as int) =~= bytes@.subrange(0, i - 1).push(bytes@[i - 1]));
    }
    assert(bytes@.subrange(0, bytes@.len() as int) =~= bytes@);
    out
}

impl RequestBody {
    /// Returns the canonical bytes used for unique-key hashing.
    pub fn canonical_bytes(&self) -> (r: Vec<u8>)
        ensures
            r@ == body_bytes(self@),
    {
        match self {
            RequestBody::Bytes(bytes) => copy_bytes(bytes.as_slice()),
            RequestBody::Form(pairs) => {
                let mut out: String = String::new();
                let mut i: usize = 0;
                assert(pair_views(pairs@).subrange(0, 0) =~= seq![]);
                while i < pairs.len()
                    invariant
                        i <= pairs.len(),
                        out@ == form_text(pair_views(pairs@).subrange(0, i as int)),
                    decreases pairs.len() - i,
                {
                    let ghost views = pair_views(pairs@);
                    let ghost prior = out@;
                    assert(views.subrange(0, i + 1).drop_last() =~= views.subrange(0, i as int));
                    if i > 0 {
                        out.push('&');
                    }
                    out.append(pairs[i].0.as_str());
                    out.push('=');
                    out.append(pairs[i].1.as_str());
                    assert(out@ =~= form_text(views.subrange(0, i + 1)));
                    i = i + 1;
                }
                assert(pair_views(pairs@).subrange(0, pairs@.len() as int) =~= pair_views(pairs@));
                copy_bytes(out.as_str().as_bytes())
            },
            RequestBody::Json(json) => copy_bytes(json.as_str().as_bytes()),
        }
    }
}

/// A copy of a body.
pub fn clone_body(body: &RequestBody) -> (r: RequestBody)
    ensures
        r@ == body@,
{
    match body {
        RequestBody::Bytes(bytes) => RequestBody::Bytes(copy_bytes(bytes.as_slice())),
        RequestBody::Form(pairs) => {
            let mut out: Vec<(String, String)> = Vec::new();
            let mut i: usize = 0;
            while i < pairs.len()
                invariant
                    i <= pairs.len(),
                    out@.len() == i,
                    forall|k: int|
                        0 <= k < i ==> (#[trigger] out@[k]).0@ == pairs@[k].0@ && out@[k].1@
                            == pairs@[k].1@,
                decreases pairs.len() - i,
            {
                out.push((pairs[i].0.clone(), pairs[i].1.clone()));
                i = i + 1;
            }
            assert(pair_views(out@) =~= pair_views(pairs@));
            RequestBody::Form(out)
        },
        RequestBody::Json(json) => RequestBody::Json(json.clone()),
    }
}

/// User-defined JSON metadata attached to a request.
#[derive(Debug)]
pub struct UserData(pub serde_json::Map<String, serde_json::Value>);

impl View for UserData {
    type V = Map<Seq<char>, Seq<char>>;

    /// The compact JSON text under each key.
    open spec fn view(&self) -> Map<Seq<char>, Seq<char>> {
        object_contents(self.0)
    }
}

impl Default for UserData {
    fn default() -> (r: Self)
        ensures
            r@.dom() == Set::<Seq<char>>::empty(),
    {
        UserData(new_object())
    }
}

impl Clone for UserData {
    fn clone(&self) -> (r: Self)
        ensures
            r@ == self@,
    {
        UserData(clone_object(&self.0))
    }
}

impl UserData {
    /// Returns whether no user data is stored.
    pub fn is_empty(&self) -> (r: bool)
        ensures
            r == (self@.dom() == Set::<Seq<char>>::empty()),
    {
        object_is_empty(&self.0)
    }

    /// Returns the compact JSON text stored at `key`.
    pub fn get(&self, key: &str) -> (r: Option<String>)
        ensures
            r is Some <==> self@.contains_key(key@),
            r is Some ==> r.unwrap()@ == self@[key@],
    {
        member_text(&self.0, key)
    }

    /// Stores the value that a JSON text writes.
    pub fn set(&mut self, key: &str, text: &str) -> (r: Result<(), JsonError>)
        ensures
            r is Ok <==> canonical_json(text@) is Ok,
            r is Ok ==> final(self)@ == old(self)@.insert(key@, canonical_json(text@)->Ok_0),
            r is Err ==> final(self)@ == old(self)@ && r->Err_0.message@ == canonical_json(
                text@,
            )->Err_0,
    {
        insert_member(&mut self.0, owned(key), text)
    }
}

/// A crawl request and its processing state.
#[derive(Debug)]
pub struct Request {
    /// Stable identifier derived from `unique_key`.
    pub id: RequestId,
    /// URL to navigate to.
    pub url: Url,
    /// Final URL after redirects, when navigation has occurred.
    pub loaded_url: Option<Url>,
    /// Queue deduplication key.
    pub unique_key: String,
    /// HTTP method.
    pub method: Method,
    /// HTTP headers, including repeated values.
    pub headers: http::HeaderMap<http::HeaderValue>,
    /// Optional request body.
    pub body: Option<RequestBody>,
    /// User-defined structured metadata.
    pub user_data: UserData,
    /// Optional routing label.
    pub label: Option<String>,
    /// Number of retry attempts made.
    pub retry_count: u32,
    /// Number of session rotations made.
    pub session_rotation_count: u32,
    /// Per-request retry limit override.
    pub max_retries: Option<u32>,
    /// Whether retries are disabled.
    pub no_retry: bool,
    /// Errors recorded during processing.
    pub error_messages: Vec<String>,
    /// Time at which processing completed.
    pub handled_at: Option<Timestamp>,
    /// Current lifecycle state.
    pub state: RequestState,
    /// Depth at which this request was discovered.
    pub crawl_depth: u32,
    /// Whether navigation should be skipped.
    pub skip_navigation: bool,
}

/// The deduplication key of a request: its URL without fragment, with the method and a hash of
/// the body in front for anything but a plain GET.
pub open spec fn unique_key_of(url: UrlParts, method: Method, body: Option<BodyView>) -> Seq<
    char,
> {
    if method is Get && body is None {
        url.bare
    } else {
        let bytes = match body {
            Some(b) => body_bytes(b),
            None => seq![],
        };
        method.text() + seq!['('] + hex(fnv1a(bytes, FNV_OFFSET) as nat, 16) + seq![')', ':']
            + url.bare
    }
}

impl Request {
    /// Whether the request is a GET of a URL that nothing else was set on, but for its label and its
    /// user data, and that nothing has happened to.
    pub open spec fn is_fresh_get(self, url: UrlParts) -> bool {
        &&& self.url@ == url
        &&& self.method is Get
        &&& self.unique_key@ == url.bare
        &&& self.id@ == request_id(url.bare)
        &&& self.loaded_url is None
        &&& header_contents(self.headers).dom() == Set::<Seq<char>>::empty()
        &&& self.body is None
        &&& self.retry_count == 0
        &&& self.session_rotation_count == 0
        &&& self.max_retries is None
        &&& !self.no_retry
        &&& self.error_messages@.len() == 0
        &&& self.handled_at is None
        &&& self.state == RequestState::Unprocessed
        &&& self.crawl_depth == 0
        &&& !self.skip_navigation
    }

    /// Creates a builder configured for a GET request.
    pub fn get<U: IntoUrl>(url: U) -> (r: RequestBuilder)
        ensures
            r.is_new_with(url, Method::Get),
    {
        Request::builder().url(url).method(Method::Get)
    }

    /// Creates a builder configured for a POST request.
    pub fn post<U: IntoUrl>(url: U) -> (r: RequestBuilder)
        ensures
            r.is_new_with(url, Method::Post),
    {
        Request::builder().url(url).method(Method::Post)
    }

    /// Creates an empty request builder.
    pub fn builder() -> (r: RequestBuilder)
        ensures
            r.is_new(),
    {
        RequestBuilder::default()
    }

    /// Computes a deterministic queue deduplication key.
    pub fn compute_unique_key(url: &Url, method: &Method, body: Option<&RequestBody>) -> (r: String)
        ensures
            r@ == unique_key_of(
                url@,
                *method,
                match body {
                    Some(b) => Some(b@),
                    None => None,
                },
            ),
    {
        if matches!(method, Method::Get) && body.is_none() {
            owned(url.bare())
        } else {
            let bytes: Vec<u8> = match body {
                Some(b) => b.canonical_bytes(),
                None => Vec::new(),
            };
            let ghost expected = match body {
                Some(b) => body_bytes(b@),
                None => seq![],
            };
            assert(bytes@ =~= expected);
            let mut out: String = owned(method.as_str());
            out.push('(');
            out.append(hex16(fnv1a64(bytes.as_slice())).as_str());
            out.push(')');
            out.push(':');
            out.append(url.bare());
            assert(out@ =~= method.text() + seq!['('] + hex(
                fnv1a(expected, FNV_OFFSET) as nat,
                16,
            ) + seq![')', ':'] + url@.bare);
            out
        }
    }
}

/// Conversion into a parsed URL for request builders.
pub trait IntoUrl: Sized {
    /// What the conversion gives.
    spec fn url_value(self) -> Result<UrlParts, Seq<char>>;

    /// Converts this value into a URL.
    fn into_url(self) -> (r: Result<Url, UrlParseError>)
        ensures
            url_outcome(r) == self.url_value(),
    ;
}

impl IntoUrl for Url {
    open spec fn url_value(self) -> Result<UrlParts, Seq<char>> {
        Ok(self@)
    }

    fn into_url(self) -> (r: Result<Url, UrlParseError>) {
        Ok(self)
    }
}

impl IntoUrl for &str {
    open spec fn url_value(self) -> Result<UrlParts, Seq<char>> {
        parsed_url(self@)
    }

    fn into_url(self) -> (r: Result<Url, UrlParseError>) {
        Url::parse(self)
    }
}

impl IntoUrl for String {
    open spec fn url_value(self) -> Result<UrlParts, Seq<char>> {
        parsed_url(self@)
    }

    fn into_url(self) -> (r: Result<Url, UrlParseError>) {
        Url::parse(self.as_str())
    }
}

impl IntoUrl for &String {
    open spec fn url_value(self) -> Result<UrlParts, Seq<char>> {
        parsed_url(self@)
    }

    fn into_url(self) -> (r: Result<Url, UrlParseError>) {
        Url::parse(self.as_str())
    }
}

/// A header that is not yet validated.
#[derive(Debug)]
pub struct PendingHeader {
    pub name: String,
    pub value: String,
}

/// Builds a [`Request`] while deferring parsing and serialization errors.
#[derive(Debug)]
pub struct RequestBuilder {
    pub url: Option<Result<Url, UrlParseError>>,
    pub method: Option<Method>,
    pub headers: http::HeaderMap<http::HeaderValue>,
    pub pending_headers: Vec<PendingHeader>,
    pub body: Option<RequestBody>,
    pub serialization_error: Option<JsonError>,
    pub user_data: UserData,
    pub label: Option<String>,
    pub max_retries: Option<u32>,
    pub no_retry: bool,
    pub skip_navigation: bool,
    pub unique_key: Option<String>,
    pub forefront: bool,
    pub crawl_depth: u32,
}

/// Why a header is refused, if it is.
pub open spec fn header_fault(header: PendingHeader) -> Option<Seq<char>> {
    if !is_header_name(header.name@) {
        Some("invalid HTTP header name"@)
    } else if !is_header_value(header.value@) {
        Some("failed to parse header value"@)
    } else {
        None
    }
}

/// The first refused header's name with the reason.
pub open spec fn first_header_fault(headers: Seq<PendingHeader>) -> Option<
    (Seq<char>, Seq<char>),
>
    decreases headers.len(),
{
    if headers.len() == 0 {
        None
    } else {
        match header_fault(headers[0]) {
            Some(message) => Some((headers[0].name@, message)),
            None => first_header_fault(headers.drop_first()),
        }
    }
}

/// Whether a header is added, that is, neither it nor one before it is refused.
pub open spec fn is_added(headers: Seq<PendingHeader>, at: int) -> bool {
    0 <= at < headers.len() && forall|k: int|
        0 <= k <= at ==> header_fault(#[trigger] headers[k]) is None
}

/// A header map's contents with more headers added in their order.
pub open spec fn with_headers(
    contents: Map<Seq<char>, Seq<Seq<u8>>>,
    headers: Seq<PendingHeader>,
) -> Map<Seq<char>, Seq<Seq<u8>>>
    decreases headers.len(),
{
    if headers.len() == 0 {
        contents
    } else {
        with_header(
            with_headers(contents, headers.drop_last()),
            headers.last().name@,
            encode_utf8(headers.last().value@),
        )
    }
}

impl Default for RequestBuilder {
    fn default() -> (r: Self)
        ensures
            r.is_new(),
    {
        RequestBuilder {
            url: None,
            method: None,
            headers: new_headers(),
            pending_headers: Vec::new(),
            body: None,
            serialization_error: None,
            user_data: UserData::default(),
            label: None,
            max_retries: None,
            no_retry: false,
            skip_navigation: false,
            unique_key: None,
            forefront: false,
            crawl_depth: 0,
        }
    }
}

impl RequestBuilder {
    /// Nothing is set but, possibly, the URL and the method.
    pub open spec fn rest_is_new(self) -> bool {
        &&& header_contents(self.headers).dom() == Set::<Seq<char>>::empty()
        &&& self.pending_headers@.len() == 0
        &&& self.body is None
        &&& self.serialization_error is None
        &&& self.user_data@.dom() == Set::<Seq<char>>::empty()
        &&& self.label is None
        &&& self.max_retries is None
        &&& !self.no_retry
        &&& !self.skip_navigation
        &&& self.unique_key is None
        &&& !self.forefront
        &&& self.crawl_depth == 0
    }

    /// Nothing is set.
    pub open spec fn is_new(self) -> bool {
        self.url is None && self.method is None && self.rest_is_new()
    }

    /// Only a URL and a method are set.
    pub open spec fn is_new_with<U: IntoUrl>(self, url: U, method: Method) -> bool {
        &&& self.url is Some
        &&& url_outcome(self.url.unwrap()) == url.url_value()
        &&& self.method == Some(method)
        &&& self.rest_is_new()
    }

    /// Whether the headers will fit in the request's header map: there is room for each that is
    /// added.
    pub open spec fn headers_fit_spec(self) -> bool {
        forall|at: int| #[trigger]
            is_added(self.pending_headers@, at) ==> takes_more(
                with_headers(
                    header_contents(self.headers),
                    self.pending_headers@.subrange(0, at),
                ),
            )
    }

    /// The deduplication key of the request that is being built.
    pub open spec fn key_spec(self, url: UrlParts) -> Seq<char> {
        match self.unique_key {
            Some(key) => key@,
            None => unique_key_of(
                url,
                match self.method {
                    Some(m) => m,
                    None => Method::Get,
                },
                opt_body_view(self.body),
            ),
        }
    }

    /// Sets the request URL.
    pub fn url<U: IntoUrl>(self, url: U) -> (r: RequestBuilder)
        ensures
            r.url is Some,
            url_outcome(r.url.unwrap()) == url.url_value(),
            r == (RequestBuilder { url: r.url, ..self }),
    {
        let mut out = self;
        out.url = Some(url.into_url());
        out
    }

    /// Sets the HTTP method.
    pub fn method(self, method: Method) -> (r: RequestBuilder)
        ensures
            r == (RequestBuilder { method: Some(method), ..self }),
    {
        let mut out = self;
        out.method = Some(method);
        out
    }

    /// Appends a header, deferring validation until [`Self::build`].
    pub fn header(self, name: &str, value: &str) -> (r: RequestBuilder)
        ensures
            r.pending_headers@.len() == self.pending_headers@.len() + 1,
            r.pending_headers@.drop_last() == self.pending_headers@,
            r.pending_headers@.last().name@ == name@,
            r.pending_headers@.last().value@ == value@,
            r == (RequestBuilder { pending_headers: r.pending_headers, ..self }),
    {
        let mut out = self;
        let ghost prior = out.pending_headers@;
        out.pending_headers.push(PendingHeader { name: owned(name), value: owned(value) });
        assert(out.pending_headers@.drop_last() =~= prior);
        out
    }

    /// Replaces all currently configured headers.
    pub fn headers(self, headers: http::HeaderMap<http::HeaderValue>) -> (r: RequestBuilder)
        ensures
            r.pending_headers@.len() == 0,
            r == (RequestBuilder { headers, pending_headers: r.pending_headers, ..self }),
    {
        let mut out = self;
        out.headers = headers;
        out.pending_headers = Vec::new();
        out
    }

    /// Sets the request body.
    pub fn body(self, body: RequestBody) -> (r: RequestBuilder)
        ensures
            r == (RequestBuilder { body: Some(body), ..self }),
    {
        let mut out = self;
        out.body = Some(body);
        out
    }

    /// Sets the JSON request body that a text writes.
    pub fn json(self, text: &str) -> (r: RequestBuilder)
        ensures
            match canonical_json(text@) {
                Ok(canonical) => opt_body_view(r.body) == Some(BodyView::Json(canonical)) && r == (
                RequestBuilder { body: r.body, ..self }),
                Err(message) => r.serialization_error is Some
                    && r.serialization_error.unwrap().message@ == message && r == (
                RequestBuilder { serialization_error: r.serialization_error, ..self }),
            },
    {
        self.json_value(Json::parse(text))
    }

    /// Sets a JSON request body, or records why there is none.
    pub fn json_value(self, value: Result<Json, JsonError>) -> (r: RequestBuilder)
        ensures
            match value {
                Ok(json) => r == (RequestBuilder { body: Some(RequestBody::Json(json)), ..self }),
                Err(e) => r == (RequestBuilder { serialization_error: Some(e), ..self }),
            },
    {
        let mut out = self;
        match value {
            Ok(json) => {
                out.body = Some(RequestBody::Json(json));
            },
            Err(error) => {
                out.serialization_error = Some(error);
            },
        }
        out
    }

    /// Sets an ordered form request body.
    pub fn form(self, pairs: Vec<(String, String)>) -> (r: RequestBuilder)
        ensures
            r == (RequestBuilder { body: Some(RequestBody::Form(pairs)), ..self }),
    {
        let mut out = self;
        out.body = Some(RequestBody::Form(pairs));
        out
    }

    /// Sets the routing label.
    pub fn label(self, label: &str) -> (r: RequestBuilder)
        ensures
            opt_view(r.label) == Some(label@),
            r == (RequestBuilder { label: r.label, ..self }),
    {
        let mut out = self;
        out.label = Some(owned(label));
        out
    }

    /// Replaces the request's user data.
    pub fn user_data(self, user_data: UserData) -> (r: RequestBuilder)
        ensures
            r == (RequestBuilder { user_data, ..self }),
    {
        let mut out = self;
        out.user_data = user_data;
        out
    }

    /// Inserts the value that a JSON text writes into the user data.
    pub fn user_data_entry(self, key: &str, text: &str) -> (r: RequestBuilder)
        ensures
            match canonical_json(text@) {
                Ok(canonical) => r.user_data@ == self.user_data@.insert(key@, canonical) && r == (
                RequestBuilder { user_data: r.user_data, ..self }),
                Err(message) => r.serialization_error is Some
                    && r.serialization_error.unwrap().message@ == message && r.user_data@
                    == self.user_data@ && r == (RequestBuilder {
                    user_data: r.user_data,
                    serialization_error: r.serialization_error,
                    ..self
                }),
            },
    {
        let mut out = self;
        match out.user_data.set(key, text) {
            Ok(()) => {},
            Err(error) => {
                out.serialization_error = Some(error);
            },
        }
        out
    }

    /// Sets the per-request retry limit.
    pub fn max_retries(self, max_retries: u32) -> (r: RequestBuilder)
        ensures
            r == (RequestBuilder { max_retries: Some(max_retries), ..self }),
    {
        let mut out = self;
        out.max_retries = Some(max_retries);
        out
    }

    /// Enables or disables retries.
    pub fn no_retry(self, no_retry: bool) -> (r: RequestBuilder)
        ensures
            r == (RequestBuilder { no_retry, ..self }),
    {
        let mut out = self;
        out.no_retry = no_retry;
        out
    }

    /// Controls whether navigation is skipped.
    pub fn skip_navigation(self, skip_navigation: bool) -> (r: RequestBuilder)
        ensures
            r == (RequestBuilder { skip_navigation, ..self }),
    {
        let mut out = self;
        out.skip_navigation = skip_navigation;
        out
    }

    /// Overrides the computed queue deduplication key.
    pub fn unique_key(self, unique_key: &str) -> (r: RequestBuilder)
        ensures
            opt_view(r.unique_key) == Some(unique_key@),
            r == (RequestBuilder { unique_key: r.unique_key, ..self }),
    {
        let mut out = self;
        out.unique_key = Some(owned(unique_key));
        out
    }

    /// Controls whether a future queue enqueue places this request at the front.
    pub fn forefront(self, forefront: bool) -> (r: RequestBuilder)
        ensures
            r == (RequestBuilder { forefront, ..self }),
    {
        let mut out = self;
        out.forefront = forefront;
        out
    }

    /// Returns whether a future queue enqueue should use the forefront.
    pub fn is_forefront(&self) -> (r: bool)
        ensures
            r == self.forefront,
    {
        self.forefront
    }

    /// Sets the discovery depth.
    pub fn crawl_depth(self, crawl_depth: u32) -> (r: RequestBuilder)
        ensures
            r == (RequestBuilder { crawl_depth, ..self }),
    {
        let mut out = self;
        out.crawl_depth = crawl_depth;
        out
    }

    /// Whether the headers will fit in the request's header map.
    pub fn headers_fit(&self) -> (r: bool)
        ensures
            r == self.headers_fit_spec(),
    {
        let mut names: TextSet = header_names(&self.headers);
        let pending: &Vec<PendingHeader> = &self.pending_headers;
        let ghost start = header_contents(self.headers);
        let mut i: usize = 0;
        assert(pending@.subrange(0, 0) =~= seq![]);
        while i < pending.len()
            invariant
                i <= pending.len(),
                pending@ == self.pending_headers@,
                start == header_contents(self.headers),
                names@ == with_headers(start, pending@.subrange(0, i as int)).dom(),
                forall|k: int| 0 <= k < i ==> header_fault(#[trigger] pending@[k]) is None,
                forall|at: int|
                    at < i && #[trigger] is_added(pending@, at) ==> takes_more(
                        with_headers(start, pending@.subrange(0, at)),
                    ),
            decreases pending.len() - i,
        {
            let header: &PendingHeader = &pending[i];
            assert(*header == pending@[i as int]);
            if check_header_name(header.name.as_str()).is_err() || check_header_value(
                header.value.as_str(),
            ).is_err() {
                assert(header_fault(pending@[i as int]) is Some);
                assert forall|at: int| #[trigger] is_added(pending@, at) implies at < i by {}
                return true;
            }
            assert(is_added(pending@, i as int));
            if names.len() >= MAX_HEADER_NAMES {
                return false;
            }
            let lower: String = string_of(&lowercased(&chars_of(header.name.as_str())));
            names.insert(lower.as_str());
            proof {
                let grown = pending@.subrange(0, i + 1);
                assert(grown.drop_last() =~= pending@.subrange(0, i as int));
                assert(with_headers(start, grown).dom() =~= names@);
            }
            i = i + 1;
        }
        true
    }

    /// Whether `r` comes of the builder.
    pub open spec fn builds(self, r: Result<Request, RequestBuildError>) -> bool {
        match r {
            Err(RequestBuildError::Serialization(e)) => self.serialization_error == Some(e),
            Err(RequestBuildError::MissingUrl) => self.serialization_error is None
                && self.url is None,
            Err(RequestBuildError::InvalidUrl(e)) => self.serialization_error is None
                && self.url == Some(Err::<Url, UrlParseError>(e)),
            Err(RequestBuildError::InvalidHeader { name, message }) => {
                &&& self.serialization_error is None
                &&& self.url is Some && self.url.unwrap() is Ok
                &&& first_header_fault(self.pending_headers@) == Some((name@, message@))
            },
            Ok(request) => {
                &&& self.serialization_error is None
                &&& self.url == Some(Ok::<Url, UrlParseError>(request.url))
                &&& first_header_fault(self.pending_headers@) is None
                &&& request.unique_key@ == self.key_spec(request.url@)
                &&& request.id@ == request_id(request.unique_key@)
                &&& request.loaded_url is None
                &&& request.method == match self.method {
                    Some(m) => m,
                    None => Method::Get,
                }
                &&& header_contents(request.headers) == with_headers(
                    header_contents(self.headers),
                    self.pending_headers@,
                )
                &&& request.body == self.body
                &&& request.user_data == self.user_data
                &&& request.label == self.label
                &&& request.retry_count == 0
                &&& request.session_rotation_count == 0
                &&& request.max_retries == self.max_retries
                &&& request.no_retry == self.no_retry
                &&& request.error_messages@.len() == 0
                &&& request.handled_at is None
                &&& request.state == RequestState::Unprocessed
                &&& request.crawl_depth == self.crawl_depth
                &&& request.skip_navigation == self.skip_navigation
            },
        }
    }

    /// Validates this builder and creates a request.
    pub fn build(self) -> (r: Result<Request, RequestBuildError>)
        requires
            self.headers_fit_spec(),
        ensures
            self.builds(r),
    {
        if let Some(error) = self.serialization_error {
            return Err(RequestBuildError::Serialization(error));
        }
        let url: Url = match self.url {
            None => {
                return Err(RequestBuildError::MissingUrl);
            },
            Some(Err(error)) => {
                return Err(RequestBuildError::InvalidUrl(error));
            },
            Some(Ok(url)) => url,
        };
        let mut headers = self.headers;
        let pending = self.pending_headers;
        let mut i: usize = 0;
        assert(pending@.subrange(0, 0) =~= seq![]);
        assert(pending@.skip(0) =~= pending@);
        while i < pending.len()
            invariant
                i <= pending.len(),
                pending == self.pending_headers,
                header_contents(headers) == with_headers(
                    header_contents(self.headers),
                    pending@.subrange(0, i as int),
                ),
                self.headers_fit_spec(),
                forall|k: int| 0 <= k < i ==> header_fault(#[trigger] pending@[k]) is None,
                first_header_fault(pending@) == first_header_fault(pending@.skip(i as int)),
                self.serialization_error is None,
                self.url == Some(Ok::<Url, UrlParseError>(url)),
            decreases pending.len() - i,
        {
            let header: &PendingHeader = &pending[i];
            assert(pending@.skip(i as int).drop_first() =~= pending@.skip(i + 1));
            assert(pending@.subrange(0, i + 1).drop_last() =~= pending@.subrange(0, i as int));
            if let Err(message) = check_header_name(header.name.as_str()) {
                return Err(
                    RequestBuildError::InvalidHeader { name: header.name.clone(), message },
                );
            }
            if let Err(message) = check_header_value(header.value.as_str()) {
                return Err(
                    RequestBuildError::InvalidHeader { name: header.name.clone(), message },
                );
            }
            assert(is_added(pending@, i as int));
            append_header(&mut headers, header.name.as_str(), header.value.as_str());
            i = i + 1;
        }
        assert(pending@.subrange(0, pending.len() as int) =~= pending@);
        let method: Method = match self.method {
            Some(method) => method,
            None => Method::Get,
        };
        let unique_key: String = match self.unique_key {
            Some(key) => key,
            None => Request::compute_unique_key(&url, &method, self.body.as_ref()),
        };
        let id: RequestId = RequestId::from_unique_key(unique_key.as_str());
        Ok(
            Request {
                id,
                url,
                loaded_url: None,
                unique_key,
                method,
                headers,
                body: self.body,
                user_data: self.user_data,
                label: self.label,
                retry_count: 0,
                session_rotation_count: 0,
                max_retries: self.max_retries,
                no_retry: self.no_retry,
                error_messages: Vec::new(),
                handled_at: None,
                state: RequestState::Unprocessed,
                crawl_depth: self.crawl_depth,
                skip_navigation: self.skip_navigation,
            },
        )
    }
}

/// Errors encountered while building a request.
#[derive(Debug)]
pub enum RequestBuildError {
    /// The builder has no URL.
    MissingUrl,
    /// The supplied URL could not be parsed.
    InvalidUrl(UrlParseError),
    /// A header name or value is invalid.
    InvalidHeader {
        /// Invalid header name as supplied by the caller.
        name: String,
        /// Parser error describing the invalid header.
        message: String,
    },
    /// JSON serialization failed.
    Serialization(JsonError),
}

impl RequestBuildError {
    /// The text of the error.
    pub open spec fn message_spec(self) -> Seq<char> {
        match self {
            RequestBuildError::MissingUrl => "request URL is missing"@,
            RequestBuildError::InvalidUrl(e) => "invalid URL: "@ + e.message@,
            RequestBuildError::InvalidHeader { name, message } => "invalid header "@ + name@
                + seq![':', ' '] + message@,
            RequestBuildError::Serialization(e) => "user data serialization failed: "@ + e.message@,
        }
    }

    /// The error and what caused it.
    pub open spec fn links(self) -> Seq<LinkView> {
        let own = LinkView { message: self.message_spec(), status: None };
        match self {
            RequestBuildError::InvalidUrl(e) => seq![
                own,
                LinkView { message: e.message@, status: None },
            ],
            RequestBuildError::Serialization(e) => seq![
                own,
                LinkView { message: e.message@, status: None },
            ],
            _ => seq![own],
        }
    }

    /// The text of the error.
    pub fn message(&self) -> (r: String)
        ensures
            r@ == self.message_spec(),
    {
        match self {
            RequestBuildError::MissingUrl => owned("request URL is missing"),
            RequestBuildError::InvalidUrl(e) => joined("invalid URL: ", e.message.as_str()),
            RequestBuildError::InvalidHeader { name, message } => {
                let mut out: String = joined("invalid header ", name.as_str());
                out.push(':');
                out.push(' ');
                out.append(message.as_str());
                assert(out@ =~= self.message_spec());
                out
            },
            RequestBuildError::Serialization(e) => joined(
                "user data serialization failed: ",
                e.message.as_str(),
            ),
        }
    }

    /// The error as a chain of causes.
    pub fn into_cause(self) -> (r: Cause)
        ensures
            r@ == self.links(),
    {
        let message: String = self.message();
        let r = match &self {
            RequestBuildError::InvalidUrl(e) => Cause::msg(e.message.as_str()).context(
                message.as_str(),
            ),
            RequestBuildError::Serialization(e) => Cause::msg(e.message.as_str()).context(
                message.as_str(),
            ),
            _ => Cause::msg(message.as_str()),
        };
        assert(r@ =~= self.links());
        r
    }
}

/// The key of a plain GET request does not depend on the URL's fragment: a URL and the same
/// URL with a fragment behind it have one key, and so one identifier.
pub proof fn fragment_does_not_affect_key(plain: UrlParts, marked: UrlParts)
    requires
        plain.fragment_is_last(),
        marked.fragment_is_last(),
        !plain.opaque,
        !marked.opaque,
        plain.fragment is None,
        marked.fragment is Some,
        marked.text == plain.text + seq!['#'] + marked.fragment.unwrap(),
    ensures
        forall|method: Method, body: Option<BodyView>|
            #[trigger] unique_key_of(plain, method, body) == unique_key_of(marked, method, body),
        unique_key_of(marked, Method::Get, None) == plain.text,
{
    let tail = seq!['#'] + marked.fragment.unwrap();
    assert(marked.bare + tail =~= marked.text);
    assert(plain.text + tail =~= marked.text);
    assert(marked.bare =~= plain.text) by {
        assert(marked.bare.len() == plain.text.len());
        assert forall|i: int| 0 <= i < marked.bare.len() implies marked.bare[i] == plain.text[i] by {
            assert((marked.bare + tail)[i] == (plain.text + tail)[i]);
        }
    }
}

/// Requests with one unique key have one identifier, of thirty-two hexadecimal digits.
pub proof fn request_id_is_a_function_of_the_key(key: Seq<char>)
    ensures
        request_id(key).len() == 32,
        forall|i: int|
            0 <= i < 32 ==> crate::text::is_hex_digit(#[trigger] request_id(key)[i]),
{
    let first = fnv1a(encode_utf8(key), FNV_OFFSET);
    let second = fnv1a(encode_utf8(key), first);
    lemma_hex_digits(first as nat, 16);
    lemma_hex_digits(second as nat, 16);
}

proof fn lemma_hex_digits(n: nat, width: nat)
    ensures
        hex(n, width).len() == width,
        forall|i: int|
            0 <= i < width ==> crate::text::is_hex_digit(#[trigger] hex(n, width)[i]),
    decreases width,
{
    if width > 0 {
        lemma_hex_digits(n / 16, (width - 1) as nat);
    }
}

/// The hash of a body: bytes enter one after the other, so a hash can be carried on from where an
/// earlier one stopped.
pub proof fn hashes_carry_on(first: Seq<u8>, second: Seq<u8>, byte: u8, seed: u64)
    ensures
        fnv1a(Seq::<u8>::empty(), seed) == seed,
        fnv1a(seq![byte], seed) == (seed ^ (byte as u64)).wrapping_mul(1099511628211),
        fnv1a(first + second, seed) == fnv1a(second, fnv1a(first, seed)),
    decreases second.len(),
{
    reveal_with_fuel(fnv1a, 2);
    assert(seq![byte].drop_last() =~= Seq::<u8>::empty());
    if second.len() > 0 {
        hashes_carry_on(first, second.drop_last(), byte, seed);
        assert((first + second).drop_last() =~= first + second.drop_last());
        assert((first + second).last() == second.last());
    } else {
        assert(first + second =~= first);
    }
}

/// Forms are written as pairs of name and value with an equals sign between, and an ampersand
/// between two pairs.
pub proof fn forms_are_pairs_in_order(
    first: Seq<(Seq<char>, Seq<char>)>,
    second: Seq<(Seq<char>, Seq<char>)>,
    name: Seq<char>,
    value: Seq<char>,
)
    ensures
        form_text(Seq::<(Seq<char>, Seq<char>)>::empty()).len() == 0,
        form_text(seq![(name, value)]) == name + "="@ + value,
        first.len() > 0 && second.len() > 0 ==> form_text(first + second) == form_text(first) + "&"@
            + form_text(second),
    decreases second.len(),
{
    reveal_strlit("=");
    reveal_strlit("&");
    assert("="@ =~= seq!['=']);
    assert("&"@ =~= seq!['&']);
    reveal_with_fuel(form_text, 2);
    assert(form_text(seq![(name, value)]) =~= name + "="@ + value);
    if first.len() > 0 && second.len() > 0 {
        let all = first + second;
        assert(all.last() == second.last());
        assert(all.drop_last() =~= first + second.drop_last());
        if second.len() == 1 {
            assert(all.drop_last() =~= first);
            assert(form_text(all) =~= form_text(first) + "&"@ + form_text(second));
        } else {
            forms_are_pairs_in_order(first, second.drop_last(), name, value);
            assert(form_text(all) =~= form_text(first) + "&"@ + form_text(second));
        }
    }
}

/// Between two requests with one URL and one method, each with a body, it is the hash of the body
/// that tells their keys apart, whatever the kind of body: of its bytes, of the text of its form, or
/// of its JSON text.
pub proof fn bodies_tell_keys_apart(
    url: UrlParts,
    method: Method,
    a: BodyView,
    b: BodyView,
    bytes_of_a: Seq<u8>,
    bytes_of_b: Seq<u8>,
)
    requires
        match a {
            BodyView::Bytes(bytes) => bytes_of_a == bytes,
            BodyView::Form(pairs) => bytes_of_a == encode_utf8(form_text(pairs)),
            BodyView::Json(text) => bytes_of_a == encode_utf8(text),
        },
        match b {
            BodyView::Bytes(bytes) => bytes_of_b == bytes,
            BodyView::Form(pairs) => bytes_of_b == encode_utf8(form_text(pairs)),
            BodyView::Json(text) => bytes_of_b == encode_utf8(text),
        },
    ensures
        unique_key_of(url, method, Some(a)) == unique_key_of(url, method, Some(b)) <==> fnv1a(
            bytes_of_a,
            0xcbf29ce484222325,
        ) == fnv1a(bytes_of_b, 0xcbf29ce484222325),
{
    let x = fnv1a(bytes_of_a, 0xcbf29ce484222325);
    let y = fnv1a(bytes_of_b, 0xcbf29ce484222325);
    let key_a = unique_key_of(url, method, Some(a));
    let key_b = unique_key_of(url, method, Some(b));
    let n = method.text().len() as int + 1;
    lemma_hex_digits(x as nat, 16);
    lemma_hex_digits(y as nat, 16);
    assert(key_a.subrange(n, n + 16) =~= hex(x as nat, 16));
    assert(key_b.subrange(n, n + 16) =~= hex(y as nat, 16));
    if key_a == key_b {
        reveal_with_fuel(power16, 17);
        lemma_hex_injective(x as nat, y as nat, 16);
    }
}

/// The key of a plain GET is its URL without the fragment. Any other key begins with the method's
/// name and the hash of the body in brackets, of no bytes where there is none, and ends with that URL.
pub proof fn keys_name_method_body_and_url(url: UrlParts, method: Method, body: Option<BodyView>)
    ensures
        unique_key_of(url, Method::Get, None) == url.bare,
        method is Get ==> method.text() == "GET"@,
        method is Post ==> method.text() == "POST"@,
        method is Put ==> method.text() == "PUT"@,
        method is Delete ==> method.text() == "DELETE"@,
        method is Head ==> method.text() == "HEAD"@,
        method is Patch ==> method.text() == "PATCH"@,
        method is Options ==> method.text() == "OPTIONS"@,
        method is Trace ==> method.text() == "TRACE"@,
        method is Connect ==> method.text() == "CONNECT"@,
        method is Extension ==> method.text() == method->Extension_0@,
        !(method is Get) || body is Some ==> {
            let key = unique_key_of(url, method, body);
            let n = method.text().len() as int;
            &&& key.len() == n + 19 + url.bare.len()
            &&& key.subrange(0, n) == method.text()
            &&& key[n] == '('
            &&& key[n + 17] == ')'
            &&& key[n + 18] == ':'
            &&& key.subrange(n + 19, key.len() as int) == url.bare
        },
        !(method is Get) ==> unique_key_of(url, method, None) == unique_key_of(
            url,
            method,
            Some(BodyView::Bytes(Seq::<u8>::empty())),
        ),
{
    let bytes = match body {
        Some(b) => body_bytes(b),
        None => seq![],
    };
    let x = fnv1a(bytes, FNV_OFFSET);
    lemma_hex_digits(x as nat, 16);
    if !(method is Get) || body is Some {
        let key = unique_key_of(url, method, body);
        let n = method.text().len() as int;
        assert(key.subrange(0, n) =~= method.text());
        assert(key.subrange(n + 19, key.len() as int) =~= url.bare);
    }
}

/// Requests with a hashed body and one URL have one key only where their methods have one name, and
/// requests with one method and body only where their URLs agree up to the fragment.
pub proof fn methods_and_urls_tell_keys_apart(
    url: UrlParts,
    other: UrlParts,
    method: Method,
    another: Method,
    body: BodyView,
)
    ensures
        unique_key_of(url, method, Some(body)) == unique_key_of(url, another, Some(body))
            <==> method.text() == another.text(),
        unique_key_of(url, method, Some(body)) == unique_key_of(other, method, Some(body))
            <==> url.bare == other.bare,
        unique_key_of(url, method, None) == unique_key_of(other, method, None) <==> url.bare
            == other.bare,
{
    keys_name_method_body_and_url(url, method, Some(body));
    keys_name_method_body_and_url(url, another, Some(body));
    keys_name_method_body_and_url(other, method, Some(body));
    keys_name_method_body_and_url(url, method, None);
    keys_name_method_body_and_url(other, method, None);
}

/// An identifier is made of two hashes of its key: one from the usual start, and one carried on from
/// the first. Where identifiers agree the hashes of their keys agree.
pub proof fn identifiers_hash_their_keys_twice(key: Seq<char>, other: Seq<char>)
    ensures
        ({
            let bytes = encode_utf8(key);
            let first = fnv1a(bytes, 14695981039346656037);
            &&& request_id(key).len() == 32
            &&& request_id(key).subrange(0, 16) == hex(first as nat, 16)
            &&& request_id(key).subrange(16, 32) == hex(
                fnv1a(bytes + bytes, 14695981039346656037) as nat,
                16,
            )
            &&& request_id(key) == request_id(other) ==> first == fnv1a(
                encode_utf8(other),
                14695981039346656037,
            )
        }),
{
    let bytes = encode_utf8(key);
    let first = fnv1a(bytes, FNV_OFFSET);
    let second = fnv1a(bytes, first);
    let foreign = fnv1a(encode_utf8(other), FNV_OFFSET);
    hashes_carry_on(bytes, bytes, 0, FNV_OFFSET);
    lemma_hex_digits(first as nat, 16);
    lemma_hex_digits(second as nat, 16);
    lemma_hex_digits(foreign as nat, 16);
    assert(request_id(key).subrange(0, 16) =~= hex(first as nat, 16));
    assert(request_id(key).subrange(16, 32) =~= hex(second as nat, 16));
    assert(request_id(other).subrange(0, 16) =~= hex(foreign as nat, 16));
    if request_id(key) == request_id(other) {
        reveal_with_fuel(power16, 17);
        lemma_hex_injective(first as nat, foreign as nat, 16);
    }
}

/// A key that was set is used as it is; without one the key follows from method, which is GET unless
/// another was set, URL and body.
pub proof fn set_keys_are_used_as_they_are(builder: RequestBuilder, url: UrlParts)
    ensures
        builder.unique_key is Some ==> builder.key_spec(url) == builder.unique_key.unwrap()@,
        builder.unique_key is None && builder.method is Some ==> builder.key_spec(url)
            == unique_key_of(url, builder.method.unwrap(), opt_body_view(builder.body)),
        builder.unique_key is None && builder.method is None && builder.body is None
            ==> builder.key_spec(url) == url.bare,
        builder.unique_key is None && builder.method is None && builder.body is Some
            ==> builder.key_spec(url) == unique_key_of(url, Method::Get, Some(builder.body.unwrap()@)),
{
}

/// The first header that cannot be set is the one reported, with its name and with what is wrong with
/// it; there is nothing to report where every name is a token and every value has visible characters,
/// spaces and tabs only.
pub proof fn first_bad_headers_are_reported(headers: Seq<PendingHeader>, at: int)
    requires
        0 <= at <= headers.len(),
        forall|k: int| 0 <= k < at ==> is_header_name((#[trigger] headers[k]).name@)
            && is_header_value(headers[k].value@),
    ensures
        at == headers.len() ==> first_header_fault(headers) is None,
        at < headers.len() && !is_header_name(headers[at].name@) ==> first_header_fault(headers)
            == Some((headers[at].name@, "invalid HTTP header name"@)),
        at < headers.len() && is_header_name(headers[at].name@) && !is_header_value(
            headers[at].value@,
        ) ==> first_header_fault(headers) == Some(
            (headers[at].name@, "failed to parse header value"@),
        ),
    decreases headers.len(),
{
    if at > 0 {
        let rest = headers.drop_first();
        assert(is_header_name(headers[0].name@));
        assert forall|k: int| 0 <= k < at - 1 implies is_header_name((#[trigger] rest[k]).name@)
            && is_header_value(rest[k].value@) by {
            assert(rest[k] == headers[k + 1]);
        }
        first_bad_headers_are_reported(rest, at - 1);
    }
}

/// What keeps a request from being built, in this order: a value that could not be written as JSON, no
/// URL, one that cannot be read, a header that cannot be sent. Nothing else does.
pub proof fn what_keeps_a_request_from_being_built(
    builder: RequestBuilder,
    r: Result<Request, RequestBuildError>,
)
    requires
        builder.builds(r),
    ensures
        builder.serialization_error is Some <==> r is Err && r->Err_0 is Serialization,
        builder.serialization_error is None && builder.url is None <==> r is Err && r->Err_0
            is MissingUrl,
        builder.serialization_error is None && builder.url is Some && builder.url.unwrap() is Err
            <==> r is Err && r->Err_0 is InvalidUrl,
        builder.serialization_error is None && builder.url is Some && builder.url.unwrap() is Ok
            && first_header_fault(builder.pending_headers@) is Some <==> r is Err && r->Err_0
            is InvalidHeader,
        builder.serialization_error is None && builder.url is Some && builder.url.unwrap() is Ok
            && first_header_fault(builder.pending_headers@) is None <==> r is Ok,
{
}

/// A built request is what was set on its builder, a GET without anything else where nothing was, and
/// nothing has happened to it yet.
pub proof fn what_a_built_request_is(builder: RequestBuilder, request: Request)
    requires
        builder.builds(Ok::<Request, RequestBuildError>(request)),
    ensures
        builder.url == Some(Ok::<Url, UrlParseError>(request.url)),
        builder.method is Some ==> request.method == builder.method.unwrap(),
        builder.method is None ==> request.method is Get,
        request.body == builder.body,
        request.label == builder.label,
        request.user_data == builder.user_data,
        request.max_retries == builder.max_retries,
        request.no_retry == builder.no_retry,
        request.crawl_depth == builder.crawl_depth,
        request.skip_navigation == builder.skip_navigation,
        request.retry_count == 0,
        request.session_rotation_count == 0,
        request.error_messages@.len() == 0,
        request.handled_at is None,
        request.loaded_url is None,
        request.state == RequestState::Unprocessed,
        builder.unique_key is Some ==> request.unique_key@ == builder.unique_key.unwrap()@,
        request.id@ == request_id(request.unique_key@),
        builder.pending_headers@.len() == 0 ==> header_contents(request.headers) == header_contents(
            builder.headers,
        ),
{
}

/// Headers are set one by one in their order.
pub proof fn headers_are_set_in_order(
    contents: Map<Seq<char>, Seq<Seq<u8>>>,
    headers: Seq<PendingHeader>,
    header: PendingHeader,
)
    ensures
        with_headers(contents, Seq::<PendingHeader>::empty()) == contents,
        with_headers(contents, headers.push(header)) == with_header(
            with_headers(contents, headers),
            header.name@,
            encode_utf8(header.value@),
        ),
{
    assert(headers.push(header).drop_last() =~= headers);
}

/// What each failure to build a request says, and what it says is behind it.
pub proof fn build_failures_in_words(
    url: UrlParseError,
    json: JsonError,
    name: String,
    message: String,
)
    ensures
        RequestBuildError::MissingUrl.message_spec() == "request URL is missing"@,
        RequestBuildError::InvalidUrl(url).message_spec() == "invalid URL: "@ + url.message@,
        (RequestBuildError::InvalidHeader { name, message }).message_spec() == "invalid header "@ + name@
            + ": "@ + message@,
        RequestBuildError::Serialization(json).message_spec() == "user data serialization failed: "@
            + json.message@,
        RequestBuildError::MissingUrl.links().len() == 1,
        RequestBuildError::InvalidUrl(url).links().len() == 2,
        RequestBuildError::InvalidUrl(url).links()[1].message == url.message@,
        RequestBuildError::Serialization(json).links().len() == 2,
        RequestBuildError::Serialization(json).links()[1].message == json.message@,
        (RequestBuildError::InvalidHeader { name, message }).links().len() == 1,
        forall|e: RequestBuildError| (#[trigger] e.links())[0].message == e.message_spec(),
{
    reveal_strlit(": ");
    assert(": "@ =~= seq![':', ' ']);
}

} // verus!
