//! Backend-independent HTTP request and response values.

use crate::errors::{Cause, LinkView};
use crate::headers::{clone_headers, header_contents, new_headers};
use crate::request::{clone_body, opt_body_view, Method, Request, RequestBody};
use crate::text::{decimal, decimal_digits_give_the_number_back, joined, push_decimal};
use crate::time::Duration;
use crate::url::{opt_view, Url};
use vstd::prelude::*;

verus! {

/// The status of a request refused for coming too often.
pub const TOO_MANY_REQUESTS: u16 = 429;

/// The reason phrase that HTTP assigns to a status code.
pub uninterp spec fn reason_phrase(status: u16) -> Option<Seq<char>>;

/// `http::StatusCode::from_u16` and `canonical_reason`: the phrase for a status code, none
/// for a number that is no status code or has no phrase.
#[verifier::external_body]
fn canonical_reason(status: u16) -> (r: Option<String>)
    ensures
        opt_view(r) == reason_phrase(status),
{
    http::StatusCode::from_u16(status).ok().and_then(|s| s.canonical_reason()).map(str::to_owned)
}

/// A typed HTTP status carried inside a crawl error.
#[derive(Clone, Copy, Debug, PartialEq, Eq, Structural)]
pub struct HttpStatusError {
    /// The response status.
    pub status: u16,
    /// How long the server asked the client to wait.
    pub retry_after: Option<Duration>,
}

/// A status code with its reason phrase.
pub open spec fn status_text_spec(status: u16) -> Seq<char> {
    decimal(status as nat) + seq![' '] + match reason_phrase(status) {
        Some(phrase) => phrase,
        None => "<unknown status code>"@,
    }
}

/// A status code with its reason phrase.
pub fn status_text(status: u16) -> (r: String)
    ensures
        r@ == status_text_spec(status),
{
    let mut out: String = String::new();
    push_decimal(&mut out, status as u128);
    out.push(' ');
    match canonical_reason(status) {
        Some(phrase) => {
            out.append(phrase.as_str());
        },
        None => {
            out.append("<unknown status code>");
        },
    }
    assert(out@ =~= status_text_spec(status));
    out
}

impl HttpStatusError {
    /// The text of the error: the code and its reason phrase.
    pub open spec fn message_spec(self) -> Seq<char> {
        "HTTP status "@ + status_text_spec(self.status)
    }

    /// Creates a status carrier.
    pub fn new(status: u16) -> (r: HttpStatusError)
        ensures
            r.status == status,
            r.retry_after is None,
    {
        HttpStatusError { status, retry_after: None }
    }

    /// Records how long the server asked the client to wait.
    pub fn with_retry_after(self, retry_after: Duration) -> (r: HttpStatusError)
        ensures
            r.status == self.status,
            r.retry_after == Some(retry_after),
    {
        HttpStatusError { status: self.status, retry_after: Some(retry_after) }
    }

    /// The text of the error.
    pub fn message(&self) -> (r: String)
        ensures
            r@ == self.message_spec(),
    {
        joined("HTTP status ", status_text(self.status).as_str())
    }
}

/// An error produced while preparing or executing an HTTP request.
#[derive(Debug)]
pub enum HttpClientError {
    /// The HTTP client could not be built.
    Build(Cause),
    /// The request was invalid.
    InvalidRequest(Cause),
    /// The remote endpoint could not be connected to.
    Connect(Cause),
    /// The request timed out.
    Timeout(Cause),
    /// Redirect processing failed.
    Redirect(Cause),
    /// The response could not be decoded.
    Decode(Cause),
    /// An input/output operation failed.
    Io(Cause),
    /// Another HTTP client error occurred.
    Other(Cause),
}

impl HttpClientError {
    /// What the error wraps.
    pub open spec fn cause_spec(self) -> Cause {
        match self {
            HttpClientError::Build(c) => c,
            HttpClientError::InvalidRequest(c) => c,
            HttpClientError::Connect(c) => c,
            HttpClientError::Timeout(c) => c,
            HttpClientError::Redirect(c) => c,
            HttpClientError::Decode(c) => c,
            HttpClientError::Io(c) => c,
            HttpClientError::Other(c) => c,
        }
    }

    /// The error as a chain of causes: its own text, and what it wraps.
    pub fn into_cause(self) -> (r: Cause)
        ensures
            r@ == seq![
                LinkView {
                    message: self.prefix_spec() + self.cause_spec().message_spec(),
                    status: None,
                },
            ] + self.cause_spec()@,
    {
        let message: String = self.message();
        let cause: Cause = match self {
            HttpClientError::Build(c) => c,
            HttpClientError::InvalidRequest(c) => c,
            HttpClientError::Connect(c) => c,
            HttpClientError::Timeout(c) => c,
            HttpClientError::Redirect(c) => c,
            HttpClientError::Decode(c) => c,
            HttpClientError::Io(c) => c,
            HttpClientError::Other(c) => c,
        };
        cause.context(message.as_str())
    }

    /// The words in front of the cause's own text.
    pub open spec fn prefix_spec(self) -> Seq<char> {
        match self {
            HttpClientError::Build(_) => "failed to build HTTP client: "@,
            HttpClientError::InvalidRequest(_) => "invalid HTTP request: "@,
            HttpClientError::Connect(_) => "HTTP connection failed: "@,
            HttpClientError::Timeout(_) => "HTTP request timed out: "@,
            HttpClientError::Redirect(_) => "HTTP redirect failed: "@,
            HttpClientError::Decode(_) => "HTTP response decode failed: "@,
            HttpClientError::Io(_) => "HTTP I/O failed: "@,
            HttpClientError::Other(_) => "HTTP client error: "@,
        }
    }

    /// The text of the error.
    pub fn message(&self) -> (r: String)
        ensures
            r@ == self.prefix_spec() + self.cause_spec().message_spec(),
    {
        match self {
            HttpClientError::Build(c) => joined("failed to build HTTP client: ", c.message()),
            HttpClientError::InvalidRequest(c) => joined("invalid HTTP request: ", c.message()),
            HttpClientError::Connect(c) => joined("HTTP connection failed: ", c.message()),
            HttpClientError::Timeout(c) => joined("HTTP request timed out: ", c.message()),
            HttpClientError::Redirect(c) => joined("HTTP redirect failed: ", c.message()),
            HttpClientError::Decode(c) => joined("HTTP response decode failed: ", c.message()),
            HttpClientError::Io(c) => joined("HTTP I/O failed: ", c.message()),
            HttpClientError::Other(c) => joined("HTTP client error: ", c.message()),
        }
    }

    /// Returns whether this error represents a connection failure.
    pub fn is_connect(&self) -> (r: bool)
        ensures
            r == (self is Connect),
    {
        matches!(self, HttpClientError::Connect(_))
    }

    /// Returns whether this error represents a timeout.
    pub fn is_timeout(&self) -> (r: bool)
        ensures
            r == (self is Timeout),
    {
        matches!(self, HttpClientError::Timeout(_))
    }

    /// Creates a client-build error.
    pub fn build(error: Cause) -> (r: HttpClientError)
        ensures
            r == HttpClientError::Build(error),
    {
        HttpClientError::Build(error)
    }

    /// Creates an invalid-request error.
    pub fn invalid_request(error: Cause) -> (r: HttpClientError)
        ensures
            r == HttpClientError::InvalidRequest(error),
    {
        HttpClientError::InvalidRequest(error)
    }

    /// Creates a connection error.
    pub fn connect(error: Cause) -> (r: HttpClientError)
        ensures
            r == HttpClientError::Connect(error),
    {
        HttpClientError::Connect(error)
    }

    /// Creates a timeout error.
    pub fn timeout(error: Cause) -> (r: HttpClientError)
        ensures
            r == HttpClientError::Timeout(error),
    {
        HttpClientError::Timeout(error)
    }

    /// Creates a redirect error.
    pub fn redirect(error: Cause) -> (r: HttpClientError)
        ensures
            r == HttpClientError::Redirect(error),
    {
        HttpClientError::Redirect(error)
    }

    /// Creates a response-decode error.
    pub fn decode(error: Cause) -> (r: HttpClientError)
        ensures
            r == HttpClientError::Decode(error),
    {
        HttpClientError::Decode(error)
    }

    /// Creates an input/output error.
    pub fn io(error: Cause) -> (r: HttpClientError)
        ensures
            r == HttpClientError::Io(error),
    {
        HttpClientError::Io(error)
    }

    /// Creates an otherwise unclassified HTTP client error.
    pub fn other(error: Cause) -> (r: HttpClientError)
        ensures
            r == HttpClientError::Other(error),
    {
        HttpClientError::Other(error)
    }
}

/// A backend-independent HTTP request.
#[derive(Debug)]
pub struct HttpRequest {
    /// URL to request.
    pub url: Url,
    /// HTTP method.
    pub method: Method,
    /// HTTP request headers.
    pub headers: http::HeaderMap<http::HeaderValue>,
    /// Optional request body.
    pub body: Option<RequestBody>,
    /// Optional proxy URL.
    pub proxy: Option<Url>,
    /// Optional request timeout.
    pub timeout: Option<Duration>,
    /// Maximum number of redirects to follow.
    pub max_redirects: u32,
}

impl HttpRequest {
    /// Creates a GET request with no headers, body, proxy, or timeout.
    pub fn new(url: Url) -> (r: HttpRequest)
        ensures
            r.url == url,
            r.method == Method::Get,
            header_contents(r.headers).dom() == Set::<Seq<char>>::empty(),
            r.body is None,
            r.proxy is None,
            r.timeout is None,
            r.max_redirects == 10,
    {
        HttpRequest {
            url,
            method: Method::Get,
            headers: new_headers(),
            body: None,
            proxy: None,
            timeout: None,
            max_redirects: 10,
        }
    }

    /// Copies the HTTP-facing fields from a crawl request.
    pub fn from_request(request: &Request) -> (r: HttpRequest)
        ensures
            r.url@ == request.url@,
            r.method == request.method,
            header_contents(r.headers) == header_contents(request.headers),
            opt_body_view(r.body) == opt_body_view(request.body),
            r.proxy is None,
            r.timeout is None,
            r.max_redirects == 10,
    {
        let body: Option<RequestBody> = match &request.body {
            Some(body) => Some(clone_body(body)),
            None => None,
        };
        let mut out: HttpRequest = HttpRequest::new(request.url.clone()).method(
            request.method.clone(),
        ).headers(clone_headers(&request.headers));
        out.body = body;
        out
    }

    /// Sets the HTTP method.
    pub fn method(self, method: Method) -> (r: HttpRequest)
        ensures
            r == (HttpRequest { method, ..self }),
    {
        let mut out = self;
        out.method = method;
        out
    }

    /// Replaces the HTTP headers.
    pub fn headers(self, headers: http::HeaderMap<http::HeaderValue>) -> (r: HttpRequest)
        ensures
            r == (HttpRequest { headers, ..self }),
    {
        let mut out = self;
        out.headers = headers;
        out
    }

    /// Sets the request body.
    pub fn body(self, body: RequestBody) -> (r: HttpRequest)
        ensures
            r == (HttpRequest { body: Some(body), ..self }),
    {
        let mut out = self;
        out.body = Some(body);
        out
    }

    /// Sets the proxy URL.
    pub fn proxy(self, proxy: Url) -> (r: HttpRequest)
        ensures
            r == (HttpRequest { proxy: Some(proxy), ..self }),
    {
        let mut out = self;
        out.proxy = Some(proxy);
        out
    }

    /// Sets the request timeout.
    pub fn timeout(self, timeout: Duration) -> (r: HttpRequest)
        ensures
            r == (HttpRequest { timeout: Some(timeout), ..self }),
    {
        let mut out = self;
        out.timeout = Some(timeout);
        out
    }

    /// Sets the maximum number of redirects to follow.
    pub fn max_redirects(self, max_redirects: u32) -> (r: HttpRequest)
        ensures
            r == (HttpRequest { max_redirects, ..self }),
    {
        let mut out = self;
        out.max_redirects = max_redirects;
        out
    }
}

/// The text that bytes decode to, invalid sequences replaced.
pub uninterp spec fn lossy_text(bytes: Seq<u8>) -> Seq<char>;

/// `String::from_utf8_lossy`: the bytes as text, with a replacement character for what is no
/// UTF-8. Bytes that encode a text give back that text.
#[verifier::external_body]
pub(crate) fn decode_lossy(bytes: &[u8]) -> (r: String)
    ensures
        r@ == lossy_text(bytes@),
        forall|s: Seq<char>|
            bytes@ == #[trigger] vstd::utf8::encode_utf8(s) ==> r@ == s,
{
    String::from_utf8_lossy(bytes).into_owned()
}

/// A fully buffered HTTP response.
#[derive(Debug)]
pub struct HttpResponse {
    /// Final URL after redirects.
    pub url: Url,
    /// HTTP response status.
    pub status: u16,
    /// HTTP response headers.
    pub headers: http::HeaderMap<http::HeaderValue>,
    /// Fully buffered response body.
    pub body: Vec<u8>,
    /// Intermediate redirect URLs in order, excluding the final URL.
    pub redirect_chain: Vec<Url>,
}

impl HttpResponse {
    /// Creates a response with an empty redirect chain.
    pub fn new(
        url: Url,
        status: u16,
        headers: http::HeaderMap<http::HeaderValue>,
        body: Vec<u8>,
    ) -> (r: HttpResponse)
        ensures
            r.url == url,
            r.status == status,
            r.headers == headers,
            r.body == body,
            r.redirect_chain@.len() == 0,
    {
        HttpResponse { url, status, headers, body, redirect_chain: Vec::new() }
    }

    /// Sets the intermediate redirect URLs.
    pub fn with_redirect_chain(self, chain: Vec<Url>) -> (r: HttpResponse)
        ensures
            r == (HttpResponse { redirect_chain: chain, ..self }),
    {
        let mut out = self;
        out.redirect_chain = chain;
        out
    }

    /// Returns the body decoded as UTF-8, replacing invalid sequences lossily.
    pub fn text(&self) -> (r: String)
        ensures
            r@ == lossy_text(self.body@),
            forall|s: Seq<char>|
                self.body@ == #[trigger] vstd::utf8::encode_utf8(s) ==> r@ == s,
    {
        decode_lossy(self.body.as_slice())
    }
}

/// A client error keeps its cause and says before it what failed.
pub proof fn client_errors_say_what_failed(cause: Cause)
    ensures
        HttpClientError::Build(cause).prefix_spec() == "failed to build HTTP client: "@,
        HttpClientError::InvalidRequest(cause).prefix_spec() == "invalid HTTP request: "@,
        HttpClientError::Connect(cause).prefix_spec() == "HTTP connection failed: "@,
        HttpClientError::Timeout(cause).prefix_spec() == "HTTP request timed out: "@,
        HttpClientError::Redirect(cause).prefix_spec() == "HTTP redirect failed: "@,
        HttpClientError::Decode(cause).prefix_spec() == "HTTP response decode failed: "@,
        HttpClientError::Io(cause).prefix_spec() == "HTTP I/O failed: "@,
        HttpClientError::Other(cause).prefix_spec() == "HTTP client error: "@,
        forall|e: HttpClientError|
            e == HttpClientError::Build(cause) || e == HttpClientError::InvalidRequest(cause) || e
                == HttpClientError::Connect(cause) || e == HttpClientError::Timeout(cause) || e
                == HttpClientError::Redirect(cause) || e == HttpClientError::Decode(cause) || e
                == HttpClientError::Io(cause) || e == HttpClientError::Other(cause) ==> (
            #[trigger] e.cause_spec()) == cause,
{
}

/// The text of a status begins with its number, which can be read back, and two statuses have
/// different texts.
pub proof fn status_texts_tell_statuses_apart(status: u16, other: u16)
    ensures
        ({
            let digits = decimal(status as nat);
            &&& status_text_spec(status).subrange(0, digits.len() as int) == digits
            &&& status_text_spec(status)[digits.len() as int] == ' '
            &&& reason_phrase(status) is Some ==> status_text_spec(status).subrange(
                digits.len() as int + 1,
                status_text_spec(status).len() as int,
            ) == reason_phrase(status).unwrap()
            &&& reason_phrase(status) is None ==> status_text_spec(status).subrange(
                digits.len() as int + 1,
                status_text_spec(status).len() as int,
            ) == "<unknown status code>"@
            &&& status_text_spec(status) == status_text_spec(other) ==> status == other
            &&& (HttpStatusError { status, retry_after: None }).message_spec() == "HTTP status "@
                + status_text_spec(status)
        }),
{
    let digits = decimal(status as nat);
    let others = decimal(other as nat);
    let text = status_text_spec(status);
    decimal_digits_give_the_number_back(status as nat, 65535);
    decimal_digits_give_the_number_back(other as nat, 65535);
    assert(text.subrange(0, digits.len() as int) =~= digits);
    let phrase = match reason_phrase(status) {
        Some(phrase) => phrase,
        None => "<unknown status code>"@,
    };
    assert(text.subrange(digits.len() as int + 1, text.len() as int) =~= phrase);
    if text == status_text_spec(other) {
        assert(status_text_spec(other).subrange(0, others.len() as int) =~= others);
        assert(status_text_spec(other)[others.len() as int] == ' ');
        if digits.len() < others.len() {
            assert(others[digits.len() as int] == status_text_spec(other)[digits.len() as int]);
            assert(false);
        }
        if others.len() < digits.len() {
            assert(digits[others.len() as int] == text[others.len() as int]);
            assert(false);
        }
        assert(digits =~= others);
    }
}

} // verus!
