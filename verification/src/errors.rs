//! Crawl errors and their retry semantics.

use crate::http_client::HttpStatusError;
use crate::json::JsonError;
use crate::request::{Method, RequestBuildError};
use crate::text::{joined, owned};
use crate::time::Duration;
use vstd::prelude::*;

verus! {

/// One link of a chain of causes.
#[derive(Debug)]
pub struct CauseLink {
    /// The text of the link.
    pub message: String,
    /// The HTTP status that the link carries, if it carries one.
    pub status: Option<HttpStatusError>,
}

/// The mathematical value of a link.
pub struct LinkView {
    pub message: Seq<char>,
    pub status: Option<HttpStatusError>,
}

/// The reason for an error: a chain of at least one link, the outermost first.
#[derive(Debug)]
pub struct Cause {
    outer: CauseLink,
    inner: Vec<CauseLink>,
}

impl View for CauseLink {
    type V = LinkView;

    open spec fn view(&self) -> LinkView {
        LinkView { message: self.message@, status: self.status }
    }
}

/// The status that the first link with a status carries.
pub open spec fn first_status(links: Seq<LinkView>) -> Option<u16>
    decreases links.len(),
{
    if links.len() == 0 {
        None
    } else {
        match links[0].status {
            Some(s) => Some(s.status),
            None => first_status(links.drop_first()),
        }
    }
}

/// The wait that the first link with a wait carries.
pub open spec fn first_retry_after(links: Seq<LinkView>) -> Option<Duration>
    decreases links.len(),
{
    if links.len() == 0 {
        None
    } else {
        match links[0].status {
            Some(s) if s.retry_after is Some => s.retry_after,
            _ => first_retry_after(links.drop_first()),
        }
    }
}

impl View for Cause {
    type V = Seq<LinkView>;

    closed spec fn view(&self) -> Seq<LinkView> {
        seq![self.outer@] + Seq::new(self.inner@.len(), |i: int| self.inner@[i]@)
    }
}

impl Cause {
    /// The text of the outermost link.
    pub open spec fn message_spec(self) -> Seq<char> {
        self@[0].message
    }

    /// A cause that is only a text.
    pub fn msg(message: &str) -> (r: Cause)
        ensures
            r@ == seq![LinkView { message: message@, status: None }],
    {
        let r = Cause { outer: CauseLink { message: owned(message), status: None }, inner: Vec::new() };
        assert(r@ =~= seq![LinkView { message: message@, status: None }]);
        r
    }

    /// A cause that carries an HTTP status.
    pub fn from_status(error: HttpStatusError) -> (r: Cause)
        ensures
            r@ == seq![LinkView { message: error.message_spec(), status: Some(error) }],
    {
        let r = Cause {
            outer: CauseLink { message: error.message(), status: Some(error) },
            inner: Vec::new(),
        };
        assert(r@ =~= seq![LinkView { message: error.message_spec(), status: Some(error) }]);
        r
    }

    /// Wraps the cause in a new outermost link.
    pub fn with_link(self, message: &str, status: Option<HttpStatusError>) -> (r: Cause)
        ensures
            r@ == seq![LinkView { message: message@, status }] + self@,
    {
        let mut inner = self.inner;
        inner.insert(0, self.outer);
        let r = Cause { outer: CauseLink { message: owned(message), status }, inner };
        assert(r@ =~= seq![LinkView { message: message@, status }] + self@);
        r
    }

    /// A copy of the cause.
    pub fn copied(&self) -> (r: Cause)
        ensures
            r@ == self@,
    {
        let mut inner: Vec<CauseLink> = Vec::new();
        let mut i: usize = 0;
        while i < self.inner.len()
            invariant
                i <= self.inner.len(),
                inner@.len() == i,
                forall|k: int| 0 <= k < i ==> (#[trigger] inner@[k])@ == self.inner@[k]@,
            decreases self.inner.len() - i,
        {
            let link: &CauseLink = &self.inner[i];
            inner.push(CauseLink { message: link.message.clone(), status: link.status });
            i = i + 1;
        }
        let outer: CauseLink = CauseLink {
            message: self.outer.message.clone(),
            status: self.outer.status,
        };
        let r = Cause { outer, inner };
        assert(r@ =~= self@);
        r
    }

    /// Wraps the cause in a new outermost text.
    pub fn context(self, message: &str) -> (r: Cause)
        ensures
            r@ == seq![LinkView { message: message@, status: None }] + self@,
    {
        self.with_link(message, None)
    }

    /// The text of the outermost link.
    pub fn message(&self) -> (r: &str)
        ensures
            r@ == self.message_spec(),
    {
        self.outer.message.as_str()
    }

    /// The status that the first link with a status carries.
    pub fn http_status(&self) -> (r: Option<u16>)
        ensures
            r == first_status(self@),
    {
        reveal_with_fuel(first_status, 2);
        match self.outer.status {
            Some(s) => {
                return Some(s.status);
            },
            None => {},
        }
        let mut i: usize = 0;
        assert(self@.drop_first() =~= self@.skip(1));
        while i < self.inner.len()
            invariant
                i <= self.inner.len(),
                first_status(self@) == first_status(self@.skip(i + 1)),
                self@.len() == self.inner.len() + 1,
                forall|k: int| 0 <= k < self.inner.len() ==> self@[k + 1] == (#[trigger] self.inner@[k])@,
            decreases self.inner.len() - i,
        {
            assert(self@.skip(i + 1).drop_first() =~= self@.skip(i + 2));
            assert(self@.skip(i + 1)[0] == self.inner@[i as int]@);
            match self.inner[i].status {
                Some(s) => {
                    return Some(s.status);
                },
                None => {},
            }
            i = i + 1;
        }
        None
    }

    /// The wait that the first link with a wait carries.
    pub fn retry_after(&self) -> (r: Option<Duration>)
        ensures
            r == first_retry_after(self@),
    {
        reveal_with_fuel(first_retry_after, 2);
        match self.outer.status {
            Some(s) => {
                if s.retry_after.is_some() {
                    return s.retry_after;
                }
            },
            None => {},
        }
        let mut i: usize = 0;
        assert(self@.drop_first() =~= self@.skip(1));
        while i < self.inner.len()
            invariant
                i <= self.inner.len(),
                first_retry_after(self@) == first_retry_after(self@.skip(i + 1)),
                self@.len() == self.inner.len() + 1,
                forall|k: int| 0 <= k < self.inner.len() ==> self@[k + 1] == (#[trigger] self.inner@[k])@,
            decreases self.inner.len() - i,
        {
            assert(self@.skip(i + 1).drop_first() =~= self@.skip(i + 2));
            assert(self@.skip(i + 1)[0] == self.inner@[i as int]@);
            match self.inner[i].status {
                Some(s) => {
                    if s.retry_after.is_some() {
                        return s.retry_after;
                    }
                },
                None => {},
            }
            i = i + 1;
        }
        None
    }
}

/// A recognized anti-bot or web application firewall technology.
#[derive(Debug, PartialEq, Eq)]
pub enum AntiBotTech {
    /// Cloudflare protection.
    Cloudflare,
    /// DataDome protection.
    DataDome,
    /// PerimeterX protection.
    PerimeterX,
    /// Kasada protection.
    Kasada,
    /// Imperva protection.
    Imperva,
    /// Akamai protection.
    Akamai,
    /// A user-defined technology name.
    Custom(String),
    /// An unidentified anti-bot technology.
    Unknown,
}

/// The text of a string in quotes, as debugging output shows it.
pub uninterp spec fn debug_quoted(s: Seq<char>) -> Seq<char>;

/// The `Debug` form of `str`: the text in double quotes, with escapes where they are needed.
#[verifier::external_body]
pub(crate) fn quoted(s: &str) -> (r: String)
    ensures
        r@ == debug_quoted(s@),
{
    format!("{s:?}")
}

/// A text that stands in round brackets behind a name.
pub open spec fn bracketed(name: Seq<char>, body: Seq<char>) -> Seq<char> {
    name + seq!['('] + body + seq![')']
}

fn in_brackets(name: &str, body: &str) -> (r: String)
    ensures
        r@ == bracketed(name@, body@),
{
    let mut out: String = owned(name);
    out.push('(');
    out.append(body);
    out.push(')');
    assert(out@ =~= bracketed(name@, body@));
    out
}

impl AntiBotTech {
    /// The name of the technology in messages.
    pub open spec fn name_spec(self) -> Seq<char> {
        match self {
            AntiBotTech::Cloudflare => "Cloudflare"@,
            AntiBotTech::DataDome => "DataDome"@,
            AntiBotTech::PerimeterX => "PerimeterX"@,
            AntiBotTech::Kasada => "Kasada"@,
            AntiBotTech::Imperva => "Imperva"@,
            AntiBotTech::Akamai => "Akamai"@,
            AntiBotTech::Custom(name) => bracketed("Custom"@, debug_quoted(name@)),
            AntiBotTech::Unknown => "Unknown"@,
        }
    }

    /// The name of the technology in messages.
    pub fn name(&self) -> (r: String)
        ensures
            r@ == self.name_spec(),
    {
        match self {
            AntiBotTech::Cloudflare => owned("Cloudflare"),
            AntiBotTech::DataDome => owned("DataDome"),
            AntiBotTech::PerimeterX => owned("PerimeterX"),
            AntiBotTech::Kasada => owned("Kasada"),
            AntiBotTech::Imperva => owned("Imperva"),
            AntiBotTech::Akamai => owned("Akamai"),
            AntiBotTech::Custom(name) => in_brackets("Custom", quoted(name.as_str()).as_str()),
            AntiBotTech::Unknown => owned("Unknown"),
        }
    }
}

impl Clone for AntiBotTech {
    fn clone(&self) -> (r: Self)
        ensures
            r == *self,
    {
        match self {
            AntiBotTech::Cloudflare => AntiBotTech::Cloudflare,
            AntiBotTech::DataDome => AntiBotTech::DataDome,
            AntiBotTech::PerimeterX => AntiBotTech::PerimeterX,
            AntiBotTech::Kasada => AntiBotTech::Kasada,
            AntiBotTech::Imperva => AntiBotTech::Imperva,
            AntiBotTech::Akamai => AntiBotTech::Akamai,
            AntiBotTech::Custom(name) => AntiBotTech::Custom(name.clone()),
            AntiBotTech::Unknown => AntiBotTech::Unknown,
        }
    }
}

/// An error produced while processing a crawl request.
#[derive(Debug)]
pub enum CrawlError {
    /// A retryable error that counts against the request retry limit.
    Retry(Cause),
    /// A retryable error that rotates the current session.
    Session(Cause),
    /// A retryable error that ignores the request retry limit.
    ForceRetry(Cause),
    /// A permanent request error that invokes the failure handler.
    NonRetryable(Cause),
    /// A critical error that aborts the crawler.
    Critical(Cause),
    /// No registered route matched a request's label and method.
    MissingRoute {
        /// The request routing label.
        label: Option<String>,
        /// The request HTTP method.
        method: Method,
    },
    /// A known anti-bot or web application firewall response was detected.
    AntiBotDetected {
        /// The detected anti-bot technology.
        tech: AntiBotTech,
        /// The underlying detection error.
        source: Cause,
    },
}

impl CrawlError {
    /// The chain of causes below the error.
    pub open spec fn cause_spec(self) -> Option<Cause> {
        match self {
            CrawlError::Retry(c) => Some(c),
            CrawlError::Session(c) => Some(c),
            CrawlError::ForceRetry(c) => Some(c),
            CrawlError::NonRetryable(c) => Some(c),
            CrawlError::Critical(c) => Some(c),
            CrawlError::AntiBotDetected { tech: _, source } => Some(source),
            CrawlError::MissingRoute { label: _, method: _ } => None,
        }
    }

    pub open spec fn retryable_spec(self) -> bool {
        self is Retry || self is Session || self is ForceRetry || self is AntiBotDetected
    }

    pub open spec fn rotates_spec(self) -> bool {
        self is Session || self is AntiBotDetected
    }

    /// The text of the error.
    pub open spec fn message_spec(self) -> Seq<char> {
        match self {
            CrawlError::Retry(c) => "retryable: "@ + c.message_spec(),
            CrawlError::Session(c) => "session: "@ + c.message_spec(),
            CrawlError::ForceRetry(c) => "force-retry: "@ + c.message_spec(),
            CrawlError::NonRetryable(c) => "non-retryable: "@ + c.message_spec(),
            CrawlError::Critical(c) => "critical: "@ + c.message_spec(),
            CrawlError::MissingRoute { label, method } => "missing route for label "@ + bracketed(
                match label {
                    Some(l) => bracketed("Some"@, debug_quoted(l@)) + seq![' '],
                    None => "None "@,
                },
                method.text(),
            ),
            CrawlError::AntiBotDetected { tech, source: _ } => "anti-bot detected: "@
                + tech.name_spec(),
        }
    }

    fn cause(&self) -> (r: Option<&Cause>)
        ensures
            match r {
                Some(c) => self.cause_spec() == Some(*c),
                None => self.cause_spec() is None,
            },
    {
        match self {
            CrawlError::Retry(c) => Some(c),
            CrawlError::Session(c) => Some(c),
            CrawlError::ForceRetry(c) => Some(c),
            CrawlError::NonRetryable(c) => Some(c),
            CrawlError::Critical(c) => Some(c),
            CrawlError::AntiBotDetected { tech: _, source } => Some(source),
            CrawlError::MissingRoute { label: _, method: _ } => None,
        }
    }

    /// Returns an HTTP status carried anywhere in the underlying error chain.
    pub fn http_status(&self) -> (r: Option<u16>)
        ensures
            r == match self.cause_spec() {
                Some(c) => first_status(c@),
                None => None,
            },
    {
        match self.cause() {
            Some(c) => c.http_status(),
            None => None,
        }
    }

    /// Returns a Retry-After duration carried anywhere in the underlying error chain.
    pub fn retry_after(&self) -> (r: Option<Duration>)
        ensures
            r == match self.cause_spec() {
                Some(c) => first_retry_after(c@),
                None => None,
            },
    {
        match self.cause() {
            Some(c) => c.retry_after(),
            None => None,
        }
    }

    /// Creates a retryable error that counts against the retry limit.
    pub fn retry(error: Cause) -> (r: CrawlError)
        ensures
            r == CrawlError::Retry(error),
    {
        CrawlError::Retry(error)
    }

    /// Creates a retryable error that rotates the current session.
    pub fn session(error: Cause) -> (r: CrawlError)
        ensures
            r == CrawlError::Session(error),
    {
        CrawlError::Session(error)
    }

    /// Creates a retryable error that ignores the retry limit.
    pub fn force_retry(error: Cause) -> (r: CrawlError)
        ensures
            r == CrawlError::ForceRetry(error),
    {
        CrawlError::ForceRetry(error)
    }

    /// Creates a permanent, non-retryable request error.
    pub fn non_retryable(error: Cause) -> (r: CrawlError)
        ensures
            r == CrawlError::NonRetryable(error),
    {
        CrawlError::NonRetryable(error)
    }

    /// Creates a critical error that aborts the crawler.
    pub fn critical(error: Cause) -> (r: CrawlError)
        ensures
            r == CrawlError::Critical(error),
    {
        CrawlError::Critical(error)
    }

    /// Creates a permanent error that is never retried and runs the failure handler.
    ///
    /// This is an alias for [`Self::non_retryable`].
    pub fn fatal(error: Cause) -> (r: CrawlError)
        ensures
            r == CrawlError::NonRetryable(error),
    {
        CrawlError::non_retryable(error)
    }

    /// Returns whether the request should be attempted again.
    pub fn is_retryable(&self) -> (r: bool)
        ensures
            r == self.retryable_spec(),
    {
        matches!(self, CrawlError::Retry(_) | CrawlError::Session(_) | CrawlError::ForceRetry(_) | CrawlError::AntiBotDetected { .. })
    }

    /// Returns whether retrying should rotate the current session.
    pub fn rotates_session(&self) -> (r: bool)
        ensures
            r == self.rotates_spec(),
    {
        matches!(self, CrawlError::Session(_) | CrawlError::AntiBotDetected { .. })
    }

    /// Returns whether the error ignores the request retry limit.
    pub fn ignores_max_retries(&self) -> (r: bool)
        ensures
            r == (self is ForceRetry),
    {
        matches!(self, CrawlError::ForceRetry(_))
    }

    /// Returns whether the error should abort the entire crawler.
    pub fn is_critical(&self) -> (r: bool)
        ensures
            r == (self is Critical),
    {
        matches!(self, CrawlError::Critical(_))
    }

    /// Returns whether retrying counts against the request retry limit.
    pub fn counts_against_retries(&self) -> (r: bool)
        ensures
            r == (self is Retry),
    {
        matches!(self, CrawlError::Retry(_))
    }

    /// The text of the error.
    pub fn message(&self) -> (r: String)
        ensures
            r@ == self.message_spec(),
    {
        match self {
            CrawlError::Retry(c) => joined("retryable: ", c.message()),
            CrawlError::Session(c) => joined("session: ", c.message()),
            CrawlError::ForceRetry(c) => joined("force-retry: ", c.message()),
            CrawlError::NonRetryable(c) => joined("non-retryable: ", c.message()),
            CrawlError::Critical(c) => joined("critical: ", c.message()),
            CrawlError::MissingRoute { label, method } => {
                let mut name: String = match label {
                    Some(l) => in_brackets("Some", quoted(l.as_str()).as_str()),
                    None => owned("None"),
                };
                name.push(' ');
                proof {
                    reveal_strlit("None");
                    reveal_strlit("None ");
                    assert("None"@.push(' ') =~= "None "@);
                    assert(name@ =~= match label {
                        Some(l) => bracketed("Some"@, debug_quoted(l@)) + seq![' '],
                        None => "None "@,
                    });
                }
                let tail: String = in_brackets(name.as_str(), method.as_str());
                joined("missing route for label ", tail.as_str())
            },
            CrawlError::AntiBotDetected { tech, source: _ } => joined(
                "anti-bot detected: ",
                tech.name().as_str(),
            ),
        }
    }

    /// The error as a chain of causes: its own text, and what it wraps.
    pub fn into_cause(self) -> (r: Cause)
        ensures
            r@ == seq![LinkView { message: self.message_spec(), status: None }] + match self.cause_spec() {
                Some(cause) => cause@,
                None => seq![],
            },
    {
        let message: String = self.message();
        let cause: Option<Cause> = match self {
            CrawlError::Retry(c) => Some(c),
            CrawlError::Session(c) => Some(c),
            CrawlError::ForceRetry(c) => Some(c),
            CrawlError::NonRetryable(c) => Some(c),
            CrawlError::Critical(c) => Some(c),
            CrawlError::MissingRoute { label: _, method: _ } => None,
            CrawlError::AntiBotDetected { tech: _, source } => Some(source),
        };
        match cause {
            Some(c) => c.context(message.as_str()),
            None => {
                let r: Cause = Cause::msg(message.as_str());
                assert(r@ =~= r@ + seq![]);
                r
            },
        }
    }

    /// An input/output failure may be retried.
    pub fn from_io(message: &str) -> (r: CrawlError)
        ensures
            r is Retry,
            r->Retry_0@ == seq![LinkView { message: message@, status: None }],
    {
        CrawlError::retry(Cause::msg(message))
    }

    /// A JSON failure is permanent.
    pub fn from_json(error: JsonError) -> (r: CrawlError)
        ensures
            r is NonRetryable,
            r->NonRetryable_0@ == seq![LinkView { message: error.message@, status: None }],
    {
        CrawlError::non_retryable(Cause::msg(error.message.as_str()))
    }

    /// A request that could not be built is permanently wrong.
    pub fn from_build(error: RequestBuildError) -> (r: CrawlError)
        ensures
            r is NonRetryable,
            r->NonRetryable_0@ == error.links(),
    {
        CrawlError::non_retryable(error.into_cause())
    }
}

/// Every error falls into exactly one class: retried against the limit, retried with a new
/// session, retried without limit, aborting, or permanent.
pub proof fn classes_are_exclusive(e: CrawlError)
    ensures
        e.rotates_spec() ==> e.retryable_spec(),
        e is ForceRetry ==> e.retryable_spec() && !e.rotates_spec() && !(e is Retry),
        e is Retry ==> e.retryable_spec() && !e.rotates_spec(),
        e is Critical ==> !e.retryable_spec(),
        e.retryable_spec() ==> e is Retry || e is ForceRetry || e.rotates_spec(),
{
}

/// A context put around a cause hides neither its status nor its wait.
pub proof fn context_keeps_status_and_wait(links: Seq<LinkView>, message: Seq<char>)
    ensures
        first_status(seq![LinkView { message, status: None }] + links) == first_status(links),
        first_retry_after(seq![LinkView { message, status: None }] + links) == first_retry_after(
            links,
        ),
{
    assert((seq![LinkView { message, status: None }] + links).drop_first() =~= links);
}

/// The outermost link with a status gives the status of a chain, and its wait where it has one; a
/// chain without such a link has neither.
pub proof fn first_links_with_a_status_count(links: Seq<LinkView>, at: int)
    requires
        0 <= at <= links.len(),
        forall|k: int| 0 <= k < at ==> (#[trigger] links[k]).status is None,
        at < links.len() ==> links[at].status is Some,
    ensures
        at < links.len() ==> first_status(links) == Some(links[at].status.unwrap().status),
        at < links.len() && links[at].status.unwrap().retry_after is Some ==> first_retry_after(links)
            == links[at].status.unwrap().retry_after,
        at == links.len() ==> first_status(links) is None && first_retry_after(links) is None,
    decreases links.len(),
{
    if at > 0 {
        let rest = links.drop_first();
        assert(links[0].status is None);
        assert forall|k: int| 0 <= k < at - 1 implies (#[trigger] rest[k]).status is None by {
            assert(links[k + 1].status is None);
        }
        first_links_with_a_status_count(rest, at - 1);
    }
}

/// A link with a status but without a wait does not hide the wait of a link below it.
pub proof fn a_status_hides_no_wait(link: LinkView, links: Seq<LinkView>)
    requires
        link.status is Some ==> link.status.unwrap().retry_after is None,
    ensures
        first_retry_after(seq![link] + links) == first_retry_after(links),
{
    assert((seq![link] + links).drop_first() =~= links);
}

/// What each error means for its request: which ones are worth another try, and which of these cost
/// the session.
pub proof fn kinds_of_errors(e: CrawlError)
    ensures
        match e {
            CrawlError::Retry(_) => e.retryable_spec() && !e.rotates_spec(),
            CrawlError::ForceRetry(_) => e.retryable_spec() && !e.rotates_spec(),
            CrawlError::Session(_) => e.retryable_spec() && e.rotates_spec(),
            CrawlError::AntiBotDetected { .. } => e.retryable_spec() && e.rotates_spec(),
            CrawlError::NonRetryable(_) => !e.retryable_spec() && !e.rotates_spec(),
            CrawlError::Critical(_) => !e.retryable_spec() && !e.rotates_spec(),
            CrawlError::MissingRoute { .. } => !e.retryable_spec() && !e.rotates_spec(),
        },
        e.cause_spec() is None <==> e is MissingRoute,
{
}

/// The text of an error that wraps a cause ends with the cause's text and begins with a word for its
/// class, so errors of different classes around one cause have different texts.
pub proof fn texts_tell_classes_apart(cause: Cause)
    ensures
        CrawlError::Retry(cause).message_spec() == "retryable: "@ + cause@[0].message,
        CrawlError::Session(cause).message_spec() == "session: "@ + cause@[0].message,
        CrawlError::ForceRetry(cause).message_spec() == "force-retry: "@ + cause@[0].message,
        CrawlError::NonRetryable(cause).message_spec() == "non-retryable: "@ + cause@[0].message,
        CrawlError::Critical(cause).message_spec() == "critical: "@ + cause@[0].message,
{
}

/// The text of an anti-bot error names the technology, one of the project's own in quotation marks;
/// that of a missing route names the label, if there was one, and the method.
pub proof fn texts_name_what_was_met(source: Cause, name: String, label: String, method: Method)
    ensures
        (CrawlError::AntiBotDetected { tech: AntiBotTech::Cloudflare, source }).message_spec()
            == "anti-bot detected: "@ + "Cloudflare"@,
        (CrawlError::AntiBotDetected { tech: AntiBotTech::DataDome, source }).message_spec()
            == "anti-bot detected: "@ + "DataDome"@,
        (CrawlError::AntiBotDetected { tech: AntiBotTech::PerimeterX, source }).message_spec()
            == "anti-bot detected: "@ + "PerimeterX"@,
        (CrawlError::AntiBotDetected { tech: AntiBotTech::Kasada, source }).message_spec()
            == "anti-bot detected: "@ + "Kasada"@,
        (CrawlError::AntiBotDetected { tech: AntiBotTech::Imperva, source }).message_spec()
            == "anti-bot detected: "@ + "Imperva"@,
        (CrawlError::AntiBotDetected { tech: AntiBotTech::Akamai, source }).message_spec()
            == "anti-bot detected: "@ + "Akamai"@,
        (CrawlError::AntiBotDetected { tech: AntiBotTech::Unknown, source }).message_spec()
            == "anti-bot detected: "@ + "Unknown"@,
        (CrawlError::AntiBotDetected { tech: AntiBotTech::Custom(name), source }).message_spec()
            == "anti-bot detected: "@ + "Custom("@ + debug_quoted(name@) + ")"@,
        (CrawlError::MissingRoute { label: None, method }).message_spec()
            == "missing route for label None ("@ + method.text() + ")"@,
        (CrawlError::MissingRoute { label: Some(label), method }).message_spec()
            == "missing route for label Some("@ + debug_quoted(label@) + ") ("@ + method.text()
            + ")"@,
{
    reveal_strlit("Custom(");
    reveal_strlit("Custom");
    reveal_strlit(")");
    reveal_strlit("None ");
    reveal_strlit("Some");
    reveal_strlit(") (");
    reveal_strlit("missing route for label ");
    reveal_strlit("missing route for label None (");
    reveal_strlit("missing route for label Some(");
    assert(CrawlError::AntiBotDetected { tech: AntiBotTech::Custom(name), source }.message_spec()
        =~= "anti-bot detected: "@ + "Custom("@ + debug_quoted(name@) + ")"@);
    assert(CrawlError::MissingRoute { label: None, method }.message_spec()
        =~= "missing route for label None ("@ + method.text() + ")"@);
    assert(CrawlError::MissingRoute { label: Some(label), method }.message_spec()
        =~= "missing route for label Some("@ + debug_quoted(label@) + ") ("@ + method.text() + ")"@);
}

} // verus!
