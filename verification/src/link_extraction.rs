//! Link extraction types, URL matching, and crawl policy.

use crate::enqueue::SkipReason;
use crate::errors::{debug_quoted, quoted, Cause, LinkView};
use crate::request::{Method, UserData};
use crate::text::{ascii_lower, chars_of, joined, lowercased, owned, same, same_chars, views};
use crate::url::{domain_of, opt_str, opt_str_view, opt_view, registrable_domain, Url, UrlParts};
use std::sync::Arc;
use vstd::prelude::*;

verus! {

/// Controls how closely a discovered URL must relate to its parent URL.
///
/// The strategy applies to extracted and raw candidates. Explicit URLs are chosen by the caller
/// and bypass it.
#[derive(Clone, Copy, Debug, PartialEq, Eq, Structural)]
pub enum EnqueueStrategy {
    /// Allows every HTTP or HTTPS URL.
    All,
    /// Allows URLs whose hostname exactly matches the parent hostname.
    SameHostname,
    /// Allows URLs with the same registrable domain as the parent.
    SameDomain,
    /// Allows URLs with the same scheme, hostname, and effective port as the parent.
    SameOrigin,
}

impl Default for EnqueueStrategy {
    fn default() -> (r: Self)
        ensures
            r == EnqueueStrategy::SameHostname,
    {
        EnqueueStrategy::SameHostname
    }
}

/// Whether two hosts are there and equal but for the case of ASCII letters.
pub open spec fn same_host(left: Option<Seq<char>>, right: Option<Seq<char>>) -> bool {
    left is Some && right is Some && ascii_lower(left.unwrap()) == ascii_lower(right.unwrap())
}

/// Whether two URLs have one registrable domain. Names without one are compared whole, and so are
/// addresses.
pub open spec fn same_site(parent: UrlParts, candidate: UrlParts) -> bool {
    match (parent.domain, candidate.domain) {
        (Some(a), Some(b)) => match (registrable_domain(a), registrable_domain(b)) {
            (Some(x), Some(y)) => ascii_lower(x) == ascii_lower(y),
            _ => ascii_lower(a) == ascii_lower(b),
        },
        (None, None) => parent.host is Some && parent.host == candidate.host,
        _ => false,
    }
}

/// Whether a URL is fetched over HTTP.
pub open spec fn is_web_url(url: UrlParts) -> bool {
    url.scheme == "http"@ || url.scheme == "https"@
}

/// Whether `strategy` allows `candidate` as a child of `parent`.
pub open spec fn strategy_permits(
    strategy: EnqueueStrategy,
    parent: UrlParts,
    candidate: UrlParts,
) -> bool {
    is_web_url(candidate) && match strategy {
        EnqueueStrategy::All => true,
        EnqueueStrategy::SameHostname => same_host(parent.host, candidate.host),
        EnqueueStrategy::SameDomain => same_site(parent, candidate),
        EnqueueStrategy::SameOrigin => parent.scheme == candidate.scheme && same_host(
            parent.host,
            candidate.host,
        ) && parent.port == candidate.port,
    }
}

fn same_ignoring_case(a: &str, b: &str) -> (r: bool)
    ensures
        r == (ascii_lower(a@) == ascii_lower(b@)),
{
    same_chars(&lowercased(&chars_of(a)), &lowercased(&chars_of(b)))
}

fn hosts_equal(left: Option<&str>, right: Option<&str>) -> (r: bool)
    ensures
        r == same_host(opt_str_view(left), opt_str_view(right)),
{
    match (left, right) {
        (Some(a), Some(b)) => same_ignoring_case(a, b),
        _ => false,
    }
}

fn same_domain(parent: &Url, candidate: &Url) -> (r: bool)
    ensures
        r == same_site(parent@, candidate@),
{
    match (parent.domain(), candidate.domain()) {
        (Some(a), Some(b)) => match (domain_of(a), domain_of(b)) {
            (Some(x), Some(y)) => same_ignoring_case(x.as_str(), y.as_str()),
            _ => same_ignoring_case(a, b),
        },
        (None, None) => match (parent.host_str(), candidate.host_str()) {
            (Some(a), Some(b)) => same(a, b),
            _ => false,
        },
        _ => false,
    }
}

/// Returns whether `candidate` is allowed by `strategy` relative to `parent`.
///
/// Candidate URLs using schemes other than HTTP and HTTPS are always rejected.
pub fn strategy_allows(strategy: EnqueueStrategy, parent: &Url, candidate: &Url) -> (r: bool)
    ensures
        r == strategy_permits(strategy, parent@, candidate@),
{
    if !same(candidate.scheme(), "http") && !same(candidate.scheme(), "https") {
        return false;
    }
    match strategy {
        EnqueueStrategy::All => true,
        EnqueueStrategy::SameHostname => hosts_equal(parent.host_str(), candidate.host_str()),
        EnqueueStrategy::SameDomain => same_domain(parent, candidate),
        EnqueueStrategy::SameOrigin => same(parent.scheme(), candidate.scheme()) && hosts_equal(
            parent.host_str(),
            candidate.host_str(),
        ) && match (parent.port_or_known_default(), candidate.port_or_known_default()) {
            (Some(a), Some(b)) => a == b,
            (None, None) => true,
            _ => false,
        },
    }
}

/// The strategies are nested: what keeps the origin keeps the host name, and whatever any strategy
/// lets through is an HTTP URL, which is all that `All` asks.
pub proof fn strategies_are_nested(parent: UrlParts, candidate: UrlParts)
    ensures
        strategy_permits(EnqueueStrategy::SameOrigin, parent, candidate) ==> strategy_permits(
            EnqueueStrategy::SameHostname,
            parent,
            candidate,
        ),
        forall|s: EnqueueStrategy| #[trigger]
            strategy_permits(s, parent, candidate) ==> strategy_permits(
                EnqueueStrategy::All,
                parent,
                candidate,
            ),
        strategy_permits(EnqueueStrategy::All, parent, candidate) <==> is_web_url(candidate),
{
}

/// A page of the same host belongs to the same site: under a parent whose host is in its canonical
/// form, what keeps the host name keeps the registrable domain. The hosts of all special schemes
/// are in that form.
pub proof fn same_host_is_same_site(parent: UrlParts, candidate: UrlParts)
    requires
        parent.has_canonical_host(),
        candidate.host_is_canonical(),
    ensures
        strategy_permits(EnqueueStrategy::SameHostname, parent, candidate) ==> strategy_permits(
            EnqueueStrategy::SameDomain,
            parent,
            candidate,
        ),
{
}

/// The strategies form a chain: under a parent whose host is in its canonical form, what keeps the
/// origin keeps the host name, that keeps the registrable domain, and that is an HTTP URL.
pub proof fn strategies_form_a_chain(parent: UrlParts, candidate: UrlParts)
    requires
        parent.has_canonical_host(),
        candidate.host_is_canonical(),
    ensures
        strategy_permits(EnqueueStrategy::SameOrigin, parent, candidate) ==> strategy_permits(
            EnqueueStrategy::SameHostname,
            parent,
            candidate,
        ),
        strategy_permits(EnqueueStrategy::SameHostname, parent, candidate) ==> strategy_permits(
            EnqueueStrategy::SameDomain,
            parent,
            candidate,
        ),
        strategy_permits(EnqueueStrategy::SameDomain, parent, candidate) ==> strategy_permits(
            EnqueueStrategy::All,
            parent,
            candidate,
        ),
        strategy_permits(EnqueueStrategy::All, parent, candidate) <==> is_web_url(candidate),
{
    same_host_is_same_site(parent, candidate);
}

/// The outside type `globset::GlobSet`.
#[verifier::external_type_specification]
#[verifier::external_body]
pub struct ExGlobSet(globset::GlobSet);

/// The outside type `globset::GlobSetBuilder`.
#[verifier::external_type_specification]
#[verifier::external_body]
pub struct ExGlobSetBuilder(globset::GlobSetBuilder);

/// The outside type `regex::RegexSet`.
#[verifier::external_type_specification]
#[verifier::external_body]
pub struct ExRegexSet(regex::RegexSet);

/// The patterns of a compiled set of globs.
pub uninterp spec fn set_globs(set: globset::GlobSet) -> Seq<Seq<char>>;

/// The patterns that a builder of a set of globs has taken.
pub uninterp spec fn builder_globs(builder: globset::GlobSetBuilder) -> Seq<Seq<char>>;

/// Why `pattern` is not a glob, if it is not.
///
/// A backslash escapes where the target's paths are not separated by it, so these results hold for
/// one target.
pub uninterp spec fn glob_fault(pattern: Seq<char>) -> Option<Seq<char>>;

/// Why valid globs cannot be compiled together, if they cannot.
pub uninterp spec fn glob_set_fault(patterns: Seq<Seq<char>>) -> Option<Seq<char>>;

/// Whether a glob, whose wildcards match separators too, matches a whole text.
pub uninterp spec fn glob_matches(pattern: Seq<char>, text: Seq<char>) -> bool;

/// The patterns of a compiled set of regular expressions.
pub uninterp spec fn set_regexes(set: regex::RegexSet) -> Seq<Seq<char>>;

/// Why `source` is not a regular expression, if it is not.
pub uninterp spec fn regex_fault(source: Seq<char>) -> Option<Seq<char>>;

/// Whether a regular expression matches somewhere in a text.
pub uninterp spec fn regex_matches(source: Seq<char>, text: Seq<char>) -> bool;

/// `globset::GlobSetBuilder::new`: no patterns.
#[verifier::external_body]
fn new_glob_builder() -> (r: globset::GlobSetBuilder)
    ensures
        builder_globs(r).len() == 0,
{
    globset::GlobSetBuilder::new()
}

/// `globset::GlobBuilder::build` without literal separators, and `GlobSetBuilder::add`: the
/// pattern joins the others if it is a glob.
#[verifier::external_body]
fn add_glob(builder: &mut globset::GlobSetBuilder, pattern: &str) -> (r: Option<String>)
    ensures
        opt_view(r) == glob_fault(pattern@),
        builder_globs(*final(builder)) == if glob_fault(pattern@) is None {
            builder_globs(*old(builder)).push(pattern@)
        } else {
            builder_globs(*old(builder))
        },
{
    match globset::GlobBuilder::new(pattern).literal_separator(false).build() {
        Ok(glob) => {
            builder.add(glob);
            None
        },
        Err(e) => Some(e.to_string()),
    }
}

/// `globset::GlobSetBuilder::build`: compiles the patterns that were added.
#[verifier::external_body]
fn build_glob_set(builder: &globset::GlobSetBuilder) -> (r: Result<globset::GlobSet, String>)
    ensures
        r is Ok <==> glob_set_fault(builder_globs(*builder)) is None,
        r is Ok ==> set_globs(r->Ok_0) == builder_globs(*builder),
        r is Err ==> glob_set_fault(builder_globs(*builder)) == Some(r->Err_0@),
{
    builder.build().map_err(|e| e.to_string())
}

/// `globset::GlobSet::is_match`: whether any pattern of the set matches.
#[verifier::external_body]
fn glob_set_is_match(set: &globset::GlobSet, text: &str) -> (r: bool)
    ensures
        r == (exists|i: int|
            0 <= i < set_globs(*set).len() && glob_matches(#[trigger] set_globs(*set)[i], text@)),
{
    set.is_match(text)
}

/// `regex::RegexSet::new` of one expression.
#[verifier::external_body]
fn compile_regex(source: &str) -> (r: Result<regex::RegexSet, String>)
    ensures
        r is Ok <==> regex_fault(source@) is None,
        r is Ok ==> set_regexes(r->Ok_0) == seq![source@],
        r is Err ==> regex_fault(source@) == Some(r->Err_0@),
{
    regex::RegexSet::new([source]).map_err(|e| e.to_string())
}

/// `regex::RegexSet::is_match`: whether any expression of the set matches.
#[verifier::external_body]
fn regex_set_is_match(set: &regex::RegexSet, text: &str) -> (r: bool)
    ensures
        r == (exists|i: int|
            0 <= i < set_regexes(*set).len() && regex_matches(
                #[trigger] set_regexes(*set)[i],
                text@,
            )),
{
    set.is_match(text)
}

/// Whether one of the globs matches.
pub open spec fn any_glob_matches(patterns: Seq<Seq<char>>, text: Seq<char>) -> bool {
    exists|i: int| 0 <= i < patterns.len() && glob_matches(#[trigger] patterns[i], text)
}

/// A compiled regular expression.
#[derive(Debug)]
pub struct UrlRegex {
    compiled: regex::RegexSet,
    source: String,
}

impl View for UrlRegex {
    type V = Seq<char>;

    closed spec fn view(&self) -> Seq<char> {
        self.source@
    }
}

/// Why a text is not a regular expression.
#[derive(Debug)]
pub struct RegexError {
    pub message: String,
}

impl UrlRegex {
    /// The compiled form belongs to the source.
    #[verifier::type_invariant]
    closed spec fn wf(self) -> bool {
        set_regexes(self.compiled) == seq![self.source@]
    }

    /// Compiles a regular expression.
    pub fn new(source: &str) -> (r: Result<UrlRegex, RegexError>)
        ensures
            match r {
                Ok(regex) => regex_fault(source@) is None && regex@ == source@,
                Err(e) => regex_fault(source@) == Some(e.message@),
            },
    {
        match compile_regex(source) {
            Ok(compiled) => Ok(UrlRegex { compiled, source: owned(source) }),
            Err(message) => Err(RegexError { message }),
        }
    }

    /// Whether the expression matches somewhere in a text.
    pub fn is_match(&self, text: &str) -> (r: bool)
        ensures
            r == regex_matches(self@, text@),
    {
        proof {
            use_type_invariant(self);
            assert(set_regexes(self.compiled)[0] == self@);
        }
        regex_set_is_match(&self.compiled, text)
    }

    pub fn as_str(&self) -> (r: &str)
        ensures
            r@ == self@,
    {
        self.source.as_str()
    }
}

/// A URL include or exclude pattern.
#[derive(Debug)]
pub enum UrlPattern {
    /// A glob matched against the complete URL string.
    Glob(String),
    /// A regular expression matched against the complete URL string.
    Regex(UrlRegex),
}

/// The mathematical value of a pattern.
pub enum PatternView {
    Glob(Seq<char>),
    Regex(Seq<char>),
}

impl View for UrlPattern {
    type V = PatternView;

    open spec fn view(&self) -> PatternView {
        match *self {
            UrlPattern::Glob(pattern) => PatternView::Glob(pattern@),
            UrlPattern::Regex(regex) => PatternView::Regex(regex@),
        }
    }
}

impl PatternView {
    /// Whether the pattern matches a URL's text.
    pub open spec fn matches(self, text: Seq<char>) -> bool {
        match self {
            PatternView::Glob(pattern) => glob_matches(pattern, text),
            PatternView::Regex(source) => regex_matches(source, text),
        }
    }

    /// Why the pattern cannot be compiled, if it cannot.
    pub open spec fn fault(self) -> Option<(Seq<char>, Seq<char>)> {
        match self {
            PatternView::Glob(pattern) => globs_fault(seq![pattern]),
            PatternView::Regex(_) => None,
        }
    }
}

impl UrlPattern {
    /// A glob.
    pub fn glob(pattern: &str) -> (r: UrlPattern)
        ensures
            r@ == PatternView::Glob(pattern@),
    {
        UrlPattern::Glob(owned(pattern))
    }
}

/// The first pattern that is no glob, with the reason.
pub open spec fn first_glob_fault(patterns: Seq<Seq<char>>) -> Option<(Seq<char>, Seq<char>)>
    decreases patterns.len(),
{
    if patterns.len() == 0 {
        None
    } else {
        match glob_fault(patterns[0]) {
            Some(message) => Some((patterns[0], message)),
            None => first_glob_fault(patterns.drop_first()),
        }
    }
}

/// Why globs cannot be compiled together, with the pattern that is blamed: the first that is no
/// glob, or the last where only their union fails.
pub open spec fn globs_fault(patterns: Seq<Seq<char>>) -> Option<(Seq<char>, Seq<char>)> {
    match first_glob_fault(patterns) {
        Some(fault) => Some(fault),
        None => match glob_set_fault(patterns) {
            Some(message) => Some(
                (
                    if patterns.len() > 0 {
                        patterns.last()
                    } else {
                        seq![]
                    },
                    message,
                ),
            ),
            None => None,
        },
    }
}

/// A compiled set of globs.
#[derive(Debug)]
pub struct Globs {
    compiled: globset::GlobSet,
}

impl View for Globs {
    type V = Seq<Seq<char>>;

    closed spec fn view(&self) -> Seq<Seq<char>> {
        set_globs(self.compiled)
    }
}

impl Globs {
    /// Whether one of the globs matches.
    pub fn is_match(&self, text: &str) -> (r: bool)
        ensures
            r == any_glob_matches(self@, text@),
    {
        glob_set_is_match(&self.compiled, text)
    }
}

/// An error produced while compiling link patterns.
#[derive(Debug)]
pub enum LinkPatternError {
    /// A glob cannot be parsed or compiled.
    InvalidGlob {
        /// The invalid source pattern.
        pattern: String,
        /// The text of the parser's or compiler's error.
        source: String,
    },
}

impl LinkPatternError {
    pub open spec fn fault(self) -> (Seq<char>, Seq<char>) {
        match self {
            LinkPatternError::InvalidGlob { pattern, source } => (pattern@, source@),
        }
    }

    /// The text of the error.
    pub fn message(&self) -> (r: String)
        ensures
            r@ == glob_error_text(self.fault()),
    {
        match self {
            LinkPatternError::InvalidGlob { pattern, source } => {
                let mut out: String = joined(
                    "invalid glob pattern ",
                    quoted(pattern.as_str()).as_str(),
                );
                out.append(": ");
                out.append(source.as_str());
                out
            },
        }
    }

    /// The error as a chain of causes.
    pub fn into_cause(self) -> (r: Cause)
        ensures
            r@ == glob_error_links(self.fault()),
    {
        let message: String = self.message();
        match &self {
            LinkPatternError::InvalidGlob { pattern: _, source } => {
                let r: Cause = Cause::msg(source.as_str()).context(message.as_str());
                assert(r@ =~= glob_error_links(self.fault()));
                r
            },
        }
    }
}

/// The text of the error for a pattern and a reason.
pub open spec fn glob_error_text(fault: (Seq<char>, Seq<char>)) -> Seq<char> {
    "invalid glob pattern "@ + debug_quoted(fault.0) + ": "@ + fault.1
}

/// The chain of causes for a pattern and a reason.
pub open spec fn glob_error_links(fault: (Seq<char>, Seq<char>)) -> Seq<LinkView> {
    seq![
        LinkView { message: glob_error_text(fault), status: None },
        LinkView { message: fault.1, status: None },
    ]
}

/// Compiles URL globs with separators treated as ordinary characters.
pub fn compile_globs(patterns: &Vec<String>) -> (r: Result<Globs, LinkPatternError>)
    ensures
        match r {
            Ok(globs) => globs_fault(views(patterns@)) is None && globs@ == views(patterns@),
            Err(e) => globs_fault(views(patterns@)) == Some(e.fault()),
        },
{
    let ghost all = views(patterns@);
    let mut builder = new_glob_builder();
    let mut i: usize = 0;
    assert(all.skip(0) =~= all);
    assert(all.subrange(0, 0) =~= builder_globs(builder));
    while i < patterns.len()
        invariant
            i <= patterns.len(),
            all == views(patterns@),
            first_glob_fault(all) == first_glob_fault(all.skip(i as int)),
            builder_globs(builder) == all.subrange(0, i as int),
        decreases patterns.len() - i,
    {
        assert(all.skip(i as int).drop_first() =~= all.skip(i + 1));
        assert(all.subrange(0, i + 1) =~= all.subrange(0, i as int).push(patterns@[i as int]@));
        if let Some(source) = add_glob(&mut builder, patterns[i].as_str()) {
            return Err(
                LinkPatternError::InvalidGlob { pattern: patterns[i].clone(), source },
            );
        }
        i = i + 1;
    }
    assert(all.subrange(0, all.len() as int) =~= all);
    match build_glob_set(&builder) {
        Ok(compiled) => Ok(Globs { compiled }),
        Err(source) => {
            let pattern: String = if patterns.len() > 0 {
                patterns[patterns.len() - 1].clone()
            } else {
                String::new()
            };
            assert(patterns.len() == 0 ==> pattern@ =~= seq![]);
            Err(LinkPatternError::InvalidGlob { pattern, source })
        },
    }
}

/// A URL pattern with request fields to apply when it matches.
#[derive(Debug)]
pub struct UrlMatch {
    /// The URL pattern to match.
    pub pattern: UrlPattern,
    /// An optional route label applied to matching requests.
    pub label: Option<String>,
    /// Optional user data applied to matching requests.
    pub user_data: Option<UserData>,
    /// An optional HTTP method applied to matching requests.
    pub method: Option<Method>,
    /// Optional HTTP headers applied to matching requests.
    pub headers: Option<http::HeaderMap<http::HeaderValue>>,
}

impl UrlMatch {
    /// Creates a pattern with no request-field overrides.
    pub fn new(pattern: UrlPattern) -> (r: UrlMatch)
        ensures
            r == (UrlMatch { pattern, label: None, user_data: None, method: None, headers: None }),
    {
        UrlMatch { pattern, label: None, user_data: None, method: None, headers: None }
    }

    /// Sets the route label for matching requests.
    pub fn label(self, label: &str) -> (r: UrlMatch)
        ensures
            opt_view(r.label) == Some(label@),
            r == (UrlMatch { label: r.label, ..self }),
    {
        let mut out = self;
        out.label = Some(owned(label));
        out
    }

    /// Sets the user data for matching requests.
    pub fn user_data(self, user_data: UserData) -> (r: UrlMatch)
        ensures
            r == (UrlMatch { user_data: Some(user_data), ..self }),
    {
        let mut out = self;
        out.user_data = Some(user_data);
        out
    }

    /// Sets the HTTP method for matching requests.
    pub fn method(self, method: Method) -> (r: UrlMatch)
        ensures
            r == (UrlMatch { method: Some(method), ..self }),
    {
        let mut out = self;
        out.method = Some(method);
        out
    }

    /// Sets the HTTP headers for matching requests.
    pub fn headers(self, headers: http::HeaderMap<http::HeaderValue>) -> (r: UrlMatch)
        ensures
            r == (UrlMatch { headers: Some(headers), ..self }),
    {
        let mut out = self;
        out.headers = Some(headers);
        out
    }
}

/// An include glob or regular expression with optional per-pattern overrides.
#[derive(Debug)]
pub struct GlobPattern {
    pub matched: UrlMatch,
}

impl GlobPattern {
    /// A pattern with the overrides of `matched`.
    pub fn from_match(matched: UrlMatch) -> (r: GlobPattern)
        ensures
            r.matched == matched,
    {
        GlobPattern { matched }
    }

    /// A glob without overrides.
    pub fn glob(pattern: &str) -> (r: GlobPattern)
        ensures
            r.matched.pattern@ == PatternView::Glob(pattern@),
            r.matched == (UrlMatch {
                pattern: r.matched.pattern,
                label: None,
                user_data: None,
                method: None,
                headers: None,
            }),
    {
        GlobPattern { matched: UrlMatch::new(UrlPattern::glob(pattern)) }
    }

    /// Returns the wrapped URL pattern.
    pub fn pattern(&self) -> (r: &UrlPattern)
        ensures
            *r == self.matched.pattern,
    {
        &self.matched.pattern
    }

    /// Returns the optional routing-label override.
    pub fn label(&self) -> (r: Option<&str>)
        ensures
            opt_str_view(r) == opt_view(self.matched.label),
    {
        opt_str(&self.matched.label)
    }

    /// Returns the optional user-data override.
    pub fn user_data(&self) -> (r: Option<&UserData>)
        ensures
            match r {
                Some(d) => self.matched.user_data == Some(*d),
                None => self.matched.user_data is None,
            },
    {
        self.matched.user_data.as_ref()
    }

    /// Returns the optional HTTP-method override.
    pub fn method(&self) -> (r: Option<&Method>)
        ensures
            match r {
                Some(m) => self.matched.method == Some(*m),
                None => self.matched.method is None,
            },
    {
        self.matched.method.as_ref()
    }

    /// Returns the optional HTTP-headers override.
    pub fn headers(&self) -> (r: Option<&http::HeaderMap<http::HeaderValue>>)
        ensures
            match r {
                Some(h) => self.matched.headers == Some(*h),
                None => self.matched.headers is None,
            },
    {
        self.matched.headers.as_ref()
    }
}

/// A raw extracted link and the optional document base used to resolve it.
#[derive(Debug)]
pub struct ExtractedLink {
    /// The unmodified link text, such as an element's `href` value.
    pub url: String,
    /// A per-document base URL, typically sourced from `<base href>`.
    pub base: Option<Url>,
}

/// The outcome of transforming a candidate request before enqueueing.
#[derive(Debug)]
pub enum TransformResult {
    /// Enqueue the candidate, with any mutations made by the transform.
    Enqueue,
    /// Reject the candidate and report the supplied reason.
    Skip {
        /// A user-facing explanation for rejecting the candidate.
        reason: String,
    },
}

/// Receives notifications for URL candidates skipped during enqueueing.
pub trait SkippedHandler: Send + Sync + 'static {
    /// Handles one skipped URL and its reason.
    fn on_skip(&self, url: &str, reason: &SkipReason);
}

/// Long-lived limits and URL admission policy applied during a crawl.
pub struct CrawlPolicy {
    /// The default relationship required between parent and candidate URLs.
    pub strategy: EnqueueStrategy,
    /// The maximum child crawl depth, or `None` for no depth limit.
    pub max_crawl_depth: Option<u32>,
    /// The maximum number of requests accepted in one crawl, or `None` for no limit.
    pub max_requests_per_crawl: Option<u64>,
    /// An optional callback invoked for every skipped URL.
    pub on_skipped: Option<Arc<dyn SkippedHandler>>,
}

impl Default for CrawlPolicy {
    fn default() -> (r: Self)
        ensures
            r == (CrawlPolicy {
                strategy: EnqueueStrategy::SameHostname,
                max_crawl_depth: None,
                max_requests_per_crawl: None,
                on_skipped: None,
            }),
    {
        CrawlPolicy {
            strategy: EnqueueStrategy::SameHostname,
            max_crawl_depth: None,
            max_requests_per_crawl: None,
            on_skipped: None,
        }
    }
}

impl CrawlPolicy {
    /// Creates the default crawl policy.
    pub fn new() -> (r: CrawlPolicy)
        ensures
            r == (CrawlPolicy {
                strategy: EnqueueStrategy::SameHostname,
                max_crawl_depth: None,
                max_requests_per_crawl: None,
                on_skipped: None,
            }),
    {
        CrawlPolicy::default()
    }

    /// Sets the default URL admission strategy.
    pub fn strategy(self, strategy: EnqueueStrategy) -> (r: CrawlPolicy)
        ensures
            r == (CrawlPolicy { strategy, ..self }),
    {
        let mut out = self;
        out.strategy = strategy;
        out
    }

    /// Sets the maximum crawl depth.
    pub fn max_crawl_depth(self, max_crawl_depth: u32) -> (r: CrawlPolicy)
        ensures
            r == (CrawlPolicy { max_crawl_depth: Some(max_crawl_depth), ..self }),
    {
        let mut out = self;
        out.max_crawl_depth = Some(max_crawl_depth);
        out
    }

    /// Sets the maximum number of requests accepted during the crawl.
    pub fn max_requests_per_crawl(self, max_requests_per_crawl: u64) -> (r: CrawlPolicy)
        ensures
            r == (CrawlPolicy { max_requests_per_crawl: Some(max_requests_per_crawl), ..self }),
    {
        let mut out = self;
        out.max_requests_per_crawl = Some(max_requests_per_crawl);
        out
    }

    /// Sets or clears the skipped-URL callback.
    pub fn on_skipped(self, handler: Option<Arc<dyn SkippedHandler>>) -> (r: CrawlPolicy)
        ensures
            r.strategy == self.strategy,
            r.max_crawl_depth == self.max_crawl_depth,
            r.max_requests_per_crawl == self.max_requests_per_crawl,
            r.on_skipped == handler,
    {
        let mut out = self;
        out.on_skipped = handler;
        out
    }
}

/// What each strategy asks of a candidate, which is a web page in any case: nothing more; the host of
/// its parent, whatever the case of its letters; or, for the same origin, the host and also the very
/// scheme and port.
pub proof fn what_strategies_ask_for(parent: UrlParts, candidate: UrlParts)
    ensures
        ({
            let web = candidate.scheme == "http"@ || candidate.scheme == "https"@;
            let host = parent.host is Some && candidate.host is Some && ascii_lower(
                parent.host.unwrap(),
            ) == ascii_lower(candidate.host.unwrap());
            &&& strategy_permits(EnqueueStrategy::All, parent, candidate) <==> web
            &&& strategy_permits(EnqueueStrategy::SameHostname, parent, candidate) <==> web && host
            &&& strategy_permits(EnqueueStrategy::SameOrigin, parent, candidate) ==> parent.scheme
                == candidate.scheme && parent.port == candidate.port && host && web
            &&& web && host && parent.scheme == candidate.scheme && parent.port == candidate.port
                ==> strategy_permits(EnqueueStrategy::SameOrigin, parent, candidate)
        }),
{
}

/// Two pages are of one domain where their registrable domains agree, or, where one of them has none,
/// their whole domains, whatever the case of the letters; two addresses only where they are the same,
/// and never an address and a name.
pub proof fn what_one_domain_means(parent: UrlParts, candidate: UrlParts)
    requires
        candidate.scheme == "http"@ || candidate.scheme == "https"@,
    ensures
        ({
            let permitted = strategy_permits(EnqueueStrategy::SameDomain, parent, candidate);
            &&& parent.domain is Some != candidate.domain is Some ==> !permitted
            &&& parent.domain is None && candidate.domain is None ==> (permitted
                <==> parent.host is Some && parent.host == candidate.host)
            &&& parent.domain is Some && candidate.domain is Some ==> {
                let a = registrable_domain(parent.domain.unwrap());
                let b = registrable_domain(candidate.domain.unwrap());
                &&& a is Some && b is Some ==> (permitted <==> ascii_lower(a.unwrap())
                    == ascii_lower(b.unwrap()))
                &&& a is None || b is None ==> (permitted <==> ascii_lower(parent.domain.unwrap())
                    == ascii_lower(candidate.domain.unwrap()))
            }
        }),
{
}

/// Between two web pages every strategy answers the same in both directions.
pub proof fn strategies_work_both_ways(strategy: EnqueueStrategy, a: UrlParts, b: UrlParts)
    requires
        a.scheme == "http"@ || a.scheme == "https"@,
        b.scheme == "http"@ || b.scheme == "https"@,
    ensures
        strategy_permits(strategy, a, b) == strategy_permits(strategy, b, a),
{
}

/// The first pattern that cannot be compiled is the one reported, with what is wrong with it; where each
/// of them can but all together cannot, the last is.
pub proof fn first_bad_globs_are_reported(patterns: Seq<Seq<char>>, at: int)
    requires
        0 <= at <= patterns.len(),
        forall|k: int| 0 <= k < at ==> glob_fault(#[trigger] patterns[k]) is None,
        at < patterns.len() ==> glob_fault(patterns[at]) is Some,
    ensures
        at < patterns.len() ==> globs_fault(patterns) == Some(
            (patterns[at], glob_fault(patterns[at]).unwrap()),
        ),
        at == patterns.len() && glob_set_fault(patterns) is None ==> globs_fault(patterns) is None,
        at == patterns.len() && glob_set_fault(patterns) is Some && patterns.len() > 0
            ==> globs_fault(patterns) == Some((patterns.last(), glob_set_fault(patterns).unwrap())),
{
    lemma_first_glob_fault(patterns, at);
}

proof fn lemma_first_glob_fault(patterns: Seq<Seq<char>>, at: int)
    requires
        0 <= at <= patterns.len(),
        forall|k: int| 0 <= k < at ==> glob_fault(#[trigger] patterns[k]) is None,
        at < patterns.len() ==> glob_fault(patterns[at]) is Some,
    ensures
        at < patterns.len() ==> first_glob_fault(patterns) == Some(
            (patterns[at], glob_fault(patterns[at]).unwrap()),
        ),
        at == patterns.len() ==> first_glob_fault(patterns) is None,
    decreases patterns.len(),
{
    if at > 0 {
        let rest = patterns.drop_first();
        assert(glob_fault(patterns[0]) is None);
        assert forall|k: int| 0 <= k < at - 1 implies glob_fault(#[trigger] rest[k]) is None by {
            assert(rest[k] == patterns[k + 1]);
        }
        lemma_first_glob_fault(rest, at - 1);
    }
}

/// A pattern matches as its kind does, and the text of a bad glob names it in quotation marks.
pub proof fn patterns_match_by_their_kind(pattern: Seq<char>, text: Seq<char>, message: Seq<char>)
    ensures
        PatternView::Glob(pattern).matches(text) == glob_matches(pattern, text),
        PatternView::Regex(pattern).matches(text) == regex_matches(pattern, text),
        PatternView::Regex(pattern).fault() is None,
        PatternView::Glob(pattern).fault() == globs_fault(seq![pattern]),
        glob_error_text((pattern, message)) == "invalid glob pattern "@ + debug_quoted(pattern) + ": "@
            + message,
        glob_error_links((pattern, message)).len() == 2,
        glob_error_links((pattern, message))[0].message == glob_error_text((pattern, message)),
        glob_error_links((pattern, message))[1].message == message,
{
}

} // verus!
