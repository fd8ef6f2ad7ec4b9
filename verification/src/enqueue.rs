//! Filtering, transformation, and enqueueing of links.

use crate::errors::{Cause, CrawlError, LinkView};
use crate::headers::{clone_headers, header_contents};
use crate::link_extraction::{
    compile_globs, glob_error_links, regex_matches, strategy_allows, strategy_permits,
    CrawlPolicy, EnqueueStrategy, ExtractedLink, GlobPattern, Globs, LinkPatternError,
    PatternView, TransformResult, UrlMatch, UrlPattern, UrlRegex,
};
use crate::request::{
    opt_body_view, request_id, unique_key_of, Method, Request, RequestBuilder, RequestId,
    RequestState, UserData,
};
use crate::storage::ProcessedRequest;
use crate::text::{
    before, before_char, chars_of, decimal, joined, owned, push_decimal, same, text_before_a_mark,
    views,
};
use crate::url::{opt_view, parsed_url, resolved_url, url_outcome, Url, UrlParseError, UrlParts};
use vstd::prelude::*;

verus! {

/// Why an enqueue candidate was skipped.
#[allow(inconsistent_fields)]
#[derive(Debug, PartialEq, Eq)]
pub enum SkipReason {
    /// The discovered child is deeper than the crawler policy permits.
    MaxDepthExceeded {
        /// The child's crawl depth.
        depth: u32,
        /// The configured maximum depth.
        limit: u32,
    },
    /// The crawl has reached its configured request limit.
    MaxRequestsReached {
        /// The configured maximum request count.
        limit: u64,
    },
    /// The candidate did not satisfy the enqueue strategy.
    StrategyExcluded,
    /// A glob exclusion matched or no glob include matched.
    GlobExcluded,
    /// A regex exclusion matched or no regex include matched.
    RegexExcluded,
    /// The transform explicitly rejected the request.
    TransformRejected {
        /// The transform's rejection explanation.
        reason: String,
    },
    /// The request queue already knew this unique key.
    DuplicateUniqueKey,
    /// The raw URL could not be resolved or a request could not be built.
    InvalidUrl,
}

impl SkipReason {
    /// The reason in words.
    pub open spec fn text(self) -> Seq<char> {
        match self {
            SkipReason::MaxDepthExceeded { depth, limit } => "crawl depth "@ + decimal(
                depth as nat,
            ) + " exceeds limit "@ + decimal(limit as nat),
            SkipReason::MaxRequestsReached { limit } => "maximum request count "@ + decimal(
                limit as nat,
            ) + " reached"@,
            SkipReason::StrategyExcluded => "excluded by enqueue strategy"@,
            SkipReason::GlobExcluded => "excluded by glob patterns"@,
            SkipReason::RegexExcluded => "excluded by regex patterns"@,
            SkipReason::TransformRejected { reason } => "rejected by transform: "@ + reason@,
            SkipReason::DuplicateUniqueKey => "duplicate unique key"@,
            SkipReason::InvalidUrl => "invalid URL"@,
        }
    }

    /// The reason in words.
    pub fn message(&self) -> (r: String)
        ensures
            r@ == self.text(),
    {
        match self {
            SkipReason::MaxDepthExceeded { depth, limit } => {
                let mut out: String = owned("crawl depth ");
                push_decimal(&mut out, *depth as u128);
                out.append(" exceeds limit ");
                push_decimal(&mut out, *limit as u128);
                out
            },
            SkipReason::MaxRequestsReached { limit } => {
                let mut out: String = owned("maximum request count ");
                push_decimal(&mut out, *limit as u128);
                out.append(" reached");
                out
            },
            SkipReason::StrategyExcluded => owned("excluded by enqueue strategy"),
            SkipReason::GlobExcluded => owned("excluded by glob patterns"),
            SkipReason::RegexExcluded => owned("excluded by regex patterns"),
            SkipReason::TransformRejected { reason } => joined(
                "rejected by transform: ",
                reason.as_str(),
            ),
            SkipReason::DuplicateUniqueKey => owned("duplicate unique key"),
            SkipReason::InvalidUrl => owned("invalid URL"),
        }
    }
}

/// A skipped URL candidate.
#[derive(Debug)]
pub struct SkippedUrl {
    /// Original URL text or duplicate unique key.
    pub url: String,
    /// Why the candidate was skipped.
    pub reason: SkipReason,
}

/// A candidate for enqueueing.
#[derive(Debug)]
pub enum UrlCandidate {
    /// A URL that the caller chose.
    Absolute(Url),
    /// A text that is still to be resolved.
    Raw { url: String, base: Option<Url> },
}

/// The mathematical value of a candidate.
pub enum CandidateView {
    Absolute(UrlParts),
    Raw(Seq<char>, Option<UrlParts>),
}

/// The mathematical value of an optional URL.
pub open spec fn opt_url(url: Option<Url>) -> Option<UrlParts> {
    match url {
        Some(u) => Some(u@),
        None => None,
    }
}

impl View for UrlCandidate {
    type V = CandidateView;

    open spec fn view(&self) -> CandidateView {
        match *self {
            UrlCandidate::Absolute(url) => CandidateView::Absolute(url@),
            UrlCandidate::Raw { url, base } => CandidateView::Raw(url@, opt_url(base)),
        }
    }
}

/// The views of candidates.
pub open spec fn candidate_views(candidates: Seq<UrlCandidate>) -> Seq<CandidateView> {
    Seq::new(candidates.len(), |i: int| candidates[i]@)
}

/// The first segment of the path of a relative reference.
pub open spec fn first_path_segment(raw: Seq<char>) -> Seq<char> {
    before_char(before_char(before_char(raw, '?'), '#'), '/')
}

/// What a raw link resolves to: itself if it is an absolute URL, and otherwise a reference
/// relative to `base`, whose first path segment may not hold a colon.
pub open spec fn resolved_raw(base: Seq<char>, raw: Seq<char>) -> Result<UrlParts, Seq<char>> {
    match parsed_url(raw) {
        Ok(url) => Ok(url),
        Err(_) => if first_path_segment(raw).contains(':') {
            Err("relative URL without a base"@)
        } else {
            resolved_url(base, raw)
        },
    }
}

fn holds(s: &Vec<char>, c: char) -> (r: bool)
    ensures
        r == s@.contains(c),
{
    let mut i: usize = 0;
    while i < s.len()
        invariant
            i <= s.len(),
            forall|k: int| 0 <= k < i ==> s@[k] != c,
        decreases s.len() - i,
    {
        if s[i] == c {
            assert(s@[i as int] == c);
            return true;
        }
        i = i + 1;
    }
    false
}

/// Resolves a raw link against a base.
pub fn resolve_raw_url(base: &Url, raw: &str) -> (r: Result<Url, UrlParseError>)
    ensures
        url_outcome(r) == resolved_raw(base@.text, raw@),
{
    match Url::parse(raw) {
        Ok(url) => Ok(url),
        Err(_) => {
            let segment: Vec<char> = before(&before(&before(&chars_of(raw), '?'), '#'), '/');
            if holds(&segment, ':') {
                Err(UrlParseError { message: owned("relative URL without a base") })
            } else {
                base.join(raw)
            }
        },
    }
}

/// The rules by which candidates are judged.
pub struct RulesView {
    pub strategy: EnqueueStrategy,
    pub parent: UrlParts,
    pub base: Option<UrlParts>,
    pub includes: Seq<PatternView>,
    pub regexes: Seq<Seq<char>>,
    pub excludes: Seq<PatternView>,
}

/// What becomes of a candidate.
pub enum Verdict {
    /// It goes on, with the number of the include pattern that matched it.
    Keep(UrlParts, Option<int>),
    /// It is skipped under the given text.
    Skip(Seq<char>, SkipReason),
}

/// The number of the first pattern, from `from` on, that matches.
pub open spec fn first_match(patterns: Seq<PatternView>, text: Seq<char>, from: int) -> Option<int>
    decreases patterns.len() - from,
{
    if from < 0 || from >= patterns.len() {
        None
    } else if patterns[from].matches(text) {
        Some(from)
    } else {
        first_match(patterns, text, from + 1)
    }
}

/// Whether one of the regular expressions matches.
pub open spec fn any_regex_matches(sources: Seq<Seq<char>>, text: Seq<char>) -> bool {
    exists|i: int| 0 <= i < sources.len() && regex_matches(#[trigger] sources[i], text)
}

/// The reason for which a matching exclusion skips a URL.
pub open spec fn exclusion_reason(pattern: PatternView) -> SkipReason {
    match pattern {
        PatternView::Glob(_) => SkipReason::GlobExcluded,
        PatternView::Regex(_) => SkipReason::RegexExcluded,
    }
}

/// What becomes of a resolved URL.
pub open spec fn judged(rules: RulesView, url: UrlParts, apply_strategy: bool) -> Verdict {
    let included = first_match(rules.includes, url.text, 0);
    if apply_strategy && !strategy_permits(rules.strategy, rules.parent, url) {
        Verdict::Skip(url.text, SkipReason::StrategyExcluded)
    } else if first_match(rules.excludes, url.text, 0) is Some {
        Verdict::Skip(
            url.text,
            exclusion_reason(rules.excludes[first_match(rules.excludes, url.text, 0).unwrap()]),
        )
    } else if (rules.includes.len() > 0 || rules.regexes.len() > 0) && included is None
        && !any_regex_matches(rules.regexes, url.text) {
        Verdict::Skip(
            url.text,
            if rules.includes.len() > 0 {
                SkipReason::GlobExcluded
            } else {
                SkipReason::RegexExcluded
            },
        )
    } else {
        Verdict::Keep(url, included)
    }
}

/// The base of a raw candidate: its own, else the operation's, else the parent.
pub open spec fn base_of(rules: RulesView, own: Option<UrlParts>) -> UrlParts {
    match own {
        Some(base) => base,
        None => match rules.base {
            Some(base) => base,
            None => rules.parent,
        },
    }
}

/// What becomes of a candidate.
pub open spec fn verdict(rules: RulesView, candidate: CandidateView) -> Verdict {
    match candidate {
        CandidateView::Absolute(url) => judged(rules, url, false),
        CandidateView::Raw(raw, own) => match resolved_raw(base_of(rules, own).text, raw) {
            Ok(url) => judged(rules, url, true),
            Err(_) => Verdict::Skip(raw, SkipReason::InvalidUrl),
        },
    }
}

/// The candidates that the rules keep, in their order.
pub open spec fn kept_of(rules: RulesView, candidates: Seq<CandidateView>) -> Seq<
    (UrlParts, Option<int>),
>
    decreases candidates.len(),
{
    if candidates.len() == 0 {
        seq![]
    } else {
        let front = kept_of(rules, candidates.drop_last());
        match verdict(rules, candidates.last()) {
            Verdict::Keep(url, matched_by) => front.push((url, matched_by)),
            Verdict::Skip(_, _) => front,
        }
    }
}

/// The candidates that the rules skip, in their order.
pub open spec fn skipped_of(rules: RulesView, candidates: Seq<CandidateView>) -> Seq<
    (Seq<char>, SkipReason),
>
    decreases candidates.len(),
{
    if candidates.len() == 0 {
        seq![]
    } else {
        let front = skipped_of(rules, candidates.drop_last());
        match verdict(rules, candidates.last()) {
            Verdict::Keep(_, _) => front,
            Verdict::Skip(text, reason) => front.push((text, reason)),
        }
    }
}

/// Whether a URL with this text is among the kept ones.
pub open spec fn text_kept(kept: Seq<(UrlParts, Option<int>)>, text: Seq<char>) -> bool {
    exists|i: int| 0 <= i < kept.len() && (#[trigger] kept[i]).0.text == text
}

/// The kept candidates, each URL once, where it first came.
pub open spec fn deduped(kept: Seq<(UrlParts, Option<int>)>) -> Seq<(UrlParts, Option<int>)>
    decreases kept.len(),
{
    if kept.len() == 0 {
        seq![]
    } else if text_kept(kept.drop_last(), kept.last().0.text) {
        deduped(kept.drop_last())
    } else {
        deduped(kept.drop_last()).push(kept.last())
    }
}

/// The first `limit` of the kept candidates.
pub open spec fn limited(kept: Seq<(UrlParts, Option<int>)>, limit: Option<usize>) -> Seq<
    (UrlParts, Option<int>),
> {
    match limit {
        Some(n) => if kept.len() > n {
            kept.subrange(0, n as int)
        } else {
            kept
        },
        None => kept,
    }
}

proof fn lemma_dedup_keeps_texts(kept: Seq<(UrlParts, Option<int>)>, text: Seq<char>)
    ensures
        text_kept(kept, text) <==> text_kept(deduped(kept), text),
    decreases kept.len(),
{
    if kept.len() > 0 {
        let front = kept.drop_last();
        let last = kept.last();
        lemma_dedup_keeps_texts(front, text);
        lemma_dedup_keeps_texts(front, last.0.text);
        if text_kept(kept, text) && !text_kept(front, text) {
            let i = choose|i: int| 0 <= i < kept.len() && (#[trigger] kept[i]).0.text == text;
            if i < front.len() {
                assert(front[i] == kept[i]);
            }
            assert(last.0.text == text);
            assert(deduped(kept)[deduped(kept).len() - 1] == last);
        }
        if text_kept(front, text) {
            let i = choose|i: int| 0 <= i < front.len() && (#[trigger] front[i]).0.text == text;
            assert(kept[i].0.text == text);
            let d = deduped(front);
            let j = choose|j: int| 0 <= j < d.len() && (#[trigger] d[j]).0.text == text;
            assert(deduped(kept)[j] == d[j]);
        }
        if text_kept(deduped(kept), text) {
            let d = deduped(kept);
            let j = choose|j: int| 0 <= j < d.len() && (#[trigger] d[j]).0.text == text;
            if j < deduped(front).len() {
                assert(deduped(front)[j] == d[j]);
            } else {
                assert(kept[kept.len() - 1].0.text == text);
            }
        }
    }
}

/// Every candidate is either kept or skipped, once.
pub proof fn every_candidate_is_kept_or_skipped(rules: RulesView, candidates: Seq<CandidateView>)
    ensures
        kept_of(rules, candidates).len() + skipped_of(rules, candidates).len() == candidates.len(),
    decreases candidates.len(),
{
    if candidates.len() > 0 {
        every_candidate_is_kept_or_skipped(rules, candidates.drop_last());
    }
}

/// No URL goes on twice, and no more go on than the limit allows.
pub proof fn kept_urls_are_distinct_and_limited(
    kept: Seq<(UrlParts, Option<int>)>,
    limit: Option<usize>,
)
    ensures
        forall|i: int, j: int|
            0 <= i < j < limited(deduped(kept), limit).len() ==> (#[trigger] limited(
                deduped(kept),
                limit,
            )[i]).0.text != (#[trigger] limited(deduped(kept), limit)[j]).0.text,
        limit is Some ==> limited(deduped(kept), limit).len() <= limit.unwrap(),
    decreases kept.len(),
{
    lemma_deduped_distinct(kept);
}

proof fn lemma_deduped_distinct(kept: Seq<(UrlParts, Option<int>)>)
    ensures
        forall|i: int, j: int|
            0 <= i < j < deduped(kept).len() ==> (#[trigger] deduped(kept)[i]).0.text != (
            #[trigger] deduped(kept)[j]).0.text,
    decreases kept.len(),
{
    if kept.len() > 0 {
        let front = kept.drop_last();
        lemma_deduped_distinct(front);
        lemma_dedup_keeps_texts(front, kept.last().0.text);
        let d = deduped(front);
        assert forall|i: int, j: int| 0 <= i < j < deduped(kept).len() implies (
        #[trigger] deduped(kept)[i]).0.text != (#[trigger] deduped(kept)[j]).0.text by {
            if j < d.len() {
                assert(d[i].0.text != d[j].0.text);
            } else {
                assert(d[i] == deduped(kept)[i]);
            }
        }
    }
}

/// An exclusion that matches skips the URL, whatever the includes say.
pub proof fn exclusions_take_precedence(rules: RulesView, url: UrlParts, apply_strategy: bool)
    requires
        exists|i: int|
            0 <= i < rules.excludes.len() && (#[trigger] rules.excludes[i]).matches(url.text),
    ensures
        judged(rules, url, apply_strategy) is Skip,
{
    let i = choose|i: int|
        0 <= i < rules.excludes.len() && (#[trigger] rules.excludes[i]).matches(url.text);
    lemma_first_match_exists(rules.excludes, url.text, 0, i);
}

proof fn lemma_first_match_exists(patterns: Seq<PatternView>, text: Seq<char>, from: int, at: int)
    requires
        0 <= from <= at < patterns.len(),
        patterns[at].matches(text),
    ensures
        first_match(patterns, text, from) is Some,
    decreases at - from,
{
    if !patterns[from].matches(text) {
        lemma_first_match_exists(patterns, text, from + 1, at);
    }
}

/// URLs that the caller chose are judged without regard to the strategy and the parent.
pub proof fn explicit_urls_bypass_the_strategy(rules: RulesView, other: RulesView, url: UrlParts)
    requires
        rules.includes == other.includes,
        rules.regexes == other.regexes,
        rules.excludes == other.excludes,
    ensures
        verdict(rules, CandidateView::Absolute(url)) == verdict(
            other,
            CandidateView::Absolute(url),
        ),
{
}

/// The candidates that go on: those that are kept, each URL once, as many as the limit allows.
pub open spec fn going_on(
    rules: RulesView,
    candidates: Seq<CandidateView>,
    limit: Option<usize>,
) -> Seq<(UrlParts, Option<int>)> {
    limited(deduped(kept_of(rules, candidates)), limit)
}

/// The first pattern that cannot be compiled, with the reason.
pub open spec fn first_pattern_fault(patterns: Seq<PatternView>) -> Option<(Seq<char>, Seq<char>)>
    decreases patterns.len(),
{
    if patterns.len() == 0 {
        None
    } else {
        match patterns[0].fault() {
            Some(fault) => Some(fault),
            None => first_pattern_fault(patterns.drop_first()),
        }
    }
}

/// The views of patterns.
pub open spec fn pattern_views(patterns: Seq<UrlPattern>) -> Seq<PatternView> {
    Seq::new(patterns.len(), |i: int| patterns[i]@)
}

/// The views of include patterns.
pub open spec fn include_views(patterns: Seq<GlobPattern>) -> Seq<PatternView> {
    Seq::new(patterns.len(), |i: int| patterns[i].matched.pattern@)
}

/// The views of regular expressions.
pub open spec fn regex_views(patterns: Seq<UrlRegex>) -> Seq<Seq<char>> {
    Seq::new(patterns.len(), |i: int| patterns[i]@)
}

/// Whether `compiled` is what a pattern needs to be matched: its glob, where it is one.
pub open spec fn is_compiled(pattern: PatternView, compiled: Option<Globs>) -> bool {
    match pattern {
        PatternView::Glob(glob) => compiled is Some && compiled.unwrap()@ == seq![glob],
        PatternView::Regex(_) => true,
    }
}

fn compile_pattern(pattern: &UrlPattern) -> (r: Result<Option<Globs>, LinkPatternError>)
    ensures
        match r {
            Ok(compiled) => pattern@.fault() is None && is_compiled(pattern@, compiled),
            Err(e) => pattern@.fault() == Some(e.fault()),
        },
{
    match pattern {
        UrlPattern::Glob(glob) => {
            let patterns: Vec<String> = vec![glob.clone()];
            assert(views(patterns@) =~= seq![glob@]);
            match compile_globs(&patterns) {
                Ok(compiled) => Ok(Some(compiled)),
                Err(e) => Err(e),
            }
        },
        UrlPattern::Regex(_) => Ok(None),
    }
}

fn pattern_matches(pattern: &UrlPattern, compiled: &Option<Globs>, text: &str) -> (r: bool)
    requires
        is_compiled(pattern@, *compiled),
    ensures
        r == pattern@.matches(text@),
{
    match pattern {
        UrlPattern::Glob(glob) => match compiled {
            Some(globs) => {
                assert(globs@[0] == glob@);
                globs.is_match(text)
            },
            None => false,
        },
        UrlPattern::Regex(regex) => regex.is_match(text),
    }
}

fn compile_patterns(patterns: &Vec<UrlPattern>) -> (r: Result<
    Vec<Option<Globs>>,
    LinkPatternError,
>)
    ensures
        match r {
            Ok(compiled) => {
                &&& first_pattern_fault(pattern_views(patterns@)) is None
                &&& compiled@.len() == patterns@.len()
                &&& forall|k: int|
                    0 <= k < patterns@.len() ==> is_compiled(
                        (#[trigger] patterns@[k])@,
                        compiled@[k],
                    )
            },
            Err(e) => first_pattern_fault(pattern_views(patterns@)) == Some(e.fault()),
        },
{
    let ghost all = pattern_views(patterns@);
    let mut out: Vec<Option<Globs>> = Vec::new();
    let mut i: usize = 0;
    assert(all.skip(0) =~= all);
    while i < patterns.len()
        invariant
            i <= patterns.len(),
            all == pattern_views(patterns@),
            first_pattern_fault(all) == first_pattern_fault(all.skip(i as int)),
            out@.len() == i,
            forall|k: int|
                0 <= k < i ==> is_compiled((#[trigger] patterns@[k])@, out@[k]),
        decreases patterns.len() - i,
    {
        assert(all.skip(i as int).drop_first() =~= all.skip(i + 1));
        match compile_pattern(&patterns[i]) {
            Ok(compiled) => {
                out.push(compiled);
            },
            Err(e) => {
                return Err(e);
            },
        }
        i = i + 1;
    }
    Ok(out)
}

fn compile_include_patterns(patterns: &Vec<GlobPattern>) -> (r: Result<
    Vec<Option<Globs>>,
    LinkPatternError,
>)
    ensures
        match r {
            Ok(compiled) => {
                &&& first_pattern_fault(include_views(patterns@)) is None
                &&& compiled@.len() == patterns@.len()
                &&& forall|k: int|
                    0 <= k < patterns@.len() ==> is_compiled(
                        (#[trigger] patterns@[k]).matched.pattern@,
                        compiled@[k],
                    )
            },
            Err(e) => first_pattern_fault(include_views(patterns@)) == Some(e.fault()),
        },
{
    let ghost all = include_views(patterns@);
    let mut out: Vec<Option<Globs>> = Vec::new();
    let mut i: usize = 0;
    assert(all.skip(0) =~= all);
    while i < patterns.len()
        invariant
            i <= patterns.len(),
            all == include_views(patterns@),
            first_pattern_fault(all) == first_pattern_fault(all.skip(i as int)),
            out@.len() == i,
            forall|k: int|
                0 <= k < i ==> is_compiled((#[trigger] patterns@[k]).matched.pattern@, out@[k]),
        decreases patterns.len() - i,
    {
        assert(all.skip(i as int).drop_first() =~= all.skip(i + 1));
        match compile_pattern(patterns[i].pattern()) {
            Ok(compiled) => {
                out.push(compiled);
            },
            Err(e) => {
                return Err(e);
            },
        }
        i = i + 1;
    }
    Ok(out)
}

fn first_exclusion(patterns: &Vec<UrlPattern>, compiled: &Vec<Option<Globs>>, text: &str) -> (r:
    Option<SkipReason>)
    requires
        compiled@.len() == patterns@.len(),
        forall|k: int|
            0 <= k < patterns@.len() ==> is_compiled((#[trigger] patterns@[k])@, compiled@[k]),
    ensures
        r == match first_match(pattern_views(patterns@), text@, 0) {
            Some(i) => Some(exclusion_reason(pattern_views(patterns@)[i])),
            None => None,
        },
{
    let ghost all = pattern_views(patterns@);
    let mut i: usize = 0;
    while i < patterns.len()
        invariant
            i <= patterns.len(),
            all == pattern_views(patterns@),
            compiled@.len() == patterns@.len(),
            forall|k: int|
                0 <= k < patterns@.len() ==> is_compiled((#[trigger] patterns@[k])@, compiled@[k]),
            first_match(all, text@, 0) == first_match(all, text@, i as int),
        decreases patterns.len() - i,
    {
        assert(all[i as int] == patterns@[i as int]@);
        if pattern_matches(&patterns[i], &compiled[i], text) {
            return match &patterns[i] {
                UrlPattern::Glob(_) => Some(SkipReason::GlobExcluded),
                UrlPattern::Regex(_) => Some(SkipReason::RegexExcluded),
            };
        }
        i = i + 1;
    }
    None
}

fn first_include(patterns: &Vec<GlobPattern>, compiled: &Vec<Option<Globs>>, text: &str) -> (r:
    Option<usize>)
    requires
        compiled@.len() == patterns@.len(),
        forall|k: int|
            0 <= k < patterns@.len() ==> is_compiled(
                (#[trigger] patterns@[k]).matched.pattern@,
                compiled@[k],
            ),
    ensures
        include_number(r) == first_match(include_views(patterns@), text@, 0),
        r is Some ==> r.unwrap() < patterns@.len(),
{
    let ghost all = include_views(patterns@);
    let mut i: usize = 0;
    while i < patterns.len()
        invariant
            i <= patterns.len(),
            all == include_views(patterns@),
            compiled@.len() == patterns@.len(),
            forall|k: int|
                0 <= k < patterns@.len() ==> is_compiled(
                    (#[trigger] patterns@[k]).matched.pattern@,
                    compiled@[k],
                ),
            first_match(all, text@, 0) == first_match(all, text@, i as int),
        decreases patterns.len() - i,
    {
        assert(all[i as int] == patterns@[i as int].matched.pattern@);
        if pattern_matches(patterns[i].pattern(), &compiled[i], text) {
            return Some(i);
        }
        i = i + 1;
    }
    None
}

fn any_regex(patterns: &Vec<UrlRegex>, text: &str) -> (r: bool)
    ensures
        r == any_regex_matches(regex_views(patterns@), text@),
{
    let ghost all = regex_views(patterns@);
    let mut i: usize = 0;
    while i < patterns.len()
        invariant
            i <= patterns.len(),
            all == regex_views(patterns@),
            forall|k: int| 0 <= k < i ==> !regex_matches(#[trigger] all[k], text@),
        decreases patterns.len() - i,
    {
        assert(all[i as int] == patterns@[i as int]@);
        if patterns[i].is_match(text) {
            return true;
        }
        i = i + 1;
    }
    false
}

/// A candidate that goes on, with the number of the include pattern that matched it.
#[derive(Debug)]
pub struct Kept {
    pub url: Url,
    pub matched_by: Option<usize>,
}

/// The number of an include pattern as a mathematical integer.
pub open spec fn include_number(matched_by: Option<usize>) -> Option<int> {
    match matched_by {
        Some(i) => Some(i as int),
        None => None,
    }
}

/// The views of kept candidates.
pub open spec fn kept_views(kept: Seq<Kept>) -> Seq<(UrlParts, Option<int>)> {
    Seq::new(kept.len(), |i: int| (kept[i].url@, include_number(kept[i].matched_by)))
}

/// The views of skipped candidates.
pub open spec fn skipped_views(skipped: Seq<SkippedUrl>) -> Seq<(Seq<char>, SkipReason)> {
    Seq::new(skipped.len(), |i: int| (skipped[i].url@, skipped[i].reason))
}

/// What filtering gives.
#[derive(Debug)]
pub struct Filtered {
    pub kept: Vec<Kept>,
    pub skipped: Vec<SkippedUrl>,
}

/// The skipped candidates of an operation, and how many of them the policy's handler has been told.
#[derive(Debug)]
pub struct SkipLog {
    pub skipped: Vec<SkippedUrl>,
    pub reported: usize,
}

impl SkipLog {
    /// A log of which nothing has been reported.
    pub fn new(skipped: Vec<SkippedUrl>) -> (r: SkipLog)
        ensures
            r == (SkipLog { skipped, reported: 0 }),
    {
        SkipLog { skipped, reported: 0 }
    }

    /// Whether `after` is the log with one more skipped candidate.
    pub open spec fn has_noted(self, entry: SkippedUrl, after: SkipLog) -> bool {
        after.skipped@ == self.skipped@.push(entry) && after.reported == self.reported
    }

    /// Whether `at` is the number of the next candidate to report, and `after` the log that knows it
    /// as reported.
    pub open spec fn has_reported(self, at: Option<usize>, after: SkipLog) -> bool {
        &&& after.skipped == self.skipped
        &&& if self.reported < self.skipped@.len() {
            at == Some(self.reported) && after.reported == self.reported + 1
        } else {
            at is None && after.reported == self.reported
        }
    }

    /// Notes a skipped candidate.
    pub fn report_skip(&mut self, url: String, reason: SkipReason)
        ensures
            old(self).has_noted(SkippedUrl { url, reason }, *final(self)),
    {
        self.skipped.push(SkippedUrl { url, reason });
    }

    /// The number of the next candidate to report, if one is left.
    pub fn next_report(&mut self) -> (r: Option<usize>)
        ensures
            old(self).has_reported(r, *final(self)),
    {
        if self.reported < self.skipped.len() {
            let at: usize = self.reported;
            self.reported = at + 1;
            Some(at)
        } else {
            None
        }
    }

    /// The outcome of the operation, which has added the given requests.
    pub fn into_result(self, added: Vec<ProcessedRequest>) -> (r: EnqueueResult)
        ensures
            r == (EnqueueResult { added, skipped: self.skipped }),
    {
        EnqueueResult { added, skipped: self.skipped }
    }
}

/// What can happen to a log.
pub enum LogMove {
    /// A candidate was skipped.
    Note(SkippedUrl),
    /// The next candidate to report was asked for.
    Report(Option<usize>),
}

/// The candidates that were reported, by their numbers, in the order of the reports.
pub open spec fn reports_of(by: Seq<LogMove>) -> Seq<usize>
    decreases by.len(),
{
    if by.len() == 0 {
        seq![]
    } else {
        match by.last() {
            LogMove::Report(Some(at)) => reports_of(by.drop_last()).push(at),
            _ => reports_of(by.drop_last()),
        }
    }
}

/// Whether a log goes through `logs` by the moves `by`, with nothing reported at first.
pub open spec fn keeps_log(logs: Seq<SkipLog>, by: Seq<LogMove>) -> bool {
    &&& logs.len() == by.len() + 1
    &&& logs[0].reported == 0
    &&& forall|i: int|
        0 <= i < by.len() ==> match #[trigger] by[i] {
            LogMove::Note(entry) => logs[i].has_noted(entry, logs[i + 1]),
            LogMove::Report(at) => logs[i].has_reported(at, logs[i + 1]),
        }
}

/// Every skipped candidate is reported once, in the order in which the candidates were skipped: the
/// reports are the first so many of the log, and all of it once none is left to report.
pub proof fn skips_are_reported_once_in_order(logs: Seq<SkipLog>, by: Seq<LogMove>)
    requires
        keeps_log(logs, by),
    ensures
        logs.last().reported <= logs.last().skipped@.len(),
        reports_of(by) == Seq::new(logs.last().reported as nat, |i: int| i as usize),
        by.len() > 0 && by.last() == LogMove::Report(None) ==> logs.last().reported
            == logs.last().skipped@.len(),
    decreases by.len(),
{
    if by.len() == 0 {
        assert(reports_of(by) =~= Seq::new(0, |i: int| i as usize));
    } else {
        let last = by.len() - 1;
        let (front, fewer) = (logs.drop_last(), by.drop_last());
        assert(keeps_log(front, fewer)) by {
            assert forall|i: int| 0 <= i < fewer.len() implies match #[trigger] fewer[i] {
                LogMove::Note(entry) => front[i].has_noted(entry, front[i + 1]),
                LogMove::Report(at) => front[i].has_reported(at, front[i + 1]),
            } by {
                assert(by[i] == fewer[i]);
            }
        }
        skips_are_reported_once_in_order(front, fewer);
        assert(by[last] == by.last());
        assert(reports_of(by) =~= Seq::new(logs.last().reported as nat, |i: int| i as usize));
    }
}

/// Options for one enqueue operation.
#[derive(Debug)]
pub struct EnqueueLinksOptions {
    pub candidates: Vec<UrlCandidate>,
    pub base_url: Option<Url>,
    pub label: Option<String>,
    pub user_data: Option<UserData>,
    pub selector: Option<String>,
    pub strategy: Option<EnqueueStrategy>,
    pub globs: Vec<GlobPattern>,
    pub regex: Vec<UrlRegex>,
    pub exclude: Vec<UrlPattern>,
    pub limit: Option<usize>,
    pub forefront: bool,
}

impl EnqueueLinksOptions {
    /// Options on which nothing is set.
    pub fn new() -> (r: EnqueueLinksOptions)
        ensures
            r.candidates@.len() == 0,
            r.base_url is None,
            r.label is None,
            r.user_data is None,
            r.selector is None,
            r.strategy is None,
            r.globs@.len() == 0,
            r.regex@.len() == 0,
            r.exclude@.len() == 0,
            r.limit is None,
            !r.forefront,
    {
        EnqueueLinksOptions {
            candidates: Vec::new(),
            base_url: None,
            label: None,
            user_data: None,
            selector: None,
            strategy: None,
            globs: Vec::new(),
            regex: Vec::new(),
            exclude: Vec::new(),
            limit: None,
            forefront: false,
        }
    }

    /// Extends the explicit absolute URL candidates.
    pub fn urls(self, urls: Vec<Url>) -> (r: EnqueueLinksOptions)
        ensures
            r.candidates@ == self.candidates@ + Seq::new(
                urls@.len(),
                |i: int| UrlCandidate::Absolute(urls@[i]),
            ),
            r == (EnqueueLinksOptions { candidates: r.candidates, ..self }),
    {
        let mut out = self;
        let ghost all = urls@;
        let ghost prior = out.candidates@;
        for url in iter: urls
            invariant
                iter.seq() == all,
                out == (EnqueueLinksOptions { candidates: out.candidates, ..self }),
                out.candidates@ == prior + Seq::new(
                    iter.index() as nat,
                    |i: int| UrlCandidate::Absolute(all[i]),
                ),
        {
            out.candidates.push(UrlCandidate::Absolute(url));
            assert(out.candidates@ =~= prior + Seq::new(
                (iter.index() + 1) as nat,
                |i: int| UrlCandidate::Absolute(all[i]),
            ));
        }
        out
    }

    /// Adds one raw absolute or relative URL candidate.
    pub fn raw_url(self, url: &str) -> (r: EnqueueLinksOptions)
        ensures
            r.candidates@.len() == self.candidates@.len() + 1,
            r.candidates@.drop_last() == self.candidates@,
            r.candidates@.last()@ == CandidateView::Raw(url@, None),
            r == (EnqueueLinksOptions { candidates: r.candidates, ..self }),
    {
        let mut out = self;
        let ghost prior = out.candidates@;
        out.candidates.push(UrlCandidate::Raw { url: owned(url), base: None });
        assert(out.candidates@.drop_last() =~= prior);
        out
    }

    /// Adds links that an extractor found, each with the base of its document.
    pub fn extracted(self, links: Vec<ExtractedLink>) -> (r: EnqueueLinksOptions)
        ensures
            r.candidates@ == self.candidates@ + Seq::new(
                links@.len(),
                |i: int| UrlCandidate::Raw { url: links@[i].url, base: links@[i].base },
            ),
            r == (EnqueueLinksOptions { candidates: r.candidates, ..self }),
    {
        let mut out = self;
        let ghost all = links@;
        let ghost prior = out.candidates@;
        for link in iter: links
            invariant
                iter.seq() == all,
                out == (EnqueueLinksOptions { candidates: out.candidates, ..self }),
                out.candidates@ == prior + Seq::new(
                    iter.index() as nat,
                    |i: int| UrlCandidate::Raw { url: all[i].url, base: all[i].base },
                ),
        {
            out.candidates.push(UrlCandidate::Raw { url: link.url, base: link.base });
            assert(out.candidates@ =~= prior + Seq::new(
                (iter.index() + 1) as nat,
                |i: int| UrlCandidate::Raw { url: all[i].url, base: all[i].base },
            ));
        }
        out
    }

    /// Overrides the base used to resolve raw relative URLs.
    pub fn base_url(self, base_url: Url) -> (r: EnqueueLinksOptions)
        ensures
            r == (EnqueueLinksOptions { base_url: Some(base_url), ..self }),
    {
        let mut out = self;
        out.base_url = Some(base_url);
        out
    }

    /// Applies a label to every child. Children do not inherit the parent label.
    pub fn label(self, label: &str) -> (r: EnqueueLinksOptions)
        ensures
            opt_view(r.label) == Some(label@),
            r == (EnqueueLinksOptions { label: r.label, ..self }),
    {
        let mut out = self;
        out.label = Some(owned(label));
        out
    }

    /// Applies user data to every child.
    pub fn user_data(self, user_data: UserData) -> (r: EnqueueLinksOptions)
        ensures
            r == (EnqueueLinksOptions { user_data: Some(user_data), ..self }),
    {
        let mut out = self;
        out.user_data = Some(user_data);
        out
    }

    /// Selects links from the associated document with a CSS selector.
    pub fn selector(self, selector: &str) -> (r: EnqueueLinksOptions)
        ensures
            opt_view(r.selector) == Some(selector@),
            r == (EnqueueLinksOptions { selector: r.selector, ..self }),
    {
        let mut out = self;
        out.selector = Some(owned(selector));
        out
    }

    /// Overrides the crawler policy's URL relationship strategy.
    pub fn strategy(self, strategy: EnqueueStrategy) -> (r: EnqueueLinksOptions)
        ensures
            r == (EnqueueLinksOptions { strategy: Some(strategy), ..self }),
    {
        let mut out = self;
        out.strategy = Some(strategy);
        out
    }

    /// Adds a URL include pattern. A candidate may match any glob or regex include.
    pub fn glob(self, pattern: GlobPattern) -> (r: EnqueueLinksOptions)
        ensures
            r.globs@ == self.globs@.push(pattern),
            r == (EnqueueLinksOptions { globs: r.globs, ..self }),
    {
        let mut out = self;
        out.globs.push(pattern);
        out
    }

    /// Adds a regular-expression URL include.
    pub fn regex(self, pattern: UrlRegex) -> (r: EnqueueLinksOptions)
        ensures
            r.regex@ == self.regex@.push(pattern),
            r == (EnqueueLinksOptions { regex: r.regex, ..self }),
    {
        let mut out = self;
        out.regex.push(pattern);
        out
    }

    /// Adds a URL exclusion. Exclusions take precedence over includes.
    pub fn exclude(self, pattern: UrlPattern) -> (r: EnqueueLinksOptions)
        ensures
            r.exclude@ == self.exclude@.push(pattern),
            r == (EnqueueLinksOptions { exclude: r.exclude, ..self }),
    {
        let mut out = self;
        out.exclude.push(pattern);
        out
    }

    /// Caps the number of candidates after URL deduplication.
    pub fn limit(self, limit: usize) -> (r: EnqueueLinksOptions)
        ensures
            r == (EnqueueLinksOptions { limit: Some(limit), ..self }),
    {
        let mut out = self;
        out.limit = Some(limit);
        out
    }

    /// Chooses whether children are inserted at the queue front.
    pub fn forefront(self, forefront: bool) -> (r: EnqueueLinksOptions)
        ensures
            r == (EnqueueLinksOptions { forefront, ..self }),
    {
        let mut out = self;
        out.forefront = forefront;
        out
    }

    /// Whether `r` says if links are to be extracted.
    pub open spec fn asks_for_links(self, has_extractor: bool, r: Result<bool, CrawlError>) -> bool {
        match r {
            Ok(extract) => {
                &&& self.selector is None || has_extractor
                &&& extract == (self.selector is Some || (self.candidates@.len() == 0
                    && has_extractor))
            },
            Err(e) => {
                &&& self.selector is Some && !has_extractor
                &&& e is NonRetryable
                &&& e->NonRetryable_0@ == seq![
                    LinkView {
                        message:
                            "selector-based enqueue requires an HTML or browser context; use urls()/raw_urls() on HTTP contexts"@,
                        status: None,
                    },
                ]
            },
        }
    }

    /// Whether links are to be extracted: where a selector asks for it, or where no candidates are
    /// given and there is an extractor. A selector without an extractor is an error.
    pub fn wants_extraction(&self, has_extractor: bool) -> (r: Result<bool, CrawlError>)
        ensures
            self.asks_for_links(has_extractor, r),
    {
        let extract: bool = self.selector.is_some() || (self.candidates.len() == 0
            && has_extractor);
        if extract && !has_extractor {
            return Err(
                CrawlError::non_retryable(
                    Cause::msg(
                        "selector-based enqueue requires an HTML or browser context; use urls()/raw_urls() on HTTP contexts",
                    ),
                ),
            );
        }
        Ok(extract)
    }

    /// The rules that the options and a policy set up for the children of `parent`.
    pub open spec fn rules(self, parent: UrlParts, policy: CrawlPolicy) -> RulesView {
        RulesView {
            strategy: match self.strategy {
                Some(s) => s,
                None => policy.strategy,
            },
            parent,
            base: opt_url(self.base_url),
            includes: include_views(self.globs@),
            regexes: regex_views(self.regex@),
            excludes: pattern_views(self.exclude@),
        }
    }

    /// The first pattern that cannot be compiled, the includes before the exclusions.
    pub open spec fn pattern_fault(self) -> Option<(Seq<char>, Seq<char>)> {
        match first_pattern_fault(include_views(self.globs@)) {
            Some(fault) => Some(fault),
            None => first_pattern_fault(pattern_views(self.exclude@)),
        }
    }

    /// Resolves and filters the candidates, drops repeated URLs and applies the limit.
    pub fn filter(&self, parent: &Url, policy: &CrawlPolicy) -> (r: Result<Filtered, CrawlError>)
        ensures
            match r {
                Err(e) => {
                    &&& self.pattern_fault() is Some
                    &&& e is NonRetryable
                    &&& e->NonRetryable_0@ == glob_error_links(self.pattern_fault().unwrap())
                },
                Ok(filtered) => {
                    let rules = self.rules(parent@, *policy);
                    let candidates = candidate_views(self.candidates@);
                    &&& self.pattern_fault() is None
                    &&& kept_views(filtered.kept@) == going_on(rules, candidates, self.limit)
                    &&& skipped_views(filtered.skipped@) == skipped_of(rules, candidates)
                    &&& forall|i: int|
                        0 <= i < filtered.kept@.len() && (#[trigger] filtered.kept@[i]).matched_by
                            is Some ==> filtered.kept@[i].matched_by.unwrap() < self.globs@.len()
                },
            },
    {
        let strategy: EnqueueStrategy = match self.strategy {
            Some(s) => s,
            None => policy.strategy,
        };
        let globs: Vec<Option<Globs>> = match compile_include_patterns(&self.globs) {
            Ok(compiled) => compiled,
            Err(e) => {
                return Err(CrawlError::non_retryable(e.into_cause()));
            },
        };
        let excludes: Vec<Option<Globs>> = match compile_patterns(&self.exclude) {
            Ok(compiled) => compiled,
            Err(e) => {
                return Err(CrawlError::non_retryable(e.into_cause()));
            },
        };
        let has_globs: bool = self.globs.len() > 0;
        let has_regex: bool = self.regex.len() > 0;
        let mut kept: Vec<Kept> = Vec::new();
        let mut skipped: Vec<SkippedUrl> = Vec::new();
        let ghost rules = self.rules(parent@, *policy);
        let ghost all = candidate_views(self.candidates@);
        let mut i: usize = 0;
        assert(all.subrange(0, 0) =~= seq![]);
        assert(kept_views(kept@) =~= seq![]);
        assert(skipped_views(skipped@) =~= seq![]);
        while i < self.candidates.len()
            invariant
                i <= self.candidates.len(),
                rules == self.rules(parent@, *policy),
                strategy == rules.strategy,
                all == candidate_views(self.candidates@),
                has_globs == (self.globs@.len() > 0),
                has_regex == (self.regex@.len() > 0),
                globs@.len() == self.globs@.len(),
                excludes@.len() == self.exclude@.len(),
                forall|k: int|
                    0 <= k < self.globs@.len() ==> is_compiled(
                        (#[trigger] self.globs@[k]).matched.pattern@,
                        globs@[k],
                    ),
                forall|k: int|
                    0 <= k < self.exclude@.len() ==> is_compiled(
                        (#[trigger] self.exclude@[k])@,
                        excludes@[k],
                    ),
                kept_views(kept@) == deduped(kept_of(rules, all.subrange(0, i as int))),
                skipped_views(skipped@) == skipped_of(rules, all.subrange(0, i as int)),
                forall|k: int|
                    0 <= k < kept@.len() && (#[trigger] kept@[k]).matched_by is Some
                        ==> kept@[k].matched_by.unwrap() < self.globs@.len(),
            decreases self.candidates.len() - i,
        {
            assert(all.subrange(0, i + 1).drop_last() =~= all.subrange(0, i as int));
            assert(all.subrange(0, i + 1).last() == self.candidates@[i as int]@);
            let ghost front = kept_of(rules, all.subrange(0, i as int));
            let judgement: Judgement = self.judge(
                &self.candidates[i],
                parent,
                strategy,
                &globs,
                &excludes,
                Ghost(*policy),
            );
            match judgement {
                Judgement::Skip(url, reason) => {
                    let ghost prior = skipped_views(skipped@);
                    skipped.push(SkippedUrl { url, reason });
                    assert(skipped_views(skipped@) =~= prior.push((url@, reason)));
                },
                Judgement::Keep(url, matched_by) => {
                    let known: bool = has_url(&kept, url.as_str());
                    proof {
                        lemma_dedup_keeps_texts(front, url@.text);
                        let grown = front.push((url@, include_number(matched_by)));
                        assert(grown.drop_last() =~= front);
                    }
                    if !known {
                        let ghost prior = kept_views(kept@);
                        kept.push(Kept { url, matched_by });
                        assert(kept_views(kept@) =~= prior.push((url@, include_number(matched_by))));
                    }
                },
            }
            i = i + 1;
        }
        assert(all.subrange(0, all.len() as int) =~= all);
        if let Some(limit) = self.limit {
            let ghost whole = kept_views(kept@);
            while kept.len() > limit
                invariant
                    kept@.len() <= whole.len(),
                    kept@.len() >= limit || kept@.len() == whole.len(),
                    kept_views(kept@) == whole.subrange(0, kept@.len() as int),
                    forall|k: int|
                        0 <= k < kept@.len() && (#[trigger] kept@[k]).matched_by is Some
                            ==> kept@[k].matched_by.unwrap() < self.globs@.len(),
                decreases kept@.len(),
            {
                let ghost prior = kept@;
                kept.pop();
                assert(kept@ =~= prior.drop_last());
                assert(kept_views(kept@) =~= kept_views(prior).drop_last());
                assert(kept_views(kept@) =~= whole.subrange(0, kept@.len() as int));
            }
            assert(whole.subrange(0, whole.len() as int) =~= whole);
        }
        Ok(Filtered { kept, skipped })
    }

    fn judge(
        &self,
        candidate: &UrlCandidate,
        parent: &Url,
        strategy: EnqueueStrategy,
        globs: &Vec<Option<Globs>>,
        excludes: &Vec<Option<Globs>>,
        policy: Ghost<CrawlPolicy>,
    ) -> (r: Judgement)
        requires
            strategy == self.rules(parent@, policy@).strategy,
            globs@.len() == self.globs@.len(),
            excludes@.len() == self.exclude@.len(),
            forall|k: int|
                0 <= k < self.globs@.len() ==> is_compiled(
                    (#[trigger] self.globs@[k]).matched.pattern@,
                    globs@[k],
                ),
            forall|k: int|
                0 <= k < self.exclude@.len() ==> is_compiled(
                    (#[trigger] self.exclude@[k])@,
                    excludes@[k],
                ),
        ensures
            match r {
                Judgement::Keep(url, matched_by) => verdict(
                    self.rules(parent@, policy@),
                    candidate@,
                ) == Verdict::Keep(url@, include_number(matched_by)) && (matched_by is Some
                    ==> matched_by.unwrap() < self.globs@.len()),
                Judgement::Skip(url, reason) => verdict(self.rules(parent@, policy@), candidate@)
                    == Verdict::Skip(url@, reason),
            },
    {
        let (url, apply_strategy): (Url, bool) = match candidate {
            UrlCandidate::Absolute(url) => (url.clone(), false),
            UrlCandidate::Raw { url, base } => {
                let own: &Url = match base {
                    Some(base) => base,
                    None => match &self.base_url {
                        Some(base) => base,
                        None => parent,
                    },
                };
                match resolve_raw_url(own, url.as_str()) {
                    Ok(resolved) => (resolved, true),
                    Err(_) => {
                        return Judgement::Skip(url.clone(), SkipReason::InvalidUrl);
                    },
                }
            },
        };
        if apply_strategy && !strategy_allows(strategy, parent, &url) {
            return Judgement::Skip(owned(url.as_str()), SkipReason::StrategyExcluded);
        }
        if let Some(reason) = first_exclusion(&self.exclude, excludes, url.as_str()) {
            return Judgement::Skip(owned(url.as_str()), reason);
        }
        let matched_by: Option<usize> = first_include(&self.globs, globs, url.as_str());
        let has_globs: bool = self.globs.len() > 0;
        if has_globs || self.regex.len() > 0 {
            if matched_by.is_none() && !any_regex(&self.regex, url.as_str()) {
                let reason: SkipReason = if has_globs {
                    SkipReason::GlobExcluded
                } else {
                    SkipReason::RegexExcluded
                };
                return Judgement::Skip(owned(url.as_str()), reason);
            }
        }
        Judgement::Keep(url, matched_by)
    }

    /// The overrides of the include pattern that matched, if one did.
    pub open spec fn overrides(self, matched_by: Option<usize>) -> Option<UrlMatch> {
        match matched_by {
            Some(i) => Some(self.globs@[i as int].matched),
            None => None,
        }
    }

    /// The label of a child: the pattern's, else the operation's.
    pub open spec fn child_label(self, matched_by: Option<usize>) -> Option<Seq<char>> {
        match self.overrides(matched_by) {
            Some(m) if m.label is Some => opt_view(m.label),
            _ => opt_view(self.label),
        }
    }

    /// The user data of a child: the pattern's, else the operation's, else none.
    pub open spec fn child_user_data(self, matched_by: Option<usize>) -> Map<Seq<char>, Seq<char>> {
        match self.overrides(matched_by) {
            Some(m) if m.user_data is Some => m.user_data.unwrap()@,
            _ => match self.user_data {
                Some(d) => d@,
                None => Map::empty(),
            },
        }
    }

    /// The method of a child: the pattern's, else GET.
    pub open spec fn child_method(self, matched_by: Option<usize>) -> Method {
        match self.overrides(matched_by) {
            Some(m) if m.method is Some => m.method.unwrap(),
            _ => Method::Get,
        }
    }

    /// The headers of a child: the pattern's, else none.
    pub open spec fn child_headers(self, matched_by: Option<usize>) -> Map<Seq<char>, Seq<Seq<u8>>> {
        match self.overrides(matched_by) {
            Some(m) if m.headers is Some => header_contents(m.headers.unwrap()),
            _ => Map::empty(),
        }
    }

    /// Builds the request of a child.
    pub fn build_child(&self, child: Kept, depth: u32) -> (r: Request)
        requires
            child.matched_by is Some ==> child.matched_by.unwrap() < self.globs@.len(),
        ensures
            r.url@ == child.url@,
            r.crawl_depth == depth,
            opt_view(r.label) == self.child_label(child.matched_by),
            r.user_data@ == self.child_user_data(child.matched_by),
            r.method == self.child_method(child.matched_by),
            header_contents(r.headers) == self.child_headers(child.matched_by),
            r.unique_key@ == unique_key_of(child.url@, self.child_method(child.matched_by), None),
            r.id@ == request_id(r.unique_key@),
            r.loaded_url is None,
            r.body is None,
            r.retry_count == 0,
            r.session_rotation_count == 0,
            r.max_retries is None,
            !r.no_retry,
            r.error_messages@.len() == 0,
            r.handled_at is None,
            r.state == RequestState::Unprocessed,
            !r.skip_navigation,
    {
        let mut builder: RequestBuilder = Request::builder().url(child.url).crawl_depth(depth);
        let mut label: Option<&String> = self.label.as_ref();
        let mut data: Option<&UserData> = self.user_data.as_ref();
        if let Some(i) = child.matched_by {
            let matched: &UrlMatch = &self.globs[i].matched;
            if matched.label.is_some() {
                label = matched.label.as_ref();
            }
            if matched.user_data.is_some() {
                data = matched.user_data.as_ref();
            }
            if let Some(method) = &matched.method {
                builder = builder.method(method.clone());
            }
            if let Some(headers) = &matched.headers {
                builder = builder.headers(clone_headers(headers));
            }
        }
        if let Some(text) = label {
            builder = builder.label(text.as_str());
        }
        if let Some(d) = data {
            builder = builder.user_data(d.clone());
        }
        assert(builder.headers_fit_spec());
        let r = builder.build();
        assert(r is Ok);
        let request = r.unwrap();
        assert(data is None ==> request.user_data@ =~= Map::empty());
        assert(self.child_headers(child.matched_by) =~= header_contents(request.headers));
        request
    }
}

/// What becomes of a candidate.
enum Judgement {
    Keep(Url, Option<usize>),
    Skip(String, SkipReason),
}

fn has_url(kept: &Vec<Kept>, text: &str) -> (r: bool)
    ensures
        r == text_kept(kept_views(kept@), text@),
{
    let ghost all = kept_views(kept@);
    let mut i: usize = 0;
    while i < kept.len()
        invariant
            i <= kept.len(),
            all == kept_views(kept@),
            forall|k: int| 0 <= k < i ==> (#[trigger] all[k]).0.text != text@,
        decreases kept.len() - i,
    {
        assert(all[i as int].0 == kept@[i as int].url@);
        if same(kept[i].url.as_str(), text) {
            return true;
        }
        i = i + 1;
    }
    false
}

/// The depth of the children of a request.
pub fn child_depth(parent_depth: u32) -> (r: u32)
    ensures
        r == if parent_depth < u32::MAX {
            (parent_depth + 1) as u32
        } else {
            u32::MAX
        },
{
    if parent_depth < u32::MAX {
        parent_depth + 1
    } else {
        u32::MAX
    }
}

/// Why a child of the given depth is skipped, if it lies too deep.
pub fn depth_verdict(policy: &CrawlPolicy, depth: u32) -> (r: Option<SkipReason>)
    ensures
        match policy.max_crawl_depth {
            Some(limit) if depth > limit => r == Some(SkipReason::MaxDepthExceeded { depth, limit }),
            _ => r is None,
        },
{
    match policy.max_crawl_depth {
        Some(limit) => if depth > limit {
            Some(SkipReason::MaxDepthExceeded { depth, limit })
        } else {
            None
        },
        None => None,
    }
}

/// Whether a request may join the crawl.
#[derive(Clone, Copy, Debug, PartialEq, Eq, Structural)]
pub enum Admission {
    /// A place was kept for it.
    Reserved,
    /// The queue cannot be counted, so nothing limits it.
    Untracked,
    /// The crawl is full.
    Rejected,
}

/// The number of requests that a queue has seen, if both of its counts can be read.
pub open spec fn count_spec(handled: Option<u64>, pending: Option<u64>) -> Option<u64> {
    match (handled, pending) {
        (Some(h), Some(p)) => Some(
            if h + p <= u64::MAX {
                (h + p) as u64
            } else {
                u64::MAX
            },
        ),
        _ => None,
    }
}

/// The number of requests that a queue has seen, if both of its counts can be read.
pub fn request_count(handled: Option<u64>, pending: Option<u64>) -> (r: Option<u64>)
    ensures
        r == count_spec(handled, pending),
{
    match (handled, pending) {
        (Some(h), Some(p)) => Some(
            if h <= u64::MAX - p {
                h + p
            } else {
                u64::MAX
            },
        ),
        _ => None,
    }
}

/// Decides on one request, given how many the crawl has admitted so far, if that is known.
pub fn reserve_request_slot(admitted: Option<u64>, limit: u64) -> (r: Admission)
    ensures
        r == match admitted {
            None => Admission::Untracked,
            Some(n) => if n >= limit {
                Admission::Rejected
            } else {
                Admission::Reserved
            },
        },
{
    match admitted {
        None => Admission::Untracked,
        Some(n) => if n >= limit {
            Admission::Rejected
        } else {
            Admission::Reserved
        },
    }
}

/// How many requests a limited crawl has admitted.
#[derive(Debug)]
pub struct AdmissionBook {
    pub admitted: u64,
}

impl AdmissionBook {
    /// A book in which nothing has been admitted.
    pub fn new() -> (r: AdmissionBook)
        ensures
            r.admitted == 0,
    {
        AdmissionBook { admitted: 0 }
    }

    /// How many requests count as admitted, where the queue holds `count`, if that is known.
    pub open spec fn known(self, count: Option<u64>) -> Option<u64> {
        match count {
            Some(n) => Some(
                if n > self.admitted {
                    n
                } else {
                    self.admitted
                },
            ),
            None => None,
        }
    }

    /// Whether asking for a place gives `admission`, and leaves the book as `after`.
    pub open spec fn has_reserved(
        self,
        count: Option<u64>,
        limit: u64,
        admission: Admission,
        after: AdmissionBook,
    ) -> bool {
        match self.known(count) {
            None => admission == Admission::Untracked && after == self,
            Some(n) => if n >= limit {
                admission == Admission::Rejected && after.admitted == n
            } else {
                admission == Admission::Reserved && after.admitted == n + 1
            },
        }
    }

    /// Asks for a place, where the queue says how many requests it has handled and how many are
    /// pending.
    pub fn reserve(&mut self, handled: Option<u64>, pending: Option<u64>, limit: u64) -> (r:
        Admission)
        ensures
            old(self).has_reserved(count_spec(handled, pending), limit, r, *final(self)),
    {
        let known: Option<u64> = match request_count(handled, pending) {
            Some(n) => {
                if n > self.admitted {
                    self.admitted = n;
                }
                Some(self.admitted)
            },
            None => None,
        };
        let admission: Admission = reserve_request_slot(known, limit);
        if let Admission::Reserved = admission {
            self.admitted = self.admitted + 1;
        }
        admission
    }

    /// Gives a place back that was not used.
    pub fn give_back(&mut self)
        ensures
            final(self).admitted == if old(self).admitted == 0 {
                0
            } else {
                (old(self).admitted - 1) as u64
            },
    {
        if self.admitted > 0 {
            self.admitted = self.admitted - 1;
        }
    }
}

/// What can happen to an admission book.
pub enum BookMove {
    /// A place was asked for.
    Reserve { count: Option<u64>, admission: Admission },
    /// A place was given back.
    GiveBack,
}

/// How many places are taken after the moves `by`.
pub open spec fn places_taken(by: Seq<BookMove>) -> int
    decreases by.len(),
{
    if by.len() == 0 {
        0
    } else {
        places_taken(by.drop_last()) + match by.last() {
            BookMove::Reserve { count: _, admission } => if admission == Admission::Reserved {
                1int
            } else {
                0
            },
            BookMove::GiveBack => -1int,
        }
    }
}

/// Whether a book goes through `books` by the moves `by`: only places that are taken are given back.
pub open spec fn keeps_book(books: Seq<AdmissionBook>, by: Seq<BookMove>, limit: u64) -> bool {
    &&& books.len() == by.len() + 1
    &&& books[0].admitted == 0
    &&& forall|i: int|
        0 <= i < by.len() ==> match #[trigger] by[i] {
            BookMove::Reserve { count, admission } => books[i].has_reserved(
                count,
                limit,
                admission,
                books[i + 1],
            ),
            BookMove::GiveBack => {
                &&& places_taken(by.subrange(0, i)) > 0
                &&& books[i + 1].admitted == if books[i].admitted == 0 {
                    0
                } else {
                    (books[i].admitted - 1) as u64
                }
            },
        }
}

/// No more places are taken than the limit, at any time, whatever the queue says it holds.
pub proof fn no_more_than_the_limit_are_admitted(
    books: Seq<AdmissionBook>,
    by: Seq<BookMove>,
    limit: u64,
)
    requires
        keeps_book(books, by, limit),
    ensures
        0 <= places_taken(by) <= limit,
        places_taken(by) <= books.last().admitted,
    decreases by.len(),
{
    if by.len() > 0 {
        let last = by.len() - 1;
        let (front, fewer) = (books.drop_last(), by.drop_last());
        assert(keeps_book(front, fewer, limit)) by {
            assert forall|i: int| 0 <= i < fewer.len() implies match #[trigger] fewer[i] {
                BookMove::Reserve { count, admission } => front[i].has_reserved(
                    count,
                    limit,
                    admission,
                    front[i + 1],
                ),
                BookMove::GiveBack => {
                    &&& places_taken(fewer.subrange(0, i)) > 0
                    &&& front[i + 1].admitted == if front[i].admitted == 0 {
                        0
                    } else {
                        (front[i].admitted - 1) as u64
                    }
                },
            } by {
                assert(by[i] == fewer[i]);
                assert(fewer.subrange(0, i) =~= by.subrange(0, i));
            }
        }
        no_more_than_the_limit_are_admitted(front, fewer, limit);
        assert(by.subrange(0, last) =~= fewer);
        assert(by[last] == by.last());
    }
}

/// Why a request without a place is skipped.
pub fn admission_verdict(admission: Admission, limit: u64) -> (r: Option<SkipReason>)
    ensures
        match admission {
            Admission::Rejected => r == Some(SkipReason::MaxRequestsReached { limit }),
            _ => r is None,
        },
{
    match admission {
        Admission::Rejected => Some(SkipReason::MaxRequestsReached { limit }),
        _ => None,
    }
}

/// What a built child still needs before it joins the batch.
#[derive(Debug, PartialEq, Eq)]
pub enum ChildCheck {
    /// It is skipped.
    Skip(SkipReason),
    /// A place has to be asked for.
    Admit {
        /// The most requests of the crawl.
        limit: u64,
    },
    /// The transform comes next.
    Transform,
}

/// What a child of a depth needs next, where the depth and the number of requests may be limited.
pub open spec fn check_of(
    max_depth: Option<u32>,
    max_requests: Option<u64>,
    depth: u32,
    admission: Option<Admission>,
) -> ChildCheck {
    match max_depth {
        Some(limit) if depth > limit => ChildCheck::Skip(
            SkipReason::MaxDepthExceeded { depth, limit },
        ),
        _ => match (max_requests, admission) {
            (None, _) => ChildCheck::Transform,
            (Some(limit), None) => ChildCheck::Admit { limit },
            (Some(limit), Some(Admission::Rejected)) => ChildCheck::Skip(
                SkipReason::MaxRequestsReached { limit },
            ),
            (Some(_), Some(_)) => ChildCheck::Transform,
        },
    }
}

/// Decides what a child needs next: its depth is checked first, then a place is asked for where
/// the crawl is limited, and then the transform may change it. `admission` is the answer to the
/// question for a place, once it is there.
pub fn next_check(policy: &CrawlPolicy, depth: u32, admission: Option<Admission>) -> (r: ChildCheck)
    ensures
        r == check_of(policy.max_crawl_depth, policy.max_requests_per_crawl, depth, admission),
{
    if let Some(reason) = depth_verdict(policy, depth) {
        return ChildCheck::Skip(reason);
    }
    match policy.max_requests_per_crawl {
        None => ChildCheck::Transform,
        Some(limit) => match admission {
            None => ChildCheck::Admit { limit },
            Some(answer) => match admission_verdict(answer, limit) {
                Some(reason) => ChildCheck::Skip(reason),
                None => ChildCheck::Transform,
            },
        },
    }
}

/// Whether `r` follows the transform of a child that had the key `prior_key` before it.
pub open spec fn follows_transform(
    request: Request,
    prior_key: Seq<char>,
    result: TransformResult,
    r: Result<Request, SkipReason>,
) -> bool {
    match (result, r) {
        (TransformResult::Skip { reason }, Err(e)) => e == (SkipReason::TransformRejected {
            reason,
        }),
        (TransformResult::Enqueue, Ok(out)) => {
            &&& if request.unique_key@ == prior_key {
                &&& out.unique_key@ == unique_key_of(
                    request.url@,
                    request.method,
                    opt_body_view(request.body),
                )
                &&& out.id@ == request_id(out.unique_key@)
            } else {
                out.unique_key == request.unique_key && out.id == request.id
            }
            &&& out == (Request { unique_key: out.unique_key, id: out.id, ..request })
        },
        _ => false,
    }
}

/// What follows the transform of a child that had the key `prior_key` before it: a rejected child
/// is skipped, and one whose key the transform left alone gets the key of what it has become.
pub fn after_transform(request: Request, prior_key: &str, result: TransformResult) -> (r: Result<
    Request,
    SkipReason,
>)
    ensures
        follows_transform(request, prior_key@, result, r),
{
    match result {
        TransformResult::Skip { reason } => Err(SkipReason::TransformRejected { reason }),
        TransformResult::Enqueue => {
            let mut out = request;
            if same(out.unique_key.as_str(), prior_key) {
                out.unique_key = Request::compute_unique_key(
                    &out.url,
                    &out.method,
                    out.body.as_ref(),
                );
                out.id = RequestId::from_unique_key(out.unique_key.as_str());
            }
            Ok(out)
        },
    }
}

/// Result of enqueueing a URL collection.
#[derive(Debug)]
pub struct EnqueueResult {
    /// Newly accepted requests.
    pub added: Vec<ProcessedRequest>,
    /// Rejected or duplicate candidates.
    pub skipped: Vec<SkippedUrl>,
}

impl EnqueueResult {
    /// Number of newly accepted requests.
    pub fn added_count(&self) -> (r: usize)
        ensures
            r == self.added@.len(),
    {
        self.added.len()
    }

    /// Number of skipped candidates.
    pub fn skipped_count(&self) -> (r: usize)
        ensures
            r == self.skipped@.len(),
    {
        self.skipped.len()
    }
}

/// Whether the queue took a request that it did not know.
pub open spec fn is_new(request: ProcessedRequest) -> bool {
    !request.was_already_present && !request.was_already_handled
}

/// The requests that the queue did not know.
pub open spec fn added_of(processed: Seq<ProcessedRequest>) -> Seq<ProcessedRequest>
    decreases processed.len(),
{
    if processed.len() == 0 {
        seq![]
    } else if is_new(processed.last()) {
        added_of(processed.drop_last()).push(processed.last())
    } else {
        added_of(processed.drop_last())
    }
}

/// The requests that the queue knew, under their URLs, or their keys where a URL is missing.
pub open spec fn duplicates_of(processed: Seq<ProcessedRequest>, urls: Seq<Seq<char>>) -> Seq<
    (Seq<char>, SkipReason),
>
    decreases processed.len(),
{
    if processed.len() == 0 {
        seq![]
    } else if is_new(processed.last()) {
        duplicates_of(processed.drop_last(), urls)
    } else {
        let at = processed.len() - 1;
        duplicates_of(processed.drop_last(), urls).push(
            (
                if at < urls.len() {
                    urls[at]
                } else {
                    processed.last().unique_key@
                },
                SkipReason::DuplicateUniqueKey,
            ),
        )
    }
}

/// The numbers of the requests whose kept places are taken: the new ones.
pub open spec fn committed_of(processed: Seq<ProcessedRequest>, reserved: Seq<bool>) -> Seq<usize>
    decreases processed.len(),
{
    if processed.len() == 0 {
        seq![]
    } else {
        let at = processed.len() - 1;
        let front = committed_of(processed.drop_last(), reserved);
        if is_new(processed.last()) && at < reserved.len() && reserved[at] {
            front.push(at as usize)
        } else {
            front
        }
    }
}

/// What a batch of added requests comes to.
#[derive(Debug)]
pub struct Settled {
    pub added: Vec<ProcessedRequest>,
    pub log: SkipLog,
    /// The numbers of the requests whose kept places are taken; the other places are given back.
    pub committed: Vec<usize>,
}

/// Sorts what the queue answered to a batch: new requests were added, known ones are reported as
/// duplicates, and only new ones use up the places that were kept for them.
pub fn settle_batch(
    processed: Vec<ProcessedRequest>,
    urls: &Vec<String>,
    reserved: &Vec<bool>,
    log: SkipLog,
) -> (r: Settled)
    ensures
        r.added@ == added_of(processed@),
        skipped_views(r.log.skipped@) == skipped_views(log.skipped@) + duplicates_of(
            processed@,
            views(urls@),
        ),
        r.log.reported == log.reported,
        r.committed@ == committed_of(processed@, reserved@),
{
    let ghost all = processed@;
    let ghost prior = skipped_views(log.skipped@);
    let mut added: Vec<ProcessedRequest> = Vec::new();
    let mut out: SkipLog = log;
    let mut committed: Vec<usize> = Vec::new();
    let mut i: usize = 0;
    let total: usize = processed.len();
    assert(all.subrange(0, 0) =~= seq![]);
    assert(prior + duplicates_of(seq![], views(urls@)) =~= prior);
    for request in iter: processed
        invariant
            iter.seq() == all,
            i == iter.index(),
            total == all.len(),
            added@ == added_of(all.subrange(0, i as int)),
            skipped_views(out.skipped@) == prior + duplicates_of(
                all.subrange(0, i as int),
                views(urls@),
            ),
            out.reported == log.reported,
            committed@ == committed_of(all.subrange(0, i as int), reserved@),
    {
        assert(request == all[i as int]);
        assert(all.subrange(0, i + 1).drop_last() =~= all.subrange(0, i as int));
        assert(all.subrange(0, i + 1).last() == request);
        let ghost dups = duplicates_of(all.subrange(0, i as int), views(urls@));
        if request.was_already_present || request.was_already_handled {
            let url: String = if i < urls.len() {
                urls[i].clone()
            } else {
                request.unique_key.clone()
            };
            let ghost before = skipped_views(out.skipped@);
            out.report_skip(url, SkipReason::DuplicateUniqueKey);
            assert(skipped_views(out.skipped@) =~= before.push((url@, SkipReason::DuplicateUniqueKey)));
            assert(prior + dups.push((url@, SkipReason::DuplicateUniqueKey)) =~= (prior
                + dups).push((url@, SkipReason::DuplicateUniqueKey)));
        } else {
            if i < reserved.len() && reserved[i] {
                committed.push(i);
            }
            added.push(request);
        }
        i = i + 1;
    }
    assert(all.subrange(0, all.len() as int) =~= all);
    Settled { added, log: out, committed }
}

/// Every request of a batch is either added or reported as a duplicate.
pub proof fn every_processed_request_is_accounted_for(
    processed: Seq<ProcessedRequest>,
    urls: Seq<Seq<char>>,
    reserved: Seq<bool>,
)
    ensures
        added_of(processed).len() + duplicates_of(processed, urls).len() == processed.len(),
        committed_of(processed, reserved).len() <= added_of(processed).len(),
    decreases processed.len(),
{
    if processed.len() > 0 {
        every_processed_request_is_accounted_for(processed.drop_last(), urls, reserved);
    }
}

/// What becomes of a URL. One that the strategy does not permit is skipped for that; else one that an
/// exclusion matches for the kind of the first such pattern; else it goes on where nothing says which
/// URLs are wanted, where an include pattern matches, with the number of the first that does, or where
/// a regex matches; and else it is skipped for the kind of patterns that say what is wanted.
pub proof fn what_becomes_of_a_url(
    rules: RulesView,
    url: UrlParts,
    apply_strategy: bool,
    excluding: int,
    including: int,
)
    requires
        0 <= excluding <= rules.excludes.len(),
        forall|k: int| 0 <= k < excluding ==> !(#[trigger] rules.excludes[k]).matches(url.text),
        excluding < rules.excludes.len() ==> rules.excludes[excluding].matches(url.text),
        0 <= including <= rules.includes.len(),
        forall|k: int| 0 <= k < including ==> !(#[trigger] rules.includes[k]).matches(url.text),
        including < rules.includes.len() ==> rules.includes[including].matches(url.text),
    ensures
        ({
            let r = judged(rules, url, apply_strategy);
            let barred = apply_strategy && !strategy_permits(rules.strategy, rules.parent, url);
            let listed = exists|i: int|
                0 <= i < rules.regexes.len() && regex_matches(#[trigger] rules.regexes[i], url.text);
            &&& barred ==> r == Verdict::Skip(url.text, SkipReason::StrategyExcluded)
            &&& !barred && excluding < rules.excludes.len() ==> {
                &&& rules.excludes[excluding] is Glob ==> r == Verdict::Skip(
                    url.text,
                    SkipReason::GlobExcluded,
                )
                &&& rules.excludes[excluding] is Regex ==> r == Verdict::Skip(
                    url.text,
                    SkipReason::RegexExcluded,
                )
            }
            &&& !barred && excluding == rules.excludes.len() ==> {
                &&& including < rules.includes.len() ==> r == Verdict::Keep(url, Some(including))
                &&& including == rules.includes.len() && listed ==> r == Verdict::Keep(url, None)
                &&& rules.includes.len() == 0 && rules.regexes.len() == 0 ==> r == Verdict::Keep(
                    url,
                    None,
                )
                &&& including == rules.includes.len() && !listed && rules.includes.len() > 0 ==> r
                    == Verdict::Skip(url.text, SkipReason::GlobExcluded)
                &&& !listed && rules.includes.len() == 0 && rules.regexes.len() > 0 ==> r
                    == Verdict::Skip(url.text, SkipReason::RegexExcluded)
            }
        }),
{
    lemma_first_match_is(rules.excludes, url.text, 0, excluding);
    lemma_first_match_is(rules.includes, url.text, 0, including);
    assert(any_regex_matches(rules.regexes, url.text) <==> exists|i: int|
        0 <= i < rules.regexes.len() && regex_matches(#[trigger] rules.regexes[i], url.text));
}

proof fn lemma_first_match_is(patterns: Seq<PatternView>, text: Seq<char>, from: int, at: int)
    requires
        0 <= from <= at <= patterns.len(),
        forall|k: int| from <= k < at ==> !(#[trigger] patterns[k]).matches(text),
        at < patterns.len() ==> patterns[at].matches(text),
    ensures
        first_match(patterns, text, from) == if at < patterns.len() {
            Some(at)
        } else {
            None::<int>
        },
    decreases patterns.len() - from,
{
    if from < at {
        lemma_first_match_is(patterns, text, from + 1, at);
    }
}

/// A URL in full is judged as it is and without the strategy. A raw one is judged with the strategy:
/// as it is where it can be read alone, and else resolved against its own base, against that of the
/// options, or against the parent; with a colon in its first segment it is none.
pub proof fn how_candidates_are_read(
    rules: RulesView,
    raw: Seq<char>,
    own: Option<UrlParts>,
    url: UrlParts,
)
    ensures
        verdict(rules, CandidateView::Absolute(url)) == judged(rules, url, false),
        parsed_url(raw) is Ok ==> verdict(rules, CandidateView::Raw(raw, own)) == judged(
            rules,
            parsed_url(raw)->Ok_0,
            true,
        ),
        parsed_url(raw) is Err && first_path_segment(raw).contains(':') ==> verdict(
            rules,
            CandidateView::Raw(raw, own),
        ) == Verdict::Skip(raw, SkipReason::InvalidUrl),
        parsed_url(raw) is Err && !first_path_segment(raw).contains(':') ==> {
            let base = if own is Some {
                own.unwrap()
            } else if rules.base is Some {
                rules.base.unwrap()
            } else {
                rules.parent
            };
            match resolved_url(base.text, raw) {
                Ok(found) => verdict(rules, CandidateView::Raw(raw, own)) == judged(
                    rules,
                    found,
                    true,
                ),
                Err(_) => verdict(rules, CandidateView::Raw(raw, own)) == Verdict::Skip(
                    raw,
                    SkipReason::InvalidUrl,
                ),
            }
        },
{
}

/// The first segment of a reference ends at the first slash, question mark or number sign.
pub proof fn where_first_segments_end(segment: Seq<char>, mark: char, rest: Seq<char>)
    requires
        mark == '/' || mark == '?' || mark == '#',
        forall|i: int|
            0 <= i < segment.len() ==> #[trigger] segment[i] != '/' && segment[i] != '?' && segment[i]
                != '#',
    ensures
        first_path_segment(segment) == segment,
        first_path_segment(segment + seq![mark] + rest) == segment,
{
    let whole = segment + seq![mark] + rest;
    text_before_a_mark(segment, rest, '?');
    text_before_a_mark(segment, rest, '#');
    text_before_a_mark(segment, rest, '/');
    let asked = before_char(whole, '?');
    if mark == '?' {
        assert(asked == segment);
    } else {
        lemma_before_keeps_front(segment.push(mark), rest, '?');
        assert(segment.push(mark) + rest =~= whole);
        let tail = before_char(rest, '?');
        assert(asked == segment.push(mark) + tail);
        assert(segment.push(mark) + tail =~= segment + seq![mark] + tail);
        text_before_a_mark(segment, tail, mark);
        if mark == '/' {
            lemma_before_keeps_front(segment.push(mark), tail, '#');
            let end = before_char(tail, '#');
            assert(segment.push(mark) + end =~= segment + seq![mark] + end);
            text_before_a_mark(segment, end, '/');
        }
    }
}

proof fn lemma_before_keeps_front(front: Seq<char>, rest: Seq<char>, mark: char)
    requires
        forall|i: int| 0 <= i < front.len() ==> #[trigger] front[i] != mark,
    ensures
        before_char(front + rest, mark) == front + before_char(rest, mark),
    decreases front.len(),
{
    if front.len() > 0 {
        let all = front + rest;
        assert(all[0] == front[0]);
        assert(all.drop_first() =~= front.drop_first() + rest);
        lemma_before_keeps_front(front.drop_first(), rest, mark);
        assert(seq![front[0]] + (front.drop_first() + before_char(rest, mark)) =~= front
            + before_char(rest, mark));
    } else {
        assert(front + rest =~= rest);
        assert(front + before_char(rest, mark) =~= before_char(rest, mark));
    }
}

/// Candidates are judged one by one and keep their order, the kept and the skipped.
pub proof fn candidates_keep_their_order(
    rules: RulesView,
    first: Seq<CandidateView>,
    second: Seq<CandidateView>,
    candidate: CandidateView,
)
    ensures
        kept_of(rules, first + second) == kept_of(rules, first) + kept_of(rules, second),
        skipped_of(rules, first + second) == skipped_of(rules, first) + skipped_of(rules, second),
        match verdict(rules, candidate) {
            Verdict::Keep(url, matched_by) => kept_of(rules, seq![candidate]) == seq![
                (url, matched_by),
            ] && skipped_of(rules, seq![candidate]).len() == 0,
            Verdict::Skip(text, reason) => skipped_of(rules, seq![candidate]) == seq![
                (text, reason),
            ] && kept_of(rules, seq![candidate]).len() == 0,
        },
    decreases second.len(),
{
    reveal_with_fuel(kept_of, 2);
    reveal_with_fuel(skipped_of, 2);
    assert(seq![candidate].drop_last() =~= Seq::<CandidateView>::empty());
    if let Verdict::Keep(url, matched_by) = verdict(rules, candidate) {
        assert(kept_of(rules, seq![candidate]) =~= seq![(url, matched_by)]);
    }
    if let Verdict::Skip(text, reason) = verdict(rules, candidate) {
        assert(skipped_of(rules, seq![candidate]) =~= seq![(text, reason)]);
    }
    if second.len() > 0 {
        candidates_keep_their_order(rules, first, second.drop_last(), candidate);
        assert((first + second).last() == second.last());
        assert((first + second).drop_last() =~= first + second.drop_last());
        assert(kept_of(rules, first + second) =~= kept_of(rules, first) + kept_of(rules, second));
        assert(skipped_of(rules, first + second) =~= skipped_of(rules, first) + skipped_of(
            rules,
            second,
        ));
    } else {
        assert(first + second =~= first);
        assert(kept_of(rules, first) + kept_of(rules, second) =~= kept_of(rules, first));
        assert(skipped_of(rules, first) + skipped_of(rules, second) =~= skipped_of(rules, first));
    }
}

/// Of several kept candidates with one URL the first goes on, and every URL that is kept goes on once
/// where there is no limit; a limit takes from the end.
pub proof fn first_occurrences_go_on(
    kept: Seq<(UrlParts, Option<int>)>,
    at: int,
    limit: Option<usize>,
    i: int,
)
    requires
        0 <= at < kept.len(),
        forall|k: int| 0 <= k < at ==> (#[trigger] kept[k]).0.text != kept[at].0.text,
    ensures
        deduped(kept).contains(kept[at]),
        deduped(kept).len() <= kept.len(),
        limit is None ==> limited(kept, limit) == kept,
        limit is Some ==> limited(kept, limit).len() == if kept.len() < limit.unwrap() {
            kept.len()
        } else {
            limit.unwrap() as nat
        },
        0 <= i < limited(kept, limit).len() ==> limited(kept, limit)[i] == kept[i],
    decreases kept.len(),
{
    let front = kept.drop_last();
    if at < kept.len() - 1 {
        assert(front[at] == kept[at]);
        assert forall|k: int| 0 <= k < at implies (#[trigger] front[k]).0.text != front[at].0.text by {
            assert(front[k] == kept[k]);
        }
        first_occurrences_go_on(front, at, limit, i);
        let place = choose|p: int| 0 <= p < deduped(front).len() && deduped(front)[p] == kept[at];
        assert(deduped(kept)[place] == kept[at]);
    } else {
        assert(!text_kept(front, kept.last().0.text)) by {
            if text_kept(front, kept.last().0.text) {
                let k = choose|k: int|
                    0 <= k < front.len() && (#[trigger] front[k]).0.text == kept.last().0.text;
                assert(front[k] == kept[k]);
            }
        }
        assert(deduped(kept)[deduped(front).len() as int] == kept[at]);
        lemma_deduped_length(front);
    }
}

proof fn lemma_deduped_length(kept: Seq<(UrlParts, Option<int>)>)
    ensures
        deduped(kept).len() <= kept.len(),
        forall|i: int| 0 <= i < deduped(kept).len() ==> kept.contains(#[trigger] deduped(kept)[i]),
    decreases kept.len(),
{
    if kept.len() > 0 {
        let front = kept.drop_last();
        lemma_deduped_length(front);
        assert forall|i: int| 0 <= i < deduped(kept).len() implies kept.contains(
            #[trigger] deduped(kept)[i],
        ) by {
            if i < deduped(front).len() {
                let k = choose|k: int| 0 <= k < front.len() && front[k] == deduped(front)[i];
                assert(kept[k] == deduped(kept)[i]);
            } else {
                assert(kept[kept.len() - 1] == deduped(kept)[i]);
            }
        }
    }
}

/// What goes on was kept: nothing goes on that no candidate gave, and without a limit a URL that was
/// kept first goes on.
pub proof fn what_goes_on(
    rules: RulesView,
    candidates: Seq<CandidateView>,
    limit: Option<usize>,
    i: int,
    at: int,
)
    ensures
        0 <= i < going_on(rules, candidates, limit).len() ==> kept_of(rules, candidates).contains(
            going_on(rules, candidates, limit)[i],
        ),
        limit is None && 0 <= at < kept_of(rules, candidates).len() && (forall|k: int|
            0 <= k < at ==> (#[trigger] kept_of(rules, candidates)[k]).0.text != kept_of(
                rules,
                candidates,
            )[at].0.text) ==> going_on(rules, candidates, limit).contains(
            kept_of(rules, candidates)[at],
        ),
        limit is Some ==> going_on(rules, candidates, limit).len() <= limit.unwrap(),
{
    let kept = kept_of(rules, candidates);
    lemma_deduped_length(kept);
    if 0 <= i < going_on(rules, candidates, limit).len() {
        assert(going_on(rules, candidates, limit)[i] == deduped(kept)[i]);
    }
    if limit is None && 0 <= at < kept.len() && (forall|k: int|
        0 <= k < at ==> (#[trigger] kept[k]).0.text != kept[at].0.text) {
        first_occurrences_go_on(kept, at, limit, i);
    }
}

/// The strategy of the options counts, and that of the crawl where they have none; the patterns are
/// those of the options.
pub proof fn where_rules_come_from(
    options: EnqueueLinksOptions,
    parent: UrlParts,
    policy: CrawlPolicy,
)
    ensures
        options.strategy is Some ==> options.rules(parent, policy).strategy
            == options.strategy.unwrap(),
        options.strategy is None ==> options.rules(parent, policy).strategy == policy.strategy,
        options.rules(parent, policy).parent == parent,
        options.base_url is Some ==> options.rules(parent, policy).base == Some(
            options.base_url.unwrap()@,
        ),
        options.base_url is None ==> options.rules(parent, policy).base is None,
        options.rules(parent, policy).includes.len() == options.globs@.len(),
        options.rules(parent, policy).regexes.len() == options.regex@.len(),
        options.rules(parent, policy).excludes.len() == options.exclude@.len(),
        forall|i: int|
            0 <= i < options.globs@.len() ==> (#[trigger] options.rules(parent, policy).includes[i])
                == options.globs@[i].matched.pattern@,
        forall|i: int|
            0 <= i < options.regex@.len() ==> (#[trigger] options.rules(parent, policy).regexes[i])
                == options.regex@[i]@,
        forall|i: int|
            0 <= i < options.exclude@.len() ==> (#[trigger] options.rules(parent, policy).excludes[i])
                == options.exclude@[i]@,
{
}

/// What a child gets: what the pattern that matched it sets, and else what the options set for all;
/// a method or headers only from the pattern, and else a plain GET.
pub proof fn what_a_child_gets(options: EnqueueLinksOptions, i: usize)
    requires
        i < options.globs@.len(),
    ensures
        ({
            let own = options.globs@[i as int].matched;
            &&& own.label is Some ==> options.child_label(Some(i)) == Some(own.label.unwrap()@)
            &&& own.label is None && options.label is Some ==> options.child_label(Some(i)) == Some(
                options.label.unwrap()@,
            )
            &&& own.label is None && options.label is None ==> options.child_label(Some(i)) is None
            &&& own.user_data is Some ==> options.child_user_data(Some(i))
                == own.user_data.unwrap()@
            &&& own.user_data is None && options.user_data is Some ==> options.child_user_data(
                Some(i),
            ) == options.user_data.unwrap()@
            &&& own.method is Some ==> options.child_method(Some(i)) == own.method.unwrap()
            &&& own.method is None ==> options.child_method(Some(i)) is Get
            &&& own.headers is Some ==> options.child_headers(Some(i)) == header_contents(
                own.headers.unwrap(),
            )
            &&& own.headers is None ==> options.child_headers(Some(i)).dom() == Set::<Seq<char>>::empty()
        }),
        options.label is Some ==> options.child_label(None) == Some(options.label.unwrap()@),
        options.label is None ==> options.child_label(None) is None,
        options.user_data is Some ==> options.child_user_data(None) == options.user_data.unwrap()@,
        options.user_data is None ==> options.child_user_data(None).dom() == Set::<Seq<char>>::empty(),
        options.child_method(None) is Get,
        options.child_headers(None).dom() == Set::<Seq<char>>::empty(),
{
}

/// A child below the deepest level is skipped before anything else; without a limit on requests it
/// needs no place; with one a place is asked for first, and a refused child is skipped.
pub proof fn what_a_child_needs(
    max_depth: Option<u32>,
    max_requests: Option<u64>,
    depth: u32,
    admission: Option<Admission>,
)
    ensures
        ({
            let r = check_of(max_depth, max_requests, depth, admission);
            let deep = max_depth is Some && depth > max_depth.unwrap();
            &&& deep ==> r == ChildCheck::Skip(
                SkipReason::MaxDepthExceeded { depth, limit: max_depth.unwrap() },
            )
            &&& !deep && max_requests is None ==> r == ChildCheck::Transform
            &&& !deep && max_requests is Some && admission is None ==> r == (ChildCheck::Admit {
                limit: max_requests.unwrap(),
            })
            &&& !deep && max_requests is Some && admission == Some(Admission::Rejected) ==> r
                == ChildCheck::Skip(
                SkipReason::MaxRequestsReached { limit: max_requests.unwrap() },
            )
            &&& !deep && max_requests is Some && (admission == Some(Admission::Reserved) || admission
                == Some(Admission::Untracked)) ==> r == ChildCheck::Transform
        }),
{
}

/// A rejected child is skipped with the reason of its rejection. One that goes on is what the
/// transform made of it; only its key and identifier follow its new URL, method and body, and only
/// where the transform set no key of its own.
pub proof fn what_follows_a_transform(
    request: Request,
    prior_key: Seq<char>,
    result: TransformResult,
    r: Result<Request, SkipReason>,
)
    requires
        follows_transform(request, prior_key, result, r),
    ensures
        result is Skip <==> r is Err,
        result is Skip ==> r->Err_0 == (SkipReason::TransformRejected { reason: result->reason }),
        r is Ok ==> {
            let out = r->Ok_0;
            &&& out.url == request.url && out.method == request.method && out.body == request.body
            &&& out.label == request.label && out.user_data == request.user_data
            &&& out.crawl_depth == request.crawl_depth && out.headers == request.headers
            &&& request.unique_key@ != prior_key ==> out.unique_key@ == request.unique_key@
                && out.id@ == request.id@
            &&& request.unique_key@ == prior_key ==> out.unique_key@ == unique_key_of(
                request.url@,
                request.method,
                opt_body_view(request.body),
            ) && out.id@ == request_id(out.unique_key@)
        },
{
}

/// A place is taken exactly while fewer than the limit are known: the larger of what the queue says
/// it holds, handled and pending together, and of what was admitted. Where the queue does not say,
/// nothing is counted.
pub proof fn places_go_by_what_is_known(
    book: AdmissionBook,
    handled: Option<u64>,
    pending: Option<u64>,
    limit: u64,
    admission: Admission,
    after: AdmissionBook,
)
    requires
        book.has_reserved(count_spec(handled, pending), limit, admission, after),
    ensures
        handled is None || pending is None <==> admission == Admission::Untracked,
        admission == Admission::Untracked ==> after.admitted == book.admitted,
        handled is Some && pending is Some ==> {
            let queued = handled.unwrap() + pending.unwrap();
            &&& queued >= limit ==> admission == Admission::Rejected
            &&& book.admitted >= limit ==> admission == Admission::Rejected
            &&& queued < limit && book.admitted < limit ==> admission == Admission::Reserved
            &&& admission == Admission::Reserved && queued >= book.admitted ==> after.admitted
                == queued + 1
            &&& admission == Admission::Reserved && queued < book.admitted ==> after.admitted
                == book.admitted + 1
        },
{
}

/// A processed request was added exactly where it was neither present nor handled before; any other is
/// a duplicate, under the URL that it was enqueued with. A reserved place is used up by an added one.
pub proof fn what_a_batch_settles(
    processed: Seq<ProcessedRequest>,
    request: ProcessedRequest,
    urls: Seq<Seq<char>>,
    reserved: Seq<bool>,
)
    requires
        processed.len() < usize::MAX,
    ensures
        ({
            let all = processed.push(request);
            let at = processed.len() as int;
            let fresh = !request.was_already_present && !request.was_already_handled;
            &&& fresh ==> added_of(all) == added_of(processed).push(request) && duplicates_of(
                all,
                urls,
            ) == duplicates_of(processed, urls)
            &&& !fresh ==> added_of(all) == added_of(processed) && committed_of(all, reserved)
                == committed_of(processed, reserved)
            &&& !fresh && at < urls.len() ==> duplicates_of(all, urls) == duplicates_of(
                processed,
                urls,
            ).push((urls[at], SkipReason::DuplicateUniqueKey))
            &&& !fresh && at >= urls.len() ==> duplicates_of(all, urls) == duplicates_of(
                processed,
                urls,
            ).push((request.unique_key@, SkipReason::DuplicateUniqueKey))
            &&& fresh && at < reserved.len() && reserved[at] ==> committed_of(all, reserved)
                == committed_of(processed, reserved).push(at as usize)
            &&& fresh && (at >= reserved.len() || !reserved[at]) ==> committed_of(all, reserved)
                == committed_of(processed, reserved)
        }),
{
    let all = processed.push(request);
    assert(all.drop_last() =~= processed);
    assert(all.last() == request);
}

/// The first pattern that cannot be compiled is the one reported, the include patterns before the
/// exclusions.
pub proof fn first_bad_patterns_are_reported(patterns: Seq<PatternView>, at: int)
    requires
        0 <= at <= patterns.len(),
        forall|k: int| 0 <= k < at ==> (#[trigger] patterns[k]).fault() is None,
        at < patterns.len() ==> patterns[at].fault() is Some,
    ensures
        at < patterns.len() ==> first_pattern_fault(patterns) == patterns[at].fault(),
        at == patterns.len() ==> first_pattern_fault(patterns) is None,
    decreases patterns.len(),
{
    if at > 0 {
        let rest = patterns.drop_first();
        assert(patterns[0].fault() is None);
        assert forall|k: int| 0 <= k < at - 1 implies (#[trigger] rest[k]).fault() is None by {
            assert(rest[k] == patterns[k + 1]);
        }
        first_bad_patterns_are_reported(rest, at - 1);
    }
}

/// The words for each reason to skip a candidate, with the numbers that it goes by.
pub proof fn reasons_in_words(depth: u32, limit: u32, count: u64, reason: String)
    ensures
        (SkipReason::MaxDepthExceeded { depth, limit }).text() == "crawl depth "@ + decimal(
            depth as nat,
        ) + " exceeds limit "@ + decimal(limit as nat),
        (SkipReason::MaxRequestsReached { limit: count }).text() == "maximum request count "@ + decimal(
            count as nat,
        ) + " reached"@,
        SkipReason::StrategyExcluded.text() == "excluded by enqueue strategy"@,
        SkipReason::GlobExcluded.text() == "excluded by glob patterns"@,
        SkipReason::RegexExcluded.text() == "excluded by regex patterns"@,
        (SkipReason::TransformRejected { reason }).text() == "rejected by transform: "@ + reason@,
        SkipReason::DuplicateUniqueKey.text() == "duplicate unique key"@,
        SkipReason::InvalidUrl.text() == "invalid URL"@,
{
}

/// Links are extracted where a selector asks for it, and where there is nothing else to enqueue and
/// something to extract with. A selector without anything to extract with fails for good.
pub proof fn when_links_are_extracted(
    options: EnqueueLinksOptions,
    has_extractor: bool,
    r: Result<bool, CrawlError>,
)
    requires
        options.asks_for_links(has_extractor, r),
    ensures
        options.selector is Some && !has_extractor <==> r is Err,
        r is Err ==> r->Err_0 is NonRetryable,
        options.selector is Some && has_extractor ==> r == Ok::<bool, CrawlError>(true),
        options.selector is None && options.candidates@.len() == 0 ==> r == Ok::<bool, CrawlError>(
            has_extractor,
        ),
        options.selector is None && options.candidates@.len() > 0 ==> r == Ok::<bool, CrawlError>(
            false,
        ),
{
}

} // verus!
