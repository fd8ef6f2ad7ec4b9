//! The progress of a crawl through sitemaps.

use crate::errors::{Cause, CrawlError, LinkView};
use crate::http_client::{status_text, status_text_spec};
use crate::request::{Request, RequestBuilder, UserData};
use crate::sitemap::parser::{SitemapEntry, SitemapEvent, SitemapParseError};
use crate::text::{decimal, owned, push_decimal, same, views};
use crate::text_map::TextMap;
use crate::text_set::{texts_of, TextSet};
use crate::url::{opt_view, parsed_url, Url, UrlParts};
use vstd::prelude::*;

verus! {

/// Conventional key used to persist sitemap request-list progress.
pub fn sitemap_state_key() -> (r: &'static str)
    ensures
        r@ == "SITEMAP_REQUEST_LIST_STATE"@,
{
    "SITEMAP_REQUEST_LIST_STATE"
}

/// Number of emitted requests between automatic progress snapshots.
pub const AUTO_PERSIST_INTERVAL: u64 = 100;

/// Sitemaps may be nested so deep.
pub const MAX_DEPTH: u8 = 5;

/// The version of stored progress.
pub const STATE_VERSION: u8 = 2;

/// A sitemap that is still to be read.
#[derive(Debug)]
pub struct PendingSitemap {
    pub url: Url,
    pub depth: u8,
}

impl PendingSitemap {
    /// The mathematical value.
    pub open spec fn parts(self) -> (UrlParts, u8) {
        (self.url@, self.depth)
    }
}

impl Clone for PendingSitemap {
    fn clone(&self) -> (r: Self)
        ensures
            r.parts() == self.parts(),
    {
        PendingSitemap { url: self.url.clone(), depth: self.depth }
    }
}

/// The views of pending sitemaps.
pub open spec fn pending_parts(pending: Seq<PendingSitemap>) -> Seq<(UrlParts, u8)> {
    Seq::new(pending.len(), |i: int| pending[i].parts())
}

/// The texts of URLs.
pub open spec fn url_texts(urls: Seq<Url>) -> Set<Seq<char>> {
    Set::new(|t: Seq<char>| exists|i: int| 0 <= i < urls.len() && (#[trigger] urls[i])@.text == t)
}

/// The sitemap that is being read.
#[derive(Debug)]
pub struct ActiveSitemap {
    pub pending: PendingSitemap,
    /// The entries that have been read.
    pub entries_seen: u64,
    /// The entries that an earlier run has handed out.
    pub skip_entries: u64,
    /// The sitemaps that this one names.
    pub nested: Vec<PendingSitemap>,
}

/// A lazy source of requests parsed from XML sitemaps.
#[derive(Debug)]
pub struct SitemapRequestList {
    pub roots: Vec<Url>,
    pub persistent: bool,
    pub label: Option<String>,
    pub user_data: UserData,
    pub limit: Option<u64>,
    /// The sitemaps to read, the next one last.
    pub pending: Vec<PendingSitemap>,
    pub completed: TextSet,
    pub completed_failures: TextSet,
    pub seen_sitemaps: TextSet,
    pub emitted_urls: TextSet,
    pub current: Option<ActiveSitemap>,
    pub emitted_total: u64,
    pub loaded: bool,
    pub finished: bool,
    pub successful_roots: TextSet,
    pub failed_roots: TextSet,
    pub resume_skip: Option<u64>,
    pub pending_emission: Option<Request>,
}

/// Stored progress.
#[derive(Debug)]
pub struct PersistedState {
    pub version: u8,
    pub completed: Vec<String>,
    pub completed_failures: Vec<String>,
    pub in_progress: Option<String>,
    pub in_progress_depth: Option<u8>,
    pub emitted_in_progress: u64,
    pub pending: Vec<String>,
    pub pending_depths: TextMap<u8>,
    pub emitted_total: u64,
}

/// Configures a [`SitemapRequestList`].
#[derive(Debug)]
pub struct SitemapRequestListBuilder {
    pub sitemap_urls: Vec<Url>,
    pub has_client: bool,
    pub persistent: bool,
    pub label: Option<String>,
    pub user_data: UserData,
    pub limit: Option<u64>,
}

impl Default for SitemapRequestListBuilder {
    fn default() -> (r: Self)
        ensures
            r.sitemap_urls@.len() == 0,
            !r.has_client,
            !r.persistent,
            r.label is None,
            r.user_data@.dom() == Set::<Seq<char>>::empty(),
            r.limit is None,
    {
        SitemapRequestListBuilder {
            sitemap_urls: Vec::new(),
            has_client: false,
            persistent: false,
            label: None,
            user_data: UserData::default(),
            limit: None,
        }
    }
}

/// The URLs, each once, where it first came.
pub open spec fn unique_urls(urls: Seq<Url>) -> Seq<UrlParts>
    decreases urls.len(),
{
    if urls.len() == 0 {
        seq![]
    } else if url_texts(urls.drop_last()).contains(urls.last()@.text) {
        unique_urls(urls.drop_last())
    } else {
        unique_urls(urls.drop_last()).push(urls.last()@)
    }
}

/// The views of URLs.
pub open spec fn url_parts(urls: Seq<Url>) -> Seq<UrlParts> {
    Seq::new(urls.len(), |i: int| urls[i]@)
}

/// `s` from its end to its beginning.
pub open spec fn backwards<A>(s: Seq<A>) -> Seq<A> {
    Seq::new(s.len(), |i: int| s[s.len() - 1 - i])
}

fn has_url(urls: &Vec<Url>, text: &str) -> (r: bool)
    ensures
        r == url_texts(urls@).contains(text@),
{
    let mut i: usize = 0;
    while i < urls.len()
        invariant
            i <= urls.len(),
            forall|k: int| 0 <= k < i ==> (#[trigger] urls@[k])@.text != text@,
        decreases urls.len() - i,
    {
        if same(urls[i].as_str(), text) {
            assert(urls@[i as int]@.text == text@);
            return true;
        }
        i = i + 1;
    }
    false
}

impl SitemapRequestListBuilder {
    /// Adds one root sitemap URL.
    pub fn sitemap_url(self, url: Url) -> (r: SitemapRequestListBuilder)
        ensures
            r.sitemap_urls@ == self.sitemap_urls@.push(url),
            r == (SitemapRequestListBuilder { sitemap_urls: r.sitemap_urls, ..self }),
    {
        let mut out = self;
        out.sitemap_urls.push(url);
        out
    }

    /// Adds root sitemap URLs.
    pub fn sitemap_urls(self, urls: Vec<Url>) -> (r: SitemapRequestListBuilder)
        ensures
            r.sitemap_urls@ == self.sitemap_urls@ + urls@,
            r == (SitemapRequestListBuilder { sitemap_urls: r.sitemap_urls, ..self }),
    {
        let mut out = self;
        let mut urls = urls;
        out.sitemap_urls.append(&mut urls);
        out
    }

    /// Records that there is an HTTP backend to fetch sitemap documents with.
    pub fn http_client(self) -> (r: SitemapRequestListBuilder)
        ensures
            r == (SitemapRequestListBuilder { has_client: true, ..self }),
    {
        let mut out = self;
        out.has_client = true;
        out
    }

    /// Enables persisted progress.
    ///
    /// A sitemap in progress is fetched again from its beginning after a restart, and its entries
    /// that were handed out already are skipped, which takes a stable order of entries.
    pub fn persist(self) -> (r: SitemapRequestListBuilder)
        ensures
            r == (SitemapRequestListBuilder { persistent: true, ..self }),
    {
        let mut out = self;
        out.persistent = true;
        out
    }

    /// Applies a routing label to every emitted request.
    pub fn label(self, label: &str) -> (r: SitemapRequestListBuilder)
        ensures
            opt_view(r.label) == Some(label@),
            r == (SitemapRequestListBuilder { label: r.label, ..self }),
    {
        let mut out = self;
        out.label = Some(owned(label));
        out
    }

    /// Applies user data to every emitted request.
    pub fn user_data(self, user_data: UserData) -> (r: SitemapRequestListBuilder)
        ensures
            r == (SitemapRequestListBuilder { user_data, ..self }),
    {
        let mut out = self;
        out.user_data = user_data;
        out
    }

    /// Limits the total number of emitted requests.
    pub fn limit(self, limit: u64) -> (r: SitemapRequestListBuilder)
        ensures
            r == (SitemapRequestListBuilder { limit: Some(limit), ..self }),
    {
        let mut out = self;
        out.limit = Some(limit);
        out
    }

    /// Builds a request list.
    pub fn build(self) -> (r: Result<SitemapRequestList, CrawlError>)
        ensures
            match r {
                Err(e) => {
                    &&& e is NonRetryable
                    &&& e->NonRetryable_0@ == seq![
                        LinkView {
                            message: if self.sitemap_urls@.len() == 0 {
                                "at least one sitemap URL is required"@
                            } else {
                                "an HTTP client is required"@
                            },
                            status: None,
                        },
                    ]
                    &&& self.sitemap_urls@.len() == 0 || !self.has_client
                },
                Ok(list) => {
                    &&& self.sitemap_urls@.len() > 0 && self.has_client
                    &&& url_parts(list.roots@) == unique_urls(self.sitemap_urls@)
                    &&& pending_parts(list.pending@) == backwards(
                        unique_urls(self.sitemap_urls@),
                    ).map_values(|u: UrlParts| (u, 0u8))
                    &&& list.seen_sitemaps@ == url_texts(self.sitemap_urls@)
                    &&& list.persistent == self.persistent
                    &&& list.label == self.label
                    &&& list.user_data == self.user_data
                    &&& list.limit == self.limit
                    &&& list.is_untouched()
                    &&& list.wf()
                },
            },
    {
        if self.sitemap_urls.len() == 0 {
            return Err(
                CrawlError::non_retryable(Cause::msg("at least one sitemap URL is required")),
            );
        }
        if !self.has_client {
            return Err(CrawlError::non_retryable(Cause::msg("an HTTP client is required")));
        }
        let urls: &Vec<Url> = &self.sitemap_urls;
        let mut roots: Vec<Url> = Vec::new();
        let mut seen: TextSet = TextSet::new();
        let mut i: usize = 0;
        assert(url_texts(urls@.subrange(0, 0)) =~= Set::<Seq<char>>::empty());
        assert(urls@.subrange(0, 0) =~= seq![]);
        assert(url_parts(roots@) =~= seq![]);
        while i < urls.len()
            invariant
                i <= urls.len(),
                seen@ == url_texts(urls@.subrange(0, i as int)),
                url_parts(roots@) == unique_urls(urls@.subrange(0, i as int)),
            decreases urls.len() - i,
        {
            let ghost front = urls@.subrange(0, i as int);
            assert(urls@.subrange(0, i + 1).drop_last() =~= front);
            if seen.insert(urls[i].as_str()) {
                let ghost prior = url_parts(roots@);
                roots.push(urls[i].clone());
                assert(url_parts(roots@) =~= prior.push(urls@[i as int]@));
            }
            proof {
                lemma_texts_grow(urls@.subrange(0, i + 1));
            }
            i = i + 1;
        }
        assert(urls@.subrange(0, urls@.len() as int) =~= urls@);
        let mut pending: Vec<PendingSitemap> = Vec::new();
        let mut k: usize = roots.len();
        while k > 0
            invariant
                k <= roots.len(),
                pending@.len() == roots.len() - k,
                forall|j: int|
                    0 <= j < pending@.len() ==> (#[trigger] pending@[j]).parts() == (
                        roots@[roots@.len() - 1 - j]@,
                        0u8,
                    ),
            decreases k,
        {
            k = k - 1;
            pending.push(PendingSitemap { url: roots[k].clone(), depth: 0 });
        }
        assert(pending_parts(pending@) =~= backwards(unique_urls(urls@)).map_values(
            |u: UrlParts| (u, 0u8),
        )) by {
            assert forall|j: int| 0 <= j < pending@.len() implies pending_parts(pending@)[j]
                == backwards(unique_urls(urls@)).map_values(|u: UrlParts| (u, 0u8))[j] by {
                assert(url_parts(roots@)[roots@.len() - 1 - j] == roots@[roots@.len() - 1 - j]@);
            }
            assert(url_parts(roots@).len() == roots@.len());
        }
        Ok(
            SitemapRequestList {
                roots,
                persistent: self.persistent,
                label: self.label,
                user_data: self.user_data,
                limit: self.limit,
                pending,
                completed: TextSet::new(),
                completed_failures: TextSet::new(),
                seen_sitemaps: seen,
                emitted_urls: TextSet::new(),
                current: None,
                emitted_total: 0,
                loaded: false,
                finished: false,
                successful_roots: TextSet::new(),
                failed_roots: TextSet::new(),
                resume_skip: None,
                pending_emission: None,
            },
        )
    }
}

proof fn lemma_texts_grow(urls: Seq<Url>)
    requires
        urls.len() > 0,
    ensures
        url_texts(urls) == url_texts(urls.drop_last()).insert(urls.last()@.text),
{
    assert forall|t: Seq<char>| url_texts(urls).contains(t) == url_texts(urls.drop_last()).insert(
        urls.last()@.text,
    ).contains(t) by {
        if url_texts(urls).contains(t) {
            let i = choose|i: int| 0 <= i < urls.len() && (#[trigger] urls[i])@.text == t;
            if i < urls.len() - 1 {
                assert(urls.drop_last()[i]@.text == t);
            }
        }
        if url_texts(urls.drop_last()).contains(t) {
            let i = choose|i: int|
                0 <= i < urls.drop_last().len() && (#[trigger] urls.drop_last()[i])@.text == t;
            assert(urls[i]@.text == t);
        }
        assert(urls[urls.len() - 1] == urls.last());
    }
    assert(url_texts(urls) =~= url_texts(urls.drop_last()).insert(urls.last()@.text));
}

/// What the caller of a list has to do next.
#[derive(Debug)]
pub enum ListStep {
    /// Nothing: there are no more requests.
    Done,
    /// Give up: nothing could be read.
    Failed(CrawlError),
    /// Hand out a request; store the progress, if it is given.
    Emit { request: Request, checkpoint: Option<PersistedState> },
    /// Fetch a sitemap, and report whether it could be opened.
    Open(PendingSitemap),
    /// Read on in the current sitemap, and report what it says.
    Read,
}

/// Whether `r` is the answer to a response with a status to the request for a sitemap.
pub open spec fn is_checked(text: Seq<char>, status: u16, r: Result<(), CrawlError>) -> bool {
    match r {
        Ok(_) => 200 <= status < 300,
        Err(e) => {
            &&& !(200 <= status < 300)
            &&& e is Retry
            &&& e->Retry_0@ == seq![
                LinkView {
                    message: "sitemap "@ + text + " returned HTTP "@ + status_text_spec(
                        status,
                    ),
                    status: None,
                },
            ]
        },
    }
}

/// Accepts the response to a sitemap's request, unless its status is no success.
pub fn check_response(url: &Url, status: u16) -> (r: Result<(), CrawlError>)
    ensures
        is_checked(url@.text, status, r),
{
    if 200 <= status && status < 300 {
        return Ok(());
    }
    let mut text: String = owned("sitemap ");
    text.append(url.as_str());
    text.append(" returned HTTP ");
    text.append(status_text(status).as_str());
    Err(CrawlError::retry(Cause::msg(text.as_str())))
}

/// The number of the last pending sitemap that is not completed.
pub open spec fn last_open(pending: Seq<PendingSitemap>, completed: Set<Seq<char>>) -> Option<int>
    decreases pending.len(),
{
    if pending.len() == 0 {
        None
    } else if completed.contains(pending.last().url@.text) {
        last_open(pending.drop_last(), completed)
    } else {
        Some(pending.len() - 1)
    }
}

/// The depth of a sitemap of which none is stored: roots lie at the surface, others below.
pub open spec fn default_depth(roots: Set<Seq<char>>, text: Seq<char>) -> u8 {
    if roots.contains(text) {
        0
    } else {
        1
    }
}

/// The pending sitemaps that stored texts and depths restore, the next one last. Texts that are no
/// URLs are dropped.
pub open spec fn restored_pending(
    texts: Seq<Seq<char>>,
    depths: Map<Seq<char>, u8>,
    roots: Set<Seq<char>>,
) -> Seq<(UrlParts, u8)>
    decreases texts.len(),
{
    if texts.len() == 0 {
        seq![]
    } else {
        let rest = restored_pending(texts.drop_first(), depths, roots);
        match parsed_url(texts[0]) {
            Ok(url) => rest.push(
                (
                    url,
                    if depths.contains_key(url.text) {
                        depths[url.text]
                    } else {
                        default_depth(roots, url.text)
                    },
                ),
            ),
            Err(_) => rest,
        }
    }
}

/// The texts of pending sitemaps, the next one first.
pub open spec fn pending_texts(pending: Seq<PendingSitemap>) -> Seq<Seq<char>> {
    Seq::new(pending.len(), |i: int| pending[pending.len() - 1 - i].url@.text)
}

/// The depths of pending sitemaps.
pub open spec fn depths_of(pending: Seq<PendingSitemap>) -> Map<Seq<char>, u8>
    decreases pending.len(),
{
    if pending.len() == 0 {
        Map::empty()
    } else {
        depths_of(pending.drop_last()).insert(pending.last().url@.text, pending.last().depth)
    }
}

/// The texts of URLs and depths.
pub open spec fn part_texts(parts: Seq<(UrlParts, u8)>) -> Set<Seq<char>> {
    Set::new(|t: Seq<char>| exists|i: int| 0 <= i < parts.len() && (#[trigger] parts[i]).0.text == t)
}

impl SitemapRequestList {
    /// A request that waits to be handed out comes from an entry that has been counted.
    pub open spec fn wf(self) -> bool {
        self.pending_emission is Some && self.current is Some ==> self.current.unwrap().entries_seen
            > 0
    }

    /// Nothing has been read or loaded.
    pub open spec fn is_untouched(self) -> bool {
        &&& self.completed@ == Set::<Seq<char>>::empty()
        &&& self.completed_failures@ == Set::<Seq<char>>::empty()
        &&& self.emitted_urls@ == Set::<Seq<char>>::empty()
        &&& self.current is None
        &&& self.emitted_total == 0
        &&& !self.loaded
        &&& !self.finished
        &&& self.successful_roots@ == Set::<Seq<char>>::empty()
        &&& self.failed_roots@ == Set::<Seq<char>>::empty()
        &&& self.resume_skip is None
        &&& self.pending_emission is None
    }

    /// Whether the list has been stopped or has reached its limit.
    pub open spec fn stopped(self) -> bool {
        self.finished || (self.limit is Some && self.emitted_total >= self.limit.unwrap())
    }

    /// Whether no root could be read.
    pub open spec fn all_roots_failed(self) -> bool {
        self.roots@.len() > 0 && self.successful_roots@.len() == 0 && self.failed_roots@.len()
            == self.roots@.len()
    }

    /// Whether the sitemap in progress is one that is still to be resumed.
    pub open spec fn staged(self) -> bool {
        self.current is None && self.resume_skip is Some && self.pending@.len() > 0
    }

    /// The pending sitemaps without the one that is to be resumed.
    pub open spec fn waiting(self) -> Seq<PendingSitemap> {
        if self.staged() {
            self.pending@.drop_last()
        } else {
            self.pending@
        }
    }

    /// The sitemap in progress.
    pub open spec fn in_progress(self) -> Option<(UrlParts, u8)> {
        if self.current is Some {
            Some(self.current.unwrap().pending.parts())
        } else if self.staged() {
            Some(self.pending@.last().parts())
        } else {
            None
        }
    }

    /// The entries of the sitemap in progress that have been handed out, the waiting one with them
    /// if `with_pending` is set.
    pub open spec fn emitted_in_progress(self, with_pending: bool) -> u64 {
        match self.current {
            Some(current) => if with_pending || self.pending_emission is None {
                current.entries_seen
            } else {
                (current.entries_seen - 1) as u64
            },
            None => match self.resume_skip {
                Some(skip) => skip,
                None => 0,
            },
        }
    }

    /// Whether `state` stores the progress of the list.
    pub open spec fn is_stored_as(
        self,
        state: PersistedState,
        emitted_total: u64,
        with_pending: bool,
    ) -> bool {
        &&& state.version == STATE_VERSION
        &&& texts_of(state.completed@) == self.completed@
        &&& texts_of(state.completed_failures@) == self.completed_failures@
        &&& opt_view(state.in_progress) == match self.in_progress() {
            Some(p) => Some(p.0.text),
            None => None,
        }
        &&& state.in_progress_depth == match self.in_progress() {
            Some(p) => Some(p.1),
            None => None,
        }
        &&& state.emitted_in_progress == self.emitted_in_progress(with_pending)
        &&& views(state.pending@) == pending_texts(self.waiting())
        &&& state.pending_depths@ == depths_of(self.waiting())
        &&& state.emitted_total == emitted_total
    }

    /// The stored form of the progress.
    pub fn snapshot(&self, emitted_total: u64, with_pending: bool) -> (r: PersistedState)
        requires
            self.wf(),
        ensures
            self.is_stored_as(r, emitted_total, with_pending),
    {
        let staged: bool = self.current.is_none() && self.resume_skip.is_some()
            && self.pending.len() > 0;
        let end: usize = if staged {
            self.pending.len() - 1
        } else {
            self.pending.len()
        };
        let ghost waiting = self.waiting();
        assert(waiting =~= self.pending@.subrange(0, end as int));
        let (in_progress, in_progress_depth): (Option<String>, Option<u8>) = match &self.current {
            Some(current) => (Some(owned(current.pending.url.as_str())), Some(current.pending.depth)),
            None => if staged {
                (Some(owned(self.pending[end].url.as_str())), Some(self.pending[end].depth))
            } else {
                (None, None)
            },
        };
        let emitted_in_progress: u64 = match &self.current {
            Some(current) => if with_pending || self.pending_emission.is_none() {
                current.entries_seen
            } else {
                current.entries_seen - 1
            },
            None => match self.resume_skip {
                Some(skip) => skip,
                None => 0,
            },
        };
        let mut pending: Vec<String> = Vec::new();
        let mut k: usize = end;
        while k > 0
            invariant
                k <= end <= self.pending.len(),
                pending@.len() == end - k,
                forall|j: int|
                    0 <= j < pending@.len() ==> (#[trigger] pending@[j])@ == self.pending@[end - 1
                        - j].url@.text,
            decreases k,
        {
            k = k - 1;
            pending.push(owned(self.pending[k].url.as_str()));
        }
        assert(views(pending@) =~= pending_texts(waiting));
        let mut pending_depths: TextMap<u8> = TextMap::new();
        let mut i: usize = 0;
        assert(waiting.subrange(0, 0) =~= seq![]);
        while i < end
            invariant
                i <= end <= self.pending.len(),
                waiting == self.pending@.subrange(0, end as int),
                pending_depths@ == depths_of(waiting.subrange(0, i as int)),
            decreases end - i,
        {
            assert(waiting.subrange(0, i + 1).drop_last() =~= waiting.subrange(0, i as int));
            pending_depths.insert(self.pending[i].url.as_str(), self.pending[i].depth);
            i = i + 1;
        }
        assert(waiting.subrange(0, waiting.len() as int) =~= waiting);
        PersistedState {
            version: STATE_VERSION,
            completed: self.completed.to_texts(),
            completed_failures: self.completed_failures.to_texts(),
            in_progress,
            in_progress_depth,
            emitted_in_progress,
            pending,
            pending_depths,
            emitted_total,
        }
    }

    fn depth_for(&self, url: &Url, stored: Option<u8>) -> (r: u8)
        ensures
            r == match stored {
                Some(depth) => depth,
                None => default_depth(url_texts(self.roots@), url@.text),
            },
    {
        match stored {
            Some(depth) => depth,
            None => if has_url(&self.roots, url.as_str()) {
                0
            } else {
                1
            },
        }
    }

    /// The pending sitemaps that stored progress restores.
    pub open spec fn restores(self, saved: PersistedState) -> Seq<(UrlParts, u8)> {
        let base = restored_pending(
            views(saved.pending@),
            saved.pending_depths@,
            url_texts(self.roots@),
        );
        match saved.in_progress {
            Some(text) => match parsed_url(text@) {
                Ok(url) => base.push(
                    (
                        url,
                        match saved.in_progress_depth {
                            Some(depth) => depth,
                            None => default_depth(url_texts(self.roots@), url.text),
                        },
                    ),
                ),
                Err(_) => base,
            },
            None => base,
        }
    }

    /// Whether taking stored progress up gives `r` and leads to `after`.
    pub open spec fn has_loaded(
        self,
        saved: Option<PersistedState>,
        r: Result<(), CrawlError>,
        after: SitemapRequestList,
    ) -> bool {
        match (r, saved) {
            (Err(e), Some(saved)) => {
                &&& !self.loaded
                &&& saved.version != STATE_VERSION
                &&& e is NonRetryable
                &&& e->NonRetryable_0@ == seq![
                    LinkView {
                        message: "unsupported sitemap state version "@ + decimal(
                            saved.version as nat,
                        ),
                        status: None,
                    },
                ]
                &&& after == self
            },
            (Err(_), None) => false,
            (Ok(_), _) => if self.loaded {
                after == self
            } else {
                match saved {
                    None => after == (SitemapRequestList { loaded: true, ..self }),
                    Some(saved) => {
                        let done = texts_of(saved.completed@);
                        let failed = texts_of(saved.completed_failures@);
                        let roots = url_texts(self.roots@);
                        &&& saved.version == STATE_VERSION
                        &&& after.completed@ == done
                        &&& after.completed_failures@ == failed
                        &&& after.emitted_total == saved.emitted_total
                        &&& pending_parts(after.pending@) == self.restores(saved)
                        &&& after.resume_skip == if saved.in_progress is Some
                            && parsed_url(saved.in_progress.unwrap()@) is Ok {
                            Some(saved.emitted_in_progress)
                        } else {
                            self.resume_skip
                        }
                        &&& after.seen_sitemaps@ == self.seen_sitemaps@.union(
                            done,
                        ).union(part_texts(self.restores(saved)))
                        &&& after.failed_roots@ == self.failed_roots@.union(
                            roots.intersect(done).intersect(failed),
                        )
                        &&& after.successful_roots@ == self.successful_roots@.union(
                            roots.intersect(done).difference(failed),
                        )
                        &&& after == (SitemapRequestList {
                            completed: after.completed,
                            completed_failures: after.completed_failures,
                            emitted_total: after.emitted_total,
                            pending: after.pending,
                            resume_skip: after.resume_skip,
                            seen_sitemaps: after.seen_sitemaps,
                            failed_roots: after.failed_roots,
                            successful_roots: after.successful_roots,
                            loaded: true,
                            ..self
                        })
                    },
                }
            },
        }
    }

    /// Takes stored progress up, where there is some. Progress of another version is an error.
    pub fn load_persisted(&mut self, saved: Option<PersistedState>) -> (r: Result<(), CrawlError>)
        requires
            old(self).wf(),
        ensures
            final(self).wf(),
            old(self).has_loaded(saved, r, *final(self)),
    {
        if self.loaded {
            return Ok(());
        }
        let saved: PersistedState = match saved {
            Some(saved) => saved,
            None => {
                self.loaded = true;
                return Ok(());
            },
        };
        if saved.version != STATE_VERSION {
            let mut text: String = owned("unsupported sitemap state version ");
            push_decimal(&mut text, saved.version as u128);
            return Err(CrawlError::non_retryable(Cause::msg(text.as_str())));
        }
        let (pending, resume): (Vec<PendingSitemap>, Option<u64>) = self.restore_pending(&saved);
        self.completed = TextSet::from_texts(&saved.completed);
        self.completed_failures = TextSet::from_texts(&saved.completed_failures);
        self.emitted_total = saved.emitted_total;
        if resume.is_some() {
            self.resume_skip = resume;
        }
        self.see_texts(&saved.completed);
        self.see_pending(&pending);
        self.pending = pending;
        self.classify_roots();
        self.loaded = true;
        Ok(())
    }

    fn restore_pending(&self, saved: &PersistedState) -> (r: (Vec<PendingSitemap>, Option<u64>))
        ensures
            pending_parts(r.0@) == self.restores(*saved),
            r.1 == if saved.in_progress is Some && parsed_url(saved.in_progress.unwrap()@) is Ok {
                Some(saved.emitted_in_progress)
            } else {
                None
            },
    {
        let ghost texts = views(saved.pending@);
        let ghost roots = url_texts(self.roots@);
        let mut pending: Vec<PendingSitemap> = Vec::new();
        let mut k: usize = saved.pending.len();
        assert(texts.skip(texts.len() as int) =~= seq![]);
        assert(pending_parts(pending@) =~= seq![]);
        while k > 0
            invariant
                k <= saved.pending.len(),
                texts == views(saved.pending@),
                roots == url_texts(self.roots@),
                pending_parts(pending@) == restored_pending(
                    texts.skip(k as int),
                    saved.pending_depths@,
                    roots,
                ),
            decreases k,
        {
            assert(texts.skip(k - 1).drop_first() =~= texts.skip(k as int));
            assert(texts.skip(k - 1)[0] == saved.pending@[k - 1]@);
            k = k - 1;
            match Url::parse(saved.pending[k].as_str()) {
                Ok(url) => {
                    let stored: Option<u8> = match saved.pending_depths.get(url.as_str()) {
                        Some(depth) => Some(*depth),
                        None => None,
                    };
                    let depth: u8 = self.depth_for(&url, stored);
                    let ghost prior = pending_parts(pending@);
                    pending.push(PendingSitemap { url, depth });
                    assert(pending_parts(pending@) =~= prior.push((url@, depth)));
                },
                Err(_) => {},
            }
        }
        assert(texts.skip(0) =~= texts);
        let mut resume: Option<u64> = None;
        if let Some(text) = &saved.in_progress {
            match Url::parse(text.as_str()) {
                Ok(url) => {
                    let depth: u8 = self.depth_for(&url, saved.in_progress_depth);
                    let ghost prior = pending_parts(pending@);
                    pending.push(PendingSitemap { url, depth });
                    assert(pending_parts(pending@) =~= prior.push((url@, depth)));
                    resume = Some(saved.emitted_in_progress);
                },
                Err(_) => {},
            }
        }
        (pending, resume)
    }

    fn see_texts(&mut self, texts: &Vec<String>)
        ensures
            final(self).seen_sitemaps@ == old(self).seen_sitemaps@.union(texts_of(texts@)),
            *final(self) == (SitemapRequestList {
                seen_sitemaps: final(self).seen_sitemaps,
                ..*old(self)
            }),
    {
        let mut i: usize = 0;
        let ghost seen = self.seen_sitemaps@;
        while i < texts.len()
            invariant
                i <= texts.len(),
                *self == (SitemapRequestList { seen_sitemaps: self.seen_sitemaps, ..*old(self) }),
                forall|t: Seq<char>| #[trigger]
                    self.seen_sitemaps@.contains(t) <==> seen.contains(t) || exists|j: int|
                        0 <= j < i && (#[trigger] texts@[j])@ == t,
            decreases texts.len() - i,
        {
            self.seen_sitemaps.insert(texts[i].as_str());
            i = i + 1;
        }
        proof {
            let all = views(texts@);
            assert forall|t: Seq<char>| all.to_set().contains(t) <==> exists|j: int|
                0 <= j < texts@.len() && (#[trigger] texts@[j])@ == t by {
                if all.contains(t) {
                    let j = choose|j: int| 0 <= j < all.len() && all[j] == t;
                    assert(texts@[j]@ == t);
                }
                if exists|j: int| 0 <= j < texts@.len() && (#[trigger] texts@[j])@ == t {
                    let j = choose|j: int| 0 <= j < texts@.len() && (#[trigger] texts@[j])@ == t;
                    assert(all[j] == t);
                }
            }
            assert(self.seen_sitemaps@ =~= seen.union(texts_of(texts@)));
        }
    }

    fn see_pending(&mut self, pending: &Vec<PendingSitemap>)
        ensures
            final(self).seen_sitemaps@ == old(self).seen_sitemaps@.union(
                part_texts(pending_parts(pending@)),
            ),
            *final(self) == (SitemapRequestList {
                seen_sitemaps: final(self).seen_sitemaps,
                ..*old(self)
            }),
    {
        let mut i: usize = 0;
        let ghost seen = self.seen_sitemaps@;
        let ghost parts = pending_parts(pending@);
        while i < pending.len()
            invariant
                i <= pending.len(),
                parts == pending_parts(pending@),
                *self == (SitemapRequestList { seen_sitemaps: self.seen_sitemaps, ..*old(self) }),
                forall|t: Seq<char>| #[trigger]
                    self.seen_sitemaps@.contains(t) <==> seen.contains(t) || exists|j: int|
                        0 <= j < i && (#[trigger] parts[j]).0.text == t,
            decreases pending.len() - i,
        {
            assert(parts[i as int].0 == pending@[i as int].url@);
            self.seen_sitemaps.insert(pending[i].url.as_str());
            i = i + 1;
        }
        assert(self.seen_sitemaps@ =~= seen.union(part_texts(parts)));
    }

    fn classify_roots(&mut self)
        ensures
            final(self).failed_roots@ == old(self).failed_roots@.union(
                url_texts(old(self).roots@).intersect(old(self).completed@).intersect(
                    old(self).completed_failures@,
                ),
            ),
            final(self).successful_roots@ == old(self).successful_roots@.union(
                url_texts(old(self).roots@).intersect(old(self).completed@).difference(
                    old(self).completed_failures@,
                ),
            ),
            *final(self) == (SitemapRequestList {
                failed_roots: final(self).failed_roots,
                successful_roots: final(self).successful_roots,
                ..*old(self)
            }),
    {
        let ghost before = *old(self);
        let mut i: usize = 0;
        while i < self.roots.len()
            invariant
                i <= self.roots.len(),
                before == *old(self),
                *self == (SitemapRequestList {
                    failed_roots: self.failed_roots,
                    successful_roots: self.successful_roots,
                    ..before
                }),
                forall|t: Seq<char>| #[trigger]
                    self.failed_roots@.contains(t) <==> before.failed_roots@.contains(t) || (
                    before.completed@.contains(t) && before.completed_failures@.contains(t)
                        && exists|j: int| 0 <= j < i && (#[trigger] before.roots@[j])@.text == t),
                forall|t: Seq<char>| #[trigger]
                    self.successful_roots@.contains(t) <==> before.successful_roots@.contains(t)
                        || (before.completed@.contains(t) && !before.completed_failures@.contains(t)
                        && exists|j: int| 0 <= j < i && (#[trigger] before.roots@[j])@.text == t),
            decreases self.roots.len() - i,
        {
            let root: String = owned(self.roots[i].as_str());
            assert(before.roots@[i as int]@.text == root@);
            if self.completed.contains(root.as_str()) {
                if self.completed_failures.contains(root.as_str()) {
                    self.failed_roots.insert(root.as_str());
                } else {
                    self.successful_roots.insert(root.as_str());
                }
            }
            i = i + 1;
        }
        assert(self.failed_roots@ =~= before.failed_roots@.union(
            url_texts(before.roots@).intersect(before.completed@).intersect(
                before.completed_failures@,
            ),
        ));
        assert(self.successful_roots@ =~= before.successful_roots@.union(
            url_texts(before.roots@).intersect(before.completed@).difference(
                before.completed_failures@,
            ),
        ));
    }

    /// Whether `r` comes next, and leaves the list as `after`.
    pub open spec fn stepped(self, auto_persist: bool, r: ListStep, after: SitemapRequestList) -> bool {
        let s = self;
        if s.stopped() {
            &&& r is Done
            &&& after == (SitemapRequestList { finished: true, current: None, ..s })
        } else if s.pending_emission is Some {
            let total = (s.emitted_total + 1) as u64;
            match r {
                ListStep::Emit { request, checkpoint } => {
                    &&& s.pending_emission == Some(request)
                    &&& checkpoint is Some <==> auto_persist && s.persistent && total
                        % AUTO_PERSIST_INTERVAL == 0
                    &&& checkpoint is Some ==> s.is_stored_as(
                        checkpoint.unwrap(),
                        total,
                        true,
                    )
                    &&& after == (SitemapRequestList {
                        emitted_total: total,
                        pending_emission: None,
                        ..s
                    })
                },
                _ => false,
            }
        } else if s.current is Some {
            r is Read && after == s
        } else {
            match last_open(s.pending@, s.completed@) {
                Some(i) => match r {
                    ListStep::Open(next) => {
                        &&& next.parts() == s.pending@[i].parts()
                        &&& after.pending@ == s.pending@.subrange(0, i + 1)
                        &&& after.seen_sitemaps@ == s.seen_sitemaps@.insert(
                            next.url@.text,
                        )
                        &&& after == (SitemapRequestList {
                            pending: after.pending,
                            seen_sitemaps: after.seen_sitemaps,
                            ..s
                        })
                    },
                    _ => false,
                },
                None => {
                    &&& after.pending@.len() == 0
                    &&& after == (SitemapRequestList {
                        pending: after.pending,
                        finished: true,
                        ..s
                    })
                    &&& match r {
                        ListStep::Failed(e) => {
                            &&& s.all_roots_failed()
                            &&& e is Retry
                            &&& e->Retry_0@ == seq![
                                LinkView {
                                    message: "all configured root sitemaps failed"@,
                                    status: None,
                                },
                            ]
                        },
                        ListStep::Done => !s.all_roots_failed(),
                        _ => false,
                    }
                },
            }
        }
    }

    /// Decides what comes next. `auto_persist` asks for a snapshot with every hundredth request.
    pub fn next_step(&mut self, auto_persist: bool) -> (r: ListStep)
        requires
            old(self).wf(),
            old(self).stopped() || old(self).pending_emission is None || old(self).emitted_total
                < u64::MAX,
        ensures
            final(self).wf(),
            old(self).stepped(auto_persist, r, *final(self)),
    {
        let limited: bool = match self.limit {
            Some(limit) => self.emitted_total >= limit,
            None => false,
        };
        if self.finished || limited {
            self.finished = true;
            self.current = None;
            return ListStep::Done;
        }
        if self.pending_emission.is_some() {
            let total: u64 = self.emitted_total + 1;
            let checkpoint: Option<PersistedState> = if auto_persist && self.persistent && total
                % AUTO_PERSIST_INTERVAL == 0 {
                Some(self.snapshot(total, true))
            } else {
                None
            };
            self.emitted_total = total;
            let mut emission: Option<Request> = None;
            std::mem::swap(&mut self.pending_emission, &mut emission);
            return ListStep::Emit { request: emission.unwrap(), checkpoint };
        }
        if self.current.is_some() {
            return ListStep::Read;
        }
        let ghost all = self.pending@;
        assert(all.subrange(0, all.len() as int) =~= all);
        while self.pending.len() > 0
            invariant
                self.pending@.len() <= all.len(),
                self.pending@ == all.subrange(0, self.pending@.len() as int),
                last_open(all, self.completed@) == last_open(self.pending@, self.completed@),
                *self == (SitemapRequestList { pending: self.pending, ..*old(self) }),
                all == old(self).pending@,
                !old(self).stopped(),
                old(self).pending_emission is None,
                old(self).current is None,
            decreases self.pending@.len(),
        {
            let top: usize = self.pending.len() - 1;
            if self.completed.contains(self.pending[top].url.as_str()) {
                let ghost before = self.pending@;
                let _ = self.pending.pop();
                assert(self.pending@ =~= before.drop_last());
                assert(self.pending@ =~= all.subrange(0, self.pending@.len() as int));
            } else {
                let next: PendingSitemap = self.pending[top].clone();
                self.seen_sitemaps.insert(next.url.as_str());
                return ListStep::Open(next);
            }
        }
        self.finished = true;
        if self.roots.len() > 0 && self.successful_roots.len() == 0 && self.failed_roots.len()
            == self.roots.len() {
            return ListStep::Failed(
                CrawlError::retry(Cause::msg("all configured root sitemaps failed")),
            );
        }
        ListStep::Done
    }

    /// Whether `after` is the list once the sitemap on top has been opened.
    pub open spec fn has_opened(self, next: PendingSitemap, after: SitemapRequestList) -> bool {
        &&& after.pending@ == self.pending@.drop_last()
        &&& after.successful_roots@ == if next.depth == 0 {
            self.successful_roots@.insert(next.url@.text)
        } else {
            self.successful_roots@
        }
        &&& after.current is Some
        &&& after.current.unwrap().pending == next
        &&& after.current.unwrap().entries_seen == 0
        &&& after.current.unwrap().skip_entries == match self.resume_skip {
            Some(skip) => skip,
            None => 0,
        }
        &&& after.current.unwrap().nested@.len() == 0
        &&& after == (SitemapRequestList {
            pending: after.pending,
            successful_roots: after.successful_roots,
            current: after.current,
            resume_skip: None,
            ..self
        })
    }

    /// Records that the sitemap on top could be opened.
    pub fn opened(&mut self, next: PendingSitemap)
        requires
            old(self).wf(),
            old(self).pending@.len() > 0,
            old(self).pending_emission is None,
        ensures
            final(self).wf(),
            old(self).has_opened(next, *final(self)),
    {
        let skip: u64 = match self.resume_skip {
            Some(skip) => skip,
            None => 0,
        };
        self.resume_skip = None;
        if next.depth == 0 {
            self.successful_roots.insert(next.url.as_str());
        }
        let _ = self.pending.pop();
        assert(self.pending@ =~= old(self).pending@.drop_last());
        self.current = Some(
            ActiveSitemap {
                pending: next,
                entries_seen: 0,
                skip_entries: skip,
                nested: Vec::new(),
            },
        );
    }

    /// Whether `after` is the list once the sitemap on top could not be opened.
    pub open spec fn has_failed(self, failed: PendingSitemap, after: SitemapRequestList) -> bool {
        &&& after.pending@ == self.pending@.drop_last()
        &&& after.failed_roots@ == if failed.depth == 0 {
            self.failed_roots@.insert(failed.url@.text)
        } else {
            self.failed_roots@
        }
        &&& after.completed@ == self.completed@.insert(failed.url@.text)
        &&& after.completed_failures@ == self.completed_failures@.insert(
            failed.url@.text,
        )
        &&& after == (SitemapRequestList {
            pending: after.pending,
            failed_roots: after.failed_roots,
            completed: after.completed,
            completed_failures: after.completed_failures,
            resume_skip: None,
            ..self
        })
    }

    /// Records that the sitemap on top could not be opened.
    pub fn mark_fetch_failure(&mut self, failed: PendingSitemap)
        requires
            old(self).wf(),
            old(self).pending@.len() > 0,
        ensures
            final(self).wf(),
            old(self).has_failed(failed, *final(self)),
    {
        let _ = self.pending.pop();
        assert(self.pending@ =~= old(self).pending@.drop_last());
        self.resume_skip = None;
        if failed.depth == 0 {
            self.failed_roots.insert(failed.url.as_str());
        }
        self.completed_failures.insert(failed.url.as_str());
        self.completed.insert(failed.url.as_str());
    }

    /// Records how the current sitemap ended: a body that broke off is a failure, and one that was
    /// read, whatever is wrong with its XML, is done with.
    pub fn ended(&mut self, end: Option<SitemapParseError>)
        requires
            old(self).wf(),
        ensures
            final(self).wf(),
            match end {
                Some(SitemapParseError::Body(_)) => old(self).has_given_up(*final(self)),
                _ => old(self).has_completed(*final(self)),
            },
    {
        match end {
            Some(SitemapParseError::Body(_)) => self.fail_current(),
            _ => self.complete_current(),
        }
    }

    /// Whether `request` is what the list hands out for a URL.
    pub open spec fn emits(self, request: Request, url: UrlParts) -> bool {
        &&& request.is_fresh_get(url)
        &&& opt_view(request.label) == opt_view(self.label)
        &&& request.user_data@ == self.user_data@
    }

    /// Whether `after` is the list once the current sitemap has said something.
    pub open spec fn took_event(self, event: SitemapEvent, after: SitemapRequestList) -> bool {
        &&& after.current is Some
        &&& {
            let s = self;
            let before = s.current.unwrap();
            let current = after.current.unwrap();
            match event {
                SitemapEvent::Entry(entry) => {
                    let seen = (before.entries_seen + 1) as u64;
                    &&& current == (ActiveSitemap { entries_seen: seen, ..before })
                    &&& after == (SitemapRequestList {
                        current: after.current,
                        emitted_urls: after.emitted_urls,
                        pending_emission: after.pending_emission,
                        ..s
                    })
                    &&& match parsed_url(entry.loc@) {
                        Err(_) => after.pending_emission is None
                            && after.emitted_urls@ == s.emitted_urls@,
                        Ok(url) => {
                            &&& after.emitted_urls@ == s.emitted_urls@.insert(url.text)
                            &&& if seen <= before.skip_entries || s.emitted_urls@.contains(
                                url.text,
                            ) {
                                after.pending_emission is None
                            } else {
                                after.pending_emission is Some && s.emits(
                                    after.pending_emission.unwrap(),
                                    url,
                                )
                            }
                        },
                    }
                },
                SitemapEvent::Nested(location) => {
                    &&& after == (SitemapRequestList {
                        current: after.current,
                        seen_sitemaps: after.seen_sitemaps,
                        ..s
                    })
                    &&& current == (ActiveSitemap { nested: current.nested, ..before })
                    &&& match parsed_url(location@) {
                        Ok(url) => if before.pending.depth >= MAX_DEPTH {
                            &&& current.nested@ == before.nested@
                            &&& after.seen_sitemaps@ == s.seen_sitemaps@
                        } else {
                            &&& after.seen_sitemaps@ == s.seen_sitemaps@.insert(url.text)
                            &&& if s.seen_sitemaps@.contains(url.text) {
                                current.nested@ == before.nested@
                            } else {
                                pending_parts(current.nested@) == pending_parts(
                                    before.nested@,
                                ).push(
                                    (
                                        url,
                                        if url_texts(s.roots@).contains(url.text) {
                                            0
                                        } else {
                                            (before.pending.depth + 1) as u8
                                        },
                                    ),
                                )
                            }
                        },
                        Err(_) => current.nested@ == before.nested@ && after.seen_sitemaps@ == s.seen_sitemaps@,
                    }
                },
            }
        }
    }

    /// Takes what the current sitemap says: a page that is new becomes the next request, a sitemap
    /// that is new is noted.
    pub fn on_event(&mut self, event: SitemapEvent)
        requires
            old(self).wf(),
            old(self).current is Some,
            event is Entry ==> old(self).current.unwrap().entries_seen < u64::MAX,
            old(self).pending_emission is None,
        ensures
            final(self).wf(),
            old(self).took_event(event, *final(self)),
    {
        let mut current: Option<ActiveSitemap> = None;
        std::mem::swap(&mut self.current, &mut current);
        let mut active: ActiveSitemap = current.unwrap();
        match event {
            SitemapEvent::Entry(entry) => {
                active.entries_seen = active.entries_seen + 1;
                match Url::parse(entry.loc.as_str()) {
                    Err(_) => {},
                    Ok(url) => {
                        let fresh: bool = self.emitted_urls.insert(url.as_str());
                        if active.entries_seen > active.skip_entries && fresh {
                            self.pending_emission = Some(self.build_request(url));
                        }
                    },
                }
                self.current = Some(active);
            },
            SitemapEvent::Nested(location) => {
                if active.pending.depth < MAX_DEPTH {
                    match Url::parse(location.as_str()) {
                        Ok(url) => {
                            if self.seen_sitemaps.insert(url.as_str()) {
                                let depth: u8 = if has_url(&self.roots, url.as_str()) {
                                    0
                                } else {
                                    active.pending.depth + 1
                                };
                                let ghost prior = pending_parts(active.nested@);
                                active.nested.push(PendingSitemap { url, depth });
                                assert(pending_parts(active.nested@) =~= prior.push((url@, depth)));
                            }
                        },
                        Err(_) => {},
                    }
                }
                self.current = Some(active);
            },
        }
    }

    fn build_request(&self, url: Url) -> (r: Request)
        ensures
            self.emits(r, url@),
    {
        let mut builder: RequestBuilder = Request::get(url).user_data(
            self.user_data.clone(),
        ).crawl_depth(0);
        if let Some(label) = &self.label {
            builder = builder.label(label.as_str());
        }
        let built = builder.build();
        assert(built is Ok);
        built.unwrap()
    }

    /// Whether `after` is the list once the current sitemap has been read.
    pub open spec fn has_completed(self, after: SitemapRequestList) -> bool {
        &&& match self.current {
            None => after == self,
            Some(current) => {
                let text = current.pending.url@.text;
                &&& after.current is None
                &&& after.pending@ == self.pending@ + backwards(current.nested@)
                &&& after.completed@ == self.completed@.insert(text)
                &&& after.completed_failures@ == self.completed_failures@.remove(
                    text,
                )
                &&& after == (SitemapRequestList {
                    current: None,
                    pending: after.pending,
                    completed: after.completed,
                    completed_failures: after.completed_failures,
                    ..self
                })
            },
        }
    }

    /// Records that the current sitemap has been read to its end: the sitemaps that it names come
    /// next, in their order.
    pub fn complete_current(&mut self)
        requires
            old(self).wf(),
        ensures
            final(self).wf(),
            old(self).has_completed(*final(self)),
    {
        let mut current: Option<ActiveSitemap> = None;
        std::mem::swap(&mut self.current, &mut current);
        if let Some(active) = current {
            let url: String = owned(active.pending.url.as_str());
            let mut nested: Vec<PendingSitemap> = active.nested;
            let ghost all = nested@;
            let ghost waiting = self.pending@;
            assert(waiting + backwards(all).subrange(0, 0) =~= waiting);
            while nested.len() > 0
                invariant
                    nested@.len() <= all.len(),
                    nested@ == all.subrange(0, nested@.len() as int),
                    self.pending@ == waiting + backwards(all).subrange(
                        0,
                        all.len() - nested@.len(),
                    ),
                    *self == (SitemapRequestList {
                        current: None,
                        pending: self.pending,
                        ..*old(self)
                    }),
                decreases nested@.len(),
            {
                let ghost before = nested@;
                let ghost done = all.len() - before.len();
                let next: PendingSitemap = nested.pop().unwrap();
                self.pending.push(next);
                assert(nested@ =~= all.subrange(0, nested@.len() as int));
                assert(next == backwards(all)[done]);
                assert(self.pending@ =~= waiting + backwards(all).subrange(0, done + 1));
            }
            assert(backwards(all).subrange(0, all.len() as int) =~= backwards(all));
            self.completed_failures.remove(url.as_str());
            self.completed.insert(url.as_str());
        }
    }

    /// Whether `after` is the list once the current sitemap has broken off.
    pub open spec fn has_given_up(self, after: SitemapRequestList) -> bool {
        &&& match self.current {
            None => after == self,
            Some(current) => {
                let text = current.pending.url@.text;
                &&& after.seen_sitemaps@ == self.seen_sitemaps@.difference(
                    part_texts(pending_parts(current.nested@)),
                )
                &&& after.completed@ == self.completed@.insert(text)
                &&& after.completed_failures@ == self.completed_failures@.insert(
                    text,
                )
                &&& after.successful_roots@ == if current.pending.depth == 0 {
                    self.successful_roots@.remove(text)
                } else {
                    self.successful_roots@
                }
                &&& after.failed_roots@ == if current.pending.depth == 0 {
                    self.failed_roots@.insert(text)
                } else {
                    self.failed_roots@
                }
                &&& after == (SitemapRequestList {
                    current: None,
                    seen_sitemaps: after.seen_sitemaps,
                    completed: after.completed,
                    completed_failures: after.completed_failures,
                    successful_roots: after.successful_roots,
                    failed_roots: after.failed_roots,
                    ..self
                })
            },
        }
    }

    /// Records that the body of the current sitemap failed: the sitemaps that it named so far may be
    /// named again by others.
    pub fn fail_current(&mut self)
        requires
            old(self).wf(),
        ensures
            final(self).wf(),
            old(self).has_given_up(*final(self)),
    {
        let mut current: Option<ActiveSitemap> = None;
        std::mem::swap(&mut self.current, &mut current);
        if let Some(active) = current {
            let url: String = owned(active.pending.url.as_str());
            let ghost parts = pending_parts(active.nested@);
            let ghost seen = self.seen_sitemaps@;
            let mut i: usize = 0;
            while i < active.nested.len()
                invariant
                    i <= active.nested.len(),
                    parts == pending_parts(active.nested@),
                    *self == (SitemapRequestList {
                        current: None,
                        seen_sitemaps: self.seen_sitemaps,
                        ..*old(self)
                    }),
                    forall|t: Seq<char>| #[trigger]
                        self.seen_sitemaps@.contains(t) <==> seen.contains(t) && !exists|j: int|
                            0 <= j < i && (#[trigger] parts[j]).0.text == t,
                decreases active.nested.len() - i,
            {
                assert(parts[i as int].0 == active.nested@[i as int].url@);
                self.seen_sitemaps.remove(active.nested[i].url.as_str());
                i = i + 1;
            }
            assert(self.seen_sitemaps@ =~= seen.difference(part_texts(parts)));
            if active.pending.depth == 0 {
                self.successful_roots.remove(url.as_str());
                self.failed_roots.insert(url.as_str());
            }
            self.completed_failures.insert(url.as_str());
            self.completed.insert(url.as_str());
        }
    }

    /// Returns whether this list has permanently stopped producing requests.
    pub fn is_finished(&self) -> (r: bool)
        ensures
            r == (self.stopped() || (self.current is None && last_open(
                self.pending@,
                self.completed@,
            ) is None)),
    {
        let limited: bool = match self.limit {
            Some(limit) => self.emitted_total >= limit,
            None => false,
        };
        if self.finished || limited {
            return true;
        }
        if self.current.is_some() {
            return false;
        }
        let mut k: usize = self.pending.len();
        assert(self.pending@.subrange(0, k as int) =~= self.pending@);
        while k > 0
            invariant
                k <= self.pending.len(),
                !self.stopped(),
                self.current is None,
                last_open(self.pending@, self.completed@) == last_open(
                    self.pending@.subrange(0, k as int),
                    self.completed@,
                ),
            decreases k,
        {
            assert(self.pending@.subrange(0, k as int).drop_last() =~= self.pending@.subrange(
                0,
                k - 1,
            ));
            if !self.completed.contains(self.pending[k - 1].url.as_str()) {
                return false;
            }
            k = k - 1;
        }
        true
    }

    /// Returns the number of requests emitted by this list.
    pub fn processed_count(&self) -> (r: u64)
        ensures
            r == self.emitted_total,
    {
        self.emitted_total
    }
}

/// What stored progress restores is the progress that was stored: the sitemap in progress comes
/// first and its entries that were handed out are skipped, and the others follow in their order and
/// with their depths. This takes URLs that are not listed twice and whose texts parse back to
/// themselves.
pub proof fn progress_survives_a_restart(
    list: SitemapRequestList,
    state: PersistedState,
    total: u64,
    with_pending: bool,
    fresh: SitemapRequestList,
)
    requires
        list.is_stored_as(state, total, with_pending),
        forall|i: int|
            0 <= i < list.waiting().len() ==> parsed_url((#[trigger] list.waiting()[i]).url@.text)
                == Ok::<UrlParts, Seq<char>>(list.waiting()[i].url@),
        forall|i: int, j: int|
            0 <= i < j < list.waiting().len() ==> (#[trigger] list.waiting()[i]).url@.text != (
            #[trigger] list.waiting()[j]).url@.text,
        list.in_progress() is Some ==> parsed_url(list.in_progress().unwrap().0.text) == Ok::<
            UrlParts,
            Seq<char>,
        >(list.in_progress().unwrap().0),
    ensures
        fresh.restores(state) == match list.in_progress() {
            Some(p) => pending_parts(list.waiting()).push(p),
            None => pending_parts(list.waiting()),
        },
        state.emitted_in_progress == list.emitted_in_progress(with_pending),
        texts_of(state.completed@) == list.completed@,
        texts_of(state.completed_failures@) == list.completed_failures@,
        state.emitted_total == total,
{
    lemma_depths(list.waiting());
    lemma_restored(list.waiting(), state.pending_depths@, url_texts(fresh.roots@));
}

proof fn lemma_depths(pending: Seq<PendingSitemap>)
    requires
        forall|i: int, j: int|
            0 <= i < j < pending.len() ==> (#[trigger] pending[i]).url@.text != (
            #[trigger] pending[j]).url@.text,
    ensures
        forall|i: int|
            0 <= i < pending.len() ==> depths_of(pending).contains_key(
                (#[trigger] pending[i]).url@.text,
            ) && depths_of(pending)[pending[i].url@.text] == pending[i].depth,
    decreases pending.len(),
{
    if pending.len() > 0 {
        let front = pending.drop_last();
        assert forall|i: int, j: int| 0 <= i < j < front.len() implies (#[trigger] front[i]).url@.text
            != (#[trigger] front[j]).url@.text by {
            assert(pending[i].url@.text != pending[j].url@.text);
        }
        lemma_depths(front);
        assert forall|i: int| 0 <= i < pending.len() implies depths_of(pending).contains_key(
            (#[trigger] pending[i]).url@.text,
        ) && depths_of(pending)[pending[i].url@.text] == pending[i].depth by {
            if i < front.len() {
                assert(front[i] == pending[i]);
                assert(pending[i].url@.text != pending[pending.len() - 1].url@.text);
            }
        }
    }
}

proof fn lemma_restored(
    pending: Seq<PendingSitemap>,
    depths: Map<Seq<char>, u8>,
    roots: Set<Seq<char>>,
)
    requires
        forall|i: int|
            0 <= i < pending.len() ==> depths.contains_key((#[trigger] pending[i]).url@.text)
                && depths[pending[i].url@.text] == pending[i].depth,
        forall|i: int|
            0 <= i < pending.len() ==> parsed_url((#[trigger] pending[i]).url@.text) == Ok::<
                UrlParts,
                Seq<char>,
            >(pending[i].url@),
    ensures
        restored_pending(pending_texts(pending), depths, roots) == pending_parts(pending),
    decreases pending.len(),
{
    if pending.len() == 0 {
        assert(pending_parts(pending) =~= seq![]);
    } else {
        let front = pending.drop_last();
        assert forall|i: int| 0 <= i < front.len() implies depths.contains_key(
            (#[trigger] front[i]).url@.text,
        ) && depths[front[i].url@.text] == front[i].depth by {
            assert(front[i] == pending[i]);
        }
        assert forall|i: int| 0 <= i < front.len() implies parsed_url(
            (#[trigger] front[i]).url@.text,
        ) == Ok::<UrlParts, Seq<char>>(front[i].url@) by {
            assert(front[i] == pending[i]);
        }
        lemma_restored(front, depths, roots);
        assert(pending_texts(pending).drop_first() =~= pending_texts(front));
        let last = pending[pending.len() - 1];
        assert(pending_texts(pending)[0] == last.url@.text);
        assert(pending_parts(pending) =~= pending_parts(front).push(last.parts()));
    }
}

/// Of the configured sitemaps each counts once, where it comes first.
pub proof fn each_root_counts_once(urls: Seq<Url>, url: Url)
    ensures
        (exists|i: int| 0 <= i < urls.len() && (#[trigger] urls[i])@.text == url@.text) ==> unique_urls(
            urls.push(url),
        ) == unique_urls(urls),
        !(exists|i: int| 0 <= i < urls.len() && (#[trigger] urls[i])@.text == url@.text)
            ==> unique_urls(urls.push(url)) == unique_urls(urls).push(url@),
        unique_urls(Seq::<Url>::empty()).len() == 0,
{
    assert(urls.push(url).drop_last() =~= urls);
}

/// Sitemaps are taken from the end, so a list put in backwards is read in its order.
pub proof fn backwards_turns_the_order<A>(s: Seq<A>, i: int)
    requires
        0 <= i < s.len(),
    ensures
        backwards(s).len() == s.len(),
        backwards(s)[s.len() - 1 - i] == s[i],
        backwards(backwards(s)) == s,
{
    assert(backwards(backwards(s)) =~= s);
}

/// The sitemap that is opened next is the last that waits and is not done yet.
pub proof fn which_sitemap_is_next(pending: Seq<PendingSitemap>, completed: Set<Seq<char>>, at: int)
    requires
        -1 <= at < pending.len(),
        forall|k: int|
            at < k < pending.len() ==> completed.contains((#[trigger] pending[k]).url@.text),
        at >= 0 ==> !completed.contains(pending[at].url@.text),
    ensures
        at >= 0 ==> last_open(pending, completed) == Some(at),
        at < 0 ==> last_open(pending, completed) is None,
    decreases pending.len(),
{
    if pending.len() > 0 && at < pending.len() - 1 {
        let front = pending.drop_last();
        assert(completed.contains(pending[pending.len() - 1].url@.text));
        assert forall|k: int| at < k < front.len() implies completed.contains(
            (#[trigger] front[k]).url@.text,
        ) by {
            assert(front[k] == pending[k]);
        }
        which_sitemap_is_next(front, completed, at);
    }
}

/// The next step of a list: nothing more where it is finished or has given out as many requests as it
/// may; a request that is ready, counted, and with a checkpoint at every hundredth where the list is
/// saved; else reading on in the sitemap that is open; else opening the next, or the end, which is a
/// failure where every configured sitemap failed.
pub proof fn what_a_list_does_next(
    before: SitemapRequestList,
    auto_persist: bool,
    r: ListStep,
    after: SitemapRequestList,
)
    requires
        before.stepped(auto_persist, r, after),
        before.emitted_total < u64::MAX,
    ensures
        ({
            let full = before.limit is Some && before.emitted_total >= before.limit.unwrap();
            let over = before.finished || full;
            let open = last_open(before.pending@, before.completed@);
            &&& over ==> r is Done && after.finished && after.current is None
            &&& !over && before.pending_emission is Some ==> {
                &&& r is Emit
                &&& r->request == before.pending_emission.unwrap()
                &&& after.emitted_total == before.emitted_total + 1
                &&& after.pending_emission is None
                &&& after.current == before.current
                &&& r->checkpoint is Some <==> auto_persist && before.persistent
                    && (before.emitted_total + 1) % 100 == 0
            }
            &&& !over && before.pending_emission is None && before.current is Some ==> r is Read
                && after == before
            &&& !over && before.pending_emission is None && before.current is None && open is Some
                ==> {
                &&& r is Open
                &&& r->Open_0.url@ == before.pending@[open.unwrap()].url@
                &&& r->Open_0.depth == before.pending@[open.unwrap()].depth
                &&& after.pending@.len() == open.unwrap() + 1
                &&& !after.finished
                &&& after.seen_sitemaps@.contains(r->Open_0.url@.text)
            }
            &&& !over && before.pending_emission is None && before.current is None && open is None
                ==> {
                let all_failed = before.roots@.len() > 0 && before.successful_roots@.len() == 0
                    && before.failed_roots@.len() == before.roots@.len();
                &&& after.finished
                &&& all_failed <==> r is Failed
                &&& !all_failed <==> r is Done
                &&& r is Failed ==> r->Failed_0 is Retry && r->Failed_0->Retry_0@[0].message
                    == "all configured root sitemaps failed"@
            }
        }),
{
    lemma_last_open_bound(before.pending@, before.completed@);
}

proof fn lemma_last_open_bound(pending: Seq<PendingSitemap>, completed: Set<Seq<char>>)
    ensures
        last_open(pending, completed) is Some ==> 0 <= last_open(pending, completed).unwrap()
            < pending.len(),
    decreases pending.len(),
{
    if pending.len() > 0 {
        lemma_last_open_bound(pending.drop_last(), completed);
    }
}

/// An opened sitemap is the one that is read, with nothing seen of it, past the entries that were read
/// before a restart; a root counts as one that could be read. It waits no longer.
pub proof fn what_opening_does(
    before: SitemapRequestList,
    next: PendingSitemap,
    after: SitemapRequestList,
)
    requires
        before.has_opened(next, after),
        before.pending@.len() > 0,
    ensures
        after.pending@.len() == before.pending@.len() - 1,
        after.current is Some,
        after.current.unwrap().pending == next,
        after.current.unwrap().entries_seen == 0,
        after.current.unwrap().nested@.len() == 0,
        before.resume_skip is None ==> after.current.unwrap().skip_entries == 0,
        before.resume_skip is Some ==> after.current.unwrap().skip_entries
            == before.resume_skip.unwrap(),
        after.resume_skip is None,
        next.depth == 0 ==> after.successful_roots@.contains(next.url@.text),
        next.depth > 0 ==> after.successful_roots@ == before.successful_roots@,
        after.failed_roots == before.failed_roots,
        after.completed == before.completed,
        after.emitted_urls == before.emitted_urls,
        after.emitted_total == before.emitted_total,
{
}

/// A sitemap that could not be fetched is done with and counts as failed, a root also among the roots
/// that failed.
pub proof fn what_a_failed_fetch_does(
    before: SitemapRequestList,
    failed: PendingSitemap,
    after: SitemapRequestList,
)
    requires
        before.has_failed(failed, after),
        before.pending@.len() > 0,
    ensures
        after.pending@.len() == before.pending@.len() - 1,
        after.completed@.contains(failed.url@.text),
        after.completed_failures@.contains(failed.url@.text),
        failed.depth == 0 ==> after.failed_roots@.contains(failed.url@.text),
        failed.depth > 0 ==> after.failed_roots@ == before.failed_roots@,
        after.successful_roots == before.successful_roots,
        after.resume_skip is None,
        after.current == before.current,
        after.emitted_total == before.emitted_total,
{
}

/// Every entry that is read counts. One whose address is a URL that was not given out before becomes
/// the next request, with the list's label and data, unless it was counted before a restart; any other
/// becomes none.
pub proof fn what_an_entry_does(
    before: SitemapRequestList,
    entry: SitemapEntry,
    after: SitemapRequestList,
)
    requires
        before.current is Some,
        before.current.unwrap().entries_seen < u64::MAX,
        before.took_event(SitemapEvent::Entry(entry), after),
    ensures
        after.current is Some,
        after.current.unwrap().entries_seen == before.current.unwrap().entries_seen + 1,
        after.current.unwrap().nested == before.current.unwrap().nested,
        after.pending == before.pending,
        after.emitted_total == before.emitted_total,
        parsed_url(entry.loc@) is Err ==> after.pending_emission is None,
        parsed_url(entry.loc@) is Ok ==> {
            let url = parsed_url(entry.loc@)->Ok_0;
            let known = before.emitted_urls@.contains(url.text);
            let read_before = before.current.unwrap().entries_seen
                < before.current.unwrap().skip_entries;
            &&& after.emitted_urls@.contains(url.text)
            &&& known || read_before ==> after.pending_emission is None
            &&& !known && !read_before ==> {
                &&& after.pending_emission is Some
                &&& after.pending_emission.unwrap().url@ == url
                &&& after.pending_emission.unwrap().method is Get
                &&& opt_view(after.pending_emission.unwrap().label) == opt_view(before.label)
                &&& after.pending_emission.unwrap().user_data@ == before.user_data@
                &&& after.pending_emission.unwrap().crawl_depth == 0
            }
        },
{
}

/// A sitemap within a sitemap is noted where its address is a URL that was not seen before and the
/// sitemap around it stands fewer than five levels deep; it stands one level deeper, unless it is one
/// of the roots. It is read only once the one around it is done.
pub proof fn what_a_nested_sitemap_does(
    before: SitemapRequestList,
    location: String,
    after: SitemapRequestList,
)
    requires
        before.current is Some,
        before.took_event(SitemapEvent::Nested(location), after),
    ensures
        after.current is Some,
        after.pending == before.pending,
        after.current.unwrap().entries_seen == before.current.unwrap().entries_seen,
        after.emitted_urls == before.emitted_urls,
        ({
            let (old_nested, new_nested) = (
                before.current.unwrap().nested@,
                after.current.unwrap().nested@,
            );
            let depth = before.current.unwrap().pending.depth;
            &&& parsed_url(location@) is Err || depth >= 5 ==> new_nested == old_nested
                && after.seen_sitemaps@ == before.seen_sitemaps@
            &&& parsed_url(location@) is Ok && depth < 5 ==> {
                let url = parsed_url(location@)->Ok_0;
                &&& after.seen_sitemaps@.contains(url.text)
                &&& before.seen_sitemaps@.contains(url.text) ==> new_nested == old_nested
                &&& !before.seen_sitemaps@.contains(url.text) ==> {
                    &&& new_nested.len() == old_nested.len() + 1
                    &&& new_nested.last().url@ == url
                    &&& (exists|i: int|
                        0 <= i < before.roots@.len() && (#[trigger] before.roots@[i])@.text
                            == url.text) ==> new_nested.last().depth == 0
                    &&& !(exists|i: int|
                        0 <= i < before.roots@.len() && (#[trigger] before.roots@[i])@.text
                            == url.text) ==> new_nested.last().depth == depth + 1
                }
            }
        }),
{
    let (old_nested, new_nested) = (before.current.unwrap().nested@, after.current.unwrap().nested@);
    let depth = before.current.unwrap().pending.depth;
    if parsed_url(location@) is Ok && depth < 5 {
        let url = parsed_url(location@)->Ok_0;
        if !before.seen_sitemaps@.contains(url.text) {
            assert(pending_parts(new_nested).len() == pending_parts(old_nested).len() + 1);
            assert(pending_parts(new_nested).last() == new_nested.last().parts());
        }
    }
}

/// A sitemap that was read is done with, and no longer counts as failed; the sitemaps within it wait
/// now, the first of them to be read first.
pub proof fn what_the_end_of_a_sitemap_does(before: SitemapRequestList, after: SitemapRequestList)
    requires
        before.current is Some,
        before.has_completed(after),
    ensures
        ({
            let current = before.current.unwrap();
            let text = current.pending.url@.text;
            &&& after.current is None
            &&& after.completed@.contains(text)
            &&& !after.completed_failures@.contains(text)
            &&& after.pending@.len() == before.pending@.len() + current.nested@.len()
            &&& current.nested@.len() > 0 ==> after.pending@.last() == current.nested@[0]
            &&& current.nested@.len() > 0 ==> after.pending@[before.pending@.len() as int]
                == current.nested@.last()
            &&& after.successful_roots == before.successful_roots
            &&& after.failed_roots == before.failed_roots
            &&& after.seen_sitemaps == before.seen_sitemaps
        }),
{
    let current = before.current.unwrap();
    assert(after.pending@ == before.pending@ + backwards(current.nested@));
}

/// A sitemap whose body broke off is done with and counts as failed, a root no longer as one that
/// could be read; the sitemaps within it are as if they had not been seen.
pub proof fn what_giving_up_does(before: SitemapRequestList, after: SitemapRequestList, i: int)
    requires
        before.current is Some,
        before.has_given_up(after),
    ensures
        ({
            let current = before.current.unwrap();
            let text = current.pending.url@.text;
            &&& after.current is None
            &&& after.completed@.contains(text)
            &&& after.completed_failures@.contains(text)
            &&& after.pending == before.pending
            &&& current.pending.depth == 0 ==> after.failed_roots@.contains(text)
                && !after.successful_roots@.contains(text)
            &&& current.pending.depth > 0 ==> after.failed_roots@ == before.failed_roots@
                && after.successful_roots@ == before.successful_roots@
            &&& 0 <= i < current.nested@.len() ==> !after.seen_sitemaps@.contains(
                current.nested@[i].url@.text,
            )
        }),
{
    let current = before.current.unwrap();
    if 0 <= i < current.nested@.len() {
        let parts = pending_parts(current.nested@);
        assert(parts[i].0.text == current.nested@[i].url@.text);
        assert(part_texts(parts).contains(current.nested@[i].url@.text));
    }
}

/// What is saved of a list: the second version of its form, what is done and what failed, the sitemap
/// that is being read with the entries of it that were given out, and the waiting ones in the order in
/// which they would be read, each with its depth.
pub proof fn what_is_saved_of_a_list(
    list: SitemapRequestList,
    state: PersistedState,
    total: u64,
    with_pending: bool,
    i: int,
)
    requires
        list.is_stored_as(state, total, with_pending),
        list.wf(),
    ensures
        state.version == 2,
        state.emitted_total == total,
        list.current is Some ==> {
            let current = list.current.unwrap();
            &&& state.in_progress is Some && state.in_progress.unwrap()@ == current.pending.url@.text
            &&& state.in_progress_depth == Some(current.pending.depth)
            &&& with_pending || list.pending_emission is None ==> state.emitted_in_progress
                == current.entries_seen
            &&& !with_pending && list.pending_emission is Some ==> state.emitted_in_progress
                == current.entries_seen - 1
            &&& state.pending@.len() == list.pending@.len()
            &&& 0 <= i < list.pending@.len() ==> state.pending@[i]@ == list.pending@[list.pending@.len()
                - 1 - i].url@.text
        },
        list.current is None && list.resume_skip is None ==> {
            &&& state.in_progress is None
            &&& state.emitted_in_progress == 0
            &&& state.pending@.len() == list.pending@.len()
            &&& 0 <= i < list.pending@.len() ==> state.pending@[i]@ == list.pending@[list.pending@.len()
                - 1 - i].url@.text
        },
        list.current is None && list.resume_skip is Some && list.pending@.len() > 0 ==> {
            &&& state.in_progress is Some && state.in_progress.unwrap()@
                == list.pending@.last().url@.text
            &&& state.emitted_in_progress == list.resume_skip.unwrap()
            &&& state.pending@.len() == list.pending@.len() - 1
        },
{
    assert(views(state.pending@).len() == state.pending@.len());
    assert(pending_texts(list.waiting()).len() == list.waiting().len());
    if 0 <= i < state.pending@.len() {
        assert(views(state.pending@)[i] == state.pending@[i]@);
    }
}

/// A waiting sitemap's depth is saved under its address.
pub proof fn depths_are_saved(pending: Seq<PendingSitemap>, next: PendingSitemap, text: Seq<char>)
    ensures
        depths_of(pending.push(next)).contains_key(next.url@.text),
        depths_of(pending.push(next))[next.url@.text] == next.depth,
        text != next.url@.text ==> depths_of(pending.push(next)).contains_key(text)
            == depths_of(pending).contains_key(text) && (depths_of(pending).contains_key(text)
            ==> depths_of(pending.push(next))[text] == depths_of(pending)[text]),
        depths_of(Seq::<PendingSitemap>::empty()).dom() == Set::<Seq<char>>::empty(),
{
    assert(pending.push(next).drop_last() =~= pending);
}

/// A saved sitemap without a depth is one of the roots or stands one level below them. What cannot be
/// read as a URL is left out, and the first to be read comes last.
pub proof fn what_is_restored_of_the_waiting(
    text: Seq<char>,
    rest: Seq<Seq<char>>,
    depths: Map<Seq<char>, u8>,
    roots: Set<Seq<char>>,
)
    ensures
        ({
            let all = restored_pending(seq![text] + rest, depths, roots);
            let others = restored_pending(rest, depths, roots);
            &&& parsed_url(text) is Err ==> all == others
            &&& parsed_url(text) is Ok ==> {
                let url = parsed_url(text)->Ok_0;
                &&& all.len() == others.len() + 1
                &&& all.last().0 == url
                &&& depths.contains_key(url.text) ==> all.last().1 == depths[url.text]
                &&& !depths.contains_key(url.text) && roots.contains(url.text) ==> all.last().1 == 0
                &&& !depths.contains_key(url.text) && !roots.contains(url.text) ==> all.last().1
                    == 1
                &&& all.drop_last() == others
            }
        }),
{
    let texts = seq![text] + rest;
    assert(texts[0] == text);
    assert(texts.drop_first() =~= rest);
    let others = restored_pending(rest, depths, roots);
    if parsed_url(text) is Ok {
        assert(restored_pending(texts, depths, roots).drop_last() =~= others);
    }
}

/// A response is accepted exactly where its status is a success, of the two hundreds; any other is worth
/// another try, with a text that names the sitemap and the status.
pub proof fn which_responses_are_accepted(text: Seq<char>, status: u16, r: Result<(), CrawlError>)
    requires
        is_checked(text, status, r),
    ensures
        r is Ok <==> 200 <= status <= 299,
        r is Err ==> r->Err_0 is Retry && r->Err_0->Retry_0@.len() == 1
            && r->Err_0->Retry_0@[0].message == "sitemap "@ + text + " returned HTTP "@
            + status_text_spec(status),
{
}

/// Progress is taken up once, and only in the second version of its form: what was done and what failed
/// is so again, counts go on, and a root that was done counts as read or as failed.
pub proof fn what_taking_up_does(
    before: SitemapRequestList,
    saved: Option<PersistedState>,
    r: Result<(), CrawlError>,
    after: SitemapRequestList,
    text: Seq<char>,
)
    requires
        before.has_loaded(saved, r, after),
    ensures
        r is Err <==> !before.loaded && saved is Some && saved.unwrap().version != 2,
        r is Err ==> after == before && r->Err_0 is NonRetryable && r->Err_0->NonRetryable_0@[0].message
            == "unsupported sitemap state version "@ + decimal(saved.unwrap().version as nat),
        r is Ok && before.loaded ==> after == before,
        r is Ok ==> after.loaded,
        r is Ok && !before.loaded && saved is None ==> after.pending == before.pending
            && after.emitted_total == before.emitted_total && after.completed == before.completed,
        r is Ok && !before.loaded && saved is Some ==> {
            let state = saved.unwrap();
            let root = exists|i: int|
                0 <= i < before.roots@.len() && (#[trigger] before.roots@[i])@.text == text;
            &&& after.emitted_total == state.emitted_total
            &&& after.completed@ == texts_of(state.completed@)
            &&& after.completed_failures@ == texts_of(state.completed_failures@)
            &&& after.current == before.current
            &&& texts_of(state.completed@).contains(text) ==> after.seen_sitemaps@.contains(text)
            &&& root && texts_of(state.completed@).contains(text) && !texts_of(
                state.completed_failures@,
            ).contains(text) ==> after.successful_roots@.contains(text)
            &&& root && texts_of(state.completed@).contains(text) && texts_of(
                state.completed_failures@,
            ).contains(text) ==> after.failed_roots@.contains(text)
            &&& after.failed_roots@.contains(text) && !before.failed_roots@.contains(text) ==> root
                && texts_of(state.completed@).contains(text) && texts_of(
                state.completed_failures@,
            ).contains(text)
            &&& after.successful_roots@.contains(text) && !before.successful_roots@.contains(text)
                ==> root && texts_of(state.completed@).contains(text) && !texts_of(
                state.completed_failures@,
            ).contains(text)
            &&& state.in_progress is Some && parsed_url(state.in_progress.unwrap()@) is Ok
                ==> after.resume_skip == Some(state.emitted_in_progress) && after.pending@.len() > 0
                && after.pending@.last().url@ == parsed_url(state.in_progress.unwrap()@)->Ok_0 && (
            state.in_progress_depth is Some ==> after.pending@.last().depth
                == state.in_progress_depth.unwrap())
        },
{
    if r is Ok && !before.loaded && saved is Some {
        let state = saved.unwrap();
        if state.in_progress is Some && parsed_url(state.in_progress.unwrap()@) is Ok {
            let parts = before.restores(state);
            assert(parts.len() > 0);
            assert(pending_parts(after.pending@).last() == after.pending@.last().parts());
        }
    }
}

} // verus!
