//! Proxy configuration and rotation.
//!
//! In a tiered configuration blocking escalates a domain, periodic requests probe the next lower
//! tier, and an empty slot means a direct request without a proxy.

use crate::request::Request;
use crate::session::SessionId;
use crate::text::owned;
use crate::text_map::TextMap;
use crate::url::{opt_view, Url, UrlParts};
use vstd::prelude::*;

verus! {

/// How a static list of proxies is walked.
#[derive(Clone, Copy, Debug, PartialEq, Eq, Structural)]
pub enum RotationStrategy {
    /// One after the other.
    RoundRobin,
    /// At random.
    Random,
}

impl Default for RotationStrategy {
    fn default() -> (r: Self)
        ensures
            r == RotationStrategy::RoundRobin,
    {
        RotationStrategy::RoundRobin
    }
}

/// The circumstances in which a proxy is asked for.
pub struct ProxyResolveContext<'a> {
    /// The request that the proxy is to serve.
    pub request: Option<&'a Request>,
    /// The session that the proxy is to serve.
    pub session_id: Option<&'a SessionId>,
    /// The number of the attempt.
    pub attempt: u32,
}

impl<'a> ProxyResolveContext<'a> {
    /// A context without request and session.
    pub fn new() -> (r: ProxyResolveContext<'a>)
        ensures
            r.request is None,
            r.session_id is None,
            r.attempt == 0,
    {
        ProxyResolveContext { request: None, session_id: None, attempt: 0 }
    }

    /// Sets the request.
    pub fn request(self, value: &'a Request) -> (r: ProxyResolveContext<'a>)
        ensures
            r.request == Some(value),
            r.session_id == self.session_id,
            r.attempt == self.attempt,
    {
        ProxyResolveContext {
            request: Some(value),
            session_id: self.session_id,
            attempt: self.attempt,
        }
    }

    /// Sets the session.
    pub fn session_id(self, value: &'a SessionId) -> (r: ProxyResolveContext<'a>)
        ensures
            r.request == self.request,
            r.session_id == Some(value),
            r.attempt == self.attempt,
    {
        ProxyResolveContext {
            request: self.request,
            session_id: Some(value),
            attempt: self.attempt,
        }
    }

    /// Sets the number of the attempt.
    pub fn attempt(self, value: u32) -> (r: ProxyResolveContext<'a>)
        ensures
            r.request == self.request,
            r.session_id == self.session_id,
            r.attempt == value,
    {
        ProxyResolveContext { request: self.request, session_id: self.session_id, attempt: value }
    }

    /// The host that the proxy's tier is kept for.
    pub open spec fn host_spec(self) -> Seq<char> {
        match self.request {
            Some(request) => host_key(request.url@),
            None => seq![],
        }
    }
}

/// The host of a URL, empty where it has none.
pub open spec fn host_key(url: UrlParts) -> Seq<char> {
    match url.host {
        Some(host) => host,
        None => seq![],
    }
}

fn host_of(url: &Url) -> (r: String)
    ensures
        r@ == host_key(url@),
{
    match url.host_str() {
        Some(host) => owned(host),
        None => {
            let r: String = String::new();
            assert(r@ =~= seq![]);
            r
        },
    }
}

/// A proxy taken apart.
#[derive(Debug, PartialEq)]
pub struct ProxyInfo {
    /// The whole URL.
    pub url: Url,
    /// The host name.
    pub hostname: String,
    /// The port.
    pub port: u16,
    /// The user name, where there is one.
    pub username: Option<String>,
    /// The password, where there is one.
    pub password: Option<String>,
    /// The tier that the proxy came from.
    pub tier: Option<u8>,
    /// The session that the proxy serves.
    pub session_id: Option<SessionId>,
}

impl ProxyInfo {
    /// Whether the parts belong to `url`: port 80 where none is known, no empty user name.
    pub open spec fn describes(self, url: UrlParts) -> bool {
        &&& self.url@ == url
        &&& self.hostname@ == host_key(url)
        &&& self.port == match url.port {
            Some(p) => p,
            None => 80,
        }
        &&& opt_view(self.username) == if url.username.len() == 0 {
            None
        } else {
            Some(url.username)
        }
        &&& opt_view(self.password) == url.password
    }

    /// Takes a proxy URL apart.
    pub fn from_url(url: Url) -> (r: ProxyInfo)
        ensures
            r.describes(url@),
            r.tier is None,
            r.session_id is None,
    {
        let hostname: String = host_of(&url);
        let port: u16 = match url.port_or_known_default() {
            Some(p) => p,
            None => 80,
        };
        let username: Option<String> = if url.username().unicode_len() == 0 {
            None
        } else {
            Some(owned(url.username()))
        };
        let password: Option<String> = match url.password() {
            Some(p) => Some(owned(p)),
            None => None,
        };
        ProxyInfo { url, hostname, port, username, password, tier: None, session_id: None }
    }

    /// Sets the tier.
    pub fn with_tier(self, value: u8) -> (r: ProxyInfo)
        ensures
            r == (ProxyInfo { tier: Some(value), ..self }),
    {
        let mut out = self;
        out.tier = Some(value);
        out
    }

    /// Sets the session.
    pub fn with_session_id(self, value: SessionId) -> (r: ProxyInfo)
        ensures
            r == (ProxyInfo { session_id: Some(value), ..self }),
    {
        let mut out = self;
        out.session_id = Some(value);
        out
    }
}

/// The place of a domain among the tiers.
#[derive(Clone, Copy, Debug, PartialEq, Eq, Structural)]
pub struct DomainTier {
    /// The tier that serves the domain.
    pub tier: usize,
    /// The requests since the tier was reached.
    pub requests: u32,
    /// The lower tier that is being tried, if one is.
    pub probing: Option<usize>,
}

impl DomainTier {
    /// A domain begins at the lowest tier.
    pub open spec fn initial() -> DomainTier {
        DomainTier { tier: 0, requests: 0, probing: None }
    }

    /// The domain after one more request among `tiers` tiers.
    pub open spec fn served(self, tiers: nat, probe_interval: nat) -> DomainTier {
        let tier = if self.tier < tiers {
            self.tier
        } else {
            (tiers - 1) as usize
        };
        let requests = if self.requests < u32::MAX {
            (self.requests + 1) as u32
        } else {
            u32::MAX
        };
        DomainTier {
            tier,
            requests,
            probing: if tier > 0 && requests as nat % probe_interval == 0 {
                Some((tier - 1) as usize)
            } else {
                self.probing
            },
        }
    }

    /// The tier that serves the request which led to this state.
    pub open spec fn serving(self, probe_interval: nat) -> usize {
        if self.tier > 0 && self.requests as nat % probe_interval == 0 {
            (self.tier - 1) as usize
        } else {
            self.tier
        }
    }

    /// The domain after a blocked request: a failed probe changes nothing else, any other block
    /// leads one tier up.
    pub open spec fn blocked(self, tiers: nat) -> DomainTier {
        if self.probing is Some {
            DomainTier { probing: None, ..self }
        } else {
            DomainTier {
                tier: if self.tier + 1 < tiers {
                    (self.tier + 1) as usize
                } else {
                    (tiers - 1) as usize
                },
                requests: 0,
                probing: None,
            }
        }
    }

    /// The domain after a successful request: a successful probe leads to the probed tier.
    pub open spec fn succeeded(self) -> DomainTier {
        match self.probing {
            Some(probe) => DomainTier { tier: probe, requests: 0, probing: None },
            None => self,
        }
    }
}

/// Proxies in tiers, and the tier of each domain.
#[derive(Debug)]
pub struct TieredState {
    pub tiers: Vec<Vec<Option<Url>>>,
    pub probe_interval: u32,
    pub domains: TextMap<DomainTier>,
}

/// Where a proxy comes from.
#[derive(Debug)]
pub enum ProxyInner {
    /// A list of proxies.
    Static { urls: Vec<Url>, rotation: RotationStrategy, cursor: usize },
    /// A resolver outside this library.
    Custom,
    /// Proxies in tiers.
    Tiered(TieredState),
}

/// What a configuration hands out: a proxy, or none for a direct request, with its tier.
#[derive(Debug)]
pub struct ProxyChoice {
    pub url: Option<Url>,
    pub tier: Option<u8>,
}

/// Where proxies come from.
#[derive(Debug)]
pub struct ProxyConfiguration {
    pub inner: ProxyInner,
}

/// The state of a domain, the initial one where it has none yet.
pub open spec fn domain_state(domains: Map<Seq<char>, DomainTier>, host: Seq<char>) -> DomainTier {
    if domains.contains_key(host) {
        domains[host]
    } else {
        DomainTier::initial()
    }
}

/// The mathematical value of an optional URL.
pub open spec fn url_view(url: Option<Url>) -> Option<UrlParts> {
    match url {
        Some(u) => Some(u@),
        None => None,
    }
}

fn clone_url(url: &Option<Url>) -> (r: Option<Url>)
    ensures
        url_view(r) == url_view(*url),
{
    match url {
        Some(u) => Some(u.clone()),
        None => None,
    }
}

impl TieredState {
    pub open spec fn wf(self) -> bool {
        self.probe_interval > 0
    }

    fn domain(&self, host: &str) -> (r: DomainTier)
        ensures
            r == domain_state(self.domains@, host@),
    {
        match self.domains.get(host) {
            Some(d) => *d,
            None => DomainTier { tier: 0, requests: 0, probing: None },
        }
    }

    /// Hands out the proxy for a request to `host`.
    pub fn tiered_url(&mut self, host: &str) -> (r: ProxyChoice)
        requires
            old(self).wf(),
        ensures
            final(self).wf(),
            final(self).tiers == old(self).tiers,
            final(self).probe_interval == old(self).probe_interval,
            old(self).tiers@.len() == 0 ==> r.url is None && r.tier is None && final(self).domains@
                == old(self).domains@,
            old(self).tiers@.len() > 0 ==> {
                let state = domain_state(old(self).domains@, host@).served(
                    old(self).tiers@.len(),
                    old(self).probe_interval as nat,
                );
                let serving = state.serving(old(self).probe_interval as nat);
                let tier = old(self).tiers@[serving as int]@;
                &&& serving < old(self).tiers@.len()
                &&& final(self).domains@ == old(self).domains@.insert(host@, state)
                &&& r.tier == Some((serving % 256) as u8)
                &&& if tier.len() == 0 {
                    r.url is None
                } else {
                    url_view(r.url) == url_view(tier[state.requests as int % tier.len() as int])
                }
            },
    {
        let count: usize = self.tiers.len();
        if count == 0 {
            return ProxyChoice { url: None, tier: None };
        }
        let mut domain: DomainTier = self.domain(host);
        if domain.tier >= count {
            domain.tier = count - 1;
        }
        if domain.requests < u32::MAX {
            domain.requests = domain.requests + 1;
        }
        let serving: usize = if domain.tier > 0 && domain.requests % self.probe_interval == 0 {
            domain.probing = Some(domain.tier - 1);
            domain.tier - 1
        } else {
            domain.tier
        };
        self.domains.insert(host, domain);
        let number: u8 = (serving % 256) as u8;
        let tier: &Vec<Option<Url>> = &self.tiers[serving];
        if tier.len() == 0 {
            return ProxyChoice { url: None, tier: Some(number) };
        }
        let index: usize = domain.requests as usize % tier.len();
        ProxyChoice { url: clone_url(&tier[index]), tier: Some(number) }
    }

    /// Records that `host` blocked a request.
    pub fn report_blocked(&mut self, host: &str)
        requires
            old(self).wf(),
        ensures
            final(self).wf(),
            final(self).tiers == old(self).tiers,
            final(self).probe_interval == old(self).probe_interval,
            final(self).domains@ == if old(self).tiers@.len() == 0 {
                old(self).domains@
            } else {
                old(self).domains@.insert(
                    host@,
                    domain_state(old(self).domains@, host@).blocked(old(self).tiers@.len()),
                )
            },
    {
        let count: usize = self.tiers.len();
        if count == 0 {
            return;
        }
        let mut domain: DomainTier = self.domain(host);
        if domain.probing.is_some() {
            domain.probing = None;
        } else {
            domain.tier = if domain.tier < count - 1 {
                domain.tier + 1
            } else {
                count - 1
            };
            domain.requests = 0;
        }
        self.domains.insert(host, domain);
    }

    /// Records that `host` served a request.
    pub fn report_success(&mut self, host: &str)
        requires
            old(self).wf(),
        ensures
            final(self).wf(),
            final(self).tiers == old(self).tiers,
            final(self).probe_interval == old(self).probe_interval,
            final(self).domains@ == old(self).domains@.insert(
                host@,
                domain_state(old(self).domains@, host@).succeeded(),
            ),
    {
        let mut domain: DomainTier = self.domain(host);
        if let Some(probe) = domain.probing {
            domain.tier = probe;
            domain.requests = 0;
            domain.probing = None;
        }
        self.domains.insert(host, domain);
    }
}

/// Whether `r` is handed out for a request to `host` while the source of proxies goes from `before`
/// to `after`.
pub open spec fn resolves(
    before: ProxyInner,
    host: Seq<char>,
    random: usize,
    resolved: Option<Url>,
    r: ProxyChoice,
    after: ProxyInner,
) -> bool {
    match (before, after) {
        (
            ProxyInner::Static { urls, rotation, cursor },
            ProxyInner::Static { urls: same_urls, rotation: same_rotation, cursor: next },
        ) => {
            &&& same_urls == urls
            &&& same_rotation == rotation
            &&& r.tier is None
            &&& urls@.len() == 0 ==> r.url is None && next == cursor
            &&& urls@.len() > 0 ==> {
                let number = if rotation == RotationStrategy::RoundRobin {
                    cursor
                } else {
                    random
                };
                &&& next == if rotation == RotationStrategy::RoundRobin {
                    cursor.wrapping_add(1)
                } else {
                    cursor
                }
                &&& url_view(r.url) == Some(urls@[number as int % urls@.len() as int]@)
            }
        },
        (ProxyInner::Custom, ProxyInner::Custom) => r.url == resolved && r.tier is None,
        (ProxyInner::Tiered(earlier), ProxyInner::Tiered(later)) => {
            &&& later.tiers == earlier.tiers
            &&& later.probe_interval == earlier.probe_interval
            &&& earlier.tiers@.len() == 0 ==> r.url is None && r.tier is None
                && later.domains@ == earlier.domains@
            &&& earlier.tiers@.len() > 0 ==> {
                let state = domain_state(earlier.domains@, host).served(
                    earlier.tiers@.len(),
                    earlier.probe_interval as nat,
                );
                let serving = state.serving(earlier.probe_interval as nat);
                let tier = earlier.tiers@[serving as int]@;
                &&& serving < earlier.tiers@.len()
                &&& later.domains@ == earlier.domains@.insert(host, state)
                &&& r.tier == Some((serving % 256) as u8)
                &&& if tier.len() == 0 {
                    r.url is None
                } else {
                    url_view(r.url) == url_view(
                        tier[state.requests as int % tier.len() as int],
                    )
                }
            }
        },
        _ => false,
    }
}

impl ProxyConfiguration {
    pub open spec fn wf(self) -> bool {
        match self.inner {
            ProxyInner::Tiered(state) => state.wf(),
            _ => true,
        }
    }

    /// Walks a list of proxies one after the other.
    pub fn round_robin(urls: Vec<Url>) -> (r: ProxyConfiguration)
        ensures
            r.inner == (ProxyInner::Static {
                urls,
                rotation: RotationStrategy::RoundRobin,
                cursor: 0,
            }),
            r.wf(),
    {
        ProxyConfiguration::rotating(urls, RotationStrategy::RoundRobin)
    }

    /// Walks a list of proxies.
    pub fn rotating(urls: Vec<Url>, rotation: RotationStrategy) -> (r: ProxyConfiguration)
        ensures
            r.inner == (ProxyInner::Static { urls, rotation, cursor: 0 }),
            r.wf(),
    {
        ProxyConfiguration { inner: ProxyInner::Static { urls, rotation, cursor: 0 } }
    }

    /// Leaves the choice to a resolver outside this library.
    pub fn custom() -> (r: ProxyConfiguration)
        ensures
            r.inner is Custom,
            r.wf(),
    {
        ProxyConfiguration { inner: ProxyInner::Custom }
    }

    /// Proxies in tiers, with a probe of the lower tier at every twentieth request.
    pub fn tiered(tiers: Vec<Vec<Option<Url>>>) -> (r: ProxyConfiguration)
        ensures
            r.inner is Tiered,
            r.inner->Tiered_0.tiers == tiers,
            r.inner->Tiered_0.probe_interval == 20,
            r.inner->Tiered_0.domains@ == Map::<Seq<char>, DomainTier>::empty(),
            r.wf(),
    {
        ProxyConfiguration::tiered_with_probe_interval(tiers, 20)
    }

    /// Proxies in tiers, with a probe at every so-manieth request, at least at every one.
    pub fn tiered_with_probe_interval(tiers: Vec<Vec<Option<Url>>>, probe_interval: u32) -> (r:
        ProxyConfiguration)
        ensures
            r.inner is Tiered,
            r.inner->Tiered_0.tiers == tiers,
            r.inner->Tiered_0.probe_interval == if probe_interval == 0 {
                1
            } else {
                probe_interval
            },
            r.inner->Tiered_0.domains@ == Map::<Seq<char>, DomainTier>::empty(),
            r.wf(),
    {
        let interval: u32 = if probe_interval == 0 {
            1
        } else {
            probe_interval
        };
        ProxyConfiguration {
            inner: ProxyInner::Tiered(
                TieredState { tiers, probe_interval: interval, domains: TextMap::new() },
            ),
        }
    }

    /// Hands out a proxy. `random` decides where the rotation is random, and `resolved` is what
    /// the outside resolver answered where there is one.
    pub fn resolve(
        &mut self,
        ctx: &ProxyResolveContext<'_>,
        random: usize,
        resolved: Option<Url>,
    ) -> (r: ProxyChoice)
        requires
            old(self).wf(),
        ensures
            final(self).wf(),
            resolves(
                old(self).inner,
                ctx.host_spec(),
                random,
                resolved,
                r,
                final(self).inner,
            ),
    {
        match &mut self.inner {
            ProxyInner::Static { urls, rotation, cursor } => {
                if urls.len() == 0 {
                    return ProxyChoice { url: None, tier: None };
                }
                let number: usize = match *rotation {
                    RotationStrategy::RoundRobin => {
                        let number: usize = *cursor;
                        *cursor = number.wrapping_add(1);
                        number
                    },
                    RotationStrategy::Random => random,
                };
                let index: usize = number % urls.len();
                ProxyChoice { url: Some(urls[index].clone()), tier: None }
            },
            ProxyInner::Custom => ProxyChoice { url: resolved, tier: None },
            ProxyInner::Tiered(state) => {
                let host: String = match ctx.request {
                    Some(request) => host_of(&request.url),
                    None => {
                        let empty: String = String::new();
                        assert(empty@ =~= seq![]);
                        empty
                    },
                };
                state.tiered_url(host.as_str())
            },
        }
    }

    /// The parts of a chosen proxy, with its tier and the session that it serves.
    pub fn proxy_info(choice: ProxyChoice, session_id: Option<SessionId>) -> (r: Option<ProxyInfo>)
        ensures
            match choice.url {
                Some(url) => r is Some && r.unwrap().describes(url@) && r.unwrap().tier
                    == choice.tier && r.unwrap().session_id == session_id,
                None => r is None,
            },
    {
        match choice.url {
            Some(url) => {
                let mut info: ProxyInfo = ProxyInfo::from_url(url);
                info.tier = choice.tier;
                info.session_id = session_id;
                Some(info)
            },
            None => None,
        }
    }

    /// Records that the host of `target` blocked a request.
    pub fn report_blocked(&mut self, target: &Url)
        requires
            old(self).wf(),
        ensures
            final(self).wf(),
            match (old(self).inner, final(self).inner) {
                (ProxyInner::Tiered(before), ProxyInner::Tiered(after)) => {
                    &&& after.tiers == before.tiers
                    &&& after.probe_interval == before.probe_interval
                    &&& after.domains@ == if before.tiers@.len() == 0 {
                        before.domains@
                    } else {
                        before.domains@.insert(
                            host_key(target@),
                            domain_state(before.domains@, host_key(target@)).blocked(
                                before.tiers@.len(),
                            ),
                        )
                    }
                },
                (before, after) => after == before,
            },
    {
        if let ProxyInner::Tiered(state) = &mut self.inner {
            state.report_blocked(host_of(target).as_str());
        }
    }

    /// Records that the host of `target` served a request.
    pub fn report_success(&mut self, target: &Url)
        requires
            old(self).wf(),
        ensures
            final(self).wf(),
            match (old(self).inner, final(self).inner) {
                (ProxyInner::Tiered(before), ProxyInner::Tiered(after)) => {
                    &&& after.tiers == before.tiers
                    &&& after.probe_interval == before.probe_interval
                    &&& after.domains@ == before.domains@.insert(
                        host_key(target@),
                        domain_state(before.domains@, host_key(target@)).succeeded(),
                    )
                },
                (before, after) => after == before,
            },
    {
        if let ProxyInner::Tiered(state) = &mut self.inner {
            state.report_success(host_of(target).as_str());
        }
    }
}

/// A domain never leaves the tiers, whatever happens to it: its tier and the probed tier stay
/// below their number.
pub proof fn domains_stay_within_the_tiers(domain: DomainTier, tiers: nat, probe_interval: nat)
    requires
        0 < tiers <= usize::MAX,
        probe_interval > 0,
        domain.tier < tiers,
        domain.probing is Some ==> domain.probing.unwrap() < tiers,
    ensures
        domain.served(tiers, probe_interval).tier < tiers,
        domain.served(tiers, probe_interval).serving(probe_interval) < tiers,
        domain.served(tiers, probe_interval).probing is Some ==> domain.served(
            tiers,
            probe_interval,
        ).probing.unwrap() < tiers,
        domain.blocked(tiers).tier < tiers,
        domain.succeeded().tier < tiers,
{
}

/// Without a probe under way a block leads exactly one tier up, as far as there is one, and a
/// success changes nothing.
pub proof fn blocks_escalate_and_successes_stay(domain: DomainTier, tiers: nat)
    requires
        0 < tiers <= usize::MAX,
        domain.tier < tiers,
        domain.probing is None,
    ensures
        domain.blocked(tiers).tier == if domain.tier + 1 < tiers {
            domain.tier + 1
        } else {
            domain.tier as int
        },
        domain.blocked(tiers).requests == 0,
        domain.succeeded() == domain,
{
}

/// A probe serves the tier below; its success moves the domain there, its failure leaves the
/// domain where it was.
pub proof fn probes_try_the_lower_tier(domain: DomainTier, tiers: nat, probe_interval: nat)
    requires
        1 < tiers <= usize::MAX,
        probe_interval > 0,
        0 < domain.tier < tiers,
        domain.requests < u32::MAX,
        (domain.requests + 1) as nat % probe_interval == 0,
    ensures
        domain.served(tiers, probe_interval).serving(probe_interval) == domain.tier - 1,
        domain.served(tiers, probe_interval).succeeded().tier == domain.tier - 1,
        domain.served(tiers, probe_interval).succeeded().requests == 0,
        domain.served(tiers, probe_interval).blocked(tiers).tier == domain.tier,
{
}

/// Chooses the bucket of proxies for a request.
pub trait ProxyStrategy: Send + Sync + 'static {
    /// Returns the bucket.
    fn route(&self, ctx: &ProxyRouteContext<'_>) -> ProxyKind;
}

/// The circumstances in which a bucket is chosen.
pub struct ProxyRouteContext<'a> {
    /// The request.
    pub request: &'a Request,
    /// The number of the attempt.
    pub attempt: u32,
    /// The key of the profile of the previous attempt.
    pub previous_profile_key: Option<&'a str>,
}

impl<'a> ProxyRouteContext<'a> {
    /// A context without a previous profile.
    pub fn new(request: &'a Request, attempt: u32) -> (r: ProxyRouteContext<'a>)
        ensures
            r.request == request,
            r.attempt == attempt,
            r.previous_profile_key is None,
    {
        ProxyRouteContext { request, attempt, previous_profile_key: None }
    }

    /// Sets the previous profile.
    pub fn previous_profile_key(self, value: &'a str) -> (r: ProxyRouteContext<'a>)
        ensures
            r.request == self.request,
            r.attempt == self.attempt,
            r.previous_profile_key == Some(value),
    {
        ProxyRouteContext {
            request: self.request,
            attempt: self.attempt,
            previous_profile_key: Some(value),
        }
    }
}

/// A bucket of proxies.
#[derive(Debug, PartialEq, Eq, Hash)]
pub enum ProxyKind {
    /// The ordinary bucket.
    Default,
    /// The bucket for media files.
    MediaAsset,
    /// A bucket under a name.
    Custom(String),
}

impl Default for ProxyKind {
    fn default() -> (r: Self)
        ensures
            r == ProxyKind::Default,
    {
        ProxyKind::Default
    }
}

impl Clone for ProxyKind {
    fn clone(&self) -> (r: Self)
        ensures
            r == *self,
    {
        match self {
            ProxyKind::Default => ProxyKind::Default,
            ProxyKind::MediaAsset => ProxyKind::MediaAsset,
            ProxyKind::Custom(name) => ProxyKind::Custom(name.clone()),
        }
    }
}

/// A proxy configuration for each bucket.
#[derive(Debug)]
pub struct ProxyBuckets {
    pub default_bucket: Option<ProxyConfiguration>,
    pub media: Option<ProxyConfiguration>,
    pub custom: TextMap<ProxyConfiguration>,
}

impl Default for ProxyBuckets {
    fn default() -> (r: Self)
        ensures
            r.default_bucket is None,
            r.media is None,
            r.custom@ == Map::<Seq<char>, ProxyConfiguration>::empty(),
    {
        ProxyBuckets { default_bucket: None, media: None, custom: TextMap::new() }
    }
}

impl ProxyBuckets {
    /// No buckets.
    pub fn new() -> (r: ProxyBuckets)
        ensures
            r.default_bucket is None,
            r.media is None,
            r.custom@ == Map::<Seq<char>, ProxyConfiguration>::empty(),
    {
        ProxyBuckets::default()
    }

    /// Sets the ordinary bucket.
    pub fn with_default(self, value: ProxyConfiguration) -> (r: ProxyBuckets)
        ensures
            r == (ProxyBuckets { default_bucket: Some(value), ..self }),
    {
        let mut out = self;
        out.default_bucket = Some(value);
        out
    }

    /// Sets the bucket for media files.
    pub fn with_media(self, value: ProxyConfiguration) -> (r: ProxyBuckets)
        ensures
            r == (ProxyBuckets { media: Some(value), ..self }),
    {
        let mut out = self;
        out.media = Some(value);
        out
    }

    /// Sets a bucket under a name.
    pub fn with_custom(self, name: &str, value: ProxyConfiguration) -> (r: ProxyBuckets)
        ensures
            r.custom@ == self.custom@.insert(name@, value),
            r.default_bucket == self.default_bucket,
            r.media == self.media,
    {
        let mut out = self;
        out.custom.insert(name, value);
        out
    }

    /// The configuration of a bucket, the ordinary one where the bucket has none.
    pub open spec fn for_kind_spec(self, kind: ProxyKind) -> Option<ProxyConfiguration> {
        match kind {
            ProxyKind::Default => self.default_bucket,
            ProxyKind::MediaAsset => if self.media is Some {
                self.media
            } else {
                self.default_bucket
            },
            ProxyKind::Custom(name) => if self.custom@.contains_key(name@) {
                Some(self.custom@[name@])
            } else {
                self.default_bucket
            },
        }
    }

    /// Returns the configuration of a bucket.
    pub fn for_kind(&self, kind: &ProxyKind) -> (r: Option<&ProxyConfiguration>)
        ensures
            match r {
                Some(c) => self.for_kind_spec(*kind) == Some(*c),
                None => self.for_kind_spec(*kind) is None,
            },
    {
        match kind {
            ProxyKind::Default => self.default_bucket.as_ref(),
            ProxyKind::MediaAsset => if self.media.is_some() {
                self.media.as_ref()
            } else {
                self.default_bucket.as_ref()
            },
            ProxyKind::Custom(name) => match self.custom.get(name.as_str()) {
                Some(c) => Some(c),
                None => self.default_bucket.as_ref(),
            },
        }
    }
}

/// A bucket that was set is the one handed out for its kind, whatever the others hold; the ordinary
/// one serves the kinds without a bucket of their own, and nothing serves where that is missing too.
pub proof fn set_buckets_are_handed_out(
    buckets: ProxyBuckets,
    name: String,
    value: ProxyConfiguration,
)
    ensures
        buckets.for_kind_spec(ProxyKind::Default) == buckets.default_bucket,
        buckets.media == Some(value) ==> buckets.for_kind_spec(ProxyKind::MediaAsset) == Some(value),
        buckets.media is None ==> buckets.for_kind_spec(ProxyKind::MediaAsset)
            == buckets.default_bucket,
        buckets.custom@.contains_key(name@) && buckets.custom@[name@] == value
            ==> buckets.for_kind_spec(ProxyKind::Custom(name)) == Some(value),
        !buckets.custom@.contains_key(name@) ==> buckets.for_kind_spec(ProxyKind::Custom(name))
            == buckets.default_bucket,
{
}

/// Setting one bucket decides what its own kind gets and leaves the other buckets' kinds alone.
pub proof fn buckets_do_not_interfere(
    before: ProxyBuckets,
    after: ProxyBuckets,
    name: String,
    other: String,
    value: ProxyConfiguration,
)
    requires
        other@ != name@,
    ensures
        after == (ProxyBuckets { media: Some(value), ..before }) ==> {
            &&& after.for_kind_spec(ProxyKind::MediaAsset) == Some(value)
            &&& after.for_kind_spec(ProxyKind::Default) == before.for_kind_spec(ProxyKind::Default)
            &&& after.for_kind_spec(ProxyKind::Custom(other)) == before.for_kind_spec(
                ProxyKind::Custom(other),
            )
        },
        after.custom@ == before.custom@.insert(name@, value) && after.media == before.media
            && after.default_bucket == before.default_bucket ==> {
            &&& after.for_kind_spec(ProxyKind::Custom(name)) == Some(value)
            &&& after.for_kind_spec(ProxyKind::Custom(other)) == before.for_kind_spec(
                ProxyKind::Custom(other),
            )
            &&& after.for_kind_spec(ProxyKind::MediaAsset) == before.for_kind_spec(
                ProxyKind::MediaAsset,
            )
        },
{
}

/// A list is walked in its order and from its front again behind its end: a request gets the proxy
/// behind the one before it got, and the first request the first proxy.
pub proof fn lists_are_walked_in_a_circle(
    urls: Vec<Url>,
    cursor: usize,
    hosts: (Seq<char>, Seq<char>),
    randoms: (usize, usize),
    resolved: (Option<Url>, Option<Url>),
    first: ProxyChoice,
    middle: ProxyInner,
    second: ProxyChoice,
    after: ProxyInner,
)
    requires
        urls@.len() > 0,
        cursor < usize::MAX,
        resolves(
            ProxyInner::Static { urls, rotation: RotationStrategy::RoundRobin, cursor },
            hosts.0,
            randoms.0,
            resolved.0,
            first,
            middle,
        ),
        resolves(middle, hosts.1, randoms.1, resolved.1, second, after),
    ensures
        ({
            let n = urls@.len() as int;
            let place = cursor as int % n;
            &&& cursor == 0 ==> place == 0
            &&& url_view(first.url) == Some(urls@[place]@)
            &&& place + 1 < n ==> url_view(second.url) == Some(urls@[place + 1]@)
            &&& place + 1 == n ==> url_view(second.url) == Some(urls@[0]@)
            &&& first.tier is None && second.tier is None
        }),
{
    let n = urls@.len() as int;
    let c = cursor as int;
    vstd::arithmetic::div_mod::lemma_fundamental_div_mod(c, n);
    vstd::arithmetic::div_mod::lemma_mod_bound(c, n);
    let place = c % n;
    let q = c / n;
    if place + 1 < n {
        vstd::arithmetic::div_mod::lemma_fundamental_div_mod_converse(c + 1, n, q, place + 1);
    } else {
        assert(n * (q + 1) == n * q + n) by (nonlinear_arith);
        vstd::arithmetic::div_mod::lemma_fundamental_div_mod_converse(c + 1, n, q + 1, 0);
    }
}

/// A random walk takes the proxy that the random number points at, an empty list gives none, and an
/// outside resolver's answer is handed on as it is.
pub proof fn other_sources_hand_out_what_they_are_told(
    before: ProxyInner,
    host: Seq<char>,
    random: usize,
    resolved: Option<Url>,
    r: ProxyChoice,
    after: ProxyInner,
)
    requires
        resolves(before, host, random, resolved, r, after),
    ensures
        before is Custom ==> r.url == resolved && r.tier is None && after is Custom,
        match before {
            ProxyInner::Static { urls, rotation, cursor } => {
                &&& urls@.len() == 0 ==> r.url is None && after == before
                &&& urls@.len() > 0 && rotation == RotationStrategy::Random ==> url_view(r.url)
                    == Some(urls@[random as int % urls@.len() as int]@) && after == before
            },
            _ => true,
        },
{
}

/// A tiered configuration serves a domain that it has not seen from the lowest tier, hands out a proxy
/// of the tier that it names, and keeps what it knows of other domains.
pub proof fn tiers_serve_what_they_name(
    before: TieredState,
    host: Seq<char>,
    other: Seq<char>,
    random: usize,
    resolved: Option<Url>,
    r: ProxyChoice,
    after: ProxyInner,
)
    requires
        before.wf(),
        0 < before.tiers@.len() <= 256,
        resolves(ProxyInner::Tiered(before), host, random, resolved, r, after),
    ensures
        r.tier is Some,
        r.tier.unwrap() < before.tiers@.len(),
        !before.domains@.contains_key(host) ==> r.tier == Some(0u8),
        ({
            let tier = before.tiers@[r.tier.unwrap() as int]@;
            &&& tier.len() == 0 ==> r.url is None
            &&& tier.len() > 0 ==> exists|i: int|
                0 <= i < tier.len() && url_view(r.url) == url_view(#[trigger] tier[i])
        }),
        after is Tiered,
        after->Tiered_0.tiers == before.tiers,
        after->Tiered_0.domains@.contains_key(host),
        other != host ==> after->Tiered_0.domains@.contains_key(other)
            == before.domains@.contains_key(other) && (before.domains@.contains_key(other)
            ==> after->Tiered_0.domains@[other] == before.domains@[other]),
        before.domains@.contains_key(host) && before.domains@[host].requests < u32::MAX
            ==> after->Tiered_0.domains@[host].requests == before.domains@[host].requests + 1,
{
    let state = domain_state(before.domains@, host).served(
        before.tiers@.len(),
        before.probe_interval as nat,
    );
    let serving = state.serving(before.probe_interval as nat);
    assert(r.tier == Some((serving % 256) as u8));
    assert(r.tier.unwrap() as int == serving as int);
    let tier = before.tiers@[serving as int]@;
    if tier.len() > 0 {
        vstd::arithmetic::div_mod::lemma_mod_bound(state.requests as int, tier.len() as int);
        let i = state.requests as int % tier.len() as int;
        assert(url_view(r.url) == url_view(tier[i]));
    }
}

/// Between two probes a request only counts: it is served from the domain's own tier, and no probe
/// begins. A domain at the lowest tier is never probed.
pub proof fn requests_between_probes_only_count(
    domain: DomainTier,
    tiers: nat,
    probe_interval: nat,
)
    requires
        0 < tiers <= usize::MAX,
        probe_interval > 0,
        domain.tier < tiers,
        domain.requests < u32::MAX,
        domain.tier == 0 || (domain.requests + 1) as nat % probe_interval != 0,
    ensures
        domain.served(tiers, probe_interval) == (DomainTier {
            tier: domain.tier,
            requests: (domain.requests + 1) as u32,
            probing: domain.probing,
        }),
        domain.served(tiers, probe_interval).serving(probe_interval) == domain.tier,
{
}

/// A failed probe costs the domain nothing but the probe.
pub proof fn failed_probes_cost_nothing(domain: DomainTier, tiers: nat)
    requires
        domain.probing is Some,
    ensures
        domain.blocked(tiers).tier == domain.tier,
        domain.blocked(tiers).requests == domain.requests,
        domain.blocked(tiers).probing is None,
        domain.succeeded().tier == domain.probing.unwrap(),
        domain.succeeded().probing is None,
{
}

/// The parts of a proxy are those of its URL, with port 80 where it has none and no user name where
/// it is empty.
pub proof fn proxies_are_described_by_their_url(info: ProxyInfo, url: UrlParts)
    requires
        info.describes(url),
    ensures
        info.url@ == url,
        url.host is Some ==> info.hostname@ == url.host.unwrap(),
        url.host is None ==> info.hostname@.len() == 0,
        url.port is Some ==> info.port == url.port.unwrap(),
        url.port is None ==> info.port == 80,
        url.username.len() == 0 ==> info.username is None,
        url.username.len() > 0 ==> info.username is Some && info.username.unwrap()@ == url.username,
        url.password is None ==> info.password is None,
        url.password is Some ==> info.password is Some && info.password.unwrap()@
            == url.password.unwrap(),
{
}

} // verus!
