//! Session cookie storage and its JSON form.

use crate::errors::{Cause, LinkView};
use crate::headers::{
    check_header_value, header_contents, header_values, is_header_value, opt_views, values_under,
};
use crate::text::{ascii_lower, chars_of, is_space, joined, owned, same, slice, string_of};
use crate::time::Timestamp;
use crate::url::{opt_view, parsed_url, Url};
use cookie_store::{CookieDomain, CookieExpiration, RawCookie};
use time::OffsetDateTime;
use vstd::prelude::*;

verus! {

/// A cookie's cross-site request policy.
#[derive(Clone, Copy, Debug, PartialEq, Eq, Structural)]
pub enum SameSite {
    /// Send the cookie only in same-site requests.
    Strict,
    /// Also send the cookie for safe top-level cross-site navigations.
    Lax,
    /// Permit cross-site requests; secure transport is normally required.
    NoRestriction,
}

impl SameSite {
    /// The policy's name.
    pub open spec fn name_spec(self) -> Seq<char> {
        match self {
            SameSite::Strict => "Strict"@,
            SameSite::Lax => "Lax"@,
            SameSite::NoRestriction => "None"@,
        }
    }

    /// The policy with a name; any other name lifts the restriction.
    pub open spec fn named(name: Seq<char>) -> SameSite {
        if name == "Strict"@ {
            SameSite::Strict
        } else if name == "Lax"@ {
            SameSite::Lax
        } else {
            SameSite::NoRestriction
        }
    }

    /// The policy with a name.
    pub fn from_name(name: &str) -> (r: SameSite)
        ensures
            r == SameSite::named(name@),
    {
        if same(name, "Strict") {
            SameSite::Strict
        } else if same(name, "Lax") {
            SameSite::Lax
        } else {
            SameSite::NoRestriction
        }
    }

    /// The policy's name.
    pub fn as_str(self) -> (r: &'static str)
        ensures
            r@ == self.name_spec(),
    {
        match self {
            SameSite::Strict => "Strict",
            SameSite::Lax => "Lax",
            SameSite::NoRestriction => "None",
        }
    }
}

/// A transport-neutral HTTP cookie.
///
/// `domain` is a bare host without a leading dot. A cookie with `host_only` set is sent only to
/// that exact host, and one without `expires` is a session cookie.
#[derive(Debug, PartialEq, Eq)]
pub struct Cookie {
    /// The cookie name.
    pub name: String,
    /// The cookie value.
    pub value: String,
    /// The bare host, without a leading dot.
    pub domain: String,
    /// Whether the cookie is restricted to the exact host in `domain`.
    pub host_only: bool,
    /// The URL path scope, normally `/`.
    pub path: String,
    /// The persistent expiry instant, or `None` for a session cookie.
    pub expires: Option<Timestamp>,
    /// Whether the cookie is sent only over secure transports.
    pub secure: bool,
    /// Whether browser scripts are prevented from reading the cookie.
    pub http_only: bool,
    /// The cookie's cross-site request policy, when explicitly set.
    pub same_site: Option<SameSite>,
}

impl Cookie {
    /// Creates a domain cookie with `/` path and no optional attributes.
    pub fn new(name: &str, value: &str, domain: &str) -> (r: Cookie)
        ensures
            r.name@ == name@,
            r.value@ == value@,
            r.domain@ == domain@,
            !r.host_only,
            r.path@ == "/"@,
            r.expires is None,
            !r.secure,
            !r.http_only,
            r.same_site is None,
    {
        Cookie {
            name: owned(name),
            value: owned(value),
            domain: owned(domain),
            host_only: false,
            path: owned("/"),
            expires: None,
            secure: false,
            http_only: false,
            same_site: None,
        }
    }
}

/// The hosts that a stored cookie belongs to.
#[derive(Debug)]
pub enum StoredDomain {
    /// Exactly one host.
    HostOnly(String),
    /// A host and the hosts below it.
    Suffix(String),
    /// None.
    Missing,
}

/// A cookie as a store holds it.
#[derive(Debug)]
pub struct StoredCookie {
    pub name: String,
    pub value: String,
    pub domain: StoredDomain,
    pub path: String,
    pub expires: Option<i128>,
    pub secure: Option<bool>,
    pub http_only: Option<bool>,
    /// The name of the cross-site request policy.
    pub same_site: Option<String>,
}

/// What a store finds a cookie by.
pub struct CookieKey {
    pub domain: Seq<char>,
    pub path: Seq<char>,
    pub name: Seq<char>,
}

/// The rest of a stored cookie.
pub struct CookieView {
    pub host_only: bool,
    pub value: Seq<char>,
    pub expires: Option<i128>,
    pub secure: Option<bool>,
    pub http_only: Option<bool>,
    pub same_site: Option<Seq<char>>,
    pub partitioned: bool,
    /// The path attribute as it was given, from which the path in the key need not come.
    pub path_text: Option<Seq<char>>,
    /// Whether the time of expiry, if there is one, is held in UTC.
    pub in_utc: bool,
}

/// Where a store puts a cookie.
pub struct CookiePlace {
    pub domain: Seq<char>,
    pub host_only: bool,
    pub path: Seq<char>,
    /// Whether the cookie comes from a URL of an HTTP scheme.
    pub over_http: bool,
}

/// What decides where a cookie is sent.
pub struct CookieScope {
    pub domain: Seq<char>,
    pub host_only: bool,
    pub path: Seq<char>,
    pub secure: bool,
    pub http_only: bool,
}

/// How long a cookie lasts.
pub enum Lifetime {
    /// Until the end of the session: it never expires by itself.
    Session,
    /// Until a time, in nanoseconds since the epoch.
    Until(i128),
    /// Until a time that is left open.
    Open,
}

/// A cookie that is to be put into a store.
pub struct WrittenCookie {
    pub key: CookieKey,
    pub host_only: bool,
    pub value: Seq<char>,
    pub lifetime: Lifetime,
    pub secure: Option<bool>,
    pub http_only: Option<bool>,
    pub same_site: Option<Seq<char>>,
    pub partitioned: bool,
    /// The path attribute as it was given.
    pub path_text: Option<Seq<char>>,
    /// Whether the cookie comes from a URL of an HTTP scheme.
    pub over_http: bool,
}

impl WrittenCookie {
    /// Whether `view` is the cookie in a store.
    pub open spec fn is_written(self, view: CookieView) -> bool {
        &&& view.host_only == self.host_only
        &&& view.value == self.value
        &&& match self.lifetime {
            Lifetime::Session => view.expires is None,
            Lifetime::Until(at) => view.expires == Some(at),
            Lifetime::Open => true,
        }
        &&& view.secure == self.secure
        &&& view.http_only == self.http_only
        &&& view.same_site == self.same_site
        &&& view.partitioned == self.partitioned
        &&& view.path_text == self.path_text
        &&& view.in_utc
    }

    /// Whether `view` is the cookie's predecessor, which it ended by having expired itself.
    pub open spec fn is_ended(self, before: Map<CookieKey, CookieView>, view: CookieView) -> bool {
        &&& !(self.lifetime is Session)
        &&& before.contains_key(self.key)
        &&& view == (CookieView { expires: Some(0), in_utc: true, ..before[self.key] })
    }

    /// Whether a store may refuse the cookie: one that has expired, and one that would replace a
    /// cookie for HTTP alone and comes from elsewhere.
    pub open spec fn is_refusable(self, before: Map<CookieKey, CookieView>) -> bool {
        ||| !(self.lifetime is Session)
        ||| !self.over_http && before.contains_key(self.key) && before[self.key].http_only == Some(
            true,
        )
    }
}

impl WrittenCookie {
    /// Whether the cookie's texts can stand in a `Set-Cookie` header.
    pub open spec fn has_clean_texts(self) -> bool {
        &&& is_clean(self.key.name) && self.key.name.len() > 0 && !self.key.name.contains('=')
        &&& is_clean(self.value)
        &&& self.path_text is Some ==> is_clean(self.path_text.unwrap())
    }

    /// Whether the cookie can be written as a `Set-Cookie` header and read back.
    pub open spec fn is_clean(self) -> bool {
        self.has_clean_texts() && !self.key.domain.contains(';')
    }

    /// Whether it is known that the cookie's time of expiry, if it has one, can be formatted.
    pub open spec fn has_known_end(self) -> bool {
        match self.lifetime {
            Lifetime::Session => true,
            Lifetime::Until(at) => FIRST_YEAR_NANOS <= at < LAST_YEAR_NANOS,
            Lifetime::Open => false,
        }
    }
}

/// Whether the host of a URL, if it has one, holds no semicolon.
pub open spec fn host_is_plain(url: Seq<char>) -> bool {
    match parsed_url(url) {
        Ok(parts) => parts.host is Some ==> !parts.host.unwrap().contains(';'),
        Err(_) => true,
    }
}

/// Whether a store goes from `before` to `after` when it is given a cookie, where there is one, and
/// says by `taken` whether it took it.
pub open spec fn accepts(
    before: Map<CookieKey, CookieView>,
    cookie: Option<WrittenCookie>,
    after: Map<CookieKey, CookieView>,
    taken: bool,
) -> bool {
    match cookie {
        None => !taken && after == before,
        Some(w) => if taken {
            exists|v: CookieView| #[trigger]
                before.insert(w.key, v) == after && (w.is_written(v) || w.is_ended(before, v))
        } else {
            after == before && w.is_refusable(before)
        },
    }
}

/// The outside type `cookie_store::CookieStore`.
#[verifier::external_type_specification]
#[verifier::external_body]
pub struct ExCookieStore(cookie_store::CookieStore);

/// The cookies that a store holds, expired ones too.
pub uninterp spec fn stored(store: cookie_store::CookieStore) -> Map<CookieKey, CookieView>;

/// The cookie that a `Set-Cookie` header from a URL writes, if it writes one. When a cookie that
/// lasts for a number of seconds expires is left open.
pub uninterp spec fn header_cookie(header: Seq<char>, url: Seq<char>) -> Option<WrittenCookie>;

/// The place in a store that a cookie from a URL gets by its attributes, if it gets one.
pub uninterp spec fn cookie_place(
    domain: Option<Seq<char>>,
    path: Seq<char>,
    http_only: bool,
    url: Seq<char>,
) -> Option<CookiePlace>;

/// The scopes of the cookies that are sent to a URL as long as they have not expired.
pub uninterp spec fn sent_to(url: Seq<char>) -> Set<CookieScope>;

/// The cookies that a JSON text writes, or the error's text.
pub uninterp spec fn loaded(json: Seq<char>) -> Result<Map<CookieKey, CookieView>, Seq<char>>;

/// Whether a text was loaded, and wrote these cookies.
pub open spec fn is_loaded(
    outcome: Result<Map<CookieKey, CookieView>, Seq<char>>,
    cookies: Map<CookieKey, CookieView>,
) -> bool {
    outcome is Ok && outcome->Ok_0 == cookies
}

/// The beginning of the year 0, in nanoseconds since the epoch.
pub const FIRST_YEAR_NANOS: i128 = -62_167_219_200_000_000_000;

/// The end of the year 9999, in nanoseconds since the epoch.
pub const LAST_YEAR_NANOS: i128 = 253_402_300_800_000_000_000;

/// Whether a cookie has no time of expiry, or one in a year of four digits.
pub open spec fn is_formattable(view: CookieView) -> bool {
    match view.expires {
        Some(at) => FIRST_YEAR_NANOS <= at < LAST_YEAR_NANOS,
        None => true,
    }
}

/// Whether all cookies have no time of expiry, or one in a year of four digits.
pub open spec fn all_formattable(cookies: Map<CookieKey, CookieView>) -> bool {
    forall|k: CookieKey| #[trigger] cookies.contains_key(k) ==> is_formattable(cookies[k])
}

/// Whether all times of expiry are held in UTC.
pub open spec fn all_in_utc(cookies: Map<CookieKey, CookieView>) -> bool {
    forall|k: CookieKey| #[trigger] cookies.contains_key(k) ==> cookies[k].in_utc
}

/// Whether a jar comes back from its JSON form: its cookies can be written as `Set-Cookie` headers
/// and read back, and their times of expiry can be formatted and are held in UTC.
pub open spec fn comes_back(cookies: Map<CookieKey, CookieView>) -> bool {
    all_formattable(cookies) && all_clean(cookies) && all_in_utc(cookies)
}

/// Whether `s` can stand in a `Set-Cookie` header: it holds no semicolon, and no white space at its
/// ends.
pub open spec fn is_clean(s: Seq<char>) -> bool {
    &&& !s.contains(';')
    &&& s.len() > 0 ==> !is_space(s[0]) && !is_space(s.last())
}

/// Whether a cookie can be written as a `Set-Cookie` header and read back.
pub open spec fn is_clean_cookie(key: CookieKey, view: CookieView) -> bool {
    &&& is_clean(key.name) && key.name.len() > 0 && !key.name.contains('=')
    &&& is_clean(view.value)
    &&& !key.domain.contains(';')
    &&& view.path_text is Some ==> is_clean(view.path_text.unwrap())
}

/// Whether all cookies can be written as `Set-Cookie` headers and read back.
pub open spec fn all_clean(cookies: Map<CookieKey, CookieView>) -> bool {
    forall|k: CookieKey| #[trigger] cookies.contains_key(k) ==> is_clean_cookie(k, cookies[k])
}

/// Whether the JSON form makes a cookie secure: one that is, one that is partitioned, and one
/// without a word on it that may be sent across sites.
pub open spec fn is_written_secure(view: CookieView) -> bool {
    view.secure == Some(true) || view.partitioned || (view.secure is None && view.same_site == Some(
        "None"@,
    ))
}

/// A cookie as it comes back from the JSON form: it expires at a whole second, and what is switched
/// off is not mentioned.
pub open spec fn rewritten(view: CookieView) -> CookieView {
    CookieView {
        expires: match view.expires {
            Some(at) => Some((at - at % 1_000_000_000) as i128),
            None => None,
        },
        secure: if is_written_secure(view) {
            Some(true)
        } else {
            None
        },
        http_only: if view.http_only == Some(true) {
            Some(true)
        } else {
            None
        },
        in_utc: true,
        ..view
    }
}

/// Cookies as they come back from the JSON form.
pub open spec fn all_rewritten(cookies: Map<CookieKey, CookieView>) -> Map<CookieKey, CookieView> {
    cookies.map_values(|view: CookieView| rewritten(view))
}

/// Whether `cookie` is the entry of a store under `key`.
pub open spec fn is_entry(cookie: StoredCookie, key: CookieKey, view: CookieView) -> bool {
    &&& cookie.name@ == key.name
    &&& cookie.path@ == key.path
    &&& match cookie.domain {
        StoredDomain::HostOnly(host) => host@ == key.domain && view.host_only,
        StoredDomain::Suffix(suffix) => suffix@ == key.domain && !view.host_only,
        StoredDomain::Missing => !view.host_only && key.domain.len() == 0,
    }
    &&& cookie.value@ == view.value
    &&& cookie.expires == view.expires
    &&& cookie.secure == view.secure
    &&& cookie.http_only == view.http_only
    &&& opt_view(cookie.same_site) == view.same_site
}

/// Whether `listed` holds the cookies of the store under `keys`.
pub open spec fn lists_keys(
    cookies: Map<CookieKey, CookieView>,
    keys: Seq<CookieKey>,
    listed: Seq<StoredCookie>,
) -> bool {
    &&& keys.len() == listed.len()
    &&& forall|i: int|
        0 <= i < keys.len() ==> cookies.contains_key(#[trigger] keys[i]) && is_entry(
            listed[i],
            keys[i],
            cookies[keys[i]],
        )
}

/// Whether `listed` holds cookies of the store, none of them twice, and among them every session
/// cookie.
pub open spec fn lists_unexpired(
    cookies: Map<CookieKey, CookieView>,
    listed: Seq<StoredCookie>,
) -> bool {
    exists|keys: Seq<CookieKey>|
        {
            &&& #[trigger] lists_keys(cookies, keys, listed)
            &&& keys.no_duplicates()
            &&& forall|k: CookieKey| #[trigger]
                cookies.contains_key(k) && cookies[k].expires is None ==> keys.contains(k)
        }
}

/// The scope of a stored cookie.
pub open spec fn scope_of(key: CookieKey, view: CookieView) -> CookieScope {
    CookieScope {
        domain: key.domain,
        host_only: view.host_only,
        path: key.path,
        secure: view.secure == Some(true),
        http_only: view.http_only == Some(true),
    }
}

/// Whether `pairs` are the names and values of the cookies under `keys`.
pub open spec fn pairs_up(
    cookies: Map<CookieKey, CookieView>,
    keys: Seq<CookieKey>,
    pairs: Seq<(String, String)>,
) -> bool {
    &&& keys.len() == pairs.len()
    &&& forall|i: int|
        0 <= i < keys.len() ==> cookies.contains_key(#[trigger] keys[i]) && pairs[i].0@
            == keys[i].name && pairs[i].1@ == cookies[keys[i]].value
}

/// Whether `keys` are those of cookies with one of the scopes, none of them twice, and among them
/// every session cookie that has one.
pub open spec fn selects(
    cookies: Map<CookieKey, CookieView>,
    scopes: Set<CookieScope>,
    keys: Seq<CookieKey>,
) -> bool {
    &&& keys.no_duplicates()
    &&& forall|i: int|
        0 <= i < keys.len() ==> scopes.contains(scope_of(#[trigger] keys[i], cookies[keys[i]]))
    &&& forall|k: CookieKey| #[trigger]
        cookies.contains_key(k) && cookies[k].expires is None && scopes.contains(
            scope_of(k, cookies[k]),
        ) ==> keys.contains(k)
}

/// Whether `pairs` are the names and values of cookies with one of the scopes, none of them twice,
/// and among them every session cookie that has one.
pub open spec fn sends(
    cookies: Map<CookieKey, CookieView>,
    scopes: Set<CookieScope>,
    pairs: Seq<(String, String)>,
) -> bool {
    exists|keys: Seq<CookieKey>| #[trigger]
        pairs_up(cookies, keys, pairs) && selects(cookies, scopes, keys)
}

/// A cookie ready to be put into a store.
#[derive(Debug)]
pub struct ImportPlan {
    pub name: String,
    pub value: String,
    pub path: String,
    pub secure: bool,
    pub http_only: bool,
    /// The domain attribute, absent for a cookie of one host.
    pub domain: Option<String>,
    pub expires: Option<i128>,
    /// The name of the cross-site request policy.
    pub same_site: Option<String>,
    /// The URL that the cookie is taken to come from.
    pub url: String,
}

/// The last second that a cookie can last until, in nanoseconds since the epoch.
pub const MAX_EXPIRY_NANOS: i128 = 253_402_300_799_000_000_000;

/// How long a cookie with a time of expiry lasts.
pub open spec fn lifetime_until(expires: Option<i128>) -> Lifetime {
    match expires {
        None => Lifetime::Session,
        Some(at) => if 0 <= at <= MAX_EXPIRY_NANOS {
            Lifetime::Until(at)
        } else {
            Lifetime::Open
        },
    }
}

/// The name of a policy, if there is one.
pub open spec fn policy_name(policy: Option<SameSite>) -> Option<Seq<char>> {
    match policy {
        Some(policy) => Some(policy.name_spec()),
        None => None,
    }
}

/// Whether a text, if there is one, is the name of a policy.
pub open spec fn is_policy_name(name: Option<Seq<char>>) -> bool {
    name is None || exists|policy: SameSite| #[trigger] policy.name_spec() == name.unwrap()
}

/// A planned cookie at its place, if it has one.
pub open spec fn placed(plan: ImportPlan, place: Option<CookiePlace>) -> Option<WrittenCookie> {
    match place {
        Some(p) => Some(
            WrittenCookie {
                key: CookieKey { domain: p.domain, path: p.path, name: plan.name@ },
                host_only: p.host_only,
                value: plan.value@,
                lifetime: lifetime_until(plan.expires),
                secure: Some(plan.secure),
                http_only: Some(plan.http_only),
                same_site: opt_view(plan.same_site),
                partitioned: false,
                path_text: Some(plan.path@),
                over_http: p.over_http,
            },
        ),
        None => None,
    }
}

/// `cookie_store::CookieStore::default`: no cookies.
#[verifier::external_body]
fn new_store() -> (r: cookie_store::CookieStore)
    ensures
        stored(r).dom() == Set::<CookieKey>::empty(),
{
    cookie_store::CookieStore::default()
}

/// `cookie_store::CookieStore::parse`: takes the cookie that a response header writes. The clock
/// decides whether a cookie that expires is taken, or ends the one that it would replace; a cookie
/// for the session is taken. A refused cookie leaves the store alone. The header is cut at its
/// semicolons and its parts are trimmed, so the texts of a cookie that is taken are clean; its
/// domain is a part of the URL's host.
#[verifier::external_body]
fn parse_cookie(store: &mut cookie_store::CookieStore, header: &str, url: &str) -> (r: bool)
    ensures
        accepts(
            stored(*old(store)),
            header_cookie(header@, url@),
            stored(*final(store)),
            r,
        ),
        r ==> header_cookie(header@, url@)->Some_0.has_clean_texts(),
        r && host_is_plain(url@) ==> !header_cookie(header@, url@)->Some_0.key.domain.contains(';'),
{
    match ::url::Url::parse(url) {
        Ok(url) => store.parse(header, &url).is_ok(),
        Err(_) => false,
    }
}

/// `cookie_store::CookieStore::insert_raw`: takes a planned cookie, at the place that its attributes
/// give it. The clock decides whether a cookie that expires is taken, or ends the one that it would
/// replace; a cookie for the session is taken. A refused cookie leaves the store alone. The domain
/// of a cookie that is taken is a part of the URL's host.
#[verifier::external_body]
fn insert_plan(store: &mut cookie_store::CookieStore, plan: &ImportPlan) -> (r: bool)
    requires
        is_policy_name(opt_view(plan.same_site)),
    ensures
        accepts(
            stored(*old(store)),
            placed(
                *plan,
                cookie_place(opt_view(plan.domain), plan.path@, plan.http_only, plan.url@),
            ),
            stored(*final(store)),
            r,
        ),
        r && host_is_plain(plan.url@) ==> !cookie_place(
            opt_view(plan.domain),
            plan.path@,
            plan.http_only,
            plan.url@,
        )->Some_0.domain.contains(';'),
{
    let expires = plan.expires.map(OffsetDateTime::from_unix_timestamp_nanos);
    let mut raw = RawCookie::build((plan.name.clone(), plan.value.clone()))
        .path(plan.path.clone())
        .secure(plan.secure)
        .http_only(plan.http_only)
        .expires(expires.and_then(|t| t.ok()))
        .build();
    plan.domain.iter().for_each(|d| raw.set_domain(d.clone()));
    let marker = plan.same_site.as_ref().map(|name| format!("marker=1; SameSite={name}"));
    raw.set_same_site(marker.and_then(|m| RawCookie::parse(m).ok()?.same_site()));
    ::url::Url::parse(&plan.url).is_ok_and(|url| store.insert_raw(&raw, &url).is_ok())
}

/// `cookie_store::CookieStore::get_request_values`: names and values of the cookies to send to a
/// URL, in any order. The clock decides which of those that expire are among them; those for the
/// session are.
#[verifier::external_body]
fn request_values(store: &cookie_store::CookieStore, url: &str) -> (r: Vec<(String, String)>)
    ensures
        sends(stored(*store), sent_to(url@), r@),
{
    let pairs = |u: ::url::Url| -> Vec<(String, String)> {
        store.get_request_values(&u).map(|(n, v)| (n.to_owned(), v.to_owned())).collect()
    };
    ::url::Url::parse(url).map(pairs).unwrap_or_default()
}

/// `cookie_store::CookieStore::iter_unexpired`: the cookies that have not expired, in any order.
/// Which they are depends on the clock; session cookies never expire.
#[verifier::external_body]
fn unexpired_cookies(store: &cookie_store::CookieStore) -> (r: Vec<StoredCookie>)
    ensures
        lists_unexpired(stored(*store), r@),
{
    store.iter_unexpired().map(|c| StoredCookie {
        name: c.name().into(),
        value: c.value().into(),
        domain: match &c.domain {
            CookieDomain::HostOnly(host) => StoredDomain::HostOnly(host.clone()),
            CookieDomain::Suffix(suffix) => StoredDomain::Suffix(suffix.clone()),
            _ => StoredDomain::Missing,
        },
        path: c.path.to_string(), secure: c.secure(), http_only: c.http_only(),
        expires: match c.expires { CookieExpiration::AtUtc(t) => Some(t.unix_timestamp_nanos()), _ => None },
        same_site: c.same_site().map(|s| s.to_string()),
    }).collect()
}

/// `cookie_store::CookieStore::clear`: forgets all cookies.
#[verifier::external_body]
fn clear_store(store: &mut cookie_store::CookieStore)
    ensures
        stored(*final(store)).dom() == Set::<CookieKey>::empty(),
{
    store.clear()
}

/// `cookie_store::serde::json::save_incl_expired_and_nonpersistent`: all cookies as JSON. It fails
/// only where a time of expiry cannot be formatted. Loading the text gives back clean cookies as
/// the JSON form has them. The order of the cookies in the text is open, and so is what comes back
/// of cookies whose name, value or place holds a separator. A time of expiry is written as its
/// local date and time, so one that is held with an offset from UTC comes back as another; of
/// those nothing is said.
#[verifier::external_body]
fn save_store(store: &cookie_store::CookieStore) -> (r: Result<String, String>)
    ensures
        all_formattable(stored(*store)) ==> r is Ok,
        r is Ok && comes_back(stored(*store)) ==> is_loaded(
            loaded(r->Ok_0@),
            all_rewritten(stored(*store)),
        ),
{
    let mut out = Vec::new();
    cookie_store::serde::json::save_incl_expired_and_nonpersistent(store, &mut out).map_err(
        |e| e.to_string(),
    )?;
    String::from_utf8(out).map_err(|e| e.to_string())
}

/// `cookie_store::serde::json::load_all`: the store that a JSON text writes.
#[verifier::external_body]
fn load_store(json: &str) -> (r: Result<cookie_store::CookieStore, String>)
    ensures
        r is Ok <==> loaded(json@) is Ok,
        r is Ok ==> stored(r->Ok_0) == loaded(json@)->Ok_0,
        r is Err ==> r->Err_0@ == loaded(json@)->Err_0,
{
    cookie_store::serde::json::load_all(json.as_bytes()).map_err(|e| e.to_string())
}

/// `s` without its leading dots.
pub open spec fn without_dots(s: Seq<char>) -> Seq<char>
    decreases s.len(),
{
    if s.len() > 0 && s[0] == '.' {
        without_dots(s.drop_first())
    } else {
        s
    }
}

fn strip_dots(s: &str) -> (r: String)
    ensures
        r@ == without_dots(s@),
{
    let v: Vec<char> = chars_of(s);
    let mut i: usize = 0;
    assert(v@.skip(0) =~= v@);
    while i < v.len() && v[i] == '.'
        invariant
            i <= v.len(),
            without_dots(v@) == without_dots(v@.skip(i as int)),
        decreases v.len() - i,
    {
        assert(v@.skip(i as int).drop_first() =~= v@.skip(i + 1));
        i = i + 1;
    }
    assert(v@.subrange(i as int, v@.len() as int) =~= v@.skip(i as int));
    string_of(&slice(&v, i, v.len()))
}

/// Whether `cookie` is the transport-neutral form of `from`.
pub open spec fn exports(cookie: Cookie, from: StoredCookie) -> bool {
    &&& cookie.name@ == from.name@
    &&& cookie.value@ == from.value@
    &&& match from.domain {
        StoredDomain::HostOnly(host) => cookie.domain@ == host@ && cookie.host_only,
        StoredDomain::Suffix(suffix) => cookie.domain@ == without_dots(suffix@)
            && !cookie.host_only,
        StoredDomain::Missing => false,
    }
    &&& cookie.path@ == if from.path@.len() == 0 {
        "/"@
    } else {
        from.path@
    }
    &&& cookie.expires == match from.expires {
        Some(unix_nanos) => Some(Timestamp { unix_nanos }),
        None => None,
    }
    &&& cookie.secure == (from.secure == Some(true))
    &&& cookie.http_only == (from.http_only == Some(true))
    &&& cookie.same_site == match from.same_site {
        Some(name) => Some(SameSite::named(name@)),
        None => None,
    }
}

/// The cookies among `listed` that have a domain.
pub open spec fn exportable(listed: Seq<StoredCookie>) -> Seq<StoredCookie>
    decreases listed.len(),
{
    if listed.len() == 0 {
        seq![]
    } else if listed.last().domain is Missing {
        exportable(listed.drop_last())
    } else {
        exportable(listed.drop_last()).push(listed.last())
    }
}

/// Turns stored cookies into their transport-neutral form, leaving out those without a domain.
pub fn export_stored(listed: &Vec<StoredCookie>) -> (r: Vec<Cookie>)
    ensures
        r@.len() == exportable(listed@).len(),
        forall|i: int| 0 <= i < r@.len() ==> exports(#[trigger] r@[i], exportable(listed@)[i]),
{
    let mut out: Vec<Cookie> = Vec::new();
    let mut i: usize = 0;
    assert(listed@.subrange(0, 0) =~= seq![]);
    while i < listed.len()
        invariant
            i <= listed.len(),
            out@.len() == exportable(listed@.subrange(0, i as int)).len(),
            forall|k: int|
                0 <= k < out@.len() ==> exports(
                    #[trigger] out@[k],
                    exportable(listed@.subrange(0, i as int))[k],
                ),
        decreases listed.len() - i,
    {
        let from: &StoredCookie = &listed[i];
        assert(listed@.subrange(0, i + 1).drop_last() =~= listed@.subrange(0, i as int));
        let place: Option<(String, bool)> = match &from.domain {
            StoredDomain::HostOnly(host) => Some((host.clone(), true)),
            StoredDomain::Suffix(suffix) => Some((strip_dots(suffix.as_str()), false)),
            StoredDomain::Missing => None,
        };
        if let Some((domain, host_only)) = place {
            let path: String = if from.path.as_str().unicode_len() == 0 {
                owned("/")
            } else {
                from.path.clone()
            };
            let expires: Option<Timestamp> = match from.expires {
                Some(unix_nanos) => Some(Timestamp { unix_nanos }),
                None => None,
            };
            let cookie = Cookie {
                name: from.name.clone(),
                value: from.value.clone(),
                domain,
                host_only,
                path,
                expires,
                secure: matches!(from.secure, Some(true)),
                http_only: matches!(from.http_only, Some(true)),
                same_site: match &from.same_site {
                    Some(name) => Some(SameSite::from_name(name.as_str())),
                    None => None,
                },
            };
            assert(exports(cookie, *from));
            out.push(cookie);
        }
        i = i + 1;
    }
    assert(listed@.subrange(0, listed@.len() as int) =~= listed@);
    out
}

/// The path of an imported cookie.
pub open spec fn import_path(cookie: Cookie) -> Seq<char> {
    if cookie.path@.len() == 0 {
        "/"@
    } else {
        cookie.path@
    }
}

/// The URL that an imported cookie is taken to come from.
pub open spec fn import_url(cookie: Cookie) -> Seq<char> {
    (if cookie.secure {
        "https"@
    } else {
        "http"@
    }) + "://"@ + cookie.domain@ + import_path(cookie)
}

/// Whether `plan` puts `cookie` into a store.
pub open spec fn plans(plan: ImportPlan, cookie: Cookie) -> bool {
    &&& plan.name == cookie.name
    &&& plan.value == cookie.value
    &&& plan.path@ == import_path(cookie)
    &&& plan.secure == cookie.secure
    &&& plan.http_only == cookie.http_only
    &&& plan.domain == if cookie.host_only {
        None
    } else {
        Some(cookie.domain)
    }
    &&& plan.expires == match cookie.expires {
        Some(t) => Some(t.unix_nanos),
        None => None,
    }
    &&& opt_view(plan.same_site) == policy_name(cookie.same_site)
    &&& plan.url@ == import_url(cookie)
}

/// Prepares a cookie for a store. One without name or domain is not taken, nor one whose domain and
/// path do not make a URL.
pub fn import_plan(cookie: &Cookie) -> (r: Option<ImportPlan>)
    ensures
        r is Some <==> is_importable(*cookie),
        r is Some ==> plans(r.unwrap(), *cookie),
{
    if cookie.name.as_str().unicode_len() == 0 || cookie.domain.as_str().unicode_len() == 0 {
        return None;
    }
    let path: String = if cookie.path.as_str().unicode_len() == 0 {
        owned("/")
    } else {
        cookie.path.clone()
    };
    let mut url: String = if cookie.secure {
        owned("https")
    } else {
        owned("http")
    };
    url.append("://");
    url.append(cookie.domain.as_str());
    url.append(path.as_str());
    if Url::parse(url.as_str()).is_err() {
        return None;
    }
    Some(
        ImportPlan {
            name: cookie.name.clone(),
            value: cookie.value.clone(),
            path,
            secure: cookie.secure,
            http_only: cookie.http_only,
            domain: if cookie.host_only {
                None
            } else {
                Some(cookie.domain.clone())
            },
            expires: match cookie.expires {
                Some(t) => Some(t.unix_nanos),
                None => None,
            },
            same_site: match cookie.same_site {
                Some(policy) => Some(owned(policy.as_str())),
                None => None,
            },
            url,
        },
    )
}

/// Whether a cookie can be imported: it has a name and a domain, which make a URL with its path.
pub open spec fn is_importable(cookie: Cookie) -> bool {
    &&& cookie.name@.len() > 0
    &&& cookie.domain@.len() > 0
    &&& parsed_url(import_url(cookie)) is Ok
}

/// The cookie that an import gives to a store, if it gives one.
pub open spec fn imported(cookie: Cookie) -> Option<WrittenCookie> {
    let domain = if cookie.host_only {
        None
    } else {
        Some(cookie.domain@)
    };
    match cookie_place(domain, import_path(cookie), cookie.http_only, import_url(cookie)) {
        Some(p) if is_importable(cookie) => Some(
            WrittenCookie {
                key: CookieKey { domain: p.domain, path: p.path, name: cookie.name@ },
                host_only: p.host_only,
                value: cookie.value@,
                lifetime: lifetime_until(
                    match cookie.expires {
                        Some(t) => Some(t.unix_nanos),
                        None => None,
                    },
                ),
                secure: Some(cookie.secure),
                http_only: Some(cookie.http_only),
                same_site: policy_name(cookie.same_site),
                partitioned: false,
                path_text: Some(import_path(cookie)),
                over_http: p.over_http,
            },
        ),
        _ => None,
    }
}

/// Whether a cookie's texts can stand in a `Set-Cookie` header, and its URL's host holds no
/// semicolon.
pub open spec fn is_clean_import(cookie: Cookie) -> bool {
    &&& is_clean(cookie.name@) && !cookie.name@.contains('=')
    &&& is_clean(cookie.value@)
    &&& is_clean(import_path(cookie))
    &&& host_is_plain(import_url(cookie))
}

/// Whether all cookies can be imported and written as `Set-Cookie` headers.
pub open spec fn are_clean_imports(cookies: Seq<Cookie>) -> bool {
    forall|i: int| 0 <= i < cookies.len() ==> is_clean_import(#[trigger] cookies[i])
}

/// Whether a store goes from `before` to `after` by importing cookies one after the other, and takes
/// `count` of them.
pub open spec fn imports(
    before: Map<CookieKey, CookieView>,
    cookies: Seq<Cookie>,
    after: Map<CookieKey, CookieView>,
    count: nat,
) -> bool
    decreases cookies.len(),
{
    if cookies.len() == 0 {
        after == before && count == 0
    } else {
        exists|mid: Map<CookieKey, CookieView>, taken: bool|
            {
                &&& #[trigger] accepts(mid, imported(cookies.last()), after, taken)
                &&& taken ==> count > 0
                &&& imports(
                    before,
                    cookies.drop_last(),
                    mid,
                    if taken {
                        (count - 1) as nat
                    } else {
                        count
                    },
                )
            }
    }
}

/// The cookie that a header writes, if it is text and writes one.
pub open spec fn written_by(header: Option<Seq<char>>, url: Seq<char>) -> Option<WrittenCookie> {
    match header {
        Some(text) => header_cookie(text, url),
        None => None,
    }
}

/// Whether a store goes from `before` to `after` by the `Set-Cookie` headers of a response, one
/// after the other. A header that is not text writes nothing.
pub open spec fn takes_headers(
    before: Map<CookieKey, CookieView>,
    headers: Seq<Option<Seq<char>>>,
    url: Seq<char>,
    after: Map<CookieKey, CookieView>,
) -> bool
    decreases headers.len(),
{
    if headers.len() == 0 {
        after == before
    } else {
        exists|mid: Map<CookieKey, CookieView>, taken: bool| #[trigger]
            accepts(mid, written_by(headers.last(), url), after, taken) && takes_headers(
                before,
                headers.drop_last(),
                url,
                mid,
            )
    }
}

/// Names and values as a `Cookie` header has them: `name=value`, joined by semicolons.
pub open spec fn header_text(pairs: Seq<(String, String)>) -> Seq<char>
    decreases pairs.len(),
{
    if pairs.len() == 0 {
        seq![]
    } else {
        let front = if pairs.len() == 1 {
            seq![]
        } else {
            header_text(pairs.drop_last()) + seq![';', ' ']
        };
        front + pairs.last().0@ + seq!['='] + pairs.last().1@
    }
}

/// The `Cookie` header for names and values: none without cookies, and none where they hold what a
/// header cannot.
pub fn cookie_header(pairs: &Vec<(String, String)>) -> (r: Option<String>)
    ensures
        r is Some <==> pairs@.len() > 0 && is_header_value(header_text(pairs@)),
        r is Some ==> r.unwrap()@ == header_text(pairs@),
{
    let mut out: String = String::new();
    let mut i: usize = 0;
    assert(pairs@.subrange(0, 0) =~= seq![]);
    assert(out@ =~= seq![]);
    while i < pairs.len()
        invariant
            i <= pairs.len(),
            out@ == header_text(pairs@.subrange(0, i as int)),
            i > 0 ==> out@.len() > 0,
        decreases pairs.len() - i,
    {
        assert(pairs@.subrange(0, i + 1).drop_last() =~= pairs@.subrange(0, i as int));
        if i > 0 {
            out.push(';');
            out.push(' ');
        }
        out.append(pairs[i].0.as_str());
        out.push('=');
        out.append(pairs[i].1.as_str());
        assert(out@ =~= header_text(pairs@.subrange(0, i + 1)));
        i = i + 1;
    }
    assert(pairs@.subrange(0, pairs@.len() as int) =~= pairs@);
    if pairs.len() == 0 || check_header_value(out.as_str()).is_err() {
        return None;
    }
    Some(out)
}

/// A cookie store shared by crawler sessions.
#[derive(Debug)]
pub struct CookieJar {
    store: cookie_store::CookieStore,
}

impl View for CookieJar {
    type V = Map<CookieKey, CookieView>;

    /// The cookies in the jar, expired ones too.
    closed spec fn view(&self) -> Map<CookieKey, CookieView> {
        stored(self.store)
    }
}

impl Default for CookieJar {
    fn default() -> (r: Self)
        ensures
            r@.dom() == Set::<CookieKey>::empty(),
    {
        CookieJar::new()
    }
}

impl CookieJar {
    /// Creates an empty cookie jar.
    pub fn new() -> (r: CookieJar)
        ensures
            r@.dom() == Set::<CookieKey>::empty(),
            comes_back(r@),
    {
        CookieJar { store: new_store() }
    }

    /// Parses and stores every `Set-Cookie` response header.
    pub fn store_response_cookies(
        &mut self,
        url: &Url,
        headers: &http::HeaderMap<http::HeaderValue>,
    )
        ensures
            takes_headers(
                old(self)@,
                values_under(header_contents(*headers), "set-cookie"@),
                url@.text,
                final(self)@,
            ),
            host_is_plain(url@.text) && all_clean(old(self)@) ==> all_clean(final(self)@),
    {
        proof {
            reveal_strlit("set-cookie");
            assert(ascii_lower("set-cookie"@) =~= "set-cookie"@);
        }
        let values: Vec<Option<String>> = header_values(headers, "set-cookie");
        let ghost texts = values_under(header_contents(*headers), "set-cookie"@);
        let mut i: usize = 0;
        while i < values.len()
            invariant
                i <= values.len(),
                opt_views(values@) == texts,
                takes_headers(old(self)@, texts.subrange(0, i as int), url@.text, self@),
                host_is_plain(url@.text) && all_clean(old(self)@) ==> all_clean(self@),
            decreases values.len() - i,
        {
            let ghost mid = self@;
            let ghost front = texts.subrange(0, i + 1);
            let mut taken: bool = false;
            assert(texts[i as int] == opt_view(values@[i as int]));
            if let Some(value) = &values[i] {
                taken = parse_cookie(&mut self.store, value.as_str(), url.as_str());
            }
            proof {
                assert(front.drop_last() =~= texts.subrange(0, i as int));
                assert(front.last() == texts[i as int]);
                let written = written_by(front.last(), url@.text);
                assert(accepts(mid, written, self@, taken));
                if taken && host_is_plain(url@.text) && all_clean(mid) {
                    clean_cookies_keep_a_jar_clean(mid, written->Some_0, self@, taken);
                }
            }
            i = i + 1;
        }
        assert(texts.subrange(0, texts.len() as int) =~= texts);
    }

    /// Builds the `Cookie` request header for `url`, if matching cookies exist.
    pub fn cookie_header_for(&self, url: &Url) -> (r: Option<String>)
        ensures
            exists|pairs: Seq<(String, String)>|
                {
                    &&& #[trigger] sends(self@, sent_to(url@.text), pairs)
                    &&& r is Some <==> pairs.len() > 0 && is_header_value(header_text(pairs))
                    &&& r is Some ==> r.unwrap()@ == header_text(pairs)
                },
    {
        let pairs: Vec<(String, String)> = request_values(&self.store, url.as_str());
        assert(sends(self@, sent_to(url@.text), pairs@));
        cookie_header(&pairs)
    }

    /// Exports all currently unexpired cookies in the transport-neutral representation.
    pub fn export_cookies(&self) -> (r: Vec<Cookie>)
        ensures
            exists|listed: Seq<StoredCookie>|
                #![trigger exportable(listed)]
                {
                    &&& lists_unexpired(self@, listed)
                    &&& r@.len() == exportable(listed).len()
                    &&& forall|i: int|
                        0 <= i < r@.len() ==> exports(#[trigger] r@[i], exportable(listed)[i])
                },
            forall|k: CookieKey| #[trigger]
                self@.contains_key(k) && self@[k].expires is None && k.domain.len() > 0
                    ==> is_exported(r@, k, self@[k]),
    {
        let listed: Vec<StoredCookie> = unexpired_cookies(&self.store);
        let r: Vec<Cookie> = export_stored(&listed);
        assert forall|k: CookieKey| #[trigger]
            self@.contains_key(k) && self@[k].expires is None && k.domain.len() > 0 implies is_exported(
            r@,
            k,
            self@[k],
        ) by {
            session_cookies_are_exported(self@, listed@, r@, k);
        }
        r
    }

    /// Imports cookies, merging or overwriting entries by name, domain and path.
    ///
    /// Invalid entries are skipped. The returned count includes only cookies that
    /// the underlying store accepted.
    pub fn import_cookies(&mut self, cookies: &Vec<Cookie>) -> (r: usize)
        ensures
            r <= cookies@.len(),
            imports(old(self)@, cookies@, final(self)@, r as nat),
            all_clean(old(self)@) && are_clean_imports(cookies@) ==> all_clean(final(self)@),
    {
        let mut count: usize = 0;
        let mut i: usize = 0;
        while i < cookies.len()
            invariant
                i <= cookies.len(),
                count <= i,
                imports(old(self)@, cookies@.subrange(0, i as int), self@, count as nat),
                all_clean(old(self)@) && are_clean_imports(cookies@) ==> all_clean(self@),
            decreases cookies.len() - i,
        {
            let ghost mid = self@;
            let ghost front = cookies@.subrange(0, i + 1);
            let mut taken: bool = false;
            if let Some(plan) = import_plan(&cookies[i]) {
                taken = insert_plan(&mut self.store, &plan);
            }
            if taken {
                count = count + 1;
            }
            proof {
                assert(front.drop_last() =~= cookies@.subrange(0, i as int));
                assert(front.last() == cookies@[i as int]);
                assert(accepts(mid, imported(front.last()), self@, taken));
                if taken && all_clean(mid) && are_clean_imports(cookies@) {
                    assert(is_clean_import(cookies@[i as int]));
                    clean_cookies_keep_a_jar_clean(mid, imported(front.last())->Some_0, self@, taken);
                }
            }
            i = i + 1;
        }
        assert(cookies@.subrange(0, cookies@.len() as int) =~= cookies@);
        count
    }

    /// Serializes all cookies, including session and expired cookies, to JSON.
    pub fn to_json(&self) -> (r: Result<String, CookieJarError>)
        ensures
            match r {
                Ok(json) => comes_back(self@) ==> is_loaded(
                    loaded(json@),
                    all_rewritten(self@),
                ),
                Err(CookieJarError::Serialize(cause)) => {
                    &&& !all_formattable(self@)
                    &&& cause@ == seq![LinkView { message: cause.message_spec(), status: None }]
                },
                Err(_) => false,
            },
    {
        match save_store(&self.store) {
            Ok(json) => Ok(json),
            Err(message) => Err(CookieJarError::Serialize(Cause::msg(message.as_str()))),
        }
    }

    /// Deserializes a cookie jar from its JSON representation.
    pub fn from_json(json: &str) -> (r: Result<CookieJar, CookieJarError>)
        ensures
            match r {
                Ok(jar) => is_loaded(loaded(json@), jar@),
                Err(CookieJarError::Deserialize(cause)) => loaded(json@) is Err && cause@ == seq![
                    LinkView { message: loaded(json@)->Err_0, status: None },
                ],
                _ => false,
            },
    {
        match load_store(json) {
            Ok(store) => Ok(CookieJar { store }),
            Err(message) => Err(CookieJarError::Deserialize(Cause::msg(message.as_str()))),
        }
    }

    /// Removes every cookie from the jar.
    pub fn clear(&mut self)
        ensures
            final(self)@.dom() == Set::<CookieKey>::empty(),
    {
        clear_store(&mut self.store);
    }

    /// Returns the number of unexpired cookies.
    pub fn cookie_count(&self) -> (r: usize)
        ensures
            exists|listed: Seq<StoredCookie>| #[trigger]
                lists_unexpired(self@, listed) && r == listed.len(),
    {
        let listed: Vec<StoredCookie> = unexpired_cookies(&self.store);
        assert(lists_unexpired(self@, listed@));
        listed.len()
    }
}

/// A session cookie that comes over HTTP is taken, and from then on listed, and sent to every URL
/// that it goes to.
pub proof fn a_session_cookie_is_kept_and_sent(
    before: Map<CookieKey, CookieView>,
    cookie: WrittenCookie,
    after: Map<CookieKey, CookieView>,
    taken: bool,
    listed: Seq<StoredCookie>,
    url: Seq<char>,
    pairs: Seq<(String, String)>,
)
    requires
        accepts(before, Some(cookie), after, taken),
        cookie.lifetime is Session,
        cookie.over_http,
        lists_unexpired(after, listed),
        sends(after, sent_to(url), pairs),
    ensures
        taken,
        after.contains_key(cookie.key),
        cookie.is_written(after[cookie.key]),
        exists|i: int|
            0 <= i < listed.len() && is_entry(
                #[trigger] listed[i],
                cookie.key,
                after[cookie.key],
            ),
        sent_to(url).contains(scope_of(cookie.key, after[cookie.key])) ==> exists|i: int|
            0 <= i < pairs.len() && (#[trigger] pairs[i]).0@ == cookie.key.name && pairs[i].1@
                == cookie.value,
{
    let k = cookie.key;
    assert(after.contains_key(k));
    let keys = choose|keys: Seq<CookieKey>|
        {
            &&& #[trigger] lists_keys(after, keys, listed)
            &&& keys.no_duplicates()
            &&& forall|k: CookieKey| #[trigger]
                after.contains_key(k) && after[k].expires is None ==> keys.contains(k)
        };
    let at = choose|i: int| 0 <= i < keys.len() && keys[i] == k;
    assert(is_entry(listed[at], k, after[k]));
    if sent_to(url).contains(scope_of(k, after[k])) {
        let sent = choose|keys: Seq<CookieKey>| #[trigger]
            pairs_up(after, keys, pairs) && selects(after, sent_to(url), keys);
        let at = choose|i: int| 0 <= i < sent.len() && sent[i] == k;
        assert(pairs[at].0@ == k.name);
    }
}

/// Whether `cookie` is the transport-neutral form of a stored cookie.
pub open spec fn stands_for(cookie: Cookie, key: CookieKey, view: CookieView) -> bool {
    &&& cookie.name@ == key.name
    &&& cookie.value@ == view.value
    &&& cookie.host_only == view.host_only
    &&& cookie.domain@ == if view.host_only {
        key.domain
    } else {
        without_dots(key.domain)
    }
    &&& cookie.path@ == if key.path.len() == 0 {
        "/"@
    } else {
        key.path
    }
    &&& cookie.expires == match view.expires {
        Some(unix_nanos) => Some(Timestamp { unix_nanos }),
        None => None,
    }
    &&& cookie.secure == (view.secure == Some(true))
    &&& cookie.http_only == (view.http_only == Some(true))
    &&& cookie.same_site == match view.same_site {
        Some(name) => Some(SameSite::named(name)),
        None => None,
    }
}

/// Whether a stored cookie is among exported ones.
pub open spec fn is_exported(exported: Seq<Cookie>, key: CookieKey, view: CookieView) -> bool {
    exists|i: int| 0 <= i < exported.len() && stands_for(#[trigger] exported[i], key, view)
}

proof fn lemma_exportable(listed: Seq<StoredCookie>, at: int) -> (place: int)
    requires
        0 <= at < listed.len(),
        !(listed[at].domain is Missing),
    ensures
        0 <= place < exportable(listed).len(),
        exportable(listed)[place] == listed[at],
    decreases listed.len(),
{
    if at == listed.len() - 1 {
        exportable(listed).len() - 1
    } else {
        assert(listed.drop_last()[at] == listed[at]);
        lemma_exportable(listed.drop_last(), at)
    }
}

/// Every session cookie of a jar that has a domain is exported, with its value, path and flags.
pub proof fn session_cookies_are_exported(
    cookies: Map<CookieKey, CookieView>,
    listed: Seq<StoredCookie>,
    exported: Seq<Cookie>,
    k: CookieKey,
)
    requires
        lists_unexpired(cookies, listed),
        exported.len() == exportable(listed).len(),
        forall|i: int|
            0 <= i < exported.len() ==> exports(#[trigger] exported[i], exportable(listed)[i]),
        cookies.contains_key(k),
        cookies[k].expires is None,
        k.domain.len() > 0,
    ensures
        is_exported(exported, k, cookies[k]),
{
    let keys = choose|keys: Seq<CookieKey>|
        {
            &&& #[trigger] lists_keys(cookies, keys, listed)
            &&& keys.no_duplicates()
            &&& forall|k: CookieKey| #[trigger]
                cookies.contains_key(k) && cookies[k].expires is None ==> keys.contains(k)
        };
    let at = choose|i: int| 0 <= i < keys.len() && keys[i] == k;
    assert(is_entry(listed[at], keys[at], cookies[keys[at]]));
    let place = lemma_exportable(listed, at);
    assert(exports(exported[place], exportable(listed)[place]));
    assert(stands_for(exported[place], k, cookies[k]));
}

/// A later session cookie takes the place of an earlier one with its name, domain and path: the jar
/// holds the later value, under the same keys.
pub proof fn a_later_cookie_replaces_an_earlier_one(
    before: Map<CookieKey, CookieView>,
    earlier: WrittenCookie,
    between: Map<CookieKey, CookieView>,
    later: WrittenCookie,
    after: Map<CookieKey, CookieView>,
    taken: bool,
    replaced: bool,
)
    requires
        accepts(before, Some(earlier), between, taken),
        accepts(between, Some(later), after, replaced),
        earlier.key == later.key,
        earlier.lifetime is Session && earlier.over_http,
        later.lifetime is Session && later.over_http,
    ensures
        taken && replaced,
        after.dom() == between.dom(),
        later.is_written(after[later.key]),
{
    assert(between.contains_key(later.key));
    assert(after.dom() =~= between.dom());
}

/// A jar stays clean when it is given clean cookies.
pub proof fn clean_cookies_keep_a_jar_clean(
    before: Map<CookieKey, CookieView>,
    cookie: WrittenCookie,
    after: Map<CookieKey, CookieView>,
    taken: bool,
)
    requires
        accepts(before, Some(cookie), after, taken),
        all_clean(before),
        cookie.is_clean(),
    ensures
        all_clean(after),
{
    if taken {
        let v = choose|v: CookieView| #[trigger]
            before.insert(cookie.key, v) == after && (cookie.is_written(v) || cookie.is_ended(
                before,
                v,
            ));
        assert forall|k: CookieKey| #[trigger] after.contains_key(k) implies is_clean_cookie(
            k,
            after[k],
        ) by {
            if k != cookie.key {
                assert(before.contains_key(k));
            } else if !cookie.is_written(v) {
                assert(is_clean_cookie(k, before[k]));
            }
        }
    }
}

/// A jar that comes back from its JSON form still does when it is given a clean cookie for the
/// session, or one with a known time of expiry.
pub proof fn filled_jars_come_back(
    before: Map<CookieKey, CookieView>,
    cookie: WrittenCookie,
    after: Map<CookieKey, CookieView>,
    taken: bool,
)
    requires
        accepts(before, Some(cookie), after, taken),
        comes_back(before),
        cookie.is_clean(),
        cookie.has_known_end(),
    ensures
        comes_back(after),
{
    clean_cookies_keep_a_jar_clean(before, cookie, after, taken);
    expiry_stays_in_utc(before, Some(cookie), after, taken);
    if taken {
        let v = choose|v: CookieView| #[trigger]
            before.insert(cookie.key, v) == after && (cookie.is_written(v) || cookie.is_ended(
                before,
                v,
            ));
        assert forall|k: CookieKey| #[trigger] after.contains_key(k) implies is_formattable(
            after[k],
        ) by {
            if k != cookie.key {
                assert(before.contains_key(k));
            }
        }
    }
}

/// Whatever a store is given, its times of expiry stay in UTC.
pub proof fn expiry_stays_in_utc(
    before: Map<CookieKey, CookieView>,
    cookie: Option<WrittenCookie>,
    after: Map<CookieKey, CookieView>,
    taken: bool,
)
    requires
        accepts(before, cookie, after, taken),
        all_in_utc(before),
    ensures
        all_in_utc(after),
{
}

/// A jar that has come back from its JSON form holds its times of expiry in UTC.
pub proof fn rewritten_jars_are_in_utc(cookies: Map<CookieKey, CookieView>)
    ensures
        all_in_utc(all_rewritten(cookies)),
{
}

/// What a store is given concerns one cookie: all others stay as they are, and none is forgotten.
pub proof fn other_cookies_stay(
    before: Map<CookieKey, CookieView>,
    cookie: WrittenCookie,
    after: Map<CookieKey, CookieView>,
    taken: bool,
    other: CookieKey,
)
    requires
        accepts(before, Some(cookie), after, taken),
        before.contains_key(other),
    ensures
        after.contains_key(other),
        other != cookie.key ==> after[other] == before[other],
{
}

/// A cookie is sent only to the URLs that it goes to.
pub proof fn cookies_go_nowhere_else(
    cookies: Map<CookieKey, CookieView>,
    url: Seq<char>,
    pairs: Seq<(String, String)>,
    at: int,
)
    requires
        sends(cookies, sent_to(url), pairs),
        0 <= at < pairs.len(),
    ensures
        exists|k: CookieKey| #[trigger]
            cookies.contains_key(k) && sent_to(url).contains(scope_of(k, cookies[k]))
                && pairs[at].0@ == k.name && pairs[at].1@ == cookies[k].value,
{
    let keys = choose|keys: Seq<CookieKey>| #[trigger]
        pairs_up(cookies, keys, pairs) && selects(cookies, sent_to(url), keys);
    assert(cookies.contains_key(keys[at]));
}

/// A jar comes back from its JSON form: the same cookies under the same domains, paths and names,
/// with their values, flags and policies, expiring in the same second. But for those that the JSON
/// form makes secure, they are sent to the same URLs.
pub proof fn json_round_trip(
    before: Map<CookieKey, CookieView>,
    json: Seq<char>,
    after: Map<CookieKey, CookieView>,
    k: CookieKey,
    url: Seq<char>,
)
    requires
        comes_back(before),
        is_loaded(loaded(json), all_rewritten(before)),
        is_loaded(loaded(json), after),
    ensures
        after.dom() == before.dom(),
        before.contains_key(k) ==> {
            let (old_view, new_view) = (before[k], after[k]);
            &&& new_view.value == old_view.value
            &&& new_view.host_only == old_view.host_only
            &&& new_view.same_site == old_view.same_site
            &&& new_view.partitioned == old_view.partitioned
            &&& (new_view.http_only == Some(true)) == (old_view.http_only == Some(true))
            &&& new_view.expires is Some <==> old_view.expires is Some
            &&& old_view.expires is Some ==> new_view.expires.unwrap()
                <= old_view.expires.unwrap() < new_view.expires.unwrap() + 1_000_000_000
            &&& is_written_secure(old_view) == (old_view.secure == Some(true)) ==> {
                &&& scope_of(k, new_view) == scope_of(k, old_view)
                &&& sent_to(url).contains(scope_of(k, new_view)) == sent_to(url).contains(
                    scope_of(k, old_view),
                )
            }
        },
{
    assert(after.dom() =~= before.dom());
    if before.contains_key(k) {
        lemma_rewritten(before[k]);
    }
}

proof fn lemma_rewritten(view: CookieView)
    requires
        is_formattable(view),
    ensures
        view.expires is Some ==> rewritten(view).expires.unwrap() <= view.expires.unwrap()
            < rewritten(view).expires.unwrap() + 1_000_000_000,
{
    if let Some(at) = view.expires {
        let cut = at - at % 1_000_000_000;
        assert(FIRST_YEAR_NANOS <= cut <= at);
    }
}

/// An error serializing or deserializing a cookie jar.
#[derive(Debug)]
pub enum CookieJarError {
    /// Cookie JSON serialization failed.
    Serialize(Cause),
    /// Cookie JSON deserialization failed.
    Deserialize(Cause),
}

impl CookieJarError {
    /// The text of the error.
    pub open spec fn message_spec(self) -> Seq<char> {
        match self {
            CookieJarError::Serialize(c) => "failed to serialize cookie jar: "@ + c.message_spec(),
            CookieJarError::Deserialize(c) => "failed to deserialize cookie jar: "@
                + c.message_spec(),
        }
    }

    /// The text of the error.
    pub fn message(&self) -> (r: String)
        ensures
            r@ == self.message_spec(),
    {
        match self {
            CookieJarError::Serialize(c) => joined("failed to serialize cookie jar: ", c.message()),
            CookieJarError::Deserialize(c) => joined(
                "failed to deserialize cookie jar: ",
                c.message(),
            ),
        }
    }

    /// The error as a chain of causes.
    pub fn into_cause(self) -> (r: Cause)
        ensures
            r@ == seq![LinkView { message: self.message_spec(), status: None }] + self.cause_spec()@,
    {
        let message: String = self.message();
        match self {
            CookieJarError::Serialize(c) => c.context(message.as_str()),
            CookieJarError::Deserialize(c) => c.context(message.as_str()),
        }
    }

    /// What the error wraps.
    pub open spec fn cause_spec(self) -> Cause {
        match self {
            CookieJarError::Serialize(c) => c,
            CookieJarError::Deserialize(c) => c,
        }
    }
}

/// The names of the policies, which give the policies back; any other name means no restriction.
pub proof fn policy_names_give_the_policies_back(name: Seq<char>)
    ensures
        SameSite::Strict.name_spec() == "Strict"@,
        SameSite::Lax.name_spec() == "Lax"@,
        SameSite::NoRestriction.name_spec() == "None"@,
        SameSite::named("Strict"@) == SameSite::Strict,
        SameSite::named("Lax"@) == SameSite::Lax,
        SameSite::named("None"@) == SameSite::NoRestriction,
        name != "Strict"@ && name != "Lax"@ ==> SameSite::named(name) == SameSite::NoRestriction,
        policy_name(None) is None,
        policy_name(Some(SameSite::Strict)) == Some("Strict"@),
        policy_name(Some(SameSite::Lax)) == Some("Lax"@),
        policy_name(Some(SameSite::NoRestriction)) == Some("None"@),
{
    reveal_strlit("Strict");
    reveal_strlit("Lax");
    reveal_strlit("None");
    assert("None"@.len() == 4 && "Strict"@.len() == 6 && "Lax"@.len() == 3);
}

/// The pairs of a request's header are written with an equals sign within and a semicolon and a space
/// between, in their order.
pub proof fn headers_are_pairs_in_order(
    first: Seq<(String, String)>,
    second: Seq<(String, String)>,
    pair: (String, String),
)
    ensures
        header_text(Seq::<(String, String)>::empty()).len() == 0,
        header_text(seq![pair]) == pair.0@ + "="@ + pair.1@,
        first.len() > 0 && second.len() > 0 ==> header_text(first + second) == header_text(first)
            + "; "@ + header_text(second),
    decreases second.len(),
{
    reveal_strlit("=");
    reveal_strlit("; ");
    assert("="@ =~= seq!['=']);
    assert("; "@ =~= seq![';', ' ']);
    reveal_with_fuel(header_text, 2);
    assert(header_text(seq![pair]) =~= pair.0@ + "="@ + pair.1@);
    if first.len() > 0 && second.len() > 0 {
        let all = first + second;
        assert(all.last() == second.last());
        assert(all.drop_last() =~= first + second.drop_last());
        if second.len() == 1 {
            assert(all.drop_last() =~= first);
        } else {
            headers_are_pairs_in_order(first, second.drop_last(), pair);
        }
        assert(header_text(all) =~= header_text(first) + "; "@ + header_text(second));
    }
}

/// The dots before a domain go, all of them and nothing else.
pub proof fn leading_dots_go(dots: Seq<char>, domain: Seq<char>)
    requires
        forall|i: int| 0 <= i < dots.len() ==> #[trigger] dots[i] == '.',
        domain.len() > 0 ==> domain[0] != '.',
    ensures
        without_dots(dots + domain) == domain,
    decreases dots.len(),
{
    if dots.len() > 0 {
        assert((dots + domain)[0] == dots[0]);
        assert((dots + domain).drop_first() =~= dots.drop_first() + domain);
        leading_dots_go(dots.drop_first(), domain);
    } else {
        assert(dots + domain =~= domain);
    }
}

/// Every stored cookie with a domain is exported, in order, and none without one.
pub proof fn cookies_with_a_domain_are_exported(
    first: Seq<StoredCookie>,
    second: Seq<StoredCookie>,
    cookie: StoredCookie,
)
    ensures
        exportable(first + second) == exportable(first) + exportable(second),
        cookie.domain is Missing ==> exportable(seq![cookie]).len() == 0,
        !(cookie.domain is Missing) ==> exportable(seq![cookie]) == seq![cookie],
    decreases second.len(),
{
    reveal_with_fuel(exportable, 2);
    assert(seq![cookie].drop_last() =~= Seq::<StoredCookie>::empty());
    assert(Seq::<StoredCookie>::empty().push(cookie) =~= seq![cookie]);
    if second.len() > 0 {
        cookies_with_a_domain_are_exported(first, second.drop_last(), cookie);
        assert((first + second).last() == second.last());
        assert((first + second).drop_last() =~= first + second.drop_last());
        assert(exportable(first + second) =~= exportable(first) + exportable(second));
    } else {
        assert(first + second =~= first);
        assert(exportable(first) + exportable(second) =~= exportable(first));
    }
}

/// An exported cookie says what is stored: name, value, host or domain, path, end and flags, with a
/// slash for an empty path and `false` for a flag that was not set.
pub proof fn exports_say_what_is_stored(cookie: Cookie, from: StoredCookie)
    requires
        exports(cookie, from),
    ensures
        cookie.name@ == from.name@,
        cookie.value@ == from.value@,
        !(from.domain is Missing),
        cookie.host_only <==> from.domain is HostOnly,
        from.domain is HostOnly ==> cookie.domain@ == from.domain->HostOnly_0@,
        from.domain is Suffix && from.domain->Suffix_0@.len() > 0 && from.domain->Suffix_0@[0] != '.'
            ==> cookie.domain@ == from.domain->Suffix_0@,
        from.path@.len() > 0 ==> cookie.path@ == from.path@,
        from.path@.len() == 0 ==> cookie.path@ == "/"@,
        from.expires is None <==> cookie.expires is None,
        from.expires is Some ==> cookie.expires.unwrap().unix_nanos == from.expires.unwrap(),
        cookie.secure <==> from.secure == Some(true),
        cookie.http_only <==> from.http_only == Some(true),
        from.same_site is None <==> cookie.same_site is None,
        from.same_site is Some && from.same_site.unwrap()@ == "Strict"@ ==> cookie.same_site == Some(
            SameSite::Strict,
        ),
        from.same_site is Some && from.same_site.unwrap()@ == "Lax"@ ==> cookie.same_site == Some(
            SameSite::Lax,
        ),
        from.same_site is Some && from.same_site.unwrap()@ == "None"@ ==> cookie.same_site == Some(
            SameSite::NoRestriction,
        ),
{
    policy_names_give_the_policies_back("None"@);
}

/// A cookie can be imported where it has a name and a domain and the URL that they make with the path,
/// a slash for an empty one, can be read: of the secure scheme for a secure cookie, else of the plain
/// one.
pub proof fn what_can_be_imported(cookie: Cookie)
    ensures
        cookie.name@.len() == 0 ==> !is_importable(cookie),
        cookie.domain@.len() == 0 ==> !is_importable(cookie),
        cookie.name@.len() > 0 && cookie.domain@.len() > 0 ==> (is_importable(cookie) <==> {
            let path = if cookie.path@.len() == 0 {
                "/"@
            } else {
                cookie.path@
            };
            if cookie.secure {
                parsed_url("https://"@ + cookie.domain@ + path) is Ok
            } else {
                parsed_url("http://"@ + cookie.domain@ + path) is Ok
            }
        }),
{
    reveal_strlit("https");
    reveal_strlit("http");
    reveal_strlit("://");
    reveal_strlit("https://");
    reveal_strlit("http://");
    assert("https"@ + "://"@ =~= "https://"@);
    assert("http"@ + "://"@ =~= "http://"@);
}

/// What is planned of an import is what the cookie says: nothing is set on it that the cookie does not
/// have, and the domain only where the cookie is not for one host alone.
pub proof fn plans_say_what_the_cookie_says(plan: ImportPlan, cookie: Cookie)
    requires
        plans(plan, cookie),
    ensures
        plan.name@ == cookie.name@,
        plan.value@ == cookie.value@,
        plan.secure == cookie.secure,
        plan.http_only == cookie.http_only,
        cookie.host_only ==> plan.domain is None,
        !cookie.host_only ==> plan.domain is Some && plan.domain.unwrap()@ == cookie.domain@,
        cookie.expires is None ==> plan.expires is None,
        cookie.expires is Some ==> plan.expires == Some(cookie.expires.unwrap().unix_nanos),
        cookie.path@.len() > 0 ==> plan.path@ == cookie.path@,
        cookie.path@.len() == 0 ==> plan.path@ == "/"@,
        cookie.same_site is None ==> plan.same_site is None,
        cookie.same_site == Some(SameSite::Strict) ==> plan.same_site is Some
            && plan.same_site.unwrap()@ == "Strict"@,
        cookie.same_site == Some(SameSite::Lax) ==> plan.same_site is Some
            && plan.same_site.unwrap()@ == "Lax"@,
        cookie.same_site == Some(SameSite::NoRestriction) ==> plan.same_site is Some
            && plan.same_site.unwrap()@ == "None"@,
        cookie.secure ==> plan.url@ == "https://"@ + cookie.domain@ + plan.path@,
        !cookie.secure ==> plan.url@ == "http://"@ + cookie.domain@ + plan.path@,
{
    reveal_strlit("https");
    reveal_strlit("http");
    reveal_strlit("://");
    reveal_strlit("https://");
    reveal_strlit("http://");
    assert("https"@ + "://"@ =~= "https://"@);
    assert("http"@ + "://"@ =~= "http://"@);
}

/// Importing one cookie: at most one is counted, none where it has no name or no domain, and where
/// none is counted nothing changes. A counted session cookie stands in the jar under its name, with
/// its value and its flags.
pub proof fn what_an_import_does(
    before: Map<CookieKey, CookieView>,
    cookie: Cookie,
    after: Map<CookieKey, CookieView>,
    count: nat,
)
    requires
        imports(before, seq![cookie], after, count),
    ensures
        count <= 1,
        count == 0 ==> after == before,
        cookie.name@.len() == 0 || cookie.domain@.len() == 0 ==> count == 0,
        count == 1 && cookie.expires is None ==> exists|key: CookieKey, view: CookieView|
            {
                &&& after == #[trigger] before.insert(key, view)
                &&& key.name == cookie.name@
                &&& view.value == cookie.value@
                &&& view.expires is None
                &&& view.secure == Some(cookie.secure)
                &&& view.http_only == Some(cookie.http_only)
            },
{
    reveal_with_fuel(imports, 2);
    assert(seq![cookie].drop_last() =~= Seq::<Cookie>::empty());
    assert(seq![cookie].last() == cookie);
    let (mid, taken) = choose|mid: Map<CookieKey, CookieView>, taken: bool|
        {
            &&& #[trigger] accepts(mid, imported(cookie), after, taken)
            &&& taken ==> count > 0
            &&& imports(
                before,
                seq![cookie].drop_last(),
                mid,
                if taken {
                    (count - 1) as nat
                } else {
                    count
                },
            )
        };
    assert(mid == before);
    if taken && imported(cookie) is Some {
        let w = imported(cookie).unwrap();
        let v = choose|v: CookieView| #[trigger]
            before.insert(w.key, v) == after && (w.is_written(v) || w.is_ended(before, v));
        assert(after == before.insert(w.key, v));
    }
}

/// The texts of the two ways in which a jar cannot be written or read.
pub proof fn jar_errors_say_what_failed(cause: Cause)
    ensures
        CookieJarError::Serialize(cause).message_spec() == "failed to serialize cookie jar: "@
            + cause@[0].message,
        CookieJarError::Deserialize(cause).message_spec() == "failed to deserialize cookie jar: "@
            + cause@[0].message,
        CookieJarError::Serialize(cause).cause_spec() == cause,
        CookieJarError::Deserialize(cause).cause_spec() == cause,
{
}

} // verus!
