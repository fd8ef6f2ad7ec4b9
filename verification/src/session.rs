//! Sessions and the session pool.
//!
//! Expiry is a wall-clock time that is stored with the session, so restarting a crawler cannot
//! renew sessions.

use crate::cookies::{
    all_formattable, all_rewritten, comes_back, is_loaded, loaded, takes_headers, CookieJar, CookieKey,
};
use crate::errors::{Cause, CrawlError, LinkView};
use crate::headers::{header_contents, values_under};
use crate::http_client::HttpResponse;
use crate::request::UserData;
use crate::snapshot::{lemma_hex_injective, power16};
use crate::text::{hex, hex16, joined, owned, same};
use crate::time::{Duration, Timestamp};
use crate::util::{draws_differ, mixed, state_after};
use vstd::prelude::*;

verus! {

/// Stable identifier for a crawler session.
#[derive(Debug, PartialEq, Eq, Hash)]
pub struct SessionId(String);

impl View for SessionId {
    type V = Seq<char>;

    closed spec fn view(&self) -> Seq<char> {
        self.0@
    }
}

impl Clone for SessionId {
    fn clone(&self) -> (r: Self)
        ensures
            r@ == self@,
    {
        SessionId(self.0.clone())
    }
}

/// The text of a generated identifier.
pub open spec fn id_text(random: u64) -> Seq<char> {
    "session-"@ + hex(random as nat, 16)
}

impl SessionId {
    /// The identifier made from a random number.
    pub fn generate(random: u64) -> (r: SessionId)
        ensures
            r@ == id_text(random),
    {
        SessionId(joined("session-", hex16(random).as_str()))
    }

    /// An identifier with the given text.
    pub fn from_text(value: &str) -> (r: SessionId)
        ensures
            r@ == value@,
    {
        SessionId(owned(value))
    }

    /// Returns the identifier as text.
    pub fn as_str(&self) -> (r: &str)
        ensures
            r@ == self@,
    {
        self.0.as_str()
    }
}

/// Stable token used to keep fingerprint generation consistent within a session.
#[derive(Debug, PartialEq, Eq, Hash)]
pub struct SessionToken(String);

impl View for SessionToken {
    type V = Seq<char>;

    closed spec fn view(&self) -> Seq<char> {
        self.0@
    }
}

impl SessionToken {
    /// Creates a token from its textual representation.
    pub fn new(value: &str) -> (r: SessionToken)
        ensures
            r@ == value@,
    {
        SessionToken(owned(value))
    }

    /// The token of a session.
    pub fn from_session_id(id: &SessionId) -> (r: SessionToken)
        ensures
            r@ == id@,
    {
        SessionToken(owned(id.as_str()))
    }

    /// Returns the token as text.
    pub fn as_str(&self) -> (r: &str)
        ensures
            r@ == self@,
    {
        self.0.as_str()
    }
}

/// Limits and scoring behavior for one session. Scores are counted in thousandths.
#[derive(Clone, Copy, Debug, PartialEq, Eq, Structural)]
pub struct SessionConfig {
    /// Blocking threshold, scaled by 1,000.
    pub max_error_score_scaled: u32,
    /// Score removed after a successful use, scaled by 1,000.
    pub error_score_decrement_scaled: u32,
    /// Maximum attempts served before retirement.
    pub max_usage_count: u32,
    /// Maximum wall-clock lifetime.
    pub max_age: Duration,
}

impl Default for SessionConfig {
    fn default() -> (r: Self)
        ensures
            r.max_error_score_scaled == 3_000,
            r.error_score_decrement_scaled == 500,
            r.max_usage_count == 50,
            r.max_age == Duration::secs(3_000),
    {
        SessionConfig {
            max_error_score_scaled: 3_000,
            error_score_decrement_scaled: 500,
            max_usage_count: 50,
            max_age: Duration::from_secs(3_000),
        }
    }
}

impl SessionConfig {
    /// Sets the scaled blocking threshold.
    pub fn with_max_error_score_scaled(self, value: u32) -> (r: SessionConfig)
        ensures
            r == (SessionConfig { max_error_score_scaled: value, ..self }),
    {
        let mut out = self;
        out.max_error_score_scaled = value;
        out
    }

    /// Sets the scaled successful-use decrement.
    pub fn with_error_score_decrement_scaled(self, value: u32) -> (r: SessionConfig)
        ensures
            r == (SessionConfig { error_score_decrement_scaled: value, ..self }),
    {
        let mut out = self;
        out.error_score_decrement_scaled = value;
        out
    }

    /// Sets the maximum usage count.
    pub fn with_max_usage_count(self, value: u32) -> (r: SessionConfig)
        ensures
            r == (SessionConfig { max_usage_count: value, ..self }),
    {
        let mut out = self;
        out.max_usage_count = value;
        out
    }

    /// Sets the maximum session age.
    pub fn with_max_age(self, value: Duration) -> (r: SessionConfig)
        ensures
            r == (SessionConfig { max_age: value, ..self }),
    {
        let mut out = self;
        out.max_age = value;
        out
    }
}

/// Cookie, score, and user-data state associated with a crawling identity.
#[derive(Debug)]
pub struct Session {
    pub id: SessionId,
    pub cookies: CookieJar,
    pub user_data: UserData,
    pub error_score_scaled: u32,
    pub usage_count: u32,
    pub retired: bool,
    pub expires_at: Timestamp,
    pub config: SessionConfig,
}

impl Session {
    /// Whether the session can serve another attempt at `now`.
    pub open spec fn usable(self, now: Timestamp) -> bool {
        &&& !self.retired
        &&& now.unix_nanos < self.expires_at.unix_nanos
        &&& self.error_score_scaled < self.config.max_error_score_scaled
        &&& self.usage_count < self.config.max_usage_count
    }

    /// The session after one more checkout.
    pub open spec fn used(self) -> Session {
        Session {
            usage_count: if self.usage_count < u32::MAX {
                (self.usage_count + 1) as u32
            } else {
                u32::MAX
            },
            ..self
        }
    }

    /// Whether the session is new: created at `now` with a number, and never used or blamed.
    pub open spec fn is_fresh(self, config: SessionConfig, now: Timestamp, random: u64) -> bool {
        &&& self.id@ == id_text(random)
        &&& self.cookies@.dom() == Set::<CookieKey>::empty()
        &&& self.user_data@.dom() == Set::<Seq<char>>::empty()
        &&& self.error_score_scaled == 0
        &&& !self.retired
        &&& self.expires_at.unix_nanos == now.unix_nanos + config.max_age.nanos
        &&& self.config == config
    }

    /// Creates an empty session with an identifier made from a random number.
    pub fn new(config: SessionConfig, now: Timestamp, random: u64) -> (r: Session)
        requires
            config.max_age.wf(),
            now.can_add(config.max_age),
        ensures
            r.is_fresh(config, now, random),
            r.usage_count == 0,
    {
        Session {
            id: SessionId::generate(random),
            cookies: CookieJar::new(),
            user_data: UserData::default(),
            error_score_scaled: 0,
            usage_count: 0,
            retired: false,
            expires_at: now.add_span(config.max_age),
            config,
        }
    }

    /// The session after a success: its error score is lower, but not below zero.
    pub open spec fn after_success(self) -> Session {
        Session {
            error_score_scaled: if self.error_score_scaled
                >= self.config.error_score_decrement_scaled {
                (self.error_score_scaled - self.config.error_score_decrement_scaled) as u32
            } else {
                0
            },
            ..self
        }
    }

    /// The session after a failure: its error score is one point higher.
    pub open spec fn after_failure(self) -> Session {
        Session {
            error_score_scaled: if self.error_score_scaled <= u32::MAX - 1_000 {
                (self.error_score_scaled + 1_000) as u32
            } else {
                u32::MAX
            },
            ..self
        }
    }

    /// Whether the session is the one that `value` stores.
    pub open spec fn restores(self, value: PersistedSession, config: SessionConfig) -> bool {
        &&& self.id@ == value.id@
        &&& is_loaded(loaded(value.cookies@), self.cookies@)
        &&& self.user_data@.dom() == Set::<Seq<char>>::empty()
        &&& self.error_score_scaled == value.error_score_scaled
        &&& self.usage_count == value.usage_count
        &&& self.retired == value.retired
        &&& self.expires_at == value.expires_at
        &&& self.config == config
    }

    /// Restores a stored session. Cookies that cannot be read are an error.
    pub fn restored(value: &PersistedSession, config: SessionConfig) -> (r: Result<
        Session,
        CrawlError,
    >)
        ensures
            match r {
                Ok(session) => session.restores(*value, config),
                Err(e) => {
                    &&& loaded(value.cookies@) is Err
                    &&& e is NonRetryable
                    &&& e->NonRetryable_0@ == seq![
                        LinkView {
                            message: "failed to deserialize cookie jar: "@ + loaded(
                                value.cookies@,
                            )->Err_0,
                            status: None,
                        },
                        LinkView { message: loaded(value.cookies@)->Err_0, status: None },
                    ]
                },
            },
    {
        match CookieJar::from_json(value.cookies.as_str()) {
            Ok(cookies) => Ok(
                Session {
                    id: SessionId::from_text(value.id.as_str()),
                    cookies,
                    user_data: UserData::default(),
                    error_score_scaled: value.error_score_scaled,
                    usage_count: value.usage_count,
                    retired: value.retired,
                    expires_at: value.expires_at,
                    config,
                },
            ),
            Err(error) => Err(CrawlError::non_retryable(error.into_cause())),
        }
    }

    /// The stored form of the session.
    pub fn persisted(&self) -> (r: Result<PersistedSession, CrawlError>)
        ensures
            match r {
                Ok(value) => stores(value, *self),
                Err(e) => fails_to_save(e) && !all_formattable(self.cookies@),
            },
    {
        match self.cookies.to_json() {
            Ok(cookies) => Ok(
                PersistedSession {
                    id: owned(self.id.as_str()),
                    cookies,
                    error_score_scaled: self.error_score_scaled,
                    usage_count: self.usage_count,
                    retired: self.retired,
                    expires_at: self.expires_at,
                },
            ),
            Err(error) => {
                let ghost reason = error.cause_spec().message_spec();
                let cause: Cause = error.into_cause();
                assert(cause@ =~= save_links(reason));
                Err(CrawlError::non_retryable(cause))
            },
        }
    }

    /// Returns this session's identifier.
    pub fn id(&self) -> (r: &SessionId)
        ensures
            *r == self.id,
    {
        &self.id
    }

    /// Returns the cookie jar.
    pub fn cookie_jar(&self) -> (r: &CookieJar)
        ensures
            *r == self.cookies,
    {
        &self.cookies
    }

    /// Returns the error score in thousandths.
    pub fn error_score_scaled(&self) -> (r: u32)
        ensures
            r == self.error_score_scaled,
    {
        self.error_score_scaled
    }

    /// Returns the number of attempts served.
    pub fn usage_count(&self) -> (r: u32)
        ensures
            r == self.usage_count,
    {
        self.usage_count
    }

    /// Records one checkout attempt.
    pub fn record_usage(&mut self)
        ensures
            *final(self) == old(self).used(),
    {
        if self.usage_count < u32::MAX {
            self.usage_count = self.usage_count + 1;
        }
    }

    /// Returns whether the error threshold has been reached.
    pub fn is_blocked(&self) -> (r: bool)
        ensures
            r == (self.error_score_scaled >= self.config.max_error_score_scaled),
    {
        self.error_score_scaled >= self.config.max_error_score_scaled
    }

    /// Returns whether the fixed creation-time expiry has passed.
    pub fn is_expired(&self, now: Timestamp) -> (r: bool)
        ensures
            r == (now.unix_nanos >= self.expires_at.unix_nanos),
    {
        now.unix_nanos >= self.expires_at.unix_nanos
    }

    /// Returns whether the session was explicitly retired.
    pub fn is_retired(&self) -> (r: bool)
        ensures
            r == self.retired,
    {
        self.retired
    }

    /// Returns whether the session can serve another attempt.
    pub fn is_usable(&self, now: Timestamp) -> (r: bool)
        ensures
            r == self.usable(now),
    {
        !self.retired && !self.is_expired(now) && self.error_score_scaled
            < self.config.max_error_score_scaled && self.usage_count < self.config.max_usage_count
    }

    /// Decreases the error score, flooring it at zero.
    pub fn mark_good(&mut self)
        ensures
            *final(self) == old(self).after_success(),
    {
        let step: u32 = self.config.error_score_decrement_scaled;
        self.error_score_scaled = if self.error_score_scaled >= step {
            self.error_score_scaled - step
        } else {
            0
        };
    }

    /// Adds one error point, saturating.
    pub fn mark_bad(&mut self)
        ensures
            *final(self) == old(self).after_failure(),
    {
        self.error_score_scaled = if self.error_score_scaled <= u32::MAX - 1_000 {
            self.error_score_scaled + 1_000
        } else {
            u32::MAX
        };
    }

    /// Permanently retires this session.
    pub fn retire(&mut self)
        ensures
            *final(self) == (Session { retired: true, ..*old(self) }),
    {
        self.retired = true;
    }

    /// Stores the `Set-Cookie` headers of a response.
    pub fn set_cookies_from_response(&mut self, response: &HttpResponse)
        ensures
            *final(self) == (Session { cookies: final(self).cookies, ..*old(self) }),
            takes_headers(
                old(self).cookies@,
                values_under(header_contents(response.headers), "set-cookie"@),
                response.url@.text,
                final(self).cookies@,
            ),
    {
        self.cookies.store_response_cookies(&response.url, &response.headers);
    }
}

/// Default key used to persist the session pool.
pub fn session_pool_persist_key() -> (r: &'static str)
    ensures
        r@ == "SDK_SESSION_POOL_STATE"@,
{
    "SDK_SESSION_POOL_STATE"
}

/// Session pool capacity, creation, and persistence settings.
#[derive(Debug)]
pub struct SessionPoolOptions {
    /// Maximum number of retained sessions.
    pub max_pool_size: usize,
    /// Configuration of new and restored sessions.
    pub session_config: SessionConfig,
    /// Key used by explicit persistence.
    pub persist_state_key: String,
}

impl Default for SessionPoolOptions {
    fn default() -> (r: Self)
        ensures
            r.max_pool_size == 1_000,
            r.session_config.max_error_score_scaled == 3_000,
            r.session_config.error_score_decrement_scaled == 500,
            r.session_config.max_usage_count == 50,
            r.session_config.max_age == Duration::secs(3_000),
            r.persist_state_key@ == "SDK_SESSION_POOL_STATE"@,
    {
        SessionPoolOptions {
            max_pool_size: 1_000,
            session_config: SessionConfig::default(),
            persist_state_key: owned(session_pool_persist_key()),
        }
    }
}

impl SessionPoolOptions {
    /// Sets the maximum retained session count.
    pub fn with_max_pool_size(self, value: usize) -> (r: SessionPoolOptions)
        ensures
            r == (SessionPoolOptions { max_pool_size: value, ..self }),
    {
        let mut out = self;
        out.max_pool_size = value;
        out
    }

    /// Sets configuration for pool sessions.
    pub fn with_session_config(self, value: SessionConfig) -> (r: SessionPoolOptions)
        ensures
            r == (SessionPoolOptions { session_config: value, ..self }),
    {
        let mut out = self;
        out.session_config = value;
        out
    }

    /// Sets the persistence key.
    pub fn with_persist_state_key(self, value: &str) -> (r: SessionPoolOptions)
        ensures
            r.persist_state_key@ == value@,
            r == (SessionPoolOptions { persist_state_key: r.persist_state_key, ..self }),
    {
        let mut out = self;
        out.persist_state_key = owned(value);
        out
    }
}

/// A stored session.
#[derive(Debug)]
pub struct PersistedSession {
    pub id: String,
    pub cookies: String,
    pub error_score_scaled: u32,
    pub usage_count: u32,
    pub retired: bool,
    pub expires_at: Timestamp,
}

/// A session that a pool hands out.
#[derive(Debug)]
pub enum Checkout {
    /// The session with this number in the pool.
    Pooled(usize),
    /// A session that the pool does not keep.
    Unpooled(Session),
}

/// The number of the first session with an identifier.
pub open spec fn position_of(sessions: Seq<Session>, id: Seq<char>) -> Option<int>
    decreases sessions.len(),
{
    if sessions.len() == 0 {
        None
    } else {
        match position_of(sessions.drop_last(), id) {
            Some(i) => Some(i),
            None => if sessions.last().id@ == id {
                Some(sessions.len() - 1)
            } else {
                None
            },
        }
    }
}

/// The sessions that can serve another attempt.
pub open spec fn usable_of(sessions: Seq<Session>, now: Timestamp) -> Seq<Session>
    decreases sessions.len(),
{
    if sessions.len() == 0 {
        seq![]
    } else if sessions.last().usable(now) {
        usable_of(sessions.drop_last(), now).push(sessions.last())
    } else {
        usable_of(sessions.drop_last(), now)
    }
}

/// A bounded collection of reusable crawler sessions.
#[derive(Debug)]
pub struct SessionPool {
    pub sessions: Vec<Session>,
    pub options: SessionPoolOptions,
}

impl SessionPool {
    /// The sticky session that can be served, if there is one.
    pub open spec fn sticky(self, id: Option<&SessionId>, now: Timestamp) -> Option<int> {
        match id {
            Some(id) => match position_of(self.sessions@, id@) {
                Some(i) => if self.sessions@[i].usable(now) {
                    Some(i)
                } else {
                    None
                },
                None => None,
            },
            None => None,
        }
    }

    /// Whether a checkout makes a new session: there is no sticky one to serve, and there is room in
    /// the pool or nothing usable in it.
    pub open spec fn makes_session(self, id: Option<&SessionId>, now: Timestamp) -> bool {
        &&& self.sticky(id, now) is None
        &&& usable_of(self.sessions@, now).len() < self.options.max_pool_size || usable_of(
            self.sessions@,
            now,
        ).len() == 0
    }

    /// Whether a checkout makes a new session.
    pub fn needs_session(&self, sticky: Option<&SessionId>, now: Timestamp) -> (r: bool)
        ensures
            r == self.makes_session(sticky, now),
    {
        if let Some(id) = sticky {
            if let Some(i) = self.find(id) {
                if self.sessions[i].is_usable(now) {
                    return false;
                }
            }
        }
        let mut count: usize = 0;
        let mut i: usize = 0;
        assert(self.sessions@.subrange(0, 0) =~= seq![]);
        while i < self.sessions.len()
            invariant
                count <= i <= self.sessions@.len(),
                count == usable_of(self.sessions@.subrange(0, i as int), now).len(),
            decreases self.sessions@.len() - i,
        {
            assert(self.sessions@.subrange(0, i + 1).drop_last() =~= self.sessions@.subrange(
                0,
                i as int,
            ));
            if self.sessions[i].is_usable(now) {
                count = count + 1;
            }
            i = i + 1;
        }
        assert(self.sessions@.subrange(0, self.sessions@.len() as int) =~= self.sessions@);
        count < self.options.max_pool_size || count == 0
    }

    /// Creates an empty pool.
    pub fn new(options: SessionPoolOptions) -> (r: SessionPool)
        ensures
            r.sessions@.len() == 0,
            r.options == options,
    {
        SessionPool { sessions: Vec::new(), options }
    }

    fn find(&self, id: &SessionId) -> (r: Option<usize>)
        ensures
            match r {
                Some(i) => position_of(self.sessions@, id@) == Some(i as int) && i
                    < self.sessions@.len(),
                None => position_of(self.sessions@, id@) is None,
            },
    {
        let mut i: usize = 0;
        assert(self.sessions@.subrange(0, 0) =~= seq![]);
        while i < self.sessions.len()
            invariant
                i <= self.sessions.len(),
                position_of(self.sessions@.subrange(0, i as int), id@) is None,
            decreases self.sessions.len() - i,
        {
            assert(self.sessions@.subrange(0, i + 1).drop_last() =~= self.sessions@.subrange(
                0,
                i as int,
            ));
            if same(self.sessions[i].id.as_str(), id.as_str()) {
                proof {
                    lemma_position_stays(self.sessions@, i + 1, id@);
                }
                return Some(i);
            }
            i = i + 1;
        }
        assert(self.sessions@.subrange(0, self.sessions@.len() as int) =~= self.sessions@);
        None
    }

    /// Checks out a sticky usable session, creates one while below capacity, or rotates at random.
    ///
    /// `fresh` is the number of a new session, and `pick` the number that rotates.
    pub fn get_session(
        &mut self,
        sticky: Option<&SessionId>,
        now: Timestamp,
        fresh: u64,
        pick: usize,
    ) -> (r: Checkout)
        requires
            old(self).makes_session(sticky, now) ==> {
                &&& old(self).options.session_config.max_age.wf()
                &&& now.can_add(old(self).options.session_config.max_age)
            },
        ensures
            checks_out(*old(self), sticky, now, fresh, pick, r, *final(self)),
    {
        if let Some(id) = sticky {
            if let Some(i) = self.find(id) {
                if self.sessions[i].is_usable(now) {
                    let mut session: Session = self.sessions.remove(i);
                    session.record_usage();
                    self.sessions.insert(i, session);
                    assert(self.sessions@ =~= old(self).sessions@.update(
                        i as int,
                        old(self).sessions@[i as int].used(),
                    ));
                    return Checkout::Pooled(i);
                }
            }
        }
        self.retain_usable(now);
        let config: SessionConfig = self.options.session_config;
        let count: usize = self.sessions.len();
        if count < self.options.max_pool_size {
            let mut session: Session = Session::new(config, now, fresh);
            session.record_usage();
            self.sessions.push(session);
            assert(self.sessions@.drop_last() =~= usable_of(old(self).sessions@, now));
            return Checkout::Pooled(count);
        }
        if count == 0 {
            let mut session: Session = Session::new(config, now, fresh);
            session.record_usage();
            return Checkout::Unpooled(session);
        }
        let i: usize = pick % count;
        let ghost kept = self.sessions@;
        let mut session: Session = self.sessions.remove(i);
        session.record_usage();
        self.sessions.insert(i, session);
        assert(self.sessions@ =~= kept.update(i as int, kept[i as int].used()));
        Checkout::Pooled(i)
    }

    fn retain_usable(&mut self, now: Timestamp)
        ensures
            final(self).options == old(self).options,
            final(self).sessions@ == usable_of(old(self).sessions@, now),
    {
        let mut sessions: Vec<Session> = Vec::new();
        std::mem::swap(&mut self.sessions, &mut sessions);
        let ghost all = sessions@;
        let ghost mut at: int = 0;
        let mut kept: Vec<Session> = Vec::new();
        assert(all.subrange(0, 0) =~= seq![]);
        for session in iter: sessions
            invariant
                iter.seq() == all,
                at == iter.index(),
                kept@ == usable_of(all.subrange(0, at), now),
        {
            proof {
                assert(all.subrange(0, at + 1).drop_last() =~= all.subrange(0, at));
                assert(session == all[at]);
            }
            if session.is_usable(now) {
                kept.push(session);
            }
            proof {
                at = at + 1;
            }
        }
        assert(all.subrange(0, all.len() as int) =~= all);
        self.sessions = kept;
    }

    /// Retires the session with `id` when it exists.
    pub fn retire_session(&mut self, id: &SessionId)
        ensures
            final(self).options == old(self).options,
            final(self).sessions@ == match position_of(old(self).sessions@, id@) {
                Some(i) => old(self).sessions@.update(
                    i,
                    (Session { retired: true, ..old(self).sessions@[i] }),
                ),
                None => old(self).sessions@,
            },
    {
        if let Some(i) = self.find(id) {
            let mut session: Session = self.sessions.remove(i);
            session.retire();
            self.sessions.insert(i, session);
            assert(self.sessions@ =~= old(self).sessions@.update(
                i as int,
                (Session { retired: true, ..old(self).sessions@[i as int] }),
            ));
        }
    }

    /// Returns the number of currently retained entries.
    pub fn session_count(&self) -> (r: usize)
        ensures
            r == self.sessions@.len(),
    {
        self.sessions.len()
    }

    /// The stored form of all sessions: identifiers, cookies, scores, usage, retirement, and
    /// original expiry.
    pub fn persist(&self) -> (r: Result<Vec<PersistedSession>, CrawlError>)
        ensures
            match r {
                Ok(values) => {
                    &&& values@.len() == self.sessions@.len()
                    &&& forall|i: int|
                        0 <= i < values@.len() ==> stores(#[trigger] values@[i], self.sessions@[i])
                },
                Err(e) => fails_to_save(e) && exists|i: int|
                    0 <= i < self.sessions@.len() && !all_formattable(
                        (#[trigger] self.sessions@[i]).cookies@,
                    ),
            },
            self.sessions@.len() == 0 ==> r is Ok,
    {
        let mut out: Vec<PersistedSession> = Vec::new();
        let mut i: usize = 0;
        while i < self.sessions.len()
            invariant
                i <= self.sessions.len(),
                out@.len() == i,
                forall|k: int| 0 <= k < i ==> stores(#[trigger] out@[k], self.sessions@[k]),
            decreases self.sessions.len() - i,
        {
            match self.sessions[i].persisted() {
                Ok(value) => {
                    out.push(value);
                },
                Err(e) => {
                    return Err(e);
                },
            }
            i = i + 1;
        }
        Ok(out)
    }

    /// Replaces pool contents from stored sessions, skipping entries with corrupt cookies, and those
    /// for which the pool has no room.
    pub fn restore(&mut self, values: &Vec<PersistedSession>)
        ensures
            final(self).options == old(self).options,
            final(self).sessions@.len() <= old(self).options.max_pool_size,
            final(self).sessions@.len() == if readable(values@).len() <= old(
                self,
            ).options.max_pool_size {
                readable(values@).len()
            } else {
                old(self).options.max_pool_size as nat
            },
            forall|i: int|
                0 <= i < final(self).sessions@.len() ==> (#[trigger] final(self).sessions@[i]).restores(
                    readable(values@)[i],
                    old(self).options.session_config,
                ),
    {
        let config: SessionConfig = self.options.session_config;
        let room: usize = self.options.max_pool_size;
        let mut out: Vec<Session> = Vec::new();
        let mut i: usize = 0;
        assert(values@.subrange(0, 0) =~= seq![]);
        while i < values.len() && out.len() < room
            invariant
                i <= values.len(),
                out@.len() <= room,
                out@.len() == readable(values@.subrange(0, i as int)).len(),
                forall|k: int|
                    0 <= k < out@.len() ==> (#[trigger] out@[k]).restores(
                        readable(values@.subrange(0, i as int))[k],
                        config,
                    ),
            decreases values.len() - i,
        {
            assert(values@.subrange(0, i + 1).drop_last() =~= values@.subrange(0, i as int));
            match Session::restored(&values[i], config) {
                Ok(session) => {
                    out.push(session);
                },
                Err(_) => {},
            }
            i = i + 1;
        }
        assert(values@.subrange(0, values@.len() as int) =~= values@);
        proof {
            lemma_readable_prefix(values@, i as int);
        }
        self.sessions = out;
    }
}

proof fn lemma_position_stays(sessions: Seq<Session>, upto: int, id: Seq<char>)
    requires
        0 <= upto <= sessions.len(),
        position_of(sessions.subrange(0, upto), id) is Some,
    ensures
        position_of(sessions, id) == position_of(sessions.subrange(0, upto), id),
    decreases sessions.len(),
{
    if upto == sessions.len() {
        assert(sessions.subrange(0, upto) =~= sessions);
    } else {
        assert(sessions.drop_last().subrange(0, upto) =~= sessions.subrange(0, upto));
        lemma_position_stays(sessions.drop_last(), upto, id);
    }
}

/// Whether a pool hands out `r` and goes from `before` to `after`, where the session `wanted` was asked
/// for, `fresh` is drawn for a new identifier and `pick` for the choice among usable sessions.
pub open spec fn checks_out(
    before: SessionPool,
    wanted: Option<&SessionId>,
    now: Timestamp,
    fresh: u64,
    pick: usize,
    r: Checkout,
    after: SessionPool,
) -> bool {
    &&& after.options == before.options
    &&& match before.sticky(wanted, now) {
        Some(i) => {
            &&& r == Checkout::Pooled(i as usize)
            &&& after.sessions@ == before.sessions@.update(
                i,
                before.sessions@[i].used(),
            )
        },
        None => {
            let kept = usable_of(before.sessions@, now);
            let config = before.options.session_config;
            if kept.len() < before.options.max_pool_size {
                &&& r == Checkout::Pooled(kept.len() as usize)
                &&& after.sessions@.len() == kept.len() + 1
                &&& after.sessions@.drop_last() == kept
                &&& after.sessions@.last().is_fresh(config, now, fresh)
                &&& after.sessions@.last().usage_count == 1
            } else if kept.len() == 0 {
                &&& r is Unpooled
                &&& r->Unpooled_0.is_fresh(config, now, fresh)
                &&& r->Unpooled_0.usage_count == 1
                &&& after.sessions@.len() == 0
            } else {
                let i = pick as int % kept.len() as int;
                &&& r == Checkout::Pooled(i as usize)
                &&& after.sessions@ == kept.update(i, kept[i].used())
            }
        },
    }
}

/// Whether `value` stores `session`.
pub open spec fn stores(value: PersistedSession, session: Session) -> bool {
    &&& value.id@ == session.id@
    &&& comes_back(session.cookies@) ==> is_loaded(
        loaded(value.cookies@),
        all_rewritten(session.cookies@),
    )
    &&& value.error_score_scaled == session.error_score_scaled
    &&& value.usage_count == session.usage_count
    &&& value.retired == session.retired
    &&& value.expires_at == session.expires_at
}

/// The stored sessions whose cookies can be read.
pub open spec fn readable(values: Seq<PersistedSession>) -> Seq<PersistedSession>
    decreases values.len(),
{
    if values.len() == 0 {
        seq![]
    } else if loaded(values.last().cookies@) is Ok {
        readable(values.drop_last()).push(values.last())
    } else {
        readable(values.drop_last())
    }
}

proof fn lemma_readable_prefix(values: Seq<PersistedSession>, upto: int)
    requires
        0 <= upto <= values.len(),
    ensures
        readable(values.subrange(0, upto)).len() <= readable(values).len(),
        readable(values.subrange(0, upto)) == readable(values).subrange(
            0,
            readable(values.subrange(0, upto)).len() as int,
        ),
    decreases values.len(),
{
    if upto == values.len() {
        assert(values.subrange(0, upto) =~= values);
        assert(readable(values) =~= readable(values).subrange(0, readable(values).len() as int));
    } else {
        lemma_readable_prefix(values.drop_last(), upto);
        assert(values.drop_last().subrange(0, upto) =~= values.subrange(0, upto));
        let part = readable(values.subrange(0, upto));
        assert(readable(values).subrange(0, part.len() as int) =~= readable(
            values.drop_last(),
        ).subrange(0, part.len() as int));
    }
}

/// Restoring a stored session gives back its identity, score, usage and retirement, and above all
/// its expiry: a restart renews no session.
pub proof fn restoring_renews_nothing(
    session: Session,
    value: PersistedSession,
    restored: Session,
    now: Timestamp,
)
    requires
        stores(value, session),
        restored.restores(value, session.config),
    ensures
        restored.id@ == session.id@,
        restored.expires_at == session.expires_at,
        restored.usable(now) == session.usable(now),
        comes_back(session.cookies@) ==> restored.cookies@
            == all_rewritten(session.cookies@),
{
}

/// The chain of causes of cookies that cannot be saved for a reason.
pub open spec fn save_links(reason: Seq<char>) -> Seq<LinkView> {
    seq![
        LinkView { message: "failed to serialize cookie jar: "@ + reason, status: None },
        LinkView { message: reason, status: None },
    ]
}

/// Whether `error` is that of cookies that cannot be saved.
pub open spec fn fails_to_save(error: CrawlError) -> bool {
    error is NonRetryable && exists|reason: Seq<char>|
        error->NonRetryable_0@ == #[trigger] save_links(reason)
}

/// Whether `c` is a hexadecimal digit, in small letters.
pub open spec fn is_small_hex_digit(c: char) -> bool {
    ('0' <= c && c <= '9') || ('a' <= c && c <= 'f')
}

/// Identifiers drawn from one source differ, however far apart they are drawn, until the source has
/// gone through all its states. Each is a fixed word and sixteen hexadecimal digits.
pub proof fn drawn_ids_differ(state: u64, first: nat, second: nat)
    requires
        first < second < first + 0x1_0000_0000_0000_0000int,
    ensures
        id_text(mixed(state_after(state, first))) != id_text(mixed(state_after(state, second))),
        id_text(mixed(state_after(state, first))).len() == 24,
        forall|i: int|
            8 <= i < 24 ==> is_small_hex_digit(
                #[trigger] id_text(mixed(state_after(state, first)))[i],
            ),
{
    let a = mixed(state_after(state, first));
    let b = mixed(state_after(state, second));
    draws_differ(state, first, second);
    reveal_strlit("session-");
    lemma_hex_length(a as nat, 16);
    lemma_hex_length(b as nat, 16);
    if id_text(a) == id_text(b) {
        assert(hex(a as nat, 16) =~= id_text(a).skip(8));
        assert(hex(b as nat, 16) =~= id_text(b).skip(8));
        assert(power16(16) == 0x1_0000_0000_0000_0000) by {
            reveal_with_fuel(power16, 17);
        }
        lemma_hex_injective(a as nat, b as nat, 16);
    }
}

proof fn lemma_hex_length(n: nat, width: nat)
    ensures
        hex(n, width).len() == width,
        forall|i: int| 0 <= i < width ==> is_small_hex_digit(#[trigger] hex(n, width)[i]),
    decreases width,
{
    if width > 0 {
        lemma_hex_length(n / 16, (width - 1) as nat);
    }
}

/// Dropping the sessions that cannot be used leaves only usable ones, and no more than there were.
pub proof fn only_usable_sessions_are_kept(sessions: Seq<Session>, now: Timestamp)
    ensures
        usable_of(sessions, now).len() <= sessions.len(),
        forall|i: int|
            0 <= i < usable_of(sessions, now).len() ==> (#[trigger] usable_of(
                sessions,
                now,
            )[i]).usable(now),
    decreases sessions.len(),
{
    if sessions.len() > 0 {
        only_usable_sessions_are_kept(sessions.drop_last(), now);
    }
}

/// A session that is retired, expired, blocked or worn out stays unusable while it is used further
/// and time goes on.
pub proof fn unusable_by_age_use_or_retirement_is_final(
    session: Session,
    now: Timestamp,
    later: Timestamp,
)
    requires
        now.unix_nanos <= later.unix_nanos,
        session.retired || now.unix_nanos >= session.expires_at.unix_nanos || session.usage_count
            >= session.config.max_usage_count,
    ensures
        !session.usable(now),
        !session.used().usable(later),
{
}

/// A session can be used exactly while nothing speaks against it: it is not retired, it has not
/// reached its end, its error score is below the limit, and it has uses left.
pub proof fn what_makes_a_session_usable(session: Session, now: Timestamp)
    ensures
        session.retired ==> !session.usable(now),
        now.unix_nanos >= session.expires_at.unix_nanos ==> !session.usable(now),
        session.error_score_scaled >= session.config.max_error_score_scaled ==> !session.usable(now),
        session.usage_count >= session.config.max_usage_count ==> !session.usable(now),
        !session.retired && now.unix_nanos < session.expires_at.unix_nanos
            && session.error_score_scaled < session.config.max_error_score_scaled
            && session.usage_count < session.config.max_usage_count ==> session.usable(now),
{
}

/// A failure costs a point, a thousand in the scaled score, and a success gives back the configured
/// part of one, never below zero; neither touches anything else. With a step of half a point two
/// successes make up for a failure.
pub proof fn scores_rise_and_fall(session: Session)
    ensures
        session.error_score_scaled + 1000 <= u32::MAX
            ==> session.after_failure().error_score_scaled == session.error_score_scaled + 1000,
        session.error_score_scaled + 1000 > u32::MAX
            ==> session.after_failure().error_score_scaled == u32::MAX,
        session.error_score_scaled >= session.config.error_score_decrement_scaled
            ==> session.after_success().error_score_scaled
            + session.config.error_score_decrement_scaled == session.error_score_scaled,
        session.error_score_scaled < session.config.error_score_decrement_scaled
            ==> session.after_success().error_score_scaled == 0,
        session.config.error_score_decrement_scaled == 500 && session.error_score_scaled + 1000
            <= u32::MAX ==> session.after_failure().after_success().after_success() == session,
        session.after_failure().usage_count == session.usage_count,
        session.after_success().usage_count == session.usage_count,
        session.after_failure().retired == session.retired,
        session.after_success().retired == session.retired,
        session.after_failure().expires_at == session.expires_at,
        session.after_success().expires_at == session.expires_at,
        session.after_failure().cookies == session.cookies,
        session.after_success().cookies == session.cookies,
{
}

/// Each use counts one, and touches nothing else; as many uses as are allowed wear a session out.
pub proof fn uses_are_counted(session: Session, now: Timestamp)
    requires
        session.usage_count < u32::MAX,
    ensures
        session.used().usage_count == session.usage_count + 1,
        session.used().error_score_scaled == session.error_score_scaled,
        session.used().retired == session.retired,
        session.used().expires_at == session.expires_at,
        session.used().id == session.id,
        session.usage_count + 1 < session.config.max_usage_count ==> session.used().usable(now)
            == session.usable(now),
        session.usage_count + 1 >= session.config.max_usage_count ==> !session.used().usable(now),
{
}

/// A session is found by its identifier, the first with it where there are several, and one that is
/// not there is not found.
pub proof fn sessions_are_found_by_identifier(sessions: Seq<Session>, id: Seq<char>, at: int)
    requires
        0 <= at <= sessions.len(),
        forall|k: int| 0 <= k < at ==> (#[trigger] sessions[k]).id@ != id,
        at < sessions.len() ==> sessions[at].id@ == id,
    ensures
        at < sessions.len() ==> position_of(sessions, id) == Some(at),
        at == sessions.len() ==> position_of(sessions, id) is None,
    decreases sessions.len(),
{
    if sessions.len() > 0 {
        let front = sessions.drop_last();
        if at < front.len() {
            assert(front[at] == sessions[at]);
        }
        let shorter = if at < front.len() {
            at
        } else {
            front.len() as int
        };
        assert forall|k: int| 0 <= k < shorter implies (#[trigger] front[k]).id@ != id by {
            assert(front[k] == sessions[k]);
        }
        sessions_are_found_by_identifier(front, id, shorter);
    }
}

/// Every usable session is kept, in the order of the pool.
pub proof fn usable_sessions_stay_in_order(
    first: Seq<Session>,
    second: Seq<Session>,
    now: Timestamp,
)
    ensures
        usable_of(first + second, now) == usable_of(first, now) + usable_of(second, now),
        (forall|i: int| 0 <= i < first.len() ==> (#[trigger] first[i]).usable(now)) ==> usable_of(
            first,
            now,
        ) == first,
        (forall|i: int| 0 <= i < first.len() ==> !(#[trigger] first[i]).usable(now)) ==> usable_of(
            first,
            now,
        ).len() == 0,
    decreases first.len() + second.len(),
{
    if second.len() > 0 {
        usable_sessions_stay_in_order(first, second.drop_last(), now);
        assert((first + second).last() == second.last());
        assert((first + second).drop_last() =~= first + second.drop_last());
        assert(usable_of(first + second, now) =~= usable_of(first, now) + usable_of(second, now));
    } else {
        assert(first + second =~= first);
        assert(usable_of(first, now) + usable_of(second, now) =~= usable_of(first, now));
        if first.len() > 0 {
            usable_sessions_stay_in_order(first.drop_last(), second, now);
            assert(forall|i: int|
                0 <= i < first.drop_last().len() ==> #[trigger] first.drop_last()[i] == first[i]);
            assert(first.last() == first[first.len() - 1]);
            if forall|i: int| 0 <= i < first.len() ==> (#[trigger] first[i]).usable(now) {
                assert(first.drop_last().push(first.last()) =~= first);
            }
        } else {
            assert(usable_of(first, now) =~= first);
        }
    }
}

/// A usable session that is asked for is the one handed out, and stays where it was. Otherwise the
/// pool first drops what cannot be used, makes a new session while there is room or nothing is left,
/// and else hands out one of those that are left.
pub proof fn what_a_pool_hands_out(
    before: SessionPool,
    wanted: Option<&SessionId>,
    now: Timestamp,
    fresh: u64,
    pick: usize,
    r: Checkout,
    after: SessionPool,
    at: int,
    other: int,
)
    requires
        checks_out(before, wanted, now, fresh, pick, r, after),
        before.sessions@.len() <= usize::MAX,
    ensures
        wanted is Some && 0 <= at < before.sessions@.len() && before.sessions@[at].id@
            == wanted.unwrap()@ && before.sessions@[at].usable(now) && (forall|k: int|
            0 <= k < at ==> (#[trigger] before.sessions@[k]).id@ != wanted.unwrap()@) ==> {
            &&& r == Checkout::Pooled(at as usize)
            &&& after.sessions@.len() == before.sessions@.len()
            &&& after.sessions@[at] == before.sessions@[at].used()
            &&& 0 <= other < before.sessions@.len() && other != at ==> after.sessions@[other]
                == before.sessions@[other]
        },
        wanted is None || (forall|k: int|
            0 <= k < before.sessions@.len() ==> (#[trigger] before.sessions@[k]).id@
                != wanted.unwrap()@ || !before.sessions@[k].usable(now)) ==> {
            let left = usable_of(before.sessions@, now);
            &&& left.len() < before.options.max_pool_size ==> {
                &&& r == Checkout::Pooled(left.len() as usize)
                &&& after.sessions@.len() == left.len() + 1
                &&& 0 <= other < left.len() ==> after.sessions@[other] == left[other]
                &&& after.sessions@.last().usage_count == 1
                &&& after.sessions@.last().error_score_scaled == 0
                &&& after.sessions@.last().expires_at.unix_nanos == now.unix_nanos
                    + before.options.session_config.max_age.nanos
                &&& after.sessions@.last().id@ == "session-"@ + hex(fresh as nat, 16)
                &&& !after.sessions@.last().retired
            }
            &&& left.len() >= before.options.max_pool_size && left.len() == 0 ==> r is Unpooled
                && r->Unpooled_0.usage_count == 1 && after.sessions@.len() == 0
            &&& left.len() >= before.options.max_pool_size && left.len() > 0 ==> {
                let i = pick as int % left.len() as int;
                &&& r == Checkout::Pooled(i as usize)
                &&& after.sessions@.len() == left.len()
                &&& after.sessions@[i] == left[i].used()
                &&& 0 <= other < left.len() && other != i ==> after.sessions@[other] == left[other]
            }
        },
{
    if let Some(id) = wanted {
        if 0 <= at < before.sessions@.len() && before.sessions@[at].id@ == id@ && (forall|k: int|
            0 <= k < at ==> (#[trigger] before.sessions@[k]).id@ != id@) {
            sessions_are_found_by_identifier(before.sessions@, id@, at);
        }
        lemma_position(before.sessions@, id@);
    }
    let left = usable_of(before.sessions@, now);
    if 0 <= other < left.len() && after.sessions@.len() == left.len() + 1 {
        assert(after.sessions@.drop_last()[other] == after.sessions@[other]);
    }
    if left.len() > 0 {
        vstd::arithmetic::div_mod::lemma_mod_bound(pick as int, left.len() as int);
    }
}

proof fn lemma_position(sessions: Seq<Session>, id: Seq<char>)
    ensures
        position_of(sessions, id) is Some ==> 0 <= position_of(sessions, id).unwrap()
            < sessions.len() && sessions[position_of(sessions, id).unwrap()].id@ == id,
    decreases sessions.len(),
{
    if sessions.len() > 0 {
        lemma_position(sessions.drop_last(), id);
        if position_of(sessions.drop_last(), id) is Some {
            let i = position_of(sessions.drop_last(), id).unwrap();
            assert(sessions.drop_last()[i] == sessions[i]);
        }
    }
}

/// Reading back keeps every stored session whose cookies can be read, in order.
pub proof fn readable_sessions_stay_in_order(
    first: Seq<PersistedSession>,
    second: Seq<PersistedSession>,
    value: PersistedSession,
)
    ensures
        readable(first + second) == readable(first) + readable(second),
        loaded(value.cookies@) is Ok ==> readable(seq![value]) == seq![value],
        loaded(value.cookies@) is Err ==> readable(seq![value]).len() == 0,
    decreases second.len(),
{
    reveal_with_fuel(readable, 2);
    assert(seq![value].drop_last() =~= Seq::<PersistedSession>::empty());
    assert(Seq::<PersistedSession>::empty().push(value) =~= seq![value]);
    if second.len() > 0 {
        readable_sessions_stay_in_order(first, second.drop_last(), value);
        assert((first + second).last() == second.last());
        assert((first + second).drop_last() =~= first + second.drop_last());
        assert(readable(first + second) =~= readable(first) + readable(second));
    } else {
        assert(first + second =~= first);
        assert(readable(first) + readable(second) =~= readable(first));
    }
}

/// What is stored of a session and what is restored from it agree in everything that decides about
/// its use.
pub proof fn stored_sessions_keep_what_counts(
    value: PersistedSession,
    session: Session,
    restored: Session,
    config: SessionConfig,
)
    ensures
        stores(value, session) ==> value.id@ == session.id@ && value.error_score_scaled
            == session.error_score_scaled && value.usage_count == session.usage_count
            && value.retired == session.retired && value.expires_at == session.expires_at,
        restored.restores(value, config) ==> restored.id@ == value.id@
            && restored.error_score_scaled == value.error_score_scaled && restored.usage_count
            == value.usage_count && restored.retired == value.retired && restored.expires_at
            == value.expires_at && restored.config == config,
{
}

/// A pool needs a new session exactly where the wanted one is not there or cannot be used, and fewer
/// usable ones are left than it may hold, or none at all.
pub proof fn when_a_pool_needs_a_session(
    pool: SessionPool,
    wanted: Option<&SessionId>,
    now: Timestamp,
)
    ensures
        ({
            let left = usable_of(pool.sessions@, now).len();
            let unserved = wanted is None || position_of(pool.sessions@, wanted.unwrap()@) is None
                || !pool.sessions@[position_of(pool.sessions@, wanted.unwrap()@).unwrap()].usable(
                now,
            );
            &&& !unserved ==> !pool.makes_session(wanted, now)
            &&& unserved && left < pool.options.max_pool_size ==> pool.makes_session(wanted, now)
            &&& unserved && left == 0 ==> pool.makes_session(wanted, now)
            &&& left >= pool.options.max_pool_size && left > 0 ==> !pool.makes_session(wanted, now)
        }),
{
}

} // verus!
