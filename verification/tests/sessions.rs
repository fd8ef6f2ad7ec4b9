use millipede_core::cookies::{cookie_header, Cookie, CookieJar, SameSite};
use millipede_core::errors::{Cause, CrawlError};
use millipede_core::http_client::HttpResponse;
use millipede_core::proxy::{
    ProxyBuckets, ProxyChoice, ProxyConfiguration, ProxyInfo, ProxyKind, ProxyResolveContext,
    RotationStrategy,
};
use millipede_core::request::{Method, Request};
use millipede_core::router::{proceed, HandlingEnd, HandlingStep, MethodFilter, Router};
use millipede_core::session::{
    Checkout, PersistedSession, Session, SessionConfig, SessionId, SessionPool, SessionPoolOptions,
    SessionToken,
};
use millipede_core::snapshot::ErrorSnapshotter;
use millipede_core::text_map::TextMap;
use millipede_core::text_set::TextSet;
use millipede_core::time::{Duration, Timestamp};
use millipede_core::url::Url;
use millipede_core::util::RandomSource;

fn url(text: &str) -> Url {
    Url::parse(text).unwrap()
}

fn now() -> Timestamp {
    Timestamp { unix_nanos: 1_700_000_000_000_000_000 }
}

#[test]
fn session_token_from_session_id_preserves_text() {
    let id = SessionId::from_text("session-stable");
    assert_eq!(SessionToken::from_session_id(&id).as_str(), id.as_str());
    assert_eq!(SessionToken::from_session_id(&id).as_str(), "session-stable");
    assert_eq!(SessionToken::new("t").as_str(), "t");
}

#[test]
fn sessions_wear_out() {
    let config = SessionConfig::default()
        .with_max_usage_count(2)
        .with_max_error_score_scaled(3_000)
        .with_error_score_decrement_scaled(500)
        .with_max_age(Duration::from_secs(60));
    let mut session = Session::new(config, now(), 0xab);
    assert_eq!(session.id().as_str(), "session-00000000000000ab");
    assert!(session.is_usable(now()));
    session.mark_bad();
    session.mark_bad();
    assert!(!session.is_blocked());
    session.mark_bad();
    assert!(session.is_blocked() && !session.is_usable(now()));
    session.mark_good();
    assert_eq!(session.error_score_scaled(), 2_500);
    for _ in 0..9 {
        session.mark_good();
    }
    assert_eq!(session.error_score_scaled(), 0);
    session.record_usage();
    assert!(session.is_usable(now()));
    session.record_usage();
    assert!(!session.is_usable(now()));
    assert_eq!(session.usage_count(), 2);

    let fresh = Session::new(SessionConfig::default(), now(), 1);
    let later = Timestamp { unix_nanos: now().unix_nanos + 3_000_000_000_000 };
    assert!(fresh.is_expired(later) && !fresh.is_usable(later));
    assert!(!fresh.is_expired(now()));
    let mut retired = Session::new(SessionConfig::default(), now(), 1);
    retired.retire();
    assert!(retired.is_retired() && !retired.is_usable(now()));
}

fn pool(size: usize) -> SessionPool {
    SessionPool::new(SessionPoolOptions::default().with_max_pool_size(size))
}

#[test]
fn pools_stick_create_and_rotate() {
    let mut pool = pool(2);
    assert!(matches!(pool.get_session(None, now(), 1, 0), Checkout::Pooled(0)));
    assert!(matches!(pool.get_session(None, now(), 2, 0), Checkout::Pooled(1)));
    assert_eq!(pool.session_count(), 2);
    let sticky = pool.sessions[1].id().clone();
    assert!(matches!(pool.get_session(Some(&sticky), now(), 3, 0), Checkout::Pooled(1)));
    assert_eq!(pool.sessions[1].usage_count(), 2);
    assert!(matches!(pool.get_session(None, now(), 3, 4), Checkout::Pooled(0)));
    pool.retire_session(&sticky);
    assert!(matches!(pool.get_session(Some(&sticky), now(), 3, 0), Checkout::Pooled(1)));
    assert_eq!(pool.sessions[1].id().as_str(), "session-0000000000000003");
    assert_eq!(pool.session_count(), 2);
}

#[test]
fn pools_make_sessions_only_where_needed() {
    let mut pool = pool(1);
    assert!(pool.needs_session(None, now()));
    pool.get_session(None, now(), 1, 0);
    assert!(!pool.needs_session(None, now()));
    let id = pool.sessions[0].id().clone();
    assert!(!pool.needs_session(Some(&id), now()));
    pool.retire_session(&id);
    assert!(pool.needs_session(Some(&id), now()));
}

#[test]
fn pools_without_room_hand_out_loose_sessions() {
    let mut pool = pool(0);
    match pool.get_session(None, now(), 7, 0) {
        Checkout::Unpooled(session) => assert_eq!(session.usage_count(), 1),
        other => panic!("{other:?}"),
    }
    assert_eq!(pool.session_count(), 0);
}

#[test]
fn pools_survive_a_restart() {
    let mut pool = pool(5);
    pool.get_session(None, now(), 1, 0);
    pool.sessions[0].mark_bad();
    let target = url("https://example.com/");
    let mut headers = http::HeaderMap::new();
    headers.append("set-cookie", "sid=abc; Path=/".parse().unwrap());
    let response = HttpResponse::new(target, 200, headers, Vec::new());
    pool.sessions[0].set_cookies_from_response(&response);
    let mut stored = pool.persist().unwrap();
    stored.push(PersistedSession {
        id: "broken".into(),
        cookies: "nonsense".into(),
        error_score_scaled: 0,
        usage_count: 0,
        retired: false,
        expires_at: now(),
    });
    let mut restored = SessionPool::new(SessionPoolOptions::default());
    restored.restore(&stored);
    assert_eq!(restored.session_count(), 1);
    let session = &restored.sessions[0];
    assert_eq!(session.id().as_str(), "session-0000000000000001");
    assert_eq!((session.error_score_scaled(), session.usage_count()), (1_000, 1));
    assert_eq!(session.expires_at, pool.sessions[0].expires_at);
    let header = session.cookie_jar().cookie_header_for(&url("https://example.com/x"));
    assert_eq!(header.as_deref(), Some("sid=abc"));
    assert_eq!(SessionPoolOptions::default().persist_state_key, "SDK_SESSION_POOL_STATE");
}

#[test]
fn restored_pools_stay_bounded() {
    let mut pool = pool(5);
    for random in 1..4 {
        pool.get_session(None, now(), random, 0);
    }
    let stored = pool.persist().unwrap();
    assert_eq!(stored.len(), 3);
    let mut small = SessionPool::new(SessionPoolOptions::default().with_max_pool_size(1));
    small.restore(&stored);
    assert_eq!(small.session_count(), 1);
    assert_eq!(small.sessions[0].id().as_str(), "session-0000000000000001");
    let empty = SessionPool::new(SessionPoolOptions::default());
    assert_eq!(empty.persist().unwrap().len(), 0);
}

#[test]
fn drawn_session_ids_differ() {
    let mut source = RandomSource::from_nanos(7);
    let mut ids: Vec<String> = Vec::new();
    for _ in 0..200 {
        let id = SessionId::generate(source.rand_u64());
        let digits = id.as_str().strip_prefix("session-").unwrap();
        assert_eq!(digits.len(), 16);
        assert!(digits.chars().all(|c| c.is_ascii_digit() || ('a'..='f').contains(&c)));
        ids.push(id.as_str().to_owned());
    }
    ids.sort();
    ids.dedup();
    assert_eq!(ids.len(), 200);
}

#[test]
fn jars_come_back_whole() {
    let mut lasting = Cookie::new("l", "a=b c", "example.com");
    lasting.http_only = true;
    lasting.secure = true;
    lasting.same_site = Some(SameSite::Strict);
    lasting.expires = Some(Timestamp { unix_nanos: 4_102_444_800_500_000_000 });
    let mut host_only = Cookie::new("h", "", "example.com");
    host_only.host_only = true;
    host_only.path = "/x".into();
    let mut jar = CookieJar::new();
    assert_eq!(jar.import_cookies(&vec![lasting, host_only]), 2);
    let back = CookieJar::from_json(&jar.to_json().unwrap()).unwrap();
    let mut exported = back.export_cookies();
    exported.sort_by(|a, b| b.name.cmp(&a.name));
    let l = &exported[0];
    assert_eq!((l.name.as_str(), l.value.as_str()), ("l", "a=b c"));
    assert!(l.http_only && l.secure && !l.host_only);
    assert_eq!(l.same_site, Some(SameSite::Strict));
    assert_eq!(l.expires, Some(Timestamp { unix_nanos: 4_102_444_800_000_000_000 }));
    let h = &exported[1];
    assert!(h.host_only && !h.secure && !h.http_only && h.value.is_empty());
    assert_eq!((h.path.as_str(), h.expires), ("/x", None));
    let sent = back.cookie_header_for(&url("http://example.com/x/y"));
    assert_eq!(sent.as_deref(), Some("h="));
    assert_eq!(back.cookie_header_for(&url("https://www.example.com/")).as_deref(), Some("l=a=b c"));
    assert_eq!(CookieJar::from_json(&CookieJar::new().to_json().unwrap()).unwrap().cookie_count(), 0);
}

#[test]
fn expiry_with_an_offset_is_read_as_its_instant() {
    let json = r#"[{"raw_cookie":"a=1","path":["/",true],"domain":{"HostOnly":"example.com"},
        "expires":{"AtUtc":"2100-01-01T00:00:00+05:00"}}]"#;
    let jar = CookieJar::from_json(json).unwrap();
    let exported = jar.export_cookies();
    assert_eq!(exported[0].expires, Some(Timestamp { unix_nanos: 4_102_426_800_000_000_000 }));
}

#[test]
fn broken_cookies_name_their_fault() {
    let value = PersistedSession {
        id: "x".into(),
        cookies: "[".into(),
        error_score_scaled: 0,
        usage_count: 0,
        retired: false,
        expires_at: now(),
    };
    let error = Session::restored(&value, SessionConfig::default()).unwrap_err();
    assert!(error.message().starts_with("non-retryable: failed to deserialize cookie jar: "));
}

#[test]
fn cross_site_cookies_come_back_secure() {
    let mut jar = CookieJar::new();
    let mut headers = http::HeaderMap::new();
    headers.append("set-cookie", "x=1; Path=/; SameSite=None".parse().unwrap());
    jar.store_response_cookies(&url("https://example.com/"), &headers);
    let plain = url("http://example.com/");
    assert_eq!(jar.cookie_header_for(&plain).as_deref(), Some("x=1"));
    let back = CookieJar::from_json(&jar.to_json().unwrap()).unwrap();
    assert_eq!(back.cookie_header_for(&plain), None);
    assert_eq!(back.cookie_header_for(&url("https://example.com/")).as_deref(), Some("x=1"));
}

#[test]
fn jars_store_and_send() {
    let mut jar = CookieJar::new();
    let page = url("https://example.com/");
    assert_eq!(jar.cookie_header_for(&page), None);
    let mut headers = http::HeaderMap::new();
    headers.append("set-cookie", "a=1; Path=/".parse().unwrap());
    headers.append("set-cookie", "b=2; Path=/".parse().unwrap());
    headers.append("set-cookie", "a=3; Path=/".parse().unwrap());
    headers.append("set-cookie", http::HeaderValue::from_bytes(b"c=\xff").unwrap());
    jar.store_response_cookies(&page, &headers);
    assert_eq!(jar.cookie_count(), 2);
    let header = jar.cookie_header_for(&page).unwrap();
    assert!(header == "a=3; b=2" || header == "b=2; a=3");
    assert_eq!(jar.cookie_header_for(&url("https://other.org/")), None);
    jar.clear();
    assert_eq!(jar.cookie_count(), 0);
}

#[test]
fn cookies_go_where_they_belong() {
    let mut jar = CookieJar::new();
    let mut headers = http::HeaderMap::new();
    headers.append("set-cookie", "narrow=1; Path=/a".parse().unwrap());
    headers.append("set-cookie", "safe=2; Path=/; Secure".parse().unwrap());
    headers.append("set-cookie", "wide=3; Path=/; Domain=example.com".parse().unwrap());
    headers.append("set-cookie", "alien=4; Domain=other.org".parse().unwrap());
    jar.store_response_cookies(&url("https://www.example.com/a/b"), &headers);
    let sent = |target: &str| {
        let header = jar.cookie_header_for(&url(target)).unwrap_or_default();
        let mut pairs: Vec<String> = header.split("; ").map(str::to_owned).collect();
        pairs.sort();
        pairs.join(" ")
    };
    assert_eq!(jar.cookie_count(), 3);
    assert_eq!(sent("https://www.example.com/a/c"), "narrow=1 safe=2 wide=3");
    assert_eq!(sent("https://www.example.com/b"), "safe=2 wide=3");
    assert_eq!(sent("http://www.example.com/b"), "wide=3");
    assert_eq!(sent("https://example.com/a"), "wide=3");
    assert_eq!(sent("https://other.org/"), "");
}

#[test]
fn expired_cookies_end_their_predecessors() {
    let mut jar = CookieJar::new();
    let page = url("https://example.com/");
    let mut headers = http::HeaderMap::new();
    headers.append("set-cookie", "a=1; Path=/".parse().unwrap());
    headers.append("set-cookie", "b=2; Path=/".parse().unwrap());
    jar.store_response_cookies(&page, &headers);
    let mut headers = http::HeaderMap::new();
    headers.append("set-cookie", "a=9; Path=/; Max-Age=0".parse().unwrap());
    jar.store_response_cookies(&page, &headers);
    assert_eq!(jar.cookie_header_for(&page).as_deref(), Some("b=2"));
    assert_eq!(jar.cookie_count(), 1);
    let mut past = Cookie::new("c", "3", "example.com");
    past.expires = Some(Timestamp { unix_nanos: 1 });
    assert_eq!(jar.import_cookies(&vec![past]), 0);
}

#[test]
fn jars_export_what_they_import() {
    let mut cookie = Cookie::new("sid", "abc", "example.com");
    cookie.secure = true;
    cookie.http_only = true;
    cookie.same_site = Some(SameSite::Lax);
    cookie.expires = Some(Timestamp { unix_nanos: 4_102_444_800_000_000_000 });
    let mut host_only = Cookie::new("h", "1", "example.org");
    host_only.host_only = true;
    host_only.path = String::new();
    let nameless = Cookie::new("", "1", "example.com");
    let homeless = Cookie::new("n", "1", "");
    let unparseable = Cookie::new("n", "1", "exa mple");
    let mut jar = CookieJar::default();
    let count = jar.import_cookies(&vec![cookie, host_only, nameless, homeless, unparseable]);
    assert_eq!(count, 2);
    let mut exported = jar.export_cookies();
    exported.sort_by(|a, b| a.name.cmp(&b.name));
    assert_eq!(exported.len(), 2);
    assert_eq!((exported[0].name.as_str(), exported[0].domain.as_str()), ("h", "example.org"));
    assert!(exported[0].host_only && exported[0].path == "/" && exported[0].expires.is_none());
    let sid = &exported[1];
    assert_eq!((sid.value.as_str(), sid.domain.as_str()), ("abc", "example.com"));
    assert!(sid.secure && sid.http_only && !sid.host_only);
    assert_eq!(sid.same_site, Some(SameSite::Lax));
    assert_eq!(sid.expires, Some(Timestamp { unix_nanos: 4_102_444_800_000_000_000 }));
}

#[test]
fn later_imports_replace_earlier_ones() {
    let mut jar = CookieJar::new();
    let cookies = vec![
        Cookie::new("session", "abc", "example.com"),
        Cookie::new("", "x", "example.com"),
        Cookie::new("n", "x", ""),
        Cookie::new("session", "def", "example.com"),
    ];
    assert_eq!(jar.import_cookies(&cookies), 2);
    assert_eq!(jar.cookie_count(), 1);
    assert_eq!(jar.export_cookies()[0].value, "def");
}

#[test]
fn jars_round_trip_through_json() {
    let mut jar = CookieJar::new();
    jar.import_cookies(&vec![Cookie::new("sid", "abc", "example.com")]);
    let json = jar.to_json().unwrap();
    let loaded = CookieJar::from_json(&json).unwrap();
    assert_eq!(loaded.cookie_count(), 1);
    assert_eq!(
        loaded.cookie_header_for(&url("http://example.com/")).as_deref(),
        Some("sid=abc")
    );
    let error = CookieJar::from_json("[").unwrap_err();
    assert!(error.message().starts_with("failed to deserialize cookie jar: "));
}

#[test]
fn cookie_headers_join_pairs() {
    let pair = |n: &str, v: &str| (n.to_owned(), v.to_owned());
    assert_eq!(cookie_header(&vec![]), None);
    assert_eq!(
        cookie_header(&vec![pair("a", "1"), pair("b", "")]).as_deref(),
        Some("a=1; b=")
    );
    assert_eq!(cookie_header(&vec![pair("a", "x\u{1}")]), None);
}

#[test]
fn static_proxies_rotate() {
    let urls = || vec![url("http://p1.test:8080"), url("http://p2.test")];
    let context = ProxyResolveContext::new();
    let mut round = ProxyConfiguration::round_robin(urls());
    let mut hosts = Vec::new();
    for _ in 0..3 {
        let choice = round.resolve(&context, 0, None);
        hosts.push(choice.url.unwrap().host_str().unwrap().to_owned());
    }
    assert_eq!(hosts, ["p1.test", "p2.test", "p1.test"]);
    let mut random = ProxyConfiguration::rotating(urls(), RotationStrategy::Random);
    assert_eq!(random.resolve(&context, 3, None).url.unwrap().host_str(), Some("p2.test"));
    let mut none = ProxyConfiguration::round_robin(Vec::new());
    assert!(none.resolve(&context, 0, None).url.is_none());
    let mut custom = ProxyConfiguration::custom();
    let answer = custom.resolve(&context, 0, Some(url("http://own.test")));
    assert_eq!(answer.url.unwrap().host_str(), Some("own.test"));
}

#[test]
fn proxies_are_taken_apart() {
    let info = ProxyInfo::from_url(url("http://user:pw@proxy.test:8080"));
    assert_eq!((info.hostname.as_str(), info.port), ("proxy.test", 8080));
    assert_eq!(info.username.as_deref(), Some("user"));
    assert_eq!(info.password.as_deref(), Some("pw"));
    let owned = ProxyInfo::from_url(url("http://proxy.test")).with_session_id(SessionId::generate(1));
    assert_eq!(owned.session_id.unwrap().as_str(), "session-0000000000000001");
    let plain = ProxyInfo::from_url(url("socks5://proxy.test")).with_tier(2);
    assert_eq!((plain.port, plain.username, plain.tier), (80, None, Some(2)));
    let choice = ProxyChoice { url: Some(url("http://proxy.test")), tier: Some(1) };
    let info = ProxyConfiguration::proxy_info(choice, Some(SessionId::from_text("s"))).unwrap();
    assert_eq!(info.tier, Some(1));
    assert_eq!(info.session_id.unwrap().as_str(), "s");
    let direct = ProxyChoice { url: None, tier: Some(0) };
    assert!(ProxyConfiguration::proxy_info(direct, None).is_none());
}

#[test]
fn tiers_escalate_and_probe() {
    let tiers = vec![
        vec![None],
        vec![Some(url("http://cheap.test"))],
        vec![Some(url("http://dear.test"))],
    ];
    let mut proxies = ProxyConfiguration::tiered_with_probe_interval(tiers, 3);
    let request = Request::get("https://shop.test/").build().unwrap();
    let context = ProxyResolveContext::new().request(&request);
    let target = url("https://shop.test/x");
    let choice = proxies.resolve(&context, 0, None);
    assert!(choice.url.is_none());
    assert_eq!(choice.tier, Some(0));
    proxies.report_blocked(&target);
    assert_eq!(proxies.resolve(&context, 0, None).tier, Some(1));
    assert_eq!(proxies.resolve(&context, 0, None).tier, Some(1));
    assert_eq!(proxies.resolve(&context, 0, None).tier, Some(0));
    proxies.report_blocked(&target);
    assert_eq!(proxies.resolve(&context, 0, None).tier, Some(1));
    proxies.report_blocked(&target);
    proxies.report_blocked(&target);
    assert_eq!(proxies.resolve(&context, 0, None).tier, Some(2));
    proxies.resolve(&context, 0, None);
    assert_eq!(proxies.resolve(&context, 0, None).tier, Some(1));
    proxies.report_success(&target);
    assert_eq!(proxies.resolve(&context, 0, None).tier, Some(1));
    let other = Request::get("https://calm.test/").build().unwrap();
    let calm = ProxyResolveContext::new().request(&other);
    assert_eq!(proxies.resolve(&calm, 0, None).tier, Some(0));
}

#[test]
fn buckets_fall_back_to_the_default() {
    let one = |host: &str| ProxyConfiguration::round_robin(vec![url(host)]);
    let buckets = ProxyBuckets::new()
        .with_default(one("http://default.test"))
        .with_media(one("http://media.test"))
        .with_custom("video", one("http://video.test"));
    assert!(buckets.for_kind(&ProxyKind::MediaAsset).is_some());
    assert!(buckets.for_kind(&ProxyKind::Custom("none".into())).is_some());
    assert!(ProxyBuckets::default().for_kind(&ProxyKind::Default).is_none());
    let only = ProxyBuckets::new().with_custom("video", one("http://video.test"));
    assert!(only.for_kind(&ProxyKind::Custom("video".into())).is_some());
    assert!(only.for_kind(&ProxyKind::Custom("audio".into())).is_none());
}

#[test]
fn routes_match_in_order() {
    let router: Router<&str, ()> = Router::new()
        .route_method("detail", Method::POST, "post")
        .route("detail", "any")
        .push_route(None, MethodFilter::Only(vec![Method::PUT]), "put");
    let pick = |router: &Router<&'static str, ()>, label: Option<&str>, method: Method| {
        router.select(&label.map(str::to_owned), &method).map(|handler| *handler).ok()
    };
    assert_eq!(pick(&router, Some("detail"), Method::POST), Some("post"));
    assert_eq!(pick(&router, Some("detail"), Method::GET), Some("any"));
    assert_eq!(pick(&router, Some("other"), Method::PUT), Some("put"));
    assert_eq!(pick(&router, None, Method::GET), None);
    let error = router.select(&Some("list".into()), &Method::GET).unwrap_err();
    assert_eq!(error.message(), "missing route for label Some(\"list\") (GET)");
    let router = router.default("fallback").middleware(());
    assert_eq!(pick(&router, None, Method::GET), Some("fallback"));
    assert_eq!(router.middleware.len(), 1);
}

#[test]
fn middleware_runs_before_the_handler() {
    let router: Router<&str, &str> = Router::new().route("a", "h").middleware("m").middleware("n");
    let label = Some("a".to_owned());
    let mut log = Vec::new();
    let mut step = router.begin(&label, &Method::Get, 0);
    let result = loop {
        let end = match step {
            HandlingStep::Middleware { number, context } => {
                log.push((router.middleware[number], context));
                HandlingEnd::Middleware { number, outcome: Ok(context + 1) }
            }
            HandlingStep::Handler { context } => {
                log.push(("h", context));
                HandlingEnd::Handler(Ok(()))
            }
            HandlingStep::Finished(result) => break result,
        };
        step = proceed(router.middleware.len(), end);
    };
    assert!(result.is_ok());
    assert_eq!(log, [("m", 0), ("n", 1), ("h", 2)]);
    let broken = CrawlError::retry(Cause::msg("x"));
    let end: HandlingEnd<i32> = HandlingEnd::Middleware { number: 0, outcome: Err(broken) };
    match proceed(2, end) {
        HandlingStep::Finished(Err(error)) => assert_eq!(error.message(), "retryable: x"),
        other => panic!("{other:?}"),
    }
    match router.begin(&None, &Method::Get, 0) {
        HandlingStep::Finished(Err(CrawlError::MissingRoute { label, .. })) => {
            assert_eq!(label, None);
        }
        other => panic!("{other:?}"),
    }
    let bare: Router<&str, &str> = Router::new().default("d");
    assert!(matches!(bare.begin(&None, &Method::Get, 7), HandlingStep::Handler { context: 7 }));
}

#[test]
fn shadowed_routes_are_noticed() {
    let router: Router<&str, ()> = Router::new().route_methods(
        "a",
        vec![Method::GET, Method::Extension("X".into())],
        "first",
    );
    let label = Some("a".to_owned());
    let only = |methods| MethodFilter::Only(methods);
    assert!(router.is_shadowed(&label, &only(vec![Method::Extension("X".into())])));
    assert!(!router.is_shadowed(&label, &only(vec![Method::GET, Method::PUT])));
    assert!(!router.is_shadowed(&label, &MethodFilter::Any));
    assert!(!router.is_shadowed(&Some("b".into()), &only(vec![Method::GET])));
    assert!(MethodFilter::Any.shadows(&MethodFilter::Any));
}

#[test]
fn base_key_is_deterministic_and_request_specific() {
    let request = |text: &str| Request::get(text).build().unwrap();
    let first = request("https://example.com/a");
    let same = request("https://example.com/a");
    let different = request("https://example.com/b");
    assert_eq!(ErrorSnapshotter::base_key(&first), ErrorSnapshotter::base_key(&same));
    assert_ne!(ErrorSnapshotter::base_key(&first), ErrorSnapshotter::base_key(&different));
    let key = ErrorSnapshotter::capture_key(&first, "html");
    assert!(key.starts_with("ERROR_SNAPSHOT_") && key.ends_with(".html"));
    assert_eq!(key.len(), 15 + 16 + 5);
}

#[test]
fn text_collections_behave() {
    let mut map = TextMap::new();
    map.insert("a", 1);
    map.insert("b", 2);
    map.insert("a", 3);
    assert_eq!(map.get("a"), Some(&3));
    assert_eq!(map.keys(), ["a", "b"]);
    assert_eq!(map.remove("a"), Some(3));
    assert_eq!(map.remove("a"), None);
    assert!(map.contains_key("b") && !map.contains_key("a"));
    let mut set = TextSet::from_texts(&vec!["x".into(), "y".into(), "x".into()]);
    assert_eq!(set.len(), 2);
    assert!(!set.insert("x") && set.insert("z"));
    assert!(set.remove("x") && !set.remove("x"));
    assert_eq!(set.to_texts(), ["y", "z"]);
}

#[test]
fn spans_saturate() {
    let long = Duration::from_secs(u64::MAX);
    assert_eq!(long.saturating_add(long).as_secs(), u64::MAX);
    assert_eq!(Duration::from_secs(1).saturating_sub(Duration::from_secs(2)).nanos, 0);
    assert_eq!(Duration::from_secs(2).checked_mul(3), Some(Duration::from_secs(6)));
    assert_eq!(long.checked_mul(2), None);
    assert_eq!(Duration::from_secs(2).as_millis(), 2_000);
}
