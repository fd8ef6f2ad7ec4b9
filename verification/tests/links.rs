use millipede_core::antibot::{AntiBotDetector, AntiBotSignals, DefaultAntiBotDetector};
use millipede_core::enqueue::{
    admission_verdict, after_transform, child_depth, depth_verdict, next_check, request_count,
    reserve_request_slot, resolve_raw_url, settle_batch, Admission, AdmissionBook, ChildCheck,
    EnqueueLinksOptions, Kept, SkipLog, SkipReason,
};
use millipede_core::errors::AntiBotTech;
use millipede_core::link_extraction::{
    compile_globs, strategy_allows, CrawlPolicy, EnqueueStrategy, ExtractedLink, GlobPattern,
    LinkPatternError, SkippedHandler, TransformResult, UrlMatch, UrlPattern, UrlRegex,
};
use millipede_core::request::{Method, Request, RequestId, UserData};
use millipede_core::storage::ProcessedRequest;
use millipede_core::url::Url;
use std::sync::{Arc, Mutex};

fn url(text: &str) -> Url {
    Url::parse(text).unwrap()
}

#[test]
fn compiled_globs_match_complete_url_strings() {
    let patterns = vec!["**/products/*".to_owned(), "https://example.com/**".to_owned()];
    let compiled = compile_globs(&patterns).expect("valid globs");
    assert!(compiled.is_match("https://shop.test/products/p1"));
    assert!(compiled.is_match("https://example.com/anything/here"));
    assert!(!compiled.is_match("https://shop.test/categories/c1"));
}

#[test]
fn invalid_glob_retains_source_pattern() {
    let error = compile_globs(&vec!["[".to_owned()]).expect_err("glob should be invalid");
    assert!(matches!(
        error,
        LinkPatternError::InvalidGlob { ref pattern, .. } if pattern == "["
    ));
    assert!(error.message().starts_with("invalid glob pattern \"[\": "));
}

#[test]
fn glob_pattern_accessors_expose_overrides() {
    let mut user_data = UserData::default();
    user_data.set("kind", "\"product\"").expect("serializable data");
    let mut headers = http::HeaderMap::new();
    headers.insert("x-test", "yes".parse().expect("valid header value"));
    let pattern = GlobPattern::from_match(
        UrlMatch::new(UrlPattern::Regex(UrlRegex::new("products").expect("valid regex")))
            .label("product")
            .user_data(user_data)
            .method(Method::POST)
            .headers(headers),
    );
    assert!(matches!(pattern.pattern(), UrlPattern::Regex(_)));
    assert_eq!(pattern.label(), Some("product"));
    assert_eq!(
        pattern.user_data().and_then(|data| data.get("kind")).as_deref(),
        Some("\"product\"")
    );
    assert_eq!(pattern.method(), Some(&Method::POST));
    assert_eq!(
        pattern.headers().and_then(|map| map.get("x-test")),
        Some(&"yes".parse().expect("valid header value"))
    );
}

#[test]
fn strategies_relate_child_to_parent() {
    let parent = url("http://example.com/catalog");
    let secure = url("https://example.com/product");
    assert!(strategy_allows(EnqueueStrategy::SameHostname, &parent, &secure));
    assert!(!strategy_allows(EnqueueStrategy::SameOrigin, &parent, &secure));
    let sub = url("http://shop.example.com/");
    assert!(!strategy_allows(EnqueueStrategy::SameHostname, &parent, &sub));
    assert!(strategy_allows(EnqueueStrategy::SameDomain, &parent, &sub));
    assert!(strategy_allows(EnqueueStrategy::All, &parent, &url("http://other.org/")));
    assert!(!strategy_allows(EnqueueStrategy::All, &parent, &url("mailto:a@example.com")));
    let first = url("http://a.co.uk/");
    assert!(strategy_allows(EnqueueStrategy::SameDomain, &first, &url("http://x.a.co.uk/")));
    assert!(!strategy_allows(EnqueueStrategy::SameDomain, &first, &url("http://b.co.uk/")));
    let address = url("http://127.0.0.1/");
    assert!(strategy_allows(EnqueueStrategy::SameDomain, &address, &url("http://127.0.0.1:81/")));
    assert!(!strategy_allows(EnqueueStrategy::SameDomain, &address, &url("http://127.0.0.2/")));
    assert!(!strategy_allows(EnqueueStrategy::SameDomain, &address, &parent));
    assert!(strategy_allows(
        EnqueueStrategy::SameOrigin,
        &parent,
        &url("http://example.com:80/x")
    ));
    assert_eq!(EnqueueStrategy::default(), EnqueueStrategy::SameHostname);
}

#[test]
fn raw_links_resolve_against_their_base() {
    let base = url("https://example.com/docs/");
    assert_eq!(resolve_raw_url(&base, "../a").unwrap().as_str(), "https://example.com/a");
    assert_eq!(resolve_raw_url(&base, "https://b.test/x").unwrap().as_str(), "https://b.test/x");
    assert_eq!(
        resolve_raw_url(&base, "::bad::").unwrap_err().message,
        "relative URL without a base"
    );
    assert_eq!(
        resolve_raw_url(&base, "a/b:c").unwrap().as_str(),
        "https://example.com/docs/a/b:c"
    );
    assert_eq!(
        resolve_raw_url(&base, "a?x:y").unwrap().as_str(),
        "https://example.com/docs/a?x:y"
    );
}

struct Recorder {
    seen: Mutex<Vec<String>>,
}

struct Shared(Arc<Recorder>);

impl SkippedHandler for Shared {
    fn on_skip(&self, url: &str, reason: &SkipReason) {
        self.0.seen.lock().unwrap().push(format!("{url}: {}", reason.message()));
    }
}

fn texts(kept: &[Kept]) -> Vec<&str> {
    kept.iter().map(|kept| kept.url.as_str()).collect()
}

#[test]
fn filtering_reports_every_reason() {
    let recorder = Arc::new(Recorder { seen: Mutex::new(Vec::new()) });
    let handler: Arc<dyn SkippedHandler> = Arc::new(Shared(recorder.clone()));
    let policy = CrawlPolicy::new().on_skipped(Some(handler));
    let options = EnqueueLinksOptions::new()
        .urls(vec![url("https://other.org/products/1")])
        .raw_url("http://[")
        .raw_url("https://other.org/products/2")
        .raw_url("/products/secret")
        .raw_url("/products/private")
        .raw_url("/about")
        .raw_url("/products/3")
        .raw_url("/products/3#top")
        .raw_url("/products/3")
        .raw_url("/items/9")
        .glob(GlobPattern::glob("**/products/*"))
        .regex(UrlRegex::new("/items/\\d+$").unwrap())
        .exclude(UrlPattern::glob("**/secret"))
        .exclude(UrlPattern::Regex(UrlRegex::new("private").unwrap()));
    let filtered = options.filter(&url("https://example.com/"), &policy).unwrap();
    assert_eq!(
        texts(&filtered.kept),
        [
            "https://other.org/products/1",
            "https://example.com/products/3",
            "https://example.com/products/3#top",
            "https://example.com/items/9",
        ]
    );
    let matched: Vec<Option<usize>> = filtered.kept.iter().map(|kept| kept.matched_by).collect();
    assert_eq!(matched, [Some(0), Some(0), Some(0), None]);
    let reasons: Vec<(&str, &SkipReason)> = filtered
        .skipped
        .iter()
        .map(|skipped| (skipped.url.as_str(), &skipped.reason))
        .collect();
    assert_eq!(
        reasons,
        [
            ("http://[", &SkipReason::InvalidUrl),
            ("https://other.org/products/2", &SkipReason::StrategyExcluded),
            ("https://example.com/products/secret", &SkipReason::GlobExcluded),
            ("https://example.com/products/private", &SkipReason::RegexExcluded),
            ("https://example.com/about", &SkipReason::GlobExcluded),
        ]
    );
    let mut log = SkipLog::new(filtered.skipped);
    while let Some(at) = log.next_report() {
        let handler = policy.on_skipped.as_ref().unwrap();
        handler.on_skip(&log.skipped[at].url, &log.skipped[at].reason);
    }
    assert_eq!(recorder.seen.lock().unwrap().len(), 5);
    assert_eq!(recorder.seen.lock().unwrap()[0], "http://[: invalid URL");
}

#[test]
fn filtering_without_globs_blames_the_regex() {
    let options = EnqueueLinksOptions::new()
        .raw_url("/about")
        .regex(UrlRegex::new("items").unwrap());
    let filtered = options.filter(&url("https://example.com/"), &CrawlPolicy::default()).unwrap();
    assert_eq!(filtered.skipped[0].reason, SkipReason::RegexExcluded);
    assert!(filtered.kept.is_empty());
}

#[test]
fn filtering_limits_after_deduplication() {
    let options = EnqueueLinksOptions::new()
        .raw_url("a")
        .raw_url("a")
        .raw_url("b")
        .raw_url("c")
        .base_url(url("https://example.com/docs/"))
        .limit(2);
    let filtered = options.filter(&url("https://example.com/"), &CrawlPolicy::default()).unwrap();
    assert_eq!(
        texts(&filtered.kept),
        ["https://example.com/docs/a", "https://example.com/docs/b"]
    );
    assert!(filtered.skipped.is_empty());
}

#[test]
fn strategy_option_beats_the_policy() {
    let policy = CrawlPolicy::new().strategy(EnqueueStrategy::SameOrigin);
    let parent = url("http://example.com/");
    let strict = EnqueueLinksOptions::new().raw_url("https://example.com/a");
    assert_eq!(strict.filter(&parent, &policy).unwrap().kept.len(), 0);
    let wide = EnqueueLinksOptions::new()
        .raw_url("https://example.com/a")
        .strategy(EnqueueStrategy::All);
    assert_eq!(wide.filter(&parent, &policy).unwrap().kept.len(), 1);
}

#[test]
fn invalid_patterns_fail_the_operation() {
    let options = EnqueueLinksOptions::new().raw_url("a").exclude(UrlPattern::glob("["));
    let error = options
        .filter(&url("https://example.com/"), &CrawlPolicy::default())
        .unwrap_err();
    assert!(error.message().starts_with("non-retryable: invalid glob pattern \"[\""));
    assert!(UrlRegex::new("(").is_err());
    assert_eq!(UrlRegex::new("a+").unwrap().as_str(), "a+");
}

#[test]
fn extraction_is_asked_for_by_selector_or_by_default() {
    assert!(EnqueueLinksOptions::new().wants_extraction(true).unwrap());
    assert!(!EnqueueLinksOptions::new().wants_extraction(false).unwrap());
    let given = EnqueueLinksOptions::new().raw_url("a");
    assert!(!given.wants_extraction(true).unwrap());
    assert!(EnqueueLinksOptions::new().selector("a").wants_extraction(true).unwrap());
    let error = EnqueueLinksOptions::new().selector("a").wants_extraction(false).unwrap_err();
    assert!(error.message().contains("selector-based enqueue requires"));
    let links = vec![ExtractedLink {
        url: "x".into(),
        base: Some(url("https://base.test/d/")),
    }];
    let options = EnqueueLinksOptions::new().extracted(links).strategy(EnqueueStrategy::All);
    let filtered = options.filter(&url("https://example.com/"), &CrawlPolicy::default()).unwrap();
    assert_eq!(texts(&filtered.kept), ["https://base.test/d/x"]);
}

#[test]
fn children_take_overrides_before_options() {
    let mut data = UserData::default();
    data.set("from", "1").unwrap();
    let options = EnqueueLinksOptions::new()
        .label("general")
        .user_data(data)
        .glob(GlobPattern::from_match(
            UrlMatch::new(UrlPattern::glob("**/p/*")).label("special").method(Method::POST),
        ));
    let child = Kept { url: url("https://example.com/p/1"), matched_by: Some(0) };
    let request = options.build_child(child, 3);
    assert_eq!(request.label.as_deref(), Some("special"));
    assert_eq!(request.method, Method::POST);
    assert_eq!(request.user_data.get("from").as_deref(), Some("1"));
    assert_eq!(request.crawl_depth, 3);
    assert_eq!(request.unique_key, "POST(cbf29ce484222325):https://example.com/p/1");
    let child = Kept { url: url("https://example.com/q"), matched_by: None };
    let request = options.build_child(child, 1);
    assert_eq!(request.label.as_deref(), Some("general"));
    assert_eq!(request.method, Method::GET);
    assert_eq!(request.unique_key, "https://example.com/q");
}

#[test]
fn limits_on_depth_and_number() {
    assert_eq!(child_depth(0), 1);
    assert_eq!(child_depth(u32::MAX), u32::MAX);
    let policy = CrawlPolicy::new().max_crawl_depth(2).max_requests_per_crawl(10);
    assert_eq!(depth_verdict(&policy, 2), None);
    let reason = depth_verdict(&policy, 3).unwrap();
    assert_eq!(reason, SkipReason::MaxDepthExceeded { depth: 3, limit: 2 });
    assert_eq!(reason.message(), "crawl depth 3 exceeds limit 2");
    assert_eq!(request_count(Some(4), Some(5)), Some(9));
    assert_eq!(request_count(Some(u64::MAX), Some(5)), Some(u64::MAX));
    assert_eq!(request_count(None, Some(5)), None);
    assert_eq!(reserve_request_slot(None, 10), Admission::Untracked);
    assert_eq!(reserve_request_slot(Some(9), 10), Admission::Reserved);
    assert_eq!(reserve_request_slot(Some(10), 10), Admission::Rejected);
    assert_eq!(admission_verdict(Admission::Reserved, 10), None);
    let full = admission_verdict(Admission::Rejected, 10).unwrap();
    assert_eq!(full.message(), "maximum request count 10 reached");
}

#[test]
fn transforms_reject_or_rekey() {
    let request = Request::get("https://example.com/a").build().unwrap();
    let rejected = after_transform(
        request,
        "https://example.com/a",
        TransformResult::Skip { reason: "no".into() },
    );
    assert_eq!(rejected.unwrap_err().message(), "rejected by transform: no");

    let mut request = Request::get("https://example.com/a").build().unwrap();
    request.url = url("https://example.com/b");
    let moved = after_transform(request, "https://example.com/a", TransformResult::Enqueue).unwrap();
    assert_eq!(moved.unique_key, "https://example.com/b");
    assert_eq!(moved.id, RequestId::from_unique_key("https://example.com/b"));

    let mut request = Request::get("https://example.com/a").build().unwrap();
    request.unique_key = "mine".into();
    let kept = after_transform(request, "https://example.com/a", TransformResult::Enqueue).unwrap();
    assert_eq!(kept.unique_key, "mine");
}

fn processed(key: &str, present: bool, handled: bool) -> ProcessedRequest {
    ProcessedRequest {
        request_id: RequestId::from_unique_key(key),
        unique_key: key.into(),
        was_already_present: present,
        was_already_handled: handled,
    }
}

#[test]
fn batches_are_settled() {
    let settled = settle_batch(
        vec![
            processed("a", false, false),
            processed("b", true, false),
            processed("c", false, false),
            processed("d", false, true),
        ],
        &vec!["u/a".into(), "u/b".into()],
        &vec![true, true, false],
        SkipLog::new(Vec::new()),
    );
    assert_eq!(settled.committed, [0]);
    let mut log = settled.log;
    assert_eq!([log.next_report(), log.next_report(), log.next_report()], [Some(0), Some(1), None]);
    let result = log.into_result(settled.added);
    assert_eq!(result.added_count(), 2);
    assert_eq!(result.added[1].unique_key, "c");
    assert_eq!(result.skipped_count(), 2);
    assert_eq!(result.skipped[0].url, "u/b");
    assert_eq!(result.skipped[1].url, "d");
    assert_eq!(result.skipped[1].reason, SkipReason::DuplicateUniqueKey);
}

#[test]
fn skip_reasons_have_words() {
    assert_eq!(SkipReason::StrategyExcluded.message(), "excluded by enqueue strategy");
    assert_eq!(SkipReason::GlobExcluded.message(), "excluded by glob patterns");
    assert_eq!(SkipReason::RegexExcluded.message(), "excluded by regex patterns");
    assert_eq!(SkipReason::DuplicateUniqueKey.message(), "duplicate unique key");
    assert_eq!(SkipReason::InvalidUrl.message(), "invalid URL");
}

fn verdict(headers: &[(&str, &str)], body: &str) -> Option<AntiBotTech> {
    verdict_of(&DefaultAntiBotDetector::new(), headers, body.as_bytes())
}

fn verdict_of(
    detector: &DefaultAntiBotDetector,
    headers: &[(&str, &str)],
    body: &[u8],
) -> Option<AntiBotTech> {
    let mut map = http::HeaderMap::new();
    for (name, value) in headers {
        map.append(
            http::HeaderName::from_bytes(name.as_bytes()).unwrap(),
            http::HeaderValue::from_bytes(value.as_bytes()).unwrap(),
        );
    }
    let url = url("https://example.com/");
    detector.detect(&AntiBotSignals::new(403, &map, body, &url))
}

#[test]
fn vendors_are_told_apart() {
    assert_eq!(verdict(&[], "plain page"), None);
    assert_eq!(verdict(&[("CF-Ray", "1")], ""), Some(AntiBotTech::Cloudflare));
    assert_eq!(verdict(&[("server", "CloudFlare")], ""), Some(AntiBotTech::Cloudflare));
    assert_eq!(verdict(&[], "Just A Moment..."), Some(AntiBotTech::Cloudflare));
    assert_eq!(
        verdict(&[("set-cookie", "a=1"), ("set-cookie", "DataDome=x")], ""),
        Some(AntiBotTech::DataDome)
    );
    assert_eq!(verdict(&[("set-cookie", "_px3=1")], ""), Some(AntiBotTech::PerimeterX));
    assert_eq!(verdict(&[("x-kpsdk-ct", "1")], ""), Some(AntiBotTech::Kasada));
    assert_eq!(verdict(&[("x-iinfo", "1")], ""), Some(AntiBotTech::Imperva));
    assert_eq!(verdict(&[("x-akamai-session", "1")], ""), Some(AntiBotTech::Akamai));
    assert_eq!(verdict(&[("set-cookie", "ak_bmsc=1")], ""), Some(AntiBotTech::Akamai));
    assert_eq!(verdict(&[], "captcha: are you a human"), Some(AntiBotTech::Unknown));
    assert_eq!(verdict(&[], "captcha"), None);
    assert_eq!(verdict(&[("x-iinfo", "1")], "kasada"), Some(AntiBotTech::Kasada));
    assert_eq!(verdict(&[("set-cookie", "datadome=\u{e9}")], ""), None);
}

#[test]
fn detection_is_bounded_and_extensible() {
    let detector = DefaultAntiBotDetector::new()
        .with_inspection_limit(6)
        .with_custom_marker("BLOCK", "ours");
    assert_eq!(verdict_of(&detector, &[], b"x kasada"), None);
    assert_eq!(verdict_of(&detector, &[], b"kasada"), Some(AntiBotTech::Kasada));
    assert_eq!(verdict_of(&detector, &[], b"Blocks"), Some(AntiBotTech::Custom("ours".into())));
    let default = DefaultAntiBotDetector::default();
    assert_eq!(default.inspection_limit, DefaultAntiBotDetector::DEFAULT_INSPECTION_LIMIT);
}

#[test]
fn custom_markers_ignore_the_case_of_all_letters() {
    let detector = DefaultAntiBotDetector::new().with_custom_marker("\u{c9}-wall", "wall");
    let wall = Some(AntiBotTech::Custom("wall".into()));
    assert_eq!(verdict_of(&detector, &[], "\u{c9}-wall".as_bytes()), wall);
    assert_eq!(verdict_of(&detector, &[], "\u{e9}-WALL".as_bytes()), wall);
    assert_eq!(verdict_of(&detector, &[], b"e-wall"), None);
}

#[test]
fn crawls_admit_no_more_than_their_limit() {
    let mut book = AdmissionBook::new();
    assert_eq!(book.reserve(Some(0), Some(1), 3), Admission::Reserved);
    assert_eq!(book.reserve(Some(1), Some(0), 3), Admission::Reserved);
    assert_eq!(book.reserve(Some(1), Some(0), 3), Admission::Rejected);
    assert_eq!(book.admitted, 3);
    book.give_back();
    assert_eq!(book.reserve(None, Some(9), 3), Admission::Untracked);
    assert_eq!(book.reserve(Some(0), Some(0), 3), Admission::Reserved);
    assert_eq!(book.reserve(Some(5), Some(0), 9), Admission::Reserved);
    assert_eq!(book.admitted, 6);
}

#[test]
fn hosts_keep_their_site() {
    let parent = Url::parse("http://127.0.0.1:8080/").unwrap();
    let child = Url::parse("https://127.0.0.1/x").unwrap();
    assert!(strategy_allows(EnqueueStrategy::SameHostname, &parent, &child));
    assert!(strategy_allows(EnqueueStrategy::SameDomain, &parent, &child));
    let upper = Url::parse("http://WWW.Example.COM/").unwrap();
    assert_eq!(upper.host_str(), Some("www.example.com"));
    assert_eq!(upper.domain(), Some("www.example.com"));
    assert_eq!(parent.domain(), None);
    assert_eq!(Url::parse("http://[::1]/").unwrap().domain(), None);
    for parent in ["ftp://WWW.Example.com/", "ws://www.example.com/", "wss://www.EXAMPLE.com/"] {
        let parent = Url::parse(parent).unwrap();
        assert!(strategy_allows(EnqueueStrategy::SameHostname, &parent, &upper));
        assert!(strategy_allows(EnqueueStrategy::SameDomain, &parent, &upper));
    }
    let opaque = Url::parse("foo://127.0.0.1/").unwrap();
    assert!(strategy_allows(EnqueueStrategy::SameHostname, &opaque, &child));
}

#[test]
fn children_are_checked_in_order() {
    let open = CrawlPolicy::new();
    assert_eq!(next_check(&open, 9, None), ChildCheck::Transform);
    let policy = CrawlPolicy::new().max_crawl_depth(2).max_requests_per_crawl(10);
    assert!(matches!(next_check(&policy, 3, None), ChildCheck::Skip(_)));
    assert_eq!(next_check(&policy, 2, None), ChildCheck::Admit { limit: 10 });
    assert_eq!(next_check(&policy, 2, Some(Admission::Reserved)), ChildCheck::Transform);
    assert_eq!(next_check(&policy, 2, Some(Admission::Untracked)), ChildCheck::Transform);
    assert_eq!(
        next_check(&policy, 2, Some(Admission::Rejected)),
        ChildCheck::Skip(SkipReason::MaxRequestsReached { limit: 10 })
    );
}
