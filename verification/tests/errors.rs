use millipede_core::errors::{AntiBotTech, Cause, CrawlError};
use millipede_core::http_client::{HttpClientError, HttpStatusError};
use millipede_core::json::Json;
use millipede_core::request::{Method, Request, RequestBuildError};
use millipede_core::storage::{LeaseId, StorageError};
use millipede_core::time::Duration;

#[test]
fn constructors_produce_expected_variants() {
    assert!(matches!(CrawlError::retry(Cause::msg("x")), CrawlError::Retry(_)));
    assert!(matches!(CrawlError::session(Cause::msg("x")), CrawlError::Session(_)));
    assert!(matches!(CrawlError::force_retry(Cause::msg("x")), CrawlError::ForceRetry(_)));
    assert!(matches!(CrawlError::non_retryable(Cause::msg("x")), CrawlError::NonRetryable(_)));
    assert!(matches!(CrawlError::fatal(Cause::msg("x")), CrawlError::NonRetryable(_)));
    assert!(matches!(CrawlError::critical(Cause::msg("x")), CrawlError::Critical(_)));
}

#[test]
fn extracts_http_status_from_error_chain() {
    let direct = CrawlError::retry(Cause::from_status(HttpStatusError::new(429)));
    assert_eq!(direct.http_status(), Some(429));

    let wrapped = Cause::from_status(HttpStatusError::new(502)).context("fetch failed");
    assert_eq!(CrawlError::retry(wrapped).http_status(), Some(502));
}

#[test]
fn retry_after_extracted_through_chain() {
    let retry_after = Duration::from_secs(2);
    let direct = CrawlError::retry(Cause::from_status(
        HttpStatusError::new(429).with_retry_after(retry_after),
    ));
    assert_eq!(direct.retry_after(), Some(retry_after));

    let plain = CrawlError::retry(Cause::from_status(HttpStatusError::new(429)));
    assert_eq!(plain.retry_after(), None);

    let wrapped = Cause::from_status(HttpStatusError::new(429).with_retry_after(retry_after))
        .context("fetch failed");
    assert_eq!(CrawlError::retry(wrapped).retry_after(), Some(retry_after));
}

#[test]
fn retry_after_is_none_for_missing_route_and_anti_bot() {
    let missing_route = CrawlError::MissingRoute {
        label: None,
        method: Method::GET,
    };
    let anti_bot = CrawlError::AntiBotDetected {
        tech: AntiBotTech::Cloudflare,
        source: Cause::msg("challenge"),
    };
    assert_eq!(missing_route.retry_after(), None);
    assert_eq!(anti_bot.retry_after(), None);
}

#[test]
fn helpers_cover_the_full_classification_matrix() {
    let cases = [
        (CrawlError::retry(Cause::msg("x")), [true, false, false, false, true]),
        (CrawlError::session(Cause::msg("x")), [true, true, false, false, false]),
        (CrawlError::force_retry(Cause::msg("x")), [true, false, true, false, false]),
        (CrawlError::non_retryable(Cause::msg("x")), [false; 5]),
        (CrawlError::critical(Cause::msg("x")), [false, false, false, true, false]),
        (
            CrawlError::MissingRoute {
                label: Some("detail".into()),
                method: Method::GET,
            },
            [false; 5],
        ),
        (
            CrawlError::AntiBotDetected {
                tech: AntiBotTech::Cloudflare,
                source: Cause::msg("x"),
            },
            [true, true, false, false, false],
        ),
    ];
    for (error, expected) in cases {
        assert_eq!(error.is_retryable(), expected[0]);
        assert_eq!(error.rotates_session(), expected[1]);
        assert_eq!(error.ignores_max_retries(), expected[2]);
        assert_eq!(error.is_critical(), expected[3]);
        assert_eq!(error.counts_against_retries(), expected[4]);
    }
}

#[test]
fn standard_errors_have_default_classifications() {
    let io_error = CrawlError::from_io("io");
    assert!(matches!(io_error, CrawlError::Retry(_)));

    let json_error = CrawlError::from_json(Json::parse("{").expect_err("invalid JSON"));
    assert!(matches!(json_error, CrawlError::NonRetryable(_)));

    let request_error = CrawlError::from_build(RequestBuildError::MissingUrl);
    assert!(matches!(request_error, CrawlError::NonRetryable(_)));
}

#[test]
fn display_strings_include_classification_prefixes() {
    assert!(CrawlError::retry(Cause::msg("x")).message().contains("retryable:"));
    assert!(CrawlError::session(Cause::msg("x")).message().contains("session:"));
    assert!(CrawlError::force_retry(Cause::msg("x")).message().contains("force-retry:"));
    assert!(CrawlError::non_retryable(Cause::msg("x")).message().contains("non-retryable:"));
    assert!(CrawlError::critical(Cause::msg("x")).message().contains("critical:"));
    assert!(CrawlError::AntiBotDetected {
        tech: AntiBotTech::Cloudflare,
        source: Cause::msg("x"),
    }
    .message()
    .contains("anti-bot detected:"));
}

#[test]
fn missing_route_display_contains_label_and_method() {
    let error = CrawlError::MissingRoute {
        label: Some("detail".into()),
        method: Method::POST,
    };
    let display = error.message();
    assert!(display.contains("detail"));
    assert!(display.contains("POST"));
}

#[test]
fn messages_are_exact() {
    let error = CrawlError::MissingRoute {
        label: Some("a\"b".into()),
        method: Method::POST,
    };
    assert_eq!(error.message(), "missing route for label Some(\"a\\\"b\") (POST)");
    let error = CrawlError::MissingRoute {
        label: None,
        method: Method::Extension("PURGE".into()),
    };
    assert_eq!(error.message(), "missing route for label None (PURGE)");
    let error = CrawlError::AntiBotDetected {
        tech: AntiBotTech::Custom("ours".into()),
        source: Cause::msg("x"),
    };
    assert_eq!(error.message(), "anti-bot detected: Custom(\"ours\")");
    assert_eq!(CrawlError::retry(Cause::msg("x").context("y")).message(), "retryable: y");
    assert_eq!(HttpStatusError::new(429).message(), "HTTP status 429 Too Many Requests");
    assert_eq!(HttpStatusError::new(799).message(), "HTTP status 799 <unknown status code>");
}

#[test]
fn http_client_errors_classify_and_print() {
    assert!(HttpClientError::timeout(Cause::msg("deadline elapsed")).is_timeout());
    assert!(!HttpClientError::timeout(Cause::msg("deadline elapsed")).is_connect());
    assert!(HttpClientError::connect(Cause::msg("refused")).is_connect());
    let messages = [
        (HttpClientError::build(Cause::msg("x")), "failed to build HTTP client: x"),
        (HttpClientError::invalid_request(Cause::msg("x")), "invalid HTTP request: x"),
        (HttpClientError::connect(Cause::msg("x")), "HTTP connection failed: x"),
        (HttpClientError::timeout(Cause::msg("x")), "HTTP request timed out: x"),
        (HttpClientError::redirect(Cause::msg("x")), "HTTP redirect failed: x"),
        (HttpClientError::decode(Cause::msg("x")), "HTTP response decode failed: x"),
        (HttpClientError::io(Cause::msg("x")), "HTTP I/O failed: x"),
        (HttpClientError::other(Cause::msg("x")), "HTTP client error: x"),
    ];
    for (error, text) in messages {
        assert_eq!(error.message(), text);
    }
}

#[test]
fn storage_errors_convert_by_class() {
    let lost = StorageError::LeaseNotFound { lease_id: LeaseId::new(7) };
    assert_eq!(
        lost.message(),
        "lease 7 not found (already completed, abandoned, or expired)"
    );
    let error = lost.into_crawl_error();
    assert!(matches!(error, CrawlError::NonRetryable(_)));
    assert!(error.message().ends_with("or expired)"));
    let backend = StorageError::Backend(Cause::msg("down"));
    assert_eq!(backend.message(), "storage backend: down");
    assert!(matches!(backend.into_crawl_error(), CrawlError::Retry(_)));
    let io = StorageError::Io(Cause::msg("disk")).into_crawl_error();
    assert_eq!(io.message(), "retryable: disk");
    let json = StorageError::Serialization(Cause::msg("bad")).into_crawl_error();
    assert_eq!(json.message(), "non-retryable: bad");
    let missing = StorageError::Unsupported("export").into_crawl_error();
    assert_eq!(
        missing.message(),
        "non-retryable: operation not supported by this backend: export"
    );
}

#[test]
fn build_errors_chain_their_source() {
    let error = Request::get("not a url").build().expect_err("no URL");
    let crawl = CrawlError::from_build(error);
    assert_eq!(
        crawl.message(),
        "non-retryable: invalid URL: relative URL without a base"
    );
}
