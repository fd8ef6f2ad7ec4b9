use millipede_core::headers::{header_pairs, headers_from_pairs, pairs_fit};
use millipede_core::http_client::{HttpRequest, HttpResponse};
use millipede_core::json::Json;
use millipede_core::request::{
    Method, Request, RequestBody, RequestBuildError, RequestId, RequestState, UserData,
};
use millipede_core::time::Duration;
use millipede_core::url::Url;

#[test]
fn headers_come_back_from_pairs() {
    let mut map = http::HeaderMap::new();
    map.append("x-b", "2".parse().unwrap());
    map.append("X-A", "1".parse().unwrap());
    map.append("x-b", "1".parse().unwrap());
    map.append("x-b", "2".parse().unwrap());
    let pairs = header_pairs(&map).unwrap();
    assert_eq!(pairs.len(), 4);
    assert!(pairs_fit(&pairs));
    assert_eq!(headers_from_pairs(&pairs).unwrap(), map);
    map.append("x-c", http::HeaderValue::from_bytes(b"\xff").unwrap());
    assert!(header_pairs(&map).is_none());
    let repeated: Vec<(String, String)> = vec![("x-same".into(), "v".into()); 7_000];
    assert!(pairs_fit(&repeated));
    assert_eq!(headers_from_pairs(&repeated).unwrap().len(), 7_000);
    let refused = vec![("no name".to_owned(), "v".to_owned())];
    assert!(pairs_fit(&refused) && headers_from_pairs(&refused).is_err());
}

#[test]
fn builder_happy_path() {
    let request = Request::get("https://example.com/a?x=1").label("l").build().unwrap();
    assert_eq!(request.label.as_deref(), Some("l"));
    assert_eq!(request.method, Method::GET);
}

#[test]
fn unique_key_override_is_respected() {
    let request = Request::get("https://example.com").unique_key("mine").build().unwrap();
    assert_eq!(request.unique_key, "mine");
}

#[test]
fn get_key_is_fragmentless_url() {
    let request = Request::get("https://example.com/a#frag").build().unwrap();
    assert_eq!(request.unique_key, "https://example.com/a");
}

#[test]
fn fragment_does_not_affect_key() {
    let first = Request::get("https://example.com/a#frag").build().unwrap();
    let second = Request::get("https://example.com/a").build().unwrap();
    assert_eq!(first.unique_key, second.unique_key);
}

#[test]
fn post_body_affects_key_deterministically() {
    let build = |bytes| {
        Request::post("https://example.com/a")
            .body(RequestBody::Bytes(bytes))
            .build()
            .unwrap()
    };
    assert_eq!(build(vec![1]).unique_key, build(vec![1]).unique_key);
    assert_ne!(build(vec![1]).unique_key, build(vec![2]).unique_key);
}

#[test]
fn request_id_is_deterministic() {
    assert_eq!(RequestId::from_unique_key("key"), RequestId::from_unique_key("key"));
}

#[test]
fn user_data_typed_roundtrip() {
    let mut data = UserData::default();
    data.set("example", "{ \"number\": 7 }").unwrap();
    assert_eq!(data.get("example").unwrap(), "{\"number\":7}");
    assert_eq!(data.get("other"), None);
}

#[test]
fn invalid_header_is_reported_at_build() {
    let result = Request::get("https://example.com").header("bad header", "value").build();
    assert!(matches!(result, Err(RequestBuildError::InvalidHeader { .. })));
}

#[test]
fn keys_of_other_methods_name_method_and_body() {
    let request = Request::post("https://example.com/a#f").build().unwrap();
    assert_eq!(request.unique_key, "POST(cbf29ce484222325):https://example.com/a");
    let request = Request::post("https://example.com/a")
        .body(RequestBody::Bytes(b"a".to_vec()))
        .build()
        .unwrap();
    assert_eq!(request.unique_key, "POST(af63dc4c8601ec8c):https://example.com/a");
    assert_eq!(RequestId::from_unique_key("").as_str(), "cbf29ce484222325cbf29ce484222325");
}

#[test]
fn bodies_have_canonical_bytes() {
    let form = RequestBody::Form(vec![
        ("a".into(), "1".into()),
        ("b".into(), "ä".into()),
    ]);
    assert_eq!(form.canonical_bytes(), "a=1&b=ä".as_bytes());
    assert_eq!(RequestBody::Form(vec![]).canonical_bytes(), b"");
    let json = RequestBody::Json(Json::parse("{ \"k\" : [1, 2] }").unwrap());
    assert_eq!(json.canonical_bytes(), b"{\"k\":[1,2]}");
}

#[test]
fn each_build_error_has_its_input() {
    let error = Request::builder().build().unwrap_err();
    assert!(matches!(error, RequestBuildError::MissingUrl));
    assert_eq!(error.message(), "request URL is missing");

    let error = Request::get("::").build().unwrap_err();
    assert!(matches!(error, RequestBuildError::InvalidUrl(_)));
    assert_eq!(error.message(), "invalid URL: relative URL without a base");

    let error = Request::get("https://example.com")
        .header("bad header", "value")
        .build()
        .unwrap_err();
    assert_eq!(error.message(), "invalid header bad header: invalid HTTP header name");

    let error = Request::get("https://example.com")
        .header("x-ok", "a\nb")
        .build()
        .unwrap_err();
    assert_eq!(error.message(), "invalid header x-ok: failed to parse header value");

    let error = Request::get("https://example.com").json("{").build().unwrap_err();
    assert!(matches!(error, RequestBuildError::Serialization(_)));
    assert!(error.message().starts_with("user data serialization failed: "));

    let error = Request::get("::").user_data_entry("k", "nope").build().unwrap_err();
    assert!(matches!(error, RequestBuildError::Serialization(_)));
}

#[test]
fn headers_keep_repeated_values_in_order() {
    let builder = Request::get("https://example.com")
        .header("Accept", "a")
        .header("ACCEPT", "b")
        .header("x-empty", "");
    assert!(builder.headers_fit());
    let request = builder.build().unwrap();
    let values: Vec<&str> = request
        .headers
        .get_all("accept")
        .iter()
        .map(|value| value.to_str().unwrap())
        .collect();
    assert_eq!(values, ["a", "b"]);
    assert_eq!(request.headers.len(), 3);
}

#[test]
fn built_requests_carry_every_setting() {
    let request = Request::post("https://example.com/a")
        .json("[1]")
        .user_data_entry("kind", "\"product\"")
        .max_retries(4)
        .no_retry(true)
        .skip_navigation(true)
        .crawl_depth(2)
        .build()
        .unwrap();
    assert_eq!(request.url.as_str(), "https://example.com/a");
    assert_eq!(request.user_data.get("kind").unwrap(), "\"product\"");
    assert!(!request.user_data.is_empty());
    assert_eq!(request.max_retries, Some(4));
    assert!(request.no_retry && request.skip_navigation);
    assert_eq!(request.crawl_depth, 2);
    assert_eq!((request.retry_count, request.session_rotation_count), (0, 0));
    assert_eq!(request.state, RequestState::Unprocessed);
    assert!(request.loaded_url.is_none() && request.handled_at.is_none());
    assert_eq!(request.id.as_str(), RequestId::from_unique_key(&request.unique_key).as_str());
    assert!(Request::get("https://example.com").forefront(true).is_forefront());
}

#[test]
fn http_requests_copy_the_crawl_request() {
    let request = Request::post("https://example.com/a")
        .header("x-a", "1")
        .form(vec![("k".into(), "v".into())])
        .build()
        .unwrap();
    let http = HttpRequest::from_request(&request)
        .max_redirects(3)
        .timeout(Duration::from_secs(1));
    assert_eq!(http.url.as_str(), "https://example.com/a");
    assert_eq!(http.method, Method::POST);
    assert_eq!(http.headers["x-a"], "1");
    assert_eq!(http.body, request.body);
    assert_eq!((http.max_redirects, http.timeout), (3, Some(Duration::from_secs(1))));
    let plain = HttpRequest::new(Url::parse("https://example.com/").unwrap()).method(Method::HEAD);
    assert_eq!((plain.method, plain.max_redirects), (Method::HEAD, 10));
}

#[test]
fn responses_decode_lossily() {
    let url = Url::parse("https://example.com/").unwrap();
    let response = HttpResponse::new(url.clone(), 200, Default::default(), b"hello".to_vec());
    assert_eq!(response.text(), "hello");
    let response = HttpResponse::new(url.clone(), 200, Default::default(), vec![0x61, 0xff])
        .with_redirect_chain(vec![url]);
    assert_eq!(response.text(), "a\u{fffd}");
    assert_eq!(response.redirect_chain.len(), 1);
}

#[test]
fn urls_are_taken_apart() {
    let url = Url::parse("http://user:pw@Example.com:8080/a/../b?q#f").unwrap();
    assert_eq!(url.as_str(), "http://user:pw@example.com:8080/b?q#f");
    assert_eq!(url.bare(), "http://user:pw@example.com:8080/b?q");
    assert_eq!(url.scheme(), "http");
    assert_eq!(url.username(), "user");
    assert_eq!(url.password(), Some("pw"));
    assert_eq!(url.host_str(), Some("example.com"));
    assert_eq!(url.domain(), Some("example.com"));
    assert_eq!(url.port_or_known_default(), Some(8080));
    assert_eq!(url.path(), "/b");
    assert_eq!(url.fragment(), Some("f"));
    assert_eq!(Url::parse("https://[::1]/").unwrap().domain(), None);
    assert_eq!(url.join("../c").unwrap().as_str(), "http://user:pw@example.com:8080/c");
    assert_eq!(Url::parse("/x").unwrap_err().message, "relative URL without a base");
}

#[test]
fn headers_are_written_as_pairs() {
    let pairs = vec![
        ("X-A".to_owned(), "1".to_owned()),
        ("x-b".to_owned(), "2".to_owned()),
        ("x-a".to_owned(), "3".to_owned()),
    ];
    let headers = headers_from_pairs(&pairs).unwrap();
    assert_eq!(headers.get_all("x-a").iter().count(), 2);
    let mut written = header_pairs(&headers).unwrap();
    written.sort();
    let texts: Vec<String> = written.into_iter().map(|(n, v)| format!("{n}={v}")).collect();
    assert_eq!(texts, ["x-a=1", "x-a=3", "x-b=2"]);
    let bad = vec![("a b".to_owned(), "1".to_owned())];
    assert_eq!(headers_from_pairs(&bad).unwrap_err(), "invalid HTTP header name");
    let bad = vec![("a".to_owned(), "\u{7f}".to_owned())];
    assert_eq!(headers_from_pairs(&bad).unwrap_err(), "failed to parse header value");
    let binary = headers_from_pairs(&vec![("a".to_owned(), "ä".to_owned())]).unwrap();
    assert!(header_pairs(&binary).is_none());
}
