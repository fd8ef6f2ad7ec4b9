use millipede_core::request::Request;
use millipede_core::sitemap::document::{
    extend_prefix, is_gzip, parse_decoded, parse_document,
};
use millipede_core::sitemap::list::{
    check_response, sitemap_state_key, ListStep, PersistedState, SitemapRequestList,
    SitemapRequestListBuilder,
};
use millipede_core::sitemap::parser::{
    SitemapEntry, SitemapEvent, SitemapParseError, SitemapParser, XmlEvent,
};
use millipede_core::sitemap::tandem::{DrainStep, TandemAction, TandemState};
use millipede_core::url::Url;
use std::io::Write;

fn url(text: &str) -> Url {
    Url::parse(text).unwrap()
}

fn locations(text: &str) -> Vec<String> {
    parse_document(text.as_bytes(), false)
        .events
        .into_iter()
        .map(|event| match event {
            SitemapEvent::Entry(entry) => entry.loc,
            SitemapEvent::Nested(location) => format!("nested {location}"),
        })
        .collect()
}

#[test]
fn entries_carry_their_fields() {
    let text = "<?xml version=\"1.0\"?><urlset><url> <loc> https://e.test/a?x=1&amp;y </loc>\
        <lastmod>2024-01-01</lastmod><changefreq>daily</changefreq><priority>0.5</priority>\
        <image><loc>no</loc></image></url><url/></urlset>";
    let document = parse_document(text.as_bytes(), false);
    assert!(document.error.is_none());
    assert_eq!(document.events.len(), 1);
    match &document.events[0] {
        SitemapEvent::Entry(entry) => {
            assert_eq!(entry.loc, "https://e.test/a?x=1&y");
            assert_eq!(entry.lastmod.as_deref(), Some("2024-01-01"));
            assert_eq!(entry.changefreq.as_deref(), Some("daily"));
            assert_eq!(entry.priority.as_ref().unwrap().as_str(), "0.5");
        }
        other => panic!("{other:?}"),
    }
}

#[test]
fn prefixes_and_literal_sections_are_read() {
    let text = "<s:urlset xmlns:s=\"x\"><s:url><s:loc><![CDATA[ https://e.test/b ]]></s:loc></s:url></s:urlset>";
    assert_eq!(locations(text), ["https://e.test/b"]);
    let index = "<sitemapindex><sitemap><loc>https://e.test/1.xml</loc></sitemap>\
        <sitemap><lastmod>x</lastmod></sitemap></sitemapindex>";
    assert_eq!(locations(index), ["nested https://e.test/1.xml"]);
}

#[test]
fn broken_entries_are_dropped_alone() {
    let text = "<urlset><url><loc>a</wrong></url><url><loc>b</loc></url>\
        <url><loc>c</loc><priority>high</priority></url><url><lastmod>x</lastmod></url>\
        <url><loc>&nope;</loc></url><url><loc>d</loc></url></urlset>";
    assert_eq!(locations(text), ["b", "d"]);
    let index = "<sitemapindex><sitemap><loc>&nope;</loc></sitemap>\
        <sitemap><loc>ok</loc></sitemap></sitemapindex>";
    assert_eq!(locations(index), ["nested ok"]);
}

#[test]
fn faults_end_a_document() {
    let document = parse_document(b"<urlset><url><loc>a</loc></url><url", false);
    assert_eq!(document.events.len(), 1);
    let error = document.error.unwrap();
    assert!(!error.is_body());
    assert!(error.message().starts_with("sitemap XML parse failed: "));
    assert!(SitemapParseError::body("gone").is_body());
    assert_eq!(SitemapParseError::body("gone").message(), "sitemap response body failed: gone");
}

#[test]
fn compressed_documents_are_read() {
    let text = b"<urlset><url><loc>https://e.test/z</loc></url></urlset>";
    let mut encoder = flate2::write::GzEncoder::new(Vec::new(), flate2::Compression::default());
    encoder.write_all(text).unwrap();
    let bytes = encoder.finish().unwrap();
    let document = parse_document(&bytes, true);
    assert_eq!(document.events.len(), 1);
    assert!(document.error.is_none());
    let broken = parse_document(&bytes[..bytes.len() - 12], true);
    assert!(broken.error.unwrap().message().contains("I/O error: "));
    let decoded = parse_decoded(b"<urlset><url><loc>https://e.test/y</loc></url><url>", None);
    assert_eq!((decoded.events.len(), decoded.error.is_none()), (1, true));
    let cut = parse_decoded(b"<urlset><url><loc>https://e.test/y</loc></url><ur", Some("cut".into()));
    assert_eq!(cut.events.len(), 1);
    assert!(cut.error.unwrap().message().ends_with("I/O error: cut"));
    let message = |text: &[u8]| parse_decoded(text, Some("cut".into())).error.unwrap().message();
    for open in ["<a", "<a><!--", "<a><![CDATA[", "<a><!", "<a><?x", "<a", "<", "text", ""] {
        assert!(message(open.as_bytes()).ends_with("I/O error: cut"), "{open}");
    }
    for wrong in ["</a>", "</a><b", "<!x", "<!x y><b>", "<a><?>", "<?>text"] {
        assert!(!message(wrong.as_bytes()).contains("I/O error"), "{wrong}");
    }
    assert!(is_gzip("/a/sitemap.xml.gz", &vec![]));
    assert!(is_gzip("/a", &bytes[..2].to_vec()));
    assert!(!is_gzip("/a.gz/b", &b"<u".to_vec()));
    let mut prefix = Vec::new();
    extend_prefix(&mut prefix, b"");
    extend_prefix(&mut prefix, &[0x1f]);
    extend_prefix(&mut prefix, &[0x8b, 0x08]);
    assert_eq!(prefix, [0x1f, 0x8b]);
}

#[test]
fn a_reader_takes_piece_after_piece() {
    let mut parser = SitemapParser::new();
    let start = |name: &str| XmlEvent::Start(name.as_bytes().to_vec());
    let end = |name: &str| XmlEvent::End(name.as_bytes().to_vec());
    for piece in [start("urlset"), start("url"), start("loc")] {
        assert!(parser.feed(piece).is_none());
    }
    assert!(parser.feed(XmlEvent::Text(Some(" https://e.test/".into()))).is_none());
    assert!(parser.feed(XmlEvent::Other).is_none());
    assert!(parser.feed(XmlEvent::CData(b"x".to_vec())).is_none());
    assert!(parser.feed(end("loc")).is_none());
    match parser.feed(end("url")) {
        Some(SitemapEvent::Entry(entry)) => assert_eq!(entry.loc, "https://e.test/x"),
        other => panic!("{other:?}"),
    }
}

fn list(roots: &[&str]) -> SitemapRequestList {
    SitemapRequestListBuilder::default()
        .sitemap_urls(roots.iter().map(|root| url(root)).collect())
        .http_client()
        .persist()
        .label("page")
        .build()
        .unwrap()
}

fn entry(location: &str) -> SitemapEvent {
    SitemapEvent::Entry(SitemapEntry {
        loc: location.into(),
        lastmod: None,
        priority: None,
        changefreq: None,
    })
}

fn open(list: &mut SitemapRequestList) -> String {
    match list.next_step(true) {
        ListStep::Open(next) => {
            let text = next.url.as_str().to_owned();
            list.opened(next);
            text
        }
        other => panic!("{other:?}"),
    }
}

fn emit(list: &mut SitemapRequestList) -> Request {
    match list.next_step(true) {
        ListStep::Emit { request, .. } => request,
        other => panic!("{other:?}"),
    }
}

#[test]
fn builders_need_urls_and_a_client() {
    let error = SitemapRequestListBuilder::default().http_client().build().unwrap_err();
    assert_eq!(error.message(), "non-retryable: at least one sitemap URL is required");
    let error = SitemapRequestListBuilder::default()
        .sitemap_url(url("https://e.test/1.xml"))
        .build()
        .unwrap_err();
    assert_eq!(error.message(), "non-retryable: an HTTP client is required");
    let list = list(&["https://e.test/1.xml", "https://e.test/2.xml", "https://e.test/1.xml"]);
    assert_eq!(list.roots.len(), 2);
    assert_eq!(sitemap_state_key(), "SITEMAP_REQUEST_LIST_STATE");
    assert_eq!(list.pending[1].url.as_str(), "https://e.test/1.xml");
}

#[test]
fn pages_are_emitted_once() {
    let mut list = list(&["https://e.test/1.xml"]);
    assert_eq!(open(&mut list), "https://e.test/1.xml");
    assert!(matches!(list.next_step(true), ListStep::Read));
    list.on_event(entry("https://e.test/a"));
    let request = emit(&mut list);
    assert_eq!(request.unique_key, "https://e.test/a");
    assert_eq!(request.label.as_deref(), Some("page"));
    for location in ["https://e.test/a", "not a url"] {
        list.on_event(entry(location));
        assert!(matches!(list.next_step(true), ListStep::Read));
    }
    assert!(!list.is_finished());
    list.complete_current();
    assert!(list.is_finished());
    assert!(matches!(list.next_step(true), ListStep::Done));
    assert_eq!(list.processed_count(), 1);
}

#[test]
fn nested_sitemaps_come_next_in_order() {
    let mut list = list(&["https://e.test/i.xml", "https://e.test/last.xml"]);
    open(&mut list);
    for location in ["https://e.test/1.xml", "https://e.test/2.xml", "https://e.test/1.xml", "::"] {
        list.on_event(SitemapEvent::Nested(location.into()));
    }
    list.complete_current();
    assert_eq!(open(&mut list), "https://e.test/1.xml");
    assert_eq!(list.current.as_ref().unwrap().pending.depth, 1);
    list.complete_current();
    assert_eq!(open(&mut list), "https://e.test/2.xml");
    list.complete_current();
    assert_eq!(open(&mut list), "https://e.test/last.xml");
}

#[test]
fn nesting_is_bounded() {
    let mut list = list(&["https://e.test/0.xml"]);
    for depth in 0..=5 {
        open(&mut list);
        assert_eq!(list.current.as_ref().unwrap().pending.depth, depth);
        list.on_event(SitemapEvent::Nested(format!("https://e.test/{}.xml", depth + 1)));
        list.complete_current();
    }
    assert!(matches!(list.next_step(true), ListStep::Done));
}

#[test]
fn a_list_whose_roots_all_fail_is_an_error() {
    let mut list = list(&["https://e.test/1.xml", "https://e.test/2.xml"]);
    for _ in 0..2 {
        match list.next_step(true) {
            ListStep::Open(next) => list.mark_fetch_failure(next),
            other => panic!("{other:?}"),
        }
    }
    match list.next_step(true) {
        ListStep::Failed(error) => {
            assert_eq!(error.message(), "retryable: all configured root sitemaps failed");
        }
        other => panic!("{other:?}"),
    }
    assert!(matches!(list.next_step(true), ListStep::Done));
}

#[test]
fn a_failed_body_forgets_what_it_named() {
    let mut list = list(&["https://e.test/1.xml", "https://e.test/2.xml"]);
    open(&mut list);
    list.on_event(SitemapEvent::Nested("https://e.test/n.xml".into()));
    list.fail_current();
    assert!(!list.seen_sitemaps.contains("https://e.test/n.xml"));
    assert!(list.failed_roots.contains("https://e.test/1.xml"));
    open(&mut list);
    list.complete_current();
    assert!(matches!(list.next_step(true), ListStep::Done));
}

#[test]
fn broken_bodies_fail_and_broken_markup_does_not() {
    let mut failed = list(&["https://e.test/1.xml"]);
    open(&mut failed);
    failed.ended(Some(SitemapParseError::body("gone")));
    assert!(matches!(failed.next_step(false), ListStep::Failed(_)));
    for end in [None, Some(SitemapParseError::Xml("bad".into()))] {
        let mut read = list(&["https://e.test/1.xml"]);
        open(&mut read);
        read.ended(end);
        assert!(matches!(read.next_step(false), ListStep::Done));
    }
    let page = url("https://e.test/1.xml");
    assert!(check_response(&page, 204).is_ok());
    let error = check_response(&page, 404).unwrap_err();
    assert_eq!(
        error.message(),
        "retryable: sitemap https://e.test/1.xml returned HTTP 404 Not Found"
    );
    assert!(check_response(&page, 300).is_err());
}

#[test]
fn a_full_count_hinders_no_reading() {
    let mut list = list(&["https://e.test/1.xml"]);
    list.emitted_total = u64::MAX;
    open(&mut list);
    assert!(matches!(list.next_step(false), ListStep::Read));
    list.complete_current();
    assert!(matches!(list.next_step(false), ListStep::Done));
}

#[test]
fn limits_stop_a_list() {
    let mut list = SitemapRequestListBuilder::default()
        .sitemap_url(url("https://e.test/1.xml"))
        .http_client()
        .limit(1)
        .build()
        .unwrap();
    open(&mut list);
    list.on_event(entry("https://e.test/a"));
    emit(&mut list);
    assert!(list.is_finished());
    assert!(matches!(list.next_step(true), ListStep::Done));
    assert!(list.current.is_none());
}

#[test]
fn every_hundredth_request_stores_progress() {
    let mut list = list(&["https://e.test/1.xml"]);
    open(&mut list);
    for number in 1..=100u64 {
        list.on_event(entry(&format!("https://e.test/{number}")));
        match list.next_step(true) {
            ListStep::Emit { checkpoint, .. } => {
                assert_eq!(checkpoint.is_some(), number == 100);
                if let Some(state) = checkpoint {
                    assert_eq!((state.emitted_total, state.emitted_in_progress), (100, 100));
                }
            }
            other => panic!("{other:?}"),
        }
    }
}

fn stored(list: &SitemapRequestList) -> PersistedState {
    list.snapshot(list.emitted_total, false)
}

#[test]
fn progress_is_taken_up_after_a_restart() {
    let roots = ["https://e.test/1.xml", "https://e.test/2.xml", "https://e.test/3.xml"];
    let mut first = list(&roots);
    open(&mut first);
    first.complete_current();
    open(&mut first);
    first.on_event(entry("https://e.test/a"));
    emit(&mut first);
    first.on_event(entry("https://e.test/b"));
    let state = stored(&first);
    assert_eq!(state.in_progress.as_deref(), Some("https://e.test/2.xml"));
    assert_eq!(state.emitted_in_progress, 1);
    assert_eq!(state.pending, ["https://e.test/3.xml"]);

    let mut second = list(&roots);
    second.load_persisted(Some(state)).unwrap();
    assert_eq!(second.processed_count(), 1);
    let again = stored(&second);
    assert_eq!(again.in_progress.as_deref(), Some("https://e.test/2.xml"));
    assert_eq!(open(&mut second), "https://e.test/2.xml");
    second.on_event(entry("https://e.test/a"));
    assert!(matches!(second.next_step(true), ListStep::Read));
    second.on_event(entry("https://e.test/b"));
    assert_eq!(emit(&mut second).unique_key, "https://e.test/b");
    second.complete_current();
    assert_eq!(open(&mut second), "https://e.test/3.xml");
}

#[test]
fn foreign_progress_is_refused() {
    let mut list = list(&["https://e.test/1.xml"]);
    let mut state = stored(&list);
    state.version = 1;
    let error = list.load_persisted(Some(state)).unwrap_err();
    assert_eq!(error.message(), "non-retryable: unsupported sitemap state version 1");
    assert!(!list.loaded);
    list.load_persisted(None).unwrap();
    assert!(list.loaded);
}

#[test]
fn sitemaps_keep_a_queue_alive() {
    let mut state = TandemState::new().batch_size(0);
    assert_eq!(state.batch, 1);
    assert_eq!(TandemState::new().batch, 32);
    assert_eq!(state.next_action(false, false), TandemAction::FetchInner);
    assert_eq!(state.next_action(true, false), TandemAction::Drain);
    assert_eq!(state.next_action(true, true), TandemAction::FetchInner);
    assert_eq!(state.drain_step(), DrainStep::Stop);
    state.begin_pass();
    assert_eq!(state.drain_step(), DrainStep::Take);
    state.took(Some(Request::get("https://e.test/").build().unwrap()));
    assert_eq!(state.drain_step(), DrainStep::Add);
    assert_eq!(state.next_action(true, true), TandemAction::Drain);
    assert!(!state.flag(true, true));
    state.added();
    assert_eq!(state.drain_step(), DrainStep::Stop);
    state.begin_pass();
    state.took(None);
    assert_eq!(state.drain_step(), DrainStep::Stop);
    assert!(state.flag(true, true) && !state.flag(false, true) && !state.flag(true, false));
}
