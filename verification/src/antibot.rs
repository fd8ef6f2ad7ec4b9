//! Content-based anti-bot and web application firewall detection.

use crate::errors::AntiBotTech;
use crate::headers::{
    has_value, header_contents, header_entries, lemma_mentions, mentions_headers, visible_text,
};
use crate::http_client::{decode_lossy, lossy_text};
use crate::text::{
    ascii_lower, begins_with, chars_of, contains, has, lowercased, occurs_at, owned, same,
    unicode_lower, unicode_lowercased,
};
use crate::url::{opt_view, Url};
use vstd::prelude::*;

verus! {

/// Response signals inspected for evidence of an anti-bot challenge.
pub struct AntiBotSignals<'a> {
    /// The response status code.
    pub status: u16,
    /// The response headers.
    pub headers: &'a http::HeaderMap<http::HeaderValue>,
    /// The response body bytes.
    pub body: &'a [u8],
    /// The final response URL after redirects.
    pub final_url: &'a Url,
}

impl<'a> AntiBotSignals<'a> {
    /// Creates a collection of response signals for detection.
    pub fn new(
        status: u16,
        headers: &'a http::HeaderMap<http::HeaderValue>,
        body: &'a [u8],
        final_url: &'a Url,
    ) -> (r: AntiBotSignals<'a>)
        ensures
            r.status == status,
            r.headers == headers,
            r.body == body,
            r.final_url == final_url,
    {
        AntiBotSignals { status, headers, body, final_url }
    }
}

/// Detects anti-bot or web application firewall responses from response signals.
pub trait AntiBotDetector: Send + Sync + 'static {
    /// Returns the detected technology, or `None` when evidence is insufficient.
    fn detect(&self, signals: &AntiBotSignals<'_>) -> Option<AntiBotTech>;
}

/// A conservative detector using bounded, vendor-specific static markers.
#[derive(Debug)]
pub struct DefaultAntiBotDetector {
    pub inspection_limit: usize,
    pub custom_markers: Vec<(String, AntiBotTech)>,
}

/// What a response's headers hold: the values under each name.
pub type Contents = Map<Seq<char>, Seq<Seq<u8>>>;

/// Whether a header is there.
pub open spec fn header_seen(contents: Contents, name: Seq<char>) -> bool {
    exists|at: int| #[trigger] has_value(contents, name, at)
}

/// Whether a header is there whose name begins with `prefix`.
pub open spec fn header_prefix_seen(contents: Contents, prefix: Seq<char>) -> bool {
    exists|name: Seq<char>, at: int| #[trigger]
        has_value(contents, name, at) && occurs_at(name, prefix, 0)
}

/// Whether a header's value has `word` in it, whatever its case.
pub open spec fn value_has(value: Option<Seq<char>>, word: Seq<char>) -> bool {
    match value {
        Some(text) => contains(ascii_lower(text), word),
        None => false,
    }
}

/// Whether some value of a header has `word` in it.
pub open spec fn header_says(contents: Contents, name: Seq<char>, word: Seq<char>) -> bool {
    exists|at: int| #[trigger]
        has_value(contents, name, at) && value_has(visible_text(contents[name][at]), word)
}

pub open spec fn cloudflare_evidence(contents: Contents, body: Seq<char>) -> bool {
    ||| header_seen(contents, "cf-ray"@)
    ||| header_seen(contents, "cf-mitigated"@)
    ||| header_says(contents, "server"@, "cloudflare"@)
    ||| header_says(contents, "set-cookie"@, "__cf_bm"@)
    ||| header_says(contents, "set-cookie"@, "cf_clearance"@)
    ||| contains(body, "just a moment"@)
    ||| contains(body, "cf-chl"@)
    ||| contains(body, "challenges.cloudflare.com"@)
    ||| contains(body, "checking your browser"@)
}

pub open spec fn datadome_evidence(contents: Contents, body: Seq<char>) -> bool {
    ||| header_seen(contents, "x-datadome"@)
    ||| header_seen(contents, "x-dd-b"@)
    ||| header_says(contents, "set-cookie"@, "datadome"@)
    ||| contains(body, "datadome"@)
    ||| contains(body, "geo.captcha-delivery.com"@)
}

pub open spec fn perimeterx_evidence(contents: Contents, body: Seq<char>) -> bool {
    ||| header_says(contents, "set-cookie"@, "_px"@)
    ||| header_says(contents, "set-cookie"@, "_pxhd"@)
    ||| contains(body, "px-captcha"@)
    ||| contains(body, "perimeterx"@)
    ||| contains(body, "/_px"@)
}

pub open spec fn kasada_evidence(contents: Contents, body: Seq<char>) -> bool {
    ||| header_seen(contents, "x-kpsdk-ct"@)
    ||| header_seen(contents, "x-kpsdk-cd"@)
    ||| contains(body, "kpsdk"@)
    ||| contains(body, "kasada"@)
}

pub open spec fn imperva_evidence(contents: Contents, body: Seq<char>) -> bool {
    ||| header_seen(contents, "x-iinfo"@)
    ||| header_says(contents, "set-cookie"@, "visid_incap"@)
    ||| header_says(contents, "set-cookie"@, "incap_ses"@)
    ||| contains(body, "incapsula"@)
    ||| contains(body, "_incap_"@)
    ||| contains(body, "incident id"@)
}

pub open spec fn akamai_evidence(contents: Contents, body: Seq<char>) -> bool {
    ||| header_says(contents, "set-cookie"@, "_abck"@)
    ||| header_says(contents, "set-cookie"@, "ak_bmsc"@)
    ||| header_prefix_seen(contents, "x-akamai"@)
    ||| contains(body, "akamai bot manager"@)
    ||| contains(body, "akamaighost"@)
}

pub open spec fn generic_evidence(body: Seq<char>) -> bool {
    contains(body, "captcha"@) && (contains(body, "access denied"@) || contains(
        body,
        "verify you are human"@,
    ) || contains(body, "are you a human"@))
}

/// The technology of the first custom marker that the body has in it.
pub open spec fn marked(body: Seq<char>, markers: Seq<(String, AntiBotTech)>) -> Option<
    AntiBotTech,
>
    decreases markers.len(),
{
    if markers.len() == 0 {
        None
    } else if contains(body, markers[0].0@) {
        Some(markers[0].1)
    } else {
        marked(body, markers.drop_first())
    }
}

/// The technology that the evidence in a body's text points to: the vendors in a fixed order, the
/// custom markers in theirs, and last a challenge of unknown make. Case does not count: in the
/// fixed words that of ASCII letters, in custom markers that of all.
pub open spec fn detected(
    contents: Contents,
    text: Seq<char>,
    markers: Seq<(String, AntiBotTech)>,
) -> Option<AntiBotTech> {
    let body = ascii_lower(text);
    let folded = unicode_lower(text);
    if cloudflare_evidence(contents, body) {
        Some(AntiBotTech::Cloudflare)
    } else if datadome_evidence(contents, body) {
        Some(AntiBotTech::DataDome)
    } else if perimeterx_evidence(contents, body) {
        Some(AntiBotTech::PerimeterX)
    } else if kasada_evidence(contents, body) {
        Some(AntiBotTech::Kasada)
    } else if imperva_evidence(contents, body) {
        Some(AntiBotTech::Imperva)
    } else if akamai_evidence(contents, body) {
        Some(AntiBotTech::Akamai)
    } else if marked(folded, markers) is Some {
        marked(folded, markers)
    } else if generic_evidence(body) {
        Some(AntiBotTech::Unknown)
    } else {
        None
    }
}

/// The first `limit` bytes of a body.
pub open spec fn inspected(body: Seq<u8>, limit: nat) -> Seq<u8> {
    if body.len() <= limit {
        body
    } else {
        body.subrange(0, limit as int)
    }
}

type Entries = Vec<(String, Option<String>)>;

fn seen(entries: &Entries, name: &str, contents: Ghost<Contents>) -> (r: bool)
    requires
        mentions_headers(contents@, entries@),
    ensures
        r == header_seen(contents@, name@),
{
    let mut i: usize = 0;
    while i < entries.len()
        invariant
            i <= entries.len(),
            mentions_headers(contents@, entries@),
            forall|k: int| 0 <= k < i ==> (#[trigger] entries@[k]).0@ != name@,
        decreases entries.len() - i,
    {
        if same(entries[i].0.as_str(), name) {
            assert(entries@[i as int].0@ == name@);
            return true;
        }
        i = i + 1;
    }
    false
}

fn prefix_seen(entries: &Entries, prefix: &str, contents: Ghost<Contents>) -> (r: bool)
    requires
        mentions_headers(contents@, entries@),
    ensures
        r == header_prefix_seen(contents@, prefix@),
{
    let mut i: usize = 0;
    while i < entries.len()
        invariant
            i <= entries.len(),
            mentions_headers(contents@, entries@),
            forall|k: int| 0 <= k < i ==> !occurs_at((#[trigger] entries@[k]).0@, prefix@, 0),
        decreases entries.len() - i,
    {
        if begins_with(&chars_of(entries[i].0.as_str()), prefix) {
            assert(occurs_at(entries@[i as int].0@, prefix@, 0));
            return true;
        }
        i = i + 1;
    }
    false
}

fn says(entries: &Entries, name: &str, word: &str, contents: Ghost<Contents>) -> (r: bool)
    requires
        mentions_headers(contents@, entries@),
    ensures
        r == header_says(contents@, name@, word@),
{
    let mut i: usize = 0;
    while i < entries.len()
        invariant
            i <= entries.len(),
            mentions_headers(contents@, entries@),
            forall|k: int|
                0 <= k < i ==> (#[trigger] entries@[k]).0@ != name@ || !value_has(
                    opt_view(entries@[k].1),
                    word@,
                ),
        decreases entries.len() - i,
    {
        let entry: &(String, Option<String>) = &entries[i];
        if same(entry.0.as_str(), name) {
            if let Some(value) = &entry.1 {
                if has(&lowercased(&chars_of(value.as_str())), word) {
                    assert(value_has(opt_view(entries@[i as int].1), word@));
                    return true;
                }
            }
        }
        i = i + 1;
    }
    false
}

impl DefaultAntiBotDetector {
    /// The maximum number of response-body bytes inspected by default.
    pub const DEFAULT_INSPECTION_LIMIT: usize = 65536;

    /// Creates a detector with the default body inspection limit.
    pub fn new() -> (r: DefaultAntiBotDetector)
        ensures
            r.inspection_limit == 65536,
            r.custom_markers@.len() == 0,
    {
        DefaultAntiBotDetector {
            inspection_limit: DefaultAntiBotDetector::DEFAULT_INSPECTION_LIMIT,
            custom_markers: Vec::new(),
        }
    }

    /// Sets the maximum number of response-body bytes to inspect.
    pub fn with_inspection_limit(self, inspection_limit: usize) -> (r: DefaultAntiBotDetector)
        ensures
            r == (DefaultAntiBotDetector { inspection_limit, ..self }),
    {
        DefaultAntiBotDetector { inspection_limit, custom_markers: self.custom_markers }
    }

    /// Adds a case-insensitive body marker with a custom technology label.
    pub fn with_custom_marker(self, marker: &str, label: &str) -> (r: DefaultAntiBotDetector)
        ensures
            r.inspection_limit == self.inspection_limit,
            r.custom_markers@.len() == self.custom_markers@.len() + 1,
            r.custom_markers@.drop_last() == self.custom_markers@,
            r.custom_markers@.last().0@ == unicode_lower(marker@),
            r.custom_markers@.last().1 is Custom,
            r.custom_markers@.last().1->Custom_0@ == label@,
    {
        let mut markers = self.custom_markers;
        markers.push((unicode_lowercased(marker), AntiBotTech::Custom(owned(label))));
        assert(markers@.drop_last() =~= self.custom_markers@);
        DefaultAntiBotDetector { inspection_limit: self.inspection_limit, custom_markers: markers }
    }

    /// The technology that the headers and the decoded body point to.
    pub fn classify(
        &self,
        headers: &http::HeaderMap<http::HeaderValue>,
        text: &str,
    ) -> (r: Option<AntiBotTech>)
        ensures
            r == detected(header_contents(*headers), text@, self.custom_markers@),
    {
        let body: Vec<char> = lowercased(&chars_of(text));
        let folded: Vec<char> = chars_of(unicode_lowercased(text).as_str());
        let e: Entries = header_entries(headers);
        let c: Ghost<Contents> = Ghost(header_contents(*headers));
        proof {
            lemma_mentions(c@, e@);
        }
        if seen(&e, "cf-ray", c) || seen(&e, "cf-mitigated", c) || says(
            &e,
            "server",
            "cloudflare",
            c,
        ) || says(&e, "set-cookie", "__cf_bm", c) || says(&e, "set-cookie", "cf_clearance", c)
            || has(&body, "just a moment") || has(&body, "cf-chl") || has(
            &body,
            "challenges.cloudflare.com",
        ) || has(&body, "checking your browser") {
            return Some(AntiBotTech::Cloudflare);
        }
        if seen(&e, "x-datadome", c) || seen(&e, "x-dd-b", c) || says(
            &e,
            "set-cookie",
            "datadome",
            c,
        ) || has(&body, "datadome") || has(&body, "geo.captcha-delivery.com") {
            return Some(AntiBotTech::DataDome);
        }
        if says(&e, "set-cookie", "_px", c) || says(&e, "set-cookie", "_pxhd", c) || has(
            &body,
            "px-captcha",
        ) || has(&body, "perimeterx") || has(&body, "/_px") {
            return Some(AntiBotTech::PerimeterX);
        }
        if seen(&e, "x-kpsdk-ct", c) || seen(&e, "x-kpsdk-cd", c) || has(&body, "kpsdk") || has(
            &body,
            "kasada",
        ) {
            return Some(AntiBotTech::Kasada);
        }
        if seen(&e, "x-iinfo", c) || says(&e, "set-cookie", "visid_incap", c) || says(
            &e,
            "set-cookie",
            "incap_ses",
            c,
        ) || has(&body, "incapsula") || has(&body, "_incap_") || has(&body, "incident id") {
            return Some(AntiBotTech::Imperva);
        }
        if says(&e, "set-cookie", "_abck", c) || says(&e, "set-cookie", "ak_bmsc", c)
            || prefix_seen(&e, "x-akamai", c) || has(&body, "akamai bot manager") || has(
            &body,
            "akamaighost",
        ) {
            return Some(AntiBotTech::Akamai);
        }
        let markers: &Vec<(String, AntiBotTech)> = &self.custom_markers;
        let mut i: usize = 0;
        assert(markers@.skip(0) =~= markers@);
        while i < markers.len()
            invariant
                i <= markers.len(),
                marked(folded@, markers@) == marked(folded@, markers@.skip(i as int)),
                folded@ == unicode_lower(text@),
                markers@ == self.custom_markers@,
                body@ == ascii_lower(text@),
                !cloudflare_evidence(c@, body@),
                !datadome_evidence(c@, body@),
                !perimeterx_evidence(c@, body@),
                !kasada_evidence(c@, body@),
                !imperva_evidence(c@, body@),
                !akamai_evidence(c@, body@),
                c@ == header_contents(*headers),
            decreases markers.len() - i,
        {
            assert(markers@.skip(i as int).drop_first() =~= markers@.skip(i + 1));
            if has(&folded, markers[i].0.as_str()) {
                return Some(markers[i].1.clone());
            }
            i = i + 1;
        }
        if has(&body, "captcha") && (has(&body, "access denied") || has(
            &body,
            "verify you are human",
        ) || has(&body, "are you a human")) {
            return Some(AntiBotTech::Unknown);
        }
        None
    }
}

impl Default for DefaultAntiBotDetector {
    fn default() -> (r: Self)
        ensures
            r.inspection_limit == 65536,
            r.custom_markers@.len() == 0,
    {
        DefaultAntiBotDetector::new()
    }
}

impl AntiBotDetector for DefaultAntiBotDetector {
    fn detect(&self, signals: &AntiBotSignals<'_>) -> (r: Option<AntiBotTech>)
        ensures
            r == detected(
                header_contents(*signals.headers),
                lossy_text(inspected(signals.body@, self.inspection_limit as nat)),
                self.custom_markers@,
            ),
    {
        let text: String = if signals.body.len() <= self.inspection_limit {
            decode_lossy(signals.body)
        } else {
            decode_lossy(vstd::slice::slice_subrange(signals.body, 0, self.inspection_limit))
        };
        self.classify(signals.headers, text.as_str())
    }
}

/// What lies behind the inspection limit has no part in the outcome: two bodies with the same
/// inspected beginning are judged alike.
pub proof fn only_the_inspected_part_counts(
    contents: Contents,
    markers: Seq<(String, AntiBotTech)>,
    first: Seq<u8>,
    second: Seq<u8>,
    limit: nat,
)
    requires
        inspected(first, limit) == inspected(second, limit),
    ensures
        detected(contents, lossy_text(inspected(first, limit)), markers) == detected(
            contents,
            lossy_text(inspected(second, limit)),
            markers,
        ),
{
}

/// What follows the first `limit` bytes is not inspected.
pub proof fn nothing_behind_the_limit_is_inspected(body: Seq<u8>, more: Seq<u8>, limit: nat)
    requires
        body.len() >= limit,
    ensures
        inspected(body + more, limit) == inspected(body, limit),
{
    assert(inspected(body + more, limit) =~= inspected(body, limit));
}

/// Custom markers come behind the vendors: adding one changes no verdict that names a vendor,
/// and adds no vendor's name.
pub proof fn vendors_come_before_markers(
    contents: Contents,
    text: Seq<char>,
    markers: Seq<(String, AntiBotTech)>,
)
    requires
        forall|i: int| 0 <= i < markers.len() ==> (#[trigger] markers[i]).1 is Custom,
    ensures
        detected(contents, text, markers) is Some && !(detected(contents, text, markers)->Some_0
            is Custom) && !(detected(contents, text, markers)->Some_0 is Unknown) <==> detected(
            contents,
            text,
            seq![],
        ) is Some && !(detected(contents, text, seq![])->Some_0 is Unknown),
{
    lemma_marked_is_custom(unicode_lower(text), markers);
}

/// A custom marker is found in whatever case the body has it: a body without evidence of a vendor,
/// in small letters as the marker is, counts by its marker.
pub proof fn custom_markers_ignore_case(
    contents: Contents,
    text: Seq<char>,
    marker: Seq<char>,
    entry: (String, AntiBotTech),
)
    requires
        entry.0@ == unicode_lower(marker),
        contains(unicode_lower(text), unicode_lower(marker)),
        detected(contents, text, seq![]) is None || detected(contents, text, seq![])->Some_0
            is Unknown,
    ensures
        detected(contents, text, seq![entry]) == Some(entry.1),
{
    reveal_with_fuel(marked, 2);
    assert(marked(unicode_lower(text), seq![entry]) == Some(entry.1));
}

proof fn lemma_marked_is_custom(body: Seq<char>, markers: Seq<(String, AntiBotTech)>)
    requires
        forall|i: int| 0 <= i < markers.len() ==> (#[trigger] markers[i]).1 is Custom,
    ensures
        marked(body, markers) is Some ==> marked(body, markers)->Some_0 is Custom,
    decreases markers.len(),
{
    if markers.len() > 0 {
        assert forall|i: int| 0 <= i < markers.drop_first().len() implies (
        #[trigger] markers.drop_first()[i]).1 is Custom by {
            assert(markers.drop_first()[i] == markers[i + 1]);
        }
        lemma_marked_is_custom(body, markers.drop_first());
    }
}

/// The place of a verdict in the order in which they are considered, the ordinary page last.
pub open spec fn verdict_order(verdict: Option<AntiBotTech>) -> int {
    match verdict {
        Some(AntiBotTech::Cloudflare) => 0,
        Some(AntiBotTech::DataDome) => 1,
        Some(AntiBotTech::PerimeterX) => 2,
        Some(AntiBotTech::Kasada) => 3,
        Some(AntiBotTech::Imperva) => 4,
        Some(AntiBotTech::Akamai) => 5,
        Some(AntiBotTech::Custom(_)) => 6,
        Some(AntiBotTech::Unknown) => 7,
        None => 8,
    }
}

/// Each word of a vendor in the body is enough: the verdict is that vendor, or one that is considered
/// before it, whatever the headers and the markers are.
pub proof fn each_word_in_the_body_is_enough(
    contents: Contents,
    text: Seq<char>,
    markers: Seq<(String, AntiBotTech)>,
)
    ensures
        ({
            let body = ascii_lower(text);
            let place = verdict_order(detected(contents, text, markers));
            &&& contains(body, "just a moment"@) ==> place <= 0
            &&& contains(body, "cf-chl"@) ==> place <= 0
            &&& contains(body, "challenges.cloudflare.com"@) ==> place <= 0
            &&& contains(body, "checking your browser"@) ==> place <= 0
            &&& contains(body, "datadome"@) ==> place <= 1
            &&& contains(body, "geo.captcha-delivery.com"@) ==> place <= 1
            &&& contains(body, "px-captcha"@) ==> place <= 2
            &&& contains(body, "perimeterx"@) ==> place <= 2
            &&& contains(body, "/_px"@) ==> place <= 2
            &&& contains(body, "kpsdk"@) ==> place <= 3
            &&& contains(body, "kasada"@) ==> place <= 3
            &&& contains(body, "incapsula"@) ==> place <= 4
            &&& contains(body, "_incap_"@) ==> place <= 4
            &&& contains(body, "incident id"@) ==> place <= 4
            &&& contains(body, "akamai bot manager"@) ==> place <= 5
            &&& contains(body, "akamaighost"@) ==> place <= 5
            &&& markers.len() == 0 && contains(body, "captcha"@) && (contains(body, "access denied"@)
                || contains(body, "verify you are human"@) || contains(body, "are you a human"@))
                ==> place <= 7
        }),
{
}

/// Each header of a vendor is enough, by its name alone or by a word in one of its values: the verdict
/// is that vendor, or one that is considered before it.
pub proof fn each_header_is_enough(
    contents: Contents,
    text: Seq<char>,
    markers: Seq<(String, AntiBotTech)>,
    name: Seq<char>,
    at: int,
    value: Seq<char>,
)
    requires
        contents.contains_key(name),
        0 <= at < contents[name].len(),
    ensures
        ({
            let place = verdict_order(detected(contents, text, markers));
            let shown = visible_text(contents[name][at]) == Some(value);
            let small = ascii_lower(value);
            &&& name == "cf-ray"@ ==> place <= 0
            &&& name == "cf-mitigated"@ ==> place <= 0
            &&& name == "server"@ && shown && contains(small, "cloudflare"@) ==> place <= 0
            &&& name == "set-cookie"@ && shown && contains(small, "__cf_bm"@) ==> place <= 0
            &&& name == "set-cookie"@ && shown && contains(small, "cf_clearance"@) ==> place <= 0
            &&& name == "x-datadome"@ ==> place <= 1
            &&& name == "x-dd-b"@ ==> place <= 1
            &&& name == "set-cookie"@ && shown && contains(small, "datadome"@) ==> place <= 1
            &&& name == "set-cookie"@ && shown && contains(small, "_px"@) ==> place <= 2
            &&& name == "set-cookie"@ && shown && contains(small, "_pxhd"@) ==> place <= 2
            &&& name == "x-kpsdk-ct"@ ==> place <= 3
            &&& name == "x-kpsdk-cd"@ ==> place <= 3
            &&& name == "x-iinfo"@ ==> place <= 4
            &&& name == "set-cookie"@ && shown && contains(small, "visid_incap"@) ==> place <= 4
            &&& name == "set-cookie"@ && shown && contains(small, "incap_ses"@) ==> place <= 4
            &&& name == "set-cookie"@ && shown && contains(small, "_abck"@) ==> place <= 5
            &&& name == "set-cookie"@ && shown && contains(small, "ak_bmsc"@) ==> place <= 5
            &&& occurs_at(name, "x-akamai"@, 0) ==> place <= 5
        }),
{
    assert(has_value(contents, name, at));
    if visible_text(contents[name][at]) == Some(value) {
        assert(contains(ascii_lower(value), "__cf_bm"@) ==> value_has(Some(value), "__cf_bm"@));
        assert(contains(ascii_lower(value), "_abck"@) ==> value_has(Some(value), "_abck"@));
        assert(contains(ascii_lower(value), "_px"@) ==> value_has(Some(value), "_px"@));
        assert(contains(ascii_lower(value), "_pxhd"@) ==> value_has(Some(value), "_pxhd"@));
        assert(contains(ascii_lower(value), "ak_bmsc"@) ==> value_has(Some(value), "ak_bmsc"@));
        assert(contains(ascii_lower(value), "cf_clearance"@)
            ==> value_has(Some(value), "cf_clearance"@));
        assert(contains(ascii_lower(value), "cloudflare"@)
            ==> value_has(Some(value), "cloudflare"@));
        assert(contains(ascii_lower(value), "datadome"@) ==> value_has(Some(value), "datadome"@));
        assert(contains(ascii_lower(value), "incap_ses"@) ==> value_has(Some(value), "incap_ses"@));
        assert(contains(ascii_lower(value), "visid_incap"@)
            ==> value_has(Some(value), "visid_incap"@));
    }
}

/// A response without headers is judged by its body: by the first vendor with a word in it, else by
/// the words of a challenge of unknown make.
pub proof fn bodies_without_headers_speak_for_themselves(text: Seq<char>)
    ensures
        ({
            let body = ascii_lower(text);
            let verdict = detected(Map::<Seq<char>, Seq<Seq<u8>>>::empty(), text, seq![]);
            let cloudflare = contains(body, "just a moment"@) || contains(body, "cf-chl"@)
                || contains(body, "challenges.cloudflare.com"@)
                || contains(body, "checking your browser"@);
            let datadome = contains(body, "datadome"@)
                || contains(body, "geo.captcha-delivery.com"@);
            let perimeterx = contains(body, "px-captcha"@) || contains(body, "perimeterx"@)
                || contains(body, "/_px"@);
            let kasada = contains(body, "kpsdk"@) || contains(body, "kasada"@);
            let imperva = contains(body, "incapsula"@) || contains(body, "_incap_"@)
                || contains(body, "incident id"@);
            let akamai = contains(body, "akamai bot manager"@) || contains(body, "akamaighost"@);
            let challenge = contains(body, "captcha"@) && (contains(body, "access denied"@)
                || contains(body, "verify you are human"@) || contains(body, "are you a human"@));
            &&& cloudflare ==> verdict == Some(AntiBotTech::Cloudflare)
            &&& !cloudflare && datadome ==> verdict == Some(AntiBotTech::DataDome)
            &&& !cloudflare && !datadome && perimeterx ==> verdict == Some(AntiBotTech::PerimeterX)
            &&& !cloudflare && !datadome && !perimeterx && kasada ==> verdict
                == Some(AntiBotTech::Kasada)
            &&& !cloudflare && !datadome && !perimeterx && !kasada && imperva ==> verdict
                == Some(AntiBotTech::Imperva)
            &&& !cloudflare && !datadome && !perimeterx && !kasada && !imperva && akamai
                ==> verdict == Some(AntiBotTech::Akamai)
            &&& !cloudflare && !datadome && !perimeterx && !kasada && !imperva && !akamai
                && challenge ==> verdict == Some(AntiBotTech::Unknown)
            &&& !cloudflare && !datadome && !perimeterx && !kasada && !imperva && !akamai
                && !challenge ==> verdict is None
        }),
{
    let none = Map::<Seq<char>, Seq<Seq<u8>>>::empty();
    assert(forall|name: Seq<char>, at: int| !#[trigger] has_value(none, name, at));
    assert(marked(unicode_lower(text), seq![]) is None);
}

/// No vendor is named without a sign of it, in the headers or in the body, and no challenge is seen
/// without its words.
pub proof fn no_verdict_without_a_sign(
    contents: Contents,
    text: Seq<char>,
    markers: Seq<(String, AntiBotTech)>,
)
    requires
        forall|i: int| 0 <= i < markers.len() ==> (#[trigger] markers[i]).1 is Custom,
    ensures
        ({
            let body = ascii_lower(text);
            let verdict = detected(contents, text, markers);
            &&& verdict == Some(AntiBotTech::Cloudflare) ==> header_seen(contents, "cf-ray"@)
                || header_seen(contents, "cf-mitigated"@)
                || header_says(contents, "server"@, "cloudflare"@)
                || header_says(contents, "set-cookie"@, "__cf_bm"@)
                || header_says(contents, "set-cookie"@, "cf_clearance"@)
                || contains(body, "just a moment"@) || contains(body, "cf-chl"@)
                || contains(body, "challenges.cloudflare.com"@)
                || contains(body, "checking your browser"@)
            &&& verdict == Some(AntiBotTech::DataDome) ==> header_seen(contents, "x-datadome"@)
                || header_seen(contents, "x-dd-b"@)
                || header_says(contents, "set-cookie"@, "datadome"@)
                || contains(body, "datadome"@) || contains(body, "geo.captcha-delivery.com"@)
            &&& verdict == Some(AntiBotTech::PerimeterX)
                ==> header_says(contents, "set-cookie"@, "_px"@)
                || header_says(contents, "set-cookie"@, "_pxhd"@)
                || contains(body, "px-captcha"@) || contains(body, "perimeterx"@)
                || contains(body, "/_px"@)
            &&& verdict == Some(AntiBotTech::Kasada) ==> header_seen(contents, "x-kpsdk-ct"@)
                || header_seen(contents, "x-kpsdk-cd"@) || contains(body, "kpsdk"@)
                || contains(body, "kasada"@)
            &&& verdict == Some(AntiBotTech::Imperva) ==> header_seen(contents, "x-iinfo"@)
                || header_says(contents, "set-cookie"@, "visid_incap"@)
                || header_says(contents, "set-cookie"@, "incap_ses"@)
                || contains(body, "incapsula"@) || contains(body, "_incap_"@)
                || contains(body, "incident id"@)
            &&& verdict == Some(AntiBotTech::Akamai)
                ==> header_says(contents, "set-cookie"@, "_abck"@)
                || header_says(contents, "set-cookie"@, "ak_bmsc"@)
                || header_prefix_seen(contents, "x-akamai"@)
                || contains(body, "akamai bot manager"@) || contains(body, "akamaighost"@)
            &&& verdict == Some(AntiBotTech::Unknown) ==> contains(body, "captcha"@) && (contains(
                body,
                "access denied"@,
            ) || contains(body, "verify you are human"@) || contains(body, "are you a human"@))
        }),
{
    lemma_marked_is_custom(unicode_lower(text), markers);
}

/// Of several custom markers the first that the body has in it gives the verdict where no vendor does.
pub proof fn first_markers_give_the_verdict(
    contents: Contents,
    text: Seq<char>,
    markers: Seq<(String, AntiBotTech)>,
    at: int,
)
    requires
        0 <= at < markers.len(),
        contains(unicode_lower(text), markers[at].0@),
        forall|k: int| 0 <= k < at ==> !contains(unicode_lower(text), (#[trigger] markers[k]).0@),
        verdict_order(detected(contents, text, seq![])) > 5,
    ensures
        detected(contents, text, markers) == Some(markers[at].1),
{
    lemma_first_marker(unicode_lower(text), markers, at);
    assert(marked(unicode_lower(text), seq![]) is None);
}

proof fn lemma_first_marker(body: Seq<char>, markers: Seq<(String, AntiBotTech)>, at: int)
    requires
        0 <= at < markers.len(),
        contains(body, markers[at].0@),
        forall|k: int| 0 <= k < at ==> !contains(body, (#[trigger] markers[k]).0@),
    ensures
        marked(body, markers) == Some(markers[at].1),
    decreases markers.len(),
{
    if at > 0 {
        let rest = markers.drop_first();
        assert(!contains(body, markers[0].0@));
        assert forall|k: int| 0 <= k < at - 1 implies !contains(body, (#[trigger] rest[k]).0@) by {
            assert(rest[k] == markers[k + 1]);
        }
        lemma_first_marker(body, rest, at - 1);
    }
}

/// The inspected part of a body is its beginning, as long as the limit allows.
pub proof fn inspection_starts_at_the_front(body: Seq<u8>, limit: nat, i: int)
    ensures
        inspected(body, limit).len() == if body.len() < limit {
            body.len()
        } else {
            limit
        },
        0 <= i < body.len() && i < limit ==> inspected(body, limit)[i] == body[i],
{
}

} // verus!
