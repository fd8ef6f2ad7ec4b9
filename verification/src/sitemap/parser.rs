//! From XML events to sitemap entries.

use crate::config::{is_float_text, Ratio};
use crate::http_client::{decode_lossy, lossy_text};
use crate::text::{chars_of, joined, string_of, trim, trimmed};
use crate::url::opt_view;
use vstd::prelude::*;
use vstd::utf8::encode_utf8;

verus! {

/// One URL entry parsed from a sitemap document.
#[derive(Debug, PartialEq, Eq)]
pub struct SitemapEntry {
    /// Absolute URL contained in the `loc` element.
    pub loc: String,
    /// Optional sitemap modification timestamp.
    pub lastmod: Option<String>,
    /// Optional sitemap priority.
    pub priority: Option<Ratio>,
    /// Optional sitemap change frequency.
    pub changefreq: Option<String>,
}

/// The mathematical value of an entry.
pub struct EntryView {
    pub loc: Seq<char>,
    pub lastmod: Option<Seq<char>>,
    pub priority: Option<Seq<char>>,
    pub changefreq: Option<Seq<char>>,
}

impl View for SitemapEntry {
    type V = EntryView;

    open spec fn view(&self) -> EntryView {
        EntryView {
            loc: self.loc@,
            lastmod: opt_view(self.lastmod),
            priority: crate::config::ratio_view(self.priority),
            changefreq: opt_view(self.changefreq),
        }
    }
}

/// What a sitemap document says.
#[derive(Debug)]
pub enum SitemapEvent {
    /// A page.
    Entry(SitemapEntry),
    /// Another sitemap.
    Nested(String),
}

/// The mathematical value of what a document says.
pub enum SitemapEventView {
    Entry(EntryView),
    Nested(Seq<char>),
}

impl View for SitemapEvent {
    type V = SitemapEventView;

    open spec fn view(&self) -> SitemapEventView {
        match *self {
            SitemapEvent::Entry(entry) => SitemapEventView::Entry(entry@),
            SitemapEvent::Nested(location) => SitemapEventView::Nested(location@),
        }
    }
}

/// The mathematical value of an optional event.
pub open spec fn opt_event(event: Option<SitemapEvent>) -> Option<SitemapEventView> {
    match event {
        Some(e) => Some(e@),
        None => None,
    }
}

/// Why a document could not be read to its end.
#[derive(Debug)]
pub enum SitemapParseError {
    Xml(String),
    Body(String),
}

impl SitemapParseError {
    /// A failure of the response body.
    pub fn body(message: &str) -> (r: SitemapParseError)
        ensures
            r is Body,
            r->Body_0@ == message@,
    {
        SitemapParseError::Body(crate::text::owned(message))
    }

    /// Whether the response body failed.
    pub fn is_body(&self) -> (r: bool)
        ensures
            r == (self is Body),
    {
        matches!(self, SitemapParseError::Body(_))
    }

    /// The text of the error.
    pub open spec fn message_spec(self) -> Seq<char> {
        match self {
            SitemapParseError::Xml(m) => "sitemap XML parse failed: "@ + m@,
            SitemapParseError::Body(m) => "sitemap response body failed: "@ + m@,
        }
    }

    /// The text of the error.
    pub fn message(&self) -> (r: String)
        ensures
            r@ == self.message_spec(),
    {
        match self {
            SitemapParseError::Xml(m) => joined("sitemap XML parse failed: ", m.as_str()),
            SitemapParseError::Body(m) => joined("sitemap response body failed: ", m.as_str()),
        }
    }
}

/// A piece of an XML document.
#[derive(Debug)]
pub enum XmlEvent {
    /// An opening tag with its qualified name.
    Start(Vec<u8>),
    /// A closing tag with its qualified name.
    End(Vec<u8>),
    /// Character data with its entities resolved, or nothing where one is unknown.
    Text(Option<String>),
    /// A literal section.
    CData(Vec<u8>),
    /// Anything else.
    Other,
}

/// The mathematical value of a piece of a document.
pub enum XmlView {
    Start(Seq<u8>),
    End(Seq<u8>),
    Text(Option<Seq<char>>),
    CData(Seq<u8>),
    Other,
}

impl View for XmlEvent {
    type V = XmlView;

    open spec fn view(&self) -> XmlView {
        match *self {
            XmlEvent::Start(name) => XmlView::Start(name@),
            XmlEvent::End(name) => XmlView::End(name@),
            XmlEvent::Text(text) => XmlView::Text(opt_view(text)),
            XmlEvent::CData(bytes) => XmlView::CData(bytes@),
            XmlEvent::Other => XmlView::Other,
        }
    }
}

/// A name without its namespace prefix: what follows the last colon.
pub open spec fn local_name(name: Seq<u8>) -> Seq<u8>
    decreases name.len(),
{
    if name.len() == 0 {
        name
    } else if name.last() == 58 {
        seq![]
    } else {
        local_name(name.drop_last()).push(name.last())
    }
}

/// Whether a qualified name has a local part.
pub open spec fn is_named(name: Seq<u8>, local: Seq<char>) -> bool {
    local_name(name) == encode_utf8(local)
}

/// An entry that is being read.
#[derive(Debug)]
pub struct EntryBuilder {
    pub loc: Option<String>,
    pub lastmod: Option<String>,
    pub priority: Option<String>,
    pub changefreq: Option<String>,
    pub malformed: bool,
}

/// The mathematical value of an entry that is being read.
pub struct BuilderView {
    pub loc: Option<Seq<char>>,
    pub lastmod: Option<Seq<char>>,
    pub priority: Option<Seq<char>>,
    pub changefreq: Option<Seq<char>>,
    pub malformed: bool,
}

impl View for EntryBuilder {
    type V = BuilderView;

    open spec fn view(&self) -> BuilderView {
        BuilderView {
            loc: opt_view(self.loc),
            lastmod: opt_view(self.lastmod),
            priority: opt_view(self.priority),
            changefreq: opt_view(self.changefreq),
            malformed: self.malformed,
        }
    }
}

impl BuilderView {
    /// Nothing has been read.
    pub open spec fn empty() -> BuilderView {
        BuilderView {
            loc: None,
            lastmod: None,
            priority: None,
            changefreq: None,
            malformed: false,
        }
    }

    /// The entry, unless it is malformed, has no location, or a priority that is no number.
    pub open spec fn entry(self) -> Option<EntryView> {
        if self.malformed || self.loc is None {
            None
        } else if self.priority is Some && !is_float_text(self.priority.unwrap()) {
            None
        } else {
            Some(
                EntryView {
                    loc: self.loc.unwrap(),
                    lastmod: self.lastmod,
                    priority: self.priority,
                    changefreq: self.changefreq,
                },
            )
        }
    }
}

impl EntryBuilder {
    fn empty() -> (r: EntryBuilder)
        ensures
            r@ == BuilderView::empty(),
    {
        EntryBuilder {
            loc: None,
            lastmod: None,
            priority: None,
            changefreq: None,
            malformed: false,
        }
    }

    /// The entry, if it is complete.
    pub fn into_entry(self) -> (r: Option<SitemapEntry>)
        ensures
            match r {
                Some(entry) => self@.entry() == Some(entry@),
                None => self@.entry() is None,
            },
    {
        if self.malformed {
            return None;
        }
        match self.loc {
            None => None,
            Some(loc) => {
                let priority: Option<Ratio> = match &self.priority {
                    Some(value) => match Ratio::parse(value.as_str()) {
                        Some(ratio) => Some(ratio),
                        None => {
                            return None;
                        },
                    },
                    None => None,
                };
                Some(
                    SitemapEntry {
                        loc,
                        lastmod: self.lastmod,
                        priority,
                        changefreq: self.changefreq,
                    },
                )
            },
        }
    }
}

/// A reader of sitemap documents, fed with pieces of XML.
#[derive(Debug)]
pub struct SitemapParser {
    path: Vec<Vec<u8>>,
    entry_element: Option<(usize, Vec<u8>)>,
    sitemap_element: Option<(usize, Vec<u8>)>,
    entry: Option<EntryBuilder>,
    sitemap_loc: Option<String>,
    sitemap_malformed: bool,
}

/// The mathematical value of a reader.
pub struct ParserView {
    /// The qualified names of the open elements, the outermost first.
    pub path: Seq<Seq<u8>>,
    /// The depth and the name of the element that the current entry stands in.
    pub entry_element: Option<(nat, Seq<u8>)>,
    /// The depth and the name of the element that the current nested sitemap stands in.
    pub sitemap_element: Option<(nat, Seq<u8>)>,
    pub entry: Option<BuilderView>,
    pub sitemap_loc: Option<Seq<char>>,
    pub sitemap_malformed: bool,
}

/// The views of names.
pub open spec fn name_views(path: Seq<Vec<u8>>) -> Seq<Seq<u8>> {
    Seq::new(path.len(), |i: int| path[i]@)
}

/// The view of an element's place.
pub open spec fn element_view(element: Option<(usize, Vec<u8>)>) -> Option<(nat, Seq<u8>)> {
    match element {
        Some((depth, name)) => Some((depth as nat, name@)),
        None => None,
    }
}

/// The view of an entry that is being read.
pub open spec fn builder_view(entry: Option<EntryBuilder>) -> Option<BuilderView> {
    match entry {
        Some(b) => Some(b@),
        None => None,
    }
}

impl View for SitemapParser {
    type V = ParserView;

    closed spec fn view(&self) -> ParserView {
        ParserView {
            path: name_views(self.path@),
            entry_element: element_view(self.entry_element),
            sitemap_element: element_view(self.sitemap_element),
            entry: builder_view(self.entry),
            sitemap_loc: opt_view(self.sitemap_loc),
            sitemap_malformed: self.sitemap_malformed,
        }
    }
}

/// Text behind what is there already.
pub open spec fn appended(target: Option<Seq<char>>, value: Seq<char>) -> Option<Seq<char>> {
    match target {
        Some(text) => Some(text + value),
        None => Some(value),
    }
}

/// The number of the last open element with a name.
pub open spec fn last_open(path: Seq<Seq<u8>>, name: Seq<u8>) -> Option<int>
    decreases path.len(),
{
    if path.len() == 0 {
        None
    } else if path.last() == name {
        Some(path.len() - 1)
    } else {
        last_open(path.drop_last(), name)
    }
}

/// Whether an element with a local name is open.
pub open spec fn is_inside(path: Seq<Seq<u8>>, local: Seq<char>) -> bool {
    exists|i: int| 0 <= i < path.len() && is_named(#[trigger] path[i], local)
}

impl ParserView {
    /// Nothing has been read.
    pub open spec fn initial() -> ParserView {
        ParserView {
            path: seq![],
            entry_element: None,
            sitemap_element: None,
            entry: None,
            sitemap_loc: None,
            sitemap_malformed: false,
        }
    }

    /// Whether the innermost open element has a local name.
    pub open spec fn innermost_is(self, local: Seq<char>) -> bool {
        self.path.len() > 0 && is_named(self.path.last(), local)
    }

    /// Whether the element around the innermost open one has a local name.
    pub open spec fn parent_is(self, local: Seq<char>) -> bool {
        self.path.len() > 1 && is_named(self.path[self.path.len() - 2], local)
    }

    /// The reader after an opening tag.
    pub open spec fn opened(self, name: Seq<u8>) -> ParserView {
        let deeper = ParserView { path: self.path.push(name), ..self };
        if is_named(name, "url"@) && self.innermost_is("urlset"@) {
            ParserView {
                entry: Some(BuilderView::empty()),
                entry_element: Some((self.path.len() + 1, name)),
                ..deeper
            }
        } else if is_named(name, "sitemap"@) && self.innermost_is("sitemapindex"@) {
            ParserView {
                sitemap_loc: None,
                sitemap_malformed: false,
                sitemap_element: Some((self.path.len() + 1, name)),
                ..deeper
            }
        } else {
            deeper
        }
    }

    /// The reader after a fault: the current entry, and the nested sitemap that one is inside, are
    /// malformed.
    pub open spec fn spoiled(self) -> ParserView {
        ParserView {
            entry: match self.entry {
                Some(b) => Some(BuilderView { malformed: true, ..b }),
                None => None,
            },
            sitemap_malformed: self.sitemap_malformed || is_inside(self.path, "sitemap"@),
            ..self
        }
    }

    /// The reader after character data.
    pub open spec fn with_text(self, value: Seq<char>) -> ParserView {
        if self.path.len() == 0 {
            self
        } else if self.parent_is("url"@) {
            match self.entry {
                None => self,
                Some(b) => ParserView {
                    entry: Some(
                        if self.innermost_is("loc"@) {
                            BuilderView { loc: appended(b.loc, value), ..b }
                        } else if self.innermost_is("lastmod"@) {
                            BuilderView { lastmod: appended(b.lastmod, value), ..b }
                        } else if self.innermost_is("changefreq"@) {
                            BuilderView { changefreq: appended(b.changefreq, value), ..b }
                        } else if self.innermost_is("priority"@) {
                            BuilderView { priority: appended(b.priority, value), ..b }
                        } else {
                            b
                        },
                    ),
                    ..self
                },
            }
        } else if self.innermost_is("loc"@) && self.parent_is("sitemap"@) {
            ParserView { sitemap_loc: appended(self.sitemap_loc, value), ..self }
        } else {
            self
        }
    }

    /// Whether a closing tag closes the element at a place.
    pub open spec fn closes(self, element: Option<(nat, Seq<u8>)>, name: Seq<u8>) -> bool {
        element is Some && element.unwrap().0 == self.path.len() && element.unwrap().1 == name
    }

    /// The reader after a closing tag, with what it says. A tag that does not close the innermost
    /// element is a fault.
    pub open spec fn closed(self, name: Seq<u8>) -> (ParserView, Option<SitemapEventView>) {
        let checked = if self.path.len() > 0 && self.path.last() != name {
            self.spoiled()
        } else {
            self
        };
        let (inner, event) = if self.closes(self.entry_element, name) {
            (
                ParserView { entry_element: None, entry: None, ..checked },
                match checked.entry {
                    Some(b) => match b.entry() {
                        Some(e) => Some(SitemapEventView::Entry(e)),
                        None => None,
                    },
                    None => None,
                },
            )
        } else if self.closes(self.sitemap_element, name) {
            (
                ParserView {
                    sitemap_element: None,
                    sitemap_loc: None,
                    sitemap_malformed: false,
                    ..checked
                },
                match checked.sitemap_loc {
                    Some(location) => if checked.sitemap_malformed {
                        None
                    } else {
                        Some(SitemapEventView::Nested(location))
                    },
                    None => None,
                },
            )
        } else {
            (checked, None)
        };
        (
            ParserView {
                path: match last_open(self.path, name) {
                    Some(at) => self.path.subrange(0, at),
                    None => self.path,
                },
                ..inner
            },
            event,
        )
    }

    /// The reader after a piece of XML, with what it says.
    pub open spec fn step(self, event: XmlView) -> (ParserView, Option<SitemapEventView>) {
        match event {
            XmlView::Start(name) => (self.opened(name), None),
            XmlView::End(name) => self.closed(name),
            XmlView::Text(Some(text)) => (self.with_text(trimmed(text)), None),
            XmlView::Text(None) => (self.spoiled(), None),
            XmlView::CData(bytes) => (self.with_text(trimmed(lossy_text(bytes))), None),
            XmlView::Other => (self, None),
        }
    }

    /// The reader after pieces of XML.
    pub open spec fn after(self, events: Seq<XmlView>) -> ParserView
        decreases events.len(),
    {
        if events.len() == 0 {
            self
        } else {
            self.after(events.drop_last()).step(events.last()).0
        }
    }

    /// What pieces of XML say.
    pub open spec fn said(self, events: Seq<XmlView>) -> Seq<SitemapEventView>
        decreases events.len(),
    {
        if events.len() == 0 {
            seq![]
        } else {
            let front = self.said(events.drop_last());
            match self.after(events.drop_last()).step(events.last()).1 {
                Some(event) => front.push(event),
                None => front,
            }
        }
    }
}

fn same_bytes(a: &[u8], b: &[u8]) -> (r: bool)
    ensures
        r == (a@ == b@),
{
    if a.len() != b.len() {
        return false;
    }
    let mut i: usize = 0;
    while i < a.len()
        invariant
            i <= a.len(),
            a.len() == b.len(),
            forall|k: int| 0 <= k < i ==> a@[k] == b@[k],
        decreases a.len() - i,
    {
        if a[i] != b[i] {
            return false;
        }
        i = i + 1;
    }
    assert(a@ =~= b@);
    true
}

/// Whether a qualified name has a local part.
pub fn has_local_name(name: &Vec<u8>, local: &str) -> (r: bool)
    ensures
        r == is_named(name@, local@),
{
    let mut start: usize = name.len();
    assert(name@.subrange(0, name@.len() as int) =~= name@);
    assert(name@.skip(name@.len() as int) =~= seq![]);
    assert(local_name(name@) =~= local_name(name@.subrange(0, start as int)) + name@.skip(
        start as int,
    ));
    while start > 0 && name[start - 1] != 58
        invariant
            start <= name.len(),
            local_name(name@) == local_name(name@.subrange(0, start as int)) + name@.skip(
                start as int,
            ),
        decreases start,
    {
        let ghost front = name@.subrange(0, start as int);
        assert(front.drop_last() =~= name@.subrange(0, start - 1));
        assert(local_name(front.drop_last()).push(front.last()) + name@.skip(start as int)
            =~= local_name(name@.subrange(0, start - 1)) + name@.skip(start - 1));
        start = start - 1;
    }
    assert(local_name(name@.subrange(0, start as int)) =~= seq![]);
    assert(local_name(name@) =~= name@.skip(start as int));
    let part: &[u8] = vstd::slice::slice_subrange(name.as_slice(), start, name.len());
    assert(part@ =~= name@.skip(start as int));
    same_bytes(part, local.as_bytes())
}

fn append_text(target: Option<String>, value: &str) -> (r: Option<String>)
    ensures
        opt_view(r) == appended(opt_view(target), value@),
{
    match target {
        Some(text) => {
            let mut text: String = text;
            text.append(value);
            Some(text)
        },
        None => Some(crate::text::owned(value)),
    }
}

fn clone_bytes(bytes: &Vec<u8>) -> (r: Vec<u8>)
    ensures
        r@ == bytes@,
{
    let mut out: Vec<u8> = Vec::new();
    let mut i: usize = 0;
    while i < bytes.len()
        invariant
            i <= bytes.len(),
            out@ == bytes@.subrange(0, i as int),
        decreases bytes.len() - i,
    {
        out.push(bytes[i]);
        i = i + 1;
        assert(bytes@.subrange(0, i as int) =~= bytes@.subrange(0, i - 1).push(bytes@[i - 1]));
    }
    assert(bytes@.subrange(0, bytes@.len() as int) =~= bytes@);
    out
}

impl SitemapParser {
    /// A reader at the beginning of a document.
    pub fn new() -> (r: SitemapParser)
        ensures
            r@ == ParserView::initial(),
    {
        let r = SitemapParser {
            path: Vec::new(),
            entry_element: None,
            sitemap_element: None,
            entry: None,
            sitemap_loc: None,
            sitemap_malformed: false,
        };
        assert(r@.path =~= seq![]);
        r
    }

    fn innermost(&self, local: &str) -> (r: bool)
        ensures
            r == self@.innermost_is(local@),
    {
        let n: usize = self.path.len();
        n > 0 && has_local_name(&self.path[n - 1], local)
    }

    fn parent(&self, local: &str) -> (r: bool)
        ensures
            r == self@.parent_is(local@),
    {
        let n: usize = self.path.len();
        n > 1 && has_local_name(&self.path[n - 2], local)
    }

    fn inside(&self, local: &str) -> (r: bool)
        ensures
            r == is_inside(self@.path, local@),
    {
        let mut i: usize = 0;
        while i < self.path.len()
            invariant
                i <= self.path.len(),
                forall|k: int| 0 <= k < i ==> !is_named(#[trigger] self@.path[k], local@),
            decreases self.path.len() - i,
        {
            assert(self@.path[i as int] == self.path@[i as int]@);
            if has_local_name(&self.path[i], local) {
                return true;
            }
            i = i + 1;
        }
        false
    }

    fn spoil(&mut self)
        ensures
            final(self)@ == old(self)@.spoiled(),
    {
        if self.inside("sitemap") {
            self.sitemap_malformed = true;
        }
        let mut entry: Option<EntryBuilder> = None;
        std::mem::swap(&mut self.entry, &mut entry);
        self.entry = match entry {
            Some(b) => {
                let mut b: EntryBuilder = b;
                b.malformed = true;
                Some(b)
            },
            None => None,
        };
    }

    fn assign_text(&mut self, value: &str)
        ensures
            final(self)@ == old(self)@.with_text(value@),
    {
        if self.path.len() == 0 {
            return;
        }
        if self.parent("url") {
            let loc: bool = self.innermost("loc");
            let lastmod: bool = self.innermost("lastmod");
            let changefreq: bool = self.innermost("changefreq");
            let priority: bool = self.innermost("priority");
            let mut entry: Option<EntryBuilder> = None;
            std::mem::swap(&mut self.entry, &mut entry);
            self.entry = match entry {
                None => None,
                Some(b) => {
                    let mut b: EntryBuilder = b;
                    if loc {
                        b.loc = append_text(b.loc, value);
                    } else if lastmod {
                        b.lastmod = append_text(b.lastmod, value);
                    } else if changefreq {
                        b.changefreq = append_text(b.changefreq, value);
                    } else if priority {
                        b.priority = append_text(b.priority, value);
                    }
                    Some(b)
                },
            };
        } else if self.innermost("loc") && self.parent("sitemap") {
            let mut location: Option<String> = None;
            std::mem::swap(&mut self.sitemap_loc, &mut location);
            self.sitemap_loc = append_text(location, value);
        }
    }

    fn open(&mut self, name: Vec<u8>)
        requires
            old(self)@.path.len() < usize::MAX,
        ensures
            final(self)@ == old(self)@.opened(name@),
    {
        let depth: usize = self.path.len() + 1;
        if has_local_name(&name, "url") && self.innermost("urlset") {
            self.entry = Some(EntryBuilder::empty());
            self.entry_element = Some((depth, clone_bytes(&name)));
        } else if has_local_name(&name, "sitemap") && self.innermost("sitemapindex") {
            self.sitemap_loc = None;
            self.sitemap_malformed = false;
            self.sitemap_element = Some((depth, clone_bytes(&name)));
        }
        let ghost before = name_views(self.path@);
        self.path.push(name);
        assert(name_views(self.path@) =~= before.push(name@));
    }

    fn closes(&self, element: &Option<(usize, Vec<u8>)>, name: &Vec<u8>) -> (r: bool)
        ensures
            r == self@.closes(element_view(*element), name@),
    {
        match element {
            Some((depth, open)) => *depth == self.path.len() && same_bytes(
                open.as_slice(),
                name.as_slice(),
            ),
            None => false,
        }
    }

    fn close(&mut self, name: &Vec<u8>) -> (r: Option<SitemapEvent>)
        ensures
            final(self)@ == old(self)@.closed(name@).0,
            opt_event(r) == old(self)@.closed(name@).1,
    {
        let n: usize = self.path.len();
        let closes_entry: bool = self.closes(&self.entry_element, name);
        let closes_sitemap: bool = self.closes(&self.sitemap_element, name);
        if n > 0 && !same_bytes(self.path[n - 1].as_slice(), name.as_slice()) {
            self.spoil();
        }
        let mut event: Option<SitemapEvent> = None;
        if closes_entry {
            self.entry_element = None;
            let mut entry: Option<EntryBuilder> = None;
            std::mem::swap(&mut self.entry, &mut entry);
            if let Some(b) = entry {
                if let Some(e) = b.into_entry() {
                    event = Some(SitemapEvent::Entry(e));
                }
            }
        } else if closes_sitemap {
            self.sitemap_element = None;
            let mut location: Option<String> = None;
            std::mem::swap(&mut self.sitemap_loc, &mut location);
            if !self.sitemap_malformed {
                if let Some(l) = location {
                    event = Some(SitemapEvent::Nested(l));
                }
            }
            self.sitemap_malformed = false;
        }
        self.leave(name);
        event
    }

    fn leave(&mut self, name: &Vec<u8>)
        ensures
            final(self)@ == (ParserView {
                path: match last_open(old(self)@.path, name@) {
                    Some(at) => old(self)@.path.subrange(0, at),
                    None => old(self)@.path,
                },
                ..old(self)@
            }),
    {
        let ghost all = self@.path;
        let mut at: usize = self.path.len();
        assert(all.subrange(0, all.len() as int) =~= all);
        while at > 0
            invariant
                at <= self.path.len(),
                *self == *old(self),
                all == self@.path,
                last_open(all, name@) == last_open(all.subrange(0, at as int), name@),
            decreases at,
        {
            assert(all.subrange(0, at as int).drop_last() =~= all.subrange(0, at - 1));
            assert(all[at - 1] == self.path@[at - 1]@);
            if same_bytes(self.path[at - 1].as_slice(), name.as_slice()) {
                let keep: usize = at - 1;
                while self.path.len() > keep
                    invariant
                        keep <= self.path.len() <= all.len(),
                        self@ == (ParserView { path: self@.path, ..old(self)@ }),
                        self@.path == all.subrange(0, self.path.len() as int),
                    decreases self.path.len(),
                {
                    let ghost before = self.path@;
                    let _ = self.path.pop();
                    assert(self.path@ =~= before.drop_last());
                    assert(name_views(self.path@) =~= name_views(before).drop_last());
                    assert(self@.path =~= all.subrange(0, self.path.len() as int));
                }
                return;
            }
            at = at - 1;
        }
    }

    /// Takes a piece of XML, and hands out what it says.
    pub fn feed(&mut self, event: XmlEvent) -> (r: Option<SitemapEvent>)
        requires
            old(self)@.path.len() < usize::MAX,
        ensures
            final(self)@ == old(self)@.step(event@).0,
            opt_event(r) == old(self)@.step(event@).1,
    {
        match event {
            XmlEvent::Start(name) => {
                self.open(name);
                None
            },
            XmlEvent::End(name) => self.close(&name),
            XmlEvent::Text(Some(text)) => {
                let value: String = string_of(&trim(&chars_of(text.as_str())));
                self.assign_text(value.as_str());
                None
            },
            XmlEvent::Text(None) => {
                self.spoil();
                None
            },
            XmlEvent::CData(bytes) => {
                let text: String = decode_lossy(bytes.as_slice());
                let value: String = string_of(&trim(&chars_of(text.as_str())));
                self.assign_text(value.as_str());
                None
            },
            XmlEvent::Other => None,
        }
    }
}

/// The local part of a name is what stands behind its last colon, the whole name where it has none.
pub proof fn what_the_local_part_is(prefix: Seq<u8>, local: Seq<u8>)
    requires
        forall|i: int| 0 <= i < local.len() ==> #[trigger] local[i] != 58,
    ensures
        local_name(local) == local,
        local_name(prefix.push(58) + local) == local,
    decreases local.len(),
{
    let name = prefix.push(58) + local;
    if local.len() > 0 {
        let less = local.drop_last();
        what_the_local_part_is(prefix, less);
        assert(local[local.len() - 1] != 58);
        assert(name.last() == local.last());
        assert(name.drop_last() =~= prefix.push(58) + less);
        assert(less.push(local.last()) =~= local);
    } else {
        assert(name.last() == 58);
        assert(local_name(name) =~= local);
        assert(local_name(local) =~= local);
    }
}

/// An entry comes of what was read between its tags where it has an address, where nothing in it was
/// malformed, and where its priority, if it has one, is a number; then it says all that was read.
pub proof fn when_an_entry_comes(builder: BuilderView)
    ensures
        builder.malformed ==> builder.entry() is None,
        builder.loc is None ==> builder.entry() is None,
        builder.priority is Some && !is_float_text(builder.priority.unwrap()) ==> builder.entry()
            is None,
        !builder.malformed && builder.loc is Some && (builder.priority is None || is_float_text(
            builder.priority.unwrap(),
        )) ==> builder.entry() is Some && builder.entry().unwrap().loc == builder.loc.unwrap()
            && builder.entry().unwrap().lastmod == builder.lastmod
            && builder.entry().unwrap().priority == builder.priority
            && builder.entry().unwrap().changefreq == builder.changefreq,
{
}

/// Text goes to the field that the innermost element names, where the element around it is an entry's,
/// behind what the field holds already; in an index to the address of the sitemap; and nowhere else.
pub proof fn where_text_goes(parser: ParserView, value: Seq<char>)
    ensures
        ({
            let after = parser.with_text(value);
            let named = |local: Seq<char>| parser.innermost_is(local);
            &&& after.path == parser.path
            &&& after.entry_element == parser.entry_element
            &&& after.sitemap_element == parser.sitemap_element
            &&& parser.path.len() == 0 ==> after == parser
            &&& parser.path.len() > 0 && parser.parent_is("url"@) && parser.entry is Some ==> {
                let (old_entry, new_entry) = (parser.entry.unwrap(), after.entry.unwrap());
                &&& after.entry is Some
                &&& named("loc"@) && old_entry.loc is None ==> new_entry.loc == Some(value)
                &&& named("loc"@) && old_entry.loc is Some ==> new_entry.loc == Some(
                    old_entry.loc.unwrap() + value,
                )
                &&& !named("loc"@) ==> new_entry.loc == old_entry.loc
                &&& !named("loc"@) && named("lastmod"@) && old_entry.lastmod is None
                    ==> new_entry.lastmod == Some(value)
                &&& !named("loc"@) && named("lastmod"@) && old_entry.lastmod is Some
                    ==> new_entry.lastmod == Some(old_entry.lastmod.unwrap() + value)
                &&& !named("lastmod"@) ==> new_entry.lastmod == old_entry.lastmod
                &&& !named("loc"@) && !named("lastmod"@) && named("changefreq"@)
                    && old_entry.changefreq is None ==> new_entry.changefreq == Some(value)
                &&& !named("loc"@) && !named("lastmod"@) && named("changefreq"@)
                    && old_entry.changefreq is Some ==> new_entry.changefreq == Some(
                    old_entry.changefreq.unwrap() + value,
                )
                &&& !named("changefreq"@) ==> new_entry.changefreq == old_entry.changefreq
                &&& !named("loc"@) && !named("lastmod"@) && !named("changefreq"@) && named(
                    "priority"@,
                ) && old_entry.priority is None ==> new_entry.priority == Some(value)
                &&& !named("loc"@) && !named("lastmod"@) && !named("changefreq"@) && named(
                    "priority"@,
                ) && old_entry.priority is Some ==> new_entry.priority == Some(
                    old_entry.priority.unwrap() + value,
                )
                &&& !named("priority"@) ==> new_entry.priority == old_entry.priority
                &&& new_entry.malformed == old_entry.malformed
                &&& after.sitemap_loc == parser.sitemap_loc
            }
            &&& parser.path.len() > 0 && !parser.parent_is("url"@) ==> {
                &&& after.entry == parser.entry
                &&& named("loc"@) && parser.parent_is("sitemap"@) && parser.sitemap_loc is None
                    ==> after.sitemap_loc == Some(value)
                &&& named("loc"@) && parser.parent_is("sitemap"@) && parser.sitemap_loc is Some
                    ==> after.sitemap_loc == Some(parser.sitemap_loc.unwrap() + value)
                &&& !named("loc"@) || !parser.parent_is("sitemap"@) ==> after == parser
            }
        }),
{
}

/// An entry opens within a set of URLs only, and a sitemap within an index only; either begins without
/// anything read. Any other element is only entered.
pub proof fn what_an_element_opens(parser: ParserView, name: Seq<u8>)
    ensures
        ({
            let after = parser.opened(name);
            let entry = is_named(name, "url"@) && parser.innermost_is("urlset"@);
            let sitemap = !entry && is_named(name, "sitemap"@) && parser.innermost_is(
                "sitemapindex"@,
            );
            &&& after.path == parser.path.push(name)
            &&& entry ==> {
                &&& after.entry is Some
                &&& after.entry.unwrap().loc is None && after.entry.unwrap().lastmod is None
                    && after.entry.unwrap().priority is None && after.entry.unwrap().changefreq
                    is None && !after.entry.unwrap().malformed
                &&& after.entry_element == Some((parser.path.len() + 1, name))
                &&& after.sitemap_loc == parser.sitemap_loc && after.sitemap_element
                    == parser.sitemap_element
            }
            &&& sitemap ==> {
                &&& after.sitemap_loc is None
                &&& !after.sitemap_malformed
                &&& after.sitemap_element == Some((parser.path.len() + 1, name))
                &&& after.entry == parser.entry && after.entry_element == parser.entry_element
            }
            &&& !entry && !sitemap ==> after.entry == parser.entry && after.sitemap_loc
                == parser.sitemap_loc && after.entry_element == parser.entry_element
                && after.sitemap_element == parser.sitemap_element && after.sitemap_malformed
                == parser.sitemap_malformed
        }),
{
}

/// A tag that closes what is innermost leaves it; one that closes something further out leaves all in
/// between too; one that closes nothing that is open leaves nothing. Only the tag that closes the entry
/// or the sitemap which is being read, at its own depth, gives it out.
pub proof fn what_a_closing_tag_does(parser: ParserView, name: Seq<u8>, at: int)
    requires
        -1 <= at < parser.path.len(),
        forall|k: int| at < k < parser.path.len() ==> #[trigger] parser.path[k] != name,
        at >= 0 ==> parser.path[at] == name,
    ensures
        ({
            let (after, event) = parser.closed(name);
            let matched = parser.path.len() == 0 || parser.path.last() == name;
            let of_entry = parser.entry_element == Some((parser.path.len(), name));
            let of_sitemap = !of_entry && parser.sitemap_element == Some((parser.path.len(), name));
            &&& at >= 0 ==> after.path == parser.path.subrange(0, at)
            &&& at < 0 ==> after.path == parser.path
            &&& !of_entry && !of_sitemap ==> event is None
            &&& of_entry && matched && parser.entry is Some ==> {
                &&& parser.entry.unwrap().entry() is Some ==> event == Some(
                    SitemapEventView::Entry(parser.entry.unwrap().entry().unwrap()),
                )
                &&& parser.entry.unwrap().entry() is None ==> event is None
            }
            &&& of_entry ==> after.entry is None && after.entry_element is None
            &&& of_entry && !matched ==> event is None
            &&& of_sitemap && matched && !parser.sitemap_malformed && parser.sitemap_loc is Some
                ==> event == Some(SitemapEventView::Nested(parser.sitemap_loc.unwrap()))
            &&& of_sitemap && (parser.sitemap_malformed || parser.sitemap_loc is None) ==> event
                is None
            &&& of_sitemap ==> after.sitemap_loc is None && after.sitemap_element is None
                && !after.sitemap_malformed
        }),
{
    lemma_last_open_is(parser.path, name, at);
}

proof fn lemma_last_open_is(path: Seq<Seq<u8>>, name: Seq<u8>, at: int)
    requires
        -1 <= at < path.len(),
        forall|k: int| at < k < path.len() ==> #[trigger] path[k] != name,
        at >= 0 ==> path[at] == name,
    ensures
        last_open(path, name) == if at >= 0 {
            Some(at)
        } else {
            None::<int>
        },
    decreases path.len(),
{
    if path.len() > 0 && at < path.len() - 1 {
        let front = path.drop_last();
        assert(path[path.len() - 1] != name);
        assert forall|k: int| at < k < front.len() implies #[trigger] front[k] != name by {
            assert(front[k] == path[k]);
        }
        lemma_last_open_is(front, name, at);
    }
}

/// What spoils an entry or a sitemap is text in it that cannot be read; a spoiled one is never given
/// out, and one that is not being read is not spoiled.
pub proof fn what_is_spoiled(parser: ParserView)
    ensures
        parser.spoiled().path == parser.path,
        parser.entry is Some ==> parser.spoiled().entry is Some
            && parser.spoiled().entry.unwrap().malformed && parser.spoiled().entry.unwrap().entry()
            is None,
        parser.entry is None ==> parser.spoiled().entry is None,
        parser.sitemap_malformed ==> parser.spoiled().sitemap_malformed,
        !parser.sitemap_malformed ==> (parser.spoiled().sitemap_malformed <==> exists|i: int|
            0 <= i < parser.path.len() && is_named(#[trigger] parser.path[i], "sitemap"@)),
        parser.step(XmlView::Text(None)).0 == parser.spoiled(),
        parser.step(XmlView::Text(None)).1 is None,
{
}

/// Text counts without the white space around it, and marked sections count as text.
pub proof fn text_is_trimmed(parser: ParserView, text: Seq<char>, bytes: Seq<u8>)
    ensures
        parser.step(XmlView::Text(Some(text))) == (
            parser.with_text(trimmed(text)),
            None::<SitemapEventView>,
        ),
        parser.step(XmlView::CData(bytes)) == (
            parser.with_text(trimmed(lossy_text(bytes))),
            None::<SitemapEventView>,
        ),
        parser.step(XmlView::Other) == (parser, None::<SitemapEventView>),
{
}

/// A parser that reads on says what it would have said before, and then what it says to the rest.
pub proof fn parsers_read_on(parser: ParserView, first: Seq<XmlView>, second: Seq<XmlView>)
    ensures
        parser.after(first + second) == parser.after(first).after(second),
        parser.said(first + second) == parser.said(first) + parser.after(first).said(second),
    decreases second.len(),
{
    let all = first + second;
    if second.len() > 0 {
        parsers_read_on(parser, first, second.drop_last());
        assert(all.last() == second.last());
        assert(all.drop_last() =~= first + second.drop_last());
        assert(parser.said(all) =~= parser.said(first) + parser.after(first).said(second));
    } else {
        assert(all =~= first);
        assert(parser.said(first) + parser.after(first).said(second) =~= parser.said(first));
    }
}

/// An address between its tags within an entry within a set of URLs is given out as an entry with that
/// address, and one within a sitemap within an index as a further sitemap; and the parser stands again
/// where it stood.
pub proof fn addresses_are_given_out(
    parser: ParserView,
    outer: Seq<u8>,
    inner: Seq<u8>,
    text: Seq<char>,
)
    requires
        outer != inner,
        is_named(inner, "loc"@),
        !is_named(outer, "loc"@),
    ensures
        ({
            let pieces = seq![
                XmlView::Start(outer),
                XmlView::Start(inner),
                XmlView::Text(Some(text)),
                XmlView::End(inner),
                XmlView::End(outer),
            ];
            &&& parser.innermost_is("urlset"@) && is_named(outer, "url"@) && !is_named(
                inner,
                "url"@,
            ) && !is_named(inner, "sitemap"@) && parser.sitemap_element is None ==> {
                &&& parser.said(pieces) == seq![
                    SitemapEventView::Entry(
                        EntryView {
                            loc: trimmed(text),
                            lastmod: None,
                            priority: None,
                            changefreq: None,
                        },
                    ),
                ]
                &&& parser.after(pieces).path == parser.path
            }
            &&& parser.innermost_is("sitemapindex"@) && !parser.innermost_is("urlset"@) && is_named(
                outer,
                "sitemap"@,
            ) && !is_named(outer, "url"@) && !is_named(inner, "sitemap"@) && !is_named(inner, "url"@)
                && parser.entry_element is None ==> {
                &&& parser.said(pieces) == seq![SitemapEventView::Nested(trimmed(text))]
                &&& parser.after(pieces).path == parser.path
            }
        }),
{
    let value = trimmed(text);
    let pieces = seq![
        XmlView::Start(outer),
        XmlView::Start(inner),
        XmlView::Text(Some(text)),
        XmlView::End(inner),
        XmlView::End(outer),
    ];
    let p1 = parser.opened(outer);
    let p2 = p1.opened(inner);
    let p3 = p2.with_text(value);
    let (p4, e4) = p3.closed(inner);
    let (p5, e5) = p4.closed(outer);
    let deep = parser.path.push(outer).push(inner);
    assert(p2.path == deep);
    assert(p3.path == deep);
    assert(deep.last() == inner);
    assert(deep[deep.len() - 2] == outer);
    lemma_last_open_is(deep, inner, deep.len() - 1);
    assert(deep.subrange(0, deep.len() - 1) =~= parser.path.push(outer));
    let mid = parser.path.push(outer);
    lemma_last_open_is(mid, outer, mid.len() - 1);
    assert(mid.subrange(0, mid.len() - 1) =~= parser.path);
    assert(p4.path == mid);
    assert(p5.path == parser.path);
    let a0 = seq![XmlView::Start(outer)];
    let a1 = a0.push(XmlView::Start(inner));
    let a2 = a1.push(XmlView::Text(Some(text)));
    let a3 = a2.push(XmlView::End(inner));
    assert(pieces =~= a3.push(XmlView::End(outer)));
    assert(pieces.drop_last() =~= a3);
    assert(a3.drop_last() =~= a2);
    assert(a2.drop_last() =~= a1);
    assert(a1.drop_last() =~= a0);
    assert(a0.drop_last() =~= Seq::<XmlView>::empty());
    assert(parser.after(Seq::<XmlView>::empty()) == parser);
    assert(parser.after(a0) == p1);
    assert(parser.after(a1) == p2);
    assert(parser.after(a2) == p3);
    assert(parser.after(a3) == p4);
    assert(parser.after(pieces) == p5);
    assert(parser.said(Seq::<XmlView>::empty()).len() == 0);
    assert(parser.said(a0).len() == 0);
    assert(parser.said(a1).len() == 0);
    assert(parser.said(a2).len() == 0);
    if parser.innermost_is("urlset"@) && is_named(outer, "url"@) && !is_named(inner, "url"@)
        && !is_named(inner, "sitemap"@) && parser.sitemap_element is None {
        assert(p3.entry is Some && p3.entry.unwrap().loc == Some(value));
        assert(e4 is None);
        assert(parser.said(a3).len() == 0);
        assert(e5 is Some);
        assert(parser.said(pieces) =~= seq![e5.unwrap()]);
    }
    if parser.innermost_is("sitemapindex"@) && !parser.innermost_is("urlset"@) && is_named(
        outer,
        "sitemap"@,
    ) && !is_named(outer, "url"@) && !is_named(inner, "sitemap"@) && !is_named(inner, "url"@)
        && parser.entry_element is None {
        assert(p3.sitemap_loc == Some(value));
        assert(e4 is None);
        assert(parser.said(a3).len() == 0);
        assert(e5 is Some);
        assert(parser.said(pieces) =~= seq![e5.unwrap()]);
    }
}

/// What each failure to read a sitemap says.
pub proof fn parse_errors_in_words(text: String)
    ensures
        SitemapParseError::Xml(text).message_spec() == "sitemap XML parse failed: "@ + text@,
        SitemapParseError::Body(text).message_spec() == "sitemap response body failed: "@ + text@,
{
}

} // verus!
