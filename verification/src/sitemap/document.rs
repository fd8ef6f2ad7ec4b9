//! Whole sitemap documents.

use crate::sitemap::document::XmlFaultKind::{BangMarkup, Instruction, Unclosed};
use crate::sitemap::parser::{
    ParserView, SitemapEvent, SitemapEventView, SitemapParseError, SitemapParser, XmlEvent,
    XmlView,
};
use crate::text::{chars_of, found_at, joined, occurs_at};
use crate::url::opt_view;
use quick_xml::errors::Error::Syntax;
use quick_xml::errors::SyntaxError::{InvalidBangMarkup, UnclosedPIOrXmlDecl};
use quick_xml::events::Event::{CData, End, Eof, Start, Text};
use quick_xml::Reader;
use std::io::Read;
use vstd::prelude::*;

verus! {

/// The bytes that a sequence of gzip members holds, if it can be read to its end.
pub uninterp spec fn gunzipped(bytes: Seq<u8>) -> Option<Seq<u8>>;

/// The pieces of an XML document, as far as it can be read, and the fault where it cannot be read to
/// its end.
pub uninterp spec fn xml_pieces(bytes: Seq<u8>, trim_text: bool, check_end_names: bool) -> (
    Seq<XmlView>,
    Option<FaultView>,
);

/// What is wrong with an XML document.
#[derive(Clone, Copy, Debug, PartialEq, Eq, Structural)]
pub enum XmlFaultKind {
    /// Markup that begins with an exclamation mark is of no known kind, or ends there.
    BangMarkup,
    /// A processing instruction or declaration is not closed.
    Instruction,
    /// A tag, a comment or a section is not closed.
    Unclosed,
    /// Anything else.
    Other,
}

/// A fault of an XML document.
#[derive(Debug)]
pub struct XmlFault {
    pub message: String,
    pub kind: XmlFaultKind,
    /// How many bytes of the document were not read.
    pub rest: usize,
}

/// The mathematical value of a fault.
pub struct FaultView {
    pub message: Seq<char>,
    pub kind: XmlFaultKind,
    pub rest: nat,
}

impl View for XmlFault {
    type V = FaultView;

    open spec fn view(&self) -> FaultView {
        FaultView { message: self.message@, kind: self.kind, rest: self.rest as nat }
    }
}

/// The mathematical value of an optional fault.
pub open spec fn fault_view(fault: Option<XmlFault>) -> Option<FaultView> {
    match fault {
        Some(fault) => Some(fault@),
        None => None,
    }
}

/// The views of pieces of XML.
pub open spec fn piece_views(pieces: Seq<XmlEvent>) -> Seq<XmlView> {
    Seq::new(pieces.len(), |i: int| pieces[i]@)
}

/// The views of what a document says.
pub open spec fn event_views(events: Seq<SitemapEvent>) -> Seq<SitemapEventView> {
    Seq::new(events.len(), |i: int| events[i]@)
}

/// `flate2::read::MultiGzDecoder`: the decompressed bytes. Of a stream that cannot be read to its
/// end there is an error; how much of it comes before the error, and the error's text, are open.
#[verifier::external_body]
fn gunzip(bytes: &[u8]) -> (r: (Vec<u8>, Option<String>))
    ensures
        r.1 is None <==> gunzipped(bytes@) is Some,
        r.1 is None ==> gunzipped(bytes@) == Some(r.0@),
{
    let mut out = Vec::new();
    let outcome = flate2::read::MultiGzDecoder::new(bytes).read_to_end(&mut out);
    (out, outcome.err().map(|e| e.to_string()))
}

/// The outside type `quick_xml::Reader`.
#[verifier::external_type_specification]
#[verifier::external_body]
#[verifier::reject_recursive_types(R)]
pub struct ExReader<R>(quick_xml::Reader<R>);

/// The pieces that a reader has ahead of it, and the fault that follows them, if one does.
pub uninterp spec fn ahead(reader: quick_xml::Reader<&[u8]>) -> (Seq<XmlView>, Option<FaultView>);

/// `quick_xml::Reader::from_reader`: a reader of a whole document. What it has ahead is a function
/// of the document and the two settings.
#[verifier::external_body]
fn open_xml(bytes: &[u8], trim_text: bool, check_end_names: bool) -> (r: quick_xml::Reader<&[u8]>)
    ensures
        ahead(r) == xml_pieces(bytes@, trim_text, check_end_names),
{
    let mut xml = Reader::from_reader(bytes);
    xml.config_mut().trim_text(trim_text);
    xml.config_mut().check_end_names = check_end_names;
    xml
}

/// Whether a reader with `before` ahead of it gives `r` and then has `after` ahead.
pub open spec fn gives(
    before: (Seq<XmlView>, Option<FaultView>),
    r: Result<Option<XmlEvent>, XmlFault>,
    after: (Seq<XmlView>, Option<FaultView>),
) -> bool {
    match r {
        Ok(Some(piece)) => {
            &&& before.0.len() > 0
            &&& piece@ == before.0[0]
            &&& after == (before.0.drop_first(), before.1)
        },
        Ok(None) => before.0.len() == 0 && before.1 is None,
        Err(fault) => before.0.len() == 0 && before.1 == Some(fault@),
    }
}

/// `quick_xml::Reader::read_event`: the next piece, with the entities of a text resolved by
/// `BytesText::unescape`; nothing at the end of the document; a fault with its text, its kind and
/// the number of bytes that the reader has left.
#[verifier::external_body]
fn next_piece(xml: &mut quick_xml::Reader<&[u8]>) -> (r: Result<Option<XmlEvent>, XmlFault>)
    ensures
        gives(ahead(*old(xml)), r, ahead(*final(xml))),
{
    Ok(Some(match xml.read_event() {
        Ok(Start(s)) => XmlEvent::Start(s.name().0.into()),
        Ok(End(e)) => XmlEvent::End(e.name().0.into()),
        Ok(Text(t)) => XmlEvent::Text(t.unescape().ok().map(Into::into)),
        Ok(CData(c)) => XmlEvent::CData(c.to_vec()),
        Ok(Eof) => return Ok(None),
        Ok(_) => XmlEvent::Other,
        Err(e) => return Err(XmlFault { message: e.to_string(), rest: xml.get_ref().len(), kind: match e {
            Syntax(InvalidBangMarkup) => BangMarkup,
            Syntax(UnclosedPIOrXmlDecl) => Instruction,
            Syntax(_) => Unclosed,
            _ => XmlFaultKind::Other,
        } }),
    }))
}

fn read_xml(bytes: &[u8], trim_text: bool, check_end_names: bool) -> (r: (
    Vec<XmlEvent>,
    Option<XmlFault>,
))
    ensures
        (piece_views(r.0@), fault_view(r.1)) == xml_pieces(bytes@, trim_text, check_end_names),
{
    let mut xml: quick_xml::Reader<&[u8]> = open_xml(bytes, trim_text, check_end_names);
    let ghost all = xml_pieces(bytes@, trim_text, check_end_names);
    let mut out: Vec<XmlEvent> = Vec::new();
    assert(piece_views(out@) + ahead(xml).0 =~= all.0);
    loop
        invariant
            piece_views(out@) + ahead(xml).0 == all.0,
            ahead(xml).1 == all.1,
            all == xml_pieces(bytes@, trim_text, check_end_names),
        decreases ahead(xml).0.len(),
    {
        let ghost before = ahead(xml).0;
        let ghost read = piece_views(out@);
        match next_piece(&mut xml) {
            Ok(Some(piece)) => {
                out.push(piece);
                assert(piece_views(out@) =~= read.push(before[0]));
                assert(piece_views(out@) + ahead(xml).0 =~= all.0);
            },
            Ok(None) => {
                assert(piece_views(out@) =~= all.0);
                return (out, None);
            },
            Err(fault) => {
                assert(piece_views(out@) =~= all.0);
                return (out, Some(fault));
            },
        }
    }
}

/// Whether a document is compressed: by the name of its URL's path or by its first two bytes.
pub open spec fn is_gzip_spec(path: Seq<char>, prefix: Seq<u8>) -> bool {
    occurs_at(path, ".gz"@, path.len() - 3) || prefix == seq![0x1fu8, 0x8bu8]
}

/// Whether a document is compressed.
pub fn is_gzip(path: &str, prefix: &Vec<u8>) -> (r: bool)
    ensures
        r == is_gzip_spec(path@, prefix@),
{
    let text: Vec<char> = chars_of(path);
    let suffix: Vec<char> = chars_of(".gz");
    proof {
        reveal_strlit(".gz");
    }
    if text.len() >= 3 && found_at(&text, &suffix, text.len() - 3) {
        return true;
    }
    let marked: bool = prefix.len() == 2 && prefix[0] == 0x1f && prefix[1] == 0x8b;
    assert(marked == (prefix@ =~= seq![0x1fu8, 0x8bu8]));
    marked
}

/// The first two bytes of a body whose first bytes are `prefix` and which goes on with `chunk`.
pub fn extend_prefix(prefix: &mut Vec<u8>, chunk: &[u8])
    requires
        old(prefix)@.len() <= 2,
    ensures
        final(prefix)@ == if (old(prefix)@ + chunk@).len() <= 2 {
            old(prefix)@ + chunk@
        } else {
            (old(prefix)@ + chunk@).subrange(0, 2)
        },
{
    let mut i: usize = 0;
    while i < chunk.len() && prefix.len() < 2
        invariant
            i <= chunk.len(),
            prefix@.len() <= 2,
            prefix@ == old(prefix)@ + chunk@.subrange(0, i as int),
        decreases chunk.len() - i,
    {
        let ghost before = prefix@;
        prefix.push(chunk[i]);
        i = i + 1;
        assert(prefix@ =~= old(prefix)@ + chunk@.subrange(0, i as int));
    }
    assert(i == chunk.len() ==> chunk@.subrange(0, i as int) =~= chunk@);
    assert(prefix@.len() == 2 ==> prefix@ =~= (old(prefix)@ + chunk@).subrange(0, 2));
}

/// What a document says, and why it could not be read to its end, if it could not.
#[derive(Debug)]
pub struct ParsedDocument {
    pub events: Vec<SitemapEvent>,
    pub error: Option<SitemapParseError>,
}

/// A piece of XML opens at most one element.
pub proof fn a_piece_opens_at_most_one_element(parser: ParserView, piece: XmlView)
    ensures
        parser.step(piece).0.path.len() <= parser.path.len() + 1,
{
    if let XmlView::End(name) = piece {
        lemma_last_open_bound(parser.path, name);
    }
}

proof fn lemma_last_open_bound(path: Seq<Seq<u8>>, name: Seq<u8>)
    ensures
        crate::sitemap::parser::last_open(path, name) is Some ==> 0
            <= crate::sitemap::parser::last_open(path, name).unwrap() < path.len(),
    decreases path.len(),
{
    if path.len() > 0 && path.last() != name {
        lemma_last_open_bound(path.drop_last(), name);
    }
}

/// Feeds pieces of XML to a new reader.
pub fn parse_pieces(pieces: Vec<XmlEvent>) -> (r: Vec<SitemapEvent>)
    ensures
        event_views(r@) == ParserView::initial().said(piece_views(pieces@)),
{
    let ghost all = piece_views(pieces@);
    let ghost mut at: int = 0;
    let mut parser: SitemapParser = SitemapParser::new();
    let mut out: Vec<SitemapEvent> = Vec::new();
    let count: usize = pieces.len();
    assert(all.subrange(0, 0) =~= seq![]);
    assert(event_views(out@) =~= seq![]);
    for piece in iter: pieces
        invariant
            piece_views(iter.seq()) == all,
            at == iter.index(),
            count == iter.seq().len(),
            parser@ == ParserView::initial().after(all.subrange(0, at)),
            event_views(out@) == ParserView::initial().said(all.subrange(0, at)),
            parser@.path.len() <= at,
    {
        proof {
            assert(all[at] == piece@);
            assert(all.subrange(0, at + 1).drop_last() =~= all.subrange(0, at));
            assert(all.subrange(0, at + 1).last() == piece@);
            a_piece_opens_at_most_one_element(parser@, piece@);
        }
        if let Some(event) = parser.feed(piece) {
            let ghost prior = event_views(out@);
            out.push(event);
            assert(event_views(out@) =~= prior.push(event@));
        }
        proof {
            at = at + 1;
        }
    }
    assert(all.subrange(0, all.len() as int) =~= all);
    out
}

/// The text of a document, if it can be had.
pub open spec fn document_text(bytes: Seq<u8>, gzip: bool) -> Option<Seq<u8>> {
    if gzip {
        gunzipped(bytes)
    } else {
        Some(bytes)
    }
}

/// What a document with the given text says.
pub open spec fn text_says(text: Seq<u8>) -> Seq<SitemapEventView> {
    ParserView::initial().said(xml_pieces(text, true, false).0)
}

/// Whether a fault is that the text of a document came to its end too early: markup was open there.
/// An instruction that is closed but has nothing in it is a fault of its own, and so is markup with
/// an exclamation mark that goes on.
pub open spec fn ran_out(text: Seq<u8>, fault: FaultView) -> bool {
    match fault.kind {
        XmlFaultKind::BangMarkup => fault.rest <= 1,
        XmlFaultKind::Instruction => fault.rest < text.len() && text[text.len() - fault.rest - 1]
            == 60,
        XmlFaultKind::Unclosed => true,
        XmlFaultKind::Other => false,
    }
}

fn has_run_out(text: &[u8], fault: &XmlFault) -> (r: bool)
    ensures
        r == ran_out(text@, fault@),
{
    match fault.kind {
        XmlFaultKind::BangMarkup => fault.rest <= 1,
        XmlFaultKind::Instruction => fault.rest < text.len() && text[text.len() - fault.rest - 1]
            == 60,
        XmlFaultKind::Unclosed => true,
        XmlFaultKind::Other => false,
    }
}

/// The error of a document with the given text, whose decoding broke off for a cause, if it did: a
/// fault that was found before the end of the text comes first.
pub open spec fn decoded_error(text: Seq<u8>, broken: Option<Seq<char>>) -> Option<Seq<char>> {
    match (xml_pieces(text, true, false).1, broken) {
        (Some(fault), Some(cause)) => if ran_out(text, fault) {
            Some("I/O error: "@ + cause)
        } else {
            Some(fault.message)
        },
        (Some(fault), None) => Some(fault.message),
        (None, Some(cause)) => Some("I/O error: "@ + cause),
        (None, None) => None,
    }
}

/// Whether `error` is a fault of XML with a text, if there is one.
pub open spec fn is_xml_error(error: Option<SitemapParseError>, text: Option<Seq<char>>) -> bool {
    match error {
        Some(SitemapParseError::Xml(message)) => text == Some(message@),
        Some(SitemapParseError::Body(_)) => false,
        None => text is None,
    }
}

/// Reads the text of a document as far as it could be decoded. A broken end tag spoils only the entry
/// around it.
pub fn parse_decoded(text: &[u8], broken: Option<String>) -> (r: ParsedDocument)
    ensures
        event_views(r.events@) == text_says(text@),
        is_xml_error(r.error, decoded_error(text@, opt_view(broken))),
{
    let (pieces, fault): (Vec<XmlEvent>, Option<XmlFault>) = read_xml(text, true, false);
    let message: Option<String> = match (fault, broken) {
        (Some(fault), Some(cause)) => if has_run_out(text, &fault) {
            Some(joined("I/O error: ", cause.as_str()))
        } else {
            Some(fault.message)
        },
        (Some(fault), None) => Some(fault.message),
        (None, Some(cause)) => Some(joined("I/O error: ", cause.as_str())),
        (None, None) => None,
    };
    ParsedDocument {
        events: parse_pieces(pieces),
        error: match message {
            Some(message) => Some(SitemapParseError::Xml(message)),
            None => None,
        },
    }
}

/// Whether `r` is what a document says whose decoding broke off behind `part` for `cause`.
pub open spec fn reads_part(r: ParsedDocument, part: Seq<u8>, cause: Seq<char>) -> bool {
    &&& event_views(r.events@) == text_says(part)
    &&& is_xml_error(r.error, decoded_error(part, Some(cause)))
}

/// Reads a whole document. Of a compressed document that breaks off it reads the part that could be
/// decoded; how large the part is, and why it ends, are open.
pub fn parse_document(bytes: &[u8], gzip: bool) -> (r: ParsedDocument)
    ensures
        match document_text(bytes@, gzip) {
            Some(text) => {
                &&& event_views(r.events@) == text_says(text)
                &&& is_xml_error(r.error, decoded_error(text, None))
            },
            None => exists|part: Seq<u8>, cause: Seq<char>| #[trigger] reads_part(r, part, cause),
        },
{
    if gzip {
        let (plain, broken): (Vec<u8>, Option<String>) = gunzip(bytes);
        let ghost cause = opt_view(broken);
        let r: ParsedDocument = parse_decoded(plain.as_slice(), broken);
        proof {
            if let Some(cause) = cause {
                assert(reads_part(r, plain@, cause));
            }
        }
        r
    } else {
        parse_decoded(bytes, None)
    }
}

/// A malformed entry is never handed out, nor one without a location.
pub proof fn entries_are_complete(parser: ParserView, piece: XmlView)
    ensures
        match parser.step(piece).1 {
            Some(SitemapEventView::Entry(_)) => parser.entry is Some && !parser.entry.unwrap().malformed
                && parser.entry.unwrap().loc is Some,
            Some(SitemapEventView::Nested(_)) => !parser.sitemap_malformed && parser.sitemap_loc
                is Some,
            None => true,
        },
{
}

/// A document is compressed where its path ends as that of one does or its first two bytes say so, and
/// in no other case.
pub proof fn what_is_compressed(front: Seq<char>, path: Seq<char>, prefix: Seq<u8>)
    ensures
        is_gzip_spec(front + ".gz"@, prefix),
        prefix.len() == 2 && prefix[0] == 31 && prefix[1] == 139 ==> is_gzip_spec(path, prefix),
        is_gzip_spec(path, prefix) && !(prefix.len() == 2 && prefix[0] == 31 && prefix[1] == 139)
            ==> path.len() >= 3 && path.subrange(path.len() - 3, path.len() as int) == ".gz"@,
{
    reveal_strlit(".gz");
    let named = front + ".gz"@;
    assert(named.subrange(named.len() - 3, named.len() as int) =~= ".gz"@);
    assert(occurs_at(named, ".gz"@, named.len() - 3));
    if prefix.len() == 2 && prefix[0] == 31 && prefix[1] == 139 {
        assert(prefix =~= seq![0x1fu8, 0x8bu8]);
    }
}

/// What is read of a document is the document itself, or what it is compressed from.
pub proof fn what_is_read_of_a_document(bytes: Seq<u8>)
    ensures
        document_text(bytes, false) == Some(bytes),
        document_text(bytes, true) == gunzipped(bytes),
        text_says(bytes) == ParserView::initial().said(xml_pieces(bytes, true, false).0),
{
}

/// A fault in the document is reported as it is, unless it only came about because the text broke off;
/// then, and where there is no other fault, the reason of the breaking off is.
pub proof fn which_fault_is_reported(text: Seq<u8>, cause: Seq<char>)
    ensures
        ({
            let fault = xml_pieces(text, true, false).1;
            &&& fault is None ==> decoded_error(text, None) is None && decoded_error(
                text,
                Some(cause),
            ) == Some("I/O error: "@ + cause)
            &&& fault is Some ==> decoded_error(text, None) == Some(fault.unwrap().message)
            &&& fault is Some && (fault.unwrap().kind is Unclosed || (fault.unwrap().kind
                is BangMarkup && fault.unwrap().rest <= 1)) ==> decoded_error(text, Some(cause))
                == Some("I/O error: "@ + cause)
            &&& fault is Some && (fault.unwrap().kind is Other || (fault.unwrap().kind is BangMarkup
                && fault.unwrap().rest > 1)) ==> decoded_error(text, Some(cause)) == Some(
                fault.unwrap().message,
            )
            &&& fault is Some && fault.unwrap().kind is Instruction && fault.unwrap().rest
                < text.len() ==> {
                let opened = text[text.len() - 1 - fault.unwrap().rest] == 0x3c;
                &&& opened ==> decoded_error(text, Some(cause)) == Some("I/O error: "@ + cause)
                &&& !opened ==> decoded_error(text, Some(cause)) == Some(fault.unwrap().message)
            }
        }),
{
}

} // verus!
