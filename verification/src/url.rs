//! Absolute URLs as plain parts.

use crate::text::{ascii_lower, is_digit};
use vstd::prelude::*;

verus! {

/// The parts of a URL, as mathematical values.
pub struct UrlParts {
    /// The whole serialization.
    pub text: Seq<char>,
    /// The serialization once the fragment is removed.
    pub bare: Seq<char>,
    pub scheme: Seq<char>,
    pub username: Seq<char>,
    pub password: Option<Seq<char>>,
    pub host: Option<Seq<char>>,
    /// The host where it is a name and not an address.
    pub domain: Option<Seq<char>>,
    /// The explicit port, or else the one that the scheme implies.
    pub port: Option<u16>,
    pub path: Seq<char>,
    pub fragment: Option<Seq<char>>,
    /// Whether the URL cannot be a base for relative references.
    pub opaque: bool,
}

impl UrlParts {
    /// Whether the host, if there is one, is in its canonical form: in small letters, and a name
    /// unless it is written as an address.
    pub open spec fn has_canonical_host(self) -> bool {
        self.host is Some ==> {
            &&& ascii_lower(self.host.unwrap()) == self.host.unwrap()
            &&& self.domain == if is_address(self.host.unwrap()) {
                None
            } else {
                self.host
            }
        }
    }

    /// Whether the scheme is one whose URLs always have a host of a known form.
    pub open spec fn is_special(self) -> bool {
        self.scheme == "http"@ || self.scheme == "https"@ || self.scheme == "ws"@ || self.scheme
            == "wss"@ || self.scheme == "ftp"@
    }

    /// A URL of a special scheme has a host, in its canonical form.
    pub open spec fn host_is_canonical(self) -> bool {
        self.is_special() ==> self.host is Some && self.has_canonical_host()
    }

    /// The fragment follows the rest of the URL, behind a number sign.
    pub open spec fn fragment_is_last(self) -> bool {
        !self.opaque ==> self.text == match self.fragment {
            Some(f) => self.bare + seq!['#'] + f,
            None => self.bare,
        }
    }
}

/// A parsed absolute URL.
#[derive(Debug, PartialEq, Eq)]
pub struct Url {
    text: String,
    bare: String,
    scheme: String,
    username: String,
    password: Option<String>,
    host: Option<String>,
    domain: Option<String>,
    port: Option<u16>,
    path: String,
    fragment: Option<String>,
    opaque: bool,
}

/// The view of an optional string.
pub open spec fn opt_view(s: Option<String>) -> Option<Seq<char>> {
    match s {
        Some(t) => Some(t@),
        None => None,
    }
}

/// The view of an optional string slice.
pub open spec fn opt_str_view(s: Option<&str>) -> Option<Seq<char>> {
    match s {
        Some(t) => Some(t@),
        None => None,
    }
}

/// A copy of an optional string.
pub fn clone_opt(s: &Option<String>) -> (r: Option<String>)
    ensures
        r == *s,
{
    match s {
        Some(t) => Some(t.clone()),
        None => None,
    }
}

/// An optional string as an optional slice.
pub fn opt_str(s: &Option<String>) -> (r: Option<&str>)
    ensures
        opt_str_view(r) == opt_view(*s),
{
    match s {
        Some(t) => Some(t.as_str()),
        None => None,
    }
}

/// Why a text is not a URL.
#[derive(Debug, PartialEq, Eq)]
pub struct UrlParseError {
    pub message: String,
}

impl Clone for UrlParseError {
    fn clone(&self) -> (r: Self)
        ensures
            r == *self,
    {
        UrlParseError { message: self.message.clone() }
    }
}

/// The part of a host behind its last dot.
pub open spec fn last_label(host: Seq<char>) -> Seq<char>
    decreases host.len(),
{
    if host.len() == 0 || host.last() == '.' {
        seq![]
    } else {
        last_label(host.drop_last()).push(host.last())
    }
}

/// Whether a host is written as an address: in brackets, or with a number at its end.
pub open spec fn is_address(host: Seq<char>) -> bool {
    ||| host.len() > 0 && host[0] == '['
    ||| last_label(host).len() > 0 && forall|i: int|
        0 <= i < last_label(host).len() ==> is_digit(#[trigger] last_label(host)[i])
}

/// What parsing `text` as an absolute URL gives: the parts, or the error's text.
pub uninterp spec fn parsed_url(text: Seq<char>) -> Result<UrlParts, Seq<char>>;

/// The serialization of `reference` resolved against the URL `base`, or the error's text.
pub uninterp spec fn resolved_text(base: Seq<char>, reference: Seq<char>) -> Result<
    Seq<char>,
    Seq<char>,
>;

/// The registrable domain of a host name by the public suffix list.
pub uninterp spec fn registrable_domain(host: Seq<char>) -> Option<Seq<char>>;

/// What resolving `reference` against the URL `base` gives.
pub open spec fn resolved_url(base: Seq<char>, reference: Seq<char>) -> Result<
    UrlParts,
    Seq<char>,
> {
    match resolved_text(base, reference) {
        Ok(text) => parsed_url(text),
        Err(message) => Err(message),
    }
}

/// The mathematical value of a parse result.
pub open spec fn url_outcome(r: Result<Url, UrlParseError>) -> Result<UrlParts, Seq<char>> {
    match r {
        Ok(u) => Ok(u@),
        Err(e) => Err(e.message@),
    }
}

/// The mathematical value of a text or an error.
pub open spec fn text_outcome(r: Result<String, UrlParseError>) -> Result<Seq<char>, Seq<char>> {
    match r {
        Ok(t) => Ok(t@),
        Err(e) => Err(e.message@),
    }
}

impl View for Url {
    type V = UrlParts;

    closed spec fn view(&self) -> UrlParts {
        UrlParts {
            text: self.text@,
            bare: self.bare@,
            scheme: self.scheme@,
            username: self.username@,
            password: opt_view(self.password),
            host: opt_view(self.host),
            domain: opt_view(self.domain),
            port: self.port,
            path: self.path@,
            fragment: opt_view(self.fragment),
            opaque: self.opaque,
        }
    }
}

/// `url::Url::parse`, with the parsed URL taken apart by its accessors; `bare` is what
/// `set_fragment(None)` leaves. The result is a function of the text. Removing the fragment
/// of a URL that can be a base cuts the serialization in front of its number sign. A URL of
/// one of the special schemes has a host, in small letters, which is an address where it looks
/// like one.
#[verifier::external_body]
fn parse_url(text: &str) -> (r: Result<Url, UrlParseError>)
    ensures
        url_outcome(r) == parsed_url(text@),
        r is Ok ==> r.unwrap()@.fragment_is_last(),
        r is Ok ==> r.unwrap()@.host_is_canonical(),
{
    let u = ::url::Url::parse(text).map_err(|e| UrlParseError { message: e.to_string() })?;
    let mut bare = u.clone();
    bare.set_fragment(None);
    Ok(Url {
        bare: bare.into(),
        scheme: u.scheme().into(),
        username: u.username().into(), password: u.password().map(Into::into),
        host: u.host_str().map(Into::into), domain: u.domain().map(Into::into),
        port: u.port_or_known_default(), path: u.path().into(),
        fragment: u.fragment().map(Into::into), opaque: u.cannot_be_a_base(),
        text: u.into(),
    })
}

/// `url::Url::join`: the serialization of a reference resolved against a base.
#[verifier::external_body]
fn resolve_text(base: &str, reference: &str) -> (r: Result<String, UrlParseError>)
    ensures
        text_outcome(r) == resolved_text(base@, reference@),
{
    match ::url::Url::parse(base).and_then(|b| b.join(reference)) {
        Ok(u) => Ok(u.into()),
        Err(e) => Err(UrlParseError { message: e.to_string() }),
    }
}

/// `psl::domain_str`: the registrable domain of a host name.
#[verifier::external_body]
pub(crate) fn domain_of(host: &str) -> (r: Option<String>)
    ensures
        opt_view(r) == registrable_domain(host@),
{
    psl::domain_str(host).map(str::to_owned)
}

impl Url {
    /// Parses an absolute URL.
    pub fn parse(text: &str) -> (r: Result<Url, UrlParseError>)
        ensures
            url_outcome(r) == parsed_url(text@),
            r is Ok ==> r.unwrap()@.fragment_is_last(),
            r is Ok ==> r.unwrap()@.host_is_canonical(),
    {
        parse_url(text)
    }

    /// Resolves `reference` against this URL.
    pub fn join(&self, reference: &str) -> (r: Result<Url, UrlParseError>)
        ensures
            url_outcome(r) == resolved_url(self@.text, reference@),
            r is Ok ==> r.unwrap()@.fragment_is_last(),
            r is Ok ==> r.unwrap()@.host_is_canonical(),
    {
        match resolve_text(self.text.as_str(), reference) {
            Ok(text) => parse_url(text.as_str()),
            Err(e) => Err(e),
        }
    }

    pub fn as_str(&self) -> (r: &str)
        ensures
            r@ == self@.text,
    {
        self.text.as_str()
    }

    /// The URL without its fragment.
    pub fn bare(&self) -> (r: &str)
        ensures
            r@ == self@.bare,
    {
        self.bare.as_str()
    }

    pub fn scheme(&self) -> (r: &str)
        ensures
            r@ == self@.scheme,
    {
        self.scheme.as_str()
    }

    pub fn username(&self) -> (r: &str)
        ensures
            r@ == self@.username,
    {
        self.username.as_str()
    }

    pub fn password(&self) -> (r: Option<&str>)
        ensures
            opt_str_view(r) == self@.password,
    {
        opt_str(&self.password)
    }

    pub fn host_str(&self) -> (r: Option<&str>)
        ensures
            opt_str_view(r) == self@.host,
    {
        opt_str(&self.host)
    }

    pub fn domain(&self) -> (r: Option<&str>)
        ensures
            opt_str_view(r) == self@.domain,
    {
        opt_str(&self.domain)
    }

    pub fn port_or_known_default(&self) -> (r: Option<u16>)
        ensures
            r == self@.port,
    {
        self.port
    }

    pub fn path(&self) -> (r: &str)
        ensures
            r@ == self@.path,
    {
        self.path.as_str()
    }

    pub fn fragment(&self) -> (r: Option<&str>)
        ensures
            opt_str_view(r) == self@.fragment,
    {
        opt_str(&self.fragment)
    }
}

impl Clone for Url {
    fn clone(&self) -> (r: Self)
        ensures
            r@ == self@,
    {
        Url {
            text: self.text.clone(),
            bare: self.bare.clone(),
            scheme: self.scheme.clone(),
            username: self.username.clone(),
            password: clone_opt(&self.password),
            host: clone_opt(&self.host),
            domain: clone_opt(&self.domain),
            port: self.port,
            path: self.path.clone(),
            fragment: clone_opt(&self.fragment),
            opaque: self.opaque,
        }
    }
}

} // verus!
