//! HTTP header maps and the rules for header names and values.

use crate::text::{ascii_lower, chars_of, lowercased, string_of};
use crate::text_set::TextSet;
use crate::url::opt_view;
use vstd::prelude::*;
use vstd::utf8::encode_utf8;

verus! {

/// The outside type `http::HeaderMap`.
#[verifier::external_type_specification]
#[verifier::external_body]
#[verifier::reject_recursive_types(T)]
pub struct ExHeaderMap<T>(http::HeaderMap<T>);

/// The outside type `http::HeaderValue`.
#[verifier::external_type_specification]
#[verifier::external_body]
pub struct ExHeaderValue(http::HeaderValue);

/// The values that a header map holds under each name, in the order of their arrival.
pub uninterp spec fn header_contents(map: http::HeaderMap<http::HeaderValue>) -> Map<
    Seq<char>,
    Seq<Seq<u8>>,
>;

/// So many different names a header map holds without running full.
pub const MAX_HEADER_NAMES: usize = 6554;

/// Whether `c` may stand in a header name.
pub open spec fn is_token_char(c: char) -> bool {
    ('a' <= c && c <= 'z') || ('A' <= c && c <= 'Z') || ('0' <= c && c <= '9') || c == '!' || c
        == '#' || c == '$' || c == '%' || c == '&' || c == '\'' || c == '*' || c == '+' || c == '-'
        || c == '.' || c == '^' || c == '_' || c == '`' || c == '|' || c == '~'
}

/// Whether `name` is a header name: one to 65,535 token characters.
pub open spec fn is_header_name(name: Seq<char>) -> bool {
    &&& 0 < name.len() <= 65535
    &&& forall|i: int| 0 <= i < name.len() ==> #[trigger] is_token_char(name[i])
}

/// Whether `value` can be a header value: no control characters but the tabulator.
pub open spec fn is_header_value(value: Seq<char>) -> bool {
    forall|i: int|
        0 <= i < value.len() ==> (#[trigger] value[i] as u32 >= 32 && value[i] as u32 != 127)
            || value[i] == '\t'
}

/// A header map's contents with one more value under `name`.
pub open spec fn with_header(
    contents: Map<Seq<char>, Seq<Seq<u8>>>,
    name: Seq<char>,
    value: Seq<u8>,
) -> Map<Seq<char>, Seq<Seq<u8>>> {
    let key = ascii_lower(name);
    if contents.contains_key(key) {
        contents.insert(key, contents[key].push(value))
    } else {
        contents.insert(key, seq![value])
    }
}

/// Whether a header map has few enough names that one more value can be added.
pub open spec fn takes_more(contents: Map<Seq<char>, Seq<Seq<u8>>>) -> bool {
    contents.dom().finite() && contents.dom().len() < MAX_HEADER_NAMES
}

/// The text of a header value that holds only visible ASCII, blanks and tabulators.
pub open spec fn visible_text(value: Seq<u8>) -> Option<Seq<char>> {
    if forall|i: int|
        0 <= i < value.len() ==> (32 <= #[trigger] value[i] && value[i] < 127) || value[i] == 9 {
        Some(Seq::new(value.len(), |i: int| value[i] as char))
    } else {
        None
    }
}

/// Whether `contents` has a value number `at` under `name`.
pub open spec fn has_value(
    contents: Map<Seq<char>, Seq<Seq<u8>>>,
    name: Seq<char>,
    at: int,
) -> bool {
    contents.contains_key(name) && 0 <= at < contents[name].len()
}

/// Whether `entry` is value number `at` under `name`.
pub open spec fn is_entry(
    contents: Map<Seq<char>, Seq<Seq<u8>>>,
    entry: (String, Option<String>),
    name: Seq<char>,
    at: int,
) -> bool {
    entry.0@ == name && opt_view(entry.1) == visible_text(contents[name][at])
}

/// The values of the entries under a name, in their order.
pub open spec fn entries_under(entries: Seq<(String, Option<String>)>, name: Seq<char>) -> Seq<
    Option<Seq<char>>,
>
    decreases entries.len(),
{
    if entries.len() == 0 {
        seq![]
    } else if entries.last().0@ == name {
        entries_under(entries.drop_last(), name).push(opt_view(entries.last().1))
    } else {
        entries_under(entries.drop_last(), name)
    }
}

/// Whether an entry has a header name, in small letters.
pub open spec fn is_named_entry(entry: (String, Option<String>)) -> bool {
    is_header_name(entry.0@) && ascii_lower(entry.0@) == entry.0@
}

/// Whether `entries` holds the headers of `contents`, each once, the values of one name in their
/// order, and nothing else. The order of the names is open.
pub open spec fn lists_headers(
    contents: Map<Seq<char>, Seq<Seq<u8>>>,
    entries: Seq<(String, Option<String>)>,
) -> bool {
    &&& forall|name: Seq<char>| #[trigger]
        entries_under(entries, name) == values_under(contents, name)
    &&& forall|name: Seq<char>| #[trigger]
        contents.contains_key(name) ==> entries_under(entries, name).len() > 0
    &&& forall|i: int| 0 <= i < entries.len() ==> is_named_entry(#[trigger] entries[i])
}

/// Whether an entry is a header of `contents`.
pub open spec fn is_mentioned(
    contents: Map<Seq<char>, Seq<Seq<u8>>>,
    entry: (String, Option<String>),
) -> bool {
    exists|at: int| #[trigger]
        has_value(contents, entry.0@, at) && is_entry(contents, entry, entry.0@, at)
}

/// Whether value number `at` under `name` is among the entries.
pub open spec fn is_held(
    contents: Map<Seq<char>, Seq<Seq<u8>>>,
    entries: Seq<(String, Option<String>)>,
    name: Seq<char>,
    at: int,
) -> bool {
    exists|i: int| 0 <= i < entries.len() && is_entry(contents, #[trigger] entries[i], name, at)
}

/// Whether `entries` mentions the headers of `contents` and no others.
pub open spec fn mentions_headers(
    contents: Map<Seq<char>, Seq<Seq<u8>>>,
    entries: Seq<(String, Option<String>)>,
) -> bool {
    &&& forall|i: int| 0 <= i < entries.len() ==> is_mentioned(contents, #[trigger] entries[i])
    &&& forall|name: Seq<char>, at: int| #[trigger]
        has_value(contents, name, at) ==> is_held(contents, entries, name, at)
}

proof fn lemma_entry_under(entries: Seq<(String, Option<String>)>, i: int) -> (at: int)
    requires
        0 <= i < entries.len(),
    ensures
        0 <= at < entries_under(entries, entries[i].0@).len(),
        entries_under(entries, entries[i].0@)[at] == opt_view(entries[i].1),
    decreases entries.len(),
{
    if i == entries.len() - 1 {
        entries_under(entries.drop_last(), entries[i].0@).len() as int
    } else {
        assert(entries.drop_last()[i] == entries[i]);
        lemma_entry_under(entries.drop_last(), i)
    }
}

proof fn lemma_under_is_entry(entries: Seq<(String, Option<String>)>, name: Seq<char>, at: int) -> (i:
    int)
    requires
        0 <= at < entries_under(entries, name).len(),
    ensures
        0 <= i < entries.len(),
        entries[i].0@ == name,
        opt_view(entries[i].1) == entries_under(entries, name)[at],
    decreases entries.len(),
{
    let front = entries_under(entries.drop_last(), name);
    if at < front.len() {
        let i = lemma_under_is_entry(entries.drop_last(), name, at);
        assert(entries.drop_last()[i] == entries[i]);
        i
    } else {
        entries.len() - 1
    }
}

pub(crate) proof fn lemma_mentions(
    contents: Map<Seq<char>, Seq<Seq<u8>>>,
    entries: Seq<(String, Option<String>)>,
)
    requires
        lists_headers(contents, entries),
    ensures
        mentions_headers(contents, entries),
{
    assert forall|i: int| 0 <= i < entries.len() implies is_mentioned(
        contents,
        #[trigger] entries[i],
    ) by {
        let at = lemma_entry_under(entries, i);
        assert(entries_under(entries, entries[i].0@) == values_under(contents, entries[i].0@));
        assert(has_value(contents, entries[i].0@, at));
        assert(is_entry(contents, entries[i], entries[i].0@, at));
    }
    assert forall|name: Seq<char>, at: int| #[trigger]
        has_value(contents, name, at) implies is_held(contents, entries, name, at) by {
        assert(entries_under(entries, name) == values_under(contents, name));
        let i = lemma_under_is_entry(entries, name, at);
        assert(is_entry(contents, entries[i], name, at));
    }
}

/// `http::HeaderMap::iter` and `HeaderValue::to_str`: every header once, with its text, where it is
/// visible ASCII; the values of one name in the order in which they came. Names are in small
/// letters. The order of the names is open.
#[verifier::external_body]
pub(crate) fn header_entries(map: &http::HeaderMap<http::HeaderValue>) -> (r: Vec<
    (String, Option<String>),
>)
    ensures
        lists_headers(header_contents(*map), r@),
{
    map.iter().map(|(n, v)| (n.as_str().to_owned(), v.to_str().ok().map(str::to_owned))).collect()
}

/// The names of the headers in a map.
pub(crate) fn header_names(map: &http::HeaderMap<http::HeaderValue>) -> (r: TextSet)
    ensures
        r@ == header_contents(*map).dom(),
{
    let entries: Vec<(String, Option<String>)> = header_entries(map);
    let ghost contents = header_contents(*map);
    let mut names: TextSet = TextSet::new();
    let mut i: usize = 0;
    while i < entries.len()
        invariant
            i <= entries.len(),
            lists_headers(contents, entries@),
            forall|name: Seq<char>| #[trigger]
                names@.contains(name) <==> exists|k: int|
                    0 <= k < i && (#[trigger] entries@[k]).0@ == name,
        decreases entries.len() - i,
    {
        let ghost before = names@;
        names.insert(entries[i].0.as_str());
        proof {
            assert forall|name: Seq<char>| #[trigger]
                names@.contains(name) <==> exists|k: int|
                    0 <= k < i + 1 && (#[trigger] entries@[k]).0@ == name by {
                assert(entries@[i as int].0@ == entries@[i as int].0@);
                if before.contains(name) {
                    let k = choose|k: int| 0 <= k < i && (#[trigger] entries@[k]).0@ == name;
                    assert(entries@[k].0@ == name);
                }
            }
        }
        i = i + 1;
    }
    proof {
        lemma_mentions(contents, entries@);
        assert forall|name: Seq<char>| names@.contains(name) == contents.dom().contains(name) by {
            if names@.contains(name) {
                let k = choose|k: int| 0 <= k < entries@.len() && (#[trigger] entries@[k]).0@ == name;
                let at = lemma_entry_under(entries@, k);
                assert(entries_under(entries@, name) == values_under(contents, name));
            }
            if contents.contains_key(name) {
                assert(entries_under(entries@, name).len() > 0);
                let k = lemma_under_is_entry(entries@, name, 0);
                assert(entries@[k].0@ == name);
            }
        }
        assert(names@ =~= contents.dom());
    }
    names
}

/// The texts of the values under a name, in their order.
pub open spec fn values_under(contents: Map<Seq<char>, Seq<Seq<u8>>>, name: Seq<char>) -> Seq<
    Option<Seq<char>>,
> {
    if contents.contains_key(name) {
        Seq::new(contents[name].len(), |i: int| visible_text(contents[name][i]))
    } else {
        seq![]
    }
}

/// The views of optional texts.
pub open spec fn opt_views(v: Seq<Option<String>>) -> Seq<Option<Seq<char>>> {
    Seq::new(v.len(), |i: int| opt_view(v[i]))
}

/// `http::HeaderMap::get_all` and `HeaderValue::to_str`: the values under a name in small letters,
/// in their order, with the text of those that are visible ASCII.
#[verifier::external_body]
pub(crate) fn header_values(map: &http::HeaderMap<http::HeaderValue>, name: &str) -> (r: Vec<
    Option<String>,
>)
    requires
        ascii_lower(name@) == name@,
    ensures
        opt_views(r@) == values_under(header_contents(*map), name@),
{
    map.get_all(name).iter().map(|v| v.to_str().ok().map(str::to_owned)).collect()
}

/// `http::HeaderMap::new`: a map without headers.
#[verifier::external_body]
pub(crate) fn new_headers() -> (r: http::HeaderMap<http::HeaderValue>)
    ensures
        header_contents(r).dom() == Set::<Seq<char>>::empty(),
{
    http::HeaderMap::new()
}

/// `http::HeaderMap::clone`: a map with the same headers.
#[verifier::external_body]
pub(crate) fn clone_headers(map: &http::HeaderMap<http::HeaderValue>) -> (r: http::HeaderMap<
    http::HeaderValue,
>)
    ensures
        header_contents(r) == header_contents(*map),
{
    map.clone()
}

/// `http::HeaderName::from_bytes`: accepts exactly the header names, and otherwise fails
/// with a fixed message.
#[verifier::external_body]
pub(crate) fn check_header_name(name: &str) -> (r: Result<(), String>)
    ensures
        r is Ok <==> is_header_name(name@),
        r is Err ==> r->Err_0@ == "invalid HTTP header name"@,
{
    http::HeaderName::from_bytes(name.as_bytes()).map(|_| ()).map_err(|e| e.to_string())
}

/// `http::HeaderValue::from_bytes`: accepts exactly the header values, and otherwise fails
/// with a fixed message.
#[verifier::external_body]
pub(crate) fn check_header_value(value: &str) -> (r: Result<(), String>)
    ensures
        r is Ok <==> is_header_value(value@),
        r is Err ==> r->Err_0@ == "failed to parse header value"@,
{
    http::HeaderValue::from_bytes(value.as_bytes()).map(|_| ()).map_err(|e| e.to_string())
}

/// `http::HeaderMap::append`: adds the value behind those that the name already has. Names
/// are kept in small letters. The map does not run full below the bound on its names.
#[verifier::external_body]
pub(crate) fn append_header(
    map: &mut http::HeaderMap<http::HeaderValue>,
    name: &str,
    value: &str,
)
    requires
        is_header_name(name@),
        is_header_value(value@),
        takes_more(header_contents(*old(map))),
    ensures
        header_contents(*final(map)) == with_header(
            header_contents(*old(map)),
            name@,
            encode_utf8(value@),
        ),
{
    let name = http::HeaderName::from_bytes(name.as_bytes()).unwrap();
    map.append(name, http::HeaderValue::from_bytes(value.as_bytes()).unwrap());
}

/// The headers as pairs of texts, if all values are visible text. Written back they give the same
/// headers.
pub fn header_pairs(map: &http::HeaderMap<http::HeaderValue>) -> (r: Option<Vec<(String, String)>>)
    ensures
        match r {
            Some(pairs) => {
                &&& with_pairs(Map::<Seq<char>, Seq<Seq<u8>>>::empty(), pairs@) == header_contents(
                    *map,
                )
                &&& first_pair_fault(pairs@) is None
            },
            None => exists|name: Seq<char>, at: int| #[trigger]
                has_value(header_contents(*map), name, at) && visible_text(
                    header_contents(*map)[name][at],
                ) is None,
        },
{
    let entries: Vec<(String, Option<String>)> = header_entries(map);
    let ghost contents = header_contents(*map);
    let mut pairs: Vec<(String, String)> = Vec::new();
    let mut i: usize = 0;
    while i < entries.len()
        invariant
            i <= entries.len(),
            contents == header_contents(*map),
            lists_headers(contents, entries@),
            pairs@.len() == i,
            forall|k: int| 0 <= k < i ==> is_pair_of(#[trigger] pairs@[k], entries@[k]),
        decreases entries.len() - i,
    {
        let entry: &(String, Option<String>) = &entries[i];
        assert(entries@[i as int] == *entry);
        match &entry.1 {
            Some(text) => {
                pairs.push((entry.0.clone(), text.clone()));
            },
            None => {
                proof {
                    let at = lemma_entry_under(entries@, i as int);
                    assert(entries_under(entries@, entry.0@) == values_under(contents, entry.0@));
                    assert(has_value(contents, entry.0@, at));
                }
                return None;
            },
        }
        i = i + 1;
    }
    proof {
        lemma_pairs_write(contents, entries@, pairs@);
    }
    Some(pairs)
}

/// Whether `pair` is `entry`, whose value is text.
pub open spec fn is_pair_of(pair: (String, String), entry: (String, Option<String>)) -> bool {
    pair.0@ == entry.0@ && opt_view(entry.1) == Some(pair.1@)
}

/// The encoded values of the pairs under a name in small letters, in their order.
spec fn pairs_under(pairs: Seq<(String, String)>, name: Seq<char>) -> Seq<Seq<u8>>
    decreases pairs.len(),
{
    if pairs.len() == 0 {
        seq![]
    } else if ascii_lower(pairs.last().0@) == name {
        pairs_under(pairs.drop_last(), name).push(encode_utf8(pairs.last().1@))
    } else {
        pairs_under(pairs.drop_last(), name)
    }
}

proof fn lemma_with_pairs(pairs: Seq<(String, String)>, name: Seq<char>)
    ensures
        with_pairs(Map::<Seq<char>, Seq<Seq<u8>>>::empty(), pairs).contains_key(name)
            <==> pairs_under(pairs, name).len() > 0,
        pairs_under(pairs, name).len() > 0 ==> with_pairs(
            Map::<Seq<char>, Seq<Seq<u8>>>::empty(),
            pairs,
        )[name] == pairs_under(pairs, name),
    decreases pairs.len(),
{
    if pairs.len() > 0 {
        lemma_with_pairs(pairs.drop_last(), name);
        let front = with_pairs(Map::<Seq<char>, Seq<Seq<u8>>>::empty(), pairs.drop_last());
        if ascii_lower(pairs.last().0@) == name && !front.contains_key(name) {
            let value = encode_utf8(pairs.last().1@);
            assert(pairs_under(pairs, name) =~= seq![value]);
        }
    }
}

proof fn lemma_pairs_under(
    entries: Seq<(String, Option<String>)>,
    pairs: Seq<(String, String)>,
    name: Seq<char>,
)
    requires
        pairs.len() == entries.len(),
        forall|k: int| 0 <= k < pairs.len() ==> is_pair_of(#[trigger] pairs[k], entries[k]),
        forall|k: int| 0 <= k < entries.len() ==> is_named_entry(#[trigger] entries[k]),
    ensures
        pairs_under(pairs, name).len() == entries_under(entries, name).len(),
        forall|i: int|
            0 <= i < pairs_under(pairs, name).len() ==> (#[trigger] entries_under(entries, name)[i])
                is Some && pairs_under(pairs, name)[i] == encode_utf8(
                entries_under(entries, name)[i].unwrap(),
            ),
    decreases pairs.len(),
{
    if pairs.len() > 0 {
        let last = pairs.len() - 1;
        assert(is_pair_of(pairs[last], entries[last]));
        assert(is_named_entry(entries[last]));
        assert forall|k: int| 0 <= k < last implies is_pair_of(
            #[trigger] pairs.drop_last()[k],
            entries.drop_last()[k],
        ) by {
            assert(is_pair_of(pairs[k], entries[k]));
        }
        assert forall|k: int| 0 <= k < last implies is_named_entry(
            #[trigger] entries.drop_last()[k],
        ) by {
            assert(is_named_entry(entries[k]));
        }
        lemma_pairs_under(entries.drop_last(), pairs.drop_last(), name);
    }
}

proof fn lemma_visible(value: Seq<u8>)
    requires
        visible_text(value) is Some,
    ensures
        encode_utf8(visible_text(value).unwrap()) == value,
        is_header_value(visible_text(value).unwrap()),
{
    let text = visible_text(value).unwrap();
    assert forall|i: int| 0 <= i < text.len() implies '\0' <= #[trigger] text[i] <= '\u{7f}' && text[i]
        as u8 == value[i] by {
        let b = value[i];
        assert((32 <= b && b < 127) || b == 9);
        assert(text[i] == b as char);
    }
    vstd::utf8::is_ascii_chars_encode_utf8(text);
    assert(encode_utf8(text) =~= value);
}

proof fn lemma_no_fault(pairs: Seq<(String, String)>)
    requires
        forall|k: int|
            0 <= k < pairs.len() ==> pair_fault((#[trigger] pairs[k]).0@, pairs[k].1@) is None,
    ensures
        first_pair_fault(pairs) is None,
    decreases pairs.len(),
{
    if pairs.len() > 0 {
        assert(pair_fault(pairs[0].0@, pairs[0].1@) is None);
        assert forall|k: int| 0 <= k < pairs.drop_first().len() implies pair_fault(
            (#[trigger] pairs.drop_first()[k]).0@,
            pairs.drop_first()[k].1@,
        ) is None by {
            assert(pairs.drop_first()[k] == pairs[k + 1]);
        }
        lemma_no_fault(pairs.drop_first());
    }
}

proof fn lemma_pairs_write(
    contents: Map<Seq<char>, Seq<Seq<u8>>>,
    entries: Seq<(String, Option<String>)>,
    pairs: Seq<(String, String)>,
)
    requires
        lists_headers(contents, entries),
        pairs.len() == entries.len(),
        forall|k: int| 0 <= k < pairs.len() ==> is_pair_of(#[trigger] pairs[k], entries[k]),
    ensures
        with_pairs(Map::<Seq<char>, Seq<Seq<u8>>>::empty(), pairs) == contents,
        first_pair_fault(pairs) is None,
{
    let written = with_pairs(Map::<Seq<char>, Seq<Seq<u8>>>::empty(), pairs);
    assert forall|name: Seq<char>| #![trigger written.contains_key(name)]
        written.contains_key(name) == contents.contains_key(name) && (contents.contains_key(name)
            ==> written[name] == contents[name]) by {
        lemma_with_pairs(pairs, name);
        lemma_pairs_under(entries, pairs, name);
        assert(entries_under(entries, name) == values_under(contents, name));
        if contents.contains_key(name) {
            assert forall|i: int| 0 <= i < contents[name].len() implies pairs_under(pairs, name)[i]
                == #[trigger] contents[name][i] by {
                assert(entries_under(entries, name)[i] == visible_text(contents[name][i]));
                lemma_visible(contents[name][i]);
            }
            assert(pairs_under(pairs, name) =~= contents[name]);
        }
    }
    assert(written =~= contents);
    assert forall|k: int| 0 <= k < pairs.len() implies pair_fault(
        (#[trigger] pairs[k]).0@,
        pairs[k].1@,
    ) is None by {
        assert(is_pair_of(pairs[k], entries[k]));
        assert(is_named_entry(entries[k]));
        let at = lemma_entry_under(entries, k);
        let name = entries[k].0@;
        assert(entries_under(entries, name) == values_under(contents, name));
        assert(visible_text(contents[name][at]) == Some(pairs[k].1@));
        lemma_visible(contents[name][at]);
    }
    lemma_no_fault(pairs);
}

/// Headers that are written as pairs come back: what the pairs write is what was written.
pub proof fn written_headers_come_back(
    contents: Map<Seq<char>, Seq<Seq<u8>>>,
    pairs: Seq<(String, String)>,
    again: http::HeaderMap<http::HeaderValue>,
)
    requires
        with_pairs(Map::<Seq<char>, Seq<Seq<u8>>>::empty(), pairs) == contents,
        header_contents(again) == with_pairs(Map::<Seq<char>, Seq<Seq<u8>>>::empty(), pairs),
    ensures
        header_contents(again) == contents,
        forall|name: Seq<char>| #[trigger]
            values_under(header_contents(again), name) == values_under(contents, name),
{
}

/// A header map's contents with pairs of texts added in their order.
pub open spec fn with_pairs(
    contents: Map<Seq<char>, Seq<Seq<u8>>>,
    pairs: Seq<(String, String)>,
) -> Map<Seq<char>, Seq<Seq<u8>>>
    decreases pairs.len(),
{
    if pairs.len() == 0 {
        contents
    } else {
        with_header(
            with_pairs(contents, pairs.drop_last()),
            pairs.last().0@,
            encode_utf8(pairs.last().1@),
        )
    }
}

/// Why a pair of texts is no header, if it is none.
pub open spec fn pair_fault(name: Seq<char>, value: Seq<char>) -> Option<Seq<char>> {
    if !is_header_name(name) {
        Some("invalid HTTP header name"@)
    } else if !is_header_value(value) {
        Some("failed to parse header value"@)
    } else {
        None
    }
}

/// Why the first pair that is no header is none.
pub open spec fn first_pair_fault(pairs: Seq<(String, String)>) -> Option<Seq<char>>
    decreases pairs.len(),
{
    if pairs.len() == 0 {
        None
    } else {
        match pair_fault(pairs[0].0@, pairs[0].1@) {
            Some(message) => Some(message),
            None => first_pair_fault(pairs.drop_first()),
        }
    }
}

/// Whether a pair is added, that is, neither it nor one before it is refused.
pub open spec fn is_added(pairs: Seq<(String, String)>, at: int) -> bool {
    0 <= at < pairs.len() && forall|k: int|
        0 <= k <= at ==> pair_fault((#[trigger] pairs[k]).0@, pairs[k].1@) is None
}

/// Whether pairs of texts fit in a header map: there is room for each that is added.
pub open spec fn pairs_fit_spec(pairs: Seq<(String, String)>) -> bool {
    forall|at: int| #[trigger]
        is_added(pairs, at) ==> takes_more(
            with_pairs(Map::<Seq<char>, Seq<Seq<u8>>>::empty(), pairs.subrange(0, at)),
        )
}

/// Whether pairs of texts fit in a header map.
pub fn pairs_fit(pairs: &Vec<(String, String)>) -> (r: bool)
    ensures
        r == pairs_fit_spec(pairs@),
{
    let mut names: TextSet = TextSet::new();
    let ghost none = Map::<Seq<char>, Seq<Seq<u8>>>::empty();
    let mut i: usize = 0;
    assert(pairs@.subrange(0, 0) =~= seq![]);
    assert(none.dom() =~= Set::<Seq<char>>::empty());
    while i < pairs.len()
        invariant
            i <= pairs.len(),
            none == Map::<Seq<char>, Seq<Seq<u8>>>::empty(),
            names@ == with_pairs(none, pairs@.subrange(0, i as int)).dom(),
            forall|k: int|
                0 <= k < i ==> pair_fault((#[trigger] pairs@[k]).0@, pairs@[k].1@) is None,
            forall|at: int|
                at < i && #[trigger] is_added(pairs@, at) ==> takes_more(
                    with_pairs(none, pairs@.subrange(0, at)),
                ),
        decreases pairs.len() - i,
    {
        let name: &str = pairs[i].0.as_str();
        if check_header_name(name).is_err() || check_header_value(pairs[i].1.as_str()).is_err() {
            assert(pair_fault(pairs@[i as int].0@, pairs@[i as int].1@) is Some);
            assert forall|at: int| #[trigger] is_added(pairs@, at) implies at < i by {}
            return true;
        }
        assert(is_added(pairs@, i as int));
        if names.len() >= MAX_HEADER_NAMES {
            return false;
        }
        let lower: String = string_of(&lowercased(&chars_of(name)));
        names.insert(lower.as_str());
        proof {
            let grown = pairs@.subrange(0, i + 1);
            assert(grown.drop_last() =~= pairs@.subrange(0, i as int));
            assert(with_pairs(none, grown).dom() =~= names@);
        }
        i = i + 1;
    }
    true
}

/// The header map that pairs of texts write.
pub fn headers_from_pairs(pairs: &Vec<(String, String)>) -> (r: Result<
    http::HeaderMap<http::HeaderValue>,
    String,
>)
    requires
        pairs_fit_spec(pairs@),
    ensures
        match r {
            Ok(map) => first_pair_fault(pairs@) is None && header_contents(map) == with_pairs(
                Map::<Seq<char>, Seq<Seq<u8>>>::empty(),
                pairs@,
            ),
            Err(message) => first_pair_fault(pairs@) == Some(message@),
        },
{
    let mut map = new_headers();
    let ghost none = Map::<Seq<char>, Seq<Seq<u8>>>::empty();
    let mut i: usize = 0;
    assert(header_contents(map) =~= none);
    assert(pairs@.subrange(0, 0) =~= seq![]);
    assert(pairs@.skip(0) =~= pairs@);
    while i < pairs.len()
        invariant
            i <= pairs.len(),
            pairs_fit_spec(pairs@),
            forall|k: int|
                0 <= k < i ==> pair_fault((#[trigger] pairs@[k]).0@, pairs@[k].1@) is None,
            none == Map::<Seq<char>, Seq<Seq<u8>>>::empty(),
            header_contents(map) == with_pairs(none, pairs@.subrange(0, i as int)),
            first_pair_fault(pairs@) == first_pair_fault(pairs@.skip(i as int)),
        decreases pairs.len() - i,
    {
        assert(pairs@.skip(i as int).drop_first() =~= pairs@.skip(i + 1));
        assert(pairs@.subrange(0, i + 1).drop_last() =~= pairs@.subrange(0, i as int));
        if let Err(message) = check_header_name(pairs[i].0.as_str()) {
            return Err(message);
        }
        if let Err(message) = check_header_value(pairs[i].1.as_str()) {
            return Err(message);
        }
        assert(is_added(pairs@, i as int));
        append_header(&mut map, pairs[i].0.as_str(), pairs[i].1.as_str());
        i = i + 1;
    }
    assert(pairs@.subrange(0, pairs@.len() as int) =~= pairs@);
    Ok(map)
}

/// The characters of header names: letters, digits, and fifteen signs.
pub proof fn what_header_names_are_made_of(c: char)
    ensures
        is_token_char(c) <==> (48 <= c as u32 <= 57) || (65 <= c as u32 <= 90) || (97 <= c as u32 <= 122)
            || c == '!' || c == '#' || c == '$' || c == '%' || c == '&' || c == '\'' || c == '*' || c
            == '+' || c == '-' || c == '.' || c == '^' || c == '_' || c == '`' || c == '|' || c == '~',
{
}

/// A name has at least one character and at most 65,535, and a value no control characters but tabs.
pub proof fn which_names_and_values_are_taken(name: Seq<char>, value: Seq<char>, i: int)
    ensures
        name.len() == 0 || name.len() > 65535 ==> !is_header_name(name),
        0 <= i < name.len() && !is_token_char(name[i]) ==> !is_header_name(name),
        0 < name.len() <= 65535 && (forall|k: int| 0 <= k < name.len() ==> is_token_char(#[trigger] name[k]))
            ==> is_header_name(name),
        0 <= i < value.len() && (value[i] as u32 == 127 || ((value[i] as u32) < 32 && value[i] as u32
            != 9)) ==> !is_header_value(value),
        (forall|k: int|
            0 <= k < value.len() ==> (' ' <= #[trigger] value[k] && value[k] != '\u{7f}') || value[k]
                == '\t') ==> is_header_value(value),
        pair_fault(name, value) is None <==> is_header_name(name) && is_header_value(value),
        !is_header_name(name) ==> pair_fault(name, value) == Some("invalid HTTP header name"@),
        is_header_name(name) && !is_header_value(value) ==> pair_fault(name, value) == Some(
            "failed to parse header value"@,
        ),
{
    if forall|k: int|
        0 <= k < value.len() ==> (' ' <= #[trigger] value[k] && value[k] != '\u{7f}') || value[k]
            == '\t' {
        assert forall|k: int| 0 <= k < value.len() implies (#[trigger] value[k] as u32 >= 32
            && value[k] as u32 != 127) || value[k] == '\t' by {
            lemma_code(value[k]);
        }
    }
    if 0 <= i < value.len() {
        lemma_code(value[i]);
    }
}

proof fn lemma_code(c: char)
    ensures
        c as u32 >= 32 <==> ' ' <= c,
        c as u32 == 127 <==> c == '\u{7f}',
        c as u32 == 9 <==> c == '\t',
{
}

/// A header that is added stands under its name in small letters, behind the values that stand there
/// already, and changes no other name's.
pub proof fn where_added_headers_stand(
    contents: Map<Seq<char>, Seq<Seq<u8>>>,
    name: Seq<char>,
    value: Seq<u8>,
    other: Seq<char>,
)
    ensures
        ({
            let key = ascii_lower(name);
            let after = with_header(contents, name, value);
            &&& after.contains_key(key)
            &&& contents.contains_key(key) ==> after[key].len() == contents[key].len() + 1
                && after[key].drop_last() == contents[key]
            &&& !contents.contains_key(key) ==> after[key].len() == 1
            &&& after[key].last() == value
            &&& other != key ==> after.contains_key(other) == contents.contains_key(other) && (
            contents.contains_key(other) ==> after[other] == contents[other])
            &&& with_header(contents, ascii_lower(name), value) == after
        }),
{
    let key = ascii_lower(name);
    if contents.contains_key(key) {
        assert(contents[key].push(value).drop_last() =~= contents[key]);
    }
    assert(ascii_lower(key) =~= key);
}

/// Pairs are added one by one in their order, and the first that cannot be added is the one reported.
pub proof fn pairs_are_added_in_order(
    contents: Map<Seq<char>, Seq<Seq<u8>>>,
    pairs: Seq<(String, String)>,
    pair: (String, String),
)
    ensures
        with_pairs(contents, pairs.push(pair)) == with_header(
            with_pairs(contents, pairs),
            pair.0@,
            encode_utf8(pair.1@),
        ),
        with_pairs(contents, Seq::<(String, String)>::empty()) == contents,
        first_pair_fault(pairs) is Some ==> first_pair_fault(pairs.push(pair)) == first_pair_fault(
            pairs,
        ),
        first_pair_fault(pairs) is None ==> first_pair_fault(pairs.push(pair)) == pair_fault(
            pair.0@,
            pair.1@,
        ),
    decreases pairs.len(),
{
    assert(pairs.push(pair).drop_last() =~= pairs);
    let all = pairs.push(pair);
    if pairs.len() > 0 {
        assert(all[0] == pairs[0]);
        assert(all.drop_first() =~= pairs.drop_first().push(pair));
        pairs_are_added_in_order(contents, pairs.drop_first(), pair);
    } else {
        assert(all[0] == pair);
        assert(all.drop_first() =~= pairs);
    }
}

/// A value's text is there where all its bytes are visible ASCII, blanks or tabs, and has a character
/// for each of them.
pub proof fn which_values_have_a_text(value: Seq<u8>, i: int)
    ensures
        0 <= i < value.len() && value[i] != 9 && (value[i] < 32 || value[i] >= 127) ==> visible_text(
            value,
        ) is None,
        (forall|k: int| 0 <= k < value.len() ==> (32 <= #[trigger] value[k] <= 126) || value[k] == 9)
            ==> visible_text(value) is Some,
        visible_text(value) is Some ==> visible_text(value).unwrap().len() == value.len() && (0 <= i
            < value.len() ==> visible_text(value).unwrap()[i] as u32 == value[i]),
{
}

/// The values under a name are those that the headers hold there, in their order.
pub proof fn values_stand_in_order(contents: Map<Seq<char>, Seq<Seq<u8>>>, name: Seq<char>, i: int)
    ensures
        !contents.contains_key(name) ==> values_under(contents, name).len() == 0,
        contents.contains_key(name) ==> values_under(contents, name).len() == contents[name].len(),
        contents.contains_key(name) && 0 <= i < contents[name].len() ==> values_under(
            contents,
            name,
        )[i] == visible_text(contents[name][i]),
{
}

} // verus!
