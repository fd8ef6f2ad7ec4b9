//! Text as sequences of characters: searching, trimming, case folding, numbers.

use vstd::prelude::*;

verus! {

/// `String::push` appends one character.
pub assume_specification[ String::push ](s: &mut String, c: char)
    ensures
        final(s)@ == old(s)@.push(c),
;

/// `s` in small letters by the rules of Unicode.
pub uninterp spec fn unicode_lower(s: Seq<char>) -> Seq<char>;

/// `str::to_lowercase`: the text in small letters.
#[verifier::external_body]
pub(crate) fn unicode_lowercased(s: &str) -> (r: String)
    ensures
        r@ == unicode_lower(s@),
{
    s.to_lowercase()
}

/// Whether `c` has the Unicode `White_Space` property.
pub open spec fn is_space(c: char) -> bool {
    let n = c as u32;
    (9 <= n && n <= 13) || n == 32 || n == 0x85 || n == 0xA0 || n == 0x1680 || (0x2000 <= n && n
        <= 0x200A) || n == 0x2028 || n == 0x2029 || n == 0x202F || n == 0x205F || n == 0x3000
}

/// Whether `c` is an ASCII decimal digit.
pub open spec fn is_digit(c: char) -> bool {
    '0' <= c && c <= '9'
}

/// Whether `c` is an ASCII hexadecimal digit, in either case.
pub open spec fn is_hex_digit(c: char) -> bool {
    is_digit(c) || ('a' <= c && c <= 'f') || ('A' <= c && c <= 'F')
}

/// `c` with ASCII capitals replaced by small letters.
pub open spec fn lower_char(c: char) -> char {
    if 'A' <= c && c <= 'Z' {
        ((c as u8 + 32) as u8) as char
    } else {
        c
    }
}

/// `s` with ASCII capitals replaced by small letters.
pub open spec fn ascii_lower(s: Seq<char>) -> Seq<char> {
    Seq::new(s.len(), |i: int| lower_char(s[i]))
}

/// Whether `needle` stands in `hay` from position `at` on.
pub open spec fn occurs_at(hay: Seq<char>, needle: Seq<char>, at: int) -> bool {
    0 <= at && at + needle.len() <= hay.len() && hay.subrange(at, at + needle.len()) == needle
}

/// Whether `needle` stands somewhere in `hay`.
pub open spec fn contains(hay: Seq<char>, needle: Seq<char>) -> bool {
    exists|at: int| #[trigger] occurs_at(hay, needle, at)
}

/// `s` without its leading white space.
pub open spec fn trim_start(s: Seq<char>) -> Seq<char>
    decreases s.len(),
{
    if s.len() > 0 && is_space(s[0]) {
        trim_start(s.drop_first())
    } else {
        s
    }
}

/// `s` without its trailing white space.
pub open spec fn trim_end(s: Seq<char>) -> Seq<char>
    decreases s.len(),
{
    if s.len() > 0 && is_space(s.last()) {
        trim_end(s.drop_last())
    } else {
        s
    }
}

/// `s` without white space at either end.
pub open spec fn trimmed(s: Seq<char>) -> Seq<char> {
    trim_end(trim_start(s))
}

/// The character for one hexadecimal digit, in small letters.
pub open spec fn digit_char(n: nat) -> char {
    if n < 10 {
        ((48 + n) as u8) as char
    } else {
        ((87 + n) as u8) as char
    }
}

/// `n` in decimal, without leading zeros.
pub open spec fn decimal(n: nat) -> Seq<char>
    decreases n,
{
    if n < 10 {
        seq![digit_char(n)]
    } else {
        decimal(n / 10).push(digit_char(n % 10))
    }
}

/// The low `width` hexadecimal digits of `n`, most significant first.
pub open spec fn hex(n: nat, width: nat) -> Seq<char>
    decreases width,
{
    if width == 0 {
        seq![]
    } else {
        hex(n / 16, (width - 1) as nat).push(digit_char(n % 16))
    }
}

/// The number that a sequence of decimal digits writes, if it holds nothing else.
pub open spec fn digits_value(s: Seq<char>) -> Option<nat>
    decreases s.len(),
{
    if s.len() == 0 {
        Some(0)
    } else if !is_digit(s.last()) {
        None
    } else {
        match digits_value(s.drop_last()) {
            None => None,
            Some(v) => Some((10 * v + (s.last() as u32 - 48)) as nat),
        }
    }
}

/// `s` without one leading plus sign.
pub open spec fn without_plus(s: Seq<char>) -> Seq<char> {
    if s.len() > 0 && s[0] == '+' {
        s.skip(1)
    } else {
        s
    }
}

/// The number that `s` writes as an optional plus sign and decimal digits,
/// if it is at most `max`.
pub open spec fn parsed_number(s: Seq<char>, max: nat) -> Option<nat> {
    let digits = without_plus(s);
    if digits.len() == 0 {
        None
    } else {
        match digits_value(digits) {
            None => None,
            Some(v) => if v <= max {
                Some(v)
            } else {
                None
            },
        }
    }
}

/// The part of `s` in front of the first `mark`, or all of `s`.
pub open spec fn before_char(s: Seq<char>, mark: char) -> Seq<char>
    decreases s.len(),
{
    if s.len() == 0 || s[0] == mark {
        seq![]
    } else {
        seq![s[0]] + before_char(s.drop_first(), mark)
    }
}

/// The pieces of `s` between the occurrences of `mark`.
pub open spec fn split_on(s: Seq<char>, mark: char) -> Seq<Seq<char>>
    decreases s.len(),
{
    if s.len() == 0 {
        seq![Seq::<char>::empty()]
    } else {
        let rest = split_on(s.drop_last(), mark);
        if s.last() == mark {
            rest.push(Seq::<char>::empty())
        } else {
            rest.update(rest.len() - 1, rest.last().push(s.last()))
        }
    }
}

/// The views of a sequence of strings.
pub open spec fn views(v: Seq<String>) -> Seq<Seq<char>> {
    Seq::new(v.len(), |i: int| v[i]@)
}

pub fn is_space_char(c: char) -> (r: bool)
    ensures
        r == is_space(c),
{
    let n: u32 = c as u32;
    (9 <= n && n <= 13) || n == 32 || n == 0x85 || n == 0xA0 || n == 0x1680 || (0x2000 <= n && n
        <= 0x200A) || n == 0x2028 || n == 0x2029 || n == 0x202F || n == 0x205F || n == 0x3000
}

pub fn is_digit_char(c: char) -> (r: bool)
    ensures
        r == is_digit(c),
{
    '0' <= c && c <= '9'
}

pub fn is_hex_digit_char(c: char) -> (r: bool)
    ensures
        r == is_hex_digit(c),
{
    is_digit_char(c) || ('a' <= c && c <= 'f') || ('A' <= c && c <= 'F')
}

pub fn to_lower_char(c: char) -> (r: char)
    ensures
        r == lower_char(c),
{
    if 'A' <= c && c <= 'Z' {
        (c as u8 + 32) as char
    } else {
        c
    }
}

/// The characters of `s`.
pub fn chars_of(s: &str) -> (r: Vec<char>)
    ensures
        r@ == s@,
{
    let mut out: Vec<char> = Vec::new();
    let n: usize = s.unicode_len();
    let mut i: usize = 0;
    while i < n
        invariant
            n == s@.len(),
            i <= n,
            out@ == s@.subrange(0, i as int),
        decreases n - i,
    {
        out.push(s.get_char(i));
        i = i + 1;
        assert(s@.subrange(0, i as int) =~= s@.subrange(0, i - 1).push(s@[i - 1]));
    }
    assert(s@.subrange(0, n as int) =~= s@);
    out
}

/// The string made of `v`.
pub fn string_of(v: &Vec<char>) -> (r: String)
    ensures
        r@ == v@,
{
    let mut out: String = String::new();
    let mut i: usize = 0;
    while i < v.len()
        invariant
            i <= v.len(),
            out@ == v@.subrange(0, i as int),
        decreases v.len() - i,
    {
        out.push(v[i]);
        i = i + 1;
        assert(v@.subrange(0, i as int) =~= v@.subrange(0, i - 1).push(v@[i - 1]));
    }
    assert(v@.subrange(0, v.len() as int) =~= v@);
    out
}

/// An owned copy of `s`.
pub fn owned(s: &str) -> (r: String)
    ensures
        r@ == s@,
{
    s.to_owned()
}

/// Whether two texts are the same.
pub fn same(a: &str, b: &str) -> (r: bool)
    ensures
        r == (a@ == b@),
{
    let n: usize = a.unicode_len();
    if n != b.unicode_len() {
        return false;
    }
    let x: Vec<char> = chars_of(a);
    let y: Vec<char> = chars_of(b);
    same_chars(&x, &y)
}

/// Whether two character vectors are the same.
pub fn same_chars(a: &Vec<char>, b: &Vec<char>) -> (r: bool)
    ensures
        r == (a@ == b@),
{
    if a.len() != b.len() {
        return false;
    }
    let mut i: usize = 0;
    while i < a.len()
        invariant
            i <= a.len(),
            a.len() == b.len(),
            forall|k: int| 0 <= k < i ==> a@[k] == b@[k],
        decreases a.len() - i,
    {
        if a[i] != b[i] {
            return false;
        }
        i = i + 1;
    }
    assert(a@ =~= b@);
    true
}

/// `a` followed by `b`.
pub fn joined(a: &str, b: &str) -> (r: String)
    ensures
        r@ == a@ + b@,
{
    let mut out: String = a.to_owned();
    out.append(b);
    out
}

/// The characters of `v` from `from` up to `to`.
pub fn slice(v: &Vec<char>, from: usize, to: usize) -> (r: Vec<char>)
    requires
        from <= to <= v.len(),
    ensures
        r@ == v@.subrange(from as int, to as int),
{
    let mut out: Vec<char> = Vec::new();
    let mut i: usize = from;
    while i < to
        invariant
            from <= i <= to <= v.len(),
            out@ == v@.subrange(from as int, i as int),
        decreases to - i,
    {
        out.push(v[i]);
        i = i + 1;
        assert(v@.subrange(from as int, i as int) =~= v@.subrange(from as int, i - 1).push(
            v@[i - 1],
        ));
    }
    out
}

/// Whether `needle` stands in `hay` from position `at` on.
pub fn found_at(hay: &Vec<char>, needle: &Vec<char>, at: usize) -> (r: bool)
    ensures
        r == occurs_at(hay@, needle@, at as int),
{
    if needle.len() > hay.len() || at > hay.len() - needle.len() {
        return false;
    }
    let mut j: usize = 0;
    while j < needle.len()
        invariant
            j <= needle.len(),
            at + needle.len() <= hay.len(),
            forall|k: int| 0 <= k < j ==> hay@[at + k] == needle@[k],
        decreases needle.len() - j,
    {
        if hay[at + j] != needle[j] {
            assert(hay@.subrange(at as int, at + needle.len())[j as int] != needle@[j as int]);
            return false;
        }
        j = j + 1;
    }
    assert(hay@.subrange(at as int, at + needle.len()) =~= needle@);
    true
}

/// Whether `needle` stands somewhere in `hay`.
pub fn has(hay: &Vec<char>, needle: &str) -> (r: bool)
    ensures
        r == contains(hay@, needle@),
{
    let word: Vec<char> = chars_of(needle);
    let mut at: usize = 0;
    while at < hay.len()
        invariant
            at <= hay.len(),
            word@ == needle@,
            forall|k: int| 0 <= k < at ==> !#[trigger] occurs_at(hay@, needle@, k),
        decreases hay.len() - at,
    {
        if found_at(hay, &word, at) {
            return true;
        }
        at = at + 1;
    }
    let r: bool = found_at(hay, &word, at);
    proof {
        assert forall|k: int| #[trigger] occurs_at(hay@, needle@, k) implies r by {
            assert(k <= hay.len());
        }
    }
    r
}

/// Whether `s` begins with `prefix`.
pub fn begins_with(s: &Vec<char>, prefix: &str) -> (r: bool)
    ensures
        r == occurs_at(s@, prefix@, 0),
{
    found_at(s, &chars_of(prefix), 0)
}

/// `s` with ASCII capitals replaced by small letters.
pub fn lowercased(s: &Vec<char>) -> (r: Vec<char>)
    ensures
        r@ == ascii_lower(s@),
{
    let mut out: Vec<char> = Vec::new();
    let mut i: usize = 0;
    while i < s.len()
        invariant
            i <= s.len(),
            out@ == ascii_lower(s@).subrange(0, i as int),
        decreases s.len() - i,
    {
        out.push(to_lower_char(s[i]));
        i = i + 1;
        assert(ascii_lower(s@).subrange(0, i as int) =~= ascii_lower(s@).subrange(0, i - 1).push(
            lower_char(s@[i - 1]),
        ));
    }
    assert(ascii_lower(s@).subrange(0, s.len() as int) =~= ascii_lower(s@));
    out
}

/// `s` without white space at either end.
pub fn trim(s: &Vec<char>) -> (r: Vec<char>)
    ensures
        r@ == trimmed(s@),
{
    let mut i: usize = 0;
    assert(s@.skip(0) =~= s@);
    while i < s.len() && is_space_char(s[i])
        invariant
            i <= s.len(),
            trim_start(s@) == trim_start(s@.skip(i as int)),
        decreases s.len() - i,
    {
        assert(s@.skip(i as int).drop_first() =~= s@.skip(i + 1));
        i = i + 1;
    }
    assert(trim_start(s@) == s@.skip(i as int));
    let mut j: usize = s.len();
    assert(s@.subrange(i as int, j as int) =~= s@.skip(i as int));
    while j > i && is_space_char(s[j - 1])
        invariant
            i <= j <= s.len(),
            trimmed(s@) == trim_end(s@.subrange(i as int, j as int)),
        decreases j,
    {
        assert(s@.subrange(i as int, j as int).drop_last() =~= s@.subrange(i as int, j - 1));
        j = j - 1;
    }
    slice(s, i, j)
}

/// The part of `s` in front of the first `mark`, or all of `s`.
pub fn before(s: &Vec<char>, mark: char) -> (r: Vec<char>)
    ensures
        r@ == before_char(s@, mark),
{
    let mut out: Vec<char> = Vec::new();
    let mut i: usize = 0;
    assert(s@.skip(0) =~= s@);
    assert(out@ + before_char(s@, mark) =~= before_char(s@, mark));
    while i < s.len() && s[i] != mark
        invariant
            i <= s.len(),
            before_char(s@, mark) == out@ + before_char(s@.skip(i as int), mark),
        decreases s.len() - i,
    {
        assert(s@.skip(i as int).drop_first() =~= s@.skip(i + 1));
        let ghost prior = out@;
        out.push(s[i]);
        i = i + 1;
        assert(prior + (seq![s@[i - 1]] + before_char(s@.skip(i as int), mark)) =~= out@
            + before_char(s@.skip(i as int), mark));
    }
    assert(before_char(s@, mark) =~= out@);
    out
}

/// The pieces of `s` between the occurrences of `mark`.
pub fn split(s: &Vec<char>, mark: char) -> (r: Vec<String>)
    ensures
        views(r@) == split_on(s@, mark),
{
    let mut out: Vec<String> = Vec::new();
    let mut piece: String = String::new();
    let mut i: usize = 0;
    assert(s@.subrange(0, 0) =~= Seq::<char>::empty());
    assert(views(out@).push(piece@) =~= split_on(s@.subrange(0, 0), mark));
    while i < s.len()
        invariant
            i <= s.len(),
            views(out@).push(piece@) == split_on(s@.subrange(0, i as int), mark),
        decreases s.len() - i,
    {
        let c: char = s[i];
        let ghost before = s@.subrange(0, i as int);
        assert(s@.subrange(0, i + 1).drop_last() =~= before);
        let ghost olds = views(out@);
        if c == mark {
            out.push(piece);
            piece = String::new();
            assert(views(out@) =~= split_on(before, mark));
            assert(piece@ =~= Seq::<char>::empty());
        } else {
            let ghost last = piece@;
            piece.push(c);
            assert(olds.push(last).update(olds.len() as int, last.push(c)) =~= olds.push(
                piece@,
            ));
        }
        i = i + 1;
    }
    assert(s@.subrange(0, s.len() as int) =~= s@);
    let ghost olds = views(out@);
    out.push(piece);
    assert(views(out@) =~= split_on(s@, mark));
    out
}

fn digit(n: u8) -> (r: char)
    requires
        n < 16,
    ensures
        r == digit_char(n as nat),
{
    if n < 10 {
        (48 + n) as char
    } else {
        (87 + n) as char
    }
}

/// Appends `n` in decimal.
pub fn push_decimal(out: &mut String, n: u128)
    ensures
        final(out)@ == old(out)@ + decimal(n as nat),
    decreases n,
{
    if n < 10 {
        out.push(digit(n as u8));
        assert(out@ =~= old(out)@ + decimal(n as nat));
    } else {
        push_decimal(out, n / 10);
        out.push(digit((n % 10) as u8));
        assert(out@ =~= old(out)@ + decimal(n as nat));
    }
}

/// `n` in decimal.
pub fn decimal_text(n: u128) -> (r: String)
    ensures
        r@ == decimal(n as nat),
{
    let mut out: String = String::new();
    push_decimal(&mut out, n);
    assert(out@ =~= decimal(n as nat));
    out
}

fn push_hex(out: &mut String, n: u64, width: u8)
    ensures
        final(out)@ == old(out)@ + hex(n as nat, width as nat),
    decreases width,
{
    if width > 0 {
        push_hex(out, n / 16, width - 1);
        out.push(digit((n % 16) as u8));
    }
    assert(out@ =~= old(out)@ + hex(n as nat, width as nat));
}

/// `n` as sixteen hexadecimal digits in small letters.
pub fn hex16(n: u64) -> (r: String)
    ensures
        r@ == hex(n as nat, 16),
{
    let mut out: String = String::new();
    push_hex(&mut out, n, 16);
    assert(out@ =~= hex(n as nat, 16));
    out
}

proof fn lemma_digits_grow(s: Seq<char>, k: int)
    requires
        0 <= k <= s.len(),
    ensures
        digits_value(s.subrange(0, k)) is None ==> digits_value(s) is None,
        digits_value(s) is Some ==> digits_value(s.subrange(0, k)) is Some && digits_value(s).unwrap()
            >= digits_value(s.subrange(0, k)).unwrap(),
    decreases s.len(),
{
    if k == s.len() {
        assert(s.subrange(0, k) =~= s);
    } else {
        assert(s.drop_last().subrange(0, k) =~= s.subrange(0, k));
        lemma_digits_grow(s.drop_last(), k);
    }
}

/// The number that `s` writes in decimal, with an optional plus sign, if it is
/// at most `max`.
pub fn parse_number(s: &Vec<char>, max: u64) -> (r: Option<u64>)
    ensures
        r is Some <==> parsed_number(s@, max as nat) is Some,
        r is Some ==> parsed_number(s@, max as nat) == Some(r.unwrap() as nat),
{
    let start: usize = if s.len() > 0 && s[0] == '+' {
        1
    } else {
        0
    };
    let ghost digits = without_plus(s@);
    assert(digits =~= s@.skip(start as int));
    if s.len() == start {
        return None;
    }
    let mut value: u128 = 0;
    let mut i: usize = start;
    assert(digits.subrange(0, 0) =~= Seq::<char>::empty());
    while i < s.len()
        invariant
            start <= i <= s.len(),
            start <= 1,
            start < s.len(),
            digits == s@.skip(start as int),
            digits == without_plus(s@),
            digits_value(digits.subrange(0, i - start)) == Some(value as nat),
            value <= max,
        decreases s.len() - i,
    {
        let c: char = s[i];
        assert(digits.subrange(0, i + 1 - start).drop_last() =~= digits.subrange(0, i - start));
        assert(digits.subrange(0, i + 1 - start).last() == c);
        proof {
            lemma_digits_grow(digits, i + 1 - start);
        }
        if !is_digit_char(c) {
            return None;
        }
        value = value * 10 + (c as u32 - 48) as u128;
        i = i + 1;
        if value > max as u128 {
            return None;
        }
    }
    assert(digits.subrange(0, s.len() - start) =~= digits);
    Some(value as u64)
}

/// The small form of a text has a character for each of its own: the letters `A` to `Z` move by 32
/// places, all others stay. So it is its own small form.
pub proof fn small_forms_differ_in_capitals_only(s: Seq<char>, i: int)
    requires
        0 <= i < s.len(),
    ensures
        ascii_lower(s).len() == s.len(),
        65 <= s[i] as u32 <= 90 ==> ascii_lower(s)[i] as u32 == s[i] as u32 + 32,
        s[i] as u32 <= 64 || 91 <= s[i] as u32 ==> ascii_lower(s)[i] == s[i],
        ascii_lower(ascii_lower(s)) == ascii_lower(s),
{
    assert(ascii_lower(ascii_lower(s)) =~= ascii_lower(s));
}

/// A text holds a word exactly where it can be cut into what comes before the word, the word and
/// what comes behind it.
pub proof fn words_are_found_wherever_they_stand(
    before: Seq<char>,
    word: Seq<char>,
    behind: Seq<char>,
)
    ensures
        contains(before + word + behind, word),
        occurs_at(before + word + behind, word, before.len() as int),
{
    let whole = before + word + behind;
    let at = before.len() as int;
    assert(whole.subrange(at, at + word.len()) =~= word);
    assert(occurs_at(whole, word, at));
}

/// No word is found in a text that cannot be cut around it.
pub proof fn found_words_stand_in_the_text(hay: Seq<char>, word: Seq<char>)
    requires
        contains(hay, word),
    ensures
        exists|before: Seq<char>, behind: Seq<char>| hay == #[trigger] ((before + word)
            + behind),
        word.len() <= hay.len(),
{
    let at = choose|at: int| #[trigger] occurs_at(hay, word, at);
    let before = hay.subrange(0, at);
    let behind = hay.subrange(at + word.len(), hay.len() as int);
    assert(hay =~= (before + word) + behind) by {
        assert forall|i: int| at <= i < at + word.len() implies hay[i] == word[i - at] by {
            assert(hay.subrange(at, at + word.len())[i - at] == hay[i]);
        }
    }
}

/// White space are the characters with the property in Unicode, and no others.
pub proof fn white_space_is_that_of_unicode(c: char)
    ensures
        is_space(c) <==> c == '\t' || c == '\n' || c == '\u{b}' || c == '\u{c}' || c == '\r' || c == ' '
            || c == '\u{85}' || c == '\u{a0}' || c == '\u{1680}' || c == '\u{2000}' || c == '\u{2001}'
            || c == '\u{2002}' || c == '\u{2003}' || c == '\u{2004}' || c == '\u{2005}' || c
            == '\u{2006}' || c == '\u{2007}' || c == '\u{2008}' || c == '\u{2009}' || c == '\u{200a}'
            || c == '\u{2028}' || c == '\u{2029}' || c == '\u{202f}' || c == '\u{205f}' || c
            == '\u{3000}',
{
}

/// Trimming takes the white space off both ends and nothing else.
pub proof fn trimming_takes_the_space_around(before: Seq<char>, core: Seq<char>, behind: Seq<char>)
    requires
        forall|i: int| 0 <= i < before.len() ==> is_space(#[trigger] before[i]),
        forall|i: int| 0 <= i < behind.len() ==> is_space(#[trigger] behind[i]),
        core.len() > 0 ==> !is_space(core[0]) && !is_space(core.last()),
    ensures
        trimmed(before + core + behind) == core,
{
    lemma_trim_start(before, core + behind);
    assert(before + core + behind =~= before + (core + behind));
    if core.len() > 0 {
        assert((core + behind)[0] == core[0]);
        assert(trim_start(core + behind) == core + behind);
        lemma_trim_end(core, behind);
    } else {
        assert(core + behind =~= behind + Seq::<char>::empty());
        lemma_trim_start(behind, Seq::<char>::empty());
        assert(core =~= Seq::<char>::empty());
        assert(trim_start(Seq::<char>::empty()) =~= Seq::<char>::empty());
        assert(trim_end(Seq::<char>::empty()) =~= Seq::<char>::empty());
    }
}

proof fn lemma_trim_start(before: Seq<char>, rest: Seq<char>)
    requires
        forall|i: int| 0 <= i < before.len() ==> is_space(#[trigger] before[i]),
    ensures
        trim_start(before + rest) == trim_start(rest),
    decreases before.len(),
{
    if before.len() > 0 {
        assert((before + rest)[0] == before[0]);
        assert((before + rest).drop_first() =~= before.drop_first() + rest);
        lemma_trim_start(before.drop_first(), rest);
    } else {
        assert(before + rest =~= rest);
    }
}

proof fn lemma_trim_end(core: Seq<char>, behind: Seq<char>)
    requires
        forall|i: int| 0 <= i < behind.len() ==> is_space(#[trigger] behind[i]),
        core.len() > 0,
        !is_space(core.last()),
    ensures
        trim_end(core + behind) == core,
    decreases behind.len(),
{
    if behind.len() > 0 {
        assert((core + behind).last() == behind.last());
        assert((core + behind).drop_last() =~= core + behind.drop_last());
        lemma_trim_end(core, behind.drop_last());
    } else {
        assert(core + behind =~= core);
    }
}

/// A number's decimal digits give the number back, with or without a plus before them, where it is
/// no larger than allowed; they begin with a zero only where the number is zero.
pub proof fn decimal_digits_give_the_number_back(n: nat, max: nat)
    ensures
        n <= max ==> parsed_number(decimal(n), max) == Some(n) && parsed_number(
            seq!['+'] + decimal(n),
            max,
        ) == Some(n),
        n > max ==> parsed_number(decimal(n), max) is None && parsed_number(
            seq!['+'] + decimal(n),
            max,
        ) is None,
        decimal(n).len() > 0,
        decimal(n)[0] == '0' <==> n == 0,
        forall|i: int| 0 <= i < decimal(n).len() ==> 48 <= #[trigger] decimal(n)[i] as u32 <= 57,
{
    lemma_decimal(n);
    assert(decimal(n)[0] != '+');
    assert((seq!['+'] + decimal(n)).skip(1) =~= decimal(n));
}

proof fn lemma_decimal(n: nat)
    ensures
        digits_value(decimal(n)) == Some(n),
        decimal(n).len() > 0,
        decimal(n)[0] == '0' <==> n == 0,
        forall|i: int| 0 <= i < decimal(n).len() ==> 48 <= #[trigger] decimal(n)[i] as u32 <= 57,
    decreases n,
{
    let last = digit_char(n % 10);
    assert(last as u32 == 48 + n % 10);
    if n < 10 {
        assert(decimal(n) == seq![last]);
        assert(seq![last].drop_last() =~= Seq::<char>::empty());
        reveal_with_fuel(digits_value, 2);
    } else {
        let front = decimal(n / 10);
        lemma_decimal(n / 10);
        assert(front.push(last).drop_last() =~= front);
        assert forall|i: int| 0 <= i < decimal(n).len() implies 48 <= #[trigger] decimal(n)[i] as u32
            <= 57 by {
            if i < front.len() {
                assert(decimal(n)[i] == front[i]);
            }
        }
        assert(decimal(n)[0] == front[0]);
    }
}

/// A text with anything but digits behind an optional plus is no number, nor is one without digits.
pub proof fn numbers_are_digits_only(s: Seq<char>, at: int, max: nat)
    ensures
        0 <= at < s.len() && !(48 <= s[at] as u32 <= 57) && !(at == 0 && s[0] == '+')
            ==> parsed_number(s, max) is None,
        s.len() == 0 ==> parsed_number(s, max) is None,
        s.len() == 1 && s[0] == '+' ==> parsed_number(s, max) is None,
{
    if 0 <= at < s.len() && !(48 <= s[at] as u32 <= 57) && !(at == 0 && s[0] == '+') {
        if s[0] == '+' {
            assert(s.skip(1)[at - 1] == s[at]);
            lemma_digits_only(s.skip(1), at - 1);
        } else {
            lemma_digits_only(s, at);
        }
    }
}

proof fn lemma_digits_only(s: Seq<char>, at: int)
    requires
        0 <= at < s.len(),
        !is_digit(s[at]),
    ensures
        digits_value(s) is None,
    decreases s.len(),
{
    if at < s.len() - 1 {
        assert(s.drop_last()[at] == s[at]);
        lemma_digits_only(s.drop_last(), at);
    }
}

/// Hexadecimal text of a width: the last digit is that of the remainder by sixteen, in small letters,
/// and what comes before it is the text of the quotient.
pub proof fn hexadecimal_digits(n: nat, digit: nat, width: nat)
    requires
        digit < 16,
    ensures
        hex(16 * n + digit, width + 1) == hex(n, width).push("0123456789abcdef"@[digit as int]),
        hex(n, width).len() == width,
{
    reveal_strlit("0123456789abcdef");
    assert((16 * n + digit) / 16 == n && (16 * n + digit) % 16 == digit);
    assert(digit_char(digit) == "0123456789abcdef"@[digit as int]);
    lemma_hex_len(n, width);
}

proof fn lemma_hex_len(n: nat, width: nat)
    ensures
        hex(n, width).len() == width,
    decreases width,
{
    if width > 0 {
        lemma_hex_len(n / 16, (width - 1) as nat);
    }
}

/// What stands before a mark is all that comes before its first occurrence, the whole text where the
/// mark does not occur.
pub proof fn text_before_a_mark(front: Seq<char>, rest: Seq<char>, mark: char)
    requires
        forall|i: int| 0 <= i < front.len() ==> #[trigger] front[i] != mark,
    ensures
        before_char(front + seq![mark] + rest, mark) == front,
        before_char(front, mark) == front,
    decreases front.len(),
{
    let whole = front + seq![mark] + rest;
    if front.len() > 0 {
        text_before_a_mark(front.drop_first(), rest, mark);
        assert(whole[0] == front[0]);
        assert(whole.drop_first() =~= front.drop_first() + seq![mark] + rest);
        assert(seq![front[0]] + front.drop_first() =~= front);
    } else {
        assert(whole[0] == mark);
        assert(before_char(whole, mark) =~= front);
        assert(before_char(front, mark) =~= front);
    }
}

/// A text splits at each mark and nowhere else: a part without the mark stays whole, and one behind a
/// mark comes as a part of its own behind those before it.
pub proof fn texts_split_at_marks(before: Seq<char>, part: Seq<char>, mark: char)
    requires
        forall|i: int| 0 <= i < part.len() ==> #[trigger] part[i] != mark,
    ensures
        split_on(part, mark) == seq![part],
        split_on(before + seq![mark] + part, mark) == split_on(before, mark).push(part),
    decreases part.len(),
{
    let whole = before + seq![mark] + part;
    if part.len() > 0 {
        let less = part.drop_last();
        texts_split_at_marks(before, less, mark);
        assert(less.push(part.last()) =~= part);
        assert(split_on(part, mark) =~= seq![part]);
        assert(whole.last() == part.last());
        assert(whole.drop_last() =~= before + seq![mark] + less);
        let rest = split_on(before, mark).push(less);
        assert(rest.update(rest.len() - 1, rest.last().push(part.last())) =~= split_on(
            before,
            mark,
        ).push(part));
    } else {
        assert(part =~= Seq::<char>::empty());
        assert(split_on(part, mark) =~= seq![part]);
        assert(whole.last() == mark);
        assert(whole.drop_last() =~= before);
    }
}

} // verus!
