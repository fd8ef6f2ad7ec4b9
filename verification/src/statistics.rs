//! Crawl statistics: counters, a sliding window, and persistence.

use crate::text::{
    before, before_char, chars_of, is_digit, is_digit_char, is_hex_digit, is_hex_digit_char, is_space,
    is_space_char, occurs_at, begins_with, slice, split, split_on, string_of, text_before_a_mark,
    texts_split_at_marks, views,
};
use crate::text_map::TextMap;
use crate::time::{Duration, Instant, MAX_SPAN_NANOS};
use std::collections::{BTreeMap, VecDeque};
use vstd::prelude::*;

verus! {

/// Key used for statistics persistence.
pub fn statistics_persist_key() -> (r: &'static str)
    ensures
        r@ == "SDK_CRAWLER_STATISTICS_0"@,
{
    "SDK_CRAWLER_STATISTICS_0"
}

/// Error keys are cut to so many characters.
pub const ERROR_KEY_MAX_CHARS: usize = 200;

/// The runs of characters between white space.
pub open spec fn words(s: Seq<char>) -> Seq<Seq<char>>
    decreases s.len(),
{
    if s.len() == 0 {
        seq![]
    } else {
        let front = words(s.drop_last());
        if is_space(s.last()) {
            front
        } else if s.len() == 1 || is_space(s[s.len() - 2]) {
            front.push(seq![s.last()])
        } else {
            front.update(front.len() - 1, front.last().push(s.last()))
        }
    }
}

/// `s` with every run of digits replaced by one number sign.
pub open spec fn collapsed(s: Seq<char>) -> Seq<char>
    decreases s.len(),
{
    if s.len() == 0 {
        seq![]
    } else {
        let front = collapsed(s.drop_last());
        if !is_digit(s.last()) {
            front.push(s.last())
        } else if s.len() > 1 && is_digit(s[s.len() - 2]) {
            front
        } else {
            front.push('#')
        }
    }
}

/// Whether `part` is made of `len` hexadecimal digits.
pub open spec fn is_hex_part(part: Seq<char>, len: nat) -> bool {
    part.len() == len && forall|i: int| 0 <= i < part.len() ==> is_hex_digit(#[trigger] part[i])
}

/// Whether `token` has the form of a UUID: hexadecimal digits in groups of 8, 4, 4, 4 and 12.
pub open spec fn is_uuid(token: Seq<char>) -> bool {
    let parts = split_on(token, '-');
    parts.len() == 5 && is_hex_part(parts[0], 8) && is_hex_part(parts[1], 4) && is_hex_part(
        parts[2],
        4,
    ) && is_hex_part(parts[3], 4) && is_hex_part(parts[4], 12)
}

/// A word of an error without what differs from one occurrence to the next.
pub open spec fn masked(token: Seq<char>) -> Seq<char> {
    if occurs_at(token, "http://"@, 0) || occurs_at(token, "https://"@, 0) {
        "<url>"@
    } else if is_uuid(token) {
        "<uuid>"@
    } else {
        collapsed(token)
    }
}

/// Masked words, separated by blanks.
pub open spec fn masked_line(tokens: Seq<Seq<char>>) -> Seq<char>
    decreases tokens.len(),
{
    if tokens.len() == 0 {
        seq![]
    } else {
        let front = masked_line(tokens.drop_last());
        if front.len() == 0 {
            masked(tokens.last())
        } else {
            front + seq![' '] + masked(tokens.last())
        }
    }
}

/// The key under which an error is counted: the masked words of its first line, cut to two hundred
/// characters.
pub open spec fn error_key(text: Seq<char>) -> Seq<char> {
    let line = masked_line(words(before_char(text, '\n')));
    if line.len() > ERROR_KEY_MAX_CHARS {
        line.subrange(0, ERROR_KEY_MAX_CHARS as int)
    } else {
        line
    }
}

fn split_words(s: &Vec<char>) -> (r: Vec<String>)
    ensures
        views(r@) == words(s@),
{
    let mut out: Vec<String> = Vec::new();
    let mut word: String = String::new();
    let mut inside: bool = false;
    let mut i: usize = 0;
    assert(s@.subrange(0, 0) =~= seq![]);
    assert(views(out@) =~= seq![]);
    while i < s.len()
        invariant
            i <= s.len(),
            inside == (i > 0 && !is_space(s@[i - 1])),
            inside ==> views(out@).push(word@) == words(s@.subrange(0, i as int)),
            !inside ==> views(out@) == words(s@.subrange(0, i as int)) && word@.len() == 0,
        decreases s.len() - i,
    {
        let c: char = s[i];
        let ghost front = s@.subrange(0, i as int);
        let ghost grown = s@.subrange(0, i + 1);
        assert(grown.drop_last() =~= front);
        let ghost done = views(out@);
        let ghost last = word@;
        if is_space_char(c) {
            if inside {
                out.push(word);
                word = String::new();
                assert(views(out@) =~= done.push(last));
                inside = false;
            }
        } else {
            word.push(c);
            if inside {
                assert(done.push(last).update(done.len() as int, last.push(c)) =~= done.push(
                    word@,
                ));
            } else {
                assert(word@ =~= seq![c]);
                inside = true;
            }
        }
        i = i + 1;
    }
    assert(s@.subrange(0, s@.len() as int) =~= s@);
    if inside {
        let ghost done = views(out@);
        let ghost last = word@;
        out.push(word);
        assert(views(out@) =~= done.push(last));
    }
    out
}

fn hex_part(part: &str, len: usize) -> (r: bool)
    ensures
        r == is_hex_part(part@, len as nat),
{
    let v: Vec<char> = chars_of(part);
    if v.len() != len {
        return false;
    }
    let mut i: usize = 0;
    while i < v.len()
        invariant
            i <= v.len(),
            v@ == part@,
            forall|k: int| 0 <= k < i ==> is_hex_digit(#[trigger] part@[k]),
        decreases v.len() - i,
    {
        if !is_hex_digit_char(v[i]) {
            assert(!is_hex_digit(part@[i as int]));
            return false;
        }
        i = i + 1;
    }
    true
}

/// Whether a token has the form of a UUID.
pub fn is_uuid_token(token: &str) -> (r: bool)
    ensures
        r == is_uuid(token@),
{
    let parts: Vec<String> = split(&chars_of(token), '-');
    assert(views(parts@) == split_on(token@, '-'));
    if parts.len() != 5 {
        return false;
    }
    assert(forall|i: int| 0 <= i < 5 ==> split_on(token@, '-')[i] == (#[trigger] parts@[i])@);
    hex_part(parts[0].as_str(), 8) && hex_part(parts[1].as_str(), 4) && hex_part(
        parts[2].as_str(),
        4,
    ) && hex_part(parts[3].as_str(), 4) && hex_part(parts[4].as_str(), 12)
}

fn mask(token: &str) -> (r: String)
    ensures
        r@ == masked(token@),
{
    let v: Vec<char> = chars_of(token);
    if begins_with(&v, "http://") || begins_with(&v, "https://") {
        return crate::text::owned("<url>");
    }
    if is_uuid_token(token) {
        return crate::text::owned("<uuid>");
    }
    let mut out: String = String::new();
    let mut previous: bool = false;
    let mut i: usize = 0;
    assert(v@.subrange(0, 0) =~= seq![]);
    assert(out@ =~= seq![]);
    while i < v.len()
        invariant
            i <= v.len(),
            previous == (i > 0 && is_digit(v@[i - 1])),
            out@ == collapsed(v@.subrange(0, i as int)),
        decreases v.len() - i,
    {
        assert(v@.subrange(0, i + 1).drop_last() =~= v@.subrange(0, i as int));
        if is_digit_char(v[i]) {
            if !previous {
                out.push('#');
            }
            previous = true;
        } else {
            out.push(v[i]);
            previous = false;
        }
        i = i + 1;
    }
    assert(v@.subrange(0, v@.len() as int) =~= v@);
    out
}

/// The key under which an error is counted.
pub fn normalize_error_key(text: &str) -> (r: String)
    ensures
        r@ == error_key(text@),
{
    let tokens: Vec<String> = split_words(&before(&chars_of(text), '\n'));
    let ghost all = views(tokens@);
    let mut line: String = String::new();
    let mut i: usize = 0;
    assert(all.subrange(0, 0) =~= seq![]);
    assert(line@ =~= seq![]);
    while i < tokens.len()
        invariant
            i <= tokens.len(),
            all == views(tokens@),
            line@ == masked_line(all.subrange(0, i as int)),
        decreases tokens.len() - i,
    {
        assert(all.subrange(0, i + 1).drop_last() =~= all.subrange(0, i as int));
        assert(all.subrange(0, i + 1).last() == tokens@[i as int]@);
        let ghost prior = line@;
        let empty: bool = line.as_str().unicode_len() == 0;
        if !empty {
            line.push(' ');
        }
        line.append(mask(tokens[i].as_str()).as_str());
        assert(line@ =~= masked_line(all.subrange(0, i + 1)));
        i = i + 1;
    }
    assert(all.subrange(0, all.len() as int) =~= all);
    let v: Vec<char> = chars_of(line.as_str());
    if v.len() > ERROR_KEY_MAX_CHARS {
        string_of(&slice(&v, 0, ERROR_KEY_MAX_CHARS))
    } else {
        line
    }
}

/// An error's key is short and holds no digit, so errors that differ in numbers alone are counted
/// together.
pub proof fn keys_are_short_and_free_of_digits(text: Seq<char>)
    ensures
        error_key(text).len() <= ERROR_KEY_MAX_CHARS,
        forall|i: int| 0 <= i < error_key(text).len() ==> !is_digit(#[trigger] error_key(text)[i]),
{
    lemma_line_free_of_digits(words(before_char(text, '\n')));
}

/// Errors whose first lines have the same words are counted together, whatever the white space
/// between the words and whatever follows the first line.
pub proof fn equal_words_give_equal_keys(a: Seq<char>, b: Seq<char>)
    requires
        words(before_char(a, '\n')) == words(before_char(b, '\n')),
    ensures
        error_key(a) == error_key(b),
{
}

/// Whether `s` has no white space but single blanks, and none in front.
pub open spec fn is_tidy(s: Seq<char>) -> bool {
    forall|i: int|
        0 <= i < s.len() && is_space(#[trigger] s[i]) ==> s[i] == ' ' && i > 0 && !is_space(s[i - 1])
}

/// An error's key has no white space but single blanks, and none in front.
pub proof fn keys_are_tidy(text: Seq<char>)
    ensures
        is_tidy(error_key(text)),
{
    let line = before_char(text, '\n');
    lemma_words_are_solid(line);
    lemma_line_is_tidy(words(line));
}

/// Whether `s` is a run of characters without white space.
spec fn is_solid(s: Seq<char>) -> bool {
    s.len() > 0 && forall|i: int| 0 <= i < s.len() ==> !is_space(#[trigger] s[i])
}

proof fn lemma_words_are_solid(s: Seq<char>)
    ensures
        forall|i: int| 0 <= i < words(s).len() ==> is_solid(#[trigger] words(s)[i]),
        s.len() > 0 && !is_space(s.last()) ==> words(s).len() > 0,
    decreases s.len(),
{
    if s.len() > 0 {
        let front = words(s.drop_last());
        lemma_words_are_solid(s.drop_last());
        if !is_space(s.last()) && s.len() > 1 && !is_space(s[s.len() - 2]) {
            assert(s.drop_last().last() == s[s.len() - 2]);
            assert(is_solid(front[front.len() - 1]));
            assert(is_solid(front.last().push(s.last())));
        }
    }
}

proof fn lemma_collapsed_is_solid(s: Seq<char>)
    requires
        is_solid(s),
    ensures
        is_solid(collapsed(s)),
    decreases s.len(),
{
    let front = s.drop_last();
    assert(!is_space(s.last()));
    assert(!is_space('#'));
    if front.len() > 0 {
        assert forall|i: int| 0 <= i < front.len() implies !is_space(#[trigger] front[i]) by {
            assert(front[i] == s[i]);
        }
        lemma_collapsed_is_solid(front);
    }
}

proof fn lemma_line_is_tidy(tokens: Seq<Seq<char>>)
    requires
        forall|i: int| 0 <= i < tokens.len() ==> is_solid(#[trigger] tokens[i]),
    ensures
        is_tidy(masked_line(tokens)),
        masked_line(tokens).len() > 0 ==> !is_space(masked_line(tokens).last()),
    decreases tokens.len(),
{
    if tokens.len() > 0 {
        let word = masked(tokens.last());
        assert(is_solid(tokens[tokens.len() - 1]));
        lemma_collapsed_is_solid(tokens.last());
        reveal_strlit("<url>");
        reveal_strlit("<uuid>");
        assert(is_solid(word));
        let front = masked_line(tokens.drop_last());
        assert forall|i: int| 0 <= i < tokens.drop_last().len() implies is_solid(
            #[trigger] tokens.drop_last()[i],
        ) by {
            assert(tokens.drop_last()[i] == tokens[i]);
        }
        lemma_line_is_tidy(tokens.drop_last());
        let line = masked_line(tokens);
        assert(!is_space(word.last())) by {
            assert(word.last() == word[word.len() - 1]);
        }
        if front.len() > 0 {
            let at = front.len();
            assert forall|i: int| 0 <= i < line.len() && is_space(#[trigger] line[i]) implies line[i]
                == ' ' && i > 0 && !is_space(line[i - 1]) by {
                if i < at {
                    assert(line[i] == front[i]);
                    if i > 0 {
                        assert(line[i - 1] == front[i - 1]);
                    }
                } else if i > at {
                    assert(line[i] == word[i - at - 1]);
                } else {
                    assert(line[i - 1] == front.last());
                }
            }
            assert(line.last() == word.last());
        }
    }
}

/// Whether no character of `s` is a digit.
pub open spec fn free_of_digits(s: Seq<char>) -> bool {
    forall|i: int| 0 <= i < s.len() ==> !is_digit(#[trigger] s[i])
}

proof fn lemma_collapsed(s: Seq<char>)
    ensures
        free_of_digits(collapsed(s)),
    decreases s.len(),
{
    if s.len() > 0 {
        lemma_collapsed(s.drop_last());
    }
}

proof fn lemma_line_free_of_digits(tokens: Seq<Seq<char>>)
    ensures
        free_of_digits(masked_line(tokens)),
    decreases tokens.len(),
{
    reveal_strlit("<url>");
    reveal_strlit("<uuid>");
    if tokens.len() > 0 {
        lemma_line_free_of_digits(tokens.drop_last());
        lemma_collapsed(tokens.last());
    }
}

/// The mean of `count` spans that add up to `total`, in whole nanoseconds.
pub fn duration_average(total: Duration, count: u64) -> (r: Duration)
    requires
        count > 0,
    ensures
        r.nanos == total.nanos as nat / count as nat,
{
    Duration { nanos: total.nanos / count as u128 }
}

/// The events from the first one on that lies within `window` before `now`.
pub open spec fn within_window(events: Seq<(Instant, bool)>, now: Instant, window: Duration) -> Seq<
    (Instant, bool),
>
    decreases events.len(),
{
    if events.len() > 0 && now.nanos > events[0].0.nanos + window.nanos {
        within_window(events.drop_first(), now, window)
    } else {
        events
    }
}

/// How many events are successes.
pub open spec fn successes(events: Seq<(Instant, bool)>) -> nat
    decreases events.len(),
{
    if events.len() == 0 {
        0
    } else {
        successes(events.drop_last()) + if events.last().1 {
            1nat
        } else {
            0nat
        }
    }
}

/// The number under a key, zero where there is none.
pub open spec fn count_of(counts: Map<Seq<char>, u64>, key: Seq<char>) -> u64 {
    if counts.contains_key(key) {
        counts[key]
    } else {
        0
    }
}

/// The number under a code, zero where there is none.
pub open spec fn code_count(counts: Map<u16, u64>, code: u16) -> u64 {
    if counts.contains_key(code) {
        counts[code]
    } else {
        0
    }
}

/// The number of terminal requests with a retry count.
pub open spec fn histogram_count(histogram: Seq<u64>, index: int) -> u64 {
    if 0 <= index < histogram.len() {
        histogram[index]
    } else {
        0
    }
}

/// Whether all keys are short enough for error keys.
pub open spec fn has_short_keys(counts: Map<Seq<char>, u64>) -> bool {
    forall|key: Seq<char>| #[trigger] counts.contains_key(key) ==> key.len() <= ERROR_KEY_MAX_CHARS
}

/// The sum of the numbers in a map.
pub open spec fn sum_of<K>(counts: Map<K, u64>) -> nat
    decreases counts.dom().len(),
    when counts.dom().finite()
    via sum_of_terminates::<K>
{
    if counts.dom().len() == 0 {
        0
    } else {
        let k = counts.dom().choose();
        counts[k] as nat + sum_of(counts.remove(k))
    }
}

#[via_fn]
proof fn sum_of_terminates<K>(counts: Map<K, u64>) {
    if counts.dom().len() > 0 {
        let k = counts.dom().choose();
        assert(counts.dom().contains(k));
        assert(counts.remove(k).dom() =~= counts.dom().remove(k));
    }
}

proof fn lemma_sum_remove<K>(counts: Map<K, u64>, key: K)
    requires
        counts.dom().finite(),
        counts.contains_key(key),
    ensures
        sum_of(counts) == counts[key] + sum_of(counts.remove(key)),
    decreases counts.dom().len(),
{
    let k = counts.dom().choose();
    assert(counts.dom().contains(key));
    assert(counts.dom().len() > 0);
    assert(counts.dom().contains(k));
    assert(counts.remove(k).dom() =~= counts.dom().remove(k));
    assert(counts.remove(key).dom() =~= counts.dom().remove(key));
    if k != key {
        let rest = counts.remove(k);
        lemma_sum_remove(rest, key);
        assert(rest.remove(key) =~= counts.remove(key).remove(k));
        lemma_sum_remove(counts.remove(key), k);
    }
}

proof fn lemma_sum_insert<K>(counts: Map<K, u64>, key: K, value: u64)
    requires
        counts.dom().finite(),
    ensures
        counts.insert(key, value).dom().finite(),
        sum_of(counts.insert(key, value)) == sum_of(counts) + value - if counts.contains_key(key) {
            counts[key] as int
        } else {
            0
        },
{
    let grown = counts.insert(key, value);
    assert(grown.dom() =~= counts.dom().insert(key));
    lemma_sum_remove(grown, key);
    if counts.contains_key(key) {
        lemma_sum_remove(counts, key);
        assert(grown.remove(key) =~= counts.remove(key));
    } else {
        assert(grown.remove(key) =~= counts);
    }
}

/// The sum of a sequence of numbers.
pub open spec fn sum_seq(counts: Seq<u64>) -> nat
    decreases counts.len(),
{
    if counts.len() == 0 {
        0
    } else {
        sum_seq(counts.drop_last()) + counts.last() as nat
    }
}

proof fn lemma_sum_raised(before: Seq<u64>, after: Seq<u64>, at: int)
    requires
        before.len() <= after.len(),
        0 <= at,
        forall|i: int|
            0 <= i < after.len() ==> #[trigger] after[i] == histogram_count(before, i) + if i == at {
                1int
            } else {
                0
            },
    ensures
        sum_seq(after) == sum_seq(before) + if at < after.len() {
            1int
        } else {
            0
        },
    decreases after.len(),
{
    if after.len() > 0 {
        let last = after.len() - 1;
        let shorter = after.drop_last();
        let prior = if before.len() == after.len() {
            before.drop_last()
        } else {
            before
        };
        assert forall|i: int| 0 <= i < shorter.len() implies #[trigger] shorter[i]
            == histogram_count(prior, i) + if i == at {
            1int
        } else {
            0
        } by {
            assert(after[i] == shorter[i]);
            assert(histogram_count(prior, i) == histogram_count(before, i));
        }
        lemma_sum_raised(prior, shorter, at);
        assert(after[last] == histogram_count(before, last) + if last == at {
            1int
        } else {
            0
        });
    }
}

/// Accumulated statistics of a crawl.
#[derive(Debug)]
pub struct Statistics {
    pub requests_finished: u64,
    pub requests_failed: u64,
    pub requests_retries: u64,
    pub request_duration_sum: Duration,
    pub request_min_duration: Duration,
    pub request_max_duration: Duration,
    pub status_codes: BTreeMap<u16, u64>,
    pub retry_histogram: Vec<u64>,
    pub errors: TextMap<u64>,
    pub retry_errors: TextMap<u64>,
    pub accumulated_runtime: Duration,
    pub started_at: Option<Instant>,
    pub recent_events: VecDeque<(Instant, bool)>,
    pub window: Duration,
}

/// A point-in-time view of crawl statistics.
#[derive(Debug)]
pub struct StatisticsSnapshot<'a> {
    /// Number of successfully completed requests.
    pub requests_finished: u64,
    /// Number of terminally failed requests.
    pub requests_failed: u64,
    /// Number of retry attempts recorded.
    pub requests_retries: u64,
    /// Successful completions in the sliding window.
    pub finished_in_window: u64,
    /// Terminal failures in the sliding window.
    pub failed_in_window: u64,
    /// Average cumulative processing duration of terminal requests.
    pub request_avg_duration: Duration,
    /// Minimum cumulative processing duration, or zero before any completion.
    pub request_min_duration: Duration,
    /// Maximum cumulative processing duration, or zero before any completion.
    pub request_max_duration: Duration,
    /// Terminal successful responses grouped by HTTP status code.
    pub status_codes: &'a BTreeMap<u16, u64>,
    /// Total time for which crawl runs have been active.
    pub crawler_runtime: Duration,
    /// Terminal completions grouped by retry count, indexed by retry count.
    pub retry_histogram: &'a Vec<u64>,
    /// Terminal failures grouped by their error key.
    pub errors: &'a TextMap<u64>,
    /// Retried failures grouped by their error key.
    pub retry_errors: &'a TextMap<u64>,
}

/// Stored statistics.
#[derive(Debug)]
pub struct PersistedStatistics {
    pub requests_finished: u64,
    pub requests_failed: u64,
    pub requests_retries: u64,
    pub request_duration_sum: Duration,
    pub request_min_duration: Duration,
    pub request_max_duration: Duration,
    pub status_codes: BTreeMap<u16, u64>,
    pub retry_histogram: Vec<u64>,
    pub errors: TextMap<u64>,
    pub retry_errors: TextMap<u64>,
    pub accumulated_runtime: Duration,
}

fn bump(counts: &mut TextMap<u64>, key: &str)
    requires
        count_of(old(counts)@, key@) < u64::MAX,
    ensures
        final(counts)@ == old(counts)@.insert(
            key@,
            (count_of(old(counts)@, key@) + 1) as u64,
        ),
{
    let n: u64 = match counts.get(key) {
        Some(n) => *n,
        None => 0,
    };
    counts.insert(key, n + 1);
}

impl Statistics {
    /// The single counts are no larger than the totals.
    pub open spec fn wf(self) -> bool {
        &&& forall|code: u16| #[trigger]
            self.status_codes@.contains_key(code) ==> self.status_codes@[code]
                <= self.requests_finished
        &&& forall|i: int|
            0 <= i < self.retry_histogram@.len() ==> #[trigger] self.retry_histogram@[i]
                <= self.requests_finished + self.requests_failed
        &&& forall|key: Seq<char>| #[trigger]
            self.errors@.contains_key(key) ==> self.errors@[key] <= self.requests_failed
        &&& forall|key: Seq<char>| #[trigger]
            self.retry_errors@.contains_key(key) ==> self.retry_errors@[key]
                <= self.requests_retries
    }

    /// Nothing has been recorded.
    pub open spec fn is_new(self) -> bool {
        &&& self.requests_finished == 0
        &&& self.requests_failed == 0
        &&& self.requests_retries == 0
        &&& self.request_duration_sum.nanos == 0
        &&& self.request_min_duration.nanos == 0
        &&& self.request_max_duration.nanos == 0
        &&& self.status_codes@ == Map::<u16, u64>::empty()
        &&& self.retry_histogram@.len() == 0
        &&& self.errors@ == Map::<Seq<char>, u64>::empty()
        &&& self.retry_errors@ == Map::<Seq<char>, u64>::empty()
        &&& self.accumulated_runtime.nanos == 0
        &&& self.started_at is None
        &&& self.recent_events@.len() == 0
    }

    /// The statistics add up: the single counts to the totals, no terminal request is missing from
    /// the histogram, the durations lie between the shortest and the longest, and all error keys
    /// are short.
    pub open spec fn adds_up(self) -> bool {
        let total = self.requests_finished + self.requests_failed;
        &&& sum_seq(self.retry_histogram@) == total
        &&& self.errors@.dom().finite()
        &&& sum_of(self.errors@) == self.requests_failed
        &&& self.retry_errors@.dom().finite()
        &&& sum_of(self.retry_errors@) == self.requests_retries
        &&& self.status_codes@.dom().finite()
        &&& sum_of(self.status_codes@) <= self.requests_finished
        &&& self.request_min_duration.nanos * total <= self.request_duration_sum.nanos
        &&& self.request_duration_sum.nanos <= self.request_max_duration.nanos * total
        &&& total == 0 ==> self.request_min_duration.nanos == 0 && self.request_max_duration.nanos
            == 0
        &&& has_short_keys(self.errors@)
        &&& has_short_keys(self.retry_errors@)
    }

    /// Whether one more terminal request of the given duration and retry count can be recorded.
    pub open spec fn has_room(self, duration: Duration, retry_count: u32) -> bool {
        &&& self.requests_finished + self.requests_failed < u64::MAX
        &&& self.request_duration_sum.nanos + duration.nanos <= MAX_SPAN_NANOS
        &&& self.recent_events@.len() < usize::MAX
        &&& histogram_count(self.retry_histogram@, retry_count as int) < u64::MAX
    }

    /// The shortest duration, with one more.
    pub open spec fn min_with(self, duration: Duration) -> Duration {
        if self.requests_finished + self.requests_failed == 0 || duration.nanos
            < self.request_min_duration.nanos {
            duration
        } else {
            self.request_min_duration
        }
    }

    /// The longest duration, with one more.
    pub open spec fn max_with(self, duration: Duration) -> Duration {
        if self.requests_finished + self.requests_failed == 0 || duration.nanos
            > self.request_max_duration.nanos {
            duration
        } else {
            self.request_max_duration
        }
    }

    /// Whether `after` holds one more terminal request than `self` in what successes and failures
    /// share.
    pub open spec fn terminal_recorded(
        self,
        after: Statistics,
        duration: Duration,
        retry_count: u32,
        now: Instant,
        success: bool,
    ) -> bool {
        &&& after.request_duration_sum.nanos == self.request_duration_sum.nanos + duration.nanos
        &&& after.request_min_duration == self.min_with(duration)
        &&& after.request_max_duration == self.max_with(duration)
        &&& after.retry_histogram@.len() == if self.retry_histogram@.len() > retry_count {
            self.retry_histogram@.len()
        } else {
            (retry_count + 1) as nat
        }
        &&& forall|i: int|
            0 <= i < after.retry_histogram@.len() ==> #[trigger] after.retry_histogram@[i]
                == histogram_count(self.retry_histogram@, i) + if i == retry_count {
                1int
            } else {
                0
            }
        &&& after.recent_events@ == within_window(
            self.recent_events@.push((now, success)),
            now,
            self.window,
        )
        &&& after.retry_errors@ == self.retry_errors@
        &&& after.requests_retries == self.requests_retries
        &&& after.accumulated_runtime == self.accumulated_runtime
        &&& after.started_at == self.started_at
        &&& after.window == self.window
    }

    /// Empty statistics with a 60-second rate window.
    pub fn new() -> (r: Statistics)
        ensures
            r.is_new(),
            r.wf(),
            r.adds_up(),
            r.window == Duration::secs(60),
    {
        Statistics::with_window(Duration::from_secs(60))
    }

    /// Empty statistics with a custom sliding-window duration.
    pub fn with_window(window: Duration) -> (r: Statistics)
        ensures
            r.is_new(),
            r.wf(),
            r.adds_up(),
            r.window == window,
    {
        Statistics {
            requests_finished: 0,
            requests_failed: 0,
            requests_retries: 0,
            request_duration_sum: Duration { nanos: 0 },
            request_min_duration: Duration { nanos: 0 },
            request_max_duration: Duration { nanos: 0 },
            status_codes: BTreeMap::new(),
            retry_histogram: Vec::new(),
            errors: TextMap::new(),
            retry_errors: TextMap::new(),
            accumulated_runtime: Duration { nanos: 0 },
            started_at: None,
            recent_events: VecDeque::new(),
            window,
        }
    }

    fn prune(&mut self, now: Instant)
        ensures
            final(self).recent_events@ == within_window(
                old(self).recent_events@,
                now,
                old(self).window,
            ),
            *final(self) == (Statistics { recent_events: final(self).recent_events, ..*old(self) }),
    {
        let ghost all = self.recent_events@;
        let window: Duration = self.window;
        while self.recent_events.len() > 0 && now.saturating_since(self.recent_events[0].0).nanos
            > window.nanos
            invariant
                within_window(all, now, window) == within_window(
                    self.recent_events@,
                    now,
                    window,
                ),
                *self == (Statistics { recent_events: self.recent_events, ..*old(self) }),
            decreases self.recent_events@.len(),
        {
            let ghost prior = self.recent_events@;
            let _ = self.recent_events.pop_front();
            assert(self.recent_events@ =~= prior.drop_first());
        }
    }

    fn record_terminal(&mut self, duration: Duration, retry_count: u32, now: Instant, success: bool)
        requires
            old(self).has_room(duration, retry_count),
        ensures
            old(self).terminal_recorded(*final(self), duration, retry_count, now, success),
            final(self).requests_finished == old(self).requests_finished,
            final(self).requests_failed == old(self).requests_failed,
            final(self).status_codes == old(self).status_codes,
            final(self).errors == old(self).errors,
            final(self).retry_errors == old(self).retry_errors,
    {
        let first: bool = self.requests_finished == 0 && self.requests_failed == 0;
        self.request_duration_sum = Duration {
            nanos: self.request_duration_sum.nanos + duration.nanos,
        };
        if first || duration.nanos < self.request_min_duration.nanos {
            self.request_min_duration = duration;
        }
        if first || duration.nanos > self.request_max_duration.nanos {
            self.request_max_duration = duration;
        }
        let index: usize = retry_count as usize;
        let ghost before = self.retry_histogram@;
        while self.retry_histogram.len() <= index
            invariant
                index == retry_count as usize,
                index < usize::MAX || index == usize::MAX,
                before.len() <= self.retry_histogram@.len(),
                self.retry_histogram@.len() <= index + 1 || self.retry_histogram@.len()
                    == before.len(),
                forall|i: int|
                    0 <= i < self.retry_histogram@.len() ==> #[trigger] self.retry_histogram@[i]
                        == histogram_count(before, i),
                *self == (Statistics { retry_histogram: self.retry_histogram, ..*self }),
                old(self).requests_finished == self.requests_finished,
                old(self).requests_failed == self.requests_failed,
                old(self).requests_retries == self.requests_retries,
                old(self).status_codes == self.status_codes,
                old(self).errors == self.errors,
                old(self).retry_errors == self.retry_errors,
                old(self).accumulated_runtime == self.accumulated_runtime,
                old(self).started_at == self.started_at,
                old(self).window == self.window,
                old(self).recent_events == self.recent_events,
                self.request_duration_sum.nanos == old(self).request_duration_sum.nanos
                    + duration.nanos,
                self.request_min_duration == old(self).min_with(duration),
                self.request_max_duration == old(self).max_with(duration),
            decreases index + 1 - self.retry_histogram@.len(),
        {
            self.retry_histogram.push(0);
        }
        let n: u64 = self.retry_histogram[index];
        assert(n == histogram_count(old(self).retry_histogram@, index as int));
        self.retry_histogram.set(index, n + 1);
        self.recent_events.push_back((now, success));
        self.prune(now);
    }

    /// Whether a successful request leads to `after`.
    pub open spec fn finish_recorded(
        self,
        after: Statistics,
        duration: Duration,
        status_code: Option<u16>,
        retry_count: u32,
        now: Instant,
    ) -> bool {
        &&& self.terminal_recorded(after, duration, retry_count, now, true)
        &&& after.requests_finished == self.requests_finished + 1
        &&& after.requests_failed == self.requests_failed
        &&& after.errors@ == self.errors@
        &&& after.status_codes@ == match status_code {
            Some(code) => self.status_codes@.insert(
                code,
                (code_count(self.status_codes@, code) + 1) as u64,
            ),
            None => self.status_codes@,
        }
    }

    /// Whether a failed request leads to `after`.
    pub open spec fn failure_recorded(
        self,
        after: Statistics,
        duration: Duration,
        error: Seq<char>,
        retry_count: u32,
        now: Instant,
    ) -> bool {
        &&& self.terminal_recorded(after, duration, retry_count, now, false)
        &&& after.requests_finished == self.requests_finished
        &&& after.requests_failed == self.requests_failed + 1
        &&& after.status_codes@ == self.status_codes@
        &&& after.errors@ == self.errors@.insert(
            error_key(error),
            (count_of(self.errors@, error_key(error)) + 1) as u64,
        )
    }

    /// Whether a retry leads to `after`.
    pub open spec fn retry_recorded(self, after: Statistics, error: Seq<char>, now: Instant) -> bool {
        &&& after.requests_retries == self.requests_retries + 1
        &&& after.retry_errors@ == self.retry_errors@.insert(
            error_key(error),
            (count_of(self.retry_errors@, error_key(error)) + 1) as u64,
        )
        &&& after.recent_events@ == within_window(self.recent_events@, now, self.window)
        &&& after == (Statistics {
            requests_retries: after.requests_retries,
            retry_errors: after.retry_errors,
            recent_events: after.recent_events,
            ..self
        })
    }

    /// Records a successful terminal request.
    ///
    /// `duration` is the cumulative per-request processing time across all attempts.
    pub fn record_finished(
        &mut self,
        duration: Duration,
        status_code: Option<u16>,
        retry_count: u32,
        now: Instant,
    )
        requires
            old(self).has_room(duration, retry_count),
            status_code is Some ==> code_count(old(self).status_codes@, status_code.unwrap())
                < u64::MAX,
        ensures
            old(self).wf() ==> final(self).wf(),
            old(self).adds_up() ==> final(self).adds_up(),
            old(self).finish_recorded(*final(self), duration, status_code, retry_count, now),
    {
        self.record_terminal(duration, retry_count, now, true);
        self.requests_finished = self.requests_finished + 1;
        if let Some(code) = status_code {
            let n: u64 = match self.status_codes.get(&code) {
                Some(n) => *n,
                None => 0,
            };
            self.status_codes.insert(code, n + 1);
        }
        proof {
            if old(self).adds_up() {
                lemma_terminal_adds_up(*old(self), *self, duration, retry_count, now, true);
                if let Some(code) = status_code {
                    lemma_sum_insert(
                        old(self).status_codes@,
                        code,
                        (code_count(old(self).status_codes@, code) + 1) as u64,
                    );
                }
            }
        }
    }

    /// Records a terminally failed request.
    ///
    /// `duration` is the cumulative per-request processing time across all attempts.
    pub fn record_failed(
        &mut self,
        duration: Duration,
        error: &str,
        retry_count: u32,
        now: Instant,
    )
        requires
            old(self).has_room(duration, retry_count),
            count_of(old(self).errors@, error_key(error@)) < u64::MAX,
        ensures
            old(self).wf() ==> final(self).wf(),
            old(self).adds_up() ==> final(self).adds_up(),
            old(self).failure_recorded(*final(self), duration, error@, retry_count, now),
    {
        self.record_terminal(duration, retry_count, now, false);
        self.requests_failed = self.requests_failed + 1;
        let key: String = normalize_error_key(error);
        bump(&mut self.errors, key.as_str());
        proof {
            if old(self).adds_up() {
                lemma_terminal_adds_up(*old(self), *self, duration, retry_count, now, false);
                lemma_sum_insert(
                    old(self).errors@,
                    key@,
                    (count_of(old(self).errors@, key@) + 1) as u64,
                );
                keys_are_short_and_free_of_digits(error@);
            }
        }
    }

    /// Records an error that caused a request retry.
    pub fn record_retry(&mut self, error: &str, now: Instant)
        requires
            old(self).requests_retries < u64::MAX,
            count_of(old(self).retry_errors@, error_key(error@)) < u64::MAX,
        ensures
            old(self).wf() ==> final(self).wf(),
            old(self).adds_up() ==> final(self).adds_up(),
            old(self).retry_recorded(*final(self), error@, now),
    {
        self.requests_retries = self.requests_retries + 1;
        let key: String = normalize_error_key(error);
        bump(&mut self.retry_errors, key.as_str());
        self.prune(now);
        proof {
            if old(self).adds_up() {
                lemma_sum_insert(
                    old(self).retry_errors@,
                    key@,
                    (count_of(old(self).retry_errors@, key@) + 1) as u64,
                );
                keys_are_short_and_free_of_digits(error@);
            }
        }
    }

    /// Starts runtime measurement if it is not already running.
    pub fn mark_run_started(&mut self, now: Instant)
        ensures
            *final(self) == (Statistics {
                started_at: match old(self).started_at {
                    Some(at) => Some(at),
                    None => Some(now),
                },
                ..*old(self)
            }),
    {
        if self.started_at.is_none() {
            self.started_at = Some(now);
        }
    }

    /// The time for which crawl runs have been active.
    pub open spec fn runtime(self, now: Instant) -> nat {
        self.accumulated_runtime.nanos as nat + match self.started_at {
            Some(at) => if now.nanos >= at.nanos {
                (now.nanos - at.nanos) as nat
            } else {
                0
            },
            None => 0,
        }
    }

    /// Stops runtime measurement if it is running and accumulates the elapsed time.
    pub fn mark_run_stopped(&mut self, now: Instant)
        requires
            old(self).runtime(now) <= MAX_SPAN_NANOS,
        ensures
            final(self).accumulated_runtime.nanos == old(self).runtime(now),
            *final(self) == (Statistics {
                started_at: None,
                accumulated_runtime: final(self).accumulated_runtime,
                ..*old(self)
            }),
    {
        let runtime: Duration = self.current_runtime(now);
        self.accumulated_runtime = runtime;
        self.started_at = None;
    }

    /// The time for which crawl runs have been active.
    pub fn current_runtime(&self, now: Instant) -> (r: Duration)
        requires
            self.runtime(now) <= MAX_SPAN_NANOS,
        ensures
            r.nanos == self.runtime(now),
    {
        let elapsed: Duration = match self.started_at {
            Some(at) => now.saturating_since(at),
            None => Duration { nanos: 0 },
        };
        Duration { nanos: self.accumulated_runtime.nanos + elapsed.nanos }
    }

    /// Returns a point-in-time view of the current statistics.
    pub fn snapshot(&self, now: Instant) -> (r: StatisticsSnapshot<'_>)
        requires
            self.runtime(now) <= MAX_SPAN_NANOS,
            self.requests_finished + self.requests_failed <= u64::MAX,
        ensures
            r.requests_finished == self.requests_finished,
            r.requests_failed == self.requests_failed,
            r.requests_retries == self.requests_retries,
            r.finished_in_window == successes(within_window(self.recent_events@, now, self.window)),
            r.failed_in_window == within_window(self.recent_events@, now, self.window).len()
                - successes(within_window(self.recent_events@, now, self.window)),
            r.request_avg_duration.nanos == if self.requests_finished + self.requests_failed == 0 {
                0
            } else {
                self.request_duration_sum.nanos as nat / (self.requests_finished
                    + self.requests_failed) as nat
            },
            r.request_min_duration == self.request_min_duration,
            r.request_max_duration == self.request_max_duration,
            *r.status_codes == self.status_codes,
            r.crawler_runtime.nanos == self.runtime(now),
            *r.retry_histogram == self.retry_histogram,
            *r.errors == self.errors,
            *r.retry_errors == self.retry_errors,
            self.adds_up() ==> {
                &&& sum_seq(r.retry_histogram@) == r.requests_finished + r.requests_failed
                &&& sum_of(r.errors@) == r.requests_failed
                &&& sum_of(r.retry_errors@) == r.requests_retries
                &&& sum_of(r.status_codes@) <= r.requests_finished
                &&& r.request_min_duration.nanos <= r.request_avg_duration.nanos
                    <= r.request_max_duration.nanos
                &&& has_short_keys(r.errors@) && has_short_keys(r.retry_errors@)
            },
    {
        let ghost all = self.recent_events@;
        let ghost recent = within_window(all, now, self.window);
        let mut start: usize = 0;
        assert(all.skip(0) =~= all);
        while start < self.recent_events.len() && now.saturating_since(
            self.recent_events[start].0,
        ).nanos > self.window.nanos
            invariant
                start <= self.recent_events@.len(),
                all == self.recent_events@,
                recent == within_window(all.skip(start as int), now, self.window),
            decreases self.recent_events@.len() - start,
        {
            assert(all.skip(start as int).drop_first() =~= all.skip(start + 1));
            start = start + 1;
        }
        assert(recent == all.skip(start as int));
        let mut finished: u64 = 0;
        let mut failed: u64 = 0;
        let mut i: usize = start;
        assert(recent.subrange(0, 0) =~= seq![]);
        while i < self.recent_events.len()
            invariant
                start <= i <= self.recent_events@.len(),
                all == self.recent_events@,
                recent == all.skip(start as int),
                finished == successes(recent.subrange(0, i - start)),
                finished + failed == i - start,
            decreases self.recent_events@.len() - i,
        {
            assert(recent.subrange(0, i + 1 - start).drop_last() =~= recent.subrange(0, i - start));
            assert(recent.subrange(0, i + 1 - start).last() == all[i as int]);
            if self.recent_events[i].1 {
                finished = finished + 1;
            } else {
                failed = failed + 1;
            }
            i = i + 1;
        }
        assert(recent.subrange(0, recent.len() as int) =~= recent);
        let completed: u64 = self.requests_finished + self.requests_failed;
        let average: Duration = if completed == 0 {
            Duration { nanos: 0 }
        } else {
            duration_average(self.request_duration_sum, completed)
        };
        proof {
            if self.adds_up() && completed > 0 {
                lemma_mean_is_between(
                    self.request_duration_sum.nanos as int,
                    completed as int,
                    self.request_min_duration.nanos as int,
                    self.request_max_duration.nanos as int,
                );
            }
        }
        StatisticsSnapshot {
            requests_finished: self.requests_finished,
            requests_failed: self.requests_failed,
            requests_retries: self.requests_retries,
            finished_in_window: finished,
            failed_in_window: failed,
            request_avg_duration: average,
            request_min_duration: self.request_min_duration,
            request_max_duration: self.request_max_duration,
            status_codes: &self.status_codes,
            crawler_runtime: self.current_runtime(now),
            retry_histogram: &self.retry_histogram,
            errors: &self.errors,
            retry_errors: &self.retry_errors,
        }
    }

    /// Whether the single counts of stored statistics are no larger than the totals.
    pub open spec fn is_consistent(persisted: PersistedStatistics) -> bool {
        &&& forall|code: u16| #[trigger]
            persisted.status_codes@.contains_key(code) ==> persisted.status_codes@[code]
                <= persisted.requests_finished
        &&& forall|i: int|
            0 <= i < persisted.retry_histogram@.len() ==> #[trigger] persisted.retry_histogram@[i]
                <= persisted.requests_finished + persisted.requests_failed
        &&& forall|key: Seq<char>| #[trigger]
            persisted.errors@.contains_key(key) ==> persisted.errors@[key]
                <= persisted.requests_failed
        &&& forall|key: Seq<char>| #[trigger]
            persisted.retry_errors@.contains_key(key) ==> persisted.retry_errors@[key]
                <= persisted.requests_retries
    }

    /// Whether `persisted` stores the statistics as they are at `now`.
    pub open spec fn is_stored_as(self, persisted: PersistedStatistics, now: Instant) -> bool {
        &&& persisted.requests_finished == self.requests_finished
        &&& persisted.requests_failed == self.requests_failed
        &&& persisted.requests_retries == self.requests_retries
        &&& persisted.request_duration_sum == self.request_duration_sum
        &&& persisted.request_min_duration == self.request_min_duration
        &&& persisted.request_max_duration == self.request_max_duration
        &&& persisted.status_codes == self.status_codes
        &&& persisted.retry_histogram == self.retry_histogram
        &&& persisted.errors == self.errors
        &&& persisted.retry_errors == self.retry_errors
        &&& persisted.accumulated_runtime.nanos == self.runtime(now)
    }

    /// Whether the statistics are those that `persisted` stores, with the clock stopped and an empty
    /// window.
    pub open spec fn is_restored(self, persisted: PersistedStatistics) -> bool {
        &&& self.requests_finished == persisted.requests_finished
        &&& self.requests_failed == persisted.requests_failed
        &&& self.requests_retries == persisted.requests_retries
        &&& self.request_duration_sum == persisted.request_duration_sum
        &&& self.request_min_duration == persisted.request_min_duration
        &&& self.request_max_duration == persisted.request_max_duration
        &&& self.status_codes == persisted.status_codes
        &&& self.retry_histogram == persisted.retry_histogram
        &&& self.errors == persisted.errors
        &&& self.retry_errors == persisted.retry_errors
        &&& self.accumulated_runtime == persisted.accumulated_runtime
        &&& self.started_at is None
        &&& self.recent_events@.len() == 0
    }

    /// Takes stored statistics up.
    ///
    /// Sliding-window events are not restored, and runtime resumes stopped.
    pub fn restore(&mut self, persisted: PersistedStatistics)
        ensures
            Statistics::is_consistent(persisted) ==> final(self).wf(),
            final(self).is_restored(persisted),
            final(self).window == old(self).window,
    {
        self.requests_finished = persisted.requests_finished;
        self.requests_failed = persisted.requests_failed;
        self.requests_retries = persisted.requests_retries;
        self.request_duration_sum = persisted.request_duration_sum;
        self.request_min_duration = persisted.request_min_duration;
        self.request_max_duration = persisted.request_max_duration;
        self.status_codes = persisted.status_codes;
        self.retry_histogram = persisted.retry_histogram;
        self.errors = persisted.errors;
        self.retry_errors = persisted.retry_errors;
        self.accumulated_runtime = persisted.accumulated_runtime;
        self.started_at = None;
        self.recent_events = VecDeque::new();
    }

    /// Takes the statistics in the form in which they are stored.
    pub fn into_persisted(self, now: Instant) -> (r: PersistedStatistics)
        requires
            self.runtime(now) <= MAX_SPAN_NANOS,
        ensures
            self.wf() ==> Statistics::is_consistent(r),
            self.is_stored_as(r, now),
    {
        let accumulated_runtime: Duration = self.current_runtime(now);
        PersistedStatistics {
            requests_finished: self.requests_finished,
            requests_failed: self.requests_failed,
            requests_retries: self.requests_retries,
            request_duration_sum: self.request_duration_sum,
            request_min_duration: self.request_min_duration,
            request_max_duration: self.request_max_duration,
            status_codes: self.status_codes,
            retry_histogram: self.retry_histogram,
            errors: self.errors,
            retry_errors: self.retry_errors,
            accumulated_runtime,
        }
    }
}

/// No single count runs out before the totals do: statistics whose totals can grow take any
/// response status, retry count and error.
pub proof fn single_counts_never_run_out_first(
    statistics: Statistics,
    code: u16,
    retry_count: u32,
    key: Seq<char>,
)
    requires
        statistics.wf(),
    ensures
        statistics.requests_finished + statistics.requests_failed < u64::MAX ==> {
            &&& code_count(statistics.status_codes@, code) < u64::MAX
            &&& histogram_count(statistics.retry_histogram@, retry_count as int) < u64::MAX
            &&& count_of(statistics.errors@, key) < u64::MAX
        },
        statistics.requests_retries < u64::MAX ==> count_of(statistics.retry_errors@, key)
            < u64::MAX,
{
}

proof fn lemma_mean_is_between(sum: int, count: int, least: int, most: int)
    requires
        count > 0,
        least * count <= sum <= most * count,
    ensures
        least <= sum / count <= most,
{
    let mean = sum / count;
    assert(sum == mean * count + sum % count && 0 <= sum % count < count) by (nonlinear_arith)
        requires
            count > 0,
            mean == sum / count,
    ;
    assert(least <= mean) by (nonlinear_arith)
        requires
            count > 0,
            least * count <= sum,
            sum < mean * count + count,
    ;
    assert(mean <= most) by (nonlinear_arith)
        requires
            count > 0,
            sum <= most * count,
            mean * count <= sum,
    ;
}

proof fn lemma_terminal_adds_up(
    before: Statistics,
    after: Statistics,
    duration: Duration,
    retry_count: u32,
    now: Instant,
    success: bool,
)
    requires
        before.adds_up(),
        before.terminal_recorded(after, duration, retry_count, now, success),
        after.requests_finished + after.requests_failed == before.requests_finished
            + before.requests_failed + 1,
    ensures
        sum_seq(after.retry_histogram@) == after.requests_finished + after.requests_failed,
        after.request_min_duration.nanos * (after.requests_finished + after.requests_failed)
            <= after.request_duration_sum.nanos,
        after.request_duration_sum.nanos <= after.request_max_duration.nanos * (
        after.requests_finished + after.requests_failed),
{
    lemma_sum_raised(before.retry_histogram@, after.retry_histogram@, retry_count as int);
    let total = before.requests_finished + before.requests_failed;
    let sum = before.request_duration_sum.nanos as int;
    let d = duration.nanos as int;
    let least = after.request_min_duration.nanos as int;
    let most = after.request_max_duration.nanos as int;
    let old_least = before.request_min_duration.nanos as int;
    let old_most = before.request_max_duration.nanos as int;
    if total == 0 {
        assert(old_least * total == 0 && old_most * total == 0) by (nonlinear_arith)
            requires
                total == 0,
        ;
        assert(least * 1 == d && most * 1 == d);
    } else {
        assert(least * (total + 1) <= sum + d) by (nonlinear_arith)
            requires
                total > 0,
                old_least * total <= sum,
                least <= old_least,
                least <= d,
        ;
        assert(sum + d <= most * (total + 1)) by (nonlinear_arith)
            requires
                total > 0,
                sum <= old_most * total,
                old_most <= most,
                d <= most,
        ;
    }
}

/// Statistics that are stored and restored lose no count and no running time, at whatever later
/// time they are looked at.
pub proof fn statistics_survive_a_restart(
    before: Statistics,
    stored: PersistedStatistics,
    after: Statistics,
    now: Instant,
    later: Instant,
)
    requires
        before.is_stored_as(stored, now),
        after.is_restored(stored),
    ensures
        after.requests_finished == before.requests_finished,
        after.requests_failed == before.requests_failed,
        after.requests_retries == before.requests_retries,
        after.request_duration_sum == before.request_duration_sum,
        after.request_min_duration == before.request_min_duration,
        after.request_max_duration == before.request_max_duration,
        after.status_codes@ == before.status_codes@,
        after.retry_histogram@ == before.retry_histogram@,
        after.errors@ == before.errors@,
        after.retry_errors@ == before.retry_errors@,
        after.runtime(later) == before.runtime(now),
        before.adds_up() ==> after.adds_up(),
{
}

/// The words of a text: a run of characters between white space is a word, white space belongs to
/// none, and a word behind white space comes behind the words before it.
pub proof fn words_stand_between_white_space(before: Seq<char>, gap: char, word: Seq<char>)
    requires
        is_space(gap),
        word.len() > 0,
        forall|i: int| 0 <= i < word.len() ==> !is_space(#[trigger] word[i]),
    ensures
        words(Seq::<char>::empty()).len() == 0,
        words(before.push(gap)) == words(before),
        words(word) == seq![word],
        words(before.push(gap) + word) == words(before).push(word),
    decreases word.len(),
{
    assert(before.push(gap).drop_last() =~= before);
    let text = before.push(gap) + word;
    let less = word.drop_last();
    assert(!is_space(word[word.len() - 1]));
    assert(text.last() == word.last());
    assert(text.drop_last() =~= before.push(gap) + less);
    if word.len() == 1 {
        assert(less =~= Seq::<char>::empty());
        assert(before.push(gap) + less =~= before.push(gap));
        assert(text[text.len() - 2] == gap);
        assert(seq![word.last()] =~= word);
        assert(words(less) =~= seq![]);
        assert(text.drop_last() =~= before.push(gap));
        assert(words(before.push(gap)) == words(before));
        assert(words(text.drop_last()) == words(before));
        assert(is_space(text[text.len() - 2]));
        assert(!is_space(text.last()));
        assert(words(text) == words(before).push(seq![text.last()]));
        assert(words(word) =~= seq![word]);
    } else {
        assert forall|i: int| 0 <= i < less.len() implies !is_space(#[trigger] less[i]) by {
            assert(less[i] == word[i]);
        }
        words_stand_between_white_space(before, gap, less);
        assert(text[text.len() - 2] == word[word.len() - 2]);
        assert(!is_space(word[word.len() - 2]));
        assert(less.push(word.last()) =~= word);
        assert(words(word) =~= seq![word]);
        let front = words(before).push(less);
        assert(front.update(front.len() - 1, front.last().push(word.last())) =~= words(before).push(
            word,
        ));
    }
}

/// A run of digits counts as one sign, and what is no digit stays as it is.
pub proof fn digits_collapse(before: Seq<char>, digits: Seq<char>, other: char)
    requires
        digits.len() > 0,
        forall|i: int| 0 <= i < digits.len() ==> is_digit(#[trigger] digits[i]),
        before.len() > 0 ==> !is_digit(before.last()),
        !is_digit(other),
    ensures
        collapsed(Seq::<char>::empty()).len() == 0,
        collapsed(before.push(other)) == collapsed(before).push(other),
        collapsed(before + digits) == collapsed(before).push('#'),
        collapsed((before + digits).push(other)) == collapsed(before).push('#').push(other),
    decreases digits.len(),
{
    assert(before.push(other).drop_last() =~= before);
    let text = before + digits;
    assert(text.push(other).drop_last() =~= text);
    assert(text.push(other).last() == other);
    assert(collapsed(text.push(other)) == collapsed(text).push(other));
    assert(text.last() == digits.last());
    assert(is_digit(digits[digits.len() - 1]));
    let less = digits.drop_last();
    assert(text.drop_last() =~= before + less);
    if digits.len() == 1 {
        assert(before + less =~= before);
        if before.len() > 0 {
            assert(text[text.len() - 2] == before.last());
        }
    } else {
        assert forall|i: int| 0 <= i < less.len() implies is_digit(#[trigger] less[i]) by {
            assert(less[i] == digits[i]);
        }
        digits_collapse(before, less, other);
        assert(text[text.len() - 2] == digits[digits.len() - 2]);
    }
}

/// A word that begins as a web address counts as an address, whatever follows, and five groups of 8,
/// 4, 4, 4 and 12 hexadecimal digits with hyphens between as an identifier.
pub proof fn addresses_and_identifiers_are_masked(
    rest: Seq<char>,
    a: Seq<char>,
    b: Seq<char>,
    c: Seq<char>,
    d: Seq<char>,
    e: Seq<char>,
)
    requires
        is_hex_part(a, 8),
        is_hex_part(b, 4),
        is_hex_part(c, 4),
        is_hex_part(d, 4),
        is_hex_part(e, 12),
    ensures
        masked("http://"@ + rest) == "<url>"@,
        masked("https://"@ + rest) == "<url>"@,
        masked(a + seq!['-'] + b + seq!['-'] + c + seq!['-'] + d + seq!['-'] + e) == "<uuid>"@,
{
    assert(("http://"@ + rest).subrange(0, "http://"@.len() as int) =~= "http://"@);
    assert(occurs_at("http://"@ + rest, "http://"@, 0));
    assert(("https://"@ + rest).subrange(0, "https://"@.len() as int) =~= "https://"@);
    assert(occurs_at("https://"@ + rest, "https://"@, 0));
    assert forall|part: Seq<char>, n: nat| #[trigger] is_hex_part(part, n) implies forall|i: int|
        0 <= i < part.len() ==> #[trigger] part[i] != '-' by {
        assert forall|i: int| 0 <= i < part.len() implies #[trigger] part[i] != '-' by {
            assert(is_hex_digit(part[i]));
        }
    }
    let ab = a + seq!['-'] + b;
    let abc = ab + seq!['-'] + c;
    let abcd = abc + seq!['-'] + d;
    let whole = abcd + seq!['-'] + e;
    texts_split_at_marks(a, a, '-');
    texts_split_at_marks(a, b, '-');
    texts_split_at_marks(ab, c, '-');
    texts_split_at_marks(abc, d, '-');
    texts_split_at_marks(abcd, e, '-');
    let parts = split_on(whole, '-');
    assert(parts == seq![a].push(b).push(c).push(d).push(e));
    assert(is_uuid(whole));
    reveal_strlit("http://");
    reveal_strlit("https://");
    assert(is_hex_digit(a[0]));
    assert(whole[0] == a[0]);
    assert("http://"@[0] == 'h' && "https://"@[0] == 'h');
    assert(whole.subrange(0, 7)[0] == whole[0]);
    assert(whole.subrange(0, 8)[0] == whole[0]);
    assert(!occurs_at(whole, "http://"@, 0));
    assert(!occurs_at(whole, "https://"@, 0));
}

/// Only what is an address or an identifier is masked whole; of any other word only the digits.
pub proof fn other_words_lose_their_digits_only(token: Seq<char>)
    ensures
        !occurs_at(token, "http://"@, 0) && !occurs_at(token, "https://"@, 0) && !is_uuid(token)
            ==> masked(token) == collapsed(token),
        is_uuid(token) ==> token.len() == 36,
{
    if is_uuid(token) {
        lemma_split_length(token, '-');
        let parts = split_on(token, '-');
        reveal_with_fuel(joined_length, 6);
        assert(parts.drop_last().len() == 4);
        assert(joined_length(parts) == 32);
    }
}

spec fn joined_length(parts: Seq<Seq<char>>) -> nat
    decreases parts.len(),
{
    if parts.len() == 0 {
        0
    } else {
        joined_length(parts.drop_last()) + parts.last().len()
    }
}

proof fn lemma_split_length(s: Seq<char>, mark: char)
    ensures
        split_on(s, mark).len() > 0,
        joined_length(split_on(s, mark)) + split_on(s, mark).len() == s.len() + 1,
    decreases s.len(),
{
    reveal_with_fuel(joined_length, 2);
    if s.len() > 0 {
        let rest = split_on(s.drop_last(), mark);
        lemma_split_length(s.drop_last(), mark);
        if s.last() == mark {
            assert(rest.push(Seq::<char>::empty()).drop_last() =~= rest);
        } else {
            let grown = rest.update(rest.len() - 1, rest.last().push(s.last()));
            assert(grown.drop_last() =~= rest.drop_last());
        }
    }
}

/// The key of an error is made of its first line alone, its words masked one by one with a blank
/// between two, and cut to two hundred characters.
pub proof fn keys_are_made_of_the_first_line(
    line: Seq<char>,
    rest: Seq<char>,
    tokens: Seq<Seq<char>>,
    token: Seq<char>,
)
    requires
        forall|i: int| 0 <= i < line.len() ==> #[trigger] line[i] != '\n',
    ensures
        error_key(line + seq!['\n'] + rest) == error_key(line),
        masked_line(words(line)).len() <= 200 ==> error_key(line) == masked_line(words(line)),
        masked_line(words(line)).len() > 200 ==> error_key(line) == masked_line(
            words(line),
        ).subrange(0, 200),
        masked_line(seq![token]) == masked(token),
        masked_line(tokens).len() > 0 ==> masked_line(tokens.push(token)) == masked_line(tokens)
            + seq![' '] + masked(token),
{
    text_before_a_mark(line, rest, '\n');
    reveal_with_fuel(masked_line, 2);
    assert(seq![token].drop_last() =~= Seq::<Seq<char>>::empty());
    assert(tokens.push(token).drop_last() =~= tokens);
}

/// The window keeps what is recent: the events at its front that are older than it go, and none
/// behind the first that is not.
pub proof fn old_events_leave_the_window(
    old_events: Seq<(Instant, bool)>,
    recent: Seq<(Instant, bool)>,
    now: Instant,
    window: Duration,
)
    requires
        forall|i: int|
            0 <= i < old_events.len() ==> (#[trigger] old_events[i]).0.nanos + window.nanos < now.nanos,
        recent.len() > 0 ==> now.nanos <= recent[0].0.nanos + window.nanos,
    ensures
        within_window(old_events + recent, now, window) == recent,
    decreases old_events.len(),
{
    let all = old_events + recent;
    if old_events.len() > 0 {
        assert(all[0] == old_events[0]);
        assert(all.drop_first() =~= old_events.drop_first() + recent);
        assert forall|i: int| 0 <= i < old_events.drop_first().len() implies (
        #[trigger] old_events.drop_first()[i]).0.nanos + window.nanos < now.nanos by {
            assert(old_events.drop_first()[i] == old_events[i + 1]);
        }
        old_events_leave_the_window(old_events.drop_first(), recent, now, window);
    } else {
        assert(all =~= recent);
    }
}

/// Successes are counted one by one.
pub proof fn successes_are_counted(
    first: Seq<(Instant, bool)>,
    second: Seq<(Instant, bool)>,
    event: (Instant, bool),
)
    ensures
        successes(first + second) == successes(first) + successes(second),
        event.1 ==> successes(seq![event]) == 1,
        !event.1 ==> successes(seq![event]) == 0,
        successes(first) <= first.len(),
    decreases first.len() + second.len(),
{
    reveal_with_fuel(successes, 2);
    assert(seq![event].drop_last() =~= Seq::<(Instant, bool)>::empty());
    if second.len() > 0 {
        successes_are_counted(first, second.drop_last(), event);
        assert((first + second).last() == second.last());
        assert((first + second).drop_last() =~= first + second.drop_last());
    } else {
        assert(first + second =~= first);
        if first.len() > 0 {
            successes_are_counted(first.drop_last(), second, event);
        }
    }
}

/// What the end of a request adds: its duration to the sum, one to the bar of its retries and to no
/// other, and the shortest and the longest duration are those of all requests so far.
pub proof fn what_the_end_of_a_request_adds(
    before: Statistics,
    after: Statistics,
    duration: Duration,
    retry_count: u32,
    now: Instant,
    success: bool,
    bar: int,
)
    requires
        before.terminal_recorded(after, duration, retry_count, now, success),
    ensures
        after.request_duration_sum.nanos == before.request_duration_sum.nanos + duration.nanos,
        after.request_min_duration.nanos <= duration.nanos <= after.request_max_duration.nanos,
        after.request_min_duration == duration || after.request_min_duration
            == before.request_min_duration,
        after.request_max_duration == duration || after.request_max_duration
            == before.request_max_duration,
        before.requests_finished + before.requests_failed == 0 ==> after.request_min_duration
            == duration && after.request_max_duration == duration,
        before.requests_finished + before.requests_failed > 0 ==> after.request_min_duration.nanos
            <= before.request_min_duration.nanos && before.request_max_duration.nanos
            <= after.request_max_duration.nanos,
        after.retry_histogram@.len() > retry_count,
        before.retry_histogram@.len() <= after.retry_histogram@.len(),
        after.retry_histogram@.len() > before.retry_histogram@.len()
            ==> after.retry_histogram@.len() == retry_count + 1,
        0 <= bar < before.retry_histogram@.len() && bar != retry_count ==> after.retry_histogram@[bar]
            == before.retry_histogram@[bar],
        retry_count < before.retry_histogram@.len() ==> after.retry_histogram@[retry_count as int]
            == before.retry_histogram@[retry_count as int] + 1,
        retry_count >= before.retry_histogram@.len() ==> after.retry_histogram@[retry_count as int]
            == 1,
        before.retry_histogram@.len() <= bar < retry_count ==> after.retry_histogram@[bar] == 0,
        after.requests_retries == before.requests_retries,
        after.retry_errors@ == before.retry_errors@,
        after.started_at == before.started_at,
{
}

/// The last event is always within the window, as it was recorded.
pub proof fn the_last_event_is_in_the_window(
    before: Statistics,
    after: Statistics,
    duration: Duration,
    retry_count: u32,
    now: Instant,
    success: bool,
)
    requires
        before.terminal_recorded(after, duration, retry_count, now, success),
    ensures
        after.recent_events@.len() > 0,
        after.recent_events@.last() == (now, success),
{
    lemma_window_keeps_last(before.recent_events@.push((now, success)), now, before.window);
}

proof fn lemma_window_keeps_last(events: Seq<(Instant, bool)>, now: Instant, window: Duration)
    requires
        events.len() > 0,
        events.last().0 == now,
    ensures
        within_window(events, now, window).len() > 0,
        within_window(events, now, window).last() == events.last(),
    decreases events.len(),
{
    if now.nanos > events[0].0.nanos + window.nanos {
        assert(events.len() > 1);
        lemma_window_keeps_last(events.drop_first(), now, window);
    }
}

/// The running time is what earlier runs took, and of a run under way the time since it began.
pub proof fn runtime_counts_the_current_run(statistics: Statistics, now: Instant)
    ensures
        statistics.started_at is None ==> statistics.runtime(now)
            == statistics.accumulated_runtime.nanos,
        statistics.started_at is Some && statistics.started_at.unwrap().nanos <= now.nanos
            ==> statistics.runtime(now) == statistics.accumulated_runtime.nanos + (now.nanos
            - statistics.started_at.unwrap().nanos),
        statistics.started_at is Some && statistics.started_at.unwrap().nanos > now.nanos
            ==> statistics.runtime(now) == statistics.accumulated_runtime.nanos,
{
}

/// A success counts as one request and one response of its status, where it had one; a failure as one
/// request and one error of its key; a retry as one retry and one of the errors behind retries. Nothing
/// counts twice, and no other count changes.
pub proof fn what_is_counted(
    before: Statistics,
    after: Statistics,
    duration: Duration,
    code: u16,
    error: Seq<char>,
    retry_count: u32,
    now: Instant,
    other_code: u16,
    other_key: Seq<char>,
)
    requires
        code_count(before.status_codes@, code) < u64::MAX,
        count_of(before.errors@, error_key(error)) < u64::MAX,
        count_of(before.retry_errors@, error_key(error)) < u64::MAX,
    ensures
        before.finish_recorded(after, duration, Some(code), retry_count, now) ==> {
            &&& after.requests_finished == before.requests_finished + 1
            &&& after.requests_failed == before.requests_failed
            &&& after.requests_retries == before.requests_retries
            &&& code_count(after.status_codes@, code) == code_count(before.status_codes@, code) + 1
            &&& other_code != code ==> code_count(after.status_codes@, other_code) == code_count(
                before.status_codes@,
                other_code,
            )
            &&& count_of(after.errors@, other_key) == count_of(before.errors@, other_key)
            &&& count_of(after.retry_errors@, other_key) == count_of(before.retry_errors@, other_key)
            &&& after.recent_events@.last() == (now, true)
        },
        before.finish_recorded(after, duration, None, retry_count, now) ==> {
            &&& after.requests_finished == before.requests_finished + 1
            &&& code_count(after.status_codes@, other_code) == code_count(
                before.status_codes@,
                other_code,
            )
        },
        before.failure_recorded(after, duration, error, retry_count, now) ==> {
            &&& after.requests_failed == before.requests_failed + 1
            &&& after.requests_finished == before.requests_finished
            &&& after.requests_retries == before.requests_retries
            &&& count_of(after.errors@, error_key(error)) == count_of(
                before.errors@,
                error_key(error),
            ) + 1
            &&& other_key != error_key(error) ==> count_of(after.errors@, other_key) == count_of(
                before.errors@,
                other_key,
            )
            &&& count_of(after.retry_errors@, other_key) == count_of(before.retry_errors@, other_key)
            &&& code_count(after.status_codes@, other_code) == code_count(
                before.status_codes@,
                other_code,
            )
            &&& after.recent_events@.last() == (now, false)
        },
        before.retry_recorded(after, error, now) ==> {
            &&& after.requests_retries == before.requests_retries + 1
            &&& after.requests_failed == before.requests_failed
            &&& after.requests_finished == before.requests_finished
            &&& count_of(after.retry_errors@, error_key(error)) == count_of(
                before.retry_errors@,
                error_key(error),
            ) + 1
            &&& other_key != error_key(error) ==> count_of(after.retry_errors@, other_key)
                == count_of(before.retry_errors@, other_key)
            &&& after.errors == before.errors
            &&& after.status_codes == before.status_codes
            &&& after.request_duration_sum == before.request_duration_sum
        },
{
    if before.finish_recorded(after, duration, Some(code), retry_count, now) {
        the_last_event_is_in_the_window(before, after, duration, retry_count, now, true);
    }
    if before.failure_recorded(after, duration, error, retry_count, now) {
        the_last_event_is_in_the_window(before, after, duration, retry_count, now, false);
    }
}

} // verus!
