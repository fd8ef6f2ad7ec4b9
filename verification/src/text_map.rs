//! Maps with text keys.

use crate::text::{same, views};
use vstd::prelude::*;

verus! {

/// The value of the first entry under a key.
pub open spec fn first_value<V>(entries: Seq<(String, V)>, key: Seq<char>) -> Option<V>
    decreases entries.len(),
{
    if entries.len() == 0 {
        None
    } else if entries[0].0@ == key {
        Some(entries[0].1)
    } else {
        first_value(entries.drop_first(), key)
    }
}

/// The keys of entries, in their order.
pub open spec fn keys_of<V>(entries: Seq<(String, V)>) -> Seq<Seq<char>> {
    Seq::new(entries.len(), |i: int| entries[i].0@)
}

/// A sequence of texts without those equal to `text`.
pub open spec fn without(texts: Seq<Seq<char>>, text: Seq<char>) -> Seq<Seq<char>>
    decreases texts.len(),
{
    if texts.len() == 0 {
        seq![]
    } else if texts.last() == text {
        without(texts.drop_last(), text)
    } else {
        without(texts.drop_last(), text).push(texts.last())
    }
}

proof fn lemma_without(texts: Seq<Seq<char>>, text: Seq<char>)
    requires
        texts.no_duplicates(),
    ensures
        without(texts, text).no_duplicates(),
        forall|t: Seq<char>| without(texts, text).contains(t) ==> texts.contains(t),
    decreases texts.len(),
{
    if texts.len() > 0 {
        let front = texts.drop_last();
        lemma_without(front, text);
        let rest = without(front, text);
        assert forall|t: Seq<char>| without(texts, text).contains(t) implies texts.contains(t) by {
            if rest.contains(t) {
                assert(front.contains(t));
                let i = choose|i: int| 0 <= i < front.len() && front[i] == t;
                assert(texts[i] == t);
            } else {
                assert(texts[texts.len() - 1] == texts.last());
            }
        }
        if texts.last() != text {
            if rest.contains(texts.last()) {
                assert(front.contains(texts.last()));
                let i = choose|i: int| 0 <= i < front.len() && front[i] == texts.last();
                assert(texts[i] == texts[texts.len() - 1]);
            }
            assert forall|i: int, j: int| 0 <= i < j < rest.push(texts.last()).len() implies rest.push(
                texts.last(),
            )[i] != rest.push(texts.last())[j] by {
                if j == rest.len() {
                    assert(rest.contains(rest[i]));
                }
            }
        }
    }
}

/// A map from texts to values, in the order in which the keys came.
#[derive(Debug)]
pub struct TextMap<V> {
    entries: Vec<(String, V)>,
}

impl<V> View for TextMap<V> {
    type V = Map<Seq<char>, V>;

    closed spec fn view(&self) -> Map<Seq<char>, V> {
        Map::new(
            |key: Seq<char>| first_value(self.entries@, key) is Some,
            |key: Seq<char>| first_value(self.entries@, key).unwrap(),
        )
    }
}

proof fn lemma_push<V>(entries: Seq<(String, V)>, entry: (String, V), key: Seq<char>)
    ensures
        first_value(entries.push(entry), key) == match first_value(entries, key) {
            Some(v) => Some(v),
            None => if entry.0@ == key {
                Some(entry.1)
            } else {
                None
            },
        },
    decreases entries.len(),
{
    if entries.len() == 0 {
        assert(entries.push(entry).drop_first() =~= seq![]);
        reveal_with_fuel(first_value, 2);
    } else {
        assert(entries.push(entry).drop_first() =~= entries.drop_first().push(entry));
        lemma_push(entries.drop_first(), entry, key);
    }
}

proof fn lemma_update<V>(entries: Seq<(String, V)>, at: int, entry: (String, V), key: Seq<char>)
    requires
        0 <= at < entries.len(),
        entries[at].0@ == entry.0@,
        forall|k: int| 0 <= k < at ==> (#[trigger] entries[k]).0@ != entry.0@,
    ensures
        first_value(entries.update(at, entry), key) == if key == entry.0@ {
            Some(entry.1)
        } else {
            first_value(entries, key)
        },
    decreases entries.len(),
{
    if at == 0 {
        assert(entries.update(0, entry).drop_first() =~= entries.drop_first());
    } else {
        assert(entries.update(at, entry).drop_first() =~= entries.drop_first().update(
            at - 1,
            entry,
        ));
        assert(entries[0].0@ != entry.0@);
        assert forall|k: int| 0 <= k < at - 1 implies (#[trigger] entries.drop_first()[k]).0@
            != entry.0@ by {
            assert(entries[k + 1].0@ != entry.0@);
        }
        lemma_update(entries.drop_first(), at - 1, entry, key);
    }
}

proof fn lemma_at<V>(entries: Seq<(String, V)>, at: int, key: Seq<char>)
    requires
        0 <= at < entries.len(),
        entries[at].0@ == key,
        forall|k: int| 0 <= k < at ==> (#[trigger] entries[k]).0@ != key,
    ensures
        first_value(entries, key) == Some(entries[at].1),
    decreases entries.len(),
{
    if at > 0 {
        assert(entries[0].0@ != key);
        assert forall|k: int| 0 <= k < at - 1 implies (#[trigger] entries.drop_first()[k]).0@
            != key by {
            assert(entries[k + 1].0@ != key);
        }
        lemma_at(entries.drop_first(), at - 1, key);
    }
}

proof fn lemma_absent<V>(entries: Seq<(String, V)>, key: Seq<char>)
    requires
        forall|k: int| 0 <= k < entries.len() ==> (#[trigger] entries[k]).0@ != key,
    ensures
        first_value(entries, key) is None,
    decreases entries.len(),
{
    if entries.len() > 0 {
        assert(entries[0].0@ != key);
        assert forall|k: int| 0 <= k < entries.drop_first().len() implies (
        #[trigger] entries.drop_first()[k]).0@ != key by {
            assert(entries[k + 1].0@ != key);
        }
        lemma_absent(entries.drop_first(), key);
    }
}

proof fn lemma_present<V>(entries: Seq<(String, V)>, key: Seq<char>)
    ensures
        first_value(entries, key) is Some <==> exists|i: int|
            0 <= i < entries.len() && (#[trigger] entries[i]).0@ == key,
    decreases entries.len(),
{
    if entries.len() > 0 {
        let rest = entries.drop_first();
        lemma_present(rest, key);
        if first_value(entries, key) is Some {
            if entries[0].0@ != key {
                let i = choose|i: int| 0 <= i < rest.len() && (#[trigger] rest[i]).0@ == key;
                assert(entries[i + 1].0@ == key);
            }
        }
        if exists|i: int| 0 <= i < entries.len() && (#[trigger] entries[i]).0@ == key {
            let i = choose|i: int| 0 <= i < entries.len() && (#[trigger] entries[i]).0@ == key;
            if i > 0 {
                assert(rest[i - 1].0@ == key);
            }
        }
    }
}

impl<V> TextMap<V> {
    /// No key is there twice.
    #[verifier::type_invariant]
    closed spec fn distinct(self) -> bool {
        keys_of(self.entries@).no_duplicates()
    }

    /// The keys, in the order in which they came.
    pub closed spec fn order(self) -> Seq<Seq<char>> {
        keys_of(self.entries@)
    }

    /// A map without entries.
    pub fn new() -> (r: TextMap<V>)
        ensures
            r@ == Map::<Seq<char>, V>::empty(),
            r.order() == Seq::<Seq<char>>::empty(),
    {
        let r = TextMap { entries: Vec::new() };
        assert(r@ =~= Map::<Seq<char>, V>::empty());
        assert(r.order() =~= Seq::<Seq<char>>::empty());
        r
    }

    fn position(&self, key: &str) -> (r: Option<usize>)
        ensures
            match r {
                Some(i) => {
                    &&& i < self.entries@.len()
                    &&& self.entries@[i as int].0@ == key@
                    &&& forall|k: int| 0 <= k < i ==> (#[trigger] self.entries@[k]).0@ != key@
                },
                None => forall|k: int|
                    0 <= k < self.entries@.len() ==> (#[trigger] self.entries@[k]).0@ != key@,
            },
    {
        let mut i: usize = 0;
        while i < self.entries.len()
            invariant
                i <= self.entries.len(),
                forall|k: int| 0 <= k < i ==> (#[trigger] self.entries@[k]).0@ != key@,
            decreases self.entries.len() - i,
        {
            if same(self.entries[i].0.as_str(), key) {
                return Some(i);
            }
            i = i + 1;
        }
        None
    }

    /// The value under a key.
    pub fn get(&self, key: &str) -> (r: Option<&V>)
        ensures
            match r {
                Some(v) => self@.contains_key(key@) && *v == self@[key@],
                None => !self@.contains_key(key@),
            },
    {
        match self.position(key) {
            Some(i) => {
                proof {
                    lemma_at(self.entries@, i as int, key@);
                }
                Some(&self.entries[i].1)
            },
            None => {
                proof {
                    lemma_absent(self.entries@, key@);
                }
                None
            },
        }
    }

    /// Whether there is a value under a key.
    pub fn contains_key(&self, key: &str) -> (r: bool)
        ensures
            r == self@.contains_key(key@),
    {
        self.get(key).is_some()
    }

    /// The keys, in the order in which they came.
    pub fn keys(&self) -> (r: Vec<String>)
        ensures
            views(r@) == self.order(),
            self.order().no_duplicates(),
            forall|key: Seq<char>| #[trigger]
                self@.contains_key(key) <==> exists|i: int|
                    0 <= i < r@.len() && (#[trigger] r@[i])@ == key,
    {
        let mut out: Vec<String> = Vec::new();
        let mut i: usize = 0;
        while i < self.entries.len()
            invariant
                i <= self.entries.len(),
                out@.len() == i,
                forall|k: int| 0 <= k < i ==> (#[trigger] out@[k])@ == self.entries@[k].0@,
            decreases self.entries.len() - i,
        {
            out.push(self.entries[i].0.clone());
            i = i + 1;
        }
        proof {
            use_type_invariant(self);
            assert(views(out@) =~= self.order());
            assert forall|key: Seq<char>| #[trigger]
                self@.contains_key(key) <==> exists|i: int|
                    0 <= i < out@.len() && (#[trigger] out@[i])@ == key by {
                lemma_present(self.entries@, key);
                if exists|i: int| 0 <= i < out@.len() && (#[trigger] out@[i])@ == key {
                    let i = choose|i: int| 0 <= i < out@.len() && (#[trigger] out@[i])@ == key;
                    assert(self.entries@[i].0@ == key);
                }
                if exists|i: int| 0 <= i < self.entries@.len() && (#[trigger] self.entries@[i]).0@
                    == key {
                    let i = choose|i: int|
                        0 <= i < self.entries@.len() && (#[trigger] self.entries@[i]).0@ == key;
                    assert(out@[i]@ == key);
                }
            }
        }
        out
    }

    /// Puts a value under a key, in place of the one that is there.
    pub fn insert(&mut self, key: &str, value: V)
        ensures
            final(self)@ == old(self)@.insert(key@, value),
            final(self).order() == if old(self)@.contains_key(key@) {
                old(self).order()
            } else {
                old(self).order().push(key@)
            },
    {
        proof {
            use_type_invariant(&*self);
        }
        let at: Option<usize> = self.position(key);
        let mut entries: Vec<(String, V)> = Vec::new();
        std::mem::swap(&mut self.entries, &mut entries);
        let ghost before = entries@;
        let entry: (String, V) = (key.to_owned(), value);
        let ghost pair = entry;
        match at {
            Some(i) => {
                entries.set(i, entry);
                proof {
                    lemma_at(before, i as int, key@);
                    assert(keys_of(entries@) =~= keys_of(before));
                    assert forall|k: Seq<char>| #[trigger]
                        first_value(entries@, k) == if k == key@ {
                            Some(value)
                        } else {
                            first_value(before, k)
                        } by {
                        lemma_update(before, i as int, pair, k);
                    }
                }
            },
            None => {
                entries.push(entry);
                proof {
                    lemma_absent(before, key@);
                    assert(keys_of(entries@) =~= keys_of(before).push(key@));
                    assert forall|k: Seq<char>| #[trigger]
                        first_value(entries@, k) == if k == key@ {
                            Some(value)
                        } else {
                            first_value(before, k)
                        } by {
                        lemma_push(before, pair, k);
                    }
                }
            },
        }
        self.entries = entries;
        assert(self@ =~= old(self)@.insert(key@, value));
    }

    /// Removes a key and hands out its value.
    pub fn remove(&mut self, key: &str) -> (r: Option<V>)
        ensures
            match r {
                Some(v) => old(self)@.contains_key(key@) && v == old(self)@[key@],
                None => !old(self)@.contains_key(key@),
            },
            final(self)@ == old(self)@.remove(key@),
            final(self).order() == without(old(self).order(), key@),
    {
        proof {
            use_type_invariant(&*self);
        }
        let mut rest: Vec<(String, V)> = Vec::new();
        let mut found: Option<V> = None;
        let mut entries: Vec<(String, V)> = Vec::new();
        std::mem::swap(&mut self.entries, &mut entries);
        let ghost all = entries@;
        let ghost mut at: int = 0;
        assert(all.subrange(0, 0) =~= seq![]);
        assert(keys_of(rest@) =~= without(keys_of(all.subrange(0, 0)), key@));
        for entry in iter: entries
            invariant
                iter.seq() == all,
                at == iter.index(),
                found == first_value(all.subrange(0, at), key@),
                keys_of(rest@) == without(keys_of(all.subrange(0, at)), key@),
                forall|k: Seq<char>| #[trigger]
                    first_value(rest@, k) == if k == key@ {
                        None
                    } else {
                        first_value(all.subrange(0, at), k)
                    },
        {
            let ghost pair = entry;
            let ghost prior = rest@;
            proof {
                assert(pair == all[at]);
                assert(all.subrange(0, at + 1) =~= all.subrange(0, at).push(pair));
                assert(keys_of(all.subrange(0, at + 1)).drop_last() =~= keys_of(
                    all.subrange(0, at),
                ));
                assert(keys_of(prior.push(pair)) =~= keys_of(prior).push(pair.0@));
                assert forall|k: Seq<char>| #[trigger]
                    first_value(all.subrange(0, at + 1), k) == match first_value(
                        all.subrange(0, at),
                        k,
                    ) {
                        Some(v) => Some(v),
                        None => if pair.0@ == k {
                            Some(pair.1)
                        } else {
                            None
                        },
                    } by {
                    lemma_push(all.subrange(0, at), pair, k);
                }
                assert forall|k: Seq<char>| #[trigger]
                    first_value(prior.push(pair), k) == match first_value(prior, k) {
                        Some(v) => Some(v),
                        None => if pair.0@ == k {
                            Some(pair.1)
                        } else {
                            None
                        },
                    } by {
                    lemma_push(prior, pair, k);
                }
            }
            if same(entry.0.as_str(), key) {
                if found.is_none() {
                    found = Some(entry.1);
                }
            } else {
                rest.push(entry);
            }
            proof {
                at = at + 1;
            }
        }
        assert(all.subrange(0, all.len() as int) =~= all);
        proof {
            lemma_without(keys_of(all), key@);
        }
        self.entries = rest;
        assert(self@ =~= old(self)@.remove(key@));
        found
    }
}

/// Taking a text out of a list leaves all others, in their order.
pub proof fn other_texts_stay_in_order(
    first: Seq<Seq<char>>,
    second: Seq<Seq<char>>,
    text: Seq<char>,
    other: Seq<char>,
)
    requires
        other != text,
    ensures
        without(first + second, text) == without(first, text) + without(second, text),
        without(seq![text], text).len() == 0,
        without(seq![other], text) == seq![other],
    decreases second.len(),
{
    reveal_with_fuel(without, 2);
    assert(seq![text].drop_last() =~= Seq::<Seq<char>>::empty());
    assert(seq![other].drop_last() =~= Seq::<Seq<char>>::empty());
    assert(Seq::<Seq<char>>::empty().push(other) =~= seq![other]);
    if second.len() > 0 {
        other_texts_stay_in_order(first, second.drop_last(), text, other);
        assert((first + second).last() == second.last());
        assert((first + second).drop_last() =~= first + second.drop_last());
        assert(without(first + second, text) =~= without(first, text) + without(second, text));
    } else {
        assert(first + second =~= first);
        assert(without(first, text) + without(second, text) =~= without(first, text));
    }
}

} // verus!
