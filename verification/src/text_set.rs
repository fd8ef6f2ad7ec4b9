//! Sets of texts.

use crate::text::{owned, same, views};
use crate::text_map::without;
use vstd::prelude::*;

verus! {

/// A set of texts, in the order in which they came.
#[derive(Debug)]
pub struct TextSet {
    items: Vec<String>,
}

impl View for TextSet {
    type V = Set<Seq<char>>;

    closed spec fn view(&self) -> Set<Seq<char>> {
        views(self.items@).to_set()
    }
}

/// The texts of a sequence of strings.
pub open spec fn texts_of(items: Seq<String>) -> Set<Seq<char>> {
    views(items).to_set()
}

proof fn lemma_without_absent(texts: Seq<Seq<char>>, text: Seq<char>)
    requires
        forall|k: int| 0 <= k < texts.len() ==> texts[k] != text,
    ensures
        without(texts, text) == texts,
    decreases texts.len(),
{
    if texts.len() > 0 {
        lemma_without_absent(texts.drop_last(), text);
        assert(texts.drop_last().push(texts.last()) =~= texts);
    } else {
        assert(without(texts, text) =~= texts);
    }
}

proof fn lemma_without_one(texts: Seq<Seq<char>>, at: int)
    requires
        texts.no_duplicates(),
        0 <= at < texts.len(),
    ensures
        without(texts, texts[at]) == texts.remove(at),
    decreases texts.len(),
{
    let front = texts.drop_last();
    if at == texts.len() - 1 {
        lemma_without_absent(front, texts[at]);
        assert(texts.remove(at) =~= front);
    } else {
        assert(texts[at] != texts[texts.len() - 1]);
        lemma_without_one(front, at);
        assert(texts.remove(at) =~= front.remove(at).push(texts.last()));
    }
}

impl TextSet {
    /// No text is there twice.
    #[verifier::type_invariant]
    closed spec fn distinct(self) -> bool {
        views(self.items@).no_duplicates()
    }

    /// The texts, in the order in which they came.
    pub closed spec fn order(self) -> Seq<Seq<char>> {
        views(self.items@)
    }

    /// A set without texts.
    pub fn new() -> (r: TextSet)
        ensures
            r@ == Set::<Seq<char>>::empty(),
            r.order() == Seq::<Seq<char>>::empty(),
    {
        let r = TextSet { items: Vec::new() };
        assert(r.order() =~= Seq::<Seq<char>>::empty());
        assert(r@ =~= Set::<Seq<char>>::empty());
        r
    }

    /// The texts of a vector.
    pub fn from_texts(texts: &Vec<String>) -> (r: TextSet)
        ensures
            r@ == texts_of(texts@),
    {
        let mut out: TextSet = TextSet::new();
        let mut i: usize = 0;
        assert(views(texts@.subrange(0, 0)).to_set() =~= Set::<Seq<char>>::empty());
        while i < texts.len()
            invariant
                i <= texts.len(),
                out@ == texts_of(texts@.subrange(0, i as int)),
            decreases texts.len() - i,
        {
            out.insert(texts[i].as_str());
            proof {
                let before = views(texts@.subrange(0, i as int));
                let after = views(texts@.subrange(0, i + 1));
                assert(after =~= before.push(texts@[i as int]@));
                assert(after.to_set() =~= before.to_set().insert(texts@[i as int]@)) by {
                    assert forall|t: Seq<char>| after.to_set().contains(t) == before.to_set().insert(
                        texts@[i as int]@,
                    ).contains(t) by {
                        if before.contains(t) {
                            let k = choose|k: int| 0 <= k < before.len() && before[k] == t;
                            assert(after[k] == t);
                        }
                        assert(after[i as int] == texts@[i as int]@);
                        if after.contains(t) && t != texts@[i as int]@ {
                            let k = choose|k: int| 0 <= k < after.len() && after[k] == t;
                            assert(before[k] == t);
                        }
                    }
                }
            }
            i = i + 1;
        }
        assert(texts@.subrange(0, texts@.len() as int) =~= texts@);
        out
    }

    fn position(&self, text: &str) -> (r: Option<usize>)
        ensures
            match r {
                Some(i) => i < self.items@.len() && self.items@[i as int]@ == text@,
                None => forall|k: int|
                    0 <= k < self.items@.len() ==> (#[trigger] self.items@[k])@ != text@,
            },
    {
        let mut i: usize = 0;
        while i < self.items.len()
            invariant
                i <= self.items.len(),
                forall|k: int| 0 <= k < i ==> (#[trigger] self.items@[k])@ != text@,
            decreases self.items.len() - i,
        {
            if same(self.items[i].as_str(), text) {
                return Some(i);
            }
            i = i + 1;
        }
        None
    }

    /// Whether a text is in the set.
    pub fn contains(&self, text: &str) -> (r: bool)
        ensures
            r == self@.contains(text@),
    {
        match self.position(text) {
            Some(i) => {
                assert(views(self.items@)[i as int] == text@);
                true
            },
            None => {
                assert forall|k: int| 0 <= k < views(self.items@).len() implies views(
                    self.items@,
                )[k] != text@ by {
                    assert(self.items@[k]@ != text@);
                }
                false
            },
        }
    }

    /// Puts a text into the set, and tells whether it is new.
    pub fn insert(&mut self, text: &str) -> (r: bool)
        ensures
            r == !old(self)@.contains(text@),
            final(self)@ == old(self)@.insert(text@),
            final(self).order() == if old(self)@.contains(text@) {
                old(self).order()
            } else {
                old(self).order().push(text@)
            },
    {
        proof {
            use_type_invariant(&*self);
        }
        if self.contains(text) {
            assert(self@ =~= old(self)@.insert(text@));
            return false;
        }
        let mut items: Vec<String> = Vec::new();
        std::mem::swap(&mut self.items, &mut items);
        let ghost before = views(items@);
        let copy: String = owned(text);
        items.push(copy);
        proof {
            assert(views(items@) =~= before.push(text@));
            assert(!before.contains(text@));
            assert(before.push(text@).to_set() =~= before.to_set().insert(text@)) by {
                assert forall|t: Seq<char>| before.push(text@).to_set().contains(t)
                    == before.to_set().insert(text@).contains(t) by {
                    if before.contains(t) {
                        let k = choose|k: int| 0 <= k < before.len() && before[k] == t;
                        assert(before.push(text@)[k] == t);
                    }
                    assert(before.push(text@)[before.len() as int] == text@);
                    if before.push(text@).contains(t) && t != text@ {
                        let k = choose|k: int|
                            0 <= k < before.push(text@).len() && before.push(text@)[k] == t;
                        assert(before[k] == t);
                    }
                }
            }
        }
        self.items = items;
        true
    }

    /// Takes a text out of the set, and tells whether it was there.
    pub fn remove(&mut self, text: &str) -> (r: bool)
        ensures
            r == old(self)@.contains(text@),
            final(self)@ == old(self)@.remove(text@),
            final(self).order() == without(old(self).order(), text@),
    {
        proof {
            use_type_invariant(&*self);
        }
        let at: Option<usize> = self.position(text);
        match at {
            None => {
                proof {
                    let all = views(self.items@);
                    assert forall|k: int| 0 <= k < all.len() implies all[k] != text@ by {
                        assert(self.items@[k]@ != text@);
                    }
                    assert(self@ =~= old(self)@.remove(text@));
                    lemma_without_absent(all, text@);
                }
                false
            },
            Some(i) => {
                let mut items: Vec<String> = Vec::new();
                std::mem::swap(&mut self.items, &mut items);
                let ghost before = views(items@);
                let _ = items.remove(i);
                proof {
                    let after = views(items@);
                    assert(after =~= before.remove(i as int));
                    assert(before[i as int] == text@);
                    assert(after.no_duplicates());
                    assert forall|t: Seq<char>| after.to_set().contains(t)
                        == before.to_set().remove(text@).contains(t) by {
                        if after.contains(t) {
                            let k = choose|k: int| 0 <= k < after.len() && after[k] == t;
                            if k < i {
                                assert(before[k] == t);
                            } else {
                                assert(before[k + 1] == t);
                            }
                        }
                        if before.contains(t) && t != text@ {
                            let k = choose|k: int| 0 <= k < before.len() && before[k] == t;
                            if k < i {
                                assert(after[k] == t);
                            } else {
                                assert(after[k - 1] == t);
                            }
                        }
                    }
                    assert(after.to_set() =~= before.to_set().remove(text@));
                    lemma_without_one(before, i as int);
                }
                self.items = items;
                true
            },
        }
    }

    /// How many texts are in the set.
    pub fn len(&self) -> (r: usize)
        ensures
            r == self@.len(),
            self@.finite(),
    {
        proof {
            use_type_invariant(self);
            views(self.items@).unique_seq_to_set();
        }
        self.items.len()
    }

    /// The texts, in the order in which they came.
    pub fn to_texts(&self) -> (r: Vec<String>)
        ensures
            texts_of(r@) == self@,
            views(r@) == self.order(),
            self.order().no_duplicates(),
    {
        proof {
            use_type_invariant(self);
        }
        let mut out: Vec<String> = Vec::new();
        let mut i: usize = 0;
        while i < self.items.len()
            invariant
                i <= self.items.len(),
                out@.len() == i,
                forall|k: int| 0 <= k < i ==> (#[trigger] out@[k])@ == self.items@[k]@,
            decreases self.items.len() - i,
        {
            out.push(self.items[i].clone());
            i = i + 1;
        }
        assert(views(out@) =~= views(self.items@));
        out
    }
}

} // verus!
