//! Text: maps from text to text, as they hold the headers and the query
//! parameters of a request, and the search for a character in a text.

use vstd::prelude::*;

verus! {

/// The mapping that a list of pairs stands for: later pairs win.
pub open spec fn assoc(pairs: Seq<(Seq<char>, Seq<char>)>) -> Map<Seq<char>, Seq<char>>
    decreases pairs.len(),
{
    if pairs.len() == 0 {
        Map::empty()
    } else {
        assoc(pairs.drop_last()).insert(pairs.last().0, pairs.last().1)
    }
}

/// Some pair has the key `key`.
pub open spec fn has_key(pairs: Seq<(Seq<char>, Seq<char>)>, key: Seq<char>) -> bool {
    exists|i: int| 0 <= i < pairs.len() && (#[trigger] pairs[i]).0 == key
}

/// No key occurs twice among the pairs.
pub open spec fn distinct_keys(pairs: Seq<(Seq<char>, Seq<char>)>) -> bool {
    forall|i: int, j: int|
        0 <= i < j < pairs.len() ==> (#[trigger] pairs[i]).0 != (#[trigger] pairs[j]).0
}

/// One more pair at the end is one more write to the mapping.
pub proof fn lemma_assoc_push(pairs: Seq<(Seq<char>, Seq<char>)>, pair: (Seq<char>, Seq<char>))
    ensures
        assoc(pairs.push(pair)) == assoc(pairs).insert(pair.0, pair.1),
{
    assert(pairs.push(pair).drop_last() =~= pairs);
}

/// One value per key, and the last write wins: a key has a value exactly if
/// some pair has that key, and a pair behind which no pair has the same key
/// gives the value. There are finitely many keys.
pub proof fn law_last_write_wins(pairs: Seq<(Seq<char>, Seq<char>)>, key: Seq<char>)
    ensures
        assoc(pairs).dom().finite(),
        assoc(pairs).dom().contains(key) <==> has_key(pairs, key),
        forall|i: int|
            0 <= i < pairs.len() && (#[trigger] pairs[i]).0 == key && (forall|j: int|
                i < j < pairs.len() ==> (#[trigger] pairs[j]).0 != key) ==> assoc(pairs)[key]
                == pairs[i].1,
    decreases pairs.len(),
{
    if pairs.len() > 0 {
        let front = pairs.drop_last();
        law_last_write_wins(front, key);
        if pairs.last().0 == key {
            assert(pairs[pairs.len() - 1].0 == key);
        } else {
            if has_key(front, key) {
                let i = choose|i: int| 0 <= i < front.len() && (#[trigger] front[i]).0 == key;
                assert(pairs[i].0 == key);
            }
            if has_key(pairs, key) {
                let i = choose|i: int| 0 <= i < pairs.len() && (#[trigger] pairs[i]).0 == key;
                assert(front[i].0 == key);
            }
        }
        assert forall|i: int|
            0 <= i < pairs.len() && (#[trigger] pairs[i]).0 == key && (forall|j: int|
                i < j < pairs.len() ==> (#[trigger] pairs[j]).0 != key) implies assoc(pairs)[key]
            == pairs[i].1 by {
            if i < front.len() {
                assert(pairs[pairs.len() - 1].0 != key);
                assert(front[i].0 == key);
                assert forall|j: int| i < j < front.len() implies (#[trigger] front[j]).0
                    != key by {
                    assert(pairs[j].0 != key);
                }
            }
        }
    }
}

/// Where no key occurs twice, the mapping has as many keys as there are
/// pairs.
pub proof fn lemma_assoc_len(pairs: Seq<(Seq<char>, Seq<char>)>)
    requires
        distinct_keys(pairs),
    ensures
        assoc(pairs).dom().finite(),
        assoc(pairs).dom().len() == pairs.len(),
    decreases pairs.len(),
{
    if pairs.len() > 0 {
        let front = pairs.drop_last();
        let last = pairs.last();
        assert(distinct_keys(front)) by {
            assert forall|i: int, j: int| 0 <= i < j < front.len() implies (#[trigger] front[i]).0
                != (#[trigger] front[j]).0 by {
                assert(pairs[i].0 != pairs[j].0);
            }
        }
        lemma_assoc_len(front);
        law_last_write_wins(front, last.0);
        if has_key(front, last.0) {
            let i = choose|i: int| 0 <= i < front.len() && (#[trigger] front[i]).0 == last.0;
            assert(pairs[i].0 != pairs[pairs.len() - 1].0);
        }
    }
}

/// Where no key occurs twice, a new value in the pair at `at` is a write to
/// the key of that pair.
pub proof fn lemma_assoc_update(pairs: Seq<(Seq<char>, Seq<char>)>, at: int, value: Seq<char>)
    requires
        distinct_keys(pairs),
        0 <= at < pairs.len(),
    ensures
        assoc(pairs.update(at, (pairs[at].0, value))) == assoc(pairs).insert(pairs[at].0, value),
    decreases pairs.len(),
{
    let key = pairs[at].0;
    let after = pairs.update(at, (key, value));
    let front = pairs.drop_last();
    if at == pairs.len() - 1 {
        assert(after.drop_last() =~= front);
        assert(assoc(after) =~= assoc(pairs).insert(key, value));
    } else {
        assert(distinct_keys(front)) by {
            assert forall|i: int, j: int| 0 <= i < j < front.len() implies (#[trigger] front[i]).0
                != (#[trigger] front[j]).0 by {
                assert(pairs[i].0 != pairs[j].0);
            }
        }
        assert(front[at] == pairs[at]);
        lemma_assoc_update(front, at, value);
        assert(after.drop_last() =~= front.update(at, (key, value)));
        assert(after.last() == pairs.last());
        assert(pairs[at].0 != pairs[pairs.len() - 1].0);
        assert(assoc(after) =~= assoc(pairs).insert(key, value));
    }
}

/// The keys and values of the entries as text.
pub open spec fn views(entries: Seq<(String, String)>) -> Seq<(Seq<char>, Seq<char>)> {
    entries.map_values(|entry: (String, String)| (entry.0@, entry.1@))
}

/// A mapping from text to text with one value per key. Writing a key that is
/// already there replaces its value.
#[derive(Debug)]
pub struct TextMap {
    entries: Vec<(String, String)>,
}

impl View for TextMap {
    type V = Map<Seq<char>, Seq<char>>;

    closed spec fn view(&self) -> Map<Seq<char>, Seq<char>> {
        assoc(views(self.entries@))
    }
}

impl TextMap {
    /// No key is held twice.
    #[verifier::type_invariant]
    spec fn distinct(&self) -> bool {
        distinct_keys(views(self.entries@))
    }

    /// The empty mapping.
    pub fn new() -> (map: TextMap)
        ensures
            map@ == Map::<Seq<char>, Seq<char>>::empty(),
    {
        TextMap { entries: Vec::new() }
    }

    /// The position of `key` among the entries, if it is there.
    fn position(&self, key: &String) -> (found: Option<usize>)
        ensures
            match found {
                Some(i) => i < self.entries@.len() && self.entries@[i as int].0@ == key@,
                None => !has_key(views(self.entries@), key@),
            },
    {
        let mut i: usize = 0;
        while i < self.entries.len()
            invariant
                i <= self.entries@.len(),
                forall|j: int| 0 <= j < i ==> (#[trigger] views(self.entries@)[j]).0 != key@,
            decreases self.entries@.len() - i,
        {
            if self.entries[i].0 == *key {
                return Some(i);
            }
            i += 1;
        }
        None
    }

    /// The number of keys.
    pub fn len(&self) -> (n: usize)
        ensures
            self@.dom().finite(),
            n == self@.dom().len(),
    {
        proof {
            use_type_invariant(self);
            lemma_assoc_len(views(self.entries@));
        }
        self.entries.len()
    }

    /// Whether the mapping holds no key at all.
    pub fn is_empty(&self) -> (empty: bool)
        ensures
            empty == (self@ == Map::<Seq<char>, Seq<char>>::empty()),
    {
        proof {
            if self.entries@.len() > 0 {
                let key = views(self.entries@)[0].0;
                law_last_write_wins(views(self.entries@), key);
                assert(self@.dom().contains(key));
            }
        }
        self.entries.len() == 0
    }

    /// Whether `key` has a value.
    pub fn contains_key(&self, key: &str) -> (found: bool)
        ensures
            found == self@.dom().contains(key@),
    {
        let owned = key.to_owned();
        let found = self.position(&owned);
        proof {
            law_last_write_wins(views(self.entries@), key@);
            if let Some(i) = found {
                assert(views(self.entries@)[i as int].0 == key@);
            }
        }
        found.is_some()
    }

    /// The value of `key`, if it has one.
    pub fn get(&self, key: &str) -> (value: Option<&String>)
        ensures
            match value {
                Some(text) => self@.dom().contains(key@) && text@ == self@[key@],
                None => !self@.dom().contains(key@),
            },
    {
        let owned = key.to_owned();
        proof {
            use_type_invariant(self);
            law_last_write_wins(views(self.entries@), key@);
        }
        match self.position(&owned) {
            Some(i) => {
                proof {
                    let pairs = views(self.entries@);
                    assert(pairs[i as int].0 == key@);
                    assert forall|j: int| i < j < pairs.len() implies (#[trigger] pairs[j]).0
                        != key@ by {
                        assert(pairs[i as int].0 != pairs[j].0);
                    }
                }
                Some(&self.entries[i].1)
            },
            None => None,
        }
    }

    /// Every key with its value, each key once.
    pub fn pairs(&self) -> (pairs: &Vec<(String, String)>)
        ensures
            distinct_keys(views(pairs@)),
            assoc(views(pairs@)) == self@,
    {
        proof {
            use_type_invariant(self);
        }
        &self.entries
    }

    /// Gives `key` the value `value`, in place of the value it had, if any.
    pub fn insert(&mut self, key: String, value: String)
        ensures
            final(self)@ == old(self)@.insert(key@, value@),
    {
        proof {
            use_type_invariant(&*self);
        }
        let ghost before = views(self.entries@);
        let found = self.position(&key);
        let mut entries: Vec<(String, String)> = Vec::new();
        core::mem::swap(&mut self.entries, &mut entries);
        match found {
            Some(i) => {
                entries.set(i, (key, value));
                proof {
                    let after = views(entries@);
                    assert(after =~= before.update(i as int, (key@, value@)));
                    assert(distinct_keys(after)) by {
                        assert forall|a: int, b: int| 0 <= a < b < after.len() implies (
                        #[trigger] after[a]).0 != (#[trigger] after[b]).0 by {
                            assert(before[a].0 != before[b].0);
                        }
                    }
                    lemma_assoc_update(before, i as int, value@);
                }
            },
            None => {
                entries.push((key, value));
                proof {
                    let after = views(entries@);
                    assert(after =~= before.push((key@, value@)));
                    lemma_assoc_push(before, (key@, value@));
                    assert(distinct_keys(after)) by {
                        assert forall|a: int, b: int| 0 <= a < b < after.len() implies (
                        #[trigger] after[a]).0 != (#[trigger] after[b]).0 by {
                            if b < before.len() {
                                assert(before[a].0 != before[b].0);
                            } else {
                                assert(before[a].0 != key@);
                            }
                        }
                    }
                }
            },
        }
        self.entries = entries;
    }
}

/// The characters of `text`, one by one.
pub fn chars_of(text: &str) -> (chars: Vec<char>)
    ensures
        chars@ == text@,
{
    let mut chars: Vec<char> = Vec::new();
    for c in it: text.chars()
        invariant
            chars@ == it.seq().take(it.index() as int),
            it.seq() == text@,
    {
        chars.push(c);
    }
    chars
}

/// The first position from `from` up to `until` at which `text` holds
/// `mark`, or `until` if there is none.
pub open spec fn first_in(text: Seq<char>, mark: char, from: int, until: int) -> int
    decreases until - from,
{
    if from >= until {
        until
    } else if text[from] == mark {
        from
    } else {
        first_in(text, mark, from + 1, until)
    }
}

/// Where `first_in` points: no `mark` before it, and `mark` at it unless it
/// is `until`.
pub proof fn lemma_first_in(text: Seq<char>, mark: char, from: int, until: int)
    requires
        from <= until,
    ensures
        from <= first_in(text, mark, from, until) <= until,
        forall|i: int| from <= i < first_in(text, mark, from, until) ==> text[i] != mark,
        first_in(text, mark, from, until) < until ==> text[first_in(text, mark, from, until)]
            == mark,
    decreases until - from,
{
    if from < until && text[from] != mark {
        lemma_first_in(text, mark, from + 1, until);
    }
}

/// Finds the first `mark` in `chars` from `from` up to `until`.
pub fn find(chars: &Vec<char>, mark: char, from: usize, until: usize) -> (at: usize)
    requires
        from <= until <= chars@.len(),
    ensures
        at == first_in(chars@, mark, from as int, until as int),
        from <= at <= until,
{
    let mut at: usize = from;
    while at < until && chars[at] != mark
        invariant
            from <= at <= until <= chars@.len(),
            first_in(chars@, mark, from as int, until as int) == first_in(
                chars@,
                mark,
                at as int,
                until as int,
            ),
        decreases until - at,
    {
        at += 1;
    }
    at
}

/// The part of `text` from the character at `from` up to the one at `to`.
pub fn substring(text: &str, from: usize, to: usize) -> (part: String)
    requires
        from <= to <= text@.len(),
    ensures
        part@ == text@.subrange(from as int, to as int),
{
    text.substring_char(from, to).to_owned()
}

} // verus!
