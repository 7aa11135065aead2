//! A map keyed by strings, in order of insertion.

use vstd::prelude::*;

use crate::text::same_text;

verus! {

/// Where a key stands once an entry with another key, or its own, was added to
/// `es`.
pub open spec fn position_after_push<V>(
    es: Seq<(String, V)>,
    last: Seq<char>,
    k: Seq<char>,
) -> int {
    if k == last {
        es.len() as int
    } else if key_position(es, k) < es.len() {
        key_position(es, k)
    } else {
        es.len() as int + 1
    }
}

/// A map keyed by strings. Entries keep the order in which their keys came.
#[derive(Debug, Clone)]
pub struct StringMap<V> {
    pub entries: Vec<(String, V)>,
}

/// The position of the first entry with this key, or the number of entries.
pub open spec fn key_position<V>(es: Seq<(String, V)>, key: Seq<char>) -> int
    decreases es.len(),
{
    if es.len() == 0 || es[0].0@ == key {
        0
    } else {
        1 + key_position(es.drop_first(), key)
    }
}

/// Whether no key occurs twice.
pub open spec fn keys_distinct<V>(es: Seq<(String, V)>) -> bool {
    forall|i: int, j: int| 0 <= i < j < es.len() ==> (#[trigger] es[i]).0@ != (#[trigger] es[j]).0@
}

/// The entries after a key was given a value: in the place of its old entry, or
/// at the end where it had none.
pub open spec fn entries_with<V>(es: Seq<(String, V)>, key: String, value: V) -> Seq<(String, V)> {
    let i = key_position(es, key@);
    if i < es.len() {
        es.update(i, (key, value))
    } else {
        es.push((key, value))
    }
}

/// Where the first entry with a key stands.
pub proof fn lemma_key_position<V>(es: Seq<(String, V)>, key: Seq<char>)
    ensures
        0 <= key_position(es, key) <= es.len(),
        key_position(es, key) < es.len() ==> es[key_position(es, key)].0@ == key,
        forall|i: int| 0 <= i < key_position(es, key) ==> (#[trigger] es[i]).0@ != key,
    decreases es.len(),
{
    if es.len() > 0 && es[0].0@ != key {
        let d = es.drop_first();
        lemma_key_position(d, key);
        assert forall|i: int| 0 <= i < key_position(es, key) implies (#[trigger] es[i]).0@
            != key by {
            if i > 0 {
                assert(d[i - 1] == es[i]);
            }
        }
    }
}

/// With distinct keys, an entry stands at the position of its key.
pub proof fn lemma_position_of_entry<V>(es: Seq<(String, V)>, i: int)
    requires
        keys_distinct(es),
        0 <= i < es.len(),
    ensures
        key_position(es, es[i].0@) == i,
{
    lemma_key_position(es, es[i].0@);
}

impl<V> View for StringMap<V> {
    type V = Map<Seq<char>, V>;

    open spec fn view(&self) -> Map<Seq<char>, V> {
        Map::new(
            |k: Seq<char>| key_position(self.entries@, k) < self.entries@.len(),
            |k: Seq<char>| self.entries@[key_position(self.entries@, k)].1,
        )
    }
}

impl<V> StringMap<V> {
    /// No key occurs twice.
    pub open spec fn wf(self) -> bool {
        keys_distinct(self.entries@)
    }

    /// A map without entries.
    pub fn new() -> (r: Self)
        ensures
            r.wf(),
            r.entries@.len() == 0,
            r@ == Map::<Seq<char>, V>::empty(),
    {
        let r = StringMap { entries: Vec::new() };
        proof {
            assert(r@ =~= Map::<Seq<char>, V>::empty());
        }
        r
    }

    /// The number of entries.
    pub fn len(&self) -> (r: usize)
        ensures
            r == self.entries@.len(),
    {
        self.entries.len()
    }

    /// Whether there is no entry.
    pub fn is_empty(&self) -> (r: bool)
        requires
            self.wf(),
        ensures
            r == (self.entries@.len() == 0),
            r <==> self@.dom() =~= Set::<Seq<char>>::empty(),
    {
        proof {
            if self.entries@.len() > 0 {
                lemma_position_of_entry(self.entries@, 0);
                assert(self@.dom().contains(self.entries@[0].0@));
            }
        }
        self.entries.len() == 0
    }

    /// The position of the entry with this key.
    pub fn position(&self, key: &str) -> (r: Option<usize>)
        ensures
            match r {
                Some(i) => i < self.entries@.len() && i == key_position(self.entries@, key@)
                    && self.entries@[i as int].0@ == key@ && self@.dom().contains(key@)
                    && self.entries@[i as int].1 == self@[key@],
                None => !self@.dom().contains(key@) && key_position(self.entries@, key@)
                    == self.entries@.len(),
            },
    {
        let ghost es = self.entries@;
        let mut i: usize = 0;
        proof {
            assert(es.skip(0) =~= es);
            lemma_key_position(es, key@);
        }
        while i < self.entries.len()
            invariant
                es == self.entries@,
                i <= es.len(),
                key_position(es, key@) == i + key_position(es.skip(i as int), key@),
            decreases es.len() - i,
        {
            proof {
                assert(es.skip(i as int).drop_first() =~= es.skip(i + 1));
            }
            if same_text(self.entries[i].0.as_str(), key) {
                return Some(i);
            }
            i = i + 1;
        }
        None
    }

    /// The value of a key.
    pub fn get(&self, key: &str) -> (r: Option<&V>)
        ensures
            match r {
                Some(v) => self@.dom().contains(key@) && *v == self@[key@],
                None => !self@.dom().contains(key@),
            },
    {
        match self.position(key) {
            Some(i) => Some(&self.entries[i].1),
            None => None,
        }
    }

    /// Whether a key has a value.
    pub fn contains_key(&self, key: &str) -> (r: bool)
        ensures
            r == self@.dom().contains(key@),
    {
        self.position(key).is_some()
    }

    /// Gives a key a value, in place of the one that it had.
    pub fn insert(&mut self, key: String, value: V)
        requires
            old(self).wf(),
        ensures
            final(self).wf(),
            final(self)@ == old(self)@.insert(key@, value),
            final(self).entries@ == entries_with(old(self).entries@, key, value),
    {
        let ghost es = self.entries@;
        let ghost before = self@;
        match self.position(key.as_str()) {
            Some(i) => {
                let ghost k = key@;
                self.entries.set(i, (key, value));
                proof {
                    lemma_updated(es, self.entries@, i as int, k, value);
                    assert(self@ =~= before.insert(k, value));
                }
            },
            None => {
                let ghost k = key@;
                self.entries.push((key, value));
                proof {
                    lemma_key_position(es, k);
                    lemma_pushed(es, self.entries@);
                    let after = before.insert(k, value);
                    assert forall|q: Seq<char>| #[trigger]
                        self@.dom().contains(q) == after.dom().contains(q) by {
                        lemma_pushed_at(es, self.entries@, q);
                    }
                    assert forall|q: Seq<char>| self@.dom().contains(q) implies #[trigger] self@[q]
                        == after[q] by {
                        lemma_pushed_at(es, self.entries@, q);
                    }
                    assert(self@ =~= after);
                }
            },
        }
    }

    /// Takes a key and its value out.
    pub fn remove(&mut self, key: &str) -> (r: Option<V>)
        requires
            old(self).wf(),
        ensures
            final(self).wf(),
            final(self)@ == old(self)@.remove(key@),
            match r {
                Some(v) => old(self)@.dom().contains(key@) && v == old(self)@[key@]
                    && final(self).entries@.len() == old(self).entries@.len() - 1,
                None => !old(self)@.dom().contains(key@) && final(self).entries@
                    == old(self).entries@,
            },
    {
        let ghost es = self.entries@;
        let ghost before = self@;
        match self.position(key) {
            Some(i) => {
                let e = self.entries.remove(i);
                proof {
                    lemma_removed(es, self.entries@, i as int);
                    assert(self@ =~= before.remove(key@));
                }
                Some(e.1)
            },
            None => {
                proof {
                    assert(before.remove(key@) =~= before);
                }
                None
            },
        }
    }

    /// Takes all entries out.
    pub fn clear(&mut self)
        ensures
            final(self).wf(),
            final(self).entries@.len() == 0,
            final(self)@ == Map::<Seq<char>, V>::empty(),
    {
        self.entries.clear();
        proof {
            assert(self@ =~= Map::<Seq<char>, V>::empty());
        }
    }
}

proof fn lemma_updated<V>(
    es: Seq<(String, V)>,
    fs: Seq<(String, V)>,
    i: int,
    key: Seq<char>,
    value: V,
)
    requires
        keys_distinct(es),
        0 <= i < es.len(),
        fs.len() == es.len(),
        forall|j: int| 0 <= j < es.len() && j != i ==> fs[j] == es[j],
        fs[i].0@ == es[i].0@,
        fs[i].1 == value,
        key == es[i].0@,
    ensures
        keys_distinct(fs),
        forall|k: Seq<char>|
            #[trigger] key_position(fs, k) == key_position(es, k) && 0 <= key_position(es, k) && (k
                != key && key_position(es, k) < es.len() ==> key_position(es, k) != i),
{
    assert forall|a: int, b: int| 0 <= a < b < fs.len() implies (#[trigger] fs[a]).0@ != (
    #[trigger] fs[b]).0@ by {
        assert(fs[a].0@ == es[a].0@ && fs[b].0@ == es[b].0@);
    }
    assert forall|k: Seq<char>|
        #[trigger] key_position(fs, k) == key_position(es, k) && 0 <= key_position(es, k) && (k
            != key && key_position(es, k) < es.len() ==> key_position(es, k) != i) by {
        lemma_key_position(es, k);
        lemma_same_keys(es, fs, k);
    }
}

proof fn lemma_same_keys<V>(es: Seq<(String, V)>, fs: Seq<(String, V)>, k: Seq<char>)
    requires
        fs.len() == es.len(),
        forall|j: int| 0 <= j < es.len() ==> (#[trigger] fs[j]).0@ == es[j].0@,
    ensures
        key_position(fs, k) == key_position(es, k),
{
    lemma_key_position(es, k);
    lemma_key_position(fs, k);
    let a = key_position(es, k);
    let b = key_position(fs, k);
    if a < b {
        assert(fs[a].0@ == es[a].0@);
    } else if b < a {
        assert(fs[b].0@ == es[b].0@);
    }
}

proof fn lemma_pushed<V>(es: Seq<(String, V)>, fs: Seq<(String, V)>)
    requires
        keys_distinct(es),
        fs.len() == es.len() + 1,
        forall|j: int| 0 <= j < es.len() ==> fs[j] == es[j],
        forall|j: int| 0 <= j < es.len() ==> (#[trigger] es[j]).0@ != fs.last().0@,
    ensures
        keys_distinct(fs),
{
    assert forall|a: int, b: int| 0 <= a < b < fs.len() implies (#[trigger] fs[a]).0@ != (
    #[trigger] fs[b]).0@ by {
        assert(fs[a] == es[a]);
        if b < es.len() {
            assert(fs[b] == es[b]);
        }
    }
}

proof fn lemma_pushed_at<V>(es: Seq<(String, V)>, fs: Seq<(String, V)>, k: Seq<char>)
    requires
        fs.len() == es.len() + 1,
        forall|j: int| 0 <= j < es.len() ==> fs[j] == es[j],
        forall|j: int| 0 <= j < es.len() ==> (#[trigger] es[j]).0@ != fs.last().0@,
    ensures
        0 <= key_position(es, k) <= es.len(),
        key_position(fs, k) == position_after_push(es, fs.last().0@, k),
{
    lemma_key_position(es, k);
    lemma_key_position(fs, k);
    let a = key_position(es, k);
    let b = key_position(fs, k);
    if b < es.len() {
        assert(fs[b] == es[b]);
    }
    if a < es.len() {
        assert(fs[a] == es[a]);
    }
}

proof fn lemma_removed<V>(es: Seq<(String, V)>, fs: Seq<(String, V)>, i: int)
    requires
        keys_distinct(es),
        0 <= i < es.len(),
        fs == es.remove(i),
    ensures
        keys_distinct(fs),
        key_position(fs, es[i].0@) == fs.len(),
        forall|k: Seq<char>|
            k != es[i].0@ ==> {
                &&& (#[trigger] key_position(fs, k) < fs.len()) == (key_position(es, k) < es.len())
                &&& key_position(es, k) < es.len() ==> fs[key_position(fs, k)]
                    == es[key_position(es, k)]
            },
{
    assert forall|a: int, b: int| 0 <= a < b < fs.len() implies (#[trigger] fs[a]).0@ != (
    #[trigger] fs[b]).0@ by {
        let x = if a < i { a } else { a + 1 };
        let y = if b < i { b } else { b + 1 };
        assert(fs[a] == es[x] && fs[b] == es[y]);
    }
    lemma_key_position(fs, es[i].0@);
    let p = key_position(fs, es[i].0@);
    if p < fs.len() {
        let x = if p < i { p } else { p + 1 };
        assert(fs[p] == es[x]);
    }
    assert forall|k: Seq<char>| k != es[i].0@ implies {
        &&& (#[trigger] key_position(fs, k) < fs.len()) == (key_position(es, k) < es.len())
        &&& key_position(es, k) < es.len() ==> fs[key_position(fs, k)] == es[key_position(es, k)]
    } by {
        lemma_key_position(es, k);
        lemma_key_position(fs, k);
        let a = key_position(es, k);
        let b = key_position(fs, k);
        if b < fs.len() {
            let x = if b < i { b } else { b + 1 };
            assert(fs[b] == es[x]);
            lemma_position_of_entry(es, x);
        }
        if a < es.len() {
            let y = if a < i { a } else { a - 1 };
            assert(fs[y] == es[a]);
        }
    }
}

/// The map holds the value of each entry under its key, and nothing else.
pub proof fn lemma_entries_are_the_map<V>(m: StringMap<V>, i: int, key: Seq<char>)
    requires
        m.wf(),
    ensures
        0 <= i < m.entries@.len() ==> m@.dom().contains(m.entries@[i].0@) && m@[m.entries@[i].0@]
            == m.entries@[i].1,
        (forall|j: int| 0 <= j < m.entries@.len() ==> (#[trigger] m.entries@[j]).0@ != key)
            ==> !m@.dom().contains(key),
{
    lemma_key_position(m.entries@, key);
    if 0 <= i < m.entries@.len() {
        lemma_position_of_entry(m.entries@, i);
    }
}

/// A known key keeps its place and a new one comes last; every other entry is left alone.
pub proof fn lemma_places_are_kept<V>(es: Seq<(String, V)>, key: String, value: V, i: int)
    requires
        keys_distinct(es),
        0 <= i < es.len(),
    ensures
        es[i].0@ == key@ ==> entries_with(es, key, value).len() == es.len() && entries_with(
            es,
            key,
            value,
        )[i] == (key, value),
        es[i].0@ != key@ ==> entries_with(es, key, value)[i] == es[i],
        (forall|j: int| 0 <= j < es.len() ==> (#[trigger] es[j]).0@ != key@) ==> entries_with(
            es,
            key,
            value,
        ) == es.push((key, value)),
{
    lemma_key_position(es, key@);
    if es[i].0@ == key@ {
        lemma_position_of_entry(es, i);
    }
}

} // verus!
