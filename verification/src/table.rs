//! A table from string identifiers to values, each identifier at most once,
//! in insertion order.

use vstd::prelude::*;
use vstd::string::*;
use crate::text::str_eq;

verus! {

/// The identifiers of a sequence of entries are pairwise distinct.
pub open spec fn keys_unique<T>(s: Seq<(String, T)>) -> bool {
    forall|i: int, j: int| 0 <= i < j < s.len() ==> #[trigger] s[i].0@ != #[trigger] s[j].0@
}

/// `key` is the identifier of some entry.
pub open spec fn has_key<T>(s: Seq<(String, T)>, key: Seq<char>) -> bool {
    exists|i: int| 0 <= i < s.len() && #[trigger] s[i].0@ == key
}

/// The value stored under `key`, if any.
pub open spec fn lookup<T>(s: Seq<(String, T)>, key: Seq<char>) -> Option<T> {
    if has_key(s, key) {
        Some(s[choose|i: int| 0 <= i < s.len() && #[trigger] s[i].0@ == key].1)
    } else {
        None
    }
}

/// In a table without repeated identifiers, the entry found under a key
/// is the one at its position.
pub proof fn lemma_lookup_at<T>(s: Seq<(String, T)>, key: Seq<char>, i: int)
    requires
        keys_unique(s),
        0 <= i < s.len(),
        s[i].0@ == key,
    ensures
        lookup(s, key) == Some(s[i].1),
{
    let j = choose|j: int| 0 <= j < s.len() && #[trigger] s[j].0@ == key;
    if i < j {
        assert(s[i].0@ != s[j].0@);
    }
    if j < i {
        assert(s[j].0@ != s[i].0@);
    }
}

/// The position of the entry with identifier `key` (meaningful when there
/// is one).
pub open spec fn key_index<T>(s: Seq<(String, T)>, key: Seq<char>) -> int {
    choose|i: int| 0 <= i < s.len() && #[trigger] s[i].0@ == key
}

/// The entries after storing `value` under `key`: an existing entry keeps
/// its identifier and position and takes the value; otherwise the entry is
/// appended.
pub open spec fn inserted<T>(s: Seq<(String, T)>, key: String, value: T) -> Seq<(String, T)> {
    if has_key(s, key@) {
        let i = key_index(s, key@);
        s.update(i, (s[i].0, value))
    } else {
        s.push((key, value))
    }
}

/// Storing a value under a key keeps identifiers distinct, makes the value
/// the one found under that key, and leaves what is found under every other
/// key as it was.
pub proof fn law_lookup_after_insert<T>(s: Seq<(String, T)>, key: String, value: T, other: Seq<char>)
    requires
        keys_unique(s),
        other != key@,
    ensures
        keys_unique(inserted(s, key, value)),
        lookup(inserted(s, key, value), key@) == Some(value),
        lookup(inserted(s, key, value), other) == lookup(s, other),
{
    let t = inserted(s, key, value);
    if has_key(s, key@) {
        let i = key_index(s, key@);
        assert(t[i].0@ == key@);
        assert forall|a: int, b: int| 0 <= a < b < t.len() implies #[trigger] t[a].0@ != #[trigger] t[b].0@ by {
            assert(t[a].0 == s[a].0);
            assert(t[b].0 == s[b].0);
        }
        lemma_lookup_at(t, key@, i);
        if has_key(s, other) {
            let j = key_index(s, other);
            assert(t[j].0 == s[j].0);
            assert(j != i);
            lemma_lookup_at(s, other, j);
            lemma_lookup_at(t, other, j);
        } else {
            assert forall|j: int| 0 <= j < t.len() implies #[trigger] t[j].0@ != other by {
                assert(t[j].0 == s[j].0);
            }
        }
    } else {
        assert forall|a: int, b: int| 0 <= a < b < t.len() implies #[trigger] t[a].0@ != #[trigger] t[b].0@ by {
            if b == t.len() - 1 {
                assert(s[a].0@ != key@);
            }
        }
        lemma_lookup_at(t, key@, s.len() as int);
        if has_key(s, other) {
            let j = key_index(s, other);
            lemma_lookup_at(s, other, j);
            lemma_lookup_at(t, other, j);
        } else {
            assert forall|j: int| 0 <= j < t.len() implies #[trigger] t[j].0@ != other by {
                if j < s.len() {
                    assert(t[j] == s[j]);
                }
            }
        }
    }
}

/// A string-keyed table.
pub struct IdMap<T> {
    entries: Vec<(String, T)>,
}

impl<T> View for IdMap<T> {
    type V = Seq<(String, T)>;

    closed spec fn view(&self) -> Seq<(String, T)> {
        self.entries@
    }
}

impl<T> IdMap<T> {
    /// Well-formed: no identifier occurs twice.
    pub open spec fn wf(&self) -> bool {
        keys_unique(self@)
    }

    /// An empty table.
    pub fn new() -> (m: Self)
        ensures
            m.wf(),
            m@ == Seq::<(String, T)>::empty(),
    {
        IdMap { entries: Vec::new() }
    }

    /// The number of entries.
    pub fn len(&self) -> (n: usize)
        ensures
            n == self@.len(),
    {
        self.entries.len()
    }

    /// The identifier of the entry at position `i`.
    pub fn key_at(&self, i: usize) -> (k: &String)
        requires
            i < self@.len(),
        ensures
            *k == self@[i as int].0,
    {
        &self.entries[i].0
    }

    /// The value of the entry at position `i`.
    pub fn value_at(&self, i: usize) -> (v: &T)
        requires
            i < self@.len(),
        ensures
            *v == self@[i as int].1,
    {
        &self.entries[i].1
    }

    /// The position of the entry with identifier `key`, if there is one.
    pub fn position(&self, key: &str) -> (r: Option<usize>)
        requires
            self.wf(),
        ensures
            match r {
                Some(i) => i < self@.len() && self@[i as int].0@ == key@,
                None => !has_key(self@, key@),
            },
    {
        let n = self.entries.len();
        let mut i: usize = 0;
        while i < n
            invariant
                n == self@.len(),
                i <= n,
                forall|j: int| 0 <= j < i ==> self@[j].0@ != key@,
            decreases n - i,
        {
            if str_eq(self.entries[i].0.as_str(), key) {
                return Some(i);
            }
            i = i + 1;
        }
        None
    }

    /// Whether an entry with identifier `key` exists.
    pub fn contains_key(&self, key: &str) -> (b: bool)
        requires
            self.wf(),
        ensures
            b == has_key(self@, key@),
    {
        self.position(key).is_some()
    }

    /// The value stored under `key`, if any.
    pub fn get(&self, key: &str) -> (r: Option<&T>)
        requires
            self.wf(),
        ensures
            match r {
                Some(v) => exists|i: int|
                    0 <= i < self@.len() && #[trigger] self@[i].0@ == key@ && *v == self@[i].1,
                None => !has_key(self@, key@),
            },
            match r {
                Some(v) => lookup(self@, key@) == Some(*v),
                None => lookup(self@, key@).is_none(),
            },
    {
        match self.position(key) {
            Some(i) => {
                proof {
                    lemma_lookup_at(self@, key@, i as int);
                }
                Some(&self.entries[i].1)
            },
            None => None,
        }
    }

    /// Stores `value` under `key`: an existing entry keeps its position and
    /// gets the new value, which is handed back; otherwise the entry is
    /// appended.
    pub fn insert(&mut self, key: String, value: T) -> (r: Option<T>)
        requires
            old(self).wf(),
        ensures
            final(self).wf(),
            final(self)@ == inserted(old(self)@, key, value),
            match r {
                Some(prev) => exists|i: int|
                    0 <= i < old(self)@.len() && #[trigger] old(self)@[i].0@ == key@
                        && prev == old(self)@[i].1
                        && final(self)@ == old(self)@.update(i, (old(self)@[i].0, value)),
                None => !has_key(old(self)@, key@) && final(self)@ == old(self)@.push((key, value)),
            },
    {
        match self.position(key.as_str()) {
            Some(i) => {
                proof {
                    let c = key_index(old(self)@, key@);
                    if c != i as int {
                        if c < i as int {
                            assert(old(self)@[c].0@ != old(self)@[i as int].0@);
                        } else {
                            assert(old(self)@[i as int].0@ != old(self)@[c].0@);
                        }
                    }
                }
                let (k, prev) = self.entries.remove(i);
                self.entries.insert(i, (k, value));
                proof {
                    assert(self@ =~= old(self)@.update(i as int, (old(self)@[i as int].0, value)));
                    assert forall|a: int, b: int| 0 <= a < b < self@.len() implies
                        #[trigger] self@[a].0@ != #[trigger] self@[b].0@ by {
                        assert(self@[a].0 == old(self)@[a].0);
                        assert(self@[b].0 == old(self)@[b].0);
                    }
                }
                Some(prev)
            },
            None => {
                self.entries.push((key, value));
                proof {
                    assert forall|a: int, b: int| 0 <= a < b < self@.len() implies
                        #[trigger] self@[a].0@ != #[trigger] self@[b].0@ by {
                        if b == self@.len() - 1 {
                            assert(old(self)@[a].0@ != key@);
                        }
                    }
                }
                None
            },
        }
    }

    /// A mutable reference to the value stored under `key`, if any.
    pub fn get_mut(&mut self, key: &str) -> (r: Option<&mut T>)
        requires
            old(self).wf(),
        ensures
            final(self).wf(),
            match r {
                Some(v) => exists|i: int|
                    0 <= i < old(self)@.len() && #[trigger] old(self)@[i].0@ == key@
                        && *v == old(self)@[i].1
                        && final(self)@ == old(self)@.update(i, (old(self)@[i].0, *final(v))),
                None => !has_key(old(self)@, key@) && final(self)@ == old(self)@,
            },
    {
        match self.position(key) {
            Some(i) => Some(&mut self.entries[i].1),
            None => None,
        }
    }
}

} // verus!
