use crate::text::str_eq;
use vstd::prelude::*;

verus! {

/// A table keyed by text as the contracts see it: the entries in the order in which their keys
/// came.
pub struct StrMapView<V> {
    pub entries: Seq<(Seq<char>, V)>,
}

impl<V> StrMapView<V> {
    /// No key stands twice.
    pub open spec fn wf(self) -> bool {
        forall|i: int, j: int|
            0 <= i < j < self.entries.len() ==> (#[trigger] self.entries[i]).0 != (
            #[trigger] self.entries[j]).0
    }

    /// Whether the key is there.
    pub open spec fn has(self, key: Seq<char>) -> bool {
        exists|i: int| 0 <= i < self.entries.len() && (#[trigger] self.entries[i]).0 == key
    }

    /// Where the key stands, if it is there.
    pub open spec fn index(self, key: Seq<char>) -> int {
        choose|i: int| 0 <= i < self.entries.len() && (#[trigger] self.entries[i]).0 == key
    }

    /// What the key stands for, if it is there.
    pub open spec fn value(self, key: Seq<char>) -> V {
        self.entries[self.index(key)].1
    }

    /// The keys, in order.
    pub open spec fn keys(self) -> Seq<Seq<char>> {
        self.entries.map_values(|e: (Seq<char>, V)| e.0)
    }

    /// The table with `key` standing for `value`: in its old place if it was there, else last.
    pub open spec fn put(self, key: Seq<char>, value: V) -> StrMapView<V> {
        if self.has(key) {
            StrMapView { entries: self.entries.update(self.index(key), (key, value)) }
        } else {
            StrMapView { entries: self.entries.push((key, value)) }
        }
    }

    /// The table without `key`.
    pub open spec fn delete(self, key: Seq<char>) -> StrMapView<V> {
        if self.has(key) {
            StrMapView { entries: self.entries.remove(self.index(key)) }
        } else {
            self
        }
    }
}

/// In a table without double keys an entry is found under its key.
pub proof fn lemma_strmap_index<V>(m: StrMapView<V>, i: int)
    requires
        m.wf(),
        0 <= i < m.entries.len(),
    ensures
        m.has(m.entries[i].0),
        m.index(m.entries[i].0) == i,
        m.value(m.entries[i].0) == m.entries[i].1,
{
    let k = m.entries[i].0;
    let j = m.index(k);
    assert(m.entries[j].0 == k);
}

/// After `put` the key stands for the value, and every other key for what it stood for.
pub proof fn lemma_strmap_put<V>(m: StrMapView<V>, key: Seq<char>, value: V)
    requires
        m.wf(),
    ensures
        m.put(key, value).wf(),
        m.put(key, value).has(key),
        m.put(key, value).value(key) == value,
        forall|other: Seq<char>|
            other != key ==> (#[trigger] m.put(key, value).has(other)) == m.has(other),
        forall|other: Seq<char>|
            other != key && m.has(other) ==> #[trigger] m.put(key, value).value(other) == m.value(
                other,
            ),
{
    let w = m.put(key, value);
    let at = if m.has(key) {
        m.index(key)
    } else {
        m.entries.len() as int
    };
    assert(w.entries[at] == (key, value));
    assert forall|i: int, j: int| 0 <= i < j < w.entries.len() implies (#[trigger] w.entries[i]).0
        != (#[trigger] w.entries[j]).0 by {
        if m.has(key) {
            assert(w.entries[i].0 == m.entries[i].0 && w.entries[j].0 == m.entries[j].0);
        } else if j == m.entries.len() {
            assert(w.entries[i] == m.entries[i]);
        } else {
            assert(w.entries[i] == m.entries[i] && w.entries[j] == m.entries[j]);
        }
    }
    lemma_strmap_index(w, at);
    assert forall|other: Seq<char>| other != key implies (#[trigger] w.has(other)) == m.has(
        other,
    ) by {
        if m.has(other) {
            let i = m.index(other);
            assert(w.entries[i].0 == other);
        }
        if w.has(other) {
            let i = w.index(other);
            assert(m.entries[i].0 == other);
        }
    }
    assert forall|other: Seq<char>| other != key && m.has(other) implies #[trigger] w.value(other)
        == m.value(other) by {
        let i = m.index(other);
        assert(w.entries[i] == m.entries[i]);
        lemma_strmap_index(w, i);
    }
}

/// After `delete` the key is gone, and every other key stands for what it stood for.
pub proof fn lemma_strmap_delete<V>(m: StrMapView<V>, key: Seq<char>)
    requires
        m.wf(),
    ensures
        m.delete(key).wf(),
        !m.delete(key).has(key),
        forall|other: Seq<char>|
            other != key ==> (#[trigger] m.delete(key).has(other)) == m.has(other),
        forall|other: Seq<char>|
            other != key && m.has(other) ==> #[trigger] m.delete(key).value(other) == m.value(
                other,
            ),
{
    let w = m.delete(key);
    if m.has(key) {
        let at = m.index(key);
        assert forall|i: int| 0 <= i < w.entries.len() implies #[trigger] w.entries[i] == (if i
            < at {
            m.entries[i]
        } else {
            m.entries[i + 1]
        }) by {}
        assert forall|i: int, j: int| 0 <= i < j < w.entries.len() implies (
        #[trigger] w.entries[i]).0 != (#[trigger] w.entries[j]).0 by {
            let a = if i < at {
                i
            } else {
                i + 1
            };
            let b = if j < at {
                j
            } else {
                j + 1
            };
            assert(w.entries[i] == m.entries[a] && w.entries[j] == m.entries[b]);
        }
        if w.has(key) {
            let i = w.index(key);
            let a = if i < at {
                i
            } else {
                i + 1
            };
            assert(w.entries[i] == m.entries[a]);
            assert(m.entries[a].0 == m.entries[at].0);
        }
        assert forall|other: Seq<char>| other != key implies (#[trigger] w.has(other)) == m.has(
            other,
        ) by {
            if m.has(other) {
                let a = m.index(other);
                let i = if a < at {
                    a
                } else {
                    a - 1
                };
                assert(w.entries[i] == m.entries[a]);
            }
            if w.has(other) {
                let i = w.index(other);
                let a = if i < at {
                    i
                } else {
                    i + 1
                };
                assert(w.entries[i] == m.entries[a]);
            }
        }
        assert forall|other: Seq<char>| other != key && m.has(other) implies #[trigger] w.value(
            other,
        ) == m.value(other) by {
            let a = m.index(other);
            let i = if a < at {
                a
            } else {
                a - 1
            };
            assert(w.entries[i] == m.entries[a]);
            lemma_strmap_index(w, i);
        }
    }
}

/// The entries of a list as the contracts see them: each key by its characters.
pub open spec fn entry_views<V>(s: Seq<(String, V)>) -> Seq<(Seq<char>, V)> {
    s.map_values(|e: (String, V)| (e.0@, e.1))
}

/// A table keyed by text that keeps its keys in the order in which they came.
pub struct StrMap<V> {
    entries: Vec<(String, V)>,
}

impl<V> View for StrMap<V> {
    type V = StrMapView<V>;

    closed spec fn view(&self) -> StrMapView<V> {
        StrMapView { entries: entry_views(self.entries@) }
    }
}

impl<V> StrMap<V> {
    /// An empty table.
    pub fn new() -> (m: StrMap<V>)
        ensures
            m@.entries.len() == 0,
            m@.wf(),
            forall|key: Seq<char>| !#[trigger] m@.has(key),
    {
        StrMap { entries: Vec::new() }
    }

    fn find(&self, key: &str) -> (r: Option<usize>)
        ensures
            match r {
                Some(i) => i < self.entries.len() && self.entries[i as int].0@ == key@
                    && self@.has(key@),
                None => !self@.has(key@),
            },
    {
        let mut i: usize = 0;
        while i < self.entries.len()
            invariant
                i <= self.entries.len(),
                forall|k: int| 0 <= k < i ==> (#[trigger] self.entries[k]).0@ != key@,
            decreases self.entries.len() - i,
        {
            if str_eq(self.entries[i].0.as_str(), key) {
                assert(self@.entries[i as int].0 == key@);
                return Some(i);
            }
            i += 1;
        }
        assert forall|k: int| 0 <= k < self@.entries.len() implies (#[trigger] self@.entries[k]).0
            != key@ by {
            assert(self@.entries[k].0 == self.entries[k].0@);
        }
        None
    }

    /// How many keys the table has.
    pub fn len(&self) -> (n: usize)
        ensures
            n == self@.entries.len(),
    {
        self.entries.len()
    }

    /// The key at a place.
    pub fn key_at(&self, i: usize) -> (k: &String)
        requires
            i < self@.entries.len(),
        ensures
            k@ == self@.entries[i as int].0,
    {
        &self.entries[i].0
    }

    /// The value at a place.
    pub fn value_at(&self, i: usize) -> (v: &V)
        requires
            i < self@.entries.len(),
        ensures
            *v == self@.entries[i as int].1,
    {
        &self.entries[i].1
    }

    /// Whether the key is there.
    pub fn contains_key(&self, key: &str) -> (b: bool)
        ensures
            b == self@.has(key@),
    {
        self.find(key).is_some()
    }

    /// What the key stands for.
    pub fn get(&self, key: &str) -> (r: Option<&V>)
        requires
            self@.wf(),
        ensures
            match r {
                Some(v) => self@.has(key@) && *v == self@.value(key@),
                None => !self@.has(key@),
            },
    {
        match self.find(key) {
            Some(i) => {
                proof {
                    assert(self@.entries[i as int].0 == key@);
                    lemma_strmap_index(self@, i as int);
                }
                Some(&self.entries[i].1)
            },
            None => None,
        }
    }

    /// Lets the key stand for the value.
    pub fn insert(&mut self, key: String, value: V)
        requires
            old(self)@.wf(),
        ensures
            final(self)@.wf(),
            final(self)@ == old(self)@.put(key@, value),
            final(self)@.has(key@),
            final(self)@.value(key@) == value,
            forall|other: Seq<char>|
                other != key@ ==> (#[trigger] final(self)@.has(other)) == old(self)@.has(other),
            forall|other: Seq<char>|
                other != key@ && old(self)@.has(other) ==> #[trigger] final(self)@.value(other)
                    == old(self)@.value(other),
    {
        proof {
            lemma_strmap_put(self@, key@, value);
        }
        match self.find(key.as_str()) {
            Some(i) => {
                proof {
                    assert(self@.entries[i as int].0 == key@);
                    lemma_strmap_index(self@, i as int);
                }
                let ghost before = self.entries@;
                self.entries[i] = (key, value);
                assert(entry_views(self.entries@) =~= entry_views(before).update(
                    i as int,
                    (key@, value),
                ));
            },
            None => {
                let ghost before = self.entries@;
                self.entries.push((key, value));
                assert(entry_views(self.entries@) =~= entry_views(before).push((key@, value)));
            },
        }
    }

    /// Takes the key out and hands back what it stood for.
    pub fn remove(&mut self, key: &str) -> (r: Option<V>)
        requires
            old(self)@.wf(),
        ensures
            final(self)@.wf(),
            final(self)@ == old(self)@.delete(key@),
            match r {
                Some(v) => old(self)@.has(key@) && v == old(self)@.value(key@),
                None => !old(self)@.has(key@),
            },
            !final(self)@.has(key@),
            forall|other: Seq<char>|
                other != key@ ==> (#[trigger] final(self)@.has(other)) == old(self)@.has(other),
            forall|other: Seq<char>|
                other != key@ && old(self)@.has(other) ==> #[trigger] final(self)@.value(other)
                    == old(self)@.value(other),
    {
        proof {
            lemma_strmap_delete(self@, key@);
        }
        match self.find(key) {
            Some(i) => {
                proof {
                    assert(self@.entries[i as int].0 == key@);
                    lemma_strmap_index(self@, i as int);
                }
                let ghost before = self.entries@;
                let entry = self.entries.remove(i);
                assert(entry_views(self.entries@) =~= entry_views(before).remove(i as int));
                Some(entry.1)
            },
            None => None,
        }
    }
}

} // verus!
