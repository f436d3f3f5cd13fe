//! A small table keyed by strings, viewed as a map from character
//! sequences to values.

use vstd::prelude::*;

use crate::text::{chars_of_string, eq_vec};

verus! {

pub struct Entry<V> {
    pub key: String,
    pub value: V,
}

pub struct Table<V> {
    entries: Vec<Entry<V>>,
}

pub open spec fn keys_unique<V>(s: Seq<Entry<V>>) -> bool {
    forall|i: int, j: int| 0 <= i < s.len() && 0 <= j < s.len() && i != j ==> s[i].key@ != s[j].key@
}

pub open spec fn key_index<V>(s: Seq<Entry<V>>, k: Seq<char>) -> int {
    choose|i: int| 0 <= i < s.len() && s[i].key@ == k
}

pub open spec fn map_of<V>(s: Seq<Entry<V>>) -> Map<Seq<char>, V> {
    Map::new(
        |k: Seq<char>| exists|i: int| 0 <= i < s.len() && s[i].key@ == k,
        |k: Seq<char>| s[key_index(s, k)].value,
    )
}

pub proof fn lemma_map_at<V>(s: Seq<Entry<V>>, i: int)
    requires
        keys_unique(s),
        0 <= i < s.len(),
    ensures
        map_of(s).contains_key(s[i].key@),
        map_of(s)[s[i].key@] == s[i].value,
{
    let k = s[i].key@;
    assert(map_of(s).dom().contains(k));
    let j = key_index(s, k);
    assert(s[j].key@ == k);
}

proof fn lemma_map_push<V>(s: Seq<Entry<V>>, e: Entry<V>)
    requires
        keys_unique(s),
        !map_of(s).contains_key(e.key@),
    ensures
        keys_unique(s.push(e)),
        map_of(s.push(e)) == map_of(s).insert(e.key@, e.value),
{
    let t = s.push(e);
    assert(keys_unique(t)) by {
        assert forall|i: int, j: int|
            0 <= i < t.len() && 0 <= j < t.len() && i != j implies t[i].key@ != t[j].key@ by {
            if i < s.len() && j < s.len() {
            } else if i < s.len() {
                assert(map_of(s).dom().contains(s[i].key@));
            } else {
                assert(map_of(s).dom().contains(s[j].key@));
            }
        }
    }
    assert forall|k: Seq<char>| #[trigger]
        map_of(t).contains_key(k) == map_of(s).insert(e.key@, e.value).contains_key(k) by {
        if map_of(s).contains_key(k) {
            let i = key_index(s, k);
            assert(t[i].key@ == k);
        }
        if map_of(t).contains_key(k) && k != e.key@ {
            let i = key_index(t, k);
            assert(s[i].key@ == k);
        }
        if k == e.key@ {
            assert(t[s.len() as int].key@ == k);
        }
    }
    assert forall|k: Seq<char>| map_of(t).contains_key(k) implies #[trigger] map_of(t)[k]
        == map_of(s).insert(e.key@, e.value)[k] by {
        if k == e.key@ {
            lemma_map_at(t, s.len() as int);
        } else {
            let i = key_index(t, k);
            lemma_map_at(t, i);
            lemma_map_at(s, i);
        }
    }
    assert(map_of(t) =~= map_of(s).insert(e.key@, e.value));
}

proof fn lemma_map_update<V>(s: Seq<Entry<V>>, i: int, e: Entry<V>)
    requires
        keys_unique(s),
        0 <= i < s.len(),
        s[i].key@ == e.key@,
    ensures
        keys_unique(s.update(i, e)),
        map_of(s.update(i, e)) == map_of(s).insert(e.key@, e.value),
{
    let t = s.update(i, e);
    assert(keys_unique(t)) by {
        assert forall|a: int, b: int|
            0 <= a < t.len() && 0 <= b < t.len() && a != b implies t[a].key@ != t[b].key@ by {
            assert(t[a].key@ == s[a].key@);
            assert(t[b].key@ == s[b].key@);
        }
    }
    assert forall|k: Seq<char>| #[trigger]
        map_of(t).contains_key(k) == map_of(s).insert(e.key@, e.value).contains_key(k) by {
        if map_of(s).contains_key(k) {
            let j = key_index(s, k);
            assert(t[j].key@ == k);
        }
        if map_of(t).contains_key(k) {
            let j = key_index(t, k);
            assert(s[j].key@ == k);
        }
        if k == e.key@ {
            assert(t[i].key@ == k);
        }
    }
    assert forall|k: Seq<char>| map_of(t).contains_key(k) implies #[trigger] map_of(t)[k]
        == map_of(s).insert(e.key@, e.value)[k] by {
        let j = key_index(t, k);
        lemma_map_at(t, j);
        if j != i {
            lemma_map_at(s, j);
        }
    }
    assert(map_of(t) =~= map_of(s).insert(e.key@, e.value));
}

proof fn lemma_map_remove<V>(s: Seq<Entry<V>>, i: int)
    requires
        keys_unique(s),
        0 <= i < s.len(),
    ensures
        keys_unique(s.remove(i)),
        map_of(s.remove(i)) == map_of(s).remove(s[i].key@),
{
    let t = s.remove(i);
    let gone = s[i].key@;
    assert(keys_unique(t)) by {
        assert forall|a: int, b: int|
            0 <= a < t.len() && 0 <= b < t.len() && a != b implies t[a].key@ != t[b].key@ by {
            let a2 = if a < i {
                a
            } else {
                a + 1
            };
            let b2 = if b < i {
                b
            } else {
                b + 1
            };
            assert(t[a] == s[a2]);
            assert(t[b] == s[b2]);
        }
    }
    assert forall|k: Seq<char>| #[trigger]
        map_of(t).contains_key(k) == map_of(s).remove(gone).contains_key(k) by {
        if map_of(s).contains_key(k) && k != gone {
            let j = key_index(s, k);
            let j2 = if j < i {
                j
            } else {
                j - 1
            };
            assert(t[j2] == s[j]);
        }
        if map_of(t).contains_key(k) {
            let j = key_index(t, k);
            let j2 = if j < i {
                j
            } else {
                j + 1
            };
            assert(t[j] == s[j2]);
        }
    }
    assert forall|k: Seq<char>| map_of(t).contains_key(k) implies #[trigger] map_of(t)[k]
        == map_of(s).remove(gone)[k] by {
        let j = key_index(t, k);
        let j2 = if j < i {
            j
        } else {
            j + 1
        };
        assert(t[j] == s[j2]);
        lemma_map_at(t, j);
        lemma_map_at(s, j2);
    }
    assert(map_of(t) =~= map_of(s).remove(gone));
}

impl<V> Table<V> {
    pub closed spec fn view(&self) -> Map<Seq<char>, V> {
        map_of(self.entries@)
    }

    pub closed spec fn wf(&self) -> bool {
        keys_unique(self.entries@)
    }

    /// Keys in table order.
    pub closed spec fn keys(&self) -> Seq<Seq<char>> {
        self.entries@.map_values(|e: Entry<V>| e.key@)
    }

    /// Values in table order.
    pub closed spec fn values(&self) -> Seq<V> {
        self.entries@.map_values(|e: Entry<V>| e.value)
    }

    pub proof fn lemma_values(&self)
        requires
            self.wf(),
        ensures
            self.values().len() == self.keys().len(),
            forall|i: int|
                0 <= i < self.keys().len() ==> self@.contains_key(#[trigger] self.keys()[i])
                    && self@[self.keys()[i]] == self.values()[i],
    {
        assert forall|i: int| 0 <= i < self.keys().len() implies self@.contains_key(
            #[trigger] self.keys()[i],
        ) && self@[self.keys()[i]] == self.values()[i] by {
            lemma_map_at(self.entries@, i);
        }
    }

    pub fn new() -> (r: Self)
        ensures
            r.wf(),
            r@ == Map::<Seq<char>, V>::empty(),
    {
        let r = Table { entries: Vec::new() };
        assert(r@ =~= Map::<Seq<char>, V>::empty());
        r
    }

    pub fn len(&self) -> (r: usize)
        ensures
            r == self.keys().len(),
    {
        self.entries.len()
    }

    pub fn find(&self, key: &[char]) -> (r: Option<usize>)
        requires
            self.wf(),
        ensures
            match r {
                Some(i) => i < self.keys().len() && self.keys()[i as int] == key@
                    && self@.contains_key(key@),
                None => !self@.contains_key(key@),
            },
    {
        let mut i: usize = 0;
        while i < self.entries.len()
            invariant
                0 <= i <= self.entries@.len(),
                keys_unique(self.entries@),
                forall|j: int| 0 <= j < i ==> self.entries@[j].key@ != key@,
            decreases self.entries.len() - i,
        {
            let k = chars_of_string(&self.entries[i].key);
            if eq_vec(&k, key) {
                proof {
                    lemma_map_at(self.entries@, i as int);
                }
                return Some(i);
            }
            i = i + 1;
        }
        None
    }

    pub fn get(&self, key: &[char]) -> (r: Option<&V>)
        requires
            self.wf(),
        ensures
            match r {
                Some(v) => self@.contains_key(key@) && self@[key@] == *v,
                None => !self@.contains_key(key@),
            },
    {
        match self.find(key) {
            Some(i) => {
                proof {
                    lemma_map_at(self.entries@, i as int);
                }
                Some(&self.entries[i].value)
            },
            None => None,
        }
    }

    pub fn value_at(&self, i: usize) -> (r: &V)
        requires
            self.wf(),
            i < self.keys().len(),
        ensures
            *r == self.values()[i as int],
            self@.contains_key(self.keys()[i as int]),
            self@[self.keys()[i as int]] == *r,
    {
        proof {
            lemma_map_at(self.entries@, i as int);
        }
        &self.entries[i].value
    }

    pub fn key_at(&self, i: usize) -> (r: &String)
        requires
            i < self.keys().len(),
        ensures
            r@ == self.keys()[i as int],
    {
        &self.entries[i].key
    }

    pub fn insert(&mut self, key: String, value: V)
        requires
            old(self).wf(),
        ensures
            final(self).wf(),
            final(self)@ == old(self)@.insert(key@, value),
    {
        let kv = chars_of_string(&key);
        let e = Entry { key, value };
        match self.find(&kv) {
            Some(i) => {
                proof {
                    lemma_map_update(self.entries@, i as int, e);
                }
                self.entries.set(i, e);
            },
            None => {
                proof {
                    lemma_map_push(self.entries@, e);
                }
                self.entries.push(e);
            },
        }
    }

    pub fn remove(&mut self, key: &[char]) -> (r: Option<V>)
        requires
            old(self).wf(),
        ensures
            final(self).wf(),
            final(self)@ == old(self)@.remove(key@),
            match r {
                Some(v) => old(self)@.contains_key(key@) && old(self)@[key@] == v,
                None => !old(self)@.contains_key(key@),
            },
    {
        match self.find(key) {
            Some(i) => {
                proof {
                    lemma_map_remove(self.entries@, i as int);
                    lemma_map_at(self.entries@, i as int);
                }
                let e = self.entries.remove(i);
                Some(e.value)
            },
            None => {
                assert(map_of(self.entries@).remove(key@) =~= map_of(self.entries@));
                None
            },
        }
    }

    /// Removes the entry at position `i`.
    pub fn remove_at(&mut self, i: usize)
        requires
            old(self).wf(),
            i < old(self).keys().len(),
        ensures
            final(self).wf(),
            final(self)@ == old(self)@.remove(old(self).keys()[i as int]),
            final(self).keys() == old(self).keys().remove(i as int),
    {
        proof {
            lemma_map_remove(self.entries@, i as int);
        }
        self.entries.remove(i);
        assert(self.keys() =~= old(self).keys().remove(i as int));
    }

    pub proof fn lemma_keys(&self)
        requires
            self.wf(),
        ensures
            forall|k: Seq<char>| self@.contains_key(k) <==> self.keys().contains(k),
            self.keys().no_duplicates(),
            self@.dom().finite(),
            self@.dom().len() == self.keys().len(),
    {
        let s = self.entries@;
        assert forall|k: Seq<char>| self@.contains_key(k) <==> self.keys().contains(k) by {
            if self@.contains_key(k) {
                let i = key_index(s, k);
                assert(self.keys()[i] == k);
            }
            if self.keys().contains(k) {
                let i = choose|i: int| 0 <= i < self.keys().len() && self.keys()[i] == k;
                assert(s[i].key@ == k);
            }
        }
        assert(self@.dom() =~= self.keys().to_set());
        self.keys().unique_seq_to_set();
    }
}

} // verus!
