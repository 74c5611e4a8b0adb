//! A small map from text keys to values, kept as a list of entries with distinct keys.

use vstd::prelude::*;

verus! {

pub open spec fn keys_unique<V>(s: Seq<(String, V)>) -> bool {
    forall|i: int, k: int| 0 <= i < k < s.len() ==> s[i].0@ != s[k].0@
}

pub open spec fn has_key<V>(s: Seq<(String, V)>, key: Seq<char>) -> bool {
    exists|i: int| 0 <= i < s.len() && #[trigger] s[i].0@ == key
}

pub open spec fn entries_map<V>(s: Seq<(String, V)>) -> Map<Seq<char>, V> {
    Map::new(
        |key: Seq<char>| has_key(s, key),
        |key: Seq<char>| s[choose|i: int| 0 <= i < s.len() && #[trigger] s[i].0@ == key].1,
    )
}

proof fn lemma_entry<V>(s: Seq<(String, V)>, i: int)
    requires
        keys_unique(s),
        0 <= i < s.len(),
    ensures
        entries_map(s).contains_key(s[i].0@),
        entries_map(s)[s[i].0@] == s[i].1,
{
    let key = s[i].0@;
    assert(has_key(s, key));
    let j = choose|j: int| 0 <= j < s.len() && #[trigger] s[j].0@ == key;
    assert(j == i);
}

/// Text keys to values; each key at most once.
#[derive(Debug)]
pub struct Keyed<V> {
    entries: Vec<(String, V)>,
}

impl<V> View for Keyed<V> {
    type V = Map<Seq<char>, V>;

    closed spec fn view(&self) -> Map<Seq<char>, V> {
        entries_map(self.entries@)
    }
}

impl<V> Keyed<V> {
    pub closed spec fn wf(&self) -> bool {
        keys_unique(self.entries@)
    }

    pub fn new() -> (r: Keyed<V>)
        ensures
            r.wf(),
            r@ == Map::<Seq<char>, V>::empty(),
    {
        let r = Keyed { entries: Vec::new() };
        assert(entries_map(r.entries@) =~= Map::<Seq<char>, V>::empty());
        r
    }

    fn position(&self, key: &str) -> (r: Option<usize>)
        requires
            self.wf(),
        ensures
            match r {
                Some(i) => i < self.entries@.len() && self.entries@[i as int].0@ == key@
                    && self@.contains_key(key@) && self@[key@] == self.entries@[i as int].1,
                None => !self@.contains_key(key@),
            },
    {
        let mut i: usize = 0;
        while i < self.entries.len()
            invariant
                self.wf(),
                i <= self.entries@.len(),
                forall|k: int| 0 <= k < i ==> #[trigger] self.entries@[k].0@ != key@,
            decreases self.entries.len() - i,
        {
            if self.entries[i].0 == String::from_str(key) {
                proof {
                    lemma_entry(self.entries@, i as int);
                }
                return Some(i);
            }
            i += 1;
        }
        None
    }

    /// The value under `key`.
    pub fn get(&self, key: &str) -> (r: Option<&V>)
        requires
            self.wf(),
        ensures
            match r {
                Some(v) => self@.contains_key(key@) && self@[key@] == *v,
                None => !self@.contains_key(key@),
            },
    {
        match self.position(key) {
            Some(i) => Some(&self.entries[i].1),
            None => None,
        }
    }

    /// Removes `key`, returning its value.
    pub fn remove(&mut self, key: &str) -> (r: Option<V>)
        requires
            old(self).wf(),
        ensures
            final(self).wf(),
            final(self)@ == old(self)@.remove(key@),
            match r {
                Some(v) => old(self)@.contains_key(key@) && old(self)@[key@] == v,
                None => !old(self)@.contains_key(key@),
            },
    {
        let i = match self.position(key) {
            Some(i) => i,
            None => {
                assert(self@.remove(key@) =~= self@);
                return None;
            },
        };
        let ghost s = self.entries@;
        let (_, v) = self.entries.remove(i);
        proof {
            let t = self.entries@;
            assert forall|a: int| 0 <= a < t.len() implies #[trigger] t[a] == s[if a < i {
                a
            } else {
                a + 1
            }] by {}
            assert forall|a: int, b: int| 0 <= a < b < t.len() implies t[a].0@ != t[b].0@ by {
                assert(t[a] == s[if a < i { a } else { a + 1 }]);
                assert(t[b] == s[if b < i { b } else { b + 1 }]);
            }
            assert forall|k: Seq<char>| #[trigger] has_key(t, k) == (has_key(s, k) && k != key@) by {
                if has_key(t, k) {
                    let a = choose|a: int| 0 <= a < t.len() && #[trigger] t[a].0@ == k;
                    assert(t[a] == s[if a < i { a } else { a + 1 }]);
                }
                if has_key(s, k) && k != key@ {
                    let a = choose|a: int| 0 <= a < s.len() && #[trigger] s[a].0@ == k;
                    let b = if a < i { a } else { a - 1 };
                    assert(t[b] == s[a]);
                }
            }
            assert forall|k: Seq<char>| #[trigger] entries_map(t).contains_key(k) implies entries_map(
                t,
            )[k] == entries_map(s)[k] by {
                let a = choose|a: int| 0 <= a < t.len() && #[trigger] t[a].0@ == k;
                lemma_entry(t, a);
                assert(t[a] == s[if a < i { a } else { a + 1 }]);
                lemma_entry(s, if a < i { a } else { a + 1 });
            }
            assert(entries_map(t) =~= entries_map(s).remove(key@));
        }
        Some(v)
    }

    /// Sets `key` to `v`, replacing any value it had.
    pub fn insert(&mut self, key: &str, v: V)
        requires
            old(self).wf(),
        ensures
            final(self).wf(),
            final(self)@ == old(self)@.insert(key@, v),
    {
        let _ = self.remove(key);
        let ghost s = self.entries@;
        let ghost mid = self@;
        self.entries.push((String::from_str(key), v));
        proof {
            let t = self.entries@;
            let x = t[s.len() as int];
            assert(!mid.contains_key(key@));
            assert(mid == entries_map(s));
            assert(!has_key(s, key@));
            assert forall|i: int, k: int| 0 <= i < k < t.len() implies t[i].0@ != t[k].0@ by {
                if k == s.len() {
                    assert(s[i].0@ != key@);
                } else {
                    assert(s[i] == t[i] && s[k] == t[k]);
                }
            }
            assert forall|k: Seq<char>| #[trigger] has_key(t, k) == (has_key(s, k) || k == key@) by {
                if has_key(s, k) {
                    let i = choose|i: int| 0 <= i < s.len() && #[trigger] s[i].0@ == k;
                    assert(t[i] == s[i]);
                }
                if k == key@ {
                    assert(t[s.len() as int].0@ == key@);
                }
                if has_key(t, k) && k != key@ {
                    let i = choose|i: int| 0 <= i < t.len() && #[trigger] t[i].0@ == k;
                    assert(s[i] == t[i]);
                }
            }
            assert forall|k: Seq<char>| #[trigger] entries_map(t).contains_key(k) implies entries_map(
                t,
            )[k] == mid.insert(key@, v)[k] by {
                let i = choose|i: int| 0 <= i < t.len() && #[trigger] t[i].0@ == k;
                lemma_entry(t, i);
                if k != key@ {
                    assert(i < s.len());
                    assert(s[i] == t[i]);
                    lemma_entry(s, i);
                }
            }
            assert(entries_map(t) =~= mid.insert(key@, v));
            assert(mid.insert(key@, v) =~= old(self)@.insert(key@, v));
        }
    }
}

} // verus!
