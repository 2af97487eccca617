//! Maps and sets keyed by strings.
use crate::text::same;
use vstd::prelude::*;

verus! {

/// A map from strings, kept as a list of pairs with no key twice.
#[derive(Debug)]
pub struct StrMap<V> {
    entries: Vec<(String, V)>,
}

/// The position of a key, or the length of the list.
spec fn position<V>(s: Seq<(String, V)>, key: Seq<char>) -> int
    decreases s.len(),
{
    if s.len() == 0 {
        0
    } else if s[0].0@ == key {
        0
    } else {
        1 + position(s.drop_first(), key)
    }
}

proof fn lemma_position<V>(s: Seq<(String, V)>, key: Seq<char>)
    ensures
        0 <= position(s, key) <= s.len(),
        position(s, key) < s.len() ==> s[position(s, key)].0@ == key,
        forall|i: int| 0 <= i < position(s, key) ==> #[trigger] s[i].0@ != key,
    decreases s.len(),
{
    if s.len() > 0 && s[0].0@ != key {
        let d = s.drop_first();
        lemma_position(d, key);
        assert forall|i: int| 0 <= i < position(s, key) implies #[trigger] s[i].0@ != key by {
            if i > 0 {
                assert(s[i] == d[i - 1]);
            }
        }
    }
}

proof fn lemma_position_is<V>(s: Seq<(String, V)>, key: Seq<char>, p: int)
    requires
        0 <= p <= s.len(),
        p < s.len() ==> s[p].0@ == key,
        forall|i: int| 0 <= i < p ==> #[trigger] s[i].0@ != key,
    ensures
        position(s, key) == p,
{
    lemma_position(s, key);
    let q = position(s, key);
    if q < p {
        assert(s[q].0@ != key);
    } else if p < q {
        assert(s[p].0@ != key);
    }
}

impl<V> StrMap<V> {
    #[verifier::type_invariant]
    spec fn no_key_twice(&self) -> bool {
        forall|i: int, j: int|
            0 <= i < j < self.entries@.len() ==> (#[trigger] self.entries@[i]).0@ != (
            #[trigger] self.entries@[j]).0@
    }

    /// The keys, in the order in which the map hands them out.
    pub closed spec fn keys(&self) -> Seq<Seq<char>> {
        Seq::new(self.entries@.len(), |i: int| self.entries@[i].0@)
    }
}

impl<V: DeepView> DeepView for StrMap<V> {
    type V = Map<Seq<char>, V::V>;

    closed spec fn deep_view(&self) -> Map<Seq<char>, V::V> {
        Map::new(
            |k: Seq<char>| position(self.entries@, k) < self.entries@.len(),
            |k: Seq<char>| self.entries@[position(self.entries@, k)].1.deep_view(),
        )
    }
}

impl<V: DeepView> StrMap<V> {
    /// An empty map.
    pub fn new() -> (r: StrMap<V>)
        ensures
            r.deep_view() == Map::<Seq<char>, V::V>::empty(),
    {
        let r = StrMap { entries: Vec::new() };
        assert(r.deep_view() =~= Map::<Seq<char>, V::V>::empty());
        r
    }

    fn find(&self, key: &str) -> (r: usize)
        ensures
            r == position(self.entries@, key@),
            r <= self.entries@.len(),
    {
        let mut i: usize = 0;
        while i < self.entries.len()
            invariant
                i <= self.entries@.len(),
                forall|k: int| 0 <= k < i ==> #[trigger] self.entries@[k].0@ != key@,
            decreases self.entries@.len() - i,
        {
            if same(self.entries[i].0.as_str(), key) {
                proof {
                    lemma_position_is(self.entries@, key@, i as int);
                }
                return i;
            }
            i = i + 1;
        }
        proof {
            lemma_position_is(self.entries@, key@, i as int);
        }
        i
    }

    /// The value of a key.
    pub fn get(&self, key: &str) -> (r: Option<&V>)
        ensures
            match r {
                Some(v) => self.deep_view().contains_key(key@) && v.deep_view()
                    == self.deep_view()[key@],
                None => !self.deep_view().contains_key(key@),
            },
    {
        let i = self.find(key);
        if i < self.entries.len() {
            Some(&self.entries[i].1)
        } else {
            None
        }
    }

    /// Whether the key has a value.
    pub fn contains_key(&self, key: &str) -> (r: bool)
        ensures
            r == self.deep_view().contains_key(key@),
    {
        let i = self.find(key);
        i < self.entries.len()
    }

    /// Gives the key a value, in place of the one that it had.
    pub fn insert(&mut self, key: String, value: V)
        ensures
            final(self).deep_view() == old(self).deep_view().insert(key@, value.deep_view()),
    {
        proof {
            use_type_invariant(&*self);
        }
        let ghost before = self.entries@;
        let at = self.find(key.as_str());
        let mut entries: Vec<(String, V)> = Vec::new();
        std::mem::swap(&mut entries, &mut self.entries);
        let ghost kv = key@;
        let ghost vv = value.deep_view();
        if at < entries.len() {
            entries.set(at, (key, value));
        } else {
            entries.push((key, value));
        }
        proof {
            lemma_position(before, kv);
            assert forall|i: int, j: int| 0 <= i < j < entries@.len() implies (
            #[trigger] entries@[i]).0@ != (#[trigger] entries@[j]).0@ by {
                if at == before.len() && j == at {
                    assert(before[i].0@ != kv);
                } else {
                    assert(entries@[i].0@ == before[i].0@);
                    assert(entries@[j].0@ == before[j].0@);
                }
            }
        }
        self.entries = entries;
        proof {
            assert forall|k: Seq<char>| true implies #[trigger] position(self.entries@, k) == (if k
                == kv {
                at as int
            } else if position(before, k) == before.len() {
                self.entries@.len() as int
            } else {
                position(before, k)
            }) by {
                lemma_position(before, k);
                if k == kv {
                    lemma_position_is(self.entries@, k, at as int);
                } else if position(before, k) == before.len() {
                    lemma_position_is(self.entries@, k, self.entries@.len() as int);
                } else {
                    lemma_position_is(self.entries@, k, position(before, k));
                }
            }
            assert(self.deep_view() =~= old(self).deep_view().insert(kv, vv)) by {
                assert forall|k: Seq<char>| true implies self.deep_view().contains_key(k) == old(
                    self,
                ).deep_view().insert(kv, vv).contains_key(k) by {
                    lemma_position(before, k);
                    assert(position(self.entries@, k) == position(self.entries@, k));
                }
                assert forall|k: Seq<char>| self.deep_view().contains_key(k) implies (
                #[trigger] self.deep_view()[k]) == old(self).deep_view().insert(kv, vv)[k] by {
                    lemma_position(before, k);
                    assert(position(self.entries@, k) == position(self.entries@, k));
                }
            }
        }
    }

    /// Takes a key out, and gives its value back.
    pub fn remove(&mut self, key: &str) -> (r: Option<V>)
        ensures
            final(self).deep_view() == old(self).deep_view().remove(key@),
            match r {
                Some(v) => old(self).deep_view().contains_key(key@) && v.deep_view() == old(
                    self,
                ).deep_view()[key@],
                None => !old(self).deep_view().contains_key(key@),
            },
    {
        proof {
            use_type_invariant(&*self);
        }
        let ghost before = self.entries@;
        let at = self.find(key);
        let mut entries: Vec<(String, V)> = Vec::new();
        std::mem::swap(&mut entries, &mut self.entries);
        let r = if at < entries.len() {
            let pair = entries.remove(at);
            Some(pair.1)
        } else {
            None
        };
        self.entries = entries;
        proof {
            lemma_position(before, key@);
            let after = self.entries@;
            assert forall|k: Seq<char>| true implies #[trigger] position(after, k) == (if k == key@
                || position(before, k) == before.len() {
                after.len() as int
            } else if position(before, k) < at {
                position(before, k)
            } else {
                position(before, k) - 1
            }) by {
                lemma_position(before, k);
                let p = position(before, k);
                if at == before.len() {
                    assert(after =~= before);
                } else if k == key@ {
                    assert forall|i: int| 0 <= i < after.len() implies #[trigger] after[i].0@
                        != k by {
                        if i < at {
                            assert(after[i] == before[i]);
                        } else {
                            assert(after[i] == before[i + 1]);
                        }
                    }
                    lemma_position_is(after, k, after.len() as int);
                } else if p == before.len() {
                    assert forall|i: int| 0 <= i < after.len() implies #[trigger] after[i].0@
                        != k by {
                        if i < at {
                            assert(after[i] == before[i]);
                        } else {
                            assert(after[i] == before[i + 1]);
                        }
                    }
                    lemma_position_is(after, k, after.len() as int);
                } else if p < at {
                    assert(after[p] == before[p]);
                    assert forall|i: int| 0 <= i < p implies #[trigger] after[i].0@ != k by {
                        assert(after[i] == before[i]);
                    }
                    lemma_position_is(after, k, p);
                } else {
                    assert(after[p - 1] == before[p]);
                    assert forall|i: int| 0 <= i < p - 1 implies #[trigger] after[i].0@ != k by {
                        if i < at {
                            assert(after[i] == before[i]);
                        } else {
                            assert(after[i] == before[i + 1]);
                        }
                    }
                    lemma_position_is(after, k, p - 1);
                }
            }
            assert(self.deep_view() =~= old(self).deep_view().remove(key@)) by {
                assert forall|k: Seq<char>| true implies self.deep_view().contains_key(k) == old(
                    self,
                ).deep_view().remove(key@).contains_key(k) by {
                    lemma_position(before, k);
                    assert(position(after, k) == position(after, k));
                }
                assert forall|k: Seq<char>| self.deep_view().contains_key(k) implies (
                #[trigger] self.deep_view()[k]) == old(self).deep_view().remove(key@)[k] by {
                    lemma_position(before, k);
                    assert(position(after, k) == position(after, k));
                }
            }
        }
        r
    }

    /// Number of keys.
    pub fn len(&self) -> (r: usize)
        ensures
            r == self.keys().len(),
            self.keys().no_duplicates(),
            forall|k: Seq<char>| #[trigger]
                self.deep_view().contains_key(k) <==> self.keys().contains(k),
    {
        proof {
            use_type_invariant(self);
            assert forall|k: Seq<char>| #[trigger] self.deep_view().contains_key(k) implies
                self.keys().contains(k) by {
                lemma_position(self.entries@, k);
                assert(self.keys()[position(self.entries@, k)] == k);
            }
            assert forall|k: Seq<char>| self.keys().contains(k) implies
                #[trigger] self.deep_view().contains_key(k) by {
                lemma_position(self.entries@, k);
                let i = choose|i: int| 0 <= i < self.keys().len() && self.keys()[i] == k;
                if position(self.entries@, k) == self.entries@.len() {
                    assert(self.entries@[i].0@ != k);
                }
            }
        }
        self.entries.len()
    }

    /// The key at a position of `keys`.
    pub fn key_at(&self, i: usize) -> (r: &String)
        requires
            i < self.keys().len(),
        ensures
            r@ == self.keys()[i as int],
    {
        &self.entries[i].0
    }

    /// The value of the key at a position of `keys`.
    pub fn value_at(&self, i: usize) -> (r: &V)
        requires
            i < self.keys().len(),
        ensures
            self.deep_view().contains_key(self.keys()[i as int]),
            r.deep_view() == self.deep_view()[self.keys()[i as int]],
    {
        proof {
            use_type_invariant(self);
            lemma_position_is(self.entries@, self.entries@[i as int].0@, i as int);
        }
        &self.entries[i].1
    }
}

/// A set of strings, kept as a list with nothing twice.
#[derive(Debug)]
pub struct StrSet {
    members: StrMap<bool>,
}

impl DeepView for StrSet {
    type V = Set<Seq<char>>;

    closed spec fn deep_view(&self) -> Set<Seq<char>> {
        self.members.deep_view().dom()
    }
}

impl StrSet {
    /// The empty set.
    pub fn new() -> (r: StrSet)
        ensures
            r.deep_view() == Set::<Seq<char>>::empty(),
    {
        let r = StrSet { members: StrMap::new() };
        assert(r.deep_view() =~= Set::<Seq<char>>::empty());
        r
    }

    /// Whether `s` is a member.
    pub fn contains(&self, s: &str) -> (r: bool)
        ensures
            r == self.deep_view().contains(s@),
    {
        self.members.contains_key(s)
    }

    /// Makes `s` a member.
    pub fn insert(&mut self, s: String)
        ensures
            final(self).deep_view() == old(self).deep_view().insert(s@),
    {
        self.members.insert(s, true);
        assert(self.deep_view() =~= old(self).deep_view().insert(s@));
    }

    /// Takes `s` out.
    pub fn remove(&mut self, s: &str)
        ensures
            final(self).deep_view() == old(self).deep_view().remove(s@),
    {
        let _ = self.members.remove(s);
        assert(self.deep_view() =~= old(self).deep_view().remove(s@));
    }
}

} // verus!
