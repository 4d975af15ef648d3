use vstd::prelude::*;

use crate::text::{lemma_seq_lt_irreflexive, lemma_seq_lt_total, lemma_seq_lt_transitive, seq_lt, str_eq, str_lt};

verus! {

/// The keys of `s` are in strictly increasing order, so no key occurs twice.
pub open spec fn keys_increasing<V>(s: Seq<(String, V)>) -> bool {
    forall|i: int, j: int| 0 <= i < j < s.len() ==> #[trigger] seq_lt(s[i].0@, s[j].0@)
}

/// Whether some entry of `s` has key `k`.
pub open spec fn has_key<V>(s: Seq<(String, V)>, k: Seq<char>) -> bool {
    exists|i: int| 0 <= i < s.len() && #[trigger] s[i].0@ == k
}

/// An index of `s` whose entry has key `k`, where there is one.
pub open spec fn key_index<V>(s: Seq<(String, V)>, k: Seq<char>) -> int {
    choose|i: int| 0 <= i < s.len() && #[trigger] s[i].0@ == k
}

/// The map that a sequence of entries with distinct keys stands for.
pub open spec fn map_of<V>(s: Seq<(String, V)>) -> Map<Seq<char>, V> {
    Map::new(
        |k: Seq<char>| has_key(s, k),
        |k: Seq<char>| s[key_index(s, k)].1,
    )
}

/// In a sequence with increasing keys, a key occurs at one index only.
pub proof fn lemma_key_unique<V>(s: Seq<(String, V)>, i: int, j: int)
    requires
        keys_increasing(s),
        0 <= i < s.len(),
        0 <= j < s.len(),
        s[i].0@ == s[j].0@,
    ensures
        i == j,
{
    lemma_seq_lt_irreflexive(s[i].0@);
    if i < j {
        assert(seq_lt(s[i].0@, s[j].0@));
    } else if j < i {
        assert(seq_lt(s[j].0@, s[i].0@));
    }
}

/// The map holds each entry of the sequence.
pub proof fn lemma_map_of_index<V>(s: Seq<(String, V)>, i: int)
    requires
        keys_increasing(s),
        0 <= i < s.len(),
    ensures
        map_of(s).contains_key(s[i].0@),
        map_of(s)[s[i].0@] == s[i].1,
{
    let k = s[i].0@;
    assert(has_key(s, k));
    let j = key_index(s, k);
    lemma_key_unique(s, i, j);
}

/// Replacing the value of an existing key.
proof fn lemma_update<V>(s: Seq<(String, V)>, i: int, key: String, value: V)
    requires
        keys_increasing(s),
        0 <= i < s.len(),
        s[i].0@ == key@,
    ensures
        keys_increasing(s.update(i, (key, value))),
        map_of(s.update(i, (key, value))) == map_of(s).insert(key@, value),
{
    let t = s.update(i, (key, value));
    assert forall|a: int, b: int| 0 <= a < b < t.len() implies #[trigger] seq_lt(
        t[a].0@,
        t[b].0@,
    ) by {
        assert(seq_lt(s[a].0@, s[b].0@));
    }
    let m = map_of(s).insert(key@, value);
    assert forall|k: Seq<char>| #[trigger] map_of(t).contains_key(k) <==> m.contains_key(k) by {
        if has_key(t, k) {
            let j = choose|j: int| 0 <= j < t.len() && #[trigger] t[j].0@ == k;
            if j != i {
                assert(s[j].0@ == k);
            }
        }
        if has_key(s, k) {
            let j = choose|j: int| 0 <= j < s.len() && #[trigger] s[j].0@ == k;
            assert(t[j].0@ == k);
        }
    }
    assert forall|k: Seq<char>| #[trigger] map_of(t).contains_key(k) implies map_of(t)[k]
        == m[k] by {
        lemma_map_of_index(t, i);
        if k != key@ {
            let j = choose|j: int| 0 <= j < t.len() && #[trigger] t[j].0@ == k;
            assert(j != i);
            lemma_map_of_index(t, j);
            lemma_map_of_index(s, j);
        }
    }
    assert(map_of(t) =~= m);
}

/// Inserting a new key at the position that keeps the keys increasing.
proof fn lemma_insert_new<V>(s: Seq<(String, V)>, i: int, key: String, value: V)
    requires
        keys_increasing(s),
        0 <= i <= s.len(),
        forall|j: int| 0 <= j < i ==> seq_lt(#[trigger] s[j].0@, key@),
        forall|j: int| i <= j < s.len() ==> seq_lt(key@, #[trigger] s[j].0@),
    ensures
        keys_increasing(s.insert(i, (key, value))),
        map_of(s.insert(i, (key, value))) == map_of(s).insert(key@, value),
{
    let t = s.insert(i, (key, value));
    assert forall|a: int, b: int| 0 <= a < b < t.len() implies #[trigger] seq_lt(
        t[a].0@,
        t[b].0@,
    ) by {
        if b < i {
            assert(seq_lt(s[a].0@, s[b].0@));
        } else if b == i {
            assert(seq_lt(s[a].0@, key@));
        } else if a < i {
            assert(seq_lt(s[a].0@, key@));
            assert(seq_lt(key@, s[b - 1].0@));
            lemma_seq_lt_transitive(s[a].0@, key@, s[b - 1].0@);
        } else if a == i {
            assert(seq_lt(key@, s[b - 1].0@));
        } else {
            assert(seq_lt(s[a - 1].0@, s[b - 1].0@));
        }
    }
    let m = map_of(s).insert(key@, value);
    assert forall|k: Seq<char>| #[trigger] map_of(t).contains_key(k) <==> m.contains_key(k) by {
        if has_key(t, k) {
            let j = choose|j: int| 0 <= j < t.len() && #[trigger] t[j].0@ == k;
            if j < i {
                assert(s[j].0@ == k);
            } else if j > i {
                assert(s[j - 1].0@ == k);
            }
        }
        if has_key(s, k) {
            let j = choose|j: int| 0 <= j < s.len() && #[trigger] s[j].0@ == k;
            if j < i {
                assert(t[j].0@ == k);
            } else {
                assert(t[j + 1].0@ == k);
            }
        }
        assert(t[i].0@ == key@);
    }
    assert forall|k: Seq<char>| #[trigger] map_of(t).contains_key(k) implies map_of(t)[k]
        == m[k] by {
        lemma_map_of_index(t, i);
        if k != key@ {
            let j = choose|j: int| 0 <= j < t.len() && #[trigger] t[j].0@ == k;
            lemma_map_of_index(t, j);
            if j < i {
                lemma_map_of_index(s, j);
            } else {
                lemma_map_of_index(s, j - 1);
            }
        }
    }
    assert(map_of(t) =~= m);
}

/// A map from names to values that keeps its entries sorted by name, as a
/// `BTreeMap<String, V>` does.
#[derive(Debug)]
pub struct NameMap<V> {
    entries: Vec<(String, V)>,
}

impl<V> View for NameMap<V> {
    type V = Map<Seq<char>, V>;

    open spec fn view(&self) -> Map<Seq<char>, V> {
        map_of(self.entries_spec())
    }
}

impl<V> NameMap<V> {
    #[verifier::type_invariant]
    spec fn inv(self) -> bool {
        keys_increasing(self.entries@)
    }

    /// The entries, in increasing order of their names.
    pub closed spec fn entries_spec(&self) -> Seq<(String, V)> {
        self.entries@
    }

    /// An empty map.
    pub fn new() -> (r: Self)
        ensures
            r@ == Map::<Seq<char>, V>::empty(),
            r.entries_spec() == Seq::<(String, V)>::empty(),
    {
        let r = NameMap { entries: Vec::new() };
        assert(r@ =~= Map::<Seq<char>, V>::empty());
        r
    }

    /// Builds a map from entries whose names increase strictly.
    pub fn from_entries(entries: Vec<(String, V)>) -> (r: Self)
        requires
            keys_increasing(entries@),
        ensures
            r.entries_spec() == entries@,
    {
        NameMap { entries }
    }

    /// The entries in increasing order of their names.
    pub fn entries(&self) -> (r: &Vec<(String, V)>)
        ensures
            r@ == self.entries_spec(),
            keys_increasing(r@),
            map_of(r@) == self@,
    {
        proof {
            use_type_invariant(self);
        }
        &self.entries
    }

    /// Gives up the map for its entries, in increasing order of their names.
    pub fn into_entries(self) -> (r: Vec<(String, V)>)
        ensures
            r@ == self.entries_spec(),
            keys_increasing(r@),
    {
        proof {
            use_type_invariant(&self);
        }
        self.entries
    }

    /// The number of entries.
    pub fn len(&self) -> (r: usize)
        ensures
            r == self.entries_spec().len(),
    {
        self.entries.len()
    }

    /// The position where `key` is or would go.
    fn find(&self, key: &str) -> (r: (usize, bool))
        ensures
            r.0 <= self.entries_spec().len(),
            forall|j: int| 0 <= j < r.0 ==> seq_lt(#[trigger] self.entries_spec()[j].0@, key@),
            r.1 ==> r.0 < self.entries_spec().len() && self.entries_spec()[r.0 as int].0@
                == key@,
            !r.1 ==> forall|j: int|
                r.0 <= j < self.entries_spec().len() ==> seq_lt(
                    key@,
                    #[trigger] self.entries_spec()[j].0@,
                ),
    {
        proof {
            use_type_invariant(self);
        }
        let n = self.entries.len();
        let mut i: usize = 0;
        while i < n
            invariant
                n == self.entries@.len(),
                i <= n,
                keys_increasing(self.entries@),
                forall|j: int| 0 <= j < i ==> seq_lt(#[trigger] self.entries@[j].0@, key@),
            decreases n - i,
        {
            let name = self.entries[i].0.as_str();
            if !str_lt(name, key) {
                if str_eq(name, key) {
                    return (i, true);
                }
                proof {
                    lemma_seq_lt_total(name@, key@);
                    assert forall|j: int| i <= j < n implies seq_lt(
                        key@,
                        #[trigger] self.entries@[j].0@,
                    ) by {
                        if j > i {
                            assert(seq_lt(self.entries@[i as int].0@, self.entries@[j].0@));
                            lemma_seq_lt_transitive(
                                key@,
                                self.entries@[i as int].0@,
                                self.entries@[j].0@,
                            );
                        }
                    }
                }
                return (i, false);
            }
            i += 1;
        }
        (i, false)
    }

    /// The value stored under `key`, if any.
    pub fn get(&self, key: &str) -> (r: Option<&V>)
        ensures
            match r {
                Some(v) => self@.contains_key(key@) && *v == self@[key@],
                None => !self@.contains_key(key@),
            },
    {
        proof {
            use_type_invariant(self);
        }
        let (i, found) = self.find(key);
        if found {
            proof {
                lemma_map_of_index(self.entries@, i as int);
            }
            Some(&self.entries[i].1)
        } else {
            proof {
                if has_key(self.entries@, key@) {
                    let j = choose|j: int|
                        0 <= j < self.entries@.len() && #[trigger] self.entries@[j].0@ == key@;
                    lemma_seq_lt_irreflexive(key@);
                    if j < i {
                        assert(seq_lt(self.entries@[j].0@, key@));
                    } else {
                        assert(seq_lt(key@, self.entries@[j].0@));
                    }
                }
            }
            None
        }
    }

    /// Stores `value` under `key`, replacing what was stored there.
    pub fn insert(&mut self, key: String, value: V)
        ensures
            final(self)@ == old(self)@.insert(key@, value),
    {
        proof {
            use_type_invariant(&*self);
        }
        let (i, found) = self.find(key.as_str());
        let mut entries: Vec<(String, V)> = Vec::new();
        std::mem::swap(&mut entries, &mut self.entries);
        let ghost s = entries@;
        if found {
            proof {
                lemma_update(s, i as int, key, value);
            }
            entries.set(i, (key, value));
        } else {
            proof {
                lemma_insert_new(s, i as int, key, value);
            }
            entries.insert(i, (key, value));
        }
        self.entries = entries;
    }
}

impl<V: Clone> Clone for NameMap<V> {
    /// A map with the same names; each value is a clone.
    fn clone(&self) -> (r: Self)
        ensures
            r@.dom() == self@.dom(),
            forall|k: Seq<char>| #[trigger] r@.contains_key(k) ==> cloned(self@[k], r@[k]),
    {
        proof {
            use_type_invariant(self);
        }
        let n = self.entries.len();
        let mut entries: Vec<(String, V)> = Vec::new();
        let mut i: usize = 0;
        while i < n
            invariant
                n == self.entries@.len(),
                i <= n,
                keys_increasing(self.entries@),
                entries@.len() == i,
                forall|j: int| 0 <= j < i ==> (#[trigger] entries@[j]).0 == self.entries@[j].0,
                forall|j: int| 0 <= j < i ==> cloned(self.entries@[j].1, #[trigger] entries@[j].1),
            decreases n - i,
        {
            let value = self.entries[i].1.clone();
            entries.push((self.entries[i].0.clone(), value));
            i += 1;
        }
        let ghost s = self.entries@;
        let ghost t = entries@;
        proof {
            assert forall|a: int, b: int| 0 <= a < b < t.len() implies #[trigger] seq_lt(
                t[a].0@,
                t[b].0@,
            ) by {
                assert(t[a].0 == s[a].0);
                assert(t[b].0 == s[b].0);
                assert(seq_lt(s[a].0@, s[b].0@));
            }
            assert forall|k: Seq<char>| #[trigger] map_of(t).contains_key(k) <==> map_of(
                s,
            ).contains_key(k) by {
                if has_key(t, k) {
                    let j = choose|j: int| 0 <= j < t.len() && #[trigger] t[j].0@ == k;
                    assert(t[j].0 == s[j].0);
                    assert(s[j].0@ == k);
                }
                if has_key(s, k) {
                    let j = choose|j: int| 0 <= j < s.len() && #[trigger] s[j].0@ == k;
                    assert(t[j].0 == s[j].0);
                    assert(t[j].0@ == k);
                }
            }
            assert(map_of(t).dom() =~= map_of(s).dom());
            assert forall|k: Seq<char>| #[trigger] map_of(t).contains_key(k) implies cloned(
                map_of(s)[k],
                map_of(t)[k],
            ) by {
                let j = choose|j: int| 0 <= j < t.len() && #[trigger] t[j].0@ == k;
                assert(t[j].0 == s[j].0);
                lemma_map_of_index(s, j);
                lemma_map_of_index(t, j);
            }
        }
        NameMap { entries }
    }
}

} // verus!
