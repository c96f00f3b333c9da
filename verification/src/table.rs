//! The shared key-value table: a mapping from string keys to string values
//! with atomic lookup, insert/overwrite, conditional update and removal.
//!
//! The table is modelled as a `Map<Seq<char>, Seq<char>>`; every operation's
//! contract says exactly how it reads or transforms that map.

use vstd::prelude::*;

verus! {

/// The mathematical contents of a sequence of entries: later entries win.
pub open spec fn map_of(entries: Seq<(String, String)>) -> Map<Seq<char>, Seq<char>>
    decreases entries.len(),
{
    if entries.len() == 0 {
        Map::empty()
    } else {
        map_of(entries.drop_last()).insert(entries.last().0@, entries.last().1@)
    }
}

/// The map after applying `Set` for every pair in `pairs`, first to last.
pub open spec fn insert_all(
    m: Map<Seq<char>, Seq<char>>,
    pairs: Seq<(Seq<char>, Seq<char>)>,
) -> Map<Seq<char>, Seq<char>>
    decreases pairs.len(),
{
    if pairs.len() == 0 {
        m
    } else {
        insert_all(m, pairs.drop_last()).insert(pairs.last().0, pairs.last().1)
    }
}

/// No two entries share a key.
pub open spec fn keys_unique(entries: Seq<(String, String)>) -> bool {
    forall|i: int, j: int|
        0 <= i < entries.len() && 0 <= j < entries.len() && i != j ==> entries[i].0@
            != entries[j].0@
}

/// A key stands in `map_of(s)` exactly when some entry of `s` carries it.
proof fn lemma_map_of_contains(s: Seq<(String, String)>, k: Seq<char>)
    ensures
        map_of(s).contains_key(k) <==> (exists|i: int| 0 <= i < s.len() && s[i].0@ == k),
    decreases s.len(),
{
    if s.len() > 0 {
        lemma_map_of_contains(s.drop_last(), k);
        if map_of(s).contains_key(k) {
            if k == s.last().0@ {
                assert(s[s.len() - 1].0@ == k);
            } else {
                let i = choose|i: int| 0 <= i < s.drop_last().len() && s.drop_last()[i].0@ == k;
                assert(s[i].0@ == k);
            }
        }
        if exists|i: int| 0 <= i < s.len() && s[i].0@ == k {
            let i = choose|i: int| 0 <= i < s.len() && s[i].0@ == k;
            if i < s.len() - 1 {
                assert(s.drop_last()[i].0@ == k);
            }
        }
    }
}

/// With unique keys, `map_of(s)` carries each entry's value at its key.
proof fn lemma_map_of_index(s: Seq<(String, String)>, i: int)
    requires
        keys_unique(s),
        0 <= i < s.len(),
    ensures
        map_of(s).contains_key(s[i].0@),
        map_of(s)[s[i].0@] == s[i].1@,
    decreases s.len(),
{
    if i < s.len() - 1 {
        assert(keys_unique(s.drop_last())) by {
            assert forall|a: int, b: int|
                0 <= a < s.drop_last().len() && 0 <= b < s.drop_last().len() && a
                    != b implies s.drop_last()[a].0@ != s.drop_last()[b].0@ by {
                assert(s.drop_last()[a] == s[a]);
                assert(s.drop_last()[b] == s[b]);
            }
        }
        lemma_map_of_index(s.drop_last(), i);
        assert(s.drop_last()[i] == s[i]);
        assert(s[i].0@ != s.last().0@);
    }
}

/// Appending an entry inserts its pair into the map.
proof fn lemma_map_of_push(s: Seq<(String, String)>, p: (String, String))
    ensures
        map_of(s.push(p)) == map_of(s).insert(p.0@, p.1@),
{
    assert(s.push(p).drop_last() =~= s);
    assert(s.push(p).last() == p);
}

/// Appending an entry whose key is fresh keeps the keys unique.
proof fn lemma_unique_push(s: Seq<(String, String)>, p: (String, String))
    requires
        keys_unique(s),
        forall|j: int| 0 <= j < s.len() ==> s[j].0@ != p.0@,
    ensures
        keys_unique(s.push(p)),
{
    assert forall|a: int, b: int|
        0 <= a < s.push(p).len() && 0 <= b < s.push(p).len() && a != b implies s.push(p)[a].0@
        != s.push(p)[b].0@ by {
        if a < s.len() {
            assert(s.push(p)[a] == s[a]);
        }
        if b < s.len() {
            assert(s.push(p)[b] == s[b]);
        }
    }
}

/// With unique keys, taking out the entry at `i` removes exactly its key
/// from the map, keeps the other keys unique, and leaves no entry with the
/// removed key behind.
proof fn lemma_map_of_remove_index(s: Seq<(String, String)>, i: int)
    requires
        keys_unique(s),
        0 <= i < s.len(),
    ensures
        keys_unique(s.remove(i)),
        map_of(s.remove(i)) == map_of(s).remove(s[i].0@),
        forall|j: int| 0 <= j < s.remove(i).len() ==> s.remove(i)[j].0@ != s[i].0@,
{
    let k = s[i].0@;
    let t = s.remove(i);
    s.remove_ensures(i);
    assert(keys_unique(t)) by {
        assert forall|a: int, b: int|
            0 <= a < t.len() && 0 <= b < t.len() && a != b implies t[a].0@ != t[b].0@ by {
            let a2: int = if a < i {
                a
            } else {
                a + 1
            };
            let b2: int = if b < i {
                b
            } else {
                b + 1
            };
            assert(t[a] == s[a2]);
            assert(t[b] == s[b2]);
        }
    }
    assert forall|j: int| 0 <= j < t.len() implies t[j].0@ != k by {
        let j2: int = if j < i {
            j
        } else {
            j + 1
        };
        assert(t[j] == s[j2]);
    }
    assert forall|c: Seq<char>| #[trigger] map_of(t).contains_key(c) implies c != k
        && map_of(s).contains_key(c) && map_of(t)[c] == map_of(s)[c] by {
        lemma_map_of_contains(t, c);
        let j = choose|j: int| 0 <= j < t.len() && t[j].0@ == c;
        let j2: int = if j < i {
            j
        } else {
            j + 1
        };
        assert(t[j] == s[j2]);
        lemma_map_of_index(t, j);
        lemma_map_of_index(s, j2);
    }
    assert forall|c: Seq<char>|
        #[trigger] map_of(s).contains_key(c) && c != k implies map_of(t).contains_key(c) by {
        lemma_map_of_contains(s, c);
        let j2 = choose|j2: int| 0 <= j2 < s.len() && s[j2].0@ == c;
        let j: int = if j2 < i {
            j2
        } else {
            j2 - 1
        };
        assert(t[j] == s[j2]);
        lemma_map_of_contains(t, c);
    }
    assert(map_of(t) =~= map_of(s).remove(k));
}

/// The key-value table. Keys are unique; insertion order is irrelevant.
pub struct KvTable {
    entries: Vec<(String, String)>,
}

impl View for KvTable {
    type V = Map<Seq<char>, Seq<char>>;

    closed spec fn view(&self) -> Map<Seq<char>, Seq<char>> {
        map_of(self.entries@)
    }
}

impl KvTable {
    #[verifier::type_invariant]
    spec fn well_formed(self) -> bool {
        keys_unique(self.entries@)
    }

    /// Creates an empty table.
    pub fn new() -> (t: Self)
        ensures
            t@ == Map::<Seq<char>, Seq<char>>::empty(),
    {
        KvTable { entries: Vec::new() }
    }

    /// Index of the entry that carries `key`, if any.
    fn find(entries: &Vec<(String, String)>, key: &String) -> (r: Option<usize>)
        ensures
            match r {
                Some(i) => i < entries@.len() && entries@[i as int].0@ == key@,
                None => forall|j: int| 0 <= j < entries@.len() ==> entries@[j].0@ != key@,
            },
    {
        let mut i: usize = 0;
        while i < entries.len()
            invariant
                i <= entries@.len(),
                forall|j: int| 0 <= j < i ==> entries@[j].0@ != key@,
            decreases entries@.len() - i,
        {
            if entries[i].0 == *key {
                return Some(i);
            }
            i += 1;
        }
        None
    }

    /// Returns the current value at `key` if present, else signals absence.
    /// No side effects.
    pub fn get(&self, key: &String) -> (r: Option<&String>)
        ensures
            match r {
                Some(v) => self@.contains_key(key@) && v@ == self@[key@],
                None => !self@.contains_key(key@),
            },
    {
        proof {
            use_type_invariant(self);
        }
        match Self::find(&self.entries, key) {
            Some(i) => {
                proof {
                    lemma_map_of_index(self.entries@, i as int);
                }
                Some(&self.entries[i].1)
            },
            None => {
                proof {
                    lemma_map_of_contains(self.entries@, key@);
                }
                None
            },
        }
    }

    /// Inserts `key` if absent, or overwrites the existing value.
    /// Always succeeds.
    pub fn set(&mut self, key: String, value: String)
        ensures
            final(self)@ == old(self)@.insert(key@, value@),
    {
        proof {
            use_type_invariant(&*self);
        }
        let mut entries: Vec<(String, String)> = Vec::new();
        core::mem::swap(&mut entries, &mut self.entries);
        let ghost s0 = entries@;
        match Self::find(&entries, &key) {
            Some(i) => {
                proof {
                    lemma_map_of_remove_index(s0, i as int);
                }
                entries.remove(i);
            },
            None => {},
        }
        let ghost s1 = entries@;
        let ghost p = (key, value);
        entries.push((key, value));
        proof {
            lemma_map_of_push(s1, p);
            lemma_unique_push(s1, p);
            assert(map_of(s0).remove(p.0@).insert(p.0@, p.1@) =~= map_of(s0).insert(p.0@, p.1@));
        }
        self.entries = entries;
    }

    /// Overwrites the value only if `key` already exists; returns whether it
    /// existed. Does not create new keys.
    pub fn update_if_exists(&mut self, key: &String, value: String) -> (r: bool)
        ensures
            r == old(self)@.contains_key(key@),
            r ==> final(self)@ == old(self)@.insert(key@, value@),
            !r ==> final(self)@ == old(self)@,
    {
        proof {
            use_type_invariant(&*self);
        }
        let mut entries: Vec<(String, String)> = Vec::new();
        core::mem::swap(&mut entries, &mut self.entries);
        let ghost s0 = entries@;
        let r = match Self::find(&entries, key) {
            Some(i) => {
                proof {
                    lemma_map_of_index(s0, i as int);
                    lemma_map_of_remove_index(s0, i as int);
                }
                entries.remove(i);
                let ghost s1 = entries@;
                let key2 = key.clone();
                let ghost p = (key2, value);
                entries.push((key2, value));
                proof {
                    lemma_map_of_push(s1, p);
                    lemma_unique_push(s1, p);
                    assert(map_of(s0).remove(key@).insert(key@, p.1@) =~= map_of(s0).insert(
                        key@,
                        p.1@,
                    ));
                }
                true
            },
            None => {
                proof {
                    lemma_map_of_contains(s0, key@);
                }
                false
            },
        };
        self.entries = entries;
        r
    }

    /// Deletes `key` if present; returns whether it was present.
    pub fn remove(&mut self, key: &String) -> (r: bool)
        ensures
            r == old(self)@.contains_key(key@),
            final(self)@ == old(self)@.remove(key@),
    {
        proof {
            use_type_invariant(&*self);
        }
        let mut entries: Vec<(String, String)> = Vec::new();
        core::mem::swap(&mut entries, &mut self.entries);
        let ghost s0 = entries@;
        let r = match Self::find(&entries, key) {
            Some(i) => {
                proof {
                    lemma_map_of_index(s0, i as int);
                    lemma_map_of_remove_index(s0, i as int);
                }
                entries.remove(i);
                true
            },
            None => {
                proof {
                    lemma_map_of_contains(s0, key@);
                    assert(map_of(s0).remove(key@) =~= map_of(s0));
                }
                false
            },
        };
        self.entries = entries;
        r
    }

    /// Applies `Set` for every pair in `pairs`, first to last, as one
    /// critical section over the table.
    pub fn set_many(&mut self, pairs: &Vec<(String, String)>)
        ensures
            final(self)@ == insert_all(old(self)@, pairs.deep_view()),
    {
        let ghost m0 = self@;
        let ghost pv = pairs.deep_view();
        let mut i: usize = 0;
        while i < pairs.len()
            invariant
                i <= pairs@.len(),
                pv == pairs.deep_view(),
                self@ == insert_all(m0, pv.take(i as int)),
            decreases pairs@.len() - i,
        {
            self.set(pairs[i].0.clone(), pairs[i].1.clone());
            proof {
                assert(pv.take(i as int + 1).drop_last() =~= pv.take(i as int));
                assert(pv.take(i as int + 1).last() == pv[i as int]);
            }
            i += 1;
        }
        proof {
            assert(pv.take(pairs@.len() as int) =~= pv);
        }
    }
}

} // verus!
