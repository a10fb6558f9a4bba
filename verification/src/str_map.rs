//! A map keyed by strings that keeps its entries in the order of the keys,
//! as `BTreeMap<String, V>` does.
use vstd::prelude::*;
use crate::text::{key_lt, lemma_key_lt_irreflexive, lemma_key_lt_total, lemma_key_lt_transitive, str_lt};

verus! {

/// The keys of `s` strictly increase.
pub open spec fn sorted_keys<V>(s: Seq<(String, V)>) -> bool {
    forall|i: int, j: int| 0 <= i < j < s.len() ==> key_lt(#[trigger] s[i].0@, #[trigger] s[j].0@)
}

/// Some entry of `s` has the key `k`.
pub open spec fn has_key<V>(s: Seq<(String, V)>, k: Seq<char>) -> bool {
    exists|i: int| 0 <= i < s.len() && #[trigger] s[i].0@ == k
}

/// The position of the entry with key `k`, where there is one.
pub open spec fn key_index<V>(s: Seq<(String, V)>, k: Seq<char>) -> int {
    choose|i: int| 0 <= i < s.len() && #[trigger] s[i].0@ == k
}

/// The map that the entries `s` stand for.
pub open spec fn entries_map<V>(s: Seq<(String, V)>) -> Map<Seq<char>, V> {
    Map::new(|k: Seq<char>| has_key(s, k), |k: Seq<char>| s[key_index(s, k)].1)
}

/// In a sorted entry list, each key occurs once, at one position.
pub proof fn lemma_sorted_index<V>(s: Seq<(String, V)>, i: int)
    requires
        sorted_keys(s),
        0 <= i < s.len(),
    ensures
        has_key(s, s[i].0@),
        key_index(s, s[i].0@) == i,
        entries_map(s).contains_key(s[i].0@),
        entries_map(s)[s[i].0@] == s[i].1,
{
    let k = s[i].0@;
    assert(has_key(s, k));
    let j = key_index(s, k);
    if j < i {
        assert(key_lt(s[j].0@, s[i].0@));
        lemma_key_lt_irreflexive(k);
    } else if j > i {
        assert(key_lt(s[i].0@, s[j].0@));
        lemma_key_lt_irreflexive(k);
    }
}

/// A string-keyed map whose entries are kept sorted by key.
#[derive(Debug, PartialEq, Eq)]
pub struct StrMap<V> {
    pub(crate) entries: Vec<(String, V)>,
}

impl<V> StrMap<V> {
    #[verifier::type_invariant]
    spec fn inv(self) -> bool {
        sorted_keys(self.entries@)
    }

    /// The entries, in increasing order of their keys.
    pub closed spec fn seq(&self) -> Seq<(String, V)> {
        self.entries@
    }

    pub closed spec fn view(&self) -> Map<Seq<char>, V> {
        entries_map(self.entries@)
    }

    pub(crate) proof fn lemma_fields(&self)
        ensures
            self.seq() == self.entries@,
            self@ == entries_map(self.entries@),
    {
    }

    pub fn new() -> (m: Self)
        ensures
            m@ == Map::<Seq<char>, V>::empty(),
            m.seq().len() == 0,
    {
        let m = StrMap { entries: Vec::new() };
        assert(m@ =~= Map::<Seq<char>, V>::empty());
        m
    }

    /// The map of entries that are already sorted by key.
    pub fn from_sorted(entries: Vec<(String, V)>) -> (m: Self)
        requires
            sorted_keys(entries@),
        ensures
            m.seq() == entries@,
            m@ == entries_map(entries@),
    {
        StrMap { entries }
    }

    /// The entries, in increasing order of their keys.
    pub fn entries(&self) -> (r: &Vec<(String, V)>)
        ensures
            r@ == self.seq(),
            sorted_keys(r@),
            entries_map(r@) == self@,
    {
        proof {
            use_type_invariant(self);
        }
        &self.entries
    }

    /// The entries, in increasing order of their keys.
    pub fn into_entries(self) -> (r: Vec<(String, V)>)
        ensures
            r@ == self.seq(),
            sorted_keys(r@),
            entries_map(r@) == self@,
    {
        proof {
            use_type_invariant(&self);
        }
        self.entries
    }

    pub fn len(&self) -> (n: usize)
        ensures
            n == self.seq().len(),
            n == self@.len(),
    {
        proof {
            use_type_invariant(self);
            lemma_entries_map_len(self.entries@);
        }
        self.entries.len()
    }

    /// The number of entries whose key comes before `key`, and whether the
    /// next entry has the key `key`.
    fn find(&self, key: &str) -> (r: (usize, bool))
        ensures
            r.0 <= self.seq().len(),
            forall|j: int| 0 <= j < r.0 ==> key_lt(#[trigger] self.seq()[j].0@, key@),
            forall|j: int| r.0 <= j < self.seq().len() ==> !key_lt(#[trigger] self.seq()[j].0@, key@),
            r.1 <==> (r.0 < self.seq().len() && self.seq()[r.0 as int].0@ == key@),
            !r.1 ==> forall|j: int| r.0 <= j < self.seq().len() ==> key_lt(key@, #[trigger] self.seq()[j].0@),
    {
        proof {
            use_type_invariant(self);
        }
        let n = self.entries.len();
        let mut i: usize = 0;
        while i < n && str_lt(self.entries[i].0.as_str(), key)
            invariant
                n == self.entries@.len(),
                sorted_keys(self.entries@),
                i <= n,
                forall|j: int| 0 <= j < i ==> key_lt(#[trigger] self.entries@[j].0@, key@),
            decreases n - i,
        {
            i = i + 1;
        }
        proof {
            if i < n {
                assert forall|j: int| i <= j < n implies !key_lt(#[trigger] self.entries@[j].0@, key@) by {
                    if j > i && key_lt(self.entries@[j].0@, key@) {
                        lemma_key_lt_transitive(self.entries@[i as int].0@, self.entries@[j].0@, key@);
                    }
                }
            }
        }
        if i < n && !str_lt(key, self.entries[i].0.as_str()) {
            proof {
                if self.entries@[i as int].0@ != key@ {
                    lemma_key_lt_total(self.entries@[i as int].0@, key@);
                }
            }
            (i, true)
        } else {
            proof {
                if i < n {
                    if self.entries@[i as int].0@ == key@ {
                        lemma_key_lt_irreflexive(key@);
                    }
                    assert forall|j: int| i <= j < n implies key_lt(key@, #[trigger] self.entries@[j].0@) by {
                        if j > i {
                            lemma_key_lt_transitive(key@, self.entries@[i as int].0@, self.entries@[j].0@);
                        }
                    }
                }
            }
            (i, false)
        }
    }

    /// The value for `key`, if the map has one.
    pub fn get(&self, key: &str) -> (r: Option<&V>)
        ensures
            match r {
                Some(v) => self@.contains_key(key@) && self@[key@] == *v,
                None => !self@.contains_key(key@),
            },
    {
        proof {
            use_type_invariant(self);
        }
        let (i, found) = self.find(key);
        if found {
            proof {
                lemma_sorted_index(self.entries@, i as int);
            }
            Some(&self.entries[i].1)
        } else {
            proof {
                if has_key(self.entries@, key@) {
                    lemma_key_lt_irreflexive(key@);
                }
            }
            None
        }
    }

    /// Sets the value for `key`, in place of any earlier one.
    pub fn insert(&mut self, key: String, value: V)
        ensures
            final(self)@ == old(self)@.insert(key@, value),
    {
        proof {
            use_type_invariant(&*self);
        }
        let (i, found) = self.find(key.as_str());
        let ghost k = key@;
        let ghost s = self.entries@;
        let mut entries: Vec<(String, V)> = Vec::new();
        std::mem::swap(&mut entries, &mut self.entries);
        if found {
            entries.set(i, (key, value));
            proof {
                let t = entries@;
                assert(t =~= s.update(i as int, t[i as int]));
                assert(sorted_keys(t)) by {
                    assert forall|a: int, b: int| 0 <= a < b < t.len() implies key_lt(#[trigger] t[a].0@, #[trigger] t[b].0@) by {
                        assert(key_lt(s[a].0@, s[b].0@));
                    }
                }
                lemma_insert_view_update(s, t, i as int);
            }
        } else {
            entries.insert(i, (key, value));
            proof {
                let t = entries@;
                assert(sorted_keys(t)) by {
                    assert forall|a: int, b: int| 0 <= a < b < t.len() implies key_lt(#[trigger] t[a].0@, #[trigger] t[b].0@) by {
                        if a < i && b < i {
                            assert(key_lt(s[a].0@, s[b].0@));
                        } else if a < i && b == i {
                        } else if a < i {
                            assert(key_lt(s[a].0@, s[b - 1].0@));
                        } else if a == i {
                        } else {
                            assert(key_lt(s[a - 1].0@, s[b - 1].0@));
                        }
                    }
                }
                lemma_insert_view_new(s, t, i as int);
            }
        }
        self.entries = entries;
    }

    /// Removes the entry for `key`, if there is one.
    pub fn remove(&mut self, key: &str)
        ensures
            final(self)@ == old(self)@.remove(key@),
    {
        proof {
            use_type_invariant(&*self);
        }
        let (i, found) = self.find(key);
        let ghost s = self.entries@;
        if found {
            let mut entries: Vec<(String, V)> = Vec::new();
            std::mem::swap(&mut entries, &mut self.entries);
            entries.remove(i);
            proof {
                let t = entries@;
                assert(sorted_keys(t)) by {
                    assert forall|a: int, b: int| 0 <= a < b < t.len() implies key_lt(#[trigger] t[a].0@, #[trigger] t[b].0@) by {
                        if b < i {
                            assert(key_lt(s[a].0@, s[b].0@));
                        } else if a < i {
                            assert(key_lt(s[a].0@, s[b + 1].0@));
                        } else {
                            assert(key_lt(s[a + 1].0@, s[b + 1].0@));
                        }
                    }
                }
                lemma_remove_view(s, t, i as int);
            }
            self.entries = entries;
        } else {
            proof {
                assert(entries_map(s) =~= entries_map(s).remove(key@)) by {
                    if has_key(s, key@) {
                        lemma_key_lt_irreflexive(key@);
                    }
                }
            }
        }
    }
}

/// Taking one more entry of a sorted list adds that entry to the map.
pub proof fn lemma_entries_map_take<V>(s: Seq<(String, V)>, i: int)
    requires
        sorted_keys(s),
        0 <= i < s.len(),
    ensures
        entries_map(s.take(i + 1)) == entries_map(s.take(i)).insert(s[i].0@, s[i].1),
{
    let a = s.take(i);
    let b = s.take(i + 1);
    assert(sorted_keys(a));
    assert(sorted_keys(b));
    lemma_insert_view_new(a, b, i);
}

proof fn lemma_entries_map_len<V>(s: Seq<(String, V)>)
    requires
        sorted_keys(s),
    ensures
        entries_map(s).len() == s.len(),
        entries_map(s).dom().finite(),
    decreases s.len(),
{
    if s.len() == 0 {
        assert(entries_map(s).dom() =~= Set::empty());
    } else {
        let r = s.drop_last();
        assert(sorted_keys(r));
        lemma_entries_map_len(r);
        let k = s.last().0@;
        assert(entries_map(s).dom() =~= entries_map(r).dom().insert(k)) by {
            assert forall|x: Seq<char>| entries_map(s).dom().contains(x) implies entries_map(r).dom().insert(k).contains(x) by {
                let j = key_index(s, x);
                if j < s.len() - 1 {
                    assert(r[j].0@ == x);
                }
            }
            assert forall|x: Seq<char>| entries_map(r).dom().contains(x) implies entries_map(s).dom().contains(x) by {
                let j = key_index(r, x);
                assert(s[j].0@ == x);
            }
            assert(s[s.len() - 1].0@ == k);
        }
        if entries_map(r).dom().contains(k) {
            let j = key_index(r, k);
            assert(key_lt(s[j].0@, s[s.len() - 1].0@));
            lemma_key_lt_irreflexive(k);
        }
    }
}

proof fn lemma_insert_view_update<V>(s: Seq<(String, V)>, t: Seq<(String, V)>, i: int)
    requires
        sorted_keys(s),
        sorted_keys(t),
        0 <= i < s.len(),
        t.len() == s.len(),
        t[i].0@ == s[i].0@,
        forall|j: int| 0 <= j < s.len() && j != i ==> t[j] == s[j],
    ensures
        entries_map(t) == entries_map(s).insert(t[i].0@, t[i].1),
{
    let k = t[i].0@;
    assert forall|x: Seq<char>| #![auto] entries_map(t).contains_key(x) <==> entries_map(s).insert(k, t[i].1).contains_key(x) by {
        if has_key(t, x) {
            let j = key_index(t, x);
            if j != i {
                assert(s[j].0@ == x);
            }
        }
        if has_key(s, x) {
            let j = key_index(s, x);
            if j != i {
                assert(t[j].0@ == x);
            }
        }
    }
    assert forall|x: Seq<char>| #![auto] entries_map(t).contains_key(x) implies entries_map(t)[x] == entries_map(s).insert(k, t[i].1)[x] by {
        let j = key_index(t, x);
        lemma_sorted_index(t, j);
        lemma_sorted_index(t, i);
        if j != i {
            assert(s[j].0@ == x);
            lemma_sorted_index(s, j);
        }
    }
    assert(entries_map(t) =~= entries_map(s).insert(k, t[i].1));
}

proof fn lemma_insert_view_new<V>(s: Seq<(String, V)>, t: Seq<(String, V)>, i: int)
    requires
        sorted_keys(s),
        sorted_keys(t),
        0 <= i <= s.len(),
        t.len() == s.len() + 1,
        forall|j: int| 0 <= j < i ==> t[j] == s[j],
        forall|j: int| i < j < t.len() ==> t[j] == s[j - 1],
    ensures
        entries_map(t) == entries_map(s).insert(t[i].0@, t[i].1),
{
    let k = t[i].0@;
    assert forall|x: Seq<char>| #![auto] entries_map(t).contains_key(x) <==> entries_map(s).insert(k, t[i].1).contains_key(x) by {
        if has_key(t, x) {
            let j = key_index(t, x);
            if j < i {
                assert(s[j].0@ == x);
            } else if j > i {
                assert(s[j - 1].0@ == x);
            }
        }
        if has_key(s, x) {
            let j = key_index(s, x);
            if j < i {
                assert(t[j].0@ == x);
            } else {
                assert(t[j + 1].0@ == x);
            }
        }
    }
    assert forall|x: Seq<char>| #![auto] entries_map(t).contains_key(x) implies entries_map(t)[x] == entries_map(s).insert(k, t[i].1)[x] by {
        let j = key_index(t, x);
        lemma_sorted_index(t, j);
        lemma_sorted_index(t, i);
        if j < i {
            assert(s[j].0@ == x);
            lemma_sorted_index(s, j);
        } else if j > i {
            assert(s[j - 1].0@ == x);
            lemma_sorted_index(s, j - 1);
        }
    }
    assert(entries_map(t) =~= entries_map(s).insert(k, t[i].1));
}

proof fn lemma_remove_view<V>(s: Seq<(String, V)>, t: Seq<(String, V)>, i: int)
    requires
        sorted_keys(s),
        sorted_keys(t),
        0 <= i < s.len(),
        t == s.remove(i),
    ensures
        entries_map(t) == entries_map(s).remove(s[i].0@),
{
    let k = s[i].0@;
    assert forall|x: Seq<char>| #![auto] entries_map(t).contains_key(x) <==> entries_map(s).remove(k).contains_key(x) by {
        if has_key(t, x) {
            let j = key_index(t, x);
            if j < i {
                assert(s[j].0@ == x);
                assert(key_lt(s[j].0@, s[i].0@));
                if x == k {
                    lemma_key_lt_irreflexive(k);
                }
            } else {
                assert(s[j + 1].0@ == x);
                assert(key_lt(s[i].0@, s[j + 1].0@));
                if x == k {
                    lemma_key_lt_irreflexive(k);
                }
            }
        }
        if has_key(s, x) && x != k {
            let j = key_index(s, x);
            if j < i {
                assert(t[j].0@ == x);
            } else if j > i {
                assert(t[j - 1].0@ == x);
            }
        }
    }
    assert forall|x: Seq<char>| #![auto] entries_map(t).contains_key(x) implies entries_map(t)[x] == entries_map(s).remove(k)[x] by {
        let j = key_index(t, x);
        lemma_sorted_index(t, j);
        if j < i {
            lemma_sorted_index(s, j);
        } else {
            lemma_sorted_index(s, j + 1);
        }
    }
    assert(entries_map(t) =~= entries_map(s).remove(k));
}

} // verus!
