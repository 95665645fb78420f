//! A map from strings to values kept in ascending key order, as a
//! `BTreeMap<String, V>` keeps it.
use vstd::prelude::*;
use crate::order::{seq_lt, str_lt, lemma_lt_irreflexive, lemma_lt_total, lemma_lt_transitive, lemma_lt_asymmetric};

verus! {

/// Keys strictly ascend, so no key occurs twice.
pub open spec fn sorted_keys<V>(s: Seq<(Seq<char>, V)>) -> bool {
    forall|i: int, j: int| 0 <= i < j < s.len() ==> seq_lt(#[trigger] s[i].0, #[trigger] s[j].0)
}

/// Some entry has key `k`.
pub open spec fn has_key<V>(s: Seq<(Seq<char>, V)>, k: Seq<char>) -> bool {
    exists|i: int| 0 <= i < s.len() && #[trigger] s[i].0 == k
}

/// The position of key `k` (meaningful when `has_key(s, k)`).
pub open spec fn key_index<V>(s: Seq<(Seq<char>, V)>, k: Seq<char>) -> int {
    choose|i: int| 0 <= i < s.len() && #[trigger] s[i].0 == k
}

/// The value under key `k` (meaningful when `has_key(s, k)`).
pub open spec fn value_of<V>(s: Seq<(Seq<char>, V)>, k: Seq<char>) -> V {
    s[key_index(s, k)].1
}

/// In a map with ascending keys, a key sits at exactly one position.
pub proof fn lemma_key_unique<V>(s: Seq<(Seq<char>, V)>, i: int)
    requires
        sorted_keys(s),
        0 <= i < s.len(),
    ensures
        has_key(s, s[i].0),
        key_index(s, s[i].0) == i,
{
    let k = s[i].0;
    assert(has_key(s, k));
    let j = key_index(s, k);
    lemma_lt_irreflexive(k);
    if j < i {
        assert(seq_lt(s[j].0, s[i].0));
    } else if i < j {
        assert(seq_lt(s[i].0, s[j].0));
    }
}

/// `new` is `old` after `insert(k, v)`: the entry with key `k` gets `v`, or a
/// new entry `(k, v)` takes its place in key order.
pub open spec fn inserted<V>(old: Seq<(Seq<char>, V)>, k: Seq<char>, v: V, new: Seq<(Seq<char>, V)>) -> bool {
    if has_key(old, k) {
        exists|i: int| 0 <= i < old.len() && old[i].0 == k && new == old.update(i, (k, v))
    } else {
        exists|p: int| 0 <= p <= old.len() && new == old.insert(p, (k, v))
    }
}

/// A map from strings to values, in ascending key order.
pub struct StrMap<V> {
    entries: Vec<(String, V)>,
}

impl<V> View for StrMap<V> {
    type V = Seq<(Seq<char>, V)>;

    closed spec fn view(&self) -> Seq<(Seq<char>, V)> {
        self.entries@.map_values(|e: (String, V)| (e.0@, e.1))
    }
}

impl<V> StrMap<V> {
    /// Keys strictly ascend.
    #[verifier::type_invariant]
    pub open spec fn wf(self) -> bool {
        sorted_keys(self@)
    }

    /// An empty map.
    pub fn new() -> (m: Self)
        ensures
            m@ == Seq::<(Seq<char>, V)>::empty(),
    {
        let m = StrMap { entries: Vec::new() };
        assert(m@ =~= Seq::<(Seq<char>, V)>::empty());
        m
    }

    /// Number of entries.
    pub fn len(&self) -> (n: usize)
        ensures
            n == self@.len(),
    {
        self.entries.len()
    }

    /// The key of entry `i`.
    pub fn key_at(&self, i: usize) -> (k: &String)
        requires
            i < self@.len(),
        ensures
            k@ == self@[i as int].0,
    {
        &self.entries[i].0
    }

    /// The value of entry `i`.
    pub fn value_at(&self, i: usize) -> (v: &V)
        requires
            i < self@.len(),
        ensures
            *v == self@[i as int].1,
    {
        &self.entries[i].1
    }

    /// The position of key `k`.
    pub fn find(&self, k: &str) -> (r: Option<usize>)
        ensures
            r matches Some(i) ==> i < self@.len() && self@[i as int].0 == k@,
            r is None ==> !has_key(self@, k@),
    {
        let kv = crate::text::chars_of(k);
        let mut i: usize = 0;
        while i < self.entries.len()
            invariant
                kv@ == k@,
                i <= self@.len(),
                self@.len() == self.entries@.len(),
                forall|j: int| 0 <= j < i ==> self@[j].0 != k@,
            decreases self@.len() - i,
        {
            let cv = crate::text::chars_of(self.entries[i].0.as_str());
            if crate::text::seq_eq(&cv, &kv) {
                return Some(i);
            }
            i = i + 1;
        }
        None
    }

    /// Whether key `k` is present.
    pub fn contains_key(&self, k: &str) -> (r: bool)
        ensures
            r == has_key(self@, k@),
    {
        self.find(k).is_some()
    }

    /// The value under key `k`.
    pub fn get(&self, k: &str) -> (r: Option<&V>)
        ensures
            r matches Some(v) ==> has_key(self@, k@) && *v == value_of(self@, k@),
            r is None ==> !has_key(self@, k@),
    {
        proof {
            use_type_invariant(self);
        }
        match self.find(k) {
            Some(i) => {
                proof {
                    lemma_key_unique(self@, i as int);
                }
                Some(&self.entries[i].1)
            },
            None => None,
        }
    }

    /// The smallest key.
    pub fn first_key(&self) -> (r: Option<&String>)
        ensures
            self@.len() == 0 ==> r is None,
            self@.len() > 0 ==> (r matches Some(k) && k@ == self@[0].0),
    {
        if self.entries.len() == 0 {
            None
        } else {
            Some(&self.entries[0].0)
        }
    }

    /// Sets the value under key `k`, keeping keys in order.
    pub fn insert(&mut self, k: String, v: V)
        ensures
            inserted(old(self)@, k@, v, final(self)@),
    {
        proof {
            use_type_invariant(&*self);
        }
        let ghost old_view = self@;
        let mut entries: Vec<(String, V)> = Vec::new();
        std::mem::swap(&mut entries, &mut self.entries);
        assert(entries@.map_values(|e: (String, V)| (e.0@, e.1)) == old_view);
        let kv = crate::text::chars_of(k.as_str());
        let mut i: usize = 0;
        let mut stop = false;
        while !stop && i < entries.len()
            invariant
                kv@ == k@,
                i <= entries@.len(),
                old_view == entries@.map_values(|e: (String, V)| (e.0@, e.1)),
                sorted_keys(old_view),
                forall|j: int| 0 <= j < i ==> seq_lt(#[trigger] old_view[j].0, k@),
                stop ==> i < entries@.len() && !seq_lt(old_view[i as int].0, k@),
            decreases entries@.len() - i + (if stop { 0int } else { 1int }),
        {
            let cv = crate::text::chars_of(entries[i].0.as_str());
            if !crate::order::chars_lt(&cv, &kv) {
                stop = true;
            } else {
                i = i + 1;
            }
        }
        let n = entries.len();
        if i < n {
            let cv = crate::text::chars_of(entries[i].0.as_str());
            if crate::text::seq_eq(&cv, &kv) {
                assert(old_view[i as int].0 == k@);
                let _ = entries.remove(i);
                entries.insert(i, (k, v));
                proof {
                    let nv = entries@.map_values(|e: (String, V)| (e.0@, e.1));
                    assert(nv =~= old_view.update(i as int, (k@, v)));
                    assert(has_key(old_view, k@));
                    assert forall|a: int, b: int| 0 <= a < b < nv.len() implies seq_lt(
                        #[trigger] nv[a].0,
                        #[trigger] nv[b].0,
                    ) by {
                        assert(nv[a].0 == old_view[a].0);
                        assert(nv[b].0 == old_view[b].0);
                    }
                }
                self.entries = entries;
                return;
            }
        }
        entries.insert(i, (k, v));
        proof {
            let nv = entries@.map_values(|e: (String, V)| (e.0@, e.1));
            assert(nv =~= old_view.insert(i as int, (k@, v)));
            if i < n {
                assert(old_view[i as int].0 != k@);
                assert(!seq_lt(old_view[i as int].0, k@));
                lemma_lt_total(old_view[i as int].0, k@);
            }
            assert forall|j: int| 0 <= j < old_view.len() implies old_view[j].0 != k@ by {
                if j < i {
                    lemma_lt_irreflexive(k@);
                } else {
                    if i < n {
                        if j > i {
                            lemma_lt_transitive(k@, old_view[i as int].0, old_view[j].0);
                        }
                        lemma_lt_irreflexive(k@);
                    }
                }
            }
            assert forall|j: int| i <= j < n implies seq_lt(k@, #[trigger] old_view[j].0) by {
                lemma_lt_total(old_view[i as int].0, k@);
                if j > i {
                    lemma_lt_transitive(k@, old_view[i as int].0, old_view[j].0);
                }
            }
            assert forall|a: int, b: int| 0 <= a < b < nv.len() implies seq_lt(
                #[trigger] nv[a].0,
                #[trigger] nv[b].0,
            ) by {
                if b < i {
                    assert(nv[a] == old_view[a]);
                    assert(nv[b] == old_view[b]);
                } else if b == i {
                    assert(nv[a] == old_view[a]);
                } else if a < i {
                    assert(nv[a] == old_view[a]);
                    assert(nv[b] == old_view[b - 1]);
                    lemma_lt_transitive(nv[a].0, k@, nv[b].0);
                } else if a == i {
                    assert(nv[b] == old_view[b - 1]);
                } else {
                    assert(nv[a] == old_view[a - 1]);
                    assert(nv[b] == old_view[b - 1]);
                }
            }
        }
        self.entries = entries;
    }

    /// Removes key `k`, giving back its value.
    pub fn remove(&mut self, k: &str) -> (r: Option<V>)
        ensures
            r matches Some(v) ==> has_key(old(self)@, k@) && v == value_of(old(self)@, k@)
                && final(self)@ == old(self)@.remove(key_index(old(self)@, k@)),
            r is None ==> !has_key(old(self)@, k@) && final(self)@ == old(self)@,
    {
        proof {
            use_type_invariant(&*self);
        }
        match self.find(k) {
            None => None,
            Some(i) => {
                let ghost old_view = self@;
                proof {
                    lemma_key_unique(old_view, i as int);
                }
                let mut entries: Vec<(String, V)> = Vec::new();
                std::mem::swap(&mut entries, &mut self.entries);
                let (_, v) = entries.remove(i);
                proof {
                    let nv = entries@.map_values(|e: (String, V)| (e.0@, e.1));
                    assert(nv =~= old_view.remove(i as int));
                    assert forall|a: int, b: int| 0 <= a < b < nv.len() implies seq_lt(
                        #[trigger] nv[a].0,
                        #[trigger] nv[b].0,
                    ) by {
                        if a < i && b >= i {
                            assert(nv[b] == old_view[b + 1]);
                        } else if a >= i {
                            assert(nv[a] == old_view[a + 1]);
                            assert(nv[b] == old_view[b + 1]);
                        }
                    }
                }
                self.entries = entries;
                Some(v)
            }
        }
    }
}

/// After `insert(k, v)` the key `k` holds `v`, and every other key keeps its value.
pub proof fn lemma_insert_get<V>(old: Seq<(Seq<char>, V)>, k: Seq<char>, v: V, new: Seq<(Seq<char>, V)>, other: Seq<char>)
    requires
        sorted_keys(old),
        sorted_keys(new),
        inserted(old, k, v, new),
    ensures
        has_key(new, k),
        forall|i: int| 0 <= i < new.len() && new[i].0 == k ==> new[i].1 == v,
        other != k ==> (has_key(new, other) == has_key(old, other)),
        other != k ==> forall|i: int, j: int|
            0 <= i < new.len() && 0 <= j < old.len() && new[i].0 == other && old[j].0 == other
                ==> new[i].1 == old[j].1,
{
    if has_key(old, k) {
        let i = choose|i: int| 0 <= i < old.len() && old[i].0 == k && new == old.update(i, (k, v));
        assert(new[i].0 == k);
        assert forall|a: int| 0 <= a < new.len() && new[a].0 == k implies new[a].1 == v by {
            if a != i {
                assert(new[a] == old[a]);
                if a < i { lemma_lt_irreflexive(k); } else { lemma_lt_irreflexive(k); }
            }
        }
        if other != k {
            if has_key(old, other) {
                let j = choose|j: int| 0 <= j < old.len() && #[trigger] old[j].0 == other;
                assert(new[j].0 == other);
            }
            if has_key(new, other) {
                let j = choose|j: int| 0 <= j < new.len() && #[trigger] new[j].0 == other;
                assert(old[j].0 == other);
            }
            assert forall|a: int, b: int|
                0 <= a < new.len() && 0 <= b < old.len() && new[a].0 == other && old[b].0 == other
                    implies new[a].1 == old[b].1 by {
                lemma_lt_irreflexive(other);
                assert(new[a] == old[a]);
                if a < b { } else if b < a { }
            }
        }
    } else {
        let p = choose|p: int| 0 <= p <= old.len() && new == old.insert(p, (k, v));
        assert(new[p].0 == k);
        assert forall|a: int| 0 <= a < new.len() && new[a].0 == k implies new[a].1 == v by {
            if a < p {
                assert(new[a] == old[a]);
            } else if a > p {
                assert(new[a] == old[a - 1]);
            }
        }
        if other != k {
            if has_key(old, other) {
                let j = choose|j: int| 0 <= j < old.len() && #[trigger] old[j].0 == other;
                if j < p { assert(new[j].0 == other); } else { assert(new[j + 1].0 == other); }
            }
            if has_key(new, other) {
                let j = choose|j: int| 0 <= j < new.len() && #[trigger] new[j].0 == other;
                if j < p { assert(old[j].0 == other); } else { assert(old[j - 1].0 == other); }
            }
            assert forall|a: int, b: int|
                0 <= a < new.len() && 0 <= b < old.len() && new[a].0 == other && old[b].0 == other
                    implies new[a].1 == old[b].1 by {
                lemma_lt_irreflexive(other);
                let a0 = if a < p { a } else { a - 1 };
                assert(new[a] == old[a0]);
                if a0 < b { } else if b < a0 { }
            }
        }
    }
}


/// The map a sorted entry list stands for.
pub open spec fn key_map<V>(s: Seq<(Seq<char>, V)>) -> Map<Seq<char>, V> {
    Map::new(|k: Seq<char>| has_key(s, k), |k: Seq<char>| value_of(s, k))
}

/// `insert` acts on the map an entry list stands for as `Map::insert` does.
pub proof fn lemma_insert_map<V>(old: Seq<(Seq<char>, V)>, k: Seq<char>, v: V, new: Seq<(Seq<char>, V)>)
    requires
        sorted_keys(old),
        sorted_keys(new),
        inserted(old, k, v, new),
    ensures
        key_map(new) == key_map(old).insert(k, v),
{
    assert forall|x: Seq<char>| #[trigger] key_map(new).contains_key(x) == key_map(old).insert(k, v).contains_key(x) by {
        lemma_insert_get(old, k, v, new, x);
    }
    assert forall|x: Seq<char>| key_map(new).contains_key(x) implies #[trigger] key_map(new)[x] == key_map(old).insert(k, v)[x] by {
        lemma_insert_get(old, k, v, new, x);
        let i = key_index(new, x);
        if x == k {
        } else {
            let j = key_index(old, x);
            assert(new[i].0 == x && old[j].0 == x);
        }
    }
    assert(key_map(new) =~= key_map(old).insert(k, v));
}

} // verus!
