//! Maps keyed by names, kept in ascending name order.
use vstd::prelude::*;

use crate::text::{chars_of, str_eq};

verus! {

/// Lexicographic order on character sequences (the order of `String`).
pub open spec fn seq_lt(a: Seq<char>, b: Seq<char>) -> bool
    decreases a.len(),
{
    if a.len() == 0 {
        b.len() > 0
    } else if b.len() == 0 {
        false
    } else if a[0] != b[0] {
        a[0] < b[0]
    } else {
        seq_lt(a.drop_first(), b.drop_first())
    }
}

pub proof fn lemma_seq_lt_irreflexive(a: Seq<char>)
    ensures
        !seq_lt(a, a),
    decreases a.len(),
{
    if a.len() > 0 {
        lemma_seq_lt_irreflexive(a.drop_first());
    }
}

pub proof fn lemma_seq_lt_trichotomy(a: Seq<char>, b: Seq<char>)
    ensures
        seq_lt(a, b) || seq_lt(b, a) || a == b,
        !(seq_lt(a, b) && seq_lt(b, a)),
    decreases a.len(),
{
    if a.len() > 0 && b.len() > 0 && a[0] == b[0] {
        lemma_seq_lt_trichotomy(a.drop_first(), b.drop_first());
        if a.drop_first() == b.drop_first() {
            assert forall|k: int| 0 <= k < a.len() implies a[k] == b[k] by {
                if k > 0 {
                    assert(a[k] == a.drop_first()[k - 1]);
                    assert(b[k] == b.drop_first()[k - 1]);
                }
            }
            assert(a =~= b);
        }
    } else if a.len() == 0 && b.len() == 0 {
        assert(a =~= b);
    }
}

pub proof fn lemma_seq_lt_transitive(a: Seq<char>, b: Seq<char>, c: Seq<char>)
    requires
        seq_lt(a, b),
        seq_lt(b, c),
    ensures
        seq_lt(a, c),
    decreases a.len(),
{
    if a.len() > 0 && b.len() > 0 && c.len() > 0 && a[0] == b[0] && b[0] == c[0] {
        lemma_seq_lt_transitive(a.drop_first(), b.drop_first(), c.drop_first());
    }
}

/// Whether the names of `entries` are in strictly ascending order.
pub open spec fn names_sorted<V>(entries: Seq<(String, V)>) -> bool {
    forall|i: int, j: int|
        0 <= i < j < entries.len() ==> seq_lt(#[trigger] entries[i].0@, #[trigger] entries[j].0@)
}

/// Index of the first entry named `key`, at or after `from`.
pub open spec fn name_index<V>(entries: Seq<(String, V)>, key: Seq<char>, from: int) -> Option<int>
    decreases entries.len() - from,
{
    if from < 0 || from >= entries.len() {
        None
    } else if entries[from].0@ == key {
        Some(from)
    } else {
        name_index(entries, key, from + 1)
    }
}

/// The value stored under `key`.
pub open spec fn name_get<V>(entries: Seq<(String, V)>, key: Seq<char>) -> Option<V> {
    match name_index(entries, key, 0) {
        Some(i) => Some(entries[i].1),
        None => None,
    }
}

/// Whether some entry is named `key`.
pub open spec fn has_name<V>(entries: Seq<(String, V)>, key: Seq<char>) -> bool {
    exists|i: int| 0 <= i < entries.len() && entries[i].0@ == key
}

pub proof fn lemma_name_index<V>(entries: Seq<(String, V)>, key: Seq<char>, from: int)
    requires
        0 <= from,
    ensures
        name_index(entries, key, from) matches Some(i) ==> from <= i < entries.len()
            && entries[i].0@ == key && forall|j: int| from <= j < i ==> entries[j].0@ != key,
        name_index(entries, key, from) is None ==> forall|j: int|
            from <= j < entries.len() ==> entries[j].0@ != key,
    decreases entries.len() - from,
{
    if from < entries.len() && entries[from].0@ != key {
        lemma_name_index(entries, key, from + 1);
    }
}

/// In a sorted map, a key is found exactly where an entry carries it.
pub proof fn lemma_sorted_lookup<V>(entries: Seq<(String, V)>, key: Seq<char>, i: int)
    requires
        names_sorted(entries),
        0 <= i < entries.len(),
        entries[i].0@ == key,
    ensures
        name_index(entries, key, 0) == Some(i),
        name_get(entries, key) == Some(entries[i].1),
{
    lemma_name_index(entries, key, 0);
    match name_index(entries, key, 0) {
        Some(k) => {
            if k != i {
                if k < i {
                    assert(seq_lt(entries[k].0@, entries[i].0@));
                } else {
                    assert(seq_lt(entries[i].0@, entries[k].0@));
                }
                lemma_seq_lt_irreflexive(key);
            }
        },
        None => {},
    }
}

pub proof fn lemma_has_name_index<V>(entries: Seq<(String, V)>, key: Seq<char>)
    ensures
        has_name(entries, key) <==> name_index(entries, key, 0) is Some,
{
    lemma_name_index(entries, key, 0);
}

/// Orders two names: -1, 0 or 1 as `a` is below, equal to or above `b`.
pub fn compare_names(a: &str, b: &str) -> (r: i8)
    ensures
        r == -1 <==> seq_lt(a@, b@),
        r == 0 <==> a@ == b@,
        r == 1 <==> seq_lt(b@, a@),
{
    let va = chars_of(a);
    let vb = chars_of(b);
    let mut i: usize = 0;
    proof {
        lemma_seq_lt_trichotomy(a@, b@);
    }
    assert(a@.skip(0) =~= a@);
    assert(b@.skip(0) =~= b@);
    while i < va.len() && i < vb.len() && va[i] == vb[i]
        invariant
            i <= va@.len(),
            i <= vb@.len(),
            va@ == a@,
            vb@ == b@,
            va@.take(i as int) == vb@.take(i as int),
            seq_lt(a@, b@) == seq_lt(a@.skip(i as int), b@.skip(i as int)),
            seq_lt(b@, a@) == seq_lt(b@.skip(i as int), a@.skip(i as int)),
        decreases va.len() - i,
    {
        assert(a@.skip(i as int).drop_first() =~= a@.skip(i + 1));
        assert(b@.skip(i as int).drop_first() =~= b@.skip(i + 1));
        assert(va@.take(i + 1) =~= va@.take(i as int).push(va@[i as int]));
        assert(vb@.take(i + 1) =~= vb@.take(i as int).push(vb@[i as int]));
        i = i + 1;
    }
    if i == va.len() && i == vb.len() {
        assert(a@ =~= va@.take(i as int));
        assert(b@ =~= vb@.take(i as int));
        proof {
            lemma_seq_lt_irreflexive(a@);
        }
        0
    } else if i == va.len() {
        assert(a@.skip(i as int).len() == 0);
        assert(a@ != b@) by {
            assert(a@.len() != b@.len());
        }
        -1
    } else if i == vb.len() {
        assert(b@.skip(i as int).len() == 0);
        assert(a@ != b@) by {
            assert(a@.len() != b@.len());
        }
        1
    } else {
        assert(a@.skip(i as int)[0] == va@[i as int]);
        assert(b@.skip(i as int)[0] == vb@[i as int]);
        assert(a@ != b@) by {
            assert(a@[i as int] != b@[i as int]);
        }
        if va[i] < vb[i] {
            -1
        } else {
            1
        }
    }
}

/// A map from names to values, kept in ascending name order without
/// repeated names (the behaviour of `BTreeMap<String, V>`).
pub struct NameMap<V> {
    entries: Vec<(String, V)>,
}

impl<V> NameMap<V> {
    #[verifier::type_invariant]
    spec fn sorted(self) -> bool {
        names_sorted(self.entries@)
    }

    /// The entries, in ascending name order.
    pub closed spec fn entries(self) -> Seq<(String, V)> {
        self.entries@
    }

    /// The value stored under `key`.
    pub open spec fn get_spec(self, key: Seq<char>) -> Option<V> {
        name_get(self.entries(), key)
    }

    /// Whether some entry is named `key`.
    pub open spec fn has(self, key: Seq<char>) -> bool {
        has_name(self.entries(), key)
    }

    /// An empty map.
    pub fn new() -> (m: Self)
        ensures
            m.entries() == Seq::<(String, V)>::empty(),
    {
        NameMap { entries: Vec::new() }
    }

    /// A map with the single entry `key`, `value`.
    pub fn singleton(key: String, value: V) -> (m: Self)
        ensures
            m.entries() == seq![(key, value)],
    {
        let mut entries = Vec::new();
        entries.push((key, value));
        NameMap { entries }
    }

    /// The number of entries.
    pub fn len(&self) -> (n: usize)
        ensures
            n == self.entries().len(),
    {
        self.entries.len()
    }

    /// Whether the map is empty.
    pub fn is_empty(&self) -> (b: bool)
        ensures
            b == (self.entries().len() == 0),
    {
        self.entries.len() == 0
    }

    /// The entries, in ascending name order.
    pub fn as_slice(&self) -> (s: &[(String, V)])
        ensures
            s@ == self.entries(),
            names_sorted(self.entries()),
    {
        proof {
            use_type_invariant(self);
        }
        self.entries.as_slice()
    }

    /// The value stored under `key`.
    pub fn get(&self, key: &str) -> (r: Option<&V>)
        ensures
            r.is_some() == self.get_spec(key@).is_some(),
            r matches Some(v) ==> *v == self.get_spec(key@).unwrap(),
    {
        let mut i: usize = 0;
        while i < self.entries.len()
            invariant
                i <= self.entries@.len(),
                name_index(self.entries@, key@, 0) == name_index(self.entries@, key@, i as int),
            decreases self.entries.len() - i,
        {
            if str_eq(self.entries[i].0.as_str(), key) {
                assert(name_index(self.entries@, key@, i as int) == Some(i as int));
                return Some(&self.entries[i].1);
            }
            i = i + 1;
        }
        None
    }

    /// Whether some entry is named `key`.
    pub fn contains_key(&self, key: &str) -> (b: bool)
        ensures
            b == self.has(key@),
    {
        proof {
            lemma_has_name_index(self.entries(), key@);
        }
        self.get(key).is_some()
    }

    /// Stores `value` under `key`, replacing any value stored there.
    pub fn insert(&mut self, key: String, value: V)
        ensures
            forall|k: Seq<char>|
                #![trigger final(self).get_spec(k)]
                final(self).get_spec(k) == if k == key@ {
                    Some(value)
                } else {
                    old(self).get_spec(k)
                },
            forall|k: Seq<char>| #[trigger] final(self).has(k) == (k == key@ || old(self).has(k)),
    {
        proof {
            use_type_invariant(&*self);
        }
        let ghost old_entries = self.entries@;
        let ghost kv = key@;
        let mut p: usize = 0;
        while p < self.entries.len() && compare_names(self.entries[p].0.as_str(), key.as_str())
            == -1
            invariant
                self.entries@ == old_entries,
                names_sorted(old_entries),
                p <= old_entries.len(),
                forall|j: int| 0 <= j < p ==> seq_lt(#[trigger] old_entries[j].0@, key@),
            decreases self.entries.len() - p,
        {
            p = p + 1;
        }
        let found = p < self.entries.len() && str_eq(self.entries[p].0.as_str(), key.as_str());
        let mut entries = Vec::new();
        std::mem::swap(&mut entries, &mut self.entries);
        if found {
            entries.set(p, (key, value));
        } else {
            entries.insert(p, (key, value));
        }
        let ghost new_entries = entries@;
        proof {
            if !found && p < old_entries.len() {
                lemma_seq_lt_trichotomy(old_entries[p as int].0@, kv);
            }
            assert forall|i: int, j: int| 0 <= i < j < new_entries.len() implies seq_lt(
                #[trigger] new_entries[i].0@,
                #[trigger] new_entries[j].0@,
            ) by {
                if found {
                    assert(seq_lt(old_entries[i].0@, old_entries[j].0@));
                } else {
                    if j < p {
                        assert(seq_lt(old_entries[i].0@, old_entries[j].0@));
                    } else if j == p {
                        assert(new_entries[i] == old_entries[i]);
                    } else if i == p {
                        assert(new_entries[j] == old_entries[j - 1]);
                        if j - 1 > p {
                            assert(seq_lt(old_entries[p as int].0@, old_entries[j - 1].0@));
                            lemma_seq_lt_transitive(kv, old_entries[p as int].0@, old_entries[j - 1].0@);
                        }
                    } else if i < p {
                        assert(new_entries[j] == old_entries[j - 1]);
                        if j - 1 > i {
                            assert(seq_lt(old_entries[i].0@, old_entries[j - 1].0@));
                        } else {
                            assert(seq_lt(old_entries[i].0@, kv));
                            assert(j - 1 == p - 1 || j - 1 >= p);
                            assert(seq_lt(old_entries[i].0@, old_entries[j - 1].0@));
                        }
                    } else {
                        assert(seq_lt(old_entries[i - 1].0@, old_entries[j - 1].0@));
                    }
                }
            }
            assert(names_sorted(new_entries));
        }
        self.entries = entries;
        proof {
            assert forall|k: Seq<char>| #[trigger] self.has(k) == (k == kv || old(self).has(k)) by {
                if self.has(k) {
                    let i = choose|i: int| 0 <= i < new_entries.len() && new_entries[i].0@ == k;
                    if k != kv {
                        if found || i < p {
                            assert(old_entries[i].0@ == k);
                        } else {
                            assert(old_entries[i - 1].0@ == k);
                        }
                    }
                }
                if k == kv {
                    assert(new_entries[p as int].0@ == k);
                }
                if old(self).has(k) {
                    let i = choose|i: int| 0 <= i < old_entries.len() && old_entries[i].0@ == k;
                    if found || i < p {
                        if found && i == p {
                            assert(new_entries[p as int].0@ == kv);
                        } else {
                            assert(new_entries[i].0@ == k);
                        }
                    } else {
                        assert(new_entries[i + 1].0@ == k);
                    }
                }
            }
            assert forall|k: Seq<char>|
                #![trigger self.get_spec(k)]
                self.get_spec(k) == if k == kv {
                    Some(value)
                } else {
                    old(self).get_spec(k)
                } by {
                lemma_name_index(new_entries, k, 0);
                lemma_name_index(old_entries, k, 0);
                if k == kv {
                    lemma_sorted_lookup(new_entries, k, p as int);
                } else {
                    match name_index(old_entries, k, 0) {
                        Some(i) => {
                            if found || i < p {
                                lemma_sorted_lookup(new_entries, k, i);
                            } else {
                                lemma_sorted_lookup(new_entries, k, i + 1);
                            }
                        },
                        None => {
                            match name_index(new_entries, k, 0) {
                                Some(i) => {
                                    if found || i < p {
                                        assert(old_entries[i].0@ == k);
                                    } else if i > p {
                                        assert(old_entries[i - 1].0@ == k);
                                    }
                                },
                                None => {},
                            }
                        },
                    }
                }
            }
        }
    }
}

} // verus!
