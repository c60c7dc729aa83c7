//! Point-of-presence latency table: one entry per POP identifier, kept in
//! insertion order, with no identifier present twice.
use vstd::prelude::*;
use crate::text;

verus! {

/// Abstract content of a latency table: `(pop id, latency in ms)` pairs in order.
pub type LatencyEntries = Seq<(Seq<char>, u16)>;

/// No key occurs twice.
pub open spec fn keys_distinct(s: LatencyEntries) -> bool {
    forall|i: int, j: int| 0 <= i < j < s.len() ==> s[i].0 != s[j].0
}

/// Whether `k` is a key of `s`.
pub open spec fn has_key(s: LatencyEntries, k: Seq<char>) -> bool {
    exists|i: int| 0 <= i < s.len() && s[i].0 == k
}

/// The value stored under `k`, if any.
pub open spec fn lookup(s: LatencyEntries, k: Seq<char>) -> Option<u16> {
    if has_key(s, k) {
        Some(s[choose|i: int| 0 <= i < s.len() && s[i].0 == k].1)
    } else {
        None
    }
}

/// The table as a finite map from POP id to latency.
pub open spec fn as_map(s: LatencyEntries) -> Map<Seq<char>, u16> {
    Map::new(|k: Seq<char>| has_key(s, k), |k: Seq<char>| lookup(s, k).unwrap())
}

/// Insertion with map semantics: an existing key keeps its position and gets the
/// new value; a new key goes at the end.
pub open spec fn spec_insert(s: LatencyEntries, k: Seq<char>, v: u16) -> LatencyEntries {
    if has_key(s, k) {
        s.update(choose|i: int| 0 <= i < s.len() && s[i].0 == k, (k, v))
    } else {
        s.push((k, v))
    }
}

/// Replacement of the value of an existing key; the table is unchanged when the key is absent.
pub open spec fn spec_set_existing(s: LatencyEntries, k: Seq<char>, v: u16) -> LatencyEntries {
    if has_key(s, k) {
        spec_insert(s, k, v)
    } else {
        s
    }
}

/// In a table with distinct keys, the entry holding `k` determines the lookup.
pub proof fn lemma_lookup_at(s: LatencyEntries, i: int)
    requires
        keys_distinct(s),
        0 <= i < s.len(),
    ensures
        has_key(s, s[i].0),
        lookup(s, s[i].0) == Some(s[i].1),
        (choose|j: int| 0 <= j < s.len() && s[j].0 == s[i].0) == i,
{
    let k = s[i].0;
    assert(0 <= i < s.len() && s[i].0 == k);
    let j = choose|j: int| 0 <= j < s.len() && s[j].0 == k;
    if j != i {
        if j < i {
            assert(s[j].0 != s[i].0);
        } else {
            assert(s[i].0 != s[j].0);
        }
    }
}

/// Inserting keeps keys distinct, and the inserted key reads back with its value
/// while every other key reads as before.
pub proof fn lemma_insert(s: LatencyEntries, k: Seq<char>, v: u16)
    requires
        keys_distinct(s),
    ensures
        keys_distinct(spec_insert(s, k, v)),
        lookup(spec_insert(s, k, v), k) == Some(v),
        forall|k2: Seq<char>| k2 != k ==> lookup(spec_insert(s, k, v), k2) == lookup(s, k2),
        has_key(s, k) ==> spec_insert(s, k, v).len() == s.len(),
        !has_key(s, k) ==> spec_insert(s, k, v).len() == s.len() + 1,
        forall|i: int|
            0 <= i < s.len() ==> (#[trigger] spec_insert(s, k, v)[i]).0 == s[i].0 && (s[i].0 != k
                ==> spec_insert(s, k, v)[i].1 == s[i].1),
        !has_key(s, k) ==> spec_insert(s, k, v)[s.len() as int] == (k, v),
{
    let t = spec_insert(s, k, v);
    if has_key(s, k) {
        let i = choose|i: int| 0 <= i < s.len() && s[i].0 == k;
        assert(keys_distinct(t)) by {
            assert forall|a: int, b: int| 0 <= a < b < t.len() implies t[a].0 != t[b].0 by {
                assert(s[a].0 != s[b].0);
            }
        }
        lemma_lookup_at(t, i);
        assert forall|k2: Seq<char>| k2 != k implies lookup(t, k2) == lookup(s, k2) by {
            if has_key(s, k2) {
                let j = choose|j: int| 0 <= j < s.len() && s[j].0 == k2;
                lemma_lookup_at(s, j);
                assert(t[j] == s[j]);
                lemma_lookup_at(t, j);
            } else {
                assert(!has_key(t, k2)) by {
                    if has_key(t, k2) {
                        let j = choose|j: int| 0 <= j < t.len() && t[j].0 == k2;
                        assert(s[j].0 == k2);
                    }
                }
            }
        }
    } else {
        assert(keys_distinct(t)) by {
            assert forall|a: int, b: int| 0 <= a < b < t.len() implies t[a].0 != t[b].0 by {
                if b == s.len() {
                    assert(t[a] == s[a]);
                } else {
                    assert(s[a].0 != s[b].0);
                }
            }
        }
        lemma_lookup_at(t, s.len() as int);
        assert forall|k2: Seq<char>| k2 != k implies lookup(t, k2) == lookup(s, k2) by {
            if has_key(s, k2) {
                let j = choose|j: int| 0 <= j < s.len() && s[j].0 == k2;
                lemma_lookup_at(s, j);
                assert(t[j] == s[j]);
                lemma_lookup_at(t, j);
            } else {
                assert(!has_key(t, k2)) by {
                    if has_key(t, k2) {
                        let j = choose|j: int| 0 <= j < t.len() && t[j].0 == k2;
                        if j < s.len() {
                            assert(s[j].0 == k2);
                        }
                    }
                }
            }
        }
    }
}

/// A write is read back, and leaves every other key as it was: on the map view,
/// inserting `k` with `v` is exactly `Map::insert`.
pub proof fn lemma_insert_as_map(s: LatencyEntries, k: Seq<char>, v: u16)
    requires
        keys_distinct(s),
    ensures
        as_map(spec_insert(s, k, v)) == as_map(s).insert(k, v),
{
    lemma_insert(s, k, v);
    let t = spec_insert(s, k, v);
    assert forall|k2: Seq<char>| #[trigger] has_key(t, k2) == (k2 == k || has_key(s, k2)) by {
        if k2 != k {
            assert(lookup(t, k2) == lookup(s, k2));
        }
    }
    assert(as_map(t) =~= as_map(s).insert(k, v));
}

/// Setting an existing key changes exactly that key's value: every entry keeps
/// its key and its position, the entry holding `k` gets `v` and every other
/// entry keeps its value; on the map view this is `Map::insert`. When `k` is
/// absent the table is unchanged.
pub proof fn lemma_set_existing(s: LatencyEntries, k: Seq<char>, v: u16)
    requires
        keys_distinct(s),
    ensures
        spec_set_existing(s, k, v).len() == s.len(),
        forall|i: int|
            0 <= i < s.len() ==> #[trigger] spec_set_existing(s, k, v)[i] == (
                s[i].0,
                if s[i].0 == k {
                    v
                } else {
                    s[i].1
                },
            ),
        keys_distinct(spec_set_existing(s, k, v)),
        has_key(s, k) ==> as_map(spec_set_existing(s, k, v)) == as_map(s).insert(k, v),
        !has_key(s, k) ==> spec_set_existing(s, k, v) == s,
{
    if has_key(s, k) {
        let i = choose|i: int| 0 <= i < s.len() && s[i].0 == k;
        lemma_insert(s, k, v);
        lemma_insert_as_map(s, k, v);
        let t = spec_set_existing(s, k, v);
        assert forall|j: int| 0 <= j < s.len() implies #[trigger] t[j] == (
            s[j].0,
            if s[j].0 == k {
                v
            } else {
                s[j].1
            },
        ) by {
            if j < i {
                assert(s[j].0 != s[i].0);
            } else if j > i {
                assert(s[i].0 != s[j].0);
            }
        }
    }
}

/// A duration in milliseconds stored as a table latency: the low 16 bits, as an
/// `as u16` conversion keeps them.
pub fn latency_millis(millis: u128) -> (ms: u16)
    ensures
        ms == millis % 65536,
{
    let ms = millis as u16;
    assert(ms == millis % 65536) by (bit_vector)
        requires
            ms == millis as u16,
    ;
    ms
}

/// Table of POP latencies in milliseconds.
pub struct PopLatency {
    entries: Vec<(String, u16)>,
}

impl View for PopLatency {
    type V = LatencyEntries;

    closed spec fn view(&self) -> LatencyEntries {
        self.entries@.map_values(|e: (String, u16)| (e.0@, e.1))
    }
}

impl PopLatency {
    #[verifier::type_invariant]
    closed spec fn distinct_keys(self) -> bool {
        keys_distinct(self@)
    }

    /// An empty table.
    pub fn new() -> (t: Self)
        ensures
            t@ == Seq::<(Seq<char>, u16)>::empty(),
            keys_distinct(t@),
    {
        let t = PopLatency { entries: Vec::new() };
        assert(t@ =~= Seq::<(Seq<char>, u16)>::empty());
        t
    }

    /// Number of entries.
    pub fn len(&self) -> (n: usize)
        ensures
            n == self@.len(),
            keys_distinct(self@),
    {
        proof {
            use_type_invariant(self);
        }
        self.entries.len()
    }

    /// Position of `key`, if present.
    fn position(&self, key: &str) -> (r: Option<usize>)
        ensures
            match r {
                Some(i) => i < self@.len() && self@[i as int].0 == key@,
                None => !has_key(self@, key@),
            },
    {
        let n = self.entries.len();
        let mut i: usize = 0;
        while i < n
            invariant
                n == self.entries@.len(),
                self@.len() == n,
                i <= n,
                forall|j: int| 0 <= j < i ==> self@[j].0 != key@,
            decreases n - i,
        {
            assert(self@[i as int].0 == self.entries@[i as int].0@);
            if text::same_text(self.entries[i].0.as_str(), key) {
                return Some(i);
            }
            i = i + 1;
        }
        None
    }

    /// The latency recorded for `key`.
    pub fn get(&self, key: &str) -> (r: Option<u16>)
        ensures
            r == lookup(self@, key@),
    {
        proof {
            use_type_invariant(self);
        }
        match self.position(key) {
            Some(i) => {
                proof {
                    lemma_lookup_at(self@, i as int);
                }
                Some(self.entries[i].1)
            },
            None => None,
        }
    }

    /// Sets the latency of `key`, adding the key at the end when it is new.
    pub fn insert(&mut self, key: String, value: u16)
        ensures
            final(self)@ == spec_insert(old(self)@, key@, value),
            keys_distinct(final(self)@),
            as_map(final(self)@) == as_map(old(self)@).insert(key@, value),
            forall|i: int|
                0 <= i < old(self)@.len() ==> (#[trigger] final(self)@[i]).0 == old(self)@[i].0 && (
                old(self)@[i].0 != key@ ==> final(self)@[i].1 == old(self)@[i].1),
            has_key(old(self)@, key@) ==> final(self)@.len() == old(self)@.len(),
            !has_key(old(self)@, key@) ==> final(self)@ == old(self)@.push((key@, value)),
    {
        proof {
            use_type_invariant(&*self);
            lemma_insert_as_map(self@, key@, value);
        }
        let ghost old_view = self@;
        match self.position(key.as_str()) {
            Some(i) => {
                proof {
                    lemma_lookup_at(old_view, i as int);
                    lemma_insert(old_view, key@, value);
                }
                let ghost k = key@;
                let mut entries: Vec<(String, u16)> = Vec::new();
                std::mem::swap(&mut entries, &mut self.entries);
                entries.set(i, (key, value));
                assert(entries@.map_values(|e: (String, u16)| (e.0@, e.1)) =~= spec_insert(
                    old_view,
                    k,
                    value,
                ));
                self.entries = entries;
            },
            None => {
                proof {
                    lemma_insert(old_view, key@, value);
                }
                let ghost k = key@;
                let mut entries: Vec<(String, u16)> = Vec::new();
                std::mem::swap(&mut entries, &mut self.entries);
                entries.push((key, value));
                assert(entries@.map_values(|e: (String, u16)| (e.0@, e.1)) =~= spec_insert(
                    old_view,
                    k,
                    value,
                ));
                self.entries = entries;
            },
        }
    }

    /// Replaces the latency of a key that is already present, leaving the table
    /// unchanged when the key is absent.
    pub fn set_existing(&mut self, key: &str, value: u16)
        ensures
            final(self)@ == spec_set_existing(old(self)@, key@, value),
            keys_distinct(final(self)@),
            final(self)@.len() == old(self)@.len(),
            forall|i: int|
                0 <= i < old(self)@.len() ==> #[trigger] final(self)@[i] == (
                    old(self)@[i].0,
                    if old(self)@[i].0 == key@ {
                        value
                    } else {
                        old(self)@[i].1
                    },
                ),
            has_key(old(self)@, key@) ==> as_map(final(self)@) == as_map(old(self)@).insert(
                key@,
                value,
            ),
            !has_key(old(self)@, key@) ==> final(self)@ == old(self)@,
    {
        proof {
            use_type_invariant(&*self);
            lemma_set_existing(self@, key@, value);
        }
        if self.position(key).is_some() {
            let owned = text::owned(key);
            self.insert(owned, value);
        }
    }

    /// The POP identifiers, in table order.
    pub fn keys(&self) -> (ks: Vec<String>)
        ensures
            ks@.len() == self@.len(),
            forall|i: int| 0 <= i < ks@.len() ==> #[trigger] ks@[i]@ == self@[i].0,
    {
        let n = self.entries.len();
        let mut ks: Vec<String> = Vec::new();
        for i in 0..n
            invariant
                n == self.entries@.len(),
                self@.len() == n,
                ks@.len() == i,
                forall|j: int| 0 <= j < i ==> #[trigger] ks@[j]@ == self@[j].0,
        {
            assert(self@[i as int].0 == self.entries@[i as int].0@);
            ks.push(self.entries[i].0.clone());
        }
        ks
    }
}

} // verus!
