//! Small collections keyed by strings: a map with string keys and a set of strings.
//!
//! Both keep their entries in insertion order, which makes their iteration
//! order deterministic; their views are a `Map` and a `Set` over character
//! sequences.
use vstd::prelude::*;

use crate::text::str_eq;

verus! {

/// The map described by a sequence of entries whose keys are distinct.
pub open spec fn entries_map<V>(s: Seq<(String, V)>) -> Map<Seq<char>, V>
    decreases s.len(),
{
    if s.len() == 0 {
        Map::empty()
    } else {
        entries_map(s.drop_last()).insert(s.last().0@, s.last().1)
    }
}

pub open spec fn keys_distinct<V>(s: Seq<(String, V)>) -> bool {
    forall|i: int, j: int| 0 <= i < s.len() && 0 <= j < s.len() && i != j ==> #[trigger] s[i].0@
        != #[trigger] s[j].0@
}

pub proof fn lemma_entries_map_lookup<V>(s: Seq<(String, V)>, k: Seq<char>)
    requires
        keys_distinct(s),
    ensures
        entries_map(s).contains_key(k) <==> exists|i: int| 0 <= i < s.len() && #[trigger] s[i].0@ == k,
        forall|i: int| 0 <= i < s.len() && #[trigger] s[i].0@ == k ==> entries_map(s)[k] == s[i].1,
    decreases s.len(),
{
    if s.len() > 0 {
        let p = s.drop_last();
        assert(keys_distinct(p)) by {
            assert forall|i: int, j: int| 0 <= i < p.len() && 0 <= j < p.len() && i != j implies #[trigger] p[i].0@
                != #[trigger] p[j].0@ by {
                assert(p[i] == s[i] && p[j] == s[j]);
            }
        }
        lemma_entries_map_lookup(p, k);
        let last = s.len() - 1;
        assert(s[last] == s.last());
        assert(forall|i: int| 0 <= i < p.len() ==> #[trigger] p[i] == s[i]);
        if k == s.last().0@ {
            assert(s[last].0@ == k);
            assert forall|i: int| 0 <= i < s.len() && #[trigger] s[i].0@ == k implies entries_map(
                s,
            )[k] == s[i].1 by {
                if i < last {
                    assert(s[i].0@ != s[last].0@);
                }
            }
        } else {
            if entries_map(p).contains_key(k) {
                let i = choose|i: int| 0 <= i < p.len() && #[trigger] p[i].0@ == k;
                assert(s[i].0@ == k);
            }
            if exists|i: int| 0 <= i < s.len() && #[trigger] s[i].0@ == k {
                let i = choose|i: int| 0 <= i < s.len() && #[trigger] s[i].0@ == k;
                assert(i < last);
                assert(p[i].0@ == k);
            }
            assert forall|i: int| 0 <= i < s.len() && #[trigger] s[i].0@ == k implies entries_map(
                s,
            )[k] == s[i].1 by {
                assert(i < last);
                assert(p[i].0@ == k);
            }
        }
    }
}

pub proof fn lemma_entries_map_update<V>(s: Seq<(String, V)>, i: int, v: V)
    requires
        keys_distinct(s),
        0 <= i < s.len(),
    ensures
        keys_distinct(s.update(i, (s[i].0, v))),
        entries_map(s.update(i, (s[i].0, v))) == entries_map(s).insert(s[i].0@, v),
    decreases s.len(),
{
    let t = s.update(i, (s[i].0, v));
    assert forall|a: int, b: int| 0 <= a < t.len() && 0 <= b < t.len() && a != b implies #[trigger] t[a].0@
        != #[trigger] t[b].0@ by {
        assert(t[a].0 == s[a].0 && t[b].0 == s[b].0);
    }
    let m1 = entries_map(t);
    let m2 = entries_map(s).insert(s[i].0@, v);
    assert forall|k: Seq<char>| #[trigger] m1.contains_key(k) <==> m2.contains_key(k) by {
        lemma_entries_map_lookup(s, k);
        lemma_entries_map_lookup(t, k);
        if m2.contains_key(k) && k != s[i].0@ {
            let j = choose|j: int| 0 <= j < s.len() && #[trigger] s[j].0@ == k;
            assert(t[j].0@ == k);
        }
        if m1.contains_key(k) {
            let j = choose|j: int| 0 <= j < t.len() && #[trigger] t[j].0@ == k;
            assert(s[j].0@ == k);
        }
        assert(t[i].0@ == s[i].0@);
    }
    assert forall|k: Seq<char>| #[trigger] m1.contains_key(k) implies m1[k] == m2[k] by {
        lemma_entries_map_lookup(s, k);
        lemma_entries_map_lookup(t, k);
        let j = choose|j: int| 0 <= j < t.len() && #[trigger] t[j].0@ == k;
        assert(s[j].0@ == k);
    }
    assert(m1 =~= m2);
}

/// A map with string keys that remembers the order in which keys were first inserted.
pub struct NamedMap<V> {
    entries: Vec<(String, V)>,
}

impl<V> View for NamedMap<V> {
    type V = Map<Seq<char>, V>;

    open spec fn view(&self) -> Map<Seq<char>, V> {
        entries_map(self.entries())
    }
}

impl<V> NamedMap<V> {
    /// The entries in insertion order.
    pub closed spec fn entries(&self) -> Seq<(String, V)> {
        self.entries@
    }

    #[verifier::type_invariant]
    pub closed spec fn well_formed(self) -> bool {
        keys_distinct(self.entries@)
    }

    /// The keys in insertion order.
    pub open spec fn key_seq(&self) -> Seq<Seq<char>> {
        self.entries().map_values(|e: (String, V)| e.0@)
    }

    pub proof fn lemma_view(&self)
        requires
            self.well_formed(),
        ensures
            keys_distinct(self.entries()),
            forall|k: Seq<char>| #[trigger]
                self@.contains_key(k) <==> exists|i: int|
                    0 <= i < self.entries().len() && #[trigger] self.entries()[i].0@ == k,
            forall|i: int|
                0 <= i < self.entries().len() ==> #[trigger] self@.contains_key(self.entries()[i].0@)
                    && self@[self.entries()[i].0@] == self.entries()[i].1,
            self@.dom().finite(),
            self@.len() == self.entries().len(),
    {
        assert forall|k: Seq<char>| #[trigger]
            self@.contains_key(k) <==> exists|i: int|
                0 <= i < self.entries().len() && #[trigger] self.entries()[i].0@ == k by {
            lemma_entries_map_lookup(self.entries(), k);
        }
        assert forall|i: int| 0 <= i < self.entries().len() implies #[trigger] self@.contains_key(
            self.entries()[i].0@,
        ) && self@[self.entries()[i].0@] == self.entries()[i].1 by {
            lemma_entries_map_lookup(self.entries(), self.entries()[i].0@);
        }
        lemma_entries_map_finite_len(self.entries());
    }

    pub fn new() -> (m: Self)
        ensures
            m@ == Map::<Seq<char>, V>::empty(),
            m.entries().len() == 0,
    {
        NamedMap { entries: Vec::new() }
    }

    pub fn len(&self) -> (n: usize)
        ensures
            n == self@.len(),
            n == self.entries().len(),
    {
        proof {
            use_type_invariant(self);
            self.lemma_view();
        }
        self.entries.len()
    }

    /// Position of `key` among the entries.
    pub fn index_of(&self, key: &str) -> (r: Option<usize>)
        ensures
            match r {
                Some(i) => i < self.entries().len() && self.entries()[i as int].0@ == key@
                    && self@[key@] == self.entries()[i as int].1,
                None => !self@.contains_key(key@),
            },
            r is Some <==> self@.contains_key(key@),
    {
        proof {
            use_type_invariant(self);
            self.lemma_view();
        }
        let mut i: usize = 0;
        while i < self.entries.len()
            invariant
                i <= self.entries@.len(),
                forall|j: int| 0 <= j < i ==> self.entries@[j].0@ != key@,
            decreases self.entries@.len() - i,
        {
            if str_eq(self.entries[i].0.as_str(), key) {
                proof {
                    use_type_invariant(self);
                    self.lemma_view();
                    assert(self@.contains_key(self.entries()[i as int].0@));
                }
                return Some(i);
            }
            i = i + 1;
        }
        None
    }

    pub fn key_at(&self, i: usize) -> (k: &String)
        requires
            i < self.entries().len(),
        ensures
            *k == self.entries()[i as int].0,
    {
        &self.entries[i].0
    }

    pub fn value_at(&self, i: usize) -> (v: &V)
        requires
            i < self.entries().len(),
        ensures
            *v == self.entries()[i as int].1,
    {
        &self.entries[i].1
    }

    pub fn get(&self, key: &str) -> (r: Option<&V>)
        ensures
            r is Some <==> self@.contains_key(key@),
            r matches Some(v) ==> *v == self@[key@],
    {
        proof {
            use_type_invariant(self);
            self.lemma_view();
        }
        match self.index_of(key) {
            Some(i) => Some(&self.entries[i].1),
            None => None,
        }
    }

    pub fn contains_key(&self, key: &str) -> (b: bool)
        ensures
            b == self@.contains_key(key@),
    {
        self.index_of(key).is_some()
    }

    /// Replaces the value stored at position `i`, returning the old value.
    pub fn replace_at(&mut self, i: usize, v: V) -> (old_value: V)
        requires
            i < old(self).entries().len(),
        ensures
            old_value == old(self).entries()[i as int].1,
            final(self).entries() == old(self).entries().update(
                i as int,
                (old(self).entries()[i as int].0, v),
            ),
            final(self)@ == old(self)@.insert(old(self).entries()[i as int].0@, v),
    {
        proof {
            use_type_invariant(&*self);
            lemma_entries_map_update(self.entries@, i as int, v);
        }
        let mut entries = Vec::new();
        std::mem::swap(&mut entries, &mut self.entries);
        let mut value = v;
        std::mem::swap(&mut entries[i].1, &mut value);
        self.entries = entries;
        value
    }

    /// Inserts a key-value pair; a key that is already present keeps its position
    /// and gets the new value.  Returns the value it had before.
    pub fn insert(&mut self, key: String, v: V) -> (old_value: Option<V>)
        ensures
            final(self)@ == old(self)@.insert(key@, v),
            old_value is Some <==> old(self)@.contains_key(key@),
            old_value matches Some(o) ==> o == old(self)@[key@],
            old(self)@.contains_key(key@) ==> final(self).key_seq() == old(self).key_seq(),
            !old(self)@.contains_key(key@) ==> final(self).key_seq() == old(self).key_seq().push(
                key@,
            ),
    {
        proof {
            use_type_invariant(&*self);
            self.lemma_view();
        }
        match self.index_of(key.as_str()) {
            Some(i) => {
                let old_value = self.replace_at(i, v);
                proof {
                    assert(self.key_seq() =~= old(self).key_seq());
                }
                Some(old_value)
            },
            None => {
                proof {
                    use_type_invariant(&*self);
                }
                let mut entries = Vec::new();
                std::mem::swap(&mut entries, &mut self.entries);
                let ghost before = entries@;
                entries.push((key, v));
                proof {
                    assert(entries@.drop_last() == before);
                    assert forall|a: int, b: int|
                        0 <= a < entries@.len() && 0 <= b < entries@.len() && a != b implies #[trigger] entries@[a].0@
                        != #[trigger] entries@[b].0@ by {
                        if a < before.len() && b < before.len() {
                            assert(entries@[a] == before[a] && entries@[b] == before[b]);
                        } else if a < before.len() {
                            assert(entries@[a] == before[a]);
                        } else if b < before.len() {
                            assert(entries@[b] == before[b]);
                        }
                    }
                }
                self.entries = entries;
                proof {
                    assert(self.key_seq() =~= old(self).key_seq().push(key@));
                }
                None
            },
        }
    }
}

impl NamedMap<String> {
    /// A copy with the same entries in the same order.
    pub fn copy(&self) -> (c: Self)
        ensures
            c.entries() == self.entries(),
            c@ == self@,
    {
        proof {
            use_type_invariant(self);
        }
        let mut entries: Vec<(String, String)> = Vec::new();
        let mut i: usize = 0;
        while i < self.entries.len()
            invariant
                i <= self.entries@.len(),
                entries@ == self.entries@.take(i as int),
            decreases self.entries@.len() - i,
        {
            let e = &self.entries[i];
            entries.push((e.0.clone(), e.1.clone()));
            proof {
                assert(self.entries@.take(i + 1) == self.entries@.take(i as int).push(self.entries@[i as int]));
            }
            i = i + 1;
        }
        proof {
            assert(self.entries@.take(self.entries@.len() as int) == self.entries@);
        }
        NamedMap { entries }
    }
}

pub proof fn lemma_entries_map_finite_len<V>(s: Seq<(String, V)>)
    requires
        keys_distinct(s),
    ensures
        entries_map(s).dom().finite(),
        entries_map(s).len() == s.len(),
    decreases s.len(),
{
    if s.len() > 0 {
        let p = s.drop_last();
        assert(keys_distinct(p)) by {
            assert forall|i: int, j: int| 0 <= i < p.len() && 0 <= j < p.len() && i != j implies #[trigger] p[i].0@
                != #[trigger] p[j].0@ by {
                assert(p[i] == s[i] && p[j] == s[j]);
            }
        }
        lemma_entries_map_finite_len(p);
        lemma_entries_map_lookup(p, s.last().0@);
        if entries_map(p).contains_key(s.last().0@) {
            let i = choose|i: int| 0 <= i < p.len() && #[trigger] p[i].0@ == s.last().0@;
            assert(s[i] == p[i]);
        }
    }
}

/// A set of strings that remembers insertion order.
pub struct StringSet {
    items: Vec<String>,
}

pub open spec fn strings_distinct(s: Seq<String>) -> bool {
    forall|i: int, j: int| 0 <= i < s.len() && 0 <= j < s.len() && i != j ==> #[trigger] s[i]@
        != #[trigger] s[j]@
}

pub open spec fn string_views(s: Seq<String>) -> Seq<Seq<char>> {
    s.map_values(|x: String| x@)
}

impl View for StringSet {
    type V = Set<Seq<char>>;

    open spec fn view(&self) -> Set<Seq<char>> {
        string_views(self.items()).to_set()
    }
}

impl StringSet {
    pub closed spec fn items(&self) -> Seq<String> {
        self.items@
    }

    #[verifier::type_invariant]
    pub closed spec fn well_formed(self) -> bool {
        strings_distinct(self.items@)
    }

    pub proof fn lemma_view(&self)
        requires
            self.well_formed(),
        ensures
            strings_distinct(self.items()),
            forall|k: Seq<char>| #[trigger]
                self@.contains(k) <==> exists|i: int|
                    0 <= i < self.items().len() && #[trigger] self.items()[i]@ == k,
            self@.finite(),
            self@.len() == self.items().len(),
    {
        let v = string_views(self.items());
        assert forall|k: Seq<char>| #[trigger]
            self@.contains(k) <==> exists|i: int|
                0 <= i < self.items().len() && #[trigger] self.items()[i]@ == k by {
            if self@.contains(k) {
                let i = choose|i: int| 0 <= i < v.len() && v[i] == k;
                assert(self.items()[i]@ == k);
            }
            if exists|i: int| 0 <= i < self.items().len() && #[trigger] self.items()[i]@ == k {
                let i = choose|i: int| 0 <= i < self.items().len() && #[trigger] self.items()[i]@ == k;
                assert(v[i] == k);
            }
        }
        assert(v.no_duplicates()) by {
            assert forall|i: int, j: int| 0 <= i < v.len() && 0 <= j < v.len() && i != j implies v[i]
                != v[j] by {
                assert(v[i] == self.items()[i]@ && v[j] == self.items()[j]@);
            }
        }
        v.unique_seq_to_set();
    }

    pub fn new() -> (s: Self)
        ensures
            s@ == Set::<Seq<char>>::empty(),
    {
        let s = StringSet { items: Vec::new() };
        proof {
            assert(s@ =~= Set::<Seq<char>>::empty());
        }
        s
    }

    pub fn len(&self) -> (n: usize)
        ensures
            n == self@.len(),
    {
        proof {
            use_type_invariant(self);
            self.lemma_view();
        }
        self.items.len()
    }

    pub fn contains(&self, item: &str) -> (b: bool)
        ensures
            b == self@.contains(item@),
    {
        proof {
            use_type_invariant(self);
            self.lemma_view();
        }
        let mut i: usize = 0;
        while i < self.items.len()
            invariant
                i <= self.items@.len(),
                forall|j: int| 0 <= j < i ==> self.items@[j]@ != item@,
            decreases self.items@.len() - i,
        {
            if str_eq(self.items[i].as_str(), item) {
                proof {
                    use_type_invariant(self);
                    self.lemma_view();
                    assert(self.items()[i as int]@ == item@);
                }
                return true;
            }
            i = i + 1;
        }
        false
    }

    /// The item at position `i` in insertion order.
    pub fn item_at(&self, i: usize) -> (r: &String)
        requires
            i < self.items().len(),
        ensures
            *r == self.items()[i as int],
            self@.contains(r@),
    {
        proof {
            use_type_invariant(self);
            self.lemma_view();
        }
        &self.items[i]
    }

    /// Adds `item`; returns whether it was new.
    pub fn insert(&mut self, item: String) -> (added: bool)
        ensures
            final(self)@ == old(self)@.insert(item@),
            added == !old(self)@.contains(item@),
    {
        if self.contains(item.as_str()) {
            proof {
                assert(self@.insert(item@) =~= self@);
            }
            return false;
        }
        proof {
            use_type_invariant(&*self);
            self.lemma_view();
        }
        let mut items = Vec::new();
        std::mem::swap(&mut items, &mut self.items);
        let ghost before = items@;
        items.push(item);
        proof {
            assert forall|a: int, b: int| 0 <= a < items@.len() && 0 <= b < items@.len() && a != b implies #[trigger] items@[a]@
                != #[trigger] items@[b]@ by {
                if a < before.len() {
                    assert(items@[a] == before[a]);
                }
                if b < before.len() {
                    assert(items@[b] == before[b]);
                }
            }
        }
        self.items = items;
        proof {
            self.lemma_view();
            assert forall|k: Seq<char>| #[trigger] self@.contains(k) <==> old(self)@.insert(
                item@,
            ).contains(k) by {
                if self@.contains(k) {
                    let i = choose|i: int| 0 <= i < self.items().len() && #[trigger] self.items()[i]@ == k;
                    if i < before.len() {
                        assert(before[i] == self.items()[i]);
                    }
                }
                if old(self)@.contains(k) {
                    let i = choose|i: int| 0 <= i < before.len() && #[trigger] before[i]@ == k;
                    assert(self.items()[i] == before[i]);
                }
                if k == item@ {
                    assert(self.items()[before.len() as int]@ == k);
                }
            }
            assert(self@ =~= old(self)@.insert(item@));
        }
        true
    }
}

} // verus!
