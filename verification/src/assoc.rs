//! A finite map kept as a list of entries with pairwise distinct keys.
//!
//! Keys are told apart by their views, so the map that an `AssocMap` stands
//! for is keyed by the view of its key type. Lookup walks the list.

use vstd::prelude::*;

verus! {

/// A key whose executable equality test agrees with equality of views.
pub trait KeyEq: View + Sized {
    fn key_eq(&self, other: &Self) -> (r: bool)
        ensures
            r == (self@ == other@),
    ;
}

/// Some entry of `s` has the key `k`.
pub open spec fn has_key<K: View, V>(s: Seq<(K, V)>, k: K::V) -> bool {
    exists|i: int| 0 <= i < s.len() && (#[trigger] s[i]).0@ == k
}

/// An index at which `s` holds the key `k`, where there is one.
pub open spec fn index_of<K: View, V>(s: Seq<(K, V)>, k: K::V) -> int {
    choose|i: int| 0 <= i < s.len() && (#[trigger] s[i]).0@ == k
}

/// No two entries of `s` have the same key.
pub open spec fn distinct_keys<K: View, V>(s: Seq<(K, V)>) -> bool {
    forall|i: int, j: int|
        0 <= i < j < s.len() ==> (#[trigger] s[i]).0@ != (#[trigger] s[j]).0@
}

/// The map that the entries `s` stand for.
pub open spec fn map_of<K: View, V>(s: Seq<(K, V)>) -> Map<K::V, V> {
    Map::new(|k: K::V| has_key(s, k), |k: K::V| s[index_of(s, k)].1)
}

/// With distinct keys, each entry is what the map holds under its key.
pub proof fn lemma_map_of_index<K: View, V>(s: Seq<(K, V)>, i: int)
    requires
        distinct_keys(s),
        0 <= i < s.len(),
    ensures
        map_of(s).contains_key(s[i].0@),
        map_of(s)[s[i].0@] == s[i].1,
        index_of(s, s[i].0@) == i,
{
    let k = s[i].0@;
    assert(has_key(s, k));
    let j = index_of(s, k);
    assert(0 <= j < s.len() && s[j].0@ == k);
    if j != i {
        if j < i {
            assert(s[j].0@ != s[i].0@);
        } else {
            assert(s[i].0@ != s[j].0@);
        }
    }
}

/// Appending an entry under a new key inserts it into the map.
pub proof fn lemma_map_of_push<K: View, V>(s: Seq<(K, V)>, e: (K, V))
    requires
        distinct_keys(s),
        !has_key(s, e.0@),
    ensures
        distinct_keys(s.push(e)),
        map_of(s.push(e)) == map_of(s).insert(e.0@, e.1),
{
    let t = s.push(e);
    assert forall|i: int, j: int| 0 <= i < j < t.len() implies (#[trigger] t[i]).0@ != (
    #[trigger] t[j]).0@ by {
        if j < s.len() {
            assert(s[i].0@ != s[j].0@);
        } else {
            assert(t[i] == s[i]);
            assert(s[i].0@ != e.0@);
        }
    }
    assert forall|k: K::V| has_key(t, k) <==> (has_key(s, k) || k == e.0@) by {
        if has_key(t, k) {
            let i = index_of(t, k);
            if i < s.len() {
                assert(s[i].0@ == k);
            }
        }
        if has_key(s, k) {
            let i = index_of(s, k);
            assert(t[i].0@ == k);
        }
        if k == e.0@ {
            assert(t[s.len() as int].0@ == k);
        }
    }
    assert forall|k: K::V| has_key(t, k) implies #[trigger] map_of(t)[k] == map_of(s).insert(
        e.0@,
        e.1,
    )[k] by {
        if k == e.0@ {
            lemma_map_of_index(t, s.len() as int);
        } else {
            let i = index_of(s, k);
            assert(t[i] == s[i]);
            lemma_map_of_index(t, i);
            lemma_map_of_index(s, i);
        }
    }
    assert(map_of(t) =~= map_of(s).insert(e.0@, e.1));
}

/// Taking out the entry at `i` removes its key from the map.
pub proof fn lemma_map_of_remove<K: View, V>(s: Seq<(K, V)>, i: int)
    requires
        distinct_keys(s),
        0 <= i < s.len(),
    ensures
        distinct_keys(s.remove(i)),
        !has_key(s.remove(i), s[i].0@),
        map_of(s.remove(i)) == map_of(s).remove(s[i].0@),
{
    let t = s.remove(i);
    let gone = s[i].0@;
    assert forall|a: int| 0 <= a < t.len() implies #[trigger] t[a] == s[if a < i { a } else { a + 1 }] by {}
    assert forall|a: int, b: int| 0 <= a < b < t.len() implies (#[trigger] t[a]).0@ != (
    #[trigger] t[b]).0@ by {
        let a2 = if a < i { a } else { a + 1 };
        let b2 = if b < i { b } else { b + 1 };
        assert(t[a] == s[a2]);
        assert(t[b] == s[b2]);
        assert(s[a2].0@ != s[b2].0@);
    }
    assert(!has_key(t, gone)) by {
        if has_key(t, gone) {
            let a = index_of(t, gone);
            let a2 = if a < i { a } else { a + 1 };
            assert(t[a] == s[a2]);
            if a2 < i {
                assert(s[a2].0@ != s[i].0@);
            } else {
                assert(s[i].0@ != s[a2].0@);
            }
        }
    }
    assert forall|k: K::V| has_key(t, k) <==> (has_key(s, k) && k != gone) by {
        if has_key(t, k) {
            let a = index_of(t, k);
            let a2 = if a < i { a } else { a + 1 };
            assert(t[a] == s[a2]);
            assert(s[a2].0@ == k);
        }
        if has_key(s, k) && k != gone {
            let b = index_of(s, k);
            let a = if b < i { b } else { b - 1 };
            assert(t[a] == s[b]);
            assert(t[a].0@ == k);
        }
    }
    assert forall|k: K::V| has_key(t, k) implies #[trigger] map_of(t)[k] == map_of(s).remove(
        gone,
    )[k] by {
        let a = index_of(t, k);
        let a2 = if a < i { a } else { a + 1 };
        assert(t[a] == s[a2]);
        lemma_map_of_index(t, a);
        lemma_map_of_index(s, a2);
    }
    assert(map_of(t) =~= map_of(s).remove(gone));
}

/// With distinct keys, the map has as many keys as there are entries.
pub proof fn lemma_map_of_len<K: View, V>(s: Seq<(K, V)>)
    requires
        distinct_keys(s),
    ensures
        map_of(s).dom().finite(),
        map_of(s).len() == s.len(),
    decreases s.len(),
{
    if s.len() == 0 {
        assert(map_of(s) =~= Map::<K::V, V>::empty());
    } else {
        let p = s.drop_last();
        let e = s.last();
        assert(distinct_keys(p)) by {
            assert forall|i: int, j: int| 0 <= i < j < p.len() implies (#[trigger] p[i]).0@ != (
            #[trigger] p[j]).0@ by {
                assert(p[i] == s[i]);
                assert(p[j] == s[j]);
            }
        }
        assert(!has_key(p, e.0@)) by {
            if has_key(p, e.0@) {
                let i = index_of(p, e.0@);
                assert(p[i] == s[i]);
                assert(s[i].0@ != s[s.len() - 1].0@);
            }
        }
        lemma_map_of_len(p);
        lemma_map_of_push(p, e);
        assert(p.push(e) =~= s);
    }
}

/// Appending entries under new, distinct keys adds them to the map.
pub proof fn lemma_map_of_add<K: View, V>(s: Seq<(K, V)>, t: Seq<(K, V)>)
    requires
        distinct_keys(s),
        distinct_keys(t),
        map_of(s).dom().disjoint(map_of(t).dom()),
    ensures
        distinct_keys(s + t),
        map_of(s + t) == map_of(s).union_prefer_right(map_of(t)),
    decreases t.len(),
{
    if t.len() == 0 {
        assert(s + t =~= s);
        assert(map_of(t) =~= Map::<K::V, V>::empty());
        assert(map_of(s).union_prefer_right(map_of(t)) =~= map_of(s));
    } else {
        let p = t.drop_last();
        let e = t.last();
        assert(distinct_keys(p)) by {
            assert forall|i: int, j: int| 0 <= i < j < p.len() implies (#[trigger] p[i]).0@ != (
            #[trigger] p[j]).0@ by {
                assert(p[i] == t[i]);
                assert(p[j] == t[j]);
            }
        }
        assert(!has_key(p, e.0@)) by {
            if has_key(p, e.0@) {
                let i = index_of(p, e.0@);
                assert(p[i] == t[i]);
                assert(t[i].0@ != t[t.len() - 1].0@);
            }
        }
        lemma_map_of_push(p, e);
        assert(p.push(e) =~= t);
        assert(map_of(s).dom().disjoint(map_of(p).dom())) by {
            assert forall|k: K::V| map_of(s).dom().contains(k) implies !map_of(p).dom().contains(
                k,
            ) by {
                if map_of(p).dom().contains(k) {
                    assert(map_of(t).dom().contains(k));
                }
            }
        }
        lemma_map_of_add(s, p);
        assert(!has_key(s + p, e.0@)) by {
            assert(map_of(t).dom().contains(e.0@));
            assert(!map_of(s).dom().contains(e.0@));
            assert(!map_of(p).dom().contains(e.0@));
            assert(!map_of(s + p).dom().contains(e.0@));
        }
        lemma_map_of_push(s + p, e);
        assert((s + p).push(e) =~= s + t);
        assert(map_of(s).union_prefer_right(map_of(p)).insert(e.0@, e.1) =~= map_of(
            s,
        ).union_prefer_right(map_of(p).insert(e.0@, e.1)));
    }
}

/// A finite map from the views of keys to values.
#[derive(Debug)]
pub struct AssocMap<K: KeyEq, V> {
    entries: Vec<(K, V)>,
}

impl<K: KeyEq, V> View for AssocMap<K, V> {
    type V = Map<K::V, V>;

    open spec fn view(&self) -> Map<K::V, V> {
        map_of(self.entries())
    }
}

impl<K: KeyEq, V> AssocMap<K, V> {
    /// The entries in the order in which the list holds them.
    pub closed spec fn entries(&self) -> Seq<(K, V)> {
        self.entries@
    }

    /// No key is held twice.
    #[verifier::type_invariant]
    pub open spec fn wf(&self) -> bool {
        distinct_keys(self.entries())
    }

    /// A well-formed map is finite, with one key for each entry.
    pub proof fn lemma_len(&self)
        requires
            self.wf(),
        ensures
            self@.dom().finite(),
            self@.len() == self.entries().len(),
    {
        lemma_map_of_len(self.entries());
    }

    /// The empty map.
    pub fn new() -> (r: Self)
        ensures
            r@ == Map::<K::V, V>::empty(),
            r.entries() == Seq::<(K, V)>::empty(),
    {
        let r = AssocMap { entries: Vec::new() };
        assert(r@ =~= Map::<K::V, V>::empty());
        r
    }

    /// The number of keys.
    pub fn len(&self) -> (r: usize)
        ensures
            r == self@.len(),
            r == self.entries().len(),
            self@.dom().finite(),
    {
        proof {
            use_type_invariant(self);
            lemma_map_of_len(self.entries@);
        }
        self.entries.len()
    }

    /// Moves the list out and leaves the map empty.
    fn take_entries(&mut self) -> (r: Vec<(K, V)>)
        ensures
            r@ == old(self).entries(),
            final(self).entries() == Seq::<(K, V)>::empty(),
    {
        let mut taken: Vec<(K, V)> = Vec::new();
        core::mem::swap(&mut taken, &mut self.entries);
        taken
    }

    /// Where the key `k` is held, if it is.
    fn position(&self, k: &K) -> (r: Option<usize>)
        ensures
            match r {
                Some(i) => i < self.entries().len() && self.entries()[i as int].0@ == k@,
                None => !has_key(self.entries(), k@),
            },
    {
        let mut i: usize = 0;
        while i < self.entries.len()
            invariant
                i <= self.entries@.len(),
                forall|j: int| 0 <= j < i ==> (#[trigger] self.entries@[j]).0@ != k@,
            decreases self.entries@.len() - i,
        {
            if self.entries[i].0.key_eq(k) {
                return Some(i);
            }
            i = i + 1;
        }
        None
    }

    /// Whether something is held under `k`.
    pub fn contains_key(&self, k: &K) -> (r: bool)
        ensures
            r == self@.contains_key(k@),
    {
        self.position(k).is_some()
    }

    /// What is held under `k`, if anything is.
    pub fn get(&self, k: &K) -> (r: Option<&V>)
        ensures
            match r {
                Some(v) => self@.contains_key(k@) && *v == self@[k@],
                None => !self@.contains_key(k@),
            },
    {
        match self.position(k) {
            Some(i) => {
                proof {
                    use_type_invariant(self);
                    lemma_map_of_index(self.entries@, i as int);
                }
                Some(&self.entries[i].1)
            },
            None => None,
        }
    }

    /// The entry at place `i` of the list.
    pub fn entry_at(&self, i: usize) -> (r: (&K, &V))
        requires
            i < self.entries().len(),
        ensures
            *r.0 == self.entries()[i as int].0,
            *r.1 == self.entries()[i as int].1,
    {
        (&self.entries[i].0, &self.entries[i].1)
    }

    /// Puts `v` under `k`, and hands back what was there before.
    pub fn insert(&mut self, k: K, v: V) -> (r: Option<V>)
        ensures
            final(self)@ == old(self)@.insert(k@, v),
            match r {
                Some(prev) => old(self)@.contains_key(k@) && prev == old(self)@[k@],
                None => !old(self)@.contains_key(k@),
            },
            final(self).entries() == (if old(self)@.contains_key(k@) {
                old(self).entries().remove(index_of(old(self).entries(), k@))
            } else {
                old(self).entries()
            }).push((k, v)),
    {
        proof {
            use_type_invariant(&*self);
        }
        let ghost before = self.entries@;
        let found = self.position(&k);
        let mut entries = self.take_entries();
        match found {
            Some(i) => {
                let prev = entries.remove(i);
                proof {
                    lemma_map_of_index(before, i as int);
                    lemma_map_of_remove(before, i as int);
                    lemma_map_of_push(before.remove(i as int), (k, v));
                    assert(map_of(before).remove(k@).insert(k@, v) =~= map_of(before).insert(k@, v));
                }
                entries.push((k, v));
                self.entries = entries;
                Some(prev.1)
            },
            None => {
                proof {
                    lemma_map_of_push(before, (k, v));
                }
                entries.push((k, v));
                self.entries = entries;
                None
            },
        }
    }

    /// Puts `v` under the key `k`, which the map must not hold yet. Unlike
    /// `insert`, this does not walk the list.
    pub fn insert_new(&mut self, k: K, v: V)
        requires
            !old(self)@.contains_key(k@),
        ensures
            final(self)@ == old(self)@.insert(k@, v),
            final(self).entries() == old(self).entries().push((k, v)),
    {
        proof {
            use_type_invariant(&*self);
            lemma_map_of_push(self.entries@, (k, v));
        }
        let mut entries = self.take_entries();
        entries.push((k, v));
        self.entries = entries;
    }

    /// Moves every entry of `other` into the map. The two must share no key.
    pub fn absorb(&mut self, other: AssocMap<K, V>)
        requires
            old(self)@.dom().disjoint(other@.dom()),
        ensures
            final(self)@ == old(self)@.union_prefer_right(other@),
            final(self).entries() == old(self).entries() + other.entries(),
    {
        proof {
            use_type_invariant(&*self);
            use_type_invariant(&other);
            lemma_map_of_add(self.entries@, other.entries@);
        }
        let mut entries = self.take_entries();
        let mut other = other;
        let mut more = other.take_entries();
        entries.append(&mut more);
        self.entries = entries;
    }

    /// Takes out what is under `k`, if anything is.
    pub fn remove(&mut self, k: &K) -> (r: Option<V>)
        ensures
            final(self)@ == old(self)@.remove(k@),
            match r {
                Some(v) => old(self)@.contains_key(k@) && v == old(self)@[k@],
                None => !old(self)@.contains_key(k@),
            },
            final(self).entries() == if old(self)@.contains_key(k@) {
                old(self).entries().remove(index_of(old(self).entries(), k@))
            } else {
                old(self).entries()
            },
    {
        proof {
            use_type_invariant(&*self);
        }
        let ghost before = self.entries@;
        match self.position(k) {
            Some(i) => {
                proof {
                    lemma_map_of_index(before, i as int);
                    lemma_map_of_remove(before, i as int);
                }
                let mut entries = self.take_entries();
                let e = entries.remove(i);
                self.entries = entries;
                Some(e.1)
            },
            None => {
                assert(map_of(before).remove(k@) =~= map_of(before));
                None
            },
        }
    }

    /// Takes out the entry that was put in last, if the map is not empty.
    pub fn pop(&mut self) -> (r: Option<(K, V)>)
        ensures
            match r {
                Some(e) => {
                    &&& old(self).entries().len() > 0
                    &&& e == old(self).entries().last()
                    &&& final(self).entries() == old(self).entries().drop_last()
                    &&& old(self)@.contains_key(e.0@)
                    &&& e.1 == old(self)@[e.0@]
                    &&& final(self)@ == old(self)@.remove(e.0@)
                },
                None => {
                    &&& old(self).entries().len() == 0
                    &&& old(self)@ == Map::<K::V, V>::empty()
                    &&& final(self).entries() == old(self).entries()
                    &&& final(self)@ == old(self)@
                },
            },
    {
        proof {
            use_type_invariant(&*self);
        }
        let ghost before = self.entries@;
        let n = self.entries.len();
        if n == 0 {
            assert(map_of(before) =~= Map::<K::V, V>::empty());
            None
        } else {
            proof {
                lemma_map_of_index(before, n - 1);
                lemma_map_of_remove(before, n - 1);
            }
            let mut entries = self.take_entries();
            let e = entries.remove(n - 1);
            self.entries = entries;
            Some(e)
        }
    }
}

} // verus!
