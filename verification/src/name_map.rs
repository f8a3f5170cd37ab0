//! A map from names to values that keeps its entries in increasing order of
//! their names, as a `BTreeMap<String, _>` does.
use crate::text::{str_eq, chars_lt, lemma_chars_lt_irreflexive, lemma_chars_lt_total, lemma_chars_lt_transitive, str_lt};
use vstd::prelude::*;

verus! {

/// The names of `s` are in strictly increasing order (so no name occurs twice).
pub open spec fn keys_sorted<W>(s: Seq<(Seq<char>, W)>) -> bool {
    forall|i: int, j: int| 0 <= i < j < s.len() ==> #[trigger] chars_lt(s[i].0, s[j].0)
}

/// The value that `s` holds for `k`, if any.
pub open spec fn lookup<W>(s: Seq<(Seq<char>, W)>, k: Seq<char>) -> Option<W>
    decreases s.len(),
{
    if s.len() == 0 {
        None
    } else if s.last().0 == k {
        Some(s.last().1)
    } else {
        lookup(s.drop_last(), k)
    }
}

/// Where `k` belongs in the ordered entries `s`: the number of names before it.
pub open spec fn insert_pos<W>(s: Seq<(Seq<char>, W)>, k: Seq<char>) -> int
    decreases s.len(),
{
    if s.len() == 0 {
        0
    } else if chars_lt(s.last().0, k) {
        s.len() as int
    } else {
        insert_pos(s.drop_last(), k)
    }
}

/// The entries `s` after `k` is set to `v`: the value of an existing entry is
/// replaced, otherwise a new entry goes in at its place in the order.
pub open spec fn sorted_insert<W>(s: Seq<(Seq<char>, W)>, k: Seq<char>, v: W) -> Seq<
    (Seq<char>, W),
> {
    let p = insert_pos(s, k);
    if 0 <= p < s.len() && s[p].0 == k {
        s.update(p, (k, v))
    } else {
        s.insert(p, (k, v))
    }
}

/// The names of `s`, in order.
pub open spec fn keys_of<W>(s: Seq<(Seq<char>, W)>) -> Seq<Seq<char>> {
    s.map_values(|e: (Seq<char>, W)| e.0)
}

pub proof fn lemma_insert_pos<W>(s: Seq<(Seq<char>, W)>, k: Seq<char>)
    requires
        keys_sorted(s),
    ensures
        0 <= insert_pos(s, k) <= s.len(),
        forall|i: int| 0 <= i < insert_pos(s, k) ==> chars_lt(#[trigger] s[i].0, k),
        forall|i: int| insert_pos(s, k) <= i < s.len() ==> !chars_lt(#[trigger] s[i].0, k),
    decreases s.len(),
{
    if s.len() > 0 {
        if chars_lt(s.last().0, k) {
            assert forall|i: int| 0 <= i < s.len() implies chars_lt(#[trigger] s[i].0, k) by {
                if i < s.len() - 1 {
                    lemma_chars_lt_transitive(s[i].0, s.last().0, k);
                }
            }
        } else {
            assert(keys_sorted(s.drop_last())) by {
                assert forall|i: int, j: int| 0 <= i < j < s.drop_last().len() implies #[trigger] chars_lt(
                    s.drop_last()[i].0,
                    s.drop_last()[j].0,
                ) by {
                    assert(s.drop_last()[i] == s[i] && s.drop_last()[j] == s[j]);
                }
            }
            lemma_insert_pos(s.drop_last(), k);
            assert forall|i: int| 0 <= i < insert_pos(s, k) implies chars_lt(#[trigger] s[i].0, k) by {
                assert(s.drop_last()[i] == s[i]);
            }
            assert forall|i: int| insert_pos(s, k) <= i < s.len() implies !chars_lt(#[trigger] s[i].0, k) by {
                if i < s.len() - 1 {
                    assert(s.drop_last()[i] == s[i]);
                }
            }
        }
    }
}

/// In ordered entries, the value found for a name is the one stored beside it.
pub proof fn lemma_lookup_at<W>(s: Seq<(Seq<char>, W)>, i: int)
    requires
        keys_sorted(s),
        0 <= i < s.len(),
    ensures
        lookup(s, s[i].0) == Some(s[i].1),
    decreases s.len(),
{
    if i < s.len() - 1 {
        assert(chars_lt(s[i].0, s.last().0));
        lemma_chars_lt_irreflexive(s[i].0);
        lemma_lookup_at(s.drop_last(), i);
    }
}

/// A name that no entry holds has no value.
pub proof fn lemma_lookup_absent<W>(s: Seq<(Seq<char>, W)>, k: Seq<char>)
    requires
        forall|i: int| 0 <= i < s.len() ==> s[i].0 != k,
    ensures
        lookup(s, k) is None,
    decreases s.len(),
{
    if s.len() > 0 {
        lemma_lookup_absent(s.drop_last(), k);
    }
}

/// A name has a value exactly when some entry holds it.
pub proof fn lemma_lookup_some<W>(s: Seq<(Seq<char>, W)>, k: Seq<char>)
    ensures
        lookup(s, k) is Some <==> exists|i: int| 0 <= i < s.len() && s[i].0 == k,
    decreases s.len(),
{
    if s.len() > 0 {
        lemma_lookup_some(s.drop_last(), k);
        if lookup(s, k) is Some && s.last().0 != k {
            let i = choose|i: int| 0 <= i < s.drop_last().len() && s.drop_last()[i].0 == k;
            assert(s[i].0 == k);
        }
        if exists|i: int| 0 <= i < s.len() && s[i].0 == k {
            let i = choose|i: int| 0 <= i < s.len() && s[i].0 == k;
            if s.last().0 != k {
                assert(s.drop_last()[i].0 == k);
            }
        }
    }
}

/// Setting a name keeps the names ordered.
pub proof fn lemma_sorted_insert_sorted<W>(s: Seq<(Seq<char>, W)>, k: Seq<char>, v: W)
    requires
        keys_sorted(s),
    ensures
        keys_sorted(sorted_insert(s, k, v)),
{
    lemma_insert_pos(s, k);
    let p = insert_pos(s, k);
    let t = sorted_insert(s, k, v);
    if 0 <= p < s.len() && s[p].0 == k {
        assert forall|i: int, j: int| 0 <= i < j < t.len() implies #[trigger] chars_lt(
            t[i].0,
            t[j].0,
        ) by {
            assert(t[i].0 == s[i].0 && t[j].0 == s[j].0);
        }
    } else {
        if p < s.len() {
            lemma_chars_lt_total(s[p].0, k);
        }
        assert forall|i: int, j: int| 0 <= i < j < t.len() implies #[trigger] chars_lt(
            t[i].0,
            t[j].0,
        ) by {
            if j < p {
                assert(t[i] == s[i] && t[j] == s[j]);
            } else if j == p {
                assert(t[i] == s[i]);
            } else if i == p {
                assert(t[j] == s[j - 1]);
                if j - 1 > p {
                    lemma_chars_lt_transitive(k, s[p].0, s[j - 1].0);
                }
            } else if i < p {
                assert(t[i] == s[i] && t[j] == s[j - 1]);
                lemma_chars_lt_transitive(s[i].0, k, s[p].0);
                if j - 1 > p {
                    lemma_chars_lt_transitive(s[i].0, s[p].0, s[j - 1].0);
                }
            } else {
                assert(t[i] == s[i - 1] && t[j] == s[j - 1]);
            }
        }
    }
}

/// After a name is set, it maps to the value it was set to, and every other
/// name keeps its value.
pub proof fn lemma_sorted_insert_lookup<W>(s: Seq<(Seq<char>, W)>, k: Seq<char>, v: W, other: Seq<char>)
    requires
        keys_sorted(s),
    ensures
        lookup(sorted_insert(s, k, v), k) == Some(v),
        other != k ==> lookup(sorted_insert(s, k, v), other) == lookup(s, other),
{
    lemma_insert_pos(s, k);
    lemma_sorted_insert_sorted(s, k, v);
    let p = insert_pos(s, k);
    let t = sorted_insert(s, k, v);
    assert(t[p] == (k, v));
    lemma_lookup_at(t, p);
    if other != k {
        lemma_lookup_some(s, other);
        lemma_lookup_some(t, other);
        if lookup(s, other) is Some {
            let i = choose|i: int| 0 <= i < s.len() && s[i].0 == other;
            lemma_lookup_at(s, i);
            if 0 <= p < s.len() && s[p].0 == k {
                assert(t[i] == s[i]);
                lemma_lookup_at(t, i);
            } else if i < p {
                assert(t[i] == s[i]);
                lemma_lookup_at(t, i);
            } else {
                assert(t[i + 1] == s[i]);
                lemma_lookup_at(t, i + 1);
            }
        } else {
            if lookup(t, other) is Some {
                let j = choose|j: int| 0 <= j < t.len() && t[j].0 == other;
                if 0 <= p < s.len() && s[p].0 == k {
                    assert(s[j].0 == other);
                } else if j < p {
                    assert(s[j].0 == other);
                } else {
                    assert(s[j - 1].0 == other);
                }
            }
        }
    }
}

/// Setting a name that is already present replaces its value in place.
pub proof fn lemma_sorted_insert_existing<W>(s: Seq<(Seq<char>, W)>, i: int, v: W)
    requires
        keys_sorted(s),
        0 <= i < s.len(),
    ensures
        insert_pos(s, s[i].0) == i,
        sorted_insert(s, s[i].0, v) == s.update(i, (s[i].0, v)),
{
    lemma_insert_pos(s, s[i].0);
    lemma_chars_lt_irreflexive(s[i].0);
    let p = insert_pos(s, s[i].0);
    if p < i {
        assert(chars_lt(s[p].0, s[i].0));
    }
}

/// A name after all present ones goes at the end.
pub proof fn lemma_sorted_insert_last<W>(s: Seq<(Seq<char>, W)>, k: Seq<char>, v: W)
    requires
        keys_sorted(s),
        forall|i: int| 0 <= i < s.len() ==> chars_lt(#[trigger] s[i].0, k),
    ensures
        sorted_insert(s, k, v) == s.push((k, v)),
{
    lemma_insert_pos(s, k);
    let p = insert_pos(s, k);
    if p < s.len() {
        assert(chars_lt(s[p].0, k));
    }
    assert(s.insert(s.len() as int, (k, v)) =~= s.push((k, v)));
}

/// Entries with each value mapped by `f`.
pub open spec fn map_entry_values<W, X>(s: Seq<(Seq<char>, W)>, f: spec_fn(W) -> X) -> Seq<(Seq<char>, X)> {
    s.map_values(|e: (Seq<char>, W)| (e.0, f(e.1)))
}

proof fn lemma_insert_pos_range<W>(s: Seq<(Seq<char>, W)>, k: Seq<char>)
    ensures
        0 <= insert_pos(s, k) <= s.len(),
    decreases s.len(),
{
    if s.len() > 0 {
        lemma_insert_pos_range(s.drop_last(), k);
    }
}

proof fn lemma_insert_pos_map<W, X>(s: Seq<(Seq<char>, W)>, k: Seq<char>, f: spec_fn(W) -> X)
    ensures
        insert_pos(map_entry_values(s, f), k) == insert_pos(s, k),
    decreases s.len(),
{
    if s.len() > 0 {
        assert(map_entry_values(s, f).drop_last() =~= map_entry_values(s.drop_last(), f));
        lemma_insert_pos_map(s.drop_last(), k, f);
    }
}

/// Mapping the values commutes with setting a name.
pub proof fn lemma_sorted_insert_map<W, X>(s: Seq<(Seq<char>, W)>, k: Seq<char>, v: W, f: spec_fn(W) -> X)
    ensures
        map_entry_values(sorted_insert(s, k, v), f) == sorted_insert(map_entry_values(s, f), k, f(v)),
{
    lemma_insert_pos_map(s, k, f);
    lemma_insert_pos_range(s, k);
    let p = insert_pos(s, k);
    if 0 <= p < s.len() && s[p].0 == k {
        assert(map_entry_values(sorted_insert(s, k, v), f) =~= map_entry_values(s, f).update(p, (k, f(v))));
    } else {
        if 0 <= p <= s.len() {
            assert(map_entry_values(sorted_insert(s, k, v), f) =~= map_entry_values(s, f).insert(p, (k, f(v))));
        }
    }
}

/// The elements of `v` in reverse order.
pub fn reversed<T>(v: Vec<T>) -> (r: Vec<T>)
    ensures
        r@ == v@.reverse(),
{
    let mut v = v;
    let ghost orig = v@;
    let mut r: Vec<T> = Vec::new();
    while v.len() > 0
        invariant
            v@.len() <= orig.len(),
            v@ == orig.subrange(0, v@.len() as int),
            r@ == orig.reverse().subrange(0, orig.len() - v@.len()),
        decreases v.len(),
    {
        let ghost n = v@.len();
        let ghost before = r@;
        let x = v.pop().unwrap();
        assert(x == orig[n - 1]);
        r.push(x);
        assert(r@ =~= orig.reverse().subrange(0, orig.len() - v@.len())) by {
            assert(before =~= orig.reverse().subrange(0, orig.len() - n));
            assert(orig.reverse()[orig.len() - n] == orig[n - 1]);
        }
        assert(v@ =~= orig.subrange(0, v@.len() as int));
    }
    assert(orig.reverse().subrange(0, orig.len() as int) == orig.reverse());
    r
}

/// Names mapped to values, kept in increasing order of the names.
pub struct NameMap<V: View> {
    entries: Vec<(String, V)>,
}

impl<V: View> View for NameMap<V> {
    type V = Seq<(Seq<char>, V::V)>;

    /// The entries, in increasing order of their names.
    closed spec fn view(&self) -> Seq<(Seq<char>, V::V)> {
        self.entries@.map_values(|e: (String, V)| (e.0@, e.1@))
    }
}

impl<V: View> NameMap<V> {
    #[verifier::type_invariant]
    closed spec fn ordered(self) -> bool {
        keys_sorted(self@)
    }

    /// The entry at `i` of the view is the view of the stored entry.
    pub closed spec fn stored(&self, i: int) -> &V {
        &self.entries@[i].1
    }

    pub fn new() -> (m: Self)
        ensures
            m@ == Seq::<(Seq<char>, V::V)>::empty(),
    {
        let m = NameMap { entries: Vec::new() };
        assert(m@ =~= Seq::<(Seq<char>, V::V)>::empty());
        m
    }

    /// The number of entries; the entries of every map are in increasing
    /// order of their names.
    pub fn len(&self) -> (n: usize)
        ensures
            n == self@.len(),
            keys_sorted(self@),
    {
        proof {
            use_type_invariant(self);
        }
        self.entries.len()
    }

    pub fn key_at(&self, i: usize) -> (k: &String)
        requires
            i < self@.len(),
        ensures
            k@ == self@[i as int].0,
    {
        &self.entries[i].0
    }

    pub fn value_at(&self, i: usize) -> (v: &V)
        requires
            i < self@.len(),
        ensures
            v@ == self@[i as int].1,
            v == self.stored(i as int),
    {
        &self.entries[i].1
    }

    /// The entries, in increasing order of their names.
    pub fn into_entries(self) -> (v: Vec<(String, V)>)
        ensures
            v@.map_values(|e: (String, V)| (e.0@, e.1@)) == self@,
            keys_sorted(self@),
    {
        proof {
            use_type_invariant(&self);
        }
        self.entries
    }

    /// Index of the entry for `key`, if there is one.
    pub fn index_of(&self, key: &str) -> (r: Option<usize>)
        ensures
            match r {
                Some(i) => i < self@.len() && self@[i as int].0 == key@,
                None => lookup(self@, key@) is None,
            },
    {
        proof {
            use_type_invariant(self);
            lemma_insert_pos(self@, key@);
        }
        let p = self.position(key);
        if p < self.entries.len() && str_eq(self.entries[p].0.as_str(), key) {
            Some(p)
        } else {
            proof {
                assert forall|i: int| 0 <= i < self@.len() implies self@[i].0 != key@ by {
                    if i < p {
                        lemma_chars_lt_irreflexive(key@);
                    } else if i > p {
                        lemma_chars_lt_total(self@[p as int].0, key@);
                        lemma_chars_lt_transitive(key@, self@[p as int].0, self@[i].0);
                        lemma_chars_lt_irreflexive(key@);
                    }
                }
                lemma_lookup_absent(self@, key@);
            }
            None
        }
    }

    /// Index of the first entry whose name is not before `key`.
    fn position(&self, key: &str) -> (p: usize)
        ensures
            p == insert_pos(self@, key@),
    {
        proof {
            use_type_invariant(self);
            lemma_insert_pos(self@, key@);
        }
        let mut p: usize = 0;
        while p < self.entries.len() && str_lt(self.entries[p].0.as_str(), key)
            invariant
                p <= self@.len(),
                self@.len() == self.entries@.len(),
                keys_sorted(self@),
                forall|i: int| 0 <= i < p ==> chars_lt(#[trigger] self@[i].0, key@),
            decreases self.entries.len() - p,
        {
            p += 1;
        }
        proof {
            let q = insert_pos(self@, key@);
            if p < q {
                assert(chars_lt(self@[p as int].0, key@));
            } else if q < p {
                assert(chars_lt(self@[q].0, key@));
            }
        }
        p
    }

    /// The value stored for `key` (`BTreeMap::get`).
    pub fn get(&self, key: &str) -> (r: Option<&V>)
        ensures
            match r {
                Some(v) => lookup(self@, key@) == Some(v@),
                None => lookup(self@, key@) is None,
            },
    {
        proof {
            use_type_invariant(self);
            lemma_insert_pos(self@, key@);
        }
        let p = self.position(key);
        if p < self.entries.len() && str_eq(self.entries[p].0.as_str(), key) {
            proof {
                lemma_lookup_at(self@, p as int);
            }
            Some(&self.entries[p].1)
        } else {
            proof {
                assert forall|i: int| 0 <= i < self@.len() implies self@[i].0 != key@ by {
                    if i < p {
                        lemma_chars_lt_irreflexive(key@);
                    } else if i > p {
                        lemma_chars_lt_total(self@[p as int].0, key@);
                        lemma_chars_lt_transitive(key@, self@[p as int].0, self@[i].0);
                        lemma_chars_lt_irreflexive(key@);
                    }
                }
                lemma_lookup_absent(self@, key@);
            }
            None
        }
    }

    /// Sets the value of `key` (`BTreeMap::insert`).
    pub fn insert(&mut self, key: String, value: V)
        ensures
            final(self)@ == sorted_insert(old(self)@, key@, value@),
    {
        proof {
            use_type_invariant(&*self);
            lemma_sorted_insert_sorted(self@, key@, value@);
            lemma_insert_pos(self@, key@);
        }
        let p = self.position(key.as_str());
        let ghost old_view = self@;
        let ghost kv = key@;
        let ghost vv = value@;
        let mut entries: Vec<(String, V)> = Vec::new();
        std::mem::swap(&mut entries, &mut self.entries);
        assert(entries@.map_values(|e: (String, V)| (e.0@, e.1@)) == old_view);
        if p < entries.len() && entries[p].0 == key {
            let mut slot = (key, value);
            std::mem::swap(&mut entries[p], &mut slot);
            assert(entries@.map_values(|e: (String, V)| (e.0@, e.1@)) =~= old_view.update(
                p as int,
                (kv, vv),
            ));
        } else {
            entries.insert(p, (key, value));
            assert(entries@.map_values(|e: (String, V)| (e.0@, e.1@)) =~= old_view.insert(
                p as int,
                (kv, vv),
            ));
        }
        assert(entries@.map_values(|e: (String, V)| (e.0@, e.1@)) =~= sorted_insert(old_view, kv, vv));
        self.entries = entries;
    }

    /// Replaces the value of the entry at `i`, keeping its name, and gives
    /// back the value it held.
    pub fn replace_value_at(&mut self, i: usize, value: V) -> (prev: V)
        requires
            i < old(self)@.len(),
        ensures
            final(self)@ == old(self)@.update(i as int, (old(self)@[i as int].0, value@)),
            prev@ == old(self)@[i as int].1,
    {
        proof {
            use_type_invariant(&*self);
        }
        let ghost old_view = self@;
        let ghost vv = value@;
        let mut entries: Vec<(String, V)> = Vec::new();
        std::mem::swap(&mut entries, &mut self.entries);
        assert(entries@.map_values(|e: (String, V)| (e.0@, e.1@)) == old_view);
        let mut v = value;
        std::mem::swap(&mut entries[i].1, &mut v);
        assert(entries@.map_values(|e: (String, V)| (e.0@, e.1@)) =~= old_view.update(
            i as int,
            (old_view[i as int].0, vv),
        ));
        self.entries = entries;
        assert(self@ =~= old_view.update(i as int, (old_view[i as int].0, vv)));
        v
    }
}

} // verus!
