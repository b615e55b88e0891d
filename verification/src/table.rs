//! A key-unique table from account identities to values.

use crate::listing::{lemma_lists_len, lemma_lists_one_map, lemma_lists_push, lists};
use crate::pubkey::{lemma_words_injective, words, Pubkey};
use std::collections::BTreeMap;
use vstd::prelude::*;
use vstd::std_specs::cmp::PartialEqSpecImpl;

verus! {

/// A value that can be copied and compared as contracts see it.
pub trait Value: View + Sized {
    /// A copy of the value.
    fn duplicate(&self) -> (copy: Self)
        ensures
            copy@ == self@,
    ;

    /// Whether the two values are the same.
    fn same(&self, other: &Self) -> (r: bool)
        ensures
            r == (self@ == other@),
    ;
}

/// Whether no key occurs twice in `s`.
spec fn distinct<V>(s: Seq<(Pubkey, V)>) -> bool {
    forall|i: int, j: int| 0 <= i < j < s.len() ==> (#[trigger] s[i]).0 != (#[trigger] s[j]).0
}

/// Whether some entry of `s` has the key `k`.
spec fn holds<V>(s: Seq<(Pubkey, V)>, k: Pubkey) -> bool {
    exists|i: int| 0 <= i < s.len() && (#[trigger] s[i]).0 == k
}

/// The index of an entry of `s` with the key `k`, where there is one.
spec fn place<V>(s: Seq<(Pubkey, V)>, k: Pubkey) -> int {
    choose|i: int| 0 <= i < s.len() && (#[trigger] s[i]).0 == k
}

/// The mapping that the entries of `s` stand for.
spec fn as_map<V: View>(s: Seq<(Pubkey, V)>) -> Map<Pubkey, V::V> {
    Map::new(|k: Pubkey| holds(s, k), |k: Pubkey| s[place(s, k)].1@)
}

/// With distinct keys, the entry at `i` is the one that the mapping holds for its key.
proof fn lemma_entry<V: View>(s: Seq<(Pubkey, V)>, i: int)
    requires
        distinct(s),
        0 <= i < s.len(),
    ensures
        holds(s, s[i].0),
        as_map(s).contains_key(s[i].0),
        as_map(s)[s[i].0] == s[i].1@,
{
    let k = s[i].0;
    let p = place(s, k);
    assert(0 <= p < s.len() && s[p].0 == k);
    if p < i {
        assert(s[p].0 != s[i].0);
    } else if i < p {
        assert(s[i].0 != s[p].0);
    }
}

/// Every key of the mapping is the key of some entry.
proof fn lemma_key<V: View>(s: Seq<(Pubkey, V)>, k: Pubkey) -> (i: int)
    requires
        as_map(s).contains_key(k),
    ensures
        0 <= i < s.len(),
        s[i].0 == k,
{
    place(s, k)
}

/// A new key at the end adds one entry to the mapping.
proof fn lemma_push<V: View>(s: Seq<(Pubkey, V)>, key: Pubkey, value: V)
    requires
        distinct(s),
        !holds(s, key),
    ensures
        distinct(s.push((key, value))),
        as_map(s.push((key, value))) == as_map(s).insert(key, value@),
{
    let t = s.push((key, value));
    assert forall|i: int, j: int| 0 <= i < j < t.len() implies (#[trigger] t[i]).0 != (
    #[trigger] t[j]).0 by {
        if j < s.len() {
            assert(s[i].0 != s[j].0);
        } else {
            assert(s[i].0 != key);
        }
    }
    let m = as_map(s).insert(key, value@);
    assert forall|k: Pubkey| as_map(t).contains_key(k) implies #[trigger] m.contains_key(k)
        && m[k] == as_map(t)[k] by {
        let i = lemma_key(t, k);
        lemma_entry(t, i);
        if i < s.len() {
            assert(s[i] == t[i]);
            lemma_entry(s, i);
        }
    }
    assert forall|k: Pubkey| m.contains_key(k) implies #[trigger] as_map(t).contains_key(k) by {
        if k == key {
            assert(t[s.len() as int].0 == key);
        } else {
            let i = lemma_key(s, k);
            assert(t[i].0 == k);
        }
    }
    assert(as_map(t) =~= m);
}

/// Moving the last entry into the place of the entry at `i` takes that entry's key out of
/// the mapping.
proof fn lemma_swap_remove<V: View>(s: Seq<(Pubkey, V)>, i: int)
    requires
        distinct(s),
        0 <= i < s.len(),
    ensures
        distinct(s.update(i, s.last()).drop_last()),
        !holds(s.update(i, s.last()).drop_last(), s[i].0),
        as_map(s.update(i, s.last()).drop_last()) == as_map(s).remove(s[i].0),
{
    let t = s.update(i, s.last()).drop_last();
    let last = s.len() - 1;
    // Each entry of `t` is an entry of `s` other than the one at `i`.
    let from = |j: int| if j == i { last } else { j };
    assert forall|j: int| 0 <= j < t.len() implies #[trigger] t[j] == s[from(j)] && from(j) != i
        && 0 <= from(j) < s.len() by {}
    assert forall|a: int, b: int| 0 <= a < b < t.len() implies (#[trigger] t[a]).0 != (
    #[trigger] t[b]).0 by {
        assert(t[a] == s[from(a)] && t[b] == s[from(b)]);
        if from(a) < from(b) {
            assert(s[from(a)].0 != s[from(b)].0);
        } else {
            assert(s[from(b)].0 != s[from(a)].0);
        }
    }
    assert forall|j: int| 0 <= j < t.len() implies (#[trigger] t[j]).0 != s[i].0 by {
        assert(t[j] == s[from(j)]);
        if from(j) < i {
            assert(s[from(j)].0 != s[i].0);
        } else {
            assert(s[i].0 != s[from(j)].0);
        }
    }
    let m = as_map(s).remove(s[i].0);
    assert forall|k: Pubkey| as_map(t).contains_key(k) implies #[trigger] m.contains_key(k)
        && m[k] == as_map(t)[k] by {
        let j = lemma_key(t, k);
        lemma_entry(t, j);
        assert(t[j] == s[from(j)]);
        lemma_entry(s, from(j));
    }
    assert forall|k: Pubkey| m.contains_key(k) implies #[trigger] as_map(t).contains_key(k) by {
        let j = lemma_key(s, k);
        if j == last {
            assert(t[i].0 == k);
        } else {
            assert(t[j].0 == k);
        }
    }
    assert(as_map(t) =~= m);
}

/// Whether `index` holds, for the words of each key of `s`, the place of its entry, and
/// nothing else.
spec fn indexed<V>(s: Seq<(Pubkey, V)>, index: Map<(u128, u128), usize>) -> bool {
    &&& forall|i: int|
        0 <= i < s.len() ==> index.contains_key(words((#[trigger] s[i]).0)) && index[words(
            s[i].0,
        )] == i
    &&& forall|w: (u128, u128)| #[trigger]
        index.contains_key(w) ==> index[w] < s.len() && words(s[index[w] as int].0) == w
}

/// Entries with an index have distinct keys.
proof fn lemma_indexed_distinct<V>(s: Seq<(Pubkey, V)>, index: Map<(u128, u128), usize>)
    requires
        indexed(s, index),
    ensures
        distinct(s),
{
    assert forall|i: int, j: int| 0 <= i < j < s.len() implies (#[trigger] s[i]).0 != (
    #[trigger] s[j]).0 by {
        assert(index[words(s[i].0)] == i);
        assert(index[words(s[j].0)] == j);
    }
}

/// The index finds the entry of a key where there is one.
proof fn lemma_indexed_find<V>(s: Seq<(Pubkey, V)>, index: Map<(u128, u128), usize>, key: Pubkey)
    requires
        indexed(s, index),
    ensures
        index.contains_key(words(key)) <==> holds(s, key),
        index.contains_key(words(key)) ==> index[words(key)] < s.len() && s[index[words(
            key,
        )] as int].0 == key,
{
    if index.contains_key(words(key)) {
        let i = index[words(key)] as int;
        lemma_words_injective(s[i].0, key);
    }
    if holds(s, key) {
        let i = place(s, key);
        assert(index.contains_key(words(s[i].0)));
    }
}

/// The index after a new key has joined the entries at the end.
proof fn lemma_indexed_push<V>(
    s: Seq<(Pubkey, V)>,
    index: Map<(u128, u128), usize>,
    key: Pubkey,
    value: V,
)
    requires
        indexed(s, index),
        !holds(s, key),
        s.len() <= usize::MAX,
    ensures
        indexed(s.push((key, value)), index.insert(words(key), s.len() as usize)),
{
    let t = s.push((key, value));
    let index2 = index.insert(words(key), s.len() as usize);
    lemma_indexed_find(s, index, key);
    assert forall|i: int| 0 <= i < t.len() implies index2.contains_key(words((#[trigger] t[i]).0))
        && index2[words(t[i].0)] == i by {
        if i < s.len() {
            assert(t[i] == s[i]);
            assert(index.contains_key(words(s[i].0)));
        }
    }
    assert forall|w: (u128, u128)| #[trigger] index2.contains_key(w) implies index2[w] < t.len()
        && words(t[index2[w] as int].0) == w by {
        if w != words(key) {
            assert(index.contains_key(w));
            assert(t[index[w] as int] == s[index[w] as int]);
        }
    }
}

/// The index after the last entry has moved into the place of the entry at `i`.
proof fn lemma_indexed_swap_remove<V>(s: Seq<(Pubkey, V)>, index: Map<(u128, u128), usize>, i: int)
    requires
        indexed(s, index),
        0 <= i < s.len(),
    ensures
        i < s.len() - 1 ==> indexed(
            s.update(i, s.last()).drop_last(),
            index.remove(words(s[i].0)).insert(words(s.last().0), i as usize),
        ),
        i == s.len() - 1 ==> indexed(
            s.update(i, s.last()).drop_last(),
            index.remove(words(s[i].0)),
        ),
{
    let t = s.update(i, s.last()).drop_last();
    let last = s.len() - 1;
    let removed = index.remove(words(s[i].0));
    let index2 = if i < last {
        removed.insert(words(s.last().0), i as usize)
    } else {
        removed
    };
    lemma_indexed_distinct(s, index);
    assert forall|j: int| 0 <= j < t.len() implies index2.contains_key(words((#[trigger] t[j]).0))
        && index2[words(t[j].0)] == j by {
        if j != i {
            assert(t[j] == s[j]);
            assert(index.contains_key(words(s[j].0)) && index[words(s[j].0)] == j);
            assert(index[words(s[i].0)] == i);
            assert(index[words(s[last].0)] == last);
        }
    }
    assert forall|w: (u128, u128)| #[trigger] index2.contains_key(w) implies index2[w] < t.len()
        && words(t[index2[w] as int].0) == w by {
        if i < last && w == words(s[last].0) {
        } else {
            assert(index.contains_key(w));
            let j = index[w] as int;
            assert(index[words(s[i].0)] == i);
            assert(index[words(s[last].0)] == last);
            assert(j != i && j != last);
            assert(t[j] == s[j]);
        }
    }
}

/// A mapping from identities to values in which each identity occurs at most once.
#[derive(Debug)]
pub struct Table<V> {
    /// The entries, in no particular order.
    entries: Vec<(Pubkey, V)>,
    /// For the words of each key, the place of its entry.
    index: BTreeMap<(u128, u128), usize>,
}

impl<V: View> View for Table<V> {
    type V = Map<Pubkey, V::V>;

    closed spec fn view(&self) -> Map<Pubkey, V::V> {
        as_map(self.entries@)
    }
}

impl<V> Table<V> {
    #[verifier::type_invariant]
    spec fn keys_indexed(&self) -> bool {
        indexed(self.entries@, self.index@)
    }
}

impl<V: View> Table<V> {
    /// The entries in the order in which `key_at` and `value_at` hand them out.
    pub closed spec fn listing(&self) -> Seq<(Pubkey, V::V)> {
        Seq::new(self.entries@.len(), |i: int| (self.entries@[i].0, self.entries@[i].1@))
    }

    /// With distinct keys, the listing names every key of the view exactly once.
    proof fn lemma_lists(&self)
        requires
            distinct(self.entries@),
        ensures
            lists(self.listing(), self@),
    {
        let s = self.entries@;
        let l = self.listing();
        assert forall|i: int, j: int| 0 <= i < j < l.len() implies (#[trigger] l[i]).0 != (
        #[trigger] l[j]).0 by {
            assert(s[i].0 != s[j].0);
        }
        assert forall|i: int| 0 <= i < l.len() implies self@.contains_key((#[trigger] l[i]).0)
            && self@[l[i].0] == l[i].1 by {
            lemma_entry(s, i);
        }
        assert forall|k: Pubkey| self@.contains_key(k) implies exists|i: int|
            0 <= i < l.len() && (#[trigger] l[i]).0 == k by {
            let p = lemma_key(s, k);
            assert(l[p].0 == k);
        }
    }

    /// The empty table.
    pub fn new() -> (table: Self)
        ensures
            table@ == Map::<Pubkey, V::V>::empty(),
            table.listing() == Seq::<(Pubkey, V::V)>::empty(),
    {
        let table = Table { entries: Vec::new(), index: BTreeMap::new() };
        assert(table@ =~= Map::<Pubkey, V::V>::empty());
        assert(table.listing() =~= Seq::<(Pubkey, V::V)>::empty());
        table
    }

    /// The number of entries.
    pub fn len(&self) -> (n: usize)
        ensures
            self@.dom().finite(),
            n == self@.dom().len(),
            n == self.listing().len(),
            lists(self.listing(), self@),
    {
        proof {
            use_type_invariant(self);
            lemma_indexed_distinct(self.entries@, self.index@);
            self.lemma_lists();
            lemma_lists_len(self.listing(), self@);
        }
        self.entries.len()
    }

    /// The key of the entry at `i`.
    pub fn key_at(&self, i: usize) -> (key: &Pubkey)
        requires
            i < self.listing().len(),
        ensures
            *key == self.listing()[i as int].0,
    {
        &self.entries[i].0
    }

    /// The value of the entry at `i`.
    pub fn value_at(&self, i: usize) -> (value: &V)
        requires
            i < self.listing().len(),
        ensures
            value@ == self.listing()[i as int].1,
    {
        &self.entries[i].1
    }

    /// The place of the entry with the key `key`, where there is one.
    fn position(&self, key: &Pubkey) -> (r: Option<usize>)
        ensures
            match r {
                Some(i) => i < self.entries@.len() && self.entries@[i as int].0 == *key,
                None => !holds(self.entries@, *key),
            },
    {
        proof {
            use_type_invariant(self);
            lemma_indexed_find(self.entries@, self.index@, *key);
        }
        match self.index.get(&key.words()) {
            Some(i) => Some(*i),
            None => None,
        }
    }

    /// Whether the table has an entry for `key`.
    pub fn contains_key(&self, key: &Pubkey) -> (r: bool)
        ensures
            r == self@.contains_key(*key),
    {
        match self.position(key) {
            Some(_) => true,
            None => false,
        }
    }

    /// The value that the table holds for `key`, where it holds one.
    pub fn get(&self, key: &Pubkey) -> (r: Option<&V>)
        ensures
            match r {
                Some(value) => self@.contains_key(*key) && value@ == self@[*key],
                None => !self@.contains_key(*key),
            },
    {
        match self.position(key) {
            Some(i) => {
                proof {
                    use_type_invariant(self);
                    lemma_indexed_distinct(self.entries@, self.index@);
                    lemma_entry(self.entries@, i as int);
                }
                Some(&self.entries[i].1)
            },
            None => None,
        }
    }

    /// Takes the entry for `key` out of the table and hands back its value.
    pub fn remove(&mut self, key: &Pubkey) -> (removed: Option<V>)
        ensures
            final(self)@ == old(self)@.remove(*key),
            match removed {
                Some(value) => old(self)@.contains_key(*key) && value@ == old(self)@[*key],
                None => !old(self)@.contains_key(*key),
            },
    {
        proof {
            use_type_invariant(&*self);
        }
        match self.position(key) {
            Some(i) => {
                let mut taken: Table<V> = Table::new();
                std::mem::swap(self, &mut taken);
                let Table { mut entries, mut index } = taken;
                proof {
                    lemma_indexed_distinct(entries@, index@);
                    lemma_entry(entries@, i as int);
                    lemma_swap_remove(entries@, i as int);
                    lemma_indexed_swap_remove(entries@, index@, i as int);
                }
                let (_, value) = entries.swap_remove(i);
                index.remove(&key.words());
                if i < entries.len() {
                    index.insert(entries[i].0.words(), i);
                }
                *self = Table { entries, index };
                Some(value)
            },
            None => {
                assert(self@ =~= self@.remove(*key));
                None
            },
        }
    }

    /// Adds an entry for a key that the table does not hold, as its last entry.
    pub fn insert_new(&mut self, key: Pubkey, value: V)
        requires
            !old(self)@.contains_key(key),
        ensures
            final(self)@ == old(self)@.insert(key, value@),
            final(self).listing() == old(self).listing().push((key, value@)),
    {
        proof {
            use_type_invariant(&*self);
        }
        let mut taken: Table<V> = Table::new();
        std::mem::swap(self, &mut taken);
        let Table { mut entries, mut index } = taken;
        let n = entries.len();
        proof {
            lemma_indexed_distinct(entries@, index@);
            lemma_push(entries@, key, value);
            lemma_indexed_push(entries@, index@, key, value);
        }
        index.insert(key.words(), n);
        entries.push((key, value));
        *self = Table { entries, index };
        assert(final(self).listing() =~= old(self).listing().push((key, value@)));
    }

    /// Sets the value for `key` and hands back the value that it replaces.
    pub fn insert(&mut self, key: Pubkey, value: V) -> (replaced: Option<V>)
        ensures
            final(self)@ == old(self)@.insert(key, value@),
            match replaced {
                Some(v) => old(self)@.contains_key(key) && v@ == old(self)@[key],
                None => !old(self)@.contains_key(key),
            },
    {
        let replaced = self.remove(&key);
        self.insert_new(key, value);
        assert(old(self)@.remove(key).insert(key, value@) =~= old(self)@.insert(key, value@));
        replaced
    }
}

impl<V: Value> Clone for Table<V> {
    fn clone(&self) -> (copy: Self)
        ensures
            copy@ == self@,
            copy.listing() == self.listing(),
    {
        let n = self.len();
        let mut copy: Table<V> = Table::new();
        let mut i: usize = 0;
        assert(self.listing().take(0) =~= copy.listing());
        while i < n
            invariant
                i <= n,
                n == self.listing().len(),
                lists(self.listing(), self@),
                copy.listing() == self.listing().take(i as int),
                lists(copy.listing(), copy@),
            decreases n - i,
        {
            let key = *self.key_at(i);
            let value = self.value_at(i).duplicate();
            proof {
                if copy@.contains_key(key) {
                    let j = choose|j: int|
                        0 <= j < copy.listing().len() && (#[trigger] copy.listing()[j]).0 == key;
                    assert(self.listing()[j].0 != self.listing()[i as int].0);
                }
                lemma_lists_push(copy.listing(), copy@, key, value@);
                assert(self.listing().take(i as int).push(self.listing()[i as int])
                    =~= self.listing().take(i + 1));
            }
            copy.insert_new(key, value);
            i += 1;
        }
        proof {
            assert(self.listing().take(n as int) =~= self.listing());
            lemma_lists_one_map(self.listing(), copy@, self@);
        }
        copy
    }
}

impl<V: Value> PartialEq for Table<V> {
    /// Whether the two tables hold the same values for the same keys.
    fn eq(&self, other: &Table<V>) -> (r: bool) {
        let n = self.len();
        if n != other.len() {
            return false;
        }
        let mut i: usize = 0;
        while i < n
            invariant
                i <= n,
                n == self.listing().len(),
                lists(self.listing(), self@),
                forall|j: int|
                    0 <= j < i ==> other@.contains_key((#[trigger] self.listing()[j]).0)
                        && other@[self.listing()[j].0] == self.listing()[j].1,
            decreases n - i,
        {
            match other.get(self.key_at(i)) {
                Some(value) => {
                    if !value.same(self.value_at(i)) {
                        assert(self@[self.listing()[i as int].0] != other@[self.listing()[i as int].0]);
                        return false;
                    }
                },
                None => {
                    assert(self@.contains_key(self.listing()[i as int].0));
                    return false;
                },
            }
            i += 1;
        }
        proof {
            assert forall|k: Pubkey| self@.contains_key(k) implies other@.contains_key(k)
                && other@[k] == self@[k] by {
                let j = choose|j: int|
                    0 <= j < self.listing().len() && (#[trigger] self.listing()[j]).0 == k;
                assert(other@.contains_key(self.listing()[j].0));
            }
            assert(self@.dom().subset_of(other@.dom()));
            vstd::set_lib::lemma_subset_equality(self@.dom(), other@.dom());
            assert(self@ =~= other@);
        }
        true
    }
}

impl<V: Value> PartialEqSpecImpl for Table<V> {
    open spec fn obeys_eq_spec() -> bool {
        true
    }

    open spec fn eq_spec(&self, other: &Table<V>) -> bool {
        self@ == other@
    }
}

} // verus!
