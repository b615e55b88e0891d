//! Listings: sequences of entries that name each key of a map once.

use crate::pubkey::Pubkey;
use vstd::prelude::*;

verus! {

/// Whether `entries` names every key of `m` exactly once, each with its value.
pub open spec fn lists<T>(entries: Seq<(Pubkey, T)>, m: Map<Pubkey, T>) -> bool {
    &&& forall|i: int, j: int|
        0 <= i < j < entries.len() ==> (#[trigger] entries[i]).0 != (#[trigger] entries[j]).0
    &&& forall|i: int|
        0 <= i < entries.len() ==> m.contains_key((#[trigger] entries[i]).0) && m[entries[i].0]
            == entries[i].1
    &&& forall|k: Pubkey|
        m.contains_key(k) ==> exists|i: int| 0 <= i < entries.len() && (#[trigger] entries[i]).0 == k
}

/// A listing without its last entry lists the map without that entry's key.
pub proof fn lemma_lists_drop_last<T>(entries: Seq<(Pubkey, T)>, m: Map<Pubkey, T>)
    requires
        lists(entries, m),
        entries.len() > 0,
    ensures
        lists(entries.drop_last(), m.remove(entries.last().0)),
        m.contains_key(entries.last().0),
        m[entries.last().0] == entries.last().1,
{
    let rest = entries.drop_last();
    let fewer = m.remove(entries.last().0);
    assert forall|i: int| 0 <= i < rest.len() implies fewer.contains_key((#[trigger] rest[i]).0)
        && fewer[rest[i].0] == rest[i].1 by {
        assert(rest[i] == entries[i]);
        assert(entries[i].0 != entries[entries.len() - 1].0);
    }
    assert forall|k: Pubkey| fewer.contains_key(k) implies exists|i: int|
        0 <= i < rest.len() && (#[trigger] rest[i]).0 == k by {
        let i = choose|i: int| 0 <= i < entries.len() && (#[trigger] entries[i]).0 == k;
        assert(rest[i] == entries[i]);
    }
    assert forall|i: int, j: int| 0 <= i < j < rest.len() implies (#[trigger] rest[i]).0 != (
    #[trigger] rest[j]).0 by {
        assert(rest[i] == entries[i] && rest[j] == entries[j]);
    }
}

/// A listing with one more entry, for a new key, lists the map with that entry.
pub proof fn lemma_lists_push<T>(entries: Seq<(Pubkey, T)>, m: Map<Pubkey, T>, key: Pubkey, value: T)
    requires
        lists(entries, m),
        !m.contains_key(key),
    ensures
        lists(entries.push((key, value)), m.insert(key, value)),
{
    let more = entries.push((key, value));
    let larger = m.insert(key, value);
    assert forall|i: int, j: int| 0 <= i < j < more.len() implies (#[trigger] more[i]).0 != (
    #[trigger] more[j]).0 by {
        assert(more[i] == entries[i]);
        if j < entries.len() {
            assert(more[j] == entries[j]);
        }
    }
    assert forall|i: int| 0 <= i < more.len() implies larger.contains_key((#[trigger] more[i]).0)
        && larger[more[i].0] == more[i].1 by {
        if i < entries.len() {
            assert(more[i] == entries[i]);
        }
    }
    assert forall|k: Pubkey| larger.contains_key(k) implies exists|i: int|
        0 <= i < more.len() && (#[trigger] more[i]).0 == k by {
        if k == key {
            assert(more[entries.len() as int].0 == k);
        } else {
            let i = choose|i: int| 0 <= i < entries.len() && (#[trigger] entries[i]).0 == k;
            assert(more[i] == entries[i]);
        }
    }
}

/// A map has as many keys as a listing of it has entries.
pub proof fn lemma_lists_len<T>(entries: Seq<(Pubkey, T)>, m: Map<Pubkey, T>)
    requires
        lists(entries, m),
    ensures
        m.dom().finite(),
        m.dom().len() == entries.len(),
    decreases entries.len(),
{
    if entries.len() == 0 {
        assert(m.dom() =~= Set::empty());
    } else {
        let key = entries.last().0;
        lemma_lists_drop_last(entries, m);
        lemma_lists_len(entries.drop_last(), m.remove(key));
        assert(m.dom() =~= m.remove(key).dom().insert(key));
    }
}

/// Two maps with one listing are the same map.
pub proof fn lemma_lists_one_map<T>(entries: Seq<(Pubkey, T)>, m1: Map<Pubkey, T>, m2: Map<Pubkey, T>)
    requires
        lists(entries, m1),
        lists(entries, m2),
    ensures
        m1 == m2,
{
    assert forall|k: Pubkey| m1.contains_key(k) implies m2.contains_key(k) && m1[k] == m2[k] by {
        let i = choose|i: int| 0 <= i < entries.len() && (#[trigger] entries[i]).0 == k;
        assert(m2.contains_key(entries[i].0));
    }
    assert forall|k: Pubkey| m2.contains_key(k) implies m1.contains_key(k) by {
        let i = choose|i: int| 0 <= i < entries.len() && (#[trigger] entries[i]).0 == k;
        assert(m1.contains_key(entries[i].0));
    }
    assert(m1 =~= m2);
}

} // verus!
