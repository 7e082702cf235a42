//! Helpers on the standard hash maps and hash sets, keyed by identifiers.
use std::collections::{HashMap, HashSet};
use vstd::prelude::*;

verus! {

broadcast use vstd::std_specs::hash::group_hash_axioms;

/// The map whose values are the views of the values of `m`.
pub open spec fn view_map<K, V: View>(m: Map<K, V>) -> Map<K, V::V> {
    m.map_values(|v: V| v@)
}

/// Viewing commutes with insertion.
pub broadcast proof fn lemma_view_map_insert<K, V: View>(m: Map<K, V>, k: K, v: V)
    ensures
        #[trigger] view_map(m.insert(k, v)) == view_map(m).insert(k, v@),
{
    assert(view_map(m.insert(k, v)) =~= view_map(m).insert(k, v@));
}

/// Viewing commutes with removal.
pub broadcast proof fn lemma_view_map_remove<K, V: View>(m: Map<K, V>, k: K)
    ensures
        #[trigger] view_map(m.remove(k)) == view_map(m).remove(k),
{
    assert(view_map(m.remove(k)) =~= view_map(m).remove(k));
}

/// The view of an empty map is empty.
pub broadcast proof fn lemma_view_map_empty<K, V: View>()
    ensures
        #[trigger] view_map(Map::<K, V>::empty()) == Map::<K, V::V>::empty(),
{
    assert(view_map(Map::<K, V>::empty()) =~= Map::<K, V::V>::empty());
}

/// A map is empty exactly when its view is.
pub proof fn lemma_view_map_is_empty<K, V: View>(m: Map<K, V>)
    ensures
        view_map(m).is_empty() == m.is_empty(),
{
    assert(view_map(m).dom() =~= m.dom());
}

/// How viewing goes with the operations on maps.
pub broadcast group group_view_map {
    lemma_view_map_insert,
    lemma_view_map_remove,
    lemma_view_map_empty,
}

/// `s` lists every element of `set` once, and nothing else.
pub open spec fn lists<T>(s: Seq<T>, set: Set<T>) -> bool {
    &&& s.no_duplicates()
    &&& s.to_set() == set
}

/// The keys of a map, in the order in which the map is walked.
pub fn keys_of<V>(m: &HashMap<u64, V>) -> (keys: Vec<u64>)
    ensures
        lists(keys@, m@.dom()),
{
    let mut keys: Vec<u64> = Vec::new();
    for k in it: m.keys()
        invariant
            keys@ =~= it.seq().unref().take(it.index() as int),
            it.seq().unref().take(it.seq().len() as int) =~= it.seq().unref(),
            it.seq().unref().to_set() == m@.dom(),
            it.seq().no_duplicates(),
    {
        keys.push(*k);
    }
    keys
}

/// The elements of a set, in the order in which the set is walked.
pub fn elements_of(set: &HashSet<u64>) -> (elements: Vec<u64>)
    ensures
        lists(elements@, set@),
{
    let mut elements: Vec<u64> = Vec::new();
    for k in it: set.iter()
        invariant
            elements@ =~= it.seq().unref().take(it.index() as int),
            it.seq().unref().take(it.seq().len() as int) =~= it.seq().unref(),
            it.seq().unref().to_set() == set@,
            it.seq().no_duplicates(),
    {
        elements.push(*k);
    }
    elements
}

/// Adds every item of a list to a set.
pub fn insert_all(set: &mut HashSet<u64>, items: &Vec<u64>)
    ensures
        final(set)@ == old(set)@.union(items@.to_set()),
{
    let ghost before = set@;
    let mut i: usize = 0;
    while i < items.len()
        invariant
            i <= items.len(),
            set@ =~= before.union(items@.take(i as int).to_set()),
        decreases items.len() - i,
    {
        set.insert(items[i]);
        proof {
            assert(items@.take(i + 1) =~= items@.take(i as int).push(items@[i as int]));
            items@.take(i as int).lemma_push_to_set_commute(items@[i as int]);
        }
        i = i + 1;
    }
    assert(items@.take(items@.len() as int) =~= items@);
}

/// Removes every item of a list from a set.
pub fn remove_all(set: &mut HashSet<u64>, items: &Vec<u64>)
    ensures
        final(set)@ == old(set)@.difference(items@.to_set()),
{
    let ghost before = set@;
    let mut i: usize = 0;
    while i < items.len()
        invariant
            i <= items.len(),
            set@ =~= before.difference(items@.take(i as int).to_set()),
        decreases items.len() - i,
    {
        set.remove(&items[i]);
        proof {
            assert(items@.take(i + 1) =~= items@.take(i as int).push(items@[i as int]));
            items@.take(i as int).lemma_push_to_set_commute(items@[i as int]);
        }
        i = i + 1;
    }
    assert(items@.take(items@.len() as int) =~= items@);
}

/// A set with the same elements.
pub fn copy_set(set: &HashSet<u64>) -> (copy: HashSet<u64>)
    ensures
        copy@ == set@,
{
    let elements = elements_of(set);
    let mut copy: HashSet<u64> = HashSet::new();
    insert_all(&mut copy, &elements);
    assert(copy@ =~= set@);
    copy
}

/// A map with the same keys, whose values are clones.
pub fn copy_map<V: View + Clone>(m: &HashMap<u64, V>) -> (copy: HashMap<u64, V>)
    requires
        forall|v: V, c: V| #[trigger] cloned(v, c) ==> c@ == v@,
    ensures
        view_map(copy@) == view_map(m@),
{
    broadcast use group_view_map;

    let keys = keys_of(m);
    let mut copy: HashMap<u64, V> = HashMap::new();
    let mut i: usize = 0;
    while i < keys.len()
        invariant
            i <= keys.len(),
            lists(keys@, m@.dom()),
            forall|v: V, c: V| #[trigger] cloned(v, c) ==> c@ == v@,
            view_map(copy@) =~= view_map(m@).restrict(keys@.take(i as int).to_set()),
        decreases keys.len() - i,
    {
        let k = keys[i];
        proof {
            assert(keys@.to_set().contains(k));
            assert(keys@.take(i + 1) =~= keys@.take(i as int).push(k));
            keys@.take(i as int).lemma_push_to_set_commute(k);
        }
        let ghost before = copy@;
        match m.get(&k) {
            Some(v) => {
                let c = v.clone();
                assert(cloned(*v, c));
                copy.insert(k, c);
                assert(view_map(copy@) == view_map(before).insert(k, v@));
            },
            None => {
                assert(false);
            },
        }
        assert(view_map(m@)[k] == m@[k]@);
        i = i + 1;
    }
    assert(keys@.take(keys@.len() as int) =~= keys@);
    assert(view_map(m@).restrict(m@.dom()) =~= view_map(m@));
    copy
}

/// Removes the entries with the given keys.
pub fn remove_keys<V: View>(m: &mut HashMap<u64, V>, keys: &Vec<u64>)
    ensures
        view_map(final(m)@) == view_map(old(m)@).remove_keys(keys@.to_set()),
{
    broadcast use group_view_map;

    let ghost before = view_map(m@);
    let mut i: usize = 0;
    while i < keys.len()
        invariant
            i <= keys.len(),
            view_map(m@) =~= before.remove_keys(keys@.take(i as int).to_set()),
        decreases keys.len() - i,
    {
        let k = keys[i];
        proof {
            assert(keys@.take(i + 1) =~= keys@.take(i as int).push(k));
            keys@.take(i as int).lemma_push_to_set_commute(k);
        }
        let ghost now = m@;
        m.remove(&k);
        assert(view_map(m@) == view_map(now).remove(k));
        i = i + 1;
    }
    assert(keys@.take(keys@.len() as int) =~= keys@);
}

/// `pairs` holds every entry of `m` once, and nothing else.
pub open spec fn lists_entries<V>(pairs: Seq<(u64, V)>, m: Map<u64, V>) -> bool {
    &&& forall|i: int, j: int|
        #![trigger pairs[i], pairs[j]]
        0 <= i < j < pairs.len() ==> pairs[i].0 != pairs[j].0
    &&& forall|i: int|
        #![trigger pairs[i]]
        0 <= i < pairs.len() ==> m.contains_key(pairs[i].0) && m[pairs[i].0] == pairs[i].1
    &&& forall|k: u64|
        #[trigger] m.contains_key(k) ==> exists|i: int|
            0 <= i < pairs.len() && (#[trigger] pairs[i]).0 == k
}

/// The entries of a map, in the order in which the map is walked.
pub fn into_entries<V>(m: HashMap<u64, V>) -> (pairs: Vec<(u64, V)>)
    ensures
        lists_entries(pairs@, m@),
{
    let keys = keys_of(&m);
    let ghost all = m@;
    let mut rest = m;
    let mut pairs: Vec<(u64, V)> = Vec::new();
    let mut i: usize = 0;
    while i < keys.len()
        invariant
            i <= keys.len(),
            lists(keys@, all.dom()),
            pairs.len() == i,
            rest@ =~= all.remove_keys(keys@.take(i as int).to_set()),
            forall|j: int|
                #![trigger pairs@[j]]
                0 <= j < i ==> pairs@[j].0 == keys@[j] && pairs@[j].1 == all[keys@[j]],
        decreases keys.len() - i,
    {
        let k = keys[i];
        proof {
            assert(keys@.to_set().contains(k));
            assert(keys@.take(i + 1) =~= keys@.take(i as int).push(k));
            keys@.take(i as int).lemma_push_to_set_commute(k);
            assert(!keys@.take(i as int).contains(k));
        }
        match rest.remove(&k) {
            Some(v) => {
                pairs.push((k, v));
            },
            None => {
                assert(false);
            },
        }
        i = i + 1;
    }
    proof {
        assert forall|i: int|
            #![trigger pairs@[i]]
            0 <= i < pairs@.len() implies all.contains_key(pairs@[i].0) by {
            assert(keys@.to_set().contains(keys@[i]));
        }
        assert forall|k: u64| #[trigger] all.contains_key(k) implies exists|i: int|
            0 <= i < pairs@.len() && (#[trigger] pairs@[i]).0 == k by {
            assert(keys@.to_set().contains(k));
            let i = choose|i: int| 0 <= i < keys@.len() && keys@[i] == k;
            assert(pairs@[i].0 == k);
        }
    }
    pairs
}

} // verus!
