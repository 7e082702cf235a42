//! What is asked of the adapters.
use std::sync::Arc;
use vstd::prelude::*;

use crate::adapter::Taxonomy;
use crate::model::Registry;
use crate::routing::{is_split, lemma_share_nonempty, share};
use crate::types::{AdapterId, Exactly, GetterId, SetterId};

verus! {

/// A share holds what work there is for the adapter, and nothing else.
proof fn lemma_share_members<T>(work: Seq<(AdapterId, T)>, adapter: AdapterId, item: T)
    ensures
        share(work, adapter).contains(item) <==> work.contains((adapter, item)),
    decreases work.len(),
{
    if work.len() > 0 {
        let rest = work.drop_last();
        lemma_share_members(rest, adapter, item);
        if work.contains((adapter, item)) {
            let w = choose|w: int| 0 <= w < work.len() && work[w] == (adapter, item);
            if w < rest.len() {
                assert(rest[w] == (adapter, item));
                assert(rest.contains((adapter, item)));
                let i = choose|i: int|
                    0 <= i < share(rest, adapter).len() && share(rest, adapter)[i] == item;
                assert(share(work, adapter)[i] == item);
            } else {
                let s = share(work, adapter);
                assert(s[s.len() - 1] == item);
            }
        }
        if share(work, adapter).contains(item) {
            let s = share(work, adapter);
            let i = choose|i: int| 0 <= i < s.len() && s[i] == item;
            if i < share(rest, adapter).len() {
                assert(share(rest, adapter)[i] == item);
                let w = choose|w: int| 0 <= w < rest.len() && rest[w] == (adapter, item);
                assert(work[w] == (adapter, item));
            } else {
                assert(work[work.len() - 1] == (adapter, item));
            }
        }
    }
}

/// A share of work without repetition is without repetition.
proof fn lemma_share_no_duplicates<T>(work: Seq<(AdapterId, T)>, adapter: AdapterId)
    requires
        work.no_duplicates(),
    ensures
        share(work, adapter).no_duplicates(),
    decreases work.len(),
{
    if work.len() > 0 {
        let rest = work.drop_last();
        lemma_share_no_duplicates(rest, adapter);
        if work.last().0 == adapter {
            lemma_share_members(rest, adapter, work.last().1);
            assert(!rest.contains(work.last())) by {
                if rest.contains(work.last()) {
                    let w = choose|w: int| 0 <= w < rest.len() && rest[w] == work.last();
                    assert(work[w] == work[work.len() - 1]);
                }
            }
            assert(!share(rest, adapter).contains(work.last().1));
        }
    }
}

/// Batches hold all the work and nothing else, each item with the adapter it is for.
proof fn lemma_split_members<T>(
    work: Seq<(AdapterId, T)>,
    batches: Seq<(AdapterId, Vec<T>)>,
    adapter: AdapterId,
    item: T,
)
    requires
        is_split(work, batches),
    ensures
        work.contains((adapter, item)) <==> exists|i: int|
            0 <= i < batches.len() && (#[trigger] batches[i]).0 == adapter
                && batches[i].1@.contains(item),
{
    lemma_share_members(work, adapter, item);
    if work.contains((adapter, item)) {
        let w = choose|w: int| 0 <= w < work.len() && work[w] == (adapter, item);
        lemma_share_nonempty(work, w);
        let i = choose|i: int| 0 <= i < batches.len() && (#[trigger] batches[i]).0 == adapter;
        assert(batches[i].1@ == share(work, adapter));
    }
    if exists|i: int|
        0 <= i < batches.len() && (#[trigger] batches[i]).0 == adapter && batches[i].1@.contains(
            item,
        ) {
        let i = choose|i: int|
            0 <= i < batches.len() && (#[trigger] batches[i]).0 == adapter
                && batches[i].1@.contains(item);
        assert(batches[i].1@ == share(work, adapter));
    }
}

/// Each getter that was chosen is asked for once, of the adapter in charge of it, which is
/// registered; nothing else is asked for, and no adapter is asked twice.
pub proof fn law_each_getter_is_fetched_once<X: Taxonomy, A>(
    registry: Registry<X, A>,
    selectors: Seq<X::GetterSelector>,
    walk: Seq<GetterId>,
    requests: Seq<(AdapterId, Vec<GetterId>)>,
)
    requires
        registry.consistent(),
        registry.getters_chosen(selectors, walk),
        is_split(registry.fetch_work(walk), requests),
    ensures
        forall|i: int, j: int|
            #![trigger requests[i], requests[j]]
            0 <= i < j < requests.len() ==> requests[i].0 != requests[j].0,
        forall|i: int|
            #![trigger requests[i]]
            0 <= i < requests.len() ==> {
                &&& registry.adapters.contains_key(requests[i].0)
                &&& requests[i].1@.no_duplicates()
            },
        forall|i: int, g: GetterId|
            0 <= i < requests.len() && #[trigger] requests[i].1@.contains(g) ==> {
                &&& walk.contains(g)
                &&& registry.getters[g].channel.adapter == requests[i].0
            },
        forall|g: GetterId| #[trigger]
            walk.contains(g) ==> exists|i: int|
                0 <= i < requests.len() && (#[trigger] requests[i]).0
                    == registry.getters[g].channel.adapter && requests[i].1@.contains(g),
{
    let work = registry.fetch_work(walk);
    assert(work.no_duplicates());
    assert forall|i: int, g: GetterId|
        0 <= i < requests.len() && #[trigger] requests[i].1@.contains(g) implies walk.contains(g)
        && registry.getters[g].channel.adapter == requests[i].0 by {
        lemma_split_members(work, requests, requests[i].0, g);
        let w = choose|w: int| 0 <= w < work.len() && work[w] == (requests[i].0, g);
        assert(walk[w] == g);
    }
    assert forall|i: int|
        #![trigger requests[i]]
        0 <= i < requests.len() implies registry.adapters.contains_key(requests[i].0)
        && requests[i].1@.no_duplicates() by {
        lemma_share_no_duplicates(work, requests[i].0);
        let g = requests[i].1@[0];
        assert(requests[i].1@.contains(g));
        assert(walk.to_set().contains(g));
        assert(registry.getters.contains_key(g));
    }
    assert forall|g: GetterId| #[trigger] walk.contains(g) implies exists|i: int|
        0 <= i < requests.len() && (#[trigger] requests[i]).0
            == registry.getters[g].channel.adapter && requests[i].1@.contains(g) by {
        let w = choose|w: int| 0 <= w < walk.len() && walk[w] == g;
        assert(work[w] == (registry.getters[g].channel.adapter, g));
        lemma_split_members(work, requests, registry.getters[g].channel.adapter, g);
    }
}

/// What is in the concatenation of some sequences is in one of them.
pub proof fn lemma_flatten_members<T>(parts: Seq<Seq<T>>, item: T)
    ensures
        parts.flatten().contains(item) <==> exists|j: int|
            0 <= j < parts.len() && (#[trigger] parts[j]).contains(item),
    decreases parts.len(),
{
    if parts.len() > 0 {
        let rest = parts.drop_last();
        let last = parts.last();
        lemma_flatten_members(rest, item);
        assert(parts =~= rest.push(last));
        rest.lemma_flatten_push(last);
        let all = rest.flatten() + last;
        if all.contains(item) {
            let i = choose|i: int| 0 <= i < all.len() && all[i] == item;
            if i < rest.flatten().len() {
                assert(rest.flatten()[i] == item);
                let j = choose|j: int| 0 <= j < rest.len() && (#[trigger] rest[j]).contains(item);
                assert(parts[j].contains(item));
            } else {
                assert(last[i - rest.flatten().len()] == item);
                assert(parts[parts.len() - 1].contains(item));
            }
        }
        if exists|j: int| 0 <= j < parts.len() && (#[trigger] parts[j]).contains(item) {
            let j = choose|j: int| 0 <= j < parts.len() && (#[trigger] parts[j]).contains(item);
            if j < rest.len() {
                assert(rest[j].contains(item));
                let i = choose|i: int|
                    0 <= i < rest.flatten().len() && rest.flatten()[i] == item;
                assert(all[i] == item);
            } else {
                let i = choose|i: int| 0 <= i < last.len() && last[i] == item;
                assert(all[rest.flatten().len() + i] == item);
            }
        }
    } else {
        assert(parts.flatten() =~= Seq::empty());
    }
}

/// Each value goes to each setter chosen for it, through the adapter in charge, which is
/// registered; nothing else is sent, and no adapter is asked twice.
pub proof fn law_each_value_reaches_its_setters<X: Taxonomy, A>(
    registry: Registry<X, A>,
    keyvalues: Seq<(Vec<X::SetterSelector>, Arc<X::Value>)>,
    walks: Seq<Seq<SetterId>>,
    requests: Seq<(AdapterId, Vec<(SetterId, Arc<X::Value>)>)>,
)
    requires
        registry.consistent(),
        registry.send_chosen(keyvalues, walks),
        is_split(registry.send_all_work(keyvalues, walks), requests),
    ensures
        forall|i: int, j: int|
            #![trigger requests[i], requests[j]]
            0 <= i < j < requests.len() ==> requests[i].0 != requests[j].0,
        forall|i: int|
            #![trigger requests[i]]
            0 <= i < requests.len() ==> registry.adapters.contains_key(requests[i].0),
        forall|i: int, t: SetterId, value: Arc<X::Value>|
            0 <= i < requests.len() && #[trigger] requests[i].1@.contains((t, value)) ==> {
                &&& registry.setters[t].adapter == requests[i].0
                &&& exists|j: int|
                    0 <= j < walks.len() && (#[trigger] walks[j]).contains(t) && keyvalues[j].1
                        == value
            },
        forall|j: int, t: SetterId|
            0 <= j < walks.len() && #[trigger] walks[j].contains(t) ==> exists|i: int|
                0 <= i < requests.len() && (#[trigger] requests[i]).0
                    == registry.setters[t].adapter && requests[i].1@.contains(
                    (t, keyvalues[j].1),
                ),
{
    let parts = Seq::new(walks.len(), |j: int| registry.send_work(walks[j], keyvalues[j].1));
    let work = registry.send_all_work(keyvalues, walks);
    assert forall|i: int, t: SetterId, value: Arc<X::Value>|
        0 <= i < requests.len() && #[trigger] requests[i].1@.contains((t, value)) implies {
        &&& registry.setters[t].adapter == requests[i].0
        &&& exists|j: int|
            0 <= j < walks.len() && (#[trigger] walks[j]).contains(t) && keyvalues[j].1 == value
        &&& registry.setters.contains_key(t)
    } by {
        let item = (requests[i].0, (t, value));
        lemma_split_members(work, requests, requests[i].0, (t, value));
        lemma_flatten_members(parts, item);
        let j = choose|j: int| 0 <= j < parts.len() && (#[trigger] parts[j]).contains(item);
        let w = choose|w: int| 0 <= w < parts[j].len() && parts[j][w] == item;
        assert(walks[j][w] == t);
        assert(walks[j].contains(t));
        assert(walks[j].to_set().contains(t));
    }
    assert forall|i: int|
        #![trigger requests[i]]
        0 <= i < requests.len() implies registry.adapters.contains_key(requests[i].0) by {
        let (t, value) = requests[i].1@[0];
        assert(requests[i].1@.contains((t, value)));
        assert(registry.setters.contains_key(t));
    }
    assert forall|j: int, t: SetterId|
        0 <= j < walks.len() && #[trigger] walks[j].contains(t) implies exists|i: int|
        0 <= i < requests.len() && (#[trigger] requests[i]).0 == registry.setters[t].adapter
            && requests[i].1@.contains((t, keyvalues[j].1)) by {
        let item = (registry.setters[t].adapter, (t, keyvalues[j].1));
        let w = choose|w: int| 0 <= w < walks[j].len() && walks[j][w] == t;
        assert(parts[j][w] == item);
        assert(parts[j].contains(item));
        lemma_flatten_members(parts, item);
        lemma_split_members(work, requests, item.0, item.1);
    }
}

/// Each getter that was chosen for some values is watched for these values, by the adapter in
/// charge, which is registered; nothing else is watched, and no adapter is asked twice.
pub proof fn law_each_getter_is_watched<X: Taxonomy, A>(
    registry: Registry<X, A>,
    watch: Seq<(Vec<X::GetterSelector>, Exactly<Arc<X::Range>>)>,
    walks: Seq<Seq<GetterId>>,
    requests: Seq<(AdapterId, Vec<(GetterId, Option<Arc<X::Range>>)>)>,
)
    requires
        registry.consistent(),
        registry.watch_chosen(watch, walks),
        is_split(registry.watch_all_work(watch, walks), requests),
    ensures
        forall|i: int, j: int|
            #![trigger requests[i], requests[j]]
            0 <= i < j < requests.len() ==> requests[i].0 != requests[j].0,
        forall|i: int|
            #![trigger requests[i]]
            0 <= i < requests.len() ==> registry.adapters.contains_key(requests[i].0),
        forall|i: int, g: GetterId, range: Option<Arc<X::Range>>|
            0 <= i < requests.len() && #[trigger] requests[i].1@.contains((g, range)) ==> {
                &&& registry.getters[g].channel.adapter == requests[i].0
                &&& exists|j: int|
                    0 <= j < walks.len() && (#[trigger] walks[j]).contains(g) && watches_for(
                        watch[j].1,
                        range,
                    )
            },
        forall|j: int, g: GetterId, range: Option<Arc<X::Range>>|
            0 <= j < walks.len() && #[trigger] walks[j].contains(g) && #[trigger] watches_for(
                watch[j].1,
                range,
            ) ==> exists|i: int|
                0 <= i < requests.len() && (#[trigger] requests[i]).0
                    == registry.getters[g].channel.adapter && requests[i].1@.contains((g, range)),
{
    let parts = Seq::new(walks.len(), |j: int| registry.watch_work(walks[j], watch[j].1));
    let work = registry.watch_all_work(watch, walks);
    assert forall|i: int, g: GetterId, range: Option<Arc<X::Range>>|
        0 <= i < requests.len() && #[trigger] requests[i].1@.contains((g, range)) implies {
        &&& registry.getters[g].channel.adapter == requests[i].0
        &&& exists|j: int|
            0 <= j < walks.len() && (#[trigger] walks[j]).contains(g) && watches_for(
                watch[j].1,
                range,
            )
        &&& registry.getters.contains_key(g)
    } by {
        let item = (requests[i].0, (g, range));
        lemma_split_members(work, requests, requests[i].0, (g, range));
        lemma_flatten_members(parts, item);
        let j = choose|j: int| 0 <= j < parts.len() && (#[trigger] parts[j]).contains(item);
        let w = choose|w: int| 0 <= w < parts[j].len() && parts[j][w] == item;
        assert(walks[j][w] == g);
        assert(walks[j].contains(g));
        assert(walks[j].to_set().contains(g));
        assert(watches_for(watch[j].1, range));
    }
    assert forall|i: int|
        #![trigger requests[i]]
        0 <= i < requests.len() implies registry.adapters.contains_key(requests[i].0) by {
        let (g, range) = requests[i].1@[0];
        assert(requests[i].1@.contains((g, range)));
        assert(registry.getters.contains_key(g));
    }
    assert forall|j: int, g: GetterId, range: Option<Arc<X::Range>>|
        0 <= j < walks.len() && #[trigger] walks[j].contains(g) && #[trigger] watches_for(
            watch[j].1,
            range,
        ) implies exists|i: int|
        0 <= i < requests.len() && (#[trigger] requests[i]).0
            == registry.getters[g].channel.adapter && requests[i].1@.contains((g, range)) by {
        let item = (registry.getters[g].channel.adapter, (g, range));
        let w = choose|w: int| 0 <= w < walks[j].len() && walks[j][w] == g;
        assert(parts[j][w] == item);
        assert(parts[j].contains(item));
        lemma_flatten_members(parts, item);
        lemma_split_members(work, requests, item.0, item.1);
    }
}

/// A client that watches by `filter` watches for the values in `range`, or for all values if
/// there is no range.
pub open spec fn watches_for<R>(filter: Exactly<R>, range: Option<R>) -> bool {
    match filter {
        Exactly::Exactly(r) => range == Some(r),
        Exactly::Always => range is None,
        Exactly::Never => false,
    }
}

} // verus!
