//! Keys of watches are never used twice.
use std::sync::atomic::AtomicBool;
use std::sync::Arc;
use vstd::prelude::*;

use crate::adapter::{Adapter, Taxonomy};
use crate::laws::requests::is_history;
use crate::model::Registry;
use crate::op::{outcome, Op, Reply};
use crate::types::{AdapterId, Exactly, GetterId};
use crate::watch::WatchMapView;

verus! {

/// Whatever is done to it, a well-formed map of watches stays well-formed. A watch can be created
/// for as long as the counter does not reach its limit.
pub proof fn law_watch_map_stays_well_formed<X: Taxonomy>(
    map: WatchMapView<X>,
    watch: Seq<(Vec<X::GetterSelector>, Exactly<Arc<X::Range>>)>,
    is_dropped: Arc<AtomicBool>,
    on_event: Arc<X::EventSender>,
    key: usize,
    getters: Set<GetterId>,
    guards: Seq<X::AdapterWatchGuard>,
)
    ensures
        WatchMapView::<X>::empty().well_formed(),
        map.well_formed() && map.next_key < usize::MAX ==> map.created(
            watch,
            is_dropped,
            on_event,
        ).well_formed(),
        map.well_formed() ==> map.removed(key).well_formed(),
        map.well_formed() ==> map.with_getters(key, getters).well_formed(),
        map.well_formed() ==> map.with_guards(key, guards).well_formed(),
{
}

/// A watch that was just created has the key that the counter showed, what the client asked for,
/// where it listens and its flag, no getters and no guards; no other watch had this key, the
/// counter goes up by one, and the other watches are as they were.
pub proof fn law_created_watch_is_new<X: Taxonomy>(
    map: WatchMapView<X>,
    watch: Seq<(Vec<X::GetterSelector>, Exactly<Arc<X::Range>>)>,
    is_dropped: Arc<AtomicBool>,
    on_event: Arc<X::EventSender>,
)
    requires
        map.well_formed(),
        map.next_key < usize::MAX,
    ensures
        ({
            let key = map.next_key as usize;
            let after = map.created(watch, is_dropped, on_event);
            &&& !map.watchers.contains_key(key)
            &&& after.watchers.contains_key(key)
            &&& after.next_key == map.next_key + 1
            &&& after.watchers[key].key == key
            &&& after.watchers[key].watch == watch
            &&& after.watchers[key].is_dropped == is_dropped
            &&& after.watchers[key].on_event == on_event
            &&& after.watchers[key].guards.len() == 0
            &&& after.watchers[key].getters.is_empty()
            &&& after.watchers.remove(key) == map.watchers
        }),
{
    let key = map.next_key as usize;
    assert(map.created(watch, is_dropped, on_event).watchers.remove(key) =~= map.watchers);
}

/// Removing a watch takes this one and no other, and leaves the counter as it is.
pub proof fn law_removed_watch_is_gone<X: Taxonomy>(map: WatchMapView<X>, key: usize)
    ensures
        ({
            let after = map.removed(key);
            &&& after.next_key == map.next_key
            &&& forall|k: usize| #[trigger]
                after.watchers.contains_key(k) <==> map.watchers.contains_key(k) && k != key
            &&& forall|k: usize| #[trigger]
                after.watchers.contains_key(k) ==> after.watchers[k] == map.watchers[k]
        }),
{
}

/// Noting getters and guards of a watch adds them to what this watch has, and touches nothing
/// else.
pub proof fn law_watch_gains_getters_and_guards<X: Taxonomy>(
    map: WatchMapView<X>,
    key: usize,
    getters: Set<GetterId>,
    guards: Seq<X::AdapterWatchGuard>,
    k: usize,
)
    requires
        map.watchers.contains_key(k),
    ensures
        map.with_getters(key, getters).next_key == map.next_key,
        map.with_getters(key, getters).watchers.dom() == map.watchers.dom(),
        ({
            let before = map.watchers[k];
            let now = map.with_getters(key, getters).watchers[k];
            &&& now.watch == before.watch
            &&& now.on_event == before.on_event
            &&& now.key == before.key
            &&& now.guards == before.guards
            &&& now.is_dropped == before.is_dropped
            &&& forall|g: GetterId| #[trigger]
                now.getters.contains(g) <==> before.getters.contains(g) || k == key
                    && getters.contains(g)
        }),
        map.with_guards(key, guards).next_key == map.next_key,
        map.with_guards(key, guards).watchers.dom() == map.watchers.dom(),
        ({
            let before = map.watchers[k];
            let now = map.with_guards(key, guards).watchers[k];
            &&& now.watch == before.watch
            &&& now.on_event == before.on_event
            &&& now.key == before.key
            &&& now.getters == before.getters
            &&& now.is_dropped == before.is_dropped
            &&& now.guards == if k == key {
                before.guards + guards
            } else {
                before.guards
            }
        }),
{
    assert(map.with_getters(key, getters).watchers.dom() =~= map.watchers.dom());
    assert(map.with_guards(key, guards).watchers.dom() =~= map.watchers.dom());
}

/// Something that is done to a map of watches.
pub enum WatchMapStep<X: Taxonomy> {
    /// A watch is created.
    Create {
        watch: Seq<(Vec<X::GetterSelector>, Exactly<Arc<X::Range>>)>,
        is_dropped: Arc<AtomicBool>,
        on_event: Arc<X::EventSender>,
    },
    /// A watch is removed.
    Remove { key: usize },
}

/// The map of watches after some steps, from no watch at all.
pub open spec fn after_steps<X: Taxonomy>(steps: Seq<WatchMapStep<X>>) -> WatchMapView<X>
    decreases steps.len(),
{
    if steps.len() == 0 {
        WatchMapView::empty()
    } else {
        let before = after_steps(steps.drop_last());
        match steps.last() {
            WatchMapStep::Create { watch, is_dropped, on_event } => before.created(
                watch,
                is_dropped,
                on_event,
            ),
            WatchMapStep::Remove { key } => before.removed(key),
        }
    }
}

/// How many of the steps create a watch.
pub open spec fn creations<X: Taxonomy>(steps: Seq<WatchMapStep<X>>) -> nat
    decreases steps.len(),
{
    if steps.len() == 0 {
        0
    } else {
        creations(steps.drop_last()) + if steps.last() is Create {
            1nat
        } else {
            0nat
        }
    }
}

/// The next key is the number of watches created so far, removed or not, and the map is
/// well-formed.
pub proof fn law_watch_map_counts_creations<X: Taxonomy>(steps: Seq<WatchMapStep<X>>)
    requires
        creations(steps) <= usize::MAX,
    ensures
        after_steps(steps).next_key == creations(steps),
        after_steps(steps).well_formed(),
    decreases steps.len(),
{
    if steps.len() > 0 {
        law_watch_map_counts_creations(steps.drop_last());
    }
}

/// Of two watches created one after the other, the later one gets the larger key, whatever was
/// removed in between.
pub proof fn law_watch_map_keys_differ<X: Taxonomy>(
    steps: Seq<WatchMapStep<X>>,
    first: int,
    second: int,
)
    requires
        creations(steps) <= usize::MAX,
        0 <= first < second < steps.len(),
        steps[first] is Create,
        steps[second] is Create,
    ensures
        after_steps(steps.take(first)).next_key < after_steps(steps.take(second)).next_key,
{
    lemma_creations_grow(steps, first + 1, second);
    lemma_creations_grow(steps, second, steps.len() as int);
    assert(steps.take(steps.len() as int) =~= steps);
    assert(steps.take(first + 1).drop_last() =~= steps.take(first));
    law_watch_map_counts_creations(steps.take(first));
    law_watch_map_counts_creations(steps.take(second));
}

/// More steps create no fewer watches.
proof fn lemma_creations_grow<X: Taxonomy>(steps: Seq<WatchMapStep<X>>, from: int, to: int)
    requires
        0 <= from <= to <= steps.len(),
    ensures
        creations(steps.take(from)) <= creations(steps.take(to)),
    decreases to - from,
{
    if from < to {
        lemma_creations_grow(steps, from, to - 1);
        assert(steps.take(to).drop_last() =~= steps.take(to - 1));
    }
}

/// What the adapters hand out for a watch spends no key.
proof fn lemma_granting_spends_no_key<X: Taxonomy, A>(
    registry: Registry<X, A>,
    key: usize,
    replies: Seq<Seq<(GetterId, Result<X::AdapterWatchGuard, X::AdapterError>)>>,
)
    ensures
        registry.watch_granted_by_all(key, replies).watches.next_key == registry.watches.next_key,
    decreases replies.len(),
{
    if replies.len() > 0 {
        lemma_granting_spends_no_key(registry, key, replies.drop_last());
    }
}

/// Registering a watch spends one key, the one in the reply. No other request spends or gives
/// back a key.
pub proof fn law_only_registration_spends_a_key<X: Taxonomy, A: Adapter<X>>(
    before: Registry<X, A>,
    op: Op<X, A>,
    after: Registry<X, A>,
    reply: Reply<X>,
)
    requires
        outcome(before, op, after, reply),
    ensures
        op is RegisterChannelWatch ==> {
            &&& reply is WatchStarted
            &&& reply->key == before.watches.next_key
            &&& after.watches.next_key == before.watches.next_key + 1
        },
        op !is RegisterChannelWatch ==> after.watches.next_key == before.watches.next_key,
{
    if let Op::RegisterChannelWatch { watch, on_event } = op {
        let is_dropped = reply->is_dropped;
        let (walks, requests, replies) = choose|
            walks: Seq<Seq<GetterId>>,
            requests: Seq<(AdapterId, Vec<(GetterId, Option<Arc<X::Range>>)>)>,
            replies: Seq<Seq<(GetterId, Result<X::AdapterWatchGuard, X::AdapterError>)>>,
        | #[trigger]
            before.watch_registered(watch@, is_dropped, on_event, walks, requests, replies, after);
        lemma_granting_spends_no_key(
            before.watched(watch@, is_dropped, on_event, walks.flatten().to_set()),
            before.watches.next_key as usize,
            replies,
        );
    }
}

/// Asking an adapter to take part in a watch spends no key.
pub proof fn law_dispatching_spends_no_key<X: Taxonomy, A: Adapter<X>>(
    before: Registry<X, A>,
    key: usize,
    adapter: AdapterId,
    request: Seq<(GetterId, Option<Arc<X::Range>>)>,
    is_dropped: Arc<AtomicBool>,
    on_event: Arc<X::EventSender>,
    after: Registry<X, A>,
)
    requires
        before.watch_dispatched(key, adapter, request, is_dropped, on_event, after),
    ensures
        after.watches.next_key == before.watches.next_key,
{
}

/// How many of the requests register a watch.
pub open spec fn registrations<X: Taxonomy, A: Adapter<X>>(ops: Seq<Op<X, A>>) -> nat
    decreases ops.len(),
{
    if ops.len() == 0 {
        0
    } else {
        registrations(ops.drop_last()) + if ops.last() is RegisterChannelWatch {
            1nat
        } else {
            0nat
        }
    }
}

/// The next key is the number of watches registered so far, ended or not.
pub proof fn law_keys_count_registrations<X: Taxonomy, A: Adapter<X>>(
    states: Seq<Registry<X, A>>,
    ops: Seq<Op<X, A>>,
    replies: Seq<Reply<X>>,
    n: int,
)
    requires
        is_history(states, ops, replies),
        0 <= n <= ops.len(),
    ensures
        states[n].watches.next_key == registrations(ops.take(n)),
    decreases n,
{
    if n > 0 {
        law_keys_count_registrations(states, ops, replies, n - 1);
        assert(ops.take(n).drop_last() =~= ops.take(n - 1));
        let last = ops[n - 1];
        law_only_registration_spends_a_key(states[n - 1], last, states[n], replies[n - 1]);
    }
}

/// More requests register no fewer watches.
proof fn lemma_registrations_grow<X: Taxonomy, A: Adapter<X>>(
    ops: Seq<Op<X, A>>,
    from: int,
    to: int,
)
    requires
        0 <= from <= to <= ops.len(),
    ensures
        registrations(ops.take(from)) <= registrations(ops.take(to)),
    decreases to - from,
{
    if from < to {
        lemma_registrations_grow(ops, from, to - 1);
        assert(ops.take(to).drop_last() =~= ops.take(to - 1));
    }
}

/// The key of a watch is the number of watches registered before it, so no key is ever used twice,
/// whatever is asked in between.
pub proof fn law_keys_are_never_reused<X: Taxonomy, A: Adapter<X>>(
    states: Seq<Registry<X, A>>,
    ops: Seq<Op<X, A>>,
    replies: Seq<Reply<X>>,
    first: int,
    second: int,
)
    requires
        is_history(states, ops, replies),
        0 <= first < second < ops.len(),
        ops[first] is RegisterChannelWatch,
        ops[second] is RegisterChannelWatch,
    ensures
        replies[first]->key == registrations(ops.take(first)),
        replies[second]->key == registrations(ops.take(second)),
        replies[first]->key < replies[second]->key,
{
    law_keys_count_registrations(states, ops, replies, first);
    law_keys_count_registrations(states, ops, replies, second);
    law_only_registration_spends_a_key(
        states[first],
        ops[first],
        states[first + 1],
        replies[first],
    );
    law_only_registration_spends_a_key(
        states[second],
        ops[second],
        states[second + 1],
        replies[second],
    );
    assert(ops.take(first + 1).drop_last() =~= ops.take(first));
    lemma_registrations_grow(ops, first + 1, second);
}

} // verus!
