//! What starting and ending a watch are to each other.
use std::sync::atomic::{AtomicBool, Ordering};
use std::sync::Arc;
use vstd::prelude::*;

use crate::adapter::{Adapter, Taxonomy};
use crate::data::GetterView;
use crate::model::Registry;
use crate::types::{AdapterId, AdapterWatchEvent, Exactly, GetterId, WatchEvent};
use crate::watch::{
    forward_event, forward_unless_dropped, forwarded, granted, refused, WatchMapView, WatcherView,
};

verus! {

/// The key of a new watch is not in use: no watch that is going on has it, and no getter is
/// included in a watch with this key.
pub proof fn law_keys_are_fresh<X: Taxonomy, A>(registry: Registry<X, A>)
    requires
        registry.consistent(),
    ensures
        forall|k: usize| #[trigger]
            registry.watches.watchers.contains_key(k) ==> k != registry.watches.next_key,
        forall|g: GetterId, k: usize|
            registry.getters.contains_key(g) && #[trigger] registry.getters[g].watchers.contains(k)
                ==> k != registry.watches.next_key,
{
}

/// The guards that several adapters handed out, in the order of their replies.
pub open spec fn granted_by_all<X: Taxonomy>(
    replies: Seq<Seq<(GetterId, Result<X::AdapterWatchGuard, X::AdapterError>)>>,
) -> Seq<X::AdapterWatchGuard> {
    replies.map_values(
        |reply: Seq<(GetterId, Result<X::AdapterWatchGuard, X::AdapterError>)>| granted::<X>(reply),
    ).flatten()
}

/// What the adapters hand out for a watch goes to the watch, in order, and changes nothing else.
proof fn lemma_guards_only<X: Taxonomy, A>(
    registry: Registry<X, A>,
    key: usize,
    replies: Seq<Seq<(GetterId, Result<X::AdapterWatchGuard, X::AdapterError>)>>,
)
    requires
        registry.watches.watchers.contains_key(key),
    ensures
        ({
            let after = registry.watch_granted_by_all(key, replies);
            let data = registry.watches.watchers[key];
            after == (Registry {
                watches: WatchMapView {
                    watchers: registry.watches.watchers.insert(
                        key,
                        WatcherView { guards: data.guards + granted_by_all::<X>(replies), ..data },
                    ),
                    ..registry.watches
                },
                ..registry
            })
        }),
    decreases replies.len(),
{
    let data = registry.watches.watchers[key];
    let view = |reply: Seq<(GetterId, Result<X::AdapterWatchGuard, X::AdapterError>)>|
        granted::<X>(reply);
    if replies.len() > 0 {
        let rest = replies.drop_last();
        lemma_guards_only(registry, key, rest);
        let last = granted::<X>(replies.last());
        assert(replies.map_values(view) =~= rest.map_values(view).push(last));
        rest.map_values(view).lemma_flatten_push(last);
        assert(data.guards + granted_by_all::<X>(rest) + last
            =~= data.guards + granted_by_all::<X>(replies));
    } else {
        assert(replies.map_values(view) =~= Seq::empty());
        assert(data.guards + granted_by_all::<X>(replies) =~= data.guards);
    }
    let after = registry.watch_granted_by_all(key, replies);
    assert(after.watches.watchers =~= registry.watches.watchers.insert(
        key,
        after.watches.watchers[key],
    ));
}

/// Ending a watch that was just started restores the registry, but for the key, which is spent.
/// What the adapters handed out in between does not matter.
pub proof fn law_ending_undoes_starting<X: Taxonomy, A>(
    registry: Registry<X, A>,
    watch: Seq<(Vec<X::GetterSelector>, Exactly<Arc<X::Range>>)>,
    is_dropped: Arc<AtomicBool>,
    on_event: Arc<X::EventSender>,
    picked: Set<GetterId>,
    replies: Seq<Seq<(GetterId, Result<X::AdapterWatchGuard, X::AdapterError>)>>,
)
    requires
        registry.consistent(),
        registry.watches.next_key < usize::MAX,
    ensures
        registry.watched(watch, is_dropped, on_event, picked).watch_granted_by_all(
            registry.watches.next_key as usize,
            replies,
        ).watch_ended(registry.watches.next_key as usize) == (Registry {
            watches: WatchMapView {
                next_key: registry.watches.next_key + 1,
                ..registry.watches
            },
            ..registry
        }),
{
    let key = registry.watches.next_key as usize;
    let start = registry.watched(watch, is_dropped, on_event, picked);
    lemma_guards_only(start, key, replies);
    let after = start.watch_granted_by_all(key, replies).watch_ended(key);
    assert forall|g: GetterId| #[trigger] registry.getters.contains_key(g) implies after.getters[g]
        == registry.getters[g] by {
        assert(!registry.getters[g].watchers.contains(key));
        assert(after.getters[g].watchers =~= registry.getters[g].watchers);
    }
    assert(after.getters =~= registry.getters);
    assert(after.watches.watchers =~= registry.watches.watchers);
}

/// Ending a watch that was just registered restores the registry, but for the key, which is spent,
/// whatever the adapters replied.
pub proof fn law_unregistering_undoes_registering<X: Taxonomy, A: Adapter<X>>(
    registry: Registry<X, A>,
    watch: Seq<(Vec<X::GetterSelector>, Exactly<Arc<X::Range>>)>,
    is_dropped: Arc<AtomicBool>,
    on_event: Arc<X::EventSender>,
    registered: Registry<X, A>,
)
    requires
        registry.consistent(),
        registry.watches.next_key < usize::MAX,
        registry.may_register_watch(watch, is_dropped, on_event, registered),
    ensures
        registered.watch_ended(registry.watches.next_key as usize) == (Registry {
            watches: WatchMapView {
                next_key: registry.watches.next_key + 1,
                ..registry.watches
            },
            ..registry
        }),
{
    let (walks, requests, replies) = choose|
        walks: Seq<Seq<GetterId>>,
        requests: Seq<(AdapterId, Vec<(GetterId, Option<Arc<X::Range>>)>)>,
        replies: Seq<Seq<(GetterId, Result<X::AdapterWatchGuard, X::AdapterError>)>>,
    | #[trigger]
        registry.watch_registered(
            watch,
            is_dropped,
            on_event,
            walks,
            requests,
            replies,
            registered,
        );
    law_ending_undoes_starting(
        registry,
        watch,
        is_dropped,
        on_event,
        walks.flatten().to_set(),
        replies,
    );
}

/// Once a watch was ended, there is no such watch, and no getter is included in it, even if some
/// of its getters were removed or added again in the meantime.
pub proof fn law_ended_watch_is_forgotten<X: Taxonomy, A>(registry: Registry<X, A>, key: usize)
    requires
        registry.consistent(),
    ensures
        !registry.watch_ended(key).watches.watchers.contains_key(key),
        forall|g: GetterId| #[trigger]
            registry.watch_ended(key).getters.contains_key(g) ==> !registry.watch_ended(
                key,
            ).getters[g].watchers.contains(key),
{
    let after = registry.watch_ended(key);
    assert forall|g: GetterId| #[trigger]
        after.getters.contains_key(g) implies !after.getters[g].watchers.contains(key) by {
        assert(registry.getters.contains_key(g));
        if registry.getters[g].watchers.contains(key) {
            assert(registry.watches.watchers[key].getters.contains(g));
        }
    }
}

/// Ending a watch touches no other watch, and of the getters only whether they are included in
/// the watch that ends.
pub proof fn law_ending_touches_one_watch<X: Taxonomy, A>(registry: Registry<X, A>, key: usize)
    requires
        registry.consistent(),
    ensures
        ({
            let after = registry.watch_ended(key);
            &&& after.adapters == registry.adapters
            &&& after.services == registry.services
            &&& after.setters == registry.setters
            &&& after.watches == (WatchMapView {
                watchers: registry.watches.watchers.remove(key),
                ..registry.watches
            })
            &&& after.getters.dom() == registry.getters.dom()
            &&& forall|g: GetterId| #[trigger]
                registry.getters.contains_key(g) ==> after.getters[g] == (GetterView {
                    watchers: registry.getters[g].watchers.remove(key),
                    ..registry.getters[g]
                })
        }),
{
    let after = registry.watch_ended(key);
    if !registry.watches.watchers.contains_key(key) {
        assert(registry.watches.watchers.remove(key) =~= registry.watches.watchers);
    }
    assert(after.getters.dom() =~= registry.getters.dom());
    assert forall|g: GetterId| #[trigger] registry.getters.contains_key(g) implies after.getters[g]
        == (GetterView {
        watchers: registry.getters[g].watchers.remove(key),
        ..registry.getters[g]
    }) by {
        if registry.getters[g].watchers.contains(key) {
            assert(registry.watches.watchers[key].getters.contains(g));
        } else {
            assert(registry.getters[g].watchers.remove(key) =~= registry.getters[g].watchers);
        }
    }
}

/// Ending a watch a second time does nothing.
pub proof fn law_ending_twice_is_ending_once<X: Taxonomy, A>(registry: Registry<X, A>, key: usize)
    ensures
        registry.watch_ended(key).watch_ended(key) == registry.watch_ended(key),
{
}

/// Registering a watch touches no other watch, and of the getters only whether they are included
/// in the new one: those in `walks` are, and no others. The new watch is kept with what the client
/// asked for, where it listens, its flag, its getters, and the guards in the order of the replies.
pub proof fn law_registering_touches_one_watch<X: Taxonomy, A: Adapter<X>>(
    registry: Registry<X, A>,
    watch: Seq<(Vec<X::GetterSelector>, Exactly<Arc<X::Range>>)>,
    is_dropped: Arc<AtomicBool>,
    on_event: Arc<X::EventSender>,
    walks: Seq<Seq<GetterId>>,
    requests: Seq<(AdapterId, Vec<(GetterId, Option<Arc<X::Range>>)>)>,
    replies: Seq<Seq<(GetterId, Result<X::AdapterWatchGuard, X::AdapterError>)>>,
    after: Registry<X, A>,
)
    requires
        registry.consistent(),
        registry.watches.next_key < usize::MAX,
        registry.watch_registered(
            watch,
            is_dropped,
            on_event,
            walks,
            requests,
            replies,
            after,
        ),
    ensures
        ({
            let key = registry.watches.next_key as usize;
            &&& after.adapters == registry.adapters
            &&& after.services == registry.services
            &&& after.setters == registry.setters
            &&& after.watches.next_key == key + 1
            &&& after.watches.watchers.contains_key(key)
            &&& after.watches.watchers[key] == (WatcherView::<X> {
                watch,
                on_event,
                key,
                guards: granted_by_all::<X>(replies),
                getters: walks.flatten().to_set(),
                is_dropped,
            })
            &&& after.watches.watchers.remove(key) == registry.watches.watchers
            &&& after.getters.dom() == registry.getters.dom()
            &&& forall|g: GetterId| #[trigger]
                registry.getters.contains_key(g) ==> {
                    &&& after.getters[g].channel == registry.getters[g].channel
                    &&& after.getters[g].watchers.remove(key) == registry.getters[g].watchers
                    &&& after.getters[g].watchers.contains(key) == walks.flatten().contains(g)
                }
        }),
{
    let key = registry.watches.next_key as usize;
    let start = registry.watched(watch, is_dropped, on_event, walks.flatten().to_set());
    lemma_guards_only(start, key, replies);
    assert(Set::empty().union(walks.flatten().to_set()) =~= walks.flatten().to_set());
    assert(Seq::empty() + granted_by_all::<X>(replies) =~= granted_by_all::<X>(replies));
    assert(after.getters.dom() =~= registry.getters.dom());
    assert(after.watches.watchers.remove(key) =~= registry.watches.watchers);
    assert forall|g: GetterId| #[trigger] registry.getters.contains_key(g) implies {
        &&& after.getters[g].channel == registry.getters[g].channel
        &&& after.getters[g].watchers.remove(key) == registry.getters[g].watchers
        &&& after.getters[g].watchers.contains(key) == walks.flatten().contains(g)
    } by {
        assert(!registry.getters[g].watchers.contains(key));
        assert(after.getters[g].watchers.remove(key) =~= registry.getters[g].watchers);
    }
}

/// Whatever an adapter replies on a getter, either the watch holds a guard for it or the client
/// is told that it cannot be watched, and there are as many guards and events as there are
/// replies.
pub proof fn law_each_reply_is_granted_or_refused<X: Taxonomy>(
    reply: Seq<(GetterId, Result<X::AdapterWatchGuard, X::AdapterError>)>,
)
    ensures
        granted::<X>(reply).len() + refused::<X>(reply).len() == reply.len(),
        forall|i: int|
            #![trigger reply[i]]
            0 <= i < reply.len() ==> match reply[i].1 {
                Ok(guard) => granted::<X>(reply).contains(guard),
                Err(error) => refused::<X>(reply).contains(
                    WatchEvent::InitializationError { channel: reply[i].0, error },
                ),
            },
    decreases reply.len(),
{
    if reply.len() > 0 {
        let rest = reply.drop_last();
        law_each_reply_is_granted_or_refused::<X>(rest);
        assert forall|i: int|
            #![trigger reply[i]]
            0 <= i < reply.len() implies match reply[i].1 {
            Ok(guard) => granted::<X>(reply).contains(guard),
            Err(error) => refused::<X>(reply).contains(
                WatchEvent::InitializationError { channel: reply[i].0, error },
            ),
        } by {
            if i < rest.len() {
                assert(rest[i] == reply[i]);
                match reply[i].1 {
                    Ok(guard) => {
                        let k = choose|k: int|
                            0 <= k < granted::<X>(rest).len() && granted::<X>(rest)[k] == guard;
                        assert(granted::<X>(reply)[k] == guard);
                    },
                    Err(error) => {
                        let event = WatchEvent::<X::Value, X::AdapterError>::InitializationError {
                            channel: reply[i].0,
                            error,
                        };
                        let k = choose|k: int|
                            0 <= k < refused::<X>(rest).len() && refused::<X>(rest)[k] == event;
                        assert(refused::<X>(reply)[k] == event);
                    },
                }
            } else {
                match reply[i].1 {
                    Ok(guard) => {
                        assert(granted::<X>(reply).last() == guard);
                    },
                    Err(error) => {
                        let event = WatchEvent::<X::Value, X::AdapterError>::InitializationError {
                            channel: reply[i].0,
                            error,
                        };
                        assert(refused::<X>(reply).last() == event);
                    },
                }
            }
        }
    }
}

/// The flag of a watch decides what its client is told: nothing, only if the flag was found
/// raised, as it is once the watch was dropped; and only if it was found lowered, the event, with
/// the getter and the value that the adapter reported.
pub proof fn law_flag_decides_what_is_told<V, E>(
    is_dropped: AtomicBool,
    event: AdapterWatchEvent<V>,
    told: Option<WatchEvent<V, E>>,
)
    requires
        call_ensures(forward_unless_dropped::<V, E>, (&is_dropped, event), told),
    ensures
        match told {
            None => call_ensures(AtomicBool::load, (&is_dropped, Ordering::Relaxed), true),
            Some(told) => call_ensures(
                AtomicBool::load,
                (&is_dropped, Ordering::Relaxed),
                false,
            ) && told == match event {
                AdapterWatchEvent::Enter { id, value } => WatchEvent::<V, E>::EnterRange {
                    from: id,
                    value,
                },
                AdapterWatchEvent::Exit { id, value } => WatchEvent::<V, E>::ExitRange {
                    from: id,
                    value,
                },
            },
        },
{
}

/// Once a watch was dropped its client is told of no later event either, provided that the flag,
/// once found raised, is found raised ever after, as it is if nobody lowers it; until then the
/// client is told of every event.
pub proof fn law_dropped_watch_stays_silent<V, E>(
    events: Seq<AdapterWatchEvent<V>>,
    readings: Seq<bool>,
    told: Seq<Option<WatchEvent<V, E>>>,
    i: int,
    j: int,
)
    requires
        readings.len() == events.len(),
        told.len() == events.len(),
        forall|n: int|
            #![trigger told[n]]
            0 <= n < events.len() ==> told[n] == forwarded::<V, E>(readings[n], events[n]),
        forall|m: int, n: int|
            #![trigger readings[m], readings[n]]
            0 <= m <= n < readings.len() && readings[m] ==> readings[n],
        0 <= i <= j < events.len(),
    ensures
        told[i] is None ==> told[j] is None,
        told[j] is Some ==> told[i] is Some,
{
    assert(told[i] == forwarded::<V, E>(readings[i], events[i]));
    assert(told[j] == forwarded::<V, E>(readings[j], events[j]));
}

/// Given whether the watch was dropped, the client is told nothing if it was, and otherwise of the
/// event, with the getter and the value that the adapter reported.
pub proof fn law_event_is_forwarded<V, E>(
    is_dropped: bool,
    event: AdapterWatchEvent<V>,
    told: Option<WatchEvent<V, E>>,
)
    requires
        call_ensures(forward_event::<V, E>, (is_dropped, event), told),
    ensures
        is_dropped <==> told is None,
        !is_dropped ==> told == Some(
            match event {
                AdapterWatchEvent::Enter { id, value } => WatchEvent::<V, E>::EnterRange {
                    from: id,
                    value,
                },
                AdapterWatchEvent::Exit { id, value } => WatchEvent::<V, E>::ExitRange {
                    from: id,
                    value,
                },
            },
        ),
{
}

} // verus!
