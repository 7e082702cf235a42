//! What the adapters are asked and what becomes of their replies, told by the calls that are made.
use std::sync::atomic::AtomicBool;
use std::sync::Arc;
use vstd::prelude::*;

use crate::adapter::{fetch_reply, reports_to, send_reply, told_of, watch_reply, Adapter, Taxonomy};
use crate::laws::matching::{
    decides_getters, decides_setters, lemma_getters_wanted, lemma_setters_wanted, wanted,
};
use crate::laws::routing::{
    law_each_getter_is_fetched_once, law_each_getter_is_watched,
    law_each_value_reaches_its_setters, lemma_flatten_members, watches_for,
};
use crate::laws::watching::{granted_by_all, law_registering_touches_one_watch};
use crate::model::Registry;
use crate::routing::{is_split, share};
use crate::types::{AdapterId, ChannelView, Exactly, GetterId, SetterId, WatchEvent};
use crate::watch::{granted, refused};

verus! {

/// `adapter` was asked for the values of `getters`, and gave this reply.
pub open spec fn was_asked_to_fetch<X: Taxonomy, A: Adapter<X>>(
    adapter: A,
    getters: Seq<GetterId>,
    reply: Seq<(GetterId, Result<Option<X::Value>, X::AdapterError>)>,
) -> bool {
    exists|request: Vec<GetterId>, got: Vec<(GetterId, Result<Option<X::Value>, X::AdapterError>)>|
        request@ == getters && got@ == reply && #[trigger] call_ensures(
            A::fetch_values,
            (&adapter, request),
            got,
        )
}

/// `adapter` was asked to send `values`, and gave this reply.
pub open spec fn was_asked_to_send<X: Taxonomy, A: Adapter<X>>(
    adapter: A,
    values: Seq<(SetterId, Arc<X::Value>)>,
    reply: Seq<(SetterId, Result<(), X::AdapterError>)>,
) -> bool {
    exists|
        request: Vec<(SetterId, Arc<X::Value>)>,
        got: Vec<(SetterId, Result<(), X::AdapterError>)>,
    |
        request@ == values && got@ == reply && #[trigger] call_ensures(
            A::send_values,
            (&adapter, request),
            got,
        )
}

/// `adapter` was asked to watch `watch` and to report to `sink`, and gave this reply.
pub open spec fn was_asked_to_watch<X: Taxonomy, A: Adapter<X>>(
    adapter: A,
    watch: Seq<(GetterId, Option<Arc<X::Range>>)>,
    sink: X::EventSink,
    reply: Seq<(GetterId, Result<X::AdapterWatchGuard, X::AdapterError>)>,
) -> bool {
    exists|
        request: Vec<(GetterId, Option<Arc<X::Range>>)>,
        got: Vec<(GetterId, Result<X::AdapterWatchGuard, X::AdapterError>)>,
    |
        request@ == watch && got@ == reply && #[trigger] call_ensures(
            A::register_watch,
            (&adapter, request, sink),
            got,
        )
}

/// `adapter` was asked to watch `watch`, reporting to a sink made for this client and this flag,
/// and gave this reply.
pub open spec fn was_asked_to_watch_for<X: Taxonomy, A: Adapter<X>>(
    adapter: A,
    watch: Seq<(GetterId, Option<Arc<X::Range>>)>,
    is_dropped: Arc<AtomicBool>,
    on_event: Arc<X::EventSender>,
    reply: Seq<(GetterId, Result<X::AdapterWatchGuard, X::AdapterError>)>,
) -> bool {
    exists|sink: X::EventSink| #[trigger]
        call_ensures(X::sink, (&on_event, &is_dropped), sink) && was_asked_to_watch::<X, A>(
            adapter,
            watch,
            sink,
            reply,
        )
}

/// The client who listens to `on_event` was told of these events, in one go and in this order.
pub open spec fn client_was_told<X: Taxonomy>(
    on_event: Arc<X::EventSender>,
    events: Seq<WatchEvent<X::Value, X::AdapterError>>,
) -> bool {
    exists|list: Vec<WatchEvent<X::Value, X::AdapterError>>|
        list@ == events && #[trigger] call_ensures(X::notify, (&on_event, list), ())
}

/// The guards in a reply, in order.
pub open spec fn guards_in<X: Taxonomy>(
    reply: Seq<(GetterId, Result<X::AdapterWatchGuard, X::AdapterError>)>,
) -> Seq<X::AdapterWatchGuard> {
    reply.filter(
        |r: (GetterId, Result<X::AdapterWatchGuard, X::AdapterError>)| r.1 is Ok,
    ).map_values(|r: (GetterId, Result<X::AdapterWatchGuard, X::AdapterError>)| r.1->Ok_0)
}

/// The errors in a reply, in order, each as an event on the getter that it is about.
pub open spec fn errors_in<X: Taxonomy>(
    reply: Seq<(GetterId, Result<X::AdapterWatchGuard, X::AdapterError>)>,
) -> Seq<WatchEvent<X::Value, X::AdapterError>> {
    reply.filter(
        |r: (GetterId, Result<X::AdapterWatchGuard, X::AdapterError>)| r.1 is Err,
    ).map_values(
        |r: (GetterId, Result<X::AdapterWatchGuard, X::AdapterError>)|
            WatchEvent::<X::Value, X::AdapterError>::InitializationError {
                channel: r.0,
                error: r.1->Err_0,
            },
    )
}

/// A reply is sorted into its guards, which are kept, and its errors, of which the client is told,
/// both in order.
pub proof fn law_reply_is_sorted<X: Taxonomy>(
    reply: Seq<(GetterId, Result<X::AdapterWatchGuard, X::AdapterError>)>,
)
    ensures
        granted::<X>(reply) == guards_in::<X>(reply),
        refused::<X>(reply) == errors_in::<X>(reply),
    decreases reply.len(),
{
    reveal(Seq::filter);
    if reply.len() > 0 {
        law_reply_is_sorted::<X>(reply.drop_last());
    }
    assert(granted::<X>(reply) =~= guards_in::<X>(reply));
    assert(refused::<X>(reply) =~= errors_in::<X>(reply));
}

proof fn lemma_fetch_call<X: Taxonomy, A: Adapter<X>>(
    adapter: A,
    getters: Seq<GetterId>,
    reply: Seq<(GetterId, Result<Option<X::Value>, X::AdapterError>)>,
)
    requires
        fetch_reply::<X, A>(adapter, getters, reply),
    ensures
        was_asked_to_fetch::<X, A>(adapter, getters, reply),
{
    let (request, got) = choose|
        request: Vec<GetterId>,
        got: Vec<(GetterId, Result<Option<X::Value>, X::AdapterError>)>,
    |
        request@ == getters && got@ == reply && #[trigger] call_ensures(
            A::fetch_values,
            (&adapter, request),
            got,
        );
    assert(call_ensures(A::fetch_values, (&adapter, request), got));
}

proof fn lemma_send_call<X: Taxonomy, A: Adapter<X>>(
    adapter: A,
    values: Seq<(SetterId, Arc<X::Value>)>,
    reply: Seq<(SetterId, Result<(), X::AdapterError>)>,
)
    requires
        send_reply::<X, A>(adapter, values, reply),
    ensures
        was_asked_to_send::<X, A>(adapter, values, reply),
{
    let (request, got) = choose|
        request: Vec<(SetterId, Arc<X::Value>)>,
        got: Vec<(SetterId, Result<(), X::AdapterError>)>,
    |
        request@ == values && got@ == reply && #[trigger] call_ensures(
            A::send_values,
            (&adapter, request),
            got,
        );
    assert(call_ensures(A::send_values, (&adapter, request), got));
}

proof fn lemma_watch_call<X: Taxonomy, A: Adapter<X>>(
    adapter: A,
    watch: Seq<(GetterId, Option<Arc<X::Range>>)>,
    sink: X::EventSink,
    reply: Seq<(GetterId, Result<X::AdapterWatchGuard, X::AdapterError>)>,
)
    requires
        watch_reply::<X, A>(adapter, watch, sink, reply),
    ensures
        was_asked_to_watch::<X, A>(adapter, watch, sink, reply),
{
    let (request, got) = choose|
        request: Vec<(GetterId, Option<Arc<X::Range>>)>,
        got: Vec<(GetterId, Result<X::AdapterWatchGuard, X::AdapterError>)>,
    |
        request@ == watch && got@ == reply && #[trigger] call_ensures(
            A::register_watch,
            (&adapter, request, sink),
            got,
        );
    assert(call_ensures(A::register_watch, (&adapter, request, sink), got));
}

proof fn lemma_told<X: Taxonomy>(
    on_event: Arc<X::EventSender>,
    events: Seq<WatchEvent<X::Value, X::AdapterError>>,
)
    requires
        told_of::<X>(on_event, events),
        events.len() > 0,
    ensures
        client_was_told::<X>(on_event, events),
{
    let list = choose|list: Vec<WatchEvent<X::Value, X::AdapterError>>|
        list@ == events && #[trigger] call_ensures(X::notify, (&on_event, list), ());
    assert(call_ensures(X::notify, (&on_event, list), ()));
}

proof fn lemma_watch_asked<X: Taxonomy, A: Adapter<X>>(
    registry: Registry<X, A>,
    adapter: AdapterId,
    request: Seq<(GetterId, Option<Arc<X::Range>>)>,
    is_dropped: Arc<AtomicBool>,
    on_event: Arc<X::EventSender>,
    reply: Seq<(GetterId, Result<X::AdapterWatchGuard, X::AdapterError>)>,
)
    requires
        registry.watch_asked(adapter, request, is_dropped, on_event, reply),
        registry.adapters.contains_key(adapter),
    ensures
        was_asked_to_watch_for::<X, A>(
            registry.adapters[adapter].adapter,
            request,
            is_dropped,
            on_event,
            reply,
        ),
{
    let sink = choose|sink: X::EventSink| #[trigger]
        reports_to::<X>(sink, on_event, is_dropped) && watch_reply::<X, A>(
            registry.adapters[adapter].adapter,
            request,
            sink,
            reply,
        );
    lemma_watch_call::<X, A>(registry.adapters[adapter].adapter, request, sink, reply);
    assert(call_ensures(X::sink, (&on_event, &is_dropped), sink));
}

/// The requests `asked`, to different adapters that are registered, are for the getters that match
/// some of the selectors and for no others, each in the request to the adapter in charge, once;
/// each adapter gave one of `replies`, and these joined are `results`.
pub open spec fn fetched_exactly<X: Taxonomy, A: Adapter<X>>(
    registry: Registry<X, A>,
    m: spec_fn(ChannelView<X::Getter>, X::GetterSelector) -> bool,
    selectors: Seq<X::GetterSelector>,
    asked: Seq<(AdapterId, Vec<GetterId>)>,
    replies: Seq<Seq<(GetterId, Result<Option<X::Value>, X::AdapterError>)>>,
    results: Seq<(GetterId, Result<Option<X::Value>, X::AdapterError>)>,
) -> bool {
    &&& replies.len() == asked.len()
    &&& forall|i: int, j: int|
        #![trigger asked[i], asked[j]]
        0 <= i < j < asked.len() ==> asked[i].0 != asked[j].0
    &&& forall|i: int|
        #![trigger asked[i]]
        0 <= i < asked.len() ==> {
            &&& registry.adapters.contains_key(asked[i].0)
            &&& was_asked_to_fetch::<X, A>(
                registry.adapters[asked[i].0].adapter,
                asked[i].1@,
                replies[i],
            )
            &&& asked[i].1@.len() > 0
            &&& asked[i].1@.no_duplicates()
            &&& forall|g: GetterId| #[trigger]
                asked[i].1@.contains(g) <==> {
                    &&& registry.getters.contains_key(g)
                    &&& registry.getters[g].channel.adapter == asked[i].0
                    &&& wanted(m, registry.getters[g].channel, selectors)
                }
        }
    &&& forall|g: GetterId| #[trigger]
        registry.getters.contains_key(g) && wanted(m, registry.getters[g].channel, selectors)
            ==> exists|i: int|
            0 <= i < asked.len() && (#[trigger] asked[i]).0 == registry.getters[g].channel.adapter
    &&& results == replies.flatten()
}

/// Fetching values reads each getter that matches some of the selectors, once, through the
/// adapter in charge, one request for each adapter; it reads nothing else, and returns what the
/// adapters replied.
pub proof fn law_values_are_fetched_of_what_matches<X: Taxonomy, A: Adapter<X>>(
    registry: Registry<X, A>,
    m: spec_fn(ChannelView<X::Getter>, X::GetterSelector) -> bool,
    selectors: Seq<X::GetterSelector>,
    results: Seq<(GetterId, Result<Option<X::Value>, X::AdapterError>)>,
)
    requires
        registry.consistent(),
        decides_getters::<X>(m),
        registry.may_fetch(selectors, results),
    ensures
        exists|
            asked: Seq<(AdapterId, Vec<GetterId>)>,
            replies: Seq<Seq<(GetterId, Result<Option<X::Value>, X::AdapterError>)>>,
        | #[trigger]
            fetched_exactly(registry, m, selectors, asked, replies, results),
{
    let (walk, asked, replies) = choose|
        walk: Seq<GetterId>,
        requests: Seq<(AdapterId, Vec<GetterId>)>,
        replies: Seq<Seq<(GetterId, Result<Option<X::Value>, X::AdapterError>)>>,
    | #[trigger]
        registry.fetched(selectors, walk, requests, replies, results);
    lemma_getters_wanted(registry, m, selectors, walk);
    law_each_getter_is_fetched_once(registry, selectors, walk, asked);
    assert forall|i: int|
        #![trigger asked[i]]
        0 <= i < asked.len() implies {
        &&& registry.adapters.contains_key(asked[i].0)
        &&& was_asked_to_fetch::<X, A>(
            registry.adapters[asked[i].0].adapter,
            asked[i].1@,
            replies[i],
        )
        &&& asked[i].1@.len() > 0
        &&& asked[i].1@.no_duplicates()
        &&& forall|g: GetterId| #[trigger]
            asked[i].1@.contains(g) <==> {
                &&& registry.getters.contains_key(g)
                &&& registry.getters[g].channel.adapter == asked[i].0
                &&& wanted(m, registry.getters[g].channel, selectors)
            }
    } by {
        assert(fetch_reply::<X, A>(
            registry.adapters[asked[i].0].adapter,
            asked[i].1@,
            replies[i],
        ));
        lemma_fetch_call::<X, A>(
            registry.adapters[asked[i].0].adapter,
            asked[i].1@,
            replies[i],
        );
        assert forall|g: GetterId| #[trigger]
            asked[i].1@.contains(g) <==> {
                &&& registry.getters.contains_key(g)
                &&& registry.getters[g].channel.adapter == asked[i].0
                &&& wanted(m, registry.getters[g].channel, selectors)
            } by {
            if asked[i].1@.contains(g) {
                assert(walk.contains(g));
            }
            if registry.getters.contains_key(g) && registry.getters[g].channel.adapter
                == asked[i].0 && wanted(m, registry.getters[g].channel, selectors) {
                assert(walk.contains(g));
                let k = choose|k: int|
                    0 <= k < asked.len() && (#[trigger] asked[k]).0
                        == registry.getters[g].channel.adapter && asked[k].1@.contains(g);
                assert(asked[k].0 == asked[i].0);
                assert(k == i);
            }
        }
    }
    assert forall|g: GetterId| #[trigger]
        registry.getters.contains_key(g) && wanted(
            m,
            registry.getters[g].channel,
            selectors,
        ) implies exists|i: int|
        0 <= i < asked.len() && (#[trigger] asked[i]).0
            == registry.getters[g].channel.adapter by {
        assert(walk.contains(g));
    }
    assert(fetched_exactly(registry, m, selectors, asked, replies, results));
}

/// What of `walk` is in the charge of `a`, in order.
spec fn kept(walk: Seq<u64>, charge: spec_fn(u64) -> AdapterId, a: AdapterId) -> Seq<u64>
    decreases walk.len(),
{
    if walk.len() == 0 {
        Seq::empty()
    } else {
        let rest = kept(walk.drop_last(), charge, a);
        if charge(walk.last()) == a {
            rest.push(walk.last())
        } else {
            rest
        }
    }
}

proof fn lemma_kept(walk: Seq<u64>, charge: spec_fn(u64) -> AdapterId, a: AdapterId)
    requires
        walk.no_duplicates(),
    ensures
        kept(walk, charge, a).no_duplicates(),
        forall|x: u64| #[trigger]
            kept(walk, charge, a).contains(x) <==> walk.contains(x) && charge(x) == a,
    decreases walk.len(),
{
    if walk.len() > 0 {
        let rest = walk.drop_last();
        let last = walk.last();
        lemma_kept(rest, charge, a);
        let before = kept(rest, charge, a);
        assert(walk =~= rest.push(last));
        rest.lemma_push_to_set_commute(last);
        before.lemma_push_to_set_commute(last);
        assert(!rest.contains(last));
        assert(!before.contains(last));
        assert(before.push(last).no_duplicates());
        assert forall|x: u64| #[trigger]
            kept(walk, charge, a).contains(x) <==> walk.contains(x) && charge(x) == a by {
            assert(walk.to_set().contains(x) == walk.contains(x));
            assert(rest.to_set().contains(x) == rest.contains(x));
            assert(before.to_set().contains(x) == before.contains(x));
            assert(before.push(last).to_set().contains(x) == before.push(last).contains(x));
        }
    }
}

proof fn lemma_share_kept<T>(
    walk: Seq<u64>,
    charge: spec_fn(u64) -> AdapterId,
    item: spec_fn(u64) -> T,
    work: Seq<(AdapterId, T)>,
    a: AdapterId,
)
    requires
        work == walk.map_values(|x: u64| (charge(x), item(x))),
    ensures
        share(work, a) == kept(walk, charge, a).map_values(item),
    decreases walk.len(),
{
    if walk.len() > 0 {
        let rest = walk.drop_last();
        assert(work.drop_last() =~= rest.map_values(|x: u64| (charge(x), item(x))));
        lemma_share_kept(rest, charge, item, work.drop_last(), a);
    }
    assert(share(work, a) =~= kept(walk, charge, a).map_values(item));
}

proof fn lemma_share_add<T>(one: Seq<(AdapterId, T)>, two: Seq<(AdapterId, T)>, a: AdapterId)
    ensures
        share(one + two, a) == share(one, a) + share(two, a),
    decreases two.len(),
{
    if two.len() == 0 {
        assert(one + two =~= one);
        assert(share(one, a) + share(two, a) =~= share(one, a));
    } else {
        assert((one + two).drop_last() =~= one + two.drop_last());
        lemma_share_add(one, two.drop_last(), a);
        assert(share(one + two, a) =~= share(one, a) + share(two, a));
    }
}

proof fn lemma_share_flatten<T>(
    parts: Seq<Seq<(AdapterId, T)>>,
    shares: Seq<Seq<T>>,
    a: AdapterId,
)
    requires
        shares.len() == parts.len(),
        forall|j: int|
            #![trigger parts[j]]
            0 <= j < parts.len() ==> shares[j] == share(parts[j], a),
    ensures
        share(parts.flatten(), a) == shares.flatten(),
    decreases parts.len(),
{
    if parts.len() == 0 {
        assert(parts.flatten() =~= Seq::empty());
        assert(shares.flatten() =~= Seq::empty());
    } else {
        let rest = parts.drop_last();
        let less = shares.drop_last();
        assert forall|j: int|
            #![trigger rest[j]]
            0 <= j < rest.len() implies less[j] == share(rest[j], a) by {
            assert(parts[j] == rest[j]);
        }
        lemma_share_flatten(rest, less, a);
        assert(parts =~= rest.push(parts.last()));
        assert(shares =~= less.push(shares.last()));
        rest.lemma_flatten_push(parts.last());
        less.lemma_flatten_push(shares.last());
        lemma_share_add(rest.flatten(), parts.last(), a);
        assert(parts[parts.len() - 1] == parts.last());
    }
}

/// `batch` is made of one block for each of `keyvalues`, in order: the value with each setter in
/// the charge of `a` that matches some of the selectors, once.
pub open spec fn is_send_batch<X: Taxonomy, A>(
    registry: Registry<X, A>,
    m: spec_fn(ChannelView<X::Setter>, X::SetterSelector) -> bool,
    keyvalues: Seq<(Vec<X::SetterSelector>, Arc<X::Value>)>,
    a: AdapterId,
    blocks: Seq<Seq<SetterId>>,
    batch: Seq<(SetterId, Arc<X::Value>)>,
) -> bool {
    &&& blocks.len() == keyvalues.len()
    &&& forall|j: int|
        #![trigger blocks[j]]
        0 <= j < blocks.len() ==> {
            &&& blocks[j].no_duplicates()
            &&& forall|t: SetterId| #[trigger]
                blocks[j].contains(t) <==> {
                    &&& registry.setters.contains_key(t)
                    &&& registry.setters[t].adapter == a
                    &&& wanted(m, registry.setters[t], keyvalues[j].0@)
                }
        }
    &&& batch == Seq::new(
        blocks.len(),
        |j: int| blocks[j].map_values(|t: SetterId| (t, keyvalues[j].1)),
    ).flatten()
}

/// `batch` may be what the adapter `a` is to send.
pub open spec fn due_to_send<X: Taxonomy, A>(
    registry: Registry<X, A>,
    m: spec_fn(ChannelView<X::Setter>, X::SetterSelector) -> bool,
    keyvalues: Seq<(Vec<X::SetterSelector>, Arc<X::Value>)>,
    a: AdapterId,
    batch: Seq<(SetterId, Arc<X::Value>)>,
) -> bool {
    exists|blocks: Seq<Seq<SetterId>>| #[trigger]
        is_send_batch(registry, m, keyvalues, a, blocks, batch)
}

/// The requests `asked`, to different adapters that are registered, hold each value with each
/// setter that matches some of its selectors, in the request to the adapter in charge, and nothing
/// else; each adapter gave one of `replies`, and these joined are `results`.
pub open spec fn sent_exactly<X: Taxonomy, A: Adapter<X>>(
    registry: Registry<X, A>,
    m: spec_fn(ChannelView<X::Setter>, X::SetterSelector) -> bool,
    keyvalues: Seq<(Vec<X::SetterSelector>, Arc<X::Value>)>,
    asked: Seq<(AdapterId, Vec<(SetterId, Arc<X::Value>)>)>,
    replies: Seq<Seq<(SetterId, Result<(), X::AdapterError>)>>,
    results: Seq<(SetterId, Result<(), X::AdapterError>)>,
) -> bool {
    &&& replies.len() == asked.len()
    &&& forall|i: int, j: int|
        #![trigger asked[i], asked[j]]
        0 <= i < j < asked.len() ==> asked[i].0 != asked[j].0
    &&& forall|i: int|
        #![trigger asked[i]]
        0 <= i < asked.len() ==> {
            &&& registry.adapters.contains_key(asked[i].0)
            &&& was_asked_to_send::<X, A>(
                registry.adapters[asked[i].0].adapter,
                asked[i].1@,
                replies[i],
            )
            &&& asked[i].1@.len() > 0
            &&& due_to_send(registry, m, keyvalues, asked[i].0, asked[i].1@)
        }
    &&& forall|t: SetterId, j: int|
        #![trigger registry.setters.contains_key(t), keyvalues[j]]
        registry.setters.contains_key(t) && 0 <= j < keyvalues.len() && wanted(
            m,
            registry.setters[t],
            keyvalues[j].0@,
        ) ==> exists|i: int|
            0 <= i < asked.len() && (#[trigger] asked[i]).0 == registry.setters[t].adapter
                && asked[i].1@.contains((t, keyvalues[j].1))
    &&& results == replies.flatten()
}

/// Sending values sends each of them to each setter that matches some of its selectors, through
/// the adapter in charge, in order, one request for each adapter; it sends nothing else, and
/// returns what the adapters replied.
pub proof fn law_values_are_sent_to_what_matches<X: Taxonomy, A: Adapter<X>>(
    registry: Registry<X, A>,
    m: spec_fn(ChannelView<X::Setter>, X::SetterSelector) -> bool,
    keyvalues: Seq<(Vec<X::SetterSelector>, Arc<X::Value>)>,
    results: Seq<(SetterId, Result<(), X::AdapterError>)>,
)
    requires
        registry.consistent(),
        decides_setters::<X>(m),
        registry.may_send(keyvalues, results),
    ensures
        exists|
            asked: Seq<(AdapterId, Vec<(SetterId, Arc<X::Value>)>)>,
            replies: Seq<Seq<(SetterId, Result<(), X::AdapterError>)>>,
        | #[trigger]
            sent_exactly(registry, m, keyvalues, asked, replies, results),
{
    let (walks, asked, replies) = choose|
        walks: Seq<Seq<SetterId>>,
        requests: Seq<(AdapterId, Vec<(SetterId, Arc<X::Value>)>)>,
        replies: Seq<Seq<(SetterId, Result<(), X::AdapterError>)>>,
    | #[trigger]
        registry.sent(keyvalues, walks, requests, replies, results);
    law_each_value_reaches_its_setters(registry, keyvalues, walks, asked);
    assert forall|j: int|
        #![trigger walks[j]]
        0 <= j < walks.len() implies {
        &&& walks[j].no_duplicates()
        &&& forall|t: SetterId| #[trigger]
            walks[j].contains(t) <==> registry.setters.contains_key(t) && wanted(
                m,
                registry.setters[t],
                keyvalues[j].0@,
            )
    } by {
        lemma_setters_wanted(registry, m, keyvalues[j].0@, walks[j]);
    }
    assert forall|i: int|
        #![trigger asked[i]]
        0 <= i < asked.len() implies {
        &&& registry.adapters.contains_key(asked[i].0)
        &&& was_asked_to_send::<X, A>(
            registry.adapters[asked[i].0].adapter,
            asked[i].1@,
            replies[i],
        )
        &&& asked[i].1@.len() > 0
        &&& due_to_send(registry, m, keyvalues, asked[i].0, asked[i].1@)
    } by {
        assert(send_reply::<X, A>(
            registry.adapters[asked[i].0].adapter,
            asked[i].1@,
            replies[i],
        ));
        lemma_send_call::<X, A>(
            registry.adapters[asked[i].0].adapter,
            asked[i].1@,
            replies[i],
        );
        lemma_send_batch(registry, m, keyvalues, walks, asked[i].0);
    }
    assert forall|t: SetterId, j: int|
        #![trigger registry.setters.contains_key(t), keyvalues[j]]
        registry.setters.contains_key(t) && 0 <= j < keyvalues.len() && wanted(
            m,
            registry.setters[t],
            keyvalues[j].0@,
        ) implies exists|i: int|
        0 <= i < asked.len() && (#[trigger] asked[i]).0 == registry.setters[t].adapter
            && asked[i].1@.contains((t, keyvalues[j].1)) by {
        assert(walks[j].contains(t));
    }
    assert(sent_exactly(registry, m, keyvalues, asked, replies, results));
}

proof fn lemma_send_batch<X: Taxonomy, A>(
    registry: Registry<X, A>,
    m: spec_fn(ChannelView<X::Setter>, X::SetterSelector) -> bool,
    keyvalues: Seq<(Vec<X::SetterSelector>, Arc<X::Value>)>,
    walks: Seq<Seq<SetterId>>,
    a: AdapterId,
)
    requires
        walks.len() == keyvalues.len(),
        forall|j: int|
            #![trigger walks[j]]
            0 <= j < walks.len() ==> {
                &&& walks[j].no_duplicates()
                &&& forall|t: SetterId| #[trigger]
                    walks[j].contains(t) <==> registry.setters.contains_key(t) && wanted(
                        m,
                        registry.setters[t],
                        keyvalues[j].0@,
                    )
            },
    ensures
        due_to_send(
            registry,
            m,
            keyvalues,
            a,
            share(registry.send_all_work(keyvalues, walks), a),
        ),
{
    let charge = |t: SetterId| registry.setters[t].adapter;
    let blocks = Seq::new(walks.len(), |j: int| kept(walks[j], charge, a));
    let parts = Seq::new(walks.len(), |j: int| registry.send_work(walks[j], keyvalues[j].1));
    let shares = Seq::new(
        blocks.len(),
        |j: int| blocks[j].map_values(|t: SetterId| (t, keyvalues[j].1)),
    );
    assert forall|j: int|
        #![trigger parts[j]]
        0 <= j < parts.len() implies shares[j] == share(parts[j], a) by {
        let item = |t: SetterId| (t, keyvalues[j].1);
        assert(parts[j] =~= walks[j].map_values(|t: SetterId| (charge(t), item(t))));
        lemma_share_kept(walks[j], charge, item, parts[j], a);
        assert(shares[j] =~= blocks[j].map_values(item));
    }
    lemma_share_flatten(parts, shares, a);
    assert forall|j: int|
        #![trigger blocks[j]]
        0 <= j < blocks.len() implies {
        &&& blocks[j].no_duplicates()
        &&& forall|t: SetterId| #[trigger]
            blocks[j].contains(t) <==> {
                &&& registry.setters.contains_key(t)
                &&& registry.setters[t].adapter == a
                &&& wanted(m, registry.setters[t], keyvalues[j].0@)
            }
    } by {
        lemma_kept(walks[j], charge, a);
    }
    assert(is_send_batch(
        registry,
        m,
        keyvalues,
        a,
        blocks,
        share(registry.send_all_work(keyvalues, walks), a),
    ));
}

/// The values that a filter has watched for: those in a range, or all of them.
pub open spec fn range_for<R>(filter: Exactly<R>) -> Option<R> {
    match filter {
        Exactly::Exactly(range) => Some(range),
        _ => None,
    }
}

/// `batch` is made of one block for each part of `watch`, in order: unless the part watches for no
/// values, each getter in the charge of `a` that matches some of its selectors, once, with the
/// values to watch for.
pub open spec fn is_watch_batch<X: Taxonomy, A>(
    registry: Registry<X, A>,
    m: spec_fn(ChannelView<X::Getter>, X::GetterSelector) -> bool,
    watch: Seq<(Vec<X::GetterSelector>, Exactly<Arc<X::Range>>)>,
    a: AdapterId,
    blocks: Seq<Seq<GetterId>>,
    batch: Seq<(GetterId, Option<Arc<X::Range>>)>,
) -> bool {
    &&& blocks.len() == watch.len()
    &&& forall|j: int|
        #![trigger blocks[j]]
        0 <= j < blocks.len() ==> {
            &&& blocks[j].no_duplicates()
            &&& forall|g: GetterId| #[trigger]
                blocks[j].contains(g) <==> {
                    &&& registry.getters.contains_key(g)
                    &&& registry.getters[g].channel.adapter == a
                    &&& wanted(m, registry.getters[g].channel, watch[j].0@)
                    &&& !(watch[j].1 is Never)
                }
        }
    &&& batch == Seq::new(
        blocks.len(),
        |j: int| blocks[j].map_values(|g: GetterId| (g, range_for(watch[j].1))),
    ).flatten()
}

/// `batch` may be what the adapter `a` is to watch.
pub open spec fn due_to_watch<X: Taxonomy, A>(
    registry: Registry<X, A>,
    m: spec_fn(ChannelView<X::Getter>, X::GetterSelector) -> bool,
    watch: Seq<(Vec<X::GetterSelector>, Exactly<Arc<X::Range>>)>,
    a: AdapterId,
    batch: Seq<(GetterId, Option<Arc<X::Range>>)>,
) -> bool {
    exists|blocks: Seq<Seq<GetterId>>| #[trigger]
        is_watch_batch(registry, m, watch, a, blocks, batch)
}

/// The requests `asked`, to different adapters that are registered, are for each getter that
/// matches some of the selectors of some part of `watch`, with the values to watch for, in the
/// request to the adapter in charge, and for nothing else.
pub open spec fn asked_to_watch_exactly<X: Taxonomy, A>(
    registry: Registry<X, A>,
    m: spec_fn(ChannelView<X::Getter>, X::GetterSelector) -> bool,
    watch: Seq<(Vec<X::GetterSelector>, Exactly<Arc<X::Range>>)>,
    asked: Seq<(AdapterId, Vec<(GetterId, Option<Arc<X::Range>>)>)>,
) -> bool {
    &&& forall|i: int, j: int|
        #![trigger asked[i], asked[j]]
        0 <= i < j < asked.len() ==> asked[i].0 != asked[j].0
    &&& forall|i: int|
        #![trigger asked[i]]
        0 <= i < asked.len() ==> {
            &&& registry.adapters.contains_key(asked[i].0)
            &&& asked[i].1@.len() > 0
            &&& due_to_watch(registry, m, watch, asked[i].0, asked[i].1@)
        }
    &&& forall|g: GetterId, j: int|
        #![trigger registry.getters.contains_key(g), watch[j]]
        registry.getters.contains_key(g) && 0 <= j < watch.len() && wanted(
            m,
            registry.getters[g].channel,
            watch[j].0@,
        ) && !(watch[j].1 is Never) ==> exists|i: int|
            0 <= i < asked.len() && (#[trigger] asked[i]).0 == registry.getters[g].channel.adapter
                && asked[i].1@.contains((g, range_for(watch[j].1)))
}

/// Some part of a watch has a selector that chooses the getter.
pub open spec fn wanted_by_part<C, Q, F>(
    m: spec_fn(C, Q) -> bool,
    getter: C,
    watch: Seq<(Vec<Q>, F)>,
) -> bool {
    exists|j: int| 0 <= j < watch.len() && wanted(m, getter, (#[trigger] watch[j]).0@)
}

/// `after` is the registry with one more watch, which holds what the client asked for, where it
/// listens, its flag and these guards, and which includes each getter that matches some of the
/// selectors of some part of it, and no others. Everything else is as it was.
pub open spec fn watches_exactly<X: Taxonomy, A>(
    registry: Registry<X, A>,
    m: spec_fn(ChannelView<X::Getter>, X::GetterSelector) -> bool,
    watch: Seq<(Vec<X::GetterSelector>, Exactly<Arc<X::Range>>)>,
    is_dropped: Arc<AtomicBool>,
    on_event: Arc<X::EventSender>,
    guards: Seq<X::AdapterWatchGuard>,
    after: Registry<X, A>,
) -> bool {
    let key = registry.watches.next_key as usize;
    let new = after.watches.watchers[key];
    &&& after.adapters == registry.adapters
    &&& after.services == registry.services
    &&& after.setters == registry.setters
    &&& after.watches.next_key == registry.watches.next_key + 1
    &&& !registry.watches.watchers.contains_key(key)
    &&& after.watches.watchers.contains_key(key)
    &&& after.watches.watchers.remove(key) == registry.watches.watchers
    &&& new.key == key
    &&& new.watch == watch
    &&& new.on_event == on_event
    &&& new.is_dropped == is_dropped
    &&& new.guards == guards
    &&& forall|g: GetterId| #[trigger]
        new.getters.contains(g) <==> registry.getters.contains_key(g) && wanted_by_part(
            m,
            registry.getters[g].channel,
            watch,
        )
    &&& after.getters.dom() == registry.getters.dom()
    &&& forall|g: GetterId| #[trigger]
        registry.getters.contains_key(g) ==> {
            &&& after.getters[g].channel == registry.getters[g].channel
            &&& forall|k: usize| #[trigger]
                after.getters[g].watchers.contains(k) <==> {
                    ||| registry.getters[g].watchers.contains(k)
                    ||| k == key && wanted_by_part(m, registry.getters[g].channel, watch)
                }
        }
}

/// The adapters that got the requests `asked` gave `replies`, while reporting to the client and by
/// the flag of the watch, and the client was told of all the errors in each of them.
pub open spec fn watch_replied_exactly<X: Taxonomy, A: Adapter<X>>(
    registry: Registry<X, A>,
    is_dropped: Arc<AtomicBool>,
    on_event: Arc<X::EventSender>,
    asked: Seq<(AdapterId, Vec<(GetterId, Option<Arc<X::Range>>)>)>,
    replies: Seq<Seq<(GetterId, Result<X::AdapterWatchGuard, X::AdapterError>)>>,
) -> bool {
    &&& replies.len() == asked.len()
    &&& forall|i: int|
        #![trigger asked[i]]
        0 <= i < asked.len() ==> {
            &&& was_asked_to_watch_for::<X, A>(
                registry.adapters[asked[i].0].adapter,
                asked[i].1@,
                is_dropped,
                on_event,
                replies[i],
            )
            &&& errors_in::<X>(replies[i]).len() > 0 ==> client_was_told::<X>(
                on_event,
                errors_in::<X>(replies[i]),
            )
        }
}

/// Registering a watch attaches it to each getter that matches some of the selectors of some part
/// of it, and to no others; has the adapters in charge asked to watch these getters for the values
/// of each part, one request for each adapter; keeps the guards in their replies, in order; and
/// tells the client of the errors.
pub proof fn law_watch_is_registered_on_what_matches<X: Taxonomy, A: Adapter<X>>(
    registry: Registry<X, A>,
    m: spec_fn(ChannelView<X::Getter>, X::GetterSelector) -> bool,
    watch: Seq<(Vec<X::GetterSelector>, Exactly<Arc<X::Range>>)>,
    is_dropped: Arc<AtomicBool>,
    on_event: Arc<X::EventSender>,
    after: Registry<X, A>,
)
    requires
        registry.consistent(),
        registry.watches.next_key < usize::MAX,
        decides_getters::<X>(m),
        registry.may_register_watch(watch, is_dropped, on_event, after),
    ensures
        exists|
            asked: Seq<(AdapterId, Vec<(GetterId, Option<Arc<X::Range>>)>)>,
            replies: Seq<Seq<(GetterId, Result<X::AdapterWatchGuard, X::AdapterError>)>>,
        |
            {
                &&& asked_to_watch_exactly(registry, m, watch, asked)
                &&& #[trigger] watch_replied_exactly(
                    registry,
                    is_dropped,
                    on_event,
                    asked,
                    replies,
                )
                &&& watches_exactly(
                    registry,
                    m,
                    watch,
                    is_dropped,
                    on_event,
                    replies.map_values(
                        |reply: Seq<(GetterId, Result<X::AdapterWatchGuard, X::AdapterError>)>|
                            guards_in::<X>(reply),
                    ).flatten(),
                    after,
                )
            },
{
    let (walks, asked, replies) = choose|
        walks: Seq<Seq<GetterId>>,
        requests: Seq<(AdapterId, Vec<(GetterId, Option<Arc<X::Range>>)>)>,
        replies: Seq<Seq<(GetterId, Result<X::AdapterWatchGuard, X::AdapterError>)>>,
    | #[trigger]
        registry.watch_registered(watch, is_dropped, on_event, walks, requests, replies, after);
    lemma_asked_to_watch(registry, m, watch, walks, asked);
    assert forall|i: int|
        #![trigger asked[i]]
        0 <= i < asked.len() implies {
        &&& was_asked_to_watch_for::<X, A>(
            registry.adapters[asked[i].0].adapter,
            asked[i].1@,
            is_dropped,
            on_event,
            replies[i],
        )
        &&& errors_in::<X>(replies[i]).len() > 0 ==> client_was_told::<X>(
            on_event,
            errors_in::<X>(replies[i]),
        )
    } by {
        assert(registry.watch_asked(asked[i].0, asked[i].1@, is_dropped, on_event, replies[i]));
        lemma_watch_asked(registry, asked[i].0, asked[i].1@, is_dropped, on_event, replies[i]);
        law_reply_is_sorted::<X>(replies[i]);
        if errors_in::<X>(replies[i]).len() > 0 {
            lemma_told::<X>(on_event, refused::<X>(replies[i]));
        }
    }
    assert(watch_replied_exactly(registry, is_dropped, on_event, asked, replies));
    law_registering_touches_one_watch(
        registry,
        watch,
        is_dropped,
        on_event,
        walks,
        asked,
        replies,
        after,
    );
    let guards = replies.map_values(
        |reply: Seq<(GetterId, Result<X::AdapterWatchGuard, X::AdapterError>)>|
            guards_in::<X>(reply),
    ).flatten();
    assert(granted_by_all::<X>(replies) == guards) by {
        assert forall|i: int| 0 <= i < replies.len() implies granted::<X>(#[trigger] replies[i])
            == guards_in::<X>(replies[i]) by {
            law_reply_is_sorted::<X>(replies[i]);
        }
        assert(replies.map_values(
            |reply: Seq<(GetterId, Result<X::AdapterWatchGuard, X::AdapterError>)>|
                granted::<X>(reply),
        ) =~= replies.map_values(
            |reply: Seq<(GetterId, Result<X::AdapterWatchGuard, X::AdapterError>)>|
                guards_in::<X>(reply),
        ));
    }
    lemma_walks_wanted(registry, m, watch, walks);
    let key = registry.watches.next_key as usize;
    assert forall|g: GetterId| #[trigger] registry.getters.contains_key(g) implies {
        &&& after.getters[g].channel == registry.getters[g].channel
        &&& forall|k: usize| #[trigger]
            after.getters[g].watchers.contains(k) <==> {
                ||| registry.getters[g].watchers.contains(k)
                ||| k == key && wanted_by_part(m, registry.getters[g].channel, watch)
            }
    } by {
        assert forall|k: usize| #[trigger]
            after.getters[g].watchers.contains(k) <==> {
                ||| registry.getters[g].watchers.contains(k)
                ||| k == key && wanted_by_part(m, registry.getters[g].channel, watch)
            } by {
            assert(!registry.getters[g].watchers.contains(key));
            assert(after.getters[g].watchers.remove(key).contains(k)
                == registry.getters[g].watchers.contains(k));
            assert(walks.flatten().contains(g) == wanted_by_part(
                m,
                registry.getters[g].channel,
                watch,
            ));
        }
    }
    assert forall|g: GetterId| #[trigger]
        after.watches.watchers[key].getters.contains(g) <==> registry.getters.contains_key(g)
            && wanted_by_part(m, registry.getters[g].channel, watch) by {
        assert(walks.flatten().to_set().contains(g) == walks.flatten().contains(g));
    }
    assert(watches_exactly(registry, m, watch, is_dropped, on_event, guards, after));
}

/// Starting a watch attaches it as registering does, and gives the requests that are due to the
/// adapters, of which none has been asked yet.
pub proof fn law_watch_is_started_on_what_matches<X: Taxonomy, A>(
    registry: Registry<X, A>,
    m: spec_fn(ChannelView<X::Getter>, X::GetterSelector) -> bool,
    watch: Seq<(Vec<X::GetterSelector>, Exactly<Arc<X::Range>>)>,
    is_dropped: Arc<AtomicBool>,
    on_event: Arc<X::EventSender>,
    after: Registry<X, A>,
    requests: Seq<(AdapterId, Vec<(GetterId, Option<Arc<X::Range>>)>)>,
)
    requires
        registry.consistent(),
        registry.watches.next_key < usize::MAX,
        decides_getters::<X>(m),
        registry.may_start_watch(watch, is_dropped, on_event, after, requests),
    ensures
        asked_to_watch_exactly(registry, m, watch, requests),
        watches_exactly(registry, m, watch, is_dropped, on_event, Seq::empty(), after),
{
    let walks = choose|walks: Seq<Seq<GetterId>>| #[trigger]
        registry.watch_started(watch, is_dropped, on_event, walks, after, requests);
    lemma_asked_to_watch(registry, m, watch, walks, requests);
    lemma_walks_wanted(registry, m, watch, walks);
    let key = registry.watches.next_key as usize;
    let new = after.watches.watchers[key];
    assert(after.watches.watchers.remove(key) =~= registry.watches.watchers);
    assert(after.getters.dom() =~= registry.getters.dom());
    assert forall|g: GetterId| #[trigger]
        new.getters.contains(g) <==> registry.getters.contains_key(g) && wanted_by_part(
            m,
            registry.getters[g].channel,
            watch,
        ) by {
        assert(walks.flatten().to_set().contains(g) == walks.flatten().contains(g));
    }
    assert forall|g: GetterId| #[trigger] registry.getters.contains_key(g) implies {
        &&& after.getters[g].channel == registry.getters[g].channel
        &&& forall|k: usize| #[trigger]
            after.getters[g].watchers.contains(k) <==> {
                ||| registry.getters[g].watchers.contains(k)
                ||| k == key && wanted_by_part(m, registry.getters[g].channel, watch)
            }
    } by {
        assert(walks.flatten().to_set().contains(g) == walks.flatten().contains(g));
    }
}

/// The getters in `walks` are those that some part of the watch has a selector for.
proof fn lemma_walks_wanted<X: Taxonomy, A>(
    registry: Registry<X, A>,
    m: spec_fn(ChannelView<X::Getter>, X::GetterSelector) -> bool,
    watch: Seq<(Vec<X::GetterSelector>, Exactly<Arc<X::Range>>)>,
    walks: Seq<Seq<GetterId>>,
)
    requires
        decides_getters::<X>(m),
        registry.watch_chosen(watch, walks),
    ensures
        forall|g: GetterId| #[trigger]
            walks.flatten().contains(g) <==> registry.getters.contains_key(g) && wanted_by_part(
                m,
                registry.getters[g].channel,
                watch,
            ),
{
    assert forall|g: GetterId| #[trigger]
        walks.flatten().contains(g) <==> registry.getters.contains_key(g) && wanted_by_part(
            m,
            registry.getters[g].channel,
            watch,
        ) by {
        lemma_flatten_members(walks, g);
        if walks.flatten().contains(g) {
            let j = choose|j: int| 0 <= j < walks.len() && (#[trigger] walks[j]).contains(g);
            lemma_getters_wanted(registry, m, watch[j].0@, walks[j]);
            assert(wanted(m, registry.getters[g].channel, watch[j].0@));
        }
        if registry.getters.contains_key(g) && wanted_by_part(
            m,
            registry.getters[g].channel,
            watch,
        ) {
            let j = choose|j: int|
                0 <= j < watch.len() && wanted(
                    m,
                    registry.getters[g].channel,
                    (#[trigger] watch[j]).0@,
                );
            lemma_getters_wanted(registry, m, watch[j].0@, walks[j]);
            assert(walks[j].contains(g));
        }
    }
}

proof fn lemma_asked_to_watch<X: Taxonomy, A>(
    registry: Registry<X, A>,
    m: spec_fn(ChannelView<X::Getter>, X::GetterSelector) -> bool,
    watch: Seq<(Vec<X::GetterSelector>, Exactly<Arc<X::Range>>)>,
    walks: Seq<Seq<GetterId>>,
    asked: Seq<(AdapterId, Vec<(GetterId, Option<Arc<X::Range>>)>)>,
)
    requires
        registry.consistent(),
        decides_getters::<X>(m),
        registry.watch_chosen(watch, walks),
        is_split(registry.watch_all_work(watch, walks), asked),
    ensures
        asked_to_watch_exactly(registry, m, watch, asked),
{
    law_each_getter_is_watched(registry, watch, walks, asked);
    assert forall|j: int|
        #![trigger walks[j]]
        0 <= j < walks.len() implies {
        &&& walks[j].no_duplicates()
        &&& forall|g: GetterId| #[trigger]
            walks[j].contains(g) <==> registry.getters.contains_key(g) && wanted(
                m,
                registry.getters[g].channel,
                watch[j].0@,
            )
    } by {
        lemma_getters_wanted(registry, m, watch[j].0@, walks[j]);
    }
    assert forall|i: int|
        #![trigger asked[i]]
        0 <= i < asked.len() implies {
        &&& registry.adapters.contains_key(asked[i].0)
        &&& asked[i].1@.len() > 0
        &&& due_to_watch(registry, m, watch, asked[i].0, asked[i].1@)
    } by {
        lemma_watch_batch(registry, m, watch, walks, asked[i].0);
    }
    assert forall|g: GetterId, j: int|
        #![trigger registry.getters.contains_key(g), watch[j]]
        registry.getters.contains_key(g) && 0 <= j < watch.len() && wanted(
            m,
            registry.getters[g].channel,
            watch[j].0@,
        ) && !(watch[j].1 is Never) implies exists|i: int|
        0 <= i < asked.len() && (#[trigger] asked[i]).0 == registry.getters[g].channel.adapter
            && asked[i].1@.contains((g, range_for(watch[j].1))) by {
        assert(walks[j].contains(g));
        assert(watches_for(watch[j].1, range_for(watch[j].1)));
    }
}

proof fn lemma_watch_batch<X: Taxonomy, A>(
    registry: Registry<X, A>,
    m: spec_fn(ChannelView<X::Getter>, X::GetterSelector) -> bool,
    watch: Seq<(Vec<X::GetterSelector>, Exactly<Arc<X::Range>>)>,
    walks: Seq<Seq<GetterId>>,
    a: AdapterId,
)
    requires
        walks.len() == watch.len(),
        forall|j: int|
            #![trigger walks[j]]
            0 <= j < walks.len() ==> {
                &&& walks[j].no_duplicates()
                &&& forall|g: GetterId| #[trigger]
                    walks[j].contains(g) <==> registry.getters.contains_key(g) && wanted(
                        m,
                        registry.getters[g].channel,
                        watch[j].0@,
                    )
            },
    ensures
        due_to_watch(
            registry,
            m,
            watch,
            a,
            share(registry.watch_all_work(watch, walks), a),
        ),
{
    let charge = |g: GetterId| registry.getters[g].channel.adapter;
    let blocks = Seq::new(
        walks.len(),
        |j: int|
            if watch[j].1 is Never {
                Seq::<GetterId>::empty()
            } else {
                kept(walks[j], charge, a)
            },
    );
    let parts = Seq::new(walks.len(), |j: int| registry.watch_work(walks[j], watch[j].1));
    let shares = Seq::new(
        blocks.len(),
        |j: int| blocks[j].map_values(|g: GetterId| (g, range_for(watch[j].1))),
    );
    assert forall|j: int|
        #![trigger parts[j]]
        0 <= j < parts.len() implies shares[j] == share(parts[j], a) by {
        if watch[j].1 is Never {
            assert(shares[j] =~= Seq::empty());
        } else {
            let item = |g: GetterId| (g, range_for(watch[j].1));
            assert(parts[j] =~= walks[j].map_values(|g: GetterId| (charge(g), item(g))));
            lemma_share_kept(walks[j], charge, item, parts[j], a);
            assert(shares[j] =~= blocks[j].map_values(item));
        }
    }
    lemma_share_flatten(parts, shares, a);
    assert forall|j: int|
        #![trigger blocks[j]]
        0 <= j < blocks.len() implies {
        &&& blocks[j].no_duplicates()
        &&& forall|g: GetterId| #[trigger]
            blocks[j].contains(g) <==> {
                &&& registry.getters.contains_key(g)
                &&& registry.getters[g].channel.adapter == a
                &&& wanted(m, registry.getters[g].channel, watch[j].0@)
                &&& !(watch[j].1 is Never)
            }
    } by {
        lemma_kept(walks[j], charge, a);
    }
    assert(is_watch_batch(
        registry,
        m,
        watch,
        a,
        blocks,
        share(registry.watch_all_work(watch, walks), a),
    ));
}

/// Asking one adapter to take part in a watch: if it is registered it is asked just that, with the
/// events reported to the client by the flag; the watch with this key, if there is one, holds the
/// guards in the reply after those it had, and the client is told of the errors. Nothing else
/// changes.
pub proof fn law_watch_is_dispatched_to_one_adapter<X: Taxonomy, A: Adapter<X>>(
    registry: Registry<X, A>,
    key: usize,
    adapter: AdapterId,
    request: Seq<(GetterId, Option<Arc<X::Range>>)>,
    is_dropped: Arc<AtomicBool>,
    on_event: Arc<X::EventSender>,
    after: Registry<X, A>,
)
    requires
        registry.watch_dispatched(key, adapter, request, is_dropped, on_event, after),
    ensures
        !registry.adapters.contains_key(adapter) ==> after == registry,
        registry.adapters.contains_key(adapter) ==> exists|
            reply: Seq<(GetterId, Result<X::AdapterWatchGuard, X::AdapterError>)>,
        |
            {
                &&& #[trigger] was_asked_to_watch_for::<X, A>(
                    registry.adapters[adapter].adapter,
                    request,
                    is_dropped,
                    on_event,
                    reply,
                )
                &&& errors_in::<X>(reply).len() > 0 ==> client_was_told::<X>(
                    on_event,
                    errors_in::<X>(reply),
                )
                &&& guards_are_added(registry, key, guards_in::<X>(reply), after)
            },
{
    let reply = choose|reply: Seq<(GetterId, Result<X::AdapterWatchGuard, X::AdapterError>)>|
        #[trigger] registry.watch_asked(adapter, request, is_dropped, on_event, reply)
            && told_of::<X>(on_event, refused::<X>(reply)) && after == registry.watch_granted(
            key,
            reply,
        );
    law_guards_are_kept(registry, key, reply);
    law_reply_is_sorted::<X>(reply);
    if registry.adapters.contains_key(adapter) {
        lemma_watch_asked(registry, adapter, request, is_dropped, on_event, reply);
        if errors_in::<X>(reply).len() > 0 {
            lemma_told::<X>(on_event, refused::<X>(reply));
        }
    } else {
        assert(granted::<X>(reply) =~= Seq::empty());
        if registry.watches.watchers.contains_key(key) {
            let data = registry.watches.watchers[key];
            assert(data.guards + Seq::empty() =~= data.guards);
            assert(after.watches.watchers =~= registry.watches.watchers);
        }
    }
}

/// `after` is the registry where the watch with this key, if there is one, also holds `guards`.
pub open spec fn guards_are_added<X: Taxonomy, A>(
    registry: Registry<X, A>,
    key: usize,
    guards: Seq<X::AdapterWatchGuard>,
    after: Registry<X, A>,
) -> bool {
    &&& after.adapters == registry.adapters
    &&& after.services == registry.services
    &&& after.getters == registry.getters
    &&& after.setters == registry.setters
    &&& after.watches.next_key == registry.watches.next_key
    &&& after.watches.watchers.dom() == registry.watches.watchers.dom()
    &&& forall|k: usize| #[trigger]
        registry.watches.watchers.contains_key(k) ==> {
            let old_data = registry.watches.watchers[k];
            let new_data = after.watches.watchers[k];
            &&& new_data.watch == old_data.watch
            &&& new_data.on_event == old_data.on_event
            &&& new_data.key == old_data.key
            &&& new_data.getters == old_data.getters
            &&& new_data.is_dropped == old_data.is_dropped
            &&& new_data.guards == if k == key {
                old_data.guards + guards
            } else {
                old_data.guards
            }
        }
}

/// Taking the reply of an adapter to its part of a watch gives the guards in it to the watch, and
/// changes nothing else.
pub proof fn law_guards_are_kept<X: Taxonomy, A>(
    registry: Registry<X, A>,
    key: usize,
    reply: Seq<(GetterId, Result<X::AdapterWatchGuard, X::AdapterError>)>,
)
    ensures
        guards_are_added(
            registry,
            key,
            guards_in::<X>(reply),
            registry.watch_granted(key, reply),
        ),
{
    law_reply_is_sorted::<X>(reply);
    assert(registry.watch_granted(key, reply).watches.watchers.dom()
        =~= registry.watches.watchers.dom());
}

/// Requests for values that are handed to the adapters are answered by them, one by one; one to an
/// adapter that is not registered is not answered.
pub proof fn law_fetch_requests_are_answered<X: Taxonomy, A: Adapter<X>>(
    registry: Registry<X, A>,
    requests: Seq<(AdapterId, Vec<GetterId>)>,
    replies: Seq<Seq<(GetterId, Result<Option<X::Value>, X::AdapterError>)>>,
)
    requires
        registry.fetch_replies(requests, replies),
    ensures
        replies.len() == requests.len(),
        forall|i: int|
            #![trigger requests[i]]
            0 <= i < requests.len() ==> if registry.adapters.contains_key(requests[i].0) {
                was_asked_to_fetch::<X, A>(
                    registry.adapters[requests[i].0].adapter,
                    requests[i].1@,
                    replies[i],
                )
            } else {
                replies[i].len() == 0
            },
{
    assert forall|i: int|
        #![trigger requests[i]]
        0 <= i < requests.len() implies if registry.adapters.contains_key(requests[i].0) {
        was_asked_to_fetch::<X, A>(
            registry.adapters[requests[i].0].adapter,
            requests[i].1@,
            replies[i],
        )
    } else {
        replies[i].len() == 0
    } by {
        let reply = replies[i];
        if registry.adapters.contains_key(requests[i].0) {
            lemma_fetch_call::<X, A>(
                registry.adapters[requests[i].0].adapter,
                requests[i].1@,
                reply,
            );
        }
    }
}

/// Requests to send values that are handed to the adapters are answered by them, one by one; one
/// to an adapter that is not registered is not answered.
pub proof fn law_send_requests_are_answered<X: Taxonomy, A: Adapter<X>>(
    registry: Registry<X, A>,
    requests: Seq<(AdapterId, Vec<(SetterId, Arc<X::Value>)>)>,
    replies: Seq<Seq<(SetterId, Result<(), X::AdapterError>)>>,
)
    requires
        registry.send_replies(requests, replies),
    ensures
        replies.len() == requests.len(),
        forall|i: int|
            #![trigger requests[i]]
            0 <= i < requests.len() ==> if registry.adapters.contains_key(requests[i].0) {
                was_asked_to_send::<X, A>(
                    registry.adapters[requests[i].0].adapter,
                    requests[i].1@,
                    replies[i],
                )
            } else {
                replies[i].len() == 0
            },
{
    assert forall|i: int|
        #![trigger requests[i]]
        0 <= i < requests.len() implies if registry.adapters.contains_key(requests[i].0) {
        was_asked_to_send::<X, A>(
            registry.adapters[requests[i].0].adapter,
            requests[i].1@,
            replies[i],
        )
    } else {
        replies[i].len() == 0
    } by {
        let reply = replies[i];
        if registry.adapters.contains_key(requests[i].0) {
            lemma_send_call::<X, A>(
                registry.adapters[requests[i].0].adapter,
                requests[i].1@,
                reply,
            );
        }
    }
}

/// Whatever work there is, splitting it by adapter gives one batch for each adapter that has
/// some, with all its work and no other.
pub proof fn law_work_is_split<T>(
    work: Seq<(AdapterId, T)>,
    batches: Seq<(AdapterId, Vec<T>)>,
    a: AdapterId,
)
    requires
        is_split(work, batches),
    ensures
        forall|i: int, j: int|
            #![trigger batches[i], batches[j]]
            0 <= i < j < batches.len() ==> batches[i].0 != batches[j].0,
        forall|i: int|
            #![trigger batches[i]]
            0 <= i < batches.len() && batches[i].0 == a ==> batches[i].1@ == work.filter(
                |w: (AdapterId, T)| w.0 == a,
            ).map_values(|w: (AdapterId, T)| w.1),
        work.filter(|w: (AdapterId, T)| w.0 == a).len() > 0 <==> exists|i: int|
            0 <= i < batches.len() && (#[trigger] batches[i]).0 == a,
{
    lemma_share_is_filter(work, a);
    assert(share(work, a).len() == work.filter(|w: (AdapterId, T)| w.0 == a).len());
}

proof fn lemma_share_is_filter<T>(work: Seq<(AdapterId, T)>, a: AdapterId)
    ensures
        share(work, a) == work.filter(|w: (AdapterId, T)| w.0 == a).map_values(
            |w: (AdapterId, T)| w.1,
        ),
    decreases work.len(),
{
    reveal(Seq::filter);
    if work.len() > 0 {
        lemma_share_is_filter(work.drop_last(), a);
    }
    assert(share(work, a) =~= work.filter(|w: (AdapterId, T)| w.0 == a).map_values(
        |w: (AdapterId, T)| w.1,
    ));
}

} // verus!
