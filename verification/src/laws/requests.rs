//! What holds whatever is asked of the registry.
use std::sync::atomic::AtomicBool;
use std::sync::Arc;
use vstd::prelude::*;

use crate::adapter::{id_reply, told_of, Adapter, Taxonomy};
use crate::laws::consistency::{
    law_add_adapter_keeps_consistency, law_add_getter_keeps_consistency,
    law_add_service_keeps_consistency, law_add_setter_keeps_consistency, law_empty_is_consistent,
    law_ending_a_watch_keeps_consistency, law_granting_a_watch_keeps_consistency,
    law_remove_adapter_keeps_consistency, law_remove_getter_keeps_consistency,
    law_remove_service_keeps_consistency, law_remove_setter_keeps_consistency,
    law_starting_a_watch_keeps_consistency, law_tagging_keeps_consistency,
};
use crate::model::Registry;
use crate::op::{outcome, Op, Reply};
use crate::types::{AdapterId, Exactly, GetterId, ServiceId, SetterId};
use crate::watch::refused;

verus! {

/// Whatever is asked of it, a consistent registry stays consistent.
pub proof fn law_requests_keep_consistency<X: Taxonomy, A: Adapter<X>>(
    before: Registry<X, A>,
    op: Op<X, A>,
    after: Registry<X, A>,
    reply: Reply<X>,
)
    requires
        before.consistent(),
        outcome(before, op, after, reply),
    ensures
        after.consistent(),
{
    match op {
        Op::AddAdapter { adapter } => {
            let id = choose|id: AdapterId| #[trigger]
                id_reply::<X, A>(adapter, id) && (reply->Outcome_0, after)
                    == before.add_adapter(id, adapter);
            law_add_adapter_keeps_consistency(before, id, adapter);
        },
        Op::RemoveAdapter { id } => {
            law_remove_adapter_keeps_consistency(before, id);
        },
        Op::AddService { service } => {
            law_add_service_keeps_consistency(before, service@);
        },
        Op::RemoveService { id } => {
            law_remove_service_keeps_consistency(before, id);
        },
        Op::AddGetter { getter } => {
            law_add_getter_keeps_consistency(before, getter@);
        },
        Op::RemoveGetter { id } => {
            law_remove_getter_keeps_consistency(before, id);
        },
        Op::AddSetter { setter } => {
            law_add_setter_keeps_consistency(before, setter@);
        },
        Op::RemoveSetter { id } => {
            law_remove_setter_keeps_consistency(before, id);
        },
        Op::AddServiceTags { selectors, tags } => {
            let walk = choose|walk: Seq<ServiceId>| #[trigger]
                before.services_chosen(selectors@, walk) && reply->Count_0 == walk.len() && after
                    == before.tag_services(walk.to_set(), tags@.to_set());
            law_tagging_keeps_consistency(before, walk.to_set(), tags@.to_set());
        },
        Op::RemoveServiceTags { selectors, tags } => {
            let walk = choose|walk: Seq<ServiceId>| #[trigger]
                before.services_chosen(selectors@, walk) && reply->Count_0 == walk.len() && after
                    == before.untag_services(walk.to_set(), tags@.to_set());
            law_tagging_keeps_consistency(before, walk.to_set(), tags@.to_set());
        },
        Op::AddGetterTags { selectors, tags } => {
            let walk = choose|walk: Seq<GetterId>| #[trigger]
                before.getters_chosen(selectors@, walk) && reply->Count_0 == walk.len() && after
                    == before.tag_getters(walk.to_set(), tags@.to_set());
            law_tagging_keeps_consistency(before, walk.to_set(), tags@.to_set());
        },
        Op::RemoveGetterTags { selectors, tags } => {
            let walk = choose|walk: Seq<GetterId>| #[trigger]
                before.getters_chosen(selectors@, walk) && reply->Count_0 == walk.len() && after
                    == before.untag_getters(walk.to_set(), tags@.to_set());
            law_tagging_keeps_consistency(before, walk.to_set(), tags@.to_set());
        },
        Op::AddSetterTags { selectors, tags } => {
            let walk = choose|walk: Seq<SetterId>| #[trigger]
                before.setters_chosen(selectors@, walk) && reply->Count_0 == walk.len() && after
                    == before.tag_setters(walk.to_set(), tags@.to_set());
            law_tagging_keeps_consistency(before, walk.to_set(), tags@.to_set());
        },
        Op::RemoveSetterTags { selectors, tags } => {
            let walk = choose|walk: Seq<SetterId>| #[trigger]
                before.setters_chosen(selectors@, walk) && reply->Count_0 == walk.len() && after
                    == before.untag_setters(walk.to_set(), tags@.to_set());
            law_tagging_keeps_consistency(before, walk.to_set(), tags@.to_set());
        },
        Op::RegisterChannelWatch { watch, on_event } => {
            law_registering_a_watch_keeps_consistency(
                before,
                watch@,
                reply->is_dropped,
                on_event,
                after,
            );
        },
        Op::UnregisterChannelWatch { key } => {
            law_ending_a_watch_keeps_consistency(before, key);
        },
        _ => {},
    }
}

/// Whatever an adapter replies to its part of a watch, a consistent registry stays consistent.
pub proof fn law_dispatching_a_watch_keeps_consistency<X: Taxonomy, A: Adapter<X>>(
    before: Registry<X, A>,
    key: usize,
    adapter: AdapterId,
    request: Seq<(GetterId, Option<Arc<X::Range>>)>,
    is_dropped: Arc<AtomicBool>,
    on_event: Arc<X::EventSender>,
    after: Registry<X, A>,
)
    requires
        before.consistent(),
        before.watch_dispatched(key, adapter, request, is_dropped, on_event, after),
    ensures
        after.consistent(),
{
    let reply = choose|reply: Seq<(GetterId, Result<X::AdapterWatchGuard, X::AdapterError>)>|
        #[trigger] before.watch_asked(adapter, request, is_dropped, on_event, reply)
            && told_of::<X>(on_event, refused::<X>(reply)) && after == before.watch_granted(
            key,
            reply,
        );
    law_granting_a_watch_keeps_consistency(before, key, reply);
}

/// The replies of several adapters keep the registry consistent.
proof fn lemma_granted_by_all<X: Taxonomy, A>(
    registry: Registry<X, A>,
    key: usize,
    replies: Seq<Seq<(GetterId, Result<X::AdapterWatchGuard, X::AdapterError>)>>,
)
    requires
        registry.consistent(),
    ensures
        registry.watch_granted_by_all(key, replies).consistent(),
    decreases replies.len(),
{
    if replies.len() > 0 {
        lemma_granted_by_all(registry, key, replies.drop_last());
        law_granting_a_watch_keeps_consistency(
            registry.watch_granted_by_all(key, replies.drop_last()),
            key,
            replies.last(),
        );
    }
}

/// Whatever the adapters reply, a consistent registry stays consistent when a watch is registered.
pub proof fn law_registering_a_watch_keeps_consistency<X: Taxonomy, A: Adapter<X>>(
    before: Registry<X, A>,
    watch: Seq<(Vec<X::GetterSelector>, Exactly<Arc<X::Range>>)>,
    is_dropped: Arc<AtomicBool>,
    on_event: Arc<X::EventSender>,
    after: Registry<X, A>,
)
    requires
        before.consistent(),
        before.watches.next_key < usize::MAX,
        before.may_register_watch(watch, is_dropped, on_event, after),
    ensures
        after.consistent(),
{
    let (walks, requests, replies) = choose|
        walks: Seq<Seq<GetterId>>,
        requests: Seq<(AdapterId, Vec<(GetterId, Option<Arc<X::Range>>)>)>,
        replies: Seq<Seq<(GetterId, Result<X::AdapterWatchGuard, X::AdapterError>)>>,
    | #[trigger]
        before.watch_registered(watch, is_dropped, on_event, walks, requests, replies, after);
    let picked = walks.flatten().to_set();
    law_starting_a_watch_keeps_consistency(before, watch, is_dropped, on_event, picked);
    lemma_granted_by_all(
        before.watched(watch, is_dropped, on_event, picked),
        before.watches.next_key as usize,
        replies,
    );
}

/// Each adapter stands under an identifier that it gave for itself.
pub open spec fn adapters_identified<X: Taxonomy, A: Adapter<X>>(registry: Registry<X, A>) -> bool {
    forall|a: AdapterId| #[trigger]
        registry.adapters.contains_key(a) ==> id_reply::<X, A>(registry.adapters[a].adapter, a)
}

/// Whatever is asked of the registry, its adapters stand under identifiers that they gave for
/// themselves.
pub proof fn law_requests_keep_adapters_identified<X: Taxonomy, A: Adapter<X>>(
    before: Registry<X, A>,
    op: Op<X, A>,
    after: Registry<X, A>,
    reply: Reply<X>,
)
    requires
        adapters_identified(before),
        outcome(before, op, after, reply),
    ensures
        adapters_identified(after),
{
    if let Op::RegisterChannelWatch { watch, on_event } = op {
        let is_dropped = reply->is_dropped;
        let (walks, requests, replies) = choose|
            walks: Seq<Seq<GetterId>>,
            requests: Seq<(AdapterId, Vec<(GetterId, Option<Arc<X::Range>>)>)>,
            replies: Seq<Seq<(GetterId, Result<X::AdapterWatchGuard, X::AdapterError>)>>,
        | #[trigger]
            before.watch_registered(watch@, is_dropped, on_event, walks, requests, replies, after);
        lemma_granting_keeps_adapters(
            before.watched(watch@, is_dropped, on_event, walks.flatten().to_set()),
            before.watches.next_key as usize,
            replies,
        );
    }
}

/// What the adapters hand out for a watch changes nothing of the adapters.
proof fn lemma_granting_keeps_adapters<X: Taxonomy, A>(
    registry: Registry<X, A>,
    key: usize,
    replies: Seq<Seq<(GetterId, Result<X::AdapterWatchGuard, X::AdapterError>)>>,
)
    ensures
        registry.watch_granted_by_all(key, replies).adapters == registry.adapters,
    decreases replies.len(),
{
    if replies.len() > 0 {
        lemma_granting_keeps_adapters(registry, key, replies.drop_last());
    }
}

/// `states` may be the states that a registry goes through, from an empty one, as it replies to
/// `ops` by `replies`.
pub open spec fn is_history<X: Taxonomy, A: Adapter<X>>(
    states: Seq<Registry<X, A>>,
    ops: Seq<Op<X, A>>,
    replies: Seq<Reply<X>>,
) -> bool {
    &&& states.len() == ops.len() + 1
    &&& replies.len() == ops.len()
    &&& states[0] == Registry::<X, A>::empty()
    &&& forall|i: int|
        #![trigger ops[i]]
        0 <= i < ops.len() ==> outcome(states[i], ops[i], states[i + 1], replies[i])
}

/// A registry that was empty at first and has replied to requests since then is consistent, and
/// its adapters stand under identifiers that they gave for themselves, whatever was asked.
pub proof fn law_every_state_is_consistent<X: Taxonomy, A: Adapter<X>>(
    states: Seq<Registry<X, A>>,
    ops: Seq<Op<X, A>>,
    replies: Seq<Reply<X>>,
    n: int,
)
    requires
        is_history(states, ops, replies),
        0 <= n <= ops.len(),
    ensures
        states[n].consistent(),
        adapters_identified(states[n]),
    decreases n,
{
    if n > 0 {
        law_every_state_is_consistent(states, ops, replies, n - 1);
        let last = ops[n - 1];
        law_requests_keep_consistency(states[n - 1], last, states[n], replies[n - 1]);
        law_requests_keep_adapters_identified(states[n - 1], last, states[n], replies[n - 1]);
    } else {
        law_empty_is_consistent::<X, A>();
    }
}

/// The registry may be reached from an empty one by requests.
pub open spec fn reachable<X: Taxonomy, A: Adapter<X>>(registry: Registry<X, A>) -> bool {
    exists|states: Seq<Registry<X, A>>, ops: Seq<Op<X, A>>, replies: Seq<Reply<X>>| #[trigger]
        is_history(states, ops, replies) && states.last() == registry
}

/// A registry that may be reached by requests is consistent, and its adapters stand under
/// identifiers that they gave for themselves.
pub proof fn law_reachable_is_consistent<X: Taxonomy, A: Adapter<X>>(registry: Registry<X, A>)
    requires
        reachable(registry),
    ensures
        registry.consistent(),
        adapters_identified(registry),
{
    let (states, ops, replies) = choose|
        states: Seq<Registry<X, A>>,
        ops: Seq<Op<X, A>>,
        replies: Seq<Reply<X>>,
    | #[trigger]
        is_history(states, ops, replies) && states.last() == registry;
    law_every_state_is_consistent(states, ops, replies, ops.len() as int);
}

/// Every request has a reply of its own kind; only a request to end a watch has none.
pub proof fn law_reply_fits_request<X: Taxonomy, A: Adapter<X>>(
    before: Registry<X, A>,
    op: Op<X, A>,
    after: Registry<X, A>,
    reply: Reply<X>,
)
    requires
        outcome(before, op, after, reply),
    ensures
        match op {
            Op::AddAdapter { .. } | Op::RemoveAdapter { .. } | Op::AddService { .. }
            | Op::RemoveService { .. } | Op::AddGetter { .. } | Op::RemoveGetter { .. }
            | Op::AddSetter { .. } | Op::RemoveSetter { .. } => reply is Outcome,
            Op::GetServices { .. } => reply is Services,
            Op::GetGetterChannels { .. } => reply is GetterChannels,
            Op::GetSetterChannels { .. } => reply is SetterChannels,
            Op::AddServiceTags { .. } | Op::RemoveServiceTags { .. } | Op::AddGetterTags { .. }
            | Op::RemoveGetterTags { .. } | Op::AddSetterTags { .. }
            | Op::RemoveSetterTags { .. } => reply is Count,
            Op::FetchValues { .. } => reply is Fetched,
            Op::SendValues { .. } => reply is Sent,
            Op::RegisterChannelWatch { .. } => reply is WatchStarted,
            Op::UnregisterChannelWatch { .. } => reply is Silence,
        },
{
}

} // verus!
