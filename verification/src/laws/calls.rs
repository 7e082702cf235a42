//! What each function of the registry does, told by its arguments, its result, and what it leaves
//! behind.
use std::sync::atomic::AtomicBool;
use std::sync::Arc;
use vstd::prelude::*;

use crate::adapter::{id_reply, Adapter, Taxonomy};
use crate::backend::AdapterManagerState;
use crate::laws::asking::{
    asked_to_watch_exactly, client_was_told, errors_in, fetched_exactly, guards_are_added,
    guards_in, law_fetch_requests_are_answered, law_guards_are_kept, law_reply_is_sorted,
    law_send_requests_are_answered, law_values_are_fetched_of_what_matches,
    law_values_are_sent_to_what_matches, law_watch_is_dispatched_to_one_adapter,
    law_watch_is_registered_on_what_matches, law_watch_is_started_on_what_matches,
    law_work_is_split, sent_exactly, was_asked_to_fetch, was_asked_to_send,
    was_asked_to_watch_for, watch_replied_exactly, watches_exactly,
};
use crate::laws::changes::{
    adapter_added_exactly, adapter_removed_exactly, getter_added_exactly, getter_removed_exactly,
    law_adapter_is_added, law_adapter_is_removed, law_getter_is_added, law_getter_is_removed,
    law_service_is_added, law_service_is_removed, law_setter_is_added, law_setter_is_removed,
    service_added_exactly, service_removed_exactly, setter_added_exactly, setter_removed_exactly,
};
use crate::laws::matching::{
    decides_getters, decides_services, decides_setters, getters_listed_exactly,
    getters_tagged_exactly, getters_untagged_exactly, law_getters_listed_are_those_that_match,
    law_getters_that_match_are_tagged, law_getters_that_match_are_untagged,
    law_services_listed_are_those_that_match, law_services_that_match_are_tagged,
    law_services_that_match_are_untagged, law_setters_listed_are_those_that_match,
    law_setters_that_match_are_tagged, law_setters_that_match_are_untagged,
    services_listed_exactly, services_tagged_exactly, services_untagged_exactly,
    setters_listed_exactly, setters_tagged_exactly, setters_untagged_exactly,
};
use crate::laws::keys::{law_created_watch_is_new, law_removed_watch_is_gone};
use crate::laws::watching::law_ending_touches_one_watch;
use crate::model::Registry;
use crate::routing::split_by_adapter;
use crate::types::{
    AdapterId, Channel, ChannelView, Error, Exactly, GetterId, Service, ServiceId, ServiceView,
    SetterId, TagId, WatchEvent,
};
use crate::watch::{sort_results, WatchMap, WatcherData};

verus! {

/// A new registry holds nothing.
pub proof fn law_new<X: Taxonomy, A: Adapter<X>>(state: AdapterManagerState<X, A>)
    requires
        call_ensures(AdapterManagerState::<X, A>::new, (), state),
    ensures
        state@.adapters.dom() == Set::<u64>::empty(),
        state@.services.dom() == Set::<u64>::empty(),
        state@.getters.dom() == Set::<u64>::empty(),
        state@.setters.dom() == Set::<u64>::empty(),
        state@.watches.watchers.dom() == Set::<usize>::empty(),
        state@.watches.next_key == 0,
{
}

/// The next key is the one that the next watch gets.
pub proof fn law_next_watch_key<X: Taxonomy, A: Adapter<X>>(
    state: AdapterManagerState<X, A>,
    key: usize,
)
    requires
        call_ensures(AdapterManagerState::<X, A>::next_watch_key, (&state,), key),
    ensures
        key == state@.watches.next_key,
{
}

/// Adding an adapter under a given identifier does this and nothing else.
pub proof fn law_add_adapter_as<X: Taxonomy, A: Adapter<X>>(
    id: AdapterId,
    adapter: A,
    result: Result<(), Error>,
)
    ensures
        forall|state: &mut AdapterManagerState<X, A>| #[trigger]
            call_ensures(
                AdapterManagerState::<X, A>::add_adapter_as,
                (state, id, adapter),
                result,
            ) ==> adapter_added_exactly(state@, id, adapter, result, final(state)@),
{
    assert forall|state: &mut AdapterManagerState<X, A>| #[trigger]
        call_ensures(
            AdapterManagerState::<X, A>::add_adapter_as,
            (state, id, adapter),
            result,
        ) implies adapter_added_exactly(state@, id, adapter, result, final(state)@) by {
        law_adapter_is_added(state@, id, adapter);
    }
}

/// The adapter was added under an identifier that it gave when it was asked.
pub open spec fn adapter_added_by_its_id<X: Taxonomy, A: Adapter<X>>(
    before: Registry<X, A>,
    adapter: A,
    result: Result<(), Error>,
    after: Registry<X, A>,
) -> bool {
    exists|id: AdapterId| #[trigger]
        call_ensures(A::id, (&adapter,), id) && adapter_added_exactly(
            before,
            id,
            adapter,
            result,
            after,
        )
}

/// Adding an adapter does so under an identifier that it gives, and does nothing else.
pub proof fn law_add_adapter<X: Taxonomy, A: Adapter<X>>(adapter: A, result: Result<(), Error>)
    ensures
        forall|state: &mut AdapterManagerState<X, A>| #[trigger]
            call_ensures(AdapterManagerState::<X, A>::add_adapter, (state, adapter), result)
                ==> adapter_added_by_its_id(state@, adapter, result, final(state)@),
{
    assert forall|state: &mut AdapterManagerState<X, A>| #[trigger]
        call_ensures(
            AdapterManagerState::<X, A>::add_adapter,
            (state, adapter),
            result,
        ) implies adapter_added_by_its_id(state@, adapter, result, final(state)@) by {
        let id = choose|id: AdapterId| #[trigger]
            id_reply::<X, A>(adapter, id) && (result, final(state)@) == state@.add_adapter(
                id,
                adapter,
            );
        law_adapter_is_added(state@, id, adapter);
        assert(call_ensures(A::id, (&adapter,), id));
    }
}

/// Removing an adapter does this, with all that belongs to it, and nothing else.
pub proof fn law_remove_adapter<X: Taxonomy, A: Adapter<X>>(
    id: AdapterId,
    result: Result<(), Error>,
)
    ensures
        forall|state: &mut AdapterManagerState<X, A>| #[trigger]
            call_ensures(AdapterManagerState::<X, A>::remove_adapter, (state, id), result)
                && state@.consistent() ==> adapter_removed_exactly(
                state@,
                id,
                result,
                final(state)@,
            ),
{
    assert forall|state: &mut AdapterManagerState<X, A>| #[trigger]
        call_ensures(AdapterManagerState::<X, A>::remove_adapter, (state, id), result)
            && state@.consistent() implies adapter_removed_exactly(
        state@,
        id,
        result,
        final(state)@,
    ) by {
        law_adapter_is_removed(state@, id);
    }
}

/// Adding a service does this and nothing else.
pub proof fn law_add_service<X: Taxonomy, A: Adapter<X>>(
    service: Service<X::Getter, X::Setter>,
    result: Result<(), Error>,
)
    ensures
        forall|state: &mut AdapterManagerState<X, A>| #[trigger]
            call_ensures(AdapterManagerState::<X, A>::add_service, (state, service), result)
                && state@.consistent() ==> service_added_exactly(
                state@,
                service@,
                result,
                final(state)@,
            ),
{
    assert forall|state: &mut AdapterManagerState<X, A>| #[trigger]
        call_ensures(AdapterManagerState::<X, A>::add_service, (state, service), result)
            && state@.consistent() implies service_added_exactly(
        state@,
        service@,
        result,
        final(state)@,
    ) by {
        law_service_is_added(state@, service@);
    }
}

/// Removing a service does this, with all that belongs to it, and nothing else.
pub proof fn law_remove_service<X: Taxonomy, A: Adapter<X>>(
    id: ServiceId,
    result: Result<(), Error>,
)
    ensures
        forall|state: &mut AdapterManagerState<X, A>| #[trigger]
            call_ensures(AdapterManagerState::<X, A>::remove_service, (state, id), result)
                && state@.consistent() ==> service_removed_exactly(
                state@,
                id,
                result,
                final(state)@,
            ),
{
    assert forall|state: &mut AdapterManagerState<X, A>| #[trigger]
        call_ensures(AdapterManagerState::<X, A>::remove_service, (state, id), result)
            && state@.consistent() implies service_removed_exactly(
        state@,
        id,
        result,
        final(state)@,
    ) by {
        law_service_is_removed(state@, id);
    }
}

/// Adding a getter does this and nothing else.
pub proof fn law_add_getter<X: Taxonomy, A: Adapter<X>>(
    getter: Channel<X::Getter>,
    result: Result<(), Error>,
)
    ensures
        forall|state: &mut AdapterManagerState<X, A>| #[trigger]
            call_ensures(AdapterManagerState::<X, A>::add_getter, (state, getter), result)
                && state@.consistent() ==> getter_added_exactly(
                state@,
                getter@,
                result,
                final(state)@,
            ),
{
    assert forall|state: &mut AdapterManagerState<X, A>| #[trigger]
        call_ensures(AdapterManagerState::<X, A>::add_getter, (state, getter), result)
            && state@.consistent() implies getter_added_exactly(
        state@,
        getter@,
        result,
        final(state)@,
    ) by {
        law_getter_is_added(state@, getter@);
    }
}

/// Removing a getter does this and nothing else.
pub proof fn law_remove_getter<X: Taxonomy, A: Adapter<X>>(id: GetterId, result: Result<(), Error>)
    ensures
        forall|state: &mut AdapterManagerState<X, A>| #[trigger]
            call_ensures(AdapterManagerState::<X, A>::remove_getter, (state, id), result)
                && state@.consistent() ==> getter_removed_exactly(
                state@,
                id,
                result,
                final(state)@,
            ),
{
    assert forall|state: &mut AdapterManagerState<X, A>| #[trigger]
        call_ensures(AdapterManagerState::<X, A>::remove_getter, (state, id), result)
            && state@.consistent() implies getter_removed_exactly(
        state@,
        id,
        result,
        final(state)@,
    ) by {
        law_getter_is_removed(state@, id);
    }
}

/// Adding a setter does this and nothing else.
pub proof fn law_add_setter<X: Taxonomy, A: Adapter<X>>(
    setter: Channel<X::Setter>,
    result: Result<(), Error>,
)
    ensures
        forall|state: &mut AdapterManagerState<X, A>| #[trigger]
            call_ensures(AdapterManagerState::<X, A>::add_setter, (state, setter), result)
                && state@.consistent() ==> setter_added_exactly(
                state@,
                setter@,
                result,
                final(state)@,
            ),
{
    assert forall|state: &mut AdapterManagerState<X, A>| #[trigger]
        call_ensures(AdapterManagerState::<X, A>::add_setter, (state, setter), result)
            && state@.consistent() implies setter_added_exactly(
        state@,
        setter@,
        result,
        final(state)@,
    ) by {
        law_setter_is_added(state@, setter@);
    }
}

/// Removing a setter does this and nothing else.
pub proof fn law_remove_setter<X: Taxonomy, A: Adapter<X>>(id: SetterId, result: Result<(), Error>)
    ensures
        forall|state: &mut AdapterManagerState<X, A>| #[trigger]
            call_ensures(AdapterManagerState::<X, A>::remove_setter, (state, id), result)
                && state@.consistent() ==> setter_removed_exactly(
                state@,
                id,
                result,
                final(state)@,
            ),
{
    assert forall|state: &mut AdapterManagerState<X, A>| #[trigger]
        call_ensures(AdapterManagerState::<X, A>::remove_setter, (state, id), result)
            && state@.consistent() implies setter_removed_exactly(
        state@,
        id,
        result,
        final(state)@,
    ) by {
        law_setter_is_removed(state@, id);
    }
}

/// Listing services shows each service that matches some of the selectors, and nothing else.
pub proof fn law_get_services<X: Taxonomy, A: Adapter<X>>(
    state: AdapterManagerState<X, A>,
    m: spec_fn(ServiceView<X::Getter, X::Setter>, X::ServiceSelector) -> bool,
    selectors: Vec<X::ServiceSelector>,
    listed: Vec<Service<X::Getter, X::Setter>>,
)
    requires
        state@.consistent(),
        decides_services::<X>(m),
        call_ensures(AdapterManagerState::<X, A>::get_services, (&state, selectors), listed),
    ensures
        services_listed_exactly(state@, m, selectors@, listed@),
{
    law_services_listed_are_those_that_match(state@, m, selectors@, listed@);
}

/// Adding tags to services does so to each service that matches some of the selectors, and does
/// nothing else.
pub proof fn law_add_service_tags<X: Taxonomy, A: Adapter<X>>(
    m: spec_fn(ServiceView<X::Getter, X::Setter>, X::ServiceSelector) -> bool,
    selectors: Vec<X::ServiceSelector>,
    tags: Vec<TagId>,
    count: usize,
)
    requires
        decides_services::<X>(m),
    ensures
        forall|state: &mut AdapterManagerState<X, A>| #[trigger]
            call_ensures(
                AdapterManagerState::<X, A>::add_service_tags,
                (state, selectors, tags),
                count,
            ) ==> services_tagged_exactly(
                state@,
                m,
                selectors@,
                tags@,
                count,
                final(state)@,
            ),
{
    assert forall|state: &mut AdapterManagerState<X, A>| #[trigger]
        call_ensures(
            AdapterManagerState::<X, A>::add_service_tags,
            (state, selectors, tags),
            count,
        ) implies services_tagged_exactly(
        state@,
        m,
        selectors@,
        tags@,
        count,
        final(state)@,
    ) by {
        law_services_that_match_are_tagged(
            state@,
            m,
            selectors@,
            tags@,
            count,
            final(state)@,
        );
    }
}

/// Removing tags from services does so to each service that matches some of the selectors, and does
/// nothing else.
pub proof fn law_remove_service_tags<X: Taxonomy, A: Adapter<X>>(
    m: spec_fn(ServiceView<X::Getter, X::Setter>, X::ServiceSelector) -> bool,
    selectors: Vec<X::ServiceSelector>,
    tags: Vec<TagId>,
    count: usize,
)
    requires
        decides_services::<X>(m),
    ensures
        forall|state: &mut AdapterManagerState<X, A>| #[trigger]
            call_ensures(
                AdapterManagerState::<X, A>::remove_service_tags,
                (state, selectors, tags),
                count,
            ) ==> services_untagged_exactly(
                state@,
                m,
                selectors@,
                tags@,
                count,
                final(state)@,
            ),
{
    assert forall|state: &mut AdapterManagerState<X, A>| #[trigger]
        call_ensures(
            AdapterManagerState::<X, A>::remove_service_tags,
            (state, selectors, tags),
            count,
        ) implies services_untagged_exactly(
        state@,
        m,
        selectors@,
        tags@,
        count,
        final(state)@,
    ) by {
        law_services_that_match_are_untagged(
            state@,
            m,
            selectors@,
            tags@,
            count,
            final(state)@,
        );
    }
}

/// Listing getters shows each getter that matches some of the selectors, and nothing else.
pub proof fn law_get_getter_channels<X: Taxonomy, A: Adapter<X>>(
    state: AdapterManagerState<X, A>,
    m: spec_fn(ChannelView<X::Getter>, X::GetterSelector) -> bool,
    selectors: Vec<X::GetterSelector>,
    listed: Vec<Channel<X::Getter>>,
)
    requires
        state@.consistent(),
        decides_getters::<X>(m),
        call_ensures(AdapterManagerState::<X, A>::get_getter_channels, (&state, selectors), listed),
    ensures
        getters_listed_exactly(state@, m, selectors@, listed@),
{
    law_getters_listed_are_those_that_match(state@, m, selectors@, listed@);
}

/// Adding tags to getters does so to each getter that matches some of the selectors, and does
/// nothing else.
pub proof fn law_add_getter_tags<X: Taxonomy, A: Adapter<X>>(
    m: spec_fn(ChannelView<X::Getter>, X::GetterSelector) -> bool,
    selectors: Vec<X::GetterSelector>,
    tags: Vec<TagId>,
    count: usize,
)
    requires
        decides_getters::<X>(m),
    ensures
        forall|state: &mut AdapterManagerState<X, A>| #[trigger]
            call_ensures(
                AdapterManagerState::<X, A>::add_getter_tags,
                (state, selectors, tags),
                count,
            ) ==> getters_tagged_exactly(
                state@,
                m,
                selectors@,
                tags@,
                count,
                final(state)@,
            ),
{
    assert forall|state: &mut AdapterManagerState<X, A>| #[trigger]
        call_ensures(
            AdapterManagerState::<X, A>::add_getter_tags,
            (state, selectors, tags),
            count,
        ) implies getters_tagged_exactly(
        state@,
        m,
        selectors@,
        tags@,
        count,
        final(state)@,
    ) by {
        law_getters_that_match_are_tagged(
            state@,
            m,
            selectors@,
            tags@,
            count,
            final(state)@,
        );
    }
}

/// Removing tags from getters does so to each getter that matches some of the selectors, and does
/// nothing else.
pub proof fn law_remove_getter_tags<X: Taxonomy, A: Adapter<X>>(
    m: spec_fn(ChannelView<X::Getter>, X::GetterSelector) -> bool,
    selectors: Vec<X::GetterSelector>,
    tags: Vec<TagId>,
    count: usize,
)
    requires
        decides_getters::<X>(m),
    ensures
        forall|state: &mut AdapterManagerState<X, A>| #[trigger]
            call_ensures(
                AdapterManagerState::<X, A>::remove_getter_tags,
                (state, selectors, tags),
                count,
            ) ==> getters_untagged_exactly(
                state@,
                m,
                selectors@,
                tags@,
                count,
                final(state)@,
            ),
{
    assert forall|state: &mut AdapterManagerState<X, A>| #[trigger]
        call_ensures(
            AdapterManagerState::<X, A>::remove_getter_tags,
            (state, selectors, tags),
            count,
        ) implies getters_untagged_exactly(
        state@,
        m,
        selectors@,
        tags@,
        count,
        final(state)@,
    ) by {
        law_getters_that_match_are_untagged(
            state@,
            m,
            selectors@,
            tags@,
            count,
            final(state)@,
        );
    }
}

/// Listing setters shows each setter that matches some of the selectors, and nothing else.
pub proof fn law_get_setter_channels<X: Taxonomy, A: Adapter<X>>(
    state: AdapterManagerState<X, A>,
    m: spec_fn(ChannelView<X::Setter>, X::SetterSelector) -> bool,
    selectors: Vec<X::SetterSelector>,
    listed: Vec<Channel<X::Setter>>,
)
    requires
        state@.consistent(),
        decides_setters::<X>(m),
        call_ensures(AdapterManagerState::<X, A>::get_setter_channels, (&state, selectors), listed),
    ensures
        setters_listed_exactly(state@, m, selectors@, listed@),
{
    law_setters_listed_are_those_that_match(state@, m, selectors@, listed@);
}

/// Adding tags to setters does so to each setter that matches some of the selectors, and does
/// nothing else.
pub proof fn law_add_setter_tags<X: Taxonomy, A: Adapter<X>>(
    m: spec_fn(ChannelView<X::Setter>, X::SetterSelector) -> bool,
    selectors: Vec<X::SetterSelector>,
    tags: Vec<TagId>,
    count: usize,
)
    requires
        decides_setters::<X>(m),
    ensures
        forall|state: &mut AdapterManagerState<X, A>| #[trigger]
            call_ensures(
                AdapterManagerState::<X, A>::add_setter_tags,
                (state, selectors, tags),
                count,
            ) ==> setters_tagged_exactly(
                state@,
                m,
                selectors@,
                tags@,
                count,
                final(state)@,
            ),
{
    assert forall|state: &mut AdapterManagerState<X, A>| #[trigger]
        call_ensures(
            AdapterManagerState::<X, A>::add_setter_tags,
            (state, selectors, tags),
            count,
        ) implies setters_tagged_exactly(
        state@,
        m,
        selectors@,
        tags@,
        count,
        final(state)@,
    ) by {
        law_setters_that_match_are_tagged(
            state@,
            m,
            selectors@,
            tags@,
            count,
            final(state)@,
        );
    }
}

/// Removing tags from setters does so to each setter that matches some of the selectors, and does
/// nothing else.
pub proof fn law_remove_setter_tags<X: Taxonomy, A: Adapter<X>>(
    m: spec_fn(ChannelView<X::Setter>, X::SetterSelector) -> bool,
    selectors: Vec<X::SetterSelector>,
    tags: Vec<TagId>,
    count: usize,
)
    requires
        decides_setters::<X>(m),
    ensures
        forall|state: &mut AdapterManagerState<X, A>| #[trigger]
            call_ensures(
                AdapterManagerState::<X, A>::remove_setter_tags,
                (state, selectors, tags),
                count,
            ) ==> setters_untagged_exactly(
                state@,
                m,
                selectors@,
                tags@,
                count,
                final(state)@,
            ),
{
    assert forall|state: &mut AdapterManagerState<X, A>| #[trigger]
        call_ensures(
            AdapterManagerState::<X, A>::remove_setter_tags,
            (state, selectors, tags),
            count,
        ) implies setters_untagged_exactly(
        state@,
        m,
        selectors@,
        tags@,
        count,
        final(state)@,
    ) by {
        law_setters_that_match_are_untagged(
            state@,
            m,
            selectors@,
            tags@,
            count,
            final(state)@,
        );
    }
}

/// `results` are what the adapters in charge replied when each getter that matches some of the
/// selectors was asked for, once.
pub open spec fn values_were_fetched<X: Taxonomy, A: Adapter<X>>(
    registry: Registry<X, A>,
    m: spec_fn(ChannelView<X::Getter>, X::GetterSelector) -> bool,
    selectors: Seq<X::GetterSelector>,
    results: Seq<(GetterId, Result<Option<X::Value>, X::AdapterError>)>,
) -> bool {
    exists|
        asked: Seq<(AdapterId, Vec<GetterId>)>,
        replies: Seq<Seq<(GetterId, Result<Option<X::Value>, X::AdapterError>)>>,
    | #[trigger]
        fetched_exactly(registry, m, selectors, asked, replies, results)
}

/// Fetching values reads each getter that matches some of the selectors, through the adapter in
/// charge, and leaves the registry as it is.
pub proof fn law_fetch_values<X: Taxonomy, A: Adapter<X>>(
    m: spec_fn(ChannelView<X::Getter>, X::GetterSelector) -> bool,
    selectors: Vec<X::GetterSelector>,
    results: Vec<(GetterId, Result<Option<X::Value>, X::AdapterError>)>,
)
    requires
        decides_getters::<X>(m),
    ensures
        forall|state: &mut AdapterManagerState<X, A>| #[trigger]
            call_ensures(
                AdapterManagerState::<X, A>::fetch_values,
                (state, selectors),
                results,
            ) && state@.consistent() ==> {
                &&& final(state)@ == state@
                &&& values_were_fetched(state@, m, selectors@, results@)
            },
{
    assert forall|state: &mut AdapterManagerState<X, A>| #[trigger]
        call_ensures(
            AdapterManagerState::<X, A>::fetch_values,
            (state, selectors),
            results,
        ) && state@.consistent() implies {
        &&& final(state)@ == state@
        &&& values_were_fetched(state@, m, selectors@, results@)
    } by {
        law_values_are_fetched_of_what_matches(state@, m, selectors@, results@);
    }
}

/// Handing requests for values to the adapters has each of them asked that are registered, and
/// returns their replies, joined in order.
pub proof fn law_dispatch_fetch<X: Taxonomy, A: Adapter<X>>(
    state: AdapterManagerState<X, A>,
    requests: Vec<(AdapterId, Vec<GetterId>)>,
    results: Vec<(GetterId, Result<Option<X::Value>, X::AdapterError>)>,
) -> (replies: Seq<Seq<(GetterId, Result<Option<X::Value>, X::AdapterError>)>>)
    requires
        call_ensures(AdapterManagerState::<X, A>::dispatch_fetch, (&state, requests), results),
    ensures
        replies.len() == requests@.len(),
        forall|i: int|
            #![trigger requests@[i]]
            0 <= i < requests@.len() ==> if state@.adapters.contains_key(requests@[i].0) {
                was_asked_to_fetch::<X, A>(
                    state@.adapters[requests@[i].0].adapter,
                    requests@[i].1@,
                    replies[i],
                )
            } else {
                replies[i].len() == 0
            },
        results@ == replies.flatten(),
{
    let replies = choose|
        replies: Seq<Seq<(GetterId, Result<Option<X::Value>, X::AdapterError>)>>,
    | #[trigger]
        state@.fetch_replies(requests@, replies) && results@ == replies.flatten();
    law_fetch_requests_are_answered(state@, requests@, replies);
    replies
}

/// Sending values sends each of them to each setter that matches some of its selectors, through
/// the adapter in charge.
pub proof fn law_send_values<X: Taxonomy, A: Adapter<X>>(
    state: AdapterManagerState<X, A>,
    m: spec_fn(ChannelView<X::Setter>, X::SetterSelector) -> bool,
    keyvalues: Vec<(Vec<X::SetterSelector>, Arc<X::Value>)>,
    results: Vec<(SetterId, Result<(), X::AdapterError>)>,
)
    requires
        state@.consistent(),
        decides_setters::<X>(m),
        call_ensures(AdapterManagerState::<X, A>::send_values, (&state, keyvalues), results),
    ensures
        exists|
            asked: Seq<(AdapterId, Vec<(SetterId, Arc<X::Value>)>)>,
            replies: Seq<Seq<(SetterId, Result<(), X::AdapterError>)>>,
        | #[trigger]
            sent_exactly(state@, m, keyvalues@, asked, replies, results@),
{
    law_values_are_sent_to_what_matches(state@, m, keyvalues@, results@);
}

/// Handing requests to send values to the adapters has each of them asked that are registered,
/// and returns their replies, joined in order.
pub proof fn law_dispatch_send<X: Taxonomy, A: Adapter<X>>(
    state: AdapterManagerState<X, A>,
    requests: Vec<(AdapterId, Vec<(SetterId, Arc<X::Value>)>)>,
    results: Vec<(SetterId, Result<(), X::AdapterError>)>,
) -> (replies: Seq<Seq<(SetterId, Result<(), X::AdapterError>)>>)
    requires
        call_ensures(AdapterManagerState::<X, A>::dispatch_send, (&state, requests), results),
    ensures
        replies.len() == requests@.len(),
        forall|i: int|
            #![trigger requests@[i]]
            0 <= i < requests@.len() ==> if state@.adapters.contains_key(requests@[i].0) {
                was_asked_to_send::<X, A>(
                    state@.adapters[requests@[i].0].adapter,
                    requests@[i].1@,
                    replies[i],
                )
            } else {
                replies[i].len() == 0
            },
        results@ == replies.flatten(),
{
    let replies = choose|replies: Seq<Seq<(SetterId, Result<(), X::AdapterError>)>>| #[trigger]
        state@.send_replies(requests@, replies) && results@ == replies.flatten();
    law_send_requests_are_answered(state@, requests@, replies);
    replies
}

/// Starting a watch attaches it to each getter that matches some of the selectors of some part of
/// it, and gives the requests that are due to the adapters.
pub proof fn law_start_watch<X: Taxonomy, A: Adapter<X>>(
    m: spec_fn(ChannelView<X::Getter>, X::GetterSelector) -> bool,
    watch: Vec<(Vec<X::GetterSelector>, Exactly<Arc<X::Range>>)>,
    is_dropped: Arc<AtomicBool>,
    on_event: Arc<X::EventSender>,
    started: (usize, Vec<(AdapterId, Vec<(GetterId, Option<Arc<X::Range>>)>)>),
)
    requires
        decides_getters::<X>(m),
    ensures
        forall|state: &mut AdapterManagerState<X, A>| #[trigger]
            call_ensures(
                AdapterManagerState::<X, A>::start_watch,
                (state, watch, &is_dropped, on_event),
                started,
            ) && state@.consistent() && state@.watches.next_key < usize::MAX ==> {
                &&& started.0 == state@.watches.next_key
                &&& asked_to_watch_exactly(state@, m, watch@, started.1@)
                &&& watches_exactly(
                    state@,
                    m,
                    watch@,
                    is_dropped,
                    on_event,
                    Seq::empty(),
                    final(state)@,
                )
            },
{
    assert forall|state: &mut AdapterManagerState<X, A>| #[trigger]
        call_ensures(
            AdapterManagerState::<X, A>::start_watch,
            (state, watch, &is_dropped, on_event),
            started,
        ) && state@.consistent() && state@.watches.next_key < usize::MAX implies {
        &&& started.0 == state@.watches.next_key
        &&& asked_to_watch_exactly(state@, m, watch@, started.1@)
        &&& watches_exactly(
            state@,
            m,
            watch@,
            is_dropped,
            on_event,
            Seq::empty(),
            final(state)@,
        )
    } by {
        law_watch_is_started_on_what_matches(
            state@,
            m,
            watch@,
            is_dropped,
            on_event,
            final(state)@,
            started.1@,
        );
    }
}

/// A watch was registered: each getter that matches some of the selectors of some part of it is
/// attached to it, the adapters in charge were asked to watch these getters, the watch holds the
/// guards that they gave, and the client was told of their errors.
pub open spec fn watch_was_registered<X: Taxonomy, A: Adapter<X>>(
    registry: Registry<X, A>,
    m: spec_fn(ChannelView<X::Getter>, X::GetterSelector) -> bool,
    watch: Seq<(Vec<X::GetterSelector>, Exactly<Arc<X::Range>>)>,
    is_dropped: Arc<AtomicBool>,
    on_event: Arc<X::EventSender>,
    after: Registry<X, A>,
) -> bool {
    exists|
        asked: Seq<(AdapterId, Vec<(GetterId, Option<Arc<X::Range>>)>)>,
        replies: Seq<Seq<(GetterId, Result<X::AdapterWatchGuard, X::AdapterError>)>>,
    |
        {
            &&& asked_to_watch_exactly(registry, m, watch, asked)
            &&& #[trigger] watch_replied_exactly(registry, is_dropped, on_event, asked, replies)
            &&& watches_exactly(
                registry,
                m,
                watch,
                is_dropped,
                on_event,
                replies.map_values(
                    |reply: Seq<(GetterId, Result<X::AdapterWatchGuard, X::AdapterError>)>|
                        guards_in::<X>(reply),
                ).flatten(),
                after,
            )
        }
}

/// Registering a watch does so on each getter that matches some of the selectors of some part of
/// it, with the next key and a flag that was made lowered.
pub proof fn law_register_channel_watch<X: Taxonomy, A: Adapter<X>>(
    m: spec_fn(ChannelView<X::Getter>, X::GetterSelector) -> bool,
    watch: Vec<(Vec<X::GetterSelector>, Exactly<Arc<X::Range>>)>,
    on_event: Arc<X::EventSender>,
    registered: (Arc<X::EventSender>, usize, Arc<AtomicBool>),
)
    requires
        decides_getters::<X>(m),
    ensures
        forall|state: &mut AdapterManagerState<X, A>| #[trigger]
            call_ensures(
                AdapterManagerState::<X, A>::register_channel_watch,
                (state, watch, on_event),
                registered,
            ) && state@.consistent() && state@.watches.next_key < usize::MAX ==> {
                &&& registered.0 == on_event
                &&& registered.1 == state@.watches.next_key
                &&& call_ensures(AtomicBool::new, (false,), *registered.2)
                &&& watch_was_registered(
                    state@,
                    m,
                    watch@,
                    registered.2,
                    on_event,
                    final(state)@,
                )
            },
{
    assert forall|state: &mut AdapterManagerState<X, A>| #[trigger]
        call_ensures(
            AdapterManagerState::<X, A>::register_channel_watch,
            (state, watch, on_event),
            registered,
        ) && state@.consistent() && state@.watches.next_key < usize::MAX implies {
        &&& registered.0 == on_event
        &&& registered.1 == state@.watches.next_key
        &&& call_ensures(AtomicBool::new, (false,), *registered.2)
        &&& watch_was_registered(state@, m, watch@, registered.2, on_event, final(state)@)
    } by {
        law_watch_is_registered_on_what_matches(
            state@,
            m,
            watch@,
            registered.2,
            on_event,
            final(state)@,
        );
    }
}

/// Taking the reply of an adapter keeps the guards in it, and returns its errors as events.
pub proof fn law_complete_watch<X: Taxonomy, A: Adapter<X>>(
    key: usize,
    results: Vec<(GetterId, Result<X::AdapterWatchGuard, X::AdapterError>)>,
    events: Vec<WatchEvent<X::Value, X::AdapterError>>,
)
    ensures
        forall|state: &mut AdapterManagerState<X, A>| #[trigger]
            call_ensures(
                AdapterManagerState::<X, A>::complete_watch,
                (state, key, results),
                events,
            ) ==> {
                &&& events@ == errors_in::<X>(results@)
                &&& guards_are_added(state@, key, guards_in::<X>(results@), final(state)@)
            },
{
    assert forall|state: &mut AdapterManagerState<X, A>| #[trigger]
        call_ensures(
            AdapterManagerState::<X, A>::complete_watch,
            (state, key, results),
            events,
        ) implies {
        &&& events@ == errors_in::<X>(results@)
        &&& guards_are_added(state@, key, guards_in::<X>(results@), final(state)@)
    } by {
        law_reply_is_sorted::<X>(results@);
        law_guards_are_kept(state@, key, results@);
    }
}

/// One adapter was asked to take part in a watch, if it is registered.
pub open spec fn watch_was_dispatched<X: Taxonomy, A: Adapter<X>>(
    registry: Registry<X, A>,
    key: usize,
    adapter: AdapterId,
    request: Seq<(GetterId, Option<Arc<X::Range>>)>,
    is_dropped: Arc<AtomicBool>,
    on_event: Arc<X::EventSender>,
    after: Registry<X, A>,
) -> bool {
    if registry.adapters.contains_key(adapter) {
        exists|reply: Seq<(GetterId, Result<X::AdapterWatchGuard, X::AdapterError>)>|
            {
                &&& #[trigger] was_asked_to_watch_for::<X, A>(
                    registry.adapters[adapter].adapter,
                    request,
                    is_dropped,
                    on_event,
                    reply,
                )
                &&& errors_in::<X>(reply).len() > 0 ==> client_was_told::<X>(
                    on_event,
                    errors_in::<X>(reply),
                )
                &&& guards_are_added(registry, key, guards_in::<X>(reply), after)
            }
    } else {
        after == registry
    }
}

/// Asking one adapter to take part in a watch does this and nothing else.
pub proof fn law_dispatch_watch<X: Taxonomy, A: Adapter<X>>(
    key: usize,
    adapter: AdapterId,
    request: Vec<(GetterId, Option<Arc<X::Range>>)>,
    is_dropped: Arc<AtomicBool>,
    on_event: Arc<X::EventSender>,
)
    ensures
        forall|state: &mut AdapterManagerState<X, A>| #[trigger]
            call_ensures(
                AdapterManagerState::<X, A>::dispatch_watch,
                (state, key, adapter, request, &is_dropped, &on_event),
                (),
            ) ==> watch_was_dispatched(
                state@,
                key,
                adapter,
                request@,
                is_dropped,
                on_event,
                final(state)@,
            ),
{
    assert forall|state: &mut AdapterManagerState<X, A>| #[trigger]
        call_ensures(
            AdapterManagerState::<X, A>::dispatch_watch,
            (state, key, adapter, request, &is_dropped, &on_event),
            (),
        ) implies watch_was_dispatched(
        state@,
        key,
        adapter,
        request@,
        is_dropped,
        on_event,
        final(state)@,
    ) by {
        law_watch_is_dispatched_to_one_adapter(
            state@,
            key,
            adapter,
            request@,
            is_dropped,
            on_event,
            final(state)@,
        );
    }
}

/// The watch with this key is gone, no getter is included in it, and nothing else has changed.
pub open spec fn watch_ended_exactly<X: Taxonomy, A>(
    registry: Registry<X, A>,
    key: usize,
    after: Registry<X, A>,
) -> bool {
    &&& after.adapters == registry.adapters
    &&& after.services == registry.services
    &&& after.setters == registry.setters
    &&& after.watches.next_key == registry.watches.next_key
    &&& forall|k: usize| #[trigger]
        after.watches.watchers.contains_key(k) <==> registry.watches.watchers.contains_key(k) && k
            != key
    &&& forall|k: usize| #[trigger]
        after.watches.watchers.contains_key(k) ==> after.watches.watchers[k]
            == registry.watches.watchers[k]
    &&& after.getters.dom() == registry.getters.dom()
    &&& forall|g: GetterId| #[trigger]
        registry.getters.contains_key(g) ==> {
            &&& after.getters[g].channel == registry.getters[g].channel
            &&& forall|k: usize| #[trigger]
                after.getters[g].watchers.contains(k) <==> registry.getters[g].watchers.contains(k)
                    && k != key
        }
}

/// Ending a watch does this and nothing else.
pub proof fn law_unregister_channel_watch<X: Taxonomy, A: Adapter<X>>(key: usize)
    ensures
        forall|state: &mut AdapterManagerState<X, A>| #[trigger]
            call_ensures(
                AdapterManagerState::<X, A>::unregister_channel_watch,
                (state, key),
                (),
            ) && state@.consistent() ==> watch_ended_exactly(state@, key, final(state)@),
{
    assert forall|state: &mut AdapterManagerState<X, A>| #[trigger]
        call_ensures(
            AdapterManagerState::<X, A>::unregister_channel_watch,
            (state, key),
            (),
        ) && state@.consistent() implies watch_ended_exactly(state@, key, final(state)@) by {
        law_ending_touches_one_watch(state@, key);
    }
}

/// Splitting work gives each adapter that has some one batch, with all its work, in order.
pub proof fn law_split_by_adapter<T>(
    work: Vec<(AdapterId, T)>,
    batches: Vec<(AdapterId, Vec<T>)>,
    a: AdapterId,
)
    requires
        call_ensures(split_by_adapter::<T>, (work,), batches),
    ensures
        forall|i: int, j: int|
            #![trigger batches@[i], batches@[j]]
            0 <= i < j < batches@.len() ==> batches@[i].0 != batches@[j].0,
        forall|i: int|
            #![trigger batches@[i]]
            0 <= i < batches@.len() && batches@[i].0 == a ==> batches@[i].1@ == work@.filter(
                |w: (AdapterId, T)| w.0 == a,
            ).map_values(|w: (AdapterId, T)| w.1),
        work@.filter(|w: (AdapterId, T)| w.0 == a).len() > 0 <==> exists|i: int|
            0 <= i < batches@.len() && (#[trigger] batches@[i]).0 == a,
{
    law_work_is_split(work@, batches@, a);
}

/// Sorting a reply tells its guards from its errors.
pub proof fn law_sort_results<X: Taxonomy>(
    results: Vec<(GetterId, Result<X::AdapterWatchGuard, X::AdapterError>)>,
    sorted: (Vec<X::AdapterWatchGuard>, Vec<WatchEvent<X::Value, X::AdapterError>>),
)
    requires
        call_ensures(sort_results::<X>, (results,), sorted),
    ensures
        sorted.0@ == guards_in::<X>(results@),
        sorted.1@ == errors_in::<X>(results@),
{
    law_reply_is_sorted::<X>(results@);
}

/// Creating a watch gives it the next key, and touches no other.
pub proof fn law_watch_map_create<X: Taxonomy>(
    watch: Vec<(Vec<X::GetterSelector>, Exactly<Arc<X::Range>>)>,
    is_dropped: Arc<AtomicBool>,
    on_event: Arc<X::EventSender>,
    key: usize,
)
    ensures
        forall|map: &mut WatchMap<X>| #[trigger]
            call_ensures(WatchMap::<X>::create, (map, watch, &is_dropped, on_event), key)
                && map@.well_formed() && map@.next_key < usize::MAX ==> {
                &&& key == map@.next_key
                &&& final(map)@.next_key == map@.next_key + 1
                &&& !map@.watchers.contains_key(key)
                &&& final(map)@.watchers.contains_key(key)
                &&& final(map)@.watchers.remove(key) == map@.watchers
                &&& final(map)@.watchers[key].key == key
                &&& final(map)@.watchers[key].watch == watch@
                &&& final(map)@.watchers[key].is_dropped == is_dropped
                &&& final(map)@.watchers[key].on_event == on_event
                &&& final(map)@.watchers[key].guards.len() == 0
                &&& final(map)@.watchers[key].getters.is_empty()
            },
{
    assert forall|map: &mut WatchMap<X>| #[trigger]
        call_ensures(WatchMap::<X>::create, (map, watch, &is_dropped, on_event), key)
            && map@.well_formed() && map@.next_key < usize::MAX implies {
        &&& key == map@.next_key
        &&& final(map)@.next_key == map@.next_key + 1
        &&& !map@.watchers.contains_key(key)
        &&& final(map)@.watchers.contains_key(key)
        &&& final(map)@.watchers.remove(key) == map@.watchers
        &&& final(map)@.watchers[key].key == key
        &&& final(map)@.watchers[key].watch == watch@
        &&& final(map)@.watchers[key].is_dropped == is_dropped
        &&& final(map)@.watchers[key].on_event == on_event
        &&& final(map)@.watchers[key].guards.len() == 0
        &&& final(map)@.watchers[key].getters.is_empty()
    } by {
        law_created_watch_is_new(map@, watch@, is_dropped, on_event);
    }
}

/// Removing a watch hands back its data, if there is one with this key, and touches no other.
pub proof fn law_watch_map_remove<X: Taxonomy>(key: usize, data: Option<WatcherData<X>>)
    ensures
        forall|map: &mut WatchMap<X>| #[trigger]
            call_ensures(WatchMap::<X>::remove, (map, key), data) ==> {
                &&& data is Some <==> map@.watchers.contains_key(key)
                &&& data is Some ==> data->0@ == map@.watchers[key]
                &&& final(map)@.next_key == map@.next_key
                &&& forall|k: usize| #[trigger]
                    final(map)@.watchers.contains_key(k) <==> map@.watchers.contains_key(k) && k
                        != key
                &&& forall|k: usize| #[trigger]
                    final(map)@.watchers.contains_key(k) ==> final(map)@.watchers[k]
                        == map@.watchers[k]
            },
{
    assert forall|map: &mut WatchMap<X>| #[trigger]
        call_ensures(WatchMap::<X>::remove, (map, key), data) implies {
        &&& data is Some <==> map@.watchers.contains_key(key)
        &&& data is Some ==> data->0@ == map@.watchers[key]
        &&& final(map)@.next_key == map@.next_key
        &&& forall|k: usize| #[trigger]
            final(map)@.watchers.contains_key(k) <==> map@.watchers.contains_key(k) && k != key
        &&& forall|k: usize| #[trigger]
            final(map)@.watchers.contains_key(k) ==> final(map)@.watchers[k] == map@.watchers[k]
    } by {
        law_removed_watch_is_gone(map@, key);
    }
}

} // verus!
