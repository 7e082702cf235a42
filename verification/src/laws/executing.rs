//! Executing a request is calling the function of the same name.
use std::sync::atomic::AtomicBool;
use vstd::prelude::*;

use crate::adapter::{id_reply, Adapter, Taxonomy};
use crate::backend::AdapterManagerState;
use crate::model::Registry;
use crate::op::{outcome, Op, Reply};
use crate::types::{AdapterId, Channel, ChannelView, Error, GetterId, Service, SetterId};

verus! {

/// `result` and `after` are the outcome of adding an adapter under an identifier that it gave when
/// it was asked.
pub open spec fn adapter_was_added<X: Taxonomy, A: Adapter<X>>(
    before: Registry<X, A>,
    adapter: A,
    result: Result<(), Error>,
    after: Registry<X, A>,
) -> bool {
    exists|id: AdapterId| #[trigger]
        call_ensures(A::id, (&adapter,), id) && (result, after) == before.add_adapter(id, adapter)
}

/// Executing a request to add or remove something does what the function of the same name does,
/// and replies with its result.
pub proof fn law_changes_are_executed<X: Taxonomy, A: Adapter<X>>(
    before: Registry<X, A>,
    op: Op<X, A>,
    after: Registry<X, A>,
    reply: Reply<X>,
)
    requires
        outcome(before, op, after, reply),
    ensures
        op matches Op::AddAdapter { adapter } ==> reply is Outcome && adapter_was_added(
            before,
            adapter,
            reply->Outcome_0,
            after,
        ),
        op matches Op::RemoveAdapter { id } ==> reply is Outcome && (reply->Outcome_0, after)
            == before.remove_adapter(id),
        op matches Op::AddService { service } ==> reply is Outcome && (reply->Outcome_0, after)
            == before.add_service(service@),
        op matches Op::RemoveService { id } ==> reply is Outcome && (reply->Outcome_0, after)
            == before.remove_service(id),
        op matches Op::AddGetter { getter } ==> reply is Outcome && (reply->Outcome_0, after)
            == before.add_getter(getter@),
        op matches Op::RemoveGetter { id } ==> reply is Outcome && (reply->Outcome_0, after)
            == before.remove_getter(id),
        op matches Op::AddSetter { setter } ==> reply is Outcome && (reply->Outcome_0, after)
            == before.add_setter(setter@),
        op matches Op::RemoveSetter { id } ==> reply is Outcome && (reply->Outcome_0, after)
            == before.remove_setter(id),
{
    if let Op::AddAdapter { adapter } = op {
        let id = choose|id: AdapterId| #[trigger]
            id_reply::<X, A>(adapter, id) && (reply->Outcome_0, after) == before.add_adapter(
                id,
                adapter,
            );
        assert(call_ensures(A::id, (&adapter,), id));
    }
}

/// Executing a request to list something replies with what the function of the same name returns,
/// and changes nothing.
pub proof fn law_lists_are_executed<X: Taxonomy, A: Adapter<X>>(
    before: Registry<X, A>,
    op: Op<X, A>,
    after: Registry<X, A>,
    reply: Reply<X>,
)
    requires
        outcome(before, op, after, reply),
    ensures
        op matches Op::GetServices { selectors } ==> reply is Services && after == before
            && before.may_list_services(selectors@, reply->Services_0@),
        op matches Op::GetGetterChannels { selectors } ==> reply is GetterChannels && after
            == before && before.may_list_getters(selectors@, reply->GetterChannels_0@),
        op matches Op::GetSetterChannels { selectors } ==> reply is SetterChannels && after
            == before && before.may_list_setters(selectors@, reply->SetterChannels_0@),
{
}

/// Executing a request to change tags does what the function of the same name does, and replies
/// with its count.
pub proof fn law_changes_of_tags_are_executed<X: Taxonomy, A: Adapter<X>>(
    before: Registry<X, A>,
    op: Op<X, A>,
    after: Registry<X, A>,
    reply: Reply<X>,
)
    requires
        outcome(before, op, after, reply),
    ensures
        op matches Op::AddServiceTags { selectors, tags } ==> reply is Count
            && before.may_tag_services(selectors@, tags@, reply->Count_0, after),
        op matches Op::RemoveServiceTags { selectors, tags } ==> reply is Count
            && before.may_untag_services(selectors@, tags@, reply->Count_0, after),
        op matches Op::AddGetterTags { selectors, tags } ==> reply is Count
            && before.may_tag_getters(selectors@, tags@, reply->Count_0, after),
        op matches Op::RemoveGetterTags { selectors, tags } ==> reply is Count
            && before.may_untag_getters(selectors@, tags@, reply->Count_0, after),
        op matches Op::AddSetterTags { selectors, tags } ==> reply is Count
            && before.may_tag_setters(selectors@, tags@, reply->Count_0, after),
        op matches Op::RemoveSetterTags { selectors, tags } ==> reply is Count
            && before.may_untag_setters(selectors@, tags@, reply->Count_0, after),
{
}

/// Executing a request for values or to watch does what the function of the same name does, and
/// replies with what it returns. A watch starts with a flag that was made lowered.
pub proof fn law_work_is_executed<X: Taxonomy, A: Adapter<X>>(
    before: Registry<X, A>,
    op: Op<X, A>,
    after: Registry<X, A>,
    reply: Reply<X>,
)
    requires
        outcome(before, op, after, reply),
    ensures
        op matches Op::FetchValues { selectors } ==> reply is Fetched && after == before
            && before.may_fetch(selectors@, reply->Fetched_0@),
        op matches Op::SendValues { keyvalues } ==> reply is Sent && after == before
            && before.may_send(keyvalues@, reply->Sent_0@),
        op matches Op::RegisterChannelWatch { watch, on_event } ==> {
            &&& reply is WatchStarted
            &&& reply->on_event == on_event
            &&& reply->key == before.watches.next_key
            &&& call_ensures(AtomicBool::new, (false,), *reply->is_dropped)
            &&& before.may_register_watch(watch@, reply->is_dropped, on_event, after)
        },
        op matches Op::UnregisterChannelWatch { key } ==> reply is Silence && after
            == before.watch_ended(key),
{
}

/// Executing a request is told by what it comes to.
pub proof fn law_execute<X: Taxonomy, A: Adapter<X>>(op: Op<X, A>, reply: Reply<X>)
    ensures
        forall|state: &mut AdapterManagerState<X, A>| #[trigger]
            call_ensures(AdapterManagerState::<X, A>::execute, (state, op), reply) ==> outcome(
                state@,
                op,
                final(state)@,
                reply,
            ),
{
}

/// What a channel is, mathematically, is told by each of its fields.
pub proof fn law_channel_is_its_fields<M>(channel: Channel<M>)
    ensures
        channel@ == (ChannelView {
            tags: channel.tags@,
            id: channel.id,
            service: channel.service,
            adapter: channel.adapter,
            mechanism: channel.mechanism,
        }),
{
}

/// What a service is, mathematically, is told by each of its fields.
pub proof fn law_service_is_its_fields<G, S>(service: Service<G, S>)
    ensures
        service@.tags == service.tags@,
        service@.id == service.id,
        service@.adapter == service.adapter,
        service@.getters.dom() == service.getters@.dom(),
        forall|g: GetterId| #[trigger]
            service.getters@.contains_key(g) ==> service@.getters[g] == service.getters@[g]@,
        service@.setters.dom() == service.setters@.dom(),
        forall|t: SetterId| #[trigger]
            service.setters@.contains_key(t) ==> service@.setters[t] == service.setters@[t]@,
{
    assert(service@.getters.dom() =~= service.getters@.dom());
    assert(service@.setters.dom() =~= service.setters@.dom());
}

} // verus!
