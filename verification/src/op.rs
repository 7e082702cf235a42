//! Requests to the registry, and its replies.
use std::sync::atomic::AtomicBool;
use std::sync::Arc;
use vstd::prelude::*;

use crate::adapter::{id_reply, Adapter, Taxonomy};
use crate::backend::AdapterManagerState;
use crate::model::Registry;
use crate::types::{AdapterId, Channel, Error, GetterId, Service, ServiceId, SetterId, TagId};
use crate::watch::{made_lowered, WatchRequest};

verus! {

/// A request.
#[allow(inconsistent_fields)]
pub enum Op<X: Taxonomy, A: Adapter<X>> {
    /// Add an adapter.
    AddAdapter { adapter: A },
    /// Remove an adapter, with its services and their channels.
    RemoveAdapter { id: AdapterId },
    /// Add a service.
    AddService { service: Service<X::Getter, X::Setter> },
    /// Remove a service, with its channels.
    RemoveService { id: ServiceId },
    /// Add a getter.
    AddGetter { getter: Channel<X::Getter> },
    /// Remove a getter.
    RemoveGetter { id: GetterId },
    /// Add a setter.
    AddSetter { setter: Channel<X::Setter> },
    /// Remove a setter.
    RemoveSetter { id: SetterId },
    /// List the services that any of the selectors chooses.
    GetServices { selectors: Vec<X::ServiceSelector> },
    /// Add tags to the services that any of the selectors chooses.
    AddServiceTags { selectors: Vec<X::ServiceSelector>, tags: Vec<TagId> },
    /// Remove tags from the services that any of the selectors chooses.
    RemoveServiceTags { selectors: Vec<X::ServiceSelector>, tags: Vec<TagId> },
    /// List the getters that any of the selectors chooses.
    GetGetterChannels { selectors: Vec<X::GetterSelector> },
    /// List the setters that any of the selectors chooses.
    GetSetterChannels { selectors: Vec<X::SetterSelector> },
    /// Add tags to the getters that any of the selectors chooses.
    AddGetterTags { selectors: Vec<X::GetterSelector>, tags: Vec<TagId> },
    /// Add tags to the setters that any of the selectors chooses.
    AddSetterTags { selectors: Vec<X::SetterSelector>, tags: Vec<TagId> },
    /// Remove tags from the getters that any of the selectors chooses.
    RemoveGetterTags { selectors: Vec<X::GetterSelector>, tags: Vec<TagId> },
    /// Remove tags from the setters that any of the selectors chooses.
    RemoveSetterTags { selectors: Vec<X::SetterSelector>, tags: Vec<TagId> },
    /// Read the latest values of the getters that any of the selectors chooses.
    FetchValues { selectors: Vec<X::GetterSelector> },
    /// Send values, each to the setters that any of its selectors chooses.
    SendValues { keyvalues: Vec<(Vec<X::SetterSelector>, Arc<X::Value>)> },
    /// Start a watch.
    RegisterChannelWatch { watch: WatchRequest<X>, on_event: Arc<X::EventSender> },
    /// End a watch.
    UnregisterChannelWatch { key: usize },
}

/// A reply.
pub enum Reply<X: Taxonomy> {
    /// To a request to add or remove something: whether it was done.
    Outcome(Result<(), Error>),
    /// To a request to list services.
    Services(Vec<Service<X::Getter, X::Setter>>),
    /// To a request to list getters.
    GetterChannels(Vec<Channel<X::Getter>>),
    /// To a request to list setters.
    SetterChannels(Vec<Channel<X::Setter>>),
    /// To a request to change tags: how many services or channels were chosen.
    Count(usize),
    /// To a request to read values.
    Fetched(Vec<(GetterId, Result<Option<X::Value>, X::AdapterError>)>),
    /// To a request to send values.
    Sent(Vec<(SetterId, Result<(), X::AdapterError>)>),
    /// To a request to start a watch: where the client listens, the key of the watch, and the
    /// flag to raise once the client has dropped the watch.
    WatchStarted { on_event: Arc<X::EventSender>, key: usize, is_dropped: Arc<AtomicBool> },
    /// To a request that has no reply.
    Silence,
}

/// `after` and `reply` may be the outcome of a request.
pub open spec fn outcome<X: Taxonomy, A: Adapter<X>>(
    before: Registry<X, A>,
    op: Op<X, A>,
    after: Registry<X, A>,
    reply: Reply<X>,
) -> bool {
    match op {
        Op::AddAdapter { adapter } => {
            &&& reply matches Reply::Outcome(result)
            &&& exists|id: AdapterId| #[trigger]
                id_reply::<X, A>(adapter, id) && (result, after) == before.add_adapter(
                    id,
                    adapter,
                )
        },
        Op::RemoveAdapter { id } => {
            &&& reply matches Reply::Outcome(result)
            &&& (result, after) == before.remove_adapter(id)
        },
        Op::AddService { service } => {
            &&& reply matches Reply::Outcome(result)
            &&& (result, after) == before.add_service(service@)
        },
        Op::RemoveService { id } => {
            &&& reply matches Reply::Outcome(result)
            &&& (result, after) == before.remove_service(id)
        },
        Op::AddGetter { getter } => {
            &&& reply matches Reply::Outcome(result)
            &&& (result, after) == before.add_getter(getter@)
        },
        Op::RemoveGetter { id } => {
            &&& reply matches Reply::Outcome(result)
            &&& (result, after) == before.remove_getter(id)
        },
        Op::AddSetter { setter } => {
            &&& reply matches Reply::Outcome(result)
            &&& (result, after) == before.add_setter(setter@)
        },
        Op::RemoveSetter { id } => {
            &&& reply matches Reply::Outcome(result)
            &&& (result, after) == before.remove_setter(id)
        },
        Op::GetServices { selectors } => {
            &&& after == before
            &&& reply matches Reply::Services(services)
            &&& before.may_list_services(selectors@, services@)
        },
        Op::GetGetterChannels { selectors } => {
            &&& after == before
            &&& reply matches Reply::GetterChannels(getters)
            &&& before.may_list_getters(selectors@, getters@)
        },
        Op::GetSetterChannels { selectors } => {
            &&& after == before
            &&& reply matches Reply::SetterChannels(setters)
            &&& before.may_list_setters(selectors@, setters@)
        },
        Op::AddServiceTags { selectors, tags } => {
            &&& reply matches Reply::Count(count)
            &&& before.may_tag_services(selectors@, tags@, count, after)
        },
        Op::RemoveServiceTags { selectors, tags } => {
            &&& reply matches Reply::Count(count)
            &&& before.may_untag_services(selectors@, tags@, count, after)
        },
        Op::AddGetterTags { selectors, tags } => {
            &&& reply matches Reply::Count(count)
            &&& before.may_tag_getters(selectors@, tags@, count, after)
        },
        Op::RemoveGetterTags { selectors, tags } => {
            &&& reply matches Reply::Count(count)
            &&& before.may_untag_getters(selectors@, tags@, count, after)
        },
        Op::AddSetterTags { selectors, tags } => {
            &&& reply matches Reply::Count(count)
            &&& before.may_tag_setters(selectors@, tags@, count, after)
        },
        Op::RemoveSetterTags { selectors, tags } => {
            &&& reply matches Reply::Count(count)
            &&& before.may_untag_setters(selectors@, tags@, count, after)
        },
        Op::FetchValues { selectors } => {
            &&& after == before
            &&& reply matches Reply::Fetched(results)
            &&& before.may_fetch(selectors@, results@)
        },
        Op::SendValues { keyvalues } => {
            &&& after == before
            &&& reply matches Reply::Sent(results)
            &&& before.may_send(keyvalues@, results@)
        },
        Op::RegisterChannelWatch { watch, on_event } => {
            &&& reply matches Reply::WatchStarted { on_event: listener, key, is_dropped }
            &&& listener == on_event
            &&& before.watches.next_key < usize::MAX
            &&& key == before.watches.next_key
            &&& made_lowered(*is_dropped)
            &&& before.may_register_watch(watch@, is_dropped, on_event, after)
        },
        Op::UnregisterChannelWatch { key } => {
            &&& reply is Silence
            &&& after == before.watch_ended(key)
        },
    }
}

impl<X: Taxonomy, A: Adapter<X>> AdapterManagerState<X, A> {
    /// Does what a request asks for, and returns the reply.
    pub fn execute(&mut self, op: Op<X, A>) -> (reply: Reply<X>)
        requires
            op is RegisterChannelWatch ==> old(self)@.watches.next_key < usize::MAX,
        ensures
            outcome(old(self)@, op, final(self)@, reply),
    {
        match op {
            Op::AddAdapter { adapter } => Reply::Outcome(self.add_adapter(adapter)),
            Op::AddService { service } => Reply::Outcome(self.add_service(service)),
            Op::AddGetter { getter } => Reply::Outcome(self.add_getter(getter)),
            Op::AddSetter { setter } => Reply::Outcome(self.add_setter(setter)),
            Op::RemoveAdapter { id } => Reply::Outcome(self.remove_adapter(id)),
            Op::RemoveService { id } => Reply::Outcome(self.remove_service(id)),
            Op::RemoveGetter { id } => Reply::Outcome(self.remove_getter(id)),
            Op::RemoveSetter { id } => Reply::Outcome(self.remove_setter(id)),
            Op::GetServices { selectors } => Reply::Services(self.get_services(selectors)),
            Op::GetGetterChannels { selectors } => Reply::GetterChannels(
                self.get_getter_channels(selectors),
            ),
            Op::GetSetterChannels { selectors } => Reply::SetterChannels(
                self.get_setter_channels(selectors),
            ),
            Op::AddServiceTags { selectors, tags } => Reply::Count(
                self.add_service_tags(selectors, tags),
            ),
            Op::AddGetterTags { selectors, tags } => Reply::Count(
                self.add_getter_tags(selectors, tags),
            ),
            Op::AddSetterTags { selectors, tags } => Reply::Count(
                self.add_setter_tags(selectors, tags),
            ),
            Op::RemoveServiceTags { selectors, tags } => Reply::Count(
                self.remove_service_tags(selectors, tags),
            ),
            Op::RemoveGetterTags { selectors, tags } => Reply::Count(
                self.remove_getter_tags(selectors, tags),
            ),
            Op::RemoveSetterTags { selectors, tags } => Reply::Count(
                self.remove_setter_tags(selectors, tags),
            ),
            Op::FetchValues { selectors } => Reply::Fetched(self.fetch_values(selectors)),
            Op::SendValues { keyvalues } => Reply::Sent(self.send_values(keyvalues)),
            Op::RegisterChannelWatch { watch, on_event } => {
                let (on_event, key, is_dropped) = self.register_channel_watch(watch, on_event);
                Reply::WatchStarted { on_event, key, is_dropped }
            },
            Op::UnregisterChannelWatch { key } => {
                // Silent request, no result.
                self.unregister_channel_watch(key);
                Reply::Silence
            },
        }
    }
}

} // verus!
