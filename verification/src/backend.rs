//! The registry itself: an API for plugging in adapters.
use std::collections::HashMap;
use std::sync::atomic::AtomicBool;
use std::sync::Arc;
use vstd::prelude::*;

use crate::adapter::{
    fetch_reply, id_reply, reports_to, send_reply, told_of, watch_reply, Adapter, Taxonomy,
};
use crate::collections::{elements_of, keys_of, lemma_view_map_is_empty, remove_keys, view_map};
use crate::data::{AdapterData, GetterData, GetterView, ServiceData, SetterData};
use crate::model::{attached, detached, Registry};
use crate::routing::split_by_adapter;
use crate::selection::{select, SelectedBy, show_items, tag_items, untag_items};
use crate::types::{
    AdapterId, Channel, Error, Exactly, GetterId, InternalError, Service, ServiceId, SetterId,
    TagId, WatchEvent,
};
use crate::watch::{made_lowered, refused, sort_results, WatchMap, WatchRequest};

verus! {

broadcast use {vstd::std_specs::hash::group_hash_axioms, crate::collections::group_view_map};

/// The registry.
pub struct AdapterManagerState<X: Taxonomy, A: Adapter<X>> {
    /// Adapters, indexed by their id.
    adapter_by_id: HashMap<AdapterId, AdapterData<A>>,
    /// Services, indexed by their id.
    service_by_id: HashMap<ServiceId, ServiceData<X>>,
    /// Getters, indexed by their id. Each service holds a second copy of its getters.
    getter_by_id: HashMap<GetterId, GetterData<X>>,
    /// Setters, indexed by their id. Each service holds a second copy of its setters.
    setter_by_id: HashMap<SetterId, SetterData<X>>,
    /// The watches that are going on.
    watchers: WatchMap<X>,
}

impl<X: Taxonomy, A: Adapter<X>> View for AdapterManagerState<X, A> {
    type V = Registry<X, A>;

    closed spec fn view(&self) -> Registry<X, A> {
        Registry {
            adapters: view_map(self.adapter_by_id@),
            services: view_map(self.service_by_id@),
            getters: view_map(self.getter_by_id@),
            setters: view_map(self.setter_by_id@),
            watches: self.watchers@,
        }
    }
}

impl<X: Taxonomy, A: Adapter<X>> AdapterManagerState<X, A> {
    /// A registry that holds nothing.
    pub fn new() -> (state: Self)
        ensures
            state@ == Registry::<X, A>::empty(),
    {
        AdapterManagerState {
            adapter_by_id: HashMap::new(),
            service_by_id: HashMap::new(),
            getter_by_id: HashMap::new(),
            setter_by_id: HashMap::new(),
            watchers: WatchMap::new(),
        }
    }

    /// Removes a service and its channels, and returns the adapter in charge of it. The adapter
    /// still holds the service.
    fn aux_remove_service(&mut self, id: &ServiceId) -> (removed: Result<AdapterId, Error>)
        ensures
            (removed, final(self)@) == old(self)@.aux_remove_service(*id),
    {
        let data = match self.service_by_id.remove(id) {
            None => {
                assert(view_map(self.service_by_id@) =~= view_map(old(self).service_by_id@));
                return Err(Error::InternalError(InternalError::NoSuchService(*id)));
            },
            Some(data) => data,
        };
        let getters = keys_of(&data.service.getters);
        remove_keys(&mut self.getter_by_id, &getters);
        let setters = keys_of(&data.service.setters);
        remove_keys(&mut self.setter_by_id, &setters);
        proof {
            let before = old(self)@;
            assert(before.services[*id] == data@);
            lemma_channels_of_one(before, *id);
            assert(self@.services =~= before.services.remove_keys(set![*id]));
        }
        Ok(data.service.adapter)
    }

    /// Adds an adapter to the system, under a given identifier.
    ///
    /// # Errors
    ///
    /// Returns an error if an adapter with the same identifier is already present.
    pub fn add_adapter_as(&mut self, id: AdapterId, adapter: A) -> (result: Result<(), Error>)
        ensures
            (result, final(self)@) == old(self)@.add_adapter(id, adapter),
    {
        if self.adapter_by_id.contains_key(&id) {
            return Err(Error::InternalError(InternalError::DuplicateAdapter(id)));
        }
        self.adapter_by_id.insert(id, AdapterData::new(adapter));
        Ok(())
    }

    /// Adds an adapter to the system, under the identifier that it gives for itself.
    ///
    /// # Errors
    ///
    /// Returns an error if an adapter with the same identifier is already present.
    pub fn add_adapter(&mut self, adapter: A) -> (result: Result<(), Error>)
        ensures
            exists|id: AdapterId| #[trigger]
                id_reply::<X, A>(adapter, id) && (result, final(self)@)
                    == old(self)@.add_adapter(id, adapter),
    {
        let id = adapter.id();
        assert(id_reply::<X, A>(adapter, id));
        self.add_adapter_as(id, adapter)
    }

    /// Removes an adapter from the system, including all its services and channels.
    ///
    /// # Errors
    ///
    /// Returns an error if no adapter with this identifier exists. Otherwise, cleans up as much
    /// as possible, even if the system is in an inconsistent state.
    pub fn remove_adapter(&mut self, id: AdapterId) -> (result: Result<(), Error>)
        ensures
            (result, final(self)@) == old(self)@.remove_adapter(id),
    {
        let ghost before = self@;
        let data = match self.adapter_by_id.remove(&id) {
            None => {
                assert(view_map(self.adapter_by_id@) =~= before.adapters);
                return Err(Error::InternalError(InternalError::NoSuchAdapter(id)));
            },
            Some(data) => data,
        };
        let services = elements_of(&data.services);
        let ghost start = self@;
        assert(start.without_services(Set::empty()) =~= start);
        let mut i: usize = 0;
        while i < services.len()
            invariant
                i <= services.len(),
                self@ =~= start.without_services(services@.take(i as int).to_set()),
            decreases services.len() - i,
        {
            let service = services[i];
            let ghost done = services@.take(i as int);
            proof {
                assert(services@.take(i + 1) =~= done.push(service));
                done.lemma_push_to_set_commute(service);
            }
            let _ = self.aux_remove_service(&service);
            proof {
                lemma_without_services_step(start, done.to_set(), service);
            }
            i = i + 1;
        }
        proof {
            assert(services@.take(services@.len() as int) =~= services@);
            assert(before.adapters[id] == data@);
            assert(before.getters_of(services@.to_set()) =~= start.getters_of(services@.to_set()));
            assert(before.setters_of(services@.to_set()) =~= start.setters_of(services@.to_set()));
        }
        Ok(())
    }

    /// Adds a service to the system. Called by the adapter when a new service (typically a new
    /// device) has been detected or configured.
    ///
    /// The service must not have any channels yet: channels are added by `add_getter` and
    /// `add_setter`. The adapter is in charge of making sure that identifiers persist across
    /// reboots.
    ///
    /// # Errors
    ///
    /// Returns an error, and changes nothing, if any of:
    /// - the service has channels;
    /// - there is no such adapter;
    /// - a service with the same identifier is already installed.
    pub fn add_service(&mut self, service: Service<X::Getter, X::Setter>) -> (result: Result<
        (),
        Error,
    >)
        ensures
            (result, final(self)@) == old(self)@.add_service(service@),
    {
        let ghost before = self@;
        proof {
            lemma_view_map_is_empty(service.getters@);
            lemma_view_map_is_empty(service.setters@);
        }
        if !service.getters.is_empty() || !service.setters.is_empty() {
            return Err(Error::InternalError(InternalError::InvalidInitialService));
        }
        let id = service.id;
        let adapter = service.adapter;
        match self.adapter_by_id.get(&adapter) {
            None => {
                return Err(Error::InternalError(InternalError::NoSuchAdapter(adapter)));
            },
            Some(data) => {
                if data.services.contains(&id) || self.service_by_id.contains_key(&id) {
                    return Err(Error::InternalError(InternalError::DuplicateService(id)));
                }
            },
        }
        if let Some(data) = self.adapter_by_id.remove(&adapter) {
            let mut data = data;
            data.services.insert(id);
            self.adapter_by_id.insert(adapter, data);
            assert(view_map(self.adapter_by_id@) =~= before.adapters.insert(adapter, data@));
        }
        self.service_by_id.insert(id, ServiceData { service });
        Ok(())
    }

    /// Removes a service previously registered on the system. Typically called by an adapter
    /// when a service (such as a device) is disconnected.
    ///
    /// # Errors
    ///
    /// Returns an error if there is no such service, or if the adapter in charge of it is
    /// missing or does not know of it, in which case the service is removed nonetheless.
    pub fn remove_service(&mut self, service_id: ServiceId) -> (result: Result<(), Error>)
        ensures
            (result, final(self)@) == old(self)@.remove_service(service_id),
    {
        let adapter = match self.aux_remove_service(&service_id) {
            Err(error) => {
                return Err(error);
            },
            Ok(adapter) => adapter,
        };
        let ghost rest = self@;
        match self.adapter_by_id.remove(&adapter) {
            None => {
                assert(view_map(self.adapter_by_id@) =~= rest.adapters);
                Err(Error::InternalError(InternalError::NoSuchAdapter(adapter)))
            },
            Some(data) => {
                let mut data = data;
                let known = data.services.remove(&service_id);
                self.adapter_by_id.insert(adapter, data);
                assert(view_map(self.adapter_by_id@) =~= rest.adapters.insert(adapter, data@));
                if known {
                    Ok(())
                } else {
                    assert(data@.services =~= rest.adapters[adapter].services);
                    assert(self@.adapters =~= rest.adapters);
                    Err(Error::InternalError(InternalError::NoSuchService(service_id)))
                }
            },
        }
    }

    /// Adds a getter to the system. Typically called by the adapter when a new service has been
    /// detected or configured. Some services may gain or lose getters at runtime depending on
    /// their configuration.
    ///
    /// The adapter is in charge of making sure that identifiers persist across reboots.
    ///
    /// # Errors
    ///
    /// Returns an error, and changes nothing, if the parent service is not registered, if it
    /// belongs to another adapter, or if a getter with the same identifier is already registered.
    pub fn add_getter(&mut self, getter: Channel<X::Getter>) -> (result: Result<(), Error>)
        ensures
            (result, final(self)@) == old(self)@.add_getter(getter@),
    {
        let ghost before = self@;
        let id = getter.id;
        let owner = getter.service;
        match self.service_by_id.get(&owner) {
            None => {
                return Err(Error::InternalError(InternalError::NoSuchService(owner)));
            },
            Some(data) => {
                if data.service.adapter != getter.adapter {
                    return Err(
                        Error::InternalError(
                            InternalError::ConflictingAdapter(data.service.adapter, getter.adapter),
                        ),
                    );
                }
                if data.service.getters.contains_key(&id) || self.getter_by_id.contains_key(&id) {
                    return Err(Error::InternalError(InternalError::DuplicateGetter(id)));
                }
            },
        }
        if let Some(data) = self.service_by_id.remove(&owner) {
            let mut data = data;
            data.service.getters.insert(id, getter.clone());
            self.service_by_id.insert(owner, data);
            assert(view_map(self.service_by_id@) =~= before.services.insert(owner, data@));
        }
        self.getter_by_id.insert(id, GetterData::new(getter));
        Ok(())
    }

    /// Removes a getter previously registered on the system. Typically called by an adapter when
    /// a service is reconfigured to remove one of its getters.
    ///
    /// # Errors
    ///
    /// Returns an error if the getter is not registered, or if its service is missing or does
    /// not know of it, in which case the getter is removed nonetheless.
    pub fn remove_getter(&mut self, id: GetterId) -> (result: Result<(), Error>)
        ensures
            (result, final(self)@) == old(self)@.remove_getter(id),
    {
        let ghost before = self@;
        let owner = match self.getter_by_id.remove(&id) {
            None => {
                assert(view_map(self.getter_by_id@) =~= before.getters);
                return Err(Error::InternalError(InternalError::NoSuchGetter(id)));
            },
            Some(data) => data.getter.service,
        };
        let ghost rest = self@;
        match self.service_by_id.remove(&owner) {
            None => {
                assert(view_map(self.service_by_id@) =~= rest.services);
                Err(Error::InternalError(InternalError::NoSuchService(owner)))
            },
            Some(data) => {
                let mut data = data;
                let removed = data.service.getters.remove(&id);
                self.service_by_id.insert(owner, data);
                assert(view_map(self.service_by_id@) =~= rest.services.insert(owner, data@));
                if removed.is_none() {
                    assert(data@.getters =~= rest.services[owner].getters);
                    assert(self@.services =~= rest.services);
                    Err(Error::InternalError(InternalError::NoSuchGetter(id)))
                } else {
                    Ok(())
                }
            },
        }
    }

    /// Adds a setter to the system. Typically called by the adapter when a new service has been
    /// detected or configured. Some services may gain or lose setters at runtime depending on
    /// their configuration.
    ///
    /// The adapter is in charge of making sure that identifiers persist across reboots.
    ///
    /// # Errors
    ///
    /// Returns an error, and changes nothing, if the parent service is not registered, if it
    /// belongs to another adapter, or if a setter with the same identifier is already registered.
    pub fn add_setter(&mut self, setter: Channel<X::Setter>) -> (result: Result<(), Error>)
        ensures
            (result, final(self)@) == old(self)@.add_setter(setter@),
    {
        let ghost before = self@;
        let id = setter.id;
        let owner = setter.service;
        match self.service_by_id.get(&owner) {
            None => {
                return Err(Error::InternalError(InternalError::NoSuchService(owner)));
            },
            Some(data) => {
                if data.service.adapter != setter.adapter {
                    return Err(
                        Error::InternalError(
                            InternalError::ConflictingAdapter(data.service.adapter, setter.adapter),
                        ),
                    );
                }
                if data.service.setters.contains_key(&id) || self.setter_by_id.contains_key(&id) {
                    return Err(Error::InternalError(InternalError::DuplicateSetter(id)));
                }
            },
        }
        if let Some(data) = self.service_by_id.remove(&owner) {
            let mut data = data;
            data.service.setters.insert(id, setter.clone());
            self.service_by_id.insert(owner, data);
            assert(view_map(self.service_by_id@) =~= before.services.insert(owner, data@));
        }
        self.setter_by_id.insert(id, SetterData::new(setter));
        Ok(())
    }

    /// Removes a setter previously registered on the system. Typically called by an adapter when
    /// a service is reconfigured to remove one of its setters.
    ///
    /// # Errors
    ///
    /// Returns an error if the setter is not registered, or if its service is missing or does
    /// not know of it, in which case the setter is removed nonetheless.
    pub fn remove_setter(&mut self, id: SetterId) -> (result: Result<(), Error>)
        ensures
            (result, final(self)@) == old(self)@.remove_setter(id),
    {
        let ghost before = self@;
        let owner = match self.setter_by_id.remove(&id) {
            None => {
                assert(view_map(self.setter_by_id@) =~= before.setters);
                return Err(Error::InternalError(InternalError::NoSuchSetter(id)));
            },
            Some(data) => data.setter.service,
        };
        let ghost rest = self@;
        match self.service_by_id.remove(&owner) {
            None => {
                assert(view_map(self.service_by_id@) =~= rest.services);
                Err(Error::InternalError(InternalError::NoSuchService(owner)))
            },
            Some(data) => {
                let mut data = data;
                let removed = data.service.setters.remove(&id);
                self.service_by_id.insert(owner, data);
                assert(view_map(self.service_by_id@) =~= rest.services.insert(owner, data@));
                if removed.is_none() {
                    assert(data@.setters =~= rest.services[owner].setters);
                    assert(self@.services =~= rest.services);
                    Err(Error::InternalError(InternalError::NoSuchSetter(id)))
                } else {
                    Ok(())
                }
            },
        }
    }

    /// The services that any of the selectors chooses.
    pub fn get_services(&self, selectors: Vec<X::ServiceSelector>) -> (services: Vec<
        Service<X::Getter, X::Setter>,
    >)
        ensures
            self@.may_list_services(selectors@, services@),
    {
        let picked = select(&selectors, &self.service_by_id);
        assert(self@.services_chosen(selectors@, picked@));
        show_items(&self.service_by_id, &picked)
    }

    /// Adds tags to the services that any of the selectors chooses, and returns how many these
    /// are.
    pub fn add_service_tags(
        &mut self,
        selectors: Vec<X::ServiceSelector>,
        tags: Vec<TagId>,
    ) -> (count: usize)
        ensures
            old(self)@.may_tag_services(selectors@, tags@, count, final(self)@),
    {
        let picked = select(&selectors, &self.service_by_id);
        assert(self@.services_chosen(selectors@, picked@));
        tag_items(&mut self.service_by_id, &picked, &tags);
        picked.len()
    }

    /// Removes tags from the services that any of the selectors chooses, and returns how many
    /// these are.
    pub fn remove_service_tags(
        &mut self,
        selectors: Vec<X::ServiceSelector>,
        tags: Vec<TagId>,
    ) -> (count: usize)
        ensures
            old(self)@.may_untag_services(selectors@, tags@, count, final(self)@),
    {
        let picked = select(&selectors, &self.service_by_id);
        assert(self@.services_chosen(selectors@, picked@));
        untag_items(&mut self.service_by_id, &picked, &tags);
        picked.len()
    }

    /// The getters that any of the selectors chooses.
    pub fn get_getter_channels(&self, selectors: Vec<X::GetterSelector>) -> (getters: Vec<
        Channel<X::Getter>,
    >)
        ensures
            self@.may_list_getters(selectors@, getters@),
    {
        let picked = select(&selectors, &self.getter_by_id);
        assert(self@.getters_chosen(selectors@, picked@));
        show_items(&self.getter_by_id, &picked)
    }

    /// Adds tags to the getters that any of the selectors chooses, and returns how many these
    /// are.
    pub fn add_getter_tags(
        &mut self,
        selectors: Vec<X::GetterSelector>,
        tags: Vec<TagId>,
    ) -> (count: usize)
        ensures
            old(self)@.may_tag_getters(selectors@, tags@, count, final(self)@),
    {
        let picked = select(&selectors, &self.getter_by_id);
        assert(self@.getters_chosen(selectors@, picked@));
        tag_items(&mut self.getter_by_id, &picked, &tags);
        picked.len()
    }

    /// Removes tags from the getters that any of the selectors chooses, and returns how many
    /// these are.
    pub fn remove_getter_tags(
        &mut self,
        selectors: Vec<X::GetterSelector>,
        tags: Vec<TagId>,
    ) -> (count: usize)
        ensures
            old(self)@.may_untag_getters(selectors@, tags@, count, final(self)@),
    {
        let picked = select(&selectors, &self.getter_by_id);
        assert(self@.getters_chosen(selectors@, picked@));
        untag_items(&mut self.getter_by_id, &picked, &tags);
        picked.len()
    }

    /// The setters that any of the selectors chooses.
    pub fn get_setter_channels(&self, selectors: Vec<X::SetterSelector>) -> (setters: Vec<
        Channel<X::Setter>,
    >)
        ensures
            self@.may_list_setters(selectors@, setters@),
    {
        let picked = select(&selectors, &self.setter_by_id);
        assert(self@.setters_chosen(selectors@, picked@));
        show_items(&self.setter_by_id, &picked)
    }

    /// Adds tags to the setters that any of the selectors chooses, and returns how many these
    /// are.
    pub fn add_setter_tags(
        &mut self,
        selectors: Vec<X::SetterSelector>,
        tags: Vec<TagId>,
    ) -> (count: usize)
        ensures
            old(self)@.may_tag_setters(selectors@, tags@, count, final(self)@),
    {
        let picked = select(&selectors, &self.setter_by_id);
        assert(self@.setters_chosen(selectors@, picked@));
        tag_items(&mut self.setter_by_id, &picked, &tags);
        picked.len()
    }

    /// Removes tags from the setters that any of the selectors chooses, and returns how many
    /// these are.
    pub fn remove_setter_tags(
        &mut self,
        selectors: Vec<X::SetterSelector>,
        tags: Vec<TagId>,
    ) -> (count: usize)
        ensures
            old(self)@.may_untag_setters(selectors@, tags@, count, final(self)@),
    {
        let picked = select(&selectors, &self.setter_by_id);
        assert(self@.setters_chosen(selectors@, picked@));
        untag_items(&mut self.setter_by_id, &picked, &tags);
        picked.len()
    }

    /// The given getters as work for the adapters in charge of them.
    fn work_to_fetch(&self, picked: &Vec<GetterId>) -> (work: Vec<(AdapterId, GetterId)>)
        requires
            picked@.to_set().subset_of(self@.getters.dom()),
        ensures
            work@ == self@.fetch_work(picked@),
    {
        let mut work: Vec<(AdapterId, GetterId)> = Vec::new();
        let mut i: usize = 0;
        while i < picked.len()
            invariant
                i <= picked.len(),
                picked@.to_set().subset_of(self@.getters.dom()),
                work@ =~= self@.fetch_work(picked@.take(i as int)),
            decreases picked.len() - i,
        {
            let id = picked[i];
            proof {
                assert(picked@.to_set().contains(id));
                assert(picked@.take(i + 1) =~= picked@.take(i as int).push(id));
            }
            match self.getter_by_id.get(&id) {
                Some(data) => {
                    work.push((data.getter.adapter, id));
                },
                None => {
                    assert(false);
                },
            }
            i = i + 1;
        }
        assert(picked@.take(picked@.len() as int) =~= picked@);
        work
    }

    /// Hands requests for values to the adapters, and puts their replies together. A request to
    /// an adapter that is not registered is skipped.
    pub fn dispatch_fetch(&self, requests: Vec<(AdapterId, Vec<GetterId>)>) -> (results: Vec<
        (GetterId, Result<Option<X::Value>, X::AdapterError>),
    >)
        ensures
            exists|replies: Seq<Seq<(GetterId, Result<Option<X::Value>, X::AdapterError>)>>|
                #[trigger] self@.fetch_replies(requests@, replies) && results@
                    == replies.flatten(),
    {
        let ghost all = requests@;
        let ghost mut replies: Seq<Seq<(GetterId, Result<Option<X::Value>, X::AdapterError>)>> =
            Seq::empty();
        let mut results: Vec<(GetterId, Result<Option<X::Value>, X::AdapterError>)> = Vec::new();
        for request in it: requests
            invariant
                it.seq() == all,
                replies.len() == it.index(),
                self@.fetch_replies(all.take(it.index() as int), replies),
                results@ =~= replies.flatten(),
        {
            let (adapter, getters) = request;
            let ghost mut reply: Seq<(GetterId, Result<Option<X::Value>, X::AdapterError>)> =
                Seq::empty();
            match self.adapter_by_id.get(&adapter) {
                None => {},
                Some(data) => {
                    let mut got = data.adapter.fetch_values(getters);
                    proof {
                        reply = got@;
                        assert(fetch_reply::<X, A>(data.adapter, getters@, reply));
                        assert(self@.adapters[adapter] == data@);
                    }
                    results.append(&mut got);
                },
            }
            proof {
                replies.lemma_flatten_push(reply);
                replies = replies.push(reply);
            }
        }
        assert(all.take(all.len() as int) =~= all);
        results
    }

    /// Reads the latest values of the getters that any of the selectors chooses. Each adapter
    /// gets one request for all its getters, so as to let it optimize.
    pub fn fetch_values(&mut self, selectors: Vec<X::GetterSelector>) -> (results: Vec<
        (GetterId, Result<Option<X::Value>, X::AdapterError>),
    >)
        ensures
            *final(self) == *old(self),
            old(self)@.may_fetch(selectors@, results@),
    {
        let picked = select(&selectors, &self.getter_by_id);
        assert(self@.getters_chosen(selectors@, picked@));
        let work = self.work_to_fetch(&picked);
        let requests = split_by_adapter(work);
        let ghost asked = requests@;
        let results = self.dispatch_fetch(requests);
        proof {
            let replies = choose|
                replies: Seq<Seq<(GetterId, Result<Option<X::Value>, X::AdapterError>)>>,
            | #[trigger]
                self@.fetch_replies(asked, replies) && results@ == replies.flatten();
            assert(self@.fetched(selectors@, picked@, asked, replies, results@));
        }
        results
    }

    /// The given setters, each with the value to send, as work for the adapters in charge.
    fn work_to_send(&self, picked: &Vec<SetterId>, value: &Arc<X::Value>) -> (work: Vec<
        (AdapterId, (SetterId, Arc<X::Value>)),
    >)
        requires
            picked@.to_set().subset_of(self@.setters.dom()),
        ensures
            work@ == self@.send_work(picked@, *value),
    {
        let mut work: Vec<(AdapterId, (SetterId, Arc<X::Value>))> = Vec::new();
        let mut i: usize = 0;
        while i < picked.len()
            invariant
                i <= picked.len(),
                picked@.to_set().subset_of(self@.setters.dom()),
                work@ =~= self@.send_work(picked@.take(i as int), *value),
            decreases picked.len() - i,
        {
            let id = picked[i];
            proof {
                assert(picked@.to_set().contains(id));
                assert(picked@.take(i + 1) =~= picked@.take(i as int).push(id));
            }
            match self.setter_by_id.get(&id) {
                Some(data) => {
                    work.push((data.setter.adapter, (id, value.clone())));
                },
                None => {
                    assert(false);
                },
            }
            i = i + 1;
        }
        assert(picked@.take(picked@.len() as int) =~= picked@);
        work
    }

    /// Hands requests to send values to the adapters, and puts their replies together. A request
    /// to an adapter that is not registered is skipped.
    pub fn dispatch_send(&self, requests: Vec<(AdapterId, Vec<(SetterId, Arc<X::Value>)>)>) -> (
    results: Vec<(SetterId, Result<(), X::AdapterError>)>)
        ensures
            exists|replies: Seq<Seq<(SetterId, Result<(), X::AdapterError>)>>| #[trigger]
                self@.send_replies(requests@, replies) && results@ == replies.flatten(),
    {
        let ghost all = requests@;
        let ghost mut replies: Seq<Seq<(SetterId, Result<(), X::AdapterError>)>> = Seq::empty();
        let mut results: Vec<(SetterId, Result<(), X::AdapterError>)> = Vec::new();
        for request in it: requests
            invariant
                it.seq() == all,
                replies.len() == it.index(),
                self@.send_replies(all.take(it.index() as int), replies),
                results@ =~= replies.flatten(),
        {
            let (adapter, payload) = request;
            let ghost mut reply: Seq<(SetterId, Result<(), X::AdapterError>)> = Seq::empty();
            match self.adapter_by_id.get(&adapter) {
                None => {},
                Some(data) => {
                    let mut got = data.adapter.send_values(payload);
                    proof {
                        reply = got@;
                        assert(send_reply::<X, A>(data.adapter, payload@, reply));
                        assert(self@.adapters[adapter] == data@);
                    }
                    results.append(&mut got);
                },
            }
            proof {
                replies.lemma_flatten_push(reply);
                replies = replies.push(reply);
            }
        }
        assert(all.take(all.len() as int) =~= all);
        results
    }

    /// Sends values, each to the setters that any of its selectors chooses. Each adapter gets
    /// one request for all its setters.
    pub fn send_values(&self, keyvalues: Vec<(Vec<X::SetterSelector>, Arc<X::Value>)>) -> (results:
        Vec<(SetterId, Result<(), X::AdapterError>)>)
        ensures
            self@.may_send(keyvalues@, results@),
    {
        let ghost mut walks: Seq<Seq<SetterId>> = Seq::empty();
        let mut work: Vec<(AdapterId, (SetterId, Arc<X::Value>))> = Vec::new();
        let mut j: usize = 0;
        while j < keyvalues.len()
            invariant
                j <= keyvalues.len(),
                self@.send_chosen(keyvalues@.take(j as int), walks),
                work@ =~= self@.send_all_work(keyvalues@, walks),
            decreases keyvalues.len() - j,
        {
            let picked = select(&keyvalues[j].0, &self.setter_by_id);
            assert(self@.setters_chosen(keyvalues@[j as int].0@, picked@));
            let mut more = self.work_to_send(&picked, &keyvalues[j].1);
            proof {
                lemma_send_all_work_push(self@, keyvalues@, walks, picked@);
                walks = walks.push(picked@);
            }
            work.append(&mut more);
            j = j + 1;
        }
        assert(keyvalues@.take(keyvalues@.len() as int) =~= keyvalues@);
        let requests = split_by_adapter(work);
        let ghost asked = requests@;
        let results = self.dispatch_send(requests);
        proof {
            let replies = choose|replies: Seq<Seq<(SetterId, Result<(), X::AdapterError>)>>|
                #[trigger] self@.send_replies(asked, replies) && results@ == replies.flatten();
            assert(self@.sent(keyvalues@, walks, asked, replies, results@));
        }
        results
    }

    /// The key that the next watch will get. There can be no more watches once this is the
    /// largest number that fits.
    pub fn next_watch_key(&self) -> (key: usize)
        ensures
            key == self@.watches.next_key,
    {
        self.watchers.next_key()
    }

    /// The given getters, each with the values to watch for, as work for the adapters in charge.
    fn work_to_watch(&self, picked: &Vec<GetterId>, filter: &Exactly<Arc<X::Range>>) -> (work:
        Vec<(AdapterId, (GetterId, Option<Arc<X::Range>>))>)
        requires
            picked@.to_set().subset_of(self@.getters.dom()),
        ensures
            work@ == self@.watch_work(picked@, *filter),
    {
        let mut work: Vec<(AdapterId, (GetterId, Option<Arc<X::Range>>))> = Vec::new();
        let range: Option<Arc<X::Range>> = match filter {
            Exactly::Exactly(range) => Some(range.clone()),
            Exactly::Always => None,
            Exactly::Never => {
                return work;
            },
        };
        let mut i: usize = 0;
        while i < picked.len()
            invariant
                i <= picked.len(),
                picked@.to_set().subset_of(self@.getters.dom()),
                *filter == (match range {
                    Some(range) => Exactly::Exactly(range),
                    None => Exactly::Always,
                }),
                work@ =~= self@.watch_work(picked@.take(i as int), *filter),
            decreases picked.len() - i,
        {
            let id = picked[i];
            proof {
                assert(picked@.to_set().contains(id));
                assert(picked@.take(i + 1) =~= picked@.take(i as int).push(id));
            }
            match self.getter_by_id.get(&id) {
                Some(data) => {
                    let range: Option<Arc<X::Range>> = match &range {
                        Some(range) => Some(range.clone()),
                        None => None,
                    };
                    work.push((data.getter.adapter, (id, range)));
                },
                None => {
                    assert(false);
                },
            }
            i = i + 1;
        }
        assert(picked@.take(picked@.len() as int) =~= picked@);
        work
    }

    /// Includes the given getters in the watch with this key.
    fn attach(&mut self, picked: &Vec<GetterId>, key: usize)
        ensures
            final(self)@ == (Registry {
                getters: attached(old(self)@.getters, picked@.to_set(), key),
                ..old(self)@
            }),
    {
        let ghost before = self@;
        assert(attached(before.getters, picked@.take(0).to_set(), key) =~= before.getters);
        let mut i: usize = 0;
        while i < picked.len()
            invariant
                i <= picked.len(),
                self@.adapters == before.adapters,
                self@.services == before.services,
                self@.setters == before.setters,
                self@.watches == before.watches,
                self@.getters =~= attached(before.getters, picked@.take(i as int).to_set(), key),
            decreases picked.len() - i,
        {
            let id = picked[i];
            let ghost now = self@.getters;
            proof {
                assert(picked@.take(i + 1) =~= picked@.take(i as int).push(id));
                picked@.take(i as int).lemma_push_to_set_commute(id);
            }
            if let Some(data) = self.getter_by_id.remove(&id) {
                let mut data = data;
                assert(now.contains_key(id) && now[id] == data@);
                data.watchers.insert(key);
                self.getter_by_id.insert(id, data);
                assert(self@.getters =~= now.insert(id, data@));
                assert(before.getters.contains_key(id));
                assert(data@.watchers =~= before.getters[id].watchers.insert(key));
            } else {
                assert(!now.contains_key(id));
                assert(self@.getters =~= now);
            }
            i = i + 1;
        }
        assert(picked@.take(picked@.len() as int) =~= picked@);
    }

    /// Starts a watch: gives it a key, includes the getters that its selectors choose, and
    /// returns the key with the requests that are to be handed to the adapters in charge, by
    /// `dispatch_watch`.
    pub fn start_watch(
        &mut self,
        watch: WatchRequest<X>,
        is_dropped: &Arc<AtomicBool>,
        on_event: Arc<X::EventSender>,
    ) -> (started: (usize, Vec<(AdapterId, Vec<(GetterId, Option<Arc<X::Range>>)>)>))
        requires
            old(self)@.watches.next_key < usize::MAX,
        ensures
            started.0 == old(self)@.watches.next_key,
            old(self)@.may_start_watch(
                watch@,
                *is_dropped,
                on_event,
                final(self)@,
                started.1@,
            ),
    {
        let ghost before = self@;
        let ghost parts = watch@;
        let key = self.watchers.next_key();
        let ghost mut walks: Seq<Seq<GetterId>> = Seq::empty();
        let mut included: Vec<GetterId> = Vec::new();
        let mut work: Vec<(AdapterId, (GetterId, Option<Arc<X::Range>>))> = Vec::new();
        assert(attached(before.getters, included@.to_set(), key) =~= before.getters);
        let mut j: usize = 0;
        while j < watch.len()
            invariant
                j <= watch.len(),
                parts == watch@,
                before.watch_chosen(parts.take(j as int), walks),
                included@ == walks.flatten(),
                work@ =~= before.watch_all_work(parts, walks),
                self@ == (Registry {
                    getters: attached(before.getters, included@.to_set(), key),
                    ..before
                }),
            decreases watch.len() - j,
        {
            let picked = select(&watch[j].0, &self.getter_by_id);
            assert(self@.getters_chosen(parts[j as int].0@, picked@));
            let mut more = self.work_to_watch(&picked, &watch[j].1);
            proof {
                lemma_attached_alike(before, included@.to_set(), key, self@);
                assert(before.getters_chosen(parts[j as int].0@, picked@));
                assert(more@ == before.watch_work(picked@, parts[j as int].1)) by {
                    lemma_attached_work(
                        before,
                        included@.to_set(),
                        key,
                        self@,
                        picked@,
                        parts[j as int].1,
                    );
                }
                lemma_watch_all_work_push(before, parts, walks, picked@);
                walks.lemma_flatten_push(picked@);
                walks = walks.push(picked@);
            }
            self.attach(&picked, key);
            work.append(&mut more);
            let ghost sofar = included@;
            let mut picked = picked;
            let ghost chosen = picked@;
            included.append(&mut picked);
            proof {
                lemma_attached_twice(before.getters, sofar, chosen, key);
            }
            j = j + 1;
        }
        assert(parts.take(parts.len() as int) =~= parts);
        // Store the watch, with the getters that it is attached to.
        let key = self.watchers.create(watch, is_dropped, on_event);
        self.watchers.push_getters(key, &included);
        let requests = split_by_adapter(work);
        proof {
            let picked = walks.flatten().to_set();
            assert(Set::empty().union(picked) =~= picked);
            let after = before.watched(parts, *is_dropped, on_event, picked);
            assert(self@.watches.watchers =~= after.watches.watchers);
            assert(self@ =~= after);
            assert(before.watch_started(
                parts,
                *is_dropped,
                on_event,
                walks,
                self@,
                requests@,
            ));
            assert(before.may_start_watch(parts, *is_dropped, on_event, self@, requests@));
        }
        (key, requests)
    }

    /// Takes what an adapter replied to its part of the watch with this key: keeps the guards
    /// that it handed out, and returns the events that tell of the getters that it refused.
    pub fn complete_watch(
        &mut self,
        key: usize,
        results: Vec<(GetterId, Result<X::AdapterWatchGuard, X::AdapterError>)>,
    ) -> (events: Vec<WatchEvent<X::Value, X::AdapterError>>)
        ensures
            events@ == refused::<X>(results@),
            final(self)@ == old(self)@.watch_granted(key, results@),
    {
        let (guards, events) = sort_results::<X>(results);
        self.watchers.push_guards(key, guards);
        events
    }

    /// Asks an adapter to take part in the watch with this key, keeps the guards that it hands
    /// out, and tells the client of the getters that it refuses. An adapter that is not
    /// registered is skipped.
    pub fn dispatch_watch(
        &mut self,
        key: usize,
        adapter: AdapterId,
        request: Vec<(GetterId, Option<Arc<X::Range>>)>,
        is_dropped: &Arc<AtomicBool>,
        on_event: &Arc<X::EventSender>,
    )
        ensures
            old(self)@.watch_dispatched(
                key,
                adapter,
                request@,
                *is_dropped,
                *on_event,
                final(self)@,
            ),
    {
        let ghost before = self@;
        let results = match self.adapter_by_id.get(&adapter) {
            None => Vec::new(),
            Some(data) => {
                let sink = X::sink(on_event, is_dropped);
                assert(reports_to::<X>(sink, *on_event, *is_dropped));
                let results = data.adapter.register_watch(request, sink);
                assert(before.adapters[adapter] == data@);
                assert(watch_reply::<X, A>(data.adapter, request@, sink, results@));
                results
            },
        };
        let ghost reply = results@;
        assert(before.watch_asked(adapter, request@, *is_dropped, *on_event, reply));
        let events = self.complete_watch(key, results);
        if events.len() > 0 {
            X::notify(on_event, events);
        }
        assert(told_of::<X>(*on_event, refused::<X>(reply)));
    }

    /// Registers a watch: the client is told of what happens to the getters that its selectors
    /// choose. Returns where the client listens, the key by which `unregister_channel_watch` ends
    /// the watch, and a flag that is to be raised once the client has dropped the watch, so that
    /// it is told nothing more.
    pub fn register_channel_watch(
        &mut self,
        watch: WatchRequest<X>,
        on_event: Arc<X::EventSender>,
    ) -> (registered: (Arc<X::EventSender>, usize, Arc<AtomicBool>))
        requires
            old(self)@.watches.next_key < usize::MAX,
        ensures
            registered.0 == on_event,
            registered.1 == old(self)@.watches.next_key,
            made_lowered(*registered.2),
            old(self)@.may_register_watch(watch@, registered.2, on_event, final(self)@),
    {
        let ghost before = self@;
        let ghost parts = watch@;
        let is_dropped = Arc::new(AtomicBool::new(false));
        let (key, requests) = self.start_watch(watch, &is_dropped, on_event.clone());
        let ghost all = requests@;
        let ghost walks = choose|walks: Seq<Seq<GetterId>>| #[trigger]
            before.watch_started(parts, is_dropped, on_event, walks, self@, all);
        let ghost mid = self@;
        let ghost mut replies: Seq<Seq<(GetterId, Result<X::AdapterWatchGuard, X::AdapterError>)>> =
            Seq::empty();
        // Now dispatch to adapters.
        for part in it: requests
            invariant
                it.seq() == all,
                replies.len() == it.index(),
                mid.adapters == before.adapters,
                self@.adapters == before.adapters,
                before.watch_replies(all.take(it.index() as int), is_dropped, on_event, replies),
                self@ == mid.watch_granted_by_all(key, replies),
        {
            let (adapter, request) = part;
            let ghost now = self@;
            self.dispatch_watch(key, adapter, request, &is_dropped, &on_event);
            proof {
                let reply = choose|
                    reply: Seq<(GetterId, Result<X::AdapterWatchGuard, X::AdapterError>)>,
                | #[trigger]
                    now.watch_asked(adapter, request@, is_dropped, on_event, reply)
                        && told_of::<X>(on_event, refused::<X>(reply)) && self@
                        == now.watch_granted(key, reply);
                assert(before.watch_asked(adapter, request@, is_dropped, on_event, reply));
                assert(replies.push(reply).drop_last() =~= replies);
                replies = replies.push(reply);
            }
        }
        assert(all.take(all.len() as int) =~= all);
        assert(before.watch_registered(parts, is_dropped, on_event, walks, all, replies, self@));
        (on_event, key, is_dropped)
    }

    /// Ends a watch previously registered with `register_channel_watch`: its getters forget it, as
    /// far as they are still there, and what the adapters handed out for it is released. A key
    /// that no watch has is ignored.
    pub fn unregister_channel_watch(&mut self, key: usize)
        ensures
            final(self)@ == old(self)@.watch_ended(key),
    {
        let ghost before = self@;
        let data = match self.watchers.remove(key) {
            None => {
                assert(self@.watches.watchers =~= before.watches.watchers);
                return;
            },
            Some(data) => data,
        };
        // Remove the watch from all its getters.
        let getters = elements_of(&data.getters);
        let ghost start = self@;
        let mut i: usize = 0;
        assert(detached(before.getters, getters@.take(0).to_set(), key) =~= before.getters);
        while i < getters.len()
            invariant
                i <= getters.len(),
                start.getters == before.getters,
                self@ =~= (Registry {
                    getters: detached(before.getters, getters@.take(i as int).to_set(), key),
                    ..start
                }),
            decreases getters.len() - i,
        {
            let id = getters[i];
            let ghost now = self@.getters;
            proof {
                assert(getters@.take(i + 1) =~= getters@.take(i as int).push(id));
                getters@.take(i as int).lemma_push_to_set_commute(id);
            }
            if let Some(data) = self.getter_by_id.remove(&id) {
                let mut data = data;
                assert(now.contains_key(id) && now[id] == data@);
                data.watchers.remove(&key);
                self.getter_by_id.insert(id, data);
                assert(self@.getters =~= now.insert(id, data@));
                assert(before.getters.contains_key(id));
                assert(data@.watchers =~= before.getters[id].watchers.remove(key));
            } else {
                // The getter was removed while it was being watched.
                assert(!now.contains_key(id));
                assert(self@.getters =~= now);
            }
            i = i + 1;
        }
        assert(getters@.take(getters@.len() as int) =~= getters@);
    }
}

/// Including getters in a watch changes nothing of what selectors may choose.
proof fn lemma_attached_alike<X: Taxonomy, A>(
    before: Registry<X, A>,
    picked: Set<GetterId>,
    key: usize,
    now: Registry<X, A>,
)
    requires
        now.getters == attached(before.getters, picked, key),
    ensures
        forall|selectors: Seq<X::GetterSelector>, walk: Seq<GetterId>| #[trigger]
            now.getters_chosen(selectors, walk) ==> before.getters_chosen(selectors, walk),
{
    assert forall|selectors: Seq<X::GetterSelector>, walk: Seq<GetterId>| #[trigger]
        now.getters_chosen(selectors, walk) implies before.getters_chosen(selectors, walk) by {
        assert(now.getters.dom() =~= before.getters.dom());
        assert forall|g: GetterId| #[trigger]
            before.getters.contains_key(g) implies now.getters.contains_key(g)
            && now.getters[g].channel == before.getters[g].channel by {}
        assert forall|g: GetterId| #[trigger] walk.to_set().contains(g) implies exists|i: int|
            0 <= i < selectors.len() && <GetterData<X> as SelectedBy<
                X::GetterSelector,
            >>::answers(before.getters[g], #[trigger] selectors[i], true) by {
            assert(now.getters.contains_key(g));
            let i = choose|i: int|
                0 <= i < selectors.len() && <GetterData<X> as SelectedBy<
                    X::GetterSelector,
                >>::answers(now.getters[g], #[trigger] selectors[i], true);
            assert(<GetterData<X> as SelectedBy<X::GetterSelector>>::answers(
                before.getters[g],
                selectors[i],
                true,
            ));
        }
    }
}

/// Including getters in a watch changes nothing of which adapters are in charge.
proof fn lemma_attached_work<X: Taxonomy, A>(
    before: Registry<X, A>,
    picked: Set<GetterId>,
    key: usize,
    now: Registry<X, A>,
    walk: Seq<GetterId>,
    filter: Exactly<Arc<X::Range>>,
)
    requires
        now.getters == attached(before.getters, picked, key),
        walk.to_set().subset_of(now.getters.dom()),
    ensures
        now.watch_work(walk, filter) == before.watch_work(walk, filter),
{
    assert forall|i: int| 0 <= i < walk.len() implies now.getters[#[trigger] walk[i]].channel
        == before.getters[walk[i]].channel by {
        assert(walk.to_set().contains(walk[i]));
        assert(before.getters.contains_key(walk[i]));
    }
    assert(now.watch_work(walk, filter) =~= before.watch_work(walk, filter));
}

/// Including some getters and then some more is including them all.
proof fn lemma_attached_twice<G>(
    getters: Map<GetterId, GetterView<G>>,
    first: Seq<GetterId>,
    second: Seq<GetterId>,
    key: usize,
)
    ensures
        attached(attached(getters, first.to_set(), key), second.to_set(), key) == attached(
            getters,
            (first + second).to_set(),
            key,
        ),
{
    let both = (first + second).to_set();
    assert forall|g: GetterId| #[trigger] both.contains(g) == (first.to_set().contains(g)
        || second.to_set().contains(g)) by {
        if first.contains(g) {
            let i = choose|i: int| 0 <= i < first.len() && first[i] == g;
            assert((first + second)[i] == g);
        }
        if second.contains(g) {
            let i = choose|i: int| 0 <= i < second.len() && second[i] == g;
            assert((first + second)[first.len() + i] == g);
        }
    }
    let once = attached(getters, first.to_set(), key);
    let twice = attached(once, second.to_set(), key);
    let all = attached(getters, both, key);
    assert forall|g: GetterId| #[trigger] getters.contains_key(g) implies twice[g] == all[g] by {
        assert(once.contains_key(g));
        assert(twice[g].watchers =~= all[g].watchers);
    }
    assert(twice =~= all);
}

/// The work of one more part of a watch comes after the rest.
proof fn lemma_watch_all_work_push<X: Taxonomy, A>(
    registry: Registry<X, A>,
    watch: Seq<(Vec<X::GetterSelector>, Exactly<Arc<X::Range>>)>,
    walks: Seq<Seq<GetterId>>,
    walk: Seq<GetterId>,
)
    ensures
        registry.watch_all_work(watch, walks.push(walk)) == registry.watch_all_work(watch, walks)
            + registry.watch_work(walk, watch[walks.len() as int].1),
{
    let parts = Seq::new(walks.len(), |j: int| registry.watch_work(walks[j], watch[j].1));
    let last = registry.watch_work(walk, watch[walks.len() as int].1);
    let more = walks.push(walk);
    assert(Seq::new(more.len(), |j: int| registry.watch_work(more[j], watch[j].1))
        =~= parts.push(last));
    parts.lemma_flatten_push(last);
}

/// The work of one more value to send comes after the rest.
proof fn lemma_send_all_work_push<X: Taxonomy, A>(
    registry: Registry<X, A>,
    keyvalues: Seq<(Vec<X::SetterSelector>, Arc<X::Value>)>,
    walks: Seq<Seq<SetterId>>,
    walk: Seq<SetterId>,
)
    ensures
        registry.send_all_work(keyvalues, walks.push(walk)) == registry.send_all_work(
            keyvalues,
            walks,
        ) + registry.send_work(walk, keyvalues[walks.len() as int].1),
{
    let parts = Seq::new(
        walks.len(),
        |j: int| registry.send_work(walks[j], keyvalues[j].1),
    );
    let last = registry.send_work(walk, keyvalues[walks.len() as int].1);
    let more = walks.push(walk);
    assert(Seq::new(more.len(), |j: int| registry.send_work(more[j], keyvalues[j].1))
        =~= parts.push(last));
    parts.lemma_flatten_push(last);
}

/// The channels that one service holds.
proof fn lemma_channels_of_one<X: Taxonomy, A>(registry: Registry<X, A>, id: ServiceId)
    requires
        registry.services.contains_key(id),
    ensures
        registry.getters_of(set![id]) == registry.services[id].getters.dom(),
        registry.setters_of(set![id]) == registry.services[id].setters.dom(),
{
    assert forall|g: GetterId|
        registry.getters_of(set![id]).contains(g) == registry.services[id].getters.dom().contains(
            g,
        ) by {
        if registry.services[id].getters.contains_key(g) {
            assert(set![id].contains(id));
        }
    }
    assert forall|t: SetterId|
        registry.setters_of(set![id]).contains(t) == registry.services[id].setters.dom().contains(
            t,
        ) by {
        if registry.services[id].setters.contains_key(t) {
            assert(set![id].contains(id));
        }
    }
    assert(registry.getters_of(set![id]) =~= registry.services[id].getters.dom());
    assert(registry.setters_of(set![id]) =~= registry.services[id].setters.dom());
}

/// Removing one more service by itself is removing it with the others.
proof fn lemma_without_services_step<X: Taxonomy, A>(
    registry: Registry<X, A>,
    done: Set<ServiceId>,
    next: ServiceId,
)
    ensures
        registry.without_services(done).aux_remove_service(next).1 == registry.without_services(
            done.insert(next),
        ),
{
    let mid = registry.without_services(done);
    let end = mid.aux_remove_service(next).1;
    let all = registry.without_services(done.insert(next));
    assert(end.services =~= all.services);
    assert forall|g: GetterId| registry.getters_of(done.insert(next)).contains(g) == (
    registry.getters_of(done).contains(g) || mid.getters_of(set![next]).contains(g)) by {
        if registry.getters_of(done.insert(next)).contains(g) {
            let s = choose|s: ServiceId|
                done.insert(next).contains(s) && registry.services.contains_key(s)
                    && #[trigger] registry.services[s].getters.contains_key(g);
            if !done.contains(s) {
                assert(mid.services[s].getters.contains_key(g));
            }
        }
        if mid.getters_of(set![next]).contains(g) {
            assert(registry.services[next].getters.contains_key(g));
        }
    }
    assert forall|t: SetterId| registry.setters_of(done.insert(next)).contains(t) == (
    registry.setters_of(done).contains(t) || mid.setters_of(set![next]).contains(t)) by {
        if registry.setters_of(done.insert(next)).contains(t) {
            let s = choose|s: ServiceId|
                done.insert(next).contains(s) && registry.services.contains_key(s)
                    && #[trigger] registry.services[s].setters.contains_key(t);
            if !done.contains(s) {
                assert(mid.services[s].setters.contains_key(t));
            }
        }
        if mid.setters_of(set![next]).contains(t) {
            assert(registry.services[next].setters.contains_key(t));
        }
    }
    assert(end.getters =~= all.getters);
    assert(end.setters =~= all.setters);
}

} // verus!
