//! What the registry is, mathematically, and what each request makes of it.
use std::sync::atomic::AtomicBool;
use std::sync::Arc;
use vstd::prelude::*;

use crate::adapter::{
    fetch_reply, reports_to, send_reply, told_of, watch_reply, Adapter, Taxonomy,
};
use crate::data::{AdapterView, GetterData, GetterView, ServiceData, SetterData};
use crate::routing::is_split;
use crate::selection::{is_list, is_walk, tagged, untagged};
use crate::types::{
    AdapterId, Channel, ChannelView, Error, Exactly, GetterId, InternalError, Service, ServiceId,
    ServiceView, SetterId, TagId,
};
use crate::watch::{granted, refused, WatchMapView};

verus! {

/// The contents of the registry.
#[verifier::ext_equal]
pub struct Registry<X: Taxonomy, A> {
    /// The adapters, by identifier.
    pub adapters: Map<AdapterId, AdapterView<A>>,
    /// The services, by identifier.
    pub services: Map<ServiceId, ServiceView<X::Getter, X::Setter>>,
    /// The getters, by identifier.
    pub getters: Map<GetterId, GetterView<X::Getter>>,
    /// The setters, by identifier.
    pub setters: Map<SetterId, ChannelView<X::Setter>>,
    /// The watches.
    pub watches: WatchMapView<X>,
}

/// The getters, where those in `picked` are included in the watch with this key.
pub open spec fn attached<G>(
    getters: Map<GetterId, GetterView<G>>,
    picked: Set<GetterId>,
    key: usize,
) -> Map<GetterId, GetterView<G>> {
    getters.map_entries(
        |id: GetterId, g: GetterView<G>|
            if picked.contains(id) {
                GetterView { watchers: g.watchers.insert(key), ..g }
            } else {
                g
            },
    )
}

/// The getters, where those in `picked` are no longer included in the watch with this key.
pub open spec fn detached<G>(
    getters: Map<GetterId, GetterView<G>>,
    picked: Set<GetterId>,
    key: usize,
) -> Map<GetterId, GetterView<G>> {
    getters.map_entries(
        |id: GetterId, g: GetterView<G>|
            if picked.contains(id) {
                GetterView { watchers: g.watchers.remove(key), ..g }
            } else {
                g
            },
    )
}

impl<X: Taxonomy, A> Registry<X, A> {
    /// A registry that holds nothing.
    pub open spec fn empty() -> Self {
        Registry {
            adapters: Map::empty(),
            services: Map::empty(),
            getters: Map::empty(),
            setters: Map::empty(),
            watches: WatchMapView::empty(),
        }
    }

    /// The parts of the registry agree with each other.
    pub open spec fn consistent(self) -> bool {
        &&& self.services_consistent()
        &&& self.getters_consistent()
        &&& self.setters_consistent()
        &&& self.watches_consistent()
    }

    /// Each service is held by its adapter, and each adapter holds only services of its own.
    pub open spec fn services_consistent(self) -> bool {
        &&& forall|s: ServiceId| #[trigger]
            self.services.contains_key(s) ==> {
                &&& self.services[s].id == s
                &&& self.adapters.contains_key(self.services[s].adapter)
                &&& self.adapters[self.services[s].adapter].services.contains(s)
            }
        &&& forall|a: AdapterId, s: ServiceId|
            self.adapters.contains_key(a) && #[trigger] self.adapters[a].services.contains(s) ==> {
                &&& self.services.contains_key(s)
                &&& self.services[s].adapter == a
            }
    }

    /// Each getter is held by its service, which belongs to the same adapter, and each service
    /// holds only getters of its own, which differ from those that are registered by their tags
    /// at most.
    pub open spec fn getters_consistent(self) -> bool {
        &&& forall|g: GetterId| #[trigger]
            self.getters.contains_key(g) ==> {
                let c = self.getters[g].channel;
                &&& c.id == g
                &&& self.services.contains_key(c.service)
                &&& self.services[c.service].adapter == c.adapter
                &&& self.services[c.service].getters.contains_key(g)
            }
        &&& forall|s: ServiceId, g: GetterId|
            self.services.contains_key(s) && #[trigger] self.services[s].getters.contains_key(g)
                ==> {
                &&& self.getters.contains_key(g)
                &&& self.getters[g].channel.service == s
                &&& self.services[s].getters[g] == (ChannelView {
                    tags: self.services[s].getters[g].tags,
                    ..self.getters[g].channel
                })
            }
    }

    /// Each setter is held by its service, which belongs to the same adapter, and each service
    /// holds only setters of its own, which differ from those that are registered by their tags
    /// at most.
    pub open spec fn setters_consistent(self) -> bool {
        &&& forall|t: SetterId| #[trigger]
            self.setters.contains_key(t) ==> {
                let c = self.setters[t];
                &&& c.id == t
                &&& self.services.contains_key(c.service)
                &&& self.services[c.service].adapter == c.adapter
                &&& self.services[c.service].setters.contains_key(t)
            }
        &&& forall|s: ServiceId, t: SetterId|
            self.services.contains_key(s) && #[trigger] self.services[s].setters.contains_key(t)
                ==> {
                &&& self.setters.contains_key(t)
                &&& self.setters[t].service == s
                &&& self.services[s].setters[t] == (ChannelView {
                    tags: self.services[s].setters[t].tags,
                    ..self.setters[t]
                })
            }
    }

    /// The watches are well-formed, and a getter is included only in watches that are going on and
    /// that know of it.
    pub open spec fn watches_consistent(self) -> bool {
        &&& self.watches.well_formed()
        &&& forall|g: GetterId, k: usize|
            self.getters.contains_key(g) && #[trigger] self.getters[g].watchers.contains(k) ==> {
                &&& self.watches.watchers.contains_key(k)
                &&& self.watches.watchers[k].getters.contains(g)
            }
    }

    /// The getters that the given services hold.
    pub open spec fn getters_of(self, services: Set<ServiceId>) -> Set<GetterId> {
        Set::new(
            |g: GetterId|
                exists|s: ServiceId|
                    services.contains(s) && self.services.contains_key(s)
                        && #[trigger] self.services[s].getters.contains_key(g),
        )
    }

    /// The setters that the given services hold.
    pub open spec fn setters_of(self, services: Set<ServiceId>) -> Set<SetterId> {
        Set::new(
            |t: SetterId|
                exists|s: ServiceId|
                    services.contains(s) && self.services.contains_key(s)
                        && #[trigger] self.services[s].setters.contains_key(t),
        )
    }

    /// The registry without the given services and the channels that they hold.
    pub open spec fn without_services(self, services: Set<ServiceId>) -> Self {
        Registry {
            services: self.services.remove_keys(services),
            getters: self.getters.remove_keys(self.getters_of(services)),
            setters: self.setters.remove_keys(self.setters_of(services)),
            ..self
        }
    }

    /// Adding an adapter.
    pub open spec fn add_adapter(self, id: AdapterId, adapter: A) -> (Result<(), Error>, Self) {
        if self.adapters.contains_key(id) {
            (Err(Error::InternalError(InternalError::DuplicateAdapter(id))), self)
        } else {
            (
                Ok(()),
                Registry {
                    adapters: self.adapters.insert(
                        id,
                        AdapterView { adapter, services: Set::empty() },
                    ),
                    ..self
                },
            )
        }
    }

    /// Removing an adapter, with its services and their channels.
    pub open spec fn remove_adapter(self, id: AdapterId) -> (Result<(), Error>, Self) {
        if !self.adapters.contains_key(id) {
            (Err(Error::InternalError(InternalError::NoSuchAdapter(id))), self)
        } else {
            (
                Ok(()),
                Registry {
                    adapters: self.adapters.remove(id),
                    ..self.without_services(self.adapters[id].services)
                },
            )
        }
    }

    /// Adding a service.
    pub open spec fn add_service(self, service: ServiceView<X::Getter, X::Setter>) -> (
        Result<(), Error>,
        Self,
    ) {
        let id = service.id;
        let adapter = service.adapter;
        if !service.getters.is_empty() || !service.setters.is_empty() {
            (Err(Error::InternalError(InternalError::InvalidInitialService)), self)
        } else if !self.adapters.contains_key(adapter) {
            (Err(Error::InternalError(InternalError::NoSuchAdapter(adapter))), self)
        } else if self.adapters[adapter].services.contains(id) || self.services.contains_key(id) {
            (Err(Error::InternalError(InternalError::DuplicateService(id))), self)
        } else {
            let data = self.adapters[adapter];
            (
                Ok(()),
                Registry {
                    adapters: self.adapters.insert(
                        adapter,
                        AdapterView { services: data.services.insert(id), ..data },
                    ),
                    services: self.services.insert(id, service),
                    ..self
                },
            )
        }
    }

    /// Removing a service and its channels, and returning the identifier of its adapter, which
    /// still holds the service.
    pub open spec fn aux_remove_service(self, id: ServiceId) -> (Result<AdapterId, Error>, Self) {
        if !self.services.contains_key(id) {
            (Err(Error::InternalError(InternalError::NoSuchService(id))), self)
        } else {
            (Ok(self.services[id].adapter), self.without_services(set![id]))
        }
    }

    /// Removing a service, also from its adapter.
    pub open spec fn remove_service(self, id: ServiceId) -> (Result<(), Error>, Self) {
        let (removed, rest) = self.aux_remove_service(id);
        match removed {
            Err(error) => (Err(error), rest),
            Ok(adapter) => if !rest.adapters.contains_key(adapter) {
                (Err(Error::InternalError(InternalError::NoSuchAdapter(adapter))), rest)
            } else if !rest.adapters[adapter].services.contains(id) {
                (Err(Error::InternalError(InternalError::NoSuchService(id))), rest)
            } else {
                let data = rest.adapters[adapter];
                (
                    Ok(()),
                    Registry {
                        adapters: rest.adapters.insert(
                            adapter,
                            AdapterView { services: data.services.remove(id), ..data },
                        ),
                        ..rest
                    },
                )
            },
        }
    }

    /// Adding a getter.
    pub open spec fn add_getter(self, getter: ChannelView<X::Getter>) -> (Result<(), Error>, Self) {
        let id = getter.id;
        if !self.services.contains_key(getter.service) {
            (Err(Error::InternalError(InternalError::NoSuchService(getter.service))), self)
        } else if self.services[getter.service].adapter != getter.adapter {
            (
                Err(
                    Error::InternalError(
                        InternalError::ConflictingAdapter(
                            self.services[getter.service].adapter,
                            getter.adapter,
                        ),
                    ),
                ),
                self,
            )
        } else if self.services[getter.service].getters.contains_key(id)
            || self.getters.contains_key(id) {
            (Err(Error::InternalError(InternalError::DuplicateGetter(id))), self)
        } else {
            let service = self.services[getter.service];
            (
                Ok(()),
                Registry {
                    services: self.services.insert(
                        getter.service,
                        ServiceView { getters: service.getters.insert(id, getter), ..service },
                    ),
                    getters: self.getters.insert(
                        id,
                        GetterView { channel: getter, watchers: Set::empty() },
                    ),
                    ..self
                },
            )
        }
    }

    /// Removing a getter, also from its service.
    pub open spec fn remove_getter(self, id: GetterId) -> (Result<(), Error>, Self) {
        if !self.getters.contains_key(id) {
            (Err(Error::InternalError(InternalError::NoSuchGetter(id))), self)
        } else {
            let owner = self.getters[id].channel.service;
            let rest = Registry { getters: self.getters.remove(id), ..self };
            if !rest.services.contains_key(owner) {
                (Err(Error::InternalError(InternalError::NoSuchService(owner))), rest)
            } else if !rest.services[owner].getters.contains_key(id) {
                (Err(Error::InternalError(InternalError::NoSuchGetter(id))), rest)
            } else {
                let service = rest.services[owner];
                (
                    Ok(()),
                    Registry {
                        services: rest.services.insert(
                            owner,
                            ServiceView { getters: service.getters.remove(id), ..service },
                        ),
                        ..rest
                    },
                )
            }
        }
    }

    /// Adding a setter.
    pub open spec fn add_setter(self, setter: ChannelView<X::Setter>) -> (Result<(), Error>, Self) {
        let id = setter.id;
        if !self.services.contains_key(setter.service) {
            (Err(Error::InternalError(InternalError::NoSuchService(setter.service))), self)
        } else if self.services[setter.service].adapter != setter.adapter {
            (
                Err(
                    Error::InternalError(
                        InternalError::ConflictingAdapter(
                            self.services[setter.service].adapter,
                            setter.adapter,
                        ),
                    ),
                ),
                self,
            )
        } else if self.services[setter.service].setters.contains_key(id)
            || self.setters.contains_key(id) {
            (Err(Error::InternalError(InternalError::DuplicateSetter(id))), self)
        } else {
            let service = self.services[setter.service];
            (
                Ok(()),
                Registry {
                    services: self.services.insert(
                        setter.service,
                        ServiceView { setters: service.setters.insert(id, setter), ..service },
                    ),
                    setters: self.setters.insert(id, setter),
                    ..self
                },
            )
        }
    }

    /// Removing a setter, also from its service.
    pub open spec fn remove_setter(self, id: SetterId) -> (Result<(), Error>, Self) {
        if !self.setters.contains_key(id) {
            (Err(Error::InternalError(InternalError::NoSuchSetter(id))), self)
        } else {
            let owner = self.setters[id].service;
            let rest = Registry { setters: self.setters.remove(id), ..self };
            if !rest.services.contains_key(owner) {
                (Err(Error::InternalError(InternalError::NoSuchService(owner))), rest)
            } else if !rest.services[owner].setters.contains_key(id) {
                (Err(Error::InternalError(InternalError::NoSuchSetter(id))), rest)
            } else {
                let service = rest.services[owner];
                (
                    Ok(()),
                    Registry {
                        services: rest.services.insert(
                            owner,
                            ServiceView { setters: service.setters.remove(id), ..service },
                        ),
                        ..rest
                    },
                )
            }
        }
    }

    /// Adding tags to some services.
    pub open spec fn tag_services(self, picked: Set<ServiceId>, tags: Set<TagId>) -> Self {
        Registry { services: tagged(self.services, picked, tags), ..self }
    }

    /// Removing tags from some services.
    pub open spec fn untag_services(self, picked: Set<ServiceId>, tags: Set<TagId>) -> Self {
        Registry { services: untagged(self.services, picked, tags), ..self }
    }

    /// Adding tags to some getters.
    pub open spec fn tag_getters(self, picked: Set<GetterId>, tags: Set<TagId>) -> Self {
        Registry { getters: tagged(self.getters, picked, tags), ..self }
    }

    /// Removing tags from some getters.
    pub open spec fn untag_getters(self, picked: Set<GetterId>, tags: Set<TagId>) -> Self {
        Registry { getters: untagged(self.getters, picked, tags), ..self }
    }

    /// Adding tags to some setters.
    pub open spec fn tag_setters(self, picked: Set<SetterId>, tags: Set<TagId>) -> Self {
        Registry { setters: tagged(self.setters, picked, tags), ..self }
    }

    /// Removing tags from some setters.
    pub open spec fn untag_setters(self, picked: Set<SetterId>, tags: Set<TagId>) -> Self {
        Registry { setters: untagged(self.setters, picked, tags), ..self }
    }

    /// The getters in `walk` as work for the adapters in charge of them.
    pub open spec fn fetch_work(self, walk: Seq<GetterId>) -> Seq<(AdapterId, GetterId)> {
        walk.map_values(|g: GetterId| (self.getters[g].channel.adapter, g))
    }

    /// The setters in `walk`, each with the value to send, as work for the adapters in charge.
    pub open spec fn send_work(self, walk: Seq<SetterId>, value: Arc<X::Value>) -> Seq<
        (AdapterId, (SetterId, Arc<X::Value>)),
    > {
        walk.map_values(|t: SetterId| (self.setters[t].adapter, (t, value)))
    }

    /// The getters in `walk`, each with the values to watch for, as work for the adapters in
    /// charge. When no values are watched for there is no such work.
    pub open spec fn watch_work(self, walk: Seq<GetterId>, filter: Exactly<Arc<X::Range>>) -> Seq<
        (AdapterId, (GetterId, Option<Arc<X::Range>>)),
    > {
        match filter {
            Exactly::Exactly(range) => walk.map_values(
                |g: GetterId| (self.getters[g].channel.adapter, (g, Some(range))),
            ),
            Exactly::Always => walk.map_values(
                |g: GetterId| (self.getters[g].channel.adapter, (g, None::<Arc<X::Range>>)),
            ),
            Exactly::Never => Seq::empty(),
        }
    }

    /// `walk` lists, in some order, services that `selectors` may choose.
    pub open spec fn services_chosen(
        self,
        selectors: Seq<X::ServiceSelector>,
        walk: Seq<ServiceId>,
    ) -> bool {
        is_walk::<X::ServiceSelector, ServiceData<X>>(self.services, selectors, walk)
    }

    /// `walk` lists, in some order, getters that `selectors` may choose.
    pub open spec fn getters_chosen(
        self,
        selectors: Seq<X::GetterSelector>,
        walk: Seq<GetterId>,
    ) -> bool {
        is_walk::<X::GetterSelector, GetterData<X>>(self.getters, selectors, walk)
    }

    /// `walk` lists, in some order, setters that `selectors` may choose.
    pub open spec fn setters_chosen(
        self,
        selectors: Seq<X::SetterSelector>,
        walk: Seq<SetterId>,
    ) -> bool {
        is_walk::<X::SetterSelector, SetterData<X>>(self.setters, selectors, walk)
    }

    /// `listed` may be the list of the services that `selectors` choose.
    pub open spec fn may_list_services(
        self,
        selectors: Seq<X::ServiceSelector>,
        listed: Seq<Service<X::Getter, X::Setter>>,
    ) -> bool {
        is_list::<X::ServiceSelector, ServiceData<X>>(self.services, selectors, listed)
    }

    /// `count` and `after` may be the outcome of adding tags to the services that `selectors`
    /// choose.
    pub open spec fn may_tag_services(
        self,
        selectors: Seq<X::ServiceSelector>,
        tags: Seq<TagId>,
        count: usize,
        after: Self,
    ) -> bool {
        exists|walk: Seq<ServiceId>| #[trigger]
            self.services_chosen(selectors, walk) && count == walk.len() && after
                == self.tag_services(walk.to_set(), tags.to_set())
    }

    /// `count` and `after` may be the outcome of removing tags from the services that `selectors`
    /// choose.
    pub open spec fn may_untag_services(
        self,
        selectors: Seq<X::ServiceSelector>,
        tags: Seq<TagId>,
        count: usize,
        after: Self,
    ) -> bool {
        exists|walk: Seq<ServiceId>| #[trigger]
            self.services_chosen(selectors, walk) && count == walk.len() && after
                == self.untag_services(walk.to_set(), tags.to_set())
    }

    /// `listed` may be the list of the getters that `selectors` choose.
    pub open spec fn may_list_getters(
        self,
        selectors: Seq<X::GetterSelector>,
        listed: Seq<Channel<X::Getter>>,
    ) -> bool {
        is_list::<X::GetterSelector, GetterData<X>>(self.getters, selectors, listed)
    }

    /// `count` and `after` may be the outcome of adding tags to the getters that `selectors`
    /// choose.
    pub open spec fn may_tag_getters(
        self,
        selectors: Seq<X::GetterSelector>,
        tags: Seq<TagId>,
        count: usize,
        after: Self,
    ) -> bool {
        exists|walk: Seq<GetterId>| #[trigger]
            self.getters_chosen(selectors, walk) && count == walk.len() && after
                == self.tag_getters(walk.to_set(), tags.to_set())
    }

    /// `count` and `after` may be the outcome of removing tags from the getters that `selectors`
    /// choose.
    pub open spec fn may_untag_getters(
        self,
        selectors: Seq<X::GetterSelector>,
        tags: Seq<TagId>,
        count: usize,
        after: Self,
    ) -> bool {
        exists|walk: Seq<GetterId>| #[trigger]
            self.getters_chosen(selectors, walk) && count == walk.len() && after
                == self.untag_getters(walk.to_set(), tags.to_set())
    }

    /// `listed` may be the list of the setters that `selectors` choose.
    pub open spec fn may_list_setters(
        self,
        selectors: Seq<X::SetterSelector>,
        listed: Seq<Channel<X::Setter>>,
    ) -> bool {
        is_list::<X::SetterSelector, SetterData<X>>(self.setters, selectors, listed)
    }

    /// `count` and `after` may be the outcome of adding tags to the setters that `selectors`
    /// choose.
    pub open spec fn may_tag_setters(
        self,
        selectors: Seq<X::SetterSelector>,
        tags: Seq<TagId>,
        count: usize,
        after: Self,
    ) -> bool {
        exists|walk: Seq<SetterId>| #[trigger]
            self.setters_chosen(selectors, walk) && count == walk.len() && after
                == self.tag_setters(walk.to_set(), tags.to_set())
    }

    /// `count` and `after` may be the outcome of removing tags from the setters that `selectors`
    /// choose.
    pub open spec fn may_untag_setters(
        self,
        selectors: Seq<X::SetterSelector>,
        tags: Seq<TagId>,
        count: usize,
        after: Self,
    ) -> bool {
        exists|walk: Seq<SetterId>| #[trigger]
            self.setters_chosen(selectors, walk) && count == walk.len() && after
                == self.untag_setters(walk.to_set(), tags.to_set())
    }

    /// `walks` lists, for each of `keyvalues`, setters that its selectors may choose.
    pub open spec fn send_chosen(
        self,
        keyvalues: Seq<(Vec<X::SetterSelector>, Arc<X::Value>)>,
        walks: Seq<Seq<SetterId>>,
    ) -> bool {
        &&& walks.len() == keyvalues.len()
        &&& forall|j: int|
            #![trigger walks[j]]
            0 <= j < walks.len() ==> self.setters_chosen(keyvalues[j].0@, walks[j])
    }

    /// All the work of sending `keyvalues` to the setters in `walks`, in order.
    pub open spec fn send_all_work(
        self,
        keyvalues: Seq<(Vec<X::SetterSelector>, Arc<X::Value>)>,
        walks: Seq<Seq<SetterId>>,
    ) -> Seq<(AdapterId, (SetterId, Arc<X::Value>))> {
        Seq::new(walks.len(), |j: int| self.send_work(walks[j], keyvalues[j].1)).flatten()
    }

    /// `walks` lists, for each part of `watch`, getters that its selectors may choose.
    pub open spec fn watch_chosen(
        self,
        watch: Seq<(Vec<X::GetterSelector>, Exactly<Arc<X::Range>>)>,
        walks: Seq<Seq<GetterId>>,
    ) -> bool {
        &&& walks.len() == watch.len()
        &&& forall|j: int|
            #![trigger walks[j]]
            0 <= j < walks.len() ==> self.getters_chosen(watch[j].0@, walks[j])
    }

    /// All the work of watching the getters in `walks`, in order.
    pub open spec fn watch_all_work(
        self,
        watch: Seq<(Vec<X::GetterSelector>, Exactly<Arc<X::Range>>)>,
        walks: Seq<Seq<GetterId>>,
    ) -> Seq<(AdapterId, (GetterId, Option<Arc<X::Range>>))> {
        Seq::new(walks.len(), |j: int| self.watch_work(walks[j], watch[j].1)).flatten()
    }

    /// The registry once a watch was started that includes the getters in `picked`.
    pub open spec fn watched(
        self,
        watch: Seq<(Vec<X::GetterSelector>, Exactly<Arc<X::Range>>)>,
        is_dropped: Arc<AtomicBool>,
        on_event: Arc<X::EventSender>,
        picked: Set<GetterId>,
    ) -> Self {
        let key = self.watches.next_key as usize;
        Registry {
            getters: attached(self.getters, picked, key),
            watches: self.watches.created(watch, is_dropped, on_event).with_getters(key, picked),
            ..self
        }
    }

    /// The registry once an adapter replied to its part of the watch with this key.
    pub open spec fn watch_granted(
        self,
        key: usize,
        reply: Seq<(GetterId, Result<X::AdapterWatchGuard, X::AdapterError>)>,
    ) -> Self {
        Registry { watches: self.watches.with_guards(key, granted::<X>(reply)), ..self }
    }

    /// The registry once several adapters replied to their parts of the watch with this key.
    pub open spec fn watch_granted_by_all(
        self,
        key: usize,
        replies: Seq<Seq<(GetterId, Result<X::AdapterWatchGuard, X::AdapterError>)>>,
    ) -> Self
        decreases replies.len(),
    {
        if replies.len() == 0 {
            self
        } else {
            self.watch_granted_by_all(key, replies.drop_last()).watch_granted(key, replies.last())
        }
    }

    /// `after` and `requests` may be the outcome of starting a watch: the getters that are
    /// included are those in `walks`, and the adapters in charge are to get `requests`, one each.
    pub open spec fn watch_started(
        self,
        watch: Seq<(Vec<X::GetterSelector>, Exactly<Arc<X::Range>>)>,
        is_dropped: Arc<AtomicBool>,
        on_event: Arc<X::EventSender>,
        walks: Seq<Seq<GetterId>>,
        after: Self,
        requests: Seq<(AdapterId, Vec<(GetterId, Option<Arc<X::Range>>)>)>,
    ) -> bool {
        &&& self.watch_chosen(watch, walks)
        &&& after == self.watched(watch, is_dropped, on_event, walks.flatten().to_set())
        &&& is_split(self.watch_all_work(watch, walks), requests)
    }

    /// `after` and `requests` may be the outcome of starting a watch.
    pub open spec fn may_start_watch(
        self,
        watch: Seq<(Vec<X::GetterSelector>, Exactly<Arc<X::Range>>)>,
        is_dropped: Arc<AtomicBool>,
        on_event: Arc<X::EventSender>,
        after: Self,
        requests: Seq<(AdapterId, Vec<(GetterId, Option<Arc<X::Range>>)>)>,
    ) -> bool {
        exists|walks: Seq<Seq<GetterId>>| #[trigger]
            self.watch_started(watch, is_dropped, on_event, walks, after, requests)
    }

    /// The registry once the watch with this key was ended: it is forgotten, also by the getters
    /// to which it was attached, as far as they are still there. If there is no such watch,
    /// nothing happens.
    pub open spec fn watch_ended(self, key: usize) -> Self {
        if self.watches.watchers.contains_key(key) {
            Registry {
                getters: detached(self.getters, self.watches.watchers[key].getters, key),
                watches: self.watches.removed(key),
                ..self
            }
        } else {
            self
        }
    }
}

impl<X: Taxonomy, A: Adapter<X>> Registry<X, A> {
    /// `replies` may be what the adapters reply to `requests` for values. A request to an adapter
    /// that is not registered has no reply.
    pub open spec fn fetch_replies(
        self,
        requests: Seq<(AdapterId, Vec<GetterId>)>,
        replies: Seq<Seq<(GetterId, Result<Option<X::Value>, X::AdapterError>)>>,
    ) -> bool {
        &&& replies.len() == requests.len()
        &&& forall|i: int|
            #![trigger replies[i]]
            0 <= i < replies.len() ==> if self.adapters.contains_key(requests[i].0) {
                fetch_reply::<X, A>(
                    self.adapters[requests[i].0].adapter,
                    requests[i].1@,
                    replies[i],
                )
            } else {
                replies[i].len() == 0
            }
    }

    /// `replies` may be what the adapters reply to `requests` to send values. A request to an
    /// adapter that is not registered has no reply.
    pub open spec fn send_replies(
        self,
        requests: Seq<(AdapterId, Vec<(SetterId, Arc<X::Value>)>)>,
        replies: Seq<Seq<(SetterId, Result<(), X::AdapterError>)>>,
    ) -> bool {
        &&& replies.len() == requests.len()
        &&& forall|i: int|
            #![trigger replies[i]]
            0 <= i < replies.len() ==> if self.adapters.contains_key(requests[i].0) {
                send_reply::<X, A>(
                    self.adapters[requests[i].0].adapter,
                    requests[i].1@,
                    replies[i],
                )
            } else {
                replies[i].len() == 0
            }
    }

    /// `results` may be the outcome of fetching the values of the getters that `selectors`
    /// choose: these are the getters in `walk`, the adapters in charge get `requests`, one each,
    /// and their `replies` are put together.
    pub open spec fn fetched(
        self,
        selectors: Seq<X::GetterSelector>,
        walk: Seq<GetterId>,
        requests: Seq<(AdapterId, Vec<GetterId>)>,
        replies: Seq<Seq<(GetterId, Result<Option<X::Value>, X::AdapterError>)>>,
        results: Seq<(GetterId, Result<Option<X::Value>, X::AdapterError>)>,
    ) -> bool {
        &&& self.getters_chosen(selectors, walk)
        &&& is_split(self.fetch_work(walk), requests)
        &&& self.fetch_replies(requests, replies)
        &&& results == replies.flatten()
    }

    /// `results` may be the outcome of sending `keyvalues`: the setters chosen are those in
    /// `walks`, the adapters in charge get `requests`, one each, and their `replies` are put
    /// together.
    pub open spec fn sent(
        self,
        keyvalues: Seq<(Vec<X::SetterSelector>, Arc<X::Value>)>,
        walks: Seq<Seq<SetterId>>,
        requests: Seq<(AdapterId, Vec<(SetterId, Arc<X::Value>)>)>,
        replies: Seq<Seq<(SetterId, Result<(), X::AdapterError>)>>,
        results: Seq<(SetterId, Result<(), X::AdapterError>)>,
    ) -> bool {
        &&& self.send_chosen(keyvalues, walks)
        &&& is_split(self.send_all_work(keyvalues, walks), requests)
        &&& self.send_replies(requests, replies)
        &&& results == replies.flatten()
    }

    /// `results` may be the outcome of fetching the values of the getters that `selectors`
    /// choose.
    pub open spec fn may_fetch(
        self,
        selectors: Seq<X::GetterSelector>,
        results: Seq<(GetterId, Result<Option<X::Value>, X::AdapterError>)>,
    ) -> bool {
        exists|
            walk: Seq<GetterId>,
            requests: Seq<(AdapterId, Vec<GetterId>)>,
            replies: Seq<Seq<(GetterId, Result<Option<X::Value>, X::AdapterError>)>>,
        | #[trigger]
            self.fetched(selectors, walk, requests, replies, results)
    }

    /// `results` may be the outcome of sending `keyvalues`.
    pub open spec fn may_send(
        self,
        keyvalues: Seq<(Vec<X::SetterSelector>, Arc<X::Value>)>,
        results: Seq<(SetterId, Result<(), X::AdapterError>)>,
    ) -> bool {
        exists|
            walks: Seq<Seq<SetterId>>,
            requests: Seq<(AdapterId, Vec<(SetterId, Arc<X::Value>)>)>,
            replies: Seq<Seq<(SetterId, Result<(), X::AdapterError>)>>,
        | #[trigger]
            self.sent(keyvalues, walks, requests, replies, results)
    }

    /// `reply` may be what the adapter with this identifier replies to a request to watch, with
    /// the events reported to the client who listens to `on_event`. An adapter that is not
    /// registered does not reply.
    pub open spec fn watch_asked(
        self,
        adapter: AdapterId,
        request: Seq<(GetterId, Option<Arc<X::Range>>)>,
        is_dropped: Arc<AtomicBool>,
        on_event: Arc<X::EventSender>,
        reply: Seq<(GetterId, Result<X::AdapterWatchGuard, X::AdapterError>)>,
    ) -> bool {
        if self.adapters.contains_key(adapter) {
            exists|sink: X::EventSink| #[trigger]
                reports_to::<X>(sink, on_event, is_dropped) && watch_reply::<X, A>(
                    self.adapters[adapter].adapter,
                    request,
                    sink,
                    reply,
                )
        } else {
            reply.len() == 0
        }
    }

    /// `after` may be the outcome of asking an adapter to take part in the watch with this key:
    /// the watch holds the guards that the adapter hands out, and the client was told of the
    /// getters that it refuses, in order.
    pub open spec fn watch_dispatched(
        self,
        key: usize,
        adapter: AdapterId,
        request: Seq<(GetterId, Option<Arc<X::Range>>)>,
        is_dropped: Arc<AtomicBool>,
        on_event: Arc<X::EventSender>,
        after: Self,
    ) -> bool {
        exists|reply: Seq<(GetterId, Result<X::AdapterWatchGuard, X::AdapterError>)>| #[trigger]
            self.watch_asked(adapter, request, is_dropped, on_event, reply) && told_of::<X>(
                on_event,
                refused::<X>(reply),
            ) && after == self.watch_granted(key, reply)
    }

    /// `replies` may be what the adapters reply to `requests` to watch, and the client was told
    /// of the getters that each of them refuses, in order.
    pub open spec fn watch_replies(
        self,
        requests: Seq<(AdapterId, Vec<(GetterId, Option<Arc<X::Range>>)>)>,
        is_dropped: Arc<AtomicBool>,
        on_event: Arc<X::EventSender>,
        replies: Seq<Seq<(GetterId, Result<X::AdapterWatchGuard, X::AdapterError>)>>,
    ) -> bool {
        &&& replies.len() == requests.len()
        &&& forall|i: int|
            #![trigger replies[i]]
            0 <= i < replies.len() ==> {
                &&& self.watch_asked(
                    requests[i].0,
                    requests[i].1@,
                    is_dropped,
                    on_event,
                    replies[i],
                )
                &&& told_of::<X>(on_event, refused::<X>(replies[i]))
            }
    }

    /// `after` may be the outcome of registering a watch: the getters that are included are those
    /// in `walks`, the adapters in charge get `requests`, one each, and the watch holds the
    /// guards that they hand out in their `replies`.
    pub open spec fn watch_registered(
        self,
        watch: Seq<(Vec<X::GetterSelector>, Exactly<Arc<X::Range>>)>,
        is_dropped: Arc<AtomicBool>,
        on_event: Arc<X::EventSender>,
        walks: Seq<Seq<GetterId>>,
        requests: Seq<(AdapterId, Vec<(GetterId, Option<Arc<X::Range>>)>)>,
        replies: Seq<Seq<(GetterId, Result<X::AdapterWatchGuard, X::AdapterError>)>>,
        after: Self,
    ) -> bool {
        &&& self.watch_chosen(watch, walks)
        &&& is_split(self.watch_all_work(watch, walks), requests)
        &&& self.watch_replies(requests, is_dropped, on_event, replies)
        &&& after == self.watched(
            watch,
            is_dropped,
            on_event,
            walks.flatten().to_set(),
        ).watch_granted_by_all(self.watches.next_key as usize, replies)
    }

    /// `after` may be the outcome of registering a watch.
    pub open spec fn may_register_watch(
        self,
        watch: Seq<(Vec<X::GetterSelector>, Exactly<Arc<X::Range>>)>,
        is_dropped: Arc<AtomicBool>,
        on_event: Arc<X::EventSender>,
        after: Self,
    ) -> bool {
        exists|
            walks: Seq<Seq<GetterId>>,
            requests: Seq<(AdapterId, Vec<(GetterId, Option<Arc<X::Range>>)>)>,
            replies: Seq<Seq<(GetterId, Result<X::AdapterWatchGuard, X::AdapterError>)>>,
        | #[trigger]
            self.watch_registered(watch, is_dropped, on_event, walks, requests, replies, after)
    }
}

} // verus!
