//! What the registry keeps on each adapter, service, getter and setter.
use std::collections::HashSet;
use vstd::prelude::*;

use crate::adapter::{getter_answer, service_answer, setter_answer, Taxonomy};
use crate::collections::{insert_all, remove_all};
use crate::selection::{SelectedBy, Shown, Tagged, TaggedView};
use crate::types::{Channel, ChannelView, Service, ServiceId, ServiceView, TagId};

verus! {

broadcast use vstd::std_specs::hash::group_hash_axioms;

impl<M> TaggedView for ChannelView<M> {
    open spec fn tag_set(self) -> Set<TagId> {
        self.tags
    }

    open spec fn with_tags(self, tags: Set<TagId>) -> Self {
        ChannelView { tags, ..self }
    }

    proof fn lemma_with_tags(self, first: Set<TagId>, last: Set<TagId>) {
    }
}

impl<M> Tagged for Channel<M> {
    fn insert_tags(&mut self, tags: &Vec<TagId>) {
        insert_all(&mut self.tags, tags);
    }

    fn remove_tags(&mut self, tags: &Vec<TagId>) {
        remove_all(&mut self.tags, tags);
    }
}

/// Data and metadata on an adapter.
pub struct AdapterData<A> {
    /// The implementation of the adapter.
    pub adapter: A,
    /// The services of this adapter.
    pub services: HashSet<ServiceId>,
}

/// What is known of an adapter, mathematically.
#[verifier::ext_equal]
pub struct AdapterView<A> {
    pub adapter: A,
    pub services: Set<ServiceId>,
}

impl<A> View for AdapterData<A> {
    type V = AdapterView<A>;

    open spec fn view(&self) -> AdapterView<A> {
        AdapterView { adapter: self.adapter, services: self.services@ }
    }
}

impl<A> AdapterData<A> {
    /// An adapter without services.
    pub fn new(adapter: A) -> (data: Self)
        ensures
            data@ == (AdapterView { adapter, services: Set::empty() }),
    {
        AdapterData { adapter, services: HashSet::new() }
    }
}

/// Data on a service.
pub struct ServiceData<X: Taxonomy> {
    /// The service.
    pub service: Service<X::Getter, X::Setter>,
}

impl<X: Taxonomy> View for ServiceData<X> {
    type V = ServiceView<X::Getter, X::Setter>;

    open spec fn view(&self) -> ServiceView<X::Getter, X::Setter> {
        self.service@
    }
}

impl<X: Taxonomy> Shown for ServiceData<X> {
    type Item = Service<X::Getter, X::Setter>;

    open spec fn id_of(shown: ServiceView<X::Getter, X::Setter>) -> u64 {
        shown.id
    }

    open spec fn shown(item: ServiceView<X::Getter, X::Setter>) -> ServiceView<
        X::Getter,
        X::Setter,
    > {
        item
    }

    fn show(&self) -> (item: Service<X::Getter, X::Setter>) {
        self.service.clone()
    }
}

impl<G, S> TaggedView for ServiceView<G, S> {
    open spec fn tag_set(self) -> Set<TagId> {
        self.tags
    }

    open spec fn with_tags(self, tags: Set<TagId>) -> Self {
        ServiceView { tags, ..self }
    }

    proof fn lemma_with_tags(self, first: Set<TagId>, last: Set<TagId>) {
    }
}

impl<X: Taxonomy> Tagged for ServiceData<X> {
    fn insert_tags(&mut self, tags: &Vec<TagId>) {
        insert_all(&mut self.service.tags, tags);
    }

    fn remove_tags(&mut self, tags: &Vec<TagId>) {
        remove_all(&mut self.service.tags, tags);
    }
}

impl<X: Taxonomy> SelectedBy<X::ServiceSelector> for ServiceData<X> {
    open spec fn answers(
        item: ServiceView<X::Getter, X::Setter>,
        selector: X::ServiceSelector,
        answer: bool,
    ) -> bool {
        service_answer::<X>(item, selector, answer)
    }

    fn matches(&self, selector: &X::ServiceSelector) -> (answer: bool) {
        X::service_matches(&self.service, selector)
    }
}

/// Data on a getter.
pub struct GetterData<X: Taxonomy> {
    /// The channel.
    pub getter: Channel<X::Getter>,
    /// The keys of the watches that include this getter.
    pub watchers: HashSet<usize>,
}

/// What is known of a getter, mathematically.
#[verifier::ext_equal]
pub struct GetterView<G> {
    pub channel: ChannelView<G>,
    pub watchers: Set<usize>,
}

impl<X: Taxonomy> View for GetterData<X> {
    type V = GetterView<X::Getter>;

    open spec fn view(&self) -> GetterView<X::Getter> {
        GetterView { channel: self.getter@, watchers: self.watchers@ }
    }
}

impl<X: Taxonomy> GetterData<X> {
    /// A getter that is not being watched.
    pub fn new(getter: Channel<X::Getter>) -> (data: Self)
        ensures
            data@ == (GetterView { channel: getter@, watchers: Set::empty() }),
    {
        GetterData { getter, watchers: HashSet::new() }
    }
}

impl<X: Taxonomy> Shown for GetterData<X> {
    type Item = Channel<X::Getter>;

    open spec fn id_of(shown: ChannelView<X::Getter>) -> u64 {
        shown.id
    }

    open spec fn shown(item: GetterView<X::Getter>) -> ChannelView<X::Getter> {
        item.channel
    }

    fn show(&self) -> (item: Channel<X::Getter>) {
        self.getter.clone()
    }
}

impl<G> TaggedView for GetterView<G> {
    open spec fn tag_set(self) -> Set<TagId> {
        self.channel.tags
    }

    open spec fn with_tags(self, tags: Set<TagId>) -> Self {
        GetterView { channel: self.channel.with_tags(tags), ..self }
    }

    proof fn lemma_with_tags(self, first: Set<TagId>, last: Set<TagId>) {
    }
}

impl<X: Taxonomy> Tagged for GetterData<X> {
    fn insert_tags(&mut self, tags: &Vec<TagId>) {
        self.getter.insert_tags(tags);
    }

    fn remove_tags(&mut self, tags: &Vec<TagId>) {
        self.getter.remove_tags(tags);
    }
}

impl<X: Taxonomy> SelectedBy<X::GetterSelector> for GetterData<X> {
    open spec fn answers(
        item: GetterView<X::Getter>,
        selector: X::GetterSelector,
        answer: bool,
    ) -> bool {
        getter_answer::<X>(item.channel, selector, answer)
    }

    fn matches(&self, selector: &X::GetterSelector) -> (answer: bool) {
        X::getter_matches(&self.getter, selector)
    }
}

/// Data on a setter.
pub struct SetterData<X: Taxonomy> {
    /// The channel.
    pub setter: Channel<X::Setter>,
}

impl<X: Taxonomy> View for SetterData<X> {
    type V = ChannelView<X::Setter>;

    open spec fn view(&self) -> ChannelView<X::Setter> {
        self.setter@
    }
}

impl<X: Taxonomy> SetterData<X> {
    /// A setter.
    pub fn new(setter: Channel<X::Setter>) -> (data: Self)
        ensures
            data@ == setter@,
    {
        SetterData { setter }
    }
}

impl<X: Taxonomy> Shown for SetterData<X> {
    type Item = Channel<X::Setter>;

    open spec fn id_of(shown: ChannelView<X::Setter>) -> u64 {
        shown.id
    }

    open spec fn shown(item: ChannelView<X::Setter>) -> ChannelView<X::Setter> {
        item
    }

    fn show(&self) -> (item: Channel<X::Setter>) {
        self.setter.clone()
    }
}

impl<X: Taxonomy> Tagged for SetterData<X> {
    fn insert_tags(&mut self, tags: &Vec<TagId>) {
        self.setter.insert_tags(tags);
    }

    fn remove_tags(&mut self, tags: &Vec<TagId>) {
        self.setter.remove_tags(tags);
    }
}

impl<X: Taxonomy> SelectedBy<X::SetterSelector> for SetterData<X> {
    open spec fn answers(
        item: ChannelView<X::Setter>,
        selector: X::SetterSelector,
        answer: bool,
    ) -> bool {
        setter_answer::<X>(item, selector, answer)
    }

    fn matches(&self, selector: &X::SetterSelector) -> (answer: bool) {
        X::setter_matches(&self.setter, selector)
    }
}

} // verus!
