//! The vocabulary of the registry: identifiers, channels, services, errors and events.
use std::collections::{HashMap, HashSet};
use std::sync::Arc;
use vstd::prelude::*;

use crate::collections::{copy_map, copy_set, view_map};

verus! {

/// Identifies an adapter.
pub type AdapterId = u64;

/// Identifies a service.
pub type ServiceId = u64;

/// Identifies a getter channel.
pub type GetterId = u64;

/// Identifies a setter channel.
pub type SetterId = u64;

/// Identifies a tag.
pub type TagId = u64;

/// A criterion on some property.
#[derive(Debug, PartialEq)]
pub enum Exactly<T> {
    /// The property has this very value.
    Exactly(T),
    /// Every value of the property will do.
    Always,
    /// No value of the property will do.
    Never,
}

/// The ways in which the registry refuses a request.
#[derive(Debug, PartialEq, Eq, Structural, Clone, Copy)]
pub enum InternalError {
    /// There is no getter with this identifier.
    NoSuchGetter(GetterId),
    /// There is no setter with this identifier.
    NoSuchSetter(SetterId),
    /// A getter with this identifier is already registered.
    DuplicateGetter(GetterId),
    /// A setter with this identifier is already registered.
    DuplicateSetter(SetterId),
    /// A channel claims the second adapter, while its service belongs to the first one.
    ConflictingAdapter(AdapterId, AdapterId),
    /// There is no adapter with this identifier.
    NoSuchAdapter(AdapterId),
    /// An adapter with this identifier is already registered.
    DuplicateAdapter(AdapterId),
    /// There is no service with this identifier.
    NoSuchService(ServiceId),
    /// A service with this identifier is already registered.
    DuplicateService(ServiceId),
    /// A service must be registered without channels.
    InvalidInitialService,
}

/// An error.
#[derive(Debug, PartialEq, Eq, Structural, Clone, Copy)]
pub enum Error {
    /// The registry refused a request.
    InternalError(InternalError),
}

/// A channel of a device, whose input or output mechanism is an `M`.
pub struct Channel<M> {
    /// The tags that the channel carries.
    pub tags: HashSet<TagId>,
    /// The identifier of the channel.
    pub id: u64,
    /// The service that the channel belongs to.
    pub service: ServiceId,
    /// The adapter in charge of the channel.
    pub adapter: AdapterId,
    /// What the channel reads or writes, and how.
    pub mechanism: Arc<M>,
}

/// What a channel is, mathematically.
#[verifier::ext_equal]
pub struct ChannelView<M> {
    pub tags: Set<TagId>,
    pub id: u64,
    pub service: ServiceId,
    pub adapter: AdapterId,
    pub mechanism: Arc<M>,
}

impl<M> View for Channel<M> {
    type V = ChannelView<M>;

    open spec fn view(&self) -> ChannelView<M> {
        ChannelView {
            tags: self.tags@,
            id: self.id,
            service: self.service,
            adapter: self.adapter,
            mechanism: self.mechanism,
        }
    }
}

impl<M> Clone for Channel<M> {
    fn clone(&self) -> (copy: Self)
        ensures
            copy@ == self@,
    {
        Channel {
            tags: copy_set(&self.tags),
            id: self.id,
            service: self.service,
            adapter: self.adapter,
            mechanism: self.mechanism.clone(),
        }
    }
}

/// A service, typically a device, with its getters (mechanism `G`) and setters (mechanism `S`).
pub struct Service<G, S> {
    /// The tags that the service carries.
    pub tags: HashSet<TagId>,
    /// The identifier of the service.
    pub id: ServiceId,
    /// The adapter in charge of the service.
    pub adapter: AdapterId,
    /// The getters of the service, as they were when they were added.
    pub getters: HashMap<GetterId, Channel<G>>,
    /// The setters of the service, as they were when they were added.
    pub setters: HashMap<SetterId, Channel<S>>,
}

/// What a service is, mathematically.
#[verifier::ext_equal]
pub struct ServiceView<G, S> {
    pub tags: Set<TagId>,
    pub id: ServiceId,
    pub adapter: AdapterId,
    pub getters: Map<GetterId, ChannelView<G>>,
    pub setters: Map<SetterId, ChannelView<S>>,
}

impl<G, S> View for Service<G, S> {
    type V = ServiceView<G, S>;

    open spec fn view(&self) -> ServiceView<G, S> {
        ServiceView {
            tags: self.tags@,
            id: self.id,
            adapter: self.adapter,
            getters: view_map(self.getters@),
            setters: view_map(self.setters@),
        }
    }
}

impl<G, S> Clone for Service<G, S> {
    fn clone(&self) -> (copy: Self)
        ensures
            copy@ == self@,
    {
        Service {
            tags: copy_set(&self.tags),
            id: self.id,
            adapter: self.adapter,
            getters: copy_map(&self.getters),
            setters: copy_map(&self.setters),
        }
    }
}

/// What an adapter reports on a watched getter, where values are of type `V`.
#[derive(Debug, PartialEq)]
pub enum AdapterWatchEvent<V> {
    /// The value entered the range.
    Enter { id: GetterId, value: V },
    /// The value left the range.
    Exit { id: GetterId, value: V },
}

/// What the client of a watch is told, where values are of type `V` and adapters report errors
/// of type `E`.
#[derive(Debug, PartialEq)]
pub enum WatchEvent<V, E> {
    /// The value of a getter entered the range.
    EnterRange { from: GetterId, value: V },
    /// The value of a getter left the range.
    ExitRange { from: GetterId, value: V },
    /// A getter cannot be watched.
    InitializationError { channel: GetterId, error: E },
}

} // verus!
