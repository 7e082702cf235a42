//! What plugs into the registry: the kinds of data that it carries and the adapters that it
//! talks to.
use std::sync::atomic::AtomicBool;
use std::sync::Arc;
use vstd::prelude::*;

use crate::types::{
    AdapterId, Channel, ChannelView, GetterId, Service, ServiceView, SetterId, WatchEvent,
};

verus! {

/// The kinds of data that the registry carries without looking inside, and the selectors by
/// which its clients choose services and channels.
pub trait Taxonomy: Sized {
    /// What a getter channel measures, and how.
    type Getter;

    /// What a setter channel controls, and how.
    type Setter;

    /// A value read from a getter or sent to a setter.
    type Value;

    /// A range of values to watch for.
    type Range;

    /// An error reported by an adapter.
    type AdapterError;

    /// The end of a channel of events that the client of a watch listens to.
    type EventSender;

    /// What an adapter reports the events of a watch to.
    type EventSink;

    /// What an adapter hands out for a watch, and takes the release of as its end.
    type AdapterWatchGuard;

    /// A choice of services.
    type ServiceSelector;

    /// A choice of getters.
    type GetterSelector;

    /// A choice of setters.
    type SetterSelector;

    /// Whether a service is among those that a selector chooses.
    fn service_matches(
        service: &Service<Self::Getter, Self::Setter>,
        selector: &Self::ServiceSelector,
    ) -> bool;

    /// Whether a getter is among those that a selector chooses.
    fn getter_matches(getter: &Channel<Self::Getter>, selector: &Self::GetterSelector) -> bool;

    /// Whether a setter is among those that a selector chooses.
    fn setter_matches(setter: &Channel<Self::Setter>, selector: &Self::SetterSelector) -> bool;

    /// What an adapter is to report to, so that the client who listens to `on_event` is told of
    /// the events of a watch for as long as `is_dropped` is not raised.
    fn sink(on_event: &Arc<Self::EventSender>, is_dropped: &Arc<AtomicBool>) -> Self::EventSink;

    /// Tells the client who listens to `on_event` of some events, one by one, in order.
    fn notify(
        on_event: &Arc<Self::EventSender>,
        events: Vec<WatchEvent<Self::Value, Self::AdapterError>>,
    );
}

/// An adapter: the code in charge of a family of devices.
///
/// The contracts of the registry say what an adapter is asked, and that its reply is passed on.
/// Calls by shared reference leave no trace behind, so no contract says that there is no further
/// call.
pub trait Adapter<X: Taxonomy>: Sized {
    /// The identifier of the adapter.
    fn id(&self) -> AdapterId;

    /// Reads the latest values of some getters.
    fn fetch_values(&self, getters: Vec<GetterId>) -> Vec<
        (GetterId, Result<Option<X::Value>, X::AdapterError>),
    >;

    /// Sends values to some setters.
    fn send_values(&self, values: Vec<(SetterId, Arc<X::Value>)>) -> Vec<
        (SetterId, Result<(), X::AdapterError>),
    >;

    /// Watches some getters, each for all its values or for those within a range.
    fn register_watch(
        &self,
        watch: Vec<(GetterId, Option<Arc<X::Range>>)>,
        on_event: X::EventSink,
    ) -> Vec<(GetterId, Result<X::AdapterWatchGuard, X::AdapterError>)>;
}

/// `answer` is a possible answer to whether `selector` chooses `service`.
pub open spec fn service_answer<X: Taxonomy>(
    service: ServiceView<X::Getter, X::Setter>,
    selector: X::ServiceSelector,
    answer: bool,
) -> bool {
    exists|s: Service<X::Getter, X::Setter>|
        s@ == service && #[trigger] call_ensures(X::service_matches, (&s, &selector), answer)
}

/// `answer` is a possible answer to whether `selector` chooses `getter`.
pub open spec fn getter_answer<X: Taxonomy>(
    getter: ChannelView<X::Getter>,
    selector: X::GetterSelector,
    answer: bool,
) -> bool {
    exists|c: Channel<X::Getter>|
        c@ == getter && #[trigger] call_ensures(X::getter_matches, (&c, &selector), answer)
}

/// `answer` is a possible answer to whether `selector` chooses `setter`.
pub open spec fn setter_answer<X: Taxonomy>(
    setter: ChannelView<X::Setter>,
    selector: X::SetterSelector,
    answer: bool,
) -> bool {
    exists|c: Channel<X::Setter>|
        c@ == setter && #[trigger] call_ensures(X::setter_matches, (&c, &selector), answer)
}

/// `id` is a possible reply of `adapter` when it is asked for its identifier.
pub open spec fn id_reply<X: Taxonomy, A: Adapter<X>>(adapter: A, id: AdapterId) -> bool {
    call_ensures(A::id, (&adapter,), id)
}

/// `reply` is a possible reply of `adapter` to a request for the values of `getters`.
pub open spec fn fetch_reply<X: Taxonomy, A: Adapter<X>>(
    adapter: A,
    getters: Seq<GetterId>,
    reply: Seq<(GetterId, Result<Option<X::Value>, X::AdapterError>)>,
) -> bool {
    exists|request: Vec<GetterId>, got: Vec<(GetterId, Result<Option<X::Value>, X::AdapterError>)>|
        request@ == getters && got@ == reply && #[trigger] call_ensures(
            A::fetch_values,
            (&adapter, request),
            got,
        )
}

/// `reply` is a possible reply of `adapter` to a request to send `values`.
pub open spec fn send_reply<X: Taxonomy, A: Adapter<X>>(
    adapter: A,
    values: Seq<(SetterId, Arc<X::Value>)>,
    reply: Seq<(SetterId, Result<(), X::AdapterError>)>,
) -> bool {
    exists|
        request: Vec<(SetterId, Arc<X::Value>)>,
        got: Vec<(SetterId, Result<(), X::AdapterError>)>,
    |
        request@ == values && got@ == reply && #[trigger] call_ensures(
            A::send_values,
            (&adapter, request),
            got,
        )
}

/// `sink` is a possible way to report the events of a watch to the client who listens to
/// `on_event`.
pub open spec fn reports_to<X: Taxonomy>(
    sink: X::EventSink,
    on_event: Arc<X::EventSender>,
    is_dropped: Arc<AtomicBool>,
) -> bool {
    call_ensures(X::sink, (&on_event, &is_dropped), sink)
}

/// The client who listens to `on_event` was told of this list of events, all at once and in this
/// order, unless there are none.
pub open spec fn told_of<X: Taxonomy>(
    on_event: Arc<X::EventSender>,
    events: Seq<WatchEvent<X::Value, X::AdapterError>>,
) -> bool {
    events.len() > 0 ==> exists|list: Vec<WatchEvent<X::Value, X::AdapterError>>|
        list@ == events && #[trigger] call_ensures(X::notify, (&on_event, list), ())
}

/// `reply` is a possible reply of `adapter` to a request to watch `watch` and to report to `sink`.
pub open spec fn watch_reply<X: Taxonomy, A: Adapter<X>>(
    adapter: A,
    watch: Seq<(GetterId, Option<Arc<X::Range>>)>,
    sink: X::EventSink,
    reply: Seq<(GetterId, Result<X::AdapterWatchGuard, X::AdapterError>)>,
) -> bool {
    exists|
        request: Vec<(GetterId, Option<Arc<X::Range>>)>,
        got: Vec<(GetterId, Result<X::AdapterWatchGuard, X::AdapterError>)>,
    |
        request@ == watch && got@ == reply && #[trigger] call_ensures(
            A::register_watch,
            (&adapter, request, sink),
            got,
        )
}

} // verus!
