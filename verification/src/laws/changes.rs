//! What additions and removals come to, part by part.
use vstd::prelude::*;

use crate::adapter::{id_reply, Adapter, Taxonomy};
use crate::laws::registration::{
    law_remove_adapter_takes_all_of_it, law_remove_service_takes_all_of_it,
};
use crate::laws::requests::{law_reachable_is_consistent, reachable};
use crate::model::Registry;
use crate::types::{
    AdapterId, ChannelView, Error, GetterId, InternalError, ServiceId, ServiceView, SetterId,
};

verus! {

/// A new registry holds nothing, and its first watch will have the key 0.
pub proof fn law_new_registry_is_empty<X: Taxonomy, A>()
    ensures
        forall|a: AdapterId| !#[trigger] Registry::<X, A>::empty().adapters.contains_key(a),
        forall|s: ServiceId| !#[trigger] Registry::<X, A>::empty().services.contains_key(s),
        forall|g: GetterId| !#[trigger] Registry::<X, A>::empty().getters.contains_key(g),
        forall|t: SetterId| !#[trigger] Registry::<X, A>::empty().setters.contains_key(t),
        forall|k: usize|
            !#[trigger] Registry::<X, A>::empty().watches.watchers.contains_key(k),
        Registry::<X, A>::empty().watches.next_key == 0,
{
}

/// `result` and `after` are the outcome of adding an adapter, told part by part.
pub open spec fn adapter_added_exactly<X: Taxonomy, A>(
    registry: Registry<X, A>,
    id: AdapterId,
    adapter: A,
    result: Result<(), Error>,
    after: Registry<X, A>,
) -> bool {
    if registry.adapters.contains_key(id) {
        &&& result == Err::<(), Error>(
            Error::InternalError(InternalError::DuplicateAdapter(id)),
        )
        &&& after == registry
    } else {
        &&& result == Ok::<(), Error>(())
        &&& after.services == registry.services
        &&& after.getters == registry.getters
        &&& after.setters == registry.setters
        &&& after.watches == registry.watches
        &&& forall|a: AdapterId| #[trigger]
            after.adapters.contains_key(a) <==> registry.adapters.contains_key(a) || a == id
        &&& after.adapters[id].adapter == adapter
        &&& forall|s: ServiceId| !#[trigger] after.adapters[id].services.contains(s)
        &&& forall|a: AdapterId| #[trigger]
            registry.adapters.contains_key(a) ==> after.adapters[a] == registry.adapters[a]
    }
}

/// Adding an adapter is refused, and changes nothing, if the identifier is taken. Otherwise the
/// adapter is registered, without services, and nothing else changes.
pub proof fn law_adapter_is_added<X: Taxonomy, A>(
    registry: Registry<X, A>,
    id: AdapterId,
    adapter: A,
)
    ensures
        adapter_added_exactly(
            registry,
            id, adapter,
            registry.add_adapter(id, adapter).0,
            registry.add_adapter(id, adapter).1,
        ),
{
}

/// `result` and `after` are the outcome of removing an adapter, told part by part.
pub open spec fn adapter_removed_exactly<X: Taxonomy, A>(
    registry: Registry<X, A>,
    id: AdapterId,
    result: Result<(), Error>,
    after: Registry<X, A>,
) -> bool {
    if !registry.adapters.contains_key(id) {
        &&& result == Err::<(), Error>(
            Error::InternalError(InternalError::NoSuchAdapter(id)),
        )
        &&& after == registry
    } else {
        &&& result == Ok::<(), Error>(())
        &&& after.watches == registry.watches
        &&& forall|a: AdapterId| #[trigger]
            after.adapters.contains_key(a) <==> registry.adapters.contains_key(a) && a != id
        &&& forall|a: AdapterId| #[trigger]
            after.adapters.contains_key(a) ==> after.adapters[a] == registry.adapters[a]
        &&& forall|s: ServiceId| #[trigger]
            after.services.contains_key(s) <==> registry.services.contains_key(s)
                && registry.services[s].adapter != id
        &&& forall|s: ServiceId| #[trigger]
            after.services.contains_key(s) ==> after.services[s] == registry.services[s]
        &&& forall|g: GetterId| #[trigger]
            after.getters.contains_key(g) <==> registry.getters.contains_key(g)
                && registry.getters[g].channel.adapter != id
        &&& forall|g: GetterId| #[trigger]
            after.getters.contains_key(g) ==> after.getters[g] == registry.getters[g]
        &&& forall|t: SetterId| #[trigger]
            after.setters.contains_key(t) <==> registry.setters.contains_key(t)
                && registry.setters[t].adapter != id
        &&& forall|t: SetterId| #[trigger]
            after.setters.contains_key(t) ==> after.setters[t] == registry.setters[t]
    }
}

/// Removing an adapter is refused, and changes nothing, if there is none with this identifier.
/// Otherwise it is no longer registered, nor are the services and channels that belong to it, and
/// nothing else changes.
pub proof fn law_adapter_is_removed<X: Taxonomy, A>(registry: Registry<X, A>, id: AdapterId)
    requires
        registry.consistent(),
    ensures
        adapter_removed_exactly(
            registry,
            id,
            registry.remove_adapter(id).0,
            registry.remove_adapter(id).1,
        ),
{
    if registry.adapters.contains_key(id) {
        law_remove_adapter_takes_all_of_it(registry, id);
    }
}

/// `result` and `after` are the outcome of adding a service, told part by part.
pub open spec fn service_added_exactly<X: Taxonomy, A>(
    registry: Registry<X, A>,
    service: ServiceView<X::Getter, X::Setter>,
    result: Result<(), Error>,
    after: Registry<X, A>,
) -> bool {
    if (exists|g: GetterId| #[trigger] service.getters.contains_key(g)) || (exists|
        t: SetterId,
    | #[trigger]
        service.setters.contains_key(t)) {
        &&& result == Err::<(), Error>(
            Error::InternalError(InternalError::InvalidInitialService),
        )
        &&& after == registry
    } else if !registry.adapters.contains_key(service.adapter) {
        &&& result == Err::<(), Error>(
            Error::InternalError(InternalError::NoSuchAdapter(service.adapter)),
        )
        &&& after == registry
    } else if registry.services.contains_key(service.id) {
        &&& result == Err::<(), Error>(
            Error::InternalError(InternalError::DuplicateService(service.id)),
        )
        &&& after == registry
    } else {
        &&& result == Ok::<(), Error>(())
        &&& after.getters == registry.getters
        &&& after.setters == registry.setters
        &&& after.watches == registry.watches
        &&& forall|s: ServiceId| #[trigger]
            after.services.contains_key(s) <==> registry.services.contains_key(s) || s
                == service.id
        &&& after.services[service.id] == service
        &&& forall|s: ServiceId| #[trigger]
            registry.services.contains_key(s) ==> after.services[s] == registry.services[s]
        &&& after.adapters.dom() == registry.adapters.dom()
        &&& forall|a: AdapterId| #[trigger]
            registry.adapters.contains_key(a) ==> {
                &&& after.adapters[a].adapter == registry.adapters[a].adapter
                &&& forall|s: ServiceId| #[trigger]
                    after.adapters[a].services.contains(s) <==> {
                        ||| registry.adapters[a].services.contains(s)
                        ||| a == service.adapter && s == service.id
                    }
            }
    }
}

/// Adding a service is refused, and changes nothing, if it comes with channels, or else its
/// adapter is not registered, or else the identifier is taken. Otherwise the service is
/// registered, its adapter holds it, and nothing else changes.
pub proof fn law_service_is_added<X: Taxonomy, A>(
    registry: Registry<X, A>,
    service: ServiceView<X::Getter, X::Setter>,
)
    requires
        registry.consistent(),
    ensures
        service_added_exactly(
            registry,
            service,
            registry.add_service(service).0,
            registry.add_service(service).1,
        ),
{
    if exists|g: GetterId| #[trigger] service.getters.contains_key(g) {
        let g = choose|g: GetterId| #[trigger] service.getters.contains_key(g);
        assert(service.getters.dom().contains(g));
        assert(!service.getters.is_empty());
    }
    if exists|t: SetterId| #[trigger] service.setters.contains_key(t) {
        let t = choose|t: SetterId| #[trigger] service.setters.contains_key(t);
        assert(service.setters.dom().contains(t));
        assert(!service.setters.is_empty());
    }
    if !service.getters.is_empty() {
        assert(!(service.getters.dom() =~= Set::empty()));
    }
    if !service.setters.is_empty() {
        assert(!(service.setters.dom() =~= Set::empty()));
    }
    let (result, after) = registry.add_service(service);
    if result is Ok {
        assert(after.adapters.dom() =~= registry.adapters.dom());
    }
}

/// `result` and `after` are the outcome of removing a service, told part by part.
pub open spec fn service_removed_exactly<X: Taxonomy, A>(
    registry: Registry<X, A>,
    id: ServiceId,
    result: Result<(), Error>,
    after: Registry<X, A>,
) -> bool {
    if !registry.services.contains_key(id) {
        &&& result == Err::<(), Error>(
            Error::InternalError(InternalError::NoSuchService(id)),
        )
        &&& after == registry
    } else {
        &&& result == Ok::<(), Error>(())
        &&& after.watches == registry.watches
        &&& forall|s: ServiceId| #[trigger]
            after.services.contains_key(s) <==> registry.services.contains_key(s) && s != id
        &&& forall|s: ServiceId| #[trigger]
            after.services.contains_key(s) ==> after.services[s] == registry.services[s]
        &&& after.adapters.dom() == registry.adapters.dom()
        &&& forall|a: AdapterId| #[trigger]
            registry.adapters.contains_key(a) ==> {
                &&& after.adapters[a].adapter == registry.adapters[a].adapter
                &&& forall|s: ServiceId| #[trigger]
                    after.adapters[a].services.contains(s)
                        <==> registry.adapters[a].services.contains(s) && s != id
            }
        &&& forall|g: GetterId| #[trigger]
            after.getters.contains_key(g) <==> registry.getters.contains_key(g)
                && registry.getters[g].channel.service != id
        &&& forall|g: GetterId| #[trigger]
            after.getters.contains_key(g) ==> after.getters[g] == registry.getters[g]
        &&& forall|t: SetterId| #[trigger]
            after.setters.contains_key(t) <==> registry.setters.contains_key(t)
                && registry.setters[t].service != id
        &&& forall|t: SetterId| #[trigger]
            after.setters.contains_key(t) ==> after.setters[t] == registry.setters[t]
    }
}

/// Removing a service is refused, and changes nothing, if there is none with this identifier.
/// Otherwise it is no longer registered, nor are the channels that belong to it, its adapter no
/// longer holds it, and nothing else changes.
pub proof fn law_service_is_removed<X: Taxonomy, A>(registry: Registry<X, A>, id: ServiceId)
    requires
        registry.consistent(),
    ensures
        service_removed_exactly(
            registry,
            id,
            registry.remove_service(id).0,
            registry.remove_service(id).1,
        ),
{
    if registry.services.contains_key(id) {
        law_remove_service_takes_all_of_it(registry, id);
        let after = registry.remove_service(id).1;
        assert forall|a: AdapterId| #[trigger] registry.adapters.contains_key(a) implies {
            &&& after.adapters[a].adapter == registry.adapters[a].adapter
            &&& after.adapters[a].services == registry.adapters[a].services.remove(id)
        } by {
            assert(after.adapters.contains_key(a));
        }
    }
}

/// `result` and `after` are the outcome of adding a getter, told part by part.
pub open spec fn getter_added_exactly<X: Taxonomy, A>(
    registry: Registry<X, A>,
    getter: ChannelView<X::Getter>,
    result: Result<(), Error>,
    after: Registry<X, A>,
) -> bool {
    if !registry.services.contains_key(getter.service) {
        &&& result == Err::<(), Error>(
            Error::InternalError(InternalError::NoSuchService(getter.service)),
        )
        &&& after == registry
    } else if registry.services[getter.service].adapter != getter.adapter {
        &&& result == Err::<(), Error>(
            Error::InternalError(
                InternalError::ConflictingAdapter(
                    registry.services[getter.service].adapter,
                    getter.adapter,
                ),
            ),
        )
        &&& after == registry
    } else if registry.getters.contains_key(getter.id) {
        &&& result == Err::<(), Error>(
            Error::InternalError(InternalError::DuplicateGetter(getter.id)),
        )
        &&& after == registry
    } else {
        &&& result == Ok::<(), Error>(())
        &&& after.adapters == registry.adapters
        &&& after.setters == registry.setters
        &&& after.watches == registry.watches
        &&& forall|g: GetterId| #[trigger]
            after.getters.contains_key(g) <==> registry.getters.contains_key(g) || g == getter.id
        &&& after.getters[getter.id].channel == getter
        &&& forall|k: usize| !#[trigger] after.getters[getter.id].watchers.contains(k)
        &&& forall|g: GetterId| #[trigger]
            registry.getters.contains_key(g) ==> after.getters[g] == registry.getters[g]
        &&& after.services.dom() == registry.services.dom()
        &&& forall|s: ServiceId| #[trigger]
            registry.services.contains_key(s) ==> {
                let before = registry.services[s];
                let now = after.services[s];
                &&& now.id == before.id
                &&& now.adapter == before.adapter
                &&& now.tags == before.tags
                &&& now.setters == before.setters
                &&& s != getter.service ==> now.getters == before.getters
                &&& s == getter.service ==> {
                    &&& forall|g: GetterId| #[trigger]
                        now.getters.contains_key(g) <==> before.getters.contains_key(g) || g
                            == getter.id
                    &&& now.getters[getter.id] == getter
                    &&& forall|g: GetterId| #[trigger]
                        before.getters.contains_key(g) ==> now.getters[g] == before.getters[g]
                }
            }
    }
}

/// Adding a getter is refused, and changes nothing, if its service is not registered, or else
/// belongs to another adapter, or else the identifier is taken. Otherwise the getter is registered,
/// its service holds it as well, and nothing else changes.
pub proof fn law_getter_is_added<X: Taxonomy, A>(
    registry: Registry<X, A>,
    getter: ChannelView<X::Getter>,
)
    requires
        registry.consistent(),
    ensures
        getter_added_exactly(
            registry,
            getter,
            registry.add_getter(getter).0,
            registry.add_getter(getter).1,
        ),
{
    assert(registry.add_getter(getter).0 is Ok ==> registry.add_getter(getter).1.services.dom()
        =~= registry.services.dom());
}

/// `result` and `after` are the outcome of removing a getter, told part by part.
pub open spec fn getter_removed_exactly<X: Taxonomy, A>(
    registry: Registry<X, A>,
    id: GetterId,
    result: Result<(), Error>,
    after: Registry<X, A>,
) -> bool {
    if !registry.getters.contains_key(id) {
        &&& result == Err::<(), Error>(Error::InternalError(InternalError::NoSuchGetter(id)))
        &&& after == registry
    } else {
        &&& result == Ok::<(), Error>(())
        &&& after.adapters == registry.adapters
        &&& after.setters == registry.setters
        &&& after.watches == registry.watches
        &&& forall|g: GetterId| #[trigger]
            after.getters.contains_key(g) <==> registry.getters.contains_key(g) && g != id
        &&& forall|g: GetterId| #[trigger]
            after.getters.contains_key(g) ==> after.getters[g] == registry.getters[g]
        &&& after.services.dom() == registry.services.dom()
        &&& forall|s: ServiceId| #[trigger]
            registry.services.contains_key(s) ==> {
                let before = registry.services[s];
                let now = after.services[s];
                &&& now.id == before.id
                &&& now.adapter == before.adapter
                &&& now.tags == before.tags
                &&& now.setters == before.setters
                &&& forall|g: GetterId| #[trigger]
                    now.getters.contains_key(g) <==> before.getters.contains_key(g) && g != id
                &&& forall|g: GetterId| #[trigger]
                    now.getters.contains_key(g) ==> now.getters[g] == before.getters[g]
            }
    }
}

/// Removing a getter is refused, and changes nothing, if there is none with this identifier.
/// Otherwise the getter is no longer registered, its service no longer holds it, and nothing else
/// changes.
pub proof fn law_getter_is_removed<X: Taxonomy, A>(registry: Registry<X, A>, id: GetterId)
    requires
        registry.consistent(),
    ensures
        getter_removed_exactly(
            registry,
            id,
            registry.remove_getter(id).0,
            registry.remove_getter(id).1,
        ),
{
    let after = registry.remove_getter(id).1;
    if registry.getters.contains_key(id) {
        assert(after.services.dom() =~= registry.services.dom());
        assert forall|s: ServiceId| #[trigger]
            registry.services.contains_key(s) && s
                != registry.getters[id].channel.service implies
            !registry.services[s].getters.contains_key(id) by {}
    }
}

/// `result` and `after` are the outcome of adding a setter, told part by part.
pub open spec fn setter_added_exactly<X: Taxonomy, A>(
    registry: Registry<X, A>,
    setter: ChannelView<X::Setter>,
    result: Result<(), Error>,
    after: Registry<X, A>,
) -> bool {
    if !registry.services.contains_key(setter.service) {
        &&& result == Err::<(), Error>(
            Error::InternalError(InternalError::NoSuchService(setter.service)),
        )
        &&& after == registry
    } else if registry.services[setter.service].adapter != setter.adapter {
        &&& result == Err::<(), Error>(
            Error::InternalError(
                InternalError::ConflictingAdapter(
                    registry.services[setter.service].adapter,
                    setter.adapter,
                ),
            ),
        )
        &&& after == registry
    } else if registry.setters.contains_key(setter.id) {
        &&& result == Err::<(), Error>(
            Error::InternalError(InternalError::DuplicateSetter(setter.id)),
        )
        &&& after == registry
    } else {
        &&& result == Ok::<(), Error>(())
        &&& after.adapters == registry.adapters
        &&& after.getters == registry.getters
        &&& after.watches == registry.watches
        &&& forall|t: SetterId| #[trigger]
            after.setters.contains_key(t) <==> registry.setters.contains_key(t) || t == setter.id
        &&& after.setters[setter.id] == setter
        &&& forall|t: SetterId| #[trigger]
            registry.setters.contains_key(t) ==> after.setters[t] == registry.setters[t]
        &&& after.services.dom() == registry.services.dom()
        &&& forall|s: ServiceId| #[trigger]
            registry.services.contains_key(s) ==> {
                let before = registry.services[s];
                let now = after.services[s];
                &&& now.id == before.id
                &&& now.adapter == before.adapter
                &&& now.tags == before.tags
                &&& now.getters == before.getters
                &&& s != setter.service ==> now.setters == before.setters
                &&& s == setter.service ==> {
                    &&& forall|t: SetterId| #[trigger]
                        now.setters.contains_key(t) <==> before.setters.contains_key(t) || t
                            == setter.id
                    &&& now.setters[setter.id] == setter
                    &&& forall|t: SetterId| #[trigger]
                        before.setters.contains_key(t) ==> now.setters[t] == before.setters[t]
                }
            }
    }
}

/// Adding a setter is refused, and changes nothing, if its service is not registered, or else
/// belongs to another adapter, or else the identifier is taken. Otherwise the setter is registered,
/// its service holds it as well, and nothing else changes.
pub proof fn law_setter_is_added<X: Taxonomy, A>(
    registry: Registry<X, A>,
    setter: ChannelView<X::Setter>,
)
    requires
        registry.consistent(),
    ensures
        setter_added_exactly(
            registry,
            setter,
            registry.add_setter(setter).0,
            registry.add_setter(setter).1,
        ),
{
    assert(registry.add_setter(setter).0 is Ok ==> registry.add_setter(setter).1.services.dom()
        =~= registry.services.dom());
}

/// `result` and `after` are the outcome of removing a setter, told part by part.
pub open spec fn setter_removed_exactly<X: Taxonomy, A>(
    registry: Registry<X, A>,
    id: SetterId,
    result: Result<(), Error>,
    after: Registry<X, A>,
) -> bool {
    if !registry.setters.contains_key(id) {
        &&& result == Err::<(), Error>(Error::InternalError(InternalError::NoSuchSetter(id)))
        &&& after == registry
    } else {
        &&& result == Ok::<(), Error>(())
        &&& after.adapters == registry.adapters
        &&& after.getters == registry.getters
        &&& after.watches == registry.watches
        &&& forall|t: SetterId| #[trigger]
            after.setters.contains_key(t) <==> registry.setters.contains_key(t) && t != id
        &&& forall|t: SetterId| #[trigger]
            after.setters.contains_key(t) ==> after.setters[t] == registry.setters[t]
        &&& after.services.dom() == registry.services.dom()
        &&& forall|s: ServiceId| #[trigger]
            registry.services.contains_key(s) ==> {
                let before = registry.services[s];
                let now = after.services[s];
                &&& now.id == before.id
                &&& now.adapter == before.adapter
                &&& now.tags == before.tags
                &&& now.getters == before.getters
                &&& forall|t: SetterId| #[trigger]
                    now.setters.contains_key(t) <==> before.setters.contains_key(t) && t != id
                &&& forall|t: SetterId| #[trigger]
                    now.setters.contains_key(t) ==> now.setters[t] == before.setters[t]
            }
    }
}

/// Removing a setter is refused, and changes nothing, if there is none with this identifier.
/// Otherwise the setter is no longer registered, its service no longer holds it, and nothing else
/// changes.
pub proof fn law_setter_is_removed<X: Taxonomy, A>(registry: Registry<X, A>, id: SetterId)
    requires
        registry.consistent(),
    ensures
        setter_removed_exactly(
            registry,
            id,
            registry.remove_setter(id).0,
            registry.remove_setter(id).1,
        ),
{
    let after = registry.remove_setter(id).1;
    if registry.setters.contains_key(id) {
        assert(after.services.dom() =~= registry.services.dom());
        assert forall|s: ServiceId| #[trigger] registry.services.contains_key(s) && s
            != registry.setters[id].service implies !registry.services[s].setters.contains_key(
            id,
        ) by {}
    }
}

/// In a registry that requests lead to, each adapter stands under an identifier that it gave; a
/// service stands under its own identifier and belongs to the registered adapter that holds it,
/// and to no other; a channel stands under its own identifier, belongs to the adapter of its
/// service, and is held by that service and by no other. The key of a watch is its own, and is
/// smaller than the next one; a getter is included only in watches that are going on and know it.
pub proof fn law_parts_belong_together<X: Taxonomy, A: Adapter<X>>(registry: Registry<X, A>)
    requires
        reachable(registry),
    ensures
        forall|a: AdapterId| #[trigger]
            registry.adapters.contains_key(a) ==> call_ensures(
                A::id,
                (&registry.adapters[a].adapter,),
                a,
            ),
        forall|s: ServiceId| #[trigger]
            registry.services.contains_key(s) ==> {
                &&& registry.services[s].id == s
                &&& registry.adapters.contains_key(registry.services[s].adapter)
            },
        forall|a: AdapterId, s: ServiceId|
            registry.adapters.contains_key(a) ==> (
            #[trigger] registry.adapters[a].services.contains(s)
                <==> registry.services.contains_key(s) && registry.services[s].adapter == a),
        forall|g: GetterId| #[trigger]
            registry.getters.contains_key(g) ==> {
                let c = registry.getters[g].channel;
                &&& c.id == g
                &&& registry.services.contains_key(c.service)
                &&& registry.services[c.service].adapter == c.adapter
            },
        forall|s: ServiceId, g: GetterId|
            registry.services.contains_key(s) ==> (
            #[trigger] registry.services[s].getters.contains_key(g)
                <==> registry.getters.contains_key(g) && registry.getters[g].channel.service == s),
        forall|t: SetterId| #[trigger]
            registry.setters.contains_key(t) ==> {
                let c = registry.setters[t];
                &&& c.id == t
                &&& registry.services.contains_key(c.service)
                &&& registry.services[c.service].adapter == c.adapter
            },
        forall|s: ServiceId, t: SetterId|
            registry.services.contains_key(s) ==> (
            #[trigger] registry.services[s].setters.contains_key(t)
                <==> registry.setters.contains_key(t) && registry.setters[t].service == s),
        forall|k: usize| #[trigger]
            registry.watches.watchers.contains_key(k) ==> {
                &&& registry.watches.watchers[k].key == k
                &&& k < registry.watches.next_key
            },
        forall|g: GetterId, k: usize|
            registry.getters.contains_key(g) && #[trigger] registry.getters[g].watchers.contains(k)
                ==> {
                &&& registry.watches.watchers.contains_key(k)
                &&& registry.watches.watchers[k].getters.contains(g)
            },
{
    law_reachable_is_consistent(registry);
    assert forall|a: AdapterId| #[trigger] registry.adapters.contains_key(a) implies call_ensures(
        A::id,
        (&registry.adapters[a].adapter,),
        a,
    ) by {
        assert(id_reply::<X, A>(registry.adapters[a].adapter, a));
    }
    assert forall|a: AdapterId, s: ServiceId|
        #![trigger registry.adapters[a].services.contains(s)]
        registry.adapters.contains_key(a) implies (registry.adapters[a].services.contains(s)
        <==> registry.services.contains_key(s) && registry.services[s].adapter == a) by {}
    assert forall|s: ServiceId, g: GetterId|
        registry.services.contains_key(s) implies (
        #[trigger] registry.services[s].getters.contains_key(g)
            <==> registry.getters.contains_key(g) && registry.getters[g].channel.service == s) by {
        if registry.getters.contains_key(g) && registry.getters[g].channel.service == s {
            assert(registry.services[s].getters.contains_key(g));
        }
    }
}

} // verus!
